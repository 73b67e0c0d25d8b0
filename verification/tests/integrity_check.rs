use faith::error::FaithErrorKind;
use faith::integrity::{normalize_integrity, verify_integrity};

#[test]
fn test_sha256_valid() {
    let data = b"hello world";
    let integrity = "sha256-uU0nuZNNPgilLlLX2n2r+sSE7+N6U4DukIj3rOLvzek=";
    assert!(verify_integrity(data, integrity).is_ok());
}

#[test]
fn test_sha384_valid() {
    let data = b"hello world";
    let integrity = "sha384-/b2OdaZ/KfcBpOBAOF4uI5hjA+oQI5IRr5B/y7g1eLPkF8txzmRu/QgZ3YwIjeG9";
    assert!(verify_integrity(data, integrity).is_ok());
}

#[test]
fn test_sha512_valid() {
    let data = b"hello world";
    let integrity = "sha512-MJ7MSJwS1utMxA9QyQLytNDtd+5RGnx6m808qG1M2G+YndNbxf9JlnDaNCVbRbDP2DDoH2Bdz33FVC6TrpzXbw==";
    assert!(verify_integrity(data, integrity).is_ok());
}

#[test]
fn test_wrong_hash() {
    let data = b"hello world";
    let integrity = "sha256-wronghashvalue";
    let result = verify_integrity(data, integrity);
    assert!(result.is_err());
    assert!(matches!(
        result.unwrap_err().kind,
        FaithErrorKind::IntegrityMismatch
    ));
}

#[test]
fn test_multiple_hashes_one_correct() {
    let data = b"hello world";
    let integrity = "sha256-wronghash sha256-uU0nuZNNPgilLlLX2n2r+sSE7+N6U4DukIj3rOLvzek=";
    assert!(verify_integrity(data, integrity).is_ok());
}

#[test]
fn test_multiple_hashes_all_wrong() {
    let data = b"hello world";
    let integrity = "sha256-wronghash1 sha256-wronghash2";
    let result = verify_integrity(data, integrity);
    assert!(result.is_err());
    assert!(matches!(
        result.unwrap_err().kind,
        FaithErrorKind::IntegrityMismatch
    ));
}

#[test]
fn test_unknown_algorithm_skipped() {
    let data = b"hello world";
    let integrity = "sha1-ignored sha256-uU0nuZNNPgilLlLX2n2r+sSE7+N6U4DukIj3rOLvzek=";
    assert!(verify_integrity(data, integrity).is_ok());
}

#[test]
fn test_empty_string() {
    let data = b"hello world";
    assert!(verify_integrity(data, "").is_ok());
    assert!(verify_integrity(data, "   ").is_ok());
}

#[test]
fn test_case_insensitive_algorithm() {
    let data = b"hello world";
    let integrity = "SHA256-uU0nuZNNPgilLlLX2n2r+sSE7+N6U4DukIj3rOLvzek=";
    assert!(verify_integrity(data, integrity).is_ok());

    let integrity = "Sha256-uU0nuZNNPgilLlLX2n2r+sSE7+N6U4DukIj3rOLvzek=";
    assert!(verify_integrity(data, integrity).is_ok());
}

#[test]
fn test_unparseable_integrity_reports_invalid() {
    let data = b"hello world";
    let result = verify_integrity(data, "md5-deadbeef");
    assert!(result.is_err());
    let err = result.unwrap_err();
    assert!(matches!(err.kind, FaithErrorKind::InvalidIntegrity));
    assert!(err.message.is_some());
}

#[test]
fn test_normalize_lowercases_algorithm_only() {
    assert_eq!(
        normalize_integrity("SHA256-AbC="),
        "sha256-AbC=".to_string()
    );
    assert_eq!(
        normalize_integrity("  Sha256-x   SHA512-Y  "),
        "sha256-x sha512-Y".to_string()
    );
    assert_eq!(normalize_integrity("noseparator"), "noseparator".to_string());
    assert_eq!(normalize_integrity(""), "".to_string());
}
