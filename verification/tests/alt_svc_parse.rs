use faith::alt_svc::parse_alt_svc_header;

#[test]
fn test_parse_alt_svc_simple() {
    let result = parse_alt_svc_header(r#"h3=":443"; ma=86400"#);
    assert_eq!(result, Some((443, Some(86400))));
}

#[test]
fn test_parse_alt_svc_no_max_age() {
    let result = parse_alt_svc_header(r#"h3=":443""#);
    assert_eq!(result, Some((443, None)));
}

#[test]
fn test_parse_alt_svc_different_port() {
    let result = parse_alt_svc_header(r#"h3=":8443"; ma=3600"#);
    assert_eq!(result, Some((8443, Some(3600))));
}

#[test]
fn test_parse_alt_svc_multiple_protocols() {
    let result = parse_alt_svc_header(r#"h2=":443", h3=":443"; ma=86400"#);
    assert_eq!(result, Some((443, Some(86400))));
}

#[test]
fn test_parse_alt_svc_h3_variant() {
    let result = parse_alt_svc_header(r#"h3-29=":443"; ma=86400"#);
    assert_eq!(result, Some((443, Some(86400))));
}

#[test]
fn test_parse_alt_svc_clear() {
    let result = parse_alt_svc_header("clear");
    assert_eq!(result, None);
}

#[test]
fn test_parse_alt_svc_no_h3() {
    let result = parse_alt_svc_header(r#"h2=":443"; ma=86400"#);
    assert_eq!(result, None);
}

#[test]
fn test_parse_empty_header() {
    assert_eq!(parse_alt_svc_header(""), None);
    assert_eq!(parse_alt_svc_header("   "), None);
}

#[test]
fn test_parse_port_out_of_range() {
    // 70000 does not fit a u16, so the parameter is skipped and the
    // entry carries no usable port
    assert_eq!(parse_alt_svc_header(r#"h3=":70000""#), None);
    // a later entry with a good port still wins
    assert_eq!(parse_alt_svc_header(r#"h3=":70000", h3=":443""#), Some((443, None)));
}

#[test]
fn test_parse_malformed_ma_skipped() {
    // an unparseable ma is skipped per parameter, not fatal
    assert_eq!(parse_alt_svc_header(r#"h3=":443"; ma=soon"#), Some((443, None)));
}

#[test]
fn test_parse_first_entry_wins() {
    let result = parse_alt_svc_header(r#"h3=":8443"; ma=100, h3=":443"; ma=200"#);
    assert_eq!(result, Some((8443, Some(100))));
}

#[test]
fn test_parse_unquoted_authority() {
    assert_eq!(parse_alt_svc_header("h3=:443"), Some((443, None)));
}

#[test]
fn test_parse_ma_huge_value() {
    // a value beyond u64 cannot parse; the entry still yields its port
    let result = parse_alt_svc_header(r#"h3=":443"; ma=99999999999999999999999999"#);
    assert_eq!(result, Some((443, None)));
}

#[test]
fn test_parse_host_and_port_authority() {
    assert_eq!(parse_alt_svc_header(r#"h3="alt.example.com:9443""#), Some((9443, None)));
}
