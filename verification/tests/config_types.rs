use faith::agent::{AgentStats, Http3Congestion, Redirect};
use faith::error::{FaithError, FaithErrorKind};
use faith::options::CredentialsOption;

#[test]
fn test_error_kind_default_messages() {
    assert_eq!(FaithErrorKind::Aborted.default_message(), "the request was aborted");
    assert_eq!(FaithErrorKind::Timeout.default_message(), "timed out");
    assert_eq!(FaithErrorKind::Network.default_message(), "network error");
}

#[test]
fn test_error_from_kind_has_no_message() {
    let err = FaithError::from(FaithErrorKind::InvalidUrl);
    assert!(matches!(err.kind, FaithErrorKind::InvalidUrl));
    assert!(err.message.is_none());
}

#[test]
fn test_error_new_keeps_message() {
    let err = FaithError::new(FaithErrorKind::Network, Some("connection reset".to_string()));
    assert!(matches!(err.kind, FaithErrorKind::Network));
    assert_eq!(err.message.as_deref(), Some("connection reset"));
}

#[test]
fn test_option_defaults() {
    assert!(matches!(Http3Congestion::default(), Http3Congestion::Cubic));
    assert!(matches!(Redirect::default(), Redirect::Follow));
    assert!(matches!(CredentialsOption::default(), CredentialsOption::Include));
    let stats = AgentStats::default();
    assert_eq!(stats.requests_sent, 0);
    assert_eq!(stats.responses_received, 0);
}

#[test]
fn test_credentials_same_origin_sent_as_include() {
    assert_eq!(CredentialsOption::SameOrigin.effective(), CredentialsOption::Include);
    assert_eq!(CredentialsOption::Omit.effective(), CredentialsOption::Omit);
    assert_eq!(CredentialsOption::Include.effective(), CredentialsOption::Include);
}
