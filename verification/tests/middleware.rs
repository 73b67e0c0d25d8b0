use faith::alt_svc::{AltSvcCache, AltSvcMiddleware, Origin, RequestOutcome};

fn fresh_middleware(enabled: bool) -> AltSvcMiddleware {
    AltSvcMiddleware::new(AltSvcCache::new(86_400_000, 86_400_000, 300_000, 10_000), enabled)
}

fn example_origin() -> Origin {
    Origin::from_parts("https", "example.com", None).unwrap()
}

#[test]
fn test_disabled_middleware_is_passthrough() {
    let mut mw = fresh_middleware(false);
    let origin = example_origin();
    assert!(!mw.plan_request(Some(&origin), 0));
    let outcome = RequestOutcome::Success {
        used_h3: true,
        alt_svc: Some(r#"h3=":443"; ma=86400"#.to_string()),
    };
    mw.note_outcome(Some(&origin), false, &outcome, 0);
    // the cache was never touched
    assert!(mw.cache().should_use_h3(&origin, 0).is_none());
}

#[test]
fn test_advertisement_header_primes_cache() {
    let mut mw = fresh_middleware(true);
    let origin = example_origin();
    assert!(!mw.plan_request(Some(&origin), 0));
    let outcome = RequestOutcome::Success {
        used_h3: false,
        alt_svc: Some(r#"h3=":443"; ma=86400"#.to_string()),
    };
    mw.note_outcome(Some(&origin), false, &outcome, 0);
    assert_eq!(mw.cache().should_use_h3(&origin, 0), Some(443));
    // the advertised lifetime came from ma, in seconds
    assert!(mw.cache().should_use_h3(&origin, 86_400_000 - 1).is_some());
    assert!(mw.cache().should_use_h3(&origin, 86_400_000).is_none());
    // the next request plans the fast path
    assert!(mw.plan_request(Some(&origin), 0));
}

#[test]
fn test_h3_success_confirms() {
    let mut mw = fresh_middleware(true);
    let origin = example_origin();
    let advert = RequestOutcome::Success {
        used_h3: false,
        alt_svc: Some(r#"h3=":443""#.to_string()),
    };
    mw.note_outcome(Some(&origin), false, &advert, 0);
    assert!(mw.plan_request(Some(&origin), 0));
    let confirmed = RequestOutcome::Success { used_h3: true, alt_svc: None };
    mw.note_outcome(Some(&origin), true, &confirmed, 0);
    assert!(mw.cache().has_confirmed(&origin, 0));
    assert!(!mw.cache().has_advertised(&origin, 0));
}

#[test]
fn test_h3_failure_records_veto() {
    let mut mw = fresh_middleware(true);
    let origin = example_origin();
    let advert = RequestOutcome::Success {
        used_h3: false,
        alt_svc: Some(r#"h3=":443""#.to_string()),
    };
    mw.note_outcome(Some(&origin), false, &advert, 0);
    mw.note_outcome(Some(&origin), true, &RequestOutcome::Failure, 1);
    assert!(!mw.plan_request(Some(&origin), 1));
    assert!(mw.cache().should_use_h3(&origin, 1).is_none());
}

#[test]
fn test_failure_without_h3_attempt_is_unrelated() {
    let mut mw = fresh_middleware(true);
    let origin = example_origin();
    let advert = RequestOutcome::Success {
        used_h3: false,
        alt_svc: Some(r#"h3=":443""#.to_string()),
    };
    mw.note_outcome(Some(&origin), false, &advert, 0);
    mw.note_outcome(Some(&origin), false, &RequestOutcome::Failure, 1);
    // the advertisement survives an unrelated failure
    assert_eq!(mw.cache().should_use_h3(&origin, 1), Some(443));
}

#[test]
fn test_silent_fallback_keeps_advertisement() {
    let mut mw = fresh_middleware(true);
    let origin = example_origin();
    let advert = RequestOutcome::Success {
        used_h3: false,
        alt_svc: Some(r#"h3=":443""#.to_string()),
    };
    mw.note_outcome(Some(&origin), false, &advert, 0);
    // the attempt fell back to an older transport without an error:
    // neither confirmed nor failed, the advertisement just stays
    let fallback = RequestOutcome::Success { used_h3: false, alt_svc: None };
    mw.note_outcome(Some(&origin), true, &fallback, 1);
    assert!(!mw.cache().has_confirmed(&origin, 1));
    assert_eq!(mw.cache().should_use_h3(&origin, 1), Some(443));
}

#[test]
fn test_request_without_origin_touches_nothing() {
    let mut mw = fresh_middleware(true);
    assert!(!mw.plan_request(None, 0));
    mw.note_outcome(None, true, &RequestOutcome::Failure, 0);
    let origin = example_origin();
    assert!(mw.cache().should_use_h3(&origin, 0).is_none());
}
