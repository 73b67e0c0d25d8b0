use faith::alt_svc::{AltSvcCache, Origin};

fn test_cache() -> AltSvcCache {
    AltSvcCache::new(86_400_000, 86_400_000, 300_000, 10_000)
}

fn example_origin() -> Origin {
    Origin::from_parts("https", "example.com", None).unwrap()
}

#[test]
fn test_cache_flow() {
    let mut cache = test_cache();
    let origin = example_origin();
    let now: u64 = 1_000;

    assert!(cache.should_use_h3(&origin, now).is_none());

    cache.record_alt_svc(&origin, 443, Some(3_600_000), now);
    assert_eq!(cache.should_use_h3(&origin, now), Some(443));

    cache.confirm_h3(&origin, now);
    assert_eq!(cache.should_use_h3(&origin, now), Some(443));
    assert!(!cache.has_advertised(&origin, now));
    assert!(cache.has_confirmed(&origin, now));
}

#[test]
fn test_cache_failure() {
    let mut cache = test_cache();
    let origin = example_origin();
    let now: u64 = 1_000;

    cache.record_alt_svc(&origin, 443, None, now);
    assert!(cache.should_use_h3(&origin, now).is_some());

    cache.record_h3_failure(&origin, now);
    assert!(cache.should_use_h3(&origin, now).is_none());

    cache.record_alt_svc(&origin, 443, None, now);
    assert!(cache.should_use_h3(&origin, now).is_none());
}

#[test]
fn test_hint() {
    let mut cache = test_cache();
    let origin = example_origin();

    cache.add_hint("example.com", 443, 1_000);
    assert_eq!(cache.should_use_h3(&origin, 1_000), Some(443));
}

#[test]
fn test_origin_default_ports() {
    let o = Origin::from_parts("http", "example.com", None).unwrap();
    assert_eq!(o.port, 80);
    let o = Origin::from_parts("https", "example.com", Some(8443)).unwrap();
    assert_eq!(o.port, 8443);
    assert!(Origin::from_parts("gopher", "example.com", None).is_none());
}

#[test]
fn test_origin_ignores_nothing_but_path() {
    // two requests to the same scheme, host and port share one state
    let mut cache = test_cache();
    let a = Origin::from_parts("https", "example.com", None).unwrap();
    let b = Origin::from_parts("https", "example.com", Some(443)).unwrap();
    cache.record_alt_svc(&a, 443, None, 0);
    assert_eq!(cache.should_use_h3(&b, 0), Some(443));
    let other = Origin::from_parts("https", "example.org", None).unwrap();
    assert!(cache.should_use_h3(&other, 0).is_none());
}

#[test]
fn test_advertisement_expires() {
    let mut cache = test_cache();
    let origin = example_origin();
    cache.record_alt_svc(&origin, 443, Some(1_000), 0);
    assert_eq!(cache.should_use_h3(&origin, 999), Some(443));
    assert!(cache.should_use_h3(&origin, 1_000).is_none());
}

#[test]
fn test_failure_marker_expires() {
    let mut cache = test_cache();
    let origin = example_origin();
    cache.record_h3_failure(&origin, 0);
    // while the marker lives, advertisements are ignored
    cache.record_alt_svc(&origin, 443, None, 299_999);
    assert!(cache.should_use_h3(&origin, 299_999).is_none());
    // once it elapsed, a fresh advertisement is recorded again
    cache.record_alt_svc(&origin, 443, None, 300_000);
    assert_eq!(cache.should_use_h3(&origin, 300_000), Some(443));
}

#[test]
fn test_failure_erases_confirmed_trust() {
    let mut cache = test_cache();
    let origin = example_origin();
    cache.record_alt_svc(&origin, 443, None, 0);
    cache.confirm_h3(&origin, 0);
    assert!(cache.has_confirmed(&origin, 0));
    cache.record_h3_failure(&origin, 0);
    assert!(!cache.has_confirmed(&origin, 0));
    assert!(cache.should_use_h3(&origin, 0).is_none());
}

#[test]
fn test_no_conflicting_trust() {
    // whatever the operation order, an origin never shows live
    // confirmed trust and a live failure veto at once
    let mut cache = test_cache();
    let origin = example_origin();
    cache.record_alt_svc(&origin, 443, None, 0);
    cache.record_h3_failure(&origin, 0);
    cache.confirm_h3(&origin, 0);
    // confirming after the failure replaced the marker entirely
    assert!(cache.has_confirmed(&origin, 0));
    assert_eq!(cache.should_use_h3(&origin, 0), Some(443));
}

#[test]
fn test_record_advertisement_idempotent() {
    let mut once = test_cache();
    let mut twice = test_cache();
    let origin = example_origin();
    once.record_alt_svc(&origin, 443, Some(5_000), 7);
    twice.record_alt_svc(&origin, 443, Some(5_000), 7);
    twice.record_alt_svc(&origin, 443, Some(5_000), 7);
    for now in [0u64, 7, 5_006, 5_007, 6_000] {
        assert_eq!(once.should_use_h3(&origin, now), twice.should_use_h3(&origin, now));
        assert_eq!(once.has_advertised(&origin, now), twice.has_advertised(&origin, now));
        assert_eq!(once.has_confirmed(&origin, now), twice.has_confirmed(&origin, now));
    }
}

#[test]
fn test_confirmed_not_downgraded_by_advertisement() {
    let mut cache = test_cache();
    let origin = example_origin();
    cache.confirm_h3(&origin, 0);
    assert!(cache.has_confirmed(&origin, 0));
    cache.record_alt_svc(&origin, 9_999, None, 0);
    // the confirmed entry still answers, at its own port
    assert!(cache.has_confirmed(&origin, 0));
    assert_eq!(cache.should_use_h3(&origin, 0), Some(443));
}

#[test]
fn test_confirm_fresh_origin_uses_origin_port() {
    let mut cache = test_cache();
    let origin = Origin::from_parts("https", "example.com", Some(8443)).unwrap();
    cache.confirm_h3(&origin, 0);
    assert_eq!(cache.should_use_h3(&origin, 0), Some(8443));
}

#[test]
fn test_hint_respects_failure_veto() {
    let mut cache = test_cache();
    let origin = example_origin();
    cache.record_h3_failure(&origin, 0);
    cache.add_hint("example.com", 443, 0);
    assert!(cache.should_use_h3(&origin, 0).is_none());
}

#[test]
fn test_hint_effectively_unbounded() {
    let mut cache = test_cache();
    let origin = example_origin();
    cache.add_hint("example.com", 443, 0);
    assert_eq!(cache.should_use_h3(&origin, u64::MAX - 1), Some(443));
}

#[test]
fn test_capacity_drops_oldest() {
    let mut cache = AltSvcCache::new(86_400_000, 86_400_000, 300_000, 2);
    let a = Origin::from_parts("https", "a.example", None).unwrap();
    let b = Origin::from_parts("https", "b.example", None).unwrap();
    let c = Origin::from_parts("https", "c.example", None).unwrap();
    cache.record_alt_svc(&a, 443, None, 0);
    cache.record_alt_svc(&b, 443, None, 0);
    cache.record_alt_svc(&c, 443, None, 0);
    // the oldest tracked origin degraded gracefully to "no hint"
    assert!(cache.should_use_h3(&a, 0).is_none());
    assert_eq!(cache.should_use_h3(&b, 0), Some(443));
    assert_eq!(cache.should_use_h3(&c, 0), Some(443));
}

#[test]
fn test_zero_capacity_stores_nothing() {
    let mut cache = AltSvcCache::new(86_400_000, 86_400_000, 300_000, 0);
    let origin = example_origin();
    cache.record_alt_svc(&origin, 443, None, 0);
    assert!(cache.should_use_h3(&origin, 0).is_none());
}
