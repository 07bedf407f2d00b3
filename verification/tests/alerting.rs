use slasha_server::alerting::{in_cooldown, target_matches, Timestamp};

#[test]
fn target_matching() {
    assert!(target_matches("any", "server"));
    assert!(target_matches("server", "server"));
    assert!(target_matches("app", "app:web"));
    assert!(target_matches("app:web", "app:web"));
    assert!(!target_matches("app:web", "app:api"));
    assert!(!target_matches("server", "app:web"));
}

#[test]
fn scope_without_colon_in_event_does_not_match() {
    assert!(!target_matches("app", "application"));
    assert!(!target_matches("domain", "app:web"));
    assert!(target_matches("domain", "domain:example.com"));
}

#[test]
fn cooldown_window() {
    let last = Timestamp { secs: 1_000, nanos: 0 };
    assert!(!in_cooldown(None, Timestamp { secs: 1_000, nanos: 0 }, 60));
    assert!(in_cooldown(Some(last), Timestamp { secs: 1_059, nanos: 999_999_999 }, 60));
    assert!(!in_cooldown(Some(last), Timestamp { secs: 1_060, nanos: 0 }, 60));
    assert!(!in_cooldown(Some(last), Timestamp { secs: 1_000, nanos: 0 }, 0));
}
