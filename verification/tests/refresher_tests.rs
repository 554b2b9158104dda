use steward::configs::{validate_configs, RateLimitConfigs};
use steward::rate_limits::{Descriptor, RateLimit, Unit};
use steward::refresher::{refresher_step, ConfigSource, RefresherAction, RefresherEvent, RefresherState};

fn rule(requests_per_unit: i64, unit: Unit) -> Descriptor {
    Descriptor {
        key: "user_id".to_string(),
        value: "42".to_string(),
        rate_limit: RateLimit { unit, requests_per_unit },
    }
}

fn valid_configs() -> RateLimitConfigs {
    let mut c = RateLimitConfigs::new();
    c.insert("messaging".to_string(), vec![rule(5, Unit::Seconds)]);
    c
}

#[test]
fn validation_accepts_resolvable_positive_rules() {
    assert!(validate_configs(&valid_configs()));
    assert!(validate_configs(&RateLimitConfigs::new()));
}

#[test]
fn validation_rejects_unknown_units() {
    let mut c = RateLimitConfigs::new();
    c.insert("messaging".to_string(), vec![rule(5, Unit::Unknown)]);
    assert!(!validate_configs(&c));
}

#[test]
fn validation_rejects_non_positive_counts() {
    let mut c = RateLimitConfigs::new();
    c.insert("messaging".to_string(), vec![rule(0, Unit::Seconds)]);
    assert!(!validate_configs(&c));
    let mut c = RateLimitConfigs::new();
    c.insert("messaging".to_string(), vec![rule(-5, Unit::Seconds)]);
    assert!(!validate_configs(&c));
}

#[test]
fn a_tick_starts_a_fetch_against_the_source() {
    let source = ConfigSource::Http("http://rules.example/api".to_string());
    let (state, action) = refresher_step(RefresherState::Idle, &source, RefresherEvent::Tick);
    assert_eq!(state, RefresherState::Fetching);
    match action {
        RefresherAction::FetchHttp(url) => assert_eq!(url, "http://rules.example/api"),
        _ => panic!("expected an HTTP fetch"),
    }

    let source = ConfigSource::File("/etc/rules.json".to_string());
    let (state, action) = refresher_step(RefresherState::Idle, &source, RefresherEvent::Tick);
    assert_eq!(state, RefresherState::Fetching);
    match action {
        RefresherAction::FetchFile(path) => assert_eq!(path, "/etc/rules.json"),
        _ => panic!("expected a file fetch"),
    }
}

#[test]
fn a_valid_fetch_is_published() {
    let source = ConfigSource::Http("http://rules.example/api".to_string());
    let (state, action) =
        refresher_step(RefresherState::Fetching, &source, RefresherEvent::Fetched(valid_configs()));
    assert_eq!(state, RefresherState::Idle);
    match action {
        RefresherAction::Publish(c) => assert_eq!(c.len(), 1),
        _ => panic!("expected a publication"),
    }
}

#[test]
fn an_invalid_fetch_retains_the_previous_snapshot() {
    let source = ConfigSource::Http("http://rules.example/api".to_string());
    let mut bad = RateLimitConfigs::new();
    bad.insert("messaging".to_string(), vec![rule(5, Unit::Unknown)]);
    let (state, action) =
        refresher_step(RefresherState::Fetching, &source, RefresherEvent::Fetched(bad));
    assert_eq!(state, RefresherState::Idle);
    assert!(matches!(action, RefresherAction::Retain));
}

#[test]
fn a_failed_fetch_retains_the_previous_snapshot() {
    let source = ConfigSource::Http("http://rules.example/api".to_string());
    let (state, action) =
        refresher_step(RefresherState::Fetching, &source, RefresherEvent::FetchFailed);
    assert_eq!(state, RefresherState::Idle);
    assert!(matches!(action, RefresherAction::Retain));
}

#[test]
fn cancellation_stops_for_good() {
    let source = ConfigSource::Http("http://rules.example/api".to_string());
    let (state, action) =
        refresher_step(RefresherState::Fetching, &source, RefresherEvent::Cancelled);
    assert_eq!(state, RefresherState::Stopped);
    assert!(matches!(action, RefresherAction::Retain));

    let (state, action) = refresher_step(RefresherState::Stopped, &source, RefresherEvent::Tick);
    assert_eq!(state, RefresherState::Stopped);
    assert!(matches!(action, RefresherAction::Retain));

    let (state, action) =
        refresher_step(RefresherState::Stopped, &source, RefresherEvent::Fetched(valid_configs()));
    assert_eq!(state, RefresherState::Stopped);
    assert!(matches!(action, RefresherAction::Retain));
}
