use steward::configs::RateLimitConfigs;
use steward::decision::{build_increment_tasks, effective_hits, expire_action, over_limit};
use steward::evaluation::{collect_rate_limit_entries, EvalSet};
use steward::rate_limits::{Descriptor, RateLimit, Unit};
use steward::request::{Entry, RateLimitRequest, RequestDescriptor};
use steward::response::{limit_response, CODE_OK, CODE_OVER_LIMIT};

fn messaging_snapshot() -> RateLimitConfigs {
    let mut configs = RateLimitConfigs::new();
    configs.insert(
        "messaging".to_string(),
        vec![Descriptor {
            key: "user_id".to_string(),
            value: "42".to_string(),
            rate_limit: RateLimit { unit: Unit::Seconds, requests_per_unit: 5 },
        }],
    );
    configs
}

fn messaging_request() -> RateLimitRequest {
    RateLimitRequest {
        domain: "messaging".to_string(),
        descriptors: vec![RequestDescriptor {
            entries: vec![Entry { key: "user_id".to_string(), value: "42".to_string() }],
            limit: None,
        }],
        hits_addend: 1,
    }
}

/// Runs the pure pipeline against a snapshot, answering each planned
/// increment from `counter`: the store's reply is the counter after adding
/// the delta, as an atomic add-and-fetch would return it.
fn decide(
    configs: &RateLimitConfigs,
    request: &RateLimitRequest,
    counter: &mut i64,
    expire_calls: &mut Vec<(String, u32)>,
) -> i32 {
    let rules = match configs.get(&request.domain) {
        Some(rules) => rules,
        None => return limit_response(false).overall_code,
    };
    let mut entries = EvalSet::new();
    collect_rate_limit_entries(request, rules, &mut entries);
    let delta = effective_hits(request.hits_addend);
    let tasks = build_increment_tasks(&entries, 300);
    let mut results: Vec<(String, i64)> = Vec::new();
    for task in &tasks {
        *counter += delta as i64;
        if let Some(seconds) = expire_action(*counter, task.interval) {
            expire_calls.push((task.key.clone(), seconds));
        }
        results.push((task.key.clone(), *counter));
    }
    limit_response(over_limit(&entries, &results)).overall_code
}

#[test]
fn first_hit_is_admitted_and_gets_a_ttl() {
    let configs = messaging_snapshot();
    let request = messaging_request();
    let mut counter = 0i64;
    let mut expire_calls = Vec::new();
    let code = decide(&configs, &request, &mut counter, &mut expire_calls);
    assert_eq!(code, CODE_OK);
    assert_eq!(counter, 1);
    assert_eq!(expire_calls, vec![("messaging_user_id_42_5_1".to_string(), 1u32)]);
}

#[test]
fn the_fifth_hit_is_denied_without_a_ttl() {
    let configs = messaging_snapshot();
    let request = messaging_request();
    let mut counter = 4i64;
    let mut expire_calls = Vec::new();
    let code = decide(&configs, &request, &mut counter, &mut expire_calls);
    assert_eq!(code, CODE_OVER_LIMIT);
    assert_eq!(counter, 5);
    assert!(expire_calls.is_empty());
}

#[test]
fn once_over_the_limit_stays_over() {
    let configs = messaging_snapshot();
    let request = messaging_request();
    let mut counter = 4i64;
    let mut expire_calls = Vec::new();
    let first = decide(&configs, &request, &mut counter, &mut expire_calls);
    let second = decide(&configs, &request, &mut counter, &mut expire_calls);
    let third = decide(&configs, &request, &mut counter, &mut expire_calls);
    assert_eq!(first, CODE_OVER_LIMIT);
    assert_eq!(second, CODE_OVER_LIMIT);
    assert_eq!(third, CODE_OVER_LIMIT);
}

#[test]
fn unknown_domain_is_admitted_with_no_store_calls() {
    let mut configs = RateLimitConfigs::new();
    configs.insert(
        "orders".to_string(),
        vec![Descriptor {
            key: "user_id".to_string(),
            value: "42".to_string(),
            rate_limit: RateLimit { unit: Unit::Seconds, requests_per_unit: 5 },
        }],
    );
    let request = messaging_request();
    let mut counter = 0i64;
    let mut expire_calls = Vec::new();
    let code = decide(&configs, &request, &mut counter, &mut expire_calls);
    assert_eq!(code, CODE_OK);
    assert_eq!(counter, 0);
    assert!(expire_calls.is_empty());
}

#[test]
fn empty_snapshot_is_admitted_with_no_store_calls() {
    let configs = RateLimitConfigs::new();
    let request = messaging_request();
    let mut counter = 0i64;
    let mut expire_calls = Vec::new();
    let code = decide(&configs, &request, &mut counter, &mut expire_calls);
    assert_eq!(code, CODE_OK);
    assert_eq!(counter, 0);
    assert!(expire_calls.is_empty());
}

#[test]
fn zero_hits_addend_still_increments_by_one() {
    let configs = messaging_snapshot();
    let mut request = messaging_request();
    request.hits_addend = 0;
    let mut counter = 0i64;
    let mut expire_calls = Vec::new();
    let code = decide(&configs, &request, &mut counter, &mut expire_calls);
    assert_eq!(code, CODE_OK);
    assert_eq!(counter, 1);
}

#[test]
fn each_request_observes_one_published_snapshot() {
    // A snapshot holder starts empty; a new snapshot with a rule is published
    // while requests keep arriving. Every request decides against exactly the
    // snapshot it borrowed: before the publication the empty one (admitted,
    // nothing incremented), after it the new one in full.
    let (tx, rx) = tokio::sync::watch::channel(RateLimitConfigs::new());
    let request = messaging_request();
    let mut counter = 4i64;
    let mut expire_calls = Vec::new();

    let before = rx.borrow().clone();
    let code = decide(&before, &request, &mut counter, &mut expire_calls);
    assert_eq!(code, CODE_OK);
    assert_eq!(counter, 4);

    tx.send(messaging_snapshot()).unwrap();

    let after = rx.borrow().clone();
    let code = decide(&after, &request, &mut counter, &mut expire_calls);
    assert_eq!(code, CODE_OVER_LIMIT);
    assert_eq!(counter, 5);

    // The handler that borrowed the old snapshot keeps deciding against it,
    // untouched by the publication.
    let code = decide(&before, &request, &mut counter, &mut expire_calls);
    assert_eq!(code, CODE_OK);
}
