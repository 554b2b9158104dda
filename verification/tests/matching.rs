use steward::configs::RateLimitConfigs;
use steward::evaluation::{collect_rate_limit_entries, str_starts_with, EvalSet};
use steward::rate_limits::{Descriptor, RateLimit, RateLimitOverride, Unit};
use steward::request::{Entry, RateLimitRequest, RequestDescriptor};

fn rule(key: &str, value: &str, requests_per_unit: i64, unit: Unit) -> Descriptor {
    Descriptor {
        key: key.to_string(),
        value: value.to_string(),
        rate_limit: RateLimit { unit, requests_per_unit },
    }
}

fn request_for(domain: &str, entries: Vec<(&str, &str)>) -> RateLimitRequest {
    let entries = entries
        .into_iter()
        .map(|(k, v)| Entry { key: k.to_string(), value: v.to_string() })
        .collect();
    RateLimitRequest {
        domain: domain.to_string(),
        descriptors: vec![RequestDescriptor { entries, limit: None }],
        hits_addend: 1,
    }
}

#[test]
fn prefix_test_is_exact() {
    assert!(str_starts_with("messaging_user_id_42_5_1", "messaging_user_id_42"));
    assert!(str_starts_with("abc", ""));
    assert!(str_starts_with("abc", "abc"));
    assert!(!str_starts_with("abc", "abcd"));
    assert!(!str_starts_with("messaging_user_id_42", "messaging_user_id_43"));
}

#[test]
fn eval_set_insert_overwrites_existing_keys() {
    let mut set = EvalSet::new();
    assert_eq!(set.len(), 0);
    set.insert("k".to_string(), RateLimit { unit: Unit::Seconds, requests_per_unit: 5 });
    set.insert("l".to_string(), RateLimit { unit: Unit::Minutes, requests_per_unit: 9 });
    set.insert("k".to_string(), RateLimit { unit: Unit::Hours, requests_per_unit: 1 });
    assert_eq!(set.len(), 2);
    assert_eq!(set.get(0).key, "k");
    assert_eq!(set.get(0).limit.requests_per_unit, 1);
    assert!(matches!(set.get(0).limit.unit, Unit::Hours));
    assert_eq!(set.get(1).key, "l");
}

#[test]
fn matching_entry_yields_its_rules_config_key() {
    let request = request_for("messaging", vec![("user_id", "42")]);
    let rules = vec![rule("user_id", "42", 5, Unit::Seconds)];
    let mut entries = EvalSet::new();
    collect_rate_limit_entries(&request, &rules, &mut entries);
    assert_eq!(entries.len(), 1);
    assert_eq!(entries.get(0).key, "messaging_user_id_42_5_1");
    assert_eq!(entries.get(0).limit.requests_per_unit, 5);
}

#[test]
fn non_matching_entry_yields_nothing() {
    let request = request_for("messaging", vec![("user_id", "43")]);
    let rules = vec![rule("user_id", "42", 5, Unit::Seconds)];
    let mut entries = EvalSet::new();
    collect_rate_limit_entries(&request, &rules, &mut entries);
    assert_eq!(entries.len(), 0);
}

#[test]
fn each_entry_matches_its_own_rule() {
    let request = request_for("messaging", vec![("user_id", "42"), ("ip", "1.2.3.4")]);
    let rules = vec![
        rule("user_id", "42", 5, Unit::Seconds),
        rule("ip", "1.2.3.4", 100, Unit::Seconds),
    ];
    let mut entries = EvalSet::new();
    collect_rate_limit_entries(&request, &rules, &mut entries);
    assert_eq!(entries.len(), 2);
    assert_eq!(entries.get(0).key, "messaging_user_id_42_5_1");
    assert_eq!(entries.get(1).key, "messaging_ip_1.2.3.4_100_1");
}

#[test]
fn a_descriptor_key_matches_rules_by_prefix() {
    // The same entry matches two rules that differ only in their count, so
    // both rule-config keys are evaluated.
    let request = request_for("messaging", vec![("user_id", "42")]);
    let rules = vec![
        rule("user_id", "42", 5, Unit::Seconds),
        rule("user_id", "42", 100, Unit::Minutes),
    ];
    let mut entries = EvalSet::new();
    collect_rate_limit_entries(&request, &rules, &mut entries);
    assert_eq!(entries.len(), 2);
    assert_eq!(entries.get(0).key, "messaging_user_id_42_5_1");
    assert_eq!(entries.get(1).key, "messaging_user_id_42_100_2");
}

#[test]
fn override_replaces_the_rules_limit() {
    let mut request = request_for("messaging", vec![("user_id", "42")]);
    request.descriptors[0].limit = Some(RateLimitOverride { requests_per_unit: 1, unit: 1 });
    let rules = vec![rule("user_id", "42", 5, Unit::Seconds)];
    let mut entries = EvalSet::new();
    collect_rate_limit_entries(&request, &rules, &mut entries);
    assert_eq!(entries.len(), 1);
    // The key still carries the rule's own count; only the limit changes.
    assert_eq!(entries.get(0).key, "messaging_user_id_42_5_1");
    assert_eq!(entries.get(0).limit.requests_per_unit, 1);
}

#[test]
fn unknown_domain_has_no_rules() {
    let mut configs = RateLimitConfigs::new();
    configs.insert("orders".to_string(), vec![rule("user_id", "42", 5, Unit::Seconds)]);
    assert!(configs.get(&"messaging".to_string()).is_none());
    assert!(configs.get(&"orders".to_string()).is_some());
}

#[test]
fn configs_insert_overwrites_a_domain() {
    let mut configs = RateLimitConfigs::new();
    configs.insert("messaging".to_string(), vec![rule("user_id", "42", 5, Unit::Seconds)]);
    configs.insert("messaging".to_string(), vec![rule("ip", "1.2.3.4", 9, Unit::Hours)]);
    assert_eq!(configs.len(), 1);
    let rules = configs.get(&"messaging".to_string()).unwrap();
    assert_eq!(rules.len(), 1);
    assert_eq!(rules[0].key, "ip");
}
