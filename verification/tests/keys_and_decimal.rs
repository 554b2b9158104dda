use steward::decimal::{i64_to_dec_string, u64_to_dec_string};
use steward::keys::{create_descriptor_key, create_rl_config_key};
use steward::rate_limits::{Descriptor, RateLimit, Unit};

#[test]
fn renders_small_numbers() {
    assert_eq!(u64_to_dec_string(0), "0");
    assert_eq!(u64_to_dec_string(7), "7");
    assert_eq!(u64_to_dec_string(10), "10");
    assert_eq!(u64_to_dec_string(42), "42");
    assert_eq!(u64_to_dec_string(12345), "12345");
}

#[test]
fn renders_u64_extremes() {
    assert_eq!(u64_to_dec_string(u64::MAX), "18446744073709551615");
}

#[test]
fn renders_signed_numbers() {
    assert_eq!(i64_to_dec_string(0), "0");
    assert_eq!(i64_to_dec_string(5), "5");
    assert_eq!(i64_to_dec_string(-1), "-1");
    assert_eq!(i64_to_dec_string(-120), "-120");
    assert_eq!(i64_to_dec_string(i64::MAX), "9223372036854775807");
    assert_eq!(i64_to_dec_string(i64::MIN), "-9223372036854775808");
}

#[test]
fn descriptor_key_joins_with_underscores() {
    assert_eq!(create_descriptor_key("messaging", "user_id", "42"), "messaging_user_id_42");
    assert_eq!(create_descriptor_key("a", "", "c"), "a__c");
}

#[test]
fn rl_config_key_appends_count_and_unit_wire_int() {
    let rule = Descriptor {
        key: "user_id".to_string(),
        value: "42".to_string(),
        rate_limit: RateLimit { unit: Unit::Seconds, requests_per_unit: 5 },
    };
    let key = create_rl_config_key("messaging", &rule, rule.rate_limit.requests_per_unit);
    assert_eq!(key, "messaging_user_id_42_5_1");
}

#[test]
fn rl_config_key_distinguishes_units_and_counts() {
    let per_minute = Descriptor {
        key: "ip".to_string(),
        value: "1.2.3.4".to_string(),
        rate_limit: RateLimit { unit: Unit::Minutes, requests_per_unit: 100 },
    };
    let key = create_rl_config_key("edge", &per_minute, 100);
    assert_eq!(key, "edge_ip_1.2.3.4_100_2");
}

#[test]
fn descriptor_key_prefixes_its_rules_config_key() {
    let rule = Descriptor {
        key: "user_id".to_string(),
        value: "42".to_string(),
        rate_limit: RateLimit { unit: Unit::Seconds, requests_per_unit: 5 },
    };
    let dkey = create_descriptor_key("messaging", "user_id", "42");
    let ckey = create_rl_config_key("messaging", &rule, 5);
    assert!(ckey.starts_with(&dkey));
}
