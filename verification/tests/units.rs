use steward::rate_limits::{interval_seconds, RateLimit, RateLimitOverride, Unit};

#[test]
fn from_wire_maps_known_integers() {
    assert!(matches!(Unit::from_wire(1), Unit::Seconds));
    assert!(matches!(Unit::from_wire(2), Unit::Minutes));
    assert!(matches!(Unit::from_wire(3), Unit::Hours));
    assert!(matches!(Unit::from_wire(4), Unit::Days));
    assert!(matches!(Unit::from_wire(5), Unit::Months));
    assert!(matches!(Unit::from_wire(6), Unit::Years));
}

#[test]
fn from_wire_maps_unknown_integers_to_unknown() {
    assert!(matches!(Unit::from_wire(0), Unit::Unknown));
    assert!(matches!(Unit::from_wire(7), Unit::Unknown));
    assert!(matches!(Unit::from_wire(-1), Unit::Unknown));
    assert!(matches!(Unit::from_wire(i32::MAX), Unit::Unknown));
}

#[test]
fn to_wire_inverts_from_wire() {
    for wire in 1..=6 {
        assert_eq!(Unit::from_wire(wire).to_wire(), wire);
    }
    assert_eq!(Unit::Unknown.to_wire(), 0);
}

#[test]
fn to_seconds_follows_the_interval_table() {
    assert_eq!(Unit::Seconds.to_seconds(), 1);
    assert_eq!(Unit::Minutes.to_seconds(), 60);
    assert_eq!(Unit::Hours.to_seconds(), 3600);
    assert_eq!(Unit::Days.to_seconds(), 86400);
    assert_eq!(Unit::Months.to_seconds(), 2592000);
    assert_eq!(Unit::Years.to_seconds(), 31536000);
}

#[test]
fn from_override_copies_count_and_decodes_unit() {
    let o = RateLimitOverride { requests_per_unit: 7, unit: 1 };
    let l = RateLimit::from_override(&o);
    assert_eq!(l.requests_per_unit, 7);
    assert!(matches!(l.unit, Unit::Seconds));

    let o = RateLimitOverride { requests_per_unit: u32::MAX, unit: 99 };
    let l = RateLimit::from_override(&o);
    assert_eq!(l.requests_per_unit, u32::MAX as i64);
    assert!(matches!(l.unit, Unit::Unknown));
}

#[test]
fn interval_of_resolvable_unit_ignores_the_default() {
    let l = RateLimit { unit: Unit::Minutes, requests_per_unit: 5 };
    assert_eq!(interval_seconds(&l, 1234), 60);
}

#[test]
fn interval_of_unresolved_unit_is_the_default_ttl() {
    let l = RateLimit { unit: Unit::Unknown, requests_per_unit: 5 };
    assert_eq!(interval_seconds(&l, 1234), 1234);
}
