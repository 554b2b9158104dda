//! Deterministic construction of counter keys.
//!
//! Two key forms exist: the descriptor key built from a request entry, and
//! the rule-config key built from a configured rule. Both join their parts
//! with a single underscore and perform no escaping; a rule matches an entry
//! when the entry's descriptor key is a prefix of the rule-config key.

use vstd::prelude::*;
use vstd::string::StringExecFns;

use crate::decimal::{i64_to_dec_string, spec_signed_dec_chars};
use crate::rate_limits::{spec_unit_wire, Descriptor};

verus! {

/// The single-character separator between key parts.
pub open spec fn spec_sep() -> Seq<char> {
    seq!['_']
}

/// The key of one request descriptor entry:
/// `domain || "_" || entry_key || "_" || entry_value`.
pub open spec fn spec_descriptor_key(domain: Seq<char>, key: Seq<char>, value: Seq<char>) -> Seq<
    char,
> {
    domain + spec_sep() + key + spec_sep() + value
}

/// The key of one configured rule:
/// `domain || "_" || rule.key || "_" || rule.value || "_" || requests_per_unit || "_" || unit_wire_int`.
pub open spec fn spec_config_key_parts(
    domain: Seq<char>,
    rule_key: Seq<char>,
    rule_value: Seq<char>,
    requests_per_unit: int,
    unit_wire: int,
) -> Seq<char> {
    domain + spec_sep() + rule_key + spec_sep() + rule_value + spec_sep() + spec_signed_dec_chars(
        requests_per_unit,
    ) + spec_sep() + spec_signed_dec_chars(unit_wire)
}

/// The rule-config key of a rule within a domain.
pub open spec fn spec_rl_config_key(domain: Seq<char>, rule: Descriptor) -> Seq<char> {
    spec_config_key_parts(
        domain,
        rule.key@,
        rule.value@,
        rule.rate_limit.requests_per_unit as int,
        spec_unit_wire(rule.rate_limit.unit),
    )
}

/// Builds the descriptor key for one request entry.
pub fn create_descriptor_key(domain: &str, key: &str, value: &str) -> (r: String)
    ensures
        r@ == spec_descriptor_key(domain@, key@, value@),
{
    proof {
        reveal_strlit("_");
    }
    let mut result = domain.to_owned();
    result.append("_");
    result.append(key);
    result.append("_");
    result.append(value);
    proof {
        assert("_"@ =~= spec_sep());
        assert(result@ =~= spec_descriptor_key(domain@, key@, value@));
    }
    result
}

/// Builds the rule-config key for one rule; callers pass the rule's own
/// count as `requests_per_unit`.
pub fn create_rl_config_key(domain: &str, limit: &Descriptor, requests_per_unit: i64) -> (r:
    String)
    ensures
        r@ == spec_config_key_parts(
            domain@,
            limit.key@,
            limit.value@,
            requests_per_unit as int,
            spec_unit_wire(limit.rate_limit.unit),
        ),
        requests_per_unit == limit.rate_limit.requests_per_unit ==> r@ == spec_rl_config_key(
            domain@,
            *limit,
        ),
{
    proof {
        reveal_strlit("_");
    }
    let mut result = domain.to_owned();
    result.append("_");
    result.append(limit.key.as_str());
    result.append("_");
    result.append(limit.value.as_str());
    result.append("_");
    let count = i64_to_dec_string(requests_per_unit);
    result.append(count.as_str());
    result.append("_");
    let wire = i64_to_dec_string(limit.rate_limit.unit.to_wire() as i64);
    result.append(wire.as_str());
    proof {
        assert("_"@ =~= spec_sep());
        assert(result@ =~= spec_config_key_parts(
            domain@,
            limit.key@,
            limit.value@,
            requests_per_unit as int,
            spec_unit_wire(limit.rate_limit.unit),
        ));
    }
    result
}

} // verus!
