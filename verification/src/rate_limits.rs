//! The rule model: time units, per-unit limits, and configured descriptors.

use vstd::prelude::*;

verus! {

/// The time unit a limit is expressed over. `Unknown` is the wire value for
/// any unrecognised integer; a loaded rule set never contains it.
#[derive(Clone, Copy, Debug, PartialEq, Eq, Structural)]
pub enum Unit {
    Unknown,
    Seconds,
    Minutes,
    Hours,
    Days,
    Months,
    Years,
}

/// A configured limit: how many requests are allowed per time unit.
#[derive(Clone, Copy, Debug, PartialEq, Eq, Structural)]
pub struct RateLimit {
    pub unit: Unit,
    pub requests_per_unit: i64,
}

/// A configured rule: a descriptor entry it applies to, and its limit.
#[derive(Clone, Debug)]
pub struct Descriptor {
    pub key: String,
    pub value: String,
    pub rate_limit: RateLimit,
}

/// An inline limit carried on a request descriptor, in wire form. When
/// present it replaces the matching rule's limit for that request only.
#[derive(Clone, Copy, Debug, PartialEq, Eq, Structural)]
pub struct RateLimitOverride {
    pub requests_per_unit: u32,
    pub unit: i32,
}

/// The fixed wire mapping of units: Seconds=1 .. Years=6, Unknown=0.
pub open spec fn spec_unit_wire(u: Unit) -> int {
    match u {
        Unit::Unknown => 0,
        Unit::Seconds => 1,
        Unit::Minutes => 2,
        Unit::Hours => 3,
        Unit::Days => 4,
        Unit::Months => 5,
        Unit::Years => 6,
    }
}

/// The inverse wire mapping: any integer outside 1..=6 is `Unknown`.
pub open spec fn spec_unit_from_wire(value: int) -> Unit {
    if value == 1 {
        Unit::Seconds
    } else if value == 2 {
        Unit::Minutes
    } else if value == 3 {
        Unit::Hours
    } else if value == 4 {
        Unit::Days
    } else if value == 5 {
        Unit::Months
    } else if value == 6 {
        Unit::Years
    } else {
        Unit::Unknown
    }
}

/// Length in seconds of each resolvable unit.
pub open spec fn spec_unit_seconds(u: Unit) -> u32 {
    match u {
        Unit::Unknown => 0,
        Unit::Seconds => 1,
        Unit::Minutes => 60,
        Unit::Hours => 3600,
        Unit::Days => 86400,
        Unit::Months => 2592000,
        Unit::Years => 31536000,
    }
}

impl Unit {
    /// Decodes a wire integer into a unit using the fixed mapping;
    /// unrecognised integers yield `Unknown`.
    pub fn from_wire(value: i32) -> (u: Unit)
        ensures
            u == spec_unit_from_wire(value as int),
    {
        match value {
            1 => Unit::Seconds,
            2 => Unit::Minutes,
            3 => Unit::Hours,
            4 => Unit::Days,
            5 => Unit::Months,
            6 => Unit::Years,
            _ => Unit::Unknown,
        }
    }

    /// The wire integer of this unit.
    pub fn to_wire(&self) -> (v: i32)
        ensures
            v as int == spec_unit_wire(*self),
    {
        match self {
            Unit::Unknown => 0,
            Unit::Seconds => 1,
            Unit::Minutes => 2,
            Unit::Hours => 3,
            Unit::Days => 4,
            Unit::Months => 5,
            Unit::Years => 6,
        }
    }

    /// The interval in seconds this unit spans. Asking for the interval of
    /// `Unknown` is a programming error, so that value is excluded.
    pub fn to_seconds(&self) -> (s: u32)
        requires
            *self != Unit::Unknown,
        ensures
            s == spec_unit_seconds(*self),
    {
        match self {
            Unit::Unknown => 0,
            Unit::Seconds => 1,
            Unit::Minutes => 60,
            Unit::Hours => 3600,
            Unit::Days => 86400,
            Unit::Months => 2592000,
            Unit::Years => 31536000,
        }
    }
}

/// The limit a wire override denotes: its count is copied and its unit decoded.
pub open spec fn spec_from_override(value: RateLimitOverride) -> RateLimit {
    RateLimit {
        requests_per_unit: value.requests_per_unit as i64,
        unit: spec_unit_from_wire(value.unit as int),
    }
}

impl RateLimit {
    /// Builds the limit a request-level override denotes.
    pub fn from_override(value: &RateLimitOverride) -> (l: RateLimit)
        ensures
            l == spec_from_override(*value),
    {
        RateLimit { requests_per_unit: value.requests_per_unit as i64, unit: Unit::from_wire(value.unit) }
    }
}

/// The counter interval for a limit: the unit's span, or the configured
/// default TTL where the unit is unresolved.
pub open spec fn spec_interval_seconds(l: RateLimit, default_ttl: u32) -> u32 {
    if l.unit == Unit::Unknown {
        default_ttl
    } else {
        spec_unit_seconds(l.unit)
    }
}

/// Computes the interval a counter under this limit lives for.
pub fn interval_seconds(l: &RateLimit, default_ttl: u32) -> (s: u32)
    ensures
        s == spec_interval_seconds(*l, default_ttl),
{
    match l.unit {
        Unit::Unknown => default_ttl,
        _ => l.unit.to_seconds(),
    }
}

} // verus!
