//! The decoded form of a rate-limit decision request.
//!
//! These mirror the fields of the wire request that the decision pipeline
//! reads: a domain, a list of descriptors made of `(key, value)` entries, an
//! optional per-descriptor limit override, and the hit count to add.

use vstd::prelude::*;

use crate::rate_limits::RateLimitOverride;

verus! {

/// One `(key, value)` entry of a request descriptor.
#[derive(Clone, Debug)]
pub struct Entry {
    pub key: String,
    pub value: String,
}

/// One request descriptor: its ordered entries and an optional limit override.
#[derive(Clone, Debug)]
pub struct RequestDescriptor {
    pub entries: Vec<Entry>,
    pub limit: Option<RateLimitOverride>,
}

/// A decoded decision request.
#[derive(Clone, Debug)]
pub struct RateLimitRequest {
    pub domain: String,
    pub descriptors: Vec<RequestDescriptor>,
    pub hits_addend: u32,
}

} // verus!
