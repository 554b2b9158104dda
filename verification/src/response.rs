//! The decision response in wire form.
//!
//! A denial is not a transport error: it is a successful response whose
//! overall code says over-limit. Every other response field of the wire
//! message stays empty in this version; the transport layer fills them in as
//! empty values.

use vstd::prelude::*;

verus! {

/// The wire value of an unknown overall code.
pub const CODE_UNKNOWN: i32 = 0;

/// The wire value of the admitting overall code.
pub const CODE_OK: i32 = 1;

/// The wire value of the denying overall code.
pub const CODE_OVER_LIMIT: i32 = 2;

/// A decision response: the overall code and the (always empty) body.
#[derive(Clone, Debug)]
pub struct RateLimitResponse {
    pub overall_code: i32,
    pub raw_body: Vec<u8>,
}

/// The overall code a decision maps to.
pub open spec fn spec_overall_code(over: bool) -> i32 {
    if over {
        CODE_OVER_LIMIT
    } else {
        CODE_OK
    }
}

/// Builds the response for a decision: over-limit when `over` holds, OK
/// otherwise, with an empty body.
pub fn limit_response(over: bool) -> (r: RateLimitResponse)
    ensures
        r.overall_code == spec_overall_code(over),
        r.raw_body@ == Seq::<u8>::empty(),
        over ==> r.overall_code == CODE_OVER_LIMIT,
        !over ==> r.overall_code == CODE_OK,
{
    let code: i32 = match over {
        true => CODE_OVER_LIMIT,
        false => CODE_OK,
    };
    let r = RateLimitResponse { overall_code: code, raw_body: Vec::new() };
    proof {
        assert(r.raw_body@ =~= Seq::<u8>::empty());
    }
    r
}

} // verus!
