//! HTTP status codes.
use vstd::prelude::*;

verus! {

/// Whether an HTTP status code reports success: it lies in `200..=299`.
pub open spec fn spec_is_success(status: u16) -> bool {
    200 <= status <= 299
}

/// Whether an HTTP status code reports success.
pub fn is_success_status(status: u16) -> (b: bool)
    ensures
        b == spec_is_success(status),
{
    200 <= status && status <= 299
}

} // verus!
