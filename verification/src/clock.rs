//! The wall clock as the `chrono` crate reads it.

use vstd::prelude::*;

verus! {

/// `chrono::Utc::now().timestamp()`: the current Unix time in whole
/// seconds. It depends on the moment of the call, so nothing is stated of it.
#[verifier::external_body]
pub(crate) fn utc_now_timestamp() -> i64 {
    chrono::Utc::now().timestamp()
}

} // verus!
