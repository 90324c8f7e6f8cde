//! The wall-clock source for the `now` constructors.

use vstd::prelude::*;

verus! {

/// Relies on `time::OffsetDateTime::now_utc` and `unix_timestamp`: the
/// current wall-clock instant as Unix seconds. Nothing is assumed of the
/// returned value; callers treat any `i64` alike.
#[verifier::external_body]
pub fn unix_now() -> i64 {
    time::OffsetDateTime::now_utc().unix_timestamp()
}

} // verus!
