//! The wall clock.

use vstd::prelude::*;

verus! {

/// Calls `time::OffsetDateTime::now_utc` and `unix_timestamp`: the seconds
/// since the Unix epoch, as the machine's clock has them.
///
/// Trusted, with nothing claimed: two calls may differ.
#[verifier::external_body]
pub(crate) fn unix_now() -> i64 {
    time::OffsetDateTime::now_utc().unix_timestamp()
}

} // verus!
