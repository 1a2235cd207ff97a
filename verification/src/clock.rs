//! The store clock: creation times are assigned at insert and are opaque to
//! the rest of the logic, which only carries them through.

use vstd::prelude::*;

verus! {

/// Relies on chrono::Utc::now and chrono::DateTime::timestamp: the current
/// time as whole seconds since the Unix epoch. On a system clock set before
/// the epoch chrono stops the process rather than return a value, so a value
/// that is returned is never negative; nothing more can be promised of a
/// clock reading.
#[verifier::external_body]
pub(crate) fn now_timestamp() -> (r: i64)
    ensures
        r >= 0,
{
    chrono::Utc::now().timestamp()
}

} // verus!
