//! Time, as the engine reads it.
//!
//! A point in time is a count of microseconds since the Unix epoch, that is
//! what `chrono::DateTime::timestamp_micros` gives for it.

use vstd::prelude::*;

verus! {

/// Microseconds in a second.
pub const MICROS_PER_SECOND: i64 = 1_000_000;

/// How long an invitation can be accepted: seven days.
pub const INVITATION_TTL_MICROS: i64 = 604_800_000_000;

/// Reads the system clock with `chrono::Utc::now` and gives the reading in
/// microseconds since the epoch. The crate does not return a time before the
/// epoch; nothing else is known of the reading, and two readings may differ.
#[verifier::external_body]
pub(crate) fn now_micros() -> (now: i64)
    ensures
        now >= 0,
{
    chrono::Utc::now().timestamp_micros()
}

/// The time at which an invitation created at `now` runs out.
pub open spec fn invitation_deadline(now: i64) -> int {
    now + INVITATION_TTL_MICROS
}

/// Whether a deadline has passed at `now`. The deadline itself is still in
/// time.
pub open spec fn is_past(deadline: i64, now: i64) -> bool {
    deadline < now
}

/// The time at which an invitation created at `now` runs out, where that
/// time can be held.
pub fn deadline_after(now: i64) -> (deadline: Option<i64>)
    ensures
        deadline == if invitation_deadline(now) <= i64::MAX {
            Some(invitation_deadline(now) as i64)
        } else {
            None
        },
{
    now.checked_add(INVITATION_TTL_MICROS)
}

} // verus!
