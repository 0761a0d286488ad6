//! The weekly schedule: a refresh is due every Sunday at 00:00 UTC.
//!
//! Times are seconds since 1970-01-01T00:00:00Z.

use vstd::prelude::*;

verus! {

/// The seconds of a week.
pub const WEEK: u64 = 604_800;

/// The first Sunday of the epoch, 1970-01-04T00:00:00Z.
pub const FIRST_SUNDAY: u64 = 259_200;

/// `at` is a Sunday at 00:00 UTC.
pub open spec fn is_refresh_time(at: int) -> bool {
    at >= FIRST_SUNDAY && (at - FIRST_SUNDAY) % (WEEK as int) == 0
}

/// The first time after `now` at which a refresh is due, or `None` where
/// no such time fits into a `u64`.
pub fn next_refresh_at(now: u64) -> (next: Option<u64>)
    ensures
        next matches Some(at) ==> {
            &&& now < at <= now + WEEK
            &&& is_refresh_time(at as int)
            &&& forall|between: int| now < between < at ==> !is_refresh_time(between)
        },
        next is None ==> forall|at: int| now < at <= u64::MAX ==> !is_refresh_time(at),
{
    if now < FIRST_SUNDAY {
        Some(FIRST_SUNDAY)
    } else {
        let weeks = (now - FIRST_SUNDAY) / WEEK;
        let base = FIRST_SUNDAY + weeks * WEEK;
        assert forall|later: int| now < later < base + WEEK implies !is_refresh_time(later) by {
            if is_refresh_time(later) {
                let m = (later - FIRST_SUNDAY) / (WEEK as int);
                assert(later - FIRST_SUNDAY == m * WEEK);
                assert(weeks < m < weeks + 1);
            }
        }
        if base > u64::MAX - WEEK {
            None
        } else {
            Some(base + WEEK)
        }
    }
}

/// Whether a refresh fell due after `last` and no later than `now`.
pub fn refresh_due(last: u64, now: u64) -> (due: bool)
    ensures
        due == exists|at: int| last < at <= now && is_refresh_time(at),
{
    match next_refresh_at(last) {
        Some(at) => {
            if at <= now {
                assert(last < at <= now && is_refresh_time(at as int));
                true
            } else {
                false
            }
        },
        None => false,
    }
}

} // verus!
