//! The idle loop's timing rules: when to wake next, and the input
//! debounce across the device boundary.

use vstd::prelude::*;
use crate::action::MAX_INSTANT;
use crate::queue::FIRE_BOUND;

verus! {

/// The scheduler re-checks at least this often (milliseconds).
pub const MAX_SLEEP_MS: u64 = 60_000;

/// An already-due stage is re-examined after this short floor.
pub const PAST_DUE_FLOOR_MS: u64 = 50;

/// Raw input events within this window count as one (milliseconds).
pub const INPUT_DEBOUNCE_MS: u64 = 300;

/// When the scheduler must wake: with no stage due, after the periodic
/// maximum; a past-due instant is floored shortly after `now`; a far
/// instant is capped at the periodic maximum.
pub open spec fn spec_sleep_deadline(next: Option<u64>, now: u64) -> int {
    match next {
        None => now + MAX_SLEEP_MS,
        Some(t) => if t <= now {
            now + PAST_DUE_FLOOR_MS
        } else if t - now > MAX_SLEEP_MS {
            now + MAX_SLEEP_MS
        } else {
            t as int
        },
    }
}

/// Compute the sleep deadline for the idle loop.
pub fn compute_sleep_deadline(next: Option<u64>, now: u64) -> (r: u64)
    requires
        now <= MAX_INSTANT,
        next matches Some(t) ==> t <= FIRE_BOUND,
    ensures
        r == spec_sleep_deadline(next, now),
        now < r <= now + MAX_SLEEP_MS,
{
    match next {
        None => now + MAX_SLEEP_MS,
        Some(t) => {
            if t <= now {
                now + PAST_DUE_FLOOR_MS
            } else if t - now > MAX_SLEEP_MS {
                now + MAX_SLEEP_MS
            } else {
                t
            }
        },
    }
}

/// Whether a raw input event is far enough from the last reported one
/// to count as fresh activity.
pub fn debounce_allows(last_reset: u64, now: u64) -> (r: bool)
    requires
        last_reset <= MAX_INSTANT,
    ensures
        r == (now >= last_reset + INPUT_DEBOUNCE_MS),
{
    now >= last_reset + INPUT_DEBOUNCE_MS
}

} // verus!
