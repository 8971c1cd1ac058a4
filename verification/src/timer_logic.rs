//! One step of the countdown and one step of the blink.
//!
//! The countdown is floored: below zero it keeps counting into overtime until
//! it reaches [`MINIMUM_SECONDS`], where it stays and asks to be stopped.

use crate::config::MINIMUM_SECONDS;
use vstd::prelude::*;

verus! {

/// Outcome of one countdown tick.
#[derive(Clone, Copy, Debug, PartialEq, Eq)]
pub struct CountdownUpdate {
    /// Remaining seconds after the tick.
    pub remaining: i32,
    /// Whether the display is in the alert regime after the tick.
    pub should_blink: bool,
    /// Whether the floor is reached and the countdown schedule must be cancelled.
    pub should_stop: bool,
}

/// Remaining seconds one tick after `remaining`.
pub open spec fn next_remaining(remaining: int) -> int {
    if remaining > MINIMUM_SECONDS {
        remaining - 1
    } else {
        MINIMUM_SECONDS as int
    }
}

/// A tick from `remaining` leaves the timer in the alert regime.
pub open spec fn tick_blinks(remaining: int) -> bool {
    remaining <= 0
}

/// A tick from `remaining` finds the floor reached.
pub open spec fn tick_stops(remaining: int) -> bool {
    remaining <= MINIMUM_SECONDS
}

/// Advances the countdown by one tick.
pub fn update_countdown(remaining: i32) -> (update: CountdownUpdate)
    ensures
        update.remaining == next_remaining(remaining as int),
        update.should_blink == tick_blinks(remaining as int),
        update.should_stop == tick_stops(remaining as int),
        remaining > 0 ==> update.remaining == remaining - 1 && !update.should_blink
            && !update.should_stop,
        remaining == 0 ==> update.remaining == -1 && update.should_blink && !update.should_stop,
        MINIMUM_SECONDS < remaining < 0 ==> update.remaining == remaining - 1
            && update.should_blink && !update.should_stop,
        remaining <= MINIMUM_SECONDS ==> update.remaining == MINIMUM_SECONDS
            && update.should_blink && update.should_stop,
{
    if remaining > 0 {
        CountdownUpdate { remaining: remaining - 1, should_blink: false, should_stop: false }
    } else if remaining > MINIMUM_SECONDS {
        CountdownUpdate { remaining: remaining - 1, should_blink: true, should_stop: false }
    } else {
        CountdownUpdate { remaining: MINIMUM_SECONDS, should_blink: true, should_stop: true }
    }
}

/// Flips the visibility of the blinking display.
pub fn toggle_blink(visible: bool) -> (toggled: bool)
    ensures
        toggled == !visible,
{
    !visible
}

/// The floor is a fixed point of the tick: once there, every further tick
/// stays there and keeps asking to stop.
pub proof fn lemma_floor_is_fixed_point(remaining: int)
    requires
        remaining <= MINIMUM_SECONDS,
    ensures
        next_remaining(remaining) == MINIMUM_SECONDS,
        next_remaining(next_remaining(remaining)) == next_remaining(remaining),
        tick_stops(next_remaining(remaining)),
        tick_blinks(next_remaining(remaining)),
{
}

/// A tick never takes the remaining time below the floor, and never raises a
/// value that is at or above the floor.
pub proof fn lemma_tick_bounds(remaining: int)
    ensures
        next_remaining(remaining) >= MINIMUM_SECONDS,
        remaining >= MINIMUM_SECONDS ==> next_remaining(remaining) <= remaining,
        remaining > MINIMUM_SECONDS ==> next_remaining(remaining) == remaining - 1,
{
}

} // verus!
