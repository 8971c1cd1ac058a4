//! Fixed configuration of the timer.

use vstd::prelude::*;

verus! {

/// Seconds the countdown starts from and resets to: 25:00.
pub const INITIAL_SECONDS: i32 = 1500;

/// Lowest value the remaining time may take, -59:59. The countdown halts here.
pub const MINIMUM_SECONDS: i32 = -3599;

/// Period of the countdown schedule, in milliseconds.
pub const COUNTDOWN_INTERVAL_MS: u32 = 1000;

/// Period of the blink schedule, in milliseconds.
pub const BLINK_INTERVAL_MS: u32 = 500;

} // verus!
