//! The scheduling capability the timer runs on.
//!
//! A provider starts repeating schedules; each schedule is owned by the
//! handle that came back when it was started. The library never looks inside
//! either: it only decides when a schedule is started and when its handle is
//! cancelled.

use vstd::prelude::*;

verus! {

/// The two periodic schedules of the timer.
#[derive(Clone, Copy, Debug, PartialEq, Eq)]
pub enum TimerRole {
    /// Decrements the remaining time.
    Countdown,
    /// Toggles the visibility of the display while the alert is on.
    Blink,
}

/// Owns one schedule. Dropping the handle must stop the schedule as
/// cancelling does.
pub trait TimerHandle {
    /// Stops the schedule: no tick is delivered after this returns. Calling it
    /// again does nothing.
    fn cancel(&mut self);
}

/// Starts schedules on the platform.
pub trait TimerProvider {
    /// The handle this provider gives for a schedule.
    type Handle: TimerHandle;

    /// Starts a schedule that delivers a tick for `role` every `ms`
    /// milliseconds, until the handle that is returned is cancelled or
    /// dropped.
    fn set_interval(&self, ms: u32, role: TimerRole) -> Self::Handle;
}

} // verus!
