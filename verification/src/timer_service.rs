//! The timer's state machine.
//!
//! Two periodic schedules serve the timer, one per [`TimerRole`]: the
//! countdown and the blink. The platform owns the schedules; this module owns
//! the decisions. Every operation takes the state by exclusive reference,
//! moves it to its next value and returns the [`TimerEffect`]s that the caller
//! has to carry out, in order. A schedule that is started for a role delivers
//! its ticks to [`countdown_tick`] or [`blink_tick`].
//!
//! Policy: the countdown is floored at
//! [`crate::config::MINIMUM_SECONDS`]; a fresh start of the countdown ends a
//! pause; a click on the display does nothing while the timer is paused,
//! whereas [`handle_click_and_reset`] itself resets whatever the pause state.

use crate::config::{BLINK_INTERVAL_MS, COUNTDOWN_INTERVAL_MS, MINIMUM_SECONDS};
use crate::event_logic::{handle_click, parse_time_input, parse_time_spec, reset_value, ParseError};
use crate::text::str_equals;
use crate::timer_provider::{TimerHandle, TimerProvider, TimerRole};
use crate::time_format::{format_time, format_time_spec};
use crate::timer_logic::{next_remaining, tick_blinks, tick_stops, toggle_blink, update_countdown};
use vstd::prelude::*;

verus! {

/// Something the caller has to do on the platform.
#[derive(Clone, Copy, Debug, PartialEq, Eq)]
pub enum TimerEffect {
    /// Cancel the schedule held for the role and let go of its handle.
    Cancel(TimerRole),
    /// Start a schedule with the given period in milliseconds and hold its
    /// handle for the role.
    Schedule(TimerRole, u32),
    /// Store the given seconds as the remaining time to start from next time.
    Save(u32),
}

/// Everything the timer knows.
#[derive(Clone, Copy, Debug, PartialEq, Eq)]
pub struct TimerState {
    /// Remaining seconds; negative in overtime.
    pub remaining: i32,
    /// The alert is on.
    pub is_blinking: bool,
    /// The display is in the visible half of a blink.
    pub is_blink_visible: bool,
    /// The countdown is paused.
    pub is_paused: bool,
    /// The seconds a reset goes back to, once the user has committed a time.
    pub reset_time: Option<i32>,
    /// A time is being typed.
    pub input_mode: bool,
    /// A countdown schedule is live and its handle is held.
    pub countdown_scheduled: bool,
    /// A blink schedule is live and its handle is held.
    pub blink_scheduled: bool,
}

/// What a key press did to the input mode.
#[derive(Debug, PartialEq, Eq)]
pub enum InputToggle {
    /// The key is none of this handler's business.
    Ignored,
    /// Input mode was entered; the field is to show this text, focused.
    Opened(String),
    /// Input mode was left.
    Closed,
}

/// What a key press did while a time was being typed.
#[derive(Debug, PartialEq, Eq)]
pub enum InputKey {
    /// Not in input mode, or a key other than Enter and Escape.
    Ignored,
    /// Enter on valid text: the time was taken; these effects are due.
    Committed(Vec<TimerEffect>),
    /// Enter on invalid text: nothing changed; the error is to be shown.
    Rejected(ParseError),
    /// Escape: input mode was left.
    Cancelled,
}

/// Whether a schedule is live for `role` once `effect` has been carried out,
/// given whether one was live before.
pub open spec fn role_step(role: TimerRole, live: bool, effect: TimerEffect) -> bool {
    match effect {
        TimerEffect::Cancel(r) => live && r != role,
        TimerEffect::Schedule(r, _) => live || r == role,
        TimerEffect::Save(_) => live,
    }
}

/// `effect` is in order for `role`: it cancels no idle role and starts no
/// schedule over a live one.
pub open spec fn effect_in_order(role: TimerRole, live: bool, effect: TimerEffect) -> bool {
    match effect {
        TimerEffect::Cancel(r) => r == role ==> live,
        TimerEffect::Schedule(r, _) => r == role ==> !live,
        TimerEffect::Save(_) => true,
    }
}

/// Whether a schedule is live for `role` after `effects` have been carried
/// out one after the other, starting with `live`.
pub open spec fn held_after(role: TimerRole, live: bool, effects: Seq<TimerEffect>) -> bool
    decreases effects.len(),
{
    if effects.len() == 0 {
        live
    } else {
        held_after(role, role_step(role, live, effects[0]), effects.skip(1))
    }
}

/// As [`held_after`], for effects that are in order all the way; `None`
/// where one of them is not.
pub open spec fn role_after(role: TimerRole, live: bool, effects: Seq<TimerEffect>) -> Option<bool>
    decreases effects.len(),
{
    if effects.len() == 0 {
        Some(live)
    } else if effect_in_order(role, live, effects[0]) {
        role_after(role, role_step(role, live, effects[0]), effects.skip(1))
    } else {
        None
    }
}

/// The seconds that `effects` ask to save, in order.
pub open spec fn saved_seconds(effects: Seq<TimerEffect>) -> Seq<u32>
    decreases effects.len(),
{
    if effects.len() == 0 {
        Seq::empty()
    } else {
        match effects.last() {
            TimerEffect::Save(seconds) => saved_seconds(effects.drop_last()).push(seconds),
            _ => saved_seconds(effects.drop_last()),
        }
    }
}

/// The effects take the schedules from what `before` holds to what `after`
/// holds, never cancelling an idle role and never starting a schedule for a
/// role that still has one: at most one live schedule per role at any moment.
pub open spec fn schedules_follow(
    before: TimerState,
    effects: Seq<TimerEffect>,
    after: TimerState,
) -> bool {
    &&& role_after(TimerRole::Countdown, before.countdown_scheduled, effects) == Some(
        after.countdown_scheduled,
    )
    &&& role_after(TimerRole::Blink, before.blink_scheduled, effects) == Some(after.blink_scheduled)
}

/// The cancel that is due for `role`: one where a schedule is live, none
/// otherwise.
pub open spec fn cancel_if_live(role: TimerRole, live: bool) -> Seq<TimerEffect> {
    if live {
        seq![TimerEffect::Cancel(role)]
    } else {
        Seq::empty()
    }
}

impl TimerState {
    /// The flags agree with the schedules: the alert is on exactly while a
    /// blink schedule is live, and no countdown schedule is live during a
    /// pause.
    pub open spec fn wf(self) -> bool {
        &&& self.is_blinking == self.blink_scheduled
        &&& self.is_paused ==> !self.countdown_scheduled
    }

    /// The state at mount: nothing scheduled, no alert, not paused.
    pub open spec fn initial(remaining: i32) -> TimerState {
        TimerState {
            remaining,
            is_blinking: false,
            is_blink_visible: true,
            is_paused: false,
            reset_time: None,
            input_mode: false,
            countdown_scheduled: false,
            blink_scheduled: false,
        }
    }

    /// Makes the state at mount, with `remaining` seconds on the clock.
    pub fn new(remaining: i32) -> (state: TimerState)
        ensures
            state == TimerState::initial(remaining),
            state.wf(),
    {
        TimerState {
            remaining,
            is_blinking: false,
            is_blink_visible: true,
            is_paused: false,
            reset_time: None,
            input_mode: false,
            countdown_scheduled: false,
            blink_scheduled: false,
        }
    }
}

/// Starting the countdown: any live countdown schedule is cancelled first,
/// then a new one is started. A pause ends.
pub open spec fn start_countdown_spec(s: TimerState) -> (TimerState, Seq<TimerEffect>) {
    (
        TimerState { countdown_scheduled: true, is_paused: false, ..s },
        cancel_if_live(TimerRole::Countdown, s.countdown_scheduled).push(
            TimerEffect::Schedule(TimerRole::Countdown, COUNTDOWN_INTERVAL_MS),
        ),
    )
}

/// Turning the alert on: nothing while it is on already; otherwise the
/// display becomes visible and a blink schedule is started.
pub open spec fn trigger_blink_spec(s: TimerState) -> (TimerState, Seq<TimerEffect>) {
    if s.is_blinking {
        (s, Seq::empty())
    } else {
        (
            TimerState { is_blinking: true, is_blink_visible: true, blink_scheduled: true, ..s },
            cancel_if_live(TimerRole::Blink, s.blink_scheduled).push(
                TimerEffect::Schedule(TimerRole::Blink, BLINK_INTERVAL_MS),
            ),
        )
    }
}

/// One countdown tick: the remaining time moves on; at the floor the
/// countdown schedule is cancelled; otherwise, at zero and below, the alert is
/// turned on unless it is on already.
pub open spec fn countdown_tick_spec(s: TimerState) -> (TimerState, Seq<TimerEffect>) {
    let ticked = TimerState { remaining: next_remaining(s.remaining as int) as i32, ..s };
    if tick_stops(s.remaining as int) {
        (
            TimerState { countdown_scheduled: false, ..ticked },
            cancel_if_live(TimerRole::Countdown, s.countdown_scheduled),
        )
    } else if tick_blinks(s.remaining as int) {
        trigger_blink_spec(ticked)
    } else {
        (ticked, Seq::empty())
    }
}

/// One blink tick: the visibility flips.
pub open spec fn blink_tick_spec(s: TimerState) -> TimerState {
    TimerState { is_blink_visible: !s.is_blink_visible, ..s }
}

/// Pausing: the countdown schedule is cancelled; the blink is left alone.
pub open spec fn pause_spec(s: TimerState) -> (TimerState, Seq<TimerEffect>) {
    (
        TimerState { is_paused: true, countdown_scheduled: false, ..s },
        cancel_if_live(TimerRole::Countdown, s.countdown_scheduled),
    )
}

/// Resuming: the pause ends; the countdown starts again unless the alert is
/// on. Overtime is left by a reset only.
pub open spec fn resume_spec(s: TimerState) -> (TimerState, Seq<TimerEffect>) {
    if s.is_blinking {
        (TimerState { is_paused: false, ..s }, Seq::empty())
    } else {
        start_countdown_spec(s)
    }
}

/// The pause key `p`: resumes a paused timer, pauses a running one, and does
/// nothing to a running one whose alert is on. Other keys do nothing.
pub open spec fn pause_key_spec(s: TimerState, key: Seq<char>) -> (TimerState, Seq<TimerEffect>) {
    if key != "p"@ {
        (s, Seq::empty())
    } else if s.is_paused {
        resume_spec(s)
    } else if s.is_blinking {
        (s, Seq::empty())
    } else {
        pause_spec(s)
    }
}

/// A reset: the remaining time goes back to the reset value, the alert is
/// cleared and its schedule cancelled if it was on, and the countdown starts
/// afresh.
pub open spec fn click_reset_spec(s: TimerState) -> (TimerState, Seq<TimerEffect>) {
    let cleared = TimerState {
        remaining: reset_value(s.reset_time),
        is_blinking: false,
        is_blink_visible: true,
        blink_scheduled: s.blink_scheduled && !s.is_blinking,
        ..s
    };
    (
        start_countdown_spec(cleared).0,
        cancel_if_live(TimerRole::Blink, s.blink_scheduled && s.is_blinking)
            + start_countdown_spec(cleared).1,
    )
}

/// A click on the display: a reset, unless the timer is paused.
pub open spec fn display_click_spec(s: TimerState) -> (TimerState, Seq<TimerEffect>) {
    if s.is_paused {
        (s, Seq::empty())
    } else {
        click_reset_spec(s)
    }
}

/// Taking a validated time of `total` seconds: it becomes the remaining time
/// and the reset value and is saved; input mode, alert and pause end; both
/// schedules are cancelled and the countdown starts afresh.
pub open spec fn commit_spec(s: TimerState, total: i32) -> (TimerState, Seq<TimerEffect>) {
    (
        TimerState {
            remaining: total,
            is_blinking: false,
            is_blink_visible: true,
            is_paused: false,
            reset_time: Some(total),
            input_mode: false,
            countdown_scheduled: true,
            blink_scheduled: false,
        },
        seq![TimerEffect::Save(total as u32)] + cancel_if_live(
            TimerRole::Countdown,
            s.countdown_scheduled,
        ) + cancel_if_live(TimerRole::Blink, s.blink_scheduled).push(
            TimerEffect::Schedule(TimerRole::Countdown, COUNTDOWN_INTERVAL_MS),
        ),
    )
}

/// Unmounting: whatever is scheduled is cancelled.
pub open spec fn teardown_spec(s: TimerState) -> Seq<TimerEffect> {
    cancel_if_live(TimerRole::Countdown, s.countdown_scheduled) + cancel_if_live(
        TimerRole::Blink,
        s.blink_scheduled,
    )
}

/// Appends the cancel that is due for `role` to `effects`.
fn push_cancel(effects: &mut Vec<TimerEffect>, role: TimerRole, live: bool)
    ensures
        final(effects)@ == old(effects)@ + cancel_if_live(role, live),
{
    if live {
        effects.push(TimerEffect::Cancel(role));
    }
    assert(effects@ =~= old(effects)@ + cancel_if_live(role, live));
}

/// The handles of the live schedules: at most one per role.
pub struct TimerHandles<H: TimerHandle> {
    /// The handle of the countdown schedule, while one is live.
    pub countdown: Option<H>,
    /// The handle of the blink schedule, while one is live.
    pub blink: Option<H>,
}

impl<H: TimerHandle> TimerHandles<H> {
    /// A handle is held for `role`.
    pub open spec fn holds(&self, role: TimerRole) -> bool {
        match role {
            TimerRole::Countdown => self.countdown is Some,
            TimerRole::Blink => self.blink is Some,
        }
    }

    /// No handles: nothing is scheduled.
    pub fn new() -> (handles: Self)
        ensures
            !handles.holds(TimerRole::Countdown),
            !handles.holds(TimerRole::Blink),
    {
        TimerHandles { countdown: None, blink: None }
    }

    /// Cancels the schedule of `role`, if one is live, and lets go of its
    /// handle. The other role is not touched.
    pub fn cancel(&mut self, role: TimerRole)
        ensures
            !final(self).holds(role),
            role != TimerRole::Countdown ==> final(self).countdown == old(self).countdown,
            role != TimerRole::Blink ==> final(self).blink == old(self).blink,
    {
        let held = match role {
            TimerRole::Countdown => self.countdown.take(),
            TimerRole::Blink => self.blink.take(),
        };
        match held {
            Some(mut handle) => {
                handle.cancel();
            },
            None => {},
        }
    }

    /// Starts a schedule for `role` and holds its handle. A schedule that is
    /// still live for the role is cancelled first, so that the role never has
    /// two.
    pub fn schedule<P: TimerProvider<Handle = H>>(
        &mut self,
        provider: &P,
        role: TimerRole,
        ms: u32,
    )
        ensures
            final(self).holds(role),
            role != TimerRole::Countdown ==> final(self).countdown == old(self).countdown,
            role != TimerRole::Blink ==> final(self).blink == old(self).blink,
    {
        self.cancel(role);
        let handle = provider.set_interval(ms, role);
        match role {
            TimerRole::Countdown => {
                self.countdown = Some(handle);
            },
            TimerRole::Blink => {
                self.blink = Some(handle);
            },
        }
    }

    /// Carries out `effects` in order on the provider and gives back the
    /// seconds that they ask to save, which is the caller's to do.
    pub fn apply<P: TimerProvider<Handle = H>>(
        &mut self,
        provider: &P,
        effects: &Vec<TimerEffect>,
    ) -> (saved: Vec<u32>)
        ensures
            final(self).holds(TimerRole::Countdown) == held_after(
                TimerRole::Countdown,
                old(self).holds(TimerRole::Countdown),
                effects@,
            ),
            final(self).holds(TimerRole::Blink) == held_after(
                TimerRole::Blink,
                old(self).holds(TimerRole::Blink),
                effects@,
            ),
            saved@ == saved_seconds(effects@),
    {
        let mut saved: Vec<u32> = Vec::new();
        let mut i: usize = 0;
        assert(effects@.skip(0) =~= effects@);
        assert(effects@.take(0) =~= Seq::<TimerEffect>::empty());
        while i < effects.len()
            invariant
                i <= effects@.len(),
                held_after(TimerRole::Countdown, old(self).holds(TimerRole::Countdown), effects@)
                    == held_after(
                    TimerRole::Countdown,
                    self.holds(TimerRole::Countdown),
                    effects@.skip(i as int),
                ),
                held_after(TimerRole::Blink, old(self).holds(TimerRole::Blink), effects@)
                    == held_after(
                    TimerRole::Blink,
                    self.holds(TimerRole::Blink),
                    effects@.skip(i as int),
                ),
                saved@ == saved_seconds(effects@.take(i as int)),
            decreases effects@.len() - i,
        {
            proof {
                assert(effects@.skip(i as int)[0] == effects@[i as int]);
                assert(effects@.skip(i as int).skip(1) =~= effects@.skip(i + 1));
                assert(effects@.take(i + 1).drop_last() =~= effects@.take(i as int));
                assert(effects@.take(i + 1).last() == effects@[i as int]);
            }
            match effects[i] {
                TimerEffect::Cancel(role) => {
                    self.cancel(role);
                },
                TimerEffect::Schedule(role, ms) => {
                    self.schedule(provider, role, ms);
                },
                TimerEffect::Save(seconds) => {
                    saved.push(seconds);
                },
            }
            i = i + 1;
        }
        assert(effects@.take(i as int) =~= effects@);
        saved
    }
}

/// Where effects are in order, carrying them out leaves exactly the
/// schedules live that [`role_after`] says.
pub proof fn lemma_in_order_effects_are_held(role: TimerRole, live: bool, effects: Seq<TimerEffect>)
    ensures
        role_after(role, live, effects) matches Some(then_live) ==> held_after(role, live, effects)
            == then_live,
    decreases effects.len(),
{
    if effects.len() > 0 {
        lemma_in_order_effects_are_held(role, role_step(role, live, effects[0]), effects.skip(1));
    }
}

/// Handles that mirror the state before an operation mirror the state after
/// it, once the operation's effects have been carried out: whatever
/// [`schedules_follow`] holds of, each role has a handle exactly while the
/// state says that its schedule is live.
pub proof fn lemma_handles_mirror_state(
    before: TimerState,
    effects: Seq<TimerEffect>,
    after: TimerState,
)
    requires
        schedules_follow(before, effects, after),
    ensures
        held_after(TimerRole::Countdown, before.countdown_scheduled, effects)
            == after.countdown_scheduled,
        held_after(TimerRole::Blink, before.blink_scheduled, effects) == after.blink_scheduled,
{
    lemma_in_order_effects_are_held(TimerRole::Countdown, before.countdown_scheduled, effects);
    lemma_in_order_effects_are_held(TimerRole::Blink, before.blink_scheduled, effects);
}

/// Cancels any live countdown schedule and starts a new one, adding the
/// effects to `effects`.
fn start_countdown_into(state: &mut TimerState, effects: &mut Vec<TimerEffect>)
    ensures
        *final(state) == start_countdown_spec(*old(state)).0,
        final(effects)@ == old(effects)@ + start_countdown_spec(*old(state)).1,
{
    push_cancel(effects, TimerRole::Countdown, state.countdown_scheduled);
    effects.push(TimerEffect::Schedule(TimerRole::Countdown, COUNTDOWN_INTERVAL_MS));
    state.countdown_scheduled = true;
    state.is_paused = false;
    assert(effects@ =~= old(effects)@ + start_countdown_spec(*old(state)).1);
}

/// Turns the alert on unless it is on already, adding the effects to
/// `effects`.
fn trigger_blink_into(state: &mut TimerState, effects: &mut Vec<TimerEffect>)
    ensures
        *final(state) == trigger_blink_spec(*old(state)).0,
        final(effects)@ == old(effects)@ + trigger_blink_spec(*old(state)).1,
{
    if !state.is_blinking {
        push_cancel(effects, TimerRole::Blink, state.blink_scheduled);
        effects.push(TimerEffect::Schedule(TimerRole::Blink, BLINK_INTERVAL_MS));
        state.is_blinking = true;
        state.is_blink_visible = true;
        state.blink_scheduled = true;
    }
    assert(effects@ =~= old(effects)@ + trigger_blink_spec(*old(state)).1);
}

/// Starts or restarts the countdown: a live countdown schedule is cancelled
/// before the new one is started. A pause ends.
pub fn start_countdown_timer(state: &mut TimerState) -> (effects: Vec<TimerEffect>)
    ensures
        (*final(state), effects@) == start_countdown_spec(*old(state)),
        schedules_follow(*old(state), effects@, *final(state)),
        old(state).wf() ==> final(state).wf(),
{
    let mut effects: Vec<TimerEffect> = Vec::new();
    start_countdown_into(state, &mut effects);
    proof {
        assert(effects@ =~= start_countdown_spec(*old(state)).1);
        lemma_start_countdown_follows(*old(state));
    }
    effects
}

/// Turns the alert on and starts the blink schedule. While the alert is on
/// already it does nothing, so that there is never a second blink schedule.
pub fn trigger_blink_timer(state: &mut TimerState) -> (effects: Vec<TimerEffect>)
    ensures
        (*final(state), effects@) == trigger_blink_spec(*old(state)),
        schedules_follow(*old(state), effects@, *final(state)),
        old(state).wf() ==> final(state).wf(),
{
    let mut effects: Vec<TimerEffect> = Vec::new();
    trigger_blink_into(state, &mut effects);
    proof {
        assert(effects@ =~= trigger_blink_spec(*old(state)).1);
        lemma_trigger_blink_follows(*old(state));
    }
    effects
}

/// Handles one tick of the countdown schedule.
pub fn countdown_tick(state: &mut TimerState) -> (effects: Vec<TimerEffect>)
    ensures
        (*final(state), effects@) == countdown_tick_spec(*old(state)),
        schedules_follow(*old(state), effects@, *final(state)),
        old(state).wf() ==> final(state).wf(),
        final(state).remaining >= MINIMUM_SECONDS,
{
    let mut effects: Vec<TimerEffect> = Vec::new();
    let update = update_countdown(state.remaining);
    state.remaining = update.remaining;
    if update.should_stop {
        push_cancel(&mut effects, TimerRole::Countdown, state.countdown_scheduled);
        state.countdown_scheduled = false;
    } else if update.should_blink && !state.is_blinking {
        trigger_blink_into(state, &mut effects);
    }
    proof {
        assert(effects@ =~= countdown_tick_spec(*old(state)).1);
        lemma_countdown_tick_follows(*old(state));
    }
    effects
}

/// Handles one tick of the blink schedule.
pub fn blink_tick(state: &mut TimerState)
    ensures
        *final(state) == blink_tick_spec(*old(state)),
        old(state).wf() ==> final(state).wf(),
{
    state.is_blink_visible = toggle_blink(state.is_blink_visible);
}

/// Pauses the countdown. The blink schedule is not touched.
pub fn pause(state: &mut TimerState) -> (effects: Vec<TimerEffect>)
    ensures
        (*final(state), effects@) == pause_spec(*old(state)),
        schedules_follow(*old(state), effects@, *final(state)),
        old(state).wf() ==> final(state).wf(),
{
    let mut effects: Vec<TimerEffect> = Vec::new();
    push_cancel(&mut effects, TimerRole::Countdown, state.countdown_scheduled);
    state.countdown_scheduled = false;
    state.is_paused = true;
    proof {
        assert(effects@ =~= pause_spec(*old(state)).1);
        lemma_pause_follows(*old(state));
    }
    effects
}

/// Ends a pause. The countdown starts again unless the alert is on.
pub fn resume(state: &mut TimerState) -> (effects: Vec<TimerEffect>)
    ensures
        (*final(state), effects@) == resume_spec(*old(state)),
        schedules_follow(*old(state), effects@, *final(state)),
        old(state).wf() ==> final(state).wf(),
{
    let mut effects: Vec<TimerEffect> = Vec::new();
    state.is_paused = false;
    if !state.is_blinking {
        start_countdown_into(state, &mut effects);
    }
    proof {
        assert(effects@ =~= resume_spec(*old(state)).1);
        lemma_resume_follows(*old(state));
    }
    effects
}

/// Handles a key press for pause and resume.
pub fn handle_pause_key(state: &mut TimerState, key: &str) -> (effects: Vec<TimerEffect>)
    ensures
        (*final(state), effects@) == pause_key_spec(*old(state), key@),
        schedules_follow(*old(state), effects@, *final(state)),
        old(state).wf() ==> final(state).wf(),
{
    proof {
        lemma_pause_key_follows(*old(state), key@);
    }
    if !str_equals(key, "p") {
        Vec::new()
    } else if state.is_paused {
        resume(state)
    } else if state.is_blinking {
        Vec::new()
    } else {
        pause(state)
    }
}

/// Resets the timer: the remaining time goes back to the reset value, a
/// running alert is cancelled and cleared, and the countdown starts afresh,
/// whatever the pause state.
pub fn handle_click_and_reset(state: &mut TimerState) -> (effects: Vec<TimerEffect>)
    ensures
        (*final(state), effects@) == click_reset_spec(*old(state)),
        schedules_follow(*old(state), effects@, *final(state)),
        old(state).wf() ==> final(state).wf(),
        final(state).remaining == reset_value(old(state).reset_time),
        !final(state).is_blinking,
        final(state).is_blink_visible,
{
    let mut effects: Vec<TimerEffect> = Vec::new();
    let result = handle_click(state.remaining, state.is_blinking, state.reset_time);
    state.remaining = result.reset_remaining;
    if result.should_cancel_blink {
        push_cancel(&mut effects, TimerRole::Blink, state.blink_scheduled);
        state.blink_scheduled = false;
    }
    state.is_blinking = result.is_blinking;
    state.is_blink_visible = result.is_visible;
    start_countdown_into(state, &mut effects);
    proof {
        assert(effects@ =~= click_reset_spec(*old(state)).1);
        lemma_click_reset_follows(*old(state));
    }
    effects
}

/// Handles a click on the display: a reset, unless the timer is paused.
pub fn handle_display_click(state: &mut TimerState) -> (effects: Vec<TimerEffect>)
    ensures
        (*final(state), effects@) == display_click_spec(*old(state)),
        schedules_follow(*old(state), effects@, *final(state)),
        old(state).wf() ==> final(state).wf(),
{
    proof {
        lemma_display_click_follows(*old(state));
    }
    if state.is_paused {
        Vec::new()
    } else {
        handle_click_and_reset(state)
    }
}

/// Takes text typed by the user as the new time. Valid text is committed:
/// see [`commit_spec`]. Invalid text changes nothing and gives the error.
pub fn commit_input(state: &mut TimerState, text: &str) -> (committed: Result<
    Vec<TimerEffect>,
    ParseError,
>)
    ensures
        match parse_time_spec(text@) {
            Ok(total) => committed matches Ok(effects) && (*final(state), effects@) == commit_spec(
                *old(state),
                total,
            ) && schedules_follow(*old(state), effects@, *final(state)),
            Err(error) => committed == Err::<Vec<TimerEffect>, ParseError>(error) && *final(state)
                == *old(state),
        },
        committed is Ok ==> final(state).wf(),
        old(state).wf() ==> final(state).wf(),
{
    match parse_time_input(text) {
        Ok(total) => {
            let mut effects: Vec<TimerEffect> = Vec::new();
            effects.push(TimerEffect::Save(total as u32));
            push_cancel(&mut effects, TimerRole::Countdown, state.countdown_scheduled);
            push_cancel(&mut effects, TimerRole::Blink, state.blink_scheduled);
            effects.push(TimerEffect::Schedule(TimerRole::Countdown, COUNTDOWN_INTERVAL_MS));
            state.remaining = total;
            state.reset_time = Some(total);
            state.input_mode = false;
            state.is_blinking = false;
            state.is_blink_visible = true;
            state.is_paused = false;
            state.countdown_scheduled = true;
            state.blink_scheduled = false;
            proof {
                assert(effects@ =~= commit_spec(*old(state), total).1);
                lemma_commit_follows(*old(state), total);
            }
            Ok(effects)
        },
        Err(error) => Err(error),
    }
}

/// Leaves input mode without taking the text.
pub fn cancel_input(state: &mut TimerState)
    ensures
        *final(state) == (TimerState { input_mode: false, ..*old(state) }),
        old(state).wf() ==> final(state).wf(),
{
    state.input_mode = false;
}

/// Handles a key press while a time is being typed: Enter commits `text`,
/// Escape leaves input mode, every other key is ignored, and so is every key
/// outside input mode.
pub fn handle_input_key(state: &mut TimerState, key: &str, text: &str) -> (outcome: InputKey)
    ensures
        match outcome {
            InputKey::Ignored => (!old(state).input_mode || (key@ != "Enter"@ && key@
                != "Escape"@)) && *final(state) == *old(state),
            InputKey::Committed(effects) => old(state).input_mode && key@ == "Enter"@
                && parse_time_spec(text@) is Ok && (*final(state), effects@) == commit_spec(
                *old(state),
                parse_time_spec(text@)->Ok_0,
            ) && schedules_follow(*old(state), effects@, *final(state)),
            InputKey::Rejected(error) => old(state).input_mode && key@ == "Enter"@
                && parse_time_spec(text@) == Err::<i32, ParseError>(error) && *final(state) == *old(
                state,
            ),
            InputKey::Cancelled => old(state).input_mode && key@ == "Escape"@ && key@ != "Enter"@
                && *final(state) == (TimerState { input_mode: false, ..*old(state) }),
        },
        old(state).wf() ==> final(state).wf(),
{
    if !state.input_mode {
        return InputKey::Ignored;
    }
    if str_equals(key, "Enter") {
        match commit_input(state, text) {
            Ok(effects) => InputKey::Committed(effects),
            Err(error) => InputKey::Rejected(error),
        }
    } else if str_equals(key, "Escape") {
        cancel_input(state);
        InputKey::Cancelled
    } else {
        InputKey::Ignored
    }
}

/// Handles a key press for the input mode: `f` enters input mode, with the
/// remaining time as the text to edit, or leaves it; other keys are ignored.
pub fn handle_toggle_input_mode(state: &mut TimerState, key: &str) -> (outcome: InputToggle)
    ensures
        match outcome {
            InputToggle::Ignored => key@ != "f"@ && *final(state) == *old(state),
            InputToggle::Opened(text) => key@ == "f"@ && !old(state).input_mode && text@
                == format_time_spec(old(state).remaining as int) && *final(state) == (TimerState {
                input_mode: true,
                ..*old(state)
            }),
            InputToggle::Closed => key@ == "f"@ && old(state).input_mode && *final(state) == (
            TimerState { input_mode: false, ..*old(state) }),
        },
        old(state).wf() ==> final(state).wf(),
{
    if !str_equals(key, "f") {
        InputToggle::Ignored
    } else if !state.input_mode {
        let text = format_time(state.remaining);
        state.input_mode = true;
        InputToggle::Opened(text)
    } else {
        state.input_mode = false;
        InputToggle::Closed
    }
}

/// Ends the timer's life: gives the cancels for whatever is still scheduled.
pub fn teardown(state: TimerState) -> (effects: Vec<TimerEffect>)
    ensures
        effects@ == teardown_spec(state),
        role_after(TimerRole::Countdown, state.countdown_scheduled, effects@) == Some(false),
        role_after(TimerRole::Blink, state.blink_scheduled, effects@) == Some(false),
{
    let mut effects: Vec<TimerEffect> = Vec::new();
    push_cancel(&mut effects, TimerRole::Countdown, state.countdown_scheduled);
    push_cancel(&mut effects, TimerRole::Blink, state.blink_scheduled);
    proof {
        assert(effects@ =~= teardown_spec(state));
        lemma_teardown_follows(state);
    }
    effects
}

/// Carrying out `first` and then `second` is carrying out `first + second`.
proof fn lemma_role_after_concat(
    role: TimerRole,
    live: bool,
    first: Seq<TimerEffect>,
    second: Seq<TimerEffect>,
)
    ensures
        role_after(role, live, first + second) == match role_after(role, live, first) {
            Some(then_live) => role_after(role, then_live, second),
            None => None,
        },
    decreases first.len(),
{
    if first.len() == 0 {
        assert(first + second =~= second);
    } else {
        assert((first + second)[0] == first[0]);
        assert((first + second).skip(1) =~= first.skip(1) + second);
        lemma_role_after_concat(role, true, first.skip(1), second);
        lemma_role_after_concat(role, false, first.skip(1), second);
    }
}

/// What a single effect does to a role.
proof fn lemma_role_after_one(role: TimerRole, live: bool, effect: TimerEffect)
    ensures
        role_after(role, live, seq![effect]) == match effect {
            TimerEffect::Cancel(r) => if r != role {
                Some(live)
            } else if live {
                Some(false)
            } else {
                None
            },
            TimerEffect::Schedule(r, _) => if r != role {
                Some(live)
            } else if live {
                None
            } else {
                Some(true)
            },
            TimerEffect::Save(_) => Some(live),
        },
{
    reveal_with_fuel(role_after, 2);
    assert(seq![effect].skip(1) =~= Seq::<TimerEffect>::empty());
}

/// A cancel that is due leaves its role idle and the other role alone.
proof fn lemma_cancel_if_live(role: TimerRole, live: bool, cancelled: TimerRole, other: bool)
    ensures
        role_after(cancelled, live, cancel_if_live(cancelled, live)) == Some(false),
        role != cancelled ==> role_after(role, other, cancel_if_live(cancelled, live)) == Some(
            other,
        ),
{
    if live {
        lemma_role_after_one(cancelled, live, TimerEffect::Cancel(cancelled));
        lemma_role_after_one(role, other, TimerEffect::Cancel(cancelled));
    }
}

/// Starting the countdown keeps to one schedule per role.
pub proof fn lemma_start_countdown_follows(s: TimerState)
    ensures
        schedules_follow(s, start_countdown_spec(s).1, start_countdown_spec(s).0),
{
    let cancel = cancel_if_live(TimerRole::Countdown, s.countdown_scheduled);
    let start = TimerEffect::Schedule(TimerRole::Countdown, COUNTDOWN_INTERVAL_MS);
    assert(start_countdown_spec(s).1 =~= cancel + seq![start]);
    lemma_role_after_concat(TimerRole::Countdown, s.countdown_scheduled, cancel, seq![start]);
    lemma_role_after_concat(TimerRole::Blink, s.blink_scheduled, cancel, seq![start]);
    lemma_cancel_if_live(
        TimerRole::Blink,
        s.countdown_scheduled,
        TimerRole::Countdown,
        s.blink_scheduled,
    );
    lemma_role_after_one(TimerRole::Countdown, false, start);
    lemma_role_after_one(TimerRole::Blink, s.blink_scheduled, start);
}

/// Turning the alert on keeps to one schedule per role.
pub proof fn lemma_trigger_blink_follows(s: TimerState)
    ensures
        schedules_follow(s, trigger_blink_spec(s).1, trigger_blink_spec(s).0),
{
    if !s.is_blinking {
        let cancel = cancel_if_live(TimerRole::Blink, s.blink_scheduled);
        let start = TimerEffect::Schedule(TimerRole::Blink, BLINK_INTERVAL_MS);
        assert(trigger_blink_spec(s).1 =~= cancel + seq![start]);
        lemma_role_after_concat(TimerRole::Blink, s.blink_scheduled, cancel, seq![start]);
        lemma_role_after_concat(TimerRole::Countdown, s.countdown_scheduled, cancel, seq![start]);
        lemma_cancel_if_live(
            TimerRole::Countdown,
            s.blink_scheduled,
            TimerRole::Blink,
            s.countdown_scheduled,
        );
        lemma_role_after_one(TimerRole::Blink, false, start);
        lemma_role_after_one(TimerRole::Countdown, s.countdown_scheduled, start);
    }
}

/// A countdown tick keeps to one schedule per role.
pub proof fn lemma_countdown_tick_follows(s: TimerState)
    ensures
        schedules_follow(s, countdown_tick_spec(s).1, countdown_tick_spec(s).0),
{
    let ticked = TimerState { remaining: next_remaining(s.remaining as int) as i32, ..s };
    if tick_stops(s.remaining as int) {
        lemma_cancel_if_live(
            TimerRole::Blink,
            s.countdown_scheduled,
            TimerRole::Countdown,
            s.blink_scheduled,
        );
    } else if tick_blinks(s.remaining as int) {
        lemma_trigger_blink_follows(ticked);
    }
}

/// Pausing keeps to one schedule per role.
pub proof fn lemma_pause_follows(s: TimerState)
    ensures
        schedules_follow(s, pause_spec(s).1, pause_spec(s).0),
{
    lemma_cancel_if_live(
        TimerRole::Blink,
        s.countdown_scheduled,
        TimerRole::Countdown,
        s.blink_scheduled,
    );
}

/// Resuming keeps to one schedule per role.
pub proof fn lemma_resume_follows(s: TimerState)
    ensures
        schedules_follow(s, resume_spec(s).1, resume_spec(s).0),
{
    if !s.is_blinking {
        lemma_start_countdown_follows(s);
    }
}

/// The pause key keeps to one schedule per role.
pub proof fn lemma_pause_key_follows(s: TimerState, key: Seq<char>)
    ensures
        schedules_follow(s, pause_key_spec(s, key).1, pause_key_spec(s, key).0),
{
    lemma_resume_follows(s);
    lemma_pause_follows(s);
}

/// A reset keeps to one schedule per role.
pub proof fn lemma_click_reset_follows(s: TimerState)
    ensures
        schedules_follow(s, click_reset_spec(s).1, click_reset_spec(s).0),
{
    let cleared = TimerState {
        remaining: reset_value(s.reset_time),
        is_blinking: false,
        is_blink_visible: true,
        blink_scheduled: s.blink_scheduled && !s.is_blinking,
        ..s
    };
    let cancel = cancel_if_live(TimerRole::Blink, s.blink_scheduled && s.is_blinking);
    let rest = start_countdown_spec(cleared).1;
    lemma_start_countdown_follows(cleared);
    lemma_role_after_concat(TimerRole::Countdown, s.countdown_scheduled, cancel, rest);
    lemma_role_after_concat(TimerRole::Blink, s.blink_scheduled, cancel, rest);
    if s.blink_scheduled && s.is_blinking {
        lemma_cancel_if_live(TimerRole::Countdown, true, TimerRole::Blink, s.countdown_scheduled);
    }
}

/// A click on the display keeps to one schedule per role.
pub proof fn lemma_display_click_follows(s: TimerState)
    ensures
        schedules_follow(s, display_click_spec(s).1, display_click_spec(s).0),
{
    lemma_click_reset_follows(s);
}

/// Committing a time keeps to one schedule per role.
pub proof fn lemma_commit_follows(s: TimerState, total: i32)
    ensures
        schedules_follow(s, commit_spec(s, total).1, commit_spec(s, total).0),
{
    let save = seq![TimerEffect::Save(total as u32)];
    let cancel_countdown = cancel_if_live(TimerRole::Countdown, s.countdown_scheduled);
    let cancel_blink = cancel_if_live(TimerRole::Blink, s.blink_scheduled);
    let start = TimerEffect::Schedule(TimerRole::Countdown, COUNTDOWN_INTERVAL_MS);
    let tail = cancel_blink + seq![start];
    let middle = cancel_countdown + tail;
    assert(commit_spec(s, total).1 =~= save + middle);
    lemma_role_after_one(TimerRole::Countdown, s.countdown_scheduled, save[0]);
    lemma_role_after_one(TimerRole::Blink, s.blink_scheduled, save[0]);
    lemma_role_after_concat(TimerRole::Countdown, s.countdown_scheduled, save, middle);
    lemma_role_after_concat(TimerRole::Blink, s.blink_scheduled, save, middle);
    lemma_role_after_concat(TimerRole::Countdown, s.countdown_scheduled, cancel_countdown, tail);
    lemma_role_after_concat(TimerRole::Blink, s.blink_scheduled, cancel_countdown, tail);
    lemma_cancel_if_live(
        TimerRole::Blink,
        s.countdown_scheduled,
        TimerRole::Countdown,
        s.blink_scheduled,
    );
    lemma_role_after_concat(TimerRole::Countdown, false, cancel_blink, seq![start]);
    lemma_role_after_concat(TimerRole::Blink, s.blink_scheduled, cancel_blink, seq![start]);
    lemma_cancel_if_live(TimerRole::Countdown, s.blink_scheduled, TimerRole::Blink, false);
    lemma_role_after_one(TimerRole::Countdown, false, start);
    lemma_role_after_one(TimerRole::Blink, false, start);
}

/// Tearing down leaves nothing scheduled.
pub proof fn lemma_teardown_follows(s: TimerState)
    ensures
        role_after(TimerRole::Countdown, s.countdown_scheduled, teardown_spec(s)) == Some(false),
        role_after(TimerRole::Blink, s.blink_scheduled, teardown_spec(s)) == Some(false),
{
    let cancel_countdown = cancel_if_live(TimerRole::Countdown, s.countdown_scheduled);
    let cancel_blink = cancel_if_live(TimerRole::Blink, s.blink_scheduled);
    lemma_role_after_concat(
        TimerRole::Countdown,
        s.countdown_scheduled,
        cancel_countdown,
        cancel_blink,
    );
    lemma_role_after_concat(TimerRole::Blink, s.blink_scheduled, cancel_countdown, cancel_blink);
    lemma_cancel_if_live(
        TimerRole::Blink,
        s.countdown_scheduled,
        TimerRole::Countdown,
        s.blink_scheduled,
    );
    lemma_cancel_if_live(TimerRole::Countdown, s.blink_scheduled, TimerRole::Blink, false);
}

} // verus!
