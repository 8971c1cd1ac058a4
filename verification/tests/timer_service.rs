use countdown_timer::config::{BLINK_INTERVAL_MS, COUNTDOWN_INTERVAL_MS, INITIAL_SECONDS};
use countdown_timer::event_logic::ParseError;
use countdown_timer::timer_provider::{TimerHandle, TimerProvider, TimerRole};
use countdown_timer::timer_service::{
    blink_tick, cancel_input, commit_input, countdown_tick, handle_click_and_reset,
    handle_display_click, handle_input_key, handle_pause_key, handle_toggle_input_mode, pause,
    resume, start_countdown_timer, teardown, trigger_blink_timer, InputKey, InputToggle,
    TimerEffect, TimerHandles, TimerState,
};
use std::cell::RefCell;
use std::collections::VecDeque;
use std::rc::Rc;

/// A handle that remembers in a shared cell that it was cancelled.
struct FakeHandle {
    cancelled: Rc<RefCell<Vec<TimerRole>>>,
    role: TimerRole,
}

impl TimerHandle for FakeHandle {
    fn cancel(&mut self) {
        self.cancelled.borrow_mut().push(self.role);
    }
}

/// Stands in for the platform: records the period of every schedule that is
/// started and calls back at once, as if the first tick were due immediately.
struct FakeProvider {
    calls: Rc<RefCell<Vec<u32>>>,
    cancelled: Rc<RefCell<Vec<TimerRole>>>,
    callback: RefCell<Box<dyn FnMut(TimerRole)>>,
}

impl FakeProvider {
    fn new(calls: Rc<RefCell<Vec<u32>>>, callback: Box<dyn FnMut(TimerRole)>) -> Self {
        FakeProvider {
            calls,
            cancelled: Rc::new(RefCell::new(Vec::new())),
            callback: RefCell::new(callback),
        }
    }
}

impl TimerProvider for FakeProvider {
    type Handle = FakeHandle;

    fn set_interval(&self, ms: u32, role: TimerRole) -> FakeHandle {
        self.calls.borrow_mut().push(ms);
        (self.callback.borrow_mut())(role);
        FakeHandle { cancelled: self.cancelled.clone(), role }
    }
}

/// The timer on the fake platform: state, handles, provider, and the ticks
/// that the provider has called back with and that are still to be handled.
struct Fake {
    state: TimerState,
    handles: TimerHandles<FakeHandle>,
    provider: FakeProvider,
    due: Rc<RefCell<VecDeque<TimerRole>>>,
    calls: Rc<RefCell<Vec<u32>>>,
    saved: Vec<u32>,
}

impl Fake {
    fn new(state: TimerState) -> Self {
        let due = Rc::new(RefCell::new(VecDeque::new()));
        let queue = due.clone();
        let calls = Rc::new(RefCell::new(Vec::new()));
        let provider = FakeProvider::new(
            calls.clone(),
            Box::new(move |role| queue.borrow_mut().push_back(role)),
        );
        Fake { state, handles: TimerHandles::new(), provider, due, calls, saved: Vec::new() }
    }

    fn run(&mut self, effects: Vec<TimerEffect>) {
        let before = self.cancelled().len();
        let expected = effects.iter().filter(|e| matches!(e, TimerEffect::Cancel(_))).count();
        let saved = self.handles.apply(&self.provider, &effects);
        self.saved.extend(saved);
        // Every cancel met a handle, and no schedule had to replace one.
        assert_eq!(self.cancelled().len() - before, expected);
        assert_eq!(self.handles.countdown.is_some(), self.state.countdown_scheduled);
        assert_eq!(self.handles.blink.is_some(), self.state.blink_scheduled);
        loop {
            let next = self.due.borrow_mut().pop_front();
            match next {
                Some(TimerRole::Countdown) => {
                    let more = countdown_tick(&mut self.state);
                    self.run(more);
                }
                Some(TimerRole::Blink) => blink_tick(&mut self.state),
                None => break,
            }
        }
    }

    fn cancelled(&self) -> Vec<TimerRole> {
        self.provider.cancelled.borrow().clone()
    }

    fn calls(&self) -> Vec<u32> {
        self.calls.borrow().clone()
    }
}

fn state_with(remaining: i32, is_blinking: bool, is_blink_visible: bool) -> TimerState {
    TimerState { is_blinking, is_blink_visible, ..TimerState::new(remaining) }
}

#[test]
fn test_fake_provider() {
    let calls = Rc::new(RefCell::new(Vec::new()));
    let calls_ref = calls.clone();
    let provider = FakeProvider::new(
        calls,
        Box::new(move |_| {
            calls_ref.borrow_mut().push(999);
        }),
    );
    let handle = provider.set_interval(123, TimerRole::Countdown);
    assert_eq!(&*provider.calls.borrow(), &[123, 999]);
    // test cancellation
    let mut h = handle;
    h.cancel();
    assert_eq!(&*provider.cancelled.borrow(), &[TimerRole::Countdown]);
}

#[test]
fn test_start_countdown_no_blink() {
    let mut fake = Fake::new(state_with(5, false, true));

    let effects = start_countdown_timer(&mut fake.state);
    fake.run(effects);

    // The first tick is delivered at once: remaining is decremented.
    assert_eq!(fake.state.remaining, 4);
    // Only the countdown schedule was started.
    assert_eq!(&fake.calls(), &[COUNTDOWN_INTERVAL_MS]);
    // No blink schedule.
    assert!(fake.handles.blink.is_none());
}

#[test]
fn test_start_countdown_with_blink() {
    let mut fake = Fake::new(state_with(0, false, true));

    let effects = start_countdown_timer(&mut fake.state);
    fake.run(effects);

    // The countdown tick and then the blink tick have been delivered.
    assert_eq!(fake.state.remaining, -1);
    assert!(fake.state.is_blinking);
    // Two schedules: countdown, then blink.
    assert_eq!(&fake.calls(), &[COUNTDOWN_INTERVAL_MS, BLINK_INTERVAL_MS]);
    assert!(fake.handles.blink.is_some());
}

#[test]
fn test_trigger_blink_timer_only_once() {
    let mut fake = Fake::new(state_with(INITIAL_SECONDS, false, false));

    // The first call starts the blink schedule.
    let effects = trigger_blink_timer(&mut fake.state);
    fake.run(effects);
    // The alert is on; the first blink tick has hidden the display again.
    assert!(fake.state.is_blinking);
    assert!(!fake.state.is_blink_visible);
    assert_eq!(&fake.calls(), &[BLINK_INTERVAL_MS]);
    assert!(fake.handles.blink.is_some());

    // The second call does nothing: no new schedule, and the handle stays.
    let effects = trigger_blink_timer(&mut fake.state);
    assert!(effects.is_empty());
    fake.run(effects);
    assert_eq!(&fake.calls(), &[BLINK_INTERVAL_MS]);
    assert!(fake.handles.blink.is_some());
}

#[test]
fn test_handle_click_and_reset_not_blinking() {
    let mut fake = Fake::new(state_with(999, false, false));

    let effects = handle_click_and_reset(&mut fake.state);
    fake.run(effects);

    // The countdown schedule is started exactly once.
    assert_eq!(&fake.calls(), &[COUNTDOWN_INTERVAL_MS]);
    // The first tick is delivered at once, from the start value.
    assert_eq!(fake.state.remaining, INITIAL_SECONDS - 1);
    // Blink state reset.
    assert!(!fake.state.is_blinking);
    assert!(fake.state.is_blink_visible);
    // No blink handle present.
    assert!(fake.handles.blink.is_none());
}

#[test]
fn test_handle_click_and_reset_blinking() {
    let mut fake = Fake::new(state_with(1, false, true));
    // The alert has started.
    let effects = trigger_blink_timer(&mut fake.state);
    fake.run(effects);
    // Forget the calls so far.
    fake.calls.borrow_mut().clear();

    // Now a click cancels the blink and restarts the countdown.
    let effects = handle_click_and_reset(&mut fake.state);
    assert_eq!(
        effects,
        vec![
            TimerEffect::Cancel(TimerRole::Blink),
            TimerEffect::Schedule(TimerRole::Countdown, COUNTDOWN_INTERVAL_MS),
        ]
    );
    fake.run(effects);

    // The blink schedule is cancelled and its handle gone.
    assert!(fake.handles.blink.is_none());
    assert_eq!(fake.cancelled(), vec![TimerRole::Blink]);
    // Blink flags cleared.
    assert!(!fake.state.is_blinking);
    assert!(fake.state.is_blink_visible);
    // A new countdown is scheduled.
    assert_eq!(&fake.calls(), &[COUNTDOWN_INTERVAL_MS]);
    assert_eq!(fake.state.remaining, INITIAL_SECONDS - 1);
}

#[test]
fn handles_cancel_before_they_replace() {
    let provider = FakeProvider::new(Rc::new(RefCell::new(Vec::new())), Box::new(|_| {}));
    let mut handles: TimerHandles<FakeHandle> = TimerHandles::new();
    assert!(handles.countdown.is_none() && handles.blink.is_none());
    handles.schedule(&provider, TimerRole::Countdown, 10);
    handles.schedule(&provider, TimerRole::Blink, 20);
    assert!(provider.cancelled.borrow().is_empty());
    // A second schedule for a role first cancels the one that is live.
    handles.schedule(&provider, TimerRole::Countdown, 30);
    assert_eq!(&*provider.cancelled.borrow(), &[TimerRole::Countdown]);
    assert_eq!(&*provider.calls.borrow(), &[10, 20, 30]);
    assert!(handles.countdown.is_some() && handles.blink.is_some());
    handles.cancel(TimerRole::Blink);
    assert!(handles.countdown.is_some() && handles.blink.is_none());
    // Cancelling an idle role does nothing.
    handles.cancel(TimerRole::Blink);
    assert_eq!(&*provider.cancelled.borrow(), &[TimerRole::Countdown, TimerRole::Blink]);
}

#[test]
fn handles_apply_effects_in_order() {
    let provider = FakeProvider::new(Rc::new(RefCell::new(Vec::new())), Box::new(|_| {}));
    let mut handles: TimerHandles<FakeHandle> = TimerHandles::new();
    let saved = handles.apply(
        &provider,
        &vec![
            TimerEffect::Save(7),
            TimerEffect::Schedule(TimerRole::Blink, 500),
            TimerEffect::Schedule(TimerRole::Countdown, 1000),
            TimerEffect::Cancel(TimerRole::Blink),
            TimerEffect::Save(9),
        ],
    );
    assert_eq!(saved, vec![7, 9]);
    assert_eq!(&*provider.calls.borrow(), &[500, 1000]);
    assert_eq!(&*provider.cancelled.borrow(), &[TimerRole::Blink]);
    assert!(handles.countdown.is_some());
    assert!(handles.blink.is_none());
    assert_eq!(handles.apply(&provider, &vec![]), vec![]);
    assert!(handles.countdown.is_some());
}

#[test]
fn new_state_is_idle_and_quiet() {
    let state = TimerState::new(1500);
    assert_eq!(
        state,
        TimerState {
            remaining: 1500,
            is_blinking: false,
            is_blink_visible: true,
            is_paused: false,
            reset_time: None,
            input_mode: false,
            countdown_scheduled: false,
            blink_scheduled: false,
        }
    );
}

#[test]
fn start_countdown_cancels_before_it_replaces() {
    let mut state = TimerState::new(10);
    assert_eq!(
        start_countdown_timer(&mut state),
        vec![TimerEffect::Schedule(TimerRole::Countdown, 1000)]
    );
    assert!(state.countdown_scheduled);
    assert_eq!(
        start_countdown_timer(&mut state),
        vec![
            TimerEffect::Cancel(TimerRole::Countdown),
            TimerEffect::Schedule(TimerRole::Countdown, 1000),
        ]
    );
    assert!(state.countdown_scheduled);
    assert_eq!(state.remaining, 10);
}

#[test]
fn start_countdown_ends_a_pause() {
    let mut state = TimerState::new(10);
    start_countdown_timer(&mut state);
    pause(&mut state);
    assert!(state.is_paused);
    start_countdown_timer(&mut state);
    assert!(!state.is_paused);
    assert!(state.countdown_scheduled);
}

#[test]
fn countdown_tick_at_zero_enters_overtime_once() {
    let mut state = TimerState::new(0);
    start_countdown_timer(&mut state);
    assert_eq!(
        countdown_tick(&mut state),
        vec![TimerEffect::Schedule(TimerRole::Blink, 500)]
    );
    assert_eq!(state.remaining, -1);
    assert!(state.is_blinking && state.is_blink_visible && state.blink_scheduled);
    // Further ticks in overtime start no second blink schedule.
    assert_eq!(countdown_tick(&mut state), vec![]);
    assert_eq!(state.remaining, -2);
    assert!(state.is_blinking);
}

#[test]
fn countdown_tick_stops_at_the_floor() {
    let mut state = TimerState::new(-3598);
    start_countdown_timer(&mut state);
    trigger_blink_timer(&mut state);
    assert_eq!(countdown_tick(&mut state), vec![]);
    assert_eq!(state.remaining, -3599);
    assert!(state.countdown_scheduled);
    assert_eq!(countdown_tick(&mut state), vec![TimerEffect::Cancel(TimerRole::Countdown)]);
    assert_eq!(state.remaining, -3599);
    assert!(!state.countdown_scheduled);
    assert!(state.blink_scheduled);
    // At the floor and idle, a stray tick changes nothing.
    let before = state;
    assert_eq!(countdown_tick(&mut state), vec![]);
    assert_eq!(state, before);
}

#[test]
fn countdown_tick_at_the_floor_does_not_start_the_alert() {
    let mut state = TimerState::new(-3599);
    start_countdown_timer(&mut state);
    assert_eq!(countdown_tick(&mut state), vec![TimerEffect::Cancel(TimerRole::Countdown)]);
    assert!(!state.is_blinking);
    assert!(!state.blink_scheduled);
}

#[test]
fn blink_tick_flips_visibility() {
    let mut state = TimerState::new(-1);
    trigger_blink_timer(&mut state);
    assert!(state.is_blink_visible);
    blink_tick(&mut state);
    assert!(!state.is_blink_visible);
    blink_tick(&mut state);
    assert!(state.is_blink_visible);
    assert_eq!(state.remaining, -1);
    assert!(state.is_blinking);
}

#[test]
fn pause_cancels_countdown_and_leaves_blink() {
    let mut state = TimerState::new(-5);
    start_countdown_timer(&mut state);
    trigger_blink_timer(&mut state);
    assert_eq!(pause(&mut state), vec![TimerEffect::Cancel(TimerRole::Countdown)]);
    assert!(state.is_paused);
    assert!(!state.countdown_scheduled);
    assert!(state.blink_scheduled && state.is_blinking);
    // Pausing again has nothing to cancel.
    assert_eq!(pause(&mut state), vec![]);
    assert!(state.is_paused);
}

#[test]
fn resume_restarts_unless_blinking() {
    let mut state = TimerState::new(20);
    start_countdown_timer(&mut state);
    pause(&mut state);
    assert_eq!(resume(&mut state), vec![TimerEffect::Schedule(TimerRole::Countdown, 1000)]);
    assert!(!state.is_paused && state.countdown_scheduled);
    assert_eq!(state.remaining, 20);

    let mut overtime = TimerState::new(-5);
    start_countdown_timer(&mut overtime);
    trigger_blink_timer(&mut overtime);
    pause(&mut overtime);
    assert_eq!(resume(&mut overtime), vec![]);
    assert!(!overtime.is_paused);
    assert!(!overtime.countdown_scheduled);
    assert!(overtime.blink_scheduled);
}

#[test]
fn pause_key_toggles() {
    let mut state = TimerState::new(20);
    start_countdown_timer(&mut state);
    assert_eq!(handle_pause_key(&mut state, "p"), vec![TimerEffect::Cancel(TimerRole::Countdown)]);
    assert!(state.is_paused);
    assert_eq!(
        handle_pause_key(&mut state, "p"),
        vec![TimerEffect::Schedule(TimerRole::Countdown, 1000)]
    );
    assert!(!state.is_paused);
    let before = state;
    for key in ["P", "q", "", "pp", "Enter", " p"] {
        assert_eq!(handle_pause_key(&mut state, key), vec![]);
        assert_eq!(state, before);
    }
}

#[test]
fn pause_key_does_not_pause_while_blinking() {
    let mut state = TimerState::new(-5);
    start_countdown_timer(&mut state);
    trigger_blink_timer(&mut state);
    let before = state;
    assert_eq!(handle_pause_key(&mut state, "p"), vec![]);
    assert_eq!(state, before);
}

#[test]
fn click_goes_back_to_custom_target() {
    let mut state = TimerState::new(3);
    commit_input(&mut state, "02:00").unwrap();
    countdown_tick(&mut state);
    assert_eq!(state.remaining, 119);
    assert_eq!(
        handle_click_and_reset(&mut state),
        vec![
            TimerEffect::Cancel(TimerRole::Countdown),
            TimerEffect::Schedule(TimerRole::Countdown, 1000),
        ]
    );
    assert_eq!(state.remaining, 120);
    assert_eq!(state.reset_time, Some(120));
}

#[test]
fn display_click_is_ignored_while_paused() {
    let mut state = TimerState::new(100);
    start_countdown_timer(&mut state);
    pause(&mut state);
    let before = state;
    assert_eq!(handle_display_click(&mut state), vec![]);
    assert_eq!(state, before);
    resume(&mut state);
    assert_eq!(
        handle_display_click(&mut state),
        vec![
            TimerEffect::Cancel(TimerRole::Countdown),
            TimerEffect::Schedule(TimerRole::Countdown, 1000),
        ]
    );
    assert_eq!(state.remaining, 1500);
}

#[test]
fn reset_scenario_with_one_second_left_and_alert_on() {
    let mut fake = Fake::new(TimerState::new(1));
    let effects = start_countdown_timer(&mut fake.state);
    fake.run(effects);
    assert_eq!(fake.state.remaining, 0);
    let effects = countdown_tick(&mut fake.state);
    fake.run(effects);
    assert_eq!(fake.state.remaining, -1);
    assert!(fake.state.is_blinking && fake.handles.blink.is_some());
    fake.calls.borrow_mut().clear();

    let effects = handle_display_click(&mut fake.state);
    assert_eq!(
        effects,
        vec![
            TimerEffect::Cancel(TimerRole::Blink),
            TimerEffect::Cancel(TimerRole::Countdown),
            TimerEffect::Schedule(TimerRole::Countdown, 1000),
        ]
    );
    fake.run(effects);
    assert!(fake.handles.blink.is_none());
    assert_eq!(fake.cancelled(), vec![TimerRole::Blink, TimerRole::Countdown]);
    assert!(!fake.state.is_blinking && fake.state.is_blink_visible);
    assert_eq!(&fake.calls(), &[COUNTDOWN_INTERVAL_MS]);
    assert_eq!(fake.state.remaining, INITIAL_SECONDS - 1);
}

#[test]
fn commit_takes_valid_text() {
    let mut state = TimerState::new(-7);
    start_countdown_timer(&mut state);
    trigger_blink_timer(&mut state);
    state.input_mode = true;
    let effects = commit_input(&mut state, " 12:34 ").unwrap();
    assert_eq!(
        effects,
        vec![
            TimerEffect::Save(754),
            TimerEffect::Cancel(TimerRole::Countdown),
            TimerEffect::Cancel(TimerRole::Blink),
            TimerEffect::Schedule(TimerRole::Countdown, 1000),
        ]
    );
    assert_eq!(
        state,
        TimerState {
            remaining: 754,
            is_blinking: false,
            is_blink_visible: true,
            is_paused: false,
            reset_time: Some(754),
            input_mode: false,
            countdown_scheduled: true,
            blink_scheduled: false,
        }
    );
}

#[test]
fn commit_from_an_idle_paused_timer() {
    let mut state = TimerState::new(40);
    start_countdown_timer(&mut state);
    pause(&mut state);
    let effects = commit_input(&mut state, "00:05").unwrap();
    assert_eq!(
        effects,
        vec![TimerEffect::Save(5), TimerEffect::Schedule(TimerRole::Countdown, 1000)]
    );
    assert!(!state.is_paused);
    assert_eq!(state.remaining, 5);
}

#[test]
fn commit_rejects_invalid_text_and_changes_nothing() {
    let mut state = TimerState::new(40);
    start_countdown_timer(&mut state);
    state.input_mode = true;
    let before = state;
    assert_eq!(commit_input(&mut state, "1234"), Err(ParseError::BadFormat));
    assert_eq!(commit_input(&mut state, "ab:12"), Err(ParseError::BadMinutes));
    assert_eq!(commit_input(&mut state, "12:xy"), Err(ParseError::BadSeconds));
    assert_eq!(commit_input(&mut state, "60:00"), Err(ParseError::MinutesRange));
    assert_eq!(commit_input(&mut state, "10:60"), Err(ParseError::SecondsRange));
    assert_eq!(state, before);
}

#[test]
fn input_keys_commit_reject_cancel_and_ignore() {
    let mut state = TimerState::new(40);
    start_countdown_timer(&mut state);
    let idle = state;
    // Outside input mode every key is ignored.
    assert_eq!(handle_input_key(&mut state, "Enter", "12:34"), InputKey::Ignored);
    assert_eq!(handle_input_key(&mut state, "Escape", "12:34"), InputKey::Ignored);
    assert_eq!(state, idle);

    state.input_mode = true;
    let typing = state;
    assert_eq!(handle_input_key(&mut state, "a", "12:34"), InputKey::Ignored);
    assert_eq!(handle_input_key(&mut state, "enter", "12:34"), InputKey::Ignored);
    assert_eq!(
        handle_input_key(&mut state, "Enter", "12:60"),
        InputKey::Rejected(ParseError::SecondsRange)
    );
    assert_eq!(state, typing);

    assert_eq!(handle_input_key(&mut state, "Escape", "12:34"), InputKey::Cancelled);
    assert_eq!(state, idle);

    state.input_mode = true;
    assert_eq!(
        handle_input_key(&mut state, "Enter", "12:34"),
        InputKey::Committed(vec![
            TimerEffect::Save(754),
            TimerEffect::Cancel(TimerRole::Countdown),
            TimerEffect::Schedule(TimerRole::Countdown, 1000),
        ])
    );
    assert!(!state.input_mode);
    assert_eq!(state.remaining, 754);
    assert_eq!(state.reset_time, Some(754));
}

#[test]
fn cancel_input_only_leaves_input_mode() {
    let mut state = TimerState::new(40);
    start_countdown_timer(&mut state);
    let before = state;
    state.input_mode = true;
    cancel_input(&mut state);
    assert_eq!(state, before);
    cancel_input(&mut state);
    assert_eq!(state, before);
}

#[test]
fn toggle_key_opens_with_the_remaining_time_and_closes() {
    let mut state = TimerState::new(754);
    assert_eq!(
        handle_toggle_input_mode(&mut state, "f"),
        InputToggle::Opened("12:34".to_string())
    );
    assert!(state.input_mode);
    assert_eq!(handle_toggle_input_mode(&mut state, "f"), InputToggle::Closed);
    assert!(!state.input_mode);
    for key in ["F", "g", "", "ff", "Enter"] {
        assert_eq!(handle_toggle_input_mode(&mut state, key), InputToggle::Ignored);
        assert!(!state.input_mode);
    }
    state.remaining = -61;
    assert_eq!(
        handle_toggle_input_mode(&mut state, "f"),
        InputToggle::Opened("-01:01".to_string())
    );
    assert_eq!(state.remaining, -61);
}

#[test]
fn teardown_cancels_what_is_scheduled() {
    assert_eq!(teardown(TimerState::new(5)), vec![]);
    let mut state = TimerState::new(0);
    start_countdown_timer(&mut state);
    assert_eq!(teardown(state), vec![TimerEffect::Cancel(TimerRole::Countdown)]);
    countdown_tick(&mut state);
    assert_eq!(
        teardown(state),
        vec![TimerEffect::Cancel(TimerRole::Countdown), TimerEffect::Cancel(TimerRole::Blink)]
    );
    pause(&mut state);
    assert_eq!(teardown(state), vec![TimerEffect::Cancel(TimerRole::Blink)]);
}

#[test]
fn a_whole_session_keeps_one_handle_per_role() {
    let mut fake = Fake::new(TimerState::new(2));
    let effects = start_countdown_timer(&mut fake.state);
    fake.run(effects);
    for _ in 0..10 {
        let effects = countdown_tick(&mut fake.state);
        fake.run(effects);
    }
    assert_eq!(fake.state.remaining, -9);
    assert_eq!(fake.calls(), vec![1000, 500]);
    let effects = handle_pause_key(&mut fake.state, "p");
    fake.run(effects);
    assert!(!fake.state.is_paused);
    let effects = handle_display_click(&mut fake.state);
    fake.run(effects);
    assert_eq!(fake.state.remaining, 1499);
    let effects = handle_pause_key(&mut fake.state, "p");
    fake.run(effects);
    assert!(fake.state.is_paused && fake.handles.countdown.is_none());
    let effects = handle_display_click(&mut fake.state);
    fake.run(effects);
    assert_eq!(fake.state.remaining, 1499);
    assert_eq!(
        handle_toggle_input_mode(&mut fake.state, "f"),
        InputToggle::Opened("24:59".to_string())
    );
    match handle_input_key(&mut fake.state, "Enter", "00:00") {
        InputKey::Committed(effects) => fake.run(effects),
        other => panic!("unexpected outcome {:?}", other),
    }
    assert_eq!(fake.saved, vec![0]);
    assert_eq!(fake.state.remaining, -1);
    assert!(fake.state.is_blinking);
    assert!(fake.handles.blink.is_some() && fake.handles.countdown.is_some());
    let effects = teardown(fake.state);
    assert_eq!(effects.len(), 2);
    fake.handles.apply(&fake.provider, &effects);
    assert!(fake.handles.blink.is_none() && fake.handles.countdown.is_none());
}
