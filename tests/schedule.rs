use countdown::duration::resolve;
use countdown::schedule::{
    current_minus_previous_time, is_deadline_passed, sleep_until, update_duration_to_sleep,
    Action, SleepState, BASELINE_SLEEP, GRACE_PERIOD, MAX_SLEEP, MIN_SLEEP,
};

const SEC: u64 = 1_000_000_000;
const MS: u64 = 1_000_000;

/// Runs a wait against a clock on which each reading takes `tick` and each
/// sleep lasts as long as asked; returns the clock at the end and the rounds.
fn run_simulated(start: u64, deadline: u64, tick: u64, max_rounds: u64) -> (u64, u64) {
    let mut clock = start;
    let mut state = SleepState::new(start);
    let mut rounds = 0;
    loop {
        rounds += 1;
        assert!(rounds <= max_rounds, "wait did not end");
        let now = clock + tick;
        match sleep_until(deadline, &mut state, now) {
            Action::Sleep(d) => clock = now + d,
            Action::Done => return (clock, rounds),
        }
    }
}

#[test]
fn deadline_passed_at_and_after() {
    assert!(is_deadline_passed(10, 10));
    assert!(is_deadline_passed(11, 10));
    assert!(!is_deadline_passed(9, 10));
}

#[test]
fn elapsed_is_clamped_at_zero() {
    assert_eq!(current_minus_previous_time(10, 4), 6);
    assert_eq!(current_minus_previous_time(4, 10), 0);
}

#[test]
fn sleep_doubles() {
    let mut d = BASELINE_SLEEP;
    update_duration_to_sleep(0, BASELINE_SLEEP, 100 * SEC, &mut d);
    assert_eq!(d, SEC);
}

#[test]
fn sleep_is_capped() {
    let mut d = 40 * SEC;
    update_duration_to_sleep(0, 40 * SEC, 1000 * SEC, &mut d);
    assert_eq!(d, MAX_SLEEP);
}

#[test]
fn suspend_resets_to_baseline() {
    let mut d = 30 * SEC;
    update_duration_to_sleep(0, 300 * SEC, 1000 * SEC, &mut d);
    assert_eq!(d, 2 * BASELINE_SLEEP);
}

#[test]
fn no_reset_within_grace_period() {
    let mut d = 2 * SEC;
    update_duration_to_sleep(0, 2 * SEC + GRACE_PERIOD, 1000 * SEC, &mut d);
    assert_eq!(d, 4 * SEC);
}

#[test]
fn near_deadline_halves_the_remaining_time() {
    let mut d = SEC;
    update_duration_to_sleep(0, SEC, SEC, &mut d);
    assert_eq!(d, SEC / 2);
}

#[test]
fn small_overshoot_sleeps_nothing() {
    let mut d = BASELINE_SLEEP;
    update_duration_to_sleep(0, BASELINE_SLEEP, SEC - MIN_SLEEP / 2, &mut d);
    assert_eq!(d, 0);
}

#[test]
fn step_sequence() {
    let deadline = 10 * SEC;
    let mut st = SleepState::new(0);
    assert_eq!(st.duration_to_sleep, BASELINE_SLEEP);
    assert_eq!(sleep_until(deadline, &mut st, 0), Action::Sleep(SEC));
    assert_eq!(sleep_until(deadline, &mut st, SEC), Action::Sleep(2 * SEC));
    assert_eq!(sleep_until(deadline, &mut st, 3 * SEC), Action::Sleep(4 * SEC));
    assert_eq!(sleep_until(deadline, &mut st, 7 * SEC), Action::Sleep(1_500_000_000));
    assert_eq!(sleep_until(deadline, &mut st, deadline), Action::Sleep(0));
    assert_eq!(st.current_time, deadline);
    assert_eq!(sleep_until(deadline, &mut st, deadline + 1), Action::Done);
    assert_eq!(st.current_time, deadline);
}

#[test]
fn past_deadline_is_done_at_once() {
    let mut st = SleepState::new(20);
    assert_eq!(sleep_until(10, &mut st, 25), Action::Done);
    assert_eq!(st, SleepState::new(20));
}

#[test]
fn suspend_between_readings_restarts_backoff() {
    let deadline = 1000 * SEC;
    let mut st = SleepState { current_time: 100 * SEC, duration_to_sleep: 32 * SEC };
    let jump = 100 * SEC + 32 * SEC + GRACE_PERIOD + 1;
    assert_eq!(sleep_until(deadline, &mut st, jump), Action::Sleep(2 * BASELINE_SLEEP));
    assert_eq!(st.duration_to_sleep, 2 * BASELINE_SLEEP);
}

#[test]
fn sleep_never_reaches_past_deadline() {
    let deadline = 10 * SEC;
    for now in [0, SEC, 9 * SEC, 9_900 * MS, 9_999 * MS, deadline] {
        for last in [0, MIN_SLEEP, BASELINE_SLEEP, 20 * SEC, MAX_SLEEP] {
            let mut st = SleepState { current_time: now.saturating_sub(last), duration_to_sleep: last };
            match sleep_until(deadline, &mut st, now) {
                Action::Sleep(d) => assert!(now + d <= deadline || d == 0),
                Action::Done => assert!(st.current_time >= deadline),
            }
        }
    }
}

#[test]
fn simulated_wait_ends_just_after_deadline() {
    let start = 1_700_000_000 * SEC;
    let wait = resolve(&vec!["1m".to_string(), "30s".to_string()]);
    let deadline = start + wait;
    for tick in [1_000, MS, 7 * MS, GRACE_PERIOD] {
        let (end, rounds) = run_simulated(start, deadline, tick, wait / tick + 2);
        assert!(end >= deadline);
        assert!(end <= deadline + tick);
        assert!(end < deadline + MAX_SLEEP + GRACE_PERIOD);
        assert!(rounds <= wait / tick + 2);
    }
}

#[test]
fn simulated_zero_wait_ends_at_once() {
    let (end, rounds) = run_simulated(5 * SEC, 5 * SEC, MS, 2);
    assert_eq!(end, 5 * SEC);
    assert_eq!(rounds, 1);
}
