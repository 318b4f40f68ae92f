//! Deciding how long to sleep before looking at the clock again.
//!
//! Times are nanoseconds on one clock; durations are nanoseconds. The caller
//! owns the clock and the sleeping: it reads the clock, hands the reading to
//! [`sleep_until`], and sleeps for as long as the answer says, until the
//! answer is [`Action::Done`].
use crate::duration::{saturate, total_nanos};
use vstd::arithmetic::div_mod::lemma_fundamental_div_mod;
use vstd::prelude::*;

verus! {

/// The shortest overshoot worth halving the way to the deadline for.
pub const MIN_SLEEP: u64 = 100_000_000;

/// The sleep that a wait starts from, and falls back to after a suspend.
pub const BASELINE_SLEEP: u64 = 500_000_000;

/// The longest single sleep.
pub const MAX_SLEEP: u64 = 60_000_000_000;

/// How much longer than the last sleep the clock may move before the host is
/// taken to have been suspended.
pub const GRACE_PERIOD: u64 = 500_000_000;

/// `a - b`, or zero where `b` is later than `a`.
pub open spec fn clamped_diff(a: int, b: int) -> nat {
    if a >= b {
        (a - b) as nat
    } else {
        0
    }
}

/// Whether more time passed between two readings than the last sleep and the
/// grace period together.
pub open spec fn suspended(previous: int, current: int, duration_to_sleep: int) -> bool {
    clamped_diff(current, previous) > duration_to_sleep + GRACE_PERIOD
}

/// The sleep doubled, after falling back to the baseline on a suspend, and
/// capped at the longest sleep.
pub open spec fn backed_off(previous: int, current: int, duration_to_sleep: int) -> nat {
    let base = if suspended(previous, current, duration_to_sleep) {
        BASELINE_SLEEP as int
    } else {
        duration_to_sleep
    };
    if 2 * base > MAX_SLEEP {
        MAX_SLEEP as nat
    } else {
        (2 * base) as nat
    }
}

/// A sleep that would reach the deadline becomes half the remaining time, or
/// nothing once the overshoot is below the minimum.
pub open spec fn converged(duration_to_sleep: nat, remaining: nat) -> nat {
    if duration_to_sleep >= remaining {
        if duration_to_sleep - remaining >= MIN_SLEEP {
            remaining / 2
        } else {
            0
        }
    } else {
        duration_to_sleep
    }
}

/// The next sleep, from the last two readings, the time left and the last sleep.
pub open spec fn next_sleep(
    previous: int,
    current: int,
    remaining: nat,
    duration_to_sleep: int,
) -> nat {
    converged(backed_off(previous, current, duration_to_sleep), remaining)
}

/// Whether a reading of the clock is at or past the deadline.
pub fn is_deadline_passed(current_time: u64, deadline: u64) -> (r: bool)
    ensures
        r == (current_time >= deadline),
{
    current_time >= deadline
}

/// The time from `previous_time` to `current_time`, or zero where the clock
/// went backwards.
pub fn current_minus_previous_time(current_time: u64, previous_time: u64) -> (r: u64)
    ensures
        r == clamped_diff(current_time as int, previous_time as int),
{
    current_time.saturating_sub(previous_time)
}

/// Replaces the last sleep by the next one, given the readings before and
/// after it and the time left until the deadline. The next sleep never goes
/// past the deadline.
pub fn update_duration_to_sleep(
    previous_time: u64,
    current_time: u64,
    remaining: u64,
    duration_to_sleep: &mut u64,
)
    ensures
        *final(duration_to_sleep) == next_sleep(
            previous_time as int,
            current_time as int,
            remaining as nat,
            *old(duration_to_sleep) as int,
        ),
        *final(duration_to_sleep) <= remaining,
        *final(duration_to_sleep) <= MAX_SLEEP,
{
    let elapsed = current_minus_previous_time(current_time, previous_time);
    if elapsed > *duration_to_sleep && elapsed - *duration_to_sleep > GRACE_PERIOD {
        *duration_to_sleep = BASELINE_SLEEP;
    }
    if *duration_to_sleep > MAX_SLEEP / 2 {
        *duration_to_sleep = MAX_SLEEP;
    } else {
        *duration_to_sleep = *duration_to_sleep * 2;
    }
    if *duration_to_sleep >= remaining {
        if *duration_to_sleep - remaining >= MIN_SLEEP {
            *duration_to_sleep = remaining / 2;
        } else {
            *duration_to_sleep = 0;
        }
    }
}


/// What a wait remembers between two readings of the clock.
#[derive(Clone, Copy, Debug, PartialEq, Eq)]
pub struct SleepState {
    /// The last reading of the clock.
    pub current_time: u64,
    /// The last sleep that was asked for.
    pub duration_to_sleep: u64,
}

/// What the caller does next.
#[derive(Clone, Copy, Debug, PartialEq, Eq)]
pub enum Action {
    /// Sleep this many nanoseconds, then read the clock and ask again.
    Sleep(u64),
    /// The deadline has passed: the wait is over.
    Done,
}

/// A wait that starts with the clock reading `start`.
pub open spec fn initial_state(start: u64) -> SleepState {
    SleepState { current_time: start, duration_to_sleep: BASELINE_SLEEP }
}

/// One round of a wait for `deadline`: the wait is over when the last reading
/// is at or past the deadline; otherwise `now` becomes the last reading and
/// the next sleep is worked out from it.
pub open spec fn step(deadline: u64, state: SleepState, now: u64) -> (SleepState, Action) {
    if state.current_time >= deadline {
        (state, Action::Done)
    } else {
        let d = next_sleep(
            state.current_time as int,
            now as int,
            clamped_diff(deadline as int, now as int),
            state.duration_to_sleep as int,
        ) as u64;
        (SleepState { current_time: now, duration_to_sleep: d }, Action::Sleep(d))
    }
}

impl SleepState {
    /// A wait that starts with the clock reading `start`.
    pub fn new(start: u64) -> (r: SleepState)
        ensures
            r == initial_state(start),
    {
        SleepState { current_time: start, duration_to_sleep: BASELINE_SLEEP }
    }
}

/// One round of waiting until `deadline`, with `now` a fresh reading of the
/// clock: the state moves as [`step`] says, and a sleep never reaches past the
/// deadline nor exceeds the longest sleep.
pub fn sleep_until(deadline: u64, state: &mut SleepState, now: u64) -> (r: Action)
    ensures
        (*final(state), r) == step(deadline, *old(state), now),
        r matches Action::Sleep(d) ==> d <= clamped_diff(deadline as int, now as int) && d
            <= MAX_SLEEP,
{
    if is_deadline_passed(state.current_time, deadline) {
        return Action::Done;
    }
    let previous_time = state.current_time;
    state.current_time = now;
    let remaining = current_minus_previous_time(deadline, now);
    update_duration_to_sleep(previous_time, now, remaining, &mut state.duration_to_sleep);
    Action::Sleep(state.duration_to_sleep)
}


/// A wait run against a simulated clock that shows `clock` now, on which each
/// reading takes `tick` nanoseconds and each sleep lasts as long as asked:
/// the clock when the wait is over, if it is over within `rounds` rounds.
pub open spec fn simulate(
    deadline: u64,
    state: SleepState,
    clock: u64,
    tick: u64,
    rounds: nat,
) -> Option<u64>
    decreases rounds,
{
    if rounds == 0 {
        None
    } else {
        let now = (clock + tick) as u64;
        let (next, action) = step(deadline, state, now);
        match action {
            Action::Done => Some(clock),
            Action::Sleep(d) => simulate(deadline, next, (now + d) as u64, tick, (rounds - 1) as nat),
        }
    }
}

proof fn lemma_simulate(deadline: u64, state: SleepState, clock: u64, tick: u64, rounds: nat)
    requires
        1 <= tick,
        deadline + tick <= u64::MAX,
        state.current_time <= clock,
        state.current_time < deadline ==> clock <= deadline,
        state.current_time >= deadline ==> deadline <= clock <= deadline + tick,
        rounds >= 1,
        state.current_time < deadline ==> (rounds - 1) * tick >= deadline - state.current_time,
    ensures
        simulate(deadline, state, clock, tick, rounds) matches Some(end) && deadline <= end
            <= deadline + tick,
    decreases rounds,
{
    if state.current_time < deadline {
        let now = (clock + tick) as u64;
        let r1 = rounds - 1;
        if r1 == 0 {
            assert(r1 * tick == 0);
        }
        assert((r1 - 1) * tick == r1 * tick - tick) by (nonlinear_arith);
        let next = step(deadline, state, now).0;
        let after_sleep = (now + next.duration_to_sleep) as u64;
        lemma_simulate(deadline, next, after_sleep, tick, r1 as nat);
    }
}

/// Against a clock on which nothing is suspended, where each reading takes
/// from one nanosecond up to the grace period and each sleep lasts as long as
/// asked, a wait from `start` for the total of `tokens` is over within the
/// total divided by the reading time, plus two, rounds; it ends no earlier
/// than the deadline and less than one longest sleep and one grace period
/// after it.
pub proof fn lemma_wait_ends_near_deadline(tokens: Seq<Seq<char>>, start: u64, tick: u64)
    requires
        1 <= tick <= GRACE_PERIOD,
        start + saturate(total_nanos(tokens) as int) + tick <= u64::MAX,
    ensures
        ({
            let wait = saturate(total_nanos(tokens) as int);
            let deadline = (start + wait) as u64;
            simulate(deadline, initial_state(start), start, tick, (wait / tick + 2) as nat) matches Some(end)
                && deadline <= end <= deadline + tick && end < deadline + MAX_SLEEP + GRACE_PERIOD
        }),
{
    let wait = saturate(total_nanos(tokens) as int);
    let q = wait / tick;
    lemma_fundamental_div_mod(wait as int, tick as int);
    assert((q + 1) * tick >= wait) by (nonlinear_arith)
        requires
            wait == tick * q + wait % tick,
            wait % tick < tick,
    ;
    lemma_simulate((start + wait) as u64, initial_state(start), start, tick, (q + 2) as nat);
}


/// When the clock moved by more than the last sleep and the grace period
/// between two readings, the backoff starts over from the baseline: the next
/// sleep is the one that follows the baseline, whatever the sleep before.
pub proof fn lemma_suspend_resets_backoff(deadline: u64, state: SleepState, now: u64)
    requires
        state.current_time < deadline,
        now > state.current_time + state.duration_to_sleep + GRACE_PERIOD,
    ensures
        ({
            let d = converged(2 * BASELINE_SLEEP as nat, clamped_diff(deadline as int, now as int));
            &&& step(deadline, state, now).0.duration_to_sleep == d
            &&& step(deadline, state, now).1 == Action::Sleep(d as u64)
        }),
{
}

} // verus!
