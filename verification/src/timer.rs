//! Frame timing on top of `bevy`'s one-shot `Timer`.
//!
//! Verus cannot look inside a `Timer`, so what the library needs to know of
//! one is named here and tied to the timer's own methods by contracts that
//! are taken on trust from the `bevy_time` source.
use bevy::time::Timer;
use bevy::time::TimerMode;
use std::time::Duration;
use vstd::prelude::*;

verus! {

/// `bevy::time::Timer`, taken as it is: nothing inside it is visible here.
#[verifier::external_type_specification]
#[verifier::external_body]
pub struct ExTimer(bevy::time::Timer);

/// Largest number of nanoseconds a `Duration` can hold.
pub open spec fn duration_max_nanos() -> nat {
    18446744073709551615999999999nat
}

/// The length of a `Duration` in nanoseconds, as `Duration::as_nanos` reports it.
pub uninterp spec fn duration_nanos(d: Duration) -> nat;

/// The length in nanoseconds a timer was made with (`Timer::duration`).
pub uninterp spec fn timer_duration(t: Timer) -> nat;

/// The nanoseconds a timer has counted so far (`Timer::elapsed`).
pub uninterp spec fn timer_elapsed(t: Timer) -> nat;

/// Whether a timer has reached its length (`Timer::finished`).
pub uninterp spec fn timer_finished(t: Timer) -> bool;

/// Whether a timer reached its length during its latest tick (`Timer::just_finished`).
pub uninterp spec fn timer_just_finished(t: Timer) -> bool;

/// Whether a timer starts over when it reaches its length (`Timer::mode` is `Repeating`).
pub uninterp spec fn timer_repeats(t: Timer) -> bool;

/// Whether a timer is paused (`Timer::paused`).
pub uninterp spec fn timer_paused(t: Timer) -> bool;

/// `Duration::from_nanos`: the duration that lasts exactly `nanos` nanoseconds.
pub assume_specification[ Duration::from_nanos ](nanos: u64) -> (d: Duration)
    ensures
        duration_nanos(d) == nanos,
;

/// `Duration::as_nanos`: the whole length in nanoseconds.
pub assume_specification[ Duration::as_nanos ](d: &Duration) -> (nanos: u128)
    ensures
        nanos == duration_nanos(*d),
;

/// `Timer::finished`: reads the timer's finished flag.
pub assume_specification[ Timer::finished ](t: &Timer) -> (b: bool)
    ensures
        b == timer_finished(*t),
;

/// `Timer::just_finished`: true when the latest tick was the one that
/// finished the timer.
pub assume_specification[ Timer::just_finished ](t: &Timer) -> (b: bool)
    ensures
        b == timer_just_finished(*t),
;

/// `Timer::clone`: the copy holds what the timer holds.
pub assume_specification[ <Timer as Clone>::clone ](t: &Timer) -> (c: Timer)
    ensures
        timer_duration(c) == timer_duration(*t),
        timer_elapsed(c) == timer_elapsed(*t),
        timer_finished(c) == timer_finished(*t),
        timer_just_finished(c) == timer_just_finished(*t),
        timer_repeats(c) == timer_repeats(*t),
        timer_paused(c) == timer_paused(*t),
;

/// `Timer::new` with `TimerMode::Once`: a running one-shot timer of the given
/// length that has counted nothing yet.
#[verifier::external_body]
pub(crate) fn timer_once(duration: Duration) -> (t: Timer)
    ensures
        timer_duration(t) == duration_nanos(duration),
        timer_elapsed(t) == 0,
        !timer_finished(t),
        !timer_just_finished(t),
        !timer_repeats(t),
        !timer_paused(t),
{
    Timer::new(duration, TimerMode::Once)
}

/// `Timer::tick` on a running one-shot timer. A finished timer only drops its
/// just-finished mark. Otherwise `delta` is added to the elapsed time; when
/// the sum reaches the timer's length the timer finishes, marks the tick and
/// holds its elapsed time at the length. The sum must fit in a `Duration`.
#[verifier::external_body]
pub(crate) fn timer_tick(t: &mut Timer, delta: Duration)
    requires
        !timer_repeats(*old(t)),
        !timer_paused(*old(t)),
        timer_finished(*old(t)) || timer_elapsed(*old(t)) + duration_nanos(delta)
            <= duration_max_nanos(),
    ensures
        timer_duration(*final(t)) == timer_duration(*old(t)),
        !timer_repeats(*final(t)),
        !timer_paused(*final(t)),
        timer_finished(*old(t)) ==> timer_finished(*final(t)) && !timer_just_finished(*final(t))
            && timer_elapsed(*final(t)) == timer_elapsed(*old(t)),
        !timer_finished(*old(t)) && timer_elapsed(*old(t)) + duration_nanos(delta)
            >= timer_duration(*old(t)) ==> timer_finished(*final(t)) && timer_just_finished(
            *final(t),
        ) && timer_elapsed(*final(t)) == timer_duration(*old(t)),
        !timer_finished(*old(t)) && timer_elapsed(*old(t)) + duration_nanos(delta)
            < timer_duration(*old(t)) ==> !timer_finished(*final(t)) && !timer_just_finished(
            *final(t),
        ) && timer_elapsed(*final(t)) == timer_elapsed(*old(t)) + duration_nanos(delta),
{
    t.tick(delta);
}

/// Nanoseconds in one second.
pub const NANOS_PER_SECOND: u64 = 1_000_000_000;

/// What a one-shot timer holds, as plain values, in nanoseconds.
pub struct TimerView {
    pub duration: nat,
    pub elapsed: nat,
    pub finished: bool,
    pub just_finished: bool,
}

impl TimerView {
    /// A timer of the given length that has counted nothing yet.
    pub open spec fn fresh(duration: nat) -> TimerView {
        TimerView { duration, elapsed: 0, finished: false, just_finished: false }
    }

    /// The timer after `delta` more nanoseconds. It finishes on the tick that
    /// brings the elapsed time up to its length, and reports that tick only.
    pub open spec fn tick(self, delta: nat) -> TimerView {
        if self.finished {
            TimerView { just_finished: false, ..self }
        } else if self.elapsed + delta >= self.duration {
            TimerView { elapsed: self.duration, finished: true, just_finished: true, ..self }
        } else {
            TimerView { elapsed: self.elapsed + delta, just_finished: false, ..self }
        }
    }
}

/// The plain values behind a timer.
pub open spec fn timer_view(t: Timer) -> TimerView {
    TimerView {
        duration: timer_duration(t),
        elapsed: timer_elapsed(t),
        finished: timer_finished(t),
        just_finished: timer_just_finished(t),
    }
}

/// A running one-shot timer whose elapsed time has not passed its length.
pub open spec fn timer_runs(t: Timer) -> bool {
    &&& !timer_repeats(t)
    &&& !timer_paused(t)
    &&& timer_elapsed(t) <= timer_duration(t)
    &&& timer_duration(t) <= u64::MAX
}

/// Nanoseconds that `fps / max_fps` seconds last, rounded down.
pub open spec fn frame_nanos(fps: u8, max_fps: u8) -> nat
    recommends
        max_fps > 0,
{
    (fps as nat * 1_000_000_000) / (max_fps as nat)
}

/// A one-shot timer of `fps / max_fps` seconds that has not started counting.
pub fn frame_timer(fps: u8, max_fps: u8) -> (t: Timer)
    requires
        max_fps > 0,
    ensures
        timer_view(t) == TimerView::fresh(frame_nanos(fps, max_fps)),
        timer_runs(t),
{
    let nanos: u64 = (fps as u64) * NANOS_PER_SECOND / (max_fps as u64);
    timer_once(Duration::from_nanos(nanos))
}

/// A one-shot timer of length zero: its first tick finishes it.
pub fn idle_timer() -> (t: Timer)
    ensures
        timer_view(t) == TimerView::fresh(0),
        timer_runs(t),
{
    timer_once(Duration::from_nanos(0))
}

/// Advances a running one-shot timer by `delta`, however long `delta` is.
pub fn tick_once(t: &mut Timer, delta: Duration)
    requires
        timer_runs(*old(t)),
    ensures
        timer_view(*final(t)) == timer_view(*old(t)).tick(duration_nanos(delta)),
        timer_runs(*final(t)),
{
    let nanos: u128 = delta.as_nanos();
    if nanos > u64::MAX as u128 {
        // The timer's length fits in 64 bits, so any longer step finishes it
        // just as the longest 64-bit step does.
        timer_tick(t, Duration::from_nanos(u64::MAX));
    } else {
        timer_tick(t, delta);
    }
}

} // verus!
