//! What a hit changes in a fighter: its health and the stun that locks it.
use crate::timer::duration_nanos;
use crate::timer::frame_nanos;
use crate::timer::frame_timer;
use crate::timer::tick_once;
use crate::timer::timer_runs;
use crate::timer::timer_view;
use crate::timer::TimerView;
use bevy::time::Timer;
use std::time::Duration;
use vstd::prelude::*;

verus! {

/// The health points a fighter has left.
#[derive(Clone, Copy, Debug)]
pub struct Health(u32);

impl View for Health {
    type V = u32;

    closed spec fn view(&self) -> u32 {
        self.0
    }
}

impl Health {
    /// Health of `value` points.
    pub fn new(value: u32) -> (h: Self)
        ensures
            h@ == value,
    {
        Self(value)
    }

    /// Adds `value` points; where that would pass `max_health`, the health
    /// becomes `max_health`.
    pub fn heal(&mut self, value: u32, max_health: u32)
        ensures
            final(self)@ == if old(self)@ + value > max_health {
                max_health as int
            } else {
                old(self)@ + value
            },
    {
        if self.0 as u64 + value as u64 > max_health as u64 {
            self.0 = max_health;
        } else {
            self.0 = self.0 + value;
        }
    }

    /// Takes `value` points away; the health stops at zero.
    pub fn damage(&mut self, value: u32)
        ensures
            final(self)@ == if old(self)@ >= value {
                old(self)@ - value
            } else {
                0
            },
            final(self)@ <= old(self)@,
    {
        if self.0 < value {
            self.0 = 0;
        } else {
            self.0 = self.0 - value;
        }
    }

    /// The points that are left.
    pub fn value(&self) -> (v: u32)
        ensures
            v == self@,
    {
        self.0
    }
}

/// The lock a hit puts on its victim: a timer that has to run out before the
/// victim can act again.
#[derive(Debug)]
pub struct HitStun(Timer);

impl View for HitStun {
    type V = TimerView;

    closed spec fn view(&self) -> TimerView {
        timer_view(self.0)
    }
}

impl Clone for HitStun {
    fn clone(&self) -> (c: Self)
        ensures
            c@ == self@,
            self.wf() ==> c.wf(),
    {
        Self(self.0.clone())
    }
}

impl HitStun {
    /// The stun's timer is a running one-shot timer. Every stun made and
    /// changed through this type's functions has such a timer.
    pub closed spec fn wf(&self) -> bool {
        timer_runs(self.0)
    }

    /// A stun that lasts `fps / max_fps` seconds.
    pub fn new(fps: u8, max_fps: u8) -> (s: Self)
        requires
            max_fps > 0,
        ensures
            s@ == TimerView::fresh(frame_nanos(fps, max_fps)),
            s.wf(),
    {
        Self(frame_timer(fps, max_fps))
    }

    /// Counts `duration` on the stun's timer.
    pub fn tick(&mut self, duration: Duration)
        requires
            old(self).wf(),
        ensures
            final(self)@ == old(self)@.tick(duration_nanos(duration)),
            final(self).wf(),
    {
        tick_once(&mut self.0, duration);
    }

    /// Whether the stun's time is up.
    pub fn is_finished(&self) -> (b: bool)
        ensures
            b == self@.finished,
    {
        self.0.finished()
    }
}

} // verus!
