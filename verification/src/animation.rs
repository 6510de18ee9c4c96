//! The running state of one clip: which frame is shown and how long it has
//! been shown for.
use crate::moves::Animation;
use crate::moves::AnimationView;
use crate::moves::Phase;
use crate::timer::duration_nanos;
use crate::timer::frame_nanos;
use crate::timer::frame_timer;
use crate::timer::idle_timer;
use crate::timer::tick_once;
use crate::timer::timer_runs;
use crate::timer::timer_view;
use crate::timer::TimerView;
use bevy::time::Timer;
use std::time::Duration;
use vstd::prelude::*;

verus! {

/// Plays one clip: the frame cursor, the clip, and the timer of the frame
/// that is showing.
#[derive(Debug)]
pub struct AnimationManager {
    index: usize,
    animation: Animation,
    timer: Timer,
}

/// What an [`AnimationManager`] holds, as plain values.
pub struct AnimationManagerView {
    pub index: nat,
    pub animation: AnimationView,
    pub timer: TimerView,
}

impl AnimationManagerView {
    /// The clip can be played and the cursor points into it.
    pub open spec fn wf(self) -> bool {
        &&& self.animation.playable()
        &&& self.index < self.animation.indexes.len()
    }

    /// The phase of the frame under the cursor.
    pub open spec fn phase(self, window: int) -> Phase {
        self.animation.phase(self.index as int, window)
    }

    /// The cursor is on the clip's last frame.
    pub open spec fn on_last_frame(self) -> bool {
        self.index + 1 == self.animation.indexes.len()
    }

    /// Back on the first frame, with a fresh timer of `nanos` nanoseconds.
    pub open spec fn restarted(self, nanos: nat) -> AnimationManagerView {
        AnimationManagerView { index: 0, timer: TimerView::fresh(nanos), ..self }
    }

    /// One frame further if there is one, with a fresh timer of `nanos`
    /// nanoseconds; unchanged on the last frame.
    pub open spec fn advanced(self, nanos: nat) -> AnimationManagerView {
        if self.index + 1 < self.animation.indexes.len() {
            AnimationManagerView { index: self.index + 1, timer: TimerView::fresh(nanos), ..self }
        } else {
            self
        }
    }

    /// The sprite under the cursor, if the cursor points into the clip.
    pub open spec fn sprite(self) -> Option<u8> {
        if self.index < self.animation.indexes.len() {
            Some(self.animation.indexes[self.index as int])
        } else {
            None
        }
    }
}

impl View for AnimationManager {
    type V = AnimationManagerView;

    closed spec fn view(&self) -> AnimationManagerView {
        AnimationManagerView {
            index: self.index as nat,
            animation: self.animation@,
            timer: timer_view(self.timer),
        }
    }
}

impl Clone for AnimationManager {
    fn clone(&self) -> (c: Self)
        ensures
            c@ == self@,
            self.wf() ==> c.wf(),
    {
        Self { index: self.index, animation: self.animation.clone(), timer: self.timer.clone() }
    }
}

impl AnimationManager {
    /// The frame timer is a running one-shot timer and the cursor is on the
    /// first frame or on a frame of the clip. Every manager made and changed
    /// through this type's functions is so.
    pub closed spec fn wf(&self) -> bool {
        &&& timer_runs(self.timer)
        &&& (self.index == 0 || self.index < self.animation.indexes.len())
    }

    /// The cursor of a well-formed manager points into its clip as soon as
    /// the clip has a frame.
    pub proof fn lemma_cursor_in_clip(&self)
        requires
            self.wf(),
            self@.animation.indexes.len() > 0,
        ensures
            self@.index < self@.animation.indexes.len(),
    {
    }

    /// A manager for `animation`, on its first frame, whose timer finishes
    /// at the first tick.
    pub fn new(animation: Animation) -> (m: Self)
        ensures
            m@ == (AnimationManagerView {
                index: 0,
                animation: animation@,
                timer: TimerView::fresh(0),
            }),
            m.wf(),
    {
        Self { animation, index: 0, timer: idle_timer() }
    }

    /// Goes back to the first frame and restarts the frame timer.
    pub fn reset(&mut self, max_fps: u8)
        requires
            max_fps > 0,
        ensures
            final(self)@ == old(self)@.restarted(frame_nanos(old(self)@.animation.fps, max_fps)),
            final(self).wf(),
    {
        self.index = 0;
        self.timer = frame_timer(self.animation.fps, max_fps);
    }

    /// Restarts the frame timer: a frame is shown for `fps / max_fps` seconds.
    pub fn start_timer(&mut self, max_fps: u8)
        requires
            max_fps > 0,
        ensures
            final(self)@ == (AnimationManagerView {
                timer: TimerView::fresh(frame_nanos(old(self)@.animation.fps, max_fps)),
                ..old(self)@
            }),
            old(self).wf() ==> final(self).wf(),
    {
        self.timer = frame_timer(self.animation.fps, max_fps);
    }

    /// Counts `duration` on the frame timer. The cursor does not move.
    pub fn tick(&mut self, duration: Duration)
        requires
            old(self).wf(),
        ensures
            final(self)@ == (AnimationManagerView {
                timer: old(self)@.timer.tick(duration_nanos(duration)),
                ..old(self)@
            }),
            final(self).wf(),
    {
        tick_once(&mut self.timer, duration);
    }

    /// The phase of the frame under the cursor, with the recovery phase
    /// moved later by `window` frames.
    pub fn phase(&self, window: u8) -> (p: Phase)
        ensures
            p == self@.phase(window as int),
    {
        match &self.animation.options {
            Some(options) => options.phase(self.index, window),
            None => Phase::Neutral,
        }
    }

    /// Whether the frame under the cursor is in the active phase.
    pub fn is_within_active(&self) -> (b: bool)
        ensures
            b == (self@.phase(0) == Phase::Active),
    {
        self.phase(0) == Phase::Active
    }

    /// Whether the frame under the cursor is in the startup phase.
    pub fn is_within_startup(&self) -> (b: bool)
        ensures
            b == (self@.phase(0) == Phase::Startup),
    {
        self.phase(0) == Phase::Startup
    }

    /// Whether the frame under the cursor is in the recovery phase.
    pub fn is_within_recovery(&self) -> (b: bool)
        ensures
            b == (self@.phase(0) == Phase::Recovery),
    {
        self.phase(0) == Phase::Recovery
    }

    /// True on the one tick that brought the frame timer to its end.
    pub fn is_just_finished(&self) -> (b: bool)
        ensures
            b == self@.timer.just_finished,
    {
        self.timer.just_finished()
    }

    /// Whether the frame timer has come to its end.
    pub fn is_finished(&self) -> (b: bool)
        ensures
            b == self@.timer.finished,
    {
        self.timer.finished()
    }

    /// Whether the cursor is on the last frame of the clip.
    pub fn is_last_frame(&self) -> (b: bool)
        ensures
            b == self@.on_last_frame(),
    {
        let frames = self.animation.indexes.len();
        self.index < frames && frames - self.index == 1
    }

    /// Moves to the next frame and restarts the frame timer, unless the
    /// cursor is on the last frame already.
    pub fn next_frame(&mut self, max_fps: u8)
        requires
            max_fps > 0,
        ensures
            final(self)@ == old(self)@.advanced(frame_nanos(old(self)@.animation.fps, max_fps)),
            old(self).wf() ==> final(self).wf(),
    {
        let frames = self.animation.indexes.len();
        if self.index < frames && frames - self.index > 1 {
            self.index += 1;
            self.timer = frame_timer(self.animation.fps, max_fps);
        }
    }

    /// The cursor, cut to eight bits.
    pub fn current_frame_index(&self) -> (i: u8)
        ensures
            i == self@.index % 256,
    {
        (self.index % 256) as u8
    }

    /// The clip's last sprite; `None` for an empty clip.
    pub fn last_sprite_index(&self) -> (s: Option<u8>)
        ensures
            s == if self@.animation.indexes.len() > 0 {
                Some(self@.animation.indexes.last())
            } else {
                None
            },
    {
        let n = self.animation.indexes.len();
        if n > 0 {
            Some(self.animation.indexes[n - 1])
        } else {
            None
        }
    }

    /// The sprite under the cursor; `None` when the cursor is out of the
    /// clip's range.
    pub fn current_sprite_index(&self) -> (s: Option<u8>)
        ensures
            s == self@.sprite(),
    {
        if self.index < self.animation.indexes.len() {
            Some(self.animation.indexes[self.index])
        } else {
            None
        }
    }

    /// The clip that is played.
    pub fn animation(&self) -> (a: &Animation)
        ensures
            a@ == self@.animation,
    {
        &self.animation
    }
}

} // verus!
