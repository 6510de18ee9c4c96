//! Clips whose sprites are held for a number of frames each, with frame
//! windows counted in held frames, and the queue that links attacks.
use crate::moves::Attack;
use crate::moves::AttackView;
use crate::timer::frame_nanos;
use crate::timer::frame_timer;
use crate::timer::idle_timer;
use crate::timer::timer_runs;
use crate::timer::timer_view;
use crate::timer::TimerView;
use bevy::time::Timer;
use vstd::prelude::*;

verus! {

/// A frame window counted in held frames.
#[derive(Clone, Copy, Debug, Default, PartialEq, Eq, Structural)]
pub struct AnimationConfig {
    pub startup_frames: u8,
    pub active_frames: u8,
    pub recovery_frames: u8,
}

impl AnimationConfig {
    /// Active is `(startup, startup + active]`.
    pub fn is_within_active(&self, frames: u8) -> (b: bool)
        ensures
            b == (self.startup_frames < frames <= self.startup_frames + self.active_frames),
    {
        frames > self.startup_frames && frames as u16 <= self.startup_frames as u16
            + self.active_frames as u16
    }

    /// Startup is `[0, startup)`, made longer by `window` frames.
    pub fn is_within_startup(&self, frames: u8, window: u8) -> (b: bool)
        ensures
            b == (frames < self.startup_frames + window),
    {
        (frames as u16) < self.startup_frames as u16 + window as u16
    }

    /// Recovery is `(startup + active, startup + active + recovery]`, moved
    /// later by `window` frames.
    pub fn is_within_recovery(&self, frames: u8, window: u8) -> (b: bool)
        ensures
            b == (self.startup_frames + self.active_frames + window < frames
                <= self.startup_frames + self.active_frames + self.recovery_frames + window),
    {
        let start: u16 = self.startup_frames as u16 + self.active_frames as u16 + window as u16;
        frames as u16 > start && frames as u16 <= start + self.recovery_frames as u16
    }
}

/// A sprite and the number of frames it is held for.
#[derive(Clone, Copy, Debug, PartialEq, Eq, Structural)]
pub struct FrameData {
    pub index: u8,
    pub frames: u8,
}

impl FrameData {
    /// Sprite `index`, held for `frames` frames.
    pub fn new(index: u8, frames: u8) -> (f: Self)
        ensures
            f == (FrameData { index, frames }),
    {
        Self { index, frames }
    }

    /// A one-shot timer of `1 / frames` seconds.
    pub fn get_timer(&self) -> (t: Timer)
        requires
            self.frames > 0,
        ensures
            timer_view(t) == TimerView::fresh(frame_nanos(1, self.frames)),
            timer_runs(t),
    {
        frame_timer(1, self.frames)
    }
}

/// A clip of held sprites with its frame window.
#[derive(Debug)]
pub struct AnimationData {
    pub frame_data: Vec<FrameData>,
    pub config: AnimationConfig,
}

impl AnimationData {
    /// A clip of the given sprites with the given window.
    pub fn new(frame_data: Vec<FrameData>, config: AnimationConfig) -> (a: Self)
        ensures
            a.frame_data == frame_data,
            a.config == config,
    {
        Self { frame_data, config }
    }
}

/// Frames for which the first `n` sprites of a clip are held together.
pub open spec fn held_before(clip: Seq<FrameData>, n: int) -> int
    decreases n,
{
    if n <= 0 {
        0
    } else {
        held_before(clip, n - 1) + clip[n - 1].frames
    }
}

/// Sprite `sprite` occurs in the clip, first at position `i`.
pub open spec fn first_shown_at(clip: Seq<FrameData>, sprite: u8, i: int) -> bool {
    &&& 0 <= i < clip.len()
    &&& clip[i].index == sprite
    &&& forall|j: int| 0 <= j < i ==> (#[trigger] clip[j]).index != sprite
}

/// Sprite `sprite` occurs in the clip.
pub open spec fn shown(clip: Seq<FrameData>, sprite: u8) -> bool {
    exists|i: int| 0 <= i < clip.len() && (#[trigger] clip[i]).index == sprite
}

/// The held frames grow with the number of sprites counted.
pub proof fn lemma_held_before_grows(clip: Seq<FrameData>, n: int, m: int)
    requires
        0 <= n <= m,
    ensures
        0 <= held_before(clip, n) <= held_before(clip, m),
    decreases m,
{
    if n < m {
        lemma_held_before_grows(clip, n, m - 1);
    } else if n > 0 {
        lemma_held_before_grows(clip, n - 1, n - 1);
        lemma_held_before_grows(clip, n - 1, m - 1);
    }
}

/// A sprite was looked for that the clip does not show.
#[derive(Clone, Copy, Debug, PartialEq, Eq, Structural)]
pub struct IndexOutOfRange {
    /// Number of sprites in the clip.
    pub len: usize,
    /// The index that was looked for.
    pub index: usize,
}

/// Plays a clip of held sprites: the sprite that is showing, the clip, and
/// the timer of that sprite.
#[derive(Debug)]
pub struct AnimationDataTimer {
    index: u8,
    animation_data: AnimationData,
    frame_timer: Timer,
}

/// What an [`AnimationDataTimer`] holds, as plain values.
pub struct AnimationDataTimerView {
    pub index: u8,
    pub frame_data: Seq<FrameData>,
    pub config: AnimationConfig,
    pub timer: TimerView,
}

impl View for AnimationDataTimer {
    type V = AnimationDataTimerView;

    closed spec fn view(&self) -> AnimationDataTimerView {
        AnimationDataTimerView {
            index: self.index,
            frame_data: self.animation_data.frame_data@,
            config: self.animation_data.config,
            timer: timer_view(self.frame_timer),
        }
    }
}

impl AnimationDataTimerView {
    /// The clip is not empty, the sprite that is showing is one of the
    /// clip's, and the clip's held frames fit in eight bits.
    pub open spec fn wf(self) -> bool {
        &&& self.frame_data.len() > 0
        &&& shown(self.frame_data, self.index)
        &&& held_before(self.frame_data, self.frame_data.len() as int) <= u8::MAX
    }
}

impl AnimationDataTimer {
    /// A player for the clip, showing its first sprite, whose timer finishes
    /// at the first tick.
    pub fn new(animation_data: AnimationData) -> (t: Self)
        requires
            animation_data.frame_data.len() > 0,
        ensures
            t@ == (AnimationDataTimerView {
                index: animation_data.frame_data[0].index,
                frame_data: animation_data.frame_data@,
                config: animation_data.config,
                timer: TimerView::fresh(0),
            }),
    {
        let index = animation_data.frame_data[0].index;
        Self { animation_data, index, frame_timer: idle_timer() }
    }

    /// Shows the first sprite again and puts a timer in place that finishes
    /// at the first tick.
    pub fn reset(&mut self)
        requires
            old(self)@.frame_data.len() > 0,
        ensures
            final(self)@ == (AnimationDataTimerView {
                index: old(self)@.frame_data[0].index,
                timer: TimerView::fresh(0),
                ..old(self)@
            }),
    {
        self.index = self.animation_data.frame_data[0].index;
        self.frame_timer = idle_timer();
    }

    /// Frames held before sprite `index` (cut to eight bits) is first shown.
    pub fn get_frame_from_index(&self, index: usize) -> (r: Result<u8, IndexOutOfRange>)
        requires
            held_before(self@.frame_data, self@.frame_data.len() as int) <= u8::MAX,
        ensures
            r.is_ok() <==> shown(self@.frame_data, (index % 256) as u8),
            r matches Ok(held) ==> exists|i: int|
                #![trigger first_shown_at(self@.frame_data, (index % 256) as u8, i)]
                first_shown_at(self@.frame_data, (index % 256) as u8, i) && held == held_before(
                    self@.frame_data,
                    i,
                ),
            r matches Err(e) ==> e == (IndexOutOfRange { len: self@.frame_data.len() as usize, index }),
    {
        let sprite: u8 = (index % 256) as u8;
        let clip = &self.animation_data.frame_data;
        let mut held: u8 = 0;
        let mut i: usize = 0;
        while i < clip.len()
            invariant
                i <= clip.len(),
                clip@ == self@.frame_data,
                sprite == (index % 256) as u8,
                held == held_before(clip@, i as int),
                held_before(clip@, clip.len() as int) <= u8::MAX,
                forall|j: int| 0 <= j < i ==> (#[trigger] clip[j]).index != sprite,
            decreases clip.len() - i,
        {
            if clip[i].index == sprite {
                assert(first_shown_at(clip@, sprite, i as int));
                return Ok(held);
            }
            proof {
                lemma_held_before_grows(clip@, i as int + 1, clip.len() as int);
            }
            held = held + clip[i].frames;
            i += 1;
        }
        Err(IndexOutOfRange { len: clip.len(), index })
    }

    /// Frames held before the sprite that is showing.
    pub fn get_current_frame_count(&self) -> (r: Result<u8, IndexOutOfRange>)
        requires
            held_before(self@.frame_data, self@.frame_data.len() as int) <= u8::MAX,
        ensures
            r.is_ok() <==> shown(self@.frame_data, self@.index),
            r matches Ok(held) ==> exists|i: int|
                #![trigger first_shown_at(self@.frame_data, self@.index, i)]
                first_shown_at(self@.frame_data, self@.index, i) && held == held_before(
                    self@.frame_data,
                    i,
                ),
            r matches Err(e) ==> e == (IndexOutOfRange {
                len: self@.frame_data.len() as usize,
                index: self@.index as usize,
            }),
    {
        self.get_frame_from_index(self.index as usize)
    }

    /// The sprite that is showing with its hold, if the clip shows it.
    pub fn get_current_frame_data(&self) -> (r: Option<FrameData>)
        ensures
            r.is_some() <==> shown(self@.frame_data, self@.index),
            r matches Some(frame) ==> exists|i: int|
                #![trigger first_shown_at(self@.frame_data, self@.index, i)]
                first_shown_at(self@.frame_data, self@.index, i) && frame == self@.frame_data[i],
    {
        let clip = &self.animation_data.frame_data;
        let mut i: usize = 0;
        while i < clip.len()
            invariant
                i <= clip.len(),
                clip@ == self@.frame_data,
                forall|j: int| 0 <= j < i ==> (#[trigger] clip[j]).index != self.index,
            decreases clip.len() - i,
        {
            if clip[i].index == self.index {
                let frame = clip[i];
                assert(first_shown_at(self@.frame_data, self@.index, i as int) && frame
                    == self@.frame_data[i as int]);
                return Some(frame);
            }
            i += 1;
        }
        None
    }

    /// The frame window of the clip.
    pub fn get_config(&self) -> (c: AnimationConfig)
        ensures
            c == self@.config,
    {
        self.animation_data.config
    }

    /// Whether the frames held before the showing sprite lie in the active
    /// phase.
    pub fn is_within_active(&self) -> (b: bool)
        requires
            self@.wf(),
        ensures
            exists|i: int|
                #![trigger first_shown_at(self@.frame_data, self@.index, i)]
                first_shown_at(self@.frame_data, self@.index, i) && b == (
                self@.config.startup_frames < held_before(self@.frame_data, i)
                    <= self@.config.startup_frames + self@.config.active_frames),
    {
        match self.get_current_frame_count() {
            Ok(current) => self.animation_data.config.is_within_active(current),
            Err(_) => vstd::pervasive::unreached(),
        }
    }

    /// Whether the frames held before the showing sprite lie in the startup
    /// phase, made longer by `window` frames.
    pub fn is_within_startup(&self, window: u8) -> (b: bool)
        requires
            self@.wf(),
        ensures
            exists|i: int|
                #![trigger first_shown_at(self@.frame_data, self@.index, i)]
                first_shown_at(self@.frame_data, self@.index, i) && b == (held_before(
                    self@.frame_data,
                    i,
                ) < self@.config.startup_frames + window),
    {
        match self.get_current_frame_count() {
            Ok(current) => self.animation_data.config.is_within_startup(current, window),
            Err(_) => vstd::pervasive::unreached(),
        }
    }

    /// Whether the frames held before the showing sprite lie in the
    /// recovery phase, moved later by `window` frames.
    pub fn is_within_recovery(&self, window: u8) -> (b: bool)
        requires
            self@.wf(),
        ensures
            exists|i: int|
                #![trigger first_shown_at(self@.frame_data, self@.index, i)]
                first_shown_at(self@.frame_data, self@.index, i) && b == (
                self@.config.startup_frames + self@.config.active_frames + window < held_before(
                    self@.frame_data,
                    i,
                ) <= self@.config.startup_frames + self@.config.active_frames
                    + self@.config.recovery_frames + window),
    {
        match self.get_current_frame_count() {
            Ok(current) => self.animation_data.config.is_within_recovery(current, window),
            Err(_) => vstd::pervasive::unreached(),
        }
    }

    /// True on the one tick that brought the sprite's timer to its end.
    pub fn is_just_finished(&self) -> (b: bool)
        ensures
            b == self@.timer.just_finished,
    {
        self.frame_timer.just_finished()
    }
}

/// The first place where a sprite is shown is the only first place.
pub proof fn lemma_first_shown_once(clip: Seq<FrameData>, sprite: u8, i: int, j: int)
    requires
        first_shown_at(clip, sprite, i),
        first_shown_at(clip, sprite, j),
    ensures
        i == j,
{
}

/// The attack that is playing and the one that follows it.
#[derive(Debug)]
pub struct AnimationLink(Option<Attack>, Option<Attack>);

/// An attack slot as plain values.
pub open spec fn slot_view(slot: Option<Attack>) -> Option<AttackView> {
    match slot {
        Some(attack) => Some(attack@),
        None => None,
    }
}

impl View for AnimationLink {
    type V = (Option<AttackView>, Option<AttackView>);

    closed spec fn view(&self) -> (Option<AttackView>, Option<AttackView>) {
        (slot_view(self.0), slot_view(self.1))
    }
}

impl Default for AnimationLink {
    fn default() -> (link: Self)
        ensures
            link@ == (None::<AttackView>, None::<AttackView>),
    {
        AnimationLink(None, None)
    }
}

impl AnimationLink {
    /// Puts `attack` in the first free slot; with both taken it is dropped.
    pub fn try_link(&mut self, attack: Attack)
        ensures
            final(self)@ == if old(self)@.0.is_none() {
                (Some(attack@), old(self)@.1)
            } else if old(self)@.1.is_none() {
                (old(self)@.0, Some(attack@))
            } else {
                old(self)@
            },
    {
        if self.0.is_none() {
            self.0 = Some(attack);
        } else if self.1.is_none() {
            self.1 = Some(attack);
        }
    }

    /// The attack that follows becomes the one that plays.
    pub fn shift(&mut self)
        ensures
            final(self)@ == (old(self)@.1, None::<AttackView>),
    {
        self.0 = self.1.take();
    }

    /// The attack that plays.
    pub fn get(&self) -> (attack: Option<Attack>)
        ensures
            slot_view(attack) == self@.0,
    {
        match &self.0 {
            Some(attack) => Some(attack.clone()),
            None => None,
        }
    }

    /// Hands out the attack that plays and moves on to the one that follows.
    pub fn consume(&mut self) -> (attack: Option<Attack>)
        ensures
            slot_view(attack) == old(self)@.0,
            final(self)@ == (old(self)@.1, None::<AttackView>),
    {
        let result = self.0.take();
        self.shift();
        result
    }
}

} // verus!
