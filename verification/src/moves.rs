//! The move catalog: the states a fighter can be in and the static data
//! (clips, frame windows, attacks, boxes) attached to them.
use vstd::prelude::*;

verus! {

/// Upper bound of the simulation's tick rate, in ticks per second.
pub const MAX_FRAME_RATE: u8 = 60;

/// Number of distinct [`AnimationState`]s.
pub const STATE_COUNT: usize = 8;

/// A state a fighter can be in. `Idle` is the rest state.
#[derive(Clone, Copy, Debug, PartialEq, Eq, Hash, Structural)]
pub enum AnimationState {
    Idle,
    Block,
    Forward,
    Backward,
    Jump,
    Crouch,
    LightAttack,
    HeavyAttack,
}

impl AnimationState {
    /// Attacks are the states that lock the fighter until their clip ends.
    pub open spec fn is_attack_spec(self) -> bool {
        self == AnimationState::LightAttack || self == AnimationState::HeavyAttack
    }

    /// Whether the state is one of the two attacks.
    #[verifier::when_used_as_spec(is_attack_spec)]
    pub fn is_attack(self) -> (b: bool)
        ensures
            b == self.is_attack_spec(),
    {
        match self {
            AnimationState::LightAttack | AnimationState::HeavyAttack => true,
            _ => false,
        }
    }

    /// Position of the state in declaration order.
    pub open spec fn slot_spec(self) -> usize {
        match self {
            AnimationState::Idle => 0,
            AnimationState::Block => 1,
            AnimationState::Forward => 2,
            AnimationState::Backward => 3,
            AnimationState::Jump => 4,
            AnimationState::Crouch => 5,
            AnimationState::LightAttack => 6,
            AnimationState::HeavyAttack => 7,
        }
    }

    /// Position of the state in declaration order.
    #[verifier::when_used_as_spec(slot_spec)]
    pub fn slot(self) -> (i: usize)
        ensures
            i == self.slot_spec(),
            i < STATE_COUNT,
    {
        match self {
            AnimationState::Idle => 0,
            AnimationState::Block => 1,
            AnimationState::Forward => 2,
            AnimationState::Backward => 3,
            AnimationState::Jump => 4,
            AnimationState::Crouch => 5,
            AnimationState::LightAttack => 6,
            AnimationState::HeavyAttack => 7,
        }
    }

    /// The state whose slot is `i`, if there is one.
    pub open spec fn of_slot(i: usize) -> Option<AnimationState> {
        if i == 0 {
            Some(AnimationState::Idle)
        } else if i == 1 {
            Some(AnimationState::Block)
        } else if i == 2 {
            Some(AnimationState::Forward)
        } else if i == 3 {
            Some(AnimationState::Backward)
        } else if i == 4 {
            Some(AnimationState::Jump)
        } else if i == 5 {
            Some(AnimationState::Crouch)
        } else if i == 6 {
            Some(AnimationState::LightAttack)
        } else if i == 7 {
            Some(AnimationState::HeavyAttack)
        } else {
            None
        }
    }
}

impl Default for AnimationState {
    fn default() -> (s: Self)
        ensures
            s == AnimationState::Idle,
    {
        AnimationState::Idle
    }
}

/// Slots and states correspond one to one.
pub proof fn lemma_slot_roundtrip(s: AnimationState, i: usize)
    ensures
        AnimationState::of_slot(s.slot_spec()) == Some(s),
        s.slot_spec() < STATE_COUNT,
        i < STATE_COUNT ==> AnimationState::of_slot(i).is_some()
            && AnimationState::of_slot(i).unwrap().slot_spec() == i,
        i >= STATE_COUNT ==> AnimationState::of_slot(i).is_none(),
{
}

/// The part of a clip a frame cursor is in.
#[derive(Clone, Copy, Debug, PartialEq, Eq, Structural)]
pub enum Phase {
    /// Outside every phase, or the clip has no frame window.
    Neutral,
    Startup,
    Active,
    Recovery,
}

/// Frame window of a clip, counted in animation frames: `startup_frames`
/// frames of startup, then `active_frames` active frames, then
/// `recovery_frames` frames of recovery.
#[derive(Clone, Copy, Debug, PartialEq, Eq, Structural)]
pub struct AnimationOptions {
    pub startup_frames: u8,
    pub active_frames: u8,
    pub recovery_frames: u8,
}

impl AnimationOptions {
    /// Frames covered by the three phases together.
    pub open spec fn total_frames(self) -> int {
        self.startup_frames + self.active_frames + self.recovery_frames
    }

    /// Startup is `[0, startup)`.
    pub open spec fn in_startup(self, cursor: int) -> bool {
        0 <= cursor < self.startup_frames
    }

    /// Active is `(startup, startup + active]`.
    pub open spec fn in_active(self, cursor: int) -> bool {
        self.startup_frames < cursor <= self.startup_frames + self.active_frames
    }

    /// Recovery is `(startup + active, startup + active + recovery]`, moved
    /// later by `window` frames.
    pub open spec fn in_recovery(self, cursor: int, window: int) -> bool {
        self.startup_frames + self.active_frames + window < cursor <= self.total_frames() + window
    }

    /// The phase that holds `cursor`, with recovery moved later by `window`.
    pub open spec fn phase_spec(self, cursor: int, window: int) -> Phase {
        if self.in_startup(cursor) {
            Phase::Startup
        } else if self.in_active(cursor) {
            Phase::Active
        } else if self.in_recovery(cursor, window) {
            Phase::Recovery
        } else {
            Phase::Neutral
        }
    }

    /// The phase that holds frame `cursor`. `window` moves the recovery phase
    /// later by that many frames.
    pub fn phase(&self, cursor: usize, window: u8) -> (p: Phase)
        ensures
            p == self.phase_spec(cursor as int, window as int),
    {
        let startup: usize = self.startup_frames as usize;
        let active_end: usize = startup + self.active_frames as usize;
        let recovery_start: usize = active_end + window as usize;
        let recovery_end: usize = recovery_start + self.recovery_frames as usize;
        if cursor < startup {
            Phase::Startup
        } else if cursor > startup && cursor <= active_end {
            Phase::Active
        } else if cursor > recovery_start && cursor <= recovery_end {
            Phase::Recovery
        } else {
            Phase::Neutral
        }
    }
}

/// No frame lies in two phases, whatever the window.
pub proof fn lemma_phases_disjoint(options: AnimationOptions, cursor: int, window: int)
    requires
        0 <= window,
    ensures
        !(options.in_startup(cursor) && options.in_active(cursor)),
        !(options.in_startup(cursor) && options.in_recovery(cursor, window)),
        !(options.in_active(cursor) && options.in_recovery(cursor, window)),
        options.phase_spec(cursor, window) == Phase::Startup <==> options.in_startup(cursor),
        options.phase_spec(cursor, window) == Phase::Active <==> options.in_active(cursor),
        options.phase_spec(cursor, window) == Phase::Recovery <==> options.in_recovery(
            cursor,
            window,
        ),
{
}

/// A clip: the sprite shown at each frame, the playback rate, and the frame
/// window if the clip is an attack's.
#[derive(Debug)]
pub struct Animation {
    pub indexes: Vec<u8>,
    pub fps: u8,
    pub options: Option<AnimationOptions>,
}

/// What a clip holds, as plain values.
pub struct AnimationView {
    pub indexes: Seq<u8>,
    pub fps: u8,
    pub options: Option<AnimationOptions>,
}

impl View for Animation {
    type V = AnimationView;

    open spec fn view(&self) -> AnimationView {
        AnimationView { indexes: self.indexes@, fps: self.fps, options: self.options }
    }
}

impl Clone for Animation {
    fn clone(&self) -> (c: Self)
        ensures
            c@ == self@,
    {
        let mut indexes: Vec<u8> = Vec::new();
        let mut i: usize = 0;
        while i < self.indexes.len()
            invariant
                i <= self.indexes.len(),
                indexes@ == self.indexes@.subrange(0, i as int),
            decreases self.indexes.len() - i,
        {
            indexes.push(self.indexes[i]);
            i += 1;
        }
        assert(indexes@ == self.indexes@);
        Animation { indexes, fps: self.fps, options: self.options }
    }
}

/// Why a clip cannot be played.
#[derive(Clone, Copy, Debug, PartialEq, Eq, Structural)]
pub enum CatalogError {
    /// A state that every fighter needs has no clip.
    CatalogIncomplete,
    /// A clip has no frame.
    EmptyClip,
    /// A clip's frame window covers more frames than the clip has.
    MalformedWindow,
}

impl AnimationView {
    /// What is wrong with the clip, if anything: an empty clip is reported
    /// before a window that does not fit.
    pub open spec fn fault(self) -> Option<CatalogError> {
        if self.indexes.len() == 0 {
            Some(CatalogError::EmptyClip)
        } else if self.options.is_some() && self.options.unwrap().total_frames()
            > self.indexes.len() {
            Some(CatalogError::MalformedWindow)
        } else {
            None
        }
    }

    /// The clip has a frame and its window, if any, fits in it.
    pub open spec fn playable(self) -> bool {
        self.fault().is_none()
    }

    /// The phase of frame `cursor`; a clip without a window has none.
    pub open spec fn phase(self, cursor: int, window: int) -> Phase {
        match self.options {
            Some(options) => options.phase_spec(cursor, window),
            None => Phase::Neutral,
        }
    }
}

impl Animation {
    /// Checks that the clip has a frame and that its window fits.
    pub fn validate(&self) -> (r: Result<(), CatalogError>)
        ensures
            r.is_ok() <==> self@.playable(),
            r matches Err(e) ==> self@.fault() == Some(e),
    {
        if self.indexes.len() == 0 {
            return Err(CatalogError::EmptyClip);
        }
        match self.options {
            Some(options) => {
                let total: usize = options.startup_frames as usize + options.active_frames as usize
                    + options.recovery_frames as usize;
                if total > self.indexes.len() {
                    return Err(CatalogError::MalformedWindow);
                }
            },
            None => {},
        }
        Ok(())
    }
}

/// The region in which an attack lands: a box of `length` by `height`
/// centred `(x, y)` away from the fighter's position.
#[derive(Clone, Copy, Debug, PartialEq, Eq, Structural)]
pub struct Hitbox {
    pub x: i32,
    pub y: i32,
    pub length: u32,
    pub height: u32,
}

/// The region in which a fighter can be hit: a box of `length` by `height`
/// centred `(x, y)` away from the fighter's position.
#[derive(Clone, Copy, Debug, PartialEq, Eq, Structural)]
pub struct Hurtbox {
    pub x: i32,
    pub y: i32,
    pub length: u32,
    pub height: u32,
}

/// An offensive move: its damage, the stun it deals, its clip and its hitbox.
#[derive(Debug)]
pub struct Attack {
    pub damage: u32,
    pub hit_stun_frames: u8,
    pub animation: Animation,
    pub hitbox: Hitbox,
}

/// What an attack holds, as plain values.
pub struct AttackView {
    pub damage: u32,
    pub hit_stun_frames: u8,
    pub animation: AnimationView,
    pub hitbox: Hitbox,
}

impl View for Attack {
    type V = AttackView;

    open spec fn view(&self) -> AttackView {
        AttackView {
            damage: self.damage,
            hit_stun_frames: self.hit_stun_frames,
            animation: self.animation@,
            hitbox: self.hitbox,
        }
    }
}

impl Clone for Attack {
    fn clone(&self) -> (c: Self)
        ensures
            c@ == self@,
    {
        Attack {
            damage: self.damage,
            hit_stun_frames: self.hit_stun_frames,
            animation: self.animation.clone(),
            hitbox: self.hitbox,
        }
    }
}

/// The attacks of a character.
#[derive(Debug)]
pub struct Moveset {
    pub light: Attack,
    pub heavy: Attack,
}

impl Clone for Moveset {
    fn clone(&self) -> (c: Self)
        ensures
            c.light@ == self.light@,
            c.heavy@ == self.heavy@,
    {
        Moveset { light: self.light.clone(), heavy: self.heavy.clone() }
    }
}

/// A playable character as the catalog describes it.
#[derive(Debug)]
pub struct Character {
    pub name: String,
    pub sprite_sheet: String,
    pub health: u32,
    pub hurtbox: Hurtbox,
    pub moveset: Moveset,
    pub idle: Animation,
    pub block: Animation,
    pub jump: Animation,
    pub forward: Animation,
    pub backward: Animation,
}

impl Clone for Character {
    fn clone(&self) -> (c: Self)
        ensures
            c.name@ == self.name@,
            c.sprite_sheet@ == self.sprite_sheet@,
            c.health == self.health,
            c.hurtbox == self.hurtbox,
            c.moveset.light@ == self.moveset.light@,
            c.moveset.heavy@ == self.moveset.heavy@,
            c.idle@ == self.idle@,
            c.block@ == self.block@,
            c.jump@ == self.jump@,
            c.forward@ == self.forward@,
            c.backward@ == self.backward@,
    {
        Character {
            name: self.name.clone(),
            sprite_sheet: self.sprite_sheet.clone(),
            health: self.health,
            hurtbox: self.hurtbox,
            moveset: self.moveset.clone(),
            idle: self.idle.clone(),
            block: self.block.clone(),
            jump: self.jump.clone(),
            forward: self.forward.clone(),
            backward: self.backward.clone(),
        }
    }
}

impl Character {
    /// The clip the character plays in `state`; there is none for crouching.
    pub open spec fn clip(&self, state: AnimationState) -> Option<AnimationView> {
        match state {
            AnimationState::Idle => Some(self.idle@),
            AnimationState::Block => Some(self.block@),
            AnimationState::Forward => Some(self.forward@),
            AnimationState::Backward => Some(self.backward@),
            AnimationState::Jump => Some(self.jump@),
            AnimationState::Crouch => None,
            AnimationState::LightAttack => Some(self.moveset.light.animation@),
            AnimationState::HeavyAttack => Some(self.moveset.heavy.animation@),
        }
    }

    /// The attack the character performs in `state`, for the two attacks.
    pub open spec fn attack(&self, state: AnimationState) -> Option<AttackView> {
        match state {
            AnimationState::LightAttack => Some(self.moveset.light@),
            AnimationState::HeavyAttack => Some(self.moveset.heavy@),
            _ => None,
        }
    }

    /// What is wrong with the character's clips, if anything. The clips are
    /// looked at in the order idle, jump, block, forward, backward, heavy
    /// attack, light attack, and the first fault found is reported.
    pub open spec fn fault(&self) -> Option<CatalogError> {
        if self.idle@.fault().is_some() {
            self.idle@.fault()
        } else if self.jump@.fault().is_some() {
            self.jump@.fault()
        } else if self.block@.fault().is_some() {
            self.block@.fault()
        } else if self.forward@.fault().is_some() {
            self.forward@.fault()
        } else if self.backward@.fault().is_some() {
            self.backward@.fault()
        } else if self.moveset.heavy.animation@.fault().is_some() {
            self.moveset.heavy.animation@.fault()
        } else {
            self.moveset.light.animation@.fault()
        }
    }

    /// Every clip of the character can be played.
    pub open spec fn playable(&self) -> bool {
        self.fault().is_none()
    }

    /// Checks every clip of the character.
    pub fn validate(&self) -> (r: Result<(), CatalogError>)
        ensures
            r.is_ok() <==> self.playable(),
            r matches Err(e) ==> self.fault() == Some(e),
    {
        if let Err(e) = self.idle.validate() {
            return Err(e);
        }
        if let Err(e) = self.jump.validate() {
            return Err(e);
        }
        if let Err(e) = self.block.validate() {
            return Err(e);
        }
        if let Err(e) = self.forward.validate() {
            return Err(e);
        }
        if let Err(e) = self.backward.validate() {
            return Err(e);
        }
        if let Err(e) = self.moveset.heavy.animation.validate() {
            return Err(e);
        }
        self.moveset.light.animation.validate()
    }
}

/// A character whose clips pass validation has a frame to show in every
/// state it has a clip for.
pub proof fn lemma_valid_character_has_frames(character: Character, state: AnimationState)
    requires
        character.playable(),
        character.clip(state).is_some(),
    ensures
        character.clip(state).unwrap().playable(),
        character.clip(state).unwrap().indexes.len() > 0,
{
}

} // verus!
