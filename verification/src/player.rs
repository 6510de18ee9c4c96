//! The move state machine of one fighter: the state that is playing, the
//! one-slot buffer for the attack that follows, and the table of clips.
use crate::animation::AnimationManager;
use crate::animation::AnimationManagerView;
use crate::moves::AnimationState;
use crate::moves::Attack;
use crate::moves::AttackView;
use crate::moves::CatalogError;
use crate::moves::Character;
use crate::moves::Phase;
use crate::moves::MAX_FRAME_RATE;
use crate::moves::STATE_COUNT;
use crate::timer::frame_nanos;
use crate::timer::TimerView;
use vstd::prelude::*;

verus! {

/// What a row of the move table holds, as plain values.
pub open spec fn entry_view(entry: (AnimationManager, Option<Attack>)) -> (
    AnimationManagerView,
    Option<AttackView>,
) {
    (
        entry.0@,
        match entry.1 {
            Some(attack) => Some(attack@),
            None => None,
        },
    )
}

/// Some row of `entries` is for `state`.
pub open spec fn catalog_has(
    entries: Seq<(AnimationState, (AnimationManager, Option<Attack>))>,
    state: AnimationState,
) -> bool {
    exists|i: int| 0 <= i < entries.len() && (#[trigger] entries[i]).0 == state
}

/// Row `i` of `entries` is the last one for `state`.
pub open spec fn last_entry_for(
    entries: Seq<(AnimationState, (AnimationManager, Option<Attack>))>,
    state: AnimationState,
    i: int,
) -> bool {
    &&& 0 <= i < entries.len()
    &&& entries[i].0 == state
    &&& forall|j: int| i < j < entries.len() ==> (#[trigger] entries[j]).0 != state
}

/// What is wrong with the clip of row `i`, if anything.
pub open spec fn entry_fault(
    entries: Seq<(AnimationState, (AnimationManager, Option<Attack>))>,
    i: int,
) -> Option<CatalogError> {
    entries[i].1.0@.animation.fault()
}

/// Row `i` of `entries` is the first whose clip cannot be played.
pub open spec fn first_fault_at(
    entries: Seq<(AnimationState, (AnimationManager, Option<Attack>))>,
    i: int,
) -> bool {
    &&& 0 <= i < entries.len()
    &&& entry_fault(entries, i).is_some()
    &&& forall|j: int| 0 <= j < i ==> (#[trigger] entry_fault(entries, j)).is_none()
}

/// Every clip in `entries` can be played.
pub open spec fn catalog_sound(
    entries: Seq<(AnimationState, (AnimationManager, Option<Attack>))>,
) -> bool {
    forall|i: int| 0 <= i < entries.len() ==> (#[trigger] entry_fault(entries, i)).is_none()
}

/// The states every fighter needs a clip for.
pub open spec fn required_state(state: AnimationState) -> bool {
    state == AnimationState::Idle || state == AnimationState::Forward || state
        == AnimationState::Backward || state == AnimationState::LightAttack || state
        == AnimationState::HeavyAttack
}

/// `entries` has a row for every required state.
pub open spec fn catalog_complete(
    entries: Seq<(AnimationState, (AnimationManager, Option<Attack>))>,
) -> bool {
    &&& catalog_has(entries, AnimationState::Idle)
    &&& catalog_has(entries, AnimationState::Forward)
    &&& catalog_has(entries, AnimationState::Backward)
    &&& catalog_has(entries, AnimationState::LightAttack)
    &&& catalog_has(entries, AnimationState::HeavyAttack)
}

/// The move state machine of one fighter.
#[derive(Debug)]
pub struct PlayerAnimationManagement {
    state: AnimationState,
    next_state: Option<AnimationState>,
    animations: Vec<Option<(AnimationManager, Option<Attack>)>>,
}

/// What a [`PlayerAnimationManagement`] holds, as plain values.
pub struct PlayerAnimationView {
    pub state: AnimationState,
    pub next_state: Option<AnimationState>,
    pub animations: Map<AnimationState, (AnimationManagerView, Option<AttackView>)>,
}

impl PlayerAnimationView {
    /// The fighter has a clip for `state`.
    pub open spec fn has(self, state: AnimationState) -> bool {
        self.animations.dom().contains(state)
    }

    /// The current state and every required state have a clip, every clip
    /// can be played from where its cursor is, and only an attack holds a
    /// buffered state.
    pub open spec fn wf(self) -> bool {
        &&& self.has(self.state)
        &&& forall|state: AnimationState| required_state(state) ==> #[trigger] self.has(state)
        &&& forall|state: AnimationState| #[trigger]
            self.has(state) ==> self.animations[state].0.wf()
        &&& self.next_state matches Some(next) ==> self.state.is_attack() && self.has(next)
    }

    /// The player of the current state's clip.
    pub open spec fn current(self) -> AnimationManagerView {
        self.animations[self.state].0
    }

    /// The attack of the current state, if it is one.
    pub open spec fn current_attack(self) -> Option<AttackView> {
        self.animations[self.state].1
    }

    /// The fighter with `state` playing from its first frame.
    pub open spec fn started(self, state: AnimationState) -> PlayerAnimationView {
        let entry = self.animations[state];
        PlayerAnimationView {
            state,
            animations: self.animations.insert(
                state,
                (entry.0.restarted(frame_nanos(entry.0.animation.fps, MAX_FRAME_RATE)), entry.1),
            ),
            ..self
        }
    }

    /// Whether a request for `state` is accepted. An attack accepts only
    /// another attack, only into an empty buffer, and only during its
    /// recovery (moved later by `window` frames); any other state accepts
    /// every request.
    pub open spec fn accepts(self, state: AnimationState, window: int) -> bool {
        if self.state.is_attack() {
            &&& self.next_state.is_none()
            &&& state.is_attack()
            &&& self.current().phase(window) == Phase::Recovery
        } else {
            true
        }
    }

    /// The fighter after a request for `state`: an attack buffers an accepted
    /// request and ignores any other; another state gives way at once,
    /// unless it is the requested state itself.
    pub open spec fn requested(self, state: AnimationState, window: int) -> PlayerAnimationView {
        if self.state.is_attack() {
            if self.accepts(state, window) {
                PlayerAnimationView { next_state: Some(state), ..self }
            } else {
                self
            }
        } else if state == self.state {
            self
        } else {
            self.started(state)
        }
    }

    /// The state that follows when the current clip ends: the buffered one,
    /// or the rest state.
    pub open spec fn successor(self) -> AnimationState {
        match self.next_state {
            Some(next) => next,
            None => AnimationState::Idle,
        }
    }

    /// The fighter after its current clip has ended.
    pub open spec fn shifted(self) -> PlayerAnimationView {
        PlayerAnimationView { next_state: None, ..self.started(self.successor()) }
    }

    /// The fighter with `manager` in place of the player of its current clip.
    pub open spec fn with_current(self, manager: AnimationManagerView) -> PlayerAnimationView {
        PlayerAnimationView {
            animations: self.animations.insert(
                self.state,
                (manager, self.animations[self.state].1),
            ),
            ..self
        }
    }

    /// Nanoseconds for which a frame of the current clip is shown.
    pub open spec fn frame_time(self) -> nat {
        frame_nanos(self.current().animation.fps, MAX_FRAME_RATE)
    }

    /// The current clip's player after `delta` more nanoseconds on its timer.
    pub open spec fn counted(self, delta: nat) -> AnimationManagerView {
        AnimationManagerView { timer: self.current().timer.tick(delta), ..self.current() }
    }

    /// `delta` more nanoseconds bring the current frame's time to its end.
    pub open spec fn frame_ends(self, delta: nat) -> bool {
        self.counted(delta).timer.just_finished
    }

    /// The fighter after a tick of `delta` nanoseconds. The time is counted
    /// on the current frame. If that ends the frame's time, the clip moves
    /// to its next frame; on the last frame the clip is rewound and the
    /// fighter shifts to the state that follows.
    pub open spec fn ticked(self, delta: nat) -> PlayerAnimationView {
        let counted = self.counted(delta);
        if !self.frame_ends(delta) {
            self.with_current(counted)
        } else if counted.on_last_frame() {
            self.with_current(counted.restarted(self.frame_time())).shifted()
        } else {
            self.with_current(counted.advanced(self.frame_time()))
        }
    }
}

impl View for PlayerAnimationManagement {
    type V = PlayerAnimationView;

    closed spec fn view(&self) -> PlayerAnimationView {
        PlayerAnimationView {
            state: self.state,
            next_state: self.next_state,
            animations: Map::new(
                |state: AnimationState|
                    state.slot_spec() < self.animations.len()
                        && self.animations[state.slot_spec() as int].is_some(),
                |state: AnimationState|
                    entry_view(self.animations[state.slot_spec() as int].unwrap()),
            ),
        }
    }
}

impl PlayerAnimationManagement {
    /// The table has a slot for every state and every clip's timer runs.
    pub closed spec fn table_wf(&self) -> bool {
        &&& self.animations.len() == STATE_COUNT
        &&& forall|i: int|
            0 <= i < self.animations.len() && (#[trigger] self.animations[i]).is_some()
                ==> self.animations[i].unwrap().0.wf()
    }

    /// The table is in order and the fighter's plain values are well formed.
    pub open spec fn wf(&self) -> bool {
        &&& self.table_wf()
        &&& self@.wf()
    }

    /// Builds a fighter at rest from the rows of its move table. Where two
    /// rows are for the same state, the later one counts. Fails if a clip
    /// cannot be played (the first such row decides the error) or, when all
    /// can, if a required state has no row.
    pub fn new(animations: Vec<(AnimationState, (AnimationManager, Option<Attack>))>) -> (r:
        Result<Self, CatalogError>)
        requires
            forall|i: int| 0 <= i < animations.len() ==> (#[trigger] animations[i]).1.0.wf(),
        ensures
            r.is_ok() <==> catalog_sound(animations@) && catalog_complete(animations@),
            r matches Ok(player) ==> {
                &&& player.wf()
                &&& player@.state == AnimationState::Idle
                &&& player@.next_state.is_none()
                &&& forall|state: AnimationState| #[trigger]
                    player@.has(state) <==> catalog_has(animations@, state)
                &&& forall|state: AnimationState, i: int| #[trigger]
                    last_entry_for(animations@, state, i) ==> player@.animations[state]
                        == entry_view(animations[i].1)
            },
            r matches Err(e) ==> if catalog_sound(animations@) {
                e == CatalogError::CatalogIncomplete
            } else {
                exists|i: int| #[trigger]
                    first_fault_at(animations@, i) && entry_fault(animations@, i) == Some(e)
            },
    {
        let ghost rows = animations@;
        let mut animations = animations;
        let mut table: Vec<Option<(AnimationManager, Option<Attack>)>> = Vec::new();
        while table.len() < STATE_COUNT
            invariant
                table.len() <= STATE_COUNT,
                forall|i: int| 0 <= i < table.len() ==> (#[trigger] table[i]).is_none(),
            decreases STATE_COUNT - table.len(),
        {
            table.push(None);
        }
        let mut fault: Option<CatalogError> = None;
        let ghost mut fault_at: int = 0;
        let ghost mut origin: Seq<int> = Seq::new(STATE_COUNT as nat, |i: int| 0);
        while animations.len() > 0
            invariant
                animations@ == rows.subrange(0, animations.len() as int),
                animations.len() <= rows.len(),
                forall|i: int| 0 <= i < rows.len() ==> (#[trigger] rows[i]).1.0.wf(),
                table.len() == STATE_COUNT,
                origin.len() == STATE_COUNT,
                forall|state: AnimationState| #[trigger]
                    table[state.slot_spec() as int].is_none() ==> forall|j: int|
                        animations.len() <= j < rows.len() ==> (#[trigger] rows[j]).0 != state,
                forall|state: AnimationState| #[trigger]
                    table[state.slot_spec() as int].is_some() ==> {
                        &&& animations.len() <= origin[state.slot_spec() as int]
                        &&& last_entry_for(rows, state, origin[state.slot_spec() as int])
                        &&& table[state.slot_spec() as int].unwrap()
                            == rows[origin[state.slot_spec() as int]].1
                    },
                fault.is_none() ==> forall|j: int|
                    animations.len() <= j < rows.len() ==> (#[trigger] entry_fault(
                        rows,
                        j,
                    )).is_none(),
                fault.is_some() ==> {
                    &&& animations.len() <= fault_at < rows.len()
                    &&& entry_fault(rows, fault_at) == fault
                    &&& forall|j: int|
                        animations.len() <= j < fault_at ==> (#[trigger] entry_fault(
                            rows,
                            j,
                        )).is_none()
                },
            decreases animations.len(),
        {
            let ghost k = animations.len() - 1;
            let row = animations.pop().unwrap();
            let (state, entry) = row;
            match entry.0.animation().validate() {
                Err(e) => {
                    fault = Some(e);
                    proof {
                        fault_at = k;
                    }
                },
                Ok(()) => {},
            }
            let slot = state.slot();
            if table[slot].is_none() {
                table.set(slot, Some(entry));
                proof {
                    origin = origin.update(slot as int, k);
                }
            }
            proof {
                // Two states share a slot only if they are the same state.
                assert forall|other: AnimationState|
                    other.slot_spec() == state.slot_spec() implies other == state by {
                    crate::moves::lemma_slot_roundtrip(other, 0);
                    crate::moves::lemma_slot_roundtrip(state, 0);
                }
            }
        }
        if let Some(e) = fault {
            assert(first_fault_at(rows, fault_at));
            return Err(e);
        }
        let complete = table[AnimationState::Idle.slot()].is_some()
            && table[AnimationState::Forward.slot()].is_some()
            && table[AnimationState::Backward.slot()].is_some()
            && table[AnimationState::LightAttack.slot()].is_some()
            && table[AnimationState::HeavyAttack.slot()].is_some();
        if !complete {
            return Err(CatalogError::CatalogIncomplete);
        }
        let player = Self { state: AnimationState::Idle, next_state: None, animations: table };
        proof {
            assert forall|state: AnimationState| #[trigger]
                player@.has(state) == catalog_has(rows, state) by {
                crate::moves::lemma_slot_roundtrip(state, 0);
            }
            // The row that the table holds for a state is the last one given.
            assert forall|state: AnimationState, i: int| #[trigger]
                last_entry_for(rows, state, i) implies player@.animations[state] == entry_view(
                rows[i].1,
            ) by {
                crate::moves::lemma_slot_roundtrip(state, 0);
                assert(catalog_has(rows, state));
            }
            // Every slot belongs to a state, so every row in the table was given.
            assert forall|i: int|
                0 <= i < player.animations.len() && (#[trigger] player.animations[i]).is_some()
                implies player.animations[i].unwrap().0.wf() by {
                crate::moves::lemma_slot_roundtrip(AnimationState::Idle, i as usize);
            }
            assert forall|state: AnimationState| #[trigger]
                player@.has(state) implies player@.animations[state].0.wf() by {
                crate::moves::lemma_slot_roundtrip(state, 0);
                let given = origin[state.slot_spec() as int];
                assert(entry_fault(rows, given).is_none());
                rows[given].1.0.lemma_cursor_in_clip();
            }
        }
        Ok(player)
    }

    /// The row a character provides for `state`, as plain values: the clip
    /// on its first frame, with the attack data for the two attacks.
    pub open spec fn character_entry(character: &Character, state: AnimationState) -> (
        AnimationManagerView,
        Option<AttackView>,
    ) {
        (
            AnimationManagerView {
                index: 0,
                animation: character.clip(state).unwrap(),
                timer: TimerView::fresh(0),
            },
            character.attack(state),
        )
    }

    /// Builds a fighter at rest from a character of the catalog. Fails if
    /// one of the character's clips cannot be played, with the first fault
    /// in the order idle, jump, block, forward, backward, heavy attack,
    /// light attack.
    pub fn from_character(character: &Character) -> (r: Result<Self, CatalogError>)
        ensures
            r.is_ok() <==> character.playable(),
            r matches Err(e) ==> character.fault() == Some(e),
            r matches Ok(player) ==> {
                &&& player.wf()
                &&& player@.state == AnimationState::Idle
                &&& player@.next_state.is_none()
                &&& forall|state: AnimationState| #[trigger]
                    player@.has(state) <==> character.clip(state).is_some()
                &&& forall|state: AnimationState| #[trigger]
                    player@.has(state) ==> player@.animations[state] == Self::character_entry(
                        character,
                        state,
                    )
            },
    {
        let mut rows: Vec<(AnimationState, (AnimationManager, Option<Attack>))> = Vec::new();
        rows.push((AnimationState::Idle, (AnimationManager::new(character.idle.clone()), None)));
        rows.push((AnimationState::Jump, (AnimationManager::new(character.jump.clone()), None)));
        rows.push((AnimationState::Block, (AnimationManager::new(character.block.clone()), None)));
        rows.push(
            (AnimationState::Forward, (AnimationManager::new(character.forward.clone()), None)),
        );
        rows.push(
            (AnimationState::Backward, (AnimationManager::new(character.backward.clone()), None)),
        );
        rows.push(
            (
                AnimationState::HeavyAttack,
                (
                    AnimationManager::new(character.moveset.heavy.animation.clone()),
                    Some(character.moveset.heavy.clone()),
                ),
            ),
        );
        rows.push(
            (
                AnimationState::LightAttack,
                (
                    AnimationManager::new(character.moveset.light.animation.clone()),
                    Some(character.moveset.light.clone()),
                ),
            ),
        );
        proof {
            assert(entry_fault(rows@, 0) == character.idle@.fault());
            assert(entry_fault(rows@, 1) == character.jump@.fault());
            assert(entry_fault(rows@, 2) == character.block@.fault());
            assert(entry_fault(rows@, 3) == character.forward@.fault());
            assert(entry_fault(rows@, 4) == character.backward@.fault());
            assert(entry_fault(rows@, 5) == character.moveset.heavy.animation@.fault());
            assert(entry_fault(rows@, 6) == character.moveset.light.animation@.fault());
            assert forall|state: AnimationState|
                catalog_has(rows@, state) == character.clip(state).is_some() by {}
            assert forall|state: AnimationState| #[trigger]
                character.clip(state).is_some() implies exists|i: int|
                last_entry_for(rows@, state, i) && entry_view(rows[i].1) == Self::character_entry(
                    character,
                    state,
                ) by {
                let i: int = match state {
                    AnimationState::Idle => 0,
                    AnimationState::Jump => 1,
                    AnimationState::Block => 2,
                    AnimationState::Forward => 3,
                    AnimationState::Backward => 4,
                    AnimationState::HeavyAttack => 5,
                    _ => 6,
                };
                assert(last_entry_for(rows@, state, i));
            }
        }
        let ghost listed = rows@;
        let r = Self::new(rows);
        proof {
            match &r {
                Ok(player) => {
                    assert forall|state: AnimationState| #[trigger]
                        player@.has(state) implies player@.animations[state]
                        == Self::character_entry(character, state) by {
                        let i = choose|i: int|
                            last_entry_for(listed, state, i) && entry_view(listed[i].1)
                                == Self::character_entry(character, state);
                    }
                },
                Err(e) => {
                    if !catalog_sound(listed) {
                        // The first faulty row is the first faulty clip of
                        // the character, the rows being in the same order.
                        let i = choose|i: int| #[trigger]
                            first_fault_at(listed, i) && entry_fault(listed, i) == Some(*e);
                        assert(forall|j: int|
                            0 <= j < i ==> (#[trigger] entry_fault(listed, j)).is_none());
                    }
                },
            }
        }
        r
    }

    /// The state that is playing.
    pub fn state(&self) -> (state: AnimationState)
        ensures
            state == self@.state,
    {
        self.state
    }

    /// The attack that starts when the current one ends, if one is buffered.
    pub fn buffered_state(&self) -> (next: Option<AnimationState>)
        ensures
            next == self@.next_state,
    {
        self.next_state
    }

    /// Whether the fighter has a clip for `state`.
    pub fn has_animation(&self, state: AnimationState) -> (b: bool)
        ensures
            b == self@.has(state),
    {
        let slot = state.slot();
        slot < self.animations.len() && self.animations[slot].is_some()
    }

    /// The player and the attack of the current state.
    pub fn get_current_animation(&self) -> (entry: &(AnimationManager, Option<Attack>))
        requires
            self.wf(),
        ensures
            entry_view(*entry) == self@.animations[self@.state],
            entry.0.wf(),
    {
        let slot = self.state.slot();
        match &self.animations[slot] {
            Some(entry) => entry,
            None => vstd::pervasive::unreached(),
        }
    }

    /// The player and the attack of the current state, to change them. The
    /// fighter stays well formed if the row is left with a running timer and
    /// a clip that can be played from where its cursor is.
    pub fn get_current_animation_mut(&mut self) -> (entry: &mut (AnimationManager, Option<Attack>))
        requires
            old(self).wf(),
        ensures
            entry_view(*entry) == old(self)@.animations[old(self)@.state],
            entry.0.wf(),
            final(self)@ == (PlayerAnimationView {
                animations: old(self)@.animations.insert(
                    old(self)@.state,
                    entry_view(*final(entry)),
                ),
                ..old(self)@
            }),
            final(entry).0.wf() && final(entry).0@.wf() ==> final(self).wf(),
    {
        let slot = self.state.slot();
        let ghost before = *self;
        let ghost after = *final(self);
        match &mut self.animations[slot] {
            Some(entry) => {
                proof {
                    Self::lemma_row_replaced(before, after, before.state, *final(entry));
                }
                entry
            },
            None => vstd::pervasive::unreached(),
        }
    }

    /// Asks for `state`, with no cancel window. Returns whether the request
    /// was accepted; a request that is not accepted changes nothing.
    pub fn request_animation(&mut self, state: AnimationState) -> (accepted: bool)
        requires
            old(self).wf(),
            old(self)@.has(state) || old(self)@.state.is_attack(),
        ensures
            accepted == old(self)@.accepts(state, 0),
            final(self)@ == old(self)@.requested(state, 0),
            final(self).wf(),
    {
        self.request_animation_within(state, 0)
    }

    /// Asks for `state`. While an attack plays, only another attack is
    /// accepted, only into an empty buffer and only during the recovery
    /// phase, which `window` moves later by that many frames; the accepted
    /// attack is buffered. Any other state gives way to the requested one at
    /// once, which then plays from its first frame; asking for the state that
    /// is playing already leaves its clip running.
    pub fn request_animation_within(&mut self, state: AnimationState, window: u8) -> (accepted:
        bool)
        requires
            old(self).wf(),
            old(self)@.has(state) || old(self)@.state.is_attack(),
        ensures
            accepted == old(self)@.accepts(state, window as int),
            final(self)@ == old(self)@.requested(state, window as int),
            final(self).wf(),
    {
        if self.state.is_attack() {
            if self.next_state.is_none() && state.is_attack() {
                let in_recovery = self.get_current_animation().0.phase(window) == Phase::Recovery;
                if in_recovery {
                    self.next_state = Some(state);
                    proof {
                        Self::lemma_buffer_replaced(*old(self), *self);
                    }
                    return true;
                }
            }
            false
        } else {
            if state != self.state {
                self.start(state);
            }
            true
        }
    }

    /// Ends the current clip: the buffered attack, or else the rest state,
    /// becomes the current state and plays from its first frame, and the
    /// buffer is empty afterwards.
    pub fn shift(&mut self)
        requires
            old(self).wf(),
        ensures
            final(self)@ == old(self)@.shifted(),
            final(self).wf(),
    {
        self.next_state();
        self.reset();
    }

    /// Makes the buffered attack, or else the rest state, the current state
    /// and empties the buffer. The clips are left as they are.
    pub fn next_state(&mut self)
        requires
            old(self).wf(),
        ensures
            final(self)@ == (PlayerAnimationView {
                state: old(self)@.successor(),
                next_state: None,
                ..old(self)@
            }),
            final(self).wf(),
    {
        let target = match self.next_state {
            Some(next) => next,
            None => AnimationState::default(),
        };
        self.next_state = None;
        proof {
            Self::lemma_buffer_replaced(*old(self), *self);
        }
        let ghost emptied = *self;
        self.state = target;
        proof {
            // The table is untouched, so every state has the clip it had.
            assert forall|state: AnimationState| #[trigger]
                self@.has(state) implies self@.animations[state].0.wf() by {
                assert(emptied@.has(state));
            }
            assert forall|state: AnimationState| required_state(state) implies #[trigger]
                self@.has(state) by {
                assert(emptied@.has(state));
            }
        }
    }

    /// Plays the current clip from its first frame again.
    pub fn reset(&mut self)
        requires
            old(self).wf(),
        ensures
            final(self)@ == old(self)@.with_current(
                old(self)@.current().restarted(old(self)@.frame_time()),
            ),
            final(self).wf(),
    {
        let entry = self.get_current_animation_mut();
        entry.0.reset(MAX_FRAME_RATE);
    }

    /// Makes `state` the current state and plays its clip from the first
    /// frame.
    fn start(&mut self, state: AnimationState)
        requires
            old(self).wf(),
            old(self)@.has(state),
            old(self).next_state.is_none(),
        ensures
            final(self)@ == old(self)@.started(state),
            final(self).wf(),
    {
        let ghost before = *self;
        self.state = state;
        let slot = state.slot();
        match &mut self.animations[slot] {
            Some(entry) => {
                entry.0.reset(MAX_FRAME_RATE);
                entry.0.start_timer(MAX_FRAME_RATE);
            },
            None => {},
        }
        proof {
            let row = self.animations[slot as int].unwrap();
            Self::lemma_row_replaced(before, *self, state, row);
        }
    }

    /// Changing the buffer alone shows in the view as that change, and keeps
    /// a well-formed fighter well formed when the buffer is emptied or
    /// filled, during an attack, with a state that has a clip.
    proof fn lemma_buffer_replaced(before: Self, after: Self)
        requires
            before.wf(),
            after.state == before.state,
            after.animations == before.animations,
            after.next_state matches Some(next) ==> before.state.is_attack() && before@.has(next),
        ensures
            after@ == (PlayerAnimationView { next_state: after.next_state, ..before@ }),
            after.wf(),
    {
        assert forall|state: AnimationState| #[trigger]
            after@.has(state) implies after@.animations[state].0.wf() by {
            assert(before@.has(state));
        }
        assert forall|state: AnimationState| required_state(state) implies #[trigger]
            after@.has(state) by {
            assert(before@.has(state));
        }
    }

    /// Replacing the row of a state and making that state current shows in
    /// the view as an insertion at that state, and keeps a well-formed
    /// fighter well formed when the new row is.
    proof fn lemma_row_replaced(
        before: Self,
        after: Self,
        state: AnimationState,
        row: (AnimationManager, Option<Attack>),
    )
        requires
            before.wf(),
            before@.has(state),
            after.state == state,
            after.next_state == before.next_state,
            after.animations@ == before.animations@.update(state.slot_spec() as int, Some(row)),
        ensures
            after@ == (PlayerAnimationView {
                state,
                animations: before@.animations.insert(state, entry_view(row)),
                ..before@
            }),
            row.0.wf() && row.0@.wf() && (before.next_state.is_some() ==> state.is_attack())
                ==> after.wf(),
    {
        let expected = before@.animations.insert(state, entry_view(row));
        assert forall|other: AnimationState|
            after@.animations.dom().contains(other) == expected.dom().contains(other) by {
            crate::moves::lemma_slot_roundtrip(other, 0);
        }
        assert forall|other: AnimationState| #[trigger]
            after@.animations.dom().contains(other) implies after@.animations[other]
            == expected[other] by {
            crate::moves::lemma_slot_roundtrip(other, 0);
            if other.slot_spec() == state.slot_spec() {
                crate::moves::lemma_slot_roundtrip(state, 0);
            }
        }
        assert(after@.animations =~= expected);
        if row.0.wf() && row.0@.wf() && (before.next_state.is_some() ==> state.is_attack()) {
            assert forall|other: AnimationState| #[trigger]
                after@.has(other) implies after@.animations[other].0.wf() by {
                if other != state {
                    assert(before@.has(other));
                }
            }
            assert forall|other: AnimationState| required_state(other) implies #[trigger]
                after@.has(other) by {
                assert(before@.has(other));
            }
        }
    }
}

/// When an attack ends with nothing buffered, the fighter comes to rest.
pub proof fn lemma_shift_without_buffer_rests(player: PlayerAnimationView)
    requires
        player.next_state.is_none(),
    ensures
        player.shifted().state == AnimationState::Idle,
        player.shifted().next_state.is_none(),
        player.shifted().current().index == 0,
{
}

/// When an attack ends with another buffered, the buffered attack becomes
/// the current state and the buffer is left empty.
pub proof fn lemma_shift_plays_buffered(player: PlayerAnimationView, next: AnimationState)
    requires
        player.next_state == Some(next),
    ensures
        player.shifted().state == next,
        player.shifted().next_state.is_none(),
        player.shifted().current().index == 0,
{
}

/// Asking again for the state that is playing never rewinds its clip: the
/// state, the cursor and the frame timer stay as they are. Outside an attack
/// the request is accepted and changes nothing at all.
pub proof fn lemma_repeated_request_keeps_cursor(player: PlayerAnimationView, window: int)
    ensures
        player.requested(player.state, window).state == player.state,
        player.requested(player.state, window).current() == player.current(),
        !player.state.is_attack() ==> player.accepts(player.state, window) && player.requested(
            player.state,
            window,
        ) == player,
{
}

/// Every clip of a well-formed fighter has a frame to show, and the cursor
/// of its player points at one.
pub proof fn lemma_clips_have_frames(player: PlayerAnimationView, state: AnimationState)
    requires
        player.wf(),
        player.has(state),
    ensures
        player.animations[state].0.animation.indexes.len() > 0,
        player.animations[state].0.sprite().is_some(),
{
}

/// While an attack is in its startup or active phase, or outside every
/// phase, every request is refused and changes nothing.
pub proof fn lemma_attack_locks_until_recovery(
    player: PlayerAnimationView,
    state: AnimationState,
    window: int,
)
    requires
        player.state.is_attack(),
        player.current().phase(window) != Phase::Recovery,
    ensures
        !player.accepts(state, window),
        player.requested(state, window) == player,
{
}

/// While an attack plays, a request for a state that is not an attack is
/// refused in every phase and changes nothing.
pub proof fn lemma_attack_refuses_movement(
    player: PlayerAnimationView,
    state: AnimationState,
    window: int,
)
    requires
        player.state.is_attack(),
        !state.is_attack(),
    ensures
        !player.accepts(state, window),
        player.requested(state, window) == player,
{
}

/// During recovery an attack buffers the first attack that is asked for and
/// refuses every request after it.
pub proof fn lemma_buffer_holds_one(
    player: PlayerAnimationView,
    first: AnimationState,
    second: AnimationState,
    window: int,
)
    requires
        player.state.is_attack(),
        player.next_state.is_none(),
        player.current().phase(window) == Phase::Recovery,
        first.is_attack(),
    ensures
        player.accepts(first, window),
        player.requested(first, window).next_state == Some(first),
        player.requested(first, window).state == player.state,
        !player.requested(first, window).accepts(second, window),
        player.requested(first, window).requested(second, window) == player.requested(
            first,
            window,
        ),
{
}

} // verus!
