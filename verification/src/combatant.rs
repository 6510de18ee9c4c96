//! A fighter in a match: where it stands, what it plays, and what hits have
//! done to it.
use crate::moves::AnimationState;
use crate::moves::AttackView;
use crate::moves::Phase;
use crate::moves::MAX_FRAME_RATE;
use crate::timer::frame_nanos;
use crate::moves::Hitbox;
use crate::moves::Hurtbox;
use crate::player::PlayerAnimationManagement;
use crate::player::PlayerAnimationView;
use crate::timer::TimerView;
use crate::vitals::Health;
use crate::vitals::HitStun;
use vstd::prelude::*;

verus! {

/// An axis-aligned box, by its lowest and highest corner. The edges belong
/// to the box.
#[derive(Clone, Copy, Debug, PartialEq, Eq, Structural)]
pub struct Aabb {
    pub min_x: i64,
    pub min_y: i64,
    pub max_x: i64,
    pub max_y: i64,
}

impl Aabb {
    /// The box around `(x, y)` that reaches `length` to the left and to the
    /// right and `height` up and down.
    pub open spec fn around(x: int, y: int, length: int, height: int) -> Aabb {
        Aabb {
            min_x: (x - length) as i64,
            min_y: (y - height) as i64,
            max_x: (x + length) as i64,
            max_y: (y + height) as i64,
        }
    }

    /// The two boxes share a point.
    pub open spec fn intersects_spec(self, other: Aabb) -> bool {
        &&& self.min_x <= other.max_x
        &&& self.max_x >= other.min_x
        &&& self.min_y <= other.max_y
        &&& self.max_y >= other.min_y
    }

    /// The box around `(x, y)` that reaches `length` to the left and to the
    /// right and `height` up and down.
    pub fn new(x: i64, y: i64, length: u32, height: u32) -> (b: Aabb)
        requires
            i64::MIN <= x - length,
            x + length <= i64::MAX,
            i64::MIN <= y - height,
            y + height <= i64::MAX,
        ensures
            b == Aabb::around(x as int, y as int, length as int, height as int),
            b.min_x == x - length,
            b.max_x == x + length,
            b.min_y == y - height,
            b.max_y == y + height,
    {
        Aabb {
            min_x: x - length as i64,
            min_y: y - height as i64,
            max_x: x + length as i64,
            max_y: y + height as i64,
        }
    }

    /// Whether the two boxes share a point.
    #[verifier::when_used_as_spec(intersects_spec)]
    pub fn intersects(self, other: Aabb) -> (b: bool)
        ensures
            b == self.intersects_spec(other),
    {
        self.min_x <= other.max_x && self.max_x >= other.min_x && self.min_y <= other.max_y
            && self.max_y >= other.min_y
    }
}

/// A fighter in a match.
#[derive(Debug)]
pub struct Combatant {
    /// Tells the fighter from every other.
    pub id: u64,
    /// Where the fighter stands.
    pub x: i32,
    pub y: i32,
    pub animation: PlayerAnimationManagement,
    pub health: Health,
    pub hurtbox: Hurtbox,
    /// Present exactly while an attack of the fighter is in its active phase.
    pub hitbox: Option<Hitbox>,
    /// Present from the moment the fighter is hit until the stun runs out.
    pub hit_stun: Option<HitStun>,
    /// The fighters that the present hitbox has hit already.
    pub struck: Vec<u64>,
}

/// What a [`Combatant`] holds, as plain values.
pub struct CombatantView {
    pub id: u64,
    pub x: i32,
    pub y: i32,
    pub animation: PlayerAnimationView,
    pub health: u32,
    pub hurtbox: Hurtbox,
    pub hitbox: Option<Hitbox>,
    pub hit_stun: Option<TimerView>,
    pub struck: Seq<u64>,
}

impl View for Combatant {
    type V = CombatantView;

    open spec fn view(&self) -> CombatantView {
        CombatantView {
            id: self.id,
            x: self.x,
            y: self.y,
            animation: self.animation@,
            health: self.health@,
            hurtbox: self.hurtbox,
            hitbox: self.hitbox,
            hit_stun: match self.hit_stun {
                Some(stun) => Some(stun@),
                None => None,
            },
            struck: self.struck@,
        }
    }
}

impl CombatantView {
    /// The region in which the fighter's attack lands, while it has one.
    pub open spec fn hit_region(self) -> Option<Aabb> {
        match self.hitbox {
            Some(hitbox) => Some(
                Aabb::around(
                    self.x + hitbox.x,
                    self.y + hitbox.y,
                    hitbox.length as int,
                    hitbox.height as int,
                ),
            ),
            None => None,
        }
    }

    /// The region in which the fighter can be hit.
    pub open spec fn hurt_region(self) -> Aabb {
        Aabb::around(
            self.x + self.hurtbox.x,
            self.y + self.hurtbox.y,
            self.hurtbox.length as int,
            self.hurtbox.height as int,
        )
    }

    /// The fighter's hitbox lands on `victim`: the fighter has a hitbox, the
    /// victim is another fighter whom this hitbox has not hit yet, and the
    /// hitbox meets the victim's hurtbox.
    pub open spec fn strikes(self, victim: CombatantView) -> bool {
        &&& self.hitbox.is_some()
        &&& self.id != victim.id
        &&& !self.struck.contains(victim.id)
        &&& self.hit_region().unwrap().intersects_spec(victim.hurt_region())
    }

    /// The attack the fighter is performing, if its current state is one it
    /// has attack data for.
    pub open spec fn current_attack(self) -> Option<AttackView> {
        self.animation.current_attack()
    }

    /// The current clip is in its active phase and belongs to an attack.
    pub open spec fn attacking(self) -> bool {
        self.animation.current().phase(0) == Phase::Active && self.current_attack().is_some()
    }

    /// The fighter with its hitbox brought in line with its clip: while an
    /// attack is active the fighter has that attack's hitbox; otherwise it
    /// has none, and the record of whom the hitbox has hit is dropped with it.
    pub open spec fn hitbox_managed(self) -> CombatantView {
        if self.attacking() {
            CombatantView { hitbox: Some(self.current_attack().unwrap().hitbox), ..self }
        } else {
            CombatantView { hitbox: None, struck: Seq::empty(), ..self }
        }
    }

    /// The fighter after it has hit the fighter `victim`.
    pub open spec fn having_struck(self, victim: u64) -> CombatantView {
        CombatantView { struck: self.struck.push(victim), ..self }
    }

    /// The fighter after a hit by `attack`: the damage is taken off its
    /// health, which stops at zero; its own hitbox is gone; and it is stunned
    /// for as long as the attack says.
    pub open spec fn hit_by(self, attack: AttackView) -> CombatantView {
        CombatantView {
            health: if self.health >= attack.damage {
                (self.health - attack.damage) as u32
            } else {
                0
            },
            hitbox: None,
            hit_stun: Some(TimerView::fresh(frame_nanos(attack.hit_stun_frames, MAX_FRAME_RATE))),
            ..self
        }
    }

    /// The fighter after `delta` more nanoseconds of stun: the stun goes on
    /// the tick that brings its timer to the end.
    pub open spec fn stun_ticked(self, delta: nat) -> CombatantView {
        match self.hit_stun {
            Some(stun) => if stun.tick(delta).finished {
                CombatantView { hit_stun: None, ..self }
            } else {
                CombatantView { hit_stun: Some(stun.tick(delta)), ..self }
            },
            None => self,
        }
    }

    /// Whether a request for `state` is accepted: never while the fighter is
    /// stunned, and by the rules of the move state machine otherwise.
    pub open spec fn accepts(self, state: AnimationState) -> bool {
        self.hit_stun.is_none() && self.animation.accepts(state, 0)
    }

    /// The fighter after a request for `state`.
    pub open spec fn requested(self, state: AnimationState) -> CombatantView {
        if self.hit_stun.is_some() {
            self
        } else {
            CombatantView { animation: self.animation.requested(state, 0), ..self }
        }
    }
}

impl Combatant {
    /// The move state machine is well formed and the stun, if there is one,
    /// has a running timer.
    pub open spec fn wf(&self) -> bool {
        &&& self.animation.wf()
        &&& self.hit_stun matches Some(stun) ==> stun.wf()
    }

    /// A fighter at `(x, y)` with full health, no hitbox and no stun.
    pub fn new(
        id: u64,
        x: i32,
        y: i32,
        animation: PlayerAnimationManagement,
        health: u32,
        hurtbox: Hurtbox,
    ) -> (c: Self)
        ensures
            c@ == (CombatantView {
                id,
                x,
                y,
                animation: animation@,
                health,
                hurtbox,
                hitbox: None,
                hit_stun: None,
                struck: Seq::empty(),
            }),
            animation.wf() ==> c.wf(),
    {
        Self {
            id,
            x,
            y,
            animation,
            health: Health::new(health),
            hurtbox,
            hitbox: None,
            hit_stun: None,
            struck: Vec::new(),
        }
    }

    /// The region in which the fighter's attack lands, while it has one.
    pub fn hit_region(&self) -> (region: Option<Aabb>)
        ensures
            region == self@.hit_region(),
    {
        match self.hitbox {
            Some(hitbox) => Some(
                Aabb::new(
                    self.x as i64 + hitbox.x as i64,
                    self.y as i64 + hitbox.y as i64,
                    hitbox.length,
                    hitbox.height,
                ),
            ),
            None => None,
        }
    }

    /// The region in which the fighter can be hit.
    pub fn hurt_region(&self) -> (region: Aabb)
        ensures
            region == self@.hurt_region(),
    {
        Aabb::new(
            self.x as i64 + self.hurtbox.x as i64,
            self.y as i64 + self.hurtbox.y as i64,
            self.hurtbox.length,
            self.hurtbox.height,
        )
    }

    /// Whether the present hitbox has hit the fighter `id` already.
    pub fn has_struck(&self, id: u64) -> (b: bool)
        ensures
            b == self@.struck.contains(id),
    {
        let mut i: usize = 0;
        while i < self.struck.len()
            invariant
                i <= self.struck.len(),
                forall|j: int| 0 <= j < i ==> self.struck[j] != id,
            decreases self.struck.len() - i,
        {
            if self.struck[i] == id {
                return true;
            }
            i += 1;
        }
        false
    }

    /// Asks for `state`. A stunned fighter refuses every request; any other
    /// fighter answers as its move state machine does. A request that is not
    /// accepted changes nothing.
    pub fn request(&mut self, state: AnimationState) -> (accepted: bool)
        requires
            old(self).wf(),
            old(self)@.hit_stun.is_some() || old(self)@.animation.has(state)
                || old(self)@.animation.state.is_attack(),
        ensures
            accepted == old(self)@.accepts(state),
            final(self)@ == old(self)@.requested(state),
            final(self).wf(),
            old(self)@.hit_stun.is_some() ==> *final(self) == *old(self),
    {
        if self.hit_stun.is_some() {
            return false;
        }
        self.animation.request_animation(state)
    }
}

/// A fighter has a hitbox after hitbox management exactly if its current
/// clip is in the active phase and belongs to an attack; the hitbox is then
/// that attack's.
pub proof fn lemma_hitbox_iff_active(fighter: CombatantView)
    ensures
        fighter.hitbox_managed().hitbox.is_some() <==> fighter.attacking(),
        fighter.attacking() ==> fighter.hitbox_managed().hitbox == Some(
            fighter.current_attack().unwrap().hitbox,
        ),
{
}

/// A hitbox lands on a victim once. After the hit is noted, the attacker no
/// longer strikes the victim, wherever the two stand; and hitbox management
/// keeps the note for as long as the attack stays active.
pub proof fn lemma_struck_victim_is_spared(
    attacker: CombatantView,
    victim: CombatantView,
    later_victim: CombatantView,
)
    requires
        later_victim.id == victim.id,
    ensures
        !attacker.having_struck(victim.id).strikes(later_victim),
        attacker.struck.contains(victim.id) ==> !attacker.strikes(later_victim),
        attacker.struck.contains(victim.id) && attacker.attacking()
            ==> attacker.hitbox_managed().struck.contains(victim.id)
            && !attacker.hitbox_managed().strikes(later_victim),
{
    let noted = attacker.having_struck(victim.id);
    assert(noted.struck[attacker.struck.len() as int] == victim.id);
}

/// A stunned fighter refuses every request and is left unchanged by it.
/// The stun lasts until the tick that brings its timer to the end; from
/// then on the fighter answers requests as its move state machine does.
pub proof fn lemma_stun_blocks_requests(fighter: CombatantView, state: AnimationState, delta: nat)
    requires
        fighter.hit_stun.is_some(),
    ensures
        !fighter.accepts(state),
        fighter.requested(state) == fighter,
        !fighter.hit_stun.unwrap().tick(delta).finished ==> !fighter.stun_ticked(delta).accepts(
            state,
        ),
        fighter.hit_stun.unwrap().tick(delta).finished ==> {
            &&& fighter.stun_ticked(delta).hit_stun.is_none()
            &&& fighter.stun_ticked(delta).accepts(state) == fighter.animation.accepts(state, 0)
            &&& fighter.stun_ticked(delta).requested(state).animation
                == fighter.animation.requested(state, 0)
        },
{
}

/// A hit never leaves its victim with more health than before, and takes
/// exactly the attack's damage off wherever that much health is left.
pub proof fn lemma_damage_saturates(fighter: CombatantView, attack: AttackView)
    ensures
        fighter.hit_by(attack).health <= fighter.health,
        fighter.health >= attack.damage ==> fighter.hit_by(attack).health == fighter.health
            - attack.damage,
        fighter.health < attack.damage ==> fighter.hit_by(attack).health == 0,
{
}

} // verus!
