//! What runs once per tick for every fighter: the frame clock that plays the
//! clips and ends the moves.
use crate::combatant::Combatant;
use crate::combatant::CombatantView;
use crate::moves::AnimationState;
use crate::moves::MAX_FRAME_RATE;
use crate::player::PlayerAnimationManagement;
use crate::timer::duration_nanos;
use std::time::Duration;
use vstd::prelude::*;

verus! {

/// Advances a fighter by one tick of length `delta`. The time is counted on
/// the frame that is showing. On the tick that ends the frame's time, the
/// clip moves to its next frame, or, from its last frame, the fighter shifts
/// to the buffered attack or else to rest; `atlas_index` then receives the
/// sprite to show, and is left alone on every other tick.
pub fn execute_animations(
    player: &mut PlayerAnimationManagement,
    atlas_index: &mut usize,
    delta: Duration,
)
    requires
        old(player).wf(),
    ensures
        final(player)@ == old(player)@.ticked(duration_nanos(delta)),
        final(player).wf(),
        *final(atlas_index) == if old(player)@.frame_ends(duration_nanos(delta)) {
            final(player)@.current().sprite().unwrap() as usize
        } else {
            *old(atlas_index)
        },
        old(player)@.frame_ends(duration_nanos(delta)) ==> final(player)@.current().sprite().is_some(),
{
    let ghost start = player@;
    let ghost nanos = duration_nanos(delta);
    {
        let entry = player.get_current_animation_mut();
        entry.0.tick(delta);
    }
    let (just_finished, last_frame) = {
        let entry = player.get_current_animation();
        (entry.0.is_just_finished(), entry.0.is_last_frame())
    };
    if just_finished {
        if last_frame {
            player.reset();
            proof {
                let rewound = start.with_current(
                    start.counted(nanos).restarted(start.frame_time()),
                );
                assert(player@.animations =~= rewound.animations);
            }
            player.shift();
            let entry = player.get_current_animation();
            if let Some(sprite) = entry.0.current_sprite_index() {
                *atlas_index = sprite as usize;
            }
        } else {
            let entry = player.get_current_animation_mut();
            entry.0.next_frame(MAX_FRAME_RATE);
            if let Some(sprite) = entry.0.current_sprite_index() {
                *atlas_index = sprite as usize;
            }
            entry.0.start_timer(MAX_FRAME_RATE);
            proof {
                let moved = start.with_current(start.counted(nanos).advanced(start.frame_time()));
                assert(player@.animations =~= moved.animations);
            }
        }
    }
}

/// The keys a fighter answers to, as they are at the start of a tick. The
/// two attack keys count only on the tick on which they go down.
#[derive(Clone, Copy, Debug, PartialEq, Eq, Structural)]
pub struct PressedKeys {
    pub jump: bool,
    pub backward: bool,
    pub forward: bool,
    pub crouch: bool,
    pub block: bool,
    pub light_attack: bool,
    pub heavy_attack: bool,
}

/// What a fighter's body is to do in a tick.
#[derive(Clone, Copy, Debug, PartialEq, Eq, Structural)]
pub struct Steering {
    /// Whether the fighter leaves the ground.
    pub jump: bool,
    /// Horizontal movement: `-1` backward, `1` forward, `0` none.
    pub direction: i8,
    pub blocking: bool,
}

/// The fighter after a request for `state` that is made only if `asked`.
pub open spec fn asked_for(fighter: CombatantView, asked: bool, state: AnimationState)
    -> CombatantView {
    if asked {
        fighter.requested(state)
    } else {
        fighter
    }
}

/// The fighter after the keys have been turned into requests. The requests
/// are made in the order jump (only from the ground), backward, forward
/// (only if backward was not pressed or was refused), crouch, block, light
/// attack, heavy attack.
pub open spec fn keys_applied(fighter: CombatantView, keys: PressedKeys, grounded: bool)
    -> CombatantView {
    let jumped = asked_for(fighter, keys.jump && grounded, AnimationState::Jump);
    let backed = asked_for(jumped, keys.backward, AnimationState::Backward);
    let turned = asked_for(
        backed,
        keys.forward && !(keys.backward && jumped.accepts(AnimationState::Backward)),
        AnimationState::Forward,
    );
    let crouched = asked_for(turned, keys.crouch, AnimationState::Crouch);
    let blocked = asked_for(crouched, keys.block, AnimationState::Block);
    let light = asked_for(blocked, keys.light_attack, AnimationState::LightAttack);
    asked_for(light, keys.heavy_attack, AnimationState::HeavyAttack)
}

/// What the fighter's body is to do: it jumps, moves or blocks only where
/// the request for that state was accepted.
pub open spec fn keys_steering(fighter: CombatantView, keys: PressedKeys, grounded: bool)
    -> Steering {
    let jumped = asked_for(fighter, keys.jump && grounded, AnimationState::Jump);
    let backward = keys.backward && jumped.accepts(AnimationState::Backward);
    let backed = asked_for(jumped, keys.backward, AnimationState::Backward);
    let forward = !backward && keys.forward && backed.accepts(AnimationState::Forward);
    let turned = asked_for(backed, keys.forward && !backward, AnimationState::Forward);
    let crouched = asked_for(turned, keys.crouch, AnimationState::Crouch);
    Steering {
        jump: keys.jump && grounded && fighter.accepts(AnimationState::Jump),
        direction: if backward {
            (-1i8)
        } else if forward {
            1i8
        } else {
            0i8
        },
        blocking: keys.block && crouched.accepts(AnimationState::Block),
    }
}

/// Turns the keys of a tick into requests and says what the fighter's body
/// is to do. A stunned fighter is passed over: nothing is asked of it and
/// nothing is returned. Unless an attack locks the fighter, it must have a
/// clip for each state whose key is pressed.
pub fn keyboard_input_system(fighter: &mut Combatant, keys: PressedKeys, grounded: bool) -> (steering:
    Option<Steering>)
    requires
        old(fighter).wf(),
        old(fighter)@.hit_stun.is_none() && !old(fighter)@.animation.state.is_attack() ==> {
            &&& keys.jump && grounded ==> old(fighter)@.animation.has(AnimationState::Jump)
            &&& keys.crouch ==> old(fighter)@.animation.has(AnimationState::Crouch)
            &&& keys.block ==> old(fighter)@.animation.has(AnimationState::Block)
        },
    ensures
        final(fighter).wf(),
        old(fighter)@.hit_stun.is_some() ==> steering.is_none() && *final(fighter) == *old(
            fighter,
        ),
        old(fighter)@.hit_stun.is_none() ==> steering == Some(
            keys_steering(old(fighter)@, keys, grounded),
        ) && final(fighter)@ == keys_applied(old(fighter)@, keys, grounded),
{
    if fighter.hit_stun.is_some() {
        return None;
    }
    let mut jump = false;
    if keys.jump && grounded {
        jump = fighter.request(AnimationState::Jump);
    }
    let mut direction: i8 = 0;
    if keys.backward && fighter.request(AnimationState::Backward) {
        direction = -1;
    } else if keys.forward && fighter.request(AnimationState::Forward) {
        direction = 1;
    }
    if keys.crouch {
        fighter.request(AnimationState::Crouch);
    }
    let blocking = keys.block && fighter.request(AnimationState::Block);
    if keys.light_attack {
        fighter.request(AnimationState::LightAttack);
    }
    if keys.heavy_attack {
        fighter.request(AnimationState::HeavyAttack);
    }
    Some(Steering { jump, direction, blocking })
}

/// What a gamepad asks of a fighter in a tick: the side to which the left
/// stick leans (`-1` backward, `1` forward, `0` neither) and the attack
/// buttons. The light attack counts only on the tick on which its button
/// goes down.
#[derive(Clone, Copy, Debug, PartialEq, Eq, Structural)]
pub struct PadInput {
    pub stick: i8,
    pub light_attack: bool,
    pub heavy_attack: bool,
}

/// The fighter after the gamepad has been turned into requests: first the
/// stick, then the light attack, then the heavy attack.
pub open spec fn pad_applied(fighter: CombatantView, pad: PadInput) -> CombatantView {
    let walked = asked_for(
        asked_for(fighter, pad.stick > 0, AnimationState::Forward),
        pad.stick < 0,
        AnimationState::Backward,
    );
    let light = asked_for(walked, pad.light_attack, AnimationState::LightAttack);
    asked_for(light, pad.heavy_attack, AnimationState::HeavyAttack)
}

/// The side to which the fighter walks: the side of the stick, if the
/// request for that side was accepted.
pub open spec fn pad_direction(fighter: CombatantView, pad: PadInput) -> i8 {
    if pad.stick > 0 && fighter.accepts(AnimationState::Forward) {
        1i8
    } else if pad.stick < 0 && fighter.accepts(AnimationState::Backward) {
        (-1i8)
    } else {
        0i8
    }
}

/// Turns the gamepad of a tick into requests and returns the side to which
/// the fighter walks. A stunned fighter is passed over: nothing is asked of
/// it and nothing is returned.
pub fn gamepad_input(fighter: &mut Combatant, pad: PadInput) -> (direction: Option<i8>)
    requires
        old(fighter).wf(),
    ensures
        final(fighter).wf(),
        old(fighter)@.hit_stun.is_some() ==> direction.is_none() && *final(fighter) == *old(
            fighter,
        ),
        old(fighter)@.hit_stun.is_none() ==> direction == Some(pad_direction(old(fighter)@, pad))
            && final(fighter)@ == pad_applied(old(fighter)@, pad),
{
    if fighter.hit_stun.is_some() {
        return None;
    }
    let mut direction: i8 = 0;
    if pad.stick > 0 {
        if fighter.request(AnimationState::Forward) {
            direction = 1;
        }
    } else if pad.stick < 0 {
        if fighter.request(AnimationState::Backward) {
            direction = -1;
        }
    }
    if pad.light_attack {
        fighter.request(AnimationState::LightAttack);
    }
    if pad.heavy_attack {
        fighter.request(AnimationState::HeavyAttack);
    }
    Some(direction)
}

} // verus!
