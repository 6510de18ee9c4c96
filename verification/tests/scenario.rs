use fighter_core::animation::AnimationManager;
use fighter_core::moves::Animation;
use fighter_core::moves::AnimationOptions;
use fighter_core::moves::AnimationState;
use fighter_core::moves::Attack;
use fighter_core::moves::Hitbox;
use fighter_core::player::PlayerAnimationManagement;
use fighter_core::systems::execute_animations;
use std::time::Duration;

fn clip(indexes: Vec<u8>, fps: u8, window: Option<(u8, u8, u8)>) -> Animation {
    Animation {
        indexes,
        fps,
        options: window.map(|(startup_frames, active_frames, recovery_frames)| AnimationOptions {
            startup_frames,
            active_frames,
            recovery_frames,
        }),
    }
}

fn attack(indexes: Vec<u8>, fps: u8, window: (u8, u8, u8), damage: u32) -> Attack {
    Attack {
        damage,
        hit_stun_frames: 12,
        animation: clip(indexes, fps, Some(window)),
        hitbox: Hitbox { x: 10, y: 0, length: 8, height: 8 },
    }
}

fn fighter() -> PlayerAnimationManagement {
    let light = attack(vec![4, 5, 6, 7], 6, (1, 1, 1), 10);
    let heavy = attack(vec![8, 9, 10, 11, 12], 6, (2, 1, 1), 30);
    let rows = vec![
        (AnimationState::Idle, (AnimationManager::new(clip(vec![0, 1], 6, None)), None)),
        (AnimationState::Forward, (AnimationManager::new(clip(vec![2, 3], 6, None)), None)),
        (AnimationState::Backward, (AnimationManager::new(clip(vec![2, 3], 6, None)), None)),
        (
            AnimationState::LightAttack,
            (AnimationManager::new(light.animation.clone()), Some(light)),
        ),
        (
            AnimationState::HeavyAttack,
            (AnimationManager::new(heavy.animation.clone()), Some(heavy)),
        ),
    ];
    PlayerAnimationManagement::new(rows).unwrap()
}

/// One tick of a clock that runs at sixty ticks a second.
fn tick() -> Duration {
    Duration::from_nanos(16_666_667)
}

#[test]
fn light_attack_plays_through_and_returns_to_rest() {
    let mut player = fighter();
    let mut sprite: usize = 0;
    assert!(player.request_animation(AnimationState::LightAttack));
    assert_eq!(player.state(), AnimationState::LightAttack);
    assert_eq!(player.get_current_animation().0.current_frame_index(), 0);
    // A frame authored at 6 fps is shown for 6/60 s: six ticks at 60 Hz.
    for _ in 0..5 {
        execute_animations(&mut player, &mut sprite, tick());
        assert_eq!(player.get_current_animation().0.current_frame_index(), 0);
    }
    execute_animations(&mut player, &mut sprite, tick());
    assert_eq!(player.get_current_animation().0.current_frame_index(), 1);
    assert_eq!(sprite, 5);
    for _ in 0..6 {
        execute_animations(&mut player, &mut sprite, tick());
    }
    assert_eq!(player.get_current_animation().0.current_frame_index(), 2);
    assert!(player.get_current_animation().0.is_within_active());
    for _ in 0..6 {
        execute_animations(&mut player, &mut sprite, tick());
    }
    assert_eq!(player.get_current_animation().0.current_frame_index(), 3);
    assert!(player.get_current_animation().0.is_within_recovery());
    assert!(player.get_current_animation().0.is_last_frame());
    assert_eq!(player.state(), AnimationState::LightAttack);
    for _ in 0..5 {
        execute_animations(&mut player, &mut sprite, tick());
        assert_eq!(player.state(), AnimationState::LightAttack);
    }
    execute_animations(&mut player, &mut sprite, tick());
    assert_eq!(player.state(), AnimationState::Idle);
    assert_eq!(player.buffered_state(), None);
    assert_eq!(player.get_current_animation().0.current_frame_index(), 0);
    assert_eq!(sprite, 0);
}
