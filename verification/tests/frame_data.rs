use fighter_core::frame_data::AnimationConfig;
use fighter_core::frame_data::AnimationData;
use fighter_core::frame_data::AnimationDataTimer;
use fighter_core::frame_data::AnimationLink;
use fighter_core::frame_data::FrameData;
use fighter_core::frame_data::IndexOutOfRange;
use fighter_core::moves::Animation;
use fighter_core::moves::Attack;
use fighter_core::moves::Hitbox;

fn config(startup_frames: u8, active_frames: u8, recovery_frames: u8) -> AnimationConfig {
    AnimationConfig { startup_frames, active_frames, recovery_frames }
}

fn held_clip() -> AnimationData {
    AnimationData::new(
        vec![FrameData::new(4, 2), FrameData::new(5, 3), FrameData::new(6, 1), FrameData::new(5, 9)],
        config(2, 3, 4),
    )
}

fn attack(damage: u32) -> Attack {
    Attack {
        damage,
        hit_stun_frames: 12,
        animation: Animation { indexes: vec![1, 2], fps: 6, options: None },
        hitbox: Hitbox { x: 1, y: 2, length: 3, height: 4 },
    }
}

#[test]
fn the_default_window_is_empty() {
    assert_eq!(AnimationConfig::default(), config(0, 0, 0));
}

#[test]
fn held_frames_lie_in_the_window_they_count_to() {
    let c = config(2, 3, 4);
    assert!(c.is_within_startup(0, 0));
    assert!(c.is_within_startup(1, 0));
    assert!(!c.is_within_startup(2, 0));
    assert!(c.is_within_startup(2, 1));
    assert!(!c.is_within_active(2));
    assert!(c.is_within_active(3));
    assert!(c.is_within_active(5));
    assert!(!c.is_within_active(6));
    assert!(!c.is_within_recovery(5, 0));
    assert!(c.is_within_recovery(6, 0));
    assert!(c.is_within_recovery(9, 0));
    assert!(!c.is_within_recovery(10, 0));
    assert!(!c.is_within_recovery(6, 1));
    assert!(c.is_within_recovery(10, 1));
}

#[test]
fn windows_do_not_overflow() {
    let c = config(255, 255, 255);
    assert!(c.is_within_startup(255, 1));
    assert!(c.is_within_startup(255, 255));
    assert!(!c.is_within_startup(255, 0));
    assert!(!c.is_within_active(255));
    assert!(!c.is_within_recovery(255, 255));
    let c = config(100, 100, 100);
    assert!(c.is_within_active(200));
    assert!(c.is_within_recovery(255, 0));
    assert!(c.is_within_recovery(255, 54));
    assert!(!c.is_within_recovery(255, 55));
}

#[test]
fn frame_data_keeps_its_fields() {
    let f = FrameData::new(3, 6);
    assert_eq!(f, FrameData { index: 3, frames: 6 });
    let a = held_clip();
    assert_eq!(a.frame_data.len(), 4);
    assert_eq!(a.config, config(2, 3, 4));
}

#[test]
fn a_held_sprite_is_timed_by_its_frames() {
    // A sixth of a second, rounded down to nanoseconds.
    let mut t = FrameData::new(3, 6).get_timer();
    assert_eq!(t.duration(), std::time::Duration::from_nanos(166_666_666));
    assert!(!t.finished());
    t.tick(std::time::Duration::from_nanos(166_666_666));
    assert!(t.finished());
    assert!(t.just_finished());
}

#[test]
fn a_new_player_shows_the_first_sprite() {
    let t = AnimationDataTimer::new(held_clip());
    assert_eq!(t.get_current_frame_data(), Some(FrameData::new(4, 2)));
    assert_eq!(t.get_current_frame_count(), Ok(0));
    assert_eq!(t.get_config(), config(2, 3, 4));
    assert!(!t.is_just_finished());
    assert!(t.is_within_startup(0));
    assert!(!t.is_within_active());
    assert!(!t.is_within_recovery(0));
}

#[test]
fn frames_held_before_a_sprite_are_summed() {
    let t = AnimationDataTimer::new(held_clip());
    assert_eq!(t.get_frame_from_index(4), Ok(0));
    assert_eq!(t.get_frame_from_index(5), Ok(2));
    assert_eq!(t.get_frame_from_index(6), Ok(5));
    // The index is cut to eight bits before it is looked for.
    assert_eq!(t.get_frame_from_index(256 + 6), Ok(5));
}

#[test]
fn a_sprite_the_clip_does_not_show_is_out_of_range() {
    let t = AnimationDataTimer::new(held_clip());
    assert_eq!(t.get_frame_from_index(7), Err(IndexOutOfRange { len: 4, index: 7 }));
    assert_eq!(t.get_frame_from_index(260), Ok(0));
    assert_eq!(t.get_frame_from_index(1000), Err(IndexOutOfRange { len: 4, index: 1000 }));
}

#[test]
fn reset_shows_the_first_sprite_again() {
    let mut t = AnimationDataTimer::new(held_clip());
    t.reset();
    assert_eq!(t.get_current_frame_data(), Some(FrameData::new(4, 2)));
    assert_eq!(t.get_current_frame_count(), Ok(0));
    assert!(!t.is_just_finished());
}

#[test]
fn an_empty_link_holds_nothing() {
    let mut link = AnimationLink::default();
    assert!(link.get().is_none());
    assert!(link.consume().is_none());
    link.shift();
    assert!(link.get().is_none());
}

#[test]
fn a_link_holds_two_attacks_in_order() {
    let mut link = AnimationLink::default();
    link.try_link(attack(1));
    link.try_link(attack(2));
    link.try_link(attack(3));
    assert_eq!(link.get().map(|a| a.damage), Some(1));
    assert_eq!(link.get().map(|a| a.damage), Some(1));
    assert_eq!(link.consume().map(|a| a.damage), Some(1));
    assert_eq!(link.get().map(|a| a.damage), Some(2));
    link.try_link(attack(4));
    assert_eq!(link.consume().map(|a| a.damage), Some(2));
    assert_eq!(link.consume().map(|a| a.damage), Some(4));
    assert!(link.consume().is_none());
}

#[test]
fn shifting_a_link_drops_the_attack_that_plays() {
    let mut link = AnimationLink::default();
    link.try_link(attack(1));
    link.try_link(attack(2));
    link.shift();
    assert_eq!(link.get().map(|a| a.damage), Some(2));
    assert_eq!(link.get().map(|a| a.hitbox), Some(Hitbox { x: 1, y: 2, length: 3, height: 4 }));
    link.shift();
    assert!(link.get().is_none());
}
