use fighter_core::animation::AnimationManager;
use fighter_core::combatant::Aabb;
use fighter_core::combatant::Combatant;
use fighter_core::hitbox::check_hitboxes;
use fighter_core::hitbox::check_hits;
use fighter_core::hitbox::check_hitstun;
use fighter_core::hitbox::find_combatant;
use fighter_core::hitbox::manage_hitboxes;
use fighter_core::hitbox::run_hit_management;
use fighter_core::hitbox::HitEvent;
use fighter_core::moves::Animation;
use fighter_core::moves::AnimationOptions;
use fighter_core::moves::AnimationState;
use fighter_core::moves::Attack;
use fighter_core::moves::Hitbox;
use fighter_core::moves::Hurtbox;
use fighter_core::player::PlayerAnimationManagement;
use fighter_core::systems::execute_animations;
use fighter_core::vitals::Health;
use fighter_core::vitals::HitStun;
use std::time::Duration;

fn clip(indexes: Vec<u8>, window: Option<(u8, u8, u8)>) -> Animation {
    Animation {
        indexes,
        fps: 6,
        options: window.map(|(startup_frames, active_frames, recovery_frames)| AnimationOptions {
            startup_frames,
            active_frames,
            recovery_frames,
        }),
    }
}

fn attack(
    indexes: Vec<u8>,
    window: (u8, u8, u8),
    damage: u32,
    hit_stun_frames: u8,
    reach: i32,
) -> Attack {
    Attack {
        damage,
        hit_stun_frames,
        animation: clip(indexes, Some(window)),
        hitbox: Hitbox { x: reach, y: 0, length: 8, height: 8 },
    }
}

fn moves() -> PlayerAnimationManagement {
    moves_reaching(10)
}

/// The moves of a fighter whose hitboxes are centred `reach` away from it.
fn moves_reaching(reach: i32) -> PlayerAnimationManagement {
    let light = attack(vec![10, 11, 12, 13, 14, 15, 16], (2, 2, 2), 10, 12, reach);
    let heavy = attack(vec![20, 21, 22, 23], (1, 1, 1), 30, 30, reach);
    PlayerAnimationManagement::new(vec![
        (AnimationState::Idle, (AnimationManager::new(clip(vec![0, 1], None)), None)),
        (AnimationState::Forward, (AnimationManager::new(clip(vec![2, 3], None)), None)),
        (AnimationState::Backward, (AnimationManager::new(clip(vec![2, 3], None)), None)),
        (
            AnimationState::LightAttack,
            (AnimationManager::new(light.animation.clone()), Some(light)),
        ),
        (
            AnimationState::HeavyAttack,
            (AnimationManager::new(heavy.animation.clone()), Some(heavy)),
        ),
    ])
    .unwrap()
}

fn fighter(id: u64, x: i32, health: u32) -> Combatant {
    Combatant::new(id, x, 0, moves(), health, Hurtbox { x: 0, y: 0, length: 5, height: 20 })
}

/// Ends the frame that the fighter's clip is showing.
fn next_frame(fighter: &mut Combatant) {
    let mut sprite = 0;
    execute_animations(&mut fighter.animation, &mut sprite, Duration::from_secs(300));
}

fn cursor(fighter: &Combatant) -> u8 {
    fighter.animation.get_current_animation().0.current_frame_index()
}

/// A fighter whose light attack shows the given frame, with its hitbox in
/// line with the clip.
fn attacking(id: u64, x: i32, frame: u8) -> Combatant {
    let mut f = fighter(id, x, 100);
    assert!(f.request(AnimationState::LightAttack));
    for _ in 0..frame {
        next_frame(&mut f);
    }
    assert_eq!(cursor(&f), frame);
    manage_hitboxes(&mut f);
    f
}

fn tick() -> Duration {
    Duration::from_nanos(16_666_667)
}

#[test]
fn health_starts_at_the_given_value() {
    assert_eq!(Health::new(42).value(), 42);
    assert_eq!(Health::new(0).value(), 0);
}

#[test]
fn damage_is_taken_off_the_health() {
    let mut h = Health::new(100);
    h.damage(30);
    assert_eq!(h.value(), 70);
    h.damage(70);
    assert_eq!(h.value(), 0);
}

#[test]
fn damage_stops_at_zero() {
    let mut h = Health::new(10);
    h.damage(30);
    assert_eq!(h.value(), 0);
    h.damage(u32::MAX);
    assert_eq!(h.value(), 0);
}

#[test]
fn healing_stops_at_the_maximum() {
    let mut h = Health::new(10);
    h.heal(5, 100);
    assert_eq!(h.value(), 15);
    h.heal(90, 100);
    assert_eq!(h.value(), 100);
    h.heal(1, 100);
    assert_eq!(h.value(), 100);
    // Health above the maximum is brought down to it.
    h.heal(0, 40);
    assert_eq!(h.value(), 40);
    h.heal(0, 40);
    assert_eq!(h.value(), 40);
    let mut h = Health::new(u32::MAX - 1);
    h.heal(5, u32::MAX);
    assert_eq!(h.value(), u32::MAX);
}

#[test]
fn a_stun_lasts_its_frames_over_the_frame_rate() {
    // 12 frames at 60 per second are 200 ms.
    let mut stun = HitStun::new(12, 60);
    assert!(!stun.is_finished());
    stun.tick(Duration::from_nanos(199_999_999));
    assert!(!stun.is_finished());
    stun.tick(Duration::from_nanos(1));
    assert!(stun.is_finished());
    stun.tick(Duration::MAX);
    assert!(stun.is_finished());
}

#[test]
fn boxes_reach_their_size_to_each_side() {
    let b = Aabb::new(10, -4, 3, 6);
    assert_eq!(b, Aabb { min_x: 7, min_y: -10, max_x: 13, max_y: 2 });
}

#[test]
fn boxes_that_touch_intersect() {
    let a = Aabb::new(0, 0, 5, 5);
    assert!(a.intersects(Aabb::new(10, 0, 5, 5)));
    assert!(a.intersects(Aabb::new(-10, 10, 5, 5)));
    assert!(!a.intersects(Aabb::new(11, 0, 5, 5)));
    assert!(!a.intersects(Aabb::new(0, -11, 5, 5)));
    assert!(a.intersects(Aabb::new(0, 0, 0, 0)));
    assert!(a.intersects(a));
}

#[test]
fn a_new_fighter_has_neither_hitbox_nor_stun() {
    let f = fighter(1, 0, 100);
    assert_eq!(f.id, 1);
    assert_eq!(f.health.value(), 100);
    assert!(f.hitbox.is_none());
    assert!(f.hit_stun.is_none());
    assert!(f.struck.is_empty());
    assert_eq!(f.hit_region(), None);
    assert_eq!(f.hurt_region(), Aabb { min_x: -5, min_y: -20, max_x: 5, max_y: 20 });
}

#[test]
fn the_hit_region_follows_the_fighter() {
    let f = attacking(1, 100, 3);
    assert_eq!(f.hit_region(), Some(Aabb { min_x: 102, min_y: -8, max_x: 118, max_y: 8 }));
    let mut far = fighter(2, i32::MAX, 100);
    far.y = i32::MIN;
    far.hurtbox = Hurtbox { x: i32::MAX, y: i32::MIN, length: u32::MAX, height: u32::MAX };
    let region = far.hurt_region();
    assert_eq!(region.max_x, 2 * (i32::MAX as i64) + u32::MAX as i64);
    assert_eq!(region.min_y, 2 * (i32::MIN as i64) - u32::MAX as i64);
}

#[test]
fn the_hitbox_is_there_exactly_in_the_active_phase() {
    // Window 2/2/2: startup is frames 0 and 1, active is frames 3 and 4,
    // recovery is frames 5 and 6.
    let mut f = fighter(1, 0, 100);
    assert!(f.request(AnimationState::LightAttack));
    for frame in 0..7u8 {
        assert_eq!(cursor(&f), frame);
        manage_hitboxes(&mut f);
        let active = frame == 3 || frame == 4;
        assert_eq!(f.hitbox.is_some(), active);
        assert_eq!(f.animation.get_current_animation().0.is_within_active(), active);
        if active {
            assert_eq!(f.hitbox, Some(Hitbox { x: 10, y: 0, length: 8, height: 8 }));
        }
        next_frame(&mut f);
    }
    assert_eq!(f.animation.state(), AnimationState::Idle);
    manage_hitboxes(&mut f);
    assert!(f.hitbox.is_none());
}

#[test]
fn a_state_without_an_attack_never_has_a_hitbox() {
    let mut f = fighter(1, 0, 100);
    f.hitbox = Some(Hitbox { x: 1, y: 1, length: 1, height: 1 });
    f.struck = vec![9];
    manage_hitboxes(&mut f);
    assert!(f.hitbox.is_none());
    assert!(f.struck.is_empty());
}

#[test]
fn the_record_of_hits_lasts_as_long_as_the_hitbox() {
    let mut f = attacking(1, 0, 3);
    f.struck.push(7);
    manage_hitboxes(&mut f);
    assert_eq!(f.struck, vec![7]);
    assert!(f.has_struck(7));
    assert!(!f.has_struck(8));
    next_frame(&mut f);
    manage_hitboxes(&mut f);
    assert_eq!(f.struck, vec![7]);
    next_frame(&mut f);
    manage_hitboxes(&mut f);
    assert!(f.hitbox.is_none());
    assert!(f.struck.is_empty());
}

#[test]
fn a_hitbox_that_meets_a_hurtbox_is_a_hit() {
    // The hitbox covers 2..=18; the victim's hurtbox covers 15..=25.
    let roster = vec![attacking(1, 0, 3), fighter(2, 20, 100)];
    assert_eq!(check_hits(&roster), vec![HitEvent { target: 2, source: 1 }]);
}

#[test]
fn boxes_that_only_touch_still_hit() {
    // The hitbox ends at 18; the hurtbox begins at 18.
    let roster = vec![attacking(1, 0, 3), fighter(2, 23, 100)];
    assert_eq!(check_hits(&roster), vec![HitEvent { target: 2, source: 1 }]);
    let roster = vec![attacking(1, 0, 3), fighter(2, 24, 100)];
    assert_eq!(check_hits(&roster), vec![]);
}

#[test]
fn a_fighter_without_a_hitbox_hits_nobody() {
    let roster = vec![attacking(1, 0, 1), fighter(2, 10, 100)];
    assert!(roster[0].hitbox.is_none());
    assert_eq!(check_hits(&roster), vec![]);
    assert_eq!(check_hits(&Vec::new()), vec![]);
}

#[test]
fn a_fighter_does_not_hit_itself() {
    let mut alone = attacking(1, 0, 3);
    alone.hurtbox = Hurtbox { x: 10, y: 0, length: 5, height: 5 };
    assert_eq!(check_hits(&vec![alone]), vec![]);
}

#[test]
fn a_fighter_that_was_hit_already_is_passed_over() {
    let mut a = attacking(1, 0, 3);
    a.struck.push(2);
    let roster = vec![a, fighter(2, 20, 100), fighter(3, 20, 100)];
    assert_eq!(check_hits(&roster), vec![HitEvent { target: 3, source: 1 }]);
}

#[test]
fn hits_come_attacker_by_attacker_in_roster_order() {
    let roster = vec![
        fighter(5, 12, 100),
        attacking(1, 0, 3),
        fighter(6, 14, 100),
        attacking(2, 4, 4),
    ];
    assert_eq!(
        check_hits(&roster),
        vec![
            HitEvent { target: 5, source: 1 },
            HitEvent { target: 6, source: 1 },
            HitEvent { target: 2, source: 1 },
            HitEvent { target: 5, source: 2 },
            HitEvent { target: 6, source: 2 },
        ]
    );
}

#[test]
fn looking_for_hits_changes_nobody() {
    let roster = vec![attacking(1, 0, 3), fighter(2, 20, 100)];
    let _ = check_hits(&roster);
    assert!(roster[0].struck.is_empty());
    assert_eq!(roster[1].health.value(), 100);
    assert!(roster[1].hit_stun.is_none());
}

#[test]
fn fighters_are_found_by_id() {
    let roster = vec![fighter(4, 0, 1), fighter(9, 0, 2), fighter(4, 0, 3)];
    assert_eq!(find_combatant(&roster, 4), Some(0));
    assert_eq!(find_combatant(&roster, 9), Some(1));
    assert_eq!(find_combatant(&roster, 5), None);
    assert_eq!(find_combatant(&Vec::new(), 5), None);
}

#[test]
fn a_hit_takes_the_attackers_damage_and_stuns_the_victim() {
    let mut roster = vec![attacking(1, 0, 3), attacking(2, 20, 3)];
    assert!(roster[1].hitbox.is_some());
    check_hitboxes(&mut roster, &vec![HitEvent { target: 2, source: 1 }]);
    assert_eq!(roster[1].health.value(), 90);
    assert!(roster[1].hitbox.is_none());
    assert!(roster[1].hit_stun.is_some());
    assert!(!roster[1].hit_stun.as_ref().unwrap().is_finished());
    assert_eq!(roster[1].animation.state(), AnimationState::LightAttack);
    assert_eq!(roster[0].struck, vec![2]);
    assert_eq!(roster[0].health.value(), 100);
    assert!(roster[0].hitbox.is_some());
    assert!(roster[0].hit_stun.is_none());
}

#[test]
fn the_damage_is_that_of_the_attackers_current_attack() {
    let mut heavy = fighter(1, 0, 100);
    assert!(heavy.request(AnimationState::HeavyAttack));
    let mut roster = vec![heavy, attacking(2, 20, 3)];
    check_hitboxes(&mut roster, &vec![HitEvent { target: 2, source: 1 }]);
    assert_eq!(roster[1].health.value(), 70);
    // The heavy attack stuns for 30 frames at 60 per second: 500 ms.
    check_hitstun(&mut roster[1], Duration::from_nanos(499_999_999));
    assert!(roster[1].hit_stun.is_some());
    check_hitstun(&mut roster[1], Duration::from_nanos(1));
    assert!(roster[1].hit_stun.is_none());
}

#[test]
fn a_hit_never_drives_health_below_zero() {
    let mut heavy = fighter(1, 0, 100);
    assert!(heavy.request(AnimationState::HeavyAttack));
    let mut roster = vec![heavy, fighter(2, 20, 10)];
    check_hitboxes(&mut roster, &vec![HitEvent { target: 2, source: 1 }]);
    assert_eq!(roster[1].health.value(), 0);
    check_hitboxes(&mut roster, &vec![HitEvent { target: 2, source: 1 }]);
    assert_eq!(roster[1].health.value(), 0);
}

#[test]
fn hits_are_resolved_one_after_the_other() {
    let mut roster = vec![attacking(1, 0, 3), attacking(2, 20, 3), fighter(3, 10, 25)];
    let events = vec![
        HitEvent { target: 3, source: 1 },
        HitEvent { target: 3, source: 2 },
        HitEvent { target: 2, source: 1 },
        HitEvent { target: 3, source: 1 },
    ];
    check_hitboxes(&mut roster, &events);
    assert_eq!(roster[2].health.value(), 0);
    assert_eq!(roster[1].health.value(), 90);
    assert_eq!(roster[0].struck, vec![3, 2, 3]);
    assert_eq!(roster[1].struck, vec![3]);
    assert!(roster[1].hitbox.is_none());
    assert!(roster[1].hit_stun.is_some());
    assert!(roster[2].hit_stun.is_some());
    assert!(roster[0].hit_stun.is_none());
}

#[test]
fn a_hit_on_a_fighter_that_is_gone_is_passed_over() {
    let mut roster = vec![attacking(1, 0, 3), fighter(2, 20, 100)];
    check_hitboxes(&mut roster, &vec![HitEvent { target: 7, source: 1 }]);
    assert!(roster[0].struck.is_empty());
    assert_eq!(roster[1].health.value(), 100);
    assert!(roster[1].hit_stun.is_none());
    check_hitboxes(&mut roster, &Vec::new());
    assert_eq!(roster[1].health.value(), 100);
}

#[test]
fn a_stun_is_lifted_when_its_time_is_up() {
    let mut f = fighter(1, 0, 100);
    f.hit_stun = Some(HitStun::new(12, 60));
    for _ in 0..11 {
        check_hitstun(&mut f, tick());
        assert!(f.hit_stun.is_some());
    }
    check_hitstun(&mut f, tick());
    assert!(f.hit_stun.is_none());
    check_hitstun(&mut f, tick());
    assert!(f.hit_stun.is_none());
    assert_eq!(f.animation.state(), AnimationState::Idle);
}

#[test]
fn a_stunned_fighter_refuses_every_request() {
    let mut f = fighter(1, 0, 100);
    f.hit_stun = Some(HitStun::new(12, 60));
    for state in [
        AnimationState::Idle,
        AnimationState::Forward,
        AnimationState::Backward,
        AnimationState::Jump,
        AnimationState::Crouch,
        AnimationState::Block,
        AnimationState::LightAttack,
        AnimationState::HeavyAttack,
    ] {
        assert!(!f.request(state));
        assert_eq!(f.animation.state(), AnimationState::Idle);
        assert_eq!(f.animation.buffered_state(), None);
    }
    check_hitstun(&mut f, Duration::from_millis(199));
    assert!(!f.request(AnimationState::Forward));
    check_hitstun(&mut f, Duration::from_millis(1));
    assert!(f.request(AnimationState::Forward));
    assert_eq!(f.animation.state(), AnimationState::Forward);
    assert!(f.request(AnimationState::LightAttack));
    assert!(!f.request(AnimationState::Forward));
}

#[test]
fn one_active_phase_hits_a_standing_victim_once() {
    let mut attacker = fighter(1, 0, 100);
    assert!(attacker.request(AnimationState::LightAttack));
    let mut roster = vec![attacker, fighter(2, 20, 100)];
    let mut hits = Vec::new();
    let mut ticks_with_hitbox = 0;
    let mut sprite = 0;
    while roster[0].animation.state() == AnimationState::LightAttack {
        execute_animations(&mut roster[0].animation, &mut sprite, tick());
        hits.extend(run_hit_management(&mut roster, tick()));
        if roster[0].hitbox.is_some() {
            ticks_with_hitbox += 1;
        }
    }
    // The active phase is two frames of six ticks each.
    assert_eq!(ticks_with_hitbox, 12);
    assert_eq!(hits, vec![HitEvent { target: 2, source: 1 }]);
    assert_eq!(roster[1].health.value(), 90);
    assert!(roster[0].struck.is_empty());
}

#[test]
fn a_new_active_phase_hits_again() {
    let mut roster = vec![attacking(1, 0, 3), fighter(2, 20, 100)];
    assert_eq!(run_hit_management(&mut roster, tick()), vec![HitEvent { target: 2, source: 1 }]);
    assert_eq!(run_hit_management(&mut roster, tick()), vec![]);
    assert_eq!(roster[1].health.value(), 90);
    // Leave the active phase, come to rest, and attack again.
    while roster[0].animation.state() == AnimationState::LightAttack {
        next_frame(&mut roster[0]);
        assert_eq!(run_hit_management(&mut roster, tick()), vec![]);
    }
    assert!(roster[0].request(AnimationState::LightAttack));
    for _ in 0..3 {
        next_frame(&mut roster[0]);
    }
    assert_eq!(run_hit_management(&mut roster, tick()), vec![HitEvent { target: 2, source: 1 }]);
    assert_eq!(roster[1].health.value(), 80);
}

#[test]
fn hit_management_counts_the_stun_before_new_hits() {
    let mut roster = vec![attacking(1, 0, 3), fighter(2, 20, 100)];
    run_hit_management(&mut roster, tick());
    assert!(roster[1].hit_stun.is_some());
    // 200 ms of stun: eleven more ticks leave it, the twelfth lifts it.
    for _ in 0..11 {
        run_hit_management(&mut roster, tick());
        assert!(roster[1].hit_stun.is_some());
        assert!(!roster[1].request(AnimationState::Forward));
    }
    run_hit_management(&mut roster, tick());
    assert!(roster[1].hit_stun.is_none());
    assert!(roster[1].request(AnimationState::Forward));
}

#[test]
fn two_fighters_can_hit_each_other_in_one_tick() {
    let left = attacking(1, 0, 3);
    let mut right = Combatant::new(
        2,
        10,
        0,
        moves_reaching(-10),
        100,
        Hurtbox { x: 0, y: 0, length: 5, height: 20 },
    );
    assert!(right.request(AnimationState::LightAttack));
    for _ in 0..3 {
        next_frame(&mut right);
    }
    manage_hitboxes(&mut right);
    assert_eq!(right.hitbox, Some(Hitbox { x: -10, y: 0, length: 8, height: 8 }));
    let roster = vec![left, right];
    assert_eq!(
        check_hits(&roster),
        vec![HitEvent { target: 2, source: 1 }, HitEvent { target: 1, source: 2 }]
    );
    let mut roster = roster;
    let events = run_hit_management(&mut roster, tick());
    assert_eq!(events, vec![HitEvent { target: 2, source: 1 }, HitEvent { target: 1, source: 2 }]);
    assert_eq!(roster[0].health.value(), 90);
    assert_eq!(roster[1].health.value(), 90);
    assert!(roster[0].hit_stun.is_some());
    assert!(roster[1].hit_stun.is_some());
    assert!(roster[0].hitbox.is_none());
    assert!(roster[1].hitbox.is_none());
}

#[test]
fn a_cloned_stun_has_the_same_time_left() {
    let mut stun = HitStun::new(12, 60);
    stun.tick(Duration::from_millis(150));
    let mut copy = stun.clone();
    assert!(!copy.is_finished());
    copy.tick(Duration::from_millis(50));
    assert!(copy.is_finished());
    assert!(!stun.is_finished());
    assert!(copy.clone().is_finished());
}
