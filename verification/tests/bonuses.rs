use pong_core::actors::{Paddle, Side};
use pong_core::bonus::{
    area_factor_num_u64, change_velocity, count_area_bonuses_held, default_bonuses_timers,
    resolve_taken_bonus, tick_bonuses_timers, Bonus, BonusType, SpawnBonusEvent, Timer,
};
use pong_core::collisions::CollisionStatus;
use pong_core::geometry::Vec2;

#[test]
fn timer_fires_exactly_at_its_duration() {
    let mut t = Timer::new(1_000, false);
    assert!(!t.tick(999));
    assert!(t.tick(1));
    assert!(t.finished);
}

#[test]
fn spent_timer_stays_inert_until_reset() {
    let mut t = Timer::new(500, false);
    assert!(t.tick(500));
    assert!(!t.tick(500));
    assert!(!t.tick(5_000));
    t.reset();
    assert!(!t.tick(499));
    assert!(t.tick(1));
}

#[test]
fn repeating_timer_rearms_on_completion() {
    let mut t = Timer::new(1_000, true);
    assert!(t.tick(1_200));
    assert!(!t.finished);
    assert_eq!(t.elapsed_ms, 200);
    assert!(t.tick(800));
}

#[test]
fn timers_emit_one_spawn_request_per_completion() {
    let mut timers = default_bonuses_timers();
    let none = tick_bonuses_timers(&mut timers, 10_000);
    assert!(none.is_empty());
    // at 13 s the repeating split timer has fired; nothing else yet
    let first = tick_bonuses_timers(&mut timers, 3_000);
    assert_eq!(first, vec![SpawnBonusEvent(BonusType::SplitBall)]);
    // at 15.5 s the area-speed one-shot fires
    let second = tick_bonuses_timers(&mut timers, 2_500);
    assert_eq!(second, vec![SpawnBonusEvent(BonusType::BallSpeedInArea)]);
}

#[test]
fn split_resolves_without_a_touching_paddle() {
    let r = resolve_taken_bonus(BonusType::SplitBall, None, 9);
    assert_eq!(
        r,
        Some(pong_core::bonus::TakenBonusEvent {
            bonus: Bonus::SplitBall { ball: 9 },
            paddle: None
        })
    );
}

#[test]
fn other_kinds_are_dropped_without_a_touching_paddle() {
    assert_eq!(resolve_taken_bonus(BonusType::BallSpeedInArea, None, 1), None);
    assert_eq!(resolve_taken_bonus(BonusType::BallsVerticalGravity, None, 1), None);
    assert_eq!(resolve_taken_bonus(BonusType::ShrinkPaddleSize, None, 1), None);
    assert_eq!(resolve_taken_bonus(BonusType::IncreasePaddleSize, None, 1), None);
}

#[test]
fn shrink_resolves_to_the_opposite_paddle() {
    let r = resolve_taken_bonus(BonusType::ShrinkPaddleSize, Some(Paddle::Player), 1).unwrap();
    assert_eq!(r.bonus, Bonus::ShrinkPaddleSize { impacted_paddle: Paddle::Computer });
    assert_eq!(r.paddle, Some(Paddle::Player));
}

#[test]
fn area_factor_follows_the_stacking_count() {
    // factor (2 + 3 n) / 2, so the numerators are 2, 5, 8, ...
    assert_eq!(area_factor_num_u64(0), 2);
    assert_eq!(area_factor_num_u64(1), 5);
    assert_eq!(area_factor_num_u64(2), 8);
}

#[test]
fn entering_a_boosted_half_scales_up_by_one_and_a_half_per_stack() {
    // one player-held boost: a ball entering the computer half doubles
    // and a half: (4000, 0) * (1 + 1.5) = (10000, 0)
    let v = Vec2 { x: 4_000, y: 0 };
    let up = change_velocity(v, Side::Computer, CollisionStatus::Started, 1, 0);
    assert_eq!(up, Vec2 { x: 10_000, y: 0 });
}

#[test]
fn leaving_the_boosted_half_restores_the_velocity() {
    let v = Vec2 { x: 4_000, y: -2_346 };
    let up = change_velocity(v, Side::Computer, CollisionStatus::Started, 1, 0);
    let down = change_velocity(up, Side::Computer, CollisionStatus::Stopped, 1, 0);
    assert_eq!(down, v);
}

#[test]
fn zero_stacks_leave_the_velocity_unchanged() {
    let v = Vec2 { x: 4_001, y: -3 };
    let up = change_velocity(v, Side::Player, CollisionStatus::Started, 0, 0);
    assert_eq!(up, v);
}

#[test]
fn own_side_boosts_use_the_opposing_count() {
    // the computer's own held boosts do not act on the computer half
    let v = Vec2 { x: 4_000, y: 0 };
    let r = change_velocity(v, Side::Computer, CollisionStatus::Started, 0, 3);
    assert_eq!(r, v);
}

#[test]
fn held_area_bonuses_are_counted() {
    let held = vec![
        Bonus::BallSpeedInArea { benefiting_paddle: Paddle::Player },
        Bonus::SplitBall { ball: 1 },
        Bonus::BallSpeedInArea { benefiting_paddle: Paddle::Player },
    ];
    assert_eq!(count_area_bonuses_held(&held), 2);
    assert_eq!(count_area_bonuses_held(&Vec::new()), 0);
}
