use pong_core::actors::{Goal, Paddle};
use pong_core::bonus::{Bonus, TakenBonusEvent};
use pong_core::score::{
    lifebar_index, store_taken_bonuses_in_score, GameScore, GOAL_DAMAGE, MAX_HEALTH,
};

#[test]
fn default_score_is_full_health_and_empty() {
    let s = GameScore::default();
    assert_eq!(s.player_health, MAX_HEALTH);
    assert_eq!(s.computer_health, MAX_HEALTH);
    assert_eq!(s.player_score, 0);
    assert_eq!(s.computer_score, 0);
    assert!(s.player_bonuses.is_empty());
    assert!(s.computer_bonuses.is_empty());
}

#[test]
fn goal_costs_one_health_point() {
    let mut s = GameScore::default();
    let over = s.apply_goal(Goal::Player);
    assert!(!over);
    assert_eq!(s.player_health, MAX_HEALTH - GOAL_DAMAGE);
    assert_eq!(s.computer_health, MAX_HEALTH);
    assert_eq!(s.computer_score, 0);
}

#[test]
fn health_never_goes_negative_over_any_goal_run() {
    let mut s = GameScore::default();
    for _ in 0..200 {
        s.apply_goal(Goal::Computer);
        assert!(s.computer_health <= MAX_HEALTH);
        // usize cannot go below zero; depletion must restore, not wrap
        assert!(s.computer_health >= 0);
    }
}

#[test]
fn depletion_credits_opponent_and_restores_health() {
    let mut s = GameScore::default();
    s.player_health = 1;
    s.computer_score = 2;
    s.player_score = 9;
    let over = s.apply_goal(Goal::Player);
    assert!(over);
    assert_eq!(s.player_health, MAX_HEALTH);
    assert_eq!(s.computer_health, MAX_HEALTH);
    assert_eq!(s.computer_score, 3);
    assert_eq!(s.player_score, 9);
}

#[test]
fn lifebar_index_is_health_capped_at_full_bar() {
    assert_eq!(lifebar_index(0), 0);
    assert_eq!(lifebar_index(15), 15);
    assert_eq!(lifebar_index(99), 15);
}

#[test]
fn taken_bonuses_are_stored_on_the_earning_side() {
    let mut s = GameScore::default();
    let events = vec![
        TakenBonusEvent {
            bonus: Bonus::BallSpeedInArea { benefiting_paddle: Paddle::Player },
            paddle: Some(Paddle::Player),
        },
        TakenBonusEvent {
            bonus: Bonus::IncreasePaddleSize { benefiting_paddle: Paddle::Computer },
            paddle: Some(Paddle::Computer),
        },
        TakenBonusEvent { bonus: Bonus::SplitBall { ball: 4 }, paddle: None },
    ];
    store_taken_bonuses_in_score(&mut s, &events);
    assert_eq!(s.player_bonuses.len(), 1);
    assert_eq!(s.computer_bonuses.len(), 1);
    assert!(matches!(s.player_bonuses[0], Bonus::BallSpeedInArea { .. }));
    assert!(matches!(s.computer_bonuses[0], Bonus::IncreasePaddleSize { .. }));
}
