use pong_core::actors::{Paddle, Tilt, COMPUTER_PADDLE_HALF_HEIGHT, PLAYER_PADDLE_HALF_HEIGHT};
use pong_core::bonus::{
    default_bonuses_timers, Bonus, BonusEntity, BonusType, SpawnBonusEvent, TakenBonusEvent,
};
use pong_core::collisions::{CollisionStatus, GameCollisionEvent};
use pong_core::context::{InputState, SimulationContext, States};
use pong_core::geometry::Vec2;
use pong_core::score::MAX_HEALTH;

fn fresh_waiting_context() -> SimulationContext {
    let mut ctx = SimulationContext::new(default_bonuses_timers());
    ctx.finish_loading();
    ctx.ready_to_wait_player();
    ctx
}

fn idle_input() -> InputState {
    InputState { up_pressed: false, down_pressed: false, launch_just_released: false }
}

#[test]
fn setup_leaves_one_centered_ball_waiting() {
    let ctx = fresh_waiting_context();
    assert_eq!(ctx.state, States::WaitingPlayer);
    assert_eq!(ctx.balls.len(), 1);
    assert_eq!(ctx.balls[0].position, Vec2 { x: 0, y: 0 });
    assert_eq!(ctx.balls[0].velocity, Vec2 { x: 0, y: 0 });
    assert_eq!(ctx.player_paddle.half_height, PLAYER_PADDLE_HALF_HEIGHT);
    assert_eq!(ctx.computer_paddle.half_height, COMPUTER_PADDLE_HALF_HEIGHT);
}

#[test]
fn round_reset_is_total_after_in_play_mutations() {
    let mut ctx = fresh_waiting_context();
    ctx.state = States::InGame;
    // arbitrary in-play damage
    ctx.player_paddle.y = 4_000;
    ctx.player_paddle.velocity_y = -10_000;
    ctx.player_paddle.tilt = Tilt::TowardDown;
    ctx.player_paddle.half_height = 700;
    ctx.computer_paddle.half_height = 5_000;
    ctx.bonuses.push(BonusEntity {
        entity: 999,
        bonus_type: BonusType::SplitBall,
        position: Vec2 { x: 0, y: 0 },
    });
    ctx.score.player_bonuses.push(Bonus::SplitBall { ball: 1 });
    ctx.score.computer_bonuses.push(Bonus::BallSpeedInArea {
        benefiting_paddle: Paddle::Computer,
    });
    ctx.balls.clear();

    ctx.enter_waiting_player();

    assert_eq!(ctx.state, States::WaitingPlayer);
    assert_eq!(ctx.player_paddle.y, 0);
    assert_eq!(ctx.player_paddle.velocity_y, 0);
    assert_eq!(ctx.player_paddle.tilt, Tilt::Upright);
    assert_eq!(ctx.player_paddle.half_height, PLAYER_PADDLE_HALF_HEIGHT);
    assert_eq!(ctx.computer_paddle.half_height, COMPUTER_PADDLE_HALF_HEIGHT);
    assert!(ctx.bonuses.is_empty());
    assert!(ctx.score.player_bonuses.is_empty());
    assert!(ctx.score.computer_bonuses.is_empty());
    assert_eq!(ctx.balls.len(), 1);
    assert_eq!(ctx.balls[0].position, Vec2 { x: 0, y: 0 });
    assert_eq!(ctx.balls[0].velocity, Vec2 { x: 0, y: 0 });
    for (t, _) in ctx.bonuses_timers.0.iter() {
        assert_eq!(t.elapsed_ms, 0);
        assert!(!t.finished);
    }
}

#[test]
fn paddle_touch_speeds_ball_up_and_counts() {
    let mut ctx = fresh_waiting_context();
    ctx.state = States::InGame;
    let id = ctx.balls[0].entity;
    ctx.balls[0].velocity = Vec2 { x: 4_000, y: 2_000 };
    ctx.balls[0].touched_paddles = 2;
    let events = vec![GameCollisionEvent::BallAndPaddle {
        status: CollisionStatus::Stopped,
        ball: id,
        paddle: ctx.player_paddle.entity,
    }];
    ctx.speed_up_balls_with_touched_paddles(&events);
    assert_eq!(ctx.balls[0].touched_paddles, 3);
    assert_eq!(ctx.balls[0].velocity, Vec2 { x: 4_200, y: 2_100 });
}

#[test]
fn edge_touch_speeds_ball_up_by_half_the_factor() {
    let mut ctx = fresh_waiting_context();
    ctx.state = States::InGame;
    let id = ctx.balls[0].entity;
    ctx.balls[0].velocity = Vec2 { x: 4_000, y: -2_000 };
    let events = vec![GameCollisionEvent::BallAndEdge {
        status: CollisionStatus::Stopped,
        ball: id,
        edge: ctx.top_edge.entity,
    }];
    ctx.speed_up_balls_with_touched_edges(&events);
    assert_eq!(ctx.balls[0].velocity, Vec2 { x: 4_100, y: -2_050 });
}

#[test]
fn goal_on_last_health_ends_round_and_credits_computer() {
    let mut ctx = fresh_waiting_context();
    ctx.state = States::InGame;
    ctx.score.player_health = 1;
    ctx.score.computer_score = 2;
    let id = ctx.balls[0].entity;
    let events = vec![GameCollisionEvent::BallAndGoal {
        status: CollisionStatus::Started,
        ball: id,
        goal: ctx.player_goal.entity,
    }];
    ctx.track_scoring_balls(&events);
    assert_eq!(ctx.score.computer_score, 3);
    assert_eq!(ctx.score.player_health, MAX_HEALTH);
    assert_eq!(ctx.score.computer_health, MAX_HEALTH);
    assert!(ctx.balls.is_empty());
    // with no balls left the state machine returns to the round boundary
    ctx.regame_when_no_balls();
    assert_eq!(ctx.state, States::WaitingPlayer);
    assert_eq!(ctx.balls.len(), 1);
}

#[test]
fn ordinary_goal_despawns_only_the_scoring_ball() {
    let mut ctx = fresh_waiting_context();
    ctx.state = States::InGame;
    let id = ctx.balls[0].entity;
    let events = vec![GameCollisionEvent::BallAndGoal {
        status: CollisionStatus::Started,
        ball: id,
        goal: ctx.computer_goal.entity,
    }];
    ctx.track_scoring_balls(&events);
    assert_eq!(ctx.score.computer_health, MAX_HEALTH - 1);
    assert!(ctx.balls.is_empty());
}

#[test]
fn split_spawns_a_ball_of_equal_speed_at_the_same_place() {
    let mut ctx = fresh_waiting_context();
    ctx.state = States::InGame;
    let id = ctx.balls[0].entity;
    ctx.balls[0].position = Vec2 { x: 2_000, y: -1_000 };
    ctx.balls[0].velocity = Vec2 { x: 5_000, y: 0 };
    let taken = vec![TakenBonusEvent {
        bonus: Bonus::SplitBall { ball: id },
        paddle: Some(Paddle::Player),
    }];
    ctx.manage_split_ball_bonus(&taken);
    assert_eq!(ctx.balls.len(), 2);
    // the original ball is left unaffected
    assert_eq!(ctx.balls[0].velocity, Vec2 { x: 5_000, y: 0 });
    let nb = ctx.balls[1];
    assert_eq!(nb.position, Vec2 { x: 2_000, y: -1_000 });
    let n = (nb.velocity.x as i128) * (nb.velocity.x as i128)
        + (nb.velocity.y as i128) * (nb.velocity.y as i128);
    assert_eq!(n, 25_000_000);
    assert_eq!(nb.touched_paddles, 0);
    assert!(nb.last_touched_paddle.is_none());
}

#[test]
fn split_for_a_despawned_ball_is_skipped() {
    let mut ctx = fresh_waiting_context();
    ctx.state = States::InGame;
    let taken = vec![TakenBonusEvent {
        bonus: Bonus::SplitBall { ball: 123_456 },
        paddle: None,
    }];
    ctx.manage_split_ball_bonus(&taken);
    assert_eq!(ctx.balls.len(), 1);
}

#[test]
fn shrink_taken_by_player_shrinks_the_computer() {
    let mut ctx = fresh_waiting_context();
    ctx.state = States::InGame;
    let id = ctx.balls[0].entity;
    let ev = pong_core::bonus::resolve_taken_bonus(
        BonusType::ShrinkPaddleSize,
        Some(Paddle::Player),
        id,
    )
    .unwrap();
    assert_eq!(ev.bonus, Bonus::ShrinkPaddleSize { impacted_paddle: Paddle::Computer });
    let taken = vec![ev];
    ctx.manage_shrink_paddle_size_bonus(&taken);
    assert_eq!(ctx.computer_paddle.half_height, COMPUTER_PADDLE_HALF_HEIGHT - 300);
    assert_eq!(ctx.player_paddle.half_height, PLAYER_PADDLE_HALF_HEIGHT);
    for _ in 0..30 {
        ctx.manage_shrink_paddle_size_bonus(&taken);
    }
    assert_eq!(ctx.computer_paddle.half_height, pong_core::actors::PADDLE_MIN_HALF_HEIGHT);
}

#[test]
fn unattributed_pickup_leaves_the_bonus_pickable() {
    let mut ctx = fresh_waiting_context();
    ctx.state = States::InGame;
    let id = ctx.balls[0].entity;
    ctx.bonuses.push(BonusEntity {
        entity: 777,
        bonus_type: BonusType::BallSpeedInArea,
        position: Vec2 { x: 0, y: 0 },
    });
    let events = vec![GameCollisionEvent::BallAndBonus {
        status: CollisionStatus::Started,
        ball: id,
        bonus: 777,
    }];
    // no paddle has touched the ball: the pickup is silently dropped and
    // the bonus is not despawned
    let taken = ctx.manage_taken_bonuses(&events);
    assert!(taken.is_empty());
    assert_eq!(ctx.bonuses.len(), 1);
    // once a touch is recorded the same bonus resolves and is consumed
    ctx.balls[0].last_touched_paddle = Some(Paddle::Player);
    let taken2 = ctx.manage_taken_bonuses(&events);
    assert_eq!(taken2.len(), 1);
    assert_eq!(
        taken2[0].bonus,
        Bonus::BallSpeedInArea { benefiting_paddle: Paddle::Player }
    );
    assert!(ctx.bonuses.is_empty());
}

#[test]
fn split_pickup_resolves_without_attribution() {
    let mut ctx = fresh_waiting_context();
    ctx.state = States::InGame;
    let id = ctx.balls[0].entity;
    ctx.bonuses.push(BonusEntity {
        entity: 778,
        bonus_type: BonusType::SplitBall,
        position: Vec2 { x: 0, y: 0 },
    });
    let events = vec![GameCollisionEvent::BallAndBonus {
        status: CollisionStatus::Started,
        ball: id,
        bonus: 778,
    }];
    let taken = ctx.manage_taken_bonuses(&events);
    assert_eq!(taken.len(), 1);
    assert_eq!(taken[0].bonus, Bonus::SplitBall { ball: id });
    assert_eq!(taken[0].paddle, None);
    assert!(ctx.bonuses.is_empty());
}

#[test]
fn simultaneous_goals_resolve_in_event_order() {
    let mut ctx = fresh_waiting_context();
    ctx.state = States::InGame;
    let first = ctx.balls[0];
    let mut second = first;
    second.entity = first.entity + 1;
    ctx.balls.push(second);
    let events = vec![
        GameCollisionEvent::BallAndGoal {
            status: CollisionStatus::Started,
            ball: first.entity,
            goal: ctx.player_goal.entity,
        },
        GameCollisionEvent::BallAndGoal {
            status: CollisionStatus::Started,
            ball: second.entity,
            goal: ctx.player_goal.entity,
        },
    ];
    ctx.track_scoring_balls(&events);
    assert_eq!(ctx.score.player_health, MAX_HEALTH - 2);
    assert!(ctx.balls.is_empty());
}

#[test]
fn one_bonus_is_consumed_at_most_once() {
    let mut ctx = fresh_waiting_context();
    ctx.state = States::InGame;
    let first = ctx.balls[0];
    let mut second = first;
    second.entity = first.entity + 1;
    ctx.balls.push(second);
    ctx.balls[0].last_touched_paddle = Some(Paddle::Player);
    ctx.balls[1].last_touched_paddle = Some(Paddle::Computer);
    ctx.bonuses.push(BonusEntity {
        entity: 900,
        bonus_type: BonusType::IncreasePaddleSize,
        position: Vec2 { x: 0, y: 0 },
    });
    // both balls report touching the same bonus in one tick; only the
    // first pickup resolves, the second finds it already despawned
    let events = vec![
        GameCollisionEvent::BallAndBonus {
            status: CollisionStatus::Started,
            ball: first.entity,
            bonus: 900,
        },
        GameCollisionEvent::BallAndBonus {
            status: CollisionStatus::Started,
            ball: second.entity,
            bonus: 900,
        },
    ];
    let taken = ctx.manage_taken_bonuses(&events);
    assert_eq!(taken.len(), 1);
    assert_eq!(taken[0].paddle, Some(Paddle::Player));
    assert!(ctx.bonuses.is_empty());
}

#[test]
fn gravity_take_sets_every_acceleration() {
    let mut ctx = fresh_waiting_context();
    ctx.state = States::InGame;
    let taken = vec![TakenBonusEvent {
        bonus: Bonus::BallsVerticalGravity { benefiting_paddle: Paddle::Player },
        paddle: Some(Paddle::Player),
    }];
    ctx.manage_balls_vertical_gravity_bonus(&taken);
    assert_eq!(ctx.balls[0].acceleration, Vec2 { x: -9_810, y: 0 });
}

#[test]
fn launch_gives_every_ball_a_forward_biased_velocity() {
    for _ in 0..12 {
        let mut ctx = fresh_waiting_context();
        ctx.tick_waiting(InputState {
            up_pressed: false,
            down_pressed: false,
            launch_just_released: true,
        });
        assert_eq!(ctx.state, States::InGame);
        let v = ctx.balls[0].velocity;
        assert_ne!(v.x, 0);
        // the vertical component clears the stall epsilon, so a fresh
        // launch never ends the round on its first tick
        assert!(v.y.abs() >= 100);
        assert!(v.y.abs() <= v.x.abs());
        let n = (v.x as i128) * (v.x as i128) + (v.y as i128) * (v.y as i128);
        assert!(n <= 100_000_000);
        assert!(n >= 100_000_000 - 20_000);
    }
}

#[test]
fn launch_waits_until_the_control_is_released() {
    let mut ctx = fresh_waiting_context();
    ctx.tick_waiting(idle_input());
    assert_eq!(ctx.state, States::WaitingPlayer);
    assert_eq!(ctx.balls[0].velocity, Vec2 { x: 0, y: 0 });
}

#[test]
fn spawned_bonuses_land_inside_the_field_band() {
    for _ in 0..8 {
        let mut ctx = fresh_waiting_context();
        ctx.state = States::InGame;
        let reqs = vec![
            SpawnBonusEvent(BonusType::SplitBall),
            SpawnBonusEvent(BonusType::ShrinkPaddleSize),
        ];
        ctx.spawn_bonuses(&reqs);
        assert_eq!(ctx.bonuses.len(), 2);
        assert_eq!(ctx.bonuses[0].bonus_type, BonusType::SplitBall);
        assert_eq!(ctx.bonuses[1].bonus_type, BonusType::ShrinkPaddleSize);
        for b in ctx.bonuses.iter() {
            assert!(b.position.x >= -10_000 && b.position.x <= 10_000);
            assert!(b.position.y >= -5_500 && b.position.y <= 5_500);
        }
    }
}

#[test]
fn stalled_balls_are_despawned() {
    let mut ctx = fresh_waiting_context();
    ctx.state = States::InGame;
    let template = ctx.balls[0];
    let mut flat = template;
    flat.entity = 500;
    flat.velocity = Vec2 { x: 5_000, y: 50 };
    let mut live = template;
    live.entity = 501;
    live.velocity = Vec2 { x: 5_000, y: 5_000 };
    ctx.balls = vec![flat, live];
    ctx.despawn_stalled_balls();
    assert_eq!(ctx.balls.len(), 1);
    assert_eq!(ctx.balls[0].entity, 501);
}

#[test]
fn ccd_is_enabled_on_every_ball() {
    let mut ctx = fresh_waiting_context();
    assert!(!ctx.balls[0].ccd_enabled);
    ctx.enable_spawned_balls_ccd();
    assert!(ctx.balls[0].ccd_enabled);
}

#[test]
fn physics_writes_are_applied_to_the_named_ball() {
    let mut ctx = fresh_waiting_context();
    ctx.state = States::InGame;
    let id = ctx.balls[0].entity;
    let updates = vec![pong_core::context::PhysicsUpdate {
        entity: id,
        position: Vec2 { x: 3_000, y: -2_000 },
        velocity: Vec2 { x: 9_000, y: 1_000 },
    }];
    ctx.apply_physics_updates(&updates);
    assert_eq!(ctx.balls[0].position, Vec2 { x: 3_000, y: -2_000 });
    assert_eq!(ctx.balls[0].velocity, Vec2 { x: 9_000, y: 1_000 });
}

#[test]
fn in_game_tick_bounds_every_ball_speed() {
    let mut ctx = fresh_waiting_context();
    ctx.tick_waiting(InputState {
        up_pressed: false,
        down_pressed: false,
        launch_just_released: true,
    });
    assert_eq!(ctx.state, States::InGame);
    ctx.balls[0].velocity = Vec2 { x: 90_000, y: 50_000 };
    ctx.tick_in_game(&Vec::new(), &Vec::new(), idle_input(), 16);
    for b in ctx.balls.iter() {
        let n = (b.velocity.x as i128) * (b.velocity.x as i128)
            + (b.velocity.y as i128) * (b.velocity.y as i128);
        assert!(n <= (30_000i128) * 30_000);
    }
}

#[test]
fn paddle_blips_count_paddle_contacts_only() {
    let events = vec![
        GameCollisionEvent::BallAndPaddle {
            status: CollisionStatus::Started,
            ball: 1,
            paddle: 2,
        },
        GameCollisionEvent::BallAndEdge { status: CollisionStatus::Started, ball: 1, edge: 3 },
        GameCollisionEvent::BallAndPaddle {
            status: CollisionStatus::Stopped,
            ball: 1,
            paddle: 2,
        },
    ];
    assert_eq!(pong_core::context::blip_on_ball_collisions(&events), 2);
}

#[test]
fn crossing_into_a_boosted_half_scales_the_crossing_ball() {
    let mut ctx = fresh_waiting_context();
    ctx.state = States::InGame;
    // the player holds one area-speed boost; the ball crosses into the
    // computer half and is scaled up by 1 + 1.5
    ctx.score.player_bonuses.push(Bonus::BallSpeedInArea { benefiting_paddle: Paddle::Player });
    let id = ctx.balls[0].entity;
    ctx.balls[0].velocity = Vec2 { x: -4_000, y: 2_000 };
    let events = vec![GameCollisionEvent::BallAndSide {
        status: CollisionStatus::Started,
        ball: id,
        side: ctx.computer_side.entity,
    }];
    ctx.manage_ball_speed_on_area_bonus(&Vec::new(), &events);
    assert_eq!(ctx.balls[0].velocity, Vec2 { x: -10_000, y: 5_000 });
    // leaving the half scales back down to the original velocity
    let leave = vec![GameCollisionEvent::BallAndSide {
        status: CollisionStatus::Stopped,
        ball: id,
        side: ctx.computer_side.entity,
    }];
    ctx.manage_ball_speed_on_area_bonus(&Vec::new(), &leave);
    assert_eq!(ctx.balls[0].velocity, Vec2 { x: -4_000, y: 2_000 });
}

#[test]
fn area_take_adjusts_balls_already_in_a_half() {
    let mut ctx = fresh_waiting_context();
    ctx.state = States::InGame;
    ctx.score.player_bonuses.push(Bonus::BallSpeedInArea { benefiting_paddle: Paddle::Player });
    ctx.balls[0].velocity = Vec2 { x: 2_000, y: 0 };
    ctx.balls[0].current_side = Some(pong_core::actors::Side::Computer);
    let taken = vec![TakenBonusEvent {
        bonus: Bonus::BallSpeedInArea { benefiting_paddle: Paddle::Player },
        paddle: Some(Paddle::Player),
    }];
    ctx.manage_ball_speed_on_area_bonus(&taken, &Vec::new());
    assert_eq!(ctx.balls[0].velocity, Vec2 { x: 5_000, y: 0 });
}

#[test]
fn lifebar_projection_follows_health() {
    let mut ctx = fresh_waiting_context();
    ctx.score.player_health = 7;
    assert_eq!(ctx.lifebar_display_index(pong_core::context::Lifebar::Player), 7);
    assert_eq!(ctx.lifebar_display_index(pong_core::context::Lifebar::Computer), 15);
}
