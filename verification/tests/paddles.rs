use pong_core::actors::{
    grow_paddle, move_computer_paddle, move_player_paddle, shrink_paddle, tilt_paddle, Ball,
    InputDirection, Paddle, PaddleState, Tilt, COMPUTER_PADDLE_HALF_HEIGHT,
    PADDLE_MAX_HALF_HEIGHT, PADDLE_MIN_HALF_HEIGHT,
};
use pong_core::geometry::Vec2;
use pong_core::PADDLE_SPEED;

fn ball_at(entity: u64, x: i64, y: i64) -> Ball {
    Ball {
        entity,
        position: Vec2 { x, y },
        velocity: Vec2 { x: 0, y: 0 },
        acceleration: Vec2 { x: 0, y: 0 },
        touched_paddles: 0,
        last_touched_paddle: None,
        current_side: None,
        ccd_enabled: false,
    }
}

#[test]
fn player_paddle_moves_up_with_input() {
    let mut p = PaddleState::new(Paddle::Player, 1);
    // 100 ms at 10 units/s moves one unit
    move_player_paddle(&mut p, InputDirection::Up, 100);
    assert_eq!(p.velocity_y, PADDLE_SPEED);
    assert_eq!(p.y, 1_000);
}

#[test]
fn player_paddle_moves_down_and_stops() {
    let mut p = PaddleState::new(Paddle::Player, 1);
    move_player_paddle(&mut p, InputDirection::Down, 250);
    assert_eq!(p.velocity_y, -PADDLE_SPEED);
    assert_eq!(p.y, -2_500);
    move_player_paddle(&mut p, InputDirection::Neutral, 250);
    assert_eq!(p.velocity_y, 0);
    assert_eq!(p.y, -2_500);
}

#[test]
fn player_paddle_position_clamps_to_playable_range() {
    let mut p = PaddleState::new(Paddle::Player, 1);
    for _ in 0..10 {
        move_player_paddle(&mut p, InputDirection::Up, 1_000);
    }
    assert_eq!(p.y, 8_000);
}

#[test]
fn computer_paddle_holds_still_without_balls() {
    let mut p = PaddleState::new(Paddle::Computer, 2);
    let before = p;
    move_computer_paddle(&mut p, &Vec::new(), 100);
    assert_eq!(p, before);
}

#[test]
fn computer_paddle_chases_nearest_horizontal_ball() {
    let mut p = PaddleState::new(Paddle::Computer, 2);
    // the ball with the smaller horizontal distance to x = -11 wins, even
    // though the other is nearer in full 2D distance
    let far = ball_at(10, 6_000, 100);
    let near = ball_at(11, -6_000, 5_000);
    move_computer_paddle(&mut p, &vec![far, near], 100);
    assert_eq!(p.velocity_y, PADDLE_SPEED);
    assert_eq!(p.y, 1_000);
}

#[test]
fn computer_paddle_dead_zone_stops_it() {
    let mut p = PaddleState::new(Paddle::Computer, 2);
    let b = ball_at(10, -6_000, 900);
    move_computer_paddle(&mut p, &vec![b], 100);
    assert_eq!(p.velocity_y, 0);
    assert_eq!(p.y, 0);
}

#[test]
fn computer_paddle_moves_down_toward_low_ball() {
    let mut p = PaddleState::new(Paddle::Computer, 2);
    let b = ball_at(10, -6_000, -4_000);
    move_computer_paddle(&mut p, &vec![b], 200);
    assert_eq!(p.velocity_y, -PADDLE_SPEED);
    assert_eq!(p.y, -2_000);
}

#[test]
fn tilt_follows_velocity_sign() {
    let mut p = PaddleState::new(Paddle::Player, 1);
    p.velocity_y = 5_000;
    tilt_paddle(&mut p);
    assert_eq!(p.tilt, Tilt::TowardUp);
    p.velocity_y = -5_000;
    tilt_paddle(&mut p);
    assert_eq!(p.tilt, Tilt::TowardDown);
    p.velocity_y = 50;
    tilt_paddle(&mut p);
    assert_eq!(p.tilt, Tilt::Upright);
}

#[test]
fn shrink_steps_down_and_clamps_at_minimum() {
    let mut p = PaddleState::new(Paddle::Computer, 2);
    assert_eq!(p.half_height, COMPUTER_PADDLE_HALF_HEIGHT);
    shrink_paddle(&mut p);
    assert_eq!(p.half_height, 3_700);
    for _ in 0..30 {
        shrink_paddle(&mut p);
    }
    assert_eq!(p.half_height, PADDLE_MIN_HALF_HEIGHT);
}

#[test]
fn grow_steps_up_and_clamps_at_maximum() {
    let mut p = PaddleState::new(Paddle::Player, 1);
    grow_paddle(&mut p);
    assert_eq!(p.half_height, 2_800);
    for _ in 0..30 {
        grow_paddle(&mut p);
    }
    assert_eq!(p.half_height, PADDLE_MAX_HALF_HEIGHT);
}

#[test]
fn size_stays_in_band_under_mixed_applications() {
    let mut p = PaddleState::new(Paddle::Player, 1);
    for i in 0..100 {
        if i % 3 == 0 {
            grow_paddle(&mut p);
        } else {
            shrink_paddle(&mut p);
        }
        assert!(p.half_height >= PADDLE_MIN_HALF_HEIGHT);
        assert!(p.half_height <= PADDLE_MAX_HALF_HEIGHT);
    }
}

#[test]
fn reverse_swaps_paddles() {
    assert_eq!(Paddle::Player.reverse(), Paddle::Computer);
    assert_eq!(Paddle::Computer.reverse(), Paddle::Player);
}
