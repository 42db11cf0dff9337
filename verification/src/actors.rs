//! Paddles and balls: identities, per-entity state, movement and the
//! paddle-size band.
//!
//! The player paddle sits on the right of the field, the computer paddle on
//! the left. Paddles move only on the vertical axis; their horizontal
//! position is fixed. Balls carry velocity, acceleration and the bookkeeping
//! the bonus economy needs: how many paddle touches they took, which paddle
//! touched them last, and which half of the field they are currently in.

use vstd::prelude::*;
use crate::geometry::{abs, Vec2, COMPONENT_LIMIT};

verus! {

/// Vertical reach of a paddle's center, in milli-units.
pub const PADDLE_Y_LIMIT: i64 = 8_000;

/// Fixed horizontal position of the player paddle (the computer paddle sits
/// at the negation).
pub const PADDLE_X: i64 = 11_000;

/// Smallest collision half-height a paddle can be shrunk to.
pub const PADDLE_MIN_HALF_HEIGHT: i64 = 500;

/// Largest collision half-height a paddle can be grown to.
pub const PADDLE_MAX_HALF_HEIGHT: i64 = 5_000;

/// Half-height change of one shrink or grow bonus application.
pub const PADDLE_SIZE_STEP: i64 = 300;

/// Default collision half-height of the player paddle.
pub const PLAYER_PADDLE_HALF_HEIGHT: i64 = 2_500;

/// Default collision half-height of the computer paddle.
pub const COMPUTER_PADDLE_HALF_HEIGHT: i64 = 4_000;

/// Vertical speed magnitude under which a paddle reads as standing still
/// for the tilt rule.
pub const TILT_THRESHOLD: i64 = 100;

/// Vertical gap under which the computer paddle stops chasing a ball.
pub const AI_DEAD_ZONE: i64 = 1_000;

/// Longest simulation tick accepted, in milliseconds.
pub const TICK_MS_LIMIT: u64 = 10_000;

/// Vertical speed magnitude under which a ball counts as stalled.
pub const STALL_EPSILON: i64 = 100;

/// The two competing sides, used as the identity of a paddle.
#[derive(Clone, Copy, PartialEq, Eq, Structural, Debug)]
pub enum Paddle {
    Player,
    Computer,
}

impl Paddle {
    /// The opposite paddle.
    pub open spec fn spec_reverse(self) -> Paddle {
        match self {
            Paddle::Player => Paddle::Computer,
            Paddle::Computer => Paddle::Player,
        }
    }

    /// The opposite paddle.
    pub fn reverse(&self) -> (r: Paddle)
        ensures
            r == self.spec_reverse(),
    {
        match self {
            Paddle::Player => Paddle::Computer,
            Paddle::Computer => Paddle::Player,
        }
    }
}

/// Identity of a goal region: the goal behind the named side's paddle, whose
/// entry costs that side one health point.
#[derive(Clone, Copy, PartialEq, Eq, Structural, Debug)]
pub enum Goal {
    Player,
    Computer,
}

/// Identity of a half-field sensor region.
#[derive(Clone, Copy, PartialEq, Eq, Structural, Debug)]
pub enum Side {
    Player,
    Computer,
}

/// Paddle rotation, derived every tick from the vertical velocity sign.
#[derive(Clone, Copy, PartialEq, Eq, Structural, Debug)]
pub enum Tilt {
    Upright,
    TowardUp,
    TowardDown,
}

/// The directional signal the player's input device currently gives.
#[derive(Clone, Copy, PartialEq, Eq, Structural, Debug)]
pub enum InputDirection {
    Up,
    Down,
    Neutral,
}

/// State of one paddle. The horizontal position is fixed by the identity;
/// only the vertical position moves.
#[derive(Clone, Copy, PartialEq, Eq, Structural, Debug)]
pub struct PaddleState {
    pub paddle: Paddle,
    pub entity: u64,
    pub y: i64,
    pub velocity_y: i64,
    pub half_height: i64,
    pub tilt: Tilt,
    pub ccd_enabled: bool,
}

/// One ball in play.
#[derive(Clone, Copy, Debug)]
pub struct Ball {
    pub entity: u64,
    pub position: Vec2,
    pub velocity: Vec2,
    pub acceleration: Vec2,
    pub touched_paddles: usize,
    pub last_touched_paddle: Option<Paddle>,
    pub current_side: Option<Side>,
    pub ccd_enabled: bool,
}

/// Fixed horizontal position of a paddle.
pub open spec fn paddle_x(p: Paddle) -> int {
    match p {
        Paddle::Player => PADDLE_X as int,
        Paddle::Computer => -(PADDLE_X as int),
    }
}

/// Default collision half-height of a paddle.
pub open spec fn spec_default_half_height(p: Paddle) -> int {
    match p {
        Paddle::Player => PLAYER_PADDLE_HALF_HEIGHT as int,
        Paddle::Computer => COMPUTER_PADDLE_HALF_HEIGHT as int,
    }
}

/// Default collision half-height of a paddle.
pub fn default_half_height(p: Paddle) -> (r: i64)
    ensures
        r == spec_default_half_height(p),
{
    match p {
        Paddle::Player => PLAYER_PADDLE_HALF_HEIGHT,
        Paddle::Computer => COMPUTER_PADDLE_HALF_HEIGHT,
    }
}

/// A paddle's state is well formed: position within the playable range,
/// half-height within the clamp band, speed within the paddle speed.
pub open spec fn paddle_wf(p: PaddleState) -> bool {
    &&& -PADDLE_Y_LIMIT <= p.y <= PADDLE_Y_LIMIT
    &&& PADDLE_MIN_HALF_HEIGHT <= p.half_height <= PADDLE_MAX_HALF_HEIGHT
    &&& -crate::PADDLE_SPEED <= p.velocity_y <= crate::PADDLE_SPEED
}

/// A ball's state is well formed: all components within the machine cap.
pub open spec fn ball_wf(b: Ball) -> bool {
    &&& abs(b.position.x as int) <= COMPONENT_LIMIT
    &&& abs(b.position.y as int) <= COMPONENT_LIMIT
    &&& abs(b.velocity.x as int) <= COMPONENT_LIMIT
    &&& abs(b.velocity.y as int) <= COMPONENT_LIMIT
    &&& abs(b.acceleration.x as int) <= COMPONENT_LIMIT
    &&& abs(b.acceleration.y as int) <= COMPONENT_LIMIT
}

impl PaddleState {
    /// A paddle in its start-of-round state: centered, still, upright, at
    /// its default size, continuous collision detection not yet enabled.
    pub fn new(paddle: Paddle, entity: u64) -> (r: PaddleState)
        ensures
            r == (PaddleState {
                paddle,
                entity,
                y: 0,
                velocity_y: 0,
                half_height: spec_default_half_height(paddle) as i64,
                tilt: Tilt::Upright,
                ccd_enabled: false,
            }),
            paddle_wf(r),
    {
        PaddleState {
            paddle,
            entity,
            y: 0,
            velocity_y: 0,
            half_height: default_half_height(paddle),
            tilt: Tilt::Upright,
            ccd_enabled: false,
        }
    }
}

impl Ball {
    /// A fresh ball: at the given position, motionless, with empty
    /// bookkeeping, continuous collision detection not yet enabled.
    pub fn new(entity: u64, position: Vec2) -> (r: Ball)
        requires
            abs(position.x as int) <= COMPONENT_LIMIT,
            abs(position.y as int) <= COMPONENT_LIMIT,
        ensures
            r.entity == entity,
            r.position == position,
            r.velocity.x == 0 && r.velocity.y == 0,
            r.acceleration.x == 0 && r.acceleration.y == 0,
            r.touched_paddles == 0,
            r.last_touched_paddle is None,
            r.current_side is None,
            !r.ccd_enabled,
            ball_wf(r),
    {
        Ball {
            entity,
            position,
            velocity: Vec2::zero(),
            acceleration: Vec2::zero(),
            touched_paddles: 0,
            last_touched_paddle: None,
            current_side: None,
            ccd_enabled: false,
        }
    }

    /// Whether the ball is stuck in a near-horizontal trajectory. An earlier
    /// rule variant despawns such balls; the despawn pass is exposed
    /// separately and is optional for embedders to run.
    pub fn is_stalled(&self) -> (r: bool)
        ensures
            r == ball_stalled(*self),
    {
        -STALL_EPSILON < self.velocity.y && self.velocity.y < STALL_EPSILON
    }
}

/// Whether a ball's vertical speed is under the stall epsilon.
pub open spec fn ball_stalled(b: Ball) -> bool {
    abs(b.velocity.y as int) < STALL_EPSILON
}

/// An integer clamped into `[lo, hi]`.
pub open spec fn clamped(x: int, lo: int, hi: int) -> int {
    if x < lo {
        lo
    } else if x > hi {
        hi
    } else {
        x
    }
}

/// The sign of a directional input.
pub open spec fn direction_sign(d: InputDirection) -> int {
    match d {
        InputDirection::Up => 1,
        InputDirection::Down => -1,
        InputDirection::Neutral => 0,
    }
}

/// Distance a paddle travels at full speed in `dt_ms` milliseconds.
pub open spec fn paddle_step(dt_ms: int) -> int {
    dt_ms * crate::PADDLE_SPEED / 1000
}

/// Drive the player paddle from the directional input: the vertical
/// velocity is set to the signed paddle speed and the position is advanced
/// by the same velocity over the tick, clamped to the playable range. Both
/// are written together so the physics body and the directly integrated
/// position stay in sync.
pub fn move_player_paddle(p: &mut PaddleState, dir: InputDirection, dt_ms: u64)
    requires
        paddle_wf(*old(p)),
        dt_ms <= TICK_MS_LIMIT,
    ensures
        final(p).velocity_y == direction_sign(dir) * crate::PADDLE_SPEED,
        final(p).y == clamped(
            old(p).y + direction_sign(dir) * paddle_step(dt_ms as int),
            -PADDLE_Y_LIMIT as int,
            PADDLE_Y_LIMIT as int,
        ),
        *final(p) == (PaddleState {
            y: final(p).y,
            velocity_y: final(p).velocity_y,
            ..*old(p)
        }),
        paddle_wf(*final(p)),
{
    let step = (dt_ms as i64) * crate::PADDLE_SPEED / 1000;
    let (vel, target): (i64, i64) = match dir {
        InputDirection::Up => (crate::PADDLE_SPEED, p.y + step),
        InputDirection::Down => (-crate::PADDLE_SPEED, p.y - step),
        InputDirection::Neutral => (0, p.y),
    };
    p.velocity_y = vel;
    p.y = clamp_i64(target, -PADDLE_Y_LIMIT, PADDLE_Y_LIMIT);
}

/// An integer clamped into `[lo, hi]`.
pub fn clamp_i64(x: i64, lo: i64, hi: i64) -> (r: i64)
    requires
        lo <= hi,
    ensures
        r == clamped(x as int, lo as int, hi as int),
{
    if x < lo {
        lo
    } else if x > hi {
        hi
    } else {
        x
    }
}

/// Horizontal distance from a ball to the vertical line `px`.
pub open spec fn horizontal_dist(b: Ball, px: int) -> int {
    abs(b.position.x - px)
}

/// Index of the ball nearest to the vertical line `px` by horizontal
/// distance alone; the first one wins a tie.
pub open spec fn is_first_nearest(balls: Seq<Ball>, px: int, j: int) -> bool {
    &&& 0 <= j < balls.len()
    &&& forall|k: int|
        0 <= k < balls.len() ==> horizontal_dist(balls[j], px) <= horizontal_dist(
            #[trigger] balls[k],
            px,
        )
    &&& forall|k: int|
        0 <= k < j ==> horizontal_dist(#[trigger] balls[k], px) > horizontal_dist(balls[j], px)
}

/// Find the ball about to reach the line `px`: smallest horizontal
/// distance, first index on a tie.
pub fn nearest_ball_horizontal(balls: &Vec<Ball>, px: i64) -> (r: usize)
    requires
        balls.len() > 0,
        forall|k: int| 0 <= k < balls@.len() ==> ball_wf(#[trigger] balls@[k]),
        -PADDLE_X <= px <= PADDLE_X,
    ensures
        is_first_nearest(balls@, px as int, r as int),
{
    let mut best: usize = 0;
    let mut best_dist: i64 = ball_h_dist(balls[0], px);
    let mut i: usize = 1;
    while i < balls.len()
        invariant
            1 <= i <= balls.len(),
            best < i,
            forall|k: int| 0 <= k < balls@.len() ==> ball_wf(#[trigger] balls@[k]),
            -PADDLE_X <= px <= PADDLE_X,
            best_dist == horizontal_dist(balls@[best as int], px as int),
            forall|k: int|
                0 <= k < i ==> best_dist <= horizontal_dist(#[trigger] balls@[k], px as int),
            forall|k: int|
                0 <= k < best ==> horizontal_dist(#[trigger] balls@[k], px as int) > best_dist,
        decreases balls.len() - i,
    {
        let d = ball_h_dist(balls[i], px);
        if d < best_dist {
            best = i;
            best_dist = d;
        }
        i = i + 1;
    }
    best
}

/// Horizontal distance from a ball to the line `px`.
fn ball_h_dist(b: Ball, px: i64) -> (r: i64)
    requires
        ball_wf(b),
        -PADDLE_X <= px <= PADDLE_X,
    ensures
        r == horizontal_dist(b, px as int),
{
    let d = b.position.x - px;
    if d < 0 {
        -d
    } else {
        d
    }
}

/// The vertical speed the computer paddle picks while chasing a ball whose
/// vertical gap to it is `dy`: hold inside the dead zone, full speed toward
/// the ball outside it.
pub open spec fn ai_speed(dy: int) -> int {
    if -AI_DEAD_ZONE < dy < AI_DEAD_ZONE {
        0
    } else if dy < 0 {
        -crate::PADDLE_SPEED as int
    } else {
        crate::PADDLE_SPEED as int
    }
}

/// Drive the computer paddle: chase the ball with the smallest horizontal
/// distance to the paddle's own line (the one about to reach its side). If
/// no ball exists the paddle holds still.
pub fn move_computer_paddle(p: &mut PaddleState, balls: &Vec<Ball>, dt_ms: u64)
    requires
        paddle_wf(*old(p)),
        old(p).paddle == Paddle::Computer,
        dt_ms <= TICK_MS_LIMIT,
        forall|k: int| 0 <= k < balls@.len() ==> ball_wf(#[trigger] balls@[k]),
    ensures
        balls@.len() == 0 ==> *final(p) == *old(p),
        balls@.len() > 0 ==> exists|j: int|
            #[trigger] is_first_nearest(balls@, paddle_x(Paddle::Computer), j) && {
                let speed = ai_speed(balls@[j].position.y - old(p).y);
                &&& final(p).velocity_y == speed
                &&& final(p).y == clamped(
                    old(p).y + speed * dt_ms / 1000,
                    -PADDLE_Y_LIMIT as int,
                    PADDLE_Y_LIMIT as int,
                )
            },
        *final(p) == (PaddleState {
            y: final(p).y,
            velocity_y: final(p).velocity_y,
            ..*old(p)
        }),
        paddle_wf(*final(p)),
{
    if balls.len() == 0 {
        return ;
    }
    let j = nearest_ball_horizontal(balls, -PADDLE_X);
    proof {
        assert(is_first_nearest(balls@, paddle_x(Paddle::Computer), j as int));
    }
    let target_y = balls[j].position.y;
    let step = (dt_ms as i64) * crate::PADDLE_SPEED / 1000;
    let dy = target_y - p.y;
    if -AI_DEAD_ZONE < dy && dy < AI_DEAD_ZONE {
        p.velocity_y = 0;
        assert(ai_speed(dy as int) == 0);
        assert(0 * dt_ms as int / 1000 == 0) by {
            vstd::arithmetic::div_mod::lemma_div_of0(1000);
        }
    } else if dy < 0 {
        p.velocity_y = -crate::PADDLE_SPEED;
        p.y = clamp_i64(p.y - step, -PADDLE_Y_LIMIT, PADDLE_Y_LIMIT);
        assert((-crate::PADDLE_SPEED as int) * dt_ms == -((dt_ms as int) * crate::PADDLE_SPEED))
            by (nonlinear_arith)
        ;
        assert(-((dt_ms as int) * crate::PADDLE_SPEED) / 1000 == -((dt_ms as int)
            * crate::PADDLE_SPEED / 1000)) by {
            lemma_neg_div_exactish(dt_ms as int);
        }
    } else {
        p.velocity_y = crate::PADDLE_SPEED;
        p.y = clamp_i64(p.y + step, -PADDLE_Y_LIMIT, PADDLE_Y_LIMIT);
        assert((crate::PADDLE_SPEED as int) * dt_ms == (dt_ms as int) * crate::PADDLE_SPEED)
            by (nonlinear_arith)
        ;
    }
}

/// `dt * PADDLE_SPEED` is a multiple of 1000, so negating it commutes with
/// the division by 1000.
proof fn lemma_neg_div_exactish(dt: int)
    requires
        0 <= dt,
    ensures
        -(dt * crate::PADDLE_SPEED) / 1000 == -(dt * crate::PADDLE_SPEED / 1000),
{
    assert(dt * crate::PADDLE_SPEED == 1000 * (dt * 10)) by (nonlinear_arith);
    vstd::arithmetic::div_mod::lemma_div_multiples_vanish(dt * 10, 1000);
    assert(-(dt * crate::PADDLE_SPEED) == 1000 * (-(dt * 10))) by (nonlinear_arith)
        requires
            dt * crate::PADDLE_SPEED == 1000 * (dt * 10),
    ;
    vstd::arithmetic::div_mod::lemma_div_multiples_vanish(-(dt * 10), 1000);
}

/// The tilt a paddle shows for a vertical velocity.
pub open spec fn tilt_for(vy: int) -> Tilt {
    if vy > TILT_THRESHOLD {
        Tilt::TowardUp
    } else if vy < -TILT_THRESHOLD {
        Tilt::TowardDown
    } else {
        Tilt::Upright
    }
}

/// Recompute a paddle's rotation purely from its current vertical velocity:
/// tilted one way while moving up, the other while moving down, upright
/// when near still. Nothing else of the paddle changes.
pub fn tilt_paddle(p: &mut PaddleState)
    ensures
        *final(p) == (PaddleState { tilt: tilt_for(old(p).velocity_y as int), ..*old(p) }),
{
    if p.velocity_y > TILT_THRESHOLD {
        p.tilt = Tilt::TowardUp;
    } else if p.velocity_y < -TILT_THRESHOLD {
        p.tilt = Tilt::TowardDown;
    } else {
        p.tilt = Tilt::Upright;
    }
}

/// A half-height after one shrink application: one step down, clamped at
/// the minimum.
pub open spec fn shrunk_half_height(h: int) -> int {
    if h - PADDLE_SIZE_STEP > PADDLE_MIN_HALF_HEIGHT {
        h - PADDLE_SIZE_STEP
    } else {
        PADDLE_MIN_HALF_HEIGHT as int
    }
}

/// A half-height after one grow application: one step up, clamped at the
/// maximum.
pub open spec fn grown_half_height(h: int) -> int {
    if h + PADDLE_SIZE_STEP < PADDLE_MAX_HALF_HEIGHT {
        h + PADDLE_SIZE_STEP
    } else {
        PADDLE_MAX_HALF_HEIGHT as int
    }
}

/// Shrink a paddle by one bonus step, never below the minimum half-height.
pub fn shrink_paddle(p: &mut PaddleState)
    requires
        paddle_wf(*old(p)),
    ensures
        *final(p) == (PaddleState {
            half_height: shrunk_half_height(old(p).half_height as int) as i64,
            ..*old(p)
        }),
        paddle_wf(*final(p)),
{
    if p.half_height - PADDLE_SIZE_STEP > PADDLE_MIN_HALF_HEIGHT {
        p.half_height = p.half_height - PADDLE_SIZE_STEP;
    } else {
        p.half_height = PADDLE_MIN_HALF_HEIGHT;
    }
}

/// Grow a paddle by one bonus step, never above the maximum half-height.
pub fn grow_paddle(p: &mut PaddleState)
    requires
        paddle_wf(*old(p)),
    ensures
        *final(p) == (PaddleState {
            half_height: grown_half_height(old(p).half_height as int) as i64,
            ..*old(p)
        }),
        paddle_wf(*final(p)),
{
    if p.half_height + PADDLE_SIZE_STEP < PADDLE_MAX_HALF_HEIGHT {
        p.half_height = p.half_height + PADDLE_SIZE_STEP;
    } else {
        p.half_height = PADDLE_MAX_HALF_HEIGHT;
    }
}

/// A half-height after a whole sequence of shrink (`false`) and grow
/// (`true`) applications, in order.
pub open spec fn applied_size_ops(h: int, ops: Seq<bool>) -> int
    decreases ops.len(),
{
    if ops.len() == 0 {
        h
    } else {
        let prev = applied_size_ops(h, ops.drop_last());
        if ops.last() {
            grown_half_height(prev)
        } else {
            shrunk_half_height(prev)
        }
    }
}

/// A paddle's half-height stays within the configured band under any
/// number of stacked shrink and grow bonus applications, in any order.
pub proof fn lemma_paddle_size_stays_in_band(h: int, ops: Seq<bool>)
    requires
        PADDLE_MIN_HALF_HEIGHT <= h <= PADDLE_MAX_HALF_HEIGHT,
    ensures
        PADDLE_MIN_HALF_HEIGHT <= applied_size_ops(h, ops) <= PADDLE_MAX_HALF_HEIGHT,
    decreases ops.len(),
{
    if ops.len() > 0 {
        lemma_paddle_size_stays_in_band(h, ops.drop_last());
    }
}

} // verus!
