//! The simulation context and the per-tick systems that drive it.
//!
//! One `SimulationContext` value holds the whole match: the state machine,
//! all entities, the score and the bonus timers. Within a tick the systems
//! run in a fixed, documented order — classification, then the gameplay
//! consumers, then the physics-affecting mutations, then the state-machine
//! re-evaluation — so an event produced in a tick is seen by every consumer
//! of that tick exactly once and never again.

use vstd::prelude::*;
use crate::actors::{
    ai_speed, ball_stalled, ball_wf, clamped, direction_sign, is_first_nearest, paddle_step,
    paddle_wf, paddle_x, tilt_for, Ball, Goal, InputDirection, Paddle, PaddleState, Side, Tilt,
    COMPUTER_PADDLE_HALF_HEIGHT, PADDLE_Y_LIMIT, PLAYER_PADDLE_HALF_HEIGHT, TICK_MS_LIMIT,
};
use crate::bonus::{
    change_velocity, change_velocity_spec, count_area_bonuses, count_area_bonuses_held,
    fired_spawn_events, reset_bonuses_timers, resolve_taken_bonus, resolved_bonus, timer_ticked,
    timers_wf, Bonus, BonusEntity, BonusesTimers, TakenBonusEvent, Timer,
};
use crate::collisions::{
    classified_events, produce_game_collision_events, CollisionStatus, ContactRecord,
    GameCollisionEvent,
};
use crate::score::bonuses_taken_for;
use crate::geometry::{
    abs, lemma_scaled_or_same_bounded, norm_sq, scale_velocity, scaled_or_same, speed_clamped,
    Vec2, COMPONENT_LIMIT,
};
use crate::score::{sat_inc, score_wf, GameScore, MAX_HEALTH};

verus! {

/// Numerator of the speed-up a ball takes from a resolved paddle contact:
/// the factor is 21/20, that is `1 + 0.05`.
pub const BALL_TOUCH_PADDLE_SPEEDUP_NUM: u64 = 21;

/// Denominator of the paddle-contact speed-up factor.
pub const BALL_TOUCH_PADDLE_SPEEDUP_DEN: u64 = 20;

/// Numerator of the speed-up a ball takes from a resolved edge contact:
/// the factor is 41/40, that is `1 + 0.025`, half the paddle speed-up.
pub const BALL_TOUCH_EDGE_SPEEDUP_NUM: u64 = 41;

/// Denominator of the edge-contact speed-up factor.
pub const BALL_TOUCH_EDGE_SPEEDUP_DEN: u64 = 40;

/// Half-width of the horizontal band bonuses spawn in.
pub const BONUS_FIELD_X: i64 = 10_000;

/// Half-height of the vertical band bonuses spawn in.
pub const BONUS_FIELD_Y: i64 = 5_500;

/// Horizontal acceleration magnitude of the gravity bonus.
pub const GRAVITY_ACCEL: i64 = 9_810;

/// The lifecycle of a match.
#[derive(Clone, Copy, PartialEq, Eq, Structural, Debug, Hash)]
pub enum States {
    AssetLoading,
    InitGame,
    WaitingPlayer,
    InGame,
}

/// The closed transition set of the match state machine: assets ready,
/// one-time field setup done, ball launched, and all balls gone. No other
/// transition exists; requesting one is a programming error, which the
/// systems below rule out by precondition.
pub open spec fn valid_transition(from: States, to: States) -> bool {
    ||| from == States::AssetLoading && to == States::InitGame
    ||| from == States::InitGame && to == States::WaitingPlayer
    ||| from == States::WaitingPlayer && to == States::InGame
    ||| from == States::InGame && to == States::WaitingPlayer
}

/// The launch and movement signals the input device currently gives.
#[derive(Clone, Copy, PartialEq, Eq, Structural, Debug)]
pub struct InputState {
    pub up_pressed: bool,
    pub down_pressed: bool,
    pub launch_just_released: bool,
}

/// A goal sensor region at one horizontal extreme of the field.
#[derive(Clone, Copy, PartialEq, Eq, Structural, Debug)]
pub struct GoalRegion {
    pub entity: u64,
    pub goal: Goal,
    pub center: Vec2,
    pub half_extent: Vec2,
}

/// A reflecting edge region along the top or bottom field boundary.
#[derive(Clone, Copy, PartialEq, Eq, Structural, Debug)]
pub struct EdgeRegion {
    pub entity: u64,
    pub center: Vec2,
    pub half_extent: Vec2,
}

/// A sensor region covering one half of the field.
#[derive(Clone, Copy, PartialEq, Eq, Structural, Debug)]
pub struct SideRegion {
    pub entity: u64,
    pub side: Side,
    pub center: Vec2,
    pub half_extent: Vec2,
}

/// A decorative horizontal field line.
#[derive(Clone, Copy, PartialEq, Eq, Structural, Debug)]
pub struct FieldLine {
    pub center: Vec2,
    pub size: Vec2,
}

/// Identity of a lifebar display.
#[derive(Clone, Copy, PartialEq, Eq, Structural, Debug)]
pub enum Lifebar {
    Player,
    Computer,
}

/// Where and how a side's lifebar is displayed. The sprite index it shows
/// is a pure projection of the score, never stored.
#[derive(Clone, Copy, PartialEq, Eq, Structural, Debug)]
pub struct LifebarSprite {
    pub lifebar: Lifebar,
    pub center: Vec2,
    pub size: Vec2,
    pub flip_x: bool,
}

/// The whole simulation state of one match.
#[derive(Clone, Debug)]
pub struct SimulationContext {
    pub state: States,
    pub next_entity_id: u64,
    pub balls: Vec<Ball>,
    pub player_paddle: PaddleState,
    pub computer_paddle: PaddleState,
    pub player_goal: GoalRegion,
    pub computer_goal: GoalRegion,
    pub top_edge: EdgeRegion,
    pub bottom_edge: EdgeRegion,
    pub player_side: SideRegion,
    pub computer_side: SideRegion,
    pub top_field_line: FieldLine,
    pub bottom_field_line: FieldLine,
    pub player_lifebar: LifebarSprite,
    pub computer_lifebar: LifebarSprite,
    pub bonuses: Vec<BonusEntity>,
    pub bonuses_timers: BonusesTimers,
    pub score: GameScore,
}

/// The context is well formed: every ball and both paddles within their
/// invariants, the timers and the score within theirs.
pub open spec fn ctx_wf(ctx: SimulationContext) -> bool {
    &&& forall|i: int| 0 <= i < ctx.balls@.len() ==> ball_wf(#[trigger] ctx.balls@[i])
    &&& paddle_wf(ctx.player_paddle)
    &&& ctx.player_paddle.paddle == Paddle::Player
    &&& paddle_wf(ctx.computer_paddle)
    &&& ctx.computer_paddle.paddle == Paddle::Computer
    &&& timers_wf(ctx.bonuses_timers)
    &&& score_wf(ctx.score)
}

/// An entity counter advanced by one, wrapping at the machine maximum.
pub open spec fn wrapped_inc(n: u64) -> u64 {
    if n == u64::MAX {
        0
    } else {
        (n + 1) as u64
    }
}

/// Index of the first ball with the given entity, or `-1`; scanning starts
/// at `i`.
pub open spec fn ball_index_from(balls: Seq<Ball>, entity: u64, i: int) -> int
    decreases balls.len() - i,
{
    if i < 0 || i >= balls.len() {
        -1
    } else if balls[i].entity == entity {
        i
    } else {
        ball_index_from(balls, entity, i + 1)
    }
}

/// Index of the first ball with the given entity, or `-1`.
pub open spec fn ball_index(balls: Seq<Ball>, entity: u64) -> int {
    ball_index_from(balls, entity, 0)
}

/// Look a ball up by its entity; a stale entity finds nothing.
pub fn find_ball(balls: &Vec<Ball>, entity: u64) -> (r: Option<usize>)
    ensures
        r matches Some(i) ==> ball_index(balls@, entity) == i as int && i < balls@.len()
            && balls@[i as int].entity == entity,
        r is None ==> ball_index(balls@, entity) == -1,
{
    let mut i: usize = 0;
    while i < balls.len()
        invariant
            i <= balls.len(),
            ball_index_from(balls@, entity, 0) == ball_index_from(balls@, entity, i as int),
        decreases balls.len() - i,
    {
        if balls[i].entity == entity {
            return Some(i);
        }
        i = i + 1;
    }
    None
}

/// Index of the first bonus entity with the given entity, or `-1`;
/// scanning starts at `i`.
pub open spec fn bonus_index_from(bonuses: Seq<BonusEntity>, entity: u64, i: int) -> int
    decreases bonuses.len() - i,
{
    if i < 0 || i >= bonuses.len() {
        -1
    } else if bonuses[i].entity == entity {
        i
    } else {
        bonus_index_from(bonuses, entity, i + 1)
    }
}

/// Index of the first bonus entity with the given entity, or `-1`.
pub open spec fn bonus_index(bonuses: Seq<BonusEntity>, entity: u64) -> int {
    bonus_index_from(bonuses, entity, 0)
}

/// Look a bonus entity up by its entity; one already despawned earlier in
/// the same tick finds nothing, so a bonus is consumed at most once.
pub fn find_bonus(bonuses: &Vec<BonusEntity>, entity: u64) -> (r: Option<usize>)
    ensures
        r matches Some(i) ==> bonus_index(bonuses@, entity) == i as int && i < bonuses@.len()
            && bonuses@[i as int].entity == entity,
        r is None ==> bonus_index(bonuses@, entity) == -1,
{
    let mut i: usize = 0;
    while i < bonuses.len()
        invariant
            i <= bonuses.len(),
            bonus_index_from(bonuses@, entity, 0) == bonus_index_from(bonuses@, entity, i as int),
        decreases bonuses.len() - i,
    {
        if bonuses[i].entity == entity {
            return Some(i);
        }
        i = i + 1;
    }
    None
}

/// The observable outcome of the round reset that every entry into
/// `WaitingPlayer` performs, relating the state just before the reset
/// to the state just after it: both paddles stopped, recentered,
/// upright and at their per-side default sizes; no bonus entities and
/// empty held-bonus lists; every spawn timer rewound; health and
/// round-win counters untouched; exactly one fresh motionless ball at
/// the field center; everything static unchanged.
pub open spec fn round_reset_outcome(pre: SimulationContext, post: SimulationContext) -> bool {
    &&& post.state == States::WaitingPlayer
    &&& post.player_paddle == (PaddleState {
        paddle: Paddle::Player,
        entity: pre.player_paddle.entity,
        y: 0,
        velocity_y: 0,
        half_height: PLAYER_PADDLE_HALF_HEIGHT,
        tilt: Tilt::Upright,
        ccd_enabled: pre.player_paddle.ccd_enabled,
    })
    &&& post.computer_paddle == (PaddleState {
        paddle: Paddle::Computer,
        entity: pre.computer_paddle.entity,
        y: 0,
        velocity_y: 0,
        half_height: COMPUTER_PADDLE_HALF_HEIGHT,
        tilt: Tilt::Upright,
        ccd_enabled: pre.computer_paddle.ccd_enabled,
    })
    &&& post.bonuses@.len() == 0
    &&& post.score.player_bonuses@.len() == 0
    &&& post.score.computer_bonuses@.len() == 0
    &&& post.score.player_health == pre.score.player_health
    &&& post.score.computer_health == pre.score.computer_health
    &&& post.score.player_score == pre.score.player_score
    &&& post.score.computer_score == pre.score.computer_score
    &&& post.bonuses_timers.0@.len() == pre.bonuses_timers.0@.len()
    &&& forall|i: int|
        0 <= i < pre.bonuses_timers.0@.len() ==> #[trigger] post.bonuses_timers.0@[i] == (
        Timer { elapsed_ms: 0, finished: false, ..pre.bonuses_timers.0@[i].0 },
        pre.bonuses_timers.0@[i].1,
        )
    &&& post.balls@.len() == 1
    &&& ({
        let b = post.balls@[0];
        &&& b.position == (Vec2 { x: 0, y: 0 })
        &&& b.velocity == (Vec2 { x: 0, y: 0 })
        &&& b.acceleration == (Vec2 { x: 0, y: 0 })
        &&& b.touched_paddles == 0
        &&& b.last_touched_paddle is None
        &&& b.current_side is None
        &&& !b.ccd_enabled
        &&& b.entity == pre.next_entity_id
    })
    &&& post.next_entity_id == wrapped_inc(pre.next_entity_id)
    &&& post.player_goal == pre.player_goal
    &&& post.computer_goal == pre.computer_goal
    &&& post.top_edge == pre.top_edge
    &&& post.bottom_edge == pre.bottom_edge
    &&& post.player_side == pre.player_side
    &&& post.computer_side == pre.computer_side
    &&& post.top_field_line == pre.top_field_line
    &&& post.bottom_field_line == pre.bottom_field_line
    &&& post.player_lifebar == pre.player_lifebar
    &&& post.computer_lifebar == pre.computer_lifebar
}


impl SimulationContext {
    /// A match about to load its assets: no entities yet, full health, the
    /// given spawn-timer schedule. The field and paddle geometry is filled
    /// in by the setup systems on entering `InitGame`.
    pub fn new(bonuses_timers: BonusesTimers) -> (r: SimulationContext)
        requires
            timers_wf(bonuses_timers),
        ensures
            r.state == States::AssetLoading,
            r.balls@.len() == 0,
            r.bonuses@.len() == 0,
            r.bonuses_timers == bonuses_timers,
            r.score.player_health == MAX_HEALTH && r.score.computer_health == MAX_HEALTH,
            r.score.player_score == 0 && r.score.computer_score == 0,
            r.score.player_bonuses@.len() == 0 && r.score.computer_bonuses@.len() == 0,
            r.next_entity_id == 1,
            ctx_wf(r),
    {
        let zero = Vec2::zero();
        SimulationContext {
            state: States::AssetLoading,
            next_entity_id: 1,
            balls: Vec::new(),
            player_paddle: PaddleState::new(Paddle::Player, 0),
            computer_paddle: PaddleState::new(Paddle::Computer, 0),
            player_goal: GoalRegion { entity: 0, goal: Goal::Player, center: zero, half_extent: zero },
            computer_goal: GoalRegion {
                entity: 0,
                goal: Goal::Computer,
                center: zero,
                half_extent: zero,
            },
            top_edge: EdgeRegion { entity: 0, center: zero, half_extent: zero },
            bottom_edge: EdgeRegion { entity: 0, center: zero, half_extent: zero },
            player_side: SideRegion { entity: 0, side: Side::Player, center: zero, half_extent: zero },
            computer_side: SideRegion {
                entity: 0,
                side: Side::Computer,
                center: zero,
                half_extent: zero,
            },
            top_field_line: FieldLine { center: zero, size: zero },
            bottom_field_line: FieldLine { center: zero, size: zero },
            player_lifebar: LifebarSprite {
                lifebar: Lifebar::Player,
                center: zero,
                size: zero,
                flip_x: true,
            },
            computer_lifebar: LifebarSprite {
                lifebar: Lifebar::Computer,
                center: zero,
                size: zero,
                flip_x: false,
            },
            bonuses: Vec::new(),
            bonuses_timers,
            score: GameScore::default(),
        }
    }

    /// Hand out the next entity identity.
    fn alloc_entity(&mut self) -> (r: u64)
        ensures
            r == old(self).next_entity_id,
            *final(self) == (SimulationContext {
                next_entity_id: wrapped_inc(old(self).next_entity_id),
                ..*old(self)
            }),
    {
        let id = self.next_entity_id;
        self.next_entity_id = if self.next_entity_id == u64::MAX {
            0
        } else {
            self.next_entity_id + 1
        };
        id
    }

    /// One-time field construction: the two paddles, at their fixed
    /// horizontal positions, centered, still, at their per-side default
    /// sizes, each newly introduced body flagged for continuous collision
    /// detection.
    pub fn spawn_paddles(&mut self)
        ensures
            final(self).player_paddle == (PaddleState {
                paddle: Paddle::Player,
                entity: old(self).next_entity_id,
                y: 0,
                velocity_y: 0,
                half_height: PLAYER_PADDLE_HALF_HEIGHT,
                tilt: Tilt::Upright,
                ccd_enabled: true,
            }),
            final(self).computer_paddle == (PaddleState {
                paddle: Paddle::Computer,
                entity: wrapped_inc(old(self).next_entity_id),
                y: 0,
                velocity_y: 0,
                half_height: COMPUTER_PADDLE_HALF_HEIGHT,
                tilt: Tilt::Upright,
                ccd_enabled: true,
            }),
            *final(self) == (SimulationContext {
                player_paddle: final(self).player_paddle,
                computer_paddle: final(self).computer_paddle,
                next_entity_id: wrapped_inc(wrapped_inc(old(self).next_entity_id)),
                ..*old(self)
            }),
            paddle_wf(final(self).player_paddle),
            paddle_wf(final(self).computer_paddle),
    {
        let player_id = self.alloc_entity();
        let computer_id = self.alloc_entity();
        self.player_paddle = PaddleState::new(Paddle::Player, player_id);
        self.player_paddle.ccd_enabled = true;
        self.computer_paddle = PaddleState::new(Paddle::Computer, computer_id);
        self.computer_paddle.ccd_enabled = true;
    }

    /// One-time field construction: the goal sensor regions just past each
    /// paddle's line.
    pub fn spawn_goals(&mut self)
        ensures
            final(self).player_goal == (GoalRegion {
                entity: old(self).next_entity_id,
                goal: Goal::Player,
                center: Vec2 { x: 12_250, y: 0 },
                half_extent: Vec2 { x: 1_000, y: 10_000 },
            }),
            final(self).computer_goal == (GoalRegion {
                entity: wrapped_inc(old(self).next_entity_id),
                goal: Goal::Computer,
                center: Vec2 { x: -12_250i64, y: 0 },
                half_extent: Vec2 { x: 1_000, y: 10_000 },
            }),
            *final(self) == (SimulationContext {
                player_goal: final(self).player_goal,
                computer_goal: final(self).computer_goal,
                next_entity_id: wrapped_inc(wrapped_inc(old(self).next_entity_id)),
                ..*old(self)
            }),
    {
        let player_id = self.alloc_entity();
        let computer_id = self.alloc_entity();
        self.player_goal = GoalRegion {
            entity: player_id,
            goal: Goal::Player,
            center: Vec2 { x: 12_250, y: 0 },
            half_extent: Vec2 { x: 1_000, y: 10_000 },
        };
        self.computer_goal = GoalRegion {
            entity: computer_id,
            goal: Goal::Computer,
            center: Vec2 { x: -12_250i64, y: 0 },
            half_extent: Vec2 { x: 1_000, y: 10_000 },
        };
    }

    /// One-time field construction: the reflecting top and bottom edges.
    pub fn spawn_edges(&mut self)
        ensures
            final(self).top_edge == (EdgeRegion {
                entity: old(self).next_entity_id,
                center: Vec2 { x: 0, y: 7_000 },
                half_extent: Vec2 { x: 14_000, y: 1_000 },
            }),
            final(self).bottom_edge == (EdgeRegion {
                entity: wrapped_inc(old(self).next_entity_id),
                center: Vec2 { x: 0, y: -7_000i64 },
                half_extent: Vec2 { x: 14_000, y: 1_000 },
            }),
            *final(self) == (SimulationContext {
                top_edge: final(self).top_edge,
                bottom_edge: final(self).bottom_edge,
                next_entity_id: wrapped_inc(wrapped_inc(old(self).next_entity_id)),
                ..*old(self)
            }),
    {
        let top_id = self.alloc_entity();
        let bottom_id = self.alloc_entity();
        self.top_edge = EdgeRegion {
            entity: top_id,
            center: Vec2 { x: 0, y: 7_000 },
            half_extent: Vec2 { x: 14_000, y: 1_000 },
        };
        self.bottom_edge = EdgeRegion {
            entity: bottom_id,
            center: Vec2 { x: 0, y: -7_000i64 },
            half_extent: Vec2 { x: 14_000, y: 1_000 },
        };
    }

    /// One-time field construction: the two half-field sensor regions used
    /// to track which half a ball occupies.
    pub fn spawn_sides(&mut self)
        ensures
            final(self).player_side == (SideRegion {
                entity: old(self).next_entity_id,
                side: Side::Player,
                center: Vec2 { x: 5_750, y: 0 },
                half_extent: Vec2 { x: 5_750, y: 6_000 },
            }),
            final(self).computer_side == (SideRegion {
                entity: wrapped_inc(old(self).next_entity_id),
                side: Side::Computer,
                center: Vec2 { x: -5_750i64, y: 0 },
                half_extent: Vec2 { x: 5_750, y: 6_000 },
            }),
            *final(self) == (SimulationContext {
                player_side: final(self).player_side,
                computer_side: final(self).computer_side,
                next_entity_id: wrapped_inc(wrapped_inc(old(self).next_entity_id)),
                ..*old(self)
            }),
    {
        let player_id = self.alloc_entity();
        let computer_id = self.alloc_entity();
        self.player_side = SideRegion {
            entity: player_id,
            side: Side::Player,
            center: Vec2 { x: 5_750, y: 0 },
            half_extent: Vec2 { x: 5_750, y: 6_000 },
        };
        self.computer_side = SideRegion {
            entity: computer_id,
            side: Side::Computer,
            center: Vec2 { x: -5_750i64, y: 0 },
            half_extent: Vec2 { x: 5_750, y: 6_000 },
        };
    }

    /// One-time field construction: the decorative top and bottom lines.
    pub fn spawn_field_lines(&mut self)
        ensures
            final(self).top_field_line == (FieldLine {
                center: Vec2 { x: 0, y: 6_000 },
                size: Vec2 { x: 22_500, y: 100 },
            }),
            final(self).bottom_field_line == (FieldLine {
                center: Vec2 { x: 0, y: -6_000i64 },
                size: Vec2 { x: 22_500, y: 100 },
            }),
            *final(self) == (SimulationContext {
                top_field_line: final(self).top_field_line,
                bottom_field_line: final(self).bottom_field_line,
                ..*old(self)
            }),
    {
        self.top_field_line = FieldLine {
            center: Vec2 { x: 0, y: 6_000 },
            size: Vec2 { x: 22_500, y: 100 },
        };
        self.bottom_field_line = FieldLine {
            center: Vec2 { x: 0, y: -6_000i64 },
            size: Vec2 { x: 22_500, y: 100 },
        };
    }

    /// One-time field construction: one lifebar display per side above the
    /// field, the player's mirrored.
    pub fn spawn_lifebars(&mut self)
        ensures
            final(self).computer_lifebar == (LifebarSprite {
                lifebar: Lifebar::Computer,
                center: Vec2 { x: -7_500i64, y: 6_625 },
                size: Vec2 { x: 6_000, y: 500 },
                flip_x: false,
            }),
            final(self).player_lifebar == (LifebarSprite {
                lifebar: Lifebar::Player,
                center: Vec2 { x: 7_500, y: 6_625 },
                size: Vec2 { x: 6_000, y: 500 },
                flip_x: true,
            }),
            *final(self) == (SimulationContext {
                player_lifebar: final(self).player_lifebar,
                computer_lifebar: final(self).computer_lifebar,
                ..*old(self)
            }),
    {
        self.computer_lifebar = LifebarSprite {
            lifebar: Lifebar::Computer,
            center: Vec2 { x: -7_500i64, y: 6_625 },
            size: Vec2 { x: 6_000, y: 500 },
            flip_x: false,
        };
        self.player_lifebar = LifebarSprite {
            lifebar: Lifebar::Player,
            center: Vec2 { x: 7_500, y: 6_625 },
            size: Vec2 { x: 6_000, y: 500 },
            flip_x: true,
        };
    }

    /// The sprite index a lifebar currently shows: a pure projection of
    /// the owning side's health.
    pub fn lifebar_display_index(&self, lifebar: Lifebar) -> (r: usize)
        ensures
            lifebar == Lifebar::Player ==> r == (if self.score.player_health
                <= crate::score::LIFEBAR_MAX_INDEX {
                self.score.player_health as int
            } else {
                crate::score::LIFEBAR_MAX_INDEX as int
            }),
            lifebar == Lifebar::Computer ==> r == (if self.score.computer_health
                <= crate::score::LIFEBAR_MAX_INDEX {
                self.score.computer_health as int
            } else {
                crate::score::LIFEBAR_MAX_INDEX as int
            }),
    {
        match lifebar {
            Lifebar::Player => crate::score::lifebar_index(self.score.player_health),
            Lifebar::Computer => crate::score::lifebar_index(self.score.computer_health),
        }
    }

    /// Clear every bonus entity off the field, as the round reset does.
    /// Each is despawned exactly once; none survives into the next round.
    pub fn reset_bonuses(&mut self)
        ensures
            final(self).bonuses@.len() == 0,
            *final(self) == (SimulationContext { bonuses: final(self).bonuses, ..*old(self) }),
    {
        self.bonuses = Vec::new();
    }

    /// Empty both sides' held-bonus lists, as the round reset does.
    pub fn reset_owned_bonuses(&mut self)
        ensures
            final(self).score.player_bonuses@.len() == 0,
            final(self).score.computer_bonuses@.len() == 0,
            final(self).score == (GameScore {
                player_bonuses: final(self).score.player_bonuses,
                computer_bonuses: final(self).score.computer_bonuses,
                ..old(self).score
            }),
            *final(self) == (SimulationContext { score: final(self).score, ..*old(self) }),
    {
        self.score.player_bonuses = Vec::new();
        self.score.computer_bonuses = Vec::new();
    }

    /// Zero both paddles' velocities, as the round reset does.
    pub fn reset_paddles_velocity(&mut self)
        ensures
            final(self).player_paddle == (PaddleState {
                velocity_y: 0,
                ..old(self).player_paddle
            }),
            final(self).computer_paddle == (PaddleState {
                velocity_y: 0,
                ..old(self).computer_paddle
            }),
            *final(self) == (SimulationContext {
                player_paddle: final(self).player_paddle,
                computer_paddle: final(self).computer_paddle,
                ..*old(self)
            }),
    {
        self.player_paddle.velocity_y = 0;
        self.computer_paddle.velocity_y = 0;
    }

    /// Recenter both paddles and restore their upright rotation, as the
    /// round reset does.
    pub fn reset_paddle_transform(&mut self)
        ensures
            final(self).player_paddle == (PaddleState {
                y: 0,
                tilt: Tilt::Upright,
                ..old(self).player_paddle
            }),
            final(self).computer_paddle == (PaddleState {
                y: 0,
                tilt: Tilt::Upright,
                ..old(self).computer_paddle
            }),
            *final(self) == (SimulationContext {
                player_paddle: final(self).player_paddle,
                computer_paddle: final(self).computer_paddle,
                ..*old(self)
            }),
    {
        self.player_paddle.y = 0;
        self.player_paddle.tilt = Tilt::Upright;
        self.computer_paddle.y = 0;
        self.computer_paddle.tilt = Tilt::Upright;
    }

    /// Restore both paddles to their per-side default sizes, as the round
    /// reset does.
    pub fn reset_paddle_sizes(&mut self)
        ensures
            final(self).player_paddle == (PaddleState {
                half_height: PLAYER_PADDLE_HALF_HEIGHT,
                ..old(self).player_paddle
            }),
            final(self).computer_paddle == (PaddleState {
                half_height: COMPUTER_PADDLE_HALF_HEIGHT,
                ..old(self).computer_paddle
            }),
            *final(self) == (SimulationContext {
                player_paddle: final(self).player_paddle,
                computer_paddle: final(self).computer_paddle,
                ..*old(self)
            }),
    {
        self.player_paddle.half_height = crate::actors::default_half_height(Paddle::Player);
        self.computer_paddle.half_height = crate::actors::default_half_height(Paddle::Computer);
    }

    /// Spawn the single motionless ball at the field center that waits for
    /// the launch input.
    pub fn spawn_static_ball(&mut self)
        ensures
            final(self).balls@.len() == old(self).balls@.len() + 1,
            final(self).balls@ == old(self).balls@.push(final(self).balls@.last()),
            ({
                let b = final(self).balls@.last();
                &&& b.entity == old(self).next_entity_id
                &&& b.position == (Vec2 { x: 0, y: 0 })
                &&& b.velocity == (Vec2 { x: 0, y: 0 })
                &&& b.acceleration == (Vec2 { x: 0, y: 0 })
                &&& b.touched_paddles == 0
                &&& b.last_touched_paddle is None
                &&& b.current_side is None
                &&& !b.ccd_enabled
                &&& ball_wf(b)
            }),
            *final(self) == (SimulationContext {
                balls: final(self).balls,
                next_entity_id: wrapped_inc(old(self).next_entity_id),
                ..*old(self)
            }),
    {
        let id = self.alloc_entity();
        let ball = Ball::new(id, Vec2::zero());
        self.balls.push(ball);
    }

    /// The full round reset performed on every entry into `WaitingPlayer`:
    /// clear all bonus entities and both held-bonus lists, rewind every
    /// spawn timer, stop, recenter, straighten and resize both paddles,
    /// and leave exactly one fresh motionless ball at the field center.
    pub fn enter_waiting_player(&mut self)
        requires
            ctx_wf(*old(self)),
            valid_transition(old(self).state, States::WaitingPlayer),
        ensures
            round_reset_outcome(*old(self), *final(self)),
            ctx_wf(*final(self)),
    {
        self.state = States::WaitingPlayer;
        self.balls = Vec::new();
        self.reset_bonuses();
        self.reset_owned_bonuses();
        reset_bonuses_timers(&mut self.bonuses_timers);
        self.reset_paddles_velocity();
        self.reset_paddle_transform();
        self.reset_paddle_sizes();
        self.spawn_static_ball();
    }

    /// The immediate, unconditional transition out of `InitGame` once the
    /// one-time field construction has run: the first round reset.
    pub fn ready_to_wait_player(&mut self)
        requires
            ctx_wf(*old(self)),
            old(self).state == States::InitGame,
        ensures
            round_reset_outcome(*old(self), *final(self)),
            ctx_wf(*final(self)),
    {
        self.enter_waiting_player();
    }

    /// The `AssetLoading` to `InitGame` transition, fired by the external
    /// signal that assets are ready, followed by the one-time field
    /// construction: both paddles at their defaults with fresh entities,
    /// the goal, edge and side regions, the field lines and the lifebars,
    /// all at their exact places.
    pub fn finish_loading(&mut self)
        requires
            ctx_wf(*old(self)),
            old(self).state == States::AssetLoading,
        ensures
            ({
                let e0 = old(self).next_entity_id;
                let e1 = wrapped_inc(e0);
                let e2 = wrapped_inc(e1);
                let e3 = wrapped_inc(e2);
                let e4 = wrapped_inc(e3);
                let e5 = wrapped_inc(e4);
                let e6 = wrapped_inc(e5);
                let e7 = wrapped_inc(e6);
                &&& final(self).state == States::InitGame
                &&& final(self).player_paddle == (PaddleState {
                    paddle: Paddle::Player,
                    entity: e0,
                    y: 0,
                    velocity_y: 0,
                    half_height: PLAYER_PADDLE_HALF_HEIGHT,
                    tilt: Tilt::Upright,
                    ccd_enabled: true,
                })
                &&& final(self).computer_paddle == (PaddleState {
                    paddle: Paddle::Computer,
                    entity: e1,
                    y: 0,
                    velocity_y: 0,
                    half_height: COMPUTER_PADDLE_HALF_HEIGHT,
                    tilt: Tilt::Upright,
                    ccd_enabled: true,
                })
                &&& final(self).player_goal == (GoalRegion {
                    entity: e2,
                    goal: Goal::Player,
                    center: Vec2 { x: 12_250, y: 0 },
                    half_extent: Vec2 { x: 1_000, y: 10_000 },
                })
                &&& final(self).computer_goal == (GoalRegion {
                    entity: e3,
                    goal: Goal::Computer,
                    center: Vec2 { x: -12_250i64, y: 0 },
                    half_extent: Vec2 { x: 1_000, y: 10_000 },
                })
                &&& final(self).top_edge == (EdgeRegion {
                    entity: e4,
                    center: Vec2 { x: 0, y: 7_000 },
                    half_extent: Vec2 { x: 14_000, y: 1_000 },
                })
                &&& final(self).bottom_edge == (EdgeRegion {
                    entity: e5,
                    center: Vec2 { x: 0, y: -7_000i64 },
                    half_extent: Vec2 { x: 14_000, y: 1_000 },
                })
                &&& final(self).player_side == (SideRegion {
                    entity: e6,
                    side: Side::Player,
                    center: Vec2 { x: 5_750, y: 0 },
                    half_extent: Vec2 { x: 5_750, y: 6_000 },
                })
                &&& final(self).computer_side == (SideRegion {
                    entity: e7,
                    side: Side::Computer,
                    center: Vec2 { x: -5_750i64, y: 0 },
                    half_extent: Vec2 { x: 5_750, y: 6_000 },
                })
                &&& final(self).top_field_line == (FieldLine {
                    center: Vec2 { x: 0, y: 6_000 },
                    size: Vec2 { x: 22_500, y: 100 },
                })
                &&& final(self).bottom_field_line == (FieldLine {
                    center: Vec2 { x: 0, y: -6_000i64 },
                    size: Vec2 { x: 22_500, y: 100 },
                })
                &&& final(self).computer_lifebar == (LifebarSprite {
                    lifebar: Lifebar::Computer,
                    center: Vec2 { x: -7_500i64, y: 6_625 },
                    size: Vec2 { x: 6_000, y: 500 },
                    flip_x: false,
                })
                &&& final(self).player_lifebar == (LifebarSprite {
                    lifebar: Lifebar::Player,
                    center: Vec2 { x: 7_500, y: 6_625 },
                    size: Vec2 { x: 6_000, y: 500 },
                    flip_x: true,
                })
                &&& final(self).next_entity_id == wrapped_inc(e7)
            }),
            final(self).balls == old(self).balls,
            final(self).score == old(self).score,
            final(self).bonuses == old(self).bonuses,
            final(self).bonuses_timers == old(self).bonuses_timers,
            ctx_wf(*final(self)),
    {
        self.state = States::InitGame;
        self.spawn_paddles();
        self.spawn_goals();
        self.spawn_edges();
        self.spawn_sides();
        self.spawn_field_lines();
        self.spawn_lifebars();
    }

    /// The `InGame` to `WaitingPlayer` transition: whenever the ball count
    /// reaches zero (all balls scored or stalled), the next round's reset
    /// runs. With balls still in play nothing changes.
    pub fn regame_when_no_balls(&mut self)
        requires
            ctx_wf(*old(self)),
            old(self).state == States::InGame,
        ensures
            old(self).balls@.len() > 0 ==> *final(self) == *old(self),
            old(self).balls@.len() == 0 ==> round_reset_outcome(*old(self), *final(self)),
            ctx_wf(*final(self)),
    {
        if self.balls.len() == 0 {
            self.enter_waiting_player();
        }
    }
}

/// A ball after a resolved paddle contact: the touch counter goes up (a
/// machine-saturating count) and the velocity is scaled by the paddle
/// speed-up factor.
pub open spec fn ball_paddle_hit(b: Ball) -> Ball {
    Ball {
        touched_paddles: sat_inc(b.touched_paddles as int) as usize,
        velocity: scaled_or_same(
            b.velocity,
            BALL_TOUCH_PADDLE_SPEEDUP_NUM as int,
            BALL_TOUCH_PADDLE_SPEEDUP_DEN as int,
        ),
        ..b
    }
}

/// The balls after a sequence of events, where each resolved ball-paddle
/// contact speeds its ball up and bumps its touch counter; events naming a
/// despawned ball are skipped.
pub open spec fn paddle_hits_applied(balls: Seq<Ball>, events: Seq<GameCollisionEvent>) -> Seq<
    Ball,
>
    decreases events.len(),
{
    if events.len() == 0 {
        balls
    } else {
        let prev = paddle_hits_applied(balls, events.drop_last());
        match events.last() {
            GameCollisionEvent::BallAndPaddle { status: CollisionStatus::Stopped, ball, .. } => {
                let i = ball_index(prev, ball);
                if i >= 0 {
                    prev.update(i, ball_paddle_hit(prev[i]))
                } else {
                    prev
                }
            },
            _ => prev,
        }
    }
}

/// A ball after a resolved edge contact: the velocity is scaled by the
/// edge speed-up factor.
pub open spec fn ball_edge_hit(b: Ball) -> Ball {
    Ball {
        velocity: scaled_or_same(
            b.velocity,
            BALL_TOUCH_EDGE_SPEEDUP_NUM as int,
            BALL_TOUCH_EDGE_SPEEDUP_DEN as int,
        ),
        ..b
    }
}

/// The balls after a sequence of events, where each resolved ball-edge
/// contact speeds its ball up.
pub open spec fn edge_hits_applied(balls: Seq<Ball>, events: Seq<GameCollisionEvent>) -> Seq<Ball>
    decreases events.len(),
{
    if events.len() == 0 {
        balls
    } else {
        let prev = edge_hits_applied(balls, events.drop_last());
        match events.last() {
            GameCollisionEvent::BallAndEdge { status: CollisionStatus::Stopped, ball, .. } => {
                let i = ball_index(prev, ball);
                if i >= 0 {
                    prev.update(i, ball_edge_hit(prev[i]))
                } else {
                    prev
                }
            },
            _ => prev,
        }
    }
}

/// The paddle one of the two given paddle entities stands for, if either.
pub open spec fn paddle_for(e: u64, player_entity: u64, computer_entity: u64) -> Option<Paddle> {
    if e == player_entity {
        Some(Paddle::Player)
    } else if e == computer_entity {
        Some(Paddle::Computer)
    } else {
        None
    }
}

/// The side one of the two given side-region entities stands for, if
/// either.
pub open spec fn side_for(e: u64, player_entity: u64, computer_entity: u64) -> Option<Side> {
    if e == player_entity {
        Some(Side::Player)
    } else if e == computer_entity {
        Some(Side::Computer)
    } else {
        None
    }
}

/// The balls after a sequence of events, where each resolved ball-paddle
/// contact records the touching paddle on its ball — overwritten, never
/// combined.
pub open spec fn touches_tracked(
    balls: Seq<Ball>,
    events: Seq<GameCollisionEvent>,
    player_entity: u64,
    computer_entity: u64,
) -> Seq<Ball>
    decreases events.len(),
{
    if events.len() == 0 {
        balls
    } else {
        let prev = touches_tracked(balls, events.drop_last(), player_entity, computer_entity);
        match events.last() {
            GameCollisionEvent::BallAndPaddle {
                status: CollisionStatus::Stopped,
                ball,
                paddle,
            } => {
                let i = ball_index(prev, ball);
                if i >= 0 {
                    prev.update(
                        i,
                        Ball {
                            last_touched_paddle: paddle_for(paddle, player_entity, computer_entity),
                            ..prev[i]
                        },
                    )
                } else {
                    prev
                }
            },
            _ => prev,
        }
    }
}

/// The balls after a sequence of events, where each ball entering a known
/// side region records that side as the half it currently occupies.
pub open spec fn sides_tracked(
    balls: Seq<Ball>,
    events: Seq<GameCollisionEvent>,
    player_entity: u64,
    computer_entity: u64,
) -> Seq<Ball>
    decreases events.len(),
{
    if events.len() == 0 {
        balls
    } else {
        let prev = sides_tracked(balls, events.drop_last(), player_entity, computer_entity);
        match events.last() {
            GameCollisionEvent::BallAndSide { status: CollisionStatus::Started, ball, side } => {
                match side_for(side, player_entity, computer_entity) {
                    Some(s) => {
                        let i = ball_index(prev, ball);
                        if i >= 0 {
                            prev.update(i, Ball { current_side: Some(s), ..prev[i] })
                        } else {
                            prev
                        }
                    },
                    None => prev,
                }
            },
            _ => prev,
        }
    }
}

/// The balls that survive the stall check: those still moving vertically.
pub open spec fn stalled_removed(balls: Seq<Ball>) -> Seq<Ball>
    decreases balls.len(),
{
    if balls.len() == 0 {
        Seq::empty()
    } else {
        stalled_removed(balls.drop_last()) + (if ball_stalled(balls.last()) {
            Seq::empty()
        } else {
            seq![balls.last()]
        })
    }
}

/// How many of the events are ball-paddle contacts: the count of hit
/// sounds the audio layer is asked to play this tick.
pub open spec fn paddle_blip_count(events: Seq<GameCollisionEvent>) -> nat
    decreases events.len(),
{
    if events.len() == 0 {
        0
    } else {
        paddle_blip_count(events.drop_last()) + (if events.last() is BallAndPaddle {
            1nat
        } else {
            0nat
        })
    }
}

/// Count the ball-paddle contacts of this tick, one blip notification
/// each for the audio layer.
pub fn blip_on_ball_collisions(events: &Vec<GameCollisionEvent>) -> (n: usize)
    ensures
        n == paddle_blip_count(events@),
{
    let mut n: usize = 0;
    let mut i: usize = 0;
    while i < events.len()
        invariant
            i <= events.len(),
            n == paddle_blip_count(events@.take(i as int)),
            n <= i,
        decreases events.len() - i,
    {
        proof {
            assert(events@.take(i as int + 1).drop_last() =~= events@.take(i as int));
            assert(events@.take(i as int + 1).last() == events@[i as int]);
        }
        if matches!(events[i], GameCollisionEvent::BallAndPaddle { .. }) {
            n = n + 1;
        }
        i = i + 1;
    }
    proof {
        assert(events@.take(events@.len() as int) =~= events@);
    }
    n
}

/// The goal one of the two given goal entities stands for, if either.
pub open spec fn goal_for(e: u64, player_entity: u64, computer_entity: u64) -> Option<Goal> {
    if e == player_entity {
        Some(Goal::Player)
    } else if e == computer_entity {
        Some(Goal::Computer)
    } else {
        None
    }
}

/// Score and balls after one event: a ball entering a known goal costs
/// that goal's side health and despawns the ball; a depleted side ends
/// the round and every ball is cleared.
pub open spec fn scoring_step(
    score: GameScore,
    balls: Seq<Ball>,
    e: GameCollisionEvent,
    player_goal_entity: u64,
    computer_goal_entity: u64,
) -> (GameScore, Seq<Ball>) {
    match e {
        GameCollisionEvent::BallAndGoal { status: CollisionStatus::Started, ball, goal } => {
            match goal_for(goal, player_goal_entity, computer_goal_entity) {
                None => (score, balls),
                Some(g) => {
                    let s2 = crate::score::goal_applied(score, g);
                    if crate::score::goal_ends_round(score, g) {
                        (s2, Seq::empty())
                    } else {
                        let i = ball_index(balls, ball);
                        if i >= 0 {
                            (s2, balls.remove(i))
                        } else {
                            (s2, balls)
                        }
                    }
                },
            }
        },
        _ => (score, balls),
    }
}

/// Score and balls after a sequence of events, in order.
pub open spec fn scoring_applied(
    score: GameScore,
    balls: Seq<Ball>,
    events: Seq<GameCollisionEvent>,
    player_goal_entity: u64,
    computer_goal_entity: u64,
) -> (GameScore, Seq<Ball>)
    decreases events.len(),
{
    if events.len() == 0 {
        (score, balls)
    } else {
        let prev = scoring_applied(
            score,
            balls,
            events.drop_last(),
            player_goal_entity,
            computer_goal_entity,
        );
        scoring_step(prev.0, prev.1, events.last(), player_goal_entity, computer_goal_entity)
    }
}

/// Scoring preserves well-formedness of the score and of every ball.
proof fn lemma_scoring_wf(
    score: GameScore,
    balls: Seq<Ball>,
    events: Seq<GameCollisionEvent>,
    player_goal_entity: u64,
    computer_goal_entity: u64,
)
    requires
        score_wf(score),
        forall|k: int| 0 <= k < balls.len() ==> ball_wf(#[trigger] balls[k]),
    ensures
        score_wf(scoring_applied(score, balls, events, player_goal_entity, computer_goal_entity).0),
        forall|k: int|
            0 <= k < scoring_applied(
                score,
                balls,
                events,
                player_goal_entity,
                computer_goal_entity,
            ).1.len() ==> ball_wf(
                #[trigger] scoring_applied(
                    score,
                    balls,
                    events,
                    player_goal_entity,
                    computer_goal_entity,
                ).1[k],
            ),
    decreases events.len(),
{
    if events.len() > 0 {
        lemma_scoring_wf(score, balls, events.drop_last(), player_goal_entity, computer_goal_entity);
        let prev = scoring_applied(
            score,
            balls,
            events.drop_last(),
            player_goal_entity,
            computer_goal_entity,
        );
        match events.last() {
            GameCollisionEvent::BallAndGoal { status: CollisionStatus::Started, ball, goal } => {
                match goal_for(goal, player_goal_entity, computer_goal_entity) {
                    None => {},
                    Some(g) => {
                        if !crate::score::goal_ends_round(prev.0, g) {
                            let i = ball_index(prev.1, ball);
                            if i >= 0 {
                                lemma_ball_index_in_range(prev.1, ball);
                                prev.1.remove_ensures(i);
                            }
                        }
                    },
                }
            },
            _ => {},
        }
    }
}

/// A nonnegative ball index is a position within the sequence.
proof fn lemma_ball_index_from_in_range(balls: Seq<Ball>, entity: u64, i: int)
    requires
        0 <= i,
        ball_index_from(balls, entity, i) >= 0,
    ensures
        i <= ball_index_from(balls, entity, i) < balls.len(),
        balls[ball_index_from(balls, entity, i)].entity == entity,
    decreases balls.len() - i,
{
    if i < balls.len() && balls[i].entity != entity {
        lemma_ball_index_from_in_range(balls, entity, i + 1);
    }
}

/// A nonnegative ball index is a position within the sequence.
proof fn lemma_ball_index_in_range(balls: Seq<Ball>, entity: u64)
    requires
        ball_index(balls, entity) >= 0,
    ensures
        0 <= ball_index(balls, entity) < balls.len(),
        balls[ball_index(balls, entity)].entity == entity,
{
    lemma_ball_index_from_in_range(balls, entity, 0);
}

/// Bonuses on the field and taken events after one event: a ball picking
/// up a live bonus despawns it and emits the resolved effect. A pickup by
/// a despawned ball, of an already despawned bonus, or of a kind that
/// needs a last-touching paddle when the ball has none, is silently
/// skipped — in the last case the bonus stays on the field, pickable
/// later.
pub open spec fn pickup_step(
    balls: Seq<Ball>,
    bonuses: Seq<BonusEntity>,
    taken: Seq<TakenBonusEvent>,
    e: GameCollisionEvent,
) -> (Seq<BonusEntity>, Seq<TakenBonusEvent>) {
    match e {
        GameCollisionEvent::BallAndBonus { status: CollisionStatus::Started, ball, bonus } => {
            let bi = ball_index(balls, ball);
            if bi < 0 {
                (bonuses, taken)
            } else {
                let oi = bonus_index(bonuses, bonus);
                if oi < 0 {
                    (bonuses, taken)
                } else {
                    match resolved_bonus(
                        bonuses[oi].bonus_type,
                        balls[bi].last_touched_paddle,
                        ball,
                    ) {
                        Some(ev) => (bonuses.remove(oi), taken.push(ev)),
                        None => (bonuses, taken),
                    }
                }
            }
        },
        _ => (bonuses, taken),
    }
}

/// Bonuses on the field and taken events after a sequence of events, in
/// order.
pub open spec fn pickups_applied(
    balls: Seq<Ball>,
    bonuses: Seq<BonusEntity>,
    events: Seq<GameCollisionEvent>,
) -> (Seq<BonusEntity>, Seq<TakenBonusEvent>)
    decreases events.len(),
{
    if events.len() == 0 {
        (bonuses, Seq::empty())
    } else {
        let prev = pickups_applied(balls, bonuses, events.drop_last());
        pickup_step(balls, prev.0, prev.1, events.last())
    }
}

/// The half of the field a paddle defends.
pub open spec fn side_of_paddle(p: Paddle) -> Side {
    match p {
        Paddle::Player => Side::Player,
        Paddle::Computer => Side::Computer,
    }
}

/// A ball's state the moment an area-speed bonus is taken: a ball sitting
/// in the half opposite the bonus's owner is sped up as if it had just
/// entered it, one sitting in the owner's own half slowed as if it had
/// just left; a ball in neither half is untouched.
pub open spec fn area_adjust_ball(b: Ball, benefiting: Paddle, np: int, nc: int) -> Ball {
    match b.current_side {
        None => b,
        Some(side) => {
            let status = if side_of_paddle(benefiting) == side {
                CollisionStatus::Stopped
            } else {
                CollisionStatus::Started
            };
            Ball { velocity: change_velocity_spec(b.velocity, side, status, np, nc), ..b }
        },
    }
}

/// The balls after the taken events of this tick, each area-speed take
/// adjusting every ball with a known side.
pub open spec fn area_taken_applied(
    balls: Seq<Ball>,
    events: Seq<TakenBonusEvent>,
    np: int,
    nc: int,
) -> Seq<Ball>
    decreases events.len(),
{
    if events.len() == 0 {
        balls
    } else {
        let prev = area_taken_applied(balls, events.drop_last(), np, nc);
        match events.last().bonus {
            Bonus::BallSpeedInArea { benefiting_paddle } => Seq::new(
                prev.len(),
                |k: int| area_adjust_ball(prev[k], benefiting_paddle, np, nc),
            ),
            _ => prev,
        }
    }
}

/// The balls after the side crossings of this tick: entering a half
/// scales the ball up by the opposing side's stacking factor, leaving
/// scales it back down by the same factor.
pub open spec fn area_cross_applied(
    balls: Seq<Ball>,
    events: Seq<GameCollisionEvent>,
    player_side_entity: u64,
    computer_side_entity: u64,
    np: int,
    nc: int,
) -> Seq<Ball>
    decreases events.len(),
{
    if events.len() == 0 {
        balls
    } else {
        let prev = area_cross_applied(
            balls,
            events.drop_last(),
            player_side_entity,
            computer_side_entity,
            np,
            nc,
        );
        match events.last() {
            GameCollisionEvent::BallAndSide { status, ball, side } => {
                match side_for(side, player_side_entity, computer_side_entity) {
                    Some(s) => {
                        let i = ball_index(prev, ball);
                        if i >= 0 {
                            prev.update(
                                i,
                                Ball {
                                    velocity: change_velocity_spec(
                                        prev[i].velocity,
                                        s,
                                        status,
                                        np,
                                        nc,
                                    ),
                                    ..prev[i]
                                },
                            )
                        } else {
                            prev
                        }
                    },
                    None => prev,
                }
            },
            _ => prev,
        }
    }
}

/// The velocity scaled by the area rule keeps its components in cap.
proof fn lemma_change_velocity_bounded(v: Vec2, side: Side, status: CollisionStatus, np: int, nc: int)
    requires
        abs(v.x as int) <= COMPONENT_LIMIT,
        abs(v.y as int) <= COMPONENT_LIMIT,
        0 <= np,
        0 <= nc,
    ensures
        abs(change_velocity_spec(v, side, status, np, nc).x as int) <= COMPONENT_LIMIT,
        abs(change_velocity_spec(v, side, status, np, nc).y as int) <= COMPONENT_LIMIT,
{
    match (side, status) {
        (Side::Player, CollisionStatus::Started) => {
            lemma_scaled_or_same_bounded(v, crate::bonus::area_factor_num(nc), 2);
        },
        (Side::Player, CollisionStatus::Stopped) => {
            lemma_scaled_or_same_bounded(v, 2, crate::bonus::area_factor_num(nc));
        },
        (Side::Computer, CollisionStatus::Started) => {
            lemma_scaled_or_same_bounded(v, crate::bonus::area_factor_num(np), 2);
        },
        (Side::Computer, CollisionStatus::Stopped) => {
            lemma_scaled_or_same_bounded(v, 2, crate::bonus::area_factor_num(np));
        },
    }
}

/// The acceleration the gravity bonus sets on every ball: horizontal,
/// pushing toward the opponent's goal of the side that earned it.
pub open spec fn gravity_vector(benefiting: Paddle) -> Vec2 {
    match benefiting {
        Paddle::Player => Vec2 { x: -GRAVITY_ACCEL as i64, y: 0 },
        Paddle::Computer => Vec2 { x: GRAVITY_ACCEL, y: 0 },
    }
}

/// The balls after the taken events of this tick, each gravity take
/// overwriting every ball's acceleration — not additive, not per-ball.
pub open spec fn gravity_applied(balls: Seq<Ball>, events: Seq<TakenBonusEvent>) -> Seq<Ball>
    decreases events.len(),
{
    if events.len() == 0 {
        balls
    } else {
        let prev = gravity_applied(balls, events.drop_last());
        match events.last().bonus {
            Bonus::BallsVerticalGravity { benefiting_paddle } => Seq::new(
                prev.len(),
                |k: int| Ball { acceleration: gravity_vector(benefiting_paddle), ..prev[k] },
            ),
            _ => prev,
        }
    }
}

/// Both paddles after the shrink takes of this tick, each shrinking the
/// impacted paddle by one step, clamped at the minimum.
pub open spec fn shrinks_applied(
    player: PaddleState,
    computer: PaddleState,
    events: Seq<TakenBonusEvent>,
) -> (PaddleState, PaddleState)
    decreases events.len(),
{
    if events.len() == 0 {
        (player, computer)
    } else {
        let prev = shrinks_applied(player, computer, events.drop_last());
        match events.last().bonus {
            Bonus::ShrinkPaddleSize { impacted_paddle: Paddle::Player } => (
                PaddleState {
                    half_height: crate::actors::shrunk_half_height(prev.0.half_height as int) as i64,
                    ..prev.0
                },
                prev.1,
            ),
            Bonus::ShrinkPaddleSize { impacted_paddle: Paddle::Computer } => (
                prev.0,
                PaddleState {
                    half_height: crate::actors::shrunk_half_height(prev.1.half_height as int) as i64,
                    ..prev.1
                },
            ),
            _ => prev,
        }
    }
}

/// Both paddles after the grow takes of this tick, each growing the
/// benefiting paddle by one step, clamped at the maximum.
pub open spec fn grows_applied(
    player: PaddleState,
    computer: PaddleState,
    events: Seq<TakenBonusEvent>,
) -> (PaddleState, PaddleState)
    decreases events.len(),
{
    if events.len() == 0 {
        (player, computer)
    } else {
        let prev = grows_applied(player, computer, events.drop_last());
        match events.last().bonus {
            Bonus::IncreasePaddleSize { benefiting_paddle: Paddle::Player } => (
                PaddleState {
                    half_height: crate::actors::grown_half_height(prev.0.half_height as int) as i64,
                    ..prev.0
                },
                prev.1,
            ),
            Bonus::IncreasePaddleSize { benefiting_paddle: Paddle::Computer } => (
                prev.0,
                PaddleState {
                    half_height: crate::actors::grown_half_height(prev.1.half_height as int) as i64,
                    ..prev.1
                },
            ),
            _ => prev,
        }
    }
}

/// A velocity the launch randomization can produce: toward one side and
/// never exactly horizontal or vertical, within the quarter-turn cone
/// centered on the horizontal, at the launch speed up to truncation. The
/// vertical component clears the stall epsilon, so a freshly launched
/// ball is never despawned as stalled on its first tick.
pub open spec fn launched_velocity(v: Vec2) -> bool {
    &&& v.x != 0
    &&& abs(v.y as int) >= crate::actors::STALL_EPSILON
    &&& abs(v.y as int) <= abs(v.x as int)
    &&& norm_sq(v) <= crate::BALL_SPEED * crate::BALL_SPEED
    &&& norm_sq(v) >= crate::BALL_SPEED * crate::BALL_SPEED - 2 * crate::BALL_SPEED
}

/// A ball spawned by a split: at the source ball's position, with its
/// velocity turned by the drawn symmetry, all bookkeeping fresh.
pub open spec fn split_ball_from(src: Ball, id: u64, k: int) -> Ball {
    Ball {
        entity: id,
        position: src.position,
        velocity: crate::geometry::eighth_image(src.velocity, k),
        acceleration: Vec2 { x: 0, y: 0 },
        touched_paddles: 0,
        last_touched_paddle: None,
        current_side: None,
        ccd_enabled: false,
    }
}

/// The balls and the entity counter after the split takes of this tick,
/// given the sequence of drawn direction choices: each split of a live
/// ball appends one new ball, the original left unaffected; a split whose
/// ball is already despawned is skipped.
pub open spec fn splits_applied(
    balls: Seq<Ball>,
    events: Seq<TakenBonusEvent>,
    next: u64,
    ks: Seq<int>,
) -> (Seq<Ball>, u64)
    decreases events.len(),
{
    if events.len() == 0 {
        (balls, next)
    } else {
        let prev = splits_applied(balls, events.drop_last(), next, ks.drop_last());
        match events.last().bonus {
            Bonus::SplitBall { ball } => {
                let i = ball_index(prev.0, ball);
                if i >= 0 {
                    (prev.0.push(split_ball_from(prev.0[i], prev.1, ks.last())), wrapped_inc(prev.1))
                } else {
                    prev
                }
            },
            _ => prev,
        }
    }
}

/// Whether a position lies within the band bonuses spawn in.
pub open spec fn in_bonus_field(p: Vec2) -> bool {
    &&& -BONUS_FIELD_X <= p.x <= BONUS_FIELD_X
    &&& -BONUS_FIELD_Y <= p.y <= BONUS_FIELD_Y
}

/// The field bonuses and the entity counter after materializing the spawn
/// requests of this tick at the given drawn positions, in order.
pub open spec fn bonuses_spawned(
    bonuses: Seq<BonusEntity>,
    spawn_reqs: Seq<crate::bonus::SpawnBonusEvent>,
    next: u64,
    ps: Seq<Vec2>,
) -> (Seq<BonusEntity>, u64)
    decreases spawn_reqs.len(),
{
    if spawn_reqs.len() == 0 {
        (bonuses, next)
    } else {
        let prev = bonuses_spawned(bonuses, spawn_reqs.drop_last(), next, ps.drop_last());
        (
            prev.0.push(
                BonusEntity { entity: prev.1, bonus_type: spawn_reqs.last().0, position: ps.last() },
            ),
            wrapped_inc(prev.1),
        )
    }
}

/// Every ball surviving the stall pass keeps the speed bound the clamp
/// established.
proof fn lemma_stalled_removed_speed(balls: Seq<Ball>, m: int)
    requires
        forall|k: int| 0 <= k < balls.len() ==> norm_sq((#[trigger] balls[k]).velocity) <= m,
    ensures
        forall|k: int|
            0 <= k < stalled_removed(balls).len() ==> norm_sq(
                (#[trigger] stalled_removed(balls)[k]).velocity,
            ) <= m,
    decreases balls.len(),
{
    if balls.len() > 0 {
        lemma_stalled_removed_speed(balls.drop_last(), m);
    }
}

/// The size folds touch nothing but the half-height: position, velocity,
/// tilt and identity of both paddles survive any number of size takes.
proof fn lemma_size_folds_preserve(
    player: PaddleState,
    computer: PaddleState,
    events: Seq<TakenBonusEvent>,
)
    ensures
        shrinks_applied(player, computer, events).0 == (PaddleState {
            half_height: shrinks_applied(player, computer, events).0.half_height,
            ..player
        }),
        shrinks_applied(player, computer, events).1 == (PaddleState {
            half_height: shrinks_applied(player, computer, events).1.half_height,
            ..computer
        }),
        grows_applied(player, computer, events).0 == (PaddleState {
            half_height: grows_applied(player, computer, events).0.half_height,
            ..player
        }),
        grows_applied(player, computer, events).1 == (PaddleState {
            half_height: grows_applied(player, computer, events).1.half_height,
            ..computer
        }),
    decreases events.len(),
{
    if events.len() > 0 {
        lemma_size_folds_preserve(player, computer, events.drop_last());
    }
}

/// One position and velocity write the physics engine hands back for a
/// ball after advancing motion.
#[derive(Clone, Copy, PartialEq, Eq, Structural, Debug)]
pub struct PhysicsUpdate {
    pub entity: u64,
    pub position: Vec2,
    pub velocity: Vec2,
}

/// Whether a physics write is within the machine caps the simulation
/// accepts.
pub open spec fn physics_update_wf(u: PhysicsUpdate) -> bool {
    &&& abs(u.position.x as int) <= COMPONENT_LIMIT
    &&& abs(u.position.y as int) <= COMPONENT_LIMIT
    &&& abs(u.velocity.x as int) <= COMPONENT_LIMIT
    &&& abs(u.velocity.y as int) <= COMPONENT_LIMIT
}

/// The balls after a sequence of physics writes, each setting the named
/// ball's position and velocity; writes naming a despawned ball are
/// skipped.
pub open spec fn physics_applied(balls: Seq<Ball>, updates: Seq<PhysicsUpdate>) -> Seq<Ball>
    decreases updates.len(),
{
    if updates.len() == 0 {
        balls
    } else {
        let prev = physics_applied(balls, updates.drop_last());
        let u = updates.last();
        let i = ball_index(prev, u.entity);
        if i >= 0 {
            prev.update(i, Ball { position: u.position, velocity: u.velocity, ..prev[i] })
        } else {
            prev
        }
    }
}

impl SimulationContext {
    /// Apply the per-tick speed-up from resolved ball-paddle contacts:
    /// multiply each touched ball's velocity by the paddle factor and
    /// count the touch. Runs on the tick's semantic events, before the
    /// speed clamp.
    pub fn speed_up_balls_with_touched_paddles(&mut self, events: &Vec<GameCollisionEvent>)
        requires
            ctx_wf(*old(self)),
        ensures
            final(self).balls@ == paddle_hits_applied(old(self).balls@, events@),
            *final(self) == (SimulationContext { balls: final(self).balls, ..*old(self) }),
            ctx_wf(*final(self)),
    {
        let ghost orig = self.balls@;
        let mut i: usize = 0;
        while i < events.len()
            invariant
                i <= events.len(),
                self.balls@ == paddle_hits_applied(orig, events@.take(i as int)),
                forall|k: int| 0 <= k < self.balls@.len() ==> ball_wf(#[trigger] self.balls@[k]),
                *self == (SimulationContext { balls: self.balls, ..*old(self) }),
            decreases events.len() - i,
        {
            let e = events[i];
            if let GameCollisionEvent::BallAndPaddle {
                status: CollisionStatus::Stopped,
                ball,
                ..
            } = e {
                if let Some(bi) = find_ball(&self.balls, ball) {
                    let b = self.balls[bi];
                    let touched = if b.touched_paddles < usize::MAX {
                        b.touched_paddles + 1
                    } else {
                        b.touched_paddles
                    };
                    let v2 = scale_velocity(
                        b.velocity,
                        BALL_TOUCH_PADDLE_SPEEDUP_NUM,
                        BALL_TOUCH_PADDLE_SPEEDUP_DEN,
                    );
                    proof {
                        lemma_scaled_or_same_bounded(
                            b.velocity,
                            BALL_TOUCH_PADDLE_SPEEDUP_NUM as int,
                            BALL_TOUCH_PADDLE_SPEEDUP_DEN as int,
                        );
                    }
                    let nb = Ball { touched_paddles: touched, velocity: v2, ..b };
                    self.balls.set(bi, nb);
                }
            }
            proof {
                assert(events@.take(i as int + 1).drop_last() =~= events@.take(i as int));
                assert(events@.take(i as int + 1).last() == e);
            }
            i = i + 1;
        }
        proof {
            assert(events@.take(events@.len() as int) =~= events@);
        }
    }

    /// Apply the per-tick speed-up from resolved ball-edge contacts:
    /// multiply each touched ball's velocity by the edge factor, half the
    /// paddle one.
    pub fn speed_up_balls_with_touched_edges(&mut self, events: &Vec<GameCollisionEvent>)
        requires
            ctx_wf(*old(self)),
        ensures
            final(self).balls@ == edge_hits_applied(old(self).balls@, events@),
            *final(self) == (SimulationContext { balls: final(self).balls, ..*old(self) }),
            ctx_wf(*final(self)),
    {
        let ghost orig = self.balls@;
        let mut i: usize = 0;
        while i < events.len()
            invariant
                i <= events.len(),
                self.balls@ == edge_hits_applied(orig, events@.take(i as int)),
                forall|k: int| 0 <= k < self.balls@.len() ==> ball_wf(#[trigger] self.balls@[k]),
                *self == (SimulationContext { balls: self.balls, ..*old(self) }),
            decreases events.len() - i,
        {
            let e = events[i];
            if let GameCollisionEvent::BallAndEdge {
                status: CollisionStatus::Stopped,
                ball,
                ..
            } = e {
                if let Some(bi) = find_ball(&self.balls, ball) {
                    let b = self.balls[bi];
                    let v2 = scale_velocity(
                        b.velocity,
                        BALL_TOUCH_EDGE_SPEEDUP_NUM,
                        BALL_TOUCH_EDGE_SPEEDUP_DEN,
                    );
                    proof {
                        lemma_scaled_or_same_bounded(
                            b.velocity,
                            BALL_TOUCH_EDGE_SPEEDUP_NUM as int,
                            BALL_TOUCH_EDGE_SPEEDUP_DEN as int,
                        );
                    }
                    let nb = Ball { velocity: v2, ..b };
                    self.balls.set(bi, nb);
                }
            }
            proof {
                assert(events@.take(i as int + 1).drop_last() =~= events@.take(i as int));
                assert(events@.take(i as int + 1).last() == e);
            }
            i = i + 1;
        }
        proof {
            assert(events@.take(events@.len() as int) =~= events@);
        }
    }

    /// Record, on each ball with a resolved paddle contact, which paddle
    /// touched it last — the attribution later bonus pickups use. At most
    /// one paddle is recorded per ball; a new touch overwrites the old.
    pub fn track_balls_touching_paddles(&mut self, events: &Vec<GameCollisionEvent>)
        requires
            ctx_wf(*old(self)),
        ensures
            final(self).balls@ == touches_tracked(
                old(self).balls@,
                events@,
                old(self).player_paddle.entity,
                old(self).computer_paddle.entity,
            ),
            *final(self) == (SimulationContext { balls: final(self).balls, ..*old(self) }),
            ctx_wf(*final(self)),
    {
        let ghost orig = self.balls@;
        let ghost ppe = self.player_paddle.entity;
        let ghost cpe = self.computer_paddle.entity;
        let mut i: usize = 0;
        while i < events.len()
            invariant
                i <= events.len(),
                self.balls@ == touches_tracked(orig, events@.take(i as int), ppe, cpe),
                ppe == self.player_paddle.entity,
                cpe == self.computer_paddle.entity,
                forall|k: int| 0 <= k < self.balls@.len() ==> ball_wf(#[trigger] self.balls@[k]),
                *self == (SimulationContext { balls: self.balls, ..*old(self) }),
            decreases events.len() - i,
        {
            let e = events[i];
            if let GameCollisionEvent::BallAndPaddle {
                status: CollisionStatus::Stopped,
                ball,
                paddle,
            } = e {
                if let Some(bi) = find_ball(&self.balls, ball) {
                    let b = self.balls[bi];
                    let touched_by = if paddle == self.player_paddle.entity {
                        Some(Paddle::Player)
                    } else if paddle == self.computer_paddle.entity {
                        Some(Paddle::Computer)
                    } else {
                        None
                    };
                    let nb = Ball { last_touched_paddle: touched_by, ..b };
                    self.balls.set(bi, nb);
                }
            }
            proof {
                assert(events@.take(i as int + 1).drop_last() =~= events@.take(i as int));
                assert(events@.take(i as int + 1).last() == e);
            }
            i = i + 1;
        }
        proof {
            assert(events@.take(events@.len() as int) =~= events@);
        }
    }

    /// Record, on each ball that entered a known side region, which half
    /// of the field it now occupies — read-only state for the area-speed
    /// bonus, never a removal trigger.
    pub fn track_balls_entering_side(&mut self, events: &Vec<GameCollisionEvent>)
        requires
            ctx_wf(*old(self)),
        ensures
            final(self).balls@ == sides_tracked(
                old(self).balls@,
                events@,
                old(self).player_side.entity,
                old(self).computer_side.entity,
            ),
            *final(self) == (SimulationContext { balls: final(self).balls, ..*old(self) }),
            ctx_wf(*final(self)),
    {
        let ghost orig = self.balls@;
        let ghost pse = self.player_side.entity;
        let ghost cse = self.computer_side.entity;
        let mut i: usize = 0;
        while i < events.len()
            invariant
                i <= events.len(),
                self.balls@ == sides_tracked(orig, events@.take(i as int), pse, cse),
                pse == self.player_side.entity,
                cse == self.computer_side.entity,
                forall|k: int| 0 <= k < self.balls@.len() ==> ball_wf(#[trigger] self.balls@[k]),
                *self == (SimulationContext { balls: self.balls, ..*old(self) }),
            decreases events.len() - i,
        {
            let e = events[i];
            if let GameCollisionEvent::BallAndSide {
                status: CollisionStatus::Started,
                ball,
                side,
            } = e {
                let resolved: Option<Side> = if side == self.player_side.entity {
                    Some(Side::Player)
                } else if side == self.computer_side.entity {
                    Some(Side::Computer)
                } else {
                    None
                };
                if let Some(s) = resolved {
                    if let Some(bi) = find_ball(&self.balls, ball) {
                        let b = self.balls[bi];
                        let nb = Ball { current_side: Some(s), ..b };
                        self.balls.set(bi, nb);
                    }
                }
            }
            proof {
                assert(events@.take(i as int + 1).drop_last() =~= events@.take(i as int));
                assert(events@.take(i as int + 1).last() == e);
            }
            i = i + 1;
        }
        proof {
            assert(events@.take(events@.len() as int) =~= events@);
        }
    }

    /// Flag every ball for continuous collision detection, so that
    /// high-speed motion cannot tunnel through thin colliders within one
    /// tick. A physics-engine configuration concern, recorded per body.
    pub fn enable_spawned_balls_ccd(&mut self)
        ensures
            final(self).balls@.len() == old(self).balls@.len(),
            forall|i: int|
                0 <= i < old(self).balls@.len() ==> #[trigger] final(self).balls@[i] == (Ball {
                    ccd_enabled: true,
                    ..old(self).balls@[i]
                }),
            *final(self) == (SimulationContext { balls: final(self).balls, ..*old(self) }),
            ctx_wf(*old(self)) ==> ctx_wf(*final(self)),
    {
        let ghost orig = self.balls@;
        let mut i: usize = 0;
        while i < self.balls.len()
            invariant
                i <= self.balls.len(),
                self.balls@.len() == orig.len(),
                forall|k: int| i <= k < orig.len() ==> #[trigger] self.balls@[k] == orig[k],
                forall|k: int|
                    0 <= k < i ==> #[trigger] self.balls@[k] == (Ball {
                        ccd_enabled: true,
                        ..orig[k]
                    }),
                *self == (SimulationContext { balls: self.balls, ..*old(self) }),
            decreases self.balls.len() - i,
        {
            let b = self.balls[i];
            self.balls.set(i, Ball { ccd_enabled: true, ..b });
            i = i + 1;
        }
    }

    /// Bound every ball's speed: a ball faster than the maximum is
    /// rescaled down to exactly that maximum along its own direction.
    /// Runs every tick, after all speed-ups, so the compounding from
    /// repeated speed-ups stays bounded.
    pub fn clamp_balls_speed(&mut self)
        requires
            ctx_wf(*old(self)),
        ensures
            final(self).balls@.len() == old(self).balls@.len(),
            forall|i: int|
                0 <= i < old(self).balls@.len() ==> #[trigger] final(self).balls@[i] == (Ball {
                    velocity: final(self).balls@[i].velocity,
                    ..old(self).balls@[i]
                }) && speed_clamped(
                    old(self).balls@[i].velocity,
                    crate::BALL_MAX_SPEED as int,
                    final(self).balls@[i].velocity,
                ) && norm_sq(final(self).balls@[i].velocity) <= crate::BALL_MAX_SPEED
                    * crate::BALL_MAX_SPEED,
            *final(self) == (SimulationContext { balls: final(self).balls, ..*old(self) }),
            ctx_wf(*final(self)),
    {
        let ghost orig = self.balls@;
        let mut i: usize = 0;
        while i < self.balls.len()
            invariant
                i <= self.balls.len(),
                self.balls@.len() == orig.len(),
                forall|k: int| 0 <= k < orig.len() ==> ball_wf(#[trigger] orig[k]),
                forall|k: int| i <= k < orig.len() ==> #[trigger] self.balls@[k] == orig[k],
                forall|k: int|
                    0 <= k < i ==> #[trigger] self.balls@[k] == (Ball {
                        velocity: self.balls@[k].velocity,
                        ..orig[k]
                    }) && speed_clamped(
                        orig[k].velocity,
                        crate::BALL_MAX_SPEED as int,
                        self.balls@[k].velocity,
                    ) && norm_sq(self.balls@[k].velocity) <= crate::BALL_MAX_SPEED
                        * crate::BALL_MAX_SPEED && ball_wf(self.balls@[k]),
                *self == (SimulationContext { balls: self.balls, ..*old(self) }),
            decreases self.balls.len() - i,
        {
            let b = self.balls[i];
            let v2 = crate::geometry::clamp_velocity(b.velocity, crate::BALL_MAX_SPEED);
            self.balls.set(i, Ball { velocity: v2, ..b });
            i = i + 1;
        }
    }

    /// Despawn every stalled ball: one whose vertical speed fell under the
    /// stall epsilon is trapped in a near-horizontal trajectory and is
    /// removed. An earlier rule variant; embedders may skip this pass.
    pub fn despawn_stalled_balls(&mut self)
        requires
            ctx_wf(*old(self)),
        ensures
            final(self).balls@ == stalled_removed(old(self).balls@),
            *final(self) == (SimulationContext { balls: final(self).balls, ..*old(self) }),
            ctx_wf(*final(self)),
    {
        let ghost orig = self.balls@;
        let mut kept: Vec<Ball> = Vec::new();
        let mut i: usize = 0;
        while i < self.balls.len()
            invariant
                i <= self.balls.len(),
                self.balls@ == orig,
                kept@ == stalled_removed(orig.take(i as int)),
                forall|k: int| 0 <= k < orig.len() ==> ball_wf(#[trigger] orig[k]),
                forall|k: int| 0 <= k < kept@.len() ==> ball_wf(#[trigger] kept@[k]),
            decreases self.balls.len() - i,
        {
            proof {
                assert(orig.take(i as int + 1).drop_last() =~= orig.take(i as int));
                assert(orig.take(i as int + 1).last() == orig[i as int]);
            }
            let b = self.balls[i];
            if !b.is_stalled() {
                kept.push(b);
            }
            i = i + 1;
        }
        proof {
            assert(orig.take(orig.len() as int) =~= orig);
        }
        self.balls = kept;
    }

    /// Write back the positions and velocities the physics engine computed
    /// this tick. Writes naming despawned balls are skipped; every write
    /// must be within the machine caps, which the embedding checks.
    pub fn apply_physics_updates(&mut self, updates: &Vec<PhysicsUpdate>)
        requires
            ctx_wf(*old(self)),
            forall|i: int| 0 <= i < updates@.len() ==> physics_update_wf(#[trigger] updates@[i]),
        ensures
            final(self).balls@ == physics_applied(old(self).balls@, updates@),
            *final(self) == (SimulationContext { balls: final(self).balls, ..*old(self) }),
            ctx_wf(*final(self)),
    {
        let ghost orig = self.balls@;
        let mut i: usize = 0;
        while i < updates.len()
            invariant
                i <= updates.len(),
                self.balls@ == physics_applied(orig, updates@.take(i as int)),
                forall|k: int| 0 <= k < updates@.len() ==> physics_update_wf(#[trigger] updates@[k]),
                forall|k: int| 0 <= k < self.balls@.len() ==> ball_wf(#[trigger] self.balls@[k]),
                *self == (SimulationContext { balls: self.balls, ..*old(self) }),
            decreases updates.len() - i,
        {
            let u = updates[i];
            if let Some(bi) = find_ball(&self.balls, u.entity) {
                let b = self.balls[bi];
                let nb = Ball { position: u.position, velocity: u.velocity, ..b };
                self.balls.set(bi, nb);
            }
            proof {
                assert(updates@.take(i as int + 1).drop_last() =~= updates@.take(i as int));
                assert(updates@.take(i as int + 1).last() == u);
            }
            i = i + 1;
        }
        proof {
            assert(updates@.take(updates@.len() as int) =~= updates@);
        }
    }

    /// Consume this tick's goal entries: cost the entered goal's side its
    /// health, despawn the scoring ball, and on a depletion credit the
    /// opponent's round-win counter, restore both healths and clear all
    /// balls.
    pub fn track_scoring_balls(&mut self, events: &Vec<GameCollisionEvent>)
        requires
            ctx_wf(*old(self)),
        ensures
            ({
                let r = scoring_applied(
                    old(self).score,
                    old(self).balls@,
                    events@,
                    old(self).player_goal.entity,
                    old(self).computer_goal.entity,
                );
                final(self).score == r.0 && final(self).balls@ == r.1
            }),
            *final(self) == (SimulationContext {
                score: final(self).score,
                balls: final(self).balls,
                ..*old(self)
            }),
            ctx_wf(*final(self)),
    {
        let ghost oscore = self.score;
        let ghost orig = self.balls@;
        let ghost pge = self.player_goal.entity;
        let ghost cge = self.computer_goal.entity;
        let mut i: usize = 0;
        while i < events.len()
            invariant
                i <= events.len(),
                ({
                    let r = scoring_applied(oscore, orig, events@.take(i as int), pge, cge);
                    self.score == r.0 && self.balls@ == r.1
                }),
                score_wf(self.score),
                pge == self.player_goal.entity,
                cge == self.computer_goal.entity,
                *self == (SimulationContext {
                    score: self.score,
                    balls: self.balls,
                    ..*old(self)
                }),
            decreases events.len() - i,
        {
            let e = events[i];
            if let GameCollisionEvent::BallAndGoal {
                status: CollisionStatus::Started,
                ball,
                goal,
            } = e {
                let resolved: Option<Goal> = if goal == self.player_goal.entity {
                    Some(Goal::Player)
                } else if goal == self.computer_goal.entity {
                    Some(Goal::Computer)
                } else {
                    None
                };
                if let Some(g) = resolved {
                    let round_over = self.score.apply_goal(g);
                    if round_over {
                        self.balls = Vec::new();
                    } else {
                        if let Some(bi) = find_ball(&self.balls, ball) {
                            self.balls.remove(bi);
                        }
                    }
                }
            }
            proof {
                assert(events@.take(i as int + 1).drop_last() =~= events@.take(i as int));
                assert(events@.take(i as int + 1).last() == e);
            }
            i = i + 1;
        }
        proof {
            assert(events@.take(events@.len() as int) =~= events@);
            lemma_scoring_wf(oscore, orig, events@, pge, cge);
        }
    }

    /// Resolve this tick's bonus pickups: look up the picking ball's last
    /// touching paddle, despawn each successfully resolved bonus exactly
    /// once, and emit its taken event. Unresolvable pickups are silently
    /// skipped and leave the bonus on the field.
    pub fn manage_taken_bonuses(&mut self, events: &Vec<GameCollisionEvent>) -> (taken: Vec<
        TakenBonusEvent,
    >)
        requires
            ctx_wf(*old(self)),
        ensures
            ({
                let r = pickups_applied(old(self).balls@, old(self).bonuses@, events@);
                final(self).bonuses@ == r.0 && taken@ == r.1
            }),
            *final(self) == (SimulationContext { bonuses: final(self).bonuses, ..*old(self) }),
            ctx_wf(*final(self)),
    {
        let mut taken: Vec<TakenBonusEvent> = Vec::new();
        let ghost obon = self.bonuses@;
        let mut i: usize = 0;
        while i < events.len()
            invariant
                i <= events.len(),
                ({
                    let r = pickups_applied(old(self).balls@, obon, events@.take(i as int));
                    self.bonuses@ == r.0 && taken@ == r.1
                }),
                *self == (SimulationContext { bonuses: self.bonuses, ..*old(self) }),
            decreases events.len() - i,
        {
            let e = events[i];
            if let GameCollisionEvent::BallAndBonus {
                status: CollisionStatus::Started,
                ball,
                bonus,
            } = e {
                if let Some(bi) = find_ball(&self.balls, ball) {
                    if let Some(oi) = find_bonus(&self.bonuses, bonus) {
                        let kind = self.bonuses[oi].bonus_type;
                        let last = self.balls[bi].last_touched_paddle;
                        if let Some(ev) = resolve_taken_bonus(kind, last, ball) {
                            self.bonuses.remove(oi);
                            taken.push(ev);
                        }
                    }
                }
            }
            proof {
                assert(events@.take(i as int + 1).drop_last() =~= events@.take(i as int));
                assert(events@.take(i as int + 1).last() == e);
            }
            i = i + 1;
        }
        proof {
            assert(events@.take(events@.len() as int) =~= events@);
        }
        taken
    }

    /// Apply the stacking area-speed rule: on each area-speed take, adjust
    /// every ball already sitting in a half; on each side crossing, scale
    /// the crossing ball up on entry into a boosted half and back down on
    /// exit by the same factor. The stacking counts are the held-bonus
    /// lists as they stand at entry, before this tick's takes are stored.
    pub fn manage_ball_speed_on_area_bonus(
        &mut self,
        taken: &Vec<TakenBonusEvent>,
        events: &Vec<GameCollisionEvent>,
    )
        requires
            ctx_wf(*old(self)),
        ensures
            ({
                let np = count_area_bonuses(old(self).score.player_bonuses@) as int;
                let nc = count_area_bonuses(old(self).score.computer_bonuses@) as int;
                final(self).balls@ == area_cross_applied(
                    area_taken_applied(old(self).balls@, taken@, np, nc),
                    events@,
                    old(self).player_side.entity,
                    old(self).computer_side.entity,
                    np,
                    nc,
                )
            }),
            *final(self) == (SimulationContext { balls: final(self).balls, ..*old(self) }),
            ctx_wf(*final(self)),
    {
        let np = count_area_bonuses_held(&self.score.player_bonuses);
        let nc = count_area_bonuses_held(&self.score.computer_bonuses);
        let ghost orig = self.balls@;
        let mut i: usize = 0;
        while i < taken.len()
            invariant
                i <= taken.len(),
                np == count_area_bonuses(old(self).score.player_bonuses@),
                nc == count_area_bonuses(old(self).score.computer_bonuses@),
                self.balls@ == area_taken_applied(orig, taken@.take(i as int), np as int, nc as int),
                forall|k: int| 0 <= k < self.balls@.len() ==> ball_wf(#[trigger] self.balls@[k]),
                *self == (SimulationContext { balls: self.balls, ..*old(self) }),
            decreases taken.len() - i,
        {
            let e = taken[i];
            if let Bonus::BallSpeedInArea { benefiting_paddle } = e.bonus {
                let ghost snap = self.balls@;
                let mut j: usize = 0;
                while j < self.balls.len()
                    invariant
                        j <= self.balls.len(),
                        self.balls@.len() == snap.len(),
                        forall|k: int| j <= k < snap.len() ==> #[trigger] self.balls@[k] == snap[k],
                        forall|k: int|
                            0 <= k < j ==> #[trigger] self.balls@[k] == area_adjust_ball(
                                snap[k],
                                benefiting_paddle,
                                np as int,
                                nc as int,
                            ),
                        forall|k: int| 0 <= k < snap.len() ==> ball_wf(#[trigger] snap[k]),
                        forall|k: int| 0 <= k < self.balls@.len() ==> ball_wf(#[trigger] self.balls@[k]),
                        *self == (SimulationContext { balls: self.balls, ..*old(self) }),
                    decreases self.balls.len() - j,
                {
                    let b = self.balls[j];
                    if let Some(side) = b.current_side {
                        let same = match (benefiting_paddle, side) {
                            (Paddle::Player, Side::Player) => true,
                            (Paddle::Computer, Side::Computer) => true,
                            _ => false,
                        };
                        let status = if same {
                            CollisionStatus::Stopped
                        } else {
                            CollisionStatus::Started
                        };
                        let v2 = change_velocity(b.velocity, side, status, np, nc);
                        proof {
                            lemma_change_velocity_bounded(
                                b.velocity,
                                side,
                                status,
                                np as int,
                                nc as int,
                            );
                        }
                        self.balls.set(j, Ball { velocity: v2, ..b });
                    }
                    j = j + 1;
                }
                proof {
                    assert(self.balls@ =~= Seq::new(
                        snap.len(),
                        |k: int| area_adjust_ball(snap[k], benefiting_paddle, np as int, nc as int),
                    ));
                }
            }
            proof {
                assert(taken@.take(i as int + 1).drop_last() =~= taken@.take(i as int));
                assert(taken@.take(i as int + 1).last() == e);
            }
            i = i + 1;
        }
        proof {
            assert(taken@.take(taken@.len() as int) =~= taken@);
        }
        let ghost mid = self.balls@;
        let ghost pse = self.player_side.entity;
        let ghost cse = self.computer_side.entity;
        let mut i2: usize = 0;
        while i2 < events.len()
            invariant
                i2 <= events.len(),
                np == count_area_bonuses(old(self).score.player_bonuses@),
                nc == count_area_bonuses(old(self).score.computer_bonuses@),
                mid == area_taken_applied(orig, taken@, np as int, nc as int),
                self.balls@ == area_cross_applied(
                    mid,
                    events@.take(i2 as int),
                    pse,
                    cse,
                    np as int,
                    nc as int,
                ),
                pse == self.player_side.entity,
                cse == self.computer_side.entity,
                forall|k: int| 0 <= k < self.balls@.len() ==> ball_wf(#[trigger] self.balls@[k]),
                *self == (SimulationContext { balls: self.balls, ..*old(self) }),
            decreases events.len() - i2,
        {
            let e = events[i2];
            if let GameCollisionEvent::BallAndSide { status, ball, side } = e {
                let resolved: Option<Side> = if side == self.player_side.entity {
                    Some(Side::Player)
                } else if side == self.computer_side.entity {
                    Some(Side::Computer)
                } else {
                    None
                };
                if let Some(s) = resolved {
                    if let Some(bi) = find_ball(&self.balls, ball) {
                        let b = self.balls[bi];
                        let v2 = change_velocity(b.velocity, s, status, np, nc);
                        proof {
                            lemma_change_velocity_bounded(b.velocity, s, status, np as int, nc as int);
                        }
                        self.balls.set(bi, Ball { velocity: v2, ..b });
                    }
                }
            }
            proof {
                assert(events@.take(i2 as int + 1).drop_last() =~= events@.take(i2 as int));
                assert(events@.take(i2 as int + 1).last() == e);
            }
            i2 = i2 + 1;
        }
        proof {
            assert(events@.take(events@.len() as int) =~= events@);
        }
    }

    /// Apply each gravity take of this tick: overwrite every ball's
    /// acceleration with the fixed horizontal pull toward the goal the
    /// earning side attacks.
    pub fn manage_balls_vertical_gravity_bonus(&mut self, taken: &Vec<TakenBonusEvent>)
        requires
            ctx_wf(*old(self)),
        ensures
            final(self).balls@ == gravity_applied(old(self).balls@, taken@),
            *final(self) == (SimulationContext { balls: final(self).balls, ..*old(self) }),
            ctx_wf(*final(self)),
    {
        let ghost orig = self.balls@;
        let mut i: usize = 0;
        while i < taken.len()
            invariant
                i <= taken.len(),
                self.balls@ == gravity_applied(orig, taken@.take(i as int)),
                forall|k: int| 0 <= k < self.balls@.len() ==> ball_wf(#[trigger] self.balls@[k]),
                *self == (SimulationContext { balls: self.balls, ..*old(self) }),
            decreases taken.len() - i,
        {
            let e = taken[i];
            if let Bonus::BallsVerticalGravity { benefiting_paddle } = e.bonus {
                let accel = match benefiting_paddle {
                    Paddle::Player => Vec2 { x: -GRAVITY_ACCEL, y: 0 },
                    Paddle::Computer => Vec2 { x: GRAVITY_ACCEL, y: 0 },
                };
                let ghost snap = self.balls@;
                let mut j: usize = 0;
                while j < self.balls.len()
                    invariant
                        j <= self.balls.len(),
                        self.balls@.len() == snap.len(),
                        accel == gravity_vector(benefiting_paddle),
                        forall|k: int| j <= k < snap.len() ==> #[trigger] self.balls@[k] == snap[k],
                        forall|k: int|
                            0 <= k < j ==> #[trigger] self.balls@[k] == (Ball {
                                acceleration: gravity_vector(benefiting_paddle),
                                ..snap[k]
                            }),
                        forall|k: int| 0 <= k < snap.len() ==> ball_wf(#[trigger] snap[k]),
                        forall|k: int| 0 <= k < self.balls@.len() ==> ball_wf(#[trigger] self.balls@[k]),
                        *self == (SimulationContext { balls: self.balls, ..*old(self) }),
                    decreases self.balls.len() - j,
                {
                    let b = self.balls[j];
                    self.balls.set(j, Ball { acceleration: accel, ..b });
                    j = j + 1;
                }
                proof {
                    assert(self.balls@ =~= Seq::new(
                        snap.len(),
                        |k: int| Ball { acceleration: gravity_vector(benefiting_paddle), ..snap[k] },
                    ));
                }
            }
            proof {
                assert(taken@.take(i as int + 1).drop_last() =~= taken@.take(i as int));
                assert(taken@.take(i as int + 1).last() == e);
            }
            i = i + 1;
        }
        proof {
            assert(taken@.take(taken@.len() as int) =~= taken@);
        }
    }

    /// Apply each shrink take of this tick: the impacted paddle — the
    /// opponent of the side that earned the bonus — loses one size step,
    /// clamped at the minimum.
    pub fn manage_shrink_paddle_size_bonus(&mut self, taken: &Vec<TakenBonusEvent>)
        requires
            ctx_wf(*old(self)),
        ensures
            ({
                let r = shrinks_applied(old(self).player_paddle, old(self).computer_paddle, taken@);
                final(self).player_paddle == r.0 && final(self).computer_paddle == r.1
            }),
            *final(self) == (SimulationContext {
                player_paddle: final(self).player_paddle,
                computer_paddle: final(self).computer_paddle,
                ..*old(self)
            }),
            ctx_wf(*final(self)),
    {
        let ghost op = self.player_paddle;
        let ghost oc = self.computer_paddle;
        let mut i: usize = 0;
        while i < taken.len()
            invariant
                i <= taken.len(),
                ({
                    let r = shrinks_applied(op, oc, taken@.take(i as int));
                    self.player_paddle == r.0 && self.computer_paddle == r.1
                }),
                paddle_wf(self.player_paddle),
                paddle_wf(self.computer_paddle),
                self.player_paddle.paddle == old(self).player_paddle.paddle,
                self.computer_paddle.paddle == old(self).computer_paddle.paddle,
                *self == (SimulationContext {
                    player_paddle: self.player_paddle,
                    computer_paddle: self.computer_paddle,
                    ..*old(self)
                }),
            decreases taken.len() - i,
        {
            let e = taken[i];
            if let Bonus::ShrinkPaddleSize { impacted_paddle } = e.bonus {
                match impacted_paddle {
                    Paddle::Player => crate::actors::shrink_paddle(&mut self.player_paddle),
                    Paddle::Computer => crate::actors::shrink_paddle(&mut self.computer_paddle),
                }
            }
            proof {
                assert(taken@.take(i as int + 1).drop_last() =~= taken@.take(i as int));
                assert(taken@.take(i as int + 1).last() == e);
            }
            i = i + 1;
        }
        proof {
            assert(taken@.take(taken@.len() as int) =~= taken@);
        }
    }

    /// Apply each grow take of this tick: the benefiting paddle gains one
    /// size step, clamped at the maximum.
    pub fn manage_increase_paddle_size_bonus(&mut self, taken: &Vec<TakenBonusEvent>)
        requires
            ctx_wf(*old(self)),
        ensures
            ({
                let r = grows_applied(old(self).player_paddle, old(self).computer_paddle, taken@);
                final(self).player_paddle == r.0 && final(self).computer_paddle == r.1
            }),
            *final(self) == (SimulationContext {
                player_paddle: final(self).player_paddle,
                computer_paddle: final(self).computer_paddle,
                ..*old(self)
            }),
            ctx_wf(*final(self)),
    {
        let ghost op = self.player_paddle;
        let ghost oc = self.computer_paddle;
        let mut i: usize = 0;
        while i < taken.len()
            invariant
                i <= taken.len(),
                ({
                    let r = grows_applied(op, oc, taken@.take(i as int));
                    self.player_paddle == r.0 && self.computer_paddle == r.1
                }),
                paddle_wf(self.player_paddle),
                paddle_wf(self.computer_paddle),
                self.player_paddle.paddle == old(self).player_paddle.paddle,
                self.computer_paddle.paddle == old(self).computer_paddle.paddle,
                *self == (SimulationContext {
                    player_paddle: self.player_paddle,
                    computer_paddle: self.computer_paddle,
                    ..*old(self)
                }),
            decreases taken.len() - i,
        {
            let e = taken[i];
            if let Bonus::IncreasePaddleSize { benefiting_paddle } = e.bonus {
                match benefiting_paddle {
                    Paddle::Player => crate::actors::grow_paddle(&mut self.player_paddle),
                    Paddle::Computer => crate::actors::grow_paddle(&mut self.computer_paddle),
                }
            }
            proof {
                assert(taken@.take(i as int + 1).drop_last() =~= taken@.take(i as int));
                assert(taken@.take(i as int + 1).last() == e);
            }
            i = i + 1;
        }
        proof {
            assert(taken@.take(taken@.len() as int) =~= taken@);
        }
    }

    /// The `WaitingPlayer` to `InGame` transition: when the launch control
    /// was just released and at least one ball exists, every ball present
    /// receives a randomized launch velocity — forward-biased, never
    /// exactly horizontal or vertical, side chosen by a fair coin flip.
    pub fn launch_ball(&mut self, launch_just_released: bool)
        requires
            ctx_wf(*old(self)),
            old(self).state == States::WaitingPlayer,
        ensures
            !(launch_just_released && old(self).balls@.len() > 0) ==> *final(self) == *old(self),
            launch_just_released && old(self).balls@.len() > 0 ==> {
                &&& final(self).state == States::InGame
                &&& final(self).balls@.len() == old(self).balls@.len()
                &&& forall|i: int|
                    0 <= i < old(self).balls@.len() ==> #[trigger] final(self).balls@[i] == (Ball {
                        velocity: final(self).balls@[i].velocity,
                        ..old(self).balls@[i]
                    }) && launched_velocity(final(self).balls@[i].velocity)
                &&& *final(self) == (SimulationContext {
                    state: States::InGame,
                    balls: final(self).balls,
                    ..*old(self)
                })
            },
            ctx_wf(*final(self)),
    {
        if !launch_just_released || self.balls.len() == 0 {
            return ;
        }
        self.state = States::InGame;
        let ghost orig = self.balls@;
        let mut i: usize = 0;
        while i < self.balls.len()
            invariant
                i <= self.balls.len(),
                self.balls@.len() == orig.len(),
                forall|k: int| i <= k < orig.len() ==> #[trigger] self.balls@[k] == orig[k],
                forall|k: int|
                    0 <= k < i ==> #[trigger] self.balls@[k] == (Ball {
                        velocity: self.balls@[k].velocity,
                        ..orig[k]
                    }) && launched_velocity(self.balls@[k].velocity),
                forall|k: int| 0 <= k < orig.len() ==> ball_wf(#[trigger] orig[k]),
                forall|k: int| 0 <= k < self.balls@.len() ==> ball_wf(#[trigger] self.balls@[k]),
                *self == (SimulationContext {
                    state: States::InGame,
                    balls: self.balls,
                    ..*old(self)
                }),
            decreases self.balls.len() - i,
        {
            let v = random_launch_velocity();
            let b = self.balls[i];
            self.balls.set(i, Ball { velocity: v, ..b });
            i = i + 1;
        }
    }

    /// Materialize this tick's bonus spawn requests, each as a bonus
    /// entity of the requested kind at a uniformly random field position.
    pub fn spawn_bonuses(&mut self, spawn_reqs: &Vec<crate::bonus::SpawnBonusEvent>)
        requires
            ctx_wf(*old(self)),
        ensures
            exists|ps: Seq<Vec2>|
                #[trigger] bonuses_spawned(old(self).bonuses@, spawn_reqs@, old(self).next_entity_id, ps)
                    == (final(self).bonuses@, final(self).next_entity_id) && ps.len() == spawn_reqs@.len()
                    && (forall|k: int| 0 <= k < ps.len() ==> in_bonus_field(#[trigger] ps[k])),
            final(self).bonuses@.len() == old(self).bonuses@.len() + spawn_reqs@.len(),
            forall|k: int|
                0 <= k < old(self).bonuses@.len() ==> #[trigger] final(self).bonuses@[k] == old(
                    self,
                ).bonuses@[k],
            forall|k: int|
                0 <= k < spawn_reqs@.len() ==> (#[trigger] final(self).bonuses@[old(self).bonuses@.len()
                    + k]).bonus_type == spawn_reqs@[k].0 && in_bonus_field(
                    final(self).bonuses@[old(self).bonuses@.len() + k].position,
                ),
            *final(self) == (SimulationContext {
                bonuses: final(self).bonuses,
                next_entity_id: final(self).next_entity_id,
                ..*old(self)
            }),
            ctx_wf(*final(self)),
    {
        let ghost orig = self.bonuses@;
        let ghost onext = self.next_entity_id;
        let ghost mut ps: Seq<Vec2> = Seq::empty();
        let mut i: usize = 0;
        while i < spawn_reqs.len()
            invariant
                i <= spawn_reqs.len(),
                ps.len() == i,
                forall|k: int| 0 <= k < ps.len() ==> in_bonus_field(#[trigger] ps[k]),
                bonuses_spawned(orig, spawn_reqs@.take(i as int), onext, ps) == (
                    self.bonuses@,
                    self.next_entity_id,
                ),
                self.bonuses@.len() == orig.len() + i,
                forall|k: int| 0 <= k < orig.len() ==> #[trigger] self.bonuses@[k] == orig[k],
                forall|k: int|
                    0 <= k < i ==> (#[trigger] self.bonuses@[orig.len() + k]).bonus_type
                        == spawn_reqs@[k].0 && in_bonus_field(self.bonuses@[orig.len() + k].position),
                *self == (SimulationContext {
                    bonuses: self.bonuses,
                    next_entity_id: self.next_entity_id,
                    ..*old(self)
                }),
            decreases spawn_reqs.len() - i,
        {
            let x = -BONUS_FIELD_X + (crate::rng::rand_below(20_001) as i64);
            let y = -BONUS_FIELD_Y + (crate::rng::rand_below(11_001) as i64);
            let pos = Vec2 { x, y };
            let id = self.alloc_entity();
            let kind = spawn_reqs[i].0;
            self.bonuses.push(BonusEntity { entity: id, bonus_type: kind, position: pos });
            proof {
                let ps0 = ps;
                ps = ps.push(pos);
                assert(spawn_reqs@.take(i as int + 1).drop_last() =~= spawn_reqs@.take(i as int));
                assert(spawn_reqs@.take(i as int + 1).last() == spawn_reqs@[i as int]);
                assert(ps.drop_last() =~= ps0);
                assert(ps.last() == pos);
            }
            i = i + 1;
        }
        proof {
            assert(spawn_reqs@.take(spawn_reqs@.len() as int) =~= spawn_reqs@);
        }
    }

    /// Apply each split take of this tick: spawn a new ball at the picking
    /// ball's position with the same speed in a randomly turned direction;
    /// the original ball is left unaffected. A split whose ball was
    /// despawned earlier this tick is skipped.
    pub fn manage_split_ball_bonus(&mut self, taken: &Vec<TakenBonusEvent>)
        requires
            ctx_wf(*old(self)),
        ensures
            exists|ks: Seq<int>|
                #[trigger] splits_applied(old(self).balls@, taken@, old(self).next_entity_id, ks)
                    == (final(self).balls@, final(self).next_entity_id) && ks.len() == taken@.len()
                    && (forall|k: int| 0 <= k < ks.len() ==> 0 <= #[trigger] ks[k] < 8),
            old(self).balls@.len() <= final(self).balls@.len(),
            forall|k: int|
                0 <= k < old(self).balls@.len() ==> #[trigger] final(self).balls@[k] == old(
                    self,
                ).balls@[k],
            *final(self) == (SimulationContext {
                balls: final(self).balls,
                next_entity_id: final(self).next_entity_id,
                ..*old(self)
            }),
            ctx_wf(*final(self)),
    {
        let ghost orig = self.balls@;
        let ghost onext = self.next_entity_id;
        let ghost mut ks: Seq<int> = Seq::empty();
        let mut i: usize = 0;
        while i < taken.len()
            invariant
                i <= taken.len(),
                ks.len() == i,
                forall|k: int| 0 <= k < ks.len() ==> 0 <= #[trigger] ks[k] < 8,
                splits_applied(orig, taken@.take(i as int), onext, ks) == (
                    self.balls@,
                    self.next_entity_id,
                ),
                orig.len() <= self.balls@.len(),
                forall|k: int| 0 <= k < orig.len() ==> #[trigger] self.balls@[k] == orig[k],
                forall|k: int| 0 <= k < self.balls@.len() ==> ball_wf(#[trigger] self.balls@[k]),
                *self == (SimulationContext {
                    balls: self.balls,
                    next_entity_id: self.next_entity_id,
                    ..*old(self)
                }),
            decreases taken.len() - i,
        {
            let e = taken[i];
            let ghost mut kk: int = 0int;
            if let Bonus::SplitBall { ball } = e.bonus {
                if let Some(bi) = find_ball(&self.balls, ball) {
                    let src = self.balls[bi];
                    let k = crate::rng::rand_below(8);
                    proof {
                        kk = k as int;
                    }
                    let v2 = crate::geometry::rotate_eighth(src.velocity, k);
                    let id = self.alloc_entity();
                    let nb = Ball {
                        entity: id,
                        position: src.position,
                        velocity: v2,
                        acceleration: Vec2::zero(),
                        touched_paddles: 0,
                        last_touched_paddle: None,
                        current_side: None,
                        ccd_enabled: false,
                    };
                    self.balls.push(nb);
                }
            }
            proof {
                let ks0 = ks;
                ks = ks.push(kk);
                assert(taken@.take(i as int + 1).drop_last() =~= taken@.take(i as int));
                assert(taken@.take(i as int + 1).last() == e);
                assert(ks.drop_last() =~= ks0);
                assert(ks.last() == kk);
            }
            i = i + 1;
        }
        proof {
            assert(taken@.take(taken@.len() as int) =~= taken@);
        }
    }

    /// One simulation tick while waiting for the launch: only the launch
    /// rule runs.
    pub fn tick_waiting(&mut self, input: InputState)
        requires
            ctx_wf(*old(self)),
            old(self).state == States::WaitingPlayer,
        ensures
            !(input.launch_just_released && old(self).balls@.len() > 0) ==> *final(self) == *old(
                self,
            ),
            input.launch_just_released && old(self).balls@.len() > 0 ==> {
                &&& final(self).state == States::InGame
                &&& final(self).balls@.len() == old(self).balls@.len()
                &&& forall|i: int|
                    0 <= i < old(self).balls@.len() ==> #[trigger] final(self).balls@[i] == (Ball {
                        velocity: final(self).balls@[i].velocity,
                        ..old(self).balls@[i]
                    }) && launched_velocity(final(self).balls@[i].velocity)
                &&& *final(self) == (SimulationContext {
                    state: States::InGame,
                    balls: final(self).balls,
                    ..*old(self)
                })
            },
            ctx_wf(*final(self)),
    {
        self.launch_ball(input.launch_just_released);
    }

    /// One in-play simulation tick, in the documented pipeline order: the
    /// physics results are written back, raw contacts are classified, the
    /// paddles move, the gameplay consumers run, the bonus economy
    /// advances, every ball's speed is clamped, stalled balls are
    /// despawned, and finally the state machine re-evaluates: a tick that
    /// ends with no ball in play performs the round reset. The whole tick
    /// is pinned by `tick_in_game_rel`.
    #[verifier::rlimit(50)]
    pub fn tick_in_game(
        &mut self,
        contacts: &Vec<ContactRecord>,
        physics: &Vec<PhysicsUpdate>,
        input: InputState,
        dt_ms: u64,
    )
        requires
            ctx_wf(*old(self)),
            old(self).state == States::InGame,
            dt_ms <= TICK_MS_LIMIT,
            forall|k: int| 0 <= k < physics@.len() ==> physics_update_wf(#[trigger] physics@[k]),
        ensures
            tick_in_game_rel(*old(self), *final(self), contacts@, physics@, input, dt_ms as int),
            final(self).state == States::InGame || final(self).state == States::WaitingPlayer,
            final(self).state == States::WaitingPlayer ==> final(self).balls@.len() == 1,
            final(self).state == States::InGame ==> forall|k: int|
                0 <= k < final(self).balls@.len() ==> norm_sq(
                    (#[trigger] final(self).balls@[k]).velocity,
                ) <= crate::BALL_MAX_SPEED * crate::BALL_MAX_SPEED,
            final(self).player_paddle.tilt == crate::actors::tilt_for(
                final(self).player_paddle.velocity_y as int,
            ),
            final(self).computer_paddle.tilt == crate::actors::tilt_for(
                final(self).computer_paddle.velocity_y as int,
            ),
            ctx_wf(*final(self)),
    {
        let ghost pre = *self;
        self.apply_physics_updates(physics);
        let ghost after_physics = self.balls@;
        let events = produce_game_collision_events(contacts);
        self.enable_spawned_balls_ccd();
        let ghost after_ccd = self.balls@;
        proof {
            assert(after_ccd =~= Seq::new(
                after_physics.len(),
                |k: int| Ball { ccd_enabled: true, ..after_physics[k] },
            ));
        }
        let dir = if input.up_pressed {
            InputDirection::Up
        } else if input.down_pressed {
            InputDirection::Down
        } else {
            InputDirection::Neutral
        };
        proof {
            assert(dir == input_direction(input));
        }
        crate::actors::move_player_paddle(&mut self.player_paddle, dir, dt_ms);
        proof {
            assert(self.player_paddle == player_paddle_moved(
                pre.player_paddle,
                input,
                dt_ms as int,
            ));
        }
        crate::actors::move_computer_paddle(&mut self.computer_paddle, &self.balls, dt_ms);
        let ghost computer_move = self.computer_paddle;
        proof {
            assert(computer_paddle_moved_rel(pre.computer_paddle, after_ccd, dt_ms as int, computer_move));
        }
        crate::actors::tilt_paddle(&mut self.player_paddle);
        crate::actors::tilt_paddle(&mut self.computer_paddle);
        proof {
            assert(self.player_paddle == tilted(
                player_paddle_moved(pre.player_paddle, input, dt_ms as int),
            ));
            assert(self.computer_paddle == tilted(computer_move));
        }
        self.speed_up_balls_with_touched_paddles(&events);
        self.speed_up_balls_with_touched_edges(&events);
        self.track_scoring_balls(&events);
        self.track_balls_touching_paddles(&events);
        self.track_balls_entering_side(&events);
        let ghost after_side_tracking = self.balls@;
        let spawn_reqs = crate::bonus::tick_bonuses_timers(&mut self.bonuses_timers, dt_ms);
        self.spawn_bonuses(&spawn_reqs);
        let ghost spawned_bonuses = self.bonuses@;
        let ghost next_after_spawn = self.next_entity_id;
        let ghost ps = choose|ps: Seq<Vec2>|
            #[trigger] bonuses_spawned(pre.bonuses@, spawn_reqs@, pre.next_entity_id, ps) == (
            spawned_bonuses,
            next_after_spawn,
            ) && ps.len() == spawn_reqs@.len() && (forall|k: int|
                0 <= k < ps.len() ==> in_bonus_field(#[trigger] ps[k]));
        let taken = self.manage_taken_bonuses(&events);
        self.manage_split_ball_bonus(&taken);
        let ghost after_split = self.balls@;
        let ghost next_after_split = self.next_entity_id;
        let ghost ks = choose|ks: Seq<int>|
            #[trigger] splits_applied(after_side_tracking, taken@, next_after_spawn, ks) == (
            after_split,
            next_after_split,
            ) && ks.len() == taken@.len() && (forall|k: int|
                0 <= k < ks.len() ==> 0 <= #[trigger] ks[k] < 8);
        self.manage_ball_speed_on_area_bonus(&taken, &events);
        crate::score::store_taken_bonuses_in_score(&mut self.score, &taken);
        self.manage_balls_vertical_gravity_bonus(&taken);
        let ghost pp1 = self.player_paddle;
        let ghost cp1 = self.computer_paddle;
        self.manage_shrink_paddle_size_bonus(&taken);
        proof {
            lemma_size_folds_preserve(pp1, cp1, taken@);
        }
        let ghost pp2 = self.player_paddle;
        let ghost cp2 = self.computer_paddle;
        self.manage_increase_paddle_size_bonus(&taken);
        proof {
            lemma_size_folds_preserve(pp2, cp2, taken@);
        }
        self.clamp_balls_speed();
        let ghost clamped_balls = self.balls@;
        proof {
            lemma_stalled_removed_speed(
                self.balls@,
                crate::BALL_MAX_SPEED * crate::BALL_MAX_SPEED,
            );
        }
        self.despawn_stalled_balls();
        let ghost mid = *self;
        self.regame_when_no_balls();
        proof {
            assert(tick_in_game_stages(
                pre,
                *self,
                contacts@,
                physics@,
                input,
                dt_ms as int,
                computer_move,
                ps,
                ks,
                clamped_balls,
                mid,
            ));
        }
    }
}

/// The directional signal derived from the held keys; up wins over down.
pub open spec fn input_direction(input: InputState) -> InputDirection {
    if input.up_pressed {
        InputDirection::Up
    } else if input.down_pressed {
        InputDirection::Down
    } else {
        InputDirection::Neutral
    }
}

/// The player paddle after one tick of input-driven movement: velocity set
/// to the signed paddle speed, position advanced by it and clamped to the
/// playable range.
pub open spec fn player_paddle_moved(p: PaddleState, input: InputState, dt: int) -> PaddleState {
    let dir = input_direction(input);
    PaddleState {
        velocity_y: (direction_sign(dir) * crate::PADDLE_SPEED) as i64,
        y: clamped(
            p.y + direction_sign(dir) * paddle_step(dt),
            -PADDLE_Y_LIMIT as int,
            PADDLE_Y_LIMIT as int,
        ) as i64,
        ..p
    }
}

/// A paddle with its rotation recomputed from its vertical velocity.
pub open spec fn tilted(p: PaddleState) -> PaddleState {
    PaddleState { tilt: tilt_for(p.velocity_y as int), ..p }
}

/// The computer paddle's chase for one tick: `q` is the state the move
/// produces from `p` against the given balls — unchanged without a ball,
/// otherwise driven at the first ball with the smallest horizontal
/// distance, with the dead-zone rule, clamped to the playable range.
pub open spec fn computer_paddle_moved_rel(
    p: PaddleState,
    balls: Seq<Ball>,
    dt: int,
    q: PaddleState,
) -> bool {
    &&& balls.len() == 0 ==> q == p
    &&& balls.len() > 0 ==> exists|j: int|
        #[trigger] is_first_nearest(balls, paddle_x(Paddle::Computer), j) && {
            let speed = ai_speed(balls[j].position.y - p.y);
            &&& q.velocity_y == speed
            &&& q.y == clamped(p.y + speed * dt / 1000, -PADDLE_Y_LIMIT as int, PADDLE_Y_LIMIT as int)
        }
    &&& q == (PaddleState { y: q.y, velocity_y: q.velocity_y, ..p })
}

/// One in-play tick, stage by stage in the documented order, given the
/// tick's drawn values: the computer paddle's move `computer_move`, the drawn bonus
/// positions `ps`, the drawn split directions `ks`, the clamped balls
/// `clamped_balls`, and the assembled state `mid` just before the state machine
/// re-evaluates. Every other stage is a deterministic function of the
/// inputs.
pub open spec fn tick_in_game_stages(
    pre: SimulationContext,
    post: SimulationContext,
    contacts: Seq<ContactRecord>,
    physics: Seq<PhysicsUpdate>,
    input: InputState,
    dt: int,
    computer_move: PaddleState,
    ps: Seq<Vec2>,
    ks: Seq<int>,
    clamped_balls: Seq<Ball>,
    mid: SimulationContext,
) -> bool {
    let events = classified_events(contacts);
    let after_physics = physics_applied(pre.balls@, physics);
    let after_ccd = Seq::new(after_physics.len(), |k: int| Ball { ccd_enabled: true, ..after_physics[k] });
    let player_moved = tilted(player_paddle_moved(pre.player_paddle, input, dt));
    let computer_moved = tilted(computer_move);
    let after_paddle_hits = paddle_hits_applied(after_ccd, events);
    let after_edge_hits = edge_hits_applied(after_paddle_hits, events);
    let scored = scoring_applied(
        pre.score,
        after_edge_hits,
        events,
        pre.player_goal.entity,
        pre.computer_goal.entity,
    );
    let after_touch_tracking = touches_tracked(
        scored.1,
        events,
        pre.player_paddle.entity,
        pre.computer_paddle.entity,
    );
    let after_side_tracking = sides_tracked(after_touch_tracking, events, pre.player_side.entity, pre.computer_side.entity);
    let spawn_reqs = fired_spawn_events(pre.bonuses_timers.0@, dt);
    let spawned = bonuses_spawned(pre.bonuses@, spawn_reqs, pre.next_entity_id, ps);
    let picked = pickups_applied(after_side_tracking, spawned.0, events);
    let taken = picked.1;
    let split = splits_applied(after_side_tracking, taken, spawned.1, ks);
    let np = count_area_bonuses(scored.0.player_bonuses@) as int;
    let nc = count_area_bonuses(scored.0.computer_bonuses@) as int;
    let after_area = area_cross_applied(
        area_taken_applied(split.0, taken, np, nc),
        events,
        pre.player_side.entity,
        pre.computer_side.entity,
        np,
        nc,
    );
    let after_gravity = gravity_applied(after_area, taken);
    let shrunk = shrinks_applied(player_moved, computer_moved, taken);
    let sized = grows_applied(shrunk.0, shrunk.1, taken);
    &&& computer_paddle_moved_rel(pre.computer_paddle, after_ccd, dt, computer_move)
    &&& ps.len() == spawn_reqs.len()
    &&& forall|i: int| 0 <= i < ps.len() ==> in_bonus_field(#[trigger] ps[i])
    &&& ks.len() == taken.len()
    &&& forall|i: int| 0 <= i < ks.len() ==> 0 <= #[trigger] ks[i] < 8
    &&& clamped_balls.len() == after_gravity.len()
    &&& forall|i: int|
        0 <= i < after_gravity.len() ==> #[trigger] clamped_balls[i] == (Ball {
            velocity: clamped_balls[i].velocity,
            ..after_gravity[i]
        }) && speed_clamped(after_gravity[i].velocity, crate::BALL_MAX_SPEED as int, clamped_balls[i].velocity)
    &&& mid.state == States::InGame
    &&& mid.next_entity_id == split.1
    &&& mid.balls@ == stalled_removed(clamped_balls)
    &&& mid.player_paddle == sized.0
    &&& mid.computer_paddle == sized.1
    &&& mid.bonuses@ == picked.0
    &&& mid.bonuses_timers.0@.len() == pre.bonuses_timers.0@.len()
    &&& forall|i: int|
        0 <= i < pre.bonuses_timers.0@.len() ==> #[trigger] mid.bonuses_timers.0@[i] == (
        timer_ticked(pre.bonuses_timers.0@[i].0, dt),
        pre.bonuses_timers.0@[i].1,
        )
    &&& mid.score.player_health == scored.0.player_health
    &&& mid.score.computer_health == scored.0.computer_health
    &&& mid.score.player_score == scored.0.player_score
    &&& mid.score.computer_score == scored.0.computer_score
    &&& mid.score.player_bonuses@ == scored.0.player_bonuses@ + bonuses_taken_for(
        taken,
        Paddle::Player,
    )
    &&& mid.score.computer_bonuses@ == scored.0.computer_bonuses@ + bonuses_taken_for(
        taken,
        Paddle::Computer,
    )
    &&& mid.player_goal == pre.player_goal
    &&& mid.computer_goal == pre.computer_goal
    &&& mid.top_edge == pre.top_edge
    &&& mid.bottom_edge == pre.bottom_edge
    &&& mid.player_side == pre.player_side
    &&& mid.computer_side == pre.computer_side
    &&& mid.top_field_line == pre.top_field_line
    &&& mid.bottom_field_line == pre.bottom_field_line
    &&& mid.player_lifebar == pre.player_lifebar
    &&& mid.computer_lifebar == pre.computer_lifebar
    &&& if mid.balls@.len() > 0 {
        post == mid
    } else {
        round_reset_outcome(mid, post)
    }
}

/// One in-play tick: the post state follows from the pre state by the
/// documented stage pipeline, for some drawn computer-paddle chase, bonus
/// positions, split directions and clamp outcome.
pub open spec fn tick_in_game_rel(
    pre: SimulationContext,
    post: SimulationContext,
    contacts: Seq<ContactRecord>,
    physics: Seq<PhysicsUpdate>,
    input: InputState,
    dt: int,
) -> bool {
    exists|computer_move: PaddleState, ps: Seq<Vec2>, ks: Seq<int>, clamped_balls: Seq<Ball>, mid: SimulationContext|
        #[trigger] tick_in_game_stages(
            pre,
            post,
            contacts,
            physics,
            input,
            dt,
            computer_move,
            ps,
            ks,
            clamped_balls,
            mid,
        )
}

/// Draw a random launch velocity: vertical component uniform within the
/// quarter-turn cone and no smaller than the stall epsilon, horizontal
/// component completing the launch speed, each sign by a fair coin flip.
fn random_launch_velocity() -> (v: Vec2)
    ensures
        launched_velocity(v),
        abs(v.x as int) <= COMPONENT_LIMIT,
        abs(v.y as int) <= COMPONENT_LIMIT,
{
    let vy_mag = (crate::actors::STALL_EPSILON as u64) + crate::rng::rand_below(6_972);
    let vy_neg = crate::rng::rand_below(2) == 1;
    let vx_neg = crate::rng::rand_below(2) == 1;
    let s = crate::BALL_SPEED as u128;
    proof {
        assert((vy_mag as u128) * (vy_mag as u128) <= 49_999_041) by (nonlinear_arith)
            requires
                100 <= vy_mag <= 7_071,
        ;
        assert(s * s == 100_000_000) by (nonlinear_arith)
            requires
                s == 10_000u128,
        ;
    }
    let rem = s * s - (vy_mag as u128) * (vy_mag as u128);
    let vx_mag = crate::geometry::floor_sqrt_u128(rem);
    proof {
        assert(vx_mag >= 7_071) by (nonlinear_arith)
            requires
                rem as int >= 50_000_959,
                (rem as int) < (vx_mag as int + 1) * (vx_mag as int + 1),
        ;
        assert(vx_mag <= 10_000) by (nonlinear_arith)
            requires
                (vx_mag as int) * (vx_mag as int) <= rem as int,
                rem <= 100_000_000,
        ;
    }
    let x: i64 = if vx_neg {
        -(vx_mag as i64)
    } else {
        vx_mag as i64
    };
    let y: i64 = if vy_neg {
        -(vy_mag as i64)
    } else {
        vy_mag as i64
    };
    let v = Vec2 { x, y };
    proof {
        assert(crate::BALL_SPEED * crate::BALL_SPEED == 100_000_000) by (nonlinear_arith)
            requires
                crate::BALL_SPEED == 10_000i64,
        ;
        assert(100_000_000 - 20_000 <= v.x * v.x + v.y * v.y <= 100_000_000) by (nonlinear_arith)
            requires
                v.x == vx_mag as int || v.x == -(vx_mag as int),
                v.y == vy_mag as int || v.y == -(vy_mag as int),
                7_071 <= vx_mag <= 10_000,
                100 <= vy_mag <= 7_071,
                (vx_mag as int) * (vx_mag as int) <= rem as int,
                (rem as int) < (vx_mag as int + 1) * (vx_mag as int + 1),
                rem as int == 100_000_000 - (vy_mag as int) * (vy_mag as int),
        ;
    }
    v
}

} // verus!
