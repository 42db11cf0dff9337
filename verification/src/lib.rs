//! Simulation core of a two-paddle ball game with timed power-ups.
//!
//! The crate models the whole game over plain integer values, in fixed-point
//! milli-units (one field unit is 1000). It classifies raw physics contacts
//! into semantic game events, drives the match state machine, applies the
//! gameplay rules for balls, paddles and bonuses, and tracks score and
//! health. The physics engine, rendering, audio and input devices are
//! external collaborators: the embedding program feeds contact records and
//! input flags in, and reads positions, sizes and scores back out.

use vstd::prelude::*;

pub mod actors;
pub mod bonus;
pub mod collisions;
pub mod context;
pub mod geometry;
pub mod rng;
pub mod score;

verus! {

/// Vertical speed of a moving paddle, in milli-units per second.
pub const PADDLE_SPEED: i64 = 10_000;

/// Magnitude of a freshly launched ball's velocity, in milli-units per second.
pub const BALL_SPEED: i64 = 10_000;

/// Hard ceiling on a ball's speed; faster balls are rescaled down to it.
pub const BALL_MAX_SPEED: i64 = 30_000;

} // verus!
