//! Health, round-win counters and held-bonus lists per side.
//!
//! A goal costs the side whose goal was entered one health point (the fixed
//! damage configuration chosen here; earlier rule variants used a larger
//! constant), never going below zero. A side whose health reaches zero loses
//! the round: the opponent's round-win counter goes up, both healths are
//! restored to the maximum and all balls are cleared — a set boundary nested
//! inside the match state machine's round boundary. Lifebar presentation is
//! a pure projection of this state.

use vstd::prelude::*;
use crate::actors::{Goal, Paddle};
use crate::bonus::{Bonus, TakenBonusEvent};

verus! {

/// Health points each side starts a round with.
pub const MAX_HEALTH: usize = 15;

/// Health points one goal costs.
pub const GOAL_DAMAGE: usize = 1;

/// Highest lifebar sprite index (a full bar).
pub const LIFEBAR_MAX_INDEX: usize = 15;

/// Per-side health, round-win counters, and held bonuses.
#[derive(Clone, Debug)]
pub struct GameScore {
    pub computer_health: usize,
    pub computer_score: usize,
    pub computer_bonuses: Vec<Bonus>,
    pub player_health: usize,
    pub player_score: usize,
    pub player_bonuses: Vec<Bonus>,
}

/// Both healths are within the configured maximum. (They cannot go below
/// zero: the decrement saturates.)
pub open spec fn score_wf(s: GameScore) -> bool {
    s.computer_health <= MAX_HEALTH && s.player_health <= MAX_HEALTH
}

impl Default for GameScore {
    /// The start-of-match score: full health, no rounds won, no bonuses.
    fn default() -> (r: GameScore)
        ensures
            r.computer_health == MAX_HEALTH && r.player_health == MAX_HEALTH,
            r.computer_score == 0 && r.player_score == 0,
            r.computer_bonuses@ == Seq::<Bonus>::empty(),
            r.player_bonuses@ == Seq::<Bonus>::empty(),
            score_wf(r),
    {
        GameScore {
            computer_health: MAX_HEALTH,
            computer_score: 0,
            computer_bonuses: Vec::new(),
            player_health: MAX_HEALTH,
            player_score: 0,
            player_bonuses: Vec::new(),
        }
    }
}

/// A counter incremented, saturating at the machine maximum.
pub open spec fn sat_inc(n: int) -> int {
    if n < usize::MAX {
        n + 1
    } else {
        n
    }
}

/// A health value after one goal: the damage is taken off, saturating at
/// zero.
pub open spec fn health_after_goal(h: int) -> int {
    if h >= GOAL_DAMAGE {
        h - GOAL_DAMAGE
    } else {
        0
    }
}

/// The score after a ball entered the given goal. The goal's own side loses
/// health; at zero the set boundary triggers: the opponent's round-win
/// counter goes up and both healths are restored.
pub open spec fn goal_applied(s: GameScore, goal: Goal) -> GameScore {
    match goal {
        Goal::Player => {
            let h = health_after_goal(s.player_health as int);
            if h == 0 {
                GameScore {
                    player_health: MAX_HEALTH,
                    computer_health: MAX_HEALTH,
                    computer_score: sat_inc(s.computer_score as int) as usize,
                    ..s
                }
            } else {
                GameScore { player_health: h as usize, ..s }
            }
        },
        Goal::Computer => {
            let h = health_after_goal(s.computer_health as int);
            if h == 0 {
                GameScore {
                    player_health: MAX_HEALTH,
                    computer_health: MAX_HEALTH,
                    player_score: sat_inc(s.player_score as int) as usize,
                    ..s
                }
            } else {
                GameScore { computer_health: h as usize, ..s }
            }
        },
    }
}

/// Whether a ball entering the given goal depletes its side's last health,
/// ending the round.
pub open spec fn goal_ends_round(s: GameScore, goal: Goal) -> bool {
    match goal {
        Goal::Player => health_after_goal(s.player_health as int) == 0,
        Goal::Computer => health_after_goal(s.computer_health as int) == 0,
    }
}

impl GameScore {
    /// Record a ball entering the given goal. Returns whether the round
    /// ended (health depleted): the caller must then clear all balls.
    pub fn apply_goal(&mut self, goal: Goal) -> (round_over: bool)
        requires
            score_wf(*old(self)),
        ensures
            *final(self) == goal_applied(*old(self), goal),
            round_over == goal_ends_round(*old(self), goal),
            score_wf(*final(self)),
    {
        match goal {
            Goal::Player => {
                let h = if self.player_health >= GOAL_DAMAGE {
                    self.player_health - GOAL_DAMAGE
                } else {
                    0
                };
                if h == 0 {
                    self.player_health = MAX_HEALTH;
                    self.computer_health = MAX_HEALTH;
                    if self.computer_score < usize::MAX {
                        self.computer_score = self.computer_score + 1;
                    }
                    true
                } else {
                    self.player_health = h;
                    false
                }
            },
            Goal::Computer => {
                let h = if self.computer_health >= GOAL_DAMAGE {
                    self.computer_health - GOAL_DAMAGE
                } else {
                    0
                };
                if h == 0 {
                    self.player_health = MAX_HEALTH;
                    self.computer_health = MAX_HEALTH;
                    if self.player_score < usize::MAX {
                        self.player_score = self.player_score + 1;
                    }
                    true
                } else {
                    self.computer_health = h;
                    false
                }
            },
        }
    }
}

/// The score after a whole sequence of goal events, in order.
pub open spec fn goals_applied(s: GameScore, goals: Seq<Goal>) -> GameScore
    decreases goals.len(),
{
    if goals.len() == 0 {
        s
    } else {
        goal_applied(goals_applied(s, goals.drop_last()), goals.last())
    }
}

/// Health never leaves `[0, MAX_HEALTH]`: after any sequence of goal
/// events, both sides' health values are still within the band. (The lower
/// bound holds because the decrement saturates at zero; the upper because
/// a depletion restores both healths to the maximum.)
pub proof fn lemma_health_stays_in_band(s: GameScore, goals: Seq<Goal>)
    requires
        score_wf(s),
    ensures
        0 <= goals_applied(s, goals).player_health <= MAX_HEALTH,
        0 <= goals_applied(s, goals).computer_health <= MAX_HEALTH,
    decreases goals.len(),
{
    if goals.len() > 0 {
        lemma_health_stays_in_band(s, goals.drop_last());
    }
}

/// The lifebar sprite index a side shows: its current health, capped at
/// the full-bar index. A pure projection of the score, recomputed on every
/// change, never independently mutated.
pub fn lifebar_index(health: usize) -> (r: usize)
    ensures
        r == (if health <= LIFEBAR_MAX_INDEX {
            health as int
        } else {
            LIFEBAR_MAX_INDEX as int
        }),
{
    if health <= LIFEBAR_MAX_INDEX {
        health
    } else {
        LIFEBAR_MAX_INDEX
    }
}

/// The bonuses a sequence of taken events credits to the given paddle's
/// side, in order.
pub open spec fn bonuses_taken_for(events: Seq<TakenBonusEvent>, p: Paddle) -> Seq<Bonus>
    decreases events.len(),
{
    if events.len() == 0 {
        Seq::empty()
    } else {
        bonuses_taken_for(events.drop_last(), p) + (if events.last().paddle == Some(p) {
            seq![events.last().bonus]
        } else {
            Seq::empty()
        })
    }
}

/// Append each taken bonus to the earning side's held list for the rest of
/// the round. A taken event without a benefiting side (a split earned by
/// an untouched ball) is credited to neither list.
pub fn store_taken_bonuses_in_score(score: &mut GameScore, events: &Vec<TakenBonusEvent>)
    ensures
        final(score).player_bonuses@ == old(score).player_bonuses@ + bonuses_taken_for(
            events@,
            Paddle::Player,
        ),
        final(score).computer_bonuses@ == old(score).computer_bonuses@ + bonuses_taken_for(
            events@,
            Paddle::Computer,
        ),
        final(score).player_health == old(score).player_health,
        final(score).computer_health == old(score).computer_health,
        final(score).player_score == old(score).player_score,
        final(score).computer_score == old(score).computer_score,
{
    let mut i: usize = 0;
    while i < events.len()
        invariant
            i <= events.len(),
            score.player_bonuses@ == old(score).player_bonuses@ + bonuses_taken_for(
                events@.take(i as int),
                Paddle::Player,
            ),
            score.computer_bonuses@ == old(score).computer_bonuses@ + bonuses_taken_for(
                events@.take(i as int),
                Paddle::Computer,
            ),
            score.player_health == old(score).player_health,
            score.computer_health == old(score).computer_health,
            score.player_score == old(score).player_score,
            score.computer_score == old(score).computer_score,
        decreases events.len() - i,
    {
        let e = events[i];
        match e.paddle {
            Some(Paddle::Player) => score.player_bonuses.push(e.bonus),
            Some(Paddle::Computer) => score.computer_bonuses.push(e.bonus),
            None => (),
        }
        proof {
            assert(events@.take(i as int + 1).drop_last() =~= events@.take(i as int));
            assert(events@.take(i as int + 1).last() == e);
        }
        i = i + 1;
    }
    proof {
        assert(events@.take(events@.len() as int) =~= events@);
    }
}

} // verus!
