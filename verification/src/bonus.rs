//! The power-up ("bonus") economy: timers that request spawns, the pickup
//! resolver, and the per-kind effect rules.
//!
//! Each bonus kind has its own spawn timer. A picked-up bonus is attributed
//! to the paddle that last touched the picking ball; the split-ball kind
//! alone needs no such paddle. The shrink kind impacts the *opposite*
//! paddle of the one that earned it, so earning "shrink" shrinks the
//! opponent.

use vstd::prelude::*;
use crate::actors::Paddle;
use crate::actors::Side;
use crate::collisions::CollisionStatus;
use crate::geometry::{abs, scale_velocity, scaled_or_same, Vec2, COMPONENT_LIMIT};

verus! {

/// Longest accepted spawn-timer duration, in milliseconds.
pub const TIMER_DURATION_LIMIT: u64 = 1_000_000_000_000;

/// Held-bonus counts past this cap stop increasing the area-speed factor
/// (a machine limit; real counts stay tiny).
pub const AREA_STACK_CAP: usize = 1_000_000;

/// The five bonus kinds a spawn timer can request.
#[derive(Clone, Copy, PartialEq, Eq, Structural, Debug)]
pub enum BonusType {
    SplitBall,
    BallSpeedInArea,
    BallsVerticalGravity,
    ShrinkPaddleSize,
    IncreasePaddleSize,
}

/// A resolved bonus effect, carrying its payload: the ball that picked a
/// split, or the paddle an effect benefits or impacts.
#[derive(Clone, Copy, PartialEq, Eq, Structural, Debug)]
pub enum Bonus {
    SplitBall { ball: u64 },
    BallSpeedInArea { benefiting_paddle: Paddle },
    BallsVerticalGravity { benefiting_paddle: Paddle },
    ShrinkPaddleSize { impacted_paddle: Paddle },
    IncreasePaddleSize { benefiting_paddle: Paddle },
}

/// A bonus entity sitting on the field, waiting to be picked up.
#[derive(Clone, Copy, PartialEq, Eq, Structural, Debug)]
pub struct BonusEntity {
    pub entity: u64,
    pub bonus_type: BonusType,
    pub position: Vec2,
}

/// A request, fired by a timer, to materialize a bonus of one kind.
#[derive(Clone, Copy, PartialEq, Eq, Structural, Debug)]
pub struct SpawnBonusEvent(pub BonusType);

/// A successfully resolved pickup: the effect and the paddle whose side
/// earned it (`None` only for a split earned by an untouched ball).
#[derive(Clone, Copy, PartialEq, Eq, Debug)]
pub struct TakenBonusEvent {
    pub bonus: Bonus,
    pub paddle: Option<Paddle>,
}

/// A simulation-time countdown. A non-repeating timer fires once and then
/// stays inert until reset; a repeating one re-arms on every completion.
#[derive(Clone, Copy, PartialEq, Eq, Structural, Debug)]
pub struct Timer {
    pub duration_ms: u64,
    pub repeating: bool,
    pub elapsed_ms: u64,
    pub finished: bool,
}

/// The per-kind spawn timers, ticked every frame and reset at round start.
#[derive(Clone, Debug)]
pub struct BonusesTimers(pub Vec<(Timer, BonusType)>);

/// A timer is well formed: positive bounded duration, progress within it,
/// and only a non-repeating timer can be spent.
pub open spec fn timer_wf(t: Timer) -> bool {
    &&& 1 <= t.duration_ms <= TIMER_DURATION_LIMIT
    &&& t.elapsed_ms <= t.duration_ms
    &&& t.finished ==> !t.repeating
}

/// Whether a timer completes during a tick of `delta` milliseconds.
pub open spec fn timer_fires(t: Timer, delta: int) -> bool {
    !t.finished && t.elapsed_ms + delta >= t.duration_ms
}

/// A timer's state after a tick of `delta` milliseconds.
pub open spec fn timer_ticked(t: Timer, delta: int) -> Timer {
    if t.finished {
        t
    } else if t.elapsed_ms + delta < t.duration_ms {
        Timer { elapsed_ms: (t.elapsed_ms + delta) as u64, ..t }
    } else if t.repeating {
        Timer { elapsed_ms: ((t.elapsed_ms + delta) % (t.duration_ms as int)) as u64, ..t }
    } else {
        Timer { elapsed_ms: t.duration_ms, finished: true, ..t }
    }
}

impl Timer {
    /// A fresh timer.
    pub fn new(duration_ms: u64, repeating: bool) -> (r: Timer)
        requires
            1 <= duration_ms <= TIMER_DURATION_LIMIT,
        ensures
            r == (Timer { duration_ms, repeating, elapsed_ms: 0, finished: false }),
            timer_wf(r),
    {
        Timer { duration_ms, repeating, elapsed_ms: 0, finished: false }
    }

    /// Rewind the timer to the start of its window.
    pub fn reset(&mut self)
        ensures
            *final(self) == (Timer { elapsed_ms: 0, finished: false, ..*old(self) }),
    {
        self.elapsed_ms = 0;
        self.finished = false;
    }

    /// Advance the timer by `delta` milliseconds of simulation time.
    /// Returns whether it completed during this tick; a spent non-repeating
    /// timer never fires again until reset.
    pub fn tick(&mut self, delta: u64) -> (fired: bool)
        requires
            timer_wf(*old(self)),
            delta <= crate::actors::TICK_MS_LIMIT,
        ensures
            *final(self) == timer_ticked(*old(self), delta as int),
            fired == timer_fires(*old(self), delta as int),
            timer_wf(*final(self)),
    {
        if self.finished {
            return false;
        }
        let total = self.elapsed_ms + delta;
        if total < self.duration_ms {
            self.elapsed_ms = total;
            false
        } else if self.repeating {
            self.elapsed_ms = total % self.duration_ms;
            true
        } else {
            self.elapsed_ms = self.duration_ms;
            self.finished = true;
            true
        }
    }
}

/// The spawn requests a tick of `delta` milliseconds produces: one per
/// timer that completes, in timer order.
pub open spec fn fired_spawn_events(timers: Seq<(Timer, BonusType)>, delta: int) -> Seq<
    SpawnBonusEvent,
>
    decreases timers.len(),
{
    if timers.len() == 0 {
        Seq::empty()
    } else {
        fired_spawn_events(timers.drop_last(), delta) + (if timer_fires(timers.last().0, delta) {
            seq![SpawnBonusEvent(timers.last().1)]
        } else {
            Seq::empty()
        })
    }
}

/// All timers in the collection are well formed.
pub open spec fn timers_wf(timers: BonusesTimers) -> bool {
    forall|i: int| 0 <= i < timers.0@.len() ==> timer_wf((#[trigger] timers.0@[i]).0)
}

/// Tick every spawn timer by the frame's elapsed time and collect one
/// spawn request per completed timer, in timer order.
pub fn tick_bonuses_timers(timers: &mut BonusesTimers, delta: u64) -> (events: Vec<SpawnBonusEvent>)
    requires
        timers_wf(*old(timers)),
        delta <= crate::actors::TICK_MS_LIMIT,
    ensures
        final(timers).0@.len() == old(timers).0@.len(),
        forall|i: int|
            0 <= i < old(timers).0@.len() ==> #[trigger] final(timers).0@[i] == (
            timer_ticked(old(timers).0@[i].0, delta as int),
            old(timers).0@[i].1,
            ),
        events@ == fired_spawn_events(old(timers).0@, delta as int),
        timers_wf(*final(timers)),
{
    let ghost orig = timers.0@;
    let mut events: Vec<SpawnBonusEvent> = Vec::new();
    let mut i: usize = 0;
    while i < timers.0.len()
        invariant
            i <= timers.0.len(),
            timers.0@.len() == orig.len(),
            delta <= crate::actors::TICK_MS_LIMIT,
            forall|k: int| 0 <= k < orig.len() ==> timer_wf((#[trigger] orig[k]).0),
            forall|k: int|
                i <= k < orig.len() ==> #[trigger] timers.0@[k] == orig[k],
            forall|k: int|
                0 <= k < i ==> #[trigger] timers.0@[k] == (
                timer_ticked(orig[k].0, delta as int),
                orig[k].1,
                ),
            events@ == fired_spawn_events(orig.take(i as int), delta as int),
        decreases timers.0.len() - i,
    {
        let (mut t, kind) = timers.0[i];
        let fired = t.tick(delta);
        timers.0.set(i, (t, kind));
        if fired {
            events.push(SpawnBonusEvent(kind));
        }
        proof {
            assert(orig.take(i as int + 1).drop_last() =~= orig.take(i as int));
            assert(orig.take(i as int + 1).last() == orig[i as int]);
        }
        i = i + 1;
    }
    proof {
        assert(orig.take(orig.len() as int) =~= orig);
    }
    events
}

/// Rewind every spawn timer, as the round reset does.
pub fn reset_bonuses_timers(timers: &mut BonusesTimers)
    ensures
        final(timers).0@.len() == old(timers).0@.len(),
        forall|i: int|
            0 <= i < old(timers).0@.len() ==> #[trigger] final(timers).0@[i] == (
            Timer { elapsed_ms: 0, finished: false, ..old(timers).0@[i].0 },
            old(timers).0@[i].1,
            ),
        timers_wf(*old(timers)) ==> timers_wf(*final(timers)),
{
    let ghost orig = timers.0@;
    let mut i: usize = 0;
    while i < timers.0.len()
        invariant
            i <= timers.0.len(),
            timers.0@.len() == orig.len(),
            forall|k: int|
                i <= k < orig.len() ==> #[trigger] timers.0@[k] == orig[k],
            forall|k: int|
                0 <= k < i ==> #[trigger] timers.0@[k] == (
                Timer { elapsed_ms: 0, finished: false, ..orig[k].0 },
                orig[k].1,
                ),
        decreases timers.0.len() - i,
    {
        let (mut t, kind) = timers.0[i];
        t.reset();
        timers.0.set(i, (t, kind));
        i = i + 1;
    }
}

/// The reference spawn schedule: a repeating split-ball timer and one-shot
/// timers for the other kinds. Embedders may supply any other schedule.
pub fn default_bonuses_timers() -> (r: BonusesTimers)
    ensures
        r.0@.len() == 8,
        timers_wf(r),
        forall|i: int|
            0 <= i < 8 ==> (#[trigger] r.0@[i]).0.elapsed_ms == 0 && !r.0@[i].0.finished,
        r.0@[0] == (Timer { duration_ms: 13_000, repeating: true, elapsed_ms: 0, finished: false }, BonusType::SplitBall),
        r.0@[1].1 == BonusType::BallSpeedInArea && r.0@[1].0.duration_ms == 15_000,
        r.0@[2].1 == BonusType::ShrinkPaddleSize && r.0@[2].0.duration_ms == 20_000,
        r.0@[3].1 == BonusType::IncreasePaddleSize && r.0@[3].0.duration_ms == 25_000,
        r.0@[4].1 == BonusType::IncreasePaddleSize && r.0@[4].0.duration_ms == 26_000,
        r.0@[5].1 == BonusType::IncreasePaddleSize && r.0@[5].0.duration_ms == 27_000,
        r.0@[6].1 == BonusType::IncreasePaddleSize && r.0@[6].0.duration_ms == 28_000,
        r.0@[7].1 == BonusType::BallsVerticalGravity && r.0@[7].0.duration_ms == 30_000,
        forall|i: int| 1 <= i < 8 ==> !(#[trigger] r.0@[i]).0.repeating,
{
    let mut v: Vec<(Timer, BonusType)> = Vec::new();
    v.push((Timer::new(13_000, true), BonusType::SplitBall));
    v.push((Timer::new(15_000, false), BonusType::BallSpeedInArea));
    v.push((Timer::new(20_000, false), BonusType::ShrinkPaddleSize));
    v.push((Timer::new(25_000, false), BonusType::IncreasePaddleSize));
    v.push((Timer::new(26_000, false), BonusType::IncreasePaddleSize));
    v.push((Timer::new(27_000, false), BonusType::IncreasePaddleSize));
    v.push((Timer::new(28_000, false), BonusType::IncreasePaddleSize));
    v.push((Timer::new(30_000, false), BonusType::BallsVerticalGravity));
    BonusesTimers(v)
}

/// The taken event a pickup resolves to, or `None` when the pickup is
/// silently dropped. The split-ball kind needs no benefiting side and
/// resolves even for a ball no paddle has touched; every other kind is
/// dropped without effect when the ball's last touching paddle is unknown.
/// The shrink kind resolves to the *opposite* paddle of the earner.
pub open spec fn resolved_bonus(kind: BonusType, last_touched: Option<Paddle>, ball: u64) -> Option<
    TakenBonusEvent,
> {
    match kind {
        BonusType::SplitBall => Some(
            TakenBonusEvent { bonus: Bonus::SplitBall { ball }, paddle: last_touched },
        ),
        _ => match last_touched {
            None => None,
            Some(p) => Some(
                TakenBonusEvent {
                    bonus: match kind {
                        BonusType::SplitBall => Bonus::SplitBall { ball },
                        BonusType::BallSpeedInArea => Bonus::BallSpeedInArea {
                            benefiting_paddle: p,
                        },
                        BonusType::BallsVerticalGravity => Bonus::BallsVerticalGravity {
                            benefiting_paddle: p,
                        },
                        BonusType::ShrinkPaddleSize => Bonus::ShrinkPaddleSize {
                            impacted_paddle: p.spec_reverse(),
                        },
                        BonusType::IncreasePaddleSize => Bonus::IncreasePaddleSize {
                            benefiting_paddle: p,
                        },
                    },
                    paddle: Some(p),
                },
            ),
        },
    }
}

/// Resolve one pickup of a bonus of `kind` by a ball whose last touching
/// paddle is `last_touched`.
pub fn resolve_taken_bonus(kind: BonusType, last_touched: Option<Paddle>, ball: u64) -> (r: Option<
    TakenBonusEvent,
>)
    ensures
        r == resolved_bonus(kind, last_touched, ball),
{
    match kind {
        BonusType::SplitBall => Some(
            TakenBonusEvent { bonus: Bonus::SplitBall { ball }, paddle: last_touched },
        ),
        BonusType::BallSpeedInArea => match last_touched {
            None => None,
            Some(p) => Some(
                TakenBonusEvent {
                    bonus: Bonus::BallSpeedInArea { benefiting_paddle: p },
                    paddle: Some(p),
                },
            ),
        },
        BonusType::BallsVerticalGravity => match last_touched {
            None => None,
            Some(p) => Some(
                TakenBonusEvent {
                    bonus: Bonus::BallsVerticalGravity { benefiting_paddle: p },
                    paddle: Some(p),
                },
            ),
        },
        BonusType::ShrinkPaddleSize => match last_touched {
            None => None,
            Some(p) => Some(
                TakenBonusEvent {
                    bonus: Bonus::ShrinkPaddleSize { impacted_paddle: p.reverse() },
                    paddle: Some(p),
                },
            ),
        },
        BonusType::IncreasePaddleSize => match last_touched {
            None => None,
            Some(p) => Some(
                TakenBonusEvent {
                    bonus: Bonus::IncreasePaddleSize { benefiting_paddle: p },
                    paddle: Some(p),
                },
            ),
        },
    }
}

/// How many area-speed bonuses a held-bonus list contains.
pub open spec fn count_area_bonuses(s: Seq<Bonus>) -> nat
    decreases s.len(),
{
    if s.len() == 0 {
        0
    } else {
        count_area_bonuses(s.drop_last()) + (if s.last() is BallSpeedInArea {
            1nat
        } else {
            0nat
        })
    }
}

/// Count the area-speed bonuses a side currently holds.
pub fn count_area_bonuses_held(bonuses: &Vec<Bonus>) -> (n: usize)
    ensures
        n == count_area_bonuses(bonuses@),
{
    let mut n: usize = 0;
    let mut i: usize = 0;
    while i < bonuses.len()
        invariant
            i <= bonuses.len(),
            n == count_area_bonuses(bonuses@.take(i as int)),
            n <= i,
        decreases bonuses.len() - i,
    {
        proof {
            assert(bonuses@.take(i as int + 1).drop_last() =~= bonuses@.take(i as int));
            assert(bonuses@.take(i as int + 1).last() == bonuses@[i as int]);
        }
        if matches!(bonuses[i], Bonus::BallSpeedInArea { .. }) {
            n = n + 1;
        }
        i = i + 1;
    }
    proof {
        assert(bonuses@.take(bonuses@.len() as int) =~= bonuses@);
    }
    n
}

/// Numerator of the stacking area-speed factor for `n` held bonuses: the
/// factor is `(2 + 3 n) / 2`, that is `1 + 1.5 n`. Counts past the cap
/// saturate.
pub open spec fn area_factor_num(n: int) -> int {
    if n <= AREA_STACK_CAP {
        2 + 3 * n
    } else {
        2 + 3 * (AREA_STACK_CAP as int)
    }
}

/// Numerator of the stacking area-speed factor for `n` held bonuses.
pub fn area_factor_num_u64(n: usize) -> (r: u64)
    requires
        0 <= n,
    ensures
        r == area_factor_num(n as int),
{
    if n <= AREA_STACK_CAP {
        2 + 3 * (n as u64)
    } else {
        2 + 3 * (AREA_STACK_CAP as u64)
    }
}

/// A ball's velocity after it crosses a side boundary (or after an
/// area-speed bonus is taken while it sits in a side): entering the half
/// opposite the boost's owner multiplies by the owner's stacking factor,
/// leaving divides by the same factor. A side's own boosts never act on its
/// own half.
pub open spec fn change_velocity_spec(
    v: Vec2,
    side: Side,
    status: CollisionStatus,
    player_speedups: int,
    computer_speedups: int,
) -> Vec2 {
    match (side, status) {
        (Side::Player, CollisionStatus::Started) => scaled_or_same(
            v,
            area_factor_num(computer_speedups),
            2,
        ),
        (Side::Player, CollisionStatus::Stopped) => scaled_or_same(
            v,
            2,
            area_factor_num(computer_speedups),
        ),
        (Side::Computer, CollisionStatus::Started) => scaled_or_same(
            v,
            area_factor_num(player_speedups),
            2,
        ),
        (Side::Computer, CollisionStatus::Stopped) => scaled_or_same(
            v,
            2,
            area_factor_num(player_speedups),
        ),
    }
}

/// Apply the area-speed rule to one velocity for one side crossing.
pub fn change_velocity(
    v: Vec2,
    side: Side,
    status: CollisionStatus,
    player_speedups: usize,
    computer_speedups: usize,
) -> (r: Vec2)
    ensures
        r == change_velocity_spec(v, side, status, player_speedups as int, computer_speedups as int),
{
    let (num, den): (u64, u64) = match (side, status) {
        (Side::Player, CollisionStatus::Started) => (area_factor_num_u64(computer_speedups), 2),
        (Side::Player, CollisionStatus::Stopped) => (2, area_factor_num_u64(computer_speedups)),
        (Side::Computer, CollisionStatus::Started) => (area_factor_num_u64(player_speedups), 2),
        (Side::Computer, CollisionStatus::Stopped) => (2, area_factor_num_u64(player_speedups)),
    };
    scale_velocity(v, num, den)
}

/// The area-speed boost is exactly reversible: scaling a velocity up by
/// the stacking factor `1 + 1.5 n` on entering the boosted half and back
/// down by the same factor on leaving reconstructs the original velocity,
/// whenever the scaled components have no dropped remainder. (An odd
/// component under an odd factor loses its half-unit to truncation: for
/// example component 3 with one stacked bonus scales to 7 and back to 2.)
pub proof fn lemma_area_speed_reversible(v: Vec2, n: int)
    requires
        0 <= n,
        (abs(v.x as int) * area_factor_num(n)) % 2 == 0,
        (abs(v.y as int) * area_factor_num(n)) % 2 == 0,
        abs(v.x as int) * area_factor_num(n) / 2 <= COMPONENT_LIMIT,
        abs(v.y as int) * area_factor_num(n) / 2 <= COMPONENT_LIMIT,
        abs(v.x as int) <= COMPONENT_LIMIT,
        abs(v.y as int) <= COMPONENT_LIMIT,
    ensures
        scaled_or_same(scaled_or_same(v, area_factor_num(n), 2), 2, area_factor_num(n)) == v,
{
    crate::geometry::lemma_scale_round_trip(v, area_factor_num(n), 2);
}

} // verus!
