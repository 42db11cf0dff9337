//! Classification of raw physics contacts into semantic game events.
//!
//! The physics engine reports begin/end contacts between pairs of bodies,
//! each body carrying a set of layer tags. A contact between a ball and a
//! paddle, goal, edge, bonus or side region becomes one semantic event with
//! the ball identity always in the `ball` field, whichever side of the raw
//! record the ball was on. Every other contact is dropped.

use vstd::prelude::*;

verus! {

/// Whether a contact has just begun or just fully resolved.
#[derive(Clone, Copy, PartialEq, Eq, Structural, Debug)]
pub enum CollisionStatus {
    Started,
    Stopped,
}

/// The categories of bodies the physics engine distinguishes.
#[derive(Clone, Copy, PartialEq, Eq, Structural, Debug)]
pub enum GamePhysicsLayer {
    Ball,
    Paddle,
    Goal,
    Edge,
    Side,
    Bonus,
}

/// The set of physics layers one body belongs to.
#[derive(Clone, Copy, PartialEq, Eq, Structural, Debug)]
pub struct LayerTags {
    pub ball: bool,
    pub paddle: bool,
    pub goal: bool,
    pub edge: bool,
    pub side: bool,
    pub bonus: bool,
}

impl LayerTags {
    /// Tags of a body in no layer at all.
    pub fn none() -> (r: LayerTags)
        ensures
            r == (LayerTags {
                ball: false,
                paddle: false,
                goal: false,
                edge: false,
                side: false,
                bonus: false,
            }),
    {
        LayerTags { ball: false, paddle: false, goal: false, edge: false, side: false, bonus: false }
    }

    /// Whether the body belongs to the given layer.
    pub open spec fn spec_contains_group(self, layer: GamePhysicsLayer) -> bool {
        match layer {
            GamePhysicsLayer::Ball => self.ball,
            GamePhysicsLayer::Paddle => self.paddle,
            GamePhysicsLayer::Goal => self.goal,
            GamePhysicsLayer::Edge => self.edge,
            GamePhysicsLayer::Side => self.side,
            GamePhysicsLayer::Bonus => self.bonus,
        }
    }

    /// Whether the body belongs to the given layer.
    pub fn contains_group(self, layer: GamePhysicsLayer) -> (r: bool)
        ensures
            r == self.spec_contains_group(layer),
    {
        match layer {
            GamePhysicsLayer::Ball => self.ball,
            GamePhysicsLayer::Paddle => self.paddle,
            GamePhysicsLayer::Goal => self.goal,
            GamePhysicsLayer::Edge => self.edge,
            GamePhysicsLayer::Side => self.side,
            GamePhysicsLayer::Bonus => self.bonus,
        }
    }

    /// Tags of a body in exactly the given layer.
    pub fn only(layer: GamePhysicsLayer) -> (r: LayerTags)
        ensures
            forall|l: GamePhysicsLayer| r.spec_contains_group(l) <==> l == layer,
    {
        let mut r = LayerTags::none();
        match layer {
            GamePhysicsLayer::Ball => r.ball = true,
            GamePhysicsLayer::Paddle => r.paddle = true,
            GamePhysicsLayer::Goal => r.goal = true,
            GamePhysicsLayer::Edge => r.edge = true,
            GamePhysicsLayer::Side => r.side = true,
            GamePhysicsLayer::Bonus => r.bonus = true,
        }
        r
    }
}

/// One begin/end contact notification from the physics engine, naming two
/// bodies and the layer tags of each.
#[derive(Clone, Copy, PartialEq, Eq, Structural, Debug)]
pub struct ContactRecord {
    pub entity_1: u64,
    pub entity_2: u64,
    pub layers_1: LayerTags,
    pub layers_2: LayerTags,
    pub started: bool,
}

/// A semantic game event: a ball meeting one of the five kinds of bodies it
/// can interact with. The ball identity is always in the `ball` field.
#[derive(Clone, Copy, PartialEq, Eq, Structural, Debug)]
pub enum GameCollisionEvent {
    BallAndPaddle { status: CollisionStatus, ball: u64, paddle: u64 },
    BallAndGoal { status: CollisionStatus, ball: u64, goal: u64 },
    BallAndEdge { status: CollisionStatus, ball: u64, edge: u64 },
    BallAndBonus { status: CollisionStatus, ball: u64, bonus: u64 },
    BallAndSide { status: CollisionStatus, ball: u64, side: u64 },
}

pub fn is_paddle_layer(layers: LayerTags) -> (r: bool)
    ensures
        r == layers.paddle,
{
    layers.contains_group(GamePhysicsLayer::Paddle)
}

pub fn is_goal_layer(layers: LayerTags) -> (r: bool)
    ensures
        r == layers.goal,
{
    layers.contains_group(GamePhysicsLayer::Goal)
}

pub fn is_ball_layer(layers: LayerTags) -> (r: bool)
    ensures
        r == layers.ball,
{
    layers.contains_group(GamePhysicsLayer::Ball)
}

pub fn is_edge_layer(layers: LayerTags) -> (r: bool)
    ensures
        r == layers.edge,
{
    layers.contains_group(GamePhysicsLayer::Edge)
}

pub fn is_side_layer(layers: LayerTags) -> (r: bool)
    ensures
        r == layers.side,
{
    layers.contains_group(GamePhysicsLayer::Side)
}

pub fn is_bonus_layer(layers: LayerTags) -> (r: bool)
    ensures
        r == layers.bonus,
{
    layers.contains_group(GamePhysicsLayer::Bonus)
}

/// The semantic event for one contact record, or `None` for a contact the
/// game does not care about. The pairs are tried in a fixed order (paddle,
/// goal, edge, bonus, side), and within each pair both permutations of the
/// record's two sides, so the ball identity is normalized into the `ball`
/// field.
pub open spec fn classify(c: ContactRecord) -> Option<GameCollisionEvent> {
    let status = if c.started {
        CollisionStatus::Started
    } else {
        CollisionStatus::Stopped
    };
    if c.layers_1.paddle && c.layers_2.ball {
        Some(
            GameCollisionEvent::BallAndPaddle { status, ball: c.entity_2, paddle: c.entity_1 },
        )
    } else if c.layers_2.paddle && c.layers_1.ball {
        Some(
            GameCollisionEvent::BallAndPaddle { status, ball: c.entity_1, paddle: c.entity_2 },
        )
    } else if c.layers_1.goal && c.layers_2.ball {
        Some(GameCollisionEvent::BallAndGoal { status, ball: c.entity_2, goal: c.entity_1 })
    } else if c.layers_2.goal && c.layers_1.ball {
        Some(GameCollisionEvent::BallAndGoal { status, ball: c.entity_1, goal: c.entity_2 })
    } else if c.layers_1.edge && c.layers_2.ball {
        Some(GameCollisionEvent::BallAndEdge { status, ball: c.entity_2, edge: c.entity_1 })
    } else if c.layers_2.edge && c.layers_1.ball {
        Some(GameCollisionEvent::BallAndEdge { status, ball: c.entity_1, edge: c.entity_2 })
    } else if c.layers_1.bonus && c.layers_2.ball {
        Some(GameCollisionEvent::BallAndBonus { status, ball: c.entity_2, bonus: c.entity_1 })
    } else if c.layers_2.bonus && c.layers_1.ball {
        Some(GameCollisionEvent::BallAndBonus { status, ball: c.entity_1, bonus: c.entity_2 })
    } else if c.layers_1.side && c.layers_2.ball {
        Some(GameCollisionEvent::BallAndSide { status, ball: c.entity_2, side: c.entity_1 })
    } else if c.layers_2.side && c.layers_1.ball {
        Some(GameCollisionEvent::BallAndSide { status, ball: c.entity_1, side: c.entity_2 })
    } else {
        None
    }
}

/// All semantic events of a contact sequence, in order: each matching
/// record contributes exactly one event, each other record none.
pub open spec fn classified_events(contacts: Seq<ContactRecord>) -> Seq<GameCollisionEvent>
    decreases contacts.len(),
{
    if contacts.len() == 0 {
        Seq::empty()
    } else {
        classified_events(contacts.drop_last()) + (match classify(contacts.last()) {
            Some(e) => seq![e],
            None => Seq::empty(),
        })
    }
}

/// Translate the tick's raw contact notifications into semantic events.
/// Purely a translation stage: it runs every tick before all consumers and
/// has no other effect.
pub fn produce_game_collision_events(contacts: &Vec<ContactRecord>) -> (events: Vec<
    GameCollisionEvent,
>)
    ensures
        events@ == classified_events(contacts@),
{
    let mut events: Vec<GameCollisionEvent> = Vec::new();
    let mut i: usize = 0;
    while i < contacts.len()
        invariant
            i <= contacts.len(),
            events@ == classified_events(contacts@.take(i as int)),
        decreases contacts.len() - i,
    {
        let c = contacts[i];
        let status = if c.started {
            CollisionStatus::Started
        } else {
            CollisionStatus::Stopped
        };
        if is_paddle_layer(c.layers_1) && is_ball_layer(c.layers_2) {
            events.push(
                GameCollisionEvent::BallAndPaddle { status, ball: c.entity_2, paddle: c.entity_1 },
            );
        } else if is_paddle_layer(c.layers_2) && is_ball_layer(c.layers_1) {
            events.push(
                GameCollisionEvent::BallAndPaddle { status, ball: c.entity_1, paddle: c.entity_2 },
            );
        } else if is_goal_layer(c.layers_1) && is_ball_layer(c.layers_2) {
            events.push(
                GameCollisionEvent::BallAndGoal { status, ball: c.entity_2, goal: c.entity_1 },
            );
        } else if is_goal_layer(c.layers_2) && is_ball_layer(c.layers_1) {
            events.push(
                GameCollisionEvent::BallAndGoal { status, ball: c.entity_1, goal: c.entity_2 },
            );
        } else if is_edge_layer(c.layers_1) && is_ball_layer(c.layers_2) {
            events.push(
                GameCollisionEvent::BallAndEdge { status, ball: c.entity_2, edge: c.entity_1 },
            );
        } else if is_edge_layer(c.layers_2) && is_ball_layer(c.layers_1) {
            events.push(
                GameCollisionEvent::BallAndEdge { status, ball: c.entity_1, edge: c.entity_2 },
            );
        } else if is_bonus_layer(c.layers_1) && is_ball_layer(c.layers_2) {
            events.push(
                GameCollisionEvent::BallAndBonus { status, ball: c.entity_2, bonus: c.entity_1 },
            );
        } else if is_bonus_layer(c.layers_2) && is_ball_layer(c.layers_1) {
            events.push(
                GameCollisionEvent::BallAndBonus { status, ball: c.entity_1, bonus: c.entity_2 },
            );
        } else if is_side_layer(c.layers_1) && is_ball_layer(c.layers_2) {
            events.push(
                GameCollisionEvent::BallAndSide { status, ball: c.entity_2, side: c.entity_1 },
            );
        } else if is_side_layer(c.layers_2) && is_ball_layer(c.layers_1) {
            events.push(
                GameCollisionEvent::BallAndSide { status, ball: c.entity_1, side: c.entity_2 },
            );
        }
        proof {
            assert(contacts@.take(i as int + 1).drop_last() =~= contacts@.take(i as int));
            assert(contacts@.take(i as int + 1).last() == c);
        }
        i = i + 1;
    }
    proof {
        assert(contacts@.take(contacts@.len() as int) =~= contacts@);
    }
    events
}

/// The record with its two sides exchanged.
pub open spec fn swapped(c: ContactRecord) -> ContactRecord {
    ContactRecord {
        entity_1: c.entity_2,
        entity_2: c.entity_1,
        layers_1: c.layers_2,
        layers_2: c.layers_1,
        started: c.started,
    }
}

/// Whether the tags carry at least one of the five layers a ball can
/// semantically meet.
pub open spec fn has_partner_tag(l: LayerTags) -> bool {
    l.paddle || l.goal || l.edge || l.bonus || l.side
}

/// The entity on whichever side of the record carries the ball tag.
pub open spec fn ball_side_entity(c: ContactRecord) -> u64 {
    if c.layers_1.ball {
        c.entity_1
    } else {
        c.entity_2
    }
}

/// The ball identity carried by a semantic event.
pub open spec fn event_ball(e: GameCollisionEvent) -> u64 {
    match e {
        GameCollisionEvent::BallAndPaddle { ball, .. } => ball,
        GameCollisionEvent::BallAndGoal { ball, .. } => ball,
        GameCollisionEvent::BallAndEdge { ball, .. } => ball,
        GameCollisionEvent::BallAndBonus { ball, .. } => ball,
        GameCollisionEvent::BallAndSide { ball, .. } => ball,
    }
}

/// The status carried by a semantic event.
pub open spec fn event_status(e: GameCollisionEvent) -> CollisionStatus {
    match e {
        GameCollisionEvent::BallAndPaddle { status, .. } => status,
        GameCollisionEvent::BallAndGoal { status, .. } => status,
        GameCollisionEvent::BallAndEdge { status, .. } => status,
        GameCollisionEvent::BallAndBonus { status, .. } => status,
        GameCollisionEvent::BallAndSide { status, .. } => status,
    }
}

/// Whenever exactly one side of a contact is tagged as a ball and the other
/// carries a paddle, goal, edge, bonus or side tag, classification produces
/// exactly one semantic event, with the ball identity in the `ball` field
/// and the status matching the record's begin/end flag — and the same event
/// whichever side of the raw record the ball was on.
pub proof fn lemma_classification_normalizes(c: ContactRecord)
    requires
        c.layers_1.ball != c.layers_2.ball,
        has_partner_tag(
            if c.layers_1.ball {
                c.layers_2
            } else {
                c.layers_1
            },
        ),
    ensures
        classify(c) matches Some(e) && event_ball(e) == ball_side_entity(c) && event_status(e)
            == (if c.started {
            CollisionStatus::Started
        } else {
            CollisionStatus::Stopped
        }),
        classify(swapped(c)) == classify(c),
{
}

/// A contact with no ball side, or whose non-ball side carries none of the
/// five partner tags, is dropped by classification.
pub proof fn lemma_classification_drops(c: ContactRecord)
    requires
        (!c.layers_1.ball && !c.layers_2.ball) || (c.layers_1.ball != c.layers_2.ball
            && !has_partner_tag(
            if c.layers_1.ball {
                c.layers_2
            } else {
                c.layers_1
            },
        )),
    ensures
        classify(c) is None,
{
}

} // verus!
