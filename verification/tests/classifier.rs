use pong_core::collisions::{
    produce_game_collision_events, CollisionStatus, ContactRecord, GameCollisionEvent, LayerTags,
};

fn tags(ball: bool, paddle: bool, goal: bool, edge: bool, side: bool, bonus: bool) -> LayerTags {
    LayerTags { ball, paddle, goal, edge, side, bonus }
}

fn ball_tags() -> LayerTags {
    tags(true, false, false, false, false, false)
}

#[test]
fn ball_and_paddle_normalized_first_order() {
    let c = ContactRecord {
        entity_1: 7,
        entity_2: 3,
        layers_1: tags(false, true, false, false, false, false),
        layers_2: ball_tags(),
        started: true,
    };
    let events = produce_game_collision_events(&vec![c]);
    assert_eq!(events.len(), 1);
    assert!(matches!(
        events[0],
        GameCollisionEvent::BallAndPaddle { status: CollisionStatus::Started, ball: 3, paddle: 7 }
    ));
}

#[test]
fn ball_and_paddle_normalized_swapped_order() {
    let c = ContactRecord {
        entity_1: 3,
        entity_2: 7,
        layers_1: ball_tags(),
        layers_2: tags(false, true, false, false, false, false),
        started: true,
    };
    let events = produce_game_collision_events(&vec![c]);
    assert_eq!(events.len(), 1);
    // the ball identity lands in the ball field whichever side was first
    assert!(matches!(
        events[0],
        GameCollisionEvent::BallAndPaddle { status: CollisionStatus::Started, ball: 3, paddle: 7 }
    ));
}

#[test]
fn stopped_flag_maps_to_stopped_status() {
    let c = ContactRecord {
        entity_1: 9,
        entity_2: 4,
        layers_1: tags(false, false, false, true, false, false),
        layers_2: ball_tags(),
        started: false,
    };
    let events = produce_game_collision_events(&vec![c]);
    assert_eq!(events.len(), 1);
    assert!(matches!(
        events[0],
        GameCollisionEvent::BallAndEdge { status: CollisionStatus::Stopped, ball: 4, edge: 9 }
    ));
}

#[test]
fn all_five_partner_kinds_classify() {
    let partners = [
        tags(false, true, false, false, false, false),
        tags(false, false, true, false, false, false),
        tags(false, false, false, true, false, false),
        tags(false, false, false, false, false, true),
        tags(false, false, false, false, true, false),
    ];
    let mut contacts = Vec::new();
    for (i, p) in partners.iter().enumerate() {
        contacts.push(ContactRecord {
            entity_1: 100 + i as u64,
            entity_2: 1,
            layers_1: *p,
            layers_2: ball_tags(),
            started: true,
        });
    }
    let events = produce_game_collision_events(&contacts);
    assert_eq!(events.len(), 5);
    assert!(matches!(events[0], GameCollisionEvent::BallAndPaddle { ball: 1, paddle: 100, .. }));
    assert!(matches!(events[1], GameCollisionEvent::BallAndGoal { ball: 1, goal: 101, .. }));
    assert!(matches!(events[2], GameCollisionEvent::BallAndEdge { ball: 1, edge: 102, .. }));
    assert!(matches!(events[3], GameCollisionEvent::BallAndBonus { ball: 1, bonus: 103, .. }));
    assert!(matches!(events[4], GameCollisionEvent::BallAndSide { ball: 1, side: 104, .. }));
}

#[test]
fn non_ball_contacts_are_dropped() {
    // paddle-vs-edge: no ball on either side
    let c = ContactRecord {
        entity_1: 7,
        entity_2: 9,
        layers_1: tags(false, true, false, false, false, false),
        layers_2: tags(false, false, false, true, false, false),
        started: true,
    };
    let events = produce_game_collision_events(&vec![c]);
    assert!(events.is_empty());
}

#[test]
fn ball_against_untagged_body_is_dropped() {
    let c = ContactRecord {
        entity_1: 1,
        entity_2: 2,
        layers_1: ball_tags(),
        layers_2: tags(false, false, false, false, false, false),
        started: true,
    };
    let events = produce_game_collision_events(&vec![c]);
    assert!(events.is_empty());
}

#[test]
fn every_matching_record_yields_exactly_one_event() {
    let matching = ContactRecord {
        entity_1: 5,
        entity_2: 6,
        layers_1: ball_tags(),
        layers_2: tags(false, false, true, false, false, false),
        started: true,
    };
    let dropped = ContactRecord {
        entity_1: 7,
        entity_2: 8,
        layers_1: tags(false, true, false, false, false, false),
        layers_2: tags(false, false, false, true, false, false),
        started: true,
    };
    let events = produce_game_collision_events(&vec![matching, dropped, matching, matching]);
    assert_eq!(events.len(), 3);
}

#[test]
fn empty_contact_list_yields_no_events() {
    let events = produce_game_collision_events(&Vec::new());
    assert!(events.is_empty());
}
