//! Zone moves of card instances.
use cardmaker::dz::ports::{PlayerId, RuntimeCardId, RuntimeCardInstance, StaticCardId, Zone};
use cardmaker::dz::zones::{ZoneManager, ZoneMoveResult};


fn make_instance(id: &str, zone: Zone) -> RuntimeCardInstance {
    RuntimeCardInstance {
        runtime_id: RuntimeCardId(id.into()),
        static_def_ref: StaticCardId("TEST".into()),
        zone,
        owner: PlayerId("P1".into()),
        hp: 10, armor: 0, energy: 0,
        marks: Default::default(),
    }
}

#[test]
fn test_play_card_valid() {
    let mut hand = vec![RuntimeCardId("card1".into())];
    let mut field = Vec::new();
    let mut inst = make_instance("card1", Zone::Hand);
    let rid = RuntimeCardId("card1".into());

    let result = ZoneManager::hand_to_field(&mut hand, &mut field, &mut inst, &rid, 7);
    assert_eq!(result, ZoneMoveResult::Moved);
    assert!(hand.is_empty());
    assert_eq!(field.len(), 1);
    assert_eq!(inst.zone, Zone::Field);
}

#[test]
fn test_play_card_field_full() {
    let mut hand = vec![RuntimeCardId("card1".into())];
    let mut full_field = vec![
        RuntimeCardId("f1".into()), RuntimeCardId("f2".into()),
    ];
    let mut inst = make_instance("card1", Zone::Hand);
    let rid = RuntimeCardId("card1".into());

    let result = ZoneManager::hand_to_field(&mut hand, &mut full_field, &mut inst, &rid, 2);
    assert_eq!(result, ZoneMoveResult::ZoneFull { zone: Zone::Field, limit: 2 });
}

#[test]
fn test_deck_to_hand_valid() {
    let mut deck = vec![RuntimeCardId("card1".into())];
    let mut hand = Vec::new();
    let mut inst = make_instance("card1", Zone::Deck);
    let result = ZoneManager::deck_to_hand(&mut deck, &mut hand, &mut inst, 10);
    assert_eq!(result, ZoneMoveResult::Moved);
    assert!(deck.is_empty());
    assert_eq!(hand.len(), 1);
    assert_eq!(inst.zone, Zone::Hand);
}

#[test]
fn test_exile_prevents_further_moves() {
    let mut from = vec![RuntimeCardId("card1".into())];
    let mut inst = make_instance("card1", Zone::Field);
    let rid = RuntimeCardId("card1".into());
    ZoneManager::to_exile(&mut from, &mut inst, &rid);
    assert_eq!(inst.zone, Zone::Exile);
    assert!(from.is_empty());

    // Exiled cards cannot be moved again
    let mut hand = Vec::new();
    let mut graveyard = Vec::new();
    let result = ZoneManager::hand_to_graveyard(&mut hand, &mut graveyard, &mut inst, &rid);
    assert_eq!(result, ZoneMoveResult::NotInZone {
        card_id: "card1".into(),
        expected: Zone::Hand,
        actual: Zone::Exile,
    });
}

#[test]
fn exiled_card_cannot_be_exiled_again() {
    let mut from = vec![RuntimeCardId("card1".into())];
    let mut inst = make_instance("card1", Zone::Exile);
    let rid = RuntimeCardId("card1".into());
    let result = ZoneManager::to_exile(&mut from, &mut inst, &rid);
    assert_eq!(result, ZoneMoveResult::InvalidMove {
        from: Zone::Exile,
        to: Zone::Exile,
        reason: "放逐区不可再次移动".into(),
    });
    assert_eq!(inst.zone, Zone::Exile);
    assert_eq!(from.len(), 1);
}
