//! Domain entities of the card engine.
use cardmaker::dz::domain::{
    BranchEntry, CardAttributes, DuelState, EffectBlock, EffectEntry, EffectLine, Mark, MarkType, PlayerState,
};
use cardmaker::dz::ports::{MarkId, PlayerId, RuntimeCardId, StaticCardId};

#[test]
fn test_card_attributes_defaults() {
    let attrs = CardAttributes {
        life: None,
        armor: None,
        energy: None,
        is_passive: false,
    };
    assert_eq!(attrs.life, None);
    assert_eq!(attrs.armor, None);
    assert_eq!(attrs.energy, None);
    assert!(!attrs.is_passive);
}

#[test]
fn test_card_attributes_partial_values() {
    let attrs = CardAttributes {
        life: Some(80),
        armor: None,
        energy: Some(3),
        is_passive: true,
    };
    assert_eq!(attrs.life, Some(80));
    assert_eq!(attrs.armor, None);
    assert_eq!(attrs.energy, Some(3));
    assert!(attrs.is_passive);
}

#[test]
fn test_card_attributes_full_values() {
    let attrs = CardAttributes {
        life: Some(120),
        armor: Some(15),
        energy: Some(8),
        is_passive: false,
    };
    assert_eq!(attrs.life, Some(120));
    assert_eq!(attrs.armor, Some(15));
    assert_eq!(attrs.energy, Some(8));
    assert!(!attrs.is_passive);
}

#[test]
fn test_effect_block_with_trigger_and_entries() {
    let block = EffectBlock {
        trigger: Some("condition".into()),
        entries: vec![
            EffectEntry::Simple(EffectLine {
                condition: None,
                subject: None,
                predicate: "造成".into(),
                object: "5点伤害".into(),
                remark: Some("[核心]".into()),
            }),
            EffectEntry::Branch(BranchEntry {
                condition: "目标生命<30%".into(),
                entries: vec![
                    EffectEntry::Simple(EffectLine {
                        condition: None,
                        subject: Some("对目标".into()),
                        predicate: "追加".into(),
                        object: "2点伤害".into(),
                        remark: None,
                    }),
                ],
            }),
        ],
    };

    assert_eq!(block.trigger.as_deref(), Some("condition"));
    assert_eq!(block.entries.len(), 2);

    match &block.entries[0] {
        EffectEntry::Simple(line) => {
            assert_eq!(line.predicate, "造成");
            assert_eq!(line.object, "5点伤害");
            assert_eq!(line.remark.as_deref(), Some("[核心]"));
        }
        _ => panic!("第一个条目应为 Simple"),
    }

    match &block.entries[1] {
        EffectEntry::Branch(branch) => {
            assert_eq!(branch.condition, "目标生命<30%");
            assert_eq!(branch.entries.len(), 1);
        }
        _ => panic!("第二个条目应为 Branch"),
    }
}

#[test]
fn test_effect_block_empty_entries() {
    let block = EffectBlock {
        trigger: None,
        entries: vec![],
    };
    assert!(block.trigger.is_none());
    assert!(block.entries.is_empty());
}

#[test]
fn test_mark_construction() {
    let mark = Mark {
        id: MarkId("仁心".into()),
        mark_type: MarkType::Cumulative,
    };
    assert_eq!(mark.id.0, "仁心");
    match mark.mark_type {
        MarkType::Cumulative => {}
        _ => panic!("标记类型应为 Cumulative"),
    }
}

#[test]
fn test_duel_state_initialization() {
    let state = DuelState {
        players: vec![
            PlayerState {
                id: PlayerId("P1".into()),
                faction: StaticCardId("ZY01".into()),
                career: StaticCardId("ZY08".into()),
                hand: vec![
                    RuntimeCardId("GZ01_1".into()),
                    RuntimeCardId("JB01_1".into()),
                ],
                field: vec![],
                deck_count: 28,
                graveyard: vec![],
            },
            PlayerState {
                id: PlayerId("P2".into()),
                faction: StaticCardId("ZY02".into()),
                career: StaticCardId("ZY05".into()),
                hand: vec![],
                field: vec![],
                deck_count: 30,
                graveyard: vec![],
            },
        ],
        turn: 1,
        phase: "Draw".into(),
    };

    assert_eq!(state.players.len(), 2);
    assert_eq!(state.turn, 1);
    assert_eq!(state.phase, "Draw");

    assert_eq!(state.players[0].id.0, "P1");
    assert_eq!(state.players[0].faction.0, "ZY01");
    assert_eq!(state.players[0].hand.len(), 2);
    assert_eq!(state.players[0].deck_count, 28);

    assert_eq!(state.players[1].hand.len(), 0);
    assert_eq!(state.players[1].deck_count, 30);
}

#[test]
fn test_duel_state_empty_players() {
    let state = DuelState {
        players: vec![],
        turn: 0,
        phase: "Init".into(),
    };
    assert!(state.players.is_empty());
    assert_eq!(state.turn, 0);
    assert_eq!(state.phase, "Init");
}
