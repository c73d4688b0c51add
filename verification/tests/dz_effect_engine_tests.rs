//! Settlement of effect actions: pay, settle, chain.
use cardmaker::dz::effect_engine::{DamageType, EffectAction, EffectEngine};
use cardmaker::dz::ports::{PlayerId, RuntimeCardId, RuntimeCardInstance, StaticCardId, Zone};
use cardmaker::json::JsonValue;


#[test]
fn test_damage_through_armor() {
    let mut source = RuntimeCardInstance {
        runtime_id: RuntimeCardId("src".into()),
        static_def_ref: StaticCardId("GZ01".into()),
        zone: Zone::Field,
        owner: PlayerId("P1".into()),
        hp: 10, armor: 0, energy: 5,
        marks: Default::default(),
    };
    let mut target = RuntimeCardInstance {
        runtime_id: RuntimeCardId("tgt".into()),
        static_def_ref: StaticCardId("JB01".into()),
        zone: Zone::Field,
        owner: PlayerId("P2".into()),
        hp: 10, armor: 3, energy: 0,
        marks: Default::default(),
    };

    let actions = vec![EffectAction::DealDamage { amount: 5, damage_type: DamageType::Physical }];
    let result = EffectEngine::execute(&actions, &mut source, &mut target, 1);

    assert_eq!(result.damage_dealt, 5);
    assert_eq!(target.hp, 8);  // 10 - (5 - 3 armor) = 8
    assert_eq!(target.armor, 0);
}

#[test]
fn test_payment_non_refundable() {
    let mut source = RuntimeCardInstance {
        runtime_id: RuntimeCardId("src".into()),
        static_def_ref: StaticCardId("GZ01".into()),
        zone: Zone::Field,
        owner: PlayerId("P1".into()),
        hp: 10, armor: 0, energy: 5,
        marks: Default::default(),
    };
    let mut target = RuntimeCardInstance {
        runtime_id: RuntimeCardId("tgt".into()),
        static_def_ref: StaticCardId("JB01".into()),
        zone: Zone::Field,
        owner: PlayerId("P2".into()),
        hp: 10, armor: 0, energy: 0,
        marks: Default::default(),
    };

    let actions = vec![
        EffectAction::PayCost { energy: 3, hp: 0, hand_cards: 0, marks: vec![] },
        EffectAction::ImmuneDamage,
        EffectAction::DealDamage { amount: 10, damage_type: DamageType::Physical },
    ];
    EffectEngine::execute(&actions, &mut source, &mut target, 1);

    // 支付不可退回
    assert_eq!(source.energy, 2);
    // 伤害被免疫
    assert_eq!(target.hp, 10);
}


// Instructions read from effect text.

fn effect_entry(text: &str, refs: &[&str]) -> JsonValue {
    JsonValue::Object(vec![
        ("text".to_string(), JsonValue::Str(text.to_string())),
        ("mark_refs".to_string(), JsonValue::Array(refs.iter().map(|r| JsonValue::Str(r.to_string())).collect())),
    ])
}

#[test]
fn test_parse_effect_to_actions_damage() {
    let entry = effect_entry("对目标造成3点物理伤害。", &[]);
    let actions = cardmaker::dz::effect_parse::parse_effect_to_actions(&entry);
    assert!(actions.iter().any(|a| matches!(a, EffectAction::DealDamage { .. })));
}

#[test]
fn test_parse_effect_exact_damage() {
    let actions = cardmaker::dz::effect_parse::parse_effect_to_actions(&effect_entry("对目标造成3点法术伤害。", &[]));
    assert_eq!(actions.len(), 1);
    assert!(matches!(actions[0], EffectAction::DealDamage { amount: 3, damage_type: DamageType::Spell }));
}

#[test]
fn test_parse_effect_cost_then_effects() {
    let actions = cardmaker::dz::effect_parse::parse_effect_to_actions(&effect_entry(
        "消耗2点技力和1个「仁心」，恢复1点生命，随后抽取2张牌。",
        &["仁心"],
    ));
    // "生命" later in the line makes the number after "消耗" count as a life cost too,
    // and "技力" makes the restore count for energy as well.
    assert_eq!(actions.len(), 5);
    match &actions[0] {
        EffectAction::PayCost { energy, hp, hand_cards, marks } => {
            assert_eq!((*energy, *hp, *hand_cards), (2, 2, 0));
            assert_eq!(marks.len(), 1);
            assert_eq!(marks[0].0, "仁心");
        }
        _ => panic!("cost first"),
    }
    assert!(matches!(actions[1], EffectAction::RestoreEnergy { amount: 1 }));
    assert!(matches!(actions[2], EffectAction::RestoreHp { amount: 1 }));
    assert!(matches!(actions[3], EffectAction::DrawCards { count: 2 }));
    assert!(matches!(&actions[4], EffectAction::Chain { action } if matches!(**action, EffectAction::DrawCards { count: 0 })));
}

#[test]
fn test_parse_effect_number_defaults() {
    // No number before "点": damage 1; a keyword pair missing: nothing.
    let actions = cardmaker::dz::effect_parse::parse_effect_to_actions(&effect_entry("造成点伤害", &[]));
    assert!(matches!(actions[0], EffectAction::DealDamage { amount: 1, damage_type: DamageType::Physical }));
    let none = cardmaker::dz::effect_parse::parse_effect_to_actions(&effect_entry("消耗一切", &[]));
    assert!(none.is_empty());
    let no_text = cardmaker::dz::effect_parse::parse_effect_to_actions(&cardmaker::json::JsonValue::Null);
    assert!(no_text.is_empty());
}

#[test]
fn test_parse_effect_overlong_number_counts_one() {
    let actions = cardmaker::dz::effect_parse::parse_effect_to_actions(&effect_entry("获得99999999999点护甲", &[]));
    assert!(matches!(actions[0], EffectAction::GainArmor { amount: 1 }));
}

fn unit(id: &str, hp: u32, armor: u32, energy: u32) -> RuntimeCardInstance {
    RuntimeCardInstance {
        runtime_id: RuntimeCardId(id.into()),
        static_def_ref: StaticCardId("GZ01".into()),
        zone: Zone::Field,
        owner: PlayerId("P1".into()),
        hp,
        armor,
        energy,
        marks: Default::default(),
    }
}

#[test]
fn test_immunity_cancels_only_next_damage() {
    let mut source = unit("s", 10, 0, 5);
    let mut target = unit("t", 10, 2, 4);
    let actions = vec![
        EffectAction::ImmuneDamage,
        EffectAction::RemoveArmor { amount: 1 },
        EffectAction::DealDamage { amount: 4, damage_type: DamageType::Physical },
        EffectAction::DealDamage { amount: 3, damage_type: DamageType::TrueDamage },
        EffectAction::DeductEnergy { amount: 9 },
    ];
    let r = EffectEngine::execute(&actions, &mut source, &mut target, 2);
    // armor removal is no damage: it happens under the immunity
    assert_eq!(target.armor, 1);
    // the first damage is negated, the second (true damage) goes through
    assert_eq!(target.hp, 7);
    assert_eq!(r.damage_dealt, 3);
    assert_eq!(r.damage_negated, 1 + 4);
    assert_eq!(target.energy, 0);
    assert_eq!(source.energy, 5);
}

#[test]
fn test_chains_kept_in_written_order() {
    let mut source = unit("s", 10, 0, 5);
    let mut target = unit("t", 10, 0, 0);
    let actions = vec![
        EffectAction::Chain { action: Box::new(EffectAction::DrawCards { count: 1 }) },
        EffectAction::RestoreHp { amount: 2 },
        EffectAction::Chain { action: Box::new(EffectAction::GainArmor { amount: 3 }) },
    ];
    let r = EffectEngine::execute(&actions, &mut source, &mut target, 1);
    assert_eq!(r.chain_actions.len(), 2);
    assert!(matches!(&r.chain_actions[0], EffectAction::Chain { action } if matches!(**action, EffectAction::DrawCards { count: 1 })));
    assert!(matches!(&r.chain_actions[1], EffectAction::Chain { action } if matches!(**action, EffectAction::GainArmor { amount: 3 })));
    assert_eq!(target.hp, 12);
}
