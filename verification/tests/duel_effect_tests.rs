//! Effects read from five-stage card entries.
use cardmaker::base::{DamageType, FiveStageEntry};
use cardmaker::duel::effect::{number_text, parse_condition, Effect, EffectType, TargetSelector, TriggerCondition};

/// The first number in an entry's object, read as a float and cut to an integer.
fn object_number(object: &str) -> Option<i32> {
    number_text(object).and_then(|t| t.parse::<f64>().ok()).map(|f| f as i32)
}


#[test]
fn test_from_entry_damage() {
    let entry = FiveStageEntry {
        id: "1".into(),
        condition: "消耗1技力".into(),
        subject: "自身".into(),
        predicate: "造成".into(),
        object: "目标1点物理伤害".into(),
        note: "—".into(),
    };
    let effect = Effect::from_entry(&entry, "斥候", object_number(&entry.object)).unwrap();
    assert_eq!(effect.effect_type, EffectType::DealDamage { amount: 1, damage_type: DamageType::Physical });
    assert_eq!(effect.target, TargetSelector::Self_);
    assert!(matches!(effect.trigger, TriggerCondition::Cost { .. }));
}

#[test]
fn test_from_entry_heal() {
    let entry = FiveStageEntry {
        id: "1".into(),
        condition: "消耗2技力".into(),
        subject: "自身".into(),
        predicate: "恢复".into(),
        object: "目标2点生命".into(),
        note: "—".into(),
    };
    let effect = Effect::from_entry(&entry, "医师", object_number(&entry.object)).unwrap();
    assert_eq!(effect.effect_type, EffectType::Heal { amount: 2 });
}

#[test]
fn test_from_entry_gain_mark() {
    let entry = FiveStageEntry {
        id: "1".into(),
        condition: "获得白/紫基本牌时".into(),
        subject: "自身".into(),
        predicate: "积累".into(),
        object: "1个「仁心」标记".into(),
        note: "每回合最多3个".into(),
    };
    let effect = Effect::from_entry(&entry, "儒家", object_number(&entry.object)).unwrap();
    assert_eq!(effect.effect_type, EffectType::GainMark {
        mark_name: "仁心".to_string(),
        count: 1,
        max: None,
    });
}

#[test]
fn test_from_entry_execute_tag() {
    let entry = FiveStageEntry {
        id: "1".into(),
        condition: "攻击时".into(),
        subject: "自身".into(),
        predicate: "执行".into(),
        object: "[一槌定音]".into(),
        note: "—".into(),
    };
    let effect = Effect::from_entry(&entry, "指虎", object_number(&entry.object)).unwrap();
    assert_eq!(effect.effect_type, EffectType::ExecuteTag { tag_name: "一槌定音".to_string() });
}

#[test]
fn test_parse_condition_cost() {
    let cond = parse_condition("消耗2技力", "");
    assert!(matches!(cond, TriggerCondition::Cost { ref resource, amount: 2, .. } if resource == "技力"));
}

#[test]
fn test_parse_condition_event() {
    let cond = parse_condition("受到伤害时", "");
    assert!(matches!(cond, TriggerCondition::OnEvent { .. }));
}
