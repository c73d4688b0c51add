//! Effect execution, condition checks and full rounds.
use cardmaker::base::{DamageType, PlayerSide};
use cardmaker::duel::effect::{Effect, EffectType, TargetSelector, TriggerCondition};
use cardmaker::duel::executor::{apply_effect, check_condition, execute_full_round, resolve_target};
use cardmaker::duel::state::{DuelPhase, DuelResult, DuelState, PlayerField};


fn make_test_state() -> DuelState {
    DuelState::new(
        PlayerField::new("玩家A", "儒家"),
        PlayerField::new("玩家B", "法家"),
        "test".into(),
    )
}

#[test]
fn test_execute_full_round() {
    let mut state = make_test_state();
    // 设置先手方属性
    state.field_mut(PlayerSide::First).physical_attack = 1;
    state.field_mut(PlayerSide::First).hp = 8;
    state.field_mut(PlayerSide::Second).hp = 6;
    state.field_mut(PlayerSide::Second).armor = 0;

    let log = execute_full_round(&mut state);

    // 应该有先手方攻击记录 + 后手方攻击 + 结算
    assert!(!log.is_empty());

    // 检查后手方受伤
    let second_hp = state.field(PlayerSide::Second).hp;
    assert!(second_hp < 6, "后手方应受到伤害, 实际 hp={}", second_hp);
}

#[test]
fn test_apply_effect_damage() {
    let mut state = make_test_state();
    state.field_mut(PlayerSide::Second).armor = 0;
    state.field_mut(PlayerSide::Second).hp = 6;

    let effect = Effect {
        effect_type: EffectType::DealDamage { amount: 2, damage_type: DamageType::Physical },
        trigger: TriggerCondition::Unconditional,
        target: TargetSelector::Target,
        value: 2,
        source_card: "击敌".into(),
        condition_text: "—".into(),
        subject_text: "自身".into(),
        predicate_text: "造成".into(),
        object_text: "2点物理伤害".into(),
        note: "—".into(),
        limit: None,
    };

    let result = apply_effect(&mut state, &effect, PlayerSide::First);
    assert!(result.is_some());
    assert_eq!(state.field(PlayerSide::Second).hp, 4);
}

#[test]
fn test_apply_effect_heal() {
    let mut state = make_test_state();
    state.field_mut(PlayerSide::First).hp = 5;

    let effect = Effect {
        effect_type: EffectType::Heal { amount: 2 },
        trigger: TriggerCondition::Unconditional,
        target: TargetSelector::Self_,
        value: 2,
        source_card: "疗伤".into(),
        condition_text: "—".into(),
        subject_text: "自身".into(),
        predicate_text: "恢复".into(),
        object_text: "2点生命".into(),
        note: "—".into(),
        limit: None,
    };

    let result = apply_effect(&mut state, &effect, PlayerSide::First);
    assert!(result.is_some());
    assert_eq!(state.field(PlayerSide::First).hp, 7);
}

#[test]
fn test_check_condition_threshold() {
    let mut state = make_test_state();
    state.field_mut(PlayerSide::First).energy = 3;

    let cond = TriggerCondition::Threshold {
        stat: "技力".into(),
        operator: "≥".into(),
        value: 2,
    };
    assert!(check_condition(&state, &cond, PlayerSide::First));
}

#[test]
fn test_check_condition_state() {
    let mut state = make_test_state();
    state.field_mut(PlayerSide::Second).armor = 3;

    let cond = TriggerCondition::StateCheck {
        target: "目标".into(),
        condition: "有护甲".into(),
    };
    assert!(check_condition(&state, &cond, PlayerSide::First));
}

// ============ 更多效果类型测试 ============

#[test]
fn test_apply_effect_gain_armor() {
    let mut state = make_test_state();
    let effect = Effect {
        effect_type: EffectType::GainArmor { amount: 3 },
        trigger: TriggerCondition::Unconditional,
        target: TargetSelector::Self_,
        value: 3,
        source_card: "护甲卡".into(),
        condition_text: "—".into(),
        subject_text: "自身".into(),
        predicate_text: "获得".into(),
        object_text: "3点护甲".into(),
        note: "—".into(),
        limit: None,
    };
    let result = apply_effect(&mut state, &effect, PlayerSide::First);
    assert!(result.is_some());
    assert_eq!(state.field(PlayerSide::First).armor, 5); // 初始 2 + 3
}

#[test]
fn test_apply_effect_restore_energy() {
    let mut state = make_test_state();
    state.field_mut(PlayerSide::First).energy = 1;
    let effect = Effect {
        effect_type: EffectType::RestoreEnergy { amount: 2 },
        trigger: TriggerCondition::Unconditional,
        target: TargetSelector::Self_,
        value: 2,
        source_card: "回能".into(),
        condition_text: "—".into(),
        subject_text: "自身".into(),
        predicate_text: "恢复".into(),
        object_text: "2点技力".into(),
        note: "—".into(),
        limit: None,
    };
    let result = apply_effect(&mut state, &effect, PlayerSide::First);
    assert!(result.is_some());
    assert_eq!(state.field(PlayerSide::First).energy, 3);
}

#[test]
fn test_apply_effect_gain_mark() {
    let mut state = make_test_state();
    let effect = Effect {
        effect_type: EffectType::GainMark {
            mark_name: "仁心".into(),
            count: 2,
            max: None,
        },
        trigger: TriggerCondition::Unconditional,
        target: TargetSelector::Self_,
        value: 2,
        source_card: "儒学".into(),
        condition_text: "—".into(),
        subject_text: "自身".into(),
        predicate_text: "积累".into(),
        object_text: "2个「仁心」标记".into(),
        note: "—".into(),
        limit: None,
    };
    let result = apply_effect(&mut state, &effect, PlayerSide::First);
    assert!(result.is_some());
    assert_eq!(state.field(PlayerSide::First).mark_count("仁心"), 2);
}

#[test]
fn test_apply_effect_gain_mark_max() {
    let mut state = make_test_state();
    state.field_mut(PlayerSide::First).add_mark("仁心", 3);
    let effect = Effect {
        effect_type: EffectType::GainMark {
            mark_name: "仁心".into(),
            count: 2,
            max: Some(4),
        },
        trigger: TriggerCondition::Unconditional,
        target: TargetSelector::Self_,
        value: 2,
        source_card: "儒学".into(),
        condition_text: "—".into(),
        subject_text: "自身".into(),
        predicate_text: "积累".into(),
        object_text: "2个「仁心」标记".into(),
        note: "—".into(),
        limit: None,
    };
    let result = apply_effect(&mut state, &effect, PlayerSide::First);
    assert!(result.is_some());
    assert_eq!(state.field(PlayerSide::First).mark_count("仁心"), 4);
}

#[test]
fn test_apply_effect_consume_mark_success() {
    let mut state = make_test_state();
    state.field_mut(PlayerSide::First).add_mark("法令", 3);
    let effect = Effect {
        effect_type: EffectType::ConsumeMark {
            mark_name: "法令".into(),
            count: 2,
        },
        trigger: TriggerCondition::Unconditional,
        target: TargetSelector::Self_,
        value: 2,
        source_card: "消耗标记".into(),
        condition_text: "—".into(),
        subject_text: "自身".into(),
        predicate_text: "消耗".into(),
        object_text: "2个「法令」标记".into(),
        note: "—".into(),
        limit: None,
    };
    let result = apply_effect(&mut state, &effect, PlayerSide::First);
    assert!(result.is_some());
    assert_eq!(state.field(PlayerSide::First).mark_count("法令"), 1);
}

#[test]
fn test_apply_effect_consume_mark_fail() {
    let mut state = make_test_state();
    let effect = Effect {
        effect_type: EffectType::ConsumeMark {
            mark_name: "仁心".into(),
            count: 2,
        },
        trigger: TriggerCondition::Unconditional,
        target: TargetSelector::Self_,
        value: 2,
        source_card: "消耗".into(),
        condition_text: "—".into(),
        subject_text: "自身".into(),
        predicate_text: "消耗".into(),
        object_text: "2个「仁心」标记".into(),
        note: "—".into(),
        limit: None,
    };
    let result = apply_effect(&mut state, &effect, PlayerSide::First);
    assert!(result.is_some());
    assert!(result.unwrap().contains("没有足够的"));
}

#[test]
fn test_apply_effect_deduct_energy() {
    let mut state = make_test_state();
    state.field_mut(PlayerSide::Second).energy = 3;
    let effect = Effect {
        effect_type: EffectType::Deduct {
            resource: "技力".into(),
            amount: 2,
        },
        trigger: TriggerCondition::Unconditional,
        target: TargetSelector::Target,
        value: 2,
        source_card: "扣技".into(),
        condition_text: "—".into(),
        subject_text: "自身".into(),
        predicate_text: "扣除".into(),
        object_text: "2点技力".into(),
        note: "—".into(),
        limit: None,
    };
    let result = apply_effect(&mut state, &effect, PlayerSide::First);
    assert!(result.is_some());
    assert_eq!(state.field(PlayerSide::Second).energy, 1);
}

#[test]
fn test_apply_effect_eliminate() {
    let mut state = make_test_state();
    let effect = Effect {
        effect_type: EffectType::Eliminate,
        trigger: TriggerCondition::Unconditional,
        target: TargetSelector::Target,
        value: 0,
        source_card: "灭杀".into(),
        condition_text: "—".into(),
        subject_text: "自身".into(),
        predicate_text: "淘汰".into(),
        object_text: "目标".into(),
        note: "—".into(),
        limit: None,
    };
    let result = apply_effect(&mut state, &effect, PlayerSide::First);
    assert!(result.is_some());
    assert!(!state.field(PlayerSide::Second).is_alive());
}

#[test]
fn test_apply_effect_set_near_death() {
    let mut state = make_test_state();
    state.field_mut(PlayerSide::Second).hp = 8;
    let effect = Effect {
        effect_type: EffectType::SetNearDeath,
        trigger: TriggerCondition::Unconditional,
        target: TargetSelector::Target,
        value: 0,
        source_card: "濒死".into(),
        condition_text: "—".into(),
        subject_text: "自身".into(),
        predicate_text: "使目标进入".into(),
        object_text: "濒死".into(),
        note: "—".into(),
        limit: None,
    };
    let result = apply_effect(&mut state, &effect, PlayerSide::First);
    assert!(result.is_some());
    assert_eq!(state.field(PlayerSide::Second).hp, 1);
}

#[test]
fn test_apply_effect_execute_tag() {
    let mut state = make_test_state();
    let effect = Effect {
        effect_type: EffectType::ExecuteTag {
            tag_name: "一槌定音".into(),
        },
        trigger: TriggerCondition::Unconditional,
        target: TargetSelector::Self_,
        value: 0,
        source_card: "指虎".into(),
        condition_text: "—".into(),
        subject_text: "自身".into(),
        predicate_text: "执行".into(),
        object_text: "[一槌定音]".into(),
        note: "—".into(),
        limit: None,
    };
    let result = apply_effect(&mut state, &effect, PlayerSide::First);
    assert!(result.is_some());
    assert!(result.unwrap().contains("一槌定音"));
}

#[test]
fn test_apply_effect_increase_stat_physical() {
    let mut state = make_test_state();
    let pa_before = state.field(PlayerSide::First).physical_attack;
    let effect = Effect {
        effect_type: EffectType::IncreaseStat {
            stat: "物理伤害".into(),
            amount: 2,
            permanent: false,
        },
        trigger: TriggerCondition::Unconditional,
        target: TargetSelector::Self_,
        value: 2,
        source_card: "强化".into(),
        condition_text: "—".into(),
        subject_text: "自身".into(),
        predicate_text: "增加".into(),
        object_text: "2点物理伤害".into(),
        note: "—".into(),
        limit: None,
    };
    let result = apply_effect(&mut state, &effect, PlayerSide::First);
    assert!(result.is_some());
    assert_eq!(state.field(PlayerSide::First).physical_attack, pa_before + 2);
}

#[test]
fn test_apply_effect_decrease_stat() {
    let mut state = make_test_state();
    state.field_mut(PlayerSide::Second).energy = 4;
    state.field_mut(PlayerSide::Second).max_energy = 4;
    let effect = Effect {
        effect_type: EffectType::DecreaseStat {
            stat: "技力上限".into(),
            amount: 1,
            permanent: false,
        },
        trigger: TriggerCondition::Unconditional,
        target: TargetSelector::Target,
        value: 1,
        source_card: "削弱".into(),
        condition_text: "—".into(),
        subject_text: "自身".into(),
        predicate_text: "降低".into(),
        object_text: "1点技力上限".into(),
        note: "—".into(),
        limit: None,
    };
    let result = apply_effect(&mut state, &effect, PlayerSide::First);
    assert!(result.is_some());
    assert_eq!(state.field(PlayerSide::Second).max_energy, 3);
}

// ============ 更多条件判断 ============

#[test]
fn test_check_condition_cost_energy() {
    let mut state = make_test_state();
    state.field_mut(PlayerSide::First).energy = 5;
    let cond = TriggerCondition::Cost {
        resource: "技力".into(),
        amount: 3,
        extra: None,
    };
    assert!(check_condition(&state, &cond, PlayerSide::First));

    state.field_mut(PlayerSide::First).energy = 2;
    assert!(!check_condition(&state, &cond, PlayerSide::First));
}

#[test]
fn test_check_condition_cost_hand() {
    let mut state = make_test_state();
    state.field_mut(PlayerSide::First).hand_cards = vec!["牌1".into(), "牌2".into()];
    let cond = TriggerCondition::Cost {
        resource: "手牌".into(),
        amount: 2,
        extra: None,
    };
    assert!(check_condition(&state, &cond, PlayerSide::First));

    state.field_mut(PlayerSide::First).hand_cards = vec![];
    assert!(!check_condition(&state, &cond, PlayerSide::First));
}

#[test]
fn test_check_condition_none() {
    let state = make_test_state();
    assert!(check_condition(&state, &TriggerCondition::Unconditional, PlayerSide::First));
}

#[test]
fn test_check_condition_threshold_smaller() {
    let mut state = make_test_state();
    state.field_mut(PlayerSide::First).hp = 3;
    let cond = TriggerCondition::Threshold {
        stat: "生命".into(),
        operator: "＜".into(),
        value: 5,
    };
    assert!(check_condition(&state, &cond, PlayerSide::First));
}

#[test]
fn test_resolve_target_self() {
    assert_eq!(resolve_target(&TargetSelector::Self_, PlayerSide::First), PlayerSide::First);
    assert_eq!(resolve_target(&TargetSelector::Self_, PlayerSide::Second), PlayerSide::Second);
}

#[test]
fn test_resolve_target_target() {
    assert_eq!(resolve_target(&TargetSelector::Target, PlayerSide::First), PlayerSide::Second);
    assert_eq!(resolve_target(&TargetSelector::Target, PlayerSide::Second), PlayerSide::First);
}

#[test]
fn round_where_both_stand_starts_the_next() {
    let mut state = make_test_state();
    let log = execute_full_round(&mut state);
    assert_eq!(state.phase, DuelPhase::FirstPlayerTurn);
    assert_eq!(state.round, 2);
    assert!(state.result.is_none());
    assert_eq!(state.field(PlayerSide::First).hp, 8);
    assert_eq!(state.field(PlayerSide::Second).hp, 8);
    // start, end of each turn, then the settlement header (armor soaks both hits)
    assert_eq!(log.len(), 7);
    assert_eq!(log[0].description, "玩家A 的回合开始 (第1回合)");
    assert_eq!(log[6].description, "=== 第1回合结算阶段 ===");
}

#[test]
fn round_where_a_side_falls_ends_the_duel() {
    let mut state = make_test_state();
    state.field_mut(PlayerSide::First).physical_attack = 5;
    state.field_mut(PlayerSide::Second).hp = 3;
    state.field_mut(PlayerSide::Second).armor = 0;
    let log = execute_full_round(&mut state);
    assert_eq!(state.phase, DuelPhase::End);
    assert_eq!(state.result, Some(DuelResult::FirstPlayerWin));
    assert_eq!(state.round, 1);
    assert_eq!(log.len(), 2);
    assert_eq!(state.field(PlayerSide::Second).hp, 0);
}

#[test]
fn round_of_an_ended_duel_does_nothing() {
    let mut state = make_test_state();
    state.phase = DuelPhase::End;
    let log = execute_full_round(&mut state);
    assert!(log.is_empty());
    assert_eq!(state.phase, DuelPhase::End);
}
