//! Duel state: phases, player fields, marks, effect stack, results.
use cardmaker::base::{DamageType, PlayerSide};
use cardmaker::duel::state::{DuelPhase, DuelResult, DuelState, EffectStackEntry, PlayerField};


#[test]
fn test_phase_transition() {
    let mut state = DuelState::new(
        PlayerField::new("玩家A", "儒家"),
        PlayerField::new("玩家B", "法家"),
        "test".into(),
    );

    assert_eq!(state.phase, DuelPhase::Preparation);

    // Preparation → FirstPlayerTurn
    state.advance_phase();
    assert_eq!(state.phase, DuelPhase::FirstPlayerTurn);
    assert_eq!(state.active_player, PlayerSide::First);
    assert_eq!(state.round, 1);

    // FirstPlayerTurn → SecondPlayerTurn
    state.advance_phase();
    assert_eq!(state.phase, DuelPhase::SecondPlayerTurn);
    assert_eq!(state.active_player, PlayerSide::Second);

    // SecondPlayerTurn → Settlement
    state.advance_phase();
    assert_eq!(state.phase, DuelPhase::Settlement);

    // Settlement → End
    state.advance_phase();
    assert_eq!(state.phase, DuelPhase::End);
    assert!(state.result.is_some());
}

#[test]
fn test_take_damage_with_armor() {
    let mut field = PlayerField::new("测试", "墨家");
    field.hp = 9;
    field.armor = 2;

    let actual = field.take_damage(3, DamageType::Physical);
    assert_eq!(actual, 3); // 2 armor + 1 hp
    assert_eq!(field.armor, 0);
    assert_eq!(field.hp, 8);
}

#[test]
fn test_take_damage_no_armor() {
    let mut field = PlayerField::new("测试", "兵家");
    field.hp = 6;
    field.armor = 0;

    let actual = field.take_damage(4, DamageType::Magical);
    assert_eq!(actual, 4);
    assert_eq!(field.hp, 2);
}

#[test]
fn test_marks() {
    let mut field = PlayerField::new("测试", "儒家");
    field.add_mark("仁心", 2);
    assert_eq!(field.mark_count("仁心"), 2);

    let ok = field.consume_marks("仁心", 1);
    assert!(ok);
    assert_eq!(field.mark_count("仁心"), 1);

    let fail = field.consume_marks("仁心", 2);
    assert!(!fail);
    assert_eq!(field.mark_count("仁心"), 1);

    field.consume_marks("仁心", 1);
    assert_eq!(field.mark_count("仁心"), 0);
}

// ============ 效果栈 LIFO ============

#[test]
fn test_effect_stack_lifo() {
    let mut state = DuelState::new(
        PlayerField::new("A", "儒家"),
        PlayerField::new("B", "法家"),
        "test".into(),
    );

    state.push_effect(EffectStackEntry {
        source: "卡牌1".into(),
        description: "效果1".into(),
        owner: PlayerSide::First,
        target: PlayerSide::Second,
    });
    state.push_effect(EffectStackEntry {
        source: "卡牌2".into(),
        description: "效果2".into(),
        owner: PlayerSide::Second,
        target: PlayerSide::First,
    });
    state.push_effect(EffectStackEntry {
        source: "卡牌3".into(),
        description: "效果3".into(),
        owner: PlayerSide::First,
        target: PlayerSide::Second,
    });

    // LIFO: 后入先出
    let e3 = state.pop_effect().unwrap();
    assert_eq!(e3.source, "卡牌3");
    let e2 = state.pop_effect().unwrap();
    assert_eq!(e2.source, "卡牌2");
    let e1 = state.pop_effect().unwrap();
    assert_eq!(e1.source, "卡牌1");
    assert!(state.pop_effect().is_none());
}

#[test]
fn test_effect_stack_empty_pop() {
    let mut state = DuelState::new(
        PlayerField::new("A", "儒家"),
        PlayerField::new("B", "法家"),
        "test".into(),
    );
    assert!(state.pop_effect().is_none());
    assert!(state.pop_effect().is_none());
}

// ============ 状态机非法转换（End → next） ============

#[test]
fn test_phase_next_end_returns_none() {
    assert_eq!(DuelPhase::End.next(), None);
}

#[test]
fn test_advance_from_end() {
    let mut state = DuelState::new(
        PlayerField::new("A", "儒家"),
        PlayerField::new("B", "法家"),
        "test".into(),
    );
    state.phase = DuelPhase::End;
    let result = state.advance_phase();
    assert_eq!(result, None);
    assert_eq!(state.phase, DuelPhase::End);
}

// ============ DuelResult ============

#[test]
fn test_duel_result_description() {
    assert_eq!(DuelResult::FirstPlayerWin.description(), "先手方获胜");
    assert_eq!(DuelResult::SecondPlayerWin.description(), "后手方获胜");
    assert_eq!(DuelResult::Draw.description(), "平局");
}

// ============ PlayerSide ============

#[test]
fn test_player_side_opponent() {
    assert_eq!(PlayerSide::First.opponent(), PlayerSide::Second);
    assert_eq!(PlayerSide::Second.opponent(), PlayerSide::First);
}

#[test]
fn test_player_side_name() {
    assert_eq!(PlayerSide::First.name(), "先手方");
    assert_eq!(PlayerSide::Second.name(), "后手方");
}

// ============ PlayerField 方法 ============

#[test]
fn test_field_is_alive() {
    let field = PlayerField::new("测试", "儒家");
    assert!(field.is_alive());
}

#[test]
fn test_field_not_alive() {
    let mut field = PlayerField::new("测试", "儒家");
    field.hp = 0;
    assert!(!field.is_alive());
}

#[test]
fn test_field_not_alive_negative() {
    let mut field = PlayerField::new("测试", "儒家");
    field.hp = -1;
    assert!(!field.is_alive());
}

#[test]
fn test_take_damage_zero() {
    let mut field = PlayerField::new("测试", "儒家");
    field.hp = 8;
    let actual = field.take_damage(0, DamageType::Physical);
    assert_eq!(actual, 0);
    assert_eq!(field.hp, 8);
}

#[test]
fn test_take_damage_negative() {
    let mut field = PlayerField::new("测试", "儒家");
    field.hp = 8;
    let actual = field.take_damage(-3, DamageType::Magical);
    assert_eq!(actual, 0);
    assert_eq!(field.hp, 8);
}

#[test]
fn test_heal_max_cap() {
    let mut field = PlayerField::new("测试", "儒家");
    field.hp = 7;
    field.max_hp = 8;
    let actual = field.heal(5);
    assert_eq!(actual, 1);
    assert_eq!(field.hp, 8);
}

#[test]
fn test_heal_zero() {
    let mut field = PlayerField::new("测试", "儒家");
    field.hp = 5;
    let actual = field.heal(0);
    assert_eq!(actual, 0);
    assert_eq!(field.hp, 5);
}

#[test]
fn test_modify_energy_clamp() {
    let mut field = PlayerField::new("测试", "儒家");
    field.energy = 4;
    field.max_energy = 4;
    field.modify_energy(3);
    assert_eq!(field.energy, 4); // 不能超过上限
    field.modify_energy(-10);
    assert_eq!(field.energy, 0); // 不能低于 0
}

#[test]
fn test_check_end_kill_first() {
    let mut state = DuelState::new(
        PlayerField::new("A", "儒家"),
        PlayerField::new("B", "法家"),
        "test".into(),
    );
    state.field_mut(PlayerSide::First).hp = 0;
    let ended = state.check_end();
    assert!(ended);
    assert_eq!(state.phase, DuelPhase::End);
    assert_eq!(state.result, Some(DuelResult::SecondPlayerWin));
}

#[test]
fn test_check_end_kill_second() {
    let mut state = DuelState::new(
        PlayerField::new("A", "儒家"),
        PlayerField::new("B", "法家"),
        "test".into(),
    );
    state.field_mut(PlayerSide::Second).hp = 0;
    let ended = state.check_end();
    assert!(ended);
    assert_eq!(state.result, Some(DuelResult::FirstPlayerWin));
}

#[test]
fn test_on_phase_enter_preparation_resets_round() {
    let mut state = DuelState::new(
        PlayerField::new("A", "儒家"),
        PlayerField::new("B", "法家"),
        "test".into(),
    );
    state.round = 5;
    state.on_phase_enter(DuelPhase::Preparation);
    assert_eq!(state.round, 0);
    assert_eq!(state.active_player, PlayerSide::First);
}

#[test]
fn test_damage_type_separate_values() {
    assert_ne!(DamageType::Physical, DamageType::Magical);
    assert_ne!(DamageType::Magical, DamageType::True);
    assert_ne!(DamageType::True, DamageType::Physical);
}
