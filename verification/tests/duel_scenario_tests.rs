//! Preset scenarios, card pools and scenario set-up.
use cardmaker::base::PlayerSide;
use cardmaker::duel::scenario::{
    count_scenario_matches, init_scenario, list_scenarios, preset_scenarios, scenario_1_basic_duel, CardInfo,
    ScenarioCondition, ScenarioPlayer,
};
use cardmaker::duel::state::DuelPhase;


#[test]
fn test_list_all_5_scenarios() {
    let scenarios = list_scenarios();
    assert_eq!(scenarios.len(), 5);
}

#[test]
fn test_scenario_ids_unique() {
    let scenarios = list_scenarios();
    let mut ids: Vec<&str> = scenarios.iter().map(|s| s.id.as_str()).collect();
    ids.sort();
    ids.dedup();
    assert_eq!(ids.len(), 5);
}

#[test]
fn test_init_basic_duel() {
    let state = init_scenario("basic_duel").expect("basic_duel 场景应存在");
    assert_eq!(state.phase, DuelPhase::Preparation);
    assert_eq!(state.round, 0);
    assert_eq!(state.scenario_id, "basic_duel");
    assert_eq!(state.field(PlayerSide::First).name, "先行者");
    assert_eq!(state.field(PlayerSide::Second).name, "后行者");
    assert_eq!(state.field(PlayerSide::First).faction, "儒家");
    assert_eq!(state.field(PlayerSide::Second).faction, "法家");
}

#[test]
fn test_init_mark_battle() {
    let state = init_scenario("mark_battle").expect("mark_battle 场景应存在");
    assert_eq!(state.field(PlayerSide::First).hp, 10);
    assert_eq!(state.field(PlayerSide::Second).hp, 8);
    assert_eq!(state.field(PlayerSide::First).armor, 3);
    assert_eq!(state.field(PlayerSide::Second).physical_attack, 1);
    assert_eq!(state.field(PlayerSide::Second).magic_attack, 2);
}

#[test]
fn test_init_tag_combo() {
    let state = init_scenario("tag_combo").expect("tag_combo 场景应存在");
    assert_eq!(state.field(PlayerSide::First).faction, "道家");
    assert_eq!(state.field(PlayerSide::First).energy, 5);
    assert_eq!(state.field(PlayerSide::Second).faction, "杂家");
}

#[test]
fn test_init_seal_counter() {
    let state = init_scenario("seal_counter").expect("seal_counter 场景应存在");
    assert_eq!(state.field(PlayerSide::First).magic_attack, 3);
    assert_eq!(state.field(PlayerSide::First).hp, 7);
}

#[test]
fn test_init_free_battle() {
    let state = init_scenario("free_battle").expect("free_battle 场景应存在");
    assert_eq!(state.field(PlayerSide::First).name, "玩家1");
    assert_eq!(state.field(PlayerSide::Second).name, "玩家2");
}

#[test]
fn test_init_nonexistent_scenario() {
    assert!(init_scenario("not_exist").is_none());
    assert!(init_scenario("").is_none());
}

#[test]
fn test_card_info_matches_condition() {
    let card = CardInfo::new("击敌", &["基本牌".to_string()]);
    let cond = ScenarioCondition {
        label: "基本牌".to_string(),
        marks: vec![],
    };
    assert!(card.matches_condition(&cond));
}

#[test]
fn test_card_info_matches_empty_label() {
    let card = CardInfo::new("任意卡", &[]);
    let cond = ScenarioCondition {
        label: "".to_string(),
        marks: vec![],
    };
    // 空 label 匹配所有
    assert!(card.matches_condition(&cond));
}

#[test]
fn test_card_info_no_match() {
    let card = CardInfo::new("击敌", &["基本牌".to_string()]);
    let cond = ScenarioCondition {
        label: "构筑卡".to_string(),
        marks: vec![],
    };
    assert!(!card.matches_condition(&cond));
}

#[test]
fn test_count_scenario_matches() {
    let card_pool = vec![
        CardInfo::new("击敌", &["基本牌".to_string()]),
        CardInfo::new("御守", &["基本牌".to_string()]),
        CardInfo::new("浮光", &["构筑卡".to_string(), "武学".to_string()]),
        CardInfo::new("荆棘", &["构筑卡".to_string(), "甲胄".to_string()]),
    ];
    let scenario = scenario_1_basic_duel();
    let match_result = count_scenario_matches(&scenario, &card_pool);
    // 阵营标签与基本牌/构筑卡无重叠，匹配数为0
    assert_eq!(match_result.first_label, "阵营");
    assert_eq!(match_result.second_label, "阵营");
}

#[test]
fn test_scenario_player_to_field() {
    let sp = ScenarioPlayer {
        name: "测试玩家".into(),
        faction: "测试阵营".into(),
        conditions: ScenarioCondition { label: "".into(), marks: vec![] },
        hp: 10, max_hp: 10,
        armor: 5, energy: 6, max_energy: 6,
        physical_attack: 3, magic_attack: 2,
        physical_resist: 1, magic_resist: 1,
        hand_cards: vec!["手牌1".into()],
        equipment: vec!["装备1".into()],
        skills: vec!["技能1".into()],
    };
    let field = sp.to_field();
    assert_eq!(field.name, "测试玩家");
    assert_eq!(field.faction, "测试阵营");
    assert_eq!(field.hp, 10);
    assert_eq!(field.armor, 5);
    assert_eq!(field.energy, 6);
    assert_eq!(field.physical_attack, 3);
    assert_eq!(field.magic_attack, 2);
    assert_eq!(field.hand_cards, vec!["手牌1"]);
    assert_eq!(field.equipment, vec!["装备1"]);
    assert_eq!(field.skills, vec!["技能1"]);
}

#[test]
fn test_preset_scenarios_idempotent() {
    let s1 = preset_scenarios();
    let s2 = preset_scenarios();
    assert_eq!(s1.len(), s2.len());
    for (a, b) in s1.iter().zip(s2.iter()) {
        assert_eq!(a.id, b.id);
    }
}
