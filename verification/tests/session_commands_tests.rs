//! The operations the front end calls: duel sessions, card checks, and a
//! few small readers of card texts.
use cardmaker::base::PlayerSide;
use cardmaker::duel::effect::{extract_mark_name, extract_tag_name};
use cardmaker::duel::scenario::CardInfo;
use cardmaker::duel::state::DuelPhase;
use cardmaker::duel::{
    do_execute_turn, do_get_duel_phase_info, do_get_duel_state, do_get_effect_log, do_init_duel,
    do_list_duel_scenarios, do_list_duel_scenarios_with_matches,
};
use cardmaker::parser::card_data::Card;
use cardmaker::parser::card_text::parse_tag_ref;
use cardmaker::parser::{
    do_delete_card, do_detect_duplicates, do_validate_cards_json, parse_card, parse_stats, validate_all_cards,
};

fn card(id: &str, name: &str, text: &str) -> Card {
    let parsed = parse_card(name.to_string(), text.to_string());
    Card {
        id: id.to_string(),
        name: name.to_string(),
        list_tags: vec![],
        pre_tag: vec![],
        duel_tags: vec![],
        text: text.to_string(),
        ast: parsed.ast,
        errors: parsed.errors.iter().map(|e| e.message.clone()).collect(),
        created_at: String::new(),
        modified_at: String::new(),
    }
}

const GOOD: &str = "消耗1点技力 → 自身 → 造成 → 目标1点物理伤害 → 每回合限1次";

#[test]
fn session_without_duel_reports_it() {
    let mut manager = None;
    let mut log = Vec::new();
    let err = do_execute_turn(&mut manager, &mut log).err().unwrap();
    assert_eq!(err, "请先调用 init_duel 初始化对峙");
    assert!(manager.is_none());
    assert!(log.is_empty());
    assert!(do_get_duel_state(&manager).unwrap().is_none());
}

#[test]
fn session_unknown_scenario_is_refused() {
    let mut manager = None;
    let mut log = Vec::new();
    let err = do_init_duel("no_such", &mut manager, &mut log).err().unwrap();
    assert_eq!(err, "场景 'no_such' 不存在");
    assert!(manager.is_none());
}

#[test]
fn session_runs_a_round_and_keeps_the_log() {
    let mut manager = None;
    let mut log = Vec::new();
    let st = do_init_duel("basic_duel", &mut manager, &mut log).unwrap();
    assert_eq!(st.phase, DuelPhase::Preparation);
    assert_eq!(st.round, 0);
    assert_eq!(st.scenario_id, "basic_duel");
    assert!(log.is_empty());

    let after = do_execute_turn(&mut manager, &mut log).unwrap();
    // Both sides stand after the first round: the next one begins.
    assert_eq!(after.phase, DuelPhase::FirstPlayerTurn);
    assert_eq!(after.round, 2);
    assert!(after.result.is_none());
    assert_eq!(after.field(PlayerSide::First).hp, 7);
    assert_eq!(after.field(PlayerSide::Second).hp, 7);
    assert!(!log.is_empty());
    let kept = do_get_effect_log(&log).unwrap();
    assert_eq!(kept.len(), log.len());
    let current = do_get_duel_state(&manager).unwrap().unwrap();
    assert_eq!(current.phase, DuelPhase::FirstPlayerTurn);
    assert_eq!(current.field(PlayerSide::First).hp, after.field(PlayerSide::First).hp);
    let mut rounds = 1;
    let mut last = after;
    while last.phase != DuelPhase::End && rounds < 50 {
        last = do_execute_turn(&mut manager, &mut log).unwrap();
        rounds += 1;
    }
    assert_eq!(last.phase, DuelPhase::End);
    assert!(last.result.is_some());
}

#[test]
fn session_lists_scenarios_and_matches() {
    let all = do_list_duel_scenarios();
    assert_eq!(all.len(), 5);
    assert_eq!(all[0].id, "basic_duel");
    let pool = vec![
        CardInfo { name: "甲".to_string(), list_tags: vec!["阵营".to_string()] },
        CardInfo { name: "乙".to_string(), list_tags: vec!["其他".to_string()] },
    ];
    let m = do_list_duel_scenarios_with_matches(pool);
    assert_eq!(m.len(), 5);
    assert_eq!(m[0].id, "basic_duel");
    assert_eq!(m[0].first_matches, 1);
    assert_eq!(m[0].second_matches, 1);
    assert_eq!(m[0].first_label, "阵营");
}

#[test]
fn session_phase_info_in_order() {
    let p = do_get_duel_phase_info();
    assert_eq!(p.len(), 5);
    assert_eq!(p[0].phase, "Preparation");
    assert_eq!(p[0].name, "准备阶段");
    assert_eq!(p[4].phase, "End");
    assert_eq!(p[4].index, 4);
}

#[test]
fn card_checks_over_a_collection() {
    let cards = vec![card("c1", "击敌", GOOD), card("c2", "击敌", "没有箭头"), card("c3", "守", GOOD)];
    let stats = parse_stats(&cards);
    assert_eq!(stats.total, 3);
    assert_eq!(stats.parsed, 2);
    assert_eq!(stats.failed, 1);
    let vs = validate_all_cards(&cards);
    assert_eq!(vs.len(), 3);
    assert!(vs[0].has_ast);
    assert!(!vs[1].has_ast);

    let dups = do_detect_duplicates(&cards);
    assert_eq!(dups.len(), 2);
    assert_eq!(dups[0].card_a_id, "c1");
    assert_eq!(dups[0].card_b_id, "c2");
    assert_eq!(dups[0].reason, "name");
    assert_eq!(dups[1].card_a_id, "c1");
    assert_eq!(dups[1].card_b_id, "c3");
    assert_eq!(dups[1].reason, "text_hash");
}

#[test]
fn deleting_a_card_by_id() {
    let mut cards = vec![card("c1", "击敌", GOOD), card("c2", "守", GOOD)];
    assert_eq!(do_delete_card(&mut cards, "c1".to_string()), Ok(true));
    assert_eq!(cards.len(), 1);
    assert_eq!(cards[0].id, "c2");
    assert_eq!(do_delete_card(&mut cards, "c9".to_string()), Ok(false));
    assert_eq!(cards.len(), 1);
}

#[test]
fn cards_document_checks() {
    let r = do_validate_cards_json("{broken".to_string());
    assert!(!r.valid);
    assert_eq!(r.total_cards, 0);
    assert_eq!(r.errors.len(), 1);
    assert_eq!(r.errors[0].field, "root");
    assert!(r.errors[0].message.starts_with("JSON 解析失败: "));

    let r = do_validate_cards_json(r#"{"cards": 3}"#.to_string());
    assert!(!r.valid);
    assert_eq!(r.errors[0].field, "cards");
    assert_eq!(r.errors[0].message, "顶层 cards 字段必须是数组");

    let r = do_validate_cards_json("[]".to_string());
    assert!(r.valid);
    assert_eq!(r.total_cards, 0);
}

#[test]
fn names_read_from_object_texts() {
    assert_eq!(extract_mark_name("1层「兵法」标记"), "兵法");
    assert_eq!(extract_mark_name("1层仁心"), "仁心");
    assert_eq!(extract_tag_name("执行[一槌定音]"), "一槌定音");
    assert_eq!(extract_tag_name("无括号"), "无括号");
}

#[test]
fn tag_reference_of_a_cell() {
    assert_eq!(parse_tag_ref(" [谋定后动] "), Some("谋定后动".to_string()));
    assert_eq!(parse_tag_ref("[A|B]"), None);
    assert_eq!(parse_tag_ref("[]"), None);
    assert_eq!(parse_tag_ref("[定义：x]"), None);
    assert_eq!(parse_tag_ref("谋定后动"), None);
}

#[test]
fn cards_document_with_empty_text_is_refused() {
    let r = do_validate_cards_json(
        r#"[{"id":"card_001","name":"A","text":"","list_tags":[],"pre_tag":[],"duel_tags":[],"created_at":"d","modified_at":"d"}]"#
            .to_string(),
    );
    assert!(!r.valid);
    assert_eq!(r.total_cards, 1);
    assert!(r.errors.iter().any(|e| e.field == "text" && e.card_id == "card_001" && e.message == "text 字段不能为空"));
}
