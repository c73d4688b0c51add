//! Card validation: tag references, sample cards, statistics.
use cardmaker::base::FiveStageEntry;
use cardmaker::parser::card_data::Card;
use cardmaker::parser::card_text::{parse_card_text, CardAst};
use cardmaker::parser::validator::{
    extract_tag_refs, validate_all, validate_card, validation_stats, CardValidation, ValidationError,
};

fn card(name: &str, text: &str, ast: Option<CardAst>, errors: Vec<String>) -> Card {
    Card {
        id: String::new(),
        name: name.to_string(),
        list_tags: vec![],
        pre_tag: vec![],
        duel_tags: vec![],
        text: text.to_string(),
        ast,
        errors,
        created_at: String::new(),
        modified_at: String::new(),
    }
}

#[test]
fn test_extract_tag_refs() {
    assert_eq!(extract_tag_refs("[韬光养晦]"), Some(vec!["韬光养晦".to_string()]));
    assert_eq!(extract_tag_refs("执行 → [一槌定音] → —"), Some(vec!["一槌定音".to_string()]));
    assert_eq!(extract_tag_refs("无标签"), None);
}

#[test]
fn test_validate_sample_cards() {
    let samples = &[
        ("儒家", "\
消耗1「仁心」 → 自身 → 恢复 → 1点技力 → —\n\
消耗1「仁心」 → 自身 → 抽取 → 1张牌 → —"),
        ("击敌", "消耗1次攻击次数 → 自身 → 造成 → 目标物理伤害（数值=攻击力） → 每回合限1次攻击机会"),
        ("蓄势", "\
使用 → 自身 → 执行 → [谋定后动] → —\n\
[谋定后动]定义：\n| A | 选择伤害 | 自身 | 增加 | 下次伤害+1 | 效果不可叠加 |\n| B | 选择治疗 | 自身 | 增加 | 下次治疗+1 | 效果不可叠加 |"),
        ("斩将", "目标生命＜2且护甲＜2 → 自身 → 淘汰 → 目标 → 直接淘汰"),
    ];

    let mut cards = vec![];
    for (name, text) in samples {
        let result = parse_card_text(name, text);
        let errors: Vec<String> = result.errors.iter().map(|e| e.message.clone()).collect();
        cards.push(card(name, text, result.ast, errors));
    }

    let results = validate_all(&cards);
    let (total, clean, _) = validation_stats(&results);
    assert!(total == 4);
    assert!(clean >= 3);
}

#[test]
fn test_validate_empty_card() {
    let c = card("空卡", "", None, vec![]);
    let result = validate_card(&c);
    assert!(!result.has_ast);
    assert_eq!(result.entry_count, 0);
}

#[test]
fn test_validate_known_tag_reference() {
    let ast = CardAst {
        name: "测试".into(),
        list_tags: vec![],
        pre_tag: vec![],
        entries: vec![FiveStageEntry {
            id: "A".into(),
            condition: "消耗1技力".into(),
            subject: "自身".into(),
            predicate: "执行".into(),
            object: "[韬光养晦]".into(),
            note: "—".into(),
        }],
        tag_defs: vec![],
        duel_tags: vec!["韬光养晦".into()],
    };
    let c = card("测试", "测试", Some(ast), vec![]);
    let result = validate_card(&c);
    assert!(result.has_ast);
    assert_eq!(result.entry_count, 1);
}

#[test]
fn test_extract_tag_refs_multiple() {
    let refs = extract_tag_refs("[韬光养晦] 和 [一槌定音]");
    assert_eq!(refs, Some(vec!["韬光养晦".to_string(), "一槌定音".to_string()]));
}

#[test]
fn test_extract_tag_refs_with_pipe() {
    let refs = extract_tag_refs("| A | — | 自身 |");
    assert_eq!(refs, None);
}

#[test]
fn test_extract_tag_refs_with_colon() {
    let refs = extract_tag_refs("[标签：test]");
    assert_eq!(refs, None);
}

#[test]
fn test_validation_stats() {
    let results = vec![
        CardValidation {
            card_name: "pass1".into(), has_ast: true, entry_count: 2, tag_def_count: 0,
            errors: vec![], warnings: vec![],
        },
        CardValidation {
            card_name: "pass2".into(), has_ast: true, entry_count: 1, tag_def_count: 0,
            errors: vec![], warnings: vec!["warning".into()],
        },
        CardValidation {
            card_name: "fail1".into(), has_ast: true, entry_count: 1, tag_def_count: 0,
            errors: vec![ValidationError { card_name: "fail1".into(), line: 1, description: "err".into() }],
            warnings: vec![],
        },
    ];
    let (total, clean, with_errors) = validation_stats(&results);
    assert_eq!(total, 3);
    assert_eq!(clean, 2);
    assert_eq!(with_errors, 1);
}
