//! Card text parsing: single lines, table rows, tag definitions, whole cards.
use cardmaker::parser::card_text::{
    parse_card_text, parse_single_line, parse_table_row, parse_tag_def_start, segment_to_text, split_by_arrow,
};
use cardmaker::parser::lexer::{tokenize, Token};


#[test]
fn test_parse_simple_line() {
    let entry = parse_single_line("消耗1点技力 → 自身 → 造成 → 目标1点物理伤害 → 每回合限1次").unwrap();
    assert_eq!(entry.condition, "消耗1点技力");
    assert_eq!(entry.subject, "自身");
    assert_eq!(entry.predicate, "造成");
    assert_eq!(entry.object, "目标1点物理伤害");
    assert_eq!(entry.note, "每回合限1次");
}

#[test]
fn test_parse_with_dash() {
    let entry = parse_single_line("— → 自身 → 恢复 → 1点生命 → —").unwrap();
    assert_eq!(entry.condition, "—");
    assert_eq!(entry.subject, "自身");
    assert_eq!(entry.predicate, "恢复");
    assert_eq!(entry.object, "1点生命");
    assert_eq!(entry.note, "—");
}

#[test]
fn test_parse_tag_ref() {
    let line = "攻击时 → 自身 → 执行 → [一槌定音] → —";
    let entry = parse_single_line(line).unwrap();
    assert_eq!(entry.predicate, "执行");
    assert_eq!(entry.object, "[一槌定音]");
}

#[test]
fn test_parse_tag_def_start() {
    assert_eq!(parse_tag_def_start("[韬光养晦]定义："), Some("韬光养晦".to_string()));
    assert_eq!(parse_tag_def_start("普通文本"), None);
}

#[test]
fn test_parse_table_row() {
    let row = "| A | — | 自身 | 消耗 | 1张紫卡 | — |";
    let entry = parse_table_row(row).unwrap();
    assert_eq!(entry.id, "A");
    assert_eq!(entry.condition, "—");
    assert_eq!(entry.subject, "自身");
    assert_eq!(entry.predicate, "消耗");
    assert_eq!(entry.object, "1张紫卡");
    assert_eq!(entry.note, "—");
}

// ============ 完整 parse_card_text 测试 ============

#[test]
fn test_parse_complete_card() {
    let text = "\
消耗1「仁心」 → 自身 → 恢复 → 1点技力 → —\n\
消耗1「仁心」 → 自身 → 抽取 → 1张牌 → —\n\
触发#4后 → 自身 → 恢复 → 1点生命 → —";
    let result = parse_card_text("儒家", text);
    assert!(result.ast.is_some());
    let ast = result.ast.unwrap();
    assert_eq!(ast.name, "儒家");
    assert_eq!(ast.entries.len(), 3);
    assert_eq!(ast.entries[0].condition, "消耗1「仁心」");
    assert_eq!(ast.entries[0].predicate, "恢复");
    assert_eq!(ast.entries[1].predicate, "抽取");
    assert_eq!(ast.entries[2].predicate, "恢复");
}

#[test]
fn test_parse_card_with_tag_def() {
    let text = "\
使用 → 自身 → 执行 → [谋定后动] → —\n\
[谋定后动]定义：\n\
| A | 选择伤害 | 自身 | 增加 | 下次伤害+1 | 效果不可叠加 |\n\
| B | 选择治疗 | 自身 | 增加 | 下次治疗+1 | 效果不可叠加 |";
    let result = parse_card_text("蓄势", text);
    assert!(result.ast.is_some());
    let ast = result.ast.unwrap();
    assert_eq!(ast.entries.len(), 1);
    assert_eq!(ast.tag_defs.len(), 1);
    assert_eq!(ast.tag_defs[0].tag_name, "谋定后动");
    assert_eq!(ast.tag_defs[0].entries.len(), 2);
    assert!(ast.duel_tags.contains(&"谋定后动".to_string()));
}

#[test]
fn test_parse_empty_input() {
    let result = parse_card_text("空卡", "");
    assert!(result.ast.is_none());
    assert!(!result.errors.is_empty());
    assert!(result.errors[0].message.contains("未能解析"));
}

#[test]
fn test_parse_only_name_no_entries() {
    let result = parse_card_text("仅名称", "这是一段没有箭头的纯文本描述。");
    assert!(result.ast.is_none());
}

#[test]
fn test_parse_unicode_arrows() {
    let text = "条件A → 主语A → 谓语A → 宾语A → 备注A";
    let result = parse_card_text("Unicode箭头", text);
    assert!(result.ast.is_some());
    let ast = result.ast.unwrap();
    assert_eq!(ast.entries.len(), 1);
    assert_eq!(ast.entries[0].condition, "条件A");
}

#[test]
fn test_parse_special_unicode() {
    let text = "🎯消耗 → 自身 → 执行 → テスト → —";
    let result = parse_card_text("特殊Unicode", text);
    assert!(result.ast.is_some());
    let ast = result.ast.unwrap();
    assert_eq!(ast.entries[0].condition, "🎯消耗");
    assert_eq!(ast.entries[0].object, "テスト");
}

#[test]
fn test_parse_max_length() {
    let long_condition = "条件".repeat(100);
    let text = format!("{} → 自身 → 造成 → 目标1点伤害 → —", long_condition);
    let result = parse_card_text("超长", &text);
    assert!(result.ast.is_some());
    assert_eq!(result.ast.unwrap().entries[0].condition.len(), 300);
}

#[test]
fn test_parse_single_segment_only() {
    let text = "生命8，护甲2，技力4";
    let result = parse_card_text("属性", text);
    // 属性行被跳过，不应有 AST
    assert!(result.ast.is_none());
}

#[test]
fn test_parse_mixed_valid_invalid() {
    let text = "\
消耗1技力 → 自身 → 造成 → 目标1点伤害 → —\n\
这是一行无效文本\n\
攻击时 → 自身 → 执行 → [一槌定音] → —";
    let result = parse_card_text("混合", text);
    assert!(result.ast.is_some());
    let ast = result.ast.unwrap();
    // 至少 2 个有效条目
    assert!(ast.entries.len() >= 2);
}

#[test]
fn test_parse_tag_def_multi_block() {
    let text = "\
使用 → 自身 → 执行 → [韬光养晦] → —\n\
[韬光养晦]定义：\n\
| A | — | 自身 | 消耗 | 1张紫卡 | — |\n\
[一槌定音]定义：\n\
| A | — | 自身 | 翻牌堆顶 | 判定牌 | — |";
    let result = parse_card_text("多标签", text);
    assert!(result.ast.is_some());
    let ast = result.ast.unwrap();
    assert_eq!(ast.tag_defs.len(), 2);
    assert_eq!(ast.duel_tags.len(), 2);
}

#[test]
fn test_parse_metadata_line_skipped() {
    let text = "\
上限3 → — → — → — → —\n\
消耗1技力 → 自身 → 造成 → 1点伤害 → —";
    let result = parse_card_text("元数据", text);
    assert!(result.ast.is_some());
    let ast = result.ast.unwrap();
    // 上限行被跳过
    assert_eq!(ast.entries.len(), 1);
}

#[test]
fn test_split_by_arrow_fewer_segments() {
    let tokens = tokenize("只有一段");
    let filtered: Vec<Token> = tokens.into_iter()
        .filter(|t| !matches!(t, Token::Newline | Token::BlankLine))
        .collect();
    let segments = split_by_arrow(&filtered);
    assert_eq!(segments.len(), 1);
}

#[test]
fn test_segment_to_text_all_tokens() {
    let tokens = tokenize("消耗1→自身→造成→目标1点伤害→备注");
    let filtered: Vec<Token> = tokens.into_iter()
        .filter(|t| !matches!(t, Token::Newline | Token::BlankLine))
        .collect();
    let segments = split_by_arrow(&filtered);
    assert_eq!(segments.len(), 5);
    let text = segment_to_text(&segments[0]);
    assert_eq!(text, "消耗1");
}
