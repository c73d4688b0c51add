//! Chinese messages.
use cardmaker::dz::errors_zh::{format_battlefield_log, format_parse_error, format_validation_issue};
use cardmaker::dz::ports::{IssueSeverity, ParseError, ValidationIssue};


#[test]
fn test_empty_source_message() {
    let err = ParseError { line: 1, col: 0, message: "空文本".into(), severity: IssueSeverity::Error };
    let msg = format_parse_error(&err);
    assert!(msg.contains("至少输入一张"));
}

#[test]
fn test_missing_bracket_message() {
    let err = ParseError { line: 3, col: 0, message: "缺少类型声明 [...]".into(), severity: IssueSeverity::Error };
    let msg = format_parse_error(&err);
    assert!(msg.contains("第3行"));
    assert!(msg.contains("[类型标记]"));
}

#[test]
fn test_rule_2_warning_chinese() {
    let issue = ValidationIssue {
        rule_id: 2,
        message: "备注含条件".into(),
        severity: IssueSeverity::Error,
    };
    let msg = format_validation_issue(&issue);
    assert!(msg.contains("条件判断"));
    assert!(msg.contains("⚠️"));
}

#[test]
fn test_battlefield_damage_log() {
    let msg = format_battlefield_log("伤害", "JB01_1", "3 点伤害 (物理)");
    assert!(msg.contains("JB01_1"));
    assert!(msg.contains("3 点伤害"));
}
