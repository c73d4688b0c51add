//! Batch runs over a distribution table: entries, file names, failure lines, tally.

use cardmaker::dz::batch::{
    batch_card, batch_entries, failure_line, progress_line, svg_file_name, BatchFailure, BatchTally,
};
use cardmaker::json::JsonValue;

const ONE_ENTRY: &str = r#"{"entries":[{"id":"JB01","name":"击敌","category":"基本牌","count":3}]}"#;

#[test]
fn batch_entries_reads_the_entries_array() {
    let es = batch_entries(ONE_ENTRY).unwrap();
    assert_eq!(es.len(), 1);
    let card = batch_card(&es[0]);
    assert_eq!(card.id, "JB01");
    assert_eq!(card.name, "击敌");
    assert_eq!(card.category, "基本牌");
}

#[test]
fn batch_entries_skips_a_leading_bom() {
    let text = format!("\u{feff}{}", ONE_ENTRY);
    let es = batch_entries(&text).unwrap();
    assert_eq!(es.len(), 1);
}

#[test]
fn batch_entries_without_array_is_refused() {
    let err = batch_entries(r#"{"cards":[]}"#).err().unwrap();
    assert_eq!(err, "配比表缺少 entries 数组");
    let err = batch_entries(r#"{"entries":{}}"#).err().unwrap();
    assert_eq!(err, "配比表缺少 entries 数组");
    let err = batch_entries("[1,2]").err().unwrap();
    assert_eq!(err, "配比表缺少 entries 数组");
}

#[test]
fn batch_entries_bad_json_reports_the_parse_error() {
    let err = batch_entries("{not json").err().unwrap();
    assert!(err.starts_with("解析配比表: "));
    assert!(err.len() > "解析配比表: ".len());
}

#[test]
fn batch_card_defaults_for_missing_fields() {
    let entry = JsonValue::Object(vec![("count".to_string(), JsonValue::Number("2".to_string()))]);
    let card = batch_card(&entry);
    assert_eq!(card.id, "unknown");
    assert_eq!(card.name, "unknown");
    assert_eq!(card.category, "");
    let card = batch_card(&JsonValue::Null);
    assert_eq!(card.id, "unknown");
    let entry = JsonValue::Object(vec![("id".to_string(), JsonValue::Number("7".to_string()))]);
    assert_eq!(batch_card(&entry).id, "unknown");
}

#[test]
fn svg_file_name_joins_id_and_name() {
    let es = batch_entries(ONE_ENTRY).unwrap();
    let card = batch_card(&es[0]);
    assert_eq!(svg_file_name(&card), "JB01_击敌.svg");
}

#[test]
fn failure_lines_per_reason() {
    assert_eq!(failure_line("XX99", &BatchFailure::NoFolder), "XX99: 目录不存在");
    assert_eq!(
        failure_line("A1", &BatchFailure::ReadFailed { detail: "denied".to_string() }),
        "A1: 读取card.dz失败: denied"
    );
    assert_eq!(
        failure_line("A1", &BatchFailure::ParseFailed { line: 12, message: "缺少效果".to_string() }),
        "A1: 解析失败 L12: 缺少效果"
    );
    assert_eq!(
        failure_line("A1", &BatchFailure::RenderFailed { detail: "x".to_string() }),
        "A1: 渲染失败: x"
    );
    assert_eq!(
        failure_line("A1", &BatchFailure::WriteFailed { detail: "disk".to_string() }),
        "A1: 写入失败: disk"
    );
}

#[test]
fn progress_line_counts_and_names() {
    let es = batch_entries(ONE_ENTRY).unwrap();
    let card = batch_card(&es[0]);
    assert_eq!(progress_line(1, 1, &card), "1/1 JB01 击敌");
    assert_eq!(progress_line(10, 205, &card), "10/205 JB01 击敌");
}

#[test]
fn tally_counts_each_card_once() {
    let mut t = BatchTally::new(3);
    t.record_success();
    t.record_failure("XX99", &BatchFailure::NoFolder);
    t.record_success();
    assert_eq!(t.total, 3);
    assert_eq!(t.generated, 2);
    assert_eq!(t.failed, vec!["XX99: 目录不存在".to_string()]);
    assert_eq!(t.generated as usize + t.failed.len(), 3);
}
