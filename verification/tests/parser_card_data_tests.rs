//! The card collection's clock-dependent stamps and file names.
use cardmaker::parser::card_data::{backups_to_remove, import_layout, ImportLayout};
use cardmaker::parser::card_data::{backup_file_name, date_at, iso8601_at, iso8601_now, today_str};

#[test]
fn test_clock_stamps_read_the_clock() {
    // Stamps made now are past the start of 2020.
    assert!(today_str().as_str() > "2020-01-01");
    assert!(iso8601_now().as_str() > "2020-01-01T00:00:00+08:00");
    assert!(iso8601_now().ends_with("+08:00"));
}

#[test]
fn test_stamps_at_fixed_times() {
    assert_eq!(date_at(0), "1970-01-01");
    assert_eq!(iso8601_at(0), "1970-01-01T08:00:00+08:00");
    assert_eq!(backup_file_name(86399), "cards_19700102_075959.json");
}

#[test]
fn import_layouts() {
    assert_eq!(import_layout(r#"{"_export_meta":{},"cards":[]}"#), Ok(ImportLayout::CardsMember));
    assert_eq!(import_layout("[]"), Ok(ImportLayout::TopLevelArray));
    assert_eq!(
        import_layout(r#"{"items":[]}"#),
        Err("无法识别的导入格式，顶层应为数组或包含 cards 键的对象".to_string())
    );
    assert_eq!(
        import_layout("3"),
        Err("无法识别的导入格式，顶层应为数组或包含 cards 键的对象".to_string())
    );
    assert!(import_layout("{oops").err().unwrap().starts_with("JSON 解析失败: "));
}

#[test]
fn oldest_backups_are_removed() {
    let mut names: Vec<String> = (0..23).map(|i| format!("cards_202401{:02}_000000.json", 23 - i)).collect();
    names.push("cards_20230101_000000.json".to_string());
    let gone = backups_to_remove(&names);
    assert_eq!(gone.len(), 4);
    assert_eq!(gone[0], "cards_20230101_000000.json");
    assert_eq!(gone[1], "cards_20240101_000000.json");
    assert_eq!(gone[2], "cards_20240102_000000.json");
    assert_eq!(gone[3], "cards_20240103_000000.json");
    let few: Vec<String> = vec!["b".to_string(), "a".to_string()];
    assert!(backups_to_remove(&few).is_empty());
}
