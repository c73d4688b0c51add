//! Unscaled parts of a card face, and the lines of the diagnostic log.
use cardmaker::dz::logging::{log_line, parse_error_messages, recent_lines};
use cardmaker::dz::ports::{IssueSeverity, ParseError, StaticCardId};
use cardmaker::dz::svg::{
    entries_fit, extract_quality, layer_background, push, render_entries, svg_close, svg_open, trancate_text,
};
use cardmaker::json::JsonValue;

fn s(t: &str) -> JsonValue { JsonValue::Str(t.to_string()) }
fn obj(m: Vec<(&str, JsonValue)>) -> JsonValue {
    JsonValue::Object(m.into_iter().map(|(k, v)| (k.to_string(), v)).collect())
}

#[test]
fn test_svg_frame_and_background() {
    let mut svg = String::new();
    svg_open(&mut svg, 300, 420);
    layer_background(&mut svg, 300, 420, "兵刃");
    push(&mut svg, "<g/>");
    svg_close(&mut svg);
    assert_eq!(
        svg,
        "<svg xmlns='http://www.w3.org/2000/svg' width='300' height='420' viewBox='0 0 300 420'>\n\
         <rect width=\"300\" height=\"420\" fill=\"#2e1a1a\" rx=\"10\" ry=\"10\"/>\n<g/>\n</svg>\n"
    );
}

#[test]
fn test_trancate_text_counts_chars() {
    assert_eq!(trancate_text("一二三", 3), "一二三");
    assert_eq!(trancate_text("一二三四", 3), "一二三…");
}

#[test]
fn test_extract_quality() {
    assert_eq!(extract_quality(&obj(vec![("蓝", JsonValue::Bool(true))])), Some("蓝".to_string()));
    assert_eq!(extract_quality(&obj(vec![("white", JsonValue::Bool(true))])), Some("白".to_string()));
    assert_eq!(extract_quality(&obj(vec![("quality", s("gold"))])), Some("gold".to_string()));
    assert_eq!(extract_quality(&obj(vec![("橙", JsonValue::Bool(false))])), None);
    assert_eq!(extract_quality(&JsonValue::Null), None);
}

#[test]
fn test_render_entries_lines() {
    let entries = JsonValue::Array(vec![
        obj(vec![("type", s("constant")), ("text", s("获得1点护甲")), ("remark", s("[每回合1次]"))]),
        obj(vec![
            ("type", s("branch")),
            ("condition", s("判定成功")),
            ("entries", JsonValue::Array(vec![obj(vec![("text", s("伤害翻倍"))])])),
        ]),
        obj(vec![("type", s("multi_option"))]),
    ]);
    let mut svg = String::new();
    let mut y = 100;
    assert_eq!(entries_fit(&entries, 18, y, 11, 20), Some(160));
    render_entries(&mut svg, &entries, 18, &mut y, 11, 20);
    assert_eq!(y, 160);
    assert_eq!(
        svg,
        "<text x=\"18\" y=\"100\" fill=\"#bbb\" font-size=\"11\">— 获得1点护甲[每回合1次]</text>\n\
         <text x=\"18\" y=\"120\" fill=\"#d09040\" font-size=\"11\">？ 判定成功</text>\n\
         <text x=\"34\" y=\"140\" fill=\"#bbb\" font-size=\"10\">伤害翻倍</text>\n"
    );
}

#[test]
fn test_entries_fit_refuses_overflow() {
    let branch = obj(vec![("type", s("branch"))]);
    let entries = JsonValue::Array(vec![branch]);
    assert_eq!(entries_fit(&entries, 0, 0, 0, 20), None);
    assert_eq!(entries_fit(&entries, 0, u32::MAX - 5, 11, 20), None);
    assert_eq!(entries_fit(&JsonValue::Null, 0, 7, 0, 20), Some(7));
}

#[test]
fn test_log_lines() {
    assert_eq!(log_line("2024-01-01 00:00:00.000", "INFO", "hi"), "[2024-01-01 00:00:00.000] [INFO] hi\n");
    let errors = vec![ParseError { line: 3, col: 0, message: "缺少名称".into(), severity: IssueSeverity::Error }];
    let m = parse_error_messages(&StaticCardId("GZ01".into()), &errors);
    assert_eq!(m, vec!["解析错误 [GZ01] 第3行第0列: 缺少名称".to_string()]);
    let lines: Vec<String> = vec!["a".into(), "b".into(), "c".into()];
    assert_eq!(recent_lines(&lines, 2), vec!["b".to_string(), "c".to_string()]);
    assert_eq!(recent_lines(&lines, 10).len(), 3);
    assert!(recent_lines(&lines, 0).is_empty());
}
