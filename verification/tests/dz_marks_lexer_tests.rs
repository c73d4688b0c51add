//! The built-in mark registry and the line reader of card sources.
use cardmaker::dz::lexer;
use cardmaker::dz::mark_registry::BundledMarkRegistry;
use cardmaker::dz::ports::{MarkId, MarkRegistryPort};

fn r() -> BundledMarkRegistry { BundledMarkRegistry::new() }

#[test] fn mr1() { assert_eq!(r().list_all().len(), 9); }
#[test] fn mr2() {
    let names: Vec<String> = r().list_all().into_iter().map(|m| m.0).collect();
    for e in &["仁心", "自然", "法令", "坚守", "谋略", "零件", "蓄力", "材料", "噬魂"] {
        assert!(names.contains(&e.to_string()));
    }
}
#[test] fn mr3() { assert!(!r().is_valid(&MarkId("xyz".into()))); }
#[test] fn mr4() { assert!(!r().is_valid(&MarkId("".into()))); }
#[test] fn mr5() { for m in r().list_all() { assert!(r().get_type(&m).is_some()); } }
#[test] fn mr8() { assert!(r().get_type(&MarkId("无".into())).is_none()); }

#[test]
fn test_lexer_handles_chinese_characters() {
    let source = "儒家 [阵营]\n  对目标造成3点伤害";
    let (lines, errors) = lexer::tokenize(source);
    assert!(errors.is_empty(), "中文词法分析应无错误: {:?}", errors);
    assert!(!lines.is_empty(), "应产生行");

    let has_card_name = lines.iter().any(|line| line.text.contains("儒家"));
    assert!(has_card_name, "应包含中文卡牌名称 '儒家'");
}

#[test]
fn test_lexer_handles_chinese_in_effects() {
    let source = "测试卡 [基本]\n  对目标造成3点伤害\n  攻击者获得2点生命";
    let (lines, errors) = lexer::tokenize(source);
    assert!(errors.is_empty(), "中文效果词法分析应无错误");
    assert!(!lines.is_empty(), "应产生行");

    let has_effect_text = lines.iter().any(|line| line.text.contains("造成"));
    assert!(has_effect_text, "应包含效果文本");
}

#[test]
fn test_lexer_handles_chinese_mark_refs() {
    let source = "测试卡 [基本]\n  消耗「仁心」造成伤害";
    let (lines, errors) = lexer::tokenize(source);
    assert!(errors.is_empty(), "中文标记引用的词法分析应无错误");

    let has_mark_ref = lines.iter().any(|line| line.text.contains("仁心"));
    assert!(has_mark_ref, "应包含对「仁心」标记的引用");
}

#[test]
fn test_validator_known_marks_verbose() {
    let mark_registry = BundledMarkRegistry::new();
    let expected = ["仁心", "自然", "法令", "坚守", "谋略", "零件", "蓄力", "材料", "噬魂"];
    let listed = mark_registry.list_all();
    assert_eq!(listed.len(), 9, "Expected 9 marks, got {}", listed.len());
    for mark_id in &listed {
        assert!(expected.contains(&mark_id.0.as_str()), "Unexpected mark: {}", mark_id.0);
        assert!(mark_registry.get_type(mark_id).is_some(), "Mark {} has no type", mark_id.0);
    }
}
