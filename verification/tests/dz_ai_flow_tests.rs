//! Prompts sent to a model and the decision taken on each reply.
use cardmaker::dz::ai_flow::{
    after_reply, begin_generation, build_system_prompt, suggestions_from_reply, AiStep, LocalModelAssistant,
    OpenAIAssistant, MAX_RETRIES,
};
use cardmaker::dz::ports::{AIContext, IssueSeverity, ParseError};

#[test]
fn test_endpoint_follows_model_name() {
    let d = OpenAIAssistant::new("k", "deepseek-chat");
    assert_eq!(d.endpoint, "https://api.deepseek.com/v1/chat/completions");
    let o = OpenAIAssistant::new("k", "gpt-4o");
    assert_eq!(o.endpoint, "https://api.openai.com/v1/chat/completions");
    assert_eq!(o.api_key, "k");
    assert_eq!(o.model, "gpt-4o");
    let l = LocalModelAssistant::new("http://localhost:11434", "qwen");
    assert_eq!((l.endpoint.as_str(), l.model.as_str()), ("http://localhost:11434", "qwen"));
}

#[test]
fn test_system_prompt_sections() {
    let ctx = AIContext {
        lexicon: "词条".into(),
        grammar_spec: "语法".into(),
        existing_cards_summary: vec!["儒家".into(), "道家".into()],
        distribution_rules: "规则".into(),
    };
    let p = build_system_prompt(&ctx);
    assert!(p.starts_with("你是一个 DZ 卡牌语法生成器。你必须只输出合法的 DZ 语法文本。\n\n## DZ 语法规范\n\n语法\n\n## 现有词条库\n\n词条\n\n## 现有卡池\n\n儒家\n道家\n\n## 发行规则\n\n规则\n\n## 输出要求\n"));
    assert!(p.ends_with("6. 备注约束使用 [] 括起"));
}

#[test]
fn test_fix_requests_list_errors() {
    let errors = vec![
        ParseError { line: 2, col: 0, message: "缺少名称".into(), severity: IssueSeverity::Error },
        ParseError { line: 10, col: 0, message: "未知".into(), severity: IssueSeverity::Warning },
    ];
    let r = OpenAIAssistant::fix_request("X", &errors);
    assert_eq!(r, "以下 DZ 文本有校验错误，请修正：\n\n```\nX\n```\n\n错误列表：\n第2行: 缺少名称\n第10行: 未知");
    let l = LocalModelAssistant::fix_request("X", &[]);
    assert_eq!(l, "修正以下 DZ 文本的错误：\n\n```\nX\n```\n\n错误：\n\n\n只输出修正后的 DZ。");
    let s = OpenAIAssistant::suggestion_request("消耗", 42);
    assert_eq!(s, "光标在 42 位置，文本片段：\n\n```\n消耗\n```\n\n请给出 3-5 个补全建议。");
}

#[test]
fn test_generation_accepts_parsable_reply() {
    let first = begin_generation("一张武学");
    match first {
        AiStep::Ask { user, attempt } => {
            assert_eq!(attempt, 0);
            assert_eq!(user, "请生成以下卡牌的完整 DZ 语法：\n一张武学");
        }
        _ => panic!("first step asks"),
    }
    match after_reply("测试 [武学]\n  获得1个「xyz」。", 1) {
        AiStep::Accept(card) => {
            assert_eq!(card.dz_text, "测试 [武学]\n  获得1个「xyz」。");
            assert_eq!(card.retry_count, 1);
            assert!(card.warnings.iter().any(|w| w == "「xyz」未在标记注册表中找到"));
        }
        _ => panic!("a card that parses is accepted"),
    }
}

#[test]
fn test_generation_retries_then_gives_up() {
    match after_reply("没有声明", 0) {
        AiStep::Ask { user, attempt } => {
            assert_eq!(attempt, 1);
            assert_eq!(user, "以下 DZ 文本有语法错误，请修正后重新输出：\n\n```\n没有声明\n```\n\n错误：缺少类型声明 [...]");
        }
        _ => panic!("a bad reply is sent back"),
    }
    match after_reply("没有声明", MAX_RETRIES - 1) {
        AiStep::GiveUp(m) => assert_eq!(m, "AI 在 3 次尝试后仍无法生成合法的 DZ 语法。请手动修正。"),
        _ => panic!("the last ask gives up"),
    }
}

#[test]
fn test_local_reply_checked() {
    let ok = LocalModelAssistant::accept_reply("卡 [职业]\n  抽取1张牌。").unwrap();
    assert_eq!(ok.retry_count, 0);
    let err = LocalModelAssistant::accept_reply("[职业]").unwrap_err();
    assert_eq!(err, "AI 生成的语法无效: 卡牌缺少名称");
}

#[test]
fn test_suggestions_from_reply() {
    let v = suggestions_from_reply(r#"[{"text": "消耗", "display": "消耗…", "category": "动词"}, {"text": 1}, 3]"#);
    assert_eq!(v.len(), 3);
    assert_eq!((v[0].text.as_str(), v[0].display.as_str(), v[0].category.as_str()), ("消耗", "消耗…", "动词"));
    assert_eq!(v[1].text, "");
    assert_eq!(v[2].category, "");
    assert!(suggestions_from_reply("not json").is_empty());
    assert!(suggestions_from_reply("{\"a\": 1}").is_empty());
}
