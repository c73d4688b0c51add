//! Card generation with a language model, kept safe by the parser: the
//! prompts sent, and the decision taken on each reply. A reply is accepted
//! only when it parses; one that does not is sent back with the parse error,
//! at most three asks in all. Accepted text is handed to the caller, never
//! written anywhere by this module.
use vstd::prelude::*;
use crate::dz::dzcheck::{card_issues, issue_views, known_of, validate, IssueV};
use crate::dz::dzparse::{card_of, parsable, DZParser};
use crate::dz::lexer::source_lines;
use crate::dz::mark_registry::{mark_index, mark_table, BundledMarkRegistry};
use crate::dz::ports::{AIContext, AIGeneratedCard, CompletionSuggestion, ParseError, ValidationIssue};
use crate::json::{jview, json_parse, parse_json, JsonValue, JsonView};
use crate::text::{append_chars, append_str, copy_string, dec, has_sub, nat_dec, owned, wide_to_chars};

verus! {

/// How many times a model is asked for one card at most.
pub const MAX_RETRIES: u32 = 3;

/// A chat model reached over the OpenAI protocol.
pub struct OpenAIAssistant {
    pub api_key: String,
    pub model: String,
    pub endpoint: String,
}

/// A model served locally by ollama.
pub struct LocalModelAssistant {
    pub endpoint: String,
    pub model: String,
}

/// The chat endpoint a model name picks: DeepSeek's for a "deepseek" model.
pub open spec fn endpoint_for(model: Seq<char>) -> Seq<char> {
    if has_sub(model, "deepseek"@) {
        "https://api.deepseek.com/v1/chat/completions"@
    } else {
        "https://api.openai.com/v1/chat/completions"@
    }
}

impl OpenAIAssistant {
    pub fn new(api_key: &str, model: &str) -> (r: OpenAIAssistant)
        ensures
            r.api_key@ == api_key@,
            r.model@ == model@,
            r.endpoint@ == endpoint_for(model@),
    {
        let m = crate::text::chars_of(model);
        let endpoint = if crate::text::contains_lit(&m, "deepseek") {
            owned("https://api.deepseek.com/v1/chat/completions")
        } else {
            owned("https://api.openai.com/v1/chat/completions")
        };
        OpenAIAssistant { api_key: owned(api_key), model: owned(model), endpoint }
    }
}

impl LocalModelAssistant {
    pub fn new(endpoint: &str, model: &str) -> (r: LocalModelAssistant)
        ensures
            r.endpoint@ == endpoint@,
            r.model@ == model@,
    {
        LocalModelAssistant { endpoint: owned(endpoint), model: owned(model) }
    }
}

// ---------------------------------------------------------------------------
// Prompts
// ---------------------------------------------------------------------------

/// `parts` joined by `sep`.
pub open spec fn join(parts: Seq<Seq<char>>, sep: Seq<char>) -> Seq<char>
    decreases parts.len(),
{
    if parts.len() == 0 {
        Seq::empty()
    } else if parts.len() == 1 {
        parts[0]
    } else {
        join(parts.drop_last(), sep) + sep + parts.last()
    }
}

fn join_exec(parts: &Vec<String>, sep: &str) -> (r: String)
    ensures
        r@ == join(parts@.map_values(|p: String| p@), sep@),
{
    let ghost pv = parts@.map_values(|p: String| p@);
    let mut out = String::new();
    let mut i: usize = 0;
    assert(out@ =~= join(pv.subrange(0, 0), sep@));
    while i < parts.len()
        invariant
            i <= parts@.len(),
            pv == parts@.map_values(|p: String| p@),
            out@ == join(pv.subrange(0, i as int), sep@),
        decreases parts@.len() - i,
    {
        let ghost before = out@;
        assert(pv.subrange(0, i + 1).drop_last() =~= pv.subrange(0, i as int));
        if i > 0 {
            append_str(&mut out, sep);
        }
        append_str(&mut out, parts[i].as_str());
        proof {
            if i == 0 {
                assert(out@ =~= pv.subrange(0, 1)[0]);
            } else {
                assert(out@ =~= before + sep@ + pv[i as int]);
            }
        }
        i = i + 1;
    }
    assert(pv.subrange(0, parts@.len() as int) =~= pv);
    out
}

/// The system prompt: the grammar, the lexicon, the card pool and the
/// distribution rules, then what the output must look like.
pub open spec fn system_prompt(grammar: Seq<char>, lexicon: Seq<char>, pool: Seq<Seq<char>>, rules: Seq<char>) -> Seq<char> {
    "你是一个 DZ 卡牌语法生成器。你必须只输出合法的 DZ 语法文本。\n\n## DZ 语法规范\n\n"@ + grammar
        + "\n\n## 现有词条库\n\n"@ + lexicon + "\n\n## 现有卡池\n\n"@ + join(pool, "\n"@) + "\n\n## 发行规则\n\n"@
        + rules
        + "\n\n## 输出要求\n1. 只输出 DZ 语法文本，用 ``` 代码块包裹\n2. 不要添加任何解释、注释、问候语\n3. 卡牌名称必须来自现有卡池或明确的新名称\n4. 效果描述必须使用词条库中的表达方式\n5. 标记引用使用「」括起\n6. 备注约束使用 [] 括起"@
}

pub fn build_system_prompt(ctx: &AIContext) -> (r: String)
    ensures
        r@ == system_prompt(
            ctx.grammar_spec@,
            ctx.lexicon@,
            ctx.existing_cards_summary@.map_values(|p: String| p@),
            ctx.distribution_rules@,
        ),
{
    let mut s = owned("你是一个 DZ 卡牌语法生成器。你必须只输出合法的 DZ 语法文本。\n\n## DZ 语法规范\n\n");
    append_str(&mut s, ctx.grammar_spec.as_str());
    append_str(&mut s, "\n\n## 现有词条库\n\n");
    append_str(&mut s, ctx.lexicon.as_str());
    append_str(&mut s, "\n\n## 现有卡池\n\n");
    let pool = join_exec(&ctx.existing_cards_summary, "\n");
    append_str(&mut s, pool.as_str());
    append_str(&mut s, "\n\n## 发行规则\n\n");
    append_str(&mut s, ctx.distribution_rules.as_str());
    append_str(
        &mut s,
        "\n\n## 输出要求\n1. 只输出 DZ 语法文本，用 ``` 代码块包裹\n2. 不要添加任何解释、注释、问候语\n3. 卡牌名称必须来自现有卡池或明确的新名称\n4. 效果描述必须使用词条库中的表达方式\n5. 标记引用使用「」括起\n6. 备注约束使用 [] 括起",
    );
    s
}

/// The request for a new card.
pub fn generation_prompt(prompt: &str) -> (r: String)
    ensures
        r@ == "请生成以下卡牌的完整 DZ 语法：\n"@ + prompt@,
{
    let mut s = owned("请生成以下卡牌的完整 DZ 语法：\n");
    append_str(&mut s, prompt);
    s
}

/// The request sent back with a reply that did not parse.
pub open spec fn fix_prompt(reply: Seq<char>, error: Seq<char>) -> Seq<char> {
    "以下 DZ 文本有语法错误，请修正后重新输出：\n\n```\n"@ + reply + "\n```\n\n错误："@ + error
}

/// `第<line>行: <message>` for each error.
pub open spec fn error_lines(errors: Seq<ParseError>) -> Seq<Seq<char>> {
    errors.map_values(|e: ParseError| "第"@ + dec(e.line as int) + "行: "@ + e.message@)
}

fn error_lines_exec(errors: &[ParseError]) -> (r: Vec<String>)
    ensures
        r@.map_values(|p: String| p@) == error_lines(errors@),
{
    let mut out: Vec<String> = Vec::new();
    let mut i: usize = 0;
    while i < errors.len()
        invariant
            i <= errors@.len(),
            out@.map_values(|p: String| p@) == error_lines(errors@.subrange(0, i as int)),
        decreases errors@.len() - i,
    {
        let ghost before = out@.map_values(|p: String| p@);
        let mut line = owned("第");
        let digits = wide_to_chars(errors[i].line as u128);
        append_chars(&mut line, &digits);
        append_str(&mut line, "行: ");
        append_str(&mut line, errors[i].message.as_str());
        proof {
            assert(dec(errors@[i as int].line as int) == nat_dec(errors@[i as int].line as nat));
            assert(line@ == "第"@ + dec(errors@[i as int].line as int) + "行: "@ + errors@[i as int].message@);
        }
        let ghost lv = line@;
        let ghost prev = out@;
        out.push(line);
        assert(out@.map_values(|p: String| p@) =~= prev.map_values(|p: String| p@).push(lv));
        assert(error_lines(errors@.subrange(0, i + 1)) =~= error_lines(errors@.subrange(0, i as int)).push(lv));
        i = i + 1;
    }
    assert(errors@.subrange(0, errors@.len() as int) =~= errors@);
    out
}

impl OpenAIAssistant {
    /// The request to fix a text against a list of errors.
    pub fn fix_request(dz_text: &str, errors: &[ParseError]) -> (r: String)
        ensures
            r@ == "以下 DZ 文本有校验错误，请修正：\n\n```\n"@ + dz_text@ + "\n```\n\n错误列表：\n"@ + join(
                error_lines(errors@),
                "\n"@,
            ),
    {
        let lines = error_lines_exec(errors);
        let joined = join_exec(&lines, "\n");
        let mut s = owned("以下 DZ 文本有校验错误，请修正：\n\n```\n");
        append_str(&mut s, dz_text);
        append_str(&mut s, "\n```\n\n错误列表：\n");
        append_str(&mut s, joined.as_str());
        s
    }

    /// The request for completions at a cursor.
    pub fn suggestion_request(partial_dz: &str, cursor_position: usize) -> (r: String)
        ensures
            r@ == "光标在 "@ + dec(cursor_position as int) + " 位置，文本片段：\n\n```\n"@ + partial_dz@
                + "\n```\n\n请给出 3-5 个补全建议。"@,
    {
        let mut s = owned("光标在 ");
        let digits = wide_to_chars(cursor_position as u128);
        append_chars(&mut s, &digits);
        append_str(&mut s, " 位置，文本片段：\n\n```\n");
        append_str(&mut s, partial_dz);
        append_str(&mut s, "\n```\n\n请给出 3-5 个补全建议。");
        s
    }
}

impl LocalModelAssistant {
    /// The prompt for a new card.
    pub fn generation_prompt(prompt: &str) -> (r: String)
        ensures
            r@ == "你是一个 DZ 卡牌语法生成器。请根据以下描述生成完整的 DZ 语法卡牌：\n\n"@ + prompt@
                + "\n\n只输出 DZ 文本，不要解释。"@,
    {
        let mut s = owned("你是一个 DZ 卡牌语法生成器。请根据以下描述生成完整的 DZ 语法卡牌：\n\n");
        append_str(&mut s, prompt);
        append_str(&mut s, "\n\n只输出 DZ 文本，不要解释。");
        s
    }

    /// The prompt to fix a text against a list of errors.
    pub fn fix_request(dz_text: &str, errors: &[ParseError]) -> (r: String)
        ensures
            r@ == "修正以下 DZ 文本的错误：\n\n```\n"@ + dz_text@ + "\n```\n\n错误：\n"@ + join(
                error_lines(errors@),
                "\n"@,
            ) + "\n\n只输出修正后的 DZ。"@,
    {
        let lines = error_lines_exec(errors);
        let joined = join_exec(&lines, "\n");
        let mut s = owned("修正以下 DZ 文本的错误：\n\n```\n");
        append_str(&mut s, dz_text);
        append_str(&mut s, "\n```\n\n错误：\n");
        append_str(&mut s, joined.as_str());
        append_str(&mut s, "\n\n只输出修正后的 DZ。");
        s
    }
}

// ---------------------------------------------------------------------------
// Replies
// ---------------------------------------------------------------------------

/// Whether the built-in registry holds a mark.
pub open spec fn bundled_known() -> spec_fn(Seq<char>) -> bool {
    |s: Seq<char>| mark_index(mark_table(), s) < mark_table().len()
}

/// The warnings of a tree: the messages of its findings.
pub open spec fn warning_texts(tree: JsonView) -> Seq<Seq<char>> {
    card_issues(tree, bundled_known()).map_values(|i: IssueV| i.message)
}

/// A card accepted from `reply`, or the parse error's line and message.
pub open spec fn accepted(reply: Seq<char>) -> Result<JsonView, (nat, Seq<char>)> {
    card_of(source_lines(reply))
}

/// What a generated card holds: the reply, the warnings of its tree, and
/// how many asks came before it.
pub open spec fn card_holds(c: AIGeneratedCard, reply: Seq<char>, tree: JsonView, attempt: u32) -> bool {
    &&& c.dz_text@ == reply
    &&& c.warnings@.map_values(|w: String| w@) == warning_texts(tree)
    &&& c.retry_count == attempt
}

/// Parses a reply and checks its tree: the card, or the parse error.
fn check_reply(reply: &str, attempt: u32) -> (r: Result<AIGeneratedCard, ParseError>)
    requires
        parsable(reply@),
    ensures
        match accepted(reply@) {
            Ok(tree) => r matches Ok(c) && card_holds(c, reply@, tree, attempt),
            Err((line, msg)) => r matches Err(e) && e.line == line && e.message@ == msg,
        },
{
    let parser = DZParser::new();
    match parser.parse(reply) {
        Ok(ast) => {
            let reg = BundledMarkRegistry::new();
            let issues = validate(&ast, &reg);
            proof {
                assert(known_of(reg) =~= bundled_known());
            }
            let mut warnings: Vec<String> = Vec::new();
            let mut i: usize = 0;
            while i < issues.len()
                invariant
                    i <= issues@.len(),
                    issue_views(issues@) == card_issues(jview(ast), bundled_known()),
                    warnings@.map_values(|w: String| w@) == issue_views(issues@).subrange(0, i as int).map_values(
                        |x: IssueV| x.message,
                    ),
                decreases issues@.len() - i,
            {
                let ghost before = warnings@;
                let w = copy_string(&issues[i].message);
                assert(w@ == issue_views(issues@)[i as int].message);
                let ghost wv = w@;
                warnings.push(w);
                assert(warnings@.map_values(|w: String| w@) =~= before.map_values(|w: String| w@).push(wv));
                assert(issue_views(issues@).subrange(0, i + 1).map_values(|x: IssueV| x.message) =~= issue_views(
                    issues@,
                ).subrange(0, i as int).map_values(|x: IssueV| x.message).push(wv));
                assert(warnings@.map_values(|w: String| w@) =~= issue_views(issues@).subrange(0, i + 1).map_values(
                    |x: IssueV| x.message,
                ));
                i = i + 1;
            }
            assert(issue_views(issues@).subrange(0, issues@.len() as int) =~= issue_views(issues@));
            Ok(AIGeneratedCard { dz_text: owned(reply), warnings, retry_count: attempt })
        },
        Err(e) => Err(e),
    }
}

/// The next step of a generation.
pub enum AiStep {
    /// Ask the model with this request; `attempt` asks came before.
    Ask { user: String, attempt: u32 },
    /// A reply parsed: hand it to the caller.
    Accept(AIGeneratedCard),
    /// Every ask failed.
    GiveUp(String),
}

/// The first step of a generation: ask with the card request.
pub fn begin_generation(prompt: &str) -> (r: AiStep)
    ensures
        r matches AiStep::Ask { user, attempt } && attempt == 0 && user@ == "请生成以下卡牌的完整 DZ 语法：\n"@
            + prompt@,
{
    AiStep::Ask { user: generation_prompt(prompt), attempt: 0 }
}

/// The step after the model answered the ask numbered `attempt` with `reply`:
/// accept a reply that parses; otherwise ask again with the parse error, or
/// give up when the asks are used up.
pub fn after_reply(reply: &str, attempt: u32) -> (r: AiStep)
    requires
        attempt < MAX_RETRIES,
        parsable(reply@),
    ensures
        match accepted(reply@) {
            Ok(tree) => r matches AiStep::Accept(c) && card_holds(c, reply@, tree, attempt),
            Err((_line, msg)) => if attempt + 1 >= MAX_RETRIES {
                r matches AiStep::GiveUp(m) && m@ == "AI 在 3 次尝试后仍无法生成合法的 DZ 语法。请手动修正。"@
            } else {
                r matches AiStep::Ask { user, attempt: next } && next == attempt + 1 && user@ == fix_prompt(reply@, msg)
            },
        },
{
    match check_reply(reply, attempt) {
        Ok(c) => AiStep::Accept(c),
        Err(e) => {
            if attempt + 1 >= MAX_RETRIES {
                AiStep::GiveUp(owned("AI 在 3 次尝试后仍无法生成合法的 DZ 语法。请手动修正。"))
            } else {
                let mut user = owned("以下 DZ 文本有语法错误，请修正后重新输出：\n\n```\n");
                append_str(&mut user, reply);
                append_str(&mut user, "\n```\n\n错误：");
                append_str(&mut user, e.message.as_str());
                AiStep::Ask { user, attempt: attempt + 1 }
            }
        },
    }
}

impl LocalModelAssistant {
    /// What a local model's reply gives: the card, or why it is refused.
    pub fn accept_reply(reply: &str) -> (r: Result<AIGeneratedCard, String>)
        requires
            parsable(reply@),
        ensures
            match accepted(reply@) {
                Ok(tree) => r matches Ok(c) && card_holds(c, reply@, tree, 0),
                Err((_line, msg)) => r matches Err(m) && m@ == "AI 生成的语法无效: "@ + msg,
            },
    {
        match check_reply(reply, 0) {
            Ok(c) => Ok(c),
            Err(e) => {
                let mut m = owned("AI 生成的语法无效: ");
                append_str(&mut m, e.message.as_str());
                Err(m)
            },
        }
    }
}

// ---------------------------------------------------------------------------
// Completions
// ---------------------------------------------------------------------------

/// A text member of a suggestion, "" when missing.
pub open spec fn text_member(j: JsonView, k: Seq<char>) -> Seq<char> {
    match crate::dz::dzcheck::jget(j, k) {
        JsonView::Str(s) => s,
        _ => Seq::empty(),
    }
}

/// The suggestions a reply lists: each item of a JSON array, none otherwise.
pub open spec fn suggestions_of(reply: Seq<char>) -> Seq<(Seq<char>, Seq<char>, Seq<char>)> {
    match json_parse(reply) {
        Ok(doc) => match jview(doc) {
            JsonView::Array(items) => items.map_values(
                |j: JsonView| (text_member(j, "text"@), text_member(j, "display"@), text_member(j, "category"@)),
            ),
            _ => Seq::empty(),
        },
        Err(_) => Seq::empty(),
    }
}

pub open spec fn suggestion_view(c: CompletionSuggestion) -> (Seq<char>, Seq<char>, Seq<char>) {
    (c.text@, c.display@, c.category@)
}

fn text_member_exec(j: &JsonValue, k: &str) -> (r: String)
    ensures
        r@ == text_member(jview(*j), k@),
{
    match crate::dz::dzcheck::member_of(j, k) {
        Some(JsonValue::Str(s)) => copy_string(s),
        _ => String::new(),
    }
}

/// The completions a model's reply lists.
pub fn suggestions_from_reply(reply: &str) -> (r: Vec<CompletionSuggestion>)
    ensures
        r@.map_values(|c: CompletionSuggestion| suggestion_view(c)) == suggestions_of(reply@),
{
    let mut out: Vec<CompletionSuggestion> = Vec::new();
    match parse_json(reply) {
        Ok(doc) => match &doc {
            JsonValue::Array(items) => {
                proof {
                    crate::dz::dzparse::lemma_array_view(*items);
                }
                let ghost iv = crate::dz::dzparse::item_views(items@);
                let ghost want = iv.map_values(
                    |j: JsonView| (text_member(j, "text"@), text_member(j, "display"@), text_member(j, "category"@)),
                );
                let mut i: usize = 0;
                while i < items.len()
                    invariant
                        i <= items@.len(),
                        iv == crate::dz::dzparse::item_views(items@),
                        want.len() == iv.len(),
                        forall|q: int| 0 <= q < iv.len() ==> #[trigger] want[q] == (
                            text_member(iv[q], "text"@),
                            text_member(iv[q], "display"@),
                            text_member(iv[q], "category"@),
                        ),
                        out@.map_values(|c: CompletionSuggestion| suggestion_view(c)) == want.subrange(0, i as int),
                    decreases items@.len() - i,
                {
                    let c = CompletionSuggestion {
                        text: text_member_exec(&items[i], "text"),
                        display: text_member_exec(&items[i], "display"),
                        category: text_member_exec(&items[i], "category"),
                    };
                    let ghost before = out@;
                    assert(iv[i as int] == jview(items@[i as int]));
                    assert(suggestion_view(c) == want[i as int]);
                    let ghost cv = suggestion_view(c);
                    out.push(c);
                    assert(out@.map_values(|c: CompletionSuggestion| suggestion_view(c)) =~= before.map_values(
                        |c: CompletionSuggestion| suggestion_view(c),
                    ).push(cv));
                    assert(want.subrange(0, i + 1) =~= want.subrange(0, i as int).push(cv));
                    assert(out@.map_values(|c: CompletionSuggestion| suggestion_view(c)) =~= want.subrange(
                        0,
                        i + 1,
                    ));
                    i = i + 1;
                }
                assert(want.subrange(0, items@.len() as int) =~= want);
            },
            _ => {
                assert(out@.map_values(|c: CompletionSuggestion| suggestion_view(c)) =~= Seq::<
                    (Seq<char>, Seq<char>, Seq<char>),
                >::empty());
            },
        },
        Err(_) => {
            assert(out@.map_values(|c: CompletionSuggestion| suggestion_view(c)) =~= Seq::<
                (Seq<char>, Seq<char>, Seq<char>),
            >::empty());
        },
    }
    out
}

} // verus!
