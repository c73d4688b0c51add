//! Chinese messages for parse errors, validation findings and battlefield
//! log lines.
use vstd::prelude::*;
use crate::dz::ports::{IssueSeverity, ParseError, ValidationIssue};
use crate::text::{append_int, append_str, chars_of, contains_lit, dec, eq_lit, has_sub, owned};

verus! {

/// The message shown for a parse error.
pub open spec fn parse_error_text(line: usize, col: usize, msg: Seq<char>) -> Seq<char> {
    if has_sub(msg, "空文本"@) {
        "请至少输入一张卡牌的定义。"@
    } else if has_sub(msg, "缺少类型"@) {
        "第"@ + dec(line as int) + "行：卡牌定义缺少 [类型标记]。\n正确写法：`卡名 [类型, 属性]`"@
    } else if has_sub(msg, "名称"@) && has_sub(msg, "缺少"@) {
        "第"@ + dec(line as int) + "行：卡牌缺少名称，请检查声明行。"@
    } else {
        "第"@ + dec(line as int) + "行第"@ + dec(col as int) + "列："@ + msg
    }
}

fn append_usize(s: &mut String, n: usize)
    ensures
        final(s)@ == old(s)@ + dec(n as int),
{
    let v = crate::text::wide_to_chars(n as u128);
    crate::text::append_chars(s, &v);
}

/// Formats a parse error in Chinese.
pub fn format_parse_error(err: &ParseError) -> (r: String)
    ensures
        r@ == parse_error_text(err.line, err.col, err.message@),
{
    let m = chars_of(err.message.as_str());
    if contains_lit(&m, "空文本") {
        owned("请至少输入一张卡牌的定义。")
    } else if contains_lit(&m, "缺少类型") {
        let mut s = owned("第");
        append_usize(&mut s, err.line);
        append_str(&mut s, "行：卡牌定义缺少 [类型标记]。\n正确写法：`卡名 [类型, 属性]`");
        s
    } else if contains_lit(&m, "名称") && contains_lit(&m, "缺少") {
        let mut s = owned("第");
        append_usize(&mut s, err.line);
        append_str(&mut s, "行：卡牌缺少名称，请检查声明行。");
        s
    } else {
        let mut s = owned("第");
        append_usize(&mut s, err.line);
        append_str(&mut s, "行第");
        append_usize(&mut s, err.col);
        append_str(&mut s, "列：");
        append_str(&mut s, err.message.as_str());
        s
    }
}

/// What each validation rule asks for.
pub open spec fn rule_text(rule_id: u32, message: Seq<char>) -> Seq<char> {
    if rule_id == 1 {
        "效果文本缺少谓语动词"@
    } else if rule_id == 2 {
        "备注中包含了条件判断，请改用独立分支行表达"@
    } else if rule_id == 3 {
        "备注中包含了分支效果，请拆为独立条目"@
    } else if rule_id == 4 {
        "一行内出现了主语切换，请拆分为多行书写"@
    } else if rule_id == 5 {
        "缩进层级不连续，请使用2空格的整数倍缩进"@
    } else if rule_id == 6 {
        "使用了非标准的谓语动词，建议使用系统词表中的动词"@
    } else if rule_id == 7 {
        "引用了未定义的标记名"@
    } else if rule_id == 8 {
        "使用了非标准的条件词"@
    } else if rule_id == 9 {
        "卡牌定义缺少名称或类型标记"@
    } else if rule_id == 10 {
        "效果文本缺少谓语动词，可能是书写不完整"@
    } else if rule_id == 11 {
        "标记名称存在多个别名，请统一命名"@
    } else {
        "未知规则(#"@ + dec(rule_id as int) + "): "@ + message
    }
}

pub open spec fn severity_text(s: IssueSeverity) -> Seq<char> {
    match s {
        IssueSeverity::Error => "⚠️ 错误"@,
        IssueSeverity::Warning => " 警告"@,
    }
}

/// The message shown for a validation finding.
pub open spec fn issue_text(issue: ValidationIssue) -> Seq<char> {
    "【"@ + severity_text(issue.severity) + "】"@ + rule_text(issue.rule_id, issue.message@) + "\n  详情："@
        + issue.message@
}

fn rule_desc(rule_id: u32, message: &String) -> (r: String)
    ensures
        r@ == rule_text(rule_id, message@),
{
    let t = if rule_id == 1 {
        "效果文本缺少谓语动词"
    } else if rule_id == 2 {
        "备注中包含了条件判断，请改用独立分支行表达"
    } else if rule_id == 3 {
        "备注中包含了分支效果，请拆为独立条目"
    } else if rule_id == 4 {
        "一行内出现了主语切换，请拆分为多行书写"
    } else if rule_id == 5 {
        "缩进层级不连续，请使用2空格的整数倍缩进"
    } else if rule_id == 6 {
        "使用了非标准的谓语动词，建议使用系统词表中的动词"
    } else if rule_id == 7 {
        "引用了未定义的标记名"
    } else if rule_id == 8 {
        "使用了非标准的条件词"
    } else if rule_id == 9 {
        "卡牌定义缺少名称或类型标记"
    } else if rule_id == 10 {
        "效果文本缺少谓语动词，可能是书写不完整"
    } else if rule_id == 11 {
        "标记名称存在多个别名，请统一命名"
    } else {
        let mut s = owned("未知规则(#");
        append_int(&mut s, rule_id as i64);
        append_str(&mut s, "): ");
        append_str(&mut s, message.as_str());
        return s;
    };
    owned(t)
}

/// Formats a validation finding in Chinese: severity, what the rule asks,
/// then the finding itself.
pub fn format_validation_issue(issue: &ValidationIssue) -> (r: String)
    ensures
        r@ == issue_text(*issue),
{
    let desc = rule_desc(issue.rule_id, &issue.message);
    let sev = match issue.severity {
        IssueSeverity::Error => "⚠️ 错误",
        IssueSeverity::Warning => " 警告",
    };
    let mut s = owned("【");
    append_str(&mut s, sev);
    append_str(&mut s, "】");
    append_str(&mut s, desc.as_str());
    append_str(&mut s, "\n  详情：");
    append_str(&mut s, issue.message.as_str());
    s
}

/// The message shown for a battlefield log line.
pub open spec fn battlefield_text(action: Seq<char>, card_id: Seq<char>, result: Seq<char>) -> Seq<char> {
    if action == "init_game"@ {
        "对局开始："@ + result
    } else if action == "draw_card"@ {
        card_id + " 抽牌"@
    } else if action == "play_card"@ {
        card_id + " 打出"@
    } else if action == "伤害"@ {
        card_id + " "@ + result
    } else if action == "支付"@ {
        "支付："@ + result
    } else if action == "恢复"@ {
        "恢复："@ + result
    } else if action == "获得护甲"@ {
        "护甲提升："@ + result
    } else if action == "移除护甲"@ {
        "护甲移除："@ + result
    } else if action == "扣除技力"@ {
        "技力扣除："@ + result
    } else if action == "移除标记"@ {
        "标记移除："@ + result
    } else if action == "获得标记"@ {
        "标记获得："@ + result
    } else if action == "抽牌"@ {
        "抽牌："@ + result
    } else if action == "弃牌"@ {
        "弃牌："@ + result
    } else if action == "伤害免疫"@ {
        "伤害被免疫："@ + result
    } else {
        action + ": "@ + result
    }
}

/// Formats a battlefield log line in Chinese.
pub fn format_battlefield_log(action: &str, card_id: &str, result: &str) -> (r: String)
    ensures
        r@ == battlefield_text(action@, card_id@, result@),
{
    let a = chars_of(action);
    if eq_lit(&a, "init_game") {
        let mut s = owned("对局开始：");
        append_str(&mut s, result);
        s
    } else if eq_lit(&a, "draw_card") {
        let mut s = owned(card_id);
        append_str(&mut s, " 抽牌");
        s
    } else if eq_lit(&a, "play_card") {
        let mut s = owned(card_id);
        append_str(&mut s, " 打出");
        s
    } else if eq_lit(&a, "伤害") {
        let mut s = owned(card_id);
        append_str(&mut s, " ");
        append_str(&mut s, result);
        s
    } else {
        let prefix = if eq_lit(&a, "支付") {
            "支付："
        } else if eq_lit(&a, "恢复") {
            "恢复："
        } else if eq_lit(&a, "获得护甲") {
            "护甲提升："
        } else if eq_lit(&a, "移除护甲") {
            "护甲移除："
        } else if eq_lit(&a, "扣除技力") {
            "技力扣除："
        } else if eq_lit(&a, "移除标记") {
            "标记移除："
        } else if eq_lit(&a, "获得标记") {
            "标记获得："
        } else if eq_lit(&a, "抽牌") {
            "抽牌："
        } else if eq_lit(&a, "弃牌") {
            "弃牌："
        } else if eq_lit(&a, "伤害免疫") {
            "伤害被免疫："
        } else {
            let mut s = owned(action);
            append_str(&mut s, ": ");
            append_str(&mut s, result);
            return s;
        };
        let mut s = owned(prefix);
        append_str(&mut s, result);
        s
    }
}

} // verus!
