//! Checks of a parsed DZ card tree: the declaration names the card and its
//! category (rule 9), every 「mark」 in any text is registered (rule 7),
//! and each effect line keeps to the grammar: a predicate where a subject
//! is given (rule 10), remarks without conditions (rule 2) or effects
//! (rule 3), one subject per line (rule 4), and a known verb (rule 6).
use vstd::prelude::*;
use crate::dz::dzparse::{DZParser, item_views, lemma_array_view, lemma_object_view, marks_exec, marks_from, member_views};
use crate::dz::ports::{IssueSeverity, MarkId, MarkRegistryPort, ValidationIssue};
use crate::json::{jview, JsonValue, JsonView};
use crate::text::{append_str, chars_of, contains_lit, has_prefix, has_sub, owned, starts_with_lit, string_of, utf8_len};

verus! {

/// A finding as plain values.
pub struct IssueV {
    pub rule: u32,
    pub message: Seq<char>,
    pub severity: IssueSeverity,
}

pub open spec fn issue_view(i: ValidationIssue) -> IssueV {
    IssueV { rule: i.rule_id, message: i.message@, severity: i.severity }
}

pub open spec fn issue_views(v: Seq<ValidationIssue>) -> Seq<IssueV> {
    v.map_values(|i: ValidationIssue| issue_view(i))
}

/// Index of the first member named `k` from `i` on (the length when none is).
pub open spec fn member_index(m: Seq<(Seq<char>, JsonView)>, k: Seq<char>, i: int) -> int
    decreases m.len() - i,
{
    if i < 0 || i >= m.len() {
        m.len() as int
    } else if m[i].0 == k {
        i
    } else {
        member_index(m, k, i + 1)
    }
}

/// `value[k]`: the member `k` of an object, null otherwise.
pub open spec fn jget(j: JsonView, k: Seq<char>) -> JsonView {
    match j {
        JsonView::Object(m) => {
            let p = member_index(m, k, 0);
            if 0 <= p < m.len() {
                m[p].1
            } else {
                JsonView::Null
            }
        },
        _ => JsonView::Null,
    }
}

/// How many of `words` occur in `t`.
pub open spec fn count_in(t: Seq<char>, words: Seq<Seq<char>>) -> nat
    decreases words.len(),
{
    if words.len() == 0 {
        0
    } else {
        count_in(t, words.drop_last()) + if has_sub(t, words.last()) { 1nat } else { 0nat }
    }
}

pub open spec fn verbs() -> Seq<Seq<char>> {
    seq!["消耗"@, "获得"@, "恢复"@, "造成"@, "移除"@, "弃置"@, "抽取"@, "免疫"@, "转换"@, "翻牌"@]
}

pub open spec fn subject_markers() -> Seq<Seq<char>> {
    seq!["对目标"@, "对1单位"@, "伤害来源"@, "攻击者"@]
}

pub open spec fn known_verbs() -> Seq<Seq<char>> {
    seq![
        "消耗"@, "获得"@, "恢复"@, "造成"@, "移除"@, "弃置"@, "抽取"@, "免疫"@, "转换"@,
        "翻牌"@, "增加"@, "减少"@, "积累"@, "视为"@, "清空"@, "附加"@, "翻倍"@, "加倍"@,
        "触发"@, "返回"@, "选择"@, "观看"@, "指定"@, "发动"@, "释放"@, "遗留"@,
    ]
}

pub open spec fn issue(rule: u32, message: Seq<char>, severity: IssueSeverity) -> IssueV {
    IssueV { rule, message, severity }
}

/// Findings for the registered-mark check of an entry's mark references.
pub open spec fn ref_issues(a: Seq<JsonView>, known: spec_fn(Seq<char>) -> bool, i: int) -> Seq<IssueV>
    decreases a.len() - i,
{
    if i < 0 || i >= a.len() {
        Seq::empty()
    } else {
        let here = match a[i] {
            JsonView::Str(s) => if known(s) {
                Seq::empty()
            } else {
                seq![issue(7, s + " 未在任何标记定义中找到"@, IssueSeverity::Warning)]
            },
            _ => Seq::empty(),
        };
        here + ref_issues(a, known, i + 1)
    }
}

/// `"<t>"`.
pub open spec fn quoted(t: Seq<char>) -> Seq<char> {
    "\""@ + t + "\""@
}

/// Rule 7 on an entry: each unregistered mark reference.
pub open spec fn rule7_issues(e: JsonView, known: spec_fn(Seq<char>) -> bool) -> Seq<IssueV> {
    match jget(e, "mark_refs"@) {
        JsonView::Array(a) => ref_issues(a, known, 0),
        _ => Seq::empty(),
    }
}

/// Rule 10 on an entry: a subject with no predicate verb.
pub open spec fn rule10_issues(e: JsonView) -> Seq<IssueV> {
    match jget(e, "text"@) {
        JsonView::Str(t) => if jget(e, "subject"@) is Str && count_in(t, verbs()) == 0 && t.len() > 0 && utf8_len(t) > 3 {
            seq![issue(10, "主语已指定但效果文本可能缺少谓语动词: "@ + quoted(t), IssueSeverity::Warning)]
        } else {
            Seq::empty()
        },
        _ => Seq::empty(),
    }
}

/// Rule 2 on an entry: a remark that states a condition.
pub open spec fn rule2_issues(e: JsonView) -> Seq<IssueV> {
    match jget(e, "remark"@) {
        JsonView::Str(rm) => if has_sub(rm, "若"@) || has_sub(rm, "如果"@) || has_sub(rm, "条件"@) {
            seq![issue(2, "备注仅限四类内容，条件判断请使用分支: "@ + rm, IssueSeverity::Error)]
        } else {
            Seq::empty()
        },
        _ => Seq::empty(),
    }
}

/// Rule 3 on an entry: a remark that states an effect.
pub open spec fn rule3_issues(e: JsonView) -> Seq<IssueV> {
    match jget(e, "remark"@) {
        JsonView::Str(rm) => if has_sub(rm, "造成"@) || (has_sub(rm, "获得"@) && has_sub(rm, "伤害"@)) {
            seq![issue(3, "备注仅限四类内容，分支效果请拆为独立条目: "@ + rm, IssueSeverity::Error)]
        } else {
            Seq::empty()
        },
        _ => Seq::empty(),
    }
}

/// Rule 4 on an entry: more than one subject marker in a line.
pub open spec fn rule4_issues(e: JsonView) -> Seq<IssueV> {
    match jget(e, "text"@) {
        JsonView::Str(t) => if count_in(t, subject_markers()) > 1 {
            seq![issue(4, "一行内可能有主语切换，请拆行: "@ + quoted(t), IssueSeverity::Error)]
        } else {
            Seq::empty()
        },
        _ => Seq::empty(),
    }
}

/// Rule 6 on an entry: a long text with no known verb.
pub open spec fn rule6_issues(e: JsonView) -> Seq<IssueV> {
    match jget(e, "text"@) {
        JsonView::Str(t) => if count_in(t, known_verbs()) == 0 && utf8_len(t) > 5 && !has_prefix(t, "核心技能"@) {
            seq![issue(6, "效果文本可能缺少标准谓语动词: "@ + quoted(t), IssueSeverity::Warning)]
        } else {
            Seq::empty()
        },
        _ => Seq::empty(),
    }
}

/// Findings for one effect entry, rule by rule.
pub open spec fn entry_issues(e: JsonView, known: spec_fn(Seq<char>) -> bool) -> Seq<IssueV> {
    rule7_issues(e, known) + rule10_issues(e) + rule2_issues(e) + rule3_issues(e) + rule4_issues(e)
        + rule6_issues(e)
}

/// Findings for entries `i..` of a list.
pub open spec fn entries_issues(a: Seq<JsonView>, known: spec_fn(Seq<char>) -> bool, i: int) -> Seq<IssueV>
    decreases a.len() - i,
{
    if i < 0 || i >= a.len() {
        Seq::empty()
    } else {
        entry_issues(a[i], known) + entries_issues(a, known, i + 1)
    }
}

/// Whether an entry is a block of its own, checked again as one.
pub open spec fn is_nested_block(e: JsonView) -> bool {
    let t = jget(e, "type"@);
    t == JsonView::Str("trigger_block"@) || t == JsonView::Str("core_skill"@) || t == JsonView::Str("branch"@)
        || t == JsonView::Str("default_block"@)
}

/// Findings for a block.
pub open spec fn block_issues(b: JsonView, known: spec_fn(Seq<char>) -> bool) -> Seq<IssueV>
    decreases b, 0int,
{
    match b {
        JsonView::Object(m) => {
            let p = member_index(m, "entries"@, 0);
            let q = member_index(m, "options"@, 0);
            let opts = if 0 <= q < m.len() {
                match m[q].1 {
                    JsonView::Array(o) => entries_issues(o, known, 0),
                    _ => Seq::empty(),
                }
            } else {
                Seq::empty()
            };
            if 0 <= p < m.len() && m[p].1 is Array {
                let e = m[p].1->Array_0;
                proof {
                    assert(decreases_to!(b => m));
                    assert(decreases_to!(m => m[p]));
                    assert(decreases_to!(m[p] => m[p].1));
                    assert(decreases_to!(m[p].1 => e));
                }
                entries_issues(e, known, 0) + nested_issues(e, known, 0) + opts
            } else {
                entry_issues(b, known) + opts
            }
        },
        _ => Seq::empty(),
    }
}

/// Findings for the nested blocks among entries `i..`.
pub open spec fn nested_issues(e: Seq<JsonView>, known: spec_fn(Seq<char>) -> bool, i: int) -> Seq<IssueV>
    decreases e, e.len() - i,
{
    if i < 0 || i >= e.len() {
        Seq::empty()
    } else {
        let here = if is_nested_block(e[i]) {
            proof {
                assert(decreases_to!(e => e[i]));
            }
            block_issues(e[i], known)
        } else {
            Seq::empty()
        };
        here + nested_issues(e, known, i + 1)
    }
}

/// Every text of a tree, in document order.
pub open spec fn texts_of(j: JsonView) -> Seq<Seq<char>>
    decreases j, 0int,
{
    match j {
        JsonView::Str(s) => seq![s],
        JsonView::Array(a) => {
            proof {
                assert(decreases_to!(j => a));
            }
            texts_items(a, 0)
        },
        JsonView::Object(m) => {
            proof {
                assert(decreases_to!(j => m));
            }
            texts_members(m, 0)
        },
        _ => Seq::empty(),
    }
}

pub open spec fn texts_items(a: Seq<JsonView>, i: int) -> Seq<Seq<char>>
    decreases a, a.len() - i,
{
    if i < 0 || i >= a.len() {
        Seq::empty()
    } else {
        proof {
            assert(decreases_to!(a => a[i]));
        }
        texts_of(a[i]) + texts_items(a, i + 1)
    }
}

pub open spec fn texts_members(m: Seq<(Seq<char>, JsonView)>, i: int) -> Seq<Seq<char>>
    decreases m, m.len() - i,
{
    if i < 0 || i >= m.len() {
        Seq::empty()
    } else {
        proof {
            assert(decreases_to!(m => m[i]));
            assert(decreases_to!(m[i] => m[i].1));
        }
        texts_of(m[i].1) + texts_members(m, i + 1)
    }
}

/// Findings for the unregistered marks of one text.
pub open spec fn text_mark_issues(names: Seq<Seq<char>>, known: spec_fn(Seq<char>) -> bool) -> Seq<IssueV>
    decreases names.len(),
{
    if names.len() == 0 {
        Seq::empty()
    } else {
        let rest = text_mark_issues(names.drop_last(), known);
        let n = names.last();
        if known(n) {
            rest
        } else {
            rest.push(issue(7, "「"@ + n + "」未在标记注册表中找到"@, IssueSeverity::Warning))
        }
    }
}

/// Findings for the marks of every text.
pub open spec fn all_mark_issues(texts: Seq<Seq<char>>, known: spec_fn(Seq<char>) -> bool) -> Seq<IssueV>
    decreases texts.len(),
{
    if texts.len() == 0 {
        Seq::empty()
    } else {
        all_mark_issues(texts.drop_last(), known) + text_mark_issues(marks_from(texts.last(), 0), known)
    }
}

/// Findings for the card's name and category.
pub open spec fn header_issues(ast: JsonView) -> Seq<IssueV> {
    let name_missing = match jget(ast, "name"@) {
        JsonView::Str(s) => s.len() == 0,
        _ => true,
    };
    let cat_missing = match jget(ast, "category"@) {
        JsonView::Str(s) => s.len() == 0,
        _ => true,
    };
    (if name_missing {
        seq![issue(9, "卡牌定义缺少名称"@, IssueSeverity::Error)]
    } else {
        Seq::empty()
    }) + (if cat_missing {
        seq![issue(9, "卡牌定义缺少类型标记 [category]"@, IssueSeverity::Error)]
    } else {
        Seq::empty()
    })
}

/// Findings for effect blocks `i..`.
pub open spec fn blocks_issues(es: Seq<JsonView>, known: spec_fn(Seq<char>) -> bool, i: int) -> Seq<IssueV>
    decreases es.len() - i,
{
    if i < 0 || i >= es.len() {
        Seq::empty()
    } else {
        block_issues(es[i], known) + blocks_issues(es, known, i + 1)
    }
}

/// Every finding for a card tree, in the order the checks run.
pub open spec fn card_issues(ast: JsonView, known: spec_fn(Seq<char>) -> bool) -> Seq<IssueV> {
    header_issues(ast) + all_mark_issues(texts_of(ast), known) + match jget(ast, "effects"@) {
        JsonView::Array(es) => blocks_issues(es, known, 0),
        _ => Seq::empty(),
    }
}


/// The registry's membership test as a spec closure.
pub open spec fn known_of<R: MarkRegistryPort>(reg: R) -> spec_fn(Seq<char>) -> bool {
    |s: Seq<char>| reg.known(s)
}

// ---------------------------------------------------------------------------
// Facts about the definitions
// ---------------------------------------------------------------------------

pub proof fn lemma_all_mark_issues_add(a: Seq<Seq<char>>, b: Seq<Seq<char>>, known: spec_fn(Seq<char>) -> bool)
    ensures
        all_mark_issues(a + b, known) == all_mark_issues(a, known) + all_mark_issues(b, known),
    decreases b.len(),
{
    if b.len() == 0 {
        assert(a + b =~= a);
        assert(all_mark_issues(a, known) + all_mark_issues(b, known) =~= all_mark_issues(a, known));
    } else {
        assert((a + b).drop_last() =~= a + b.drop_last());
        assert((a + b).last() == b.last());
        lemma_all_mark_issues_add(a, b.drop_last(), known);
        let t = text_mark_issues(marks_from(b.last(), 0), known);
        assert(all_mark_issues(a, known) + all_mark_issues(b.drop_last(), known) + t
            =~= all_mark_issues(a, known) + (all_mark_issues(b.drop_last(), known) + t));
    }
}

proof fn lemma_views_push(v: Seq<ValidationIssue>, x: ValidationIssue)
    ensures
        issue_views(v.push(x)) == issue_views(v).push(issue_view(x)),
{
    assert(issue_views(v.push(x)) =~= issue_views(v).push(issue_view(x)));
}

// ---------------------------------------------------------------------------
// Reading the tree
// ---------------------------------------------------------------------------

/// Position of the first member named `k`.
pub(crate) fn member_pos(kv: &Vec<(String, JsonValue)>, k: &str) -> (r: usize)
    ensures
        r as int == member_index(member_views(kv@), k@, 0),
        r <= kv@.len(),
{
    let ghost m = member_views(kv@);
    let kc = chars_of(k);
    let mut i: usize = 0;
    while i < kv.len()
        invariant
            i <= kv@.len(),
            m == member_views(kv@),
            kc@ == k@,
            member_index(m, k@, i as int) == member_index(m, k@, 0),
        decreases kv@.len() - i,
    {
        let name = chars_of(kv[i].0.as_str());
        if crate::text::seq_eq(&name, &kc) {
            return i;
        }
        i = i + 1;
    }
    i
}

/// `value[k]` when it is not null's stand-in.
pub(crate) fn member_of<'a>(j: &'a JsonValue, k: &str) -> (r: Option<&'a JsonValue>)
    ensures
        match r {
            Some(v) => jget(jview(*j), k@) == jview(*v),
            None => jget(jview(*j), k@) == JsonView::Null,
        },
{
    match j {
        JsonValue::Object(kv) => {
            proof {
                lemma_object_view(*kv);
            }
            let p = member_pos(kv, k);
            if p < kv.len() {
                Some(&kv[p].1)
            } else {
                None
            }
        },
        _ => None,
    }
}

/// The text of a string value.
fn text_of(j: Option<&JsonValue>) -> (r: Option<Vec<char>>)
    ensures
        match r {
            Some(t) => j matches Some(v) && jview(*v) == JsonView::Str(t@),
            None => !(j matches Some(v) && jview(*v) is Str),
        },
{
    match j {
        Some(JsonValue::Str(s)) => Some(chars_of(s.as_str())),
        _ => None,
    }
}

/// How many of the words of `list` occur in `t`.
fn count_words(t: &Vec<char>, list: &[&str]) -> (r: usize)
    ensures
        r == count_in(t@, Seq::new(list@.len(), |q: int| list@[q]@)),
{
    let ghost ws = Seq::new(list@.len(), |q: int| list@[q]@);
    let mut acc: usize = 0;
    let mut k: usize = 0;
    assert(ws.subrange(0, 0) =~= Seq::<Seq<char>>::empty());
    while k < list.len()
        invariant
            k <= list@.len(),
            ws == Seq::new(list@.len(), |q: int| list@[q]@),
            acc == count_in(t@, ws.subrange(0, k as int)),
            acc <= k,
        decreases list@.len() - k,
    {
        assert(ws.subrange(0, k + 1).drop_last() =~= ws.subrange(0, k as int));
        assert(ws.subrange(0, k + 1).last() == list@[k as int]@);
        if contains_lit(t, list[k]) {
            acc = acc + 1;
        }
        k = k + 1;
    }
    assert(ws.subrange(0, list@.len() as int) =~= ws);
    acc
}

fn make_issue(rule: u32, message: String, severity: IssueSeverity) -> (r: ValidationIssue)
    ensures
        issue_view(r) == issue(rule, message@, severity),
{
    ValidationIssue { rule_id: rule, message, severity }
}

fn push_issue(out: &mut Vec<ValidationIssue>, x: ValidationIssue)
    ensures
        issue_views(final(out)@) == issue_views(old(out)@).push(issue_view(x)),
{
    proof {
        lemma_views_push(out@, x);
    }
    out.push(x);
}

// ---------------------------------------------------------------------------
// Registered marks in every text
// ---------------------------------------------------------------------------

fn text_marks_exec<R: MarkRegistryPort>(s: &String, reg: &R, out: &mut Vec<ValidationIssue>)
    ensures
        issue_views(final(out)@) == issue_views(old(out)@) + text_mark_issues(marks_from(s@, 0), known_of(*reg)),
{
    let ghost out0 = issue_views(out@);
    let chars = chars_of(s.as_str());
    let names = marks_exec(&chars);
    let ghost nv = crate::text::views(names@);
    let mut k: usize = 0;
    assert(nv.subrange(0, 0) =~= Seq::<Seq<char>>::empty());
    assert(out0 + Seq::<IssueV>::empty() =~= out0);
    while k < names.len()
        invariant
            k <= names@.len(),
            nv == crate::text::views(names@),
            nv == marks_from(s@, 0),
            issue_views(out@) == out0 + text_mark_issues(nv.subrange(0, k as int), known_of(*reg)),
        decreases names@.len() - k,
    {
        let ghost before = issue_views(out@);
        assert(nv.subrange(0, k + 1).drop_last() =~= nv.subrange(0, k as int));
        assert(nv.subrange(0, k + 1).last() == names@[k as int]@);
        let id = MarkId(string_of(&names[k]));
        if !reg.is_valid(&id) {
            let mut m = owned("「");
            crate::text::append_chars(&mut m, &names[k]);
            append_str(&mut m, "」未在标记注册表中找到");
            push_issue(out, make_issue(7, m, IssueSeverity::Warning));
            assert(issue_views(out@) =~= out0 + text_mark_issues(nv.subrange(0, k + 1), known_of(*reg)));
        }
        k = k + 1;
    }
    assert(nv.subrange(0, names@.len() as int) =~= nv);
}

proof fn lemma_items_step(before: Seq<IssueV>, iv: Seq<JsonView>, i: int, known: spec_fn(Seq<char>) -> bool)
    requires
        0 <= i < iv.len(),
    ensures
        before + all_mark_issues(texts_of(iv[i]), known) + all_mark_issues(texts_items(iv, i + 1), known)
            == before + all_mark_issues(texts_items(iv, i), known),
{
    assert(texts_items(iv, i) == texts_of(iv[i]) + texts_items(iv, i + 1));
    lemma_all_mark_issues_add(texts_of(iv[i]), texts_items(iv, i + 1), known);
    let x = all_mark_issues(texts_of(iv[i]), known);
    let y = all_mark_issues(texts_items(iv, i + 1), known);
    assert(before + (x + y) =~= (before + x) + y);
}

proof fn lemma_members_step(
    before: Seq<IssueV>,
    mv: Seq<(Seq<char>, JsonView)>,
    i: int,
    known: spec_fn(Seq<char>) -> bool,
)
    requires
        0 <= i < mv.len(),
    ensures
        before + all_mark_issues(texts_of(mv[i].1), known) + all_mark_issues(texts_members(mv, i + 1), known)
            == before + all_mark_issues(texts_members(mv, i), known),
{
    assert(texts_members(mv, i) == texts_of(mv[i].1) + texts_members(mv, i + 1));
    lemma_all_mark_issues_add(texts_of(mv[i].1), texts_members(mv, i + 1), known);
    let x = all_mark_issues(texts_of(mv[i].1), known);
    let y = all_mark_issues(texts_members(mv, i + 1), known);
    assert(before + (x + y) =~= (before + x) + y);
}

fn marks_walk<R: MarkRegistryPort>(j: &JsonValue, reg: &R, out: &mut Vec<ValidationIssue>)
    ensures
        issue_views(final(out)@) == issue_views(old(out)@) + all_mark_issues(texts_of(jview(*j)), known_of(*reg)),
    decreases j,
{
    let ghost out0 = issue_views(out@);
    let ghost known = known_of(*reg);
    match j {
        JsonValue::Str(s) => {
            text_marks_exec(s, reg, out);
            proof {
                let t = seq![s@];
                assert(t.drop_last() =~= Seq::<Seq<char>>::empty());
                assert(t.last() == s@);
                assert(all_mark_issues(t.drop_last(), known) == Seq::<IssueV>::empty());
                assert(all_mark_issues(t, known) =~= text_mark_issues(marks_from(s@, 0), known));
            }
        },
        JsonValue::Array(v) => {
            proof {
                lemma_array_view(*v);
            }
            let ghost iv = item_views(v@);
            let mut i: usize = 0;
            while i < v.len()
                invariant
                    i <= v@.len(),
                    *j == JsonValue::Array(*v),
                    iv == item_views(v@),
                    known == known_of(*reg),
                    texts_of(jview(*j)) == texts_items(iv, 0),
                    issue_views(out@) + all_mark_issues(texts_items(iv, i as int), known)
                        == out0 + all_mark_issues(texts_items(iv, 0), known),
                decreases v@.len() - i,
            {
                let ghost before = issue_views(out@);
                proof {
                    assert(decreases_to!(*j => *v));
                    assert(decreases_to!(*v => v@));
                    assert(decreases_to!(v@ => v@[i as int]));
                }
                marks_walk(&v[i], reg, out);
                proof {
                    lemma_items_step(before, iv, i as int, known);
                }
                i = i + 1;
            }
            proof {
                assert(texts_items(iv, i as int) =~= Seq::<Seq<char>>::empty());
                assert(issue_views(out@) + Seq::<IssueV>::empty() =~= issue_views(out@));
            }
        },
        JsonValue::Object(kv) => {
            proof {
                lemma_object_view(*kv);
            }
            let ghost mv = member_views(kv@);
            let mut i: usize = 0;
            while i < kv.len()
                invariant
                    i <= kv@.len(),
                    *j == JsonValue::Object(*kv),
                    mv == member_views(kv@),
                    known == known_of(*reg),
                    texts_of(jview(*j)) == texts_members(mv, 0),
                    issue_views(out@) + all_mark_issues(texts_members(mv, i as int), known)
                        == out0 + all_mark_issues(texts_members(mv, 0), known),
                decreases kv@.len() - i,
            {
                let ghost before = issue_views(out@);
                proof {
                    assert(decreases_to!(*j => *kv));
                    assert(decreases_to!(*kv => kv@));
                    assert(decreases_to!(kv@ => kv@[i as int]));
                    assert(decreases_to!(kv@[i as int] => kv@[i as int].1));
                }
                marks_walk(&kv[i].1, reg, out);
                proof {
                    lemma_members_step(before, mv, i as int, known);
                }
                i = i + 1;
            }
            proof {
                assert(texts_members(mv, i as int) =~= Seq::<Seq<char>>::empty());
                assert(issue_views(out@) + Seq::<IssueV>::empty() =~= issue_views(out@));
            }
        },
        _ => {
            proof {
                assert(texts_of(jview(*j)) =~= Seq::<Seq<char>>::empty());
                assert(out0 + Seq::<IssueV>::empty() =~= out0);
            }
        },
    }
}


// ---------------------------------------------------------------------------
// Effect entries and blocks
// ---------------------------------------------------------------------------

fn refs_exec<R: MarkRegistryPort>(a: &Vec<JsonValue>, reg: &R, out: &mut Vec<ValidationIssue>)
    ensures
        issue_views(final(out)@) == issue_views(old(out)@) + ref_issues(item_views(a@), known_of(*reg), 0),
{
    let ghost out0 = issue_views(out@);
    let ghost known = known_of(*reg);
    let ghost iv = item_views(a@);
    let mut i: usize = 0;
    assert(out0 + ref_issues(iv, known, 0) =~= out0 + ref_issues(iv, known, 0));
    while i < a.len()
        invariant
            i <= a@.len(),
            iv == item_views(a@),
            known == known_of(*reg),
            issue_views(out@) + ref_issues(iv, known, i as int) == out0 + ref_issues(iv, known, 0),
        decreases a@.len() - i,
    {
        let ghost before = issue_views(out@);
        let ghost here = match iv[i as int] {
            JsonView::Str(x) => if known(x) {
                Seq::<IssueV>::empty()
            } else {
                seq![issue(7, x + " 未在任何标记定义中找到"@, IssueSeverity::Warning)]
            },
            _ => Seq::<IssueV>::empty(),
        };
        assert(ref_issues(iv, known, i as int) == here + ref_issues(iv, known, i + 1));
        match &a[i] {
            JsonValue::Str(x) => {
                let id = MarkId(crate::text::copy_string(x));
                if !reg.is_valid(&id) {
                    let mut m = crate::text::copy_string(x);
                    append_str(&mut m, " 未在任何标记定义中找到");
                    push_issue(out, make_issue(7, m, IssueSeverity::Warning));
                }
            },
            _ => {},
        }
        assert(issue_views(out@) =~= before + here);
        assert(before + (here + ref_issues(iv, known, i + 1)) =~= before + here + ref_issues(iv, known, i + 1));
        i = i + 1;
    }
    assert(ref_issues(iv, known, i as int) =~= Seq::<IssueV>::empty());
    assert(issue_views(out@) + Seq::<IssueV>::empty() =~= issue_views(out@));
}

fn rule7_exec<R: MarkRegistryPort>(e: &JsonValue, reg: &R, out: &mut Vec<ValidationIssue>)
    ensures
        issue_views(final(out)@) == issue_views(old(out)@) + rule7_issues(jview(*e), known_of(*reg)),
{
    match member_of(e, "mark_refs") {
        Some(JsonValue::Array(a)) => {
            proof {
                lemma_array_view(*a);
            }
            refs_exec(a, reg, out);
        },
        _ => {
            assert(issue_views(out@) + Seq::<IssueV>::empty() =~= issue_views(out@));
        },
    }
}

/// Emits `lit "t"` when `cond`, with rule and severity given.
fn push_quoted(out: &mut Vec<ValidationIssue>, rule: u32, lit: &str, t: &Vec<char>, sev: IssueSeverity)
    ensures
        issue_views(final(out)@) == issue_views(old(out)@).push(issue(rule, lit@ + quoted(t@), sev)),
{
    let mut m = owned(lit);
    append_str(&mut m, "\"");
    crate::text::append_chars(&mut m, t);
    append_str(&mut m, "\"");
    assert(m@ =~= lit@ + quoted(t@));
    push_issue(out, make_issue(rule, m, sev));
}

/// Emits `lit t`.
fn push_plain(out: &mut Vec<ValidationIssue>, rule: u32, lit: &str, t: &Vec<char>, sev: IssueSeverity)
    ensures
        issue_views(final(out)@) == issue_views(old(out)@).push(issue(rule, lit@ + t@, sev)),
{
    let mut m = owned(lit);
    crate::text::append_chars(&mut m, t);
    push_issue(out, make_issue(rule, m, sev));
}

fn rule10_exec(e: &JsonValue, out: &mut Vec<ValidationIssue>)
    ensures
        issue_views(final(out)@) == issue_views(old(out)@) + rule10_issues(jview(*e)),
{
    let ghost out0 = issue_views(out@);
    let text = text_of(member_of(e, "text"));
    let has_subject = match member_of(e, "subject") {
        Some(JsonValue::Str(_)) => true,
        _ => false,
    };
    let verb_list: [&str; 10] = ["消耗", "获得", "恢复", "造成", "移除", "弃置", "抽取", "免疫", "转换", "翻牌"];
    assert(Seq::new(verb_list@.len(), |q: int| verb_list@[q]@) =~= verbs());
    if let Some(t) = &text {
        let vc = count_words(t, &verb_list);
        if has_subject && vc == 0 && t.len() > 0 && crate::parser::card_text::utf8_len_exec(t, 4) {
            push_quoted(out, 10, "主语已指定但效果文本可能缺少谓语动词: ", t, IssueSeverity::Warning);
        }
    }
    assert(issue_views(out@) =~= out0 + rule10_issues(jview(*e)));
}

fn rule2_exec(e: &JsonValue, out: &mut Vec<ValidationIssue>)
    ensures
        issue_views(final(out)@) == issue_views(old(out)@) + rule2_issues(jview(*e)),
{
    let ghost out0 = issue_views(out@);
    if let Some(rm) = &text_of(member_of(e, "remark")) {
        if contains_lit(rm, "若") || contains_lit(rm, "如果") || contains_lit(rm, "条件") {
            push_plain(out, 2, "备注仅限四类内容，条件判断请使用分支: ", rm, IssueSeverity::Error);
        }
    }
    assert(issue_views(out@) =~= out0 + rule2_issues(jview(*e)));
}

fn rule3_exec(e: &JsonValue, out: &mut Vec<ValidationIssue>)
    ensures
        issue_views(final(out)@) == issue_views(old(out)@) + rule3_issues(jview(*e)),
{
    let ghost out0 = issue_views(out@);
    if let Some(rm) = &text_of(member_of(e, "remark")) {
        if contains_lit(rm, "造成") || (contains_lit(rm, "获得") && contains_lit(rm, "伤害")) {
            push_plain(out, 3, "备注仅限四类内容，分支效果请拆为独立条目: ", rm, IssueSeverity::Error);
        }
    }
    assert(issue_views(out@) =~= out0 + rule3_issues(jview(*e)));
}

fn rule4_exec(e: &JsonValue, out: &mut Vec<ValidationIssue>)
    ensures
        issue_views(final(out)@) == issue_views(old(out)@) + rule4_issues(jview(*e)),
{
    let ghost out0 = issue_views(out@);
    let marker_list: [&str; 4] = ["对目标", "对1单位", "伤害来源", "攻击者"];
    assert(Seq::new(marker_list@.len(), |q: int| marker_list@[q]@) =~= subject_markers());
    if let Some(t) = &text_of(member_of(e, "text")) {
        if count_words(t, &marker_list) > 1 {
            push_quoted(out, 4, "一行内可能有主语切换，请拆行: ", t, IssueSeverity::Error);
        }
    }
    assert(issue_views(out@) =~= out0 + rule4_issues(jview(*e)));
}

fn rule6_exec(e: &JsonValue, out: &mut Vec<ValidationIssue>)
    ensures
        issue_views(final(out)@) == issue_views(old(out)@) + rule6_issues(jview(*e)),
{
    let ghost out0 = issue_views(out@);
    let known_list: [&str; 26] = [
        "消耗", "获得", "恢复", "造成", "移除", "弃置", "抽取", "免疫", "转换",
        "翻牌", "增加", "减少", "积累", "视为", "清空", "附加", "翻倍", "加倍",
        "触发", "返回", "选择", "观看", "指定", "发动", "释放", "遗留",
    ];
    assert(Seq::new(known_list@.len(), |q: int| known_list@[q]@) =~= known_verbs());
    if let Some(t) = &text_of(member_of(e, "text")) {
        if count_words(t, &known_list) == 0 && crate::parser::card_text::utf8_len_exec(t, 6)
            && !starts_with_lit(t, "核心技能") {
            push_quoted(out, 6, "效果文本可能缺少标准谓语动词: ", t, IssueSeverity::Warning);
        }
    }
    assert(issue_views(out@) =~= out0 + rule6_issues(jview(*e)));
}

fn entry_exec<R: MarkRegistryPort>(e: &JsonValue, reg: &R, out: &mut Vec<ValidationIssue>)
    ensures
        issue_views(final(out)@) == issue_views(old(out)@) + entry_issues(jview(*e), known_of(*reg)),
{
    let ghost out0 = issue_views(out@);
    let ghost ev = jview(*e);
    rule7_exec(e, reg, out);
    rule10_exec(e, out);
    rule2_exec(e, out);
    rule3_exec(e, out);
    rule4_exec(e, out);
    rule6_exec(e, out);
    assert(issue_views(out@) =~= out0 + entry_issues(ev, known_of(*reg)));
}

fn entries_exec<R: MarkRegistryPort>(es: &Vec<JsonValue>, reg: &R, out: &mut Vec<ValidationIssue>)
    ensures
        issue_views(final(out)@) == issue_views(old(out)@) + entries_issues(item_views(es@), known_of(*reg), 0),
{
    let ghost out0 = issue_views(out@);
    let ghost known = known_of(*reg);
    let ghost iv = item_views(es@);
    let mut i: usize = 0;
    while i < es.len()
        invariant
            i <= es@.len(),
            iv == item_views(es@),
            known == known_of(*reg),
            issue_views(out@) + entries_issues(iv, known, i as int) == out0 + entries_issues(iv, known, 0),
        decreases es@.len() - i,
    {
        let ghost before = issue_views(out@);
        entry_exec(&es[i], reg, out);
        proof {
            let x = entry_issues(iv[i as int], known);
            let y = entries_issues(iv, known, i + 1);
            assert(entries_issues(iv, known, i as int) == x + y);
            assert(before + (x + y) =~= before + x + y);
        }
        i = i + 1;
    }
    assert(issue_views(out@) + Seq::<IssueV>::empty() =~= issue_views(out@));
}

fn is_nested_exec(x: &JsonValue) -> (r: bool)
    ensures
        r == is_nested_block(jview(*x)),
{
    match text_of(member_of(x, "type")) {
        Some(t) => {
            crate::text::eq_lit(&t, "trigger_block") || crate::text::eq_lit(&t, "core_skill")
                || crate::text::eq_lit(&t, "branch") || crate::text::eq_lit(&t, "default_block")
        },
        None => false,
    }
}

fn block_exec<R: MarkRegistryPort>(b: &JsonValue, reg: &R, out: &mut Vec<ValidationIssue>)
    ensures
        issue_views(final(out)@) == issue_views(old(out)@) + block_issues(jview(*b), known_of(*reg)),
    decreases b,
{
    let ghost out0 = issue_views(out@);
    let ghost known = known_of(*reg);
    match b {
        JsonValue::Object(kv) => {
            proof {
                lemma_object_view(*kv);
            }
            let ghost m = member_views(kv@);
            let p = member_pos(kv, "entries");
            let q = member_pos(kv, "options");
            let mut listed = false;
            if p < kv.len() {
                match &kv[p].1 {
                    JsonValue::Array(es) => {
                        proof {
                            lemma_array_view(*es);
                        }
                        let ghost iv = item_views(es@);
                        entries_exec(es, reg, out);
                        let ghost out1 = issue_views(out@);
                        let mut i: usize = 0;
                        while i < es.len()
                            invariant
                                i <= es@.len(),
                                *b == JsonValue::Object(*kv),
                                p < kv@.len(),
                                kv@[p as int].1 == JsonValue::Array(*es),
                                iv == item_views(es@),
                                known == known_of(*reg),
                                issue_views(out@) + nested_issues(iv, known, i as int) == out1 + nested_issues(
                                    iv,
                                    known,
                                    0,
                                ),
                            decreases es@.len() - i,
                        {
                            let ghost before = issue_views(out@);
                            if is_nested_exec(&es[i]) {
                                proof {
                                    assert(decreases_to!(*b => (*b)->Object_0));
                                    assert((*b)->Object_0 == *kv);
                                    assert(decreases_to!(*kv => kv@));
                                    assert(decreases_to!(kv@ => kv@[p as int]));
                                    assert(decreases_to!(kv@[p as int] => kv@[p as int].1));
                                    assert(decreases_to!(kv@[p as int].1 => kv@[p as int].1->Array_0));
                                    assert(kv@[p as int].1->Array_0 == *es);
                                    assert(decreases_to!(*es => es@));
                                    assert(decreases_to!(es@ => es@[i as int]));
                                }
                                block_exec(&es[i], reg, out);
                            }
                            proof {
                                let x = if is_nested_block(iv[i as int]) {
                                    block_issues(iv[i as int], known)
                                } else {
                                    Seq::<IssueV>::empty()
                                };
                                let y = nested_issues(iv, known, i + 1);
                                assert(nested_issues(iv, known, i as int) == x + y);
                                assert(issue_views(out@) =~= before + x);
                                assert(before + (x + y) =~= before + x + y);
                            }
                            i = i + 1;
                        }
                        assert(issue_views(out@) + Seq::<IssueV>::empty() =~= issue_views(out@));
                        listed = true;
                    },
                    _ => {},
                }
            }
            let ghost out2 = issue_views(out@);
            if !listed {
                entry_exec(b, reg, out);
            }
            let ghost out3 = issue_views(out@);
            let mut opened = false;
            if q < kv.len() {
                match &kv[q].1 {
                    JsonValue::Array(os) => {
                        proof {
                            lemma_array_view(*os);
                        }
                        entries_exec(os, reg, out);
                        opened = true;
                    },
                    _ => {},
                }
            }
            proof {
                let opts = if 0 <= q < m.len() {
                    match m[q as int].1 {
                        JsonView::Array(o) => entries_issues(o, known, 0),
                        _ => Seq::<IssueV>::empty(),
                    }
                } else {
                    Seq::<IssueV>::empty()
                };
                assert(issue_views(out@) =~= out3 + opts);
                if 0 <= p < m.len() && m[p as int].1 is Array {
                    let e = m[p as int].1->Array_0;
                    assert(out2 =~= out0 + entries_issues(e, known, 0) + nested_issues(e, known, 0));
                    assert(issue_views(out@) =~= out0 + (entries_issues(e, known, 0) + nested_issues(e, known, 0) + opts));
                } else {
                    assert(issue_views(out@) =~= out0 + (entry_issues(jview(*b), known) + opts));
                }
            }
        },
        _ => {
            assert(out0 + Seq::<IssueV>::empty() =~= out0);
        },
    }
}

fn header_exec(ast: &JsonValue, out: &mut Vec<ValidationIssue>)
    ensures
        issue_views(final(out)@) == issue_views(old(out)@) + header_issues(jview(*ast)),
{
    let ghost out0 = issue_views(out@);
    let name_missing = match text_of(member_of(ast, "name")) {
        Some(t) => t.len() == 0,
        None => true,
    };
    if name_missing {
        push_issue(out, make_issue(9, owned("卡牌定义缺少名称"), IssueSeverity::Error));
    }
    let cat_missing = match text_of(member_of(ast, "category")) {
        Some(t) => t.len() == 0,
        None => true,
    };
    if cat_missing {
        push_issue(out, make_issue(9, owned("卡牌定义缺少类型标记 [category]"), IssueSeverity::Error));
    }
    assert(issue_views(out@) =~= out0 + header_issues(jview(*ast)));
}

/// Checks a card tree against the registry: the declaration first, then
/// every mark named in any text, then the entries of each effect block.
pub fn validate<R: MarkRegistryPort>(ast: &JsonValue, reg: &R) -> (r: Vec<ValidationIssue>)
    ensures
        issue_views(r@) == card_issues(jview(*ast), known_of(*reg)),
{
    let ghost known = known_of(*reg);
    let mut out: Vec<ValidationIssue> = Vec::new();
    assert(issue_views(out@) =~= Seq::<IssueV>::empty());
    header_exec(ast, &mut out);
    marks_walk(ast, reg, &mut out);
    let ghost out1 = issue_views(out@);
    match member_of(ast, "effects") {
        Some(JsonValue::Array(es)) => {
            proof {
                lemma_array_view(*es);
            }
            let ghost iv = item_views(es@);
            let mut i: usize = 0;
            while i < es.len()
                invariant
                    i <= es@.len(),
                    iv == item_views(es@),
                    known == known_of(*reg),
                    issue_views(out@) + blocks_issues(iv, known, i as int) == out1 + blocks_issues(iv, known, 0),
                decreases es@.len() - i,
            {
                let ghost before = issue_views(out@);
                block_exec(&es[i], reg, &mut out);
                proof {
                    let x = block_issues(iv[i as int], known);
                    let y = blocks_issues(iv, known, i + 1);
                    assert(blocks_issues(iv, known, i as int) == x + y);
                    assert(before + (x + y) =~= before + x + y);
                }
                i = i + 1;
            }
            assert(issue_views(out@) + Seq::<IssueV>::empty() =~= issue_views(out@));
        },
        _ => {
            assert(out1 + Seq::<IssueV>::empty() =~= out1);
        },
    }
    assert(issue_views(out@) =~= card_issues(jview(*ast), known));
    out
}

impl DZParser {
    /// Checks a parsed card tree against a mark registry.
    pub fn validate<R: MarkRegistryPort>(&self, ast: &JsonValue, reg: &R) -> (r: Vec<ValidationIssue>)
        ensures
            issue_views(r@) == card_issues(jview(*ast), known_of(*reg)),
    {
        validate(ast, reg)
    }
}

/// Parses a DZ text and checks the tree: the tree with its findings, or
/// the parse error's message after "解析失败: ".
pub fn parse_dz_text<R: MarkRegistryPort>(parser: &DZParser, source: &str, mark_registry: &R) -> (r: Result<
    (JsonValue, Vec<ValidationIssue>),
    String,
>)
    requires
        crate::dz::dzparse::parsable(source@),
    ensures
        match crate::dz::dzparse::card_of(crate::dz::lexer::source_lines(source@)) {
            Ok(j) => r matches Ok(x) && jview(x.0) == j && issue_views(x.1@) == card_issues(j, known_of(*mark_registry)),
            Err((_line, msg)) => r matches Err(e) && e@ == "解析失败: "@ + msg,
        },
{
    match parser.parse(source) {
        Ok(ast) => {
            let issues = parser.validate(&ast, mark_registry);
            Ok((ast, issues))
        },
        Err(e) => {
            let mut m = owned("解析失败: ");
            append_str(&mut m, e.message.as_str());
            Err(m)
        },
    }
}

} // verus!
