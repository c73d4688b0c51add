//! The DZ card language: a declaration line `name [category, attributes]`
//! followed by indented effect lines. Blocks are core skills, option lists
//! (a line ending in "："), trigger blocks (a line ending in "时，" or "时。")
//! or plain runs of entries; entries are branches ("？"), options ("·"),
//! constant effects ("—"), nested option lists and triggers, or simple
//! lines. Each simple line keeps its trailing "[remark]", its 「mark」
//! references and its leading subject. The tree is a JSON document whose
//! objects keep their members sorted by key.
use vstd::prelude::*;
use crate::dz::dztext::{
    digit_split, digit_split_exec, drop_first_char, drop_first_char_exec, ends_with_char, index_from, index_from_exec,
    last_index, last_index_exec, lemma_index_from, lemma_last_index, remove_all, remove_all_exec, starts_with_char,
    trim_end_char, trim_end_char_exec,
};
use crate::dz::lexer::{line_view, source_lines, Line};
use crate::json::{jview, JsonValue, JsonView};
use crate::text::{
    append_int, chars_of, contains_char, dec, ends_with_lit, has_prefix, has_suffix, matches_at, nat_dec, owned,
    parse_i64, parse_i64_chars, slice_vec, split_char, split_chars, starts_with_lit, string_of, trim, trim_vec,
    views, wide_to_chars,
};

verus! {

/// A source line: (indent, text, line number).
pub type LineV = (nat, Seq<char>, nat);

pub open spec fn jstr(s: Seq<char>) -> JsonView {
    JsonView::Str(s)
}

pub open spec fn jopt(s: Option<Seq<char>>) -> JsonView {
    match s {
        Some(t) => JsonView::Str(t),
        None => JsonView::Null,
    }
}

// ---------------------------------------------------------------------------
// Simple lines
// ---------------------------------------------------------------------------

/// The subjects a line may open with, longest forms first.
pub open spec fn subjects() -> Seq<Seq<char>> {
    seq!["对目标"@, "对1单位"@, "对伤害来源"@, "对攻击者"@, "攻击者"@, "伤害来源"@, "目标"@, "其他玩家"@, "其他单位"@]
}

/// The first subject from the `k`th on that `main` starts with, and what follows it.
pub open spec fn subject_from(main: Seq<char>, k: int) -> (Option<Seq<char>>, Seq<char>)
    decreases subjects().len() - k,
{
    if k < 0 || k >= subjects().len() {
        (None, main)
    } else if has_prefix(main, subjects()[k]) {
        (Some(subjects()[k]), trim(main.subrange(subjects()[k].len() as int, main.len() as int)))
    } else {
        subject_from(main, k + 1)
    }
}

/// Mark names between 「 and 」 from index `i` on.
pub open spec fn marks_from(s: Seq<char>, i: int) -> Seq<Seq<char>>
    decreases s.len() - i,
{
    if i < 0 || i >= s.len() {
        Seq::empty()
    } else if s[i] == '「' {
        let j = index_from(s, '」', i + 1);
        if j >= s.len() || j < i + 1 {
            if i + 1 < j {
                seq![s.subrange(i + 1, j)]
            } else {
                Seq::empty()
            }
        } else {
            let rest = marks_from(s, j + 1);
            if i + 1 < j {
                seq![s.subrange(i + 1, j)] + rest
            } else {
                rest
            }
        }
    } else {
        marks_from(s, i + 1)
    }
}

/// A simple line split into its main text and its trailing remark.
pub open spec fn split_remark(clean: Seq<char>) -> (Seq<char>, Option<Seq<char>>) {
    let lb = last_index(clean, '[', clean.len() as int);
    let rb = last_index(clean, ']', clean.len() as int);
    if lb >= 0 && lb < rb {
        (trim(clean.subrange(0, lb)), Some(clean.subrange(lb, clean.len() as int)))
    } else {
        (clean, None)
    }
}

/// The JSON of a simple line of kind `kind` ("simple" or "constant").
pub open spec fn line_json(text: Seq<char>, line_no: nat, kind: Seq<char>) -> JsonView {
    let clean = trim_end_char(trim(text), '。');
    let (main, remark) = split_remark(clean);
    let marks = marks_from(main, 0);
    let (subject, rest) = subject_from(main, 0);
    JsonView::Object(
        seq![
            ("line"@, JsonView::Number(dec(line_no as int))),
            ("mark_refs"@, JsonView::Array(Seq::new(marks.len(), |i: int| jstr("「"@ + marks[i] + "」"@)))),
            ("remark"@, jopt(remark)),
            ("subject"@, jopt(subject)),
            ("text"@, jstr(rest)),
            ("type"@, jstr(kind)),
        ],
    )
}

/// Whether a line opens a trigger block on its own.
pub open spec fn is_trigger(t: Seq<char>) -> bool {
    has_suffix(trim(t), "时，"@) || has_suffix(trim(t), "时。"@)
}

/// Whether a line heads an option list.
pub open spec fn is_option_head(t: Seq<char>) -> bool {
    &&& t.len() > 0 && t.last() == '：'
    &&& !t.contains('[')
    &&& !(t.len() > 0 && (t[0] == '？' || t[0] == '·' || t[0] == '—'))
}

/// The options of a list: lines deeper than `bi` that start with "·".
pub open spec fn options_from(lines: Seq<LineV>, pos: int, bi: int) -> (Seq<JsonView>, int)
    decreases lines.len() - pos,
{
    if pos < 0 || pos >= lines.len() || lines[pos].0 <= bi || !(lines[pos].1.len() > 0 && lines[pos].1[0] == '·') {
        (Seq::empty(), pos)
    } else {
        let l = lines[pos];
        let e = line_json(trim(drop_first_char(l.1, '·')), l.2, "simple"@);
        let rest = options_from(lines, pos + 1, bi);
        (seq![e] + rest.0, rest.1)
    }
}

pub open spec fn option_list(name: Seq<char>, options: Seq<JsonView>) -> JsonView {
    JsonView::Object(
        seq![
            ("block_name"@, jstr(name)),
            ("options"@, JsonView::Array(options)),
            ("type"@, jstr("multi_option"@)),
        ],
    )
}

pub open spec fn trigger_json(trigger: Seq<char>, entries: Seq<JsonView>) -> JsonView {
    JsonView::Object(
        seq![
            ("entries"@, JsonView::Array(entries)),
            ("trigger"@, jstr(trigger)),
            ("type"@, jstr("trigger_block"@)),
        ],
    )
}

pub open spec fn trigger_text(t: Seq<char>) -> Seq<char> {
    trim_end_char(trim_end_char(t, '，'), '。')
}

// ---------------------------------------------------------------------------
// Entries
// ---------------------------------------------------------------------------

/// The entries of a block at indent `bi` from line `pos` on, and the line
/// after them.
pub open spec fn entries_from(lines: Seq<LineV>, pos: int, bi: int) -> (Seq<JsonView>, int)
    decreases lines.len() - pos, 1int,
{
    if pos < 0 || pos >= lines.len() || lines[pos].0 < bi {
        (Seq::empty(), pos)
    } else {
        let (e, p2) = entry_at(lines, pos, bi);
        if pos < p2 <= lines.len() {
            let rest = entries_from(lines, p2, bi);
            (seq![e] + rest.0, rest.1)
        } else {
            (seq![e], p2)
        }
    }
}

/// The entry at line `pos` of a block at indent `bi`, and the line after it.
pub open spec fn entry_at(lines: Seq<LineV>, pos: int, bi: int) -> (JsonView, int)
    decreases lines.len() - pos, 0int,
{
    if pos < 0 || pos >= lines.len() {
        (JsonView::Null, pos + 1)
    } else {
        let l = lines[pos];
        let t = l.1;
        if t.len() > 0 && t[0] == '？' {
            let cond = trim_end_char(trim(drop_first_char(t, '？')), '。');
            let sub = entries_from(lines, pos + 1, bi + 2);
            (
                JsonView::Object(
                    seq![
                        ("condition"@, jstr(cond)),
                        ("entries"@, JsonView::Array(sub.0)),
                        ("type"@, jstr("branch"@)),
                    ],
                ),
                sub.1,
            )
        } else if t.len() > 0 && t[0] == '·' {
            (line_json(trim(drop_first_char(t, '·')), l.2, "simple"@), pos + 1)
        } else if t.len() > 0 && t[0] == '—' {
            (line_json(trim(drop_first_char(t, '—')), l.2, "constant"@), pos + 1)
        } else if is_option_head(t) {
            let opts = options_from(lines, pos + 1, bi);
            (option_list(trim_end_char(t, '：'), opts.0), opts.1)
        } else if is_trigger(t) {
            let sub = entries_from(lines, pos + 1, bi + 2);
            (trigger_json(trigger_text(t), sub.0), sub.1)
        } else {
            (line_json(t, l.2, "simple"@), pos + 1)
        }
    }
}

// ---------------------------------------------------------------------------
// Blocks
// ---------------------------------------------------------------------------

/// The name of a core skill from its line.
pub open spec fn skill_name(t: Seq<char>) -> Seq<char> {
    trim(remove_all(remove_all(t, "核心技能："@, 0), "核心技能:"@, 0))
}

/// The block at line `pos` for indent `mi`, and the line after it.
pub open spec fn block_at(lines: Seq<LineV>, pos: int, mi: int) -> (JsonView, int) {
    if pos < 0 || pos >= lines.len() {
        (JsonView::Null, pos + 1)
    } else {
        let t = lines[pos].1;
        if has_prefix(t, "核心技能"@) {
            let sub = entries_from(lines, pos + 1, mi + 4);
            (
                JsonView::Object(
                    seq![
                        ("entries"@, JsonView::Array(sub.0)),
                        ("skill_name"@, jstr(skill_name(t))),
                        ("type"@, jstr("core_skill"@)),
                    ],
                ),
                sub.1,
            )
        } else if is_option_head(t) {
            let opts = options_from(lines, pos + 1, mi);
            (option_list(trim_end_char(t, '：'), opts.0), opts.1)
        } else if is_trigger(t) {
            let sub = entries_from(lines, pos + 1, mi + 2);
            (trigger_json(trigger_text(t), sub.0), sub.1)
        } else {
            let sub = entries_from(lines, pos, mi);
            (JsonView::Object(seq![("entries"@, JsonView::Array(sub.0)), ("type"@, jstr("default_block"@))]), sub.1)
        }
    }
}

/// The blocks from line `pos` to the end.
pub open spec fn blocks_from(lines: Seq<LineV>, pos: int) -> Seq<JsonView>
    decreases lines.len() - pos,
{
    if pos < 0 || pos >= lines.len() {
        Seq::empty()
    } else {
        let (b, p2) = block_at(lines, pos, 0);
        if pos < p2 <= lines.len() {
            seq![b] + blocks_from(lines, p2)
        } else {
            seq![b]
        }
    }
}

// ---------------------------------------------------------------------------
// The declaration line
// ---------------------------------------------------------------------------

/// Code point order of texts from index `i` on (how `String` orders them
/// when their first `i` chars agree).
pub open spec fn text_lt_from(a: Seq<char>, b: Seq<char>, i: int) -> bool
    decreases a.len() - i,
{
    if i < 0 || i >= a.len() {
        0 <= i < b.len()
    } else if i >= b.len() {
        false
    } else if a[i] != b[i] {
        (a[i] as u32) < (b[i] as u32)
    } else {
        text_lt_from(a, b, i + 1)
    }
}

/// Code point order of texts.
pub open spec fn text_lt(a: Seq<char>, b: Seq<char>) -> bool {
    text_lt_from(a, b, 0)
}

/// Where key `k` goes among the sorted members `m` from index `i` on: the
/// first member not before it.
pub open spec fn key_pos_from(m: Seq<(Seq<char>, JsonView)>, k: Seq<char>, i: int) -> int
    decreases m.len() - i,
{
    if i < 0 || i >= m.len() {
        m.len() as int
    } else if text_lt(m[i].0, k) {
        key_pos_from(m, k, i + 1)
    } else {
        i
    }
}

pub open spec fn key_pos(m: Seq<(Seq<char>, JsonView)>, k: Seq<char>) -> int {
    key_pos_from(m, k, 0)
}

/// Sets member `k` of an object kept sorted by key.
pub open spec fn obj_set(m: Seq<(Seq<char>, JsonView)>, k: Seq<char>, v: JsonView) -> Seq<(Seq<char>, JsonView)> {
    let p = key_pos(m, k);
    if p < m.len() && m[p].0 == k {
        m.update(p, (k, v))
    } else {
        m.insert(p, (k, v))
    }
}

/// ASCII letters lowered, everything else kept.
pub open spec fn ascii_lower(s: Seq<char>) -> Seq<char> {
    s.map_values(|c: char| if 'A' <= c && c <= 'Z' { ((c as u32) + 32) as char } else { c })
}

/// An attribute value: an integer, a boolean, or text.
pub open spec fn attr_value(v: Seq<char>) -> JsonView {
    match parse_i64(v) {
        Some(n) => JsonView::Number(dec(n as int)),
        None => if ascii_lower(v) == "true"@ {
            JsonView::Bool(true)
        } else if ascii_lower(v) == "false"@ {
            JsonView::Bool(false)
        } else {
            jstr(v)
        },
    }
}

/// The attribute an item of the declaration sets: "key:value", "key<number>",
/// or a bare flag.
pub open spec fn attr_of(p: Seq<char>) -> (Seq<char>, JsonView) {
    let colon = index_from(p, ':', 0);
    if colon < p.len() {
        (trim(p.subrange(0, colon)), attr_value(trim(p.subrange(colon + 1, p.len() as int))))
    } else if digit_split(p) >= 0 {
        let k = digit_split(p);
        (trim(p.subrange(0, k)), attr_value(trim(p.subrange(k, p.len() as int))))
    } else {
        (trim(p), JsonView::Bool(true))
    }
}

/// The attributes the items `parts[1..n]` set.
pub open spec fn attrs_of(parts: Seq<Seq<char>>, n: int) -> Seq<(Seq<char>, JsonView)>
    decreases n,
{
    if n <= 1 {
        Seq::empty()
    } else {
        let (k, v) = attr_of(parts[n - 1]);
        obj_set(attrs_of(parts, n - 1), k, v)
    }
}

/// The declaration text with trailing "。" and "，" cut.
pub open spec fn header_text(t: Seq<char>) -> Seq<char> {
    trim_end_char(trim_end_char(t, '。'), '，')
}

/// Where the bracket of a declaration ends: its last "]", or the end.
pub open spec fn bracket_end(text: Seq<char>) -> int {
    let rb = last_index(text, ']', text.len() as int);
    if rb >= 0 {
        rb
    } else {
        text.len() as int
    }
}

/// Whether the declaration can be cut at its brackets: a last "]" that
/// comes before the first "[" makes the cut impossible.
pub open spec fn header_cuttable(t: Seq<char>) -> bool {
    let text = header_text(t);
    let bs = index_from(text, '[', 0);
    bs < text.len() ==> bs + 1 <= bracket_end(text)
}

/// Name, category and attributes of a declaration, or the error text.
pub open spec fn header_of(t: Seq<char>) -> Result<(Seq<char>, Seq<char>, JsonView), Seq<char>> {
    let text = header_text(t);
    let bs = index_from(text, '[', 0);
    if bs >= text.len() {
        Err("缺少类型声明 [...]"@)
    } else {
        let name = trim(text.subrange(0, bs));
        let inner = text.subrange(bs + 1, bracket_end(text));
        let raw = split_char(inner, ',');
        let parts = Seq::new(raw.len(), |i: int| trim(raw[i]));
        if name.len() == 0 {
            Err("卡牌缺少名称"@)
        } else {
            Ok((name, parts[0], JsonView::Object(attrs_of(parts, parts.len() as int))))
        }
    }
}

// ---------------------------------------------------------------------------
// Cards
// ---------------------------------------------------------------------------

/// The tree of a card whose lines are `lines`, or (line, message) of its error.
pub open spec fn card_of(lines: Seq<LineV>) -> Result<JsonView, (nat, Seq<char>)> {
    if lines.len() == 0 {
        Err((1, "空文本"@))
    } else {
        match header_of(lines[0].1) {
            Err(m) => Err((lines[0].2, m)),
            Ok((name, category, attrs)) => Ok(
                JsonView::Object(
                    seq![
                        ("attributes"@, attrs),
                        ("category"@, jstr(category)),
                        ("effects"@, JsonView::Array(blocks_from(lines, 1))),
                        ("name"@, jstr(name)),
                    ],
                ),
            ),
        }
    }
}

/// Whether `parse` can read the source without a bad bracket cut.
pub open spec fn parsable(source: Seq<char>) -> bool {
    let lines = source_lines(source);
    lines.len() > 0 ==> header_cuttable(lines[0].1)
}

// ---------------------------------------------------------------------------
// Building the tree
// ---------------------------------------------------------------------------

/// Views of array items.
pub open spec fn item_views(v: Seq<JsonValue>) -> Seq<JsonView> {
    Seq::new(v.len(), |i: int| jview(v[i]))
}

/// Views of object members.
pub open spec fn member_views(v: Seq<(String, JsonValue)>) -> Seq<(Seq<char>, JsonView)> {
    Seq::new(v.len(), |i: int| (v[i].0@, jview(v[i].1)))
}

pub proof fn lemma_array_view(v: Vec<JsonValue>)
    ensures
        jview(JsonValue::Array(v)) == JsonView::Array(item_views(v@)),
{
    let j = jview(JsonValue::Array(v));
    let s = j->Array_0;
    assert(s.len() == v@.len());
    assert forall|i: int| 0 <= i < s.len() implies s[i] == jview(v@[i]) by {}
    assert(s =~= item_views(v@));
}

pub proof fn lemma_object_view(v: Vec<(String, JsonValue)>)
    ensures
        jview(JsonValue::Object(v)) == JsonView::Object(member_views(v@)),
{
    let j = jview(JsonValue::Object(v));
    let s = j->Object_0;
    assert(s.len() == v@.len());
    assert forall|i: int| 0 <= i < s.len() implies s[i] == (v@[i].0@, jview(v@[i].1)) by {}
    assert(s =~= member_views(v@));
}

fn push_item(v: &mut Vec<JsonValue>, x: JsonValue)
    ensures
        item_views(final(v)@) == item_views(old(v)@).push(jview(x)),
{
    let ghost before = v@;
    v.push(x);
    assert(item_views(v@) =~= item_views(before).push(jview(x)));
}

fn push_member(v: &mut Vec<(String, JsonValue)>, k: &str, x: JsonValue)
    ensures
        member_views(final(v)@) == member_views(old(v)@).push((k@, jview(x))),
{
    let ghost before = v@;
    let key = owned(k);
    v.push((key, x));
    assert(member_views(v@) =~= member_views(before).push((k@, jview(x))));
}

fn make_array(v: Vec<JsonValue>) -> (r: JsonValue)
    ensures
        jview(r) == JsonView::Array(item_views(v@)),
{
    proof {
        lemma_array_view(v);
    }
    JsonValue::Array(v)
}

fn make_object(v: Vec<(String, JsonValue)>) -> (r: JsonValue)
    ensures
        jview(r) == JsonView::Object(member_views(v@)),
{
    proof {
        lemma_object_view(v);
    }
    JsonValue::Object(v)
}

fn jstr_of(v: &Vec<char>) -> (r: JsonValue)
    ensures
        jview(r) == jstr(v@),
{
    JsonValue::Str(string_of(v))
}

fn jstr_lit(t: &str) -> (r: JsonValue)
    ensures
        jview(r) == jstr(t@),
{
    JsonValue::Str(owned(t))
}

fn jopt_of(v: &Option<Vec<char>>) -> (r: JsonValue)
    ensures
        jview(r) == jopt(match v {
            Some(x) => Some(x@),
            None => None,
        }),
{
    match v {
        Some(x) => JsonValue::Str(string_of(x)),
        None => JsonValue::Null,
    }
}

fn subject_exec(main: &Vec<char>) -> (r: (Option<Vec<char>>, Vec<char>))
    ensures
        (match r.0 {
            Some(x) => Some(x@),
            None => None,
        }, r.1@) == subject_from(main@, 0),
{
    let list: [&str; 9] = ["对目标", "对1单位", "对伤害来源", "对攻击者", "攻击者", "伤害来源", "目标", "其他玩家", "其他单位"];
    let mut k: usize = 0;
    assert(subjects().len() == 9);
    while k < 9
        invariant
            k <= 9,
            subject_from(main@, k as int) == subject_from(main@, 0),
            forall|q: int| 0 <= q < 9 ==> (#[trigger] list@[q])@ == subjects()[q],
        decreases 9 - k,
    {
        let subj = chars_of(list[k]);
        if matches_at(main, &subj, 0) {
            let rest = slice_vec(main, subj.len(), main.len());
            let t = trim_vec(&rest);
            return (Some(subj), t);
        }
        k = k + 1;
    }
    (None, slice_vec(main, 0, main.len()))
}

pub(crate) fn marks_exec(s: &Vec<char>) -> (r: Vec<Vec<char>>)
    ensures
        views(r@) == marks_from(s@, 0),
{
    let mut out: Vec<Vec<char>> = Vec::new();
    let mut i: usize = 0;
    while i < s.len()
        invariant
            i <= s@.len(),
            views(out@) + marks_from(s@, i as int) == marks_from(s@, 0),
        decreases s@.len() - i,
    {
        if s[i] == '「' {
            let j = index_from_exec(s, '」', i + 1);
            let ghost o0 = views(out@);
            if i + 1 < j {
                let m = slice_vec(s, i + 1, j);
                out.push(m);
                assert(views(out@) =~= o0.push(m@));
            }
            if j >= s.len() {
                assert(views(out@) =~= marks_from(s@, 0));
                return out;
            }
            assert(views(out@) + marks_from(s@, j + 1) =~= o0 + marks_from(s@, i as int));
            i = j + 1;
        } else {
            i = i + 1;
        }
    }
    assert(views(out@) =~= marks_from(s@, 0));
    out
}

fn mark_items(marks: &Vec<Vec<char>>) -> (r: Vec<JsonValue>)
    ensures
        item_views(r@) == Seq::new(views(marks@).len(), |i: int| jstr("「"@ + views(marks@)[i] + "」"@)),
{
    let mut out: Vec<JsonValue> = Vec::new();
    let mut i: usize = 0;
    while i < marks.len()
        invariant
            i <= marks@.len(),
            item_views(out@) == Seq::new(i as nat, |q: int| jstr("「"@ + views(marks@)[q] + "」"@)),
        decreases marks@.len() - i,
    {
        let mut t = owned("「");
        crate::text::append_chars(&mut t, &marks[i]);
        crate::text::append_str(&mut t, "」");
        push_item(&mut out, JsonValue::Str(t));
        assert(item_views(out@) =~= Seq::new((i + 1) as nat, |q: int| jstr("「"@ + views(marks@)[q] + "」"@)));
        i = i + 1;
    }
    out
}

fn number_of(n: usize) -> (r: JsonValue)
    ensures
        jview(r) == JsonView::Number(dec(n as int)),
{
    let v = wide_to_chars(n as u128);
    JsonValue::Number(string_of(&v))
}

/// The JSON of a simple line.
fn line_json_exec(text: &Vec<char>, line_no: usize, kind: &str) -> (r: JsonValue)
    ensures
        jview(r) == line_json(text@, line_no as nat, kind@),
{
    let t = trim_vec(text);
    let clean = trim_end_char_exec(&t, '。');
    let lb = last_index_exec(&clean, '[');
    let rb = last_index_exec(&clean, ']');
    proof {
        lemma_last_index(clean@, '[', clean@.len() as int);
        lemma_last_index(clean@, ']', clean@.len() as int);
    }
    let (main, remark) = match (lb, rb) {
        (Some(a), Some(b)) => if a < b {
            let m = slice_vec(&clean, 0, a);
            (trim_vec(&m), Some(slice_vec(&clean, a, clean.len())))
        } else {
            (slice_vec(&clean, 0, clean.len()), None)
        },
        _ => (slice_vec(&clean, 0, clean.len()), None),
    };
    assert((main@, match remark { Some(x) => Some(x@), None => None }) == split_remark(clean@));
    let marks = marks_exec(&main);
    let (subject, rest) = subject_exec(&main);
    let mut kv: Vec<(String, JsonValue)> = Vec::new();
    push_member(&mut kv, "line", number_of(line_no));
    push_member(&mut kv, "mark_refs", make_array(mark_items(&marks)));
    push_member(&mut kv, "remark", jopt_of(&remark));
    push_member(&mut kv, "subject", jopt_of(&subject));
    push_member(&mut kv, "text", jstr_of(&rest));
    push_member(&mut kv, "type", jstr_lit(kind));
    let r = make_object(kv);
    proof {
        let ms = marks_from(main@, 0);
        let items = Seq::new(ms.len(), |i: int| jstr("「"@ + ms[i] + "」"@));
        let sub = subject_from(main@, 0);
        let rem = split_remark(clean@).1;
        assert(t@ == trim(text@));
        assert(member_views(kv@) =~= seq![
            ("line"@, JsonView::Number(dec(line_no as int))),
            ("mark_refs"@, JsonView::Array(items)),
            ("remark"@, jopt(rem)),
            ("subject"@, jopt(sub.0)),
            ("text"@, jstr(sub.1)),
            ("type"@, jstr(kind@)),
        ]);
    }
    r
}

/// The lines as (indent, text, line number).
pub open spec fn lviews(v: Seq<Line>) -> Seq<LineV> {
    v.map_values(|l: Line| line_view(l))
}

fn options_exec(lines: &Vec<Line>, pos: usize, bi: u128) -> (r: (Vec<JsonValue>, usize))
    requires
        pos <= lines@.len(),
    ensures
        (item_views(r.0@), r.1 as int) == options_from(lviews(lines@), pos as int, bi as int),
        pos <= r.1 <= lines@.len(),
{
    let ghost lv = lviews(lines@);
    let mut out: Vec<JsonValue> = Vec::new();
    let mut p = pos;
    loop
        invariant
            pos <= p <= lines@.len(),
            lv == lviews(lines@),
            item_views(out@) + options_from(lv, p as int, bi as int).0 == options_from(lv, pos as int, bi as int).0,
            options_from(lv, p as int, bi as int).1 == options_from(lv, pos as int, bi as int).1,
        ensures
            pos <= p <= lines@.len(),
            item_views(out@) == options_from(lv, pos as int, bi as int).0,
            p == options_from(lv, pos as int, bi as int).1,
        decreases lines@.len() - p,
    {
        if p >= lines.len() {
            assert(item_views(out@) =~= item_views(out@) + options_from(lv, p as int, bi as int).0);
            break;
        }
        let t = chars_of(lines[p].text.as_str());
        assert(lv[p as int] == line_view(lines@[p as int]));
        if (lines[p].indent as u128) <= bi || !starts_with_char(&t, '·') {
            assert(item_views(out@) =~= item_views(out@) + options_from(lv, p as int, bi as int).0);
            break;
        }
        let d = drop_first_char_exec(&t, '·');
        let body = trim_vec(&d);
        let e = line_json_exec(&body, lines[p].line_no, "simple");
        let ghost o0 = item_views(out@);
        push_item(&mut out, e);
        assert(item_views(out@) + options_from(lv, p + 1, bi as int).0 =~= o0 + options_from(lv, p as int, bi as int).0);
        p = p + 1;
    }
    (out, p)
}

fn trigger_text_exec(t: &Vec<char>) -> (r: Vec<char>)
    ensures
        r@ == trigger_text(t@),
{
    let a = trim_end_char_exec(t, '，');
    trim_end_char_exec(&a, '。')
}

fn is_trigger_exec(t: &Vec<char>) -> (r: bool)
    ensures
        r == is_trigger(t@),
{
    let tt = trim_vec(t);
    ends_with_lit(&tt, "时，") || ends_with_lit(&tt, "时。")
}

fn is_option_head_exec(t: &Vec<char>) -> (r: bool)
    ensures
        r == is_option_head(t@),
{
    ends_with_char(t, '：') && !contains_char(t, '[') && !(starts_with_char(t, '？') || starts_with_char(t, '·')
        || starts_with_char(t, '—'))
}

fn option_list_exec(name: &Vec<char>, options: Vec<JsonValue>) -> (r: JsonValue)
    ensures
        jview(r) == option_list(name@, item_views(options@)),
{
    let ghost ov = item_views(options@);
    let mut kv: Vec<(String, JsonValue)> = Vec::new();
    push_member(&mut kv, "block_name", jstr_of(name));
    push_member(&mut kv, "options", make_array(options));
    push_member(&mut kv, "type", jstr_lit("multi_option"));
    let r = make_object(kv);
    assert(member_views(kv@) =~= seq![("block_name"@, jstr(name@)), ("options"@, JsonView::Array(ov)), ("type"@, jstr("multi_option"@))]);
    r
}

fn trigger_json_exec(trigger: &Vec<char>, entries: Vec<JsonValue>) -> (r: JsonValue)
    ensures
        jview(r) == trigger_json(trigger@, item_views(entries@)),
{
    let ghost ev = item_views(entries@);
    let mut kv: Vec<(String, JsonValue)> = Vec::new();
    push_member(&mut kv, "entries", make_array(entries));
    push_member(&mut kv, "trigger", jstr_of(trigger));
    push_member(&mut kv, "type", jstr_lit("trigger_block"));
    let r = make_object(kv);
    assert(member_views(kv@) =~= seq![("entries"@, JsonView::Array(ev)), ("trigger"@, jstr(trigger@)), ("type"@, jstr("trigger_block"@))]);
    r
}

/// The entries of a block at indent `bi` from line `pos` on.
fn entries_exec(lines: &Vec<Line>, pos: usize, bi: u128) -> (r: (Vec<JsonValue>, usize))
    requires
        pos <= lines@.len(),
        bi <= 2 * pos + 4,
    ensures
        (item_views(r.0@), r.1 as int) == entries_from(lviews(lines@), pos as int, bi as int),
        pos <= r.1 <= lines@.len(),
        pos < lines@.len() && lviews(lines@)[pos as int].0 >= bi ==> r.1 > pos,
    decreases lines@.len() - pos, 1int,
{
    let ghost lv = lviews(lines@);
    let mut out: Vec<JsonValue> = Vec::new();
    let mut p = pos;
    loop
        invariant
            pos <= p <= lines@.len(),
            bi <= 2 * pos + 4,
            lv == lviews(lines@),
            item_views(out@) + entries_from(lv, p as int, bi as int).0 == entries_from(lv, pos as int, bi as int).0,
            entries_from(lv, p as int, bi as int).1 == entries_from(lv, pos as int, bi as int).1,
        ensures
            pos <= p <= lines@.len(),
            item_views(out@) == entries_from(lv, pos as int, bi as int).0,
            p == entries_from(lv, pos as int, bi as int).1,
            p == pos ==> (p >= lines@.len() || lv[p as int].0 < bi),
        decreases lines@.len() - p,
    {
        if p >= lines.len() {
            assert(item_views(out@) =~= item_views(out@) + entries_from(lv, p as int, bi as int).0);
            break;
        }
        assert(lv[p as int] == line_view(lines@[p as int]));
        if (lines[p].indent as u128) < bi {
            assert(item_views(out@) =~= item_views(out@) + entries_from(lv, p as int, bi as int).0);
            break;
        }
        let (e, p2) = entry_exec(lines, p, bi);
        let ghost o0 = item_views(out@);
        push_item(&mut out, e);
        assert(item_views(out@) + entries_from(lv, p2 as int, bi as int).0 =~= o0 + entries_from(lv, p as int, bi as int).0);
        p = p2;
    }
    (out, p)
}

/// The entry at line `pos` of a block at indent `bi`.
fn entry_exec(lines: &Vec<Line>, pos: usize, bi: u128) -> (r: (JsonValue, usize))
    requires
        pos < lines@.len(),
        bi <= 2 * pos + 4,
    ensures
        (jview(r.0), r.1 as int) == entry_at(lviews(lines@), pos as int, bi as int),
        pos < r.1 <= lines@.len(),
    decreases lines@.len() - pos, 0int,
{
    let ghost lv = lviews(lines@);
    let n = lines.len();
    assert(lv[pos as int] == line_view(lines@[pos as int]));
    let t = chars_of(lines[pos].text.as_str());
    if starts_with_char(&t, '？') {
        let d = drop_first_char_exec(&t, '？');
        let dt = trim_vec(&d);
        let cond = trim_end_char_exec(&dt, '。');
        let (sub, p2) = entries_exec(lines, pos + 1, bi + 2);
        let ghost sv = item_views(sub@);
        let mut kv: Vec<(String, JsonValue)> = Vec::new();
        push_member(&mut kv, "condition", jstr_of(&cond));
        push_member(&mut kv, "entries", make_array(sub));
        push_member(&mut kv, "type", jstr_lit("branch"));
        let r = make_object(kv);
        assert(member_views(kv@) =~= seq![("condition"@, jstr(cond@)), ("entries"@, JsonView::Array(sv)), ("type"@, jstr("branch"@))]);
        (r, p2)
    } else if starts_with_char(&t, '·') {
        let d = drop_first_char_exec(&t, '·');
        let body = trim_vec(&d);
        (line_json_exec(&body, lines[pos].line_no, "simple"), pos + 1)
    } else if starts_with_char(&t, '—') {
        let d = drop_first_char_exec(&t, '—');
        let body = trim_vec(&d);
        (line_json_exec(&body, lines[pos].line_no, "constant"), pos + 1)
    } else if is_option_head_exec(&t) {
        let name = trim_end_char_exec(&t, '：');
        let (opts, p2) = options_exec(lines, pos + 1, bi);
        (option_list_exec(&name, opts), p2)
    } else if is_trigger_exec(&t) {
        let trig = trigger_text_exec(&t);
        let (sub, p2) = entries_exec(lines, pos + 1, bi + 2);
        (trigger_json_exec(&trig, sub), p2)
    } else {
        (line_json_exec(&t, lines[pos].line_no, "simple"), pos + 1)
    }
}

/// The block at line `pos` for indent `mi`.
fn block_exec(lines: &Vec<Line>, pos: usize, mi: u128) -> (r: (JsonValue, usize))
    requires
        pos < lines@.len(),
        mi == 0,
    ensures
        (jview(r.0), r.1 as int) == block_at(lviews(lines@), pos as int, mi as int),
        pos < r.1 <= lines@.len(),
{
    let ghost lv = lviews(lines@);
    let n = lines.len();
    assert(lv[pos as int] == line_view(lines@[pos as int]));
    let t = chars_of(lines[pos].text.as_str());
    if starts_with_lit(&t, "核心技能") {
        let p1 = chars_of("核心技能：");
        let p2c = chars_of("核心技能:");
        proof {
            reveal_strlit("核心技能：");
            reveal_strlit("核心技能:");
        }
        let a = remove_all_exec(&t, &p1);
        let b = remove_all_exec(&a, &p2c);
        let name = trim_vec(&b);
        let (sub, p2) = entries_exec(lines, pos + 1, mi + 4);
        let ghost sv = item_views(sub@);
        let mut kv: Vec<(String, JsonValue)> = Vec::new();
        push_member(&mut kv, "entries", make_array(sub));
        push_member(&mut kv, "skill_name", jstr_of(&name));
        push_member(&mut kv, "type", jstr_lit("core_skill"));
        let r = make_object(kv);
        assert(member_views(kv@) =~= seq![("entries"@, JsonView::Array(sv)), ("skill_name"@, jstr(name@)), ("type"@, jstr("core_skill"@))]);
        (r, p2)
    } else if is_option_head_exec(&t) {
        let name = trim_end_char_exec(&t, '：');
        let (opts, p2) = options_exec(lines, pos + 1, mi);
        (option_list_exec(&name, opts), p2)
    } else if is_trigger_exec(&t) {
        let trig = trigger_text_exec(&t);
        let (sub, p2) = entries_exec(lines, pos + 1, mi + 2);
        (trigger_json_exec(&trig, sub), p2)
    } else {
        let (sub, p2) = entries_exec(lines, pos, mi);
        proof {
            assert(lv[pos as int].0 >= 0);
        }
        let ghost sv = item_views(sub@);
        let mut kv: Vec<(String, JsonValue)> = Vec::new();
        push_member(&mut kv, "entries", make_array(sub));
        push_member(&mut kv, "type", jstr_lit("default_block"));
        let r = make_object(kv);
        assert(member_views(kv@) =~= seq![("entries"@, JsonView::Array(sv)), ("type"@, jstr("default_block"@))]);
        (r, p2)
    }
}

fn blocks_exec(lines: &Vec<Line>, pos: usize) -> (r: Vec<JsonValue>)
    requires
        pos <= lines@.len(),
    ensures
        item_views(r@) == blocks_from(lviews(lines@), pos as int),
{
    let ghost lv = lviews(lines@);
    let mut out: Vec<JsonValue> = Vec::new();
    let mut p = pos;
    while p < lines.len()
        invariant
            pos <= p <= lines@.len(),
            lv == lviews(lines@),
            item_views(out@) + blocks_from(lv, p as int) == blocks_from(lv, pos as int),
        decreases lines@.len() - p,
    {
        let (b, p2) = block_exec(lines, p, 0);
        let ghost o0 = item_views(out@);
        push_item(&mut out, b);
        assert(item_views(out@) + blocks_from(lv, p2 as int) =~= o0 + blocks_from(lv, p as int));
        p = p2;
    }
    assert(item_views(out@) =~= blocks_from(lv, pos as int));
    out
}

fn text_lt_exec(a: &Vec<char>, b: &Vec<char>) -> (r: bool)
    ensures
        r == text_lt(a@, b@),
{
    let mut i: usize = 0;
    while i < a.len() && i < b.len() && a[i] == b[i]
        invariant
            i <= a@.len(),
            i <= b@.len(),
            text_lt_from(a@, b@, i as int) == text_lt(a@, b@),
        decreases a@.len() - i,
    {
        i = i + 1;
    }
    if i >= a.len() {
        i < b.len()
    } else if i >= b.len() {
        false
    } else {
        (a[i] as u32) < (b[i] as u32)
    }
}

fn obj_set_exec(m: &mut Vec<(String, JsonValue)>, k: &Vec<char>, v: JsonValue)
    ensures
        member_views(final(m)@) == obj_set(member_views(old(m)@), k@, jview(v)),
{
    let ghost mv = member_views(m@);
    let mut i: usize = 0;
    while i < m.len()
        invariant
            i <= m@.len(),
            mv == member_views(m@),
            key_pos_from(mv, k@, i as int) == key_pos(mv, k@),
        ensures
            i <= m@.len(),
            mv == member_views(m@),
            key_pos(mv, k@) == i,
        decreases m@.len() - i,
    {
        let mk = chars_of(m[i].0.as_str());
        assert(mv[i as int].0 == mk@);
        if !text_lt_exec(&mk, k) {
            break;
        }
        i = i + 1;
    }
    assert(key_pos(mv, k@) == i);
    let key = string_of(k);
    if i < m.len() {
        let mk = chars_of(m[i].0.as_str());
        if crate::text::seq_eq(&mk, k) {
            m.set(i, (key, v));
            assert(member_views(m@) =~= mv.update(i as int, (k@, jview(v))));
            return;
        }
    }
    m.insert(i, (key, v));
    assert(member_views(m@) =~= mv.insert(i as int, (k@, jview(v))));
}

fn attr_value_exec(v: &Vec<char>) -> (r: JsonValue)
    ensures
        jview(r) == attr_value(v@),
{
    match parse_i64_chars(v) {
        Some(n) => {
            let mut t = String::new();
            append_int(&mut t, n);
            JsonValue::Number(t)
        },
        None => {
            let mut low: Vec<char> = Vec::new();
            let mut i: usize = 0;
            while i < v.len()
                invariant
                    i <= v@.len(),
                    low@ == ascii_lower(v@.subrange(0, i as int)),
                decreases v@.len() - i,
            {
                let c = v[i];
                let d = if 'A' <= c && c <= 'Z' { ((c as u8) + 32) as char } else { c };
                low.push(d);
                assert(low@ =~= ascii_lower(v@.subrange(0, i + 1)));
                i = i + 1;
            }
            assert(v@.subrange(0, v@.len() as int) =~= v@);
            if crate::text::eq_lit(&low, "true") {
                JsonValue::Bool(true)
            } else if crate::text::eq_lit(&low, "false") {
                JsonValue::Bool(false)
            } else {
                jstr_of(v)
            }
        },
    }
}

fn attr_of_exec(p: &Vec<char>) -> (r: (Vec<char>, JsonValue))
    ensures
        (r.0@, jview(r.1)) == attr_of(p@),
{
    let colon = index_from_exec(p, ':', 0);
    if colon < p.len() {
        let a = slice_vec(p, 0, colon);
        let b = slice_vec(p, colon + 1, p.len());
        (trim_vec(&a), attr_value_exec(&trim_vec(&b)))
    } else {
        match digit_split_exec(p) {
            Some(k) => {
                let a = slice_vec(p, 0, k);
                let b = slice_vec(p, k, p.len());
                (trim_vec(&a), attr_value_exec(&trim_vec(&b)))
            },
            None => (trim_vec(p), JsonValue::Bool(true)),
        }
    }
}

fn header_exec(t: &Vec<char>) -> (r: Result<(Vec<char>, Vec<char>, JsonValue), Vec<char>>)
    requires
        header_cuttable(t@),
    ensures
        match header_of(t@) {
            Ok((name, cat, attrs)) => r matches Ok(x) && x.0@ == name && x.1@ == cat && jview(x.2) == attrs,
            Err(m) => r matches Err(e) && e@ == m,
        },
{
    let a = trim_end_char_exec(t, '。');
    let text = trim_end_char_exec(&a, '，');
    let bs = index_from_exec(&text, '[', 0);
    if bs >= text.len() {
        return Err(chars_of("缺少类型声明 [...]"));
    }
    let name_raw = slice_vec(&text, 0, bs);
    let name = trim_vec(&name_raw);
    let be = match last_index_exec(&text, ']') {
        Some(k) => k,
        None => text.len(),
    };
    proof {
        lemma_last_index(text@, ']', text@.len() as int);
    }
    let inner = slice_vec(&text, bs + 1, be);
    let raw = split_chars(&inner, ',');
    proof {
        crate::dz::lexer::lemma_split_nonempty(inner@, ',');
    }
    let mut parts: Vec<Vec<char>> = Vec::new();
    let mut i: usize = 0;
    while i < raw.len()
        invariant
            i <= raw@.len(),
            views(raw@) == split_char(inner@, ','),
            views(parts@) == Seq::new(i as nat, |q: int| trim(views(raw@)[q])),
        decreases raw@.len() - i,
    {
        let tp = trim_vec(&raw[i]);
        let ghost p0 = views(parts@);
        let ghost tv = tp@;
        parts.push(tp);
        assert(views(parts@) =~= p0.push(tv));
        assert(views(parts@) =~= Seq::new((i + 1) as nat, |q: int| trim(views(raw@)[q])));
        i = i + 1;
    }
    let ghost pv = views(parts@);
    assert(pv =~= Seq::new(split_char(inner@, ',').len(), |q: int| trim(split_char(inner@, ',')[q])));
    if name.len() == 0 {
        return Err(chars_of("卡牌缺少名称"));
    }
    let mut attrs: Vec<(String, JsonValue)> = Vec::new();
    let mut k: usize = 1;
    assert(member_views(attrs@) =~= attrs_of(pv, 1));
    while k < parts.len()
        invariant
            1 <= k <= parts@.len(),
            pv == views(parts@),
            member_views(attrs@) == attrs_of(pv, k as int),
        decreases parts@.len() - k,
    {
        let (key, val) = attr_of_exec(&parts[k]);
        obj_set_exec(&mut attrs, &key, val);
        k = k + 1;
    }
    let cat = slice_vec(&parts[0], 0, parts[0].len());
    let obj = make_object(attrs);
    Ok((name, cat, obj))
}

fn header_cuttable_exec(t: &Vec<char>) -> (r: bool)
    ensures
        r == header_cuttable(t@),
{
    let a = trim_end_char_exec(t, '。');
    let text = trim_end_char_exec(&a, '，');
    let bs = index_from_exec(&text, '[', 0);
    if bs >= text.len() {
        return true;
    }
    let be = match last_index_exec(&text, ']') {
        Some(k) => k,
        None => text.len(),
    };
    bs + 1 <= be
}

/// Whether `parse` accepts `source` as input: its declaration, if it has
/// one, does not end its bracket before opening it.
pub fn can_parse(source: &str) -> (r: bool)
    ensures
        r == parsable(source@),
{
    let (lines, _errors) = crate::dz::lexer::tokenize(source);
    let ghost lv = lviews(lines@);
    assert(lv =~= source_lines(source@));
    if lines.len() == 0 {
        return true;
    }
    assert(lv[0] == line_view(lines@[0]));
    let t = chars_of(lines[0].text.as_str());
    header_cuttable_exec(&t)
}

/// The DZ parser: card source to tree.
pub struct DZParser;

impl DZParser {
    pub fn new() -> (r: DZParser) {
        DZParser
    }

    /// Parses a card source: its declaration line and its effect blocks.
    pub fn parse(&self, source: &str) -> (r: Result<JsonValue, crate::dz::ports::ParseError>)
        requires
            parsable(source@),
        ensures
            match card_of(source_lines(source@)) {
                Ok(j) => r matches Ok(x) && jview(x) == j,
                Err((line, msg)) => r matches Err(e) && e.line == line && e.col == 0 && e.message@ == msg
                    && e.severity == crate::dz::ports::IssueSeverity::Error,
            },
    {
        let (lines, _errors) = crate::dz::lexer::tokenize(source);
        let ghost lv = lviews(lines@);
        assert(lv =~= source_lines(source@));
        if lines.len() == 0 {
            return Err(crate::dz::ports::ParseError {
                line: 1,
                col: 0,
                message: owned("空文本"),
                severity: crate::dz::ports::IssueSeverity::Error,
            });
        }
        assert(lv[0] == line_view(lines@[0]));
        let t = chars_of(lines[0].text.as_str());
        match header_exec(&t) {
            Err(m) => Err(crate::dz::ports::ParseError {
                line: lines[0].line_no,
                col: 0,
                message: string_of(&m),
                severity: crate::dz::ports::IssueSeverity::Error,
            }),
            Ok((name, cat, attrs)) => {
                let blocks = blocks_exec(&lines, 1);
                let ghost bv = item_views(blocks@);
                let mut kv: Vec<(String, JsonValue)> = Vec::new();
                push_member(&mut kv, "attributes", attrs);
                push_member(&mut kv, "category", jstr_of(&cat));
                push_member(&mut kv, "effects", make_array(blocks));
                push_member(&mut kv, "name", jstr_of(&name));
                let r = make_object(kv);
                proof {
                    let h = header_of(lv[0].1);
                    assert(member_views(kv@) =~= seq![
                        ("attributes"@, h->Ok_0.2),
                        ("category"@, jstr(h->Ok_0.1)),
                        ("effects"@, JsonView::Array(bv)),
                        ("name"@, jstr(h->Ok_0.0)),
                    ]);
                }
                Ok(r)
            },
        }
    }
}

} // verus!
