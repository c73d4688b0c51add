//! The parts of an SVG card face that need no scaling: the document's
//! frame, the background by category, the quality of a card, and the lines
//! of its effect entries.
use vstd::prelude::*;
use crate::dz::dzcheck::{jget, member_index};
use crate::dz::dzparse::{item_views, lemma_array_view, lemma_object_view, member_views};
use crate::json::{jview, JsonValue, JsonView};
use crate::text::{append_chars, append_str, chars_of, copy_string, dec, nat_dec, owned, wide_to_chars};

verus! {

/// Appends `line` and a line break.
pub fn push(svg: &mut String, line: &str)
    ensures
        final(svg)@ == old(svg)@ + line@ + "\n"@,
{
    append_str(svg, line);
    append_str(svg, "\n");
}

fn push_num(svg: &mut String, n: u32)
    ensures
        final(svg)@ == old(svg)@ + dec(n as int),
{
    let d = wide_to_chars(n as u128);
    append_chars(svg, &d);
    assert(dec(n as int) == nat_dec(n as nat));
}

/// The opening tag of a card face `w` by `h`.
pub fn svg_open(svg: &mut String, w: u32, h: u32)
    ensures
        final(svg)@ == old(svg)@ + "<svg xmlns='http://www.w3.org/2000/svg' width='"@ + dec(w as int) + "' height='"@
            + dec(h as int) + "' viewBox='0 0 "@ + dec(w as int) + " "@ + dec(h as int) + "'>\n"@,
{
    append_str(svg, "<svg xmlns='http://www.w3.org/2000/svg' width='");
    push_num(svg, w);
    append_str(svg, "' height='");
    push_num(svg, h);
    append_str(svg, "' viewBox='0 0 ");
    push_num(svg, w);
    append_str(svg, " ");
    push_num(svg, h);
    append_str(svg, "'>\n");
}

/// The closing tag.
pub fn svg_close(svg: &mut String)
    ensures
        final(svg)@ == old(svg)@ + "</svg>\n"@,
{
    append_str(svg, "</svg>\n");
}

/// The background color of a category.
pub open spec fn background_color(category: Seq<char>) -> Seq<char> {
    if category == "阵营"@ || category == "阵营卡"@ {
        "#16213e"@
    } else if category == "职业"@ || category == "职业卡"@ {
        "#1a1a2e"@
    } else if category == "兵刃"@ {
        "#2e1a1a"@
    } else if category == "宝器"@ {
        "#2e2e1a"@
    } else if category == "甲胄"@ {
        "#1a2e1a"@
    } else if category == "武学"@ {
        "#1a1a3e"@
    } else if category == "术法"@ {
        "#2e1a3e"@
    } else if category == "基本牌"@ {
        "#1e1e2e"@
    } else {
        "#1a1a2e"@
    }
}

fn background_color_exec(category: &str) -> (r: &'static str)
    ensures
        r@ == background_color(category@),
{
    let c = chars_of(category);
    if crate::text::eq_lit(&c, "阵营") || crate::text::eq_lit(&c, "阵营卡") {
        "#16213e"
    } else if crate::text::eq_lit(&c, "职业") || crate::text::eq_lit(&c, "职业卡") {
        "#1a1a2e"
    } else if crate::text::eq_lit(&c, "兵刃") {
        "#2e1a1a"
    } else if crate::text::eq_lit(&c, "宝器") {
        "#2e2e1a"
    } else if crate::text::eq_lit(&c, "甲胄") {
        "#1a2e1a"
    } else if crate::text::eq_lit(&c, "武学") {
        "#1a1a3e"
    } else if crate::text::eq_lit(&c, "术法") {
        "#2e1a3e"
    } else if crate::text::eq_lit(&c, "基本牌") {
        "#1e1e2e"
    } else {
        "#1a1a2e"
    }
}

/// The background of a card face, colored by its category.
pub fn layer_background(svg: &mut String, w: u32, h: u32, category: &str)
    ensures
        final(svg)@ == old(svg)@ + "<rect width=\""@ + dec(w as int) + "\" height=\""@ + dec(h as int) + "\" fill=\""@
            + background_color(category@) + "\" rx=\"10\" ry=\"10\"/>\n"@,
{
    append_str(svg, "<rect width=\"");
    push_num(svg, w);
    append_str(svg, "\" height=\"");
    push_num(svg, h);
    append_str(svg, "\" fill=\"");
    append_str(svg, background_color_exec(category));
    append_str(svg, "\" rx=\"10\" ry=\"10\"/>\n");
}

/// `text` cut to `max` characters, with "…" where it was cut.
pub open spec fn truncated(text: Seq<char>, max: nat) -> Seq<char> {
    if text.len() <= max {
        text
    } else {
        text.subrange(0, max as int) + "…"@
    }
}

pub fn trancate_text(text: &str, max: usize) -> (r: String)
    ensures
        r@ == truncated(text@, max as nat),
{
    let c = chars_of(text);
    if c.len() <= max {
        owned(text)
    } else {
        let head = crate::text::slice_vec(&c, 0, max);
        let mut s = crate::text::string_of(&head);
        append_str(&mut s, "…");
        s
    }
}

/// Whether member `k` of a value is `true`.
pub open spec fn is_true(j: JsonView, k: Seq<char>) -> bool {
    jget(j, k) == JsonView::Bool(true)
}

/// The quality of a card by its attributes: a color flag, else the text of
/// its "quality" member.
pub open spec fn quality_of(attrs: JsonView) -> Option<Seq<char>> {
    if is_true(attrs, "白"@) || is_true(attrs, "white"@) {
        Some("白"@)
    } else if is_true(attrs, "蓝"@) || is_true(attrs, "blue"@) {
        Some("蓝"@)
    } else if is_true(attrs, "紫"@) || is_true(attrs, "purple"@) {
        Some("紫"@)
    } else if is_true(attrs, "橙"@) || is_true(attrs, "orange"@) {
        Some("橙"@)
    } else {
        match jget(attrs, "quality"@) {
            JsonView::Str(s) => Some(s),
            _ => None,
        }
    }
}

fn is_true_exec(j: &JsonValue, k: &str) -> (r: bool)
    ensures
        r == is_true(jview(*j), k@),
{
    match crate::dz::dzcheck::member_of(j, k) {
        Some(JsonValue::Bool(b)) => *b,
        _ => false,
    }
}

pub fn extract_quality(attrs: &JsonValue) -> (r: Option<String>)
    ensures
        match r {
            Some(s) => quality_of(jview(*attrs)) == Some(s@),
            None => quality_of(jview(*attrs)) is None,
        },
{
    if is_true_exec(attrs, "白") || is_true_exec(attrs, "white") {
        Some(owned("白"))
    } else if is_true_exec(attrs, "蓝") || is_true_exec(attrs, "blue") {
        Some(owned("蓝"))
    } else if is_true_exec(attrs, "紫") || is_true_exec(attrs, "purple") {
        Some(owned("紫"))
    } else if is_true_exec(attrs, "橙") || is_true_exec(attrs, "orange") {
        Some(owned("橙"))
    } else {
        match crate::dz::dzcheck::member_of(attrs, "quality") {
            Some(JsonValue::Str(s)) => Some(copy_string(s)),
            _ => None,
        }
    }
}

// ---------------------------------------------------------------------------
// Effect entries
// ---------------------------------------------------------------------------

/// A text element at (`x`, `y`) and its line break.
pub open spec fn text_el(x: int, y: int, fill: Seq<char>, fs: int, body: Seq<char>) -> Seq<char> {
    "<text x=\""@ + dec(x) + "\" y=\""@ + dec(y) + "\" fill=\""@ + fill + "\" font-size=\""@ + dec(fs) + "\">"@ + body
        + "</text>\n"@
}

/// Member `k` as text, `d` when it is none.
pub open spec fn member_str(e: JsonView, k: Seq<char>, d: Seq<char>) -> Seq<char> {
    match jget(e, k) {
        JsonView::Str(s) => s,
        _ => d,
    }
}

/// The lines of a list of entries drawn from (`x`, `y`): the text, the `y`
/// below it, and whether every coordinate stays in range.
pub open spec fn render_list(v: JsonView, x: int, y: int, fs: int, lh: int) -> (Seq<char>, int, bool)
    decreases v, 0int,
{
    match v {
        JsonView::Array(items) => {
            proof {
                assert(decreases_to!(v => items));
            }
            render_items(items, 0, x, y, fs, lh)
        },
        _ => (Seq::empty(), y, true),
    }
}

pub open spec fn render_items(items: Seq<JsonView>, i: int, x: int, y: int, fs: int, lh: int) -> (Seq<char>, int, bool)
    decreases items, items.len() - i,
{
    if i < 0 || i >= items.len() {
        (Seq::empty(), y, true)
    } else {
        proof {
            assert(decreases_to!(items => items[i]));
        }
        let here = render_entry(items[i], x, y, fs, lh);
        let rest = render_items(items, i + 1, x, here.1, fs, lh);
        (here.0 + rest.0, rest.1, here.2 && rest.2)
    }
}

/// The lines of the entries an entry holds.
pub open spec fn sub_list(e: JsonView, x: int, y: int, fs: int, lh: int) -> (Seq<char>, int, bool)
    decreases e, 0int,
{
    match e {
        JsonView::Object(m) => {
            let p = member_index(m, "entries"@, 0);
            if 0 <= p < m.len() {
                proof {
                    assert(decreases_to!(e => m));
                    assert(decreases_to!(m => m[p]));
                    assert(decreases_to!(m[p] => m[p].1));
                }
                render_list(m[p].1, x, y, fs, lh)
            } else {
                (Seq::empty(), y, true)
            }
        },
        _ => (Seq::empty(), y, true),
    }
}

/// The lines of one entry: a simple or constant line, a branch and its
/// entries (indented, one size smaller), or a trigger and its entries.
pub open spec fn render_entry(e: JsonView, x: int, y: int, fs: int, lh: int) -> (Seq<char>, int, bool)
    decreases e, 1int,
{
    let etype = member_str(e, "type"@, "simple"@);
    if etype == "simple"@ || etype == "constant"@ {
        let display = (if etype == "constant"@ {
            "— "@
        } else {
            Seq::empty()
        }) + truncated(member_str(e, "text"@, ""@), 32) + member_str(e, "remark"@, ""@);
        (text_el(x, y, "#bbb"@, fs, display), y + lh, y + lh <= u32::MAX)
    } else if etype == "branch"@ {
        let line = text_el(x, y, "#d09040"@, fs, "？ "@ + member_str(e, "condition"@, ""@));
        let inner = sub_list(e, x + 16, y + lh, fs - 1, lh);
        (line + inner.0, inner.1, y + lh <= u32::MAX && x + 16 <= u32::MAX && fs >= 1 && inner.2)
    } else if etype == "trigger_block"@ {
        let line = text_el(x, y, "#a0c0e0"@, fs, member_str(e, "trigger"@, ""@));
        let inner = sub_list(e, x + 8, y + lh, fs, lh);
        (line + inner.0, inner.1, y + lh <= u32::MAX && x + 8 <= u32::MAX && inner.2)
    } else {
        (Seq::empty(), y, true)
    }
}

fn push_text_el(svg: &mut String, x: u32, y: u32, fill: &str, fs: u32, body: &str)
    ensures
        final(svg)@ == old(svg)@ + text_el(x as int, y as int, fill@, fs as int, body@),
{
    let ghost s0 = svg@;
    append_str(svg, "<text x=\"");
    push_num(svg, x);
    append_str(svg, "\" y=\"");
    push_num(svg, y);
    append_str(svg, "\" fill=\"");
    append_str(svg, fill);
    append_str(svg, "\" font-size=\"");
    push_num(svg, fs);
    append_str(svg, "\">");
    append_str(svg, body);
    append_str(svg, "</text>\n");
    assert(svg@ =~= s0 + text_el(x as int, y as int, fill@, fs as int, body@));
}

fn member_str_exec(e: &JsonValue, k: &str, d: &str) -> (r: String)
    ensures
        r@ == member_str(jview(*e), k@, d@),
{
    match crate::dz::dzcheck::member_of(e, k) {
        Some(JsonValue::Str(s)) => copy_string(s),
        _ => owned(d),
    }
}

/// Draws the entries of a list from (`x`, `*y`), moving `*y` down a line
/// per line drawn.
pub fn render_entries(svg: &mut String, entries: &JsonValue, x: u32, y: &mut u32, fs: u32, lh: u32)
    requires
        render_list(jview(*entries), x as int, *old(y) as int, fs as int, lh as int).2,
    ensures
        ({
            let r = render_list(jview(*entries), x as int, *old(y) as int, fs as int, lh as int);
            final(svg)@ == old(svg)@ + r.0 && *final(y) == r.1
        }),
    decreases entries, 0int,
{
    match entries {
        JsonValue::Array(arr) => {
            proof {
                lemma_array_view(*arr);
            }
            let ghost iv = item_views(arr@);
            let ghost s0 = svg@;
            let ghost y0 = *y as int;
            let mut i: usize = 0;
            assert(s0 + Seq::<char>::empty() =~= s0);
            while i < arr.len()
                invariant
                    i <= arr@.len(),
                    *entries == JsonValue::Array(*arr),
                    iv == item_views(arr@),
                    render_items(iv, 0, x as int, y0, fs as int, lh as int).2,
                    ({
                        let done = render_items(iv, 0, x as int, y0, fs as int, lh as int);
                        let rest = render_items(iv, i as int, x as int, *y as int, fs as int, lh as int);
                        &&& rest.2
                        &&& svg@ + rest.0 == s0 + done.0
                        &&& rest.1 == done.1
                    }),
                decreases arr@.len() - i,
            {
                let ghost before = svg@;
                let ghost yb = *y as int;
                proof {
                    assert(decreases_to!(*entries => (*entries)->Array_0));
                    assert((*entries)->Array_0 == *arr);
                    assert(decreases_to!(*arr => arr@));
                    assert(decreases_to!(arr@ => arr@[i as int]));
                    assert(iv[i as int] == jview(arr@[i as int]));
                }
                render_one(svg, &arr[i], x, y, fs, lh);
                proof {
                    let here = render_entry(iv[i as int], x as int, yb, fs as int, lh as int);
                    let rest = render_items(iv, i + 1, x as int, here.1, fs as int, lh as int);
                    assert(svg@ == before + here.0);
                    assert(before + (here.0 + rest.0) =~= before + here.0 + rest.0);
                }
                i = i + 1;
            }
            assert(svg@ + Seq::<char>::empty() =~= svg@);
        },
        _ => {
            assert(svg@ =~= old(svg)@ + Seq::<char>::empty());
        },
    }
}

/// Draws one entry.
fn render_one(svg: &mut String, entry: &JsonValue, x: u32, y: &mut u32, fs: u32, lh: u32)
    requires
        render_entry(jview(*entry), x as int, *old(y) as int, fs as int, lh as int).2,
    ensures
        ({
            let r = render_entry(jview(*entry), x as int, *old(y) as int, fs as int, lh as int);
            final(svg)@ == old(svg)@ + r.0 && *final(y) == r.1
        }),
    decreases entry, 1int,
{
    let etype = member_str_exec(entry, "type", "simple");
    let tc = chars_of(etype.as_str());
    let is_simple = crate::text::eq_lit(&tc, "simple");
    let is_constant = crate::text::eq_lit(&tc, "constant");
    if is_simple || is_constant {
        let text = member_str_exec(entry, "text", "");
        let remark = member_str_exec(entry, "remark", "");
        let mut display = if is_constant { owned("— ") } else { String::new() };
        let cut = trancate_text(text.as_str(), 32);
        append_str(&mut display, cut.as_str());
        append_str(&mut display, remark.as_str());
        assert(display@ =~= (if is_constant {
            "— "@
        } else {
            Seq::<char>::empty()
        }) + truncated(text@, 32) + remark@);
        push_text_el(svg, x, *y, "#bbb", fs, display.as_str());
        *y = *y + lh;
    } else if crate::text::eq_lit(&tc, "branch") {
        let cond = member_str_exec(entry, "condition", "");
        let mut body = owned("？ ");
        append_str(&mut body, cond.as_str());
        push_text_el(svg, x, *y, "#d09040", fs, body.as_str());
        *y = *y + lh;
        render_sub(svg, entry, x + 16, y, fs - 1, lh);
    } else if crate::text::eq_lit(&tc, "trigger_block") {
        let trigger = member_str_exec(entry, "trigger", "");
        push_text_el(svg, x, *y, "#a0c0e0", fs, trigger.as_str());
        *y = *y + lh;
        render_sub(svg, entry, x + 8, y, fs, lh);
    } else {
        assert(svg@ =~= old(svg)@ + Seq::<char>::empty());
    }
}

/// Draws the entries an entry holds.
fn render_sub(svg: &mut String, entry: &JsonValue, x: u32, y: &mut u32, fs: u32, lh: u32)
    requires
        sub_list(jview(*entry), x as int, *old(y) as int, fs as int, lh as int).2,
    ensures
        ({
            let r = sub_list(jview(*entry), x as int, *old(y) as int, fs as int, lh as int);
            final(svg)@ == old(svg)@ + r.0 && *final(y) == r.1
        }),
    decreases entry, 0int,
{
    match entry {
        JsonValue::Object(kv) => {
            proof {
                lemma_object_view(*kv);
            }
            let p = crate::dz::dzcheck::member_pos(kv, "entries");
            if p < kv.len() {
                proof {
                    assert(decreases_to!(*entry => (*entry)->Object_0));
                    assert((*entry)->Object_0 == *kv);
                    assert(decreases_to!(*kv => kv@));
                    assert(decreases_to!(kv@ => kv@[p as int]));
                    assert(decreases_to!(kv@[p as int] => kv@[p as int].1));
                }
                render_entries(svg, &kv[p].1, x, y, fs, lh);
            } else {
                assert(svg@ =~= old(svg)@ + Seq::<char>::empty());
            }
        },
        _ => {
            assert(svg@ =~= old(svg)@ + Seq::<char>::empty());
        },
    }
}

/// Whether the entries can be drawn from (`x`, `y`) with every coordinate
/// in range, and if so the `y` below them.
pub fn entries_fit(entries: &JsonValue, x: u32, y: u32, fs: u32, lh: u32) -> (r: Option<u32>)
    ensures
        ({
            let t = render_list(jview(*entries), x as int, y as int, fs as int, lh as int);
            match r {
                Some(y2) => t.2 && y2 == t.1,
                None => !t.2,
            }
        }),
    decreases entries, 0int,
{
    match entries {
        JsonValue::Array(arr) => {
            proof {
                lemma_array_view(*arr);
            }
            let ghost iv = item_views(arr@);
            let mut cur = y;
            let mut i: usize = 0;
            while i < arr.len()
                invariant
                    i <= arr@.len(),
                    *entries == JsonValue::Array(*arr),
                    iv == item_views(arr@),
                    render_list(jview(*entries), x as int, y as int, fs as int, lh as int) == render_items(
                        iv,
                        0,
                        x as int,
                        y as int,
                        fs as int,
                        lh as int,
                    ),
                    ({
                        let all = render_items(iv, 0, x as int, y as int, fs as int, lh as int);
                        let rest = render_items(iv, i as int, x as int, cur as int, fs as int, lh as int);
                        &&& rest.2 == all.2
                        &&& rest.1 == all.1
                    }),
                decreases arr@.len() - i,
            {
                proof {
                    assert(decreases_to!(*entries => (*entries)->Array_0));
                    assert((*entries)->Array_0 == *arr);
                    assert(decreases_to!(*arr => arr@));
                    assert(decreases_to!(arr@ => arr@[i as int]));
                    assert(iv[i as int] == jview(arr@[i as int]));
                }
                match entry_fits(&arr[i], x, cur, fs, lh) {
                    Some(y2) => {
                        cur = y2;
                    },
                    None => {
                        assert(!render_items(iv, i as int, x as int, cur as int, fs as int, lh as int).2);
                        return None;
                    },
                }
                i = i + 1;
            }
            Some(cur)
        },
        _ => Some(y),
    }
}

fn entry_fits(entry: &JsonValue, x: u32, y: u32, fs: u32, lh: u32) -> (r: Option<u32>)
    ensures
        ({
            let t = render_entry(jview(*entry), x as int, y as int, fs as int, lh as int);
            match r {
                Some(y2) => t.2 && y2 == t.1,
                None => !t.2,
            }
        }),
    decreases entry, 1int,
{
    let etype = member_str_exec(entry, "type", "simple");
    let tc = chars_of(etype.as_str());
    if crate::text::eq_lit(&tc, "simple") || crate::text::eq_lit(&tc, "constant") {
        if y > u32::MAX - lh {
            None
        } else {
            Some(y + lh)
        }
    } else if crate::text::eq_lit(&tc, "branch") {
        if y > u32::MAX - lh || x > u32::MAX - 16 || fs < 1 {
            None
        } else {
            sub_fits(entry, x + 16, y + lh, fs - 1, lh)
        }
    } else if crate::text::eq_lit(&tc, "trigger_block") {
        if y > u32::MAX - lh || x > u32::MAX - 8 {
            None
        } else {
            sub_fits(entry, x + 8, y + lh, fs, lh)
        }
    } else {
        Some(y)
    }
}

fn sub_fits(entry: &JsonValue, x: u32, y: u32, fs: u32, lh: u32) -> (r: Option<u32>)
    ensures
        ({
            let t = sub_list(jview(*entry), x as int, y as int, fs as int, lh as int);
            match r {
                Some(y2) => t.2 && y2 == t.1,
                None => !t.2,
            }
        }),
    decreases entry, 0int,
{
    match entry {
        JsonValue::Object(kv) => {
            proof {
                lemma_object_view(*kv);
            }
            let p = crate::dz::dzcheck::member_pos(kv, "entries");
            if p < kv.len() {
                proof {
                    assert(decreases_to!(*entry => (*entry)->Object_0));
                    assert((*entry)->Object_0 == *kv);
                    assert(decreases_to!(*kv => kv@));
                    assert(decreases_to!(kv@ => kv@[p as int]));
                    assert(decreases_to!(kv@[p as int] => kv@[p as int].1));
                }
                entries_fit(&kv[p].1, x, y, fs, lh)
            } else {
                Some(y)
            }
        },
        _ => Some(y),
    }
}

} // verus!
