//! Line reader of DZ card sources: every non-blank line with its indent
//! (leading spaces), its trimmed text and its 1-based number.
use vstd::prelude::*;
use crate::dz::ports::ParseError;
use crate::text::{split_char, split_chars, string_of, trim, trim_vec, views};

verus! {

/// One non-blank source line.
#[derive(Debug, Clone)]
pub struct Line {
    pub indent: usize,
    pub text: String,
    pub line_no: usize,
}

/// The lines of `s` as `str::lines` gives them (a final newline ends the
/// last line rather than starting an empty one). A carriage return before a
/// newline stays on its line; every use below trims it away.
pub open spec fn raw_lines(s: Seq<char>) -> Seq<Seq<char>> {
    let p = split_char(s, '\n');
    if p.last().len() == 0 {
        p.drop_last()
    } else {
        p
    }
}

/// Number of spaces `l` starts with.
pub open spec fn leading_spaces(l: Seq<char>) -> nat
    decreases l.len(),
{
    if l.len() > 0 && l[0] == ' ' {
        1 + leading_spaces(l.drop_first())
    } else {
        0
    }
}

/// A line as (indent, text, line number).
pub open spec fn line_view(l: Line) -> (nat, Seq<char>, nat) {
    (l.indent as nat, l.text@, l.line_no as nat)
}

/// The non-blank lines among the first `n` raw lines.
pub open spec fn kept_lines(raw: Seq<Seq<char>>, n: int) -> Seq<(nat, Seq<char>, nat)>
    decreases n,
{
    if n <= 0 {
        Seq::empty()
    } else {
        let rest = kept_lines(raw, n - 1);
        let l = raw[n - 1];
        if trim(l).len() == 0 {
            rest
        } else {
            rest.push((leading_spaces(l), trim(l), n as nat))
        }
    }
}

/// The lines `tokenize` yields for `source`.
pub open spec fn source_lines(source: Seq<char>) -> Seq<(nat, Seq<char>, nat)> {
    kept_lines(raw_lines(source), raw_lines(source).len() as int)
}

fn count_spaces(l: &Vec<char>) -> (r: usize)
    ensures
        r == leading_spaces(l@),
{
    let mut i: usize = 0;
    assert(l@.subrange(0, l@.len() as int) =~= l@);
    while i < l.len() && l[i] == ' '
        invariant
            i <= l@.len(),
            leading_spaces(l@) == i + leading_spaces(l@.subrange(i as int, l@.len() as int)),
        decreases l@.len() - i,
    {
        assert(l@.subrange(i as int, l@.len() as int).drop_first() =~= l@.subrange(i + 1, l@.len() as int));
        i = i + 1;
    }
    proof {
        if i < l@.len() {
            assert(l@.subrange(i as int, l@.len() as int)[0] == l@[i as int]);
        } else {
            assert(l@.subrange(i as int, l@.len() as int).len() == 0);
        }
    }
    i
}

/// Splits `source` into its non-blank lines; no input is refused, so the
/// error list is always empty.
pub fn tokenize(source: &str) -> (r: (Vec<Line>, Vec<ParseError>))
    ensures
        r.0@.map_values(|l: Line| line_view(l)) == source_lines(source@),
        r.1@.len() == 0,
{
    let chars = crate::text::chars_of(source);
    let mut parts = split_chars(&chars, '\n');
    proof {
        assert(split_char(source@, '\n').len() > 0) by {
            lemma_split_nonempty(source@, '\n');
        }
    }
    let ghost raw = raw_lines(source@);
    let n0 = parts.len();
    if parts[n0 - 1].len() == 0 {
        let ghost before = views(parts@);
        parts.pop();
        assert(views(parts@) =~= before.drop_last());
    }
    assert(views(parts@) == raw);
    let mut lines: Vec<Line> = Vec::new();
    let mut i: usize = 0;
    while i < parts.len()
        invariant
            i <= parts@.len(),
            views(parts@) == raw,
            lines@.map_values(|l: Line| line_view(l)) == kept_lines(raw, i as int),
        decreases parts@.len() - i,
    {
        let t = trim_vec(&parts[i]);
        assert(parts@[i as int]@ == raw[i as int]);
        if t.len() > 0 {
            let indent = count_spaces(&parts[i]);
            let line = Line { indent, text: string_of(&t), line_no: i + 1 };
            let ghost before = lines@;
            lines.push(line);
            assert(lines@.map_values(|l: Line| line_view(l)) =~= before.map_values(|l: Line| line_view(l)).push(
                line_view(line),
            ));
        }
        i = i + 1;
    }
    (lines, Vec::new())
}

pub proof fn lemma_split_nonempty(s: Seq<char>, sep: char)
    ensures
        split_char(s, sep).len() > 0,
    decreases s.len(),
{
    if s.len() > 0 {
        lemma_split_nonempty(s.drop_last(), sep);
    }
}

} // verus!
