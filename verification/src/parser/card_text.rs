//! Parser for card text: lines of five-stage rows ("condition → subject →
//! predicate → object → note"), tag definition blocks with table rows, and
//! header and metadata lines.
use vstd::prelude::*;
use crate::base::FiveStageEntry;
use crate::parser::lexer::{lex, tokenize, Token, TokenKind};
use crate::text::{
    chars_of, contains_lit, dec, eq_lit, find, find_lit, has_prefix, has_sub, int_to_string,
    matches_at, owned, slice_vec, split_char, split_chars, starts_with_lit, string_of, trim,
    trim_vec, utf8_len, views,
};

verus! {

/// A tag definition block: the tag's name and its rows.
#[derive(Debug, Clone, PartialEq)]
pub struct TagDef {
    pub tag_name: String,
    pub entries: Vec<FiveStageEntry>,
}

/// What a card's text parses to.
#[derive(Debug, Clone, PartialEq)]
pub struct CardAst {
    pub name: String,
    pub list_tags: Vec<String>,
    pub pre_tag: Vec<String>,
    pub duel_tags: Vec<String>,
    pub entries: Vec<FiveStageEntry>,
    pub tag_defs: Vec<TagDef>,
}

#[derive(Debug, Clone, PartialEq)]
pub struct ParseError {
    pub line: usize,
    pub message: String,
}

/// Result of parsing one card.
#[derive(Debug, Clone)]
pub struct ParseResult {
    pub card_name: String,
    pub ast: Option<CardAst>,
    pub errors: Vec<ParseError>,
}

impl ParseResult {
    pub fn success(name: &str, ast: CardAst) -> (r: ParseResult)
        ensures
            r.card_name@ == name@,
            r.ast == Some(ast),
            r.errors@.len() == 0,
    {
        ParseResult { card_name: owned(name), ast: Some(ast), errors: Vec::new() }
    }

    pub fn failure(name: &str, errors: Vec<ParseError>) -> (r: ParseResult)
        ensures
            r.card_name@ == name@,
            r.ast is None,
            r.errors == errors,
    {
        ParseResult { card_name: owned(name), ast: None, errors }
    }
}

/// A five-stage row as char sequences.
pub struct EntryView {
    pub id: Seq<char>,
    pub condition: Seq<char>,
    pub subject: Seq<char>,
    pub predicate: Seq<char>,
    pub object: Seq<char>,
    pub note: Seq<char>,
}

pub open spec fn entry_view(e: FiveStageEntry) -> EntryView {
    EntryView {
        id: e.id@,
        condition: e.condition@,
        subject: e.subject@,
        predicate: e.predicate@,
        object: e.object@,
        note: e.note@,
    }
}

pub open spec fn entries_view(v: Seq<FiveStageEntry>) -> Seq<EntryView> {
    v.map_values(|e: FiveStageEntry| entry_view(e))
}

/// A tag definition block as char sequences.
pub struct TagDefView {
    pub tag_name: Seq<char>,
    pub entries: Seq<EntryView>,
}

pub open spec fn tag_def_view(t: TagDef) -> TagDefView {
    TagDefView { tag_name: t.tag_name@, entries: entries_view(t.entries@) }
}

pub open spec fn tag_defs_view(v: Seq<TagDef>) -> Seq<TagDefView> {
    v.map_values(|t: TagDef| tag_def_view(t))
}

pub open spec fn strings_view(v: Seq<String>) -> Seq<Seq<char>> {
    v.map_values(|s: String| s@)
}

pub open spec fn tokens_view(v: Seq<Token>) -> Seq<TokenKind> {
    v.map_values(|t: Token| t@)
}

// ---------------------------------------------------------------------------
// Segments
// ---------------------------------------------------------------------------

/// The text a token stands for inside a segment.
pub open spec fn token_text(t: TokenKind) -> Seq<char> {
    match t {
        TokenKind::Text(s) => s,
        TokenKind::Number(s) => s,
        TokenKind::Dash => "—"@,
        TokenKind::Colon => "："@,
        TokenKind::Comma => "，"@,
        TokenKind::LParen => "（"@,
        TokenKind::RParen => "）"@,
        TokenKind::LBook => "《"@,
        TokenKind::RBook => "》"@,
        TokenKind::LBracket => "["@,
        TokenKind::RBracket => "]"@,
        TokenKind::Plus => "+"@,
        TokenKind::Times => "×"@,
        TokenKind::Equals => "="@,
        TokenKind::Gt => ">"@,
        TokenKind::Lt => "<"@,
        TokenKind::Hash => "#"@,
        TokenKind::Pipe => "|"@,
        _ => Seq::empty(),
    }
}

pub open spec fn raw_text(ts: Seq<TokenKind>) -> Seq<char>
    decreases ts.len(),
{
    if ts.len() == 0 {
        Seq::empty()
    } else {
        raw_text(ts.drop_last()) + token_text(ts.last())
    }
}

/// The text of a segment: its tokens' texts joined, trimmed.
pub open spec fn seg_text(ts: Seq<TokenKind>) -> Seq<char> {
    trim(raw_text(ts))
}

/// Tokens split at each arrow.
pub open spec fn split_arrow(ts: Seq<TokenKind>) -> Seq<Seq<TokenKind>>
    decreases ts.len(),
{
    if ts.len() == 0 {
        seq![Seq::empty()]
    } else {
        let prev = split_arrow(ts.drop_last());
        if ts.last() is Arrow {
            prev.push(Seq::empty())
        } else {
            prev.update(prev.len() - 1, prev.last().push(ts.last()))
        }
    }
}

/// Tokens without line breaks.
pub open spec fn drop_breaks(ts: Seq<TokenKind>) -> Seq<TokenKind> {
    ts.filter(|t: TokenKind| !(t is Newline) && !(t is BlankLine))
}

/// The segments of a line.
pub open spec fn line_segments(line: Seq<char>) -> Seq<Seq<TokenKind>> {
    split_arrow(drop_breaks(lex(line)))
}

impl Token {
    pub fn copy(&self) -> (r: Token)
        ensures
            r@ == self@,
    {
        match self {
            Token::Arrow => Token::Arrow,
            Token::Newline => Token::Newline,
            Token::Pipe => Token::Pipe,
            Token::Dash => Token::Dash,
            Token::Colon => Token::Colon,
            Token::Comma => Token::Comma,
            Token::LParen => Token::LParen,
            Token::RParen => Token::RParen,
            Token::LBook => Token::LBook,
            Token::RBook => Token::RBook,
            Token::LBracket => Token::LBracket,
            Token::RBracket => Token::RBracket,
            Token::Equals => Token::Equals,
            Token::Plus => Token::Plus,
            Token::Times => Token::Times,
            Token::Gt => Token::Gt,
            Token::Lt => Token::Lt,
            Token::Hash => Token::Hash,
            Token::Number(s) => Token::Number(s.clone()),
            Token::Text(s) => Token::Text(s.clone()),
            Token::BlankLine => Token::BlankLine,
            Token::EOF => Token::EOF,
        }
    }
}

pub open spec fn segs_view(v: Seq<Vec<Token>>) -> Seq<Seq<TokenKind>> {
    v.map_values(|x: Vec<Token>| tokens_view(x@))
}

/// Tokens split at each arrow.
pub fn split_by_arrow(tokens: &[Token]) -> (r: Vec<Vec<Token>>)
    ensures
        segs_view(r@) == split_arrow(tokens_view(tokens@)),
{
    let mut done: Vec<Vec<Token>> = Vec::new();
    let mut cur: Vec<Token> = Vec::new();
    let mut i: usize = 0;
    assert(tokens_view(cur@) =~= Seq::<TokenKind>::empty());
    assert(segs_view(done@).push(tokens_view(cur@)) =~= split_arrow(
        tokens_view(tokens@.subrange(0, 0)),
    ));
    while i < tokens.len()
        invariant
            i <= tokens@.len(),
            segs_view(done@).push(tokens_view(cur@)) == split_arrow(
                tokens_view(tokens@.subrange(0, i as int)),
            ),
        decreases tokens@.len() - i,
    {
        let ghost pre = tokens_view(tokens@.subrange(0, i as int));
        assert(tokens_view(tokens@.subrange(0, i + 1)).drop_last() =~= pre);
        assert(tokens_view(tokens@.subrange(0, i + 1)).last() == tokens@[i as int]@);
        match &tokens[i] {
            Token::Arrow => {
                let ghost d0 = segs_view(done@);
                done.push(cur);
                cur = Vec::new();
                assert(segs_view(done@) =~= d0.push(split_arrow(pre).last()));
                assert(tokens_view(cur@) =~= Seq::<TokenKind>::empty());
                assert(segs_view(done@).push(tokens_view(cur@)) =~= split_arrow(
                    tokens_view(tokens@.subrange(0, i + 1)),
                ));
            },
            t => {
                let c = t.copy();
                cur.push(c);
                assert(tokens_view(cur@) =~= split_arrow(pre).last().push(tokens@[i as int]@));
                assert(segs_view(done@).push(tokens_view(cur@)) =~= split_arrow(
                    tokens_view(tokens@.subrange(0, i + 1)),
                ));
            },
        }
        i = i + 1;
    }
    assert(tokens@.subrange(0, tokens@.len() as int) =~= tokens@);
    let ghost d0 = segs_view(done@);
    done.push(cur);
    assert(segs_view(done@) =~= split_arrow(tokens_view(tokens@)));
    done
}

fn token_text_exec(t: &Token) -> (r: &str)
    requires
        !(t is Text) && !(t is Number),
    ensures
        r@ == token_text(t@),
{
    proof {
        lemma_empty_str();
    }
    match t {
        Token::Dash => "—",
        Token::Colon => "：",
        Token::Comma => "，",
        Token::LParen => "（",
        Token::RParen => "）",
        Token::LBook => "《",
        Token::RBook => "》",
        Token::LBracket => "[",
        Token::RBracket => "]",
        Token::Plus => "+",
        Token::Times => "×",
        Token::Equals => "=",
        Token::Gt => ">",
        Token::Lt => "<",
        Token::Hash => "#",
        Token::Pipe => "|",
        _ => "",
    }
}

proof fn lemma_empty_str()
    ensures
        ""@ == Seq::<char>::empty(),
{
    reveal_strlit("");
}

/// The text of a segment: its tokens' texts joined, trimmed.
pub fn segment_to_text(tokens: &[Token]) -> (r: String)
    ensures
        r@ == seg_text(tokens_view(tokens@)),
{
    let mut s: Vec<char> = Vec::new();
    let mut i: usize = 0;
    proof {
        lemma_empty_str();
    }
    while i < tokens.len()
        invariant
            i <= tokens@.len(),
            ""@ == Seq::<char>::empty(),
            s@ == raw_text(tokens_view(tokens@.subrange(0, i as int))),
        decreases tokens@.len() - i,
    {
        let ghost pre = tokens_view(tokens@.subrange(0, i as int));
        assert(tokens_view(tokens@.subrange(0, i + 1)).drop_last() =~= pre);
        assert(tokens_view(tokens@.subrange(0, i + 1)).last() == tokens@[i as int]@);
        let piece: Vec<char> = match &tokens[i] {
            Token::Text(txt) => chars_of(txt.as_str()),
            Token::Number(txt) => chars_of(txt.as_str()),
            t => chars_of(token_text_exec(t)),
        };
        let mut q: usize = 0;
        let ghost s0 = s@;
        while q < piece.len()
            invariant
                q <= piece@.len(),
                s@ == s0 + piece@.subrange(0, q as int),
            decreases piece@.len() - q,
        {
            s.push(piece[q]);
            q = q + 1;
            assert(s@ =~= s0 + piece@.subrange(0, q as int));
        }
        assert(piece@.subrange(0, piece@.len() as int) =~= piece@);
        i = i + 1;
    }
    assert(tokens@.subrange(0, tokens@.len() as int) =~= tokens@);
    let t = trim_vec(&s);
    string_of(&t)
}

fn drop_breaks_exec(tokens: Vec<Token>) -> (r: Vec<Token>)
    ensures
        tokens_view(r@) == drop_breaks(tokens_view(tokens@)),
{
    let mut out: Vec<Token> = Vec::new();
    let mut i: usize = 0;
    while i < tokens.len()
        invariant
            i <= tokens@.len(),
            tokens_view(out@) == drop_breaks(tokens_view(tokens@.subrange(0, i as int))),
        decreases tokens@.len() - i,
    {
        proof {
            reveal(Seq::filter);
            assert(tokens_view(tokens@.subrange(0, i + 1)).drop_last() =~= tokens_view(
                tokens@.subrange(0, i as int),
            ));
        }
        match &tokens[i] {
            Token::Newline => {},
            Token::BlankLine => {},
            t => {
                let ghost o0 = tokens_view(out@);
                out.push(t.copy());
                assert(tokens_view(out@) =~= o0.push(tokens@[i as int]@));
            },
        }
        i = i + 1;
    }
    assert(tokens@.subrange(0, tokens@.len() as int) =~= tokens@);
    out
}

/// The segments of a line.
fn segments_of(line: &str) -> (r: Vec<Vec<Token>>)
    ensures
        segs_view(r@) == line_segments(line@),
{
    let tokens = tokenize(line);
    assert(tokens_view(tokens@) == lex(line@));
    let filtered = drop_breaks_exec(tokens);
    split_by_arrow(filtered.as_slice())
}

// ---------------------------------------------------------------------------
// Line kinds
// ---------------------------------------------------------------------------

/// Category tags a header line names.
pub open spec fn header_tags(line: Seq<char>) -> Seq<Seq<char>> {
    (if has_sub(line, "阵营"@) { seq!["阵营"@] } else { Seq::empty() })
    + (if has_sub(line, "职业"@) { seq!["职业"@] } else { Seq::empty() })
    + (if has_sub(line, "兵刃"@) { seq!["兵刃"@] } else { Seq::empty() })
    + (if has_sub(line, "宝器"@) { seq!["宝器"@] } else { Seq::empty() })
    + (if has_sub(line, "甲胄"@) { seq!["甲胄"@] } else { Seq::empty() })
    + (if has_sub(line, "武学"@) { seq!["武学"@] } else { Seq::empty() })
    + (if has_sub(line, "术法"@) { seq!["术法"@] } else { Seq::empty() })
    + (if has_sub(line, "基本牌"@) { seq!["基本牌"@] } else { Seq::empty() })
}

/// The tag a "[Name]定义：" line opens a definition block for.
pub open spec fn tag_def_start_of(text: Seq<char>) -> Option<Seq<char>> {
    let t = trim(text);
    if t.len() > 0 && t[0] == '[' && has_sub(t, "]"@) {
        let e = find(t, "]"@)->0;
        let after = trim(t.subrange(e + 1, t.len() as int));
        if has_prefix(after, "定义："@) || has_prefix(after, "定义:"@) {
            Some(t.subrange(1, e))
        } else {
            None
        }
    } else {
        None
    }
}

/// The tag a "[Name]" text refers to.
pub open spec fn tag_ref_of(text: Seq<char>) -> Option<Seq<char>> {
    let t = trim(text);
    if t.len() >= 2 && t[0] == '[' && t.last() == ']' && !t.contains('|') {
        let inner = t.subrange(1, t.len() - 1);
        if !inner.contains(':') && !inner.contains('：') && inner.len() > 0 {
            Some(inner)
        } else {
            None
        }
    } else {
        None
    }
}

/// Cells of a table row, trimmed.
pub open spec fn row_cells(t: Seq<char>) -> Seq<Seq<char>> {
    split_char(t, '|').map_values(|c: Seq<char>| trim(c))
}

/// The row a table line "| id | condition | subject | predicate | object | note |" holds;
/// header and separator rows hold none.
pub open spec fn table_row_of(line: Seq<char>) -> Option<EntryView> {
    let t = trim(line);
    let cells = row_cells(t);
    if !(t.len() > 0 && t[0] == '|') || cells.len() < 6 {
        None
    } else {
        let id = cells[1];
        if id == "#"@ || id == "编号"@ || id.len() == 0 || id == "-"@ {
            None
        } else {
            Some(
                EntryView {
                    id: id,
                    condition: cells[2],
                    subject: cells[3],
                    predicate: cells[4],
                    object: cells[5],
                    note: if cells.len() > 6 { cells[6] } else { Seq::empty() },
                },
            )
        }
    }
}

fn views_trim(v: &Vec<Vec<char>>) -> (r: Vec<Vec<char>>)
    ensures
        views(r@) == views(v@).map_values(|c: Seq<char>| trim(c)),
{
    let mut out: Vec<Vec<char>> = Vec::new();
    let mut i: usize = 0;
    while i < v.len()
        invariant
            i <= v@.len(),
            views(out@) == views(v@).subrange(0, i as int).map_values(|c: Seq<char>| trim(c)),
        decreases v@.len() - i,
    {
        let t = trim_vec(&v[i]);
        let ghost o0 = views(out@);
        let ghost tv = t@;
        out.push(t);
        assert(views(out@) =~= o0.push(tv));
        assert(views(v@).subrange(0, i + 1) =~= views(v@).subrange(0, i as int).push(v@[i as int]@));
        assert(views(out@) =~= views(v@).subrange(0, i + 1).map_values(|c: Seq<char>| trim(c)));
        i = i + 1;
    }
    assert(views(v@).subrange(0, v@.len() as int) =~= views(v@));
    out
}

fn table_row_exec(line: &Vec<char>) -> (r: Option<FiveStageEntry>)
    ensures
        match r {
            Some(e) => table_row_of(line@) == Some(entry_view(e)),
            None => table_row_of(line@) is None,
        },
{
    let t = trim_vec(line);
    if !(t.len() > 0 && t[0] == '|') {
        return None;
    }
    let pieces = split_chars(&t, '|');
    let cells = views_trim(&pieces);
    assert(views(cells@) == row_cells(t@));
    if cells.len() < 6 {
        return None;
    }
    let id = &cells[1];
    if eq_lit(id, "#") || eq_lit(id, "编号") || id.len() == 0 || eq_lit(id, "-") {
        return None;
    }
    assert(views(cells@)[1] == cells@[1]@);
    let note = if cells.len() > 6 {
        string_of(&cells[6])
    } else {
        String::new()
    };
    let e = FiveStageEntry {
        id: string_of(&cells[1]),
        condition: string_of(&cells[2]),
        subject: string_of(&cells[3]),
        predicate: string_of(&cells[4]),
        object: string_of(&cells[5]),
        note,
    };
    assert(views(cells@)[2] == cells@[2]@);
    assert(views(cells@)[3] == cells@[3]@);
    assert(views(cells@)[4] == cells@[4]@);
    assert(views(cells@)[5] == cells@[5]@);
    proof {
        if cells.len() > 6 {
            assert(views(cells@)[6] == cells@[6]@);
        }
    }
    Some(e)
}

/// The row a table line holds, if any.
pub fn parse_table_row(line: &str) -> (r: Option<FiveStageEntry>)
    ensures
        match r {
            Some(e) => table_row_of(line@) == Some(entry_view(e)),
            None => table_row_of(line@) is None,
        },
{
    let v = chars_of(line);
    table_row_exec(&v)
}

/// The tag a "[Name]定义：" line opens a block for, if it is one.
pub fn parse_tag_def_start(text: &str) -> (r: Option<String>)
    ensures
        match r {
            Some(n) => tag_def_start_of(text@) == Some(n@),
            None => tag_def_start_of(text@) is None,
        },
{
    let v = chars_of(text);
    tag_def_start_exec(&v)
}

fn tag_def_start_exec(text: &Vec<char>) -> (r: Option<String>)
    ensures
        match r {
            Some(n) => tag_def_start_of(text@) == Some(n@),
            None => tag_def_start_of(text@) is None,
        },
{
    let t = trim_vec(text);
    if !(t.len() > 0 && t[0] == '[') {
        return None;
    }
    match find_lit(&t, "]") {
        Some(e) => {
            proof {
                reveal_strlit("]");
                assert(t@.subrange(e as int, e + 1) == "]"@);
                assert(t@.subrange(e as int, e + 1)[0] == t@[e as int]);
            }
            assert(t@[e as int] == ']');
            assert(e >= 1);
            let name = slice_vec(&t, 1, e);
            let after_raw = slice_vec(&t, e + 1, t.len());
            let after = trim_vec(&after_raw);
            if starts_with_lit(&after, "定义：") || starts_with_lit(&after, "定义:") {
                Some(string_of(&name))
            } else {
                None
            }
        },
        None => None,
    }
}

/// The tag a "[Name]" text refers to, if it is one.
pub fn parse_tag_ref(text: &str) -> (r: Option<String>)
    ensures
        match r {
            Some(n) => tag_ref_of(text@) == Some(n@),
            None => tag_ref_of(text@) is None,
        },
{
    let t = crate::text::trim_str(text);
    if !(t.len() >= 2 && t[0] == '[' && t[t.len() - 1] == ']') {
        return None;
    }
    if crate::text::contains_char(&t, '|') {
        return None;
    }
    let inner = slice_vec(&t, 1, t.len() - 1);
    if crate::text::contains_char(&inner, ':') || crate::text::contains_char(&inner, '：') || inner.len()
        == 0 {
        return None;
    }
    Some(string_of(&inner))
}

// ---------------------------------------------------------------------------
// Whole cards
// ---------------------------------------------------------------------------

/// Byte budget of a row's condition text.
pub const MAX_CONDITION_BYTES: usize = 300;

/// Length of the longest prefix of `s` from `i` on whose UTF-8 form fits in `n` bytes.
pub open spec fn cap_len(s: Seq<char>, n: nat, i: int) -> int
    decreases s.len() - i,
{
    if 0 <= i < s.len() && utf8_len(s.subrange(0, i + 1)) <= n {
        cap_len(s, n, i + 1)
    } else {
        i
    }
}

/// The longest prefix of `s` whose UTF-8 form fits in `n` bytes.
pub open spec fn cap_bytes(s: Seq<char>, n: nat) -> Seq<char> {
    s.subrange(0, cap_len(s, n, 0))
}

pub proof fn lemma_cap_len(s: Seq<char>, n: nat, i: int)
    requires
        0 <= i <= s.len(),
    ensures
        i <= cap_len(s, n, i) <= s.len(),
    decreases s.len() - i,
{
    if i < s.len() && utf8_len(s.subrange(0, i + 1)) <= n {
        lemma_cap_len(s, n, i + 1);
    }
}

fn char_len_exec(c: char) -> (r: usize)
    ensures
        r == crate::text::char_utf8_len(c),
{
    if (c as u32) < 0x80 {
        1
    } else if (c as u32) < 0x800 {
        2
    } else if (c as u32) < 0x10000 {
        3
    } else {
        4
    }
}

fn cap_bytes_exec(s: &Vec<char>, n: usize) -> (r: Vec<char>)
    ensures
        r@ == cap_bytes(s@, n as nat),
{
    let mut i: usize = 0;
    let mut acc: usize = 0;
    assert(s@.subrange(0, 0) =~= Seq::<char>::empty());
    while i < s.len() && char_len_exec(s[i]) <= n - acc
        invariant
            i <= s.len(),
            acc == utf8_len(s@.subrange(0, i as int)),
            acc <= n,
            cap_len(s@, n as nat, i as int) == cap_len(s@, n as nat, 0),
        decreases s.len() - i,
    {
        let w = char_len_exec(s[i]);
        assert(s@.subrange(0, i + 1).drop_last() =~= s@.subrange(0, i as int));
        assert(s@.subrange(0, i + 1).last() == s@[i as int]);
        acc = acc + w;
        i = i + 1;
    }
    proof {
        if i < s.len() {
            assert(s@.subrange(0, i + 1).drop_last() =~= s@.subrange(0, i as int));
            assert(s@.subrange(0, i + 1).last() == s@[i as int]);
        }
        lemma_cap_len(s@, n as nat, i as int);
    }
    slice_vec(s, 0, i)
}

/// What has been read of a card's text so far.
pub struct CardParseState {
    pub entries: Seq<EntryView>,
    pub tag_defs: Seq<TagDefView>,
    pub current: Option<TagDefView>,
    pub list_tags: Seq<Seq<char>>,
    pub pre_tag: Seq<Seq<char>>,
}

/// The open tag block, kept if it has rows, then closed.
pub open spec fn close_block(st: CardParseState) -> CardParseState {
    match st.current {
        Some(td) => CardParseState {
            tag_defs: if td.entries.len() > 0 { st.tag_defs.push(td) } else { st.tag_defs },
            current: None,
            ..st
        },
        None => st,
    }
}

/// Metadata lines: limits, types, exclusions (and, among short lines, costs).
pub open spec fn meta_prefix(first: Seq<char>, with_cost: bool) -> bool {
    ||| has_prefix(first, "上限"@)
    ||| (with_cost && has_prefix(first, "消耗"@))
    ||| has_prefix(first, "类型"@)
    ||| has_prefix(first, "互斥"@)
}

/// A metadata line kept in the pre-tags: once if it names a limit, once if it
/// names an exclusion.
pub open spec fn meta_tags(line: Seq<char>) -> Seq<Seq<char>> {
    (if has_sub(line, "上限"@) { seq![line] } else { Seq::empty() })
    + (if has_sub(line, "互斥"@) { seq![line] } else { Seq::empty() })
}

/// The row of a five-stage line, if it has any content.
pub open spec fn five_stage_row(segs: Seq<Seq<TokenKind>>, count: nat) -> Option<EntryView> {
    let off = if segs.len() > 5 { 1int } else { 0int };
    let id_seg = if segs.len() > 5 { seg_text(segs[0]) } else { Seq::empty() };
    let cond = seg_text(segs[off]);
    let subj = seg_text(segs[off + 1]);
    let pred = seg_text(segs[off + 2]);
    if cond.len() > 0 || subj.len() > 0 || pred.len() > 0 {
        Some(
            EntryView {
                id: if id_seg.len() == 0 { dec(count + 1int) } else { id_seg },
                condition: cap_bytes(cond, 300),
                subject: subj,
                predicate: pred,
                object: seg_text(segs[off + 3]),
                note: seg_text(segs[off + 4]),
            },
        )
    } else {
        None
    }
}

/// A body line: a five-stage row, a metadata line, an attribute line or free text.
pub open spec fn body_line(st: CardParseState, line: Seq<char>) -> CardParseState {
    let segs = line_segments(line);
    if segs.len() >= 5 {
        let off = if segs.len() > 5 { 1int } else { 0int };
        if meta_prefix(seg_text(segs[off]), false) {
            CardParseState { pre_tag: st.pre_tag + meta_tags(line), ..st }
        } else {
            match five_stage_row(segs, st.entries.len()) {
                Some(e) => CardParseState { entries: st.entries.push(e), ..st },
                None => st,
            }
        }
    } else {
        let first = seg_text(segs[0]);
        if meta_prefix(first, true) {
            CardParseState { pre_tag: st.pre_tag + meta_tags(line), ..st }
        } else if has_sub(first, "生命"@) || has_sub(first, "护甲"@) || has_sub(first, "技力"@)
            || has_sub(first, "属性"@) {
            st
        } else if first.len() > 0 && utf8_len(first) > 2 && !has_prefix(first, "**"@) && !has_prefix(
            first,
            ">"@,
        ) && line[0] == '|' {
            match table_row_of(line) {
                Some(e) => CardParseState { entries: st.entries.push(e), ..st },
                None => st,
            }
        } else {
            st
        }
    }
}

/// Reading one line of card text.
pub open spec fn parse_line(st: CardParseState, raw: Seq<char>) -> CardParseState {
    let line = trim(raw);
    if line.len() == 0 {
        st
    } else if line[0] == '#' || has_prefix(line, "---"@) {
        CardParseState { list_tags: st.list_tags + header_tags(line), ..st }
    } else if tag_def_start_of(line) is Some {
        CardParseState {
            tag_defs: match st.current {
                Some(td) => st.tag_defs.push(td),
                None => st.tag_defs,
            },
            current: Some(TagDefView { tag_name: tag_def_start_of(line)->0, entries: Seq::empty() }),
            ..st
        }
    } else if st.current is Some && line[0] == '|' {
        CardParseState {
            current: match table_row_of(line) {
                Some(e) => Some(
                    TagDefView {
                        entries: st.current->0.entries.push(e),
                        ..st.current->0
                    },
                ),
                None => st.current,
            },
            ..st
        }
    } else {
        body_line(close_block(st), line)
    }
}

pub open spec fn start_state() -> CardParseState {
    CardParseState {
        entries: Seq::empty(),
        tag_defs: Seq::empty(),
        current: None,
        list_tags: Seq::empty(),
        pre_tag: Seq::empty(),
    }
}

/// Reading the lines in order.
pub open spec fn parse_lines(ls: Seq<Seq<char>>) -> CardParseState
    decreases ls.len(),
{
    if ls.len() == 0 {
        start_state()
    } else {
        parse_line(parse_lines(ls.drop_last()), ls.last())
    }
}

/// The state after reading all of `text`, its last tag block closed.
pub open spec fn card_state(text: Seq<char>) -> CardParseState {
    close_block(parse_lines(split_char(text, '\n')))
}

/// One of the category words a header line may name.
pub open spec fn is_category(w: Seq<char>) -> bool {
    w == "阵营"@ || w == "职业"@ || w == "兵刃"@ || w == "宝器"@ || w == "甲胄"@ || w == "武学"@ || w == "术法"@ || w == "基本牌"@
}

proof fn lemma_contains_left(x: Seq<Seq<char>>, y: Seq<Seq<char>>, w: Seq<char>)
    requires
        x.contains(w),
    ensures
        (x + y).contains(w),
{
    let j = choose|j: int| 0 <= j < x.len() && x[j] == w;
    assert((x + y)[j] == w);
}

proof fn lemma_header_tag_0(line: Seq<char>)
    requires
        has_sub(line, "阵营"@),
    ensures
        header_tags(line).contains("阵营"@),
{
    let c0: Seq<Seq<char>> = seq!["阵营"@];
    assert(c0[0] == "阵营"@);
    lemma_contains_left(c0, (if has_sub(line, "职业"@) { seq!["职业"@] } else { Seq::empty() }), "阵营"@);
    let c1: Seq<Seq<char>> = c0 + (if has_sub(line, "职业"@) { seq!["职业"@] } else { Seq::empty() });
    lemma_contains_left(c1, (if has_sub(line, "兵刃"@) { seq!["兵刃"@] } else { Seq::empty() }), "阵营"@);
    let c2: Seq<Seq<char>> = c1 + (if has_sub(line, "兵刃"@) { seq!["兵刃"@] } else { Seq::empty() });
    lemma_contains_left(c2, (if has_sub(line, "宝器"@) { seq!["宝器"@] } else { Seq::empty() }), "阵营"@);
    let c3: Seq<Seq<char>> = c2 + (if has_sub(line, "宝器"@) { seq!["宝器"@] } else { Seq::empty() });
    lemma_contains_left(c3, (if has_sub(line, "甲胄"@) { seq!["甲胄"@] } else { Seq::empty() }), "阵营"@);
    let c4: Seq<Seq<char>> = c3 + (if has_sub(line, "甲胄"@) { seq!["甲胄"@] } else { Seq::empty() });
    lemma_contains_left(c4, (if has_sub(line, "武学"@) { seq!["武学"@] } else { Seq::empty() }), "阵营"@);
    let c5: Seq<Seq<char>> = c4 + (if has_sub(line, "武学"@) { seq!["武学"@] } else { Seq::empty() });
    lemma_contains_left(c5, (if has_sub(line, "术法"@) { seq!["术法"@] } else { Seq::empty() }), "阵营"@);
    let c6: Seq<Seq<char>> = c5 + (if has_sub(line, "术法"@) { seq!["术法"@] } else { Seq::empty() });
    lemma_contains_left(c6, (if has_sub(line, "基本牌"@) { seq!["基本牌"@] } else { Seq::empty() }), "阵营"@);
    let c7: Seq<Seq<char>> = c6 + (if has_sub(line, "基本牌"@) { seq!["基本牌"@] } else { Seq::empty() });
    assert(header_tags(line) == c7);
}

proof fn lemma_header_tag_1(line: Seq<char>)
    requires
        has_sub(line, "职业"@),
    ensures
        header_tags(line).contains("职业"@),
{
    let pre: Seq<Seq<char>> = (if has_sub(line, "阵营"@) { seq!["阵营"@] } else { Seq::empty() });
    let c0: Seq<Seq<char>> = pre + seq!["职业"@];
    assert(c0[pre.len() as int] == "职业"@);
    lemma_contains_left(c0, (if has_sub(line, "兵刃"@) { seq!["兵刃"@] } else { Seq::empty() }), "职业"@);
    let c2: Seq<Seq<char>> = c0 + (if has_sub(line, "兵刃"@) { seq!["兵刃"@] } else { Seq::empty() });
    lemma_contains_left(c2, (if has_sub(line, "宝器"@) { seq!["宝器"@] } else { Seq::empty() }), "职业"@);
    let c3: Seq<Seq<char>> = c2 + (if has_sub(line, "宝器"@) { seq!["宝器"@] } else { Seq::empty() });
    lemma_contains_left(c3, (if has_sub(line, "甲胄"@) { seq!["甲胄"@] } else { Seq::empty() }), "职业"@);
    let c4: Seq<Seq<char>> = c3 + (if has_sub(line, "甲胄"@) { seq!["甲胄"@] } else { Seq::empty() });
    lemma_contains_left(c4, (if has_sub(line, "武学"@) { seq!["武学"@] } else { Seq::empty() }), "职业"@);
    let c5: Seq<Seq<char>> = c4 + (if has_sub(line, "武学"@) { seq!["武学"@] } else { Seq::empty() });
    lemma_contains_left(c5, (if has_sub(line, "术法"@) { seq!["术法"@] } else { Seq::empty() }), "职业"@);
    let c6: Seq<Seq<char>> = c5 + (if has_sub(line, "术法"@) { seq!["术法"@] } else { Seq::empty() });
    lemma_contains_left(c6, (if has_sub(line, "基本牌"@) { seq!["基本牌"@] } else { Seq::empty() }), "职业"@);
    let c7: Seq<Seq<char>> = c6 + (if has_sub(line, "基本牌"@) { seq!["基本牌"@] } else { Seq::empty() });
    assert(header_tags(line) == c7);
}

proof fn lemma_header_tag_2(line: Seq<char>)
    requires
        has_sub(line, "兵刃"@),
    ensures
        header_tags(line).contains("兵刃"@),
{
    let pre: Seq<Seq<char>> = (if has_sub(line, "阵营"@) { seq!["阵营"@] } else { Seq::empty() }) + (if has_sub(line, "职业"@) { seq!["职业"@] } else { Seq::empty() });
    let c0: Seq<Seq<char>> = pre + seq!["兵刃"@];
    assert(c0[pre.len() as int] == "兵刃"@);
    lemma_contains_left(c0, (if has_sub(line, "宝器"@) { seq!["宝器"@] } else { Seq::empty() }), "兵刃"@);
    let c3: Seq<Seq<char>> = c0 + (if has_sub(line, "宝器"@) { seq!["宝器"@] } else { Seq::empty() });
    lemma_contains_left(c3, (if has_sub(line, "甲胄"@) { seq!["甲胄"@] } else { Seq::empty() }), "兵刃"@);
    let c4: Seq<Seq<char>> = c3 + (if has_sub(line, "甲胄"@) { seq!["甲胄"@] } else { Seq::empty() });
    lemma_contains_left(c4, (if has_sub(line, "武学"@) { seq!["武学"@] } else { Seq::empty() }), "兵刃"@);
    let c5: Seq<Seq<char>> = c4 + (if has_sub(line, "武学"@) { seq!["武学"@] } else { Seq::empty() });
    lemma_contains_left(c5, (if has_sub(line, "术法"@) { seq!["术法"@] } else { Seq::empty() }), "兵刃"@);
    let c6: Seq<Seq<char>> = c5 + (if has_sub(line, "术法"@) { seq!["术法"@] } else { Seq::empty() });
    lemma_contains_left(c6, (if has_sub(line, "基本牌"@) { seq!["基本牌"@] } else { Seq::empty() }), "兵刃"@);
    let c7: Seq<Seq<char>> = c6 + (if has_sub(line, "基本牌"@) { seq!["基本牌"@] } else { Seq::empty() });
    assert(header_tags(line) == c7);
}

proof fn lemma_header_tag_3(line: Seq<char>)
    requires
        has_sub(line, "宝器"@),
    ensures
        header_tags(line).contains("宝器"@),
{
    let pre: Seq<Seq<char>> = (if has_sub(line, "阵营"@) { seq!["阵营"@] } else { Seq::empty() }) + (if has_sub(line, "职业"@) { seq!["职业"@] } else { Seq::empty() }) + (if has_sub(line, "兵刃"@) { seq!["兵刃"@] } else { Seq::empty() });
    let c0: Seq<Seq<char>> = pre + seq!["宝器"@];
    assert(c0[pre.len() as int] == "宝器"@);
    lemma_contains_left(c0, (if has_sub(line, "甲胄"@) { seq!["甲胄"@] } else { Seq::empty() }), "宝器"@);
    let c4: Seq<Seq<char>> = c0 + (if has_sub(line, "甲胄"@) { seq!["甲胄"@] } else { Seq::empty() });
    lemma_contains_left(c4, (if has_sub(line, "武学"@) { seq!["武学"@] } else { Seq::empty() }), "宝器"@);
    let c5: Seq<Seq<char>> = c4 + (if has_sub(line, "武学"@) { seq!["武学"@] } else { Seq::empty() });
    lemma_contains_left(c5, (if has_sub(line, "术法"@) { seq!["术法"@] } else { Seq::empty() }), "宝器"@);
    let c6: Seq<Seq<char>> = c5 + (if has_sub(line, "术法"@) { seq!["术法"@] } else { Seq::empty() });
    lemma_contains_left(c6, (if has_sub(line, "基本牌"@) { seq!["基本牌"@] } else { Seq::empty() }), "宝器"@);
    let c7: Seq<Seq<char>> = c6 + (if has_sub(line, "基本牌"@) { seq!["基本牌"@] } else { Seq::empty() });
    assert(header_tags(line) == c7);
}

proof fn lemma_header_tag_4(line: Seq<char>)
    requires
        has_sub(line, "甲胄"@),
    ensures
        header_tags(line).contains("甲胄"@),
{
    let pre: Seq<Seq<char>> = (if has_sub(line, "阵营"@) { seq!["阵营"@] } else { Seq::empty() }) + (if has_sub(line, "职业"@) { seq!["职业"@] } else { Seq::empty() }) + (if has_sub(line, "兵刃"@) { seq!["兵刃"@] } else { Seq::empty() }) + (if has_sub(line, "宝器"@) { seq!["宝器"@] } else { Seq::empty() });
    let c0: Seq<Seq<char>> = pre + seq!["甲胄"@];
    assert(c0[pre.len() as int] == "甲胄"@);
    lemma_contains_left(c0, (if has_sub(line, "武学"@) { seq!["武学"@] } else { Seq::empty() }), "甲胄"@);
    let c5: Seq<Seq<char>> = c0 + (if has_sub(line, "武学"@) { seq!["武学"@] } else { Seq::empty() });
    lemma_contains_left(c5, (if has_sub(line, "术法"@) { seq!["术法"@] } else { Seq::empty() }), "甲胄"@);
    let c6: Seq<Seq<char>> = c5 + (if has_sub(line, "术法"@) { seq!["术法"@] } else { Seq::empty() });
    lemma_contains_left(c6, (if has_sub(line, "基本牌"@) { seq!["基本牌"@] } else { Seq::empty() }), "甲胄"@);
    let c7: Seq<Seq<char>> = c6 + (if has_sub(line, "基本牌"@) { seq!["基本牌"@] } else { Seq::empty() });
    assert(header_tags(line) == c7);
}

proof fn lemma_header_tag_5(line: Seq<char>)
    requires
        has_sub(line, "武学"@),
    ensures
        header_tags(line).contains("武学"@),
{
    let pre: Seq<Seq<char>> = (if has_sub(line, "阵营"@) { seq!["阵营"@] } else { Seq::empty() }) + (if has_sub(line, "职业"@) { seq!["职业"@] } else { Seq::empty() }) + (if has_sub(line, "兵刃"@) { seq!["兵刃"@] } else { Seq::empty() }) + (if has_sub(line, "宝器"@) { seq!["宝器"@] } else { Seq::empty() }) + (if has_sub(line, "甲胄"@) { seq!["甲胄"@] } else { Seq::empty() });
    let c0: Seq<Seq<char>> = pre + seq!["武学"@];
    assert(c0[pre.len() as int] == "武学"@);
    lemma_contains_left(c0, (if has_sub(line, "术法"@) { seq!["术法"@] } else { Seq::empty() }), "武学"@);
    let c6: Seq<Seq<char>> = c0 + (if has_sub(line, "术法"@) { seq!["术法"@] } else { Seq::empty() });
    lemma_contains_left(c6, (if has_sub(line, "基本牌"@) { seq!["基本牌"@] } else { Seq::empty() }), "武学"@);
    let c7: Seq<Seq<char>> = c6 + (if has_sub(line, "基本牌"@) { seq!["基本牌"@] } else { Seq::empty() });
    assert(header_tags(line) == c7);
}

proof fn lemma_header_tag_6(line: Seq<char>)
    requires
        has_sub(line, "术法"@),
    ensures
        header_tags(line).contains("术法"@),
{
    let pre: Seq<Seq<char>> = (if has_sub(line, "阵营"@) { seq!["阵营"@] } else { Seq::empty() }) + (if has_sub(line, "职业"@) { seq!["职业"@] } else { Seq::empty() }) + (if has_sub(line, "兵刃"@) { seq!["兵刃"@] } else { Seq::empty() }) + (if has_sub(line, "宝器"@) { seq!["宝器"@] } else { Seq::empty() }) + (if has_sub(line, "甲胄"@) { seq!["甲胄"@] } else { Seq::empty() }) + (if has_sub(line, "武学"@) { seq!["武学"@] } else { Seq::empty() });
    let c0: Seq<Seq<char>> = pre + seq!["术法"@];
    assert(c0[pre.len() as int] == "术法"@);
    lemma_contains_left(c0, (if has_sub(line, "基本牌"@) { seq!["基本牌"@] } else { Seq::empty() }), "术法"@);
    let c7: Seq<Seq<char>> = c0 + (if has_sub(line, "基本牌"@) { seq!["基本牌"@] } else { Seq::empty() });
    assert(header_tags(line) == c7);
}

proof fn lemma_header_tag_7(line: Seq<char>)
    requires
        has_sub(line, "基本牌"@),
    ensures
        header_tags(line).contains("基本牌"@),
{
    let pre: Seq<Seq<char>> = (if has_sub(line, "阵营"@) { seq!["阵营"@] } else { Seq::empty() }) + (if has_sub(line, "职业"@) { seq!["职业"@] } else { Seq::empty() }) + (if has_sub(line, "兵刃"@) { seq!["兵刃"@] } else { Seq::empty() }) + (if has_sub(line, "宝器"@) { seq!["宝器"@] } else { Seq::empty() }) + (if has_sub(line, "甲胄"@) { seq!["甲胄"@] } else { Seq::empty() }) + (if has_sub(line, "武学"@) { seq!["武学"@] } else { Seq::empty() }) + (if has_sub(line, "术法"@) { seq!["术法"@] } else { Seq::empty() });
    let c0: Seq<Seq<char>> = pre + seq!["基本牌"@];
    assert(c0[pre.len() as int] == "基本牌"@);
    assert(header_tags(line) == c0);
}

proof fn lemma_header_tags_contains(line: Seq<char>, w: Seq<char>)
    requires
        is_category(w),
        has_sub(line, w),
    ensures
        header_tags(line).contains(w),
{
    if w == "阵营"@ {
        lemma_header_tag_0(line);
    }
    if w == "职业"@ {
        lemma_header_tag_1(line);
    }
    if w == "兵刃"@ {
        lemma_header_tag_2(line);
    }
    if w == "宝器"@ {
        lemma_header_tag_3(line);
    }
    if w == "甲胄"@ {
        lemma_header_tag_4(line);
    }
    if w == "武学"@ {
        lemma_header_tag_5(line);
    }
    if w == "术法"@ {
        lemma_header_tag_6(line);
    }
    if w == "基本牌"@ {
        lemma_header_tag_7(line);
    }
}

/// Reading a line never drops a category tag already read.
proof fn lemma_parse_line_keeps_tags(st: CardParseState, raw: Seq<char>)
    ensures
        st.list_tags.len() <= parse_line(st, raw).list_tags.len(),
        parse_line(st, raw).list_tags.subrange(0, st.list_tags.len() as int) == st.list_tags,
{
    let t = parse_line(st, raw).list_tags;
    assert(t.subrange(0, st.list_tags.len() as int) =~= st.list_tags);
}

proof fn lemma_parse_lines_header(ls: Seq<Seq<char>>, i: int, w: Seq<char>)
    requires
        0 <= i < ls.len(),
        trim(ls[i]).len() > 0,
        trim(ls[i])[0] == '#' || has_prefix(trim(ls[i]), "---"@),
        is_category(w),
        has_sub(trim(ls[i]), w),
    ensures
        parse_lines(ls).list_tags.contains(w),
    decreases ls.len(),
{
    let prev = parse_lines(ls.drop_last());
    lemma_parse_line_keeps_tags(prev, ls.last());
    if i == ls.len() - 1 {
        lemma_header_tags_contains(trim(ls[i]), w);
        let h = header_tags(trim(ls[i]));
        let k = choose|k: int| 0 <= k < h.len() && h[k] == w;
        assert(parse_lines(ls).list_tags == prev.list_tags + h);
        assert(parse_lines(ls).list_tags[prev.list_tags.len() + k] == w);
    } else {
        assert(ls.drop_last()[i] == ls[i]);
        lemma_parse_lines_header(ls.drop_last(), i, w);
        let k = choose|k: int| 0 <= k < prev.list_tags.len() && prev.list_tags[k] == w;
        let t = parse_lines(ls).list_tags;
        assert(t.subrange(0, prev.list_tags.len() as int)[k] == w);
        assert(t[k] == w);
    }
}

/// A card whose text has a header line (starting with '#' or "---") that
/// names a category word (阵营, 职业, 兵刃, 宝器, 甲胄, 武学, 术法, 基本牌)
/// carries that word among its category tags, whatever else the text holds.
pub proof fn lemma_header_category_tagged(text: Seq<char>, i: int, w: Seq<char>)
    requires
        0 <= i < split_char(text, '\n').len(),
        trim(split_char(text, '\n')[i]).len() > 0,
        trim(split_char(text, '\n')[i])[0] == '#' || has_prefix(trim(split_char(text, '\n')[i]), "---"@),
        is_category(w),
        has_sub(trim(split_char(text, '\n')[i]), w),
    ensures
        card_state(text).list_tags.contains(w),
{
    lemma_parse_lines_header(split_char(text, '\n'), i, w);
}

/// Whether a card's text yields anything: a row or a tag block.
pub open spec fn card_parses(text: Seq<char>) -> bool {
    card_state(text).entries.len() > 0 || card_state(text).tag_defs.len() > 0
}

/// `a` is the tree of card `name` with text `text`.
pub open spec fn ast_of(a: CardAst, name: Seq<char>, text: Seq<char>) -> bool {
    let st = card_state(text);
    &&& a.name@ == name
    &&& strings_view(a.list_tags@) == st.list_tags
    &&& strings_view(a.pre_tag@) == st.pre_tag
    &&& strings_view(a.duel_tags@) == st.tag_defs.map_values(|t: TagDefView| t.tag_name)
    &&& entries_view(a.entries@) == st.entries
    &&& tag_defs_view(a.tag_defs@) == st.tag_defs
}

/// Exec side of `CardParseState`.
struct Acc {
    entries: Vec<FiveStageEntry>,
    tag_defs: Vec<TagDef>,
    current: Option<TagDef>,
    list_tags: Vec<String>,
    pre_tag: Vec<String>,
}

impl Acc {
    spec fn view_state(&self) -> CardParseState {
        CardParseState {
            entries: entries_view(self.entries@),
            tag_defs: tag_defs_view(self.tag_defs@),
            current: match self.current {
                Some(td) => Some(tag_def_view(td)),
                None => None,
            },
            list_tags: strings_view(self.list_tags@),
            pre_tag: strings_view(self.pre_tag@),
        }
    }
}

fn push_str_lit(v: &mut Vec<String>, s: &str)
    ensures
        strings_view(final(v)@) == strings_view(old(v)@).push(s@),
{
    let ghost v0 = strings_view(v@);
    v.push(owned(s));
    assert(strings_view(v@) =~= v0.push(s@));
}

fn push_line(v: &mut Vec<String>, line: &Vec<char>)
    ensures
        strings_view(final(v)@) == strings_view(old(v)@).push(line@),
{
    let ghost v0 = strings_view(v@);
    v.push(string_of(line));
    assert(strings_view(v@) =~= v0.push(line@));
}

fn push_entry(v: &mut Vec<FiveStageEntry>, e: FiveStageEntry)
    ensures
        entries_view(final(v)@) == entries_view(old(v)@).push(entry_view(e)),
{
    let ghost v0 = entries_view(v@);
    v.push(e);
    assert(entries_view(v@) =~= v0.push(entry_view(e)));
}

fn push_def(v: &mut Vec<TagDef>, d: TagDef)
    ensures
        tag_defs_view(final(v)@) == tag_defs_view(old(v)@).push(tag_def_view(d)),
{
    let ghost v0 = tag_defs_view(v@);
    v.push(d);
    assert(tag_defs_view(v@) =~= v0.push(tag_def_view(d)));
}

fn push_if(v: &mut Vec<String>, line: &Vec<char>, lit: &str)
    ensures
        strings_view(final(v)@) == strings_view(old(v)@) + (if has_sub(line@, lit@) {
            seq![lit@]
        } else {
            Seq::empty()
        }),
{
    let ghost v0 = strings_view(v@);
    if contains_lit(line, lit) {
        push_str_lit(v, lit);
    }
    assert(strings_view(v@) =~= v0 + (if has_sub(line@, lit@) {
        seq![lit@]
    } else {
        Seq::empty()
    }));
}

fn header_exec(acc: &mut Acc, line: &Vec<char>)
    ensures
        final(acc).view_state() == (CardParseState {
            list_tags: old(acc).view_state().list_tags + header_tags(line@),
            ..old(acc).view_state()
        }),
{
    let ghost l0 = strings_view(acc.list_tags@);
    let mut v: Vec<String> = Vec::new();
    assert(strings_view(v@) =~= Seq::<Seq<char>>::empty());
    push_if(&mut v, line, "阵营");
    push_if(&mut v, line, "职业");
    push_if(&mut v, line, "兵刃");
    push_if(&mut v, line, "宝器");
    push_if(&mut v, line, "甲胄");
    push_if(&mut v, line, "武学");
    push_if(&mut v, line, "术法");
    push_if(&mut v, line, "基本牌");
    assert(strings_view(v@) =~= header_tags(line@));
    append_strings(&mut acc.list_tags, &v);
}

fn append_strings(dst: &mut Vec<String>, src: &Vec<String>)
    ensures
        strings_view(final(dst)@) == strings_view(old(dst)@) + strings_view(src@),
{
    let ghost l0 = strings_view(dst@);
    let mut k: usize = 0;
    while k < src.len()
        invariant
            k <= src@.len(),
            strings_view(dst@) == l0 + strings_view(src@).subrange(0, k as int),
        decreases src@.len() - k,
    {
        let ghost a0 = strings_view(dst@);
        dst.push(src[k].clone());
        assert(strings_view(dst@) =~= a0.push(src@[k as int]@));
        assert(strings_view(src@).subrange(0, k + 1) =~= strings_view(src@).subrange(0, k as int).push(
            src@[k as int]@,
        ));
        k = k + 1;
    }
    assert(strings_view(src@).subrange(0, src@.len() as int) =~= strings_view(src@));
}

fn meta_exec(acc: &mut Acc, line: &Vec<char>)
    ensures
        final(acc).view_state() == (CardParseState {
            pre_tag: old(acc).view_state().pre_tag + meta_tags(line@),
            ..old(acc).view_state()
        }),
{
    let ghost p0 = strings_view(acc.pre_tag@);
    if contains_lit(line, "上限") {
        push_line(&mut acc.pre_tag, line);
    }
    if contains_lit(line, "互斥") {
        push_line(&mut acc.pre_tag, line);
    }
    assert(strings_view(acc.pre_tag@) =~= p0 + meta_tags(line@));
}

fn close_exec(acc: &mut Acc)
    ensures
        final(acc).view_state() == close_block(old(acc).view_state()),
{
    match acc.current.take() {
        Some(td) => {
            if td.entries.len() > 0 {
                push_def(&mut acc.tag_defs, td);
            }
        },
        None => {},
    }
}

fn body_exec(acc: &mut Acc, line: &Vec<char>)
    requires
        line@.len() > 0,
    ensures
        final(acc).view_state() == body_line(old(acc).view_state(), line@),
{
    let ls = string_of(line);
    let segs = segments_of(ls.as_str());
    let ghost sv = segs_view(segs@);
    assert(sv == line_segments(line@));
    proof {
        lemma_segments_nonempty(line@);
    }
    if segs.len() >= 5 {
        let off: usize = if segs.len() > 5 { 1 } else { 0 };
        assert(sv[off as int] == tokens_view(segs@[off as int]@));
        let cond = segment_to_text(segs[off].as_slice());
        let cv = chars_of(cond.as_str());
        if starts_with_lit(&cv, "上限") || starts_with_lit(&cv, "类型") || starts_with_lit(&cv, "互斥") {
            meta_exec(acc, line);
            return;
        }
        assert(sv[off + 1] == tokens_view(segs@[off + 1]@));
        assert(sv[off + 2] == tokens_view(segs@[off + 2]@));
        assert(sv[off + 3] == tokens_view(segs@[off + 3]@));
        assert(sv[off + 4] == tokens_view(segs@[off + 4]@));
        let subj = segment_to_text(segs[off + 1].as_slice());
        let pred = segment_to_text(segs[off + 2].as_slice());
        if cond.as_str().is_empty() && subj.as_str().is_empty() && pred.as_str().is_empty() {
            return;
        }
        let obj = segment_to_text(segs[off + 3].as_slice());
        let note = segment_to_text(segs[off + 4].as_slice());
        let id_seg = if segs.len() > 5 {
            assert(sv[0] == tokens_view(segs@[0]@));
            segment_to_text(segs[0].as_slice())
        } else {
            String::new()
        };
        let id = if id_seg.as_str().is_empty() {
            let n = acc.entries.len();
            assert(n == entries_view(acc.entries@).len());
            let digits = crate::text::wide_to_chars(n as u128 + 1);
            string_of(&digits)
        } else {
            id_seg
        };
        let capped = cap_bytes_exec(&cv, MAX_CONDITION_BYTES);
        let e = FiveStageEntry {
            id,
            condition: string_of(&capped),
            subject: subj,
            predicate: pred,
            object: obj,
            note,
        };
        push_entry(&mut acc.entries, e);
    } else {
        assert(sv[0] == tokens_view(segs@[0]@));
        let first = segment_to_text(segs[0].as_slice());
        let fv = chars_of(first.as_str());
        if starts_with_lit(&fv, "上限") || starts_with_lit(&fv, "消耗") || starts_with_lit(&fv, "类型")
            || starts_with_lit(&fv, "互斥") {
            meta_exec(acc, line);
            return;
        }
        if contains_lit(&fv, "生命") || contains_lit(&fv, "护甲") || contains_lit(&fv, "技力")
            || contains_lit(&fv, "属性") {
            return;
        }
        if fv.len() > 0 && utf8_len_exec(&fv, 3) && !starts_with_lit(&fv, "**") && !starts_with_lit(
            &fv,
            ">",
        ) && line[0] == '|' {
            match table_row_exec(line) {
                Some(e) => push_entry(&mut acc.entries, e),
                None => {},
            }
        }
    }
}

/// Whether the UTF-8 form of `s` is at least `n` bytes long.
pub(crate) fn utf8_len_exec(s: &Vec<char>, n: usize) -> (r: bool)
    requires
        0 < n <= 1000,
    ensures
        r == (utf8_len(s@) >= n),
{
    let mut i: usize = 0;
    let mut acc: usize = 0;
    assert(s@.subrange(0, 0) =~= Seq::<char>::empty());
    while i < s.len()
        invariant
            i <= s.len(),
            acc == utf8_len(s@.subrange(0, i as int)),
            acc < n,
            n <= 1000,
        decreases s.len() - i,
    {
        assert(s@.subrange(0, i + 1).drop_last() =~= s@.subrange(0, i as int));
        assert(s@.subrange(0, i + 1).last() == s@[i as int]);
        acc = acc + char_len_exec(s[i]);
        i = i + 1;
        if acc >= n {
            proof {
                lemma_utf8_prefix(s@, i as int);
            }
            return true;
        }
    }
    assert(s@.subrange(0, s.len() as int) =~= s@);
    false
}

pub proof fn lemma_utf8_prefix(s: Seq<char>, i: int)
    requires
        0 <= i <= s.len(),
    ensures
        utf8_len(s.subrange(0, i)) <= utf8_len(s),
    decreases s.len(),
{
    if i == s.len() {
        assert(s.subrange(0, i) =~= s);
    } else {
        assert(s.drop_last().subrange(0, i) =~= s.subrange(0, i));
        lemma_utf8_prefix(s.drop_last(), i);
    }
}

pub proof fn lemma_split_arrow_nonempty(ts: Seq<TokenKind>)
    ensures
        split_arrow(ts).len() >= 1,
    decreases ts.len(),
{
    if ts.len() > 0 {
        lemma_split_arrow_nonempty(ts.drop_last());
    }
}

pub proof fn lemma_segments_nonempty(line: Seq<char>)
    ensures
        line_segments(line).len() >= 1,
{
    lemma_split_arrow_nonempty(drop_breaks(lex(line)));
}

fn line_exec(acc: &mut Acc, raw: &Vec<char>)
    ensures
        final(acc).view_state() == parse_line(old(acc).view_state(), raw@),
{
    let line = trim_vec(raw);
    if line.len() == 0 {
        return;
    }
    if line[0] == '#' || starts_with_lit(&line, "---") {
        header_exec(acc, &line);
        return;
    }
    match tag_def_start_exec(&line) {
        Some(tag_name) => {
            proof {
                crate::text::lemma_trim_idempotent(raw@);
            }
            match acc.current.take() {
                Some(td) => push_def(&mut acc.tag_defs, td),
                None => {},
            }
            let fresh: Vec<FiveStageEntry> = Vec::new();
            assert(entries_view(fresh@) =~= Seq::<EntryView>::empty());
            acc.current = Some(TagDef { tag_name, entries: fresh });
            return;
        },
        None => {
            proof {
                crate::text::lemma_trim_idempotent(raw@);
            }
        },
    }
    if acc.current.is_some() && line[0] == '|' {
        match table_row_exec(&line) {
            Some(e) => {
                proof {
                    crate::text::lemma_trim_idempotent(raw@);
                }
                let mut td = acc.current.take().unwrap();
                push_entry(&mut td.entries, e);
                acc.current = Some(td);
            },
            None => {
                proof {
                    crate::text::lemma_trim_idempotent(raw@);
                }
            },
        }
        return;
    }
    close_exec(acc);
    body_exec(acc, &line);
}

/// Parses a card's text into its tree: five-stage rows, tag definition
/// blocks, and the category and metadata tags. A text with neither a row nor
/// a tag block fails with one error at line 0.
pub fn parse_card_text(name: &str, text: &str) -> (r: ParseResult)
    ensures
        r.card_name@ == name@,
        card_parses(text@) ==> r.errors@.len() == 0 && (r.ast matches Some(a) && ast_of(a, name@, text@)),
        !card_parses(text@) ==> r.ast is None && r.errors@.len() == 1 && r.errors@[0].line == 0
            && r.errors@[0].message@ == "未能解析出任何五段式条目或标签定义块"@,
{
    let tv = chars_of(text);
    let lines = split_chars(&tv, '\n');
    let ghost ls = views(lines@);
    let mut acc = Acc {
        entries: Vec::new(),
        tag_defs: Vec::new(),
        current: None,
        list_tags: Vec::new(),
        pre_tag: Vec::new(),
    };
    assert(acc.view_state() == start_state()) by {
        assert(entries_view(acc.entries@) =~= Seq::<EntryView>::empty());
        assert(tag_defs_view(acc.tag_defs@) =~= Seq::<TagDefView>::empty());
        assert(strings_view(acc.list_tags@) =~= Seq::<Seq<char>>::empty());
        assert(strings_view(acc.pre_tag@) =~= Seq::<Seq<char>>::empty());
    }
    let mut i: usize = 0;
    while i < lines.len()
        invariant
            i <= lines@.len(),
            ls == views(lines@),
            ls == split_char(text@, '\n'),
            acc.view_state() == parse_lines(ls.subrange(0, i as int)),
        decreases lines@.len() - i,
    {
        assert(ls.subrange(0, i + 1).drop_last() =~= ls.subrange(0, i as int));
        assert(ls.subrange(0, i + 1).last() == lines@[i as int]@);
        line_exec(&mut acc, &lines[i]);
        i = i + 1;
    }
    assert(ls.subrange(0, lines@.len() as int) =~= ls);
    close_exec(&mut acc);
    if acc.entries.len() == 0 && acc.tag_defs.len() == 0 {
        let mut errors: Vec<ParseError> = Vec::new();
        errors.push(ParseError { line: 0, message: owned("未能解析出任何五段式条目或标签定义块") });
        return ParseResult::failure(name, errors);
    }
    let mut duel_tags: Vec<String> = Vec::new();
    let mut k: usize = 0;
    while k < acc.tag_defs.len()
        invariant
            k <= acc.tag_defs@.len(),
            strings_view(duel_tags@) == tag_defs_view(acc.tag_defs@).subrange(0, k as int).map_values(
                |t: TagDefView| t.tag_name,
            ),
        decreases acc.tag_defs@.len() - k,
    {
        let ghost d0 = strings_view(duel_tags@);
        duel_tags.push(acc.tag_defs[k].tag_name.clone());
        assert(strings_view(duel_tags@) =~= d0.push(acc.tag_defs@[k as int].tag_name@));
        assert(tag_defs_view(acc.tag_defs@).subrange(0, k + 1) =~= tag_defs_view(acc.tag_defs@).subrange(
            0,
            k as int,
        ).push(tag_def_view(acc.tag_defs@[k as int])));
        k = k + 1;
    }
    assert(tag_defs_view(acc.tag_defs@).subrange(0, acc.tag_defs@.len() as int) =~= tag_defs_view(
        acc.tag_defs@,
    ));
    let ast = CardAst {
        name: owned(name),
        list_tags: acc.list_tags,
        pre_tag: acc.pre_tag,
        duel_tags,
        entries: acc.entries,
        tag_defs: acc.tag_defs,
    };
    ParseResult::success(name, ast)
}

/// The row of a single five-stage line (with id "1"), if it has five segments.
pub fn parse_single_line(line: &str) -> (r: Option<FiveStageEntry>)
    ensures
        line_segments(line@).len() >= 5 <==> r is Some,
        r matches Some(e) ==> {
            let segs = line_segments(line@);
            &&& e.id@ == "1"@
            &&& e.condition@ == seg_text(segs[0])
            &&& e.subject@ == seg_text(segs[1])
            &&& e.predicate@ == seg_text(segs[2])
            &&& e.object@ == seg_text(segs[3])
            &&& e.note@ == seg_text(segs[4])
        },
{
    let segs = segments_of(line);
    let ghost sv = segs_view(segs@);
    if segs.len() >= 5 {
        assert(sv[0] == tokens_view(segs@[0]@));
        assert(sv[1] == tokens_view(segs@[1]@));
        assert(sv[2] == tokens_view(segs@[2]@));
        assert(sv[3] == tokens_view(segs@[3]@));
        assert(sv[4] == tokens_view(segs@[4]@));
        Some(
            FiveStageEntry {
                id: owned("1"),
                condition: segment_to_text(segs[0].as_slice()),
                subject: segment_to_text(segs[1].as_slice()),
                predicate: segment_to_text(segs[2].as_slice()),
                object: segment_to_text(segs[3].as_slice()),
                note: segment_to_text(segs[4].as_slice()),
            },
        )
    } else {
        None
    }
}

} // verus!


