//! Lexer for card text: scans the chars of a line and yields tokens.
use vstd::prelude::*;
use crate::text::string_of;

verus! {

/// A token of card text.
#[derive(Debug, Clone, PartialEq)]
pub enum Token {
    Arrow,
    Newline,
    Pipe,
    Dash,
    Colon,
    Comma,
    LParen,
    RParen,
    LBook,
    RBook,
    LBracket,
    RBracket,
    Equals,
    Plus,
    Times,
    Gt,
    Lt,
    Hash,
    Number(String),
    Text(String),
    BlankLine,
    EOF,
}

/// A `Token` with its text as a char sequence.
pub enum TokenKind {
    Arrow,
    Newline,
    Pipe,
    Dash,
    Colon,
    Comma,
    LParen,
    RParen,
    LBook,
    RBook,
    LBracket,
    RBracket,
    Equals,
    Plus,
    Times,
    Gt,
    Lt,
    Hash,
    Number(Seq<char>),
    Text(Seq<char>),
    BlankLine,
    EOF,
}

impl View for Token {
    type V = TokenKind;

    open spec fn view(&self) -> TokenKind {
        match self {
            Token::Arrow => TokenKind::Arrow,
            Token::Newline => TokenKind::Newline,
            Token::Pipe => TokenKind::Pipe,
            Token::Dash => TokenKind::Dash,
            Token::Colon => TokenKind::Colon,
            Token::Comma => TokenKind::Comma,
            Token::LParen => TokenKind::LParen,
            Token::RParen => TokenKind::RParen,
            Token::LBook => TokenKind::LBook,
            Token::RBook => TokenKind::RBook,
            Token::LBracket => TokenKind::LBracket,
            Token::RBracket => TokenKind::RBracket,
            Token::Equals => TokenKind::Equals,
            Token::Plus => TokenKind::Plus,
            Token::Times => TokenKind::Times,
            Token::Gt => TokenKind::Gt,
            Token::Lt => TokenKind::Lt,
            Token::Hash => TokenKind::Hash,
            Token::Number(s) => TokenKind::Number(s@),
            Token::Text(s) => TokenKind::Text(s@),
            Token::BlankLine => TokenKind::BlankLine,
            Token::EOF => TokenKind::EOF,
        }
    }
}

/// Blanks the lexer skips between tokens.
pub open spec fn lex_ws(c: char) -> bool {
    c == ' ' || c == '\r' || c == '\t'
}

/// Chars that end a text token: punctuation the grammar uses, and ASCII digits,
/// which start number tokens.
pub open spec fn text_stop(c: char) -> bool {
    c == '\n' || c == '\u{2192}' || c == '[' || c == ']' || c == '：' || c == ':' || c == '，' || c
        == ',' || c == '|' || c == '\u{2014}' || c == '（' || c == '）' || c == '《' || c == '》' || c
        == '=' || c == '+' || c == '×' || c == '>' || c == '<' || c == '#' || ('0' <= c && c <= '9')
}

/// A char that continues a number.
pub open spec fn num_cont(c: char) -> bool {
    ('0' <= c && c <= '9') || c == '.'
}

/// One-char tokens.
pub open spec fn single_token(c: char) -> Option<TokenKind> {
    if c == '\u{2014}' {
        Some(TokenKind::Dash)
    } else if c == '|' {
        Some(TokenKind::Pipe)
    } else if c == '[' {
        Some(TokenKind::LBracket)
    } else if c == ']' {
        Some(TokenKind::RBracket)
    } else if c == '：' || c == ':' {
        Some(TokenKind::Colon)
    } else if c == '，' || c == ',' {
        Some(TokenKind::Comma)
    } else if c == '（' {
        Some(TokenKind::LParen)
    } else if c == '）' {
        Some(TokenKind::RParen)
    } else if c == '《' {
        Some(TokenKind::LBook)
    } else if c == '》' {
        Some(TokenKind::RBook)
    } else if c == '=' {
        Some(TokenKind::Equals)
    } else if c == '+' {
        Some(TokenKind::Plus)
    } else if c == '×' {
        Some(TokenKind::Times)
    } else if c == '>' {
        Some(TokenKind::Gt)
    } else if c == '<' {
        Some(TokenKind::Lt)
    } else if c == '#' {
        Some(TokenKind::Hash)
    } else {
        None
    }
}

/// First index from `i` on that is not a skipped blank.
pub open spec fn ws_end(s: Seq<char>, i: int) -> int
    decreases s.len() - i,
{
    if 0 <= i < s.len() && lex_ws(s[i]) {
        ws_end(s, i + 1)
    } else {
        i
    }
}

/// First index from `i` on that is not a hyphen.
pub open spec fn dash_end(s: Seq<char>, i: int) -> int
    decreases s.len() - i,
{
    if 0 <= i < s.len() && s[i] == '-' {
        dash_end(s, i + 1)
    } else {
        i
    }
}

pub proof fn lemma_dash_end(s: Seq<char>, i: int)
    requires
        0 <= i <= s.len(),
    ensures
        i <= dash_end(s, i) <= s.len(),
    decreases s.len() - i,
{
    if i < s.len() && s[i] == '-' {
        lemma_dash_end(s, i + 1);
    }
}

fn dash_end_exec(s: &Vec<char>, i: usize) -> (r: usize)
    requires
        i <= s.len(),
    ensures
        r == dash_end(s@, i as int),
        i <= r <= s.len(),
{
    let mut k = i;
    while k < s.len() && s[k] == '-'
        invariant
            i <= k <= s.len(),
            dash_end(s@, k as int) == dash_end(s@, i as int),
        decreases s.len() - k,
    {
        k = k + 1;
    }
    k
}

/// First index from `i` on that ends a text token.
pub open spec fn text_end(s: Seq<char>, i: int) -> int
    decreases s.len() - i,
{
    if 0 <= i < s.len() && !text_stop(s[i]) {
        text_end(s, i + 1)
    } else {
        i
    }
}

/// Where number reading stops when it looks one char past the current one.
pub open spec fn num_end(s: Seq<char>, cur: int) -> int
    decreases s.len() - cur,
{
    if 0 <= cur && cur + 1 < s.len() && num_cont(s[cur + 1]) {
        num_end(s, cur + 1)
    } else {
        cur
    }
}

/// The text of a number token starting at `i` and read up to `end`.
pub open spec fn num_text(s: Seq<char>, i: int, end: int) -> Seq<char> {
    if end > i + 1 {
        seq![s[i]] + s.subrange(i + 2, end + 1)
    } else {
        seq![s[i]]
    }
}

/// The token at `i` (blanks skipped) and where the next scan starts.
pub open spec fn lex_step(s: Seq<char>, i: int) -> Option<(TokenKind, int)> {
    let k = ws_end(s, i);
    if k >= s.len() || k < 0 {
        None
    } else {
        let c = s[k];
        if c == '\n' {
            let j = ws_end(s, k + 1);
            if j < s.len() && s[j] == '\n' && ws_end(s, j + 1) < s.len() {
                Some((TokenKind::BlankLine, j + 1))
            } else if j < s.len() && s[j] == '\n' {
                Some((TokenKind::Newline, j + 1))
            } else {
                Some((TokenKind::Newline, j))
            }
        } else if c == '\u{2192}' {
            Some((TokenKind::Arrow, ws_end(s, k + 1)))
        } else if c == '-' {
            let d = dash_end(s, k);
            if d < s.len() && s[d] == '>' {
                Some((TokenKind::Arrow, ws_end(s, d + 1)))
            } else {
                let e = text_end(s, k + 1);
                Some((TokenKind::Text(seq!['-'] + s.subrange(k + 1, e)), e))
            }
        } else if single_token(c) is Some {
            Some((single_token(c)->0, k + 1))
        } else if '0' <= c && c <= '9' {
            let e = num_end(s, k + 1);
            Some((TokenKind::Number(num_text(s, k, e)), e))
        } else {
            let e = text_end(s, k);
            Some((TokenKind::Text(s.subrange(k, e)), e))
        }
    }
}

/// The tokens of `s` from index `i` on.
pub open spec fn lex_from(s: Seq<char>, i: int) -> Seq<TokenKind>
    decreases s.len() - i,
{
    if i < 0 || i >= s.len() {
        Seq::empty()
    } else {
        match lex_step(s, i) {
            None => Seq::empty(),
            Some((t, j)) => if i < j <= s.len() {
                seq![t] + lex_from(s, j)
            } else {
                Seq::empty()
            },
        }
    }
}

/// The tokens of `s`.
pub open spec fn lex(s: Seq<char>) -> Seq<TokenKind> {
    lex_from(s, 0)
}

pub proof fn lemma_ws_end(s: Seq<char>, i: int)
    requires
        0 <= i <= s.len(),
    ensures
        i <= ws_end(s, i) <= s.len(),
    decreases s.len() - i,
{
    if i < s.len() && lex_ws(s[i]) {
        lemma_ws_end(s, i + 1);
    }
}

pub proof fn lemma_text_end(s: Seq<char>, i: int)
    requires
        0 <= i <= s.len(),
    ensures
        i <= text_end(s, i) <= s.len(),
    decreases s.len() - i,
{
    if i < s.len() && !text_stop(s[i]) {
        lemma_text_end(s, i + 1);
    }
}

pub proof fn lemma_num_end(s: Seq<char>, cur: int)
    requires
        0 <= cur <= s.len(),
    ensures
        cur <= num_end(s, cur) <= s.len(),
        num_end(s, cur) > cur ==> num_end(s, cur) < s.len(),
    decreases s.len() - cur,
{
    if cur + 1 < s.len() && num_cont(s[cur + 1]) {
        lemma_num_end(s, cur + 1);
    }
}

/// Each step of the lexer consumes at least one char.
pub proof fn lemma_step_advances(s: Seq<char>, i: int)
    requires
        0 <= i < s.len(),
    ensures
        lex_step(s, i) matches Some((t, j)) ==> i < j <= s.len(),
{
    lemma_ws_end(s, i);
    let k = ws_end(s, i);
    if k < s.len() {
        lemma_ws_end(s, k + 1);
        if k + 2 <= s.len() {
            lemma_ws_end(s, k + 2);
        }
        lemma_text_end(s, k);
        lemma_text_end(s, k + 1);
        lemma_num_end(s, k + 1);
        lemma_dash_end(s, k);
        let d = dash_end(s, k);
        if d + 1 <= s.len() {
            lemma_ws_end(s, d + 1);
        }
        let j = ws_end(s, k + 1);
        if j + 1 <= s.len() {
            lemma_ws_end(s, j + 1);
        }
        if s[k] == '\n' && j < s.len() {
        }
        if s[k] != '\n' && s[k] != '\u{2192}' && s[k] != '-' && single_token(s[k]) is None && !(
        '0' <= s[k] && s[k] <= '9') {
            assert(!text_stop(s[k]));
            assert(text_end(s, k) == text_end(s, k + 1));
        }
    }
}

fn ws_end_exec(s: &Vec<char>, i: usize) -> (r: usize)
    requires
        i <= s.len(),
    ensures
        r == ws_end(s@, i as int),
        i <= r <= s.len(),
{
    let mut k = i;
    while k < s.len() && (s[k] == ' ' || s[k] == '\r' || s[k] == '\t')
        invariant
            i <= k <= s.len(),
            ws_end(s@, k as int) == ws_end(s@, i as int),
        decreases s.len() - k,
    {
        k = k + 1;
    }
    k
}

fn is_text_stop(c: char) -> (r: bool)
    ensures
        r == text_stop(c),
{
    c == '\n' || c == '\u{2192}' || c == '[' || c == ']' || c == '：' || c == ':' || c == '，' || c
        == ',' || c == '|' || c == '\u{2014}' || c == '（' || c == '）' || c == '《' || c == '》' || c
        == '=' || c == '+' || c == '×' || c == '>' || c == '<' || c == '#' || ('0' <= c && c <= '9')
}

fn text_end_exec(s: &Vec<char>, i: usize) -> (r: usize)
    requires
        i <= s.len(),
    ensures
        r == text_end(s@, i as int),
        i <= r <= s.len(),
{
    let mut k = i;
    while k < s.len() && !is_text_stop(s[k])
        invariant
            i <= k <= s.len(),
            text_end(s@, k as int) == text_end(s@, i as int),
        decreases s.len() - k,
    {
        k = k + 1;
    }
    k
}

fn num_end_exec(s: &Vec<char>, cur: usize) -> (r: usize)
    requires
        cur <= s.len(),
    ensures
        r == num_end(s@, cur as int),
        cur <= r <= s.len(),
        r > cur ==> r < s.len(),
{
    let mut k = cur;
    while k < s.len() && k + 1 < s.len() && (('0' <= s[k + 1] && s[k + 1] <= '9') || s[k + 1] == '.')
        invariant
            cur <= k <= s.len(),
            num_end(s@, k as int) == num_end(s@, cur as int),
            k > cur ==> k < s.len(),
        decreases s.len() - k,
    {
        k = k + 1;
    }
    k
}

fn single_token_exec(c: char) -> (r: Option<Token>)
    ensures
        match r {
            Some(t) => single_token(c) == Some(t@),
            None => single_token(c) is None,
        },
{
    if c == '\u{2014}' {
        Some(Token::Dash)
    } else if c == '|' {
        Some(Token::Pipe)
    } else if c == '[' {
        Some(Token::LBracket)
    } else if c == ']' {
        Some(Token::RBracket)
    } else if c == '：' || c == ':' {
        Some(Token::Colon)
    } else if c == '，' || c == ',' {
        Some(Token::Comma)
    } else if c == '（' {
        Some(Token::LParen)
    } else if c == '）' {
        Some(Token::RParen)
    } else if c == '《' {
        Some(Token::LBook)
    } else if c == '》' {
        Some(Token::RBook)
    } else if c == '=' {
        Some(Token::Equals)
    } else if c == '+' {
        Some(Token::Plus)
    } else if c == '×' {
        Some(Token::Times)
    } else if c == '>' {
        Some(Token::Gt)
    } else if c == '<' {
        Some(Token::Lt)
    } else if c == '#' {
        Some(Token::Hash)
    } else {
        None
    }
}

fn sub_chars(s: &Vec<char>, a: usize, b: usize) -> (r: Vec<char>)
    requires
        a <= b <= s.len(),
    ensures
        r@ == s@.subrange(a as int, b as int),
{
    crate::text::slice_vec(s, a, b)
}

/// The token at `i` and where the next scan starts, as `lex_step` says.
fn lex_step_exec(s: &Vec<char>, i: usize) -> (r: Option<(Token, usize)>)
    requires
        i <= s.len(),
    ensures
        match r {
            Some((t, j)) => lex_step(s@, i as int) == Some((t@, j as int)),
            None => lex_step(s@, i as int) is None,
        },
{
    let k = ws_end_exec(s, i);
    if k >= s.len() {
        return None;
    }
    let c = s[k];
    if c == '\n' {
        let j = ws_end_exec(s, k + 1);
        if j < s.len() && s[j] == '\n' {
            if ws_end_exec(s, j + 1) < s.len() {
                Some((Token::BlankLine, j + 1))
            } else {
                Some((Token::Newline, j + 1))
            }
        } else {
            Some((Token::Newline, j))
        }
    } else if c == '\u{2192}' {
        Some((Token::Arrow, ws_end_exec(s, k + 1)))
    } else if c == '-' {
        let d = dash_end_exec(s, k);
        if d < s.len() && s[d] == '>' {
            Some((Token::Arrow, ws_end_exec(s, d + 1)))
        } else {
            let e = text_end_exec(s, k + 1);
            let mut t: Vec<char> = Vec::new();
            t.push('-');
            let rest = sub_chars(s, k + 1, e);
            let mut q: usize = 0;
            while q < rest.len()
                invariant
                    q <= rest@.len(),
                    t@ == seq!['-'] + rest@.subrange(0, q as int),
                decreases rest@.len() - q,
            {
                t.push(rest[q]);
                q = q + 1;
                assert(t@ =~= seq!['-'] + rest@.subrange(0, q as int));
            }
            assert(rest@.subrange(0, rest@.len() as int) =~= rest@);
            Some((Token::Text(string_of(&t)), e))
        }
    } else {
        match single_token_exec(c) {
            Some(t) => Some((t, k + 1)),
            None => {
                if '0' <= c && c <= '9' {
                    let e = num_end_exec(s, k + 1);
                    let mut t: Vec<char> = Vec::new();
                    t.push(c);
                    if e > k + 1 {
                        let mut q = k + 2;
                        while q <= e
                            invariant
                                k + 2 <= q <= e + 1,
                                e < s.len(),
                                c == s@[k as int],
                                t@ == seq![c] + s@.subrange(k + 2, q as int),
                            decreases e + 1 - q,
                        {
                            t.push(s[q]);
                            q = q + 1;
                            assert(t@ =~= seq![c] + s@.subrange(k + 2, q as int));
                        }
                    } else {
                        assert(t@ =~= seq![c]);
                    }
                    Some((Token::Number(string_of(&t)), e))
                } else {
                    let e = text_end_exec(s, k);
                    let t = sub_chars(s, k, e);
                    Some((Token::Text(string_of(&t)), e))
                }
            },
        }
    }
}

/// The tokens of `input`.
pub fn tokenize(input: &str) -> (r: Vec<Token>)
    ensures
        r@.map_values(|t: Token| t@) == lex(input@),
{
    let s = crate::text::chars_of(input);
    let mut out: Vec<Token> = Vec::new();
    let mut i: usize = 0;
    while i < s.len()
        invariant
            i <= s@.len(),
            s@ == input@,
            out@.map_values(|t: Token| t@) + lex_from(s@, i as int) == lex(s@),
        decreases s@.len() - i,
    {
        proof {
            lemma_step_advances(s@, i as int);
        }
        match lex_step_exec(&s, i) {
            Some((t, j)) => {
                let ghost tv = t@;
                let ghost before = out@;
                out.push(t);
                assert(out@.map_values(|t: Token| t@) =~= before.map_values(|t: Token| t@).push(tv));
                assert(lex_from(s@, i as int) == seq![tv] + lex_from(s@, j as int));
                assert(out@.map_values(|t: Token| t@) + lex_from(s@, j as int) =~= before.map_values(
                    |t: Token| t@,
                ) + lex_from(s@, i as int));
                i = j;
            },
            None => {
                assert(lex_from(s@, i as int) =~= Seq::<TokenKind>::empty());
                assert(out@.map_values(|t: Token| t@) =~= lex(s@));
                return out;
            },
        }
    }
    assert(lex_from(s@, i as int) =~= Seq::<TokenKind>::empty());
    assert(out@.map_values(|t: Token| t@) =~= lex(s@));
    out
}

/// A lexer over one input: `tokenize` done step by step.
pub struct Lexer {
    chars: Vec<char>,
    pos: usize,
}

impl Lexer {
    pub closed spec fn spec_chars(&self) -> Seq<char> {
        self.chars@
    }

    pub closed spec fn spec_pos(&self) -> int {
        self.pos as int
    }

    pub fn new(input: &str) -> (r: Lexer)
        ensures
            r.spec_chars() == input@,
            r.spec_pos() == 0,
    {
        Lexer { chars: crate::text::chars_of(input), pos: 0 }
    }

    /// The next token, or `None` at the end of the input.
    pub fn next(&mut self) -> (r: Option<Token>)
        requires
            old(self).spec_pos() <= old(self).spec_chars().len(),
        ensures
            final(self).spec_chars() == old(self).spec_chars(),
            final(self).spec_pos() <= final(self).spec_chars().len(),
            match lex_step(old(self).spec_chars(), old(self).spec_pos()) {
                Some((t, j)) => r matches Some(x) && x@ == t && final(self).spec_pos() == j,
                None => r is None,
            },
    {
        proof {
            if self.pos < self.chars.len() {
                lemma_step_advances(self.chars@, self.pos as int);
            }
        }
        match lex_step_exec(&self.chars, self.pos) {
            Some((t, j)) => {
                proof {
                    if self.pos == self.chars.len() {
                        lemma_ws_end(self.chars@, self.pos as int);
                    }
                }
                self.pos = j;
                Some(t)
            },
            None => None,
        }
    }
}

} // verus!
