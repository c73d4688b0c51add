//! The card store: cards with their parsed trees, and the operations on a
//! list of cards (create, update, delete, look up, count), plus the date
//! stamps the store writes.
use vstd::prelude::*;
use crate::base::FiveStageEntry;
use crate::parser::card_text::{
    ast_of, card_parses, entries_view, entry_view, parse_card_text, strings_view, tag_defs_view, CardAst,
    ParseError, TagDef,
};
use crate::text::{all_digits, chars_of, dec, digits_value, has_prefix, parse_usize, parse_usize_chars};

verus! {

/// A card of the collection.
#[derive(Debug, Clone)]
pub struct Card {
    pub id: String,
    pub name: String,
    pub list_tags: Vec<String>,
    pub pre_tag: Vec<String>,
    pub duel_tags: Vec<String>,
    pub text: String,
    pub ast: Option<CardAst>,
    pub errors: Vec<String>,
    pub created_at: String,
    pub modified_at: String,
}

/// Meta data written with the store.
#[derive(Debug, Clone)]
pub struct MetaInfo {
    pub version: String,
    pub last_modified: String,
    pub save_count: u64,
    pub checksum: String,
}

// ---------------------------------------------------------------------------
// Calendar
// ---------------------------------------------------------------------------

pub open spec fn is_leap(y: int) -> bool {
    (y % 4 == 0 && y % 100 != 0) || y % 400 == 0
}

pub open spec fn year_len(y: int) -> int {
    if is_leap(y) { 366 } else { 365 }
}

/// Starting in year `y` with `rem` days to go: the year reached and the days left in it.
pub open spec fn year_and_rest(y: int, rem: int) -> (int, int)
    decreases rem,
{
    if rem < year_len(y) {
        (y, rem)
    } else {
        year_and_rest(y + 1, rem - year_len(y))
    }
}

pub open spec fn month_len(leap: bool, m: int) -> int {
    if m == 1 {
        if leap { 29 } else { 28 }
    } else if m == 3 || m == 5 || m == 8 || m == 10 {
        30
    } else {
        31
    }
}

/// Starting at month index `m` with `rem` days to go: the month index reached
/// and the days left in it.
pub open spec fn month_and_rest(leap: bool, m: int, rem: int) -> (int, int)
    decreases 12 - m,
{
    if m < 12 && rem >= month_len(leap, m) {
        month_and_rest(leap, m + 1, rem - month_len(leap, m))
    } else {
        (m, rem)
    }
}

/// Year, month and day (both from 1) of the day `days` days after 1970-01-01.
pub open spec fn civil_date(days: int) -> (int, int, int) {
    let (y, r) = year_and_rest(1970, days);
    let (m, d) = month_and_rest(is_leap(y), 0, r);
    (y, m + 1, d + 1)
}

/// `n` in decimal, padded with zeros to `w` digits.
pub open spec fn padded(n: int, w: nat) -> Seq<char> {
    let d = dec(n);
    if d.len() < w {
        Seq::new((w - d.len()) as nat, |i: int| '0') + d
    } else {
        d
    }
}

fn is_leap_exec(y: i64) -> (r: bool)
    ensures
        r == is_leap(y as int),
{
    (y % 4 == 0 && y % 100 != 0) || y % 400 == 0
}

fn year_len_exec(y: i64) -> (r: i64)
    ensures
        r == year_len(y as int),
{
    if is_leap_exec(y) { 366 } else { 365 }
}

fn month_len_exec(leap: bool, m: usize) -> (r: i64)
    ensures
        r == month_len(leap, m as int),
{
    if m == 1 {
        if leap { 29 } else { 28 }
    } else if m == 3 || m == 5 || m == 8 || m == 10 {
        30
    } else {
        31
    }
}

/// Calendar date of a day count since 1970-01-01.
pub fn civil_from_days(days: u64) -> (r: (i64, i64, i64))
    requires
        days <= 0xffff_ffff_ffff,
    ensures
        (r.0 as int, r.1 as int, r.2 as int) == civil_date(days as int),
{
    let mut y: i64 = 1970;
    let mut remaining: i64 = days as i64;
    while remaining >= year_len_exec(y)
        invariant
            0 <= remaining <= days,
            1970 <= y,
            y - 1970 <= days - remaining,
            year_and_rest(y as int, remaining as int) == year_and_rest(1970, days as int),
            days <= 0xffff_ffff_ffff,
        decreases remaining,
    {
        let diy: i64 = year_len_exec(y);
        remaining = remaining - diy;
        y = y + 1;
    }
    let leap = is_leap_exec(y);
    let mut m: usize = 0;
    while m < 12 && remaining >= month_len_exec(leap, m)
        invariant
            m <= 12,
            0 <= remaining <= days,
            leap == is_leap(y as int),
            month_and_rest(leap, m as int, remaining as int) == month_and_rest(
                leap,
                0,
                year_and_rest(1970, days as int).1,
            ),
        decreases 12 - m,
    {
        remaining = remaining - month_len_exec(leap, m);
        m = m + 1;
    }
    (y, m as i64 + 1, remaining + 1)
}

fn push_padded(s: &mut String, n: i64, w: usize)
    requires
        w <= 10,
    ensures
        final(s)@ == old(s)@ + padded(n as int, w as nat),
{
    let d = crate::text::int_to_string(n);
    let dv = crate::text::chars_of(d.as_str());
    let ghost s0 = s@;
    if dv.len() < w {
        let mut k: usize = 0;
        while k < w - dv.len()
            invariant
                k <= w - dv@.len(),
                dv.len() < w,
                s@ == s0 + Seq::new(k as nat, |i: int| '0'),
            decreases w - dv.len() - k,
        {
            crate::text::push_char(s, '0');
            k = k + 1;
            assert(s@ =~= s0 + Seq::new(k as nat, |i: int| '0'));
        }
    }
    crate::text::append_chars(s, &dv);
    assert(s@ =~= s0 + padded(n as int, w as nat));
}

/// "YYYY-MM-DD" of a day count since 1970-01-01.
pub open spec fn date_text(days: int) -> Seq<char> {
    let (y, m, d) = civil_date(days);
    padded(y, 4) + "-"@ + padded(m, 2) + "-"@ + padded(d, 2)
}

/// "YYYY-MM-DDThh:mm:ss+08:00" of a time in seconds since the epoch, in UTC+8.
pub open spec fn iso8601_text(secs: int) -> Seq<char> {
    let adjusted = secs + 8 * 3600;
    let tod = adjusted % 86400;
    date_text(adjusted / 86400) + "T"@ + padded(tod / 3600, 2) + ":"@ + padded((tod % 3600) / 60, 2)
        + ":"@ + padded(tod % 60, 2) + "+08:00"@
}

pub open spec fn date_of_secs(secs: u64) -> Seq<char> {
    date_text(secs as int / 86400)
}

pub open spec fn iso8601_of_secs(secs: u64) -> Seq<char> {
    iso8601_text(secs as int)
}

/// The date of a time in seconds since the epoch (UTC), as "YYYY-MM-DD".
pub fn date_at(secs: u64) -> (r: String)
    ensures
        r@ == date_text(secs as int / 86400),
{
    let (y, m, d) = civil_from_days(secs / 86400);
    let mut s = String::new();
    push_padded(&mut s, y, 4);
    crate::text::append_str(&mut s, "-");
    push_padded(&mut s, m, 2);
    crate::text::append_str(&mut s, "-");
    push_padded(&mut s, d, 2);
    s
}

/// The ISO 8601 stamp of a time in seconds since the epoch, in UTC+8.
pub fn iso8601_at(secs: u64) -> (r: String)
    requires
        secs <= u64::MAX - 28800,
    ensures
        r@ == iso8601_text(secs as int),
{
    let adjusted = secs + 8 * 3600;
    let days = adjusted / 86400;
    let tod = adjusted % 86400;
    let (y, m, d) = civil_from_days(days);
    let mut s = String::new();
    push_padded(&mut s, y, 4);
    crate::text::append_str(&mut s, "-");
    push_padded(&mut s, m, 2);
    crate::text::append_str(&mut s, "-");
    push_padded(&mut s, d, 2);
    crate::text::append_str(&mut s, "T");
    push_padded(&mut s, (tod / 3600) as i64, 2);
    crate::text::append_str(&mut s, ":");
    push_padded(&mut s, ((tod % 3600) / 60) as i64, 2);
    crate::text::append_str(&mut s, ":");
    push_padded(&mut s, (tod % 60) as i64, 2);
    crate::text::append_str(&mut s, "+08:00");
    s
}

/// Name of the backup file written at a time in seconds since the epoch (UTC+8):
/// "cards_YYYYMMDD_hhmmss.json".
pub open spec fn backup_name_text(secs: int) -> Seq<char> {
    let adjusted = secs + 8 * 3600;
    let (y, m, d) = civil_date(adjusted / 86400);
    let tod = adjusted % 86400;
    "cards_"@ + padded(y, 4) + padded(m, 2) + padded(d, 2) + "_"@ + padded(tod / 3600, 2) + padded(
        (tod % 3600) / 60,
        2,
    ) + padded(tod % 60, 2) + ".json"@
}

pub fn backup_file_name(secs: u64) -> (r: String)
    requires
        secs <= u64::MAX - 28800,
    ensures
        r@ == backup_name_text(secs as int),
{
    let adjusted = secs + 8 * 3600;
    let (y, m, d) = civil_from_days(adjusted / 86400);
    let tod = adjusted % 86400;
    let mut s = crate::text::owned("cards_");
    push_padded(&mut s, y, 4);
    push_padded(&mut s, m, 2);
    push_padded(&mut s, d, 2);
    crate::text::append_str(&mut s, "_");
    push_padded(&mut s, (tod / 3600) as i64, 2);
    push_padded(&mut s, ((tod % 3600) / 60) as i64, 2);
    push_padded(&mut s, (tod % 60) as i64, 2);
    crate::text::append_str(&mut s, ".json");
    s
}

/// Seconds since the Unix epoch by the system clock (0 before the epoch).
#[verifier::external_body]
pub(crate) fn unix_now_secs() -> u64 {
    std::time::SystemTime::now().duration_since(std::time::UNIX_EPOCH).unwrap_or_default().as_secs()
}

/// The current time as an ISO 8601 stamp in UTC+8 (a clock past the year
/// 584 billion reads as its last representable second).
pub fn iso8601_now() -> (r: String)
    ensures
        exists|secs: u64| secs <= u64::MAX - 28800 && r@ == #[trigger] iso8601_of_secs(secs),
{
    let t = unix_now_secs();
    let secs = if t > u64::MAX - 28800 { u64::MAX - 28800 } else { t };
    let r = iso8601_at(secs);
    assert(r@ == iso8601_of_secs(secs));
    r
}

/// Today's date (UTC) as "YYYY-MM-DD".
pub fn today_str() -> (r: String)
    ensures
        exists|secs: u64| r@ == #[trigger] date_of_secs(secs),
{
    let t = unix_now_secs();
    let r = date_at(t);
    assert(r@ == date_of_secs(t));
    r
}

// ---------------------------------------------------------------------------
// Copies
// ---------------------------------------------------------------------------

/// `a` and `b` are the same tree, lists compared by contents.
pub open spec fn ast_same(a: CardAst, b: CardAst) -> bool {
    &&& a.name@ == b.name@
    &&& strings_view(a.list_tags@) == strings_view(b.list_tags@)
    &&& strings_view(a.pre_tag@) == strings_view(b.pre_tag@)
    &&& strings_view(a.duel_tags@) == strings_view(b.duel_tags@)
    &&& entries_view(a.entries@) == entries_view(b.entries@)
    &&& tag_defs_view(a.tag_defs@) == tag_defs_view(b.tag_defs@)
}

/// `a` and `b` are the same card, lists compared by contents.
pub open spec fn card_same(a: Card, b: Card) -> bool {
    &&& a.id@ == b.id@
    &&& a.name@ == b.name@
    &&& strings_view(a.list_tags@) == strings_view(b.list_tags@)
    &&& strings_view(a.pre_tag@) == strings_view(b.pre_tag@)
    &&& strings_view(a.duel_tags@) == strings_view(b.duel_tags@)
    &&& a.text@ == b.text@
    &&& (match (a.ast, b.ast) {
        (Some(x), Some(y)) => ast_same(x, y),
        (None, None) => true,
        _ => false,
    })
    &&& strings_view(a.errors@) == strings_view(b.errors@)
    &&& a.created_at@ == b.created_at@
    &&& a.modified_at@ == b.modified_at@
}

pub fn copy_strings(v: &Vec<String>) -> (r: Vec<String>)
    ensures
        strings_view(r@) == strings_view(v@),
{
    let mut r: Vec<String> = Vec::new();
    let mut i: usize = 0;
    while i < v.len()
        invariant
            i <= v@.len(),
            strings_view(r@) == strings_view(v@.subrange(0, i as int)),
        decreases v@.len() - i,
    {
        let ghost r0 = strings_view(r@);
        r.push(v[i].clone());
        assert(strings_view(r@) =~= r0.push(v@[i as int]@));
        assert(strings_view(v@.subrange(0, i + 1)) =~= strings_view(v@.subrange(0, i as int)).push(v@[i as int]@));
        assert(strings_view(r@) =~= strings_view(v@.subrange(0, i + 1)));
        i = i + 1;
    }
    assert(v@.subrange(0, v@.len() as int) =~= v@);
    r
}

fn copy_entry(e: &FiveStageEntry) -> (r: FiveStageEntry)
    ensures
        entry_view(r) == entry_view(*e),
{
    FiveStageEntry {
        id: e.id.clone(),
        condition: e.condition.clone(),
        subject: e.subject.clone(),
        predicate: e.predicate.clone(),
        object: e.object.clone(),
        note: e.note.clone(),
    }
}

fn copy_entries(v: &Vec<FiveStageEntry>) -> (r: Vec<FiveStageEntry>)
    ensures
        entries_view(r@) == entries_view(v@),
{
    let mut r: Vec<FiveStageEntry> = Vec::new();
    let mut i: usize = 0;
    while i < v.len()
        invariant
            i <= v@.len(),
            entries_view(r@) == entries_view(v@.subrange(0, i as int)),
        decreases v@.len() - i,
    {
        let ghost r0 = entries_view(r@);
        let e = copy_entry(&v[i]);
        let ghost ev = entry_view(e);
        r.push(e);
        assert(entries_view(r@) =~= r0.push(ev));
        assert(entries_view(v@.subrange(0, i + 1)) =~= entries_view(v@.subrange(0, i as int)).push(entry_view(v@[i as int])));
        assert(entries_view(r@) =~= entries_view(v@.subrange(0, i + 1)));
        i = i + 1;
    }
    assert(v@.subrange(0, v@.len() as int) =~= v@);
    r
}

fn copy_defs(v: &Vec<TagDef>) -> (r: Vec<TagDef>)
    ensures
        tag_defs_view(r@) == tag_defs_view(v@),
{
    let mut r: Vec<TagDef> = Vec::new();
    let mut i: usize = 0;
    while i < v.len()
        invariant
            i <= v@.len(),
            tag_defs_view(r@) == tag_defs_view(v@.subrange(0, i as int)),
        decreases v@.len() - i,
    {
        let d = TagDef { tag_name: v[i].tag_name.clone(), entries: copy_entries(&v[i].entries) };
        let ghost r0 = tag_defs_view(r@);
        let ghost dv = crate::parser::card_text::tag_def_view(d);
        r.push(d);
        assert(tag_defs_view(r@) =~= r0.push(dv));
        assert(tag_defs_view(v@.subrange(0, i + 1)) =~= tag_defs_view(v@.subrange(0, i as int)).push(
            crate::parser::card_text::tag_def_view(v@[i as int]),
        ));
        assert(tag_defs_view(r@) =~= tag_defs_view(v@.subrange(0, i + 1)));
        i = i + 1;
    }
    assert(v@.subrange(0, v@.len() as int) =~= v@);
    r
}

impl CardAst {
    pub fn copy(&self) -> (r: CardAst)
        ensures
            ast_same(r, *self),
    {
        CardAst {
            name: self.name.clone(),
            list_tags: copy_strings(&self.list_tags),
            pre_tag: copy_strings(&self.pre_tag),
            duel_tags: copy_strings(&self.duel_tags),
            entries: copy_entries(&self.entries),
            tag_defs: copy_defs(&self.tag_defs),
        }
    }
}

impl Card {
    pub fn copy(&self) -> (r: Card)
        ensures
            card_same(r, *self),
    {
        Card {
            id: self.id.clone(),
            name: self.name.clone(),
            list_tags: copy_strings(&self.list_tags),
            pre_tag: copy_strings(&self.pre_tag),
            duel_tags: copy_strings(&self.duel_tags),
            text: self.text.clone(),
            ast: match &self.ast {
                Some(a) => Some(a.copy()),
                None => None,
            },
            errors: copy_strings(&self.errors),
            created_at: self.created_at.clone(),
            modified_at: self.modified_at.clone(),
        }
    }
}

// ---------------------------------------------------------------------------
// Cards from text
// ---------------------------------------------------------------------------

/// The error lines a card keeps: "行<line>: <message>".
pub open spec fn error_lines(errs: Seq<ParseError>) -> Seq<Seq<char>> {
    errs.map_values(|e: ParseError| "行"@ + dec(e.line as int) + ": "@ + e.message@)
}

fn error_lines_exec(errs: &Vec<ParseError>) -> (r: Vec<String>)
    ensures
        strings_view(r@) == error_lines(errs@),
{
    let mut r: Vec<String> = Vec::new();
    let mut i: usize = 0;
    while i < errs.len()
        invariant
            i <= errs@.len(),
            strings_view(r@) == error_lines(errs@.subrange(0, i as int)),
        decreases errs@.len() - i,
    {
        let mut s = crate::text::owned("行");
        let d = crate::text::wide_to_chars(errs[i].line as u128);
        crate::text::append_chars(&mut s, &d);
        crate::text::append_str(&mut s, ": ");
        crate::text::append_str(&mut s, errs[i].message.as_str());
        assert(dec(errs@[i as int].line as int) == crate::text::nat_dec(errs@[i as int].line as nat));
        let ghost r0 = strings_view(r@);
        let ghost sv = s@;
        r.push(s);
        assert(strings_view(r@) =~= r0.push(sv));
        assert(error_lines(errs@.subrange(0, i + 1)) =~= error_lines(errs@.subrange(0, i as int)).push(sv));
        assert(strings_view(r@) =~= error_lines(errs@.subrange(0, i + 1)));
        i = i + 1;
    }
    assert(errs@.subrange(0, errs@.len() as int) =~= errs@);
    r
}

/// The tree, duel tags and error lines that parsing `text` as card `name` gives.
pub open spec fn parsed_parts(
    ast: Option<CardAst>,
    duel_tags: Seq<String>,
    errors: Seq<String>,
    name: Seq<char>,
    text: Seq<char>,
) -> bool {
    &&& card_parses(text) ==> (ast matches Some(a) && ast_of(a, name, text) && strings_view(duel_tags)
        == strings_view(a.duel_tags@) && strings_view(errors).len() == 0)
    &&& !card_parses(text) ==> ast is None && strings_view(duel_tags).len() == 0 && strings_view(errors) == seq![
        "行"@ + dec(0) + ": "@ + "未能解析出任何五段式条目或标签定义块"@,
    ]
}

/// `c`'s parse-derived fields come from parsing `text` as card `name`.
pub open spec fn parsed_fields(c: Card, name: Seq<char>, text: Seq<char>) -> bool {
    parsed_parts(c.ast, c.duel_tags@, c.errors@, name, text)
}

/// Parses `text` as card `name`: tree, duel tags, error lines.
fn parse_fields(name: &String, text: &String) -> (r: (Option<CardAst>, Vec<String>, Vec<String>))
    ensures
        parsed_parts(r.0, r.1@, r.2@, name@, text@),
{
    let result = parse_card_text(name.as_str(), text.as_str());
    let errors = error_lines_exec(&result.errors);
    proof {
        if !card_parses(text@) {
            assert(strings_view(errors@) =~= seq!["行"@ + dec(0) + ": "@ + "未能解析出任何五段式条目或标签定义块"@]);
        } else {
            assert(strings_view(errors@) =~= Seq::<Seq<char>>::empty());
        }
    }
    let duel = match &result.ast {
        Some(a) => copy_strings(&a.duel_tags),
        None => Vec::new(),
    };
    (result.ast, duel, errors)
}

// ---------------------------------------------------------------------------
// The store
// ---------------------------------------------------------------------------

/// The number in a card id "card_N".
pub open spec fn id_number(id: Seq<char>) -> Option<nat> {
    if has_prefix(id, "card_"@) {
        parse_usize(id.subrange("card_"@.len() as int, id.len() as int))
    } else {
        None
    }
}

/// The largest id number among `cards`, 0 when none has one.
pub open spec fn max_id_number(cards: Seq<Card>) -> nat
    decreases cards.len(),
{
    if cards.len() == 0 {
        0
    } else {
        let m = max_id_number(cards.drop_last());
        match id_number(cards.last().id@) {
            Some(n) => if n > m { n } else { m },
            None => m,
        }
    }
}

/// The id a new card gets: "card_" and the next number, at least 3 digits.
pub open spec fn next_id_text(cards: Seq<Card>) -> Seq<char> {
    "card_"@ + padded(max_id_number(cards) + 1int, 3)
}

fn id_number_exec(id: &String) -> (r: Option<usize>)
    ensures
        match r {
            Some(n) => id_number(id@) == Some(n as nat),
            None => id_number(id@) is None,
        },
{
    let v = chars_of(id.as_str());
    let pre = chars_of("card_");
    if !crate::text::matches_at(&v, &pre, 0) {
        return None;
    }
    let rest = crate::text::slice_vec(&v, pre.len(), v.len());
    parse_usize_chars(&rest)
}

pub proof fn lemma_max_id_bound(cards: Seq<Card>)
    ensures
        max_id_number(cards) <= usize::MAX,
    decreases cards.len(),
{
    if cards.len() > 0 {
        lemma_max_id_bound(cards.drop_last());
        let id = cards.last().id@;
        if has_prefix(id, "card_"@) {
            let rest = id.subrange("card_"@.len() as int, id.len() as int);
            let body = if rest.len() > 0 && rest[0] == '+' { rest.drop_first() } else { rest };
            if body.len() > 0 && crate::text::all_digits(body) {
                crate::text::lemma_digits_value_prefix(body, body.len() as int);
                assert(body.subrange(0, body.len() as int) =~= body);
            }
        }
    }
}

/// The largest number among ids of the form `card_<n>` (0 when none).
pub fn max_card_number(cards: &Vec<Card>) -> (r: usize)
    ensures
        r == max_id_number(cards@),
{
    let mut m: usize = 0;
    let mut i: usize = 0;
    while i < cards.len()
        invariant
            i <= cards@.len(),
            m == max_id_number(cards@.subrange(0, i as int)),
        decreases cards@.len() - i,
    {
        assert(cards@.subrange(0, i + 1).drop_last() =~= cards@.subrange(0, i as int));
        proof {
            lemma_max_id_bound(cards@.subrange(0, i as int));
        }
        match id_number_exec(&cards[i].id) {
            Some(n) => {
                if n > m {
                    m = n;
                }
            },
            None => {},
        }
        i = i + 1;
    }
    assert(cards@.subrange(0, cards@.len() as int) =~= cards@);
    m
}

proof fn lemma_nat_dec_value(n: nat)
    ensures
        all_digits(crate::text::nat_dec(n)),
        digits_value(crate::text::nat_dec(n)) == n,
        crate::text::nat_dec(n).len() > 0,
    decreases n,
{
    let d = crate::text::nat_dec(n);
    lemma_digit_char((n % 10) as int);
    if n >= 10 {
        assert(n == (n / 10) * 10 + n % 10) by (nonlinear_arith);
        lemma_nat_dec_value(n / 10);
        let t = crate::text::nat_dec(n / 10);
        assert(d == t.push(crate::text::digit_char((n % 10) as int)));
        assert(d.drop_last() =~= t);
        assert(d.last() == crate::text::digit_char((n % 10) as int));
        assert(digits_value(d) == digits_value(t) * 10 + (d.last() as int - '0' as int));
        assert(digits_value(d) == (n / 10) * 10 + n % 10);
        assert forall|i: int| 0 <= i < d.len() implies crate::text::is_digit(#[trigger] d[i]) by {
            if i < t.len() {
                assert(d[i] == t[i]);
            }
        }
    } else {
        assert(n % 10 == n);
        assert(d == seq![crate::text::digit_char(n as int)]);
        assert(d.drop_last() =~= Seq::<char>::empty());
        assert(digits_value(Seq::<char>::empty()) == 0);
        assert(digits_value(d) == digits_value(d.drop_last()) * 10 + (d.last() as int - '0' as int));
    }
}

proof fn lemma_digit_char(k: int)
    requires
        0 <= k < 10,
    ensures
        crate::text::digit_char(k) as int - '0' as int == k,
        crate::text::is_digit(crate::text::digit_char(k)),
{
}

proof fn lemma_zeros_value(z: Seq<char>, s: Seq<char>)
    requires
        forall|i: int| 0 <= i < z.len() ==> z[i] == '0',
    ensures
        digits_value(z + s) == digits_value(s),
    decreases s.len() + z.len(),
{
    if s.len() > 0 {
        assert((z + s).drop_last() =~= z + s.drop_last());
        assert((z + s).last() == s.last());
        lemma_zeros_value(z, s.drop_last());
    } else {
        assert(z + s =~= z);
        if z.len() > 0 {
            assert(z.drop_last() + s =~= z.drop_last());
            lemma_zeros_value(z.drop_last(), s);
        }
    }
}

/// The id a new card gets carries the number one past the largest card
/// number in the store: every numbered card of the store has a smaller
/// number, so the new id is the id of no card already there.
pub proof fn lemma_next_id_is_fresh(cards: Seq<Card>)
    requires
        max_id_number(cards) < usize::MAX,
    ensures
        forall|i: int|
            #![trigger cards[i]]
            0 <= i < cards.len() && id_number(cards[i].id@) is Some ==> id_number(cards[i].id@)->0
                <= max_id_number(cards),
        id_number(next_id_text(cards)) == Some((max_id_number(cards) + 1) as nat),
        forall|i: int| 0 <= i < cards.len() ==> #[trigger] cards[i].id@ != next_id_text(cards),
{
    lemma_max_is_upper_bound(cards);
    lemma_id_of_number((max_id_number(cards) + 1) as nat);
}

/// "card_" and `n` padded to three digits reads back as the number `n`.
proof fn lemma_id_of_number(n: nat)
    requires
        n <= usize::MAX,
    ensures
        id_number("card_"@ + padded(n as int, 3)) == Some(n),
{
    let d = crate::text::dec(n as int);
    lemma_nat_dec_value(n);
    let p = padded(n as int, 3);
    let z = if d.len() < 3 { Seq::new((3 - d.len()) as nat, |i: int| '0') } else { Seq::<char>::empty() };
    assert(p =~= z + d);
    lemma_zeros_value(z, d);
    assert forall|i: int| 0 <= i < p.len() implies crate::text::is_digit(#[trigger] p[i]) by {
        if i >= z.len() {
            assert(p[i] == d[i - z.len()]);
        }
    }
    let t = "card_"@ + p;
    reveal_strlit("card_");
    assert(t.subrange(0, 5) =~= "card_"@);
    assert(has_prefix(t, "card_"@));
    assert(t.subrange(5, t.len() as int) =~= p);
    assert(p[0] != '+');
}

proof fn lemma_max_is_upper_bound(cards: Seq<Card>)
    ensures
        forall|i: int|
            #![trigger cards[i]]
            0 <= i < cards.len() && id_number(cards[i].id@) is Some ==> id_number(cards[i].id@)->0
                <= max_id_number(cards),
    decreases cards.len(),
{
    if cards.len() > 0 {
        lemma_max_is_upper_bound(cards.drop_last());
        assert forall|i: int|
            #![trigger cards[i]]
            0 <= i < cards.len() && id_number(cards[i].id@) is Some implies id_number(cards[i].id@)->0
                <= max_id_number(cards) by {
            if i < cards.len() - 1 {
                assert(cards.drop_last()[i] == cards[i]);
            }
        }
    }
}

/// The id the next created card gets.
pub fn next_card_id(cards: &Vec<Card>) -> (r: String)
    requires
        max_id_number(cards@) < usize::MAX,
    ensures
        r@ == next_id_text(cards@),
        forall|i: int| 0 <= i < cards@.len() ==> #[trigger] cards@[i].id@ != r@,
        forall|i: int|
            #![trigger cards@[i]]
            0 <= i < cards@.len() && id_number(cards@[i].id@) is Some ==> id_number(cards@[i].id@)->0
                < id_number(r@)->0,
{
    proof {
        lemma_next_id_is_fresh(cards@);
    }
    let m = max_card_number(cards);
    let mut s = crate::text::owned("card_");
    push_padded_wide(&mut s, m as u64 + 1, 3);
    s
}

fn push_padded_wide(s: &mut String, n: u64, w: usize)
    requires
        w <= 10,
    ensures
        final(s)@ == old(s)@ + padded(n as int, w as nat),
{
    let dv = crate::text::wide_to_chars(n as u128);
    assert(dec(n as int) == crate::text::nat_dec(n as nat));
    let ghost s0 = s@;
    if dv.len() < w {
        let mut k: usize = 0;
        while k < w - dv.len()
            invariant
                k <= w - dv@.len(),
                dv.len() < w,
                s@ == s0 + Seq::new(k as nat, |i: int| '0'),
            decreases w - dv.len() - k,
        {
            crate::text::push_char(s, '0');
            k = k + 1;
            assert(s@ =~= s0 + Seq::new(k as nat, |i: int| '0'));
        }
    }
    crate::text::append_chars(s, &dv);
    assert(s@ =~= s0 + padded(n as int, w as nat));
}

/// Adds a card made from `name`, `tags` and `text`, dated today, with the next
/// id; returns it.
pub fn create_card(store: &mut Vec<Card>, name: String, tags: Vec<String>, text: String) -> (r: Result<
    Card,
    String,
>)
    requires
        max_id_number(old(store)@) < usize::MAX,
    ensures
        r matches Ok(c) && {
            &&& c.id@ == next_id_text(old(store)@)
            &&& forall|i: int| 0 <= i < old(store)@.len() ==> #[trigger] old(store)@[i].id@ != c.id@
            &&& c.name@ == name@
            &&& strings_view(c.list_tags@) == strings_view(tags@)
            &&& c.pre_tag@.len() == 0
            &&& c.text@ == text@
            &&& parsed_fields(c, name@, text@)
            &&& c.created_at@ == c.modified_at@
            &&& exists|secs: u64| c.created_at@ == #[trigger] date_of_secs(secs)
            &&& final(store)@.len() == old(store)@.len() + 1
            &&& final(store)@.drop_last() == old(store)@
            &&& card_same(final(store)@.last(), c)
        },
{
    let next_id = next_card_id(store);
    let now = today_str();
    let (ast, duel_tags, errors) = parse_fields(&name, &text);
    let card = Card {
        id: next_id,
        name,
        list_tags: tags,
        pre_tag: Vec::new(),
        duel_tags,
        text,
        ast,
        errors,
        created_at: now.clone(),
        modified_at: now,
    };
    let stored = card.copy();
    store.push(stored);
    assert(store@.drop_last() =~= old(store)@);
    Ok(card)
}

/// The first card with id `id`, if any.
pub open spec fn find_card(cards: Seq<Card>, id: Seq<char>) -> Option<int> {
    if exists|i: int| 0 <= i < cards.len() && cards[i].id@ == id {
        Some(choose|i: int| 0 <= i < cards.len() && cards[i].id@ == id && forall|j: int| 0 <= j < i ==> cards[j].id@ != id)
    } else {
        None
    }
}

fn find_card_exec(store: &Vec<Card>, id: &str) -> (r: Option<usize>)
    ensures
        match r {
            Some(i) => find_card(store@, id@) == Some(i as int) && i < store@.len(),
            None => find_card(store@, id@) is None,
        },
{
    let key = crate::text::owned(id);
    let mut i: usize = 0;
    while i < store.len()
        invariant
            i <= store@.len(),
            key@ == id@,
            forall|j: int| 0 <= j < i ==> store@[j].id@ != id@,
        decreases store@.len() - i,
    {
        if store[i].id == key {
            proof {
                let w = choose|k: int| 0 <= k < store@.len() && store@[k].id@ == id@ && forall|j: int| 0 <= j < k ==> store@[j].id@ != id@;
                assert(0 <= i < store@.len() && store@[i as int].id@ == id@ && forall|j: int| 0 <= j < i ==> store@[j].id@ != id@);
                if w < i {
                    assert(store@[w].id@ != id@);
                } else if w > i {
                    assert(store@[i as int].id@ != id@);
                }
            }
            return Some(i);
        }
        i = i + 1;
    }
    None
}

/// A copy of the card with id `id`, if any.
pub fn get_card(store: &Vec<Card>, id: &str) -> (r: Option<Card>)
    ensures
        match find_card(store@, id@) {
            Some(i) => r matches Some(c) && card_same(c, store@[i]),
            None => r is None,
        },
{
    match find_card_exec(store, id) {
        Some(i) => Some(store[i].copy()),
        None => None,
    }
}

/// Changes the card with id `id`: its name, tags and text where given (a new
/// text is parsed again, under the card's current name), and its modification
/// date. An unknown id is an error.
pub fn update_card(
    store: &mut Vec<Card>,
    id: &str,
    name: Option<String>,
    tags: Option<Vec<String>>,
    text: Option<String>,
) -> (r: Result<Card, String>)
    ensures
        match find_card(old(store)@, id@) {
            None => r matches Err(e) && e@ == "卡牌 "@ + id@ + " 不存在"@ && final(store)@ == old(store)@,
            Some(i) => r matches Ok(c) && {
                let before = old(store)@[i];
                &&& final(store)@.len() == old(store)@.len()
                &&& forall|k: int| 0 <= k < old(store)@.len() && k != i ==> final(store)@[k] == old(store)@[k]
                &&& card_same(final(store)@[i], c)
                &&& c.id@ == before.id@
                &&& c.name@ == (match name { Some(n) => n@, None => before.name@ })
                &&& strings_view(c.list_tags@) == (match tags {
                    Some(t) => strings_view(t@),
                    None => strings_view(before.list_tags@),
                })
                &&& strings_view(c.pre_tag@) == strings_view(before.pre_tag@)
                &&& c.created_at@ == before.created_at@
                &&& exists|secs: u64| c.modified_at@ == #[trigger] date_of_secs(secs)
                &&& match text {
                    Some(t) => c.text@ == t@ && parsed_fields(c, c.name@, t@),
                    None => {
                        &&& c.text@ == before.text@
                        &&& (match (c.ast, before.ast) {
                            (Some(x), Some(y)) => ast_same(x, y),
                            (None, None) => true,
                            _ => false,
                        })
                        &&& strings_view(c.duel_tags@) == strings_view(before.duel_tags@)
                        &&& strings_view(c.errors@) == strings_view(before.errors@)
                    },
                }
            },
        },
{
    let i = match find_card_exec(store, id) {
        Some(i) => i,
        None => {
            let mut e = crate::text::owned("卡牌 ");
            crate::text::append_str(&mut e, id);
            crate::text::append_str(&mut e, " 不存在");
            return Err(e);
        },
    };
    let mut card = store[i].copy();
    if let Some(n) = name {
        card.name = n;
    }
    if let Some(t) = tags {
        card.list_tags = t;
    }
    if let Some(tx) = text {
        let (ast, duel_tags, errors) = parse_fields(&card.name, &tx);
        card.text = tx;
        card.ast = ast;
        card.duel_tags = duel_tags;
        card.errors = errors;
    }
    card.modified_at = today_str();
    let result = card.copy();
    store.set(i, card);
    Ok(result)
}

/// The cards other than those with id `id`, order kept.
pub open spec fn without_id(cards: Seq<Card>, id: Seq<char>) -> Seq<Card>
    decreases cards.len(),
{
    if cards.len() == 0 {
        cards
    } else if cards.last().id@ == id {
        without_id(cards.drop_last(), id)
    } else {
        without_id(cards.drop_last(), id).push(cards.last())
    }
}

pub proof fn lemma_without_id_step(s: Seq<Card>, id: Seq<char>, k: int)
    requires
        0 <= k < s.len(),
    ensures
        without_id(s.subrange(0, k + 1), id) == (if s[k].id@ == id {
            without_id(s.subrange(0, k), id)
        } else {
            without_id(s.subrange(0, k), id).push(s[k])
        }),
{
    assert(s.subrange(0, k + 1).drop_last() =~= s.subrange(0, k));
}

pub proof fn lemma_without_id_len(s: Seq<Card>, id: Seq<char>)
    ensures
        without_id(s, id).len() <= s.len(),
        without_id(s, id).len() < s.len() <==> exists|i: int| 0 <= i < s.len() && s[i].id@ == id,
    decreases s.len(),
{
    if s.len() > 0 {
        lemma_without_id_len(s.drop_last(), id);
        if s.last().id@ == id {
            assert(s[s.len() - 1].id@ == id);
        } else {
            if exists|i: int| 0 <= i < s.len() && s[i].id@ == id {
                let i = choose|i: int| 0 <= i < s.len() && s[i].id@ == id;
                assert(s.drop_last()[i].id@ == id);
            }
            if exists|i: int| 0 <= i < s.len() - 1 && s.drop_last()[i].id@ == id {
                let i = choose|i: int| 0 <= i < s.len() - 1 && s.drop_last()[i].id@ == id;
                assert(s[i].id@ == id);
            }
        }
    }
}

/// Removes every card with id `id`; returns whether any was removed.
pub fn delete_card(store: &mut Vec<Card>, id: &str) -> (r: Result<bool, String>)
    ensures
        final(store)@ == without_id(old(store)@, id@),
        r == Ok::<bool, String>(exists|i: int| 0 <= i < old(store)@.len() && old(store)@[i].id@ == id@),
{
    let key = crate::text::owned(id);
    let ghost s0 = store@;
    let n0 = store.len();
    let mut i: usize = 0;
    let mut k: usize = 0;
    while i < store.len()
        invariant
            i <= store@.len(),
            k <= s0.len(),
            n0 == s0.len(),
            store@.len() - i == s0.len() - k,
            key@ == id@,
            store@.subrange(0, i as int) == without_id(s0.subrange(0, k as int), id@),
            forall|j: int| i <= j < store@.len() ==> store@[j] == s0[j - i + k],
        decreases store@.len() - i,
    {
        proof {
            lemma_without_id_step(s0, id@, k as int);
            assert(store@[i as int] == s0[k as int]);
        }
        if store[i].id == key {
            let ghost before = store@;
            store.remove(i);
            assert(store@.subrange(0, i as int) =~= before.subrange(0, i as int));
        } else {
            let ghost before = store@;
            assert(store@.subrange(0, i + 1) =~= before.subrange(0, i as int).push(before[i as int]));
            i = i + 1;
        }
        k = k + 1;
    }
    proof {
        assert(k == s0.len());
        assert(s0.subrange(0, k as int) =~= s0);
        assert(store@ =~= store@.subrange(0, i as int));
        lemma_without_id_len(s0, id@);
    }
    Ok(store.len() < n0)
}

/// Number of cards whose text parsed.
pub open spec fn count_parsed(cards: Seq<Card>) -> nat
    decreases cards.len(),
{
    if cards.len() == 0 {
        0
    } else {
        count_parsed(cards.drop_last()) + if cards.last().ast is Some { 1nat } else { 0nat }
    }
}

pub proof fn lemma_count_parsed_le(cards: Seq<Card>)
    ensures
        count_parsed(cards) <= cards.len(),
    decreases cards.len(),
{
    if cards.len() > 0 {
        lemma_count_parsed_le(cards.drop_last());
    }
}

/// (total, parsed, failed).
pub fn card_stats(cards: &[Card]) -> (r: (usize, usize, usize))
    ensures
        r.0 == cards@.len(),
        r.1 == count_parsed(cards@),
        r.2 == r.0 - r.1,
{
    let mut parsed: usize = 0;
    let mut i: usize = 0;
    while i < cards.len()
        invariant
            i <= cards@.len(),
            parsed == count_parsed(cards@.subrange(0, i as int)),
        decreases cards@.len() - i,
    {
        assert(cards@.subrange(0, i + 1).drop_last() =~= cards@.subrange(0, i as int));
        proof {
            lemma_count_parsed_le(cards@.subrange(0, i as int));
        }
        if cards[i].ast.is_some() {
            parsed = parsed + 1;
        }
        i = i + 1;
    }
    assert(cards@.subrange(0, cards@.len() as int) =~= cards@);
    proof {
        lemma_count_parsed_le(cards@);
    }
    (cards.len(), parsed, cards.len() - parsed)
}

/// The two layouts an import accepts: an export file (an object with a
/// `cards` member) or a bare array of cards.
#[derive(Debug, Clone, Copy, PartialEq, Eq, Structural)]
pub enum ImportLayout {
    CardsMember,
    TopLevelArray,
}

pub open spec fn import_layout_of(doc: crate::json::JsonValue) -> Option<ImportLayout> {
    match doc {
        crate::json::JsonValue::Object(kv) => if crate::json::member(kv@, "cards"@) is Some {
            Some(ImportLayout::CardsMember)
        } else {
            None
        },
        crate::json::JsonValue::Array(_) => Some(ImportLayout::TopLevelArray),
        _ => None,
    }
}

/// Which layout an import text has, or why it is refused: text that is not
/// JSON, or JSON of neither layout.
pub fn import_layout(json_str: &str) -> (r: Result<ImportLayout, String>)
    ensures
        match crate::json::json_parse(json_str@) {
            Err(e) => r matches Err(m) && m@ == "JSON 解析失败: "@ + e,
            Ok(doc) => match import_layout_of(doc) {
                Some(l) => r matches Ok(x) && x == l,
                None => r matches Err(m) && m@ == "无法识别的导入格式，顶层应为数组或包含 cards 键的对象"@,
            },
        },
{
    match crate::json::parse_json(json_str) {
        Err(e) => {
            let mut m = crate::text::owned("JSON 解析失败: ");
            crate::text::append_str(&mut m, e.as_str());
            Err(m)
        },
        Ok(doc) => match &doc {
            crate::json::JsonValue::Object(kv) => match crate::json::get_member(kv, "cards") {
                Some(_) => Ok(ImportLayout::CardsMember),
                None => Err(crate::text::owned("无法识别的导入格式，顶层应为数组或包含 cards 键的对象")),
            },
            crate::json::JsonValue::Array(_) => Ok(ImportLayout::TopLevelArray),
            _ => Err(crate::text::owned("无法识别的导入格式，顶层应为数组或包含 cards 键的对象")),
        },
    }
}

/// How many backups of the store are kept.
pub const MAX_BACKUPS: usize = 20;

/// `a` comes before or equals `b` in character order (file names of
/// backups order by the time stamped in them).
pub open spec fn name_le(a: Seq<char>, b: Seq<char>) -> bool
    decreases a.len(),
{
    if a.len() == 0 {
        true
    } else if b.len() == 0 {
        false
    } else if a[0] != b[0] {
        (a[0] as int) < (b[0] as int)
    } else {
        name_le(a.drop_first(), b.drop_first())
    }
}

proof fn lemma_name_le_refl(a: Seq<char>)
    ensures
        name_le(a, a),
    decreases a.len(),
{
    if a.len() > 0 {
        lemma_name_le_refl(a.drop_first());
    }
}

proof fn lemma_name_le_total(a: Seq<char>, b: Seq<char>)
    ensures
        name_le(a, b) || name_le(b, a),
    decreases a.len(),
{
    if a.len() > 0 && b.len() > 0 && a[0] == b[0] {
        lemma_name_le_total(a.drop_first(), b.drop_first());
    }
}

proof fn lemma_name_le_trans(a: Seq<char>, b: Seq<char>, c: Seq<char>)
    requires
        name_le(a, b),
        name_le(b, c),
    ensures
        name_le(a, c),
    decreases a.len(),
{
    if a.len() > 0 && b.len() > 0 && c.len() > 0 && a[0] == b[0] && b[0] == c[0] {
        lemma_name_le_trans(a.drop_first(), b.drop_first(), c.drop_first());
    }
}

fn name_le_exec(a: &Vec<char>, b: &Vec<char>) -> (r: bool)
    ensures
        r == name_le(a@, b@),
{
    let mut i: usize = 0;
    assert(a@.skip(0) =~= a@);
    assert(b@.skip(0) =~= b@);
    while i < a.len() && i < b.len()
        invariant
            i <= a@.len(),
            i <= b@.len(),
            name_le(a@, b@) == name_le(a@.skip(i as int), b@.skip(i as int)),
        decreases a@.len() - i,
    {
        if a[i] != b[i] {
            return a[i] < b[i];
        }
        assert(a@.skip(i as int).drop_first() =~= a@.skip(i + 1));
        assert(b@.skip(i as int).drop_first() =~= b@.skip(i + 1));
        i = i + 1;
    }
    i == a.len()
}

/// The backups a save deletes, oldest first: all but the `MAX_BACKUPS`
/// latest by name. What is deleted and what is kept make up the names
/// given, and nothing deleted comes after anything kept.
pub fn backups_to_remove(names: &Vec<String>) -> (r: Vec<String>)
    ensures
        r@.len() == (if names@.len() > MAX_BACKUPS { names@.len() - MAX_BACKUPS } else { 0 }),
        exists|kept: Seq<Seq<char>>|
            {
                &&& #[trigger] kept.to_multiset().add(strings_view(r@).to_multiset()) == strings_view(
                    names@,
                ).to_multiset()
                &&& forall|i: int, j: int|
                    0 <= i < r@.len() && 0 <= j < kept.len() ==> name_le(r@[i]@, kept[j])
            },
        forall|i: int, j: int| 0 <= i < j < r@.len() ==> name_le(r@[i]@, r@[j]@),
{
    let n = names.len();
    let k: usize = if n > MAX_BACKUPS { n - MAX_BACKUPS } else { 0 };
    let mut rest = copy_strings(names);
    assert(rest@.len() == strings_view(rest@).len());
    assert(names@.len() == strings_view(names@).len());
    let mut out: Vec<String> = Vec::new();
    assert(strings_view(out@) =~= Seq::<Seq<char>>::empty());
    assert(strings_view(out@).to_multiset() =~= vstd::multiset::Multiset::<Seq<char>>::empty()) by {
        broadcast use vstd::seq_lib::group_to_multiset_ensures;
    }
    assert(strings_view(rest@).to_multiset().add(strings_view(out@).to_multiset()) =~= strings_view(
        names@,
    ).to_multiset());
    while out.len() < k
        invariant
            k <= n == names@.len(),
            out@.len() <= k,
            rest@.len() + out@.len() == n,
            strings_view(rest@).to_multiset().add(strings_view(out@).to_multiset()) == strings_view(
                names@,
            ).to_multiset(),
            forall|i: int, j: int|
                0 <= i < out@.len() && 0 <= j < rest@.len() ==> name_le(out@[i]@, rest@[j]@),
            forall|i: int, j: int| 0 <= i < j < out@.len() ==> name_le(out@[i]@, out@[j]@),
        decreases k - out@.len(),
    {
        let mut m: usize = 0;
        let mut j: usize = 1;
        proof {
            lemma_name_le_refl(rest@[0]@);
        }
        while j < rest.len()
            invariant
                0 < rest@.len(),
                m < rest@.len(),
                1 <= j <= rest@.len(),
                forall|t: int| 0 <= t < j ==> name_le(rest@[m as int]@, #[trigger] rest@[t]@),
            decreases rest@.len() - j,
        {
            let cm = chars_of(rest[m].as_str());
            let cj = chars_of(rest[j].as_str());
            if !name_le_exec(&cm, &cj) {
                proof {
                    lemma_name_le_total(cm@, cj@);
                    lemma_name_le_refl(cj@);
                    assert forall|t: int| 0 <= t < j + 1 implies name_le(cj@, #[trigger] rest@[t]@) by {
                        if t < j {
                            lemma_name_le_trans(cj@, cm@, rest@[t]@);
                        }
                    }
                }
                m = j;
            }
            j = j + 1;
        }
        let ghost rv = strings_view(rest@);
        let ghost ov = strings_view(out@);
        let ghost r0 = rest@;
        let ghost o0 = out@;
        let x = rest.remove(m);
        assert(strings_view(rest@) =~= rv.remove(m as int));
        out.push(x);
        assert(strings_view(out@) =~= ov.push(x@));
        assert(rv[m as int] == x@);
        proof {
            vstd::seq_lib::to_multiset_remove(rv, m as int);
            vstd::seq_lib::to_multiset_build(ov, x@);
            vstd::seq_lib::to_multiset_contains(rv, x@);
        }
        assert(rv.contains(x@));
        assert(strings_view(rest@).to_multiset() == rv.to_multiset().remove(x@));
        assert(strings_view(out@).to_multiset() == ov.to_multiset().insert(x@));
        assert(rv.to_multiset().count(x@) > 0);
        assert(strings_view(rest@).to_multiset().add(strings_view(out@).to_multiset()) =~= strings_view(
            names@,
        ).to_multiset());
        assert forall|i: int, j2: int|
            0 <= i < out@.len() && 0 <= j2 < rest@.len() implies name_le(out@[i]@, rest@[j2]@) by {
            let jj = if j2 < m { j2 } else { j2 + 1 };
            assert(rest@[j2] == r0[jj]);
            if i == o0.len() {
                assert(out@[i] == x);
            } else {
                assert(out@[i] == o0[i]);
            }
        }
        assert forall|i: int, j2: int| 0 <= i < j2 < out@.len() implies name_le(out@[i]@, out@[j2]@) by {
            if j2 == o0.len() {
                assert(out@[j2] == r0[m as int]);
                assert(out@[i] == o0[i]);
            }
        }
    }
    assert(strings_view(rest@).to_multiset().add(strings_view(out@).to_multiset()) == strings_view(
        names@,
    ).to_multiset());
    assert(forall|i: int, j: int|
        0 <= i < out@.len() && 0 <= j < strings_view(rest@).len() ==> name_le(
            #[trigger] out@[i]@,
            #[trigger] strings_view(rest@)[j],
        ));
    out
}

} // verus!
