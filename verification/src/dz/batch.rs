//! One run that renders a whole card set: the table entries it walks, the
//! fields it reads from each, the name of each output file, the line kept
//! for each card that failed, and the running tally.
use vstd::prelude::*;
use crate::dz::repo::{text_member, text_member_exec};
use crate::dz::setup::{entries_of, strip_bom, strip_bom_exec};
use crate::json::{json_parse, parse_json, JsonValue};
use crate::text::{append_chars, append_str, copy_string, nat_dec, nat_to_chars, owned};

verus! {

/// The entries of the distribution table `distribution`, or why a run
/// cannot start.
pub open spec fn batch_entries_of(distribution: Seq<char>) -> Result<Seq<JsonValue>, Seq<char>> {
    match json_parse(strip_bom(distribution)) {
        Err(msg) => Err("解析配比表: "@ + msg),
        Ok(doc) => match entries_of(doc) {
            None => Err("配比表缺少 entries 数组"@),
            Some(es) => Ok(es),
        },
    }
}

fn take_entries(doc: JsonValue) -> (r: Option<Vec<JsonValue>>)
    ensures
        match entries_of(doc) {
            Some(es) => r matches Some(v) && v@ == es,
            None => r is None,
        },
{
    match doc {
        JsonValue::Object(kv) => {
            let mut kv = kv;
            let k = owned("entries");
            match crate::assoc::assoc_find(&kv, &k) {
                Some(i) => {
                    proof {
                        crate::assoc::lemma_first_key(kv@, k@, i as int);
                    }
                    let (_, v) = kv.remove(i);
                    match v {
                        JsonValue::Array(a) => Some(a),
                        _ => None,
                    }
                },
                None => {
                    proof {
                        crate::assoc::lemma_no_key(kv@, k@);
                    }
                    None
                },
            }
        },
        _ => None,
    }
}

/// The entries of a distribution table read from its text (a leading BOM
/// is skipped).
pub fn batch_entries(distribution: &str) -> (r: Result<Vec<JsonValue>, String>)
    ensures
        match batch_entries_of(distribution@) {
            Ok(es) => r matches Ok(v) && v@ == es,
            Err(m) => r matches Err(e) && e@ == m,
        },
{
    let text = strip_bom_exec(distribution);
    match parse_json(text.as_str()) {
        Err(e) => {
            let mut m = owned("解析配比表: ");
            append_str(&mut m, e.as_str());
            Err(m)
        },
        Ok(doc) => match take_entries(doc) {
            Some(es) => Ok(es),
            None => Err(owned("配比表缺少 entries 数组")),
        },
    }
}

/// What a run reads of one table entry.
#[derive(Debug, Clone)]
pub struct BatchCard {
    pub id: String,
    pub name: String,
    pub category: String,
}

/// The text member `key` of `e`, or `d` where it has none.
pub open spec fn text_or(e: JsonValue, key: Seq<char>, d: Seq<char>) -> Seq<char> {
    match text_member(e, key) {
        Some(s) => s,
        None => d,
    }
}

fn text_or_exec(e: &JsonValue, key: &str, d: &str) -> (r: String)
    ensures
        r@ == text_or(*e, key@, d@),
{
    match text_member_exec(e, key) {
        Some(s) => s,
        None => owned(d),
    }
}

/// The id, name and category of a table entry; "unknown" stands for a
/// missing id or name, and "" for a missing category.
pub fn batch_card(entry: &JsonValue) -> (r: BatchCard)
    ensures
        r.id@ == text_or(*entry, "id"@, "unknown"@),
        r.name@ == text_or(*entry, "name"@, "unknown"@),
        r.category@ == text_or(*entry, "category"@, ""@),
{
    BatchCard {
        id: text_or_exec(entry, "id", "unknown"),
        name: text_or_exec(entry, "name", "unknown"),
        category: text_or_exec(entry, "category", ""),
    }
}

/// The file a card's picture is written to.
pub open spec fn svg_name(id: Seq<char>, name: Seq<char>) -> Seq<char> {
    id + "_"@ + name + ".svg"@
}

/// The file a card's picture is written to: `{id}_{name}.svg`.
pub fn svg_file_name(card: &BatchCard) -> (r: String)
    ensures
        r@ == svg_name(card.id@, card.name@),
{
    let mut s = copy_string(&card.id);
    append_str(&mut s, "_");
    append_str(&mut s, card.name.as_str());
    append_str(&mut s, ".svg");
    s
}

/// Why one card of a run produced no picture.
#[derive(Debug, Clone)]
pub enum BatchFailure {
    /// No folder of the cards directory starts with its id.
    NoFolder,
    /// Its source could not be read.
    ReadFailed { detail: String },
    /// Its source did not parse.
    ParseFailed { line: usize, message: String },
    /// The renderer refused it.
    RenderFailed { detail: String },
    /// Its picture could not be written.
    WriteFailed { detail: String },
}

/// The line kept for card `id` that failed for `f`.
pub open spec fn failure_text(id: Seq<char>, f: BatchFailure) -> Seq<char> {
    match f {
        BatchFailure::NoFolder => id + ": 目录不存在"@,
        BatchFailure::ReadFailed { detail } => id + ": 读取card.dz失败: "@ + detail@,
        BatchFailure::ParseFailed { line, message } => id + ": 解析失败 L"@ + nat_dec(line as nat) + ": "@
            + message@,
        BatchFailure::RenderFailed { detail } => id + ": 渲染失败: "@ + detail@,
        BatchFailure::WriteFailed { detail } => id + ": 写入失败: "@ + detail@,
    }
}

/// The line kept for card `id` that failed for `f`.
pub fn failure_line(id: &str, f: &BatchFailure) -> (r: String)
    ensures
        r@ == failure_text(id@, *f),
{
    let mut s = owned(id);
    match f {
        BatchFailure::NoFolder => append_str(&mut s, ": 目录不存在"),
        BatchFailure::ReadFailed { detail } => {
            append_str(&mut s, ": 读取card.dz失败: ");
            append_str(&mut s, detail.as_str());
        },
        BatchFailure::ParseFailed { line, message } => {
            append_str(&mut s, ": 解析失败 L");
            let digits = nat_to_chars(*line as u64);
            append_chars(&mut s, &digits);
            append_str(&mut s, ": ");
            append_str(&mut s, message.as_str());
        },
        BatchFailure::RenderFailed { detail } => {
            append_str(&mut s, ": 渲染失败: ");
            append_str(&mut s, detail.as_str());
        },
        BatchFailure::WriteFailed { detail } => {
            append_str(&mut s, ": 写入失败: ");
            append_str(&mut s, detail.as_str());
        },
    }
    s
}

/// The progress line after `done` of `total` cards, the last being `id`.
pub open spec fn progress_text(done: nat, total: nat, id: Seq<char>, name: Seq<char>) -> Seq<char> {
    nat_dec(done) + "/"@ + nat_dec(total) + " "@ + id + " "@ + name
}

/// The progress line after `done` of `total` cards: `{done}/{total} {id} {name}`.
pub fn progress_line(done: u32, total: u32, card: &BatchCard) -> (r: String)
    ensures
        r@ == progress_text(done as nat, total as nat, card.id@, card.name@),
{
    let mut s = String::new();
    let d = nat_to_chars(done as u64);
    append_chars(&mut s, &d);
    append_str(&mut s, "/");
    let t = nat_to_chars(total as u64);
    append_chars(&mut s, &t);
    append_str(&mut s, " ");
    append_str(&mut s, card.id.as_str());
    append_str(&mut s, " ");
    append_str(&mut s, card.name.as_str());
    s
}

/// The texts of a list of lines.
pub open spec fn line_views(v: Seq<String>) -> Seq<Seq<char>> {
    v.map_values(|s: String| s@)
}

/// The running count of a run: how many entries the table has, how many
/// pictures were written, and one line per card that failed.
#[derive(Debug, Clone)]
pub struct BatchTally {
    pub total: u32,
    pub generated: u32,
    pub failed: Vec<String>,
}

impl BatchTally {
    /// How many cards the run has dealt with so far.
    pub open spec fn processed(&self) -> int {
        self.generated + self.failed@.len()
    }

    /// A run over `total` entries, before its first card.
    pub fn new(total: u32) -> (r: BatchTally)
        ensures
            r.total == total,
            r.generated == 0,
            r.failed@.len() == 0,
    {
        BatchTally { total, generated: 0, failed: Vec::new() }
    }

    /// Counts a card whose picture was written.
    pub fn record_success(&mut self)
        requires
            old(self).generated < u32::MAX,
        ensures
            final(self).total == old(self).total,
            final(self).generated == old(self).generated + 1,
            final(self).failed@ == old(self).failed@,
            final(self).processed() == old(self).processed() + 1,
    {
        self.generated = self.generated + 1;
    }

    /// Keeps the line of card `id` that failed for `f`.
    pub fn record_failure(&mut self, id: &str, f: &BatchFailure)
        ensures
            final(self).total == old(self).total,
            final(self).generated == old(self).generated,
            line_views(final(self).failed@) == line_views(old(self).failed@).push(failure_text(id@, *f)),
            final(self).processed() == old(self).processed() + 1,
    {
        let line = failure_line(id, f);
        let ghost before = self.failed@;
        self.failed.push(line);
        assert(line_views(self.failed@) =~= line_views(before).push(failure_text(id@, *f)));
    }
}

} // verus!
