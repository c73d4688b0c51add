//! The text of the diagnostic log: its lines, the lines a parse error
//! adds, and the most recent entries of the error log.
use vstd::prelude::*;
use crate::dz::ports::{ParseError, StaticCardId};
use crate::text::{append_chars, append_str, copy_string, dec, nat_dec, owned, wide_to_chars};

verus! {

/// `[<timestamp>] [<level>] <msg>` and a line break.
pub fn log_line(timestamp: &str, level: &str, msg: &str) -> (r: String)
    ensures
        r@ == "["@ + timestamp@ + "] ["@ + level@ + "] "@ + msg@ + "\n"@,
{
    let mut s = owned("[");
    append_str(&mut s, timestamp);
    append_str(&mut s, "] [");
    append_str(&mut s, level);
    append_str(&mut s, "] ");
    append_str(&mut s, msg);
    append_str(&mut s, "\n");
    s
}

/// The log message of one parse error of a card.
pub open spec fn parse_error_text(card_id: Seq<char>, e: ParseError) -> Seq<char> {
    "解析错误 ["@ + card_id + "] 第"@ + dec(e.line as int) + "行第"@ + dec(e.col as int) + "列: "@ + e.message@
}

/// The log messages of a card's parse errors, one per error.
pub fn parse_error_messages(card_id: &StaticCardId, errors: &[ParseError]) -> (r: Vec<String>)
    ensures
        r@.len() == errors@.len(),
        forall|i: int| 0 <= i < errors@.len() ==> (#[trigger] r@[i])@ == parse_error_text(card_id@, errors@[i]),
{
    let mut out: Vec<String> = Vec::new();
    let mut i: usize = 0;
    while i < errors.len()
        invariant
            i <= errors@.len(),
            out@.len() == i,
            forall|k: int| 0 <= k < i ==> (#[trigger] out@[k])@ == parse_error_text(card_id@, errors@[k]),
        decreases errors@.len() - i,
    {
        let e = &errors[i];
        let mut m = owned("解析错误 [");
        append_str(&mut m, card_id.0.as_str());
        append_str(&mut m, "] 第");
        let line = wide_to_chars(e.line as u128);
        append_chars(&mut m, &line);
        append_str(&mut m, "行第");
        let col = wide_to_chars(e.col as u128);
        append_chars(&mut m, &col);
        append_str(&mut m, "列: ");
        append_str(&mut m, e.message.as_str());
        proof {
            assert(dec(e.line as int) == nat_dec(e.line as nat));
            assert(dec(e.col as int) == nat_dec(e.col as nat));
        }
        out.push(m);
        i = i + 1;
    }
    out
}

/// The last `limit` lines (all of them when there are fewer), in order.
pub fn recent_lines(lines: &Vec<String>, limit: usize) -> (r: Vec<String>)
    ensures
        r@.map_values(|l: String| l@) == lines@.map_values(|l: String| l@).subrange(
            if lines@.len() > limit { lines@.len() - limit } else { 0 },
            lines@.len() as int,
        ),
{
    let start: usize = if lines.len() > limit { lines.len() - limit } else { 0 };
    let mut out: Vec<String> = Vec::new();
    let mut i: usize = start;
    while i < lines.len()
        invariant
            start <= i <= lines@.len(),
            start == (if lines@.len() > limit { lines@.len() - limit } else { 0 }),
            out@.map_values(|l: String| l@) == lines@.map_values(|l: String| l@).subrange(start as int, i as int),
        decreases lines@.len() - i,
    {
        let ghost before = out@;
        let l = copy_string(&lines[i]);
        let ghost lv = l@;
        out.push(l);
        assert(out@.map_values(|l: String| l@) =~= before.map_values(|l: String| l@).push(lv));
        assert(lines@.map_values(|l: String| l@).subrange(start as int, i + 1) =~= lines@.map_values(|l: String| l@).subrange(
            start as int,
            i as int,
        ).push(lv));
        assert(out@.map_values(|l: String| l@) =~= lines@.map_values(|l: String| l@).subrange(start as int, i + 1));
        i = i + 1;
    }
    out
}

} // verus!
