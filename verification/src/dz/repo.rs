//! The card folders on disk, as names: which folders hold cards, which
//! folder belongs to a card, and the minimal card rebuilt from the
//! distribution table when both a card and its backup are lost.
use vstd::prelude::*;
use crate::dz::ports::StaticCardId;
use crate::dz::setup::{entries_of, strip_bom};
use crate::json::{json_parse, member, parse_json, JsonValue};
use crate::text::{append_str, chars_of, copy_string, has_prefix, owned, trim, trim_vec};

verus! {

/// Which copy of a card was read.
#[derive(Debug, Clone, Copy, PartialEq, Eq, Structural)]
pub enum FallbackLevel {
    /// The card's own files.
    Direct,
    /// The `.backup` copies.
    Backup,
    /// A minimal card rebuilt from the distribution table.
    Rebuilt,
}

/// The part of a folder name before its first '-'.
pub open spec fn id_part(name: Seq<char>) -> Seq<char>
    decreases name.len(),
{
    if name.len() == 0 {
        name
    } else if name[0] == '-' {
        Seq::empty()
    } else {
        seq![name[0]] + id_part(name.drop_first())
    }
}

/// The card ids of folders named `names`: the part before the first '-',
/// for folders whose name starts with an ASCII capital.
pub open spec fn card_ids(names: Seq<Seq<char>>) -> Seq<Seq<char>>
    decreases names.len(),
{
    if names.len() == 0 {
        Seq::empty()
    } else {
        let rest = card_ids(names.drop_last());
        let p = id_part(names.last());
        if p.len() > 0 && 'A' <= p[0] && p[0] <= 'Z' {
            rest.push(p)
        } else {
            rest
        }
    }
}

fn id_part_exec(name: &Vec<char>) -> (r: Vec<char>)
    ensures
        r@ == id_part(name@),
{
    let mut k: usize = 0;
    assert(name@.subrange(0, 0) + name@.subrange(0, name@.len() as int) =~= name@);
    while k < name.len() && name[k] != '-'
        invariant
            k <= name@.len(),
            id_part(name@) == name@.subrange(0, k as int) + id_part(name@.subrange(k as int, name@.len() as int)),
        decreases name@.len() - k,
    {
        let ghost rest = name@.subrange(k as int, name@.len() as int);
        assert(rest.drop_first() =~= name@.subrange(k + 1, name@.len() as int));
        assert(name@.subrange(0, k + 1) =~= name@.subrange(0, k as int) + seq![name@[k as int]]);
        k = k + 1;
    }
    proof {
        let rest = name@.subrange(k as int, name@.len() as int);
        assert(id_part(rest) =~= Seq::<char>::empty());
    }
    crate::text::slice_vec(name, 0, k)
}

/// The card ids among the folder names, in order.
pub fn card_ids_from_names(names: &Vec<String>) -> (r: Vec<StaticCardId>)
    ensures
        r@.map_values(|c: StaticCardId| c@) == card_ids(names@.map_values(|n: String| n@)),
{
    let ghost nv = names@.map_values(|n: String| n@);
    let mut out: Vec<StaticCardId> = Vec::new();
    let mut i: usize = 0;
    assert(nv.subrange(0, 0) =~= Seq::<Seq<char>>::empty());
    while i < names.len()
        invariant
            i <= names@.len(),
            nv == names@.map_values(|n: String| n@),
            out@.map_values(|c: StaticCardId| c@) == card_ids(nv.subrange(0, i as int)),
        decreases names@.len() - i,
    {
        assert(nv.subrange(0, i + 1).drop_last() =~= nv.subrange(0, i as int));
        assert(nv.subrange(0, i + 1).last() == names@[i as int]@);
        let c = chars_of(names[i].as_str());
        let p = id_part_exec(&c);
        if p.len() > 0 && 'A' <= p[0] && p[0] <= 'Z' {
            let ghost before = out@.map_values(|c: StaticCardId| c@);
            let id = StaticCardId(crate::text::string_of(&p));
            out.push(id);
            assert(out@.map_values(|c: StaticCardId| c@) =~= before.push(p@));
        }
        i = i + 1;
    }
    assert(nv.subrange(0, names@.len() as int) =~= nv);
    out
}

/// Index of the first folder whose name starts with `id`.
pub open spec fn dir_index(names: Seq<Seq<char>>, id: Seq<char>, i: int) -> int
    decreases names.len() - i,
{
    if i < 0 || i >= names.len() {
        names.len() as int
    } else if has_prefix(names[i], id) {
        i
    } else {
        dir_index(names, id, i + 1)
    }
}

/// The folder of a card: the first whose name starts with its id.
pub fn dir_for_card(names: &Vec<String>, id: &StaticCardId) -> (r: Option<usize>)
    ensures
        match r {
            Some(i) => i == dir_index(names@.map_values(|n: String| n@), id@, 0),
            None => dir_index(names@.map_values(|n: String| n@), id@, 0) == names@.len(),
        },
{
    let ghost nv = names@.map_values(|n: String| n@);
    let idc = chars_of(id.0.as_str());
    let mut i: usize = 0;
    while i < names.len()
        invariant
            i <= names@.len(),
            nv == names@.map_values(|n: String| n@),
            idc@ == id@,
            dir_index(nv, id@, i as int) == dir_index(nv, id@, 0),
        decreases names@.len() - i,
    {
        let c = chars_of(names[i].as_str());
        assert(nv[i as int] == c@);
        if crate::text::matches_at(&c, &idc, 0) {
            return Some(i);
        }
        i = i + 1;
    }
    None
}

/// Whether a file's text has anything but whitespace (empty files count as lost).
pub fn is_nonblank(content: &str) -> (r: bool)
    ensures
        r == (trim(content@).len() > 0),
{
    let v = crate::text::trim_str(content);
    v.len() > 0
}

/// The text member `key` of a table entry, if it is a text.
pub open spec fn text_member(e: JsonValue, key: Seq<char>) -> Option<Seq<char>> {
    match e {
        JsonValue::Object(kv) => match member(kv@, key) {
            Some(JsonValue::Str(s)) => Some(s@),
            _ => None,
        },
        _ => None,
    }
}

/// Index of the first table entry whose id is `id`.
pub open spec fn entry_index(es: Seq<JsonValue>, id: Seq<char>, i: int) -> int
    decreases es.len() - i,
{
    if i < 0 || i >= es.len() {
        es.len() as int
    } else if text_member(es[i], "id"@) == Some(id) {
        i
    } else {
        entry_index(es, id, i + 1)
    }
}

/// The source of a card rebuilt from its table entry.
pub open spec fn rebuilt_source(name: Seq<char>, category: Seq<char>) -> Seq<char> {
    name + " ["@ + category + ", 恢复]\n  请重新编辑效果文本。\n  —常驻：此卡从备份重建。\n"@
}

/// The card `id` rebuilt from the distribution table: its name (the id
/// when the entry names none), its category ("未知" when it has none), and
/// a minimal source; or why it cannot be rebuilt.
pub open spec fn rebuilt(distribution: Seq<char>, id: Seq<char>) -> Result<(Seq<char>, Seq<char>, Seq<char>), Seq<char>> {
    match json_parse(strip_bom(distribution)) {
        Err(msg) => Err("解析配比表: "@ + msg),
        Ok(doc) => match entries_of(doc) {
            None => Err("配比表结构异常"@),
            Some(es) => {
                let k = entry_index(es, id, 0);
                if k >= es.len() {
                    Err(id + " 不在配比表中，无法重建"@)
                } else {
                    let name = match text_member(es[k], "name"@) {
                        Some(n) => n,
                        None => id,
                    };
                    let category = match text_member(es[k], "category"@) {
                        Some(c) => c,
                        None => "未知"@,
                    };
                    Ok((name, category, rebuilt_source(name, category)))
                }
            },
        },
    }
}

pub(crate) fn text_member_exec(e: &JsonValue, key: &str) -> (r: Option<String>)
    ensures
        match r {
            Some(s) => text_member(*e, key@) == Some(s@),
            None => text_member(*e, key@) is None,
        },
{
    match e {
        JsonValue::Object(kv) => match crate::json::get_member(kv, key) {
            Some(JsonValue::Str(s)) => Some(copy_string(s)),
            _ => None,
        },
        _ => None,
    }
}

fn entry_pos(es: &Vec<JsonValue>, id: &StaticCardId) -> (r: usize)
    ensures
        r == entry_index(es@, id@, 0),
{
    let ic = chars_of(id.0.as_str());
    let mut k: usize = 0;
    while k < es.len()
        invariant
            k <= es@.len(),
            ic@ == id@,
            entry_index(es@, id@, k as int) == entry_index(es@, id@, 0),
        decreases es@.len() - k,
    {
        match text_member_exec(&es[k], "id") {
            Some(s) => {
                let sc = chars_of(s.as_str());
                if crate::text::seq_eq(&sc, &ic) {
                    return k;
                }
            },
            None => {},
        }
        k = k + 1;
    }
    k
}

impl DegradationChain {
    /// The minimal card rebuilt for `id` from the text of the distribution
    /// table (the last of the three ways a card is recovered).
    pub fn rebuild_from_distribution(distribution: &str, id: &StaticCardId) -> (r: Result<(String, String, String), String>)
        ensures
            match rebuilt(distribution@, id@) {
                Ok((n, c, s)) => r matches Ok(x) && x.0@ == n && x.1@ == c && x.2@ == s,
                Err(m) => r matches Err(e) && e@ == m,
            },
    {
        let text = crate::dz::setup::strip_bom_exec(distribution);
        let doc = match parse_json(text.as_str()) {
            Ok(d) => d,
            Err(e) => {
                let mut m = owned("解析配比表: ");
                append_str(&mut m, e.as_str());
                return Err(m);
            },
        };
        let es = match &doc {
            JsonValue::Object(kv) => match crate::json::get_member(kv, "entries") {
                Some(JsonValue::Array(a)) => a,
                _ => {
                    return Err(owned("配比表结构异常"));
                },
            },
            _ => {
                return Err(owned("配比表结构异常"));
            },
        };
        let k = entry_pos(es, id);
        if k >= es.len() {
            let mut m = copy_string(&id.0);
            append_str(&mut m, " 不在配比表中，无法重建");
            return Err(m);
        }
        let name = match text_member_exec(&es[k], "name") {
            Some(n) => n,
            None => copy_string(&id.0),
        };
        let category = match text_member_exec(&es[k], "category") {
            Some(c) => c,
            None => owned("未知"),
        };
        let mut source = copy_string(&name);
        append_str(&mut source, " [");
        append_str(&mut source, category.as_str());
        append_str(&mut source, ", 恢复]\n  请重新编辑效果文本。\n  —常驻：此卡从备份重建。\n");
        Ok((name, category, source))
    }
}

/// The three-level recovery of a card's files.
pub struct DegradationChain;

} // verus!
