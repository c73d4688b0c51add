//! The deck factory: one instance per copy listed in the distribution
//! table, sorted by card id into factions (ZY01 to ZY05), careers (other ZY
//! ids), constructs (GZ ids) and basic cards, then dealt: factions and
//! careers in turn around the table, constructs and basic cards in equal
//! blocks. Every list that is dealt is shuffled first, and every deck after.
use vstd::prelude::*;
use crate::dz::ports::{mark_pairs, PlayerId, RuntimeCardId, RuntimeCardInstance, StaticCardId, Zone};
use crate::dz::setup::{entry_text, entries_of, inst_view, inst_views, strip_bom, InstView};
use crate::dz::shuffle::{lemma_permutes_map, permutes, shuffle};
use crate::json::{get_member, json_parse, parse_json, JsonValue};
use crate::text::{
    all_digits, append_chars, append_str, chars_of, copy_string, dec, digits_value, has_prefix, nat_dec, owned,
    parse_usize, parse_usize_chars, slice_vec, starts_with_lit, wide_to_chars,
};

verus! {

/// The decks dealt, and every instance made.
#[derive(Debug)]
pub struct DeckSetup {
    pub player_decks: Vec<Vec<RuntimeCardInstance>>,
    pub all_instances: Vec<RuntimeCardInstance>,
}

/// `serde_json::Value::as_u64` on a number's text: digits only, in range.
pub open spec fn json_u64(v: JsonValue) -> Option<int> {
    match v {
        JsonValue::Number(t) => if t@.len() > 0 && all_digits(t@) && digits_value(t@) <= u64::MAX {
            Some(digits_value(t@))
        } else {
            None
        },
        _ => None,
    }
}

/// The copy count of a table entry (`as_u64().unwrap_or(0) as u32`).
pub open spec fn entry_count(e: JsonValue) -> int {
    match e {
        JsonValue::Object(kv) => match crate::json::member(kv@, "count"@) {
            Some(n) => match json_u64(n) {
                Some(v) => v % 4294967296,
                None => 0,
            },
            None => 0,
        },
        _ => 0,
    }
}

/// The card id of every instance to make, copy after copy, entry after entry.
pub open spec fn copy_ids(entries: Seq<JsonValue>) -> Seq<Seq<char>>
    decreases entries.len(),
{
    if entries.len() == 0 {
        Seq::empty()
    } else {
        let e = entries.last();
        copy_ids(entries.drop_last()) + Seq::new(entry_count(e) as nat, |c: int| entry_text(e, "id"@))
    }
}

/// The `t`th instance made: numbered `t + 1`, in no player's hands yet.
pub open spec fn made(id: Seq<char>, t: int) -> InstView {
    InstView {
        rid: id + "_"@ + dec(t + 1),
        sid: id,
        zone: Zone::Deck,
        owner: "unassigned"@,
        hp: 0,
        armor: 0,
        energy: 0,
        marks: Seq::empty(),
    }
}

pub open spec fn made_all(ids: Seq<Seq<char>>) -> Seq<InstView> {
    Seq::new(ids.len(), |t: int| made(ids[t], t))
}

/// `str::parse::<u32>`.
pub open spec fn parse_u32(s: Seq<char>) -> Option<int> {
    match parse_usize(s) {
        Some(v) => if v <= u32::MAX {
            Some(v as int)
        } else {
            None
        },
        None => None,
    }
}

/// Class of a card id: 0 faction, 1 career, 2 construct, 3 basic.
pub open spec fn class_of(sid: Seq<char>) -> int {
    if has_prefix(sid, "ZY"@) {
        let num = match parse_u32(sid.subrange(2, sid.len() as int)) {
            Some(v) => v,
            None => 99,
        };
        if num <= 5 {
            0
        } else {
            1
        }
    } else if has_prefix(sid, "GZ"@) {
        2
    } else {
        3
    }
}

/// The instances of class `c`, in order.
pub open spec fn of_class(v: Seq<InstView>, c: int) -> Seq<InstView>
    decreases v.len(),
{
    if v.len() == 0 {
        Seq::empty()
    } else if class_of(v.last().sid) == c {
        of_class(v.drop_last(), c).push(v.last())
    } else {
        of_class(v.drop_last(), c)
    }
}

/// The instance given to player `k` ("P<k+1>").
pub open spec fn owned_by(x: InstView, k: int) -> InstView {
    InstView { owner: "P"@ + dec(k + 1), ..x }
}

/// Every `n`th item of `g` from the `k`th on, given to player `k`.
pub open spec fn round_robin(g: Seq<InstView>, n: int, k: int) -> Seq<InstView>
    decreases g.len(),
{
    if g.len() == 0 {
        Seq::empty()
    } else if (g.len() - 1) % n == k {
        round_robin(g.drop_last(), n, k).push(owned_by(g.last(), k))
    } else {
        round_robin(g.drop_last(), n, k)
    }
}

/// The `k`th block of `len(g) / n` items of `g`, given to player `k`.
pub open spec fn block(g: Seq<InstView>, n: int, k: int) -> Seq<InstView> {
    let per = (g.len() as int) / n;
    Seq::new(per as nat, |j: int| owned_by(g[k * per + j], k))
}

/// Player `k`'s deck before it is shuffled.
pub open spec fn deck_of(f: Seq<InstView>, c: Seq<InstView>, k4: Seq<InstView>, b: Seq<InstView>, n: int, k: int) -> Seq<InstView> {
    round_robin(f, n, k) + round_robin(c, n, k) + block(k4, n, k) + block(b, n, k)
}

/// Whether construct and basic cards are each either absent or at least
/// one per player, so that each player's block of them can be sized.
pub open spec fn classes_fit(ids: Seq<Seq<char>>, n: int) -> bool {
    let all = made_all(ids);
    let k4 = of_class(all, 2).len();
    let b = of_class(all, 3).len();
    &&& (k4 == 0 || k4 >= n)
    &&& (b == 0 || b >= n)
}

/// What every outcome of dealing the table `entries` to `n` players satisfies.
pub open spec fn decks_dealt(r: DeckSetup, entries: Seq<JsonValue>, n: int) -> bool {
    let all = made_all(copy_ids(entries));
    &&& permutes(inst_views(r.all_instances@), all)
    &&& r.player_decks@.len() == n
    &&& exists|f: Seq<InstView>, c: Seq<InstView>, k4: Seq<InstView>, b: Seq<InstView>|
        {
            &&& permutes(f, of_class(all, 0))
            &&& permutes(c, of_class(all, 1))
            &&& permutes(k4, of_class(all, 2))
            &&& permutes(b, of_class(all, 3))
            &&& forall|k: int| 0 <= k < n ==> permutes(inst_views(#[trigger] r.player_decks@[k]@), deck_of(f, c, k4, b, n, k))
        }
}

fn json_u64_exec(v: &JsonValue) -> (r: Option<u64>)
    ensures
        match r {
            Some(x) => json_u64(*v) == Some(x as int),
            None => json_u64(*v) is None,
        },
{
    match v {
        JsonValue::Number(t) => {
            let s = chars_of(t.as_str());
            if s.len() == 0 {
                return None;
            }
            let mut acc: u128 = 0;
            let mut i: usize = 0;
            while i < s.len()
                invariant
                    i <= s@.len(),
                    s@ == t@,
                    s@.len() > 0,
                    *v == JsonValue::Number(*t),
                    all_digits(s@.subrange(0, i as int)),
                    acc == digits_value(s@.subrange(0, i as int)),
                    acc <= u64::MAX,
                decreases s@.len() - i,
            {
                let c = s[i];
                assert(s@.subrange(0, i + 1).drop_last() =~= s@.subrange(0, i as int));
                if !('0' <= c && c <= '9') {
                    assert(!crate::text::is_digit(s@[i as int]));
                    assert(!all_digits(t@));
                    return None;
                }
                acc = acc * 10 + (c as u32 - '0' as u32) as u128;
                assert(s@.subrange(0, i + 1).last() == c);
                assert(acc == digits_value(s@.subrange(0, i + 1)));
                if acc > u64::MAX as u128 {
                    proof {
                        if all_digits(s@) {
                            crate::text::lemma_digits_value_prefix(s@, i + 1);
                            assert(digits_value(t@) > u64::MAX);
                        }
                    }
                    return None;
                }
                i = i + 1;
                assert(all_digits(s@.subrange(0, i as int))) by {
                    assert forall|k: int| 0 <= k < i implies crate::text::is_digit(#[trigger] s@.subrange(0, i as int)[k]) by {
                        if k < i - 1 {
                            assert(s@.subrange(0, i as int)[k] == s@.subrange(0, i - 1)[k]);
                        }
                    }
                }
            }
            assert(s@.subrange(0, s@.len() as int) =~= s@);
            Some(acc as u64)
        },
        _ => None,
    }
}

fn entry_count_exec(e: &JsonValue) -> (r: u32)
    ensures
        r == entry_count(*e),
{
    match e {
        JsonValue::Object(kv) => match get_member(kv, "count") {
            Some(n) => match json_u64_exec(n) {
                Some(v) => (v % 4294967296) as u32,
                None => 0,
            },
            None => 0,
        },
        _ => 0,
    }
}

fn entry_id(e: &JsonValue) -> (r: String)
    ensures
        r@ == entry_text(*e, "id"@),
{
    match e {
        JsonValue::Object(kv) => match get_member(kv, "id") {
            Some(JsonValue::Str(s)) => copy_string(s),
            _ => String::new(),
        },
        _ => String::new(),
    }
}

/// Total number of copies the table lists.
pub fn copy_total(entries: &Vec<JsonValue>) -> (r: u128)
    ensures
        r == copy_ids(entries@).len(),
{
    let mut total: u128 = 0;
    let mut i: usize = 0;
    while i < entries.len()
        invariant
            i <= entries@.len(),
            total == copy_ids(entries@.subrange(0, i as int)).len(),
            total <= i * 4294967295,
        decreases entries@.len() - i,
    {
        assert(entries@.subrange(0, i + 1).drop_last() =~= entries@.subrange(0, i as int));
        let c = entry_count_exec(&entries[i]);
        total = total + c as u128;
        i = i + 1;
    }
    assert(entries@.subrange(0, entries@.len() as int) =~= entries@);
    total
}

/// One instance per copy listed, numbered from 1 in table order.
pub fn make_instances(entries: &Vec<JsonValue>) -> (r: Vec<RuntimeCardInstance>)
    requires
        copy_ids(entries@).len() <= u32::MAX,
    ensures
        inst_views(r@) == made_all(copy_ids(entries@)),
{
    let mut out: Vec<RuntimeCardInstance> = Vec::new();
    let mut i: usize = 0;
    proof {
        lemma_copy_ids_prefix(entries@, 0);
    }
    assert(inst_views(out@) =~= made_all(copy_ids(entries@.subrange(0, 0))));
    while i < entries.len()
        invariant
            i <= entries@.len(),
            copy_ids(entries@).len() <= u32::MAX,
            inst_views(out@) == made_all(copy_ids(entries@.subrange(0, i as int))),
            out@.len() == copy_ids(entries@.subrange(0, i as int)).len(),
            copy_ids(entries@.subrange(0, i as int)).len() <= copy_ids(entries@).len(),
        decreases entries@.len() - i,
    {
        let e = &entries[i];
        let id = entry_id(e);
        let n = entry_count_exec(e);
        let ghost pre = copy_ids(entries@.subrange(0, i as int));
        proof {
            assert(entries@.subrange(0, i + 1).drop_last() =~= entries@.subrange(0, i as int));
            lemma_copy_ids_prefix(entries@, i + 1);
        }
        let mut c: u32 = 0;
        while c < n
            invariant
                c <= n,
                n == entry_count(*e),
                id@ == entry_text(*e, "id"@),
                pre.len() + n <= u32::MAX,
                out@.len() == pre.len() + c,
                inst_views(out@) == made_all(pre + Seq::new(c as nat, |q: int| entry_text(*e, "id"@))),
            decreases n - c,
        {
            let seq: u128 = out.len() as u128 + 1;
            let mut rid = copy_string(&id);
            append_str(&mut rid, "_");
            let digits = wide_to_chars(seq);
            append_chars(&mut rid, &digits);
            let inst = RuntimeCardInstance {
                runtime_id: RuntimeCardId(rid),
                static_def_ref: StaticCardId(copy_string(&id)),
                zone: Zone::Deck,
                owner: PlayerId(owned("unassigned")),
                hp: 0,
                armor: 0,
                energy: 0,
                marks: Vec::new(),
            };
            let ghost before = out@;
            out.push(inst);
            proof {
                let ids1 = pre + Seq::new((c + 1) as nat, |q: int| entry_text(*e, "id"@));
                assert(mark_pairs(inst.marks@) =~= Seq::<(Seq<char>, u32)>::empty());
                assert(dec(seq as int) == nat_dec(seq as nat));
                assert(inst_view(inst) == made(id@, before.len() as int));
                assert(ids1[before.len() as int] == id@);
                let ids0 = pre + Seq::new(c as nat, |q: int| entry_text(*e, "id"@));
                assert forall|t: int| 0 <= t < before.len() implies ids1[t] == ids0[t] by {
                    if t < pre.len() {
                        assert(ids1[t] == pre[t]);
                    }
                }
                assert(made_all(ids1).drop_last() =~= made_all(ids0));
                assert(inst_views(out@) =~= inst_views(before).push(inst_view(inst)));
                assert(inst_views(out@) =~= made_all(ids1));
            }
            c = c + 1;
        }
        assert(pre + Seq::new(n as nat, |q: int| entry_text(*e, "id"@)) =~= copy_ids(entries@.subrange(0, i + 1)));
        i = i + 1;
    }
    assert(entries@.subrange(0, entries@.len() as int) =~= entries@);
    out
}

pub proof fn lemma_copy_ids_prefix(entries: Seq<JsonValue>, i: int)
    requires
        0 <= i <= entries.len(),
    ensures
        copy_ids(entries.subrange(0, i)).len() <= copy_ids(entries).len(),
    decreases entries.len(),
{
    if i < entries.len() {
        assert(entries.drop_last().subrange(0, i) =~= entries.subrange(0, i));
        lemma_copy_ids_prefix(entries.drop_last(), i);
    } else {
        assert(entries.subrange(0, i) =~= entries);
    }
}

fn class_of_exec(sid: &String) -> (r: usize)
    ensures
        r == class_of(sid@),
{
    let v = chars_of(sid.as_str());
    if starts_with_lit(&v, "ZY") {
        proof {
            reveal_strlit("ZY");
        }
        let rest = slice_vec(&v, 2, v.len());
        let num: usize = match parse_usize_chars(&rest) {
            Some(x) => if x <= 4294967295 {
                x
            } else {
                99
            },
            None => 99,
        };
        if num <= 5 {
            0
        } else {
            1
        }
    } else if starts_with_lit(&v, "GZ") {
        2
    } else {
        3
    }
}

/// The instances of each class, in order.
pub fn split_classes(all: &Vec<RuntimeCardInstance>) -> (r: (
    Vec<RuntimeCardInstance>,
    Vec<RuntimeCardInstance>,
    Vec<RuntimeCardInstance>,
    Vec<RuntimeCardInstance>,
))
    ensures
        inst_views(r.0@) == of_class(inst_views(all@), 0),
        inst_views(r.1@) == of_class(inst_views(all@), 1),
        inst_views(r.2@) == of_class(inst_views(all@), 2),
        inst_views(r.3@) == of_class(inst_views(all@), 3),
{
    let mut f: Vec<RuntimeCardInstance> = Vec::new();
    let mut c: Vec<RuntimeCardInstance> = Vec::new();
    let mut k: Vec<RuntimeCardInstance> = Vec::new();
    let mut b: Vec<RuntimeCardInstance> = Vec::new();
    let mut i: usize = 0;
    while i < all.len()
        invariant
            i <= all@.len(),
            inst_views(f@) == of_class(inst_views(all@.subrange(0, i as int)), 0),
            inst_views(c@) == of_class(inst_views(all@.subrange(0, i as int)), 1),
            inst_views(k@) == of_class(inst_views(all@.subrange(0, i as int)), 2),
            inst_views(b@) == of_class(inst_views(all@.subrange(0, i as int)), 3),
        decreases all@.len() - i,
    {
        let ghost pre = inst_views(all@.subrange(0, i as int));
        assert(inst_views(all@.subrange(0, i + 1)) =~= pre.push(inst_view(all@[i as int])));
        assert(pre.push(inst_view(all@[i as int])).drop_last() =~= pre);
        let x = all[i].copy();
        let cl = class_of_exec(&all[i].static_def_ref.0);
        let ghost f0 = f@;
        let ghost c0 = c@;
        let ghost k0 = k@;
        let ghost b0 = b@;
        if cl == 0 {
            f.push(x);
            assert(inst_views(f@) =~= inst_views(f0).push(inst_view(x)));
        } else if cl == 1 {
            c.push(x);
            assert(inst_views(c@) =~= inst_views(c0).push(inst_view(x)));
        } else if cl == 2 {
            k.push(x);
            assert(inst_views(k@) =~= inst_views(k0).push(inst_view(x)));
        } else {
            b.push(x);
            assert(inst_views(b@) =~= inst_views(b0).push(inst_view(x)));
        }
        i = i + 1;
    }
    assert(all@.subrange(0, all@.len() as int) =~= all@);
    (f, c, k, b)
}

fn give_to(x: &RuntimeCardInstance, k: usize) -> (r: RuntimeCardInstance)
    ensures
        inst_view(r) == owned_by(inst_view(*x), k as int),
{
    let mut y = x.copy();
    let mut name = owned("P");
    let v = wide_to_chars(k as u128 + 1);
    append_chars(&mut name, &v);
    y.owner = PlayerId(name);
    y
}

fn push_view(deck: &mut Vec<RuntimeCardInstance>, x: RuntimeCardInstance)
    ensures
        inst_views(final(deck)@) == inst_views(old(deck)@).push(inst_view(x)),
{
    let ghost before = deck@;
    deck.push(x);
    assert(inst_views(deck@) =~= inst_views(before).push(inst_view(x)));
}

fn deal_round_robin(deck: &mut Vec<RuntimeCardInstance>, g: &Vec<RuntimeCardInstance>, n: usize, k: usize)
    requires
        n > 0,
    ensures
        inst_views(final(deck)@) == inst_views(old(deck)@) + round_robin(inst_views(g@), n as int, k as int),
{
    let ghost d0 = inst_views(deck@);
    let mut i: usize = 0;
    while i < g.len()
        invariant
            n > 0,
            i <= g@.len(),
            inst_views(deck@) == d0 + round_robin(inst_views(g@.subrange(0, i as int)), n as int, k as int),
        decreases g@.len() - i,
    {
        let ghost pre = inst_views(g@.subrange(0, i as int));
        assert(inst_views(g@.subrange(0, i + 1)) =~= pre.push(inst_view(g@[i as int])));
        assert(pre.push(inst_view(g@[i as int])).drop_last() =~= pre);
        if i % n == k {
            let y = give_to(&g[i], k);
            let ghost before = inst_views(deck@);
            push_view(deck, y);
            assert(inst_views(deck@) =~= d0 + round_robin(inst_views(g@.subrange(0, i + 1)), n as int, k as int));
        } else {
            assert(round_robin(inst_views(g@.subrange(0, i + 1)), n as int, k as int) == round_robin(pre, n as int, k as int));
        }
        i = i + 1;
    }
    assert(g@.subrange(0, g@.len() as int) =~= g@);
}

fn deal_block(deck: &mut Vec<RuntimeCardInstance>, g: &Vec<RuntimeCardInstance>, n: usize, k: usize)
    requires
        0 <= k < n,
    ensures
        inst_views(final(deck)@) == inst_views(old(deck)@) + block(inst_views(g@), n as int, k as int),
{
    let per = g.len() / n;
    proof {
        crate::dz::setup::lemma_share_fits(g@.len() as int, n as int, k as int);
        assert((k + 1) * per == k * per + per) by (nonlinear_arith);
        assert(0 <= k * per) by (nonlinear_arith);
    }
    let base = k * per;
    let ghost d0 = inst_views(deck@);
    let ghost gv = inst_views(g@);
    let glen = g.len();
    let mut j: usize = 0;
    while j < per
        invariant
            j <= per,
            per as int == (g@.len() as int) / (n as int),
            base == k * per,
            base + per <= g@.len(),
            glen == g@.len(),
            gv == inst_views(g@),
            inst_views(deck@) == d0 + Seq::new(j as nat, |q: int| owned_by(gv[k * per + q], k as int)),
        decreases per - j,
    {
        assert(base + j < glen);
        let y = give_to(&g[base + j], k);
        push_view(deck, y);
        assert(inst_views(deck@) =~= d0 + Seq::new((j + 1) as nat, |q: int| owned_by(gv[k * per + q], k as int)));
        j = j + 1;
    }
}

/// Every player's deck, dealt from the class lists as they stand.
pub fn deal(
    f: &Vec<RuntimeCardInstance>,
    c: &Vec<RuntimeCardInstance>,
    k4: &Vec<RuntimeCardInstance>,
    b: &Vec<RuntimeCardInstance>,
    n: usize,
) -> (r: Vec<Vec<RuntimeCardInstance>>)
    requires
        n > 0,
    ensures
        r@.len() == n,
        forall|k: int|
            0 <= k < n ==> inst_views(#[trigger] r@[k]@) == deck_of(
                inst_views(f@),
                inst_views(c@),
                inst_views(k4@),
                inst_views(b@),
                n as int,
                k,
            ),
{
    let mut decks: Vec<Vec<RuntimeCardInstance>> = Vec::new();
    let mut k: usize = 0;
    while k < n
        invariant
            k <= n,
            n > 0,
            decks@.len() == k,
            forall|q: int|
                0 <= q < k ==> inst_views(#[trigger] decks@[q]@) == deck_of(
                    inst_views(f@),
                    inst_views(c@),
                    inst_views(k4@),
                    inst_views(b@),
                    n as int,
                    q,
                ),
        decreases n - k,
    {
        let mut deck: Vec<RuntimeCardInstance> = Vec::new();
        assert(inst_views(deck@) =~= Seq::<InstView>::empty());
        deal_round_robin(&mut deck, f, n, k);
        deal_round_robin(&mut deck, c, n, k);
        deal_block(&mut deck, k4, n, k);
        deal_block(&mut deck, b, n, k);
        assert(inst_views(deck@) =~= deck_of(inst_views(f@), inst_views(c@), inst_views(k4@), inst_views(b@), n as int, k as int));
        let ghost before = decks@;
        decks.push(deck);
        assert forall|q: int| 0 <= q < k + 1 implies inst_views(#[trigger] decks@[q]@) == deck_of(
            inst_views(f@),
            inst_views(c@),
            inst_views(k4@),
            inst_views(b@),
            n as int,
            q,
        ) by {
            if q < k {
                assert(decks@[q] == before[q]);
            }
        }
        k = k + 1;
    }
    decks
}

/// Builds every player's deck from the text of the distribution table;
/// `source` names the table in error messages. Tables whose instance
/// numbers would pass `u32::MAX`, or with fewer construct or basic cards
/// than players (but some), cannot be dealt and are refused.
pub fn build_decks(distribution: &str, source: &str, player_count: usize) -> (r: Result<DeckSetup, String>)
    ensures
        match json_parse(strip_bom(distribution@)) {
            Err(msg) => r matches Err(e) && e@ == "解析JSON失败 "@ + source@ + ": "@ + msg,
            Ok(doc) => match entries_of(doc) {
                None => r matches Err(e) && e@ == "配比表缺少 entries 数组"@,
                Some(entries) => if player_count < 2 {
                    r matches Err(e) && e@ == "至少需要2名玩家"@
                } else if copy_ids(entries).len() > u32::MAX {
                    r matches Err(e) && e@ == "配比表的卡牌总数超出编号范围"@
                } else if !classes_fit(copy_ids(entries), player_count as int) {
                    r matches Err(e) && e@ == "构筑卡或基本牌不足以分给每名玩家"@
                } else {
                    r matches Ok(setup) && decks_dealt(setup, entries, player_count as int)
                },
            },
        },
{
    let text = crate::dz::setup::strip_bom_exec(distribution);
    let doc = match parse_json(text.as_str()) {
        Ok(d) => d,
        Err(e) => {
            let mut m = owned("解析JSON失败 ");
            append_str(&mut m, source);
            append_str(&mut m, ": ");
            append_str(&mut m, e.as_str());
            return Err(m);
        },
    };
    let entries = match &doc {
        JsonValue::Object(kv) => match get_member(kv, "entries") {
            Some(JsonValue::Array(a)) => a,
            _ => {
                return Err(owned("配比表缺少 entries 数组"));
            },
        },
        _ => {
            return Err(owned("配比表缺少 entries 数组"));
        },
    };
    assert(entries_of(doc) == Some(entries@));
    if player_count < 2 {
        return Err(owned("至少需要2名玩家"));
    }
    if copy_total(entries) > 4294967295 {
        return Err(owned("配比表的卡牌总数超出编号范围"));
    }
    let all = make_instances(entries);
    let (mut f, mut c, mut k4, mut b) = split_classes(&all);
    if (k4.len() > 0 && k4.len() < player_count) || (b.len() > 0 && b.len() < player_count) {
        return Err(owned("构筑卡或基本牌不足以分给每名玩家"));
    }
    let ghost av = inst_views(all@);
    let ghost f0 = f@;
    let ghost c0 = c@;
    let ghost k0 = k4@;
    let ghost b0 = b@;
    shuffle(&mut f);
    shuffle(&mut c);
    shuffle(&mut k4);
    shuffle(&mut b);
    let mut shuffled = all;
    shuffle(&mut shuffled);
    proof {
        lemma_permutes_map(f@, f0, |x: RuntimeCardInstance| inst_view(x));
        lemma_permutes_map(c@, c0, |x: RuntimeCardInstance| inst_view(x));
        lemma_permutes_map(k4@, k0, |x: RuntimeCardInstance| inst_view(x));
        lemma_permutes_map(b@, b0, |x: RuntimeCardInstance| inst_view(x));
        lemma_permutes_map(shuffled@, all@, |x: RuntimeCardInstance| inst_view(x));
    }
    let decks = deal(&f, &c, &k4, &b, player_count);
    let mut out: Vec<Vec<RuntimeCardInstance>> = Vec::new();
    let mut i: usize = 0;
    let ghost fv = inst_views(f@);
    let ghost cv = inst_views(c@);
    let ghost kv4 = inst_views(k4@);
    let ghost bv = inst_views(b@);
    while i < decks.len()
        invariant
            i <= decks@.len(),
            decks@.len() == player_count,
            forall|k: int| 0 <= k < player_count ==> inst_views(#[trigger] decks@[k]@) == deck_of(fv, cv, kv4, bv, player_count as int, k),
            out@.len() == i,
            forall|k: int| 0 <= k < i ==> permutes(inst_views(#[trigger] out@[k]@), deck_of(fv, cv, kv4, bv, player_count as int, k)),
        decreases decks@.len() - i,
    {
        let mut d = copy_instances(&decks[i]);
        let ghost d0 = d@;
        shuffle(&mut d);
        proof {
            lemma_permutes_map(d@, d0, |x: RuntimeCardInstance| inst_view(x));
            assert(inst_views(d0) == inst_views(decks@[i as int]@));
        }
        let ghost before = out@;
        out.push(d);
        assert forall|k: int| 0 <= k < i + 1 implies permutes(inst_views(#[trigger] out@[k]@), deck_of(fv, cv, kv4, bv, player_count as int, k)) by {
            if k < i {
                assert(out@[k] == before[k]);
            }
        }
        i = i + 1;
    }
    let setup = DeckSetup { player_decks: out, all_instances: shuffled };
    proof {
        let allv = made_all(copy_ids(entries@));
        assert(av == allv);
        assert(permutes(fv, of_class(allv, 0)));
        assert(decks_dealt(setup, entries@, player_count as int));
    }
    Ok(setup)
}

fn copy_instances(v: &Vec<RuntimeCardInstance>) -> (r: Vec<RuntimeCardInstance>)
    ensures
        inst_views(r@) == inst_views(v@),
{
    let mut out: Vec<RuntimeCardInstance> = Vec::new();
    let mut i: usize = 0;
    while i < v.len()
        invariant
            i <= v@.len(),
            inst_views(out@) == inst_views(v@.subrange(0, i as int)),
        decreases v@.len() - i,
    {
        let x = v[i].copy();
        push_view(&mut out, x);
        assert(inst_views(v@.subrange(0, i + 1)) =~= inst_views(v@.subrange(0, i as int)).push(inst_view(v@[i as int])));
        i = i + 1;
    }
    assert(v@.subrange(0, v@.len() as int) =~= v@);
    out
}

} // verus!
