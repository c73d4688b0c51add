//! Standard game set-up: the distribution table's cards are sorted into
//! faction, career, construct and basic groups, each group is shuffled and
//! split evenly among the players, and every player's deck is shuffled.
use vstd::prelude::*;
use crate::dz::ports::{mark_pairs, PlayerId, RuntimeCardId, RuntimeCardInstance, StaticCardId, Zone};
use crate::dz::shuffle::{lemma_permutes_map, permutes, shuffle};
use crate::json::{get_member, json_parse, member, parse_json, JsonValue};
use crate::text::{append_chars, append_int, append_str, chars_of, copy_string, dec, eq_lit, owned, string_of, wide_to_chars};

verus! {

/// One player's cards at the start of a game.
#[derive(Debug, Clone)]
pub struct PlayerDataInit {
    pub id: PlayerId,
    pub deck: Vec<RuntimeCardInstance>,
    pub hand: Vec<RuntimeCardInstance>,
    pub field: Vec<RuntimeCardInstance>,
    pub graveyard: Vec<RuntimeCardInstance>,
}

/// Sets up games.
pub struct GameSetup;

/// A card instance as plain values.
pub struct InstView {
    pub rid: Seq<char>,
    pub sid: Seq<char>,
    pub zone: Zone,
    pub owner: Seq<char>,
    pub hp: u32,
    pub armor: u32,
    pub energy: u32,
    pub marks: Seq<(Seq<char>, u32)>,
}

pub open spec fn inst_view(x: RuntimeCardInstance) -> InstView {
    InstView {
        rid: x.runtime_id@,
        sid: x.static_def_ref@,
        zone: x.zone,
        owner: x.owner@,
        hp: x.hp,
        armor: x.armor,
        energy: x.energy,
        marks: mark_pairs(x.marks@),
    }
}

pub open spec fn inst_views(v: Seq<RuntimeCardInstance>) -> Seq<InstView> {
    v.map_values(|x: RuntimeCardInstance| inst_view(x))
}

/// The cards of the distribution table, sorted by category: (id, name) pairs.
pub struct Groups {
    pub faction: Seq<(Seq<char>, Seq<char>)>,
    pub career: Seq<(Seq<char>, Seq<char>)>,
    pub construct: Seq<(Seq<char>, Seq<char>)>,
    pub basic: Seq<(Seq<char>, Seq<char>)>,
}

/// The same groups, each in some order.
pub open spec fn groups_permute(a: Groups, b: Groups) -> bool {
    permutes(a.faction, b.faction) && permutes(a.career, b.career) && permutes(a.construct, b.construct)
        && permutes(a.basic, b.basic)
}

/// The text of member `key` of an entry, "" when there is none or it is no string.
pub open spec fn entry_text(e: JsonValue, key: Seq<char>) -> Seq<char> {
    match e {
        JsonValue::Object(kv) => match member(kv@, key) {
            Some(JsonValue::Str(s)) => s@,
            _ => Seq::empty(),
        },
        _ => Seq::empty(),
    }
}

/// Group of a category: 0 faction, 1 career, 2 construct, 3 basic, 4 none.
pub open spec fn group_of(cat: Seq<char>) -> int {
    if cat == "阵营"@ || cat == "阵营卡"@ {
        0
    } else if cat == "职业"@ || cat == "职业卡"@ {
        1
    } else if cat == "构筑卡"@ {
        2
    } else if cat == "基本牌"@ {
        3
    } else {
        4
    }
}

/// The groups of the first table entries.
pub open spec fn groups_of(entries: Seq<JsonValue>) -> Groups
    decreases entries.len(),
{
    if entries.len() == 0 {
        Groups { faction: Seq::empty(), career: Seq::empty(), construct: Seq::empty(), basic: Seq::empty() }
    } else {
        let g = groups_of(entries.drop_last());
        let e = entries.last();
        let card = (entry_text(e, "id"@), entry_text(e, "name"@));
        let k = group_of(entry_text(e, "category"@));
        if k == 0 {
            Groups { faction: g.faction.push(card), ..g }
        } else if k == 1 {
            Groups { career: g.career.push(card), ..g }
        } else if k == 2 {
            Groups { construct: g.construct.push(card), ..g }
        } else if k == 3 {
            Groups { basic: g.basic.push(card), ..g }
        } else {
            g
        }
    }
}

/// `s` without the byte order marks it starts with.
pub open spec fn strip_bom(s: Seq<char>) -> Seq<char>
    decreases s.len(),
{
    if s.len() > 0 && s[0] == '\u{feff}' {
        strip_bom(s.drop_first())
    } else {
        s
    }
}

/// The entries array of a parsed table, if it has one.
pub open spec fn entries_of(doc: JsonValue) -> Option<Seq<JsonValue>> {
    match doc {
        JsonValue::Object(kv) => match member(kv@, "entries"@) {
            Some(JsonValue::Array(a)) => Some(a@),
            _ => None,
        },
        _ => None,
    }
}

/// The card a player draws as the `j`th of a group's share: its instance
/// numbered `seq` in that player's deck.
pub open spec fn dealt(
    g: Seq<(Seq<char>, Seq<char>)>,
    per: int,
    i: int,
    j: int,
    seq: int,
    owner: Seq<char>,
    hp: u32,
    armor: u32,
    energy: u32,
) -> InstView {
    let id = g[i * per + j].0;
    InstView { rid: id + "_"@ + dec(seq), sid: id, zone: Zone::Deck, owner, hp, armor, energy, marks: Seq::empty() }
}

/// Player name "P<i+1>".
pub open spec fn seat_name(i: int) -> Seq<char> {
    "P"@ + dec(i + 1)
}

/// Player `i`'s deck before it is shuffled: an even share of each group,
/// factions with 10 life, 2 armor and 4 energy, numbered in order.
pub open spec fn deal_deck(g: Groups, count: int, i: int) -> Seq<InstView> {
    let fp = (g.faction.len() as int) / count;
    let cp = (g.career.len() as int) / count;
    let kp = (g.construct.len() as int) / count;
    let bp = (g.basic.len() as int) / count;
    let o = seat_name(i);
    Seq::new(
        (fp + cp + kp + bp) as nat,
        |t: int|
            if t < fp {
                dealt(g.faction, fp, i, t, t + 1, o, 10, 2, 4)
            } else if t < fp + cp {
                dealt(g.career, cp, i, t - fp, t + 1, o, 0, 0, 0)
            } else if t < fp + cp + kp {
                dealt(g.construct, kp, i, t - fp - cp, t + 1, o, 0, 0, 0)
            } else {
                dealt(g.basic, bp, i, t - fp - cp - kp, t + 1, o, 0, 0, 0)
            },
    )
}

/// The players dealt from `g`; with `shuffled`, each deck in some order.
pub open spec fn dealt_players(players: Seq<PlayerDataInit>, g: Groups, count: int, shuffled: bool) -> bool {
    &&& players.len() == count
    &&& forall|i: int|
        0 <= i < count ==> {
            &&& (#[trigger] players[i]).id@ == seat_name(i)
            &&& (if shuffled {
                permutes(inst_views(players[i].deck@), deal_deck(g, count, i))
            } else {
                inst_views(players[i].deck@) == deal_deck(g, count, i)
            })
            &&& players[i].hand@.len() == 0
            &&& players[i].field@.len() == 0
            &&& players[i].graveyard@.len() == 0
        }
}

/// The players of a game set up from the table `entries`: its groups, each
/// in some order, dealt evenly, each deck in some order.
pub open spec fn set_up(players: Seq<PlayerDataInit>, entries: Seq<JsonValue>, count: int) -> bool {
    exists|g: Groups| groups_permute(g, groups_of(entries)) && #[trigger] dealt_players(players, g, count, true)
}

/// A group as executable (id, name) pairs.
pub open spec fn pair_views(v: Seq<(String, String)>) -> Seq<(Seq<char>, Seq<char>)> {
    v.map_values(|e: (String, String)| (e.0@, e.1@))
}

fn push_pair(v: &mut Vec<(String, String)>, id: String, name: String)
    ensures
        pair_views(final(v)@) == pair_views(old(v)@).push((id@, name@)),
{
    let ghost before = v@;
    v.push((id, name));
    assert(pair_views(v@) =~= pair_views(before).push((id@, name@)));
}

fn text_of(e: &JsonValue, key: &str) -> (r: String)
    ensures
        r@ == entry_text(*e, key@),
{
    match e {
        JsonValue::Object(kv) => match get_member(kv, key) {
            Some(JsonValue::Str(s)) => copy_string(s),
            _ => String::new(),
        },
        _ => String::new(),
    }
}

fn category_group(cat: &String) -> (r: usize)
    ensures
        r == group_of(cat@),
{
    let c = chars_of(cat.as_str());
    if eq_lit(&c, "阵营") || eq_lit(&c, "阵营卡") {
        0
    } else if eq_lit(&c, "职业") || eq_lit(&c, "职业卡") {
        1
    } else if eq_lit(&c, "构筑卡") {
        2
    } else if eq_lit(&c, "基本牌") {
        3
    } else {
        4
    }
}

/// The four groups of the table entries, in table order.
pub fn sort_entries(entries: &Vec<JsonValue>) -> (r: (Vec<(String, String)>, Vec<(String, String)>, Vec<(String, String)>, Vec<(String, String)>))
    ensures
        ({
            let g = groups_of(entries@);
            &&& pair_views(r.0@) == g.faction
            &&& pair_views(r.1@) == g.career
            &&& pair_views(r.2@) == g.construct
            &&& pair_views(r.3@) == g.basic
        }),
{
    let mut f: Vec<(String, String)> = Vec::new();
    let mut c: Vec<(String, String)> = Vec::new();
    let mut k: Vec<(String, String)> = Vec::new();
    let mut b: Vec<(String, String)> = Vec::new();
    let mut i: usize = 0;
    while i < entries.len()
        invariant
            i <= entries@.len(),
            ({
                let g = groups_of(entries@.subrange(0, i as int));
                &&& pair_views(f@) == g.faction
                &&& pair_views(c@) == g.career
                &&& pair_views(k@) == g.construct
                &&& pair_views(b@) == g.basic
            }),
        decreases entries@.len() - i,
    {
        assert(entries@.subrange(0, i + 1).drop_last() =~= entries@.subrange(0, i as int));
        let e = &entries[i];
        let id = text_of(e, "id");
        let name = text_of(e, "name");
        let cat = text_of(e, "category");
        let grp = category_group(&cat);
        if grp == 0 {
            push_pair(&mut f, id, name);
        } else if grp == 1 {
            push_pair(&mut c, id, name);
        } else if grp == 2 {
            push_pair(&mut k, id, name);
        } else if grp == 3 {
            push_pair(&mut b, id, name);
        }
        i = i + 1;
    }
    assert(entries@.subrange(0, entries@.len() as int) =~= entries@);
    (f, c, k, b)
}

fn seat_id(i: usize) -> (r: PlayerId)
    ensures
        r@ == seat_name(i as int),
{
    let mut s = owned("P");
    let v = wide_to_chars(i as u128 + 1);
    append_chars(&mut s, &v);
    PlayerId(s)
}

/// Appends a player's share of one group to the deck.
fn deal_group(
    deck: &mut Vec<RuntimeCardInstance>,
    g: &Vec<(String, String)>,
    per: usize,
    i: usize,
    owner: &PlayerId,
    hp: u32,
    armor: u32,
    energy: u32,
)
    requires
        (i + 1) * per <= g@.len(),
    ensures
        inst_views(final(deck)@) == inst_views(old(deck)@) + Seq::new(
            per as nat,
            |j: int| dealt(pair_views(g@), per as int, i as int, j, old(deck)@.len() + j + 1, owner@, hp, armor, energy),
        ),
{
    let ghost d0 = inst_views(deck@);
    let ghost n0 = deck@.len();
    let ghost gv = pair_views(g@);
    let glen = g.len();
    let mut j: usize = 0;
    proof {
        assert((i + 1) * per == i * per + per) by (nonlinear_arith);
        assert(i * per + per <= g@.len());
        assert(0 <= i * per) by (nonlinear_arith);
    }
    let base = i * per;
    while j < per
        invariant
            j <= per,
            base == i * per,
            base + per <= g@.len(),
            glen == g@.len(),
            gv == pair_views(g@),
            deck@.len() == n0 + j,
            inst_views(deck@) == d0 + Seq::new(
                j as nat,
                |q: int| dealt(gv, per as int, i as int, q, n0 + q + 1, owner@, hp, armor, energy),
            ),
        decreases per - j,
    {
        assert(base + j < g@.len());
        let idx = base + j;
        let seq: u128 = deck.len() as u128 + 1;
        let mut rid = copy_string(&g[idx].0);
        append_str(&mut rid, "_");
        let digits = wide_to_chars(seq);
        append_chars(&mut rid, &digits);
        let inst = RuntimeCardInstance {
            runtime_id: RuntimeCardId(rid),
            static_def_ref: StaticCardId(copy_string(&g[idx].0)),
            zone: Zone::Deck,
            owner: owner.copy(),
            hp,
            armor,
            energy,
            marks: Vec::new(),
        };
        let ghost before = deck@;
        deck.push(inst);
        proof {
            assert(mark_pairs(inst.marks@) =~= Seq::<(Seq<char>, u32)>::empty());
            assert(dec(seq as int) == crate::text::nat_dec(seq as nat));
            assert(inst_view(inst) == dealt(gv, per as int, i as int, j as int, n0 + j + 1, owner@, hp, armor, energy));
            assert(inst_views(deck@) =~= inst_views(before).push(inst_view(inst)));
            assert(inst_views(deck@) =~= d0 + Seq::new(
                (j + 1) as nat,
                |q: int| dealt(gv, per as int, i as int, q, n0 + q + 1, owner@, hp, armor, energy),
            ));
        }
        j = j + 1;
    }
}

pub proof fn lemma_share_fits(len: int, count: int, i: int)
    requires
        count > 0,
        0 <= i < count,
        len >= 0,
    ensures
        (i + 1) * (len / count) <= len,
{
    assert((i + 1) * (len / count) <= count * (len / count)) by (nonlinear_arith)
        requires
            0 <= i < count,
            len / count >= 0,
    ;
    assert(count * (len / count) <= len) by (nonlinear_arith)
        requires
            count > 0,
            len >= 0,
    ;
}

impl GameSetup {
    /// The players' decks dealt from groups already shuffled: player `i`
    /// gets the `i`th even share of each group, in group order.
    pub fn deal_players(
        faction: &Vec<(String, String)>,
        career: &Vec<(String, String)>,
        construct: &Vec<(String, String)>,
        basic: &Vec<(String, String)>,
        player_count: u32,
    ) -> (r: Vec<PlayerDataInit>)
        requires
            2 <= player_count <= 8,
        ensures
            dealt_players(
                r@,
                Groups {
                    faction: pair_views(faction@),
                    career: pair_views(career@),
                    construct: pair_views(construct@),
                    basic: pair_views(basic@),
                },
                player_count as int,
                false,
            ),
    {
        let ghost g = Groups {
            faction: pair_views(faction@),
            career: pair_views(career@),
            construct: pair_views(construct@),
            basic: pair_views(basic@),
        };
        let n = player_count as usize;
        let fp = faction.len() / n;
        let cp = career.len() / n;
        let kp = construct.len() / n;
        let bp = basic.len() / n;
        let mut players: Vec<PlayerDataInit> = Vec::new();
        let mut i: usize = 0;
        while i < n
            invariant
                2 <= n <= 8,
                n == player_count,
                i <= n,
                fp as int == (faction@.len() as int) / (n as int),
                cp as int == (career@.len() as int) / (n as int),
                kp as int == (construct@.len() as int) / (n as int),
                bp as int == (basic@.len() as int) / (n as int),
                g == (Groups {
                    faction: pair_views(faction@),
                    career: pair_views(career@),
                    construct: pair_views(construct@),
                    basic: pair_views(basic@),
                }),
                players@.len() == i,
                forall|q: int|
                    0 <= q < i ==> {
                        &&& (#[trigger] players@[q]).id@ == seat_name(q)
                        &&& inst_views(players@[q].deck@) == deal_deck(g, n as int, q)
                        &&& players@[q].hand@.len() == 0
                        &&& players@[q].field@.len() == 0
                        &&& players@[q].graveyard@.len() == 0
                    },
            decreases n - i,
        {
            let pid = seat_id(i);
            proof {
                lemma_share_fits(faction@.len() as int, n as int, i as int);
                lemma_share_fits(career@.len() as int, n as int, i as int);
                lemma_share_fits(construct@.len() as int, n as int, i as int);
                lemma_share_fits(basic@.len() as int, n as int, i as int);
            }
            let mut deck: Vec<RuntimeCardInstance> = Vec::new();
            deal_group(&mut deck, faction, fp, i, &pid, 10, 2, 4);
            deal_group(&mut deck, career, cp, i, &pid, 0, 0, 0);
            deal_group(&mut deck, construct, kp, i, &pid, 0, 0, 0);
            deal_group(&mut deck, basic, bp, i, &pid, 0, 0, 0);
            assert(inst_views(deck@) =~= deal_deck(g, n as int, i as int));
            let ghost before = players@;
            players.push(PlayerDataInit { id: pid, deck, hand: Vec::new(), field: Vec::new(), graveyard: Vec::new() });
            assert forall|q: int| 0 <= q < i + 1 implies {
                &&& (#[trigger] players@[q]).id@ == seat_name(q)
                &&& inst_views(players@[q].deck@) == deal_deck(g, n as int, q)
                &&& players@[q].hand@.len() == 0
                &&& players@[q].field@.len() == 0
                &&& players@[q].graveyard@.len() == 0
            } by {
                if q < i {
                    assert(players@[q] == before[q]);
                }
            }
            i = i + 1;
        }
        players
    }

    /// Sets up a standard game of 2 to 8 players from the text of the
    /// distribution table: groups shuffled and dealt evenly, decks shuffled.
    pub fn init_standard_game(distribution: &str, player_count: u32) -> (r: Result<Vec<PlayerDataInit>, String>)
        ensures
            (player_count < 2 || player_count > 8) ==> (r matches Err(e) && e@ == "玩家数必须在 2-8 之间"@),
            2 <= player_count <= 8 ==> match json_parse(strip_bom(distribution@)) {
                Err(msg) => r matches Err(e) && e@ == "解析配比表: "@ + msg,
                Ok(doc) => entries_of(doc) is None ==> (r matches Err(e) && e@ == "配比表缺少 entries"@),
            },
            2 <= player_count <= 8 ==> match json_parse(strip_bom(distribution@)) {
                Err(msg) => true,
                Ok(doc) => match entries_of(doc) {
                    None => true,
                    Some(entries) => r matches Ok(players) && set_up(players@, entries, player_count as int),
                },
            },
    {
        if player_count < 2 || player_count > 8 {
            return Err(owned("玩家数必须在 2-8 之间"));
        }
        let text = strip_bom_exec(distribution);
        let doc = match parse_json(text.as_str()) {
            Ok(d) => d,
            Err(e) => {
                let mut m = owned("解析配比表: ");
                append_str(&mut m, e.as_str());
                return Err(m);
            },
        };
        let entries = match &doc {
            JsonValue::Object(kv) => match get_member(kv, "entries") {
                Some(JsonValue::Array(a)) => a,
                _ => {
                    return Err(owned("配比表缺少 entries"));
                },
            },
            _ => {
                return Err(owned("配比表缺少 entries"));
            },
        };
        let (mut f, mut c, mut k, mut b) = sort_entries(entries);
        let ghost g0 = groups_of(entries@);
        let ghost f0 = f@;
        let ghost c0 = c@;
        let ghost k0 = k@;
        let ghost b0 = b@;
        shuffle(&mut f);
        shuffle(&mut c);
        shuffle(&mut k);
        shuffle(&mut b);
        proof {
            lemma_permutes_map(f@, f0, |e: (String, String)| (e.0@, e.1@));
            lemma_permutes_map(c@, c0, |e: (String, String)| (e.0@, e.1@));
            lemma_permutes_map(k@, k0, |e: (String, String)| (e.0@, e.1@));
            lemma_permutes_map(b@, b0, |e: (String, String)| (e.0@, e.1@));
        }
        let ghost g = Groups {
            faction: pair_views(f@),
            career: pair_views(c@),
            construct: pair_views(k@),
            basic: pair_views(b@),
        };
        assert(groups_permute(g, g0));
        let mut players = Self::deal_players(&f, &c, &k, &b, player_count);
        let n = players.len();
        let mut i: usize = 0;
        let mut out: Vec<PlayerDataInit> = Vec::new();
        while i < n
            invariant
                i <= n,
                n == players@.len(),
                n == player_count,
                dealt_players(players@, g, player_count as int, false),
                out@.len() == i,
                forall|q: int|
                    0 <= q < i ==> {
                        &&& (#[trigger] out@[q]).id@ == seat_name(q)
                        &&& permutes(inst_views(out@[q].deck@), deal_deck(g, player_count as int, q))
                        &&& out@[q].hand@.len() == 0
                        &&& out@[q].field@.len() == 0
                        &&& out@[q].graveyard@.len() == 0
                    },
            decreases n - i,
        {
            let p = &players[i];
            let mut deck = copy_deck(&p.deck);
            let ghost d0 = deck@;
            shuffle(&mut deck);
            proof {
                lemma_permutes_map(deck@, d0, |x: RuntimeCardInstance| inst_view(x));
                assert(inst_views(d0) == inst_views(p.deck@));
            }
            let ghost before = out@;
            out.push(PlayerDataInit { id: p.id.copy(), deck, hand: Vec::new(), field: Vec::new(), graveyard: Vec::new() });
            assert forall|q: int| 0 <= q < i + 1 implies {
                &&& (#[trigger] out@[q]).id@ == seat_name(q)
                &&& permutes(inst_views(out@[q].deck@), deal_deck(g, player_count as int, q))
                &&& out@[q].hand@.len() == 0
                &&& out@[q].field@.len() == 0
                &&& out@[q].graveyard@.len() == 0
            } by {
                if q < i {
                    assert(out@[q] == before[q]);
                }
            }
            i = i + 1;
        }
        assert(dealt_players(out@, g, player_count as int, true));
        assert(entries_of(doc) == Some(entries@));
        assert(groups_permute(g, groups_of(entries@)));
        assert(exists|gg: Groups| groups_permute(gg, groups_of(entries@)) && #[trigger] dealt_players(out@, gg, player_count as int, true));
        assert(set_up(out@, entries@, player_count as int));
        Ok(out)
    }
}

fn copy_deck(v: &Vec<RuntimeCardInstance>) -> (r: Vec<RuntimeCardInstance>)
    ensures
        inst_views(r@) == inst_views(v@),
{
    let mut out: Vec<RuntimeCardInstance> = Vec::new();
    let mut i: usize = 0;
    while i < v.len()
        invariant
            i <= v@.len(),
            inst_views(out@) == inst_views(v@.subrange(0, i as int)),
        decreases v@.len() - i,
    {
        let ghost before = out@;
        let x = v[i].copy();
        out.push(x);
        assert(inst_views(out@) =~= inst_views(before).push(inst_view(v@[i as int])));
        assert(inst_views(v@.subrange(0, i + 1)) =~= inst_views(v@.subrange(0, i as int)).push(inst_view(v@[i as int])));
        i = i + 1;
    }
    assert(v@.subrange(0, v@.len() as int) =~= v@);
    out
}

/// The text without its leading byte order marks.
pub(crate) fn strip_bom_exec(s: &str) -> (r: String)
    ensures
        r@ == strip_bom(s@),
{
    let v = chars_of(s);
    let mut i: usize = 0;
    assert(v@.subrange(0, v@.len() as int) =~= v@);
    while i < v.len() && v[i] == '\u{feff}'
        invariant
            i <= v@.len(),
            strip_bom(v@.subrange(i as int, v@.len() as int)) == strip_bom(v@),
        decreases v@.len() - i,
    {
        assert(v@.subrange(i as int, v@.len() as int).drop_first() =~= v@.subrange(i + 1, v@.len() as int));
        i = i + 1;
    }
    let rest = crate::text::slice_vec(&v, i, v.len());
    proof {
        if i < v@.len() {
            assert(rest@[0] == v@[i as int]);
        }
    }
    string_of(&rest)
}

/// The instance map of a game: every instance of every player's zones
/// (deck, hand, field, graveyard in turn), one per runtime id, a later
/// instance replacing an earlier one with the same id.
pub open spec fn map_step(m: Seq<InstView>, x: InstView) -> Seq<InstView> {
    let k = view_index(m, x.rid);
    if k < m.len() {
        m.update(k, x)
    } else {
        m.push(x)
    }
}

/// Index of the first view with runtime id `id` (the length when none has it).
pub open spec fn view_index(m: Seq<InstView>, id: Seq<char>) -> int
    decreases m.len(),
{
    if m.len() == 0 {
        0
    } else if m[0].rid == id {
        0
    } else {
        1 + view_index(m.drop_first(), id)
    }
}

pub open spec fn map_fold(m: Seq<InstView>, xs: Seq<InstView>) -> Seq<InstView>
    decreases xs.len(),
{
    if xs.len() == 0 {
        m
    } else {
        map_step(map_fold(m, xs.drop_last()), xs.last())
    }
}

/// All instances of the players, zone by zone.
pub open spec fn all_instances(players: Seq<PlayerDataInit>) -> Seq<InstView>
    decreases players.len(),
{
    if players.len() == 0 {
        Seq::empty()
    } else {
        let p = players.last();
        all_instances(players.drop_last()) + inst_views(p.deck@) + inst_views(p.hand@) + inst_views(p.field@)
            + inst_views(p.graveyard@)
    }
}

pub proof fn lemma_view_index(m: Seq<InstView>, id: Seq<char>)
    ensures
        0 <= view_index(m, id) <= m.len(),
        view_index(m, id) < m.len() ==> m[view_index(m, id)].rid == id,
        forall|k: int| 0 <= k < view_index(m, id) ==> m[k].rid != id,
    decreases m.len(),
{
    if m.len() > 0 && m[0].rid != id {
        lemma_view_index(m.drop_first(), id);
        assert forall|k: int| 0 <= k < view_index(m, id) implies m[k].rid != id by {
            if k > 0 {
                assert(m[k] == m.drop_first()[k - 1]);
            }
        }
    }
}

pub proof fn lemma_first_view(m: Seq<InstView>, id: Seq<char>, i: int)
    requires
        0 <= i <= m.len(),
        i < m.len() ==> m[i].rid == id,
        forall|k: int| 0 <= k < i ==> m[k].rid != id,
    ensures
        view_index(m, id) == i,
    decreases m.len(),
{
    if m.len() > 0 && i > 0 {
        assert forall|k: int| 0 <= k < i - 1 implies m.drop_first()[k].rid != id by {
            assert(m.drop_first()[k] == m[k + 1]);
        }
        if i < m.len() {
            assert(m.drop_first()[i - 1] == m[i]);
        }
        lemma_first_view(m.drop_first(), id, i - 1);
    }
}

fn map_insert(out: &mut Vec<RuntimeCardInstance>, x: &RuntimeCardInstance)
    ensures
        inst_views(final(out)@) == map_step(inst_views(old(out)@), inst_view(*x)),
{
    let key = chars_of(x.runtime_id.0.as_str());
    let ghost m = inst_views(out@);
    let mut i: usize = 0;
    while i < out.len()
        invariant
            i <= out@.len(),
            key@ == x.runtime_id@,
            m == inst_views(out@),
            out@ == old(out)@,
            forall|k: int| 0 <= k < i ==> m[k].rid != x.runtime_id@,
        decreases out@.len() - i,
    {
        let c = chars_of(out[i].runtime_id.0.as_str());
        if crate::text::seq_eq(&c, &key) {
            proof {
                assert(m[i as int].rid == out@[i as int].runtime_id@);
                lemma_first_view(m, x.runtime_id@, i as int);
            }
            let y = x.copy();
            out.set(i, y);
            assert(inst_views(out@) =~= m.update(i as int, inst_view(*x)));
            assert(view_index(m, inst_view(*x).rid) == i);
            assert(map_step(m, inst_view(*x)) == m.update(i as int, inst_view(*x)));
            return;
        }
        i = i + 1;
    }
    proof {
        lemma_first_view(m, x.runtime_id@, i as int);
    }
    let y = x.copy();
    out.push(y);
    assert(inst_views(out@) =~= m.push(inst_view(*x)));
}

fn map_insert_all(out: &mut Vec<RuntimeCardInstance>, xs: &Vec<RuntimeCardInstance>)
    ensures
        inst_views(final(out)@) == map_fold(inst_views(old(out)@), inst_views(xs@)),
{
    let ghost m0 = inst_views(out@);
    let mut i: usize = 0;
    while i < xs.len()
        invariant
            i <= xs@.len(),
            inst_views(out@) == map_fold(m0, inst_views(xs@.subrange(0, i as int))),
        decreases xs@.len() - i,
    {
        assert(inst_views(xs@.subrange(0, i + 1)).drop_last() =~= inst_views(xs@.subrange(0, i as int)));
        map_insert(out, &xs[i]);
        i = i + 1;
    }
    assert(xs@.subrange(0, xs@.len() as int) =~= xs@);
}

pub proof fn lemma_map_fold_concat(m: Seq<InstView>, a: Seq<InstView>, b: Seq<InstView>)
    ensures
        map_fold(m, a + b) == map_fold(map_fold(m, a), b),
    decreases b.len(),
{
    if b.len() == 0 {
        assert(a + b =~= a);
    } else {
        assert((a + b).drop_last() =~= a + b.drop_last());
        lemma_map_fold_concat(m, a, b.drop_last());
    }
}

impl GameSetup {
    /// Every instance of the players, one per runtime id.
    pub fn build_instance_map(players: &[PlayerDataInit]) -> (r: Vec<RuntimeCardInstance>)
        ensures
            inst_views(r@) == map_fold(Seq::empty(), all_instances(players@)),
    {
        let mut out: Vec<RuntimeCardInstance> = Vec::new();
        let mut i: usize = 0;
        assert(inst_views(out@) =~= Seq::<InstView>::empty());
        while i < players.len()
            invariant
                i <= players@.len(),
                inst_views(out@) == map_fold(Seq::empty(), all_instances(players@.subrange(0, i as int))),
            decreases players@.len() - i,
        {
            let p = &players[i];
            let ghost pre = all_instances(players@.subrange(0, i as int));
            assert(players@.subrange(0, i + 1).drop_last() =~= players@.subrange(0, i as int));
            map_insert_all(&mut out, &p.deck);
            map_insert_all(&mut out, &p.hand);
            map_insert_all(&mut out, &p.field);
            map_insert_all(&mut out, &p.graveyard);
            proof {
                let e = Seq::<InstView>::empty();
                lemma_map_fold_concat(e, pre, inst_views(p.deck@));
                lemma_map_fold_concat(e, pre + inst_views(p.deck@), inst_views(p.hand@));
                lemma_map_fold_concat(e, pre + inst_views(p.deck@) + inst_views(p.hand@), inst_views(p.field@));
                lemma_map_fold_concat(
                    e,
                    pre + inst_views(p.deck@) + inst_views(p.hand@) + inst_views(p.field@),
                    inst_views(p.graveyard@),
                );
            }
            i = i + 1;
        }
        assert(players@.subrange(0, players@.len() as int) =~= players@);
        out
    }
}

} // verus!
