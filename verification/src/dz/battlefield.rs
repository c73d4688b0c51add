//! The battlefield: players' zones, the card instances in play, the turn,
//! the phase, the game log and the effect stack. It is the one part of the
//! engine that writes game state.
use vstd::prelude::*;
use crate::dz::effect_stack::EffectStack;
use crate::dz::ports::{
    copy_log, log_views, rid_views, BattlefieldPort, EffectResult, LogEntry, LogView, Phase, PlayerId,
    RuntimeCardId, RuntimeCardInstance, Zone,
};
use crate::dz::zones::{remove_all, ZoneManager, ZoneMoveResult};
use crate::text::{append_int, append_str, chars_of, copy_string, dec, owned, seq_eq};

verus! {

/// One player's zones.
#[derive(Debug, Clone)]
pub struct PlayerData {
    pub id: PlayerId,
    pub hand: Vec<RuntimeCardId>,
    pub field: Vec<RuntimeCardId>,
    pub deck: Vec<RuntimeCardId>,
    pub graveyard: Vec<RuntimeCardId>,
}

fn copy_ids(v: &Vec<RuntimeCardId>) -> (r: Vec<RuntimeCardId>)
    ensures
        rid_views(r@) == rid_views(v@),
{
    let mut out: Vec<RuntimeCardId> = Vec::new();
    let mut i: usize = 0;
    while i < v.len()
        invariant
            i <= v@.len(),
            rid_views(out@) == rid_views(v@.subrange(0, i as int)),
        decreases v@.len() - i,
    {
        let ghost before = out@;
        let e = v[i].copy();
        out.push(e);
        assert(rid_views(out@) =~= rid_views(before).push(v@[i as int]@));
        assert(rid_views(v@.subrange(0, i + 1)) =~= rid_views(v@.subrange(0, i as int)).push(v@[i as int]@));
        i = i + 1;
    }
    assert(v@.subrange(0, v@.len() as int) =~= v@);
    out
}

impl PlayerData {
    /// The same zones, id by id.
    pub open spec fn same(self, o: PlayerData) -> bool {
        &&& self.id@ == o.id@
        &&& rid_views(self.hand@) == rid_views(o.hand@)
        &&& rid_views(self.field@) == rid_views(o.field@)
        &&& rid_views(self.deck@) == rid_views(o.deck@)
        &&& rid_views(self.graveyard@) == rid_views(o.graveyard@)
    }

    pub fn copy(&self) -> (r: PlayerData)
        ensures
            r.same(*self),
    {
        PlayerData {
            id: self.id.copy(),
            hand: copy_ids(&self.hand),
            field: copy_ids(&self.field),
            deck: copy_ids(&self.deck),
            graveyard: copy_ids(&self.graveyard),
        }
    }
}

/// The runtime state of a game. Card instances are kept in a list; an id
/// names the first instance that carries it.
pub struct BattlefieldModule {
    players: Vec<PlayerData>,
    instances: Vec<RuntimeCardInstance>,
    turn: u32,
    phase: Phase,
    effect_log: Vec<LogEntry>,
    effect_stack: EffectStack,
}

/// Index of the first player with id `id` (the length when none has it).
pub open spec fn player_index(ps: Seq<PlayerData>, id: Seq<char>) -> int
    decreases ps.len(),
{
    if ps.len() == 0 {
        0
    } else if ps[0].id@ == id {
        0
    } else {
        1 + player_index(ps.drop_first(), id)
    }
}

/// Index of the first instance with runtime id `id` (the length when none has it).
pub open spec fn instance_index(v: Seq<RuntimeCardInstance>, id: Seq<char>) -> int
    decreases v.len(),
{
    if v.len() == 0 {
        0
    } else if v[0].runtime_id@ == id {
        0
    } else {
        1 + instance_index(v.drop_first(), id)
    }
}

pub proof fn lemma_player_index(ps: Seq<PlayerData>, id: Seq<char>)
    ensures
        0 <= player_index(ps, id) <= ps.len(),
        player_index(ps, id) < ps.len() ==> ps[player_index(ps, id)].id@ == id,
        forall|k: int| 0 <= k < player_index(ps, id) ==> ps[k].id@ != id,
    decreases ps.len(),
{
    if ps.len() > 0 && ps[0].id@ != id {
        lemma_player_index(ps.drop_first(), id);
        assert forall|k: int| 0 <= k < player_index(ps, id) implies ps[k].id@ != id by {
            if k > 0 {
                assert(ps[k] == ps.drop_first()[k - 1]);
            }
        }
    }
}

pub proof fn lemma_instance_index(v: Seq<RuntimeCardInstance>, id: Seq<char>)
    ensures
        0 <= instance_index(v, id) <= v.len(),
        instance_index(v, id) < v.len() ==> v[instance_index(v, id)].runtime_id@ == id,
        forall|k: int| 0 <= k < instance_index(v, id) ==> v[k].runtime_id@ != id,
    decreases v.len(),
{
    if v.len() > 0 && v[0].runtime_id@ != id {
        lemma_instance_index(v.drop_first(), id);
        assert forall|k: int| 0 <= k < instance_index(v, id) implies v[k].runtime_id@ != id by {
            if k > 0 {
                assert(v[k] == v.drop_first()[k - 1]);
            }
        }
    }
}

fn find_player_index(ps: &Vec<PlayerData>, id: &PlayerId) -> (r: usize)
    ensures
        r == player_index(ps@, id@),
{
    proof {
        lemma_player_index(ps@, id@);
    }
    let key = chars_of(id.0.as_str());
    let mut i: usize = 0;
    while i < ps.len()
        invariant
            i <= ps@.len(),
            key@ == id@,
            0 <= player_index(ps@, id@) <= ps@.len(),
            player_index(ps@, id@) < ps@.len() ==> ps@[player_index(ps@, id@)].id@ == id@,
            forall|k: int| 0 <= k < player_index(ps@, id@) ==> ps@[k].id@ != id@,
            forall|k: int| 0 <= k < i ==> ps@[k].id@ != id@,
        decreases ps@.len() - i,
    {
        let c = chars_of(ps[i].id.0.as_str());
        if seq_eq(&c, &key) {
            return i;
        }
        i = i + 1;
    }
    i
}

fn find_instance_index(v: &Vec<RuntimeCardInstance>, id: &RuntimeCardId) -> (r: usize)
    ensures
        r == instance_index(v@, id@),
{
    proof {
        lemma_instance_index(v@, id@);
    }
    let key = chars_of(id.0.as_str());
    let mut i: usize = 0;
    while i < v.len()
        invariant
            i <= v@.len(),
            key@ == id@,
            0 <= instance_index(v@, id@) <= v@.len(),
            instance_index(v@, id@) < v@.len() ==> v@[instance_index(v@, id@)].runtime_id@ == id@,
            forall|k: int| 0 <= k < instance_index(v@, id@) ==> v@[k].runtime_id@ != id@,
            forall|k: int| 0 <= k < i ==> v@[k].runtime_id@ != id@,
        decreases v@.len() - i,
    {
        let c = chars_of(v[i].runtime_id.0.as_str());
        if seq_eq(&c, &key) {
            return i;
        }
        i = i + 1;
    }
    i
}

/// Whether `id` is among `ids`.
pub open spec fn holds_id(ids: Seq<RuntimeCardId>, id: Seq<char>) -> bool {
    exists|k: int| 0 <= k < ids.len() && ids[k]@ == id
}

fn contains_id(ids: &Vec<RuntimeCardId>, id: &RuntimeCardId) -> (r: bool)
    ensures
        r == holds_id(ids@, id@),
{
    let key = chars_of(id.0.as_str());
    let mut i: usize = 0;
    while i < ids.len()
        invariant
            i <= ids@.len(),
            key@ == id@,
            forall|k: int| 0 <= k < i ==> ids@[k]@ != id@,
        decreases ids@.len() - i,
    {
        let c = chars_of(ids[i].0.as_str());
        if seq_eq(&c, &key) {
            return true;
        }
        i = i + 1;
    }
    false
}

/// The instances named by `ids`, in order, skipping ids no instance carries.
pub open spec fn instances_of(ids: Seq<RuntimeCardId>, v: Seq<RuntimeCardInstance>) -> Seq<RuntimeCardInstance>
    decreases ids.len(),
{
    if ids.len() == 0 {
        Seq::empty()
    } else {
        let rest = instances_of(ids.drop_last(), v);
        let k = instance_index(v, ids.last()@);
        if k < v.len() {
            rest.push(v[k])
        } else {
            rest
        }
    }
}

/// Instance lists are equal field by field.
pub open spec fn same_instances(a: Seq<RuntimeCardInstance>, b: Seq<RuntimeCardInstance>) -> bool {
    a.len() == b.len() && forall|i: int| 0 <= i < a.len() ==> (#[trigger] a[i]).same(b[i])
}

fn collect_instances(ids: &Vec<RuntimeCardId>, v: &Vec<RuntimeCardInstance>) -> (r: Vec<RuntimeCardInstance>)
    ensures
        same_instances(r@, instances_of(ids@, v@)),
{
    let mut out: Vec<RuntimeCardInstance> = Vec::new();
    let mut i: usize = 0;
    while i < ids.len()
        invariant
            i <= ids@.len(),
            same_instances(out@, instances_of(ids@.subrange(0, i as int), v@)),
        decreases ids@.len() - i,
    {
        assert(ids@.subrange(0, i + 1).drop_last() =~= ids@.subrange(0, i as int));
        let k = find_instance_index(v, &ids[i]);
        proof {
            lemma_instance_index(v@, ids@[i as int]@);
        }
        if k < v.len() {
            let c = v[k].copy();
            out.push(c);
        }
        i = i + 1;
    }
    assert(ids@.subrange(0, ids@.len() as int) =~= ids@);
    out
}

fn id_texts(ids: &Vec<RuntimeCardId>) -> (r: Vec<String>)
    ensures
        r@.map_values(|s: String| s@) == rid_views(ids@),
{
    let mut out: Vec<String> = Vec::new();
    let mut i: usize = 0;
    while i < ids.len()
        invariant
            i <= ids@.len(),
            out@.map_values(|s: String| s@) == rid_views(ids@.subrange(0, i as int)),
        decreases ids@.len() - i,
    {
        let ghost before = out@;
        let s = copy_string(&ids[i].0);
        out.push(s);
        assert(out@.map_values(|s: String| s@) =~= before.map_values(|s: String| s@).push(ids@[i as int]@));
        assert(rid_views(ids@.subrange(0, i + 1)) =~= rid_views(ids@.subrange(0, i as int)).push(ids@[i as int]@));
        i = i + 1;
    }
    assert(ids@.subrange(0, ids@.len() as int) =~= ids@);
    out
}

/// "P1", "P2", ... for `n` players, each with empty zones.
pub open spec fn fresh_players(ps: Seq<PlayerData>, n: nat) -> bool {
    &&& ps.len() == n
    &&& forall|i: int|
        0 <= i < n ==> {
            &&& (#[trigger] ps[i]).id@ == "P"@ + dec(i + 1)
            &&& ps[i].hand@.len() == 0
            &&& ps[i].field@.len() == 0
            &&& ps[i].deck@.len() == 0
            &&& ps[i].graveyard@.len() == 0
        }
}

impl BattlefieldModule {
    pub closed spec fn players(&self) -> Seq<PlayerData> {
        self.players@
    }

    pub closed spec fn instances(&self) -> Seq<RuntimeCardInstance> {
        self.instances@
    }

    pub closed spec fn turn_number(&self) -> u32 {
        self.turn
    }

    pub closed spec fn phase_now(&self) -> Phase {
        self.phase
    }

    pub closed spec fn log_lines(&self) -> Seq<LogView> {
        log_views(self.effect_log@)
    }

    pub closed spec fn stack(&self) -> EffectStack {
        self.effect_stack
    }

    pub fn new() -> (r: BattlefieldModule)
        ensures
            r.players().len() == 0,
            r.instances().len() == 0,
            r.turn_number() == 0,
            r.phase_now() == Phase::Draw,
            r.log_lines().len() == 0,
            r.stack().entries().len() == 0,
    {
        BattlefieldModule {
            players: Vec::new(),
            instances: Vec::new(),
            turn: 0,
            phase: Phase::Draw,
            effect_log: Vec::new(),
            effect_stack: EffectStack::new(),
        }
    }

    /// The first player with id `player`, to change.
    pub fn find_player_mut(&mut self, player: &PlayerId) -> (r: Option<&mut PlayerData>)
        ensures
            ({
                let k = player_index(old(self).players(), player@);
                &&& k == old(self).players().len() ==> (r is None && *final(self) == *old(self))
                &&& k < old(self).players().len() ==> (r matches Some(p) && *p == old(self).players()[k]
                    && final(self).players() == old(self).players().update(k, *final(p))
                    && final(self).instances() == old(self).instances()
                    && final(self).turn_number() == old(self).turn_number()
                    && final(self).phase_now() == old(self).phase_now()
                    && final(self).log_lines() == old(self).log_lines()
                    && final(self).stack() == old(self).stack())
            }),
    {
        let k = find_player_index(&self.players, player);
        if k < self.players.len() {
            Some(&mut self.players[k])
        } else {
            None
        }
    }

    /// The first player with id `player`.
    pub fn find_player(&self, player: &PlayerId) -> (r: Option<&PlayerData>)
        ensures
            ({
                let k = player_index(self.players(), player@);
                &&& k == self.players().len() ==> r is None
                &&& k < self.players().len() ==> r == Some(&self.players()[k])
            }),
    {
        let k = find_player_index(&self.players, player);
        proof {
            lemma_player_index(self.players@, player@);
        }
        if k < self.players.len() {
            Some(&self.players[k])
        } else {
            None
        }
    }

    /// The instance with id `card_id`, to change.
    pub fn instance_mut(&mut self, card_id: &RuntimeCardId) -> (r: Option<&mut RuntimeCardInstance>)
        ensures
            ({
                let k = instance_index(old(self).instances(), card_id@);
                &&& k == old(self).instances().len() ==> (r is None && *final(self) == *old(self))
                &&& k < old(self).instances().len() ==> (r matches Some(p) && *p == old(self).instances()[k]
                    && final(self).instances() == old(self).instances().update(k, *final(p))
                    && final(self).players() == old(self).players()
                    && final(self).turn_number() == old(self).turn_number()
                    && final(self).phase_now() == old(self).phase_now()
                    && final(self).log_lines() == old(self).log_lines()
                    && final(self).stack() == old(self).stack())
            }),
    {
        let k = find_instance_index(&self.instances, card_id);
        proof {
            lemma_instance_index(self.instances@, card_id@);
        }
        if k < self.instances.len() {
            Some(&mut self.instances[k])
        } else {
            None
        }
    }

    /// The instance with id `card_id`.
    pub fn instance(&self, card_id: &RuntimeCardId) -> (r: Option<&RuntimeCardInstance>)
        ensures
            ({
                let k = instance_index(self.instances(), card_id@);
                &&& k == self.instances().len() ==> r is None
                &&& k < self.instances().len() ==> r == Some(&self.instances()[k])
            }),
    {
        let k = find_instance_index(&self.instances, card_id);
        proof {
            lemma_instance_index(self.instances@, card_id@);
        }
        if k < self.instances.len() {
            Some(&self.instances[k])
        } else {
            None
        }
    }

    /// Ids of a player's hand (none for an unknown player).
    pub fn get_player_hand_ids(&self, player: &PlayerId) -> (r: Vec<String>)
        ensures
            ({
                let k = player_index(self.players(), player@);
                r@.map_values(|s: String| s@) == (if k < self.players().len() {
                    rid_views(self.players()[k].hand@)
                } else {
                    Seq::empty()
                })
            }),
    {
        let k = find_player_index(&self.players, player);
        proof {
            lemma_player_index(self.players@, player@);
        }
        if k < self.players.len() {
            id_texts(&self.players[k].hand)
        } else {
            let v: Vec<String> = Vec::new();
            assert(v@.map_values(|s: String| s@) =~= Seq::<Seq<char>>::empty());
            v
        }
    }

    /// Ids on a player's field (none for an unknown player).
    pub fn get_player_field_ids(&self, player: &PlayerId) -> (r: Vec<String>)
        ensures
            ({
                let k = player_index(self.players(), player@);
                r@.map_values(|s: String| s@) == (if k < self.players().len() {
                    rid_views(self.players()[k].field@)
                } else {
                    Seq::empty()
                })
            }),
    {
        let k = find_player_index(&self.players, player);
        proof {
            lemma_player_index(self.players@, player@);
        }
        if k < self.players.len() {
            id_texts(&self.players[k].field)
        } else {
            let v: Vec<String> = Vec::new();
            assert(v@.map_values(|s: String| s@) =~= Seq::<Seq<char>>::empty());
            v
        }
    }

    /// Cards left in a player's deck (0 for an unknown player).
    pub fn player_deck_size(&self, player: &PlayerId) -> (r: usize)
        ensures
            ({
                let k = player_index(self.players(), player@);
                r == (if k < self.players().len() {
                    self.players()[k].deck@.len()
                } else {
                    0
                })
            }),
    {
        let k = find_player_index(&self.players, player);
        proof {
            lemma_player_index(self.players@, player@);
        }
        if k < self.players.len() {
            self.players[k].deck.len()
        } else {
            0
        }
    }

    pub fn current_turn(&self) -> (r: u32)
        ensures
            r == self.turn_number(),
    {
        self.turn
    }

    pub fn effect_stack(&self) -> (r: &EffectStack)
        ensures
            *r == self.stack(),
    {
        &self.effect_stack
    }

    fn log(&mut self, action: &str, actor: Option<String>, target: Option<String>, result: String)
        ensures
            final(self).players == old(self).players,
            final(self).instances == old(self).instances,
            final(self).turn == old(self).turn,
            final(self).phase == old(self).phase,
            final(self).effect_stack == old(self).effect_stack,
            log_views(final(self).effect_log@) == log_views(old(self).effect_log@).push(
                LogView {
                    turn: old(self).turn,
                    action: action@,
                    actor: crate::dz::ports::opt_view(actor),
                    target: crate::dz::ports::opt_view(target),
                    result: result@,
                },
            ),
    {
        let e = LogEntry { turn: self.turn, action: owned(action), actor, target, result };
        let ghost before = self.effect_log@;
        self.effect_log.push(e);
        assert(log_views(self.effect_log@) =~= log_views(before).push(e@));
    }

    /// The snapshot of the game as pretty JSON: phase, player count, turn.
    pub fn snapshot_json(&self) -> (r: String)
        ensures
            r@ == "{\n  \"phase\": \""@ + phase_name(self.phase_now()) + "\",\n  \"player_count\": "@ + dec(
                self.players().len() as int,
            ) + ",\n  \"turn\": "@ + dec(self.turn_number() as int) + "\n}"@,
    {
        let mut s = owned("{\n  \"phase\": \"");
        append_str(&mut s, phase_text(self.phase));
        append_str(&mut s, "\",\n  \"player_count\": ");
        let v = crate::text::wide_to_chars(self.players.len() as u128);
        crate::text::append_chars(&mut s, &v);
        append_str(&mut s, ",\n  \"turn\": ");
        append_int(&mut s, self.turn as i64);
        append_str(&mut s, "\n}");
        s
    }
}

/// How `Debug` writes a phase.
pub open spec fn phase_name(p: Phase) -> Seq<char> {
    match p {
        Phase::Draw => "Draw"@,
        Phase::Main => "Main"@,
        Phase::Combat => "Combat"@,
        Phase::End => "End"@,
    }
}

fn phase_text(p: Phase) -> (r: &'static str)
    ensures
        r@ == phase_name(p),
{
    match p {
        Phase::Draw => "Draw",
        Phase::Main => "Main",
        Phase::Combat => "Combat",
        Phase::End => "End",
    }
}

impl BattlefieldPort for BattlefieldModule {
    /// Seats `player_count` players with empty zones, drops every instance,
    /// and starts turn 1 in the draw phase.
    fn init_game(&mut self, player_count: u32) -> (r: Result<(), String>)
        ensures
            r is Ok,
            fresh_players(final(self).players(), player_count as nat),
            final(self).instances().len() == 0,
            final(self).turn_number() == 1,
            final(self).phase_now() == Phase::Draw,
            final(self).stack() == old(self).stack(),
            final(self).log_lines() == old(self).log_lines().push(
                LogView { turn: 1, action: "init_game"@, actor: None, target: None, result: dec(player_count as int) + " players"@ },
            ),
    {
        self.players = Vec::new();
        self.instances = Vec::new();
        self.turn = 1;
        self.phase = Phase::Draw;
        let mut i: u32 = 0;
        while i < player_count
            invariant
                i <= player_count,
                fresh_players(self.players@, i as nat),
                self.instances@.len() == 0,
                self.turn == 1,
                self.phase == Phase::Draw,
                self.effect_log == old(self).effect_log,
                self.effect_stack == old(self).effect_stack,
            decreases player_count - i,
        {
            let mut name = owned("P");
            append_int(&mut name, i as i64 + 1);
            let ghost before = self.players@;
            self.players.push(PlayerData {
                id: PlayerId(name),
                hand: Vec::new(),
                field: Vec::new(),
                deck: Vec::new(),
                graveyard: Vec::new(),
            });
            assert forall|k: int| 0 <= k < i + 1 implies {
                &&& (#[trigger] self.players@[k]).id@ == "P"@ + dec(k + 1)
                &&& self.players@[k].hand@.len() == 0
                &&& self.players@[k].field@.len() == 0
                &&& self.players@[k].deck@.len() == 0
                &&& self.players@[k].graveyard@.len() == 0
            } by {
                if k < i {
                    assert(self.players@[k] == before[k]);
                }
            }
            i = i + 1;
        }
        let mut text = String::new();
        append_int(&mut text, player_count as i64);
        append_str(&mut text, " players");
        self.log("init_game", None, None, text);
        Ok(())
    }

    /// The instances in a player's hand (none for an unknown player).
    fn get_player_hand(&self, player: PlayerId) -> (r: Vec<RuntimeCardInstance>)
        ensures
            ({
                let k = player_index(self.players(), player@);
                same_instances(r@, if k < self.players().len() {
                    instances_of(self.players()[k].hand@, self.instances())
                } else {
                    Seq::empty()
                })
            }),
    {
        let k = find_player_index(&self.players, &player);
        proof {
            lemma_player_index(self.players@, player@);
        }
        if k < self.players.len() {
            collect_instances(&self.players[k].hand, &self.instances)
        } else {
            Vec::new()
        }
    }

    /// The instances on a player's field (none for an unknown player).
    fn get_player_field(&self, player: PlayerId) -> (r: Vec<RuntimeCardInstance>)
        ensures
            ({
                let k = player_index(self.players(), player@);
                same_instances(r@, if k < self.players().len() {
                    instances_of(self.players()[k].field@, self.instances())
                } else {
                    Seq::empty()
                })
            }),
    {
        let k = find_player_index(&self.players, &player);
        proof {
            lemma_player_index(self.players@, player@);
        }
        if k < self.players.len() {
            collect_instances(&self.players[k].field, &self.instances)
        } else {
            Vec::new()
        }
    }

    /// Moves the top card of a player's deck to the hand.
    fn draw_card(&mut self, player: PlayerId) -> (r: Result<RuntimeCardId, String>)
        ensures
            ({
                let k = player_index(old(self).players(), player@);
                &&& k == old(self).players().len() ==> (r matches Err(e) && e@ == "玩家不存在"@) && *final(self) == *old(self)
                &&& k < old(self).players().len() && old(self).players()[k].deck@.len() == 0 ==> (r matches Err(e)
                    && e@ == "牌堆已空"@) && *final(self) == *old(self)
                &&& k < old(self).players().len() && old(self).players()[k].deck@.len() > 0 ==> {
                    let p = old(self).players()[k];
                    let c = p.deck@.last();
                    let j = instance_index(old(self).instances(), c@);
                    &&& r matches Ok(id) && id@ == c@
                    &&& final(self).players().len() == old(self).players().len()
                    &&& forall|q: int| 0 <= q < old(self).players().len() && q != k ==> #[trigger] final(self).players()[q] == old(self).players()[q]
                    &&& final(self).players()[k].id@ == p.id@
                    &&& rid_views(final(self).players()[k].deck@) == rid_views(p.deck@).drop_last()
                    &&& rid_views(final(self).players()[k].hand@) == rid_views(p.hand@).push(c@)
                    &&& rid_views(final(self).players()[k].field@) == rid_views(p.field@)
                    &&& rid_views(final(self).players()[k].graveyard@) == rid_views(p.graveyard@)
                    &&& final(self).instances().len() == old(self).instances().len()
                    &&& forall|q: int| 0 <= q < old(self).instances().len() && q != j ==> #[trigger] final(self).instances()[q] == old(self).instances()[q]
                    &&& j < old(self).instances().len() ==> final(self).instances()[j].same(RuntimeCardInstance { zone: Zone::Hand, ..old(self).instances()[j] })
                    &&& final(self).turn_number() == old(self).turn_number()
                    &&& final(self).phase_now() == old(self).phase_now()
                    &&& final(self).stack() == old(self).stack()
                    &&& final(self).log_lines() == old(self).log_lines().push(
                        LogView { turn: old(self).turn_number(), action: "draw_card"@, actor: Some(player@), target: Some(c@), result: "抽牌"@ },
                    )
                }
            }),
    {
        let k = find_player_index(&self.players, &player);
        proof {
            lemma_player_index(self.players@, player@);
        }
        if k >= self.players.len() {
            return Err(owned("玩家不存在"));
        }
        let n = self.players[k].deck.len();
        if n == 0 {
            return Err(owned("牌堆已空"));
        }
        let card_id = self.players[k].deck[n - 1].copy();
        let mut p = self.players[k].copy();
        let ghost d0 = p.deck@;
        let _ = p.deck.pop();
        assert(rid_views(p.deck@) =~= rid_views(d0).drop_last());
        let hand_entry = card_id.copy();
        let ghost h0 = p.hand@;
        p.hand.push(hand_entry);
        assert(rid_views(p.hand@) =~= rid_views(h0).push(card_id@));
        self.players.set(k, p);
        let j = find_instance_index(&self.instances, &card_id);
        proof {
            lemma_instance_index(self.instances@, card_id@);
        }
        if j < self.instances.len() {
            let mut inst = self.instances[j].copy();
            inst.zone = Zone::Hand;
            self.instances.set(j, inst);
        }
        self.log("draw_card", Some(copy_string(&player.0)), Some(copy_string(&card_id.0)), owned("抽牌"));
        Ok(card_id)
    }

    /// Plays a card from a player's hand to the field (at most 7 cards there).
    fn play_card(&mut self, player: PlayerId, card: RuntimeCardId, target: Option<PlayerId>) -> (r: Result<
        EffectResult,
        String,
    >)
        ensures
            ({
                let k = player_index(old(self).players(), player@);
                let j = instance_index(old(self).instances(), card@);
                let p = old(self).players()[k];
                &&& k == old(self).players().len() ==> (r matches Err(e) && e@ == "玩家不存在"@) && *final(self) == *old(self)
                &&& k < old(self).players().len() && !holds_id(p.hand@, card@) ==> (r matches Err(e) && e@ == card@ + " 不在手牌中"@)
                    && *final(self) == *old(self)
                &&& k < old(self).players().len() && holds_id(p.hand@, card@) && (j == old(self).instances().len()
                    || old(self).instances()[j].zone != Zone::Hand) ==> (r matches Err(e) && e@ == card@ + " 不在手牌区域"@)
                    && *final(self) == *old(self)
                &&& k < old(self).players().len() && holds_id(p.hand@, card@) && j < old(self).instances().len()
                    && old(self).instances()[j].zone == Zone::Hand && p.field@.len() >= 7 ==> (r matches Err(e)
                    && e@ == "区域移动失败: ZoneFull { zone: Field, limit: 7 }"@) && *final(self) == *old(self)
            }),
            ({
                let k = player_index(old(self).players(), player@);
                let j = instance_index(old(self).instances(), card@);
                let p = old(self).players()[k];
                old(self).players().len() > player_index(old(self).players(), player@) && holds_id(old(self).players()[player_index(old(self).players(), player@)].hand@, card@) && instance_index(old(self).instances(), card@) < old(self).instances().len() && old(self).instances()[instance_index(old(self).instances(), card@)].zone == Zone::Hand && old(self).players()[player_index(old(self).players(), player@)].field@.len() < 7 ==> (r matches Ok(er) && er.success && er.state_changes@.len() == 0 && log_views(er.log@) == final(self).log_lines())
            }),
            ({
                let k = player_index(old(self).players(), player@);
                let j = instance_index(old(self).instances(), card@);
                let p = old(self).players()[k];
                old(self).players().len() > player_index(old(self).players(), player@) && holds_id(old(self).players()[player_index(old(self).players(), player@)].hand@, card@) && instance_index(old(self).instances(), card@) < old(self).instances().len() && old(self).instances()[instance_index(old(self).instances(), card@)].zone == Zone::Hand && old(self).players()[player_index(old(self).players(), player@)].field@.len() < 7 ==> (final(self).players().len() == old(self).players().len())
            }),
            ({
                let k = player_index(old(self).players(), player@);
                let j = instance_index(old(self).instances(), card@);
                let p = old(self).players()[k];
                old(self).players().len() > player_index(old(self).players(), player@) && holds_id(old(self).players()[player_index(old(self).players(), player@)].hand@, card@) && instance_index(old(self).instances(), card@) < old(self).instances().len() && old(self).instances()[instance_index(old(self).instances(), card@)].zone == Zone::Hand && old(self).players()[player_index(old(self).players(), player@)].field@.len() < 7 ==> (forall|q: int| 0 <= q < old(self).players().len() && q != k ==> #[trigger] final(self).players()[q] == old(self).players()[q])
            }),
            ({
                let k = player_index(old(self).players(), player@);
                let j = instance_index(old(self).instances(), card@);
                let p = old(self).players()[k];
                old(self).players().len() > player_index(old(self).players(), player@) && holds_id(old(self).players()[player_index(old(self).players(), player@)].hand@, card@) && instance_index(old(self).instances(), card@) < old(self).instances().len() && old(self).instances()[instance_index(old(self).instances(), card@)].zone == Zone::Hand && old(self).players()[player_index(old(self).players(), player@)].field@.len() < 7 ==> (final(self).players()[k].id@ == p.id@)
            }),
            ({
                let k = player_index(old(self).players(), player@);
                let j = instance_index(old(self).instances(), card@);
                let p = old(self).players()[k];
                old(self).players().len() > player_index(old(self).players(), player@) && holds_id(old(self).players()[player_index(old(self).players(), player@)].hand@, card@) && instance_index(old(self).instances(), card@) < old(self).instances().len() && old(self).instances()[instance_index(old(self).instances(), card@)].zone == Zone::Hand && old(self).players()[player_index(old(self).players(), player@)].field@.len() < 7 ==> (rid_views(final(self).players()[k].hand@) == remove_all(rid_views(p.hand@), card@))
            }),
            ({
                let k = player_index(old(self).players(), player@);
                let j = instance_index(old(self).instances(), card@);
                let p = old(self).players()[k];
                old(self).players().len() > player_index(old(self).players(), player@) && holds_id(old(self).players()[player_index(old(self).players(), player@)].hand@, card@) && instance_index(old(self).instances(), card@) < old(self).instances().len() && old(self).instances()[instance_index(old(self).instances(), card@)].zone == Zone::Hand && old(self).players()[player_index(old(self).players(), player@)].field@.len() < 7 ==> (rid_views(final(self).players()[k].field@) == rid_views(p.field@).push(card@))
            }),
            ({
                let k = player_index(old(self).players(), player@);
                let j = instance_index(old(self).instances(), card@);
                let p = old(self).players()[k];
                old(self).players().len() > player_index(old(self).players(), player@) && holds_id(old(self).players()[player_index(old(self).players(), player@)].hand@, card@) && instance_index(old(self).instances(), card@) < old(self).instances().len() && old(self).instances()[instance_index(old(self).instances(), card@)].zone == Zone::Hand && old(self).players()[player_index(old(self).players(), player@)].field@.len() < 7 ==> (rid_views(final(self).players()[k].deck@) == rid_views(p.deck@))
            }),
            ({
                let k = player_index(old(self).players(), player@);
                let j = instance_index(old(self).instances(), card@);
                let p = old(self).players()[k];
                old(self).players().len() > player_index(old(self).players(), player@) && holds_id(old(self).players()[player_index(old(self).players(), player@)].hand@, card@) && instance_index(old(self).instances(), card@) < old(self).instances().len() && old(self).instances()[instance_index(old(self).instances(), card@)].zone == Zone::Hand && old(self).players()[player_index(old(self).players(), player@)].field@.len() < 7 ==> (rid_views(final(self).players()[k].graveyard@) == rid_views(p.graveyard@))
            }),
            ({
                let k = player_index(old(self).players(), player@);
                let j = instance_index(old(self).instances(), card@);
                let p = old(self).players()[k];
                old(self).players().len() > player_index(old(self).players(), player@) && holds_id(old(self).players()[player_index(old(self).players(), player@)].hand@, card@) && instance_index(old(self).instances(), card@) < old(self).instances().len() && old(self).instances()[instance_index(old(self).instances(), card@)].zone == Zone::Hand && old(self).players()[player_index(old(self).players(), player@)].field@.len() < 7 ==> (final(self).instances().len() == old(self).instances().len())
            }),
            ({
                let k = player_index(old(self).players(), player@);
                let j = instance_index(old(self).instances(), card@);
                let p = old(self).players()[k];
                old(self).players().len() > player_index(old(self).players(), player@) && holds_id(old(self).players()[player_index(old(self).players(), player@)].hand@, card@) && instance_index(old(self).instances(), card@) < old(self).instances().len() && old(self).instances()[instance_index(old(self).instances(), card@)].zone == Zone::Hand && old(self).players()[player_index(old(self).players(), player@)].field@.len() < 7 ==> (forall|q: int| 0 <= q < old(self).instances().len() && q != j ==> #[trigger] final(self).instances()[q] == old(self).instances()[q])
            }),
            ({
                let k = player_index(old(self).players(), player@);
                let j = instance_index(old(self).instances(), card@);
                let p = old(self).players()[k];
                old(self).players().len() > player_index(old(self).players(), player@) && holds_id(old(self).players()[player_index(old(self).players(), player@)].hand@, card@) && instance_index(old(self).instances(), card@) < old(self).instances().len() && old(self).instances()[instance_index(old(self).instances(), card@)].zone == Zone::Hand && old(self).players()[player_index(old(self).players(), player@)].field@.len() < 7 ==> (final(self).instances()[j].same(RuntimeCardInstance { zone: Zone::Field, ..old(self).instances()[j] }))
            }),
            ({
                let k = player_index(old(self).players(), player@);
                let j = instance_index(old(self).instances(), card@);
                let p = old(self).players()[k];
                old(self).players().len() > player_index(old(self).players(), player@) && holds_id(old(self).players()[player_index(old(self).players(), player@)].hand@, card@) && instance_index(old(self).instances(), card@) < old(self).instances().len() && old(self).instances()[instance_index(old(self).instances(), card@)].zone == Zone::Hand && old(self).players()[player_index(old(self).players(), player@)].field@.len() < 7 ==> (final(self).turn_number() == old(self).turn_number())
            }),
            ({
                let k = player_index(old(self).players(), player@);
                let j = instance_index(old(self).instances(), card@);
                let p = old(self).players()[k];
                old(self).players().len() > player_index(old(self).players(), player@) && holds_id(old(self).players()[player_index(old(self).players(), player@)].hand@, card@) && instance_index(old(self).instances(), card@) < old(self).instances().len() && old(self).instances()[instance_index(old(self).instances(), card@)].zone == Zone::Hand && old(self).players()[player_index(old(self).players(), player@)].field@.len() < 7 ==> (final(self).phase_now() == old(self).phase_now())
            }),
            ({
                let k = player_index(old(self).players(), player@);
                let j = instance_index(old(self).instances(), card@);
                let p = old(self).players()[k];
                old(self).players().len() > player_index(old(self).players(), player@) && holds_id(old(self).players()[player_index(old(self).players(), player@)].hand@, card@) && instance_index(old(self).instances(), card@) < old(self).instances().len() && old(self).instances()[instance_index(old(self).instances(), card@)].zone == Zone::Hand && old(self).players()[player_index(old(self).players(), player@)].field@.len() < 7 ==> (final(self).stack() == old(self).stack())
            }),
            ({
                let k = player_index(old(self).players(), player@);
                let j = instance_index(old(self).instances(), card@);
                let p = old(self).players()[k];
                old(self).players().len() > player_index(old(self).players(), player@) && holds_id(old(self).players()[player_index(old(self).players(), player@)].hand@, card@) && instance_index(old(self).instances(), card@) < old(self).instances().len() && old(self).instances()[instance_index(old(self).instances(), card@)].zone == Zone::Hand && old(self).players()[player_index(old(self).players(), player@)].field@.len() < 7 ==> (final(self).log_lines() == old(self).log_lines().push(
                        LogView {
                            turn: old(self).turn_number(),
                            action: "play_card"@,
                            actor: Some(card@),
                            target: match target { Some(t) => Some(t@), None => None },
                            result: "打出"@,
                        },
                    ))
            }),
    {
        let k = find_player_index(&self.players, &player);
        proof {
            lemma_player_index(self.players@, player@);
        }
        if k >= self.players.len() {
            return Err(owned("玩家不存在"));
        }
        if !contains_id(&self.players[k].hand, &card) {
            let mut e = copy_string(&card.0);
            append_str(&mut e, " 不在手牌中");
            return Err(e);
        }
        let j = find_instance_index(&self.instances, &card);
        proof {
            lemma_instance_index(self.instances@, card@);
        }
        if j >= self.instances.len() || self.instances[j].zone != Zone::Hand {
            let mut e = copy_string(&card.0);
            append_str(&mut e, " 不在手牌区域");
            return Err(e);
        }
        let mut p = self.players[k].copy();
        let mut inst = self.instances[j].copy();
        proof {
            assert(rid_views(p.field@).len() == p.field@.len());
            assert(rid_views(self.players@[k as int].field@).len() == self.players@[k as int].field@.len());
        }
        let res = ZoneManager::hand_to_field(&mut p.hand, &mut p.field, &mut inst, &card, 7);
        match res {
            ZoneMoveResult::Moved => {},
            ZoneMoveResult::ZoneFull { zone, limit } => {
                return Err(owned("区域移动失败: ZoneFull { zone: Field, limit: 7 }"));
            },
            _ => {
                return Err(owned("区域移动失败"));
            },
        }
        self.players.set(k, p);
        self.instances.set(j, inst);
        let target_text = match &target {
            Some(t) => Some(copy_string(&t.0)),
            None => None,
        };
        self.log("play_card", Some(copy_string(&card.0)), target_text, owned("打出"));
        Ok(EffectResult { success: true, log: copy_log(&self.effect_log), state_changes: Vec::new() })
    }

    fn get_turn(&self) -> (r: u32)
        ensures
            r == self.turn_number(),
    {
        self.turn
    }

    fn get_phase(&self) -> (r: Phase)
        ensures
            r == self.phase_now(),
    {
        self.phase
    }
}

} // verus!
