//! The duel state machine: phases, the two player fields, the effect stack and
//! the effect log.
//!
//! A duel runs: preparation, first player's turn, second player's turn,
//! settlement, end.
use vstd::prelude::*;
use crate::assoc::{assoc_get, assoc_remove, assoc_set, assoc_view, lookup_or};
use crate::base::{DamageType, PlayerSide};
use crate::text::owned;

verus! {

/// Phase of a duel.
#[derive(Debug, Clone, Copy, PartialEq, Eq, Structural)]
pub enum DuelPhase {
    Preparation,
    FirstPlayerTurn,
    SecondPlayerTurn,
    Settlement,
    End,
}

impl DuelPhase {
    pub open spec fn spec_name(self) -> Seq<char> {
        match self {
            DuelPhase::Preparation => "准备阶段"@,
            DuelPhase::FirstPlayerTurn => "先手回合"@,
            DuelPhase::SecondPlayerTurn => "后手回合"@,
            DuelPhase::Settlement => "结算阶段"@,
            DuelPhase::End => "结束"@,
        }
    }

    /// The phase that follows this one; `End` has none.
    pub open spec fn spec_next(self) -> Option<DuelPhase> {
        match self {
            DuelPhase::Preparation => Some(DuelPhase::FirstPlayerTurn),
            DuelPhase::FirstPlayerTurn => Some(DuelPhase::SecondPlayerTurn),
            DuelPhase::SecondPlayerTurn => Some(DuelPhase::Settlement),
            DuelPhase::Settlement => Some(DuelPhase::End),
            DuelPhase::End => None,
        }
    }

    /// Position of the phase in the order of a duel.
    pub open spec fn rank(self) -> int {
        match self {
            DuelPhase::Preparation => 0,
            DuelPhase::FirstPlayerTurn => 1,
            DuelPhase::SecondPlayerTurn => 2,
            DuelPhase::Settlement => 3,
            DuelPhase::End => 4,
        }
    }

    pub fn name(&self) -> (r: &'static str)
        ensures
            r@ == self.spec_name(),
    {
        match self {
            DuelPhase::Preparation => "准备阶段",
            DuelPhase::FirstPlayerTurn => "先手回合",
            DuelPhase::SecondPlayerTurn => "后手回合",
            DuelPhase::Settlement => "结算阶段",
            DuelPhase::End => "结束",
        }
    }

    pub fn next(&self) -> (r: Option<DuelPhase>)
        ensures
            r == self.spec_next(),
    {
        match self {
            DuelPhase::Preparation => Some(DuelPhase::FirstPlayerTurn),
            DuelPhase::FirstPlayerTurn => Some(DuelPhase::SecondPlayerTurn),
            DuelPhase::SecondPlayerTurn => Some(DuelPhase::Settlement),
            DuelPhase::Settlement => Some(DuelPhase::End),
            DuelPhase::End => None,
        }
    }
}

/// Each phase but `End` is followed by the phase one step later; `End` is final.
pub proof fn lemma_phase_order(p: DuelPhase)
    ensures
        p.spec_next() is None <==> p == DuelPhase::End,
        p.spec_next() matches Some(q) ==> q.rank() == p.rank() + 1,
{
}

/// One player's side of the table.
#[derive(Debug, Clone)]
pub struct PlayerField {
    pub name: String,
    pub faction: String,
    pub hp: i32,
    pub max_hp: i32,
    pub armor: i32,
    pub energy: i32,
    pub max_energy: i32,
    pub physical_attack: i32,
    pub magic_attack: i32,
    pub physical_resist: i32,
    pub magic_resist: i32,
    pub has_attacked: bool,
    pub attack_count: i32,
    pub hand_cards: Vec<String>,
    pub equipment: Vec<String>,
    pub skills: Vec<String>,
    /// Active marks: name and layer count.
    pub marks: Vec<(String, i32)>,
    pub used_tags: Vec<String>,
    pub damage_dealt_this_turn: i32,
    pub healed_this_turn: i32,
}

pub open spec fn min_i(a: int, b: int) -> int {
    if a <= b { a } else { b }
}

pub open spec fn max_i(a: int, b: int) -> int {
    if a >= b { a } else { b }
}

/// What armor soaks up of a hit of `amount`.
pub open spec fn absorbed(armor: int, amount: int) -> int {
    if armor > 0 { min_i(armor, amount) } else { 0 }
}

/// Hit points left after a hit of `amount` lands behind `armor`.
pub open spec fn hp_after_hit(hp: int, armor: int, amount: int) -> int {
    let rest = amount - absorbed(armor, amount);
    if rest > 0 { max_i(hp - rest, 0) } else { hp }
}

impl PlayerField {
    /// The marks as a map from name to layers.
    pub open spec fn marks_view(&self) -> Map<Seq<char>, i32> {
        assoc_view(self.marks@)
    }

    pub open spec fn spec_mark_count(&self, name: Seq<char>) -> i32 {
        lookup_or(self.marks_view(), name, 0i32)
    }

    /// A fresh field: 8 of 8 life, 2 armor, 4 of 4 energy, 1 physical attack,
    /// one attack, nothing held.
    pub fn new(name: &str, faction: &str) -> (r: PlayerField)
        ensures
            r.name@ == name@,
            r.faction@ == faction@,
            r.hp == 8 && r.max_hp == 8 && r.armor == 2,
            r.energy == 4 && r.max_energy == 4,
            r.physical_attack == 1 && r.magic_attack == 0,
            r.physical_resist == 0 && r.magic_resist == 0,
            !r.has_attacked && r.attack_count == 1,
            r.hand_cards@.len() == 0 && r.equipment@.len() == 0 && r.skills@.len() == 0,
            r.marks@.len() == 0 && r.used_tags@.len() == 0,
            r.damage_dealt_this_turn == 0 && r.healed_this_turn == 0,
    {
        PlayerField {
            name: owned(name),
            faction: owned(faction),
            hp: 8,
            max_hp: 8,
            armor: 2,
            energy: 4,
            max_energy: 4,
            physical_attack: 1,
            magic_attack: 0,
            physical_resist: 0,
            magic_resist: 0,
            has_attacked: false,
            attack_count: 1,
            hand_cards: Vec::new(),
            equipment: Vec::new(),
            skills: Vec::new(),
            marks: Vec::new(),
            used_tags: Vec::new(),
            damage_dealt_this_turn: 0,
            healed_this_turn: 0,
        }
    }

    pub fn is_alive(&self) -> (r: bool)
        ensures
            r == (self.hp > 0),
    {
        self.hp > 0
    }

    /// Takes a hit: armor absorbs first, the rest comes off life, which stops
    /// at 0. Returns the damage dealt, `amount` for a positive hit and 0 else.
    pub fn take_damage(&mut self, amount: i32, dtype: DamageType) -> (r: i32)
        ensures
            amount <= 0 ==> r == 0 && *final(self) == *old(self),
            amount > 0 ==> r == amount,
            amount > 0 ==> *final(self) == (PlayerField {
                armor: (old(self).armor - absorbed(old(self).armor as int, amount as int)) as i32,
                hp: hp_after_hit(old(self).hp as int, old(self).armor as int, amount as int) as i32,
                ..*old(self)
            }),
    {
        if amount <= 0 {
            return 0;
        }
        let mut remaining = amount;
        if self.armor > 0 {
            let soak = if self.armor < remaining { self.armor } else { remaining };
            self.armor = self.armor - soak;
            remaining = remaining - soak;
        }
        if remaining > 0 {
            let left: i64 = self.hp as i64 - remaining as i64;
            self.hp = if left > 0 { left as i32 } else { 0 };
        }
        amount
    }

    /// Restores up to `amount` life, not past the maximum; returns what was restored.
    pub fn heal(&mut self, amount: i32) -> (r: i32)
        requires
            amount > 0 ==> i32::MIN <= old(self).max_hp - old(self).hp <= i32::MAX,
            amount > 0 ==> i32::MIN <= old(self).healed_this_turn + min_i(
                amount as int,
                old(self).max_hp - old(self).hp,
            ) <= i32::MAX,
        ensures
            amount <= 0 ==> r == 0 && *final(self) == *old(self),
            amount > 0 ==> r == min_i(amount as int, old(self).max_hp - old(self).hp),
            amount > 0 ==> *final(self) == (PlayerField {
                hp: (old(self).hp + r) as i32,
                healed_this_turn: (old(self).healed_this_turn + r) as i32,
                ..*old(self)
            }),
    {
        if amount <= 0 {
            return 0;
        }
        let room = self.max_hp - self.hp;
        let actual = if amount < room { amount } else { room };
        self.hp = self.hp + actual;
        self.healed_this_turn = self.healed_this_turn + actual;
        actual
    }

    pub fn gain_armor(&mut self, amount: i32)
        requires
            i32::MIN <= old(self).armor + amount <= i32::MAX,
        ensures
            *final(self) == (PlayerField { armor: (old(self).armor + amount) as i32, ..*old(self) }),
    {
        self.armor = self.armor + amount;
    }

    /// Changes energy by `delta`, kept within `0..=max_energy`.
    pub fn modify_energy(&mut self, delta: i32)
        requires
            old(self).max_energy >= 0,
            i32::MIN <= old(self).energy + delta <= i32::MAX,
        ensures
            *final(self) == (PlayerField {
                energy: max_i(0, min_i(old(self).energy + delta, old(self).max_energy as int)) as i32,
                ..*old(self)
            }),
    {
        let v = self.energy + delta;
        self.energy = if v < 0 {
            0
        } else if v > self.max_energy {
            self.max_energy
        } else {
            v
        };
    }

    /// Adds `count` layers of the mark `name`.
    pub fn add_mark(&mut self, name: &str, count: i32)
        requires
            i32::MIN <= old(self).spec_mark_count(name@) + count <= i32::MAX,
        ensures
            final(self).marks_view() == old(self).marks_view().insert(
                name@,
                (old(self).spec_mark_count(name@) + count) as i32,
            ),
            *final(self) == (PlayerField { marks: final(self).marks, ..*old(self) }),
    {
        let key = owned(name);
        let cur = match assoc_get(&self.marks, &key) {
            Some(c) => c,
            None => 0,
        };
        assoc_set(&mut self.marks, &key, cur + count);
    }

    /// Spends `count` layers of `name` if that many are there; a mark left at
    /// 0 or less is dropped. Returns whether the layers were spent.
    pub fn consume_marks(&mut self, name: &str, count: i32) -> (r: bool)
        requires
            old(self).marks_view().dom().contains(name@) && old(self).marks_view()[name@] >= count
                ==> old(self).marks_view()[name@] - count <= i32::MAX,
        ensures
            r == (old(self).marks_view().dom().contains(name@) && old(self).marks_view()[name@]
                >= count),
            !r ==> *final(self) == *old(self),
            r && old(self).marks_view()[name@] - count <= 0 ==> final(self).marks_view()
                == old(self).marks_view().remove(name@),
            r && old(self).marks_view()[name@] - count > 0 ==> final(self).marks_view()
                == old(self).marks_view().insert(
                name@,
                (old(self).marks_view()[name@] - count) as i32,
            ),
            *final(self) == (PlayerField { marks: final(self).marks, ..*old(self) }),
    {
        let key = owned(name);
        match assoc_get(&self.marks, &key) {
            Some(cur) => {
                if cur >= count {
                    let left = cur - count;
                    if left <= 0 {
                        assoc_remove(&mut self.marks, &key);
                    } else {
                        assoc_set(&mut self.marks, &key, left);
                    }
                    true
                } else {
                    false
                }
            },
            None => false,
        }
    }

    /// Layers of the mark `name`, 0 when absent.
    pub fn mark_count(&self, name: &str) -> (r: i32)
        ensures
            r == self.spec_mark_count(name@),
    {
        let key = owned(name);
        match assoc_get(&self.marks, &key) {
            Some(c) => c,
            None => 0,
        }
    }
}

/// One pending effect on the stack.
#[derive(Debug, Clone)]
pub struct EffectStackEntry {
    pub source: String,
    pub description: String,
    pub owner: PlayerSide,
    pub target: PlayerSide,
}

/// One line of the effect log.
#[derive(Debug, Clone)]
pub struct EffectLogEntry {
    pub round: u32,
    pub phase: String,
    pub source: String,
    pub description: String,
    pub owner: String,
}

/// How a duel ended.
#[derive(Debug, Clone, Copy, PartialEq, Eq, Structural)]
pub enum DuelResult {
    FirstPlayerWin,
    SecondPlayerWin,
    Draw,
}

impl DuelResult {
    pub open spec fn spec_description(self) -> Seq<char> {
        match self {
            DuelResult::FirstPlayerWin => "先手方获胜"@,
            DuelResult::SecondPlayerWin => "后手方获胜"@,
            DuelResult::Draw => "平局"@,
        }
    }

    pub fn description(&self) -> (r: &'static str)
        ensures
            r@ == self.spec_description(),
    {
        match self {
            DuelResult::FirstPlayerWin => "先手方获胜",
            DuelResult::SecondPlayerWin => "后手方获胜",
            DuelResult::Draw => "平局",
        }
    }
}

/// The result decided by who is still alive.
pub open spec fn outcome(first_alive: bool, second_alive: bool) -> DuelResult {
    if first_alive && !second_alive {
        DuelResult::FirstPlayerWin
    } else if !first_alive && second_alive {
        DuelResult::SecondPlayerWin
    } else {
        DuelResult::Draw
    }
}

/// The two seats of a duel, `First` and `Second`.
pub open spec fn is_seat(s: PlayerSide) -> bool {
    s == PlayerSide::First || s == PlayerSide::Second
}

pub open spec fn seat_index(s: PlayerSide) -> int {
    if s == PlayerSide::First { 0 } else { 1 }
}

/// A field at the start of its owner's turn.
pub open spec fn turn_reset(f: PlayerField) -> PlayerField {
    PlayerField { has_attacked: false, attack_count: 1, damage_dealt_this_turn: 0, healed_this_turn: 0, ..f }
}

/// Whole state of a duel.
#[derive(Debug, Clone)]
pub struct DuelState {
    pub phase: DuelPhase,
    pub round: u32,
    pub first_player: usize,
    pub second_player: usize,
    /// The first player's field, then the second player's.
    pub fields: [PlayerField; 2],
    pub active_player: PlayerSide,
    /// Pending effects, last in first out.
    pub effect_stack: Vec<EffectStackEntry>,
    pub effect_log: Vec<EffectLogEntry>,
    pub result: Option<DuelResult>,
    pub scenario_id: String,
}

/// `e` is the log line for the given round, phase name, source, text and owner name.
pub open spec fn log_line(
    e: EffectLogEntry,
    round: u32,
    phase: Seq<char>,
    source: Seq<char>,
    description: Seq<char>,
    owner: Seq<char>,
) -> bool {
    &&& e.round == round
    &&& e.phase@ == phase
    &&& e.source@ == source
    &&& e.description@ == description
    &&& e.owner@ == owner
}

impl DuelState {
    pub open spec fn fld(&self, s: PlayerSide) -> PlayerField {
        self.fields@[seat_index(s)]
    }

    pub open spec fn alive(&self, s: PlayerSide) -> bool {
        self.fld(s).hp > 0
    }

    /// Whether a field was entered at its owner's turn: the state `after` is
    /// `before` entered into phase `p`.
    pub open spec fn entered(before: DuelState, after: DuelState, p: DuelPhase) -> bool {
        match p {
            DuelPhase::Preparation => after == DuelState { round: 0, active_player: PlayerSide::First, ..before },
            DuelPhase::FirstPlayerTurn => {
                &&& after == DuelState {
                    round: if before.round >= 1 { before.round } else { 1 },
                    active_player: PlayerSide::First,
                    fields: after.fields,
                    ..before
                }
                &&& after.fields@[0] == turn_reset(before.fields@[0])
                &&& after.fields@[1] == before.fields@[1]
            },
            DuelPhase::SecondPlayerTurn => {
                &&& after == DuelState { active_player: PlayerSide::Second, fields: after.fields, ..before }
                &&& after.fields@[0] == before.fields@[0]
                &&& after.fields@[1] == turn_reset(before.fields@[1])
            },
            DuelPhase::Settlement => after == DuelState { active_player: PlayerSide::First, ..before },
            DuelPhase::End => after == DuelState {
                result: Some(outcome(before.alive(PlayerSide::First), before.alive(PlayerSide::Second))),
                ..before
            },
        }
    }

    /// A duel in preparation, round 0, the first player to act, nothing pending.
    pub fn new(first: PlayerField, second: PlayerField, scenario_id: String) -> (r: DuelState)
        ensures
            r.phase == DuelPhase::Preparation,
            r.round == 0,
            r.first_player == 0 && r.second_player == 1,
            r.fields@[0] == first && r.fields@[1] == second,
            r.active_player == PlayerSide::First,
            r.effect_stack@.len() == 0 && r.effect_log@.len() == 0,
            r.result is None,
            r.scenario_id == scenario_id,
    {
        DuelState {
            phase: DuelPhase::Preparation,
            round: 0,
            first_player: 0,
            second_player: 1,
            fields: [first, second],
            active_player: PlayerSide::First,
            effect_stack: Vec::new(),
            effect_log: Vec::new(),
            result: None,
            scenario_id,
        }
    }

    pub fn field(&self, side: PlayerSide) -> (r: &PlayerField)
        requires
            is_seat(side),
        ensures
            *r == self.fld(side),
    {
        match side {
            PlayerSide::First => &self.fields[0],
            _ => &self.fields[1],
        }
    }

    pub fn field_mut(&mut self, side: PlayerSide) -> (r: &mut PlayerField)
        requires
            is_seat(side),
        ensures
            *r == old(self).fld(side),
            final(self).fields@ == old(self).fields@.update(seat_index(side), *final(r)),
            *final(self) == (DuelState { fields: final(self).fields, ..*old(self) }),
    {
        match side {
            PlayerSide::First => &mut self.fields[0],
            _ => &mut self.fields[1],
        }
    }

    pub fn active_field(&self) -> (r: &PlayerField)
        requires
            is_seat(self.active_player),
        ensures
            *r == self.fld(self.active_player),
    {
        self.field(self.active_player)
    }

    pub fn opponent_field(&self) -> (r: &PlayerField)
        requires
            is_seat(self.active_player),
        ensures
            *r == self.fld(self.active_player.spec_opponent()),
    {
        self.field(self.active_player.opponent())
    }

    pub fn active_field_mut(&mut self) -> (r: &mut PlayerField)
        requires
            is_seat(old(self).active_player),
        ensures
            *r == old(self).fld(old(self).active_player),
            final(self).fields@ == old(self).fields@.update(
                seat_index(old(self).active_player),
                *final(r),
            ),
            *final(self) == (DuelState { fields: final(self).fields, ..*old(self) }),
    {
        let side = self.active_player;
        self.field_mut(side)
    }

    pub fn opponent_field_mut(&mut self) -> (r: &mut PlayerField)
        requires
            is_seat(old(self).active_player),
        ensures
            *r == old(self).fld(old(self).active_player.spec_opponent()),
            final(self).fields@ == old(self).fields@.update(
                seat_index(old(self).active_player.spec_opponent()),
                *final(r),
            ),
            *final(self) == (DuelState { fields: final(self).fields, ..*old(self) }),
    {
        let side = self.active_player.opponent();
        self.field_mut(side)
    }

    /// Moves to the next phase and enters it; returns the new phase, or
    /// `None` (and changes nothing) at the end.
    pub fn advance_phase(&mut self) -> (r: Option<DuelPhase>)
        ensures
            r == old(self).phase.spec_next(),
            r is None ==> *final(self) == *old(self),
            r matches Some(p) ==> DuelState::entered(
                DuelState { phase: p, ..*old(self) },
                *final(self),
                p,
            ),
    {
        let next = self.phase.next();
        if let Some(p) = next {
            self.phase = p;
            self.on_phase_enter(p);
        }
        next
    }

    /// Sets up a phase on entry: round and acting side, turn counters of the
    /// side whose turn begins, the result at the end.
    pub fn on_phase_enter(&mut self, phase: DuelPhase)
        ensures
            DuelState::entered(*old(self), *final(self), phase),
    {
        match phase {
            DuelPhase::Preparation => {
                self.round = 0;
                self.active_player = PlayerSide::First;
            },
            DuelPhase::FirstPlayerTurn => {
                if self.round < 1 {
                    self.round = 1;
                }
                self.active_player = PlayerSide::First;
                self.fields[0].has_attacked = false;
                self.fields[0].attack_count = 1;
                self.fields[0].damage_dealt_this_turn = 0;
                self.fields[0].healed_this_turn = 0;
            },
            DuelPhase::SecondPlayerTurn => {
                self.active_player = PlayerSide::Second;
                self.fields[1].has_attacked = false;
                self.fields[1].attack_count = 1;
                self.fields[1].damage_dealt_this_turn = 0;
                self.fields[1].healed_this_turn = 0;
            },
            DuelPhase::Settlement => {
                self.active_player = PlayerSide::First;
            },
            DuelPhase::End => {
                self.resolve_result();
            },
        }
    }

    fn resolve_result(&mut self)
        ensures
            *final(self) == (DuelState {
                result: Some(
                    outcome(old(self).alive(PlayerSide::First), old(self).alive(PlayerSide::Second)),
                ),
                ..*old(self)
            }),
    {
        let first_alive = self.fields[0].is_alive();
        let second_alive = self.fields[1].is_alive();
        self.result = Some(
            if first_alive && !second_alive {
                DuelResult::FirstPlayerWin
            } else if !first_alive && second_alive {
                DuelResult::SecondPlayerWin
            } else {
                DuelResult::Draw
            },
        );
    }

    /// Ends the duel at once when a side is down; returns whether it did.
    pub fn check_end(&mut self) -> (r: bool)
        ensures
            r == !(old(self).alive(PlayerSide::First) && old(self).alive(PlayerSide::Second)),
            r ==> *final(self) == (DuelState {
                phase: DuelPhase::End,
                result: Some(
                    outcome(old(self).alive(PlayerSide::First), old(self).alive(PlayerSide::Second)),
                ),
                ..*old(self)
            }),
            !r ==> *final(self) == *old(self),
    {
        if !self.fields[0].is_alive() || !self.fields[1].is_alive() {
            self.phase = DuelPhase::End;
            self.resolve_result();
            true
        } else {
            false
        }
    }

    /// Appends a line to the effect log, stamped with the round and phase.
    pub fn log_effect(&mut self, source: &str, description: &str, owner: PlayerSide)
        ensures
            final(self).effect_log@.len() == old(self).effect_log@.len() + 1,
            final(self).effect_log@.drop_last() == old(self).effect_log@,
            log_line(
                final(self).effect_log@.last(),
                old(self).round,
                old(self).phase.spec_name(),
                source@,
                description@,
                owner.spec_name(),
            ),
            *final(self) == (DuelState { effect_log: final(self).effect_log, ..*old(self) }),
    {
        let e = EffectLogEntry {
            round: self.round,
            phase: owned(self.phase.name()),
            source: owned(source),
            description: owned(description),
            owner: owned(owner.name()),
        };
        self.effect_log.push(e);
        proof {
            assert(final(self).effect_log@.drop_last() =~= old(self).effect_log@);
        }
    }

    pub fn push_effect(&mut self, entry: EffectStackEntry)
        ensures
            final(self).effect_stack@ == old(self).effect_stack@.push(entry),
            *final(self) == (DuelState { effect_stack: final(self).effect_stack, ..*old(self) }),
    {
        self.effect_stack.push(entry);
    }

    /// Takes the most recently pushed effect off the stack.
    pub fn pop_effect(&mut self) -> (r: Option<EffectStackEntry>)
        ensures
            old(self).effect_stack@.len() == 0 ==> r is None && final(self).effect_stack@ == old(
                self,
            ).effect_stack@,
            old(self).effect_stack@.len() > 0 ==> r == Some(old(self).effect_stack@.last())
                && final(self).effect_stack@ == old(self).effect_stack@.drop_last(),
            *final(self) == (DuelState { effect_stack: final(self).effect_stack, ..*old(self) }),
    {
        self.effect_stack.pop()
    }
}

/// The effect stack is last in, first out: popping right after a push gives
/// back the pushed entry and leaves the stack as it was.
pub proof fn lemma_push_pop(s: Seq<EffectStackEntry>, e: EffectStackEntry)
    ensures
        s.push(e).last() == e,
        s.push(e).drop_last() == s,
{
    assert(s.push(e).drop_last() =~= s);
}

/// A field's marks after adding `a` then consuming `a` of a mark it did not
/// hold are what they were.
pub proof fn lemma_marks_add_then_consume(m: Map<Seq<char>, i32>, k: Seq<char>, a: i32)
    requires
        !m.dom().contains(k),
        a > 0,
    ensures
        m.insert(k, a).remove(k) == m,
{
    assert(m.insert(k, a).remove(k) =~= m);
}

// ---------------------------------------------------------------------------
// Copies
// ---------------------------------------------------------------------------

/// `a` and `b` hold the same data, lists compared by their contents.
pub open spec fn same_field(a: PlayerField, b: PlayerField) -> bool {
    &&& a == PlayerField {
        hand_cards: a.hand_cards,
        equipment: a.equipment,
        skills: a.skills,
        marks: a.marks,
        used_tags: a.used_tags,
        ..b
    }
    &&& a.hand_cards@ == b.hand_cards@
    &&& a.equipment@ == b.equipment@
    &&& a.skills@ == b.skills@
    &&& a.marks@ == b.marks@
    &&& a.used_tags@ == b.used_tags@
}

/// `a` and `b` hold the same duel, lists compared by their contents.
pub open spec fn same_state(a: DuelState, b: DuelState) -> bool {
    &&& a == DuelState { fields: a.fields, effect_stack: a.effect_stack, effect_log: a.effect_log, ..b }
    &&& same_field(a.fields@[0], b.fields@[0])
    &&& same_field(a.fields@[1], b.fields@[1])
    &&& a.effect_stack@ == b.effect_stack@
    &&& a.effect_log@ == b.effect_log@
}

fn copy_marks(v: &Vec<(String, i32)>) -> (r: Vec<(String, i32)>)
    ensures
        r@ == v@,
{
    let mut r: Vec<(String, i32)> = Vec::new();
    let mut i: usize = 0;
    while i < v.len()
        invariant
            i <= v.len(),
            r@ == v@.subrange(0, i as int),
        decreases v.len() - i,
    {
        let e = (v[i].0.clone(), v[i].1);
        r.push(e);
        i = i + 1;
        assert(r@ =~= v@.subrange(0, i as int));
    }
    assert(v@.subrange(0, v.len() as int) =~= v@);
    r
}

fn copy_list(v: &Vec<String>) -> (r: Vec<String>)
    ensures
        r@ == v@,
{
    let mut r: Vec<String> = Vec::new();
    let mut i: usize = 0;
    while i < v.len()
        invariant
            i <= v.len(),
            r@ == v@.subrange(0, i as int),
        decreases v.len() - i,
    {
        r.push(v[i].clone());
        i = i + 1;
        assert(r@ =~= v@.subrange(0, i as int));
    }
    assert(v@.subrange(0, v.len() as int) =~= v@);
    r
}

impl EffectLogEntry {
    pub fn copy(&self) -> (r: EffectLogEntry)
        ensures
            r == *self,
    {
        EffectLogEntry {
            round: self.round,
            phase: self.phase.clone(),
            source: self.source.clone(),
            description: self.description.clone(),
            owner: self.owner.clone(),
        }
    }
}

impl EffectStackEntry {
    pub fn copy(&self) -> (r: EffectStackEntry)
        ensures
            r == *self,
    {
        EffectStackEntry {
            source: self.source.clone(),
            description: self.description.clone(),
            owner: self.owner,
            target: self.target,
        }
    }
}

/// A copy of a log.
pub fn copy_log(v: &Vec<EffectLogEntry>) -> (r: Vec<EffectLogEntry>)
    ensures
        r@ == v@,
{
    let mut r: Vec<EffectLogEntry> = Vec::new();
    let mut i: usize = 0;
    while i < v.len()
        invariant
            i <= v.len(),
            r@ == v@.subrange(0, i as int),
        decreases v.len() - i,
    {
        r.push(v[i].copy());
        i = i + 1;
        assert(r@ =~= v@.subrange(0, i as int));
    }
    assert(v@.subrange(0, v.len() as int) =~= v@);
    r
}

fn copy_stack(v: &Vec<EffectStackEntry>) -> (r: Vec<EffectStackEntry>)
    ensures
        r@ == v@,
{
    let mut r: Vec<EffectStackEntry> = Vec::new();
    let mut i: usize = 0;
    while i < v.len()
        invariant
            i <= v.len(),
            r@ == v@.subrange(0, i as int),
        decreases v.len() - i,
    {
        r.push(v[i].copy());
        i = i + 1;
        assert(r@ =~= v@.subrange(0, i as int));
    }
    assert(v@.subrange(0, v.len() as int) =~= v@);
    r
}

impl PlayerField {
    pub fn copy(&self) -> (r: PlayerField)
        ensures
            same_field(r, *self),
    {
        PlayerField {
            name: self.name.clone(),
            faction: self.faction.clone(),
            hp: self.hp,
            max_hp: self.max_hp,
            armor: self.armor,
            energy: self.energy,
            max_energy: self.max_energy,
            physical_attack: self.physical_attack,
            magic_attack: self.magic_attack,
            physical_resist: self.physical_resist,
            magic_resist: self.magic_resist,
            has_attacked: self.has_attacked,
            attack_count: self.attack_count,
            hand_cards: copy_list(&self.hand_cards),
            equipment: copy_list(&self.equipment),
            skills: copy_list(&self.skills),
            marks: copy_marks(&self.marks),
            used_tags: copy_list(&self.used_tags),
            damage_dealt_this_turn: self.damage_dealt_this_turn,
            healed_this_turn: self.healed_this_turn,
        }
    }
}

impl DuelState {
    pub fn copy(&self) -> (r: DuelState)
        ensures
            same_state(r, *self),
    {
        DuelState {
            phase: self.phase,
            round: self.round,
            first_player: self.first_player,
            second_player: self.second_player,
            fields: [self.fields[0].copy(), self.fields[1].copy()],
            active_player: self.active_player,
            effect_stack: copy_stack(&self.effect_stack),
            effect_log: copy_log(&self.effect_log),
            result: self.result,
            scenario_id: self.scenario_id.clone(),
        }
    }
}

} // verus!
