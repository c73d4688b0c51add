//! Effect settlement in three phases: pay, settle, chain.
//!
//! Costs are paid first and are never refunded; an immunity cancels only the
//! next damage of the settle phase. Chained actions are handed back in the
//! order they were written, for the effect stack to settle later.
use vstd::prelude::*;
use crate::assoc::{assoc_get, assoc_set, assoc_view};
use crate::dz::ports::{log_views, LogEntry, LogView, MarkId, RuntimeCardInstance};
use crate::text::{append_int, append_str, copy_string, dec, owned};

verus! {

/// One settlement instruction.
#[derive(Debug)]
pub enum EffectAction {
    /// Cost paid by the source; it cannot be made immune.
    PayCost { energy: u32, hp: u32, hand_cards: u32, marks: Vec<MarkId> },
    /// Damage to the target; an immunity cancels it.
    DealDamage { amount: u32, damage_type: DamageType },
    RestoreHp { amount: u32 },
    RestoreEnergy { amount: u32 },
    GainArmor { amount: u32 },
    /// Removes armor; this is no damage and cannot be made immune.
    RemoveArmor { amount: u32 },
    /// Takes energy from the target; this is no damage.
    DeductEnergy { amount: u32 },
    RemoveMark { mark_id: MarkId, count: u32 },
    GainMark { mark_id: MarkId, count: u32 },
    DrawCards { count: u32 },
    DiscardCards { count: u32 },
    /// Cancels the next damage.
    ImmuneDamage,
    /// An action to settle after this one.
    Chain { action: Box<EffectAction> },
}

/// Kind of damage.
#[derive(Debug, Clone, Copy, PartialEq, Eq, Structural)]
pub enum DamageType {
    Physical,
    Spell,
    TrueDamage,
}

/// What one settlement did.
#[derive(Debug)]
pub struct SettlementResult {
    pub paid_energy: u32,
    pub paid_hp: u32,
    pub paid_cards: u32,
    pub damage_dealt: u32,
    pub damage_negated: u32,
    pub hp_restored: u32,
    pub energy_restored: u32,
    pub cards_drawn: u32,
    pub cards_discarded: u32,
    pub chain_actions: Vec<EffectAction>,
    pub log_entries: Vec<LogEntry>,
}

impl SettlementResult {
    pub fn new() -> (r: SettlementResult)
        ensures
            r.paid_energy == 0 && r.paid_hp == 0 && r.paid_cards == 0,
            r.damage_dealt == 0 && r.damage_negated == 0,
            r.hp_restored == 0 && r.energy_restored == 0,
            r.cards_drawn == 0 && r.cards_discarded == 0,
            r.chain_actions@.len() == 0,
            r.log_entries@.len() == 0,
    {
        SettlementResult {
            paid_energy: 0,
            paid_hp: 0,
            paid_cards: 0,
            damage_dealt: 0,
            damage_negated: 0,
            hp_restored: 0,
            energy_restored: 0,
            cards_drawn: 0,
            cards_discarded: 0,
            chain_actions: Vec::new(),
            log_entries: Vec::new(),
        }
    }
}

/// Two actions are the same, field by field (texts by their chars).
pub open spec fn same_action(a: EffectAction, b: EffectAction) -> bool
    decreases a,
{
    match (a, b) {
        (
            EffectAction::PayCost { energy: e1, hp: h1, hand_cards: c1, marks: m1 },
            EffectAction::PayCost { energy: e2, hp: h2, hand_cards: c2, marks: m2 },
        ) => e1 == e2 && h1 == h2 && c1 == c2 && m1@.map_values(|m: MarkId| m@) == m2@.map_values(
            |m: MarkId| m@,
        ),
        (EffectAction::DealDamage { amount: a1, damage_type: t1 }, EffectAction::DealDamage { amount: a2, damage_type: t2 }) => a1 == a2 && t1 == t2,
        (EffectAction::RestoreHp { amount: a1 }, EffectAction::RestoreHp { amount: a2 }) => a1 == a2,
        (EffectAction::RestoreEnergy { amount: a1 }, EffectAction::RestoreEnergy { amount: a2 }) => a1 == a2,
        (EffectAction::GainArmor { amount: a1 }, EffectAction::GainArmor { amount: a2 }) => a1 == a2,
        (EffectAction::RemoveArmor { amount: a1 }, EffectAction::RemoveArmor { amount: a2 }) => a1 == a2,
        (EffectAction::DeductEnergy { amount: a1 }, EffectAction::DeductEnergy { amount: a2 }) => a1 == a2,
        (EffectAction::RemoveMark { mark_id: k1, count: c1 }, EffectAction::RemoveMark { mark_id: k2, count: c2 }) => k1@ == k2@ && c1 == c2,
        (EffectAction::GainMark { mark_id: k1, count: c1 }, EffectAction::GainMark { mark_id: k2, count: c2 }) => k1@ == k2@ && c1 == c2,
        (EffectAction::DrawCards { count: c1 }, EffectAction::DrawCards { count: c2 }) => c1 == c2,
        (EffectAction::DiscardCards { count: c1 }, EffectAction::DiscardCards { count: c2 }) => c1 == c2,
        (EffectAction::ImmuneDamage, EffectAction::ImmuneDamage) => true,
        (EffectAction::Chain { action: x }, EffectAction::Chain { action: y }) => same_action(*x, *y),
        _ => false,
    }
}

fn copy_marks(v: &Vec<MarkId>) -> (r: Vec<MarkId>)
    ensures
        r@.map_values(|m: MarkId| m@) == v@.map_values(|m: MarkId| m@),
{
    let mut out: Vec<MarkId> = Vec::new();
    let mut i: usize = 0;
    while i < v.len()
        invariant
            i <= v@.len(),
            out@.map_values(|m: MarkId| m@) == v@.subrange(0, i as int).map_values(|m: MarkId| m@),
        decreases v@.len() - i,
    {
        let m = v[i].copy();
        let ghost before = out@;
        out.push(m);
        assert(out@.map_values(|m: MarkId| m@) =~= before.map_values(|m: MarkId| m@).push(v@[i as int]@));
        assert(v@.subrange(0, i + 1).map_values(|m: MarkId| m@) =~= v@.subrange(0, i as int).map_values(
            |m: MarkId| m@,
        ).push(v@[i as int]@));
        i = i + 1;
    }
    assert(v@.subrange(0, v@.len() as int) =~= v@);
    out
}

impl EffectAction {
    /// A copy of the action.
    pub fn copy(&self) -> (r: EffectAction)
        ensures
            same_action(*self, r),
        decreases self,
    {
        match self {
            EffectAction::PayCost { energy, hp, hand_cards, marks } => EffectAction::PayCost {
                energy: *energy,
                hp: *hp,
                hand_cards: *hand_cards,
                marks: copy_marks(marks),
            },
            EffectAction::DealDamage { amount, damage_type } => EffectAction::DealDamage {
                amount: *amount,
                damage_type: *damage_type,
            },
            EffectAction::RestoreHp { amount } => EffectAction::RestoreHp { amount: *amount },
            EffectAction::RestoreEnergy { amount } => EffectAction::RestoreEnergy { amount: *amount },
            EffectAction::GainArmor { amount } => EffectAction::GainArmor { amount: *amount },
            EffectAction::RemoveArmor { amount } => EffectAction::RemoveArmor { amount: *amount },
            EffectAction::DeductEnergy { amount } => EffectAction::DeductEnergy { amount: *amount },
            EffectAction::RemoveMark { mark_id, count } => EffectAction::RemoveMark {
                mark_id: mark_id.copy(),
                count: *count,
            },
            EffectAction::GainMark { mark_id, count } => EffectAction::GainMark {
                mark_id: mark_id.copy(),
                count: *count,
            },
            EffectAction::DrawCards { count } => EffectAction::DrawCards { count: *count },
            EffectAction::DiscardCards { count } => EffectAction::DiscardCards { count: *count },
            EffectAction::ImmuneDamage => EffectAction::ImmuneDamage,
            EffectAction::Chain { action } => {
                let inner = (**action).copy();
                EffectAction::Chain { action: Box::new(inner) }
            },
        }
    }
}

// ---------------------------------------------------------------------------
// The model of a settlement
// ---------------------------------------------------------------------------

pub open spec fn sat_sub(a: u32, b: u32) -> u32 {
    if a >= b {
        (a - b) as u32
    } else {
        0
    }
}

pub open spec fn sat_add(a: u32, b: u32) -> u32 {
    if a + b <= u32::MAX {
        (a + b) as u32
    } else {
        u32::MAX
    }
}

pub open spec fn fits(n: int) -> bool {
    0 <= n <= u32::MAX
}

/// A log line of a settlement.
pub open spec fn log_line(
    turn: u32,
    action: Seq<char>,
    actor: Option<Seq<char>>,
    target: Option<Seq<char>>,
    result: Seq<char>,
) -> LogView {
    LogView { turn, action, actor, target, result }
}

/// `pre`, the number, then `post`.
pub open spec fn num_text(pre: Seq<char>, n: int, post: Seq<char>) -> Seq<char> {
    pre + dec(n) + post
}

/// The source's side of a settlement, as the pay phase leaves it.
pub struct PayState {
    pub energy: u32,
    pub hp: u32,
    pub paid_energy: int,
    pub paid_hp: int,
    pub paid_cards: int,
    pub log: Seq<LogView>,
    pub ok: bool,
}

/// One action of the pay phase.
pub open spec fn pay_step(st: PayState, a: EffectAction, turn: u32, src: Seq<char>) -> PayState {
    match a {
        EffectAction::PayCost { energy, hp, hand_cards, marks: _ } => {
            let pe = st.paid_energy + energy;
            let ph = st.paid_hp + hp;
            let pc = st.paid_cards + hand_cards;
            let l1 = if energy > 0 {
                seq![log_line(turn, "支付"@, Some(src), None, num_text("消耗 "@, energy as int, " 点技力"@))]
            } else {
                Seq::empty()
            };
            let l2 = if hp > 0 {
                seq![log_line(turn, "支付"@, Some(src), None, num_text("消耗 "@, hp as int, " 点生命"@))]
            } else {
                Seq::empty()
            };
            PayState {
                energy: sat_sub(st.energy, energy),
                hp: sat_sub(st.hp, hp),
                paid_energy: pe,
                paid_hp: ph,
                paid_cards: pc,
                log: st.log + l1 + l2,
                ok: st.ok && fits(pe) && fits(ph) && fits(pc),
            }
        },
        _ => st,
    }
}

/// The pay phase over the first actions.
pub open spec fn pay_fold(st: PayState, actions: Seq<EffectAction>, turn: u32, src: Seq<char>) -> PayState
    decreases actions.len(),
{
    if actions.len() == 0 {
        st
    } else {
        pay_step(pay_fold(st, actions.drop_last(), turn, src), actions.last(), turn, src)
    }
}

/// The target's side of a settlement, as the settle phase leaves it.
pub struct SettleState {
    pub hp: u32,
    pub armor: u32,
    pub energy: u32,
    pub marks: Map<Seq<char>, u32>,
    pub dealt: int,
    pub negated: int,
    pub hp_restored: int,
    pub energy_restored: int,
    pub drawn: int,
    pub discarded: int,
    pub log: Seq<LogView>,
    pub immune: bool,
    pub ok: bool,
}

pub open spec fn damage_name(t: DamageType) -> Seq<char> {
    match t {
        DamageType::Physical => "物理"@,
        DamageType::Spell => "法术"@,
        DamageType::TrueDamage => "真实"@,
    }
}

/// Armor absorbed by a damage of `amount` (none for true damage).
pub open spec fn absorbed(armor: u32, amount: u32, t: DamageType) -> u32 {
    if t == DamageType::TrueDamage {
        0
    } else if armor <= amount {
        armor
    } else {
        amount
    }
}

/// Life lost to a damage of `amount` once armor has absorbed its part.
pub open spec fn hp_lost(hp: u32, armor: u32, amount: u32, t: DamageType) -> u32 {
    let rest = amount - absorbed(armor, amount, t);
    if hp <= rest {
        hp
    } else {
        rest as u32
    }
}

pub open spec fn mark_count(m: Map<Seq<char>, u32>, k: Seq<char>) -> u32 {
    if m.dom().contains(k) {
        m[k]
    } else {
        0
    }
}

/// One action of the settle phase.
pub open spec fn settle_step(st: SettleState, a: EffectAction, turn: u32, src: Seq<char>, tgt: Seq<char>) -> SettleState {
    match a {
        EffectAction::ImmuneDamage => SettleState { immune: true, negated: 1, ..st },
        EffectAction::DealDamage { amount, damage_type } => {
            if st.immune {
                let n = st.negated + amount;
                SettleState {
                    negated: n,
                    log: st.log.push(
                        log_line(turn, "伤害免疫"@, Some(src), Some(tgt), num_text(""@, amount as int, " 点伤害被免疫"@)),
                    ),
                    immune: false,
                    ok: st.ok && fits(n),
                    ..st
                }
            } else {
                let ab = absorbed(st.armor, amount, damage_type);
                let lost = hp_lost(st.hp, st.armor, amount, damage_type);
                let dealt = ab + lost;
                let neg = amount - dealt;
                let d = st.dealt + dealt;
                let n = st.negated + neg;
                SettleState {
                    armor: (st.armor - ab) as u32,
                    hp: (st.hp - lost) as u32,
                    dealt: d,
                    negated: n,
                    log: st.log.push(
                        log_line(
                            turn,
                            "伤害"@,
                            Some(src),
                            Some(tgt),
                            num_text(""@, dealt, " 点伤害 ("@) + damage_name(damage_type) + num_text("), "@, neg, " 被免疫"@),
                        ),
                    ),
                    ok: st.ok && fits(d) && fits(n),
                    ..st
                }
            }
        },
        EffectAction::RestoreHp { amount } => {
            let r = st.hp_restored + amount;
            SettleState {
                hp: sat_add(st.hp, amount),
                hp_restored: r,
                log: st.log.push(log_line(turn, "恢复"@, Some(src), Some(tgt), num_text("恢复 "@, amount as int, " 点生命"@))),
                ok: st.ok && fits(r),
                ..st
            }
        },
        EffectAction::RestoreEnergy { amount } => {
            let r = st.energy_restored + amount;
            SettleState {
                energy: sat_add(st.energy, amount),
                energy_restored: r,
                log: st.log.push(log_line(turn, "恢复"@, Some(src), Some(tgt), num_text("恢复 "@, amount as int, " 点技力"@))),
                ok: st.ok && fits(r),
                ..st
            }
        },
        EffectAction::GainArmor { amount } => SettleState {
            armor: sat_add(st.armor, amount),
            log: st.log.push(log_line(turn, "获得护甲"@, Some(tgt), None, num_text("获得 "@, amount as int, " 点护甲"@))),
            ..st
        },
        EffectAction::RemoveArmor { amount } => SettleState {
            armor: sat_sub(st.armor, amount),
            log: st.log.push(log_line(turn, "移除护甲"@, Some(src), Some(tgt), num_text("移除 "@, amount as int, " 点护甲"@))),
            ..st
        },
        EffectAction::DeductEnergy { amount } => SettleState {
            energy: sat_sub(st.energy, amount),
            log: st.log.push(log_line(turn, "扣除技力"@, Some(src), Some(tgt), num_text("扣除 "@, amount as int, " 点技力"@))),
            ..st
        },
        EffectAction::RemoveMark { mark_id, count } => {
            let cur = mark_count(st.marks, mark_id@);
            let removed: u32 = if cur <= count { cur } else { count };
            SettleState {
                marks: st.marks.insert(mark_id@, (cur - removed) as u32),
                log: st.log.push(
                    log_line(turn, "移除标记"@, Some(src), Some(tgt), num_text("移除 "@, removed as int, " 个「"@) + mark_id@ + "」"@),
                ),
                ..st
            }
        },
        EffectAction::GainMark { mark_id, count } => {
            let n = mark_count(st.marks, mark_id@) + count;
            SettleState {
                marks: st.marks.insert(mark_id@, n as u32),
                log: st.log.push(
                    log_line(turn, "获得标记"@, Some(tgt), None, num_text("获得 "@, count as int, " 个「"@) + mark_id@ + "」"@),
                ),
                ok: st.ok && fits(n),
                ..st
            }
        },
        EffectAction::DrawCards { count } => {
            let n = st.drawn + count;
            SettleState {
                drawn: n,
                log: st.log.push(log_line(turn, "抽牌"@, Some(src), None, num_text("抽取 "@, count as int, " 张牌"@))),
                ok: st.ok && fits(n),
                ..st
            }
        },
        EffectAction::DiscardCards { count } => {
            let n = st.discarded + count;
            SettleState {
                discarded: n,
                log: st.log.push(log_line(turn, "弃牌"@, Some(src), None, num_text("弃置 "@, count as int, " 张牌"@))),
                ok: st.ok && fits(n),
                ..st
            }
        },
        _ => st,
    }
}

/// The settle phase over the first actions.
pub open spec fn settle_fold(st: SettleState, actions: Seq<EffectAction>, turn: u32, src: Seq<char>, tgt: Seq<char>) -> SettleState
    decreases actions.len(),
{
    if actions.len() == 0 {
        st
    } else {
        settle_step(settle_fold(st, actions.drop_last(), turn, src, tgt), actions.last(), turn, src, tgt)
    }
}

/// The chained actions, in order.
pub open spec fn chains(actions: Seq<EffectAction>) -> Seq<EffectAction>
    decreases actions.len(),
{
    if actions.len() == 0 {
        actions
    } else if actions.last() is Chain {
        chains(actions.drop_last()).push(actions.last())
    } else {
        chains(actions.drop_last())
    }
}

pub open spec fn pay_begin(energy: u32, hp: u32) -> PayState {
    PayState { energy, hp, paid_energy: 0, paid_hp: 0, paid_cards: 0, log: Seq::empty(), ok: true }
}

pub open spec fn pay_start(source: RuntimeCardInstance) -> PayState {
    pay_begin(source.energy, source.hp)
}

pub open spec fn settle_start(target: RuntimeCardInstance) -> SettleState {
    settle_begin(target.hp, target.armor, target.energy, assoc_view(target.marks@))
}

pub open spec fn settle_begin(hp: u32, armor: u32, energy: u32, marks: Map<Seq<char>, u32>) -> SettleState {
    SettleState {
        hp,
        armor,
        energy,
        marks,
        dealt: 0,
        negated: 0,
        hp_restored: 0,
        energy_restored: 0,
        drawn: 0,
        discarded: 0,
        log: Seq::empty(),
        immune: false,
        ok: true,
    }
}

/// The payment of `actions` by `source`.
pub open spec fn payment(actions: Seq<EffectAction>, source: RuntimeCardInstance, turn: u32) -> PayState {
    pay_fold(pay_start(source), actions, turn, source.runtime_id@)
}

/// The settlement of `actions` on `target`.
pub open spec fn settlement(
    actions: Seq<EffectAction>,
    source: RuntimeCardInstance,
    target: RuntimeCardInstance,
    turn: u32,
) -> SettleState {
    settle_fold(settle_start(target), actions, turn, source.runtime_id@, target.runtime_id@)
}

/// Whether every count of a settlement of `actions` fits in a `u32`.
pub open spec fn settles(
    actions: Seq<EffectAction>,
    source: RuntimeCardInstance,
    target: RuntimeCardInstance,
    turn: u32,
) -> bool {
    payment(actions, source, turn).ok && settlement(actions, source, target, turn).ok
}

/// What `execute` leaves: the result, the source and the target.
pub open spec fn executed(
    actions: Seq<EffectAction>,
    s0: RuntimeCardInstance,
    t0: RuntimeCardInstance,
    turn: u32,
    r: SettlementResult,
    s1: RuntimeCardInstance,
    t1: RuntimeCardInstance,
) -> bool {
    let p = payment(actions, s0, turn);
    let st = settlement(actions, s0, t0, turn);
    &&& s1 == RuntimeCardInstance { energy: p.energy, hp: p.hp, ..s0 }
    &&& t1.runtime_id == t0.runtime_id && t1.static_def_ref == t0.static_def_ref
    &&& t1.zone == t0.zone && t1.owner == t0.owner
    &&& t1.hp == st.hp && t1.armor == st.armor && t1.energy == st.energy
    &&& assoc_view(t1.marks@) == st.marks
    &&& r.paid_energy == p.paid_energy && r.paid_hp == p.paid_hp && r.paid_cards == p.paid_cards
    &&& r.damage_dealt == st.dealt && r.damage_negated == st.negated
    &&& r.hp_restored == st.hp_restored && r.energy_restored == st.energy_restored
    &&& r.cards_drawn == st.drawn && r.cards_discarded == st.discarded
    &&& log_views(r.log_entries@) == p.log + st.log
    &&& r.chain_actions@.len() == chains(actions).len()
    &&& forall|i: int| 0 <= i < r.chain_actions@.len() ==> same_action(chains(actions)[i], #[trigger] r.chain_actions@[i])
}

pub proof fn lemma_pay_ok_prefix(st: PayState, actions: Seq<EffectAction>, turn: u32, src: Seq<char>, i: int)
    requires
        0 <= i <= actions.len(),
        pay_fold(st, actions, turn, src).ok,
    ensures
        pay_fold(st, actions.subrange(0, i), turn, src).ok,
    decreases actions.len(),
{
    if i < actions.len() {
        assert(actions.drop_last().subrange(0, i) =~= actions.subrange(0, i));
        lemma_pay_ok_prefix(st, actions.drop_last(), turn, src, i);
    } else {
        assert(actions.subrange(0, i) =~= actions);
    }
}

pub proof fn lemma_settle_ok_prefix(
    st: SettleState,
    actions: Seq<EffectAction>,
    turn: u32,
    src: Seq<char>,
    tgt: Seq<char>,
    i: int,
)
    requires
        0 <= i <= actions.len(),
        settle_fold(st, actions, turn, src, tgt).ok,
    ensures
        settle_fold(st, actions.subrange(0, i), turn, src, tgt).ok,
    decreases actions.len(),
{
    if i < actions.len() {
        assert(actions.drop_last().subrange(0, i) =~= actions.subrange(0, i));
        lemma_settle_ok_prefix(st, actions.drop_last(), turn, src, tgt, i);
    } else {
        assert(actions.subrange(0, i) =~= actions);
    }
}

/// Payment cannot be made immune: an immunity anywhere among the actions
/// leaves what the source pays, and its log, as they were.
pub proof fn lemma_payment_ignores_immunity(actions: Seq<EffectAction>, i: int, source: RuntimeCardInstance, turn: u32)
    requires
        0 <= i <= actions.len(),
    ensures
        payment(actions.insert(i, EffectAction::ImmuneDamage), source, turn) == payment(actions, source, turn),
{
    lemma_pay_skips(pay_start(source), actions, i, EffectAction::ImmuneDamage, turn, source.runtime_id@);
}

/// An action that is no cost leaves the pay phase as it was, wherever it stands.
pub proof fn lemma_pay_skips(st: PayState, actions: Seq<EffectAction>, i: int, a: EffectAction, turn: u32, src: Seq<char>)
    requires
        0 <= i <= actions.len(),
        !(a is PayCost),
    ensures
        pay_fold(st, actions.insert(i, a), turn, src) == pay_fold(st, actions, turn, src),
    decreases actions.len(),
{
    let ins = actions.insert(i, a);
    if i == actions.len() {
        assert(ins.drop_last() =~= actions);
    } else {
        assert(ins.drop_last() =~= actions.drop_last().insert(i, a));
        assert(ins.last() == actions.last());
        lemma_pay_skips(st, actions.drop_last(), i, a, turn, src);
    }
}

/// An immunity cancels the next damage and no more: the target keeps its
/// life and armor, the damage counts as negated, and the immunity is used up.
pub proof fn lemma_immunity_cancels_next_damage(
    st: SettleState,
    amount: u32,
    t: DamageType,
    turn: u32,
    src: Seq<char>,
    tgt: Seq<char>,
)
    ensures
        ({
            let after = settle_fold(
                st,
                seq![EffectAction::ImmuneDamage, EffectAction::DealDamage { amount, damage_type: t }],
                turn,
                src,
                tgt,
            );
            &&& after.hp == st.hp
            &&& after.armor == st.armor
            &&& after.dealt == st.dealt
            &&& after.negated == 1 + amount
            &&& !after.immune
        }),
{
    let acts = seq![EffectAction::ImmuneDamage, EffectAction::DealDamage { amount, damage_type: t }];
    assert(acts.drop_last() =~= seq![EffectAction::ImmuneDamage]);
    assert(seq![EffectAction::ImmuneDamage].drop_last() =~= Seq::<EffectAction>::empty());
    let one = seq![EffectAction::ImmuneDamage];
    assert(settle_fold(st, one.drop_last(), turn, src, tgt) == st);
    let mid = settle_fold(st, one, turn, src, tgt);
    assert(mid == settle_step(st, EffectAction::ImmuneDamage, turn, src, tgt));
    assert(mid.immune && mid.negated == 1 && mid.hp == st.hp && mid.armor == st.armor);
    assert(settle_fold(st, acts, turn, src, tgt) == settle_step(
        mid,
        EffectAction::DealDamage { amount, damage_type: t },
        turn,
        src,
        tgt,
    ));
}

/// Removing armor, taking energy and removing marks are no damage: a
/// pending immunity neither stops them nor is used up by them.
pub proof fn lemma_immunity_spares_non_damage(
    st: SettleState,
    a: EffectAction,
    turn: u32,
    src: Seq<char>,
    tgt: Seq<char>,
)
    requires
        st.immune,
        a is RemoveArmor || a is DeductEnergy || a is RemoveMark,
    ensures
        ({
            let after = settle_step(st, a, turn, src, tgt);
            &&& after.immune
            &&& a matches EffectAction::RemoveArmor { amount } ==> after.armor == sat_sub(st.armor, amount)
            &&& a matches EffectAction::DeductEnergy { amount } ==> after.energy == sat_sub(st.energy, amount)
            &&& after.negated == st.negated
        }),
{
}

// ---------------------------------------------------------------------------
// Execution
// ---------------------------------------------------------------------------

fn num_string(pre: &str, n: u32, post: &str) -> (r: String)
    ensures
        r@ == num_text(pre@, n as int, post@),
{
    let mut s = owned(pre);
    append_int(&mut s, n as i64);
    append_str(&mut s, post);
    s
}

fn line(turn: u32, action: &str, actor: Option<String>, target: Option<String>, result: String) -> (r: LogEntry)
    ensures
        r@ == log_line(turn, action@, crate::dz::ports::opt_view(actor), crate::dz::ports::opt_view(target), result@),
{
    LogEntry { turn, action: owned(action), actor, target, result }
}

fn push_log(v: &mut Vec<LogEntry>, e: LogEntry)
    ensures
        log_views(final(v)@) == log_views(old(v)@).push(e@),
{
    let ghost before = v@;
    v.push(e);
    assert(log_views(v@) =~= log_views(before).push(e@));
}

fn damage_type_name(dt: DamageType) -> (r: &'static str)
    ensures
        r@ == damage_name(dt),
{
    match dt {
        DamageType::Physical => "物理",
        DamageType::Spell => "法术",
        DamageType::TrueDamage => "真实",
    }
}

/// What a damage did: the part dealt and the part no armor or life took.
#[derive(Debug, Clone, Copy)]
struct DamageApplied {
    dealt: u32,
    negated: u32,
}

/// EffectEngine settles actions.
pub struct EffectEngine;

impl EffectEngine {
    /// Takes a damage off armor first (true damage skips armor), then life.
    fn apply_damage(target: &mut RuntimeCardInstance, amount: u32, dmg_type: DamageType) -> (r: DamageApplied)
        ensures
            r.dealt == absorbed(old(target).armor, amount, dmg_type) + hp_lost(old(target).hp, old(target).armor, amount, dmg_type),
            r.negated == amount - r.dealt,
            *final(target) == (RuntimeCardInstance {
                armor: (old(target).armor - absorbed(old(target).armor, amount, dmg_type)) as u32,
                hp: (old(target).hp - hp_lost(old(target).hp, old(target).armor, amount, dmg_type)) as u32,
                ..*old(target)
            }),
    {
        let mut remaining = amount;
        if dmg_type != DamageType::TrueDamage {
            let absorbed = if target.armor <= remaining { target.armor } else { remaining };
            target.armor = target.armor - absorbed;
            remaining = remaining - absorbed;
        }
        let hp_loss = if target.hp <= remaining { target.hp } else { remaining };
        target.hp = target.hp - hp_loss;
        remaining = remaining - hp_loss;
        DamageApplied { dealt: amount - remaining, negated: remaining }
    }

    /// Settles `actions`: every cost first (never refunded), then every
    /// effect in order, an immunity cancelling the next damage, then the
    /// chained actions are collected.
    #[verifier::rlimit(40)]
    pub fn execute(
        actions: &[EffectAction],
        source: &mut RuntimeCardInstance,
        target: &mut RuntimeCardInstance,
        turn: u32,
    ) -> (r: SettlementResult)
        requires
            settles(actions@, *old(source), *old(target), turn),
        ensures
            executed(actions@, *old(source), *old(target), turn, r, *final(source), *final(target)),
    {
        let mut result = SettlementResult::new();
        let ghost src = source.runtime_id@;
        let ghost tgt = target.runtime_id@;
        let ghost s0 = *source;
        let ghost t0 = *target;
        let src_id = copy_string(&source.runtime_id.0);
        let tgt_id = copy_string(&target.runtime_id.0);

        // Pay.
        let mut i: usize = 0;
        while i < actions.len()
            invariant
                i <= actions@.len(),
                src == s0.runtime_id@,
                src_id@ == src,
                pay_fold(pay_start(s0), actions@, turn, src).ok,
                ({
                    let p = pay_fold(pay_start(s0), actions@.subrange(0, i as int), turn, src);
                    &&& *source == RuntimeCardInstance { energy: p.energy, hp: p.hp, ..s0 }
                    &&& result.paid_energy == p.paid_energy
                    &&& result.paid_hp == p.paid_hp
                    &&& result.paid_cards == p.paid_cards
                    &&& log_views(result.log_entries@) == p.log
                }),
                result.damage_dealt == 0 && result.damage_negated == 0,
                result.hp_restored == 0 && result.energy_restored == 0,
                result.cards_drawn == 0 && result.cards_discarded == 0,
                result.chain_actions@.len() == 0,
            decreases actions@.len() - i,
        {
            proof {
                lemma_pay_ok_prefix(pay_start(s0), actions@, turn, src, i + 1);
                assert(actions@.subrange(0, i + 1).drop_last() =~= actions@.subrange(0, i as int));
            }
            let ghost log0 = log_views(result.log_entries@);
            match &actions[i] {
                EffectAction::PayCost { energy, hp, hand_cards, .. } => {
                    result.paid_energy = result.paid_energy + *energy;
                    result.paid_hp = result.paid_hp + *hp;
                    result.paid_cards = result.paid_cards + *hand_cards;
                    source.energy = if source.energy >= *energy { source.energy - *energy } else { 0 };
                    source.hp = if source.hp >= *hp { source.hp - *hp } else { 0 };
                    if *energy > 0 {
                        let e = line(turn, "支付", Some(copy_string(&src_id)), None, num_string("消耗 ", *energy, " 点技力"));
                        push_log(&mut result.log_entries, e);
                    }
                    let ghost log1 = log_views(result.log_entries@);
                    if *hp > 0 {
                        let e = line(turn, "支付", Some(copy_string(&src_id)), None, num_string("消耗 ", *hp, " 点生命"));
                        push_log(&mut result.log_entries, e);
                    }
                    proof {
                        let l1 = if *energy > 0 {
                            seq![log_line(turn, "支付"@, Some(src), None, num_text("消耗 "@, *energy as int, " 点技力"@))]
                        } else {
                            Seq::<LogView>::empty()
                        };
                        let l2 = if *hp > 0 {
                            seq![log_line(turn, "支付"@, Some(src), None, num_text("消耗 "@, *hp as int, " 点生命"@))]
                        } else {
                            Seq::<LogView>::empty()
                        };
                        assert(log1 =~= log0 + l1);
                        assert(log_views(result.log_entries@) =~= log0 + l1 + l2);
                    }
                },
                _ => {},
            }
            i = i + 1;
        }
        assert(actions@.subrange(0, actions@.len() as int) =~= actions@);
        let ghost pay_log = log_views(result.log_entries@);

        // Settle.
        let mut immune = false;
        let mut j: usize = 0;
        while j < actions.len()
            invariant
                j <= actions@.len(),
                tgt == t0.runtime_id@,
                src_id@ == src,
                tgt_id@ == tgt,
                settle_fold(settle_start(t0), actions@, turn, src, tgt).ok,
                ({
                    let st = settle_fold(settle_start(t0), actions@.subrange(0, j as int), turn, src, tgt);
                    &&& target.runtime_id == t0.runtime_id && target.static_def_ref == t0.static_def_ref
                    &&& target.zone == t0.zone && target.owner == t0.owner
                    &&& target.hp == st.hp && target.armor == st.armor && target.energy == st.energy
                    &&& assoc_view(target.marks@) == st.marks
                    &&& result.damage_dealt == st.dealt && result.damage_negated == st.negated
                    &&& result.hp_restored == st.hp_restored && result.energy_restored == st.energy_restored
                    &&& result.cards_drawn == st.drawn && result.cards_discarded == st.discarded
                    &&& log_views(result.log_entries@) == pay_log + st.log
                    &&& immune == st.immune
                }),
                ({
                    let p = pay_fold(pay_start(s0), actions@, turn, src);
                    &&& *source == RuntimeCardInstance { energy: p.energy, hp: p.hp, ..s0 }
                    &&& result.paid_energy == p.paid_energy
                    &&& result.paid_hp == p.paid_hp
                    &&& result.paid_cards == p.paid_cards
                    &&& pay_log == p.log
                }),
                src == s0.runtime_id@,
                result.chain_actions@.len() == 0,
            decreases actions@.len() - j,
        {
            proof {
                lemma_settle_ok_prefix(settle_start(t0), actions@, turn, src, tgt, j + 1);
                assert(actions@.subrange(0, j + 1).drop_last() =~= actions@.subrange(0, j as int));
            }
            let ghost log0 = log_views(result.log_entries@);
            match &actions[j] {
                EffectAction::PayCost { .. } => {},
                EffectAction::ImmuneDamage => {
                    immune = true;
                    result.damage_negated = 1;
                },
                EffectAction::DealDamage { amount, damage_type } => {
                    if immune {
                        result.damage_negated = result.damage_negated + *amount;
                        let e = line(
                            turn,
                            "伤害免疫",
                            Some(copy_string(&src_id)),
                            Some(copy_string(&tgt_id)),
                            num_string("", *amount, " 点伤害被免疫"),
                        );
                        push_log(&mut result.log_entries, e);
                        immune = false;
                    } else {
                        let eff = Self::apply_damage(target, *amount, *damage_type);
                        result.damage_dealt = result.damage_dealt + eff.dealt;
                        result.damage_negated = result.damage_negated + eff.negated;
                        let mut text = num_string("", eff.dealt, " 点伤害 (");
                        append_str(&mut text, damage_type_name(*damage_type));
                        let tail = num_string("), ", eff.negated, " 被免疫");
                        append_str(&mut text, tail.as_str());
                        let e = line(turn, "伤害", Some(copy_string(&src_id)), Some(copy_string(&tgt_id)), text);
                        push_log(&mut result.log_entries, e);
                    }
                },
                EffectAction::RestoreHp { amount } => {
                    target.hp = if target.hp as u64 + *amount as u64 <= u32::MAX as u64 { target.hp + *amount } else { u32::MAX };
                    result.hp_restored = result.hp_restored + *amount;
                    let e = line(turn, "恢复", Some(copy_string(&src_id)), Some(copy_string(&tgt_id)), num_string("恢复 ", *amount, " 点生命"));
                    push_log(&mut result.log_entries, e);
                },
                EffectAction::RestoreEnergy { amount } => {
                    target.energy = if target.energy as u64 + *amount as u64 <= u32::MAX as u64 { target.energy + *amount } else { u32::MAX };
                    result.energy_restored = result.energy_restored + *amount;
                    let e = line(turn, "恢复", Some(copy_string(&src_id)), Some(copy_string(&tgt_id)), num_string("恢复 ", *amount, " 点技力"));
                    push_log(&mut result.log_entries, e);
                },
                EffectAction::GainArmor { amount } => {
                    target.armor = if target.armor as u64 + *amount as u64 <= u32::MAX as u64 { target.armor + *amount } else { u32::MAX };
                    let e = line(turn, "获得护甲", Some(copy_string(&tgt_id)), None, num_string("获得 ", *amount, " 点护甲"));
                    push_log(&mut result.log_entries, e);
                },
                EffectAction::RemoveArmor { amount } => {
                    target.armor = if target.armor >= *amount { target.armor - *amount } else { 0 };
                    let e = line(turn, "移除护甲", Some(copy_string(&src_id)), Some(copy_string(&tgt_id)), num_string("移除 ", *amount, " 点护甲"));
                    push_log(&mut result.log_entries, e);
                },
                EffectAction::DeductEnergy { amount } => {
                    target.energy = if target.energy >= *amount { target.energy - *amount } else { 0 };
                    let e = line(turn, "扣除技力", Some(copy_string(&src_id)), Some(copy_string(&tgt_id)), num_string("扣除 ", *amount, " 点技力"));
                    push_log(&mut result.log_entries, e);
                },
                EffectAction::RemoveMark { mark_id, count } => {
                    let cur = match assoc_get(&target.marks, &mark_id.0) {
                        Some(c) => c,
                        None => 0,
                    };
                    let removed = if cur <= *count { cur } else { *count };
                    assoc_set(&mut target.marks, &mark_id.0, cur - removed);
                    let mut text = num_string("移除 ", removed, " 个「");
                    append_str(&mut text, mark_id.0.as_str());
                    append_str(&mut text, "」");
                    let e = line(turn, "移除标记", Some(copy_string(&src_id)), Some(copy_string(&tgt_id)), text);
                    push_log(&mut result.log_entries, e);
                },
                EffectAction::GainMark { mark_id, count } => {
                    let cur = match assoc_get(&target.marks, &mark_id.0) {
                        Some(c) => c,
                        None => 0,
                    };
                    assoc_set(&mut target.marks, &mark_id.0, cur + *count);
                    let mut text = num_string("获得 ", *count, " 个「");
                    append_str(&mut text, mark_id.0.as_str());
                    append_str(&mut text, "」");
                    let e = line(turn, "获得标记", Some(copy_string(&tgt_id)), None, text);
                    push_log(&mut result.log_entries, e);
                },
                EffectAction::DrawCards { count } => {
                    result.cards_drawn = result.cards_drawn + *count;
                    let e = line(turn, "抽牌", Some(copy_string(&src_id)), None, num_string("抽取 ", *count, " 张牌"));
                    push_log(&mut result.log_entries, e);
                },
                EffectAction::DiscardCards { count } => {
                    result.cards_discarded = result.cards_discarded + *count;
                    let e = line(turn, "弃牌", Some(copy_string(&src_id)), None, num_string("弃置 ", *count, " 张牌"));
                    push_log(&mut result.log_entries, e);
                },
                EffectAction::Chain { .. } => {},
            }
            proof {
                let st = settle_fold(settle_start(t0), actions@.subrange(0, j as int), turn, src, tgt);
                let st2 = settle_step(st, actions@[j as int], turn, src, tgt);
                assert(log_views(result.log_entries@) =~= pay_log + st2.log);
            }
            j = j + 1;
        }

        // Chain.
        let mut chained: Vec<EffectAction> = Vec::new();
        let mut k: usize = 0;
        while k < actions.len()
            invariant
                k <= actions@.len(),
                chained@.len() == chains(actions@.subrange(0, k as int)).len(),
                forall|q: int|
                    0 <= q < chained@.len() ==> same_action(
                        chains(actions@.subrange(0, k as int))[q],
                        #[trigger] chained@[q],
                    ),
            decreases actions@.len() - k,
        {
            assert(actions@.subrange(0, k + 1).drop_last() =~= actions@.subrange(0, k as int));
            if let EffectAction::Chain { .. } = &actions[k] {
                let c = actions[k].copy();
                chained.push(c);
            }
            k = k + 1;
        }
        result.chain_actions = chained;
        assert(actions@.subrange(0, actions@.len() as int) =~= actions@);
        result
    }
}

} // verus!
