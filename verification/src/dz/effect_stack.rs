//! The effect stack: nested effects settle last in, first out, and a
//! resolution log records each push, settlement and completion. The effect
//! bus hands an event to every listener and gathers the actions they answer.
use vstd::prelude::*;
use crate::dz::effect_engine::{
    chains, executed, pay_begin, pay_fold, settle_begin, settle_fold, EffectAction, EffectEngine, PayState,
    SettleState, SettlementResult,
};
use crate::dz::ports::{RuntimeCardId, RuntimeCardInstance};
use crate::text::{append_int, append_str, dec, owned};

verus! {

/// One pending effect.
#[derive(Debug)]
pub struct StackEntry {
    pub source_id: RuntimeCardId,
    pub target_id: RuntimeCardId,
    pub actions: Vec<EffectAction>,
    pub trigger_text: String,
    pub depth: u32,
}

impl StackEntry {
    pub fn new(
        source: &RuntimeCardInstance,
        target: &RuntimeCardInstance,
        actions: Vec<EffectAction>,
        trigger: &str,
        depth: u32,
    ) -> (r: StackEntry)
        ensures
            r.source_id@ == source.runtime_id@,
            r.target_id@ == target.runtime_id@,
            r.actions == actions,
            r.trigger_text@ == trigger@,
            r.depth == depth,
    {
        StackEntry {
            source_id: source.runtime_id.copy(),
            target_id: target.runtime_id.copy(),
            actions,
            trigger_text: owned(trigger),
            depth,
        }
    }
}

/// Source and target values that a settlement reads and writes.
pub struct Sides {
    pub s_energy: u32,
    pub s_hp: u32,
    pub t_hp: u32,
    pub t_armor: u32,
    pub t_energy: u32,
    pub t_marks: Map<Seq<char>, u32>,
}

pub open spec fn sides_of(s: RuntimeCardInstance, t: RuntimeCardInstance) -> Sides {
    Sides {
        s_energy: s.energy,
        s_hp: s.hp,
        t_hp: t.hp,
        t_armor: t.armor,
        t_energy: t.energy,
        t_marks: crate::assoc::assoc_view(t.marks@),
    }
}

pub open spec fn pay_of(sd: Sides, actions: Seq<EffectAction>, turn: u32, src: Seq<char>) -> PayState {
    pay_fold(pay_begin(sd.s_energy, sd.s_hp), actions, turn, src)
}

pub open spec fn settle_of(sd: Sides, actions: Seq<EffectAction>, turn: u32, src: Seq<char>, tgt: Seq<char>) -> SettleState {
    settle_fold(settle_begin(sd.t_hp, sd.t_armor, sd.t_energy, sd.t_marks), actions, turn, src, tgt)
}

/// The sides once `actions` are settled.
pub open spec fn after(sd: Sides, actions: Seq<EffectAction>, turn: u32, src: Seq<char>, tgt: Seq<char>) -> Sides {
    let p = pay_of(sd, actions, turn, src);
    let st = settle_of(sd, actions, turn, src, tgt);
    Sides { s_energy: p.energy, s_hp: p.hp, t_hp: st.hp, t_armor: st.armor, t_energy: st.energy, t_marks: st.marks }
}

/// Whether an entry's actions settle with every count in range, its
/// restored total included.
pub open spec fn entry_ok(sd: Sides, actions: Seq<EffectAction>, turn: u32, src: Seq<char>, tgt: Seq<char>) -> bool {
    let st = settle_of(sd, actions, turn, src, tgt);
    pay_of(sd, actions, turn, src).ok && st.ok && st.hp_restored + st.energy_restored <= u32::MAX
}

/// "[<tag>深度 d] source → target：trigger".
pub open spec fn push_line(tag: Seq<char>, d: u32, src: Seq<char>, tgt: Seq<char>, trigger: Seq<char>) -> Seq<char> {
    tag + dec(d as int) + "] "@ + src + " → "@ + tgt + "："@ + trigger
}

/// The two log lines of settling entry `e` on `sd`.
pub open spec fn resolve_lines(e: StackEntry, sd: Sides, turn: u32, src: Seq<char>, tgt: Seq<char>) -> Seq<Seq<char>> {
    let st = settle_of(sd, e.actions@, turn, src, tgt);
    seq![
        push_line("[结算 深度 "@, e.depth, e.source_id@, e.target_id@, e.trigger_text@),
        "[完成 深度 "@ + dec(e.depth as int) + "] 伤害:"@ + dec(st.dealt) + ", 恢复:"@ + dec(
            st.hp_restored + st.energy_restored,
        ) + ", 连锁:"@ + dec(chains(e.actions@).len() as int),
    ]
}

/// Settling `entries` from the top down: the final sides, the log lines
/// and whether every settlement stays in range.
pub open spec fn resolve_fold(entries: Seq<StackEntry>, sd: Sides, turn: u32, src: Seq<char>, tgt: Seq<char>) -> (
    Sides,
    Seq<Seq<char>>,
    bool,
)
    decreases entries.len(),
{
    if entries.len() == 0 {
        (sd, Seq::empty(), true)
    } else {
        let e = entries.last();
        let rest = resolve_fold(entries.drop_last(), after(sd, e.actions@, turn, src, tgt), turn, src, tgt);
        (rest.0, resolve_lines(e, sd, turn, src, tgt) + rest.1, entry_ok(sd, e.actions@, turn, src, tgt) && rest.2)
    }
}

pub proof fn lemma_executed_sides(
    actions: Seq<EffectAction>,
    s0: RuntimeCardInstance,
    t0: RuntimeCardInstance,
    turn: u32,
    r: SettlementResult,
    s1: RuntimeCardInstance,
    t1: RuntimeCardInstance,
)
    requires
        executed(actions, s0, t0, turn, r, s1, t1),
    ensures
        sides_of(s1, t1) == after(sides_of(s0, t0), actions, turn, s0.runtime_id@, t0.runtime_id@),
        s1.runtime_id == s0.runtime_id,
        t1.runtime_id == t0.runtime_id,
{
}

/// Pending effects, settled last in first out.
pub struct EffectStack {
    stack: Vec<StackEntry>,
    resolution_log: Vec<String>,
    max_depth: u32,
}

pub open spec fn texts(v: Seq<String>) -> Seq<Seq<char>> {
    v.map_values(|s: String| s@)
}

fn push_text(v: &mut Vec<String>, s: String)
    ensures
        texts(final(v)@) == texts(old(v)@).push(s@),
{
    let ghost before = v@;
    v.push(s);
    assert(texts(v@) =~= texts(before).push(s@));
}

impl EffectStack {
    /// The pending entries, bottom first.
    pub closed spec fn entries(&self) -> Seq<StackEntry> {
        self.stack@
    }

    /// The resolution log.
    pub closed spec fn log_lines(&self) -> Seq<Seq<char>> {
        texts(self.resolution_log@)
    }

    /// The greatest depth any push reached.
    pub closed spec fn depth_reached(&self) -> u32 {
        self.max_depth
    }

    pub fn new() -> (r: EffectStack)
        ensures
            r.entries().len() == 0,
            r.log_lines().len() == 0,
            r.depth_reached() == 0,
    {
        EffectStack { stack: Vec::new(), resolution_log: Vec::new(), max_depth: 0 }
    }

    /// Pushes an effect on top, at depth one more than the entries below it.
    pub fn push(
        &mut self,
        source: &RuntimeCardInstance,
        target: &RuntimeCardInstance,
        actions: Vec<EffectAction>,
        trigger: &str,
    )
        requires
            old(self).entries().len() < u32::MAX,
        ensures
            ({
                let d = (old(self).entries().len() + 1) as u32;
                &&& final(self).entries().len() == old(self).entries().len() + 1
                &&& final(self).entries().drop_last() == old(self).entries()
                &&& final(self).entries().last().source_id@ == source.runtime_id@
                &&& final(self).entries().last().target_id@ == target.runtime_id@
                &&& final(self).entries().last().actions == actions
                &&& final(self).entries().last().trigger_text@ == trigger@
                &&& final(self).entries().last().depth == d
                &&& final(self).depth_reached() == (if old(self).depth_reached() >= d {
                    old(self).depth_reached()
                } else {
                    d
                })
                &&& final(self).log_lines() == old(self).log_lines().push(
                    push_line("[深度 "@, d, source.runtime_id@, target.runtime_id@, trigger@),
                )
            }),
    {
        let depth = self.stack.len() as u32 + 1;
        if self.max_depth < depth {
            self.max_depth = depth;
        }
        let entry = StackEntry::new(source, target, actions, trigger, depth);
        let ghost before = self.stack@;
        self.stack.push(entry);
        assert(self.stack@.drop_last() =~= before);
        let text = Self::entry_line("[深度 ", depth, &source.runtime_id.0, &target.runtime_id.0, trigger);
        push_text(&mut self.resolution_log, text);
    }

    fn entry_line(tag: &str, d: u32, src: &String, tgt: &String, trigger: &str) -> (r: String)
        ensures
            r@ == push_line(tag@, d, src@, tgt@, trigger@),
    {
        let mut s = owned(tag);
        append_int(&mut s, d as i64);
        append_str(&mut s, "] ");
        append_str(&mut s, src.as_str());
        append_str(&mut s, " → ");
        append_str(&mut s, tgt.as_str());
        append_str(&mut s, "：");
        append_str(&mut s, trigger);
        s
    }

    /// Settles the top effect; `None` when the stack is empty.
    pub fn resolve_top(
        &mut self,
        source: &mut RuntimeCardInstance,
        target: &mut RuntimeCardInstance,
        turn: u32,
    ) -> (r: Option<SettlementResult>)
        requires
            old(self).entries().len() > 0 ==> entry_ok(
                sides_of(*old(source), *old(target)),
                old(self).entries().last().actions@,
                turn,
                old(source).runtime_id@,
                old(target).runtime_id@,
            ),
        ensures
            old(self).entries().len() == 0 ==> r is None && *final(self) == *old(self) && *final(source)
                == *old(source) && *final(target) == *old(target),
            old(self).entries().len() > 0 ==> {
                let e = old(self).entries().last();
                &&& r matches Some(res) && executed(
                    e.actions@,
                    *old(source),
                    *old(target),
                    turn,
                    res,
                    *final(source),
                    *final(target),
                )
                &&& final(self).entries() == old(self).entries().drop_last()
                &&& final(self).depth_reached() == old(self).depth_reached()
                &&& final(self).log_lines() == old(self).log_lines() + resolve_lines(
                    e,
                    sides_of(*old(source), *old(target)),
                    turn,
                    old(source).runtime_id@,
                    old(target).runtime_id@,
                )
            },
    {
        if self.stack.len() == 0 {
            return None;
        }
        let entry = self.stack.pop().unwrap();
        let ghost sd = sides_of(*source, *target);
        let ghost log0 = texts(self.resolution_log@);
        let first = Self::entry_line("[结算 深度 ", entry.depth, &entry.source_id.0, &entry.target_id.0, entry.trigger_text.as_str());
        push_text(&mut self.resolution_log, first);
        let result = EffectEngine::execute(entry.actions.as_slice(), source, target, turn);
        let mut done = owned("[完成 深度 ");
        append_int(&mut done, entry.depth as i64);
        append_str(&mut done, "] 伤害:");
        append_int(&mut done, result.damage_dealt as i64);
        append_str(&mut done, ", 恢复:");
        append_int(&mut done, (result.hp_restored + result.energy_restored) as i64);
        append_str(&mut done, ", 连锁:");
        append_count(&mut done, result.chain_actions.len());
        push_text(&mut self.resolution_log, done);
        proof {
            let st = settle_of(sd, entry.actions@, turn, old(source).runtime_id@, old(target).runtime_id@);
            assert(result.damage_dealt == st.dealt);
            assert(result.hp_restored + result.energy_restored == st.hp_restored + st.energy_restored);
            assert(result.chain_actions@.len() == chains(entry.actions@).len());
        }
        assert(texts(self.resolution_log@) =~= log0 + resolve_lines(
            entry,
            sd,
            turn,
            old(source).runtime_id@,
            old(target).runtime_id@,
        ));
        Some(result)
    }

    /// Settles every pending effect, top first.
    pub fn resolve_all(
        &mut self,
        source: &mut RuntimeCardInstance,
        target: &mut RuntimeCardInstance,
        turn: u32,
    ) -> (r: Vec<SettlementResult>)
        requires
            resolve_fold(
                old(self).entries(),
                sides_of(*old(source), *old(target)),
                turn,
                old(source).runtime_id@,
                old(target).runtime_id@,
            ).2,
        ensures
            ({
                let f = resolve_fold(
                    old(self).entries(),
                    sides_of(*old(source), *old(target)),
                    turn,
                    old(source).runtime_id@,
                    old(target).runtime_id@,
                );
                &&& r@.len() == old(self).entries().len()
                &&& final(self).entries().len() == 0
                &&& final(self).depth_reached() == old(self).depth_reached()
                &&& final(self).log_lines() == old(self).log_lines() + f.1
                &&& sides_of(*final(source), *final(target)) == f.0
                &&& final(source).runtime_id@ == old(source).runtime_id@
                &&& final(target).runtime_id@ == old(target).runtime_id@
            }),
    {
        let ghost src = source.runtime_id@;
        let ghost tgt = target.runtime_id@;
        let ghost f = resolve_fold(self.entries(), sides_of(*source, *target), turn, src, tgt);
        let ghost n = self.entries().len();
        let ghost log0 = self.log_lines();
        let mut results: Vec<SettlementResult> = Vec::new();
        while self.size() > 0
            invariant
                source.runtime_id@ == src,
                target.runtime_id@ == tgt,
                results@.len() + self.entries().len() == n,
                self.depth_reached() == old(self).depth_reached(),
                ({
                    let g = resolve_fold(self.entries(), sides_of(*source, *target), turn, src, tgt);
                    &&& g.0 == f.0
                    &&& g.2
                    &&& log0 + f.1 == self.log_lines() + g.1
                }),
            decreases self.entries().len(),
        {
            let ghost before = self.log_lines();
            let ghost g = resolve_fold(self.entries(), sides_of(*source, *target), turn, src, tgt);
            let ghost e = self.entries().last();
            let ghost sd = sides_of(*source, *target);
            let ghost s0 = *source;
            let ghost t0 = *target;
            let res = self.resolve_top(source, target, turn);
            match res {
                Some(x) => {
                    proof {
                        lemma_executed_sides(e.actions@, s0, t0, turn, x, *source, *target);
                        assert(log0 + f.1 =~= self.log_lines() + resolve_fold(
                            self.entries(),
                            sides_of(*source, *target),
                            turn,
                            src,
                            tgt,
                        ).1);
                    }
                    results.push(x);
                },
                None => {},
            }
        }
        assert(log0 + f.1 =~= self.log_lines());
        results
    }

    /// Number of pending effects.
    pub fn size(&self) -> (r: usize)
        ensures
            r == self.entries().len(),
    {
        self.stack.len()
    }

    pub fn is_empty(&self) -> (r: bool)
        ensures
            r == (self.entries().len() == 0),
    {
        self.stack.len() == 0
    }

    pub fn max_depth_reached(&self) -> (r: u32)
        ensures
            r == self.depth_reached(),
    {
        self.max_depth
    }

    pub fn log(&self) -> (r: &Vec<String>)
        ensures
            texts(r@) == self.log_lines(),
    {
        &self.resolution_log
    }

    /// Drops every pending effect and says so in the log.
    pub fn clear(&mut self)
        ensures
            final(self).entries().len() == 0,
            final(self).depth_reached() == old(self).depth_reached(),
            final(self).log_lines() == old(self).log_lines().push("[清空] 效果栈已强制清空"@),
    {
        self.stack = Vec::new();
        push_text(&mut self.resolution_log, owned("[清空] 效果栈已强制清空"));
    }

    /// The top entry, if any.
    pub fn peek(&self) -> (r: Option<&StackEntry>)
        ensures
            self.entries().len() == 0 ==> r is None,
            self.entries().len() > 0 ==> r == Some(&self.entries().last()),
    {
        if self.stack.len() == 0 {
            None
        } else {
            Some(&self.stack[self.stack.len() - 1])
        }
    }
}

fn append_count(s: &mut String, n: usize)
    ensures
        final(s)@ == old(s)@ + dec(n as int),
{
    let v = crate::text::wide_to_chars(n as u128);
    crate::text::append_chars(s, &v);
}

/// The actions of several answers, one after the other.
pub open spec fn concat(outs: Seq<Seq<EffectAction>>) -> Seq<EffectAction>
    decreases outs.len(),
{
    if outs.len() == 0 {
        Seq::empty()
    } else {
        concat(outs.drop_last()) + outs.last()
    }
}

/// Listeners that answer events with actions.
pub struct EffectBus<F> {
    listeners: Vec<F>,
}

impl<F: Fn(&str, &RuntimeCardInstance, &RuntimeCardInstance) -> Vec<EffectAction>> EffectBus<F> {
    /// The registered listeners, first registered first.
    pub closed spec fn listeners(&self) -> Seq<F> {
        self.listeners@
    }

    pub fn new() -> (r: EffectBus<F>)
        ensures
            r.listeners().len() == 0,
    {
        EffectBus { listeners: Vec::new() }
    }

    pub fn register(&mut self, listener: F)
        ensures
            final(self).listeners() == old(self).listeners().push(listener),
    {
        self.listeners.push(listener);
    }

    /// Asks every listener, in the order they registered, and joins their
    /// answers.
    pub fn trigger(&self, event: &str, source: &RuntimeCardInstance, target: &RuntimeCardInstance) -> (r: Vec<
        EffectAction,
    >)
        requires
            forall|i: int| 0 <= i < self.listeners().len() ==> call_requires(#[trigger] self.listeners()[i], (event, source, target)),
        ensures
            exists|answers: Seq<Vec<EffectAction>>|
                {
                    &&& answers.len() == self.listeners().len()
                    &&& forall|i: int|
                        0 <= i < answers.len() ==> call_ensures(#[trigger] self.listeners()[i], (event, source, target), answers[i])
                    &&& r@ == concat(answers.map_values(|v: Vec<EffectAction>| v@))
                },
    {
        let mut all: Vec<EffectAction> = Vec::new();
        let ghost mut answers: Seq<Vec<EffectAction>> = Seq::empty();
        let mut i: usize = 0;
        while i < self.listeners.len()
            invariant
                i <= self.listeners@.len(),
                forall|k: int| 0 <= k < self.listeners().len() ==> call_requires(#[trigger] self.listeners()[k], (event, source, target)),
                answers.len() == i,
                forall|k: int| 0 <= k < i ==> call_ensures(#[trigger] self.listeners()[k], (event, source, target), answers[k]),
                all@ == concat(answers.map_values(|v: Vec<EffectAction>| v@)),
            decreases self.listeners@.len() - i,
        {
            assert(call_requires(self.listeners()[i as int], (event, source, target)));
            let f = &self.listeners[i];
            let mut got = f(event, source, target);
            let ghost got0 = got;
            proof {
                let a0 = answers;
                answers = answers.push(got0);
                assert(answers.map_values(|v: Vec<EffectAction>| v@).drop_last() =~= a0.map_values(
                    |v: Vec<EffectAction>| v@,
                ));
                assert(call_ensures(self.listeners()[i as int], (event, source, target), answers[i as int]));
            }
            all.append(&mut got);
            i = i + 1;
        }
        all
    }
}

} // verus!
