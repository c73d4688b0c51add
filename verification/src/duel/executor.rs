//! Running a duel: the first and second player's turns, the settlement, the
//! effect stack (last in, first out) and the condition checks.
use vstd::prelude::*;
use crate::base::{DamageType, PlayerSide};
use crate::duel::effect::{
    digits_or, Effect, EffectKind, EffectType, TargetKind, TargetSelector, TriggerCondition, TriggerKind,
};
use crate::duel::effect_text::{debug_text, effect_debug_text};
use crate::duel::state::{
    outcome, turn_reset, DuelPhase, DuelResult, EffectLogEntry, hp_after_hit, is_seat, max_i, min_i, absorbed, DuelState, PlayerField,
};
use crate::text::{
    append_int, append_str, chars_of, contains_lit, dec, digits_of, ends_with_lit, eq_lit, has_prefix,
    has_sub, has_suffix, owned, parse_i32_chars, slice_vec, starts_with_lit, string_of,
};

verus! {

// ---------------------------------------------------------------------------
// Targets
// ---------------------------------------------------------------------------

/// The side an effect of `owner` lands on.
pub open spec fn target_side(t: TargetKind, owner: PlayerSide) -> PlayerSide {
    match t {
        TargetKind::Self_ => owner,
        TargetKind::Player(s) => s,
        _ => owner.spec_opponent(),
    }
}

pub fn resolve_target(target: &TargetSelector, owner: PlayerSide) -> (r: PlayerSide)
    ensures
        r == target_side(target@, owner),
{
    match target {
        TargetSelector::Self_ => owner,
        TargetSelector::Player(side) => *side,
        _ => owner.opponent(),
    }
}

// ---------------------------------------------------------------------------
// What an effect does to a field
// ---------------------------------------------------------------------------

/// Word for a damage type in log texts.
pub open spec fn damage_label(d: DamageType) -> Seq<char> {
    match d {
        DamageType::Physical => "物理"@,
        DamageType::Magical => "法术"@,
        DamageType::True => "真实"@,
        _ => "百分比"@,
    }
}

fn damage_label_exec(d: DamageType) -> (r: &'static str)
    ensures
        r@ == damage_label(d),
{
    match d {
        DamageType::Physical => "物理",
        DamageType::Magical => "法术",
        DamageType::True => "真实",
        _ => "百分比",
    }
}

/// A field after a hit of `amount` (nothing for a hit of 0 or less).
pub open spec fn hit(f: PlayerField, amount: i32) -> PlayerField {
    if amount <= 0 {
        f
    } else {
        PlayerField {
            armor: (f.armor - absorbed(f.armor as int, amount as int)) as i32,
            hp: hp_after_hit(f.hp as int, f.armor as int, amount as int) as i32,
            ..f
        }
    }
}

pub open spec fn hit_amount(amount: i32) -> int {
    if amount > 0 { amount as int } else { 0 }
}

pub open spec fn heal_amount(f: PlayerField, amount: i32) -> int {
    if amount > 0 { min_i(amount as int, f.max_hp - f.hp) } else { 0 }
}

pub open spec fn healed(f: PlayerField, amount: i32) -> PlayerField {
    if amount <= 0 {
        f
    } else {
        PlayerField {
            hp: (f.hp + heal_amount(f, amount)) as i32,
            healed_this_turn: (f.healed_this_turn + heal_amount(f, amount)) as i32,
            ..f
        }
    }
}

pub open spec fn energy_moved(f: PlayerField, delta: int) -> PlayerField {
    PlayerField { energy: max_i(0, min_i(f.energy + delta, f.max_energy as int)) as i32, ..f }
}

/// `g` is `f` with the mark `m` set to `v` layers.
pub open spec fn marks_set(f: PlayerField, g: PlayerField, m: Seq<char>, v: int) -> bool {
    &&& g == PlayerField { marks: g.marks, ..f }
    &&& g.marks_view() == f.marks_view().insert(m, v as i32)
}

/// `g` is `f` after spending `c` layers of `m`, which it holds at least that many of.
pub open spec fn marks_spent(f: PlayerField, g: PlayerField, m: Seq<char>, c: i32) -> bool {
    &&& g == PlayerField { marks: g.marks, ..f }
    &&& (f.marks_view()[m] - c <= 0 ==> g.marks_view() == f.marks_view().remove(m))
    &&& (f.marks_view()[m] - c > 0 ==> g.marks_view() == f.marks_view().insert(
        m,
        (f.marks_view()[m] - c) as i32,
    ))
}

/// The arithmetic of an effect on field `f` stays within `i32`.
pub open spec fn effect_fits(f: PlayerField, k: EffectKind) -> bool {
    match k {
        EffectKind::Heal { amount } => amount > 0 ==> {
            &&& i32::MIN <= f.max_hp - f.hp <= i32::MAX
            &&& i32::MIN <= f.healed_this_turn + heal_amount(f, amount) <= i32::MAX
        },
        EffectKind::GainArmor { amount } => i32::MIN <= f.armor + amount <= i32::MAX,
        EffectKind::RestoreEnergy { amount } => f.max_energy >= 0 && i32::MIN <= f.energy + amount
            <= i32::MAX,
        EffectKind::GainMark { mark_name, count, max } => {
            let cur = f.spec_mark_count(mark_name);
            match max {
                Some(m) => cur < m ==> {
                    &&& m - cur <= i32::MAX
                    &&& cur + min_i(count as int, m - cur) <= i32::MAX
                    &&& i32::MIN <= cur + min_i(count as int, m - cur)
                },
                None => i32::MIN <= cur + count <= i32::MAX,
            }
        },
        EffectKind::ConsumeMark { mark_name, count } => f.marks_view().dom().contains(mark_name)
            ==> i32::MIN <= f.marks_view()[mark_name] - count <= i32::MAX,
        EffectKind::Deduct { resource, amount } => resource == "技力"@ ==> {
            &&& amount > i32::MIN
            &&& f.max_energy >= 0
            &&& i32::MIN <= f.energy - amount <= i32::MAX
        },
        EffectKind::IncreaseStat { stat, amount, permanent } => {
            &&& (stat == "物理伤害"@ || stat == "伤害"@) ==> i32::MIN <= f.physical_attack + amount
                <= i32::MAX
            &&& stat == "法术伤害"@ ==> i32::MIN <= f.magic_attack + amount <= i32::MAX
            &&& stat == "技力上限"@ ==> i32::MIN <= f.max_energy + amount <= i32::MAX
        },
        EffectKind::DecreaseStat { stat, amount, permanent } => {
            &&& stat == "技力上限"@ ==> i32::MIN <= f.max_energy - amount <= i32::MAX
            &&& stat == "技力"@ ==> {
                &&& amount > i32::MIN
                &&& f.max_energy >= 0
                &&& i32::MIN <= f.energy - amount <= i32::MAX
            }
        },
        _ => true,
    }
}

/// Effect `k` from card `src` turns field `f` into `g`, with the text `msg`,
/// which goes to the log when `logged`. (`CounterDamage` acts on the other
/// field and is described by `apply_effect` itself.)
pub open spec fn field_effect(
    f: PlayerField,
    g: PlayerField,
    k: EffectKind,
    src: Seq<char>,
    msg: Seq<char>,
    logged: bool,
) -> bool {
    let name = f.name@;
    match k {
        EffectKind::DealDamage { amount, damage_type } => {
            &&& g == hit(f, amount)
            &&& msg == src + " 对 "@ + name + " 造成 "@ + dec(hit_amount(amount)) + " 点"@
                + damage_label(damage_type) + "伤害, 生命 "@ + dec(f.hp as int) + "→"@ + dec(
                g.hp as int,
            )
            &&& logged
        },
        EffectKind::Heal { amount } => {
            &&& g == healed(f, amount)
            &&& msg == name + " 恢复了 "@ + dec(heal_amount(f, amount)) + " 点生命, "@ + dec(
                f.hp as int,
            ) + "→"@ + dec(g.hp as int)
            &&& logged
        },
        EffectKind::GainArmor { amount } => {
            &&& g == PlayerField { armor: (f.armor + amount) as i32, ..f }
            &&& msg == name + " 获得了 "@ + dec(amount as int) + " 点护甲"@
            &&& logged
        },
        EffectKind::RestoreEnergy { amount } => {
            &&& g == energy_moved(f, amount as int)
            &&& msg == name + " 恢复了 "@ + dec(amount as int) + " 点技力, "@ + dec(f.energy as int)
                + "→"@ + dec(g.energy as int)
            &&& logged
        },
        EffectKind::GainMark { mark_name, count, max } => {
            let cur = f.spec_mark_count(mark_name);
            match max {
                Some(m) => if cur >= m {
                    &&& g == f
                    &&& msg == mark_name + " 标记已达上限("@ + dec(m as int) + "), 无法继续积累"@
                    &&& !logged
                } else {
                    let add = min_i(count as int, m - cur);
                    &&& marks_set(f, g, mark_name, cur + add)
                    &&& msg == name + " 获得了 "@ + dec(add) + " 层["@ + mark_name + "]标记 (上限"@
                        + dec(m as int) + ")"@
                    &&& !logged
                },
                None => {
                    &&& marks_set(f, g, mark_name, cur + count)
                    &&& msg == name + " 获得了 "@ + dec(count as int) + " 层["@ + mark_name + "]标记"@
                    &&& logged
                },
            }
        },
        EffectKind::ConsumeMark { mark_name, count } => {
            let ok = f.marks_view().dom().contains(mark_name) && f.marks_view()[mark_name] >= count;
            &&& logged
            &&& ok ==> marks_spent(f, g, mark_name, count) && msg == name + " 消耗了 "@ + dec(
                count as int,
            ) + " 层["@ + mark_name + "]标记"@
            &&& !ok ==> g == f && msg == name + " 没有足够的["@ + mark_name + "]标记("@ + dec(
                f.spec_mark_count(mark_name) as int,
            ) + "需要"@ + dec(count as int) + ")"@
        },
        EffectKind::Deduct { resource, amount } => {
            &&& logged
            &&& if resource == "技力"@ {
                g == energy_moved(f, -amount) && msg == name + " 失去了 "@ + dec(amount as int)
                    + " 点技力"@
            } else if resource == "生命"@ {
                g == hit(f, amount) && msg == name + " 失去了 "@ + dec(amount as int) + " 点生命"@
            } else {
                g == f && msg == name + " 被扣除了 "@ + dec(amount as int) + " 点"@ + resource
            }
        },
        EffectKind::IncreaseStat { stat, amount, permanent } => {
            &&& logged
            &&& g == if stat == "物理伤害"@ || stat == "伤害"@ {
                PlayerField { physical_attack: (f.physical_attack + amount) as i32, ..f }
            } else if stat == "法术伤害"@ {
                PlayerField { magic_attack: (f.magic_attack + amount) as i32, ..f }
            } else if stat == "技力上限"@ {
                PlayerField { max_energy: (f.max_energy + amount) as i32, ..f }
            } else {
                f
            }
            &&& msg == name + " "@ + (if permanent { "永久"@ } else { ""@ }) + "增加了 "@ + dec(
                amount as int,
            ) + " 点"@ + stat + (if permanent { ""@ } else { " (本回合)"@ })
        },
        EffectKind::DecreaseStat { stat, amount, permanent } => {
            &&& logged
            &&& g == if stat == "技力上限"@ {
                PlayerField { max_energy: max_i(f.max_energy - amount, 0) as i32, ..f }
            } else if stat == "技力"@ {
                energy_moved(f, -amount)
            } else {
                f
            }
            &&& msg == name + " 的"@ + stat + "降低了 "@ + dec(amount as int) + " 点"@
        },
        EffectKind::ForceEffect { description } => {
            &&& g == f
            &&& msg == src + " 触发了效果: "@ + description
            &&& logged
        },
        EffectKind::ExecuteTag { tag_name } => {
            &&& g == f
            &&& msg == src + " 执行了标签 ["@ + tag_name + "]"@
            &&& logged
        },
        EffectKind::Eliminate => {
            &&& g == PlayerField { hp: 0, ..f }
            &&& msg == name + " 被直接淘汰!"@
            &&& logged
        },
        EffectKind::SetNearDeath => {
            &&& g == PlayerField { hp: 1, ..f }
            &&& msg == name + " 进入濒死状态 (生命=1)"@
            &&& logged
        },
        _ => {
            &&& g == f
            &&& msg == src + " 触发效果: "@ + debug_text(k)
            &&& logged
        },
    }
}

fn apply_to_field(f: &mut PlayerField, k: &EffectType, src: &String) -> (r: (String, bool))
    requires
        effect_fits(*old(f), k@),
        !(k@ is CounterDamage),
    ensures
        field_effect(*old(f), *final(f), k@, src@, r.0@, r.1),
{
    let ghost f0 = *f;
    let mut m = String::new();
    match k {
        EffectType::DealDamage { amount, damage_type } => {
            let before = f.hp;
            let actual = f.take_damage(*amount, *damage_type);
            append_str(&mut m, src.as_str());
            append_str(&mut m, " 对 ");
            append_str(&mut m, f.name.as_str());
            append_str(&mut m, " 造成 ");
            append_int(&mut m, actual as i64);
            append_str(&mut m, " 点");
            append_str(&mut m, damage_label_exec(*damage_type));
            append_str(&mut m, "伤害, 生命 ");
            append_int(&mut m, before as i64);
            append_str(&mut m, "→");
            append_int(&mut m, f.hp as i64);
            (m, true)
        },
        EffectType::Heal { amount } => {
            let before = f.hp;
            let actual = f.heal(*amount);
            append_str(&mut m, f.name.as_str());
            append_str(&mut m, " 恢复了 ");
            append_int(&mut m, actual as i64);
            append_str(&mut m, " 点生命, ");
            append_int(&mut m, before as i64);
            append_str(&mut m, "→");
            append_int(&mut m, f.hp as i64);
            (m, true)
        },
        EffectType::GainArmor { amount } => {
            f.gain_armor(*amount);
            append_str(&mut m, f.name.as_str());
            append_str(&mut m, " 获得了 ");
            append_int(&mut m, *amount as i64);
            append_str(&mut m, " 点护甲");
            (m, true)
        },
        EffectType::RestoreEnergy { amount } => {
            let before = f.energy;
            f.modify_energy(*amount);
            append_str(&mut m, f.name.as_str());
            append_str(&mut m, " 恢复了 ");
            append_int(&mut m, *amount as i64);
            append_str(&mut m, " 点技力, ");
            append_int(&mut m, before as i64);
            append_str(&mut m, "→");
            append_int(&mut m, f.energy as i64);
            (m, true)
        },
        EffectType::GainMark { mark_name, count, max } => {
            match max {
                Some(max_val) => {
                    let current = f.mark_count(mark_name.as_str());
                    if current >= *max_val {
                        append_str(&mut m, mark_name.as_str());
                        append_str(&mut m, " 标记已达上限(");
                        append_int(&mut m, *max_val as i64);
                        append_str(&mut m, "), 无法继续积累");
                        return (m, false);
                    }
                    let room = *max_val - current;
                    let to_add = if *count < room { *count } else { room };
                    f.add_mark(mark_name.as_str(), to_add);
                    append_str(&mut m, f.name.as_str());
                    append_str(&mut m, " 获得了 ");
                    append_int(&mut m, to_add as i64);
                    append_str(&mut m, " 层[");
                    append_str(&mut m, mark_name.as_str());
                    append_str(&mut m, "]标记 (上限");
                    append_int(&mut m, *max_val as i64);
                    append_str(&mut m, ")");
                    (m, false)
                },
                None => {
                    f.add_mark(mark_name.as_str(), *count);
                    append_str(&mut m, f.name.as_str());
                    append_str(&mut m, " 获得了 ");
                    append_int(&mut m, *count as i64);
                    append_str(&mut m, " 层[");
                    append_str(&mut m, mark_name.as_str());
                    append_str(&mut m, "]标记");
                    (m, true)
                },
            }
        },
        EffectType::ConsumeMark { mark_name, count } => {
            let ok = f.consume_marks(mark_name.as_str(), *count);
            append_str(&mut m, f.name.as_str());
            if ok {
                append_str(&mut m, " 消耗了 ");
                append_int(&mut m, *count as i64);
                append_str(&mut m, " 层[");
                append_str(&mut m, mark_name.as_str());
                append_str(&mut m, "]标记");
            } else {
                let cur = f.mark_count(mark_name.as_str());
                append_str(&mut m, " 没有足够的[");
                append_str(&mut m, mark_name.as_str());
                append_str(&mut m, "]标记(");
                append_int(&mut m, cur as i64);
                append_str(&mut m, "需要");
                append_int(&mut m, *count as i64);
                append_str(&mut m, ")");
            }
            (m, true)
        },
        EffectType::Deduct { resource, amount } => {
            let r = resource.as_str();
            let rv = crate::text::chars_of(r);
            if crate::text::eq_lit(&rv, "技力") {
                f.modify_energy(-*amount);
                append_str(&mut m, f.name.as_str());
                append_str(&mut m, " 失去了 ");
                append_int(&mut m, *amount as i64);
                append_str(&mut m, " 点技力");
            } else if crate::text::eq_lit(&rv, "生命") {
                f.take_damage(*amount, DamageType::True);
                append_str(&mut m, f.name.as_str());
                append_str(&mut m, " 失去了 ");
                append_int(&mut m, *amount as i64);
                append_str(&mut m, " 点生命");
            } else {
                append_str(&mut m, f.name.as_str());
                append_str(&mut m, " 被扣除了 ");
                append_int(&mut m, *amount as i64);
                append_str(&mut m, " 点");
                append_str(&mut m, r);
            }
            (m, true)
        },
        EffectType::IncreaseStat { stat, amount, permanent } => {
            let sv = crate::text::chars_of(stat.as_str());
            if crate::text::eq_lit(&sv, "物理伤害") || crate::text::eq_lit(&sv, "伤害") {
                f.physical_attack = f.physical_attack + *amount;
            } else if crate::text::eq_lit(&sv, "法术伤害") {
                f.magic_attack = f.magic_attack + *amount;
            } else if crate::text::eq_lit(&sv, "技力上限") {
                f.max_energy = f.max_energy + *amount;
            }
            append_str(&mut m, f.name.as_str());
            append_str(&mut m, " ");
            append_str(&mut m, if *permanent { "永久" } else { "" });
            append_str(&mut m, "增加了 ");
            append_int(&mut m, *amount as i64);
            append_str(&mut m, " 点");
            append_str(&mut m, stat.as_str());
            append_str(&mut m, if *permanent { "" } else { " (本回合)" });
            (m, true)
        },
        EffectType::DecreaseStat { stat, amount, permanent: _ } => {
            let sv = crate::text::chars_of(stat.as_str());
            if crate::text::eq_lit(&sv, "技力上限") {
                let v = f.max_energy - *amount;
                f.max_energy = if v > 0 { v } else { 0 };
            } else if crate::text::eq_lit(&sv, "技力") {
                f.modify_energy(-*amount);
            }
            append_str(&mut m, f.name.as_str());
            append_str(&mut m, " 的");
            append_str(&mut m, stat.as_str());
            append_str(&mut m, "降低了 ");
            append_int(&mut m, *amount as i64);
            append_str(&mut m, " 点");
            (m, true)
        },
        EffectType::ForceEffect { description } => {
            append_str(&mut m, src.as_str());
            append_str(&mut m, " 触发了效果: ");
            append_str(&mut m, description.as_str());
            (m, true)
        },
        EffectType::ExecuteTag { tag_name } => {
            append_str(&mut m, src.as_str());
            append_str(&mut m, " 执行了标签 [");
            append_str(&mut m, tag_name.as_str());
            append_str(&mut m, "]");
            (m, true)
        },
        EffectType::Eliminate => {
            f.hp = 0;
            append_str(&mut m, f.name.as_str());
            append_str(&mut m, " 被直接淘汰!");
            (m, true)
        },
        EffectType::SetNearDeath => {
            f.hp = 1;
            append_str(&mut m, f.name.as_str());
            append_str(&mut m, " 进入濒死状态 (生命=1)");
            (m, true)
        },
        _ => {
            let d = effect_debug_text(k);
            append_str(&mut m, src.as_str());
            append_str(&mut m, " 触发效果: ");
            append_str(&mut m, d.as_str());
            (m, true)
        },
    }
}

/// Whether an effect kind writes its text to the log: all do but a capped
/// mark gain.
pub open spec fn effect_logged(k: EffectKind) -> bool {
    !(k matches EffectKind::GainMark { max: Some(_), .. })
}

/// The state `after` is `before` once `e`, played by `owner`, has been
/// applied, and `msg` is the text describing it.
pub open spec fn effect_applied(
    before: DuelState,
    after: DuelState,
    e: Effect,
    owner: PlayerSide,
    msg: Seq<char>,
) -> bool {
    let ts = target_side(e.target@, owner);
    let os = ts.spec_opponent();
    let k = e.effect_type@;
    &&& after == DuelState { fields: after.fields, effect_log: after.effect_log, ..before }
    &&& (match k {
        EffectKind::CounterDamage { amount } => {
            let g = hit(before.fld(os), amount);
            &&& after.fld(os) == g
            &&& after.fld(ts) == before.fld(ts)
            &&& msg == "反制: 对攻击者造成 "@ + dec(hit_amount(amount)) + " 点伤害, 生命 "@ + dec(
                before.fld(ts).hp as int,
            ) + "→"@ + dec(g.hp as int)
        },
        _ => {
            &&& field_effect(before.fld(ts), after.fld(ts), k, e.source_card@, msg, effect_logged(k))
            &&& after.fld(os) == before.fld(os)
        },
    })
    &&& if effect_logged(k) {
        &&& after.effect_log@.len() == before.effect_log@.len() + 1
        &&& after.effect_log@.drop_last() == before.effect_log@
        &&& crate::duel::state::log_line(
            after.effect_log@.last(),
            before.round,
            before.phase.spec_name(),
            e.source_card@,
            msg,
            owner.spec_name(),
        )
    } else {
        after.effect_log@ == before.effect_log@
    }
}

/// Applies one effect played by `owner` and returns the text describing what
/// happened; the text also goes to the state's log (but for a capped mark gain).
pub fn apply_effect(state: &mut DuelState, effect: &Effect, owner: PlayerSide) -> (r: Option<String>)
    requires
        is_seat(target_side(effect.target@, owner)),
        effect_fits(old(state).fld(target_side(effect.target@, owner)), effect.effect_type@),
    ensures
        r matches Some(m) && effect_applied(*old(state), *final(state), *effect, owner, m@),
{
    let ts = resolve_target(&effect.target, owner);
    let src = &effect.source_card;
    match &effect.effect_type {
        EffectType::CounterDamage { amount } => {
            let before = state.field(ts).hp;
            let os = ts.opponent();
            let f = state.field_mut(os);
            let actual = f.take_damage(*amount, DamageType::Physical);
            let after = f.hp;
            let mut m = String::new();
            append_str(&mut m, "反制: 对攻击者造成 ");
            append_int(&mut m, actual as i64);
            append_str(&mut m, " 点伤害, 生命 ");
            append_int(&mut m, before as i64);
            append_str(&mut m, "→");
            append_int(&mut m, after as i64);
            state.log_effect(src.as_str(), m.as_str(), owner);
            Some(m)
        },
        _ => {
            let f = state.field_mut(ts);
            let (m, logged) = apply_to_field(f, &effect.effect_type, src);
            if logged {
                state.log_effect(src.as_str(), m.as_str(), owner);
            }
            Some(m)
        },
    }
}

// ---------------------------------------------------------------------------
// Conditions
// ---------------------------------------------------------------------------

/// The value a threshold condition reads from field `f`.
pub open spec fn threshold_value(f: PlayerField, stat: Seq<char>) -> i32 {
    if stat == "技力"@ {
        f.energy
    } else if stat == "生命"@ {
        f.hp
    } else if stat == "护甲"@ {
        f.armor
    } else if has_prefix(stat, "「"@) && has_suffix(stat, "」"@) && stat.len() >= 2 {
        f.spec_mark_count(stat.subrange(1, stat.len() - 1))
    } else {
        f.spec_mark_count(stat)
    }
}

pub open spec fn compare(cur: i32, op: Seq<char>, v: i32) -> bool {
    if op == "≥"@ {
        cur >= v
    } else if op == "＜"@ {
        cur < v
    } else if op == "="@ {
        cur == v
    } else if op == ">"@ {
        cur > v
    } else {
        cur >= v
    }
}

pub open spec fn state_check(f: PlayerField, condition: Seq<char>) -> bool {
    if has_sub(condition, "有护甲"@) {
        f.armor > 0
    } else if has_sub(condition, "有技力"@) {
        f.energy > 0
    } else if has_sub(condition, "手牌为0"@) {
        f.hand_cards@.len() == 0
    } else if has_sub(condition, "手牌≤"@) {
        (f.hand_cards@.len() as i32) <= digits_or(condition, 3)
    } else if has_sub(condition, "生命＜"@) {
        f.hp < digits_or(condition, 2)
    } else {
        true
    }
}

/// Whether `cond` holds for `owner` in state `s`.
pub open spec fn condition_holds(s: DuelState, cond: TriggerKind, owner: PlayerSide) -> bool {
    let f = s.fld(owner);
    let o = s.fld(owner.spec_opponent());
    match cond {
        TriggerKind::Cost { resource, amount, extra } => if resource == "技力"@ {
            f.energy >= amount
        } else if resource == "生命"@ {
            f.hp > amount
        } else if resource == "手牌"@ {
            (f.hand_cards@.len() as i32) >= amount
        } else {
            true
        },
        TriggerKind::Threshold { stat, operator, value } => compare(
            threshold_value(f, stat),
            operator,
            value,
        ),
        TriggerKind::StateCheck { target, condition } => state_check(
            if target == "自身"@ { f } else { o },
            condition,
        ),
        TriggerKind::Cumulative { tracked_what, operator, value } => if tracked_what == "受伤"@ {
            o.damage_dealt_this_turn >= 1
        } else if tracked_what == "治疗"@ {
            f.healed_this_turn >= 1
        } else {
            true
        },
        _ => true,
    }
}

/// A threshold condition reads the stat it names from the owner's field:
/// 技力 its energy, 生命 its life, 护甲 its armor, 「m」 the layers of mark m;
/// and its operator compares as written (≥, ＜, =, >).
pub proof fn lemma_threshold_reads_owner(s: DuelState, owner: PlayerSide, op: Seq<char>, v: i32, m: Seq<char>)
    ensures
        condition_holds(s, TriggerKind::Threshold { stat: "技力"@, operator: op, value: v }, owner) == compare(
            s.fld(owner).energy,
            op,
            v,
        ),
        condition_holds(s, TriggerKind::Threshold { stat: "生命"@, operator: op, value: v }, owner) == compare(
            s.fld(owner).hp,
            op,
            v,
        ),
        condition_holds(s, TriggerKind::Threshold { stat: "护甲"@, operator: op, value: v }, owner) == compare(
            s.fld(owner).armor,
            op,
            v,
        ),
        condition_holds(s, TriggerKind::Threshold { stat: "「"@ + m + "」"@, operator: op, value: v }, owner)
            == compare(s.fld(owner).spec_mark_count(m), op, v),
        forall|c: i32| #[trigger] compare(c, "≥"@, v) == (c >= v),
        forall|c: i32| #[trigger] compare(c, "＜"@, v) == (c < v),
        forall|c: i32| #[trigger] compare(c, "="@, v) == (c == v),
        forall|c: i32| #[trigger] compare(c, ">"@, v) == (c > v),
{
    reveal_strlit("技力");
    reveal_strlit("生命");
    reveal_strlit("护甲");
    reveal_strlit("「");
    reveal_strlit("」");
    reveal_strlit("≥");
    reveal_strlit("＜");
    reveal_strlit("=");
    reveal_strlit(">");
    assert("生命"@[0] != "技力"@[0]);
    assert("护甲"@[0] != "技力"@[0] && "护甲"@[0] != "生命"@[0]);
    assert("＜"@[0] != "≥"@[0]);
    assert("="@[0] != "≥"@[0] && "="@[0] != "＜"@[0]);
    assert(">"@[0] != "≥"@[0] && ">"@[0] != "＜"@[0] && ">"@[0] != "="@[0]);
    let st = "「"@ + m + "」"@;
    assert(st[0] == '「');
    assert(st[0] != "技力"@[0] && st[0] != "生命"@[0] && st[0] != "护甲"@[0]);
    assert(st.subrange(0, 1) =~= "「"@);
    assert(has_prefix(st, "「"@));
    assert(st.subrange(st.len() - 1, st.len() as int) =~= "」"@);
    assert(has_suffix(st, "」"@));
    assert(st.subrange(1, st.len() - 1) =~= m);
}

/// A cost condition holds when the owner can pay: energy at least the
/// amount for 技力, more life than the amount for 生命. A state check reads
/// the owner's field when it names 自身 and the opponent's otherwise: 有护甲
/// asks for armor, 有技力 for energy, 手牌为0 for an empty hand.
pub proof fn lemma_condition_meanings(
    s: DuelState,
    owner: PlayerSide,
    a: i32,
    extra: Option<Seq<char>>,
    target: Seq<char>,
    c: Seq<char>,
)
    ensures
        condition_holds(s, TriggerKind::Cost { resource: "技力"@, amount: a, extra }, owner) == (s.fld(owner).energy
            >= a),
        condition_holds(s, TriggerKind::Cost { resource: "生命"@, amount: a, extra }, owner) == (s.fld(owner).hp > a),
        has_sub(c, "有护甲"@) ==> condition_holds(s, TriggerKind::StateCheck { target, condition: c }, owner) == (
        if target == "自身"@ {
            s.fld(owner).armor > 0
        } else {
            s.fld(owner.spec_opponent()).armor > 0
        }),
        !has_sub(c, "有护甲"@) && has_sub(c, "有技力"@) ==> condition_holds(
            s,
            TriggerKind::StateCheck { target, condition: c },
            owner,
        ) == (if target == "自身"@ {
            s.fld(owner).energy > 0
        } else {
            s.fld(owner.spec_opponent()).energy > 0
        }),
        !has_sub(c, "有护甲"@) && !has_sub(c, "有技力"@) && has_sub(c, "手牌为0"@) ==> condition_holds(
            s,
            TriggerKind::StateCheck { target, condition: c },
            owner,
        ) == (if target == "自身"@ {
            s.fld(owner).hand_cards@.len() == 0
        } else {
            s.fld(owner.spec_opponent()).hand_cards@.len() == 0
        }),
{
    reveal_strlit("技力");
    reveal_strlit("生命");
    assert("生命"@[0] != "技力"@[0]);
}

fn threshold_value_exec(f: &PlayerField, stat: &String) -> (r: i32)
    ensures
        r == threshold_value(*f, stat@),
{
    let sv = chars_of(stat.as_str());
    if eq_lit(&sv, "技力") {
        f.energy
    } else if eq_lit(&sv, "生命") {
        f.hp
    } else if eq_lit(&sv, "护甲") {
        f.armor
    } else if starts_with_lit(&sv, "「") && ends_with_lit(&sv, "」") && sv.len() >= 2 {
        let inner = slice_vec(&sv, 1, sv.len() - 1);
        let name = string_of(&inner);
        f.mark_count(name.as_str())
    } else {
        f.mark_count(stat.as_str())
    }
}

fn compare_exec(cur: i32, op: &String, v: i32) -> (r: bool)
    ensures
        r == compare(cur, op@, v),
{
    let ov = chars_of(op.as_str());
    if eq_lit(&ov, "≥") {
        cur >= v
    } else if eq_lit(&ov, "＜") {
        cur < v
    } else if eq_lit(&ov, "=") {
        cur == v
    } else if eq_lit(&ov, ">") {
        cur > v
    } else {
        cur >= v
    }
}

fn digits_or_exec(s: &Vec<char>, d: i32) -> (r: i32)
    ensures
        r == digits_or(s@, d),
{
    let ds = digits_of(s);
    match parse_i32_chars(&ds) {
        Some(v) => v,
        None => d,
    }
}

fn state_check_exec(f: &PlayerField, condition: &String) -> (r: bool)
    ensures
        r == state_check(*f, condition@),
{
    let c = chars_of(condition.as_str());
    if contains_lit(&c, "有护甲") {
        f.armor > 0
    } else if contains_lit(&c, "有技力") {
        f.energy > 0
    } else if contains_lit(&c, "手牌为0") {
        f.hand_cards.len() == 0
    } else if contains_lit(&c, "手牌≤") {
        (f.hand_cards.len() as i32) <= digits_or_exec(&c, 3)
    } else if contains_lit(&c, "生命＜") {
        f.hp < digits_or_exec(&c, 2)
    } else {
        true
    }
}

/// Whether an effect's trigger condition holds for `owner`.
pub fn check_condition(state: &DuelState, condition: &TriggerCondition, owner: PlayerSide) -> (r:
    bool)
    requires
        is_seat(owner),
    ensures
        r == condition_holds(*state, condition@, owner),
{
    let field = state.field(owner);
    let opponent = state.field(owner.opponent());
    match condition {
        TriggerCondition::Cost { resource, amount, extra: _ } => {
            let rv = chars_of(resource.as_str());
            if eq_lit(&rv, "技力") {
                field.energy >= *amount
            } else if eq_lit(&rv, "生命") {
                field.hp > *amount
            } else if eq_lit(&rv, "手牌") {
                (field.hand_cards.len() as i32) >= *amount
            } else {
                true
            }
        },
        TriggerCondition::Threshold { stat, operator, value } => {
            let cur = threshold_value_exec(field, stat);
            compare_exec(cur, operator, *value)
        },
        TriggerCondition::StateCheck { target, condition } => {
            let tv = chars_of(target.as_str());
            let check_field = if eq_lit(&tv, "自身") { field } else { opponent };
            state_check_exec(check_field, condition)
        },
        TriggerCondition::Cumulative { tracked_what, operator: _, value: _ } => {
            let tv = chars_of(tracked_what.as_str());
            if eq_lit(&tv, "受伤") {
                opponent.damage_dealt_this_turn >= 1
            } else if eq_lit(&tv, "治疗") {
                field.healed_this_turn >= 1
            } else {
                true
            }
        },
        _ => true,
    }
}

// ---------------------------------------------------------------------------
// Turns and rounds
// ---------------------------------------------------------------------------

pub open spec fn attack_total(f: PlayerField) -> int {
    f.physical_attack + f.magic_attack
}

/// The attack arithmetic of field `f` stays within `i32`.
pub open spec fn attack_fits(f: PlayerField) -> bool {
    &&& i32::MIN <= attack_total(f) <= i32::MAX
    &&& i32::MIN <= f.damage_dealt_this_turn + max_i(attack_total(f), 0) <= i32::MAX
}

/// Whether field `f` gets its basic attack in.
pub open spec fn attack_happens(f: PlayerField) -> bool {
    !f.has_attacked && f.attack_count > 0 && attack_total(f) > 0
}

/// Text of a basic attack.
pub open spec fn attack_text(a: PlayerField, d: PlayerField, after_hp: i32) -> Seq<char> {
    a.name@ + " 对 "@ + d.name@ + " 造成了 "@ + dec(attack_total(a)) + " 点"@ + (if a.magic_attack
        > 0 {
        "法术"@
    } else {
        "物理"@
    }) + "伤害 (护甲吸收后实际: "@ + dec(attack_total(a)) + "), "@ + d.name@ + " 生命 "@ + dec(
        d.hp as int,
    ) + "→"@ + dec(after_hp as int)
}

fn log_entry(state: &DuelState, source: &str, description: &str, owner: &str) -> (r:
    EffectLogEntry)
    ensures
        crate::duel::state::log_line(
            r,
            state.round,
            state.phase.spec_name(),
            source@,
            description@,
            owner@,
        ),
{
    EffectLogEntry {
        round: state.round,
        phase: owned(state.phase.name()),
        source: owned(source),
        description: owned(description),
        owner: owned(owner),
    }
}

/// The basic attack of `attacker_side`: a hit of its physical plus magic
/// attack on the other side, once per turn.
fn execute_attack(state: &mut DuelState, attacker_side: PlayerSide) -> (r: Vec<
    EffectLogEntry,
>)
    requires
        is_seat(attacker_side),
        attack_fits(old(state).fld(attacker_side)),
    ensures
        ({
            let a = old(state).fld(attacker_side);
            let ds = attacker_side.spec_opponent();
            let d = old(state).fld(ds);
            if attack_happens(a) {
                &&& *final(state) == DuelState {
                    fields: final(state).fields,
                    effect_log: final(state).effect_log,
                    ..*old(state)
                }
                &&& final(state).fld(ds) == hit(d, attack_total(a) as i32)
                &&& final(state).fld(attacker_side) == PlayerField {
                    has_attacked: true,
                    damage_dealt_this_turn: (a.damage_dealt_this_turn + attack_total(a)) as i32,
                    ..a
                }
                &&& final(state).effect_log@.drop_last() == old(state).effect_log@
                &&& final(state).effect_log@.len() == old(state).effect_log@.len() + 1
                &&& crate::duel::state::log_line(
                    final(state).effect_log@.last(),
                    old(state).round,
                    old(state).phase.spec_name(),
                    a.name@,
                    attack_text(a, d, final(state).fld(ds).hp),
                    attacker_side.spec_name(),
                )
                &&& r@.len() == 1
                &&& crate::duel::state::log_line(
                    r@[0],
                    old(state).round,
                    old(state).phase.spec_name(),
                    a.name@,
                    attack_text(a, d, final(state).fld(ds).hp),
                    attacker_side.spec_name(),
                )
            } else {
                *final(state) == *old(state) && r@.len() == 0
            }
        }),
{
    let mut log: Vec<EffectLogEntry> = Vec::new();
    let defender_side = attacker_side.opponent();
    let attacker = state.field(attacker_side);
    let atk_name = attacker.name.clone();
    let atk_physical = attacker.physical_attack;
    let atk_magic = attacker.magic_attack;
    let has_attacked = attacker.has_attacked;
    let attack_count = attacker.attack_count;
    if has_attacked {
        return log;
    }
    if attack_count > 0 {
        let total_dmg = atk_physical + atk_magic;
        if total_dmg > 0 {
            let dmg_type = if atk_magic > 0 { DamageType::Magical } else { DamageType::Physical };
            let defender_before = state.field(defender_side).hp;
            let def_name = state.field(defender_side).name.clone();
            let actual = state.field_mut(defender_side).take_damage(total_dmg, dmg_type);
            let defender_after = state.field(defender_side).hp;
            let mut desc = String::new();
            append_str(&mut desc, atk_name.as_str());
            append_str(&mut desc, " 对 ");
            append_str(&mut desc, def_name.as_str());
            append_str(&mut desc, " 造成了 ");
            append_int(&mut desc, total_dmg as i64);
            append_str(&mut desc, " 点");
            append_str(&mut desc, if atk_magic > 0 { "法术" } else { "物理" });
            append_str(&mut desc, "伤害 (护甲吸收后实际: ");
            append_int(&mut desc, actual as i64);
            append_str(&mut desc, "), ");
            append_str(&mut desc, def_name.as_str());
            append_str(&mut desc, " 生命 ");
            append_int(&mut desc, defender_before as i64);
            append_str(&mut desc, "→");
            append_int(&mut desc, defender_after as i64);
            let af = state.field_mut(attacker_side);
            af.has_attacked = true;
            af.damage_dealt_this_turn = af.damage_dealt_this_turn + actual;
            let entry = log_entry(state, atk_name.as_str(), desc.as_str(), attacker_side.name());
            state.log_effect(atk_name.as_str(), desc.as_str(), attacker_side);
            log.push(entry);
        }
    }
    log
}

/// Log text for resolving a stacked effect.
pub open spec fn resolve_text(e: crate::duel::state::EffectStackEntry) -> Seq<char> {
    "结算效果: ["@ + e.source@ + "] "@ + e.description@ + " → "@ + e.target.spec_name()
}

/// Resolves the whole effect stack, newest first, logging each entry.
fn resolve_effect_stack(state: &mut DuelState)
    ensures
        final(state).effect_stack@.len() == 0,
        *final(state) == (DuelState {
            effect_stack: final(state).effect_stack,
            effect_log: final(state).effect_log,
            ..*old(state)
        }),
        final(state).effect_log@.len() == old(state).effect_log@.len() + old(state).effect_stack@.len(),
        final(state).effect_log@.subrange(0, old(state).effect_log@.len() as int) == old(state).effect_log@,
        forall|i: int|
            0 <= i < old(state).effect_stack@.len() ==> {
                let e = old(state).effect_stack@[old(state).effect_stack@.len() - 1 - i];
                crate::duel::state::log_line(
                    #[trigger] final(state).effect_log@[old(state).effect_log@.len() + i],
                    old(state).round,
                    old(state).phase.spec_name(),
                    e.source@,
                    resolve_text(e),
                    e.owner.spec_name(),
                )
            },
{
    let ghost s0 = *state;
    let ghost n = s0.effect_stack@.len();
    let ghost m = s0.effect_log@.len();
    while state.effect_stack.len() > 0
        invariant
            n == s0.effect_stack@.len(),
            m == s0.effect_log@.len(),
            state.effect_stack@.len() <= n,
            state.effect_stack@ == s0.effect_stack@.subrange(0, state.effect_stack@.len() as int),
            *state == (DuelState { effect_stack: state.effect_stack, effect_log: state.effect_log, ..s0 }),
            state.effect_log@.len() == m + (n - state.effect_stack@.len()),
            state.effect_log@.subrange(0, m as int) == s0.effect_log@,
            forall|i: int|
                0 <= i < n - state.effect_stack@.len() ==> {
                    let e = s0.effect_stack@[n - 1 - i];
                    crate::duel::state::log_line(
                        #[trigger] state.effect_log@[m + i],
                        s0.round,
                        s0.phase.spec_name(),
                        e.source@,
                        resolve_text(e),
                        e.owner.spec_name(),
                    )
                },
        decreases state.effect_stack@.len(),
    {
        let ghost before = *state;
        let entry = state.pop_effect().unwrap();
        let mut desc = String::new();
        append_str(&mut desc, "结算效果: [");
        append_str(&mut desc, entry.source.as_str());
        append_str(&mut desc, "] ");
        append_str(&mut desc, entry.description.as_str());
        append_str(&mut desc, " → ");
        append_str(&mut desc, entry.target.name());
        state.log_effect(entry.source.as_str(), desc.as_str(), entry.owner);
        proof {
            let k = n - before.effect_stack@.len();
            let len = before.effect_stack@.len();
            assert(before.effect_stack@[len - 1] == s0.effect_stack@[len - 1]);
            assert(entry == s0.effect_stack@[n - 1 - k]);
            assert forall|i: int| 0 <= i < k implies #[trigger] state.effect_log@[m + i]
                == before.effect_log@[m + i] by {
                assert(state.effect_log@.drop_last()[m + i] == state.effect_log@[m + i]);
            }
            assert(state.effect_log@.subrange(0, m as int) =~= before.effect_log@.subrange(
                0,
                m as int,
            ));
            assert(state.effect_stack@ =~= s0.effect_stack@.subrange(
                0,
                state.effect_stack@.len() as int,
            ));
        }
    }
}

// ---------------------------------------------------------------------------
// The round as a whole
// ---------------------------------------------------------------------------

/// What a round changes of a duel apart from its log: the phase, the round
/// number, the two fields, the acting side, the result, and whether the
/// effect stack has been resolved.
pub struct RoundCore {
    pub phase: DuelPhase,
    pub round: u32,
    pub f0: PlayerField,
    pub f1: PlayerField,
    pub active: PlayerSide,
    pub result: Option<DuelResult>,
    pub stack_cleared: bool,
}

/// A log line as plain values: round, phase name, source, text, owner name.
pub type LineV = (u32, Seq<char>, Seq<char>, Seq<char>, Seq<char>);

pub open spec fn lv(e: EffectLogEntry) -> LineV {
    (e.round, e.phase@, e.source@, e.description@, e.owner@)
}

pub open spec fn lines(v: Seq<EffectLogEntry>) -> Seq<LineV> {
    v.map_values(|e: EffectLogEntry| lv(e))
}

pub open spec fn core_of(s: DuelState) -> RoundCore {
    RoundCore {
        phase: s.phase,
        round: s.round,
        f0: s.fields@[0],
        f1: s.fields@[1],
        active: s.active_player,
        result: s.result,
        stack_cleared: false,
    }
}

/// The state `s` has the core `c`, reached from `s0`: the rest of the duel
/// is that of `s0`, the stack is empty once resolved and untouched
/// otherwise, and the log of `s0` is kept at the front.
pub open spec fn matches_core(s: DuelState, c: RoundCore, s0: DuelState) -> bool {
    &&& s.phase == c.phase
    &&& s.round == c.round
    &&& s.fields@[0] == c.f0
    &&& s.fields@[1] == c.f1
    &&& s.active_player == c.active
    &&& s.result == c.result
    &&& (if c.stack_cleared { s.effect_stack@.len() == 0 } else { s.effect_stack == s0.effect_stack })
    &&& s.first_player == s0.first_player
    &&& s.second_player == s0.second_player
    &&& s.scenario_id == s0.scenario_id
    &&& s0.effect_log@.len() <= s.effect_log@.len()
    &&& s.effect_log@.subrange(0, s0.effect_log@.len() as int) == s0.effect_log@
}

pub open spec fn cfld(c: RoundCore, side: PlayerSide) -> PlayerField {
    if side == PlayerSide::First { c.f0 } else { c.f1 }
}

pub open spec fn with_fld(c: RoundCore, side: PlayerSide, f: PlayerField) -> RoundCore {
    if side == PlayerSide::First { RoundCore { f0: f, ..c } } else { RoundCore { f1: f, ..c } }
}

pub open spec fn both_alive(c: RoundCore) -> bool {
    c.f0.hp > 0 && c.f1.hp > 0
}

/// The duel ended, with the result that matches who still stands.
pub open spec fn ended(c: RoundCore) -> RoundCore {
    RoundCore { phase: DuelPhase::End, result: Some(outcome(c.f0.hp > 0, c.f1.hp > 0)), ..c }
}

/// The basic attack of `side` (nothing when it does not happen).
pub open spec fn attack_core(c: RoundCore, side: PlayerSide) -> RoundCore {
    let a = cfld(c, side);
    let d = cfld(c, side.spec_opponent());
    if attack_happens(a) {
        with_fld(
            with_fld(c, side.spec_opponent(), hit(d, attack_total(a) as i32)),
            side,
            PlayerField {
                has_attacked: true,
                damage_dealt_this_turn: (a.damage_dealt_this_turn + attack_total(a)) as i32,
                ..a
            },
        )
    } else {
        c
    }
}

/// The turn of `side`: it acts, attacks, and either the duel ends at once
/// (a side is down) or the effect stack is resolved.
pub open spec fn turn_core(c: RoundCore, side: PlayerSide) -> RoundCore {
    let t = attack_core(RoundCore { active: side, ..c }, side);
    if both_alive(t) {
        RoundCore { stack_cleared: true, ..t }
    } else {
        ended(t)
    }
}

pub open spec fn enter_first(c: RoundCore) -> RoundCore {
    RoundCore {
        phase: DuelPhase::FirstPlayerTurn,
        round: if c.round >= 1 { c.round } else { 1 },
        active: PlayerSide::First,
        f0: turn_reset(c.f0),
        ..c
    }
}

pub open spec fn enter_second(c: RoundCore) -> RoundCore {
    RoundCore { phase: DuelPhase::SecondPlayerTurn, active: PlayerSide::Second, f1: turn_reset(c.f1), ..c }
}

pub open spec fn enter_settle(c: RoundCore) -> RoundCore {
    RoundCore { phase: DuelPhase::Settlement, active: PlayerSide::First, ..c }
}

/// The next round begins: its number counts up and the first player's
/// turn is entered.
pub open spec fn next_round(c: RoundCore) -> RoundCore {
    RoundCore {
        phase: DuelPhase::FirstPlayerTurn,
        round: (c.round + 1) as u32,
        active: PlayerSide::First,
        f0: turn_reset(c.f0),
        ..c
    }
}

pub open spec fn settle_core(c: RoundCore) -> RoundCore {
    if both_alive(c) { next_round(c) } else { ended(c) }
}

pub open spec fn second_core(c: RoundCore) -> RoundCore {
    let t = turn_core(c, PlayerSide::Second);
    if both_alive(t) { settle_core(enter_settle(t)) } else { t }
}

pub open spec fn first_core(c: RoundCore) -> RoundCore {
    let t = turn_core(c, PlayerSide::First);
    if both_alive(t) { second_core(enter_second(t)) } else { t }
}

/// What a round does to a duel in the phase `c.phase`: from the first
/// player's turn (entered from preparation), the second player's turn and
/// the settlement, until a side is down (the duel ends with its result) or
/// the settlement is over with both standing (the next round begins).
pub open spec fn round_core(c: RoundCore) -> RoundCore {
    match c.phase {
        DuelPhase::Preparation => first_core(enter_first(c)),
        DuelPhase::FirstPlayerTurn => first_core(c),
        DuelPhase::SecondPlayerTurn => second_core(c),
        DuelPhase::Settlement => settle_core(c),
        DuelPhase::End => c,
    }
}

/// The lines of the turn of `side`: start, the attack (if any), and the
/// end unless a side went down.
pub open spec fn turn_lines(c: RoundCore, side: PlayerSide) -> Seq<LineV> {
    let a = cfld(c, side);
    let d = cfld(c, side.spec_opponent());
    let ph = c.phase.spec_name();
    let start = seq![
        (c.round, ph, a.name@, a.name@ + " 的回合开始 (第"@ + dec(c.round as int) + "回合)"@, side.spec_name()),
    ];
    let att = if attack_happens(a) {
        seq![(c.round, ph, a.name@, attack_text(a, d, hit(d, attack_total(a) as i32).hp), side.spec_name())]
    } else {
        Seq::empty()
    };
    let end = if both_alive(attack_core(RoundCore { active: side, ..c }, side)) {
        seq![(c.round, ph, a.name@, a.name@ + " 的回合结束"@, side.spec_name())]
    } else {
        Seq::empty()
    };
    start + att + end
}

/// One line per mark held with a positive count, in the stored order.
pub open spec fn mark_lines(
    ms: Seq<(String, i32)>,
    name: Seq<char>,
    side: PlayerSide,
    round: u32,
    ph: Seq<char>,
) -> Seq<LineV>
    decreases ms.len(),
{
    if ms.len() == 0 {
        Seq::empty()
    } else {
        let rest = mark_lines(ms.drop_last(), name, side, round, ph);
        let (k, n) = ms.last();
        if n > 0 {
            rest.push((round, ph, name, name + " 持有 ["@ + k@ + "] ×"@ + dec(n as int), side.spec_name()))
        } else {
            rest
        }
    }
}

/// The lines of a settlement: header, marks held, and the end of the duel
/// when a side is down.
pub open spec fn settle_lines(c: RoundCore) -> Seq<LineV> {
    let ph = c.phase.spec_name();
    seq![(c.round, ph, "系统"@, settlement_text(c.round), "系统"@)] + mark_lines(
        c.f0.marks@,
        c.f0.name@,
        PlayerSide::First,
        c.round,
        ph,
    ) + mark_lines(c.f1.marks@, c.f1.name@, PlayerSide::Second, c.round, ph) + if both_alive(c) {
        Seq::empty()
    } else {
        seq![
            (
                c.round,
                "结束"@,
                "系统"@,
                "对峙结束: "@ + outcome(c.f0.hp > 0, c.f1.hp > 0).spec_description(),
                "系统"@,
            ),
        ]
    }
}

pub open spec fn second_lines(c: RoundCore) -> Seq<LineV> {
    let t = turn_core(c, PlayerSide::Second);
    turn_lines(c, PlayerSide::Second) + if both_alive(t) {
        settle_lines(enter_settle(t))
    } else {
        Seq::empty()
    }
}

pub open spec fn first_lines(c: RoundCore) -> Seq<LineV> {
    let t = turn_core(c, PlayerSide::First);
    turn_lines(c, PlayerSide::First) + if both_alive(t) {
        second_lines(enter_second(t))
    } else {
        Seq::empty()
    }
}

/// The lines a round returns, in order.
pub open spec fn round_lines(c: RoundCore) -> Seq<LineV> {
    match c.phase {
        DuelPhase::Preparation => first_lines(enter_first(c)),
        DuelPhase::FirstPlayerTurn => first_lines(c),
        DuelPhase::SecondPlayerTurn => second_lines(c),
        DuelPhase::Settlement => settle_lines(c),
        DuelPhase::End => Seq::empty(),
    }
}

/// The turn of `side`: turn-start line, basic attack, immediate end when a
/// side is down, otherwise the effect stack resolved and a turn-end line.
fn execute_player_turn(state: &mut DuelState, side: PlayerSide) -> (r: Vec<
    EffectLogEntry,
>)
    requires
        is_seat(side),
        attack_fits(old(state).fld(side)),
        old(state).phase != DuelPhase::End,
    ensures
        matches_core(*final(state), turn_core(core_of(*old(state)), side), *old(state)),
        lines(r@) == turn_lines(core_of(*old(state)), side),
{
    let ghost s0 = *state;
    let ghost c0 = core_of(s0);
    let mut log: Vec<EffectLogEntry> = Vec::new();
    state.active_player = side;
    let active_name = state.field(side).name.clone();
    let mut desc = String::new();
    append_str(&mut desc, active_name.as_str());
    append_str(&mut desc, " 的回合开始 (第");
    append_int(&mut desc, state.round as i64);
    append_str(&mut desc, "回合)");
    state.log_effect(active_name.as_str(), desc.as_str(), side);
    let e0 = log_entry(state, active_name.as_str(), desc.as_str(), side.name());
    log.push(e0);
    let ghost s1 = *state;
    assert(s1.effect_log@.subrange(0, s0.effect_log@.len() as int) =~= s0.effect_log@);
    let attack_log = execute_attack(state, side);
    let ghost s2 = *state;
    let mut i: usize = 0;
    while i < attack_log.len()
        invariant
            log@.len() == 1 + i,
            i <= attack_log@.len(),
            log@[0] == e0,
            forall|k: int| 0 <= k < i ==> log@[1 + k] == attack_log@[k],
        decreases attack_log.len() - i,
    {
        log.push(attack_log[i].copy());
        i = i + 1;
    }
    let ghost t = attack_core(RoundCore { active: side, ..c0 }, side);
    assert(s2.fields@[0] == t.f0 && s2.fields@[1] == t.f1);
    assert(s2.effect_log@.subrange(0, s0.effect_log@.len() as int) =~= s0.effect_log@);
    if state.check_end() {
        assert(lines(log@) =~= turn_lines(c0, side));
        return log;
    }
    resolve_effect_stack(state);
    let ghost s3 = *state;
    assert(s3.effect_log@.subrange(0, s0.effect_log@.len() as int) =~= s0.effect_log@);
    let mut desc2 = String::new();
    append_str(&mut desc2, active_name.as_str());
    append_str(&mut desc2, " 的回合结束");
    state.log_effect(active_name.as_str(), desc2.as_str(), side);
    let e1 = log_entry(state, active_name.as_str(), desc2.as_str(), side.name());
    log.push(e1);
    assert(state.effect_log@.subrange(0, s0.effect_log@.len() as int) =~= s0.effect_log@);
    assert(lines(log@) =~= turn_lines(c0, side));
    log
}

/// Header line of a settlement.
pub open spec fn settlement_text(round: u32) -> Seq<char> {
    "=== 第"@ + dec(round as int) + "回合结算阶段 ==="@
}

/// Appends the lines of the marks `side` holds.
fn push_mark_lines(log: &mut Vec<EffectLogEntry>, state: &DuelState, side: PlayerSide)
    requires
        is_seat(side),
    ensures
        lines(final(log)@) == lines(old(log)@) + mark_lines(
            state.fld(side).marks@,
            state.fld(side).name@,
            side,
            state.round,
            state.phase.spec_name(),
        ),
{
    let field = state.field(side);
    let ghost l0 = lines(log@);
    let mut j: usize = 0;
    while j < field.marks.len()
        invariant
            j <= field.marks@.len(),
            *field == state.fld(side),
            lines(log@) == l0 + mark_lines(
                field.marks@.subrange(0, j as int),
                field.name@,
                side,
                state.round,
                state.phase.spec_name(),
            ),
        decreases field.marks.len() - j,
    {
        let count = field.marks[j].1;
        let ghost lb = log@;
        assert(field.marks@.subrange(0, j + 1).drop_last() =~= field.marks@.subrange(0, j as int));
        assert(field.marks@.subrange(0, j + 1).last() == field.marks@[j as int]);
        if count > 0 {
            let mut d = String::new();
            append_str(&mut d, field.name.as_str());
            append_str(&mut d, " 持有 [");
            append_str(&mut d, field.marks[j].0.as_str());
            append_str(&mut d, "] ×");
            append_int(&mut d, count as i64);
            let e = log_entry(state, field.name.as_str(), d.as_str(), side.name());
            log.push(e);
            assert(lines(log@) =~= lines(lb).push(lv(e)));
        }
        assert(lines(log@) =~= l0 + mark_lines(
            field.marks@.subrange(0, j + 1),
            field.name@,
            side,
            state.round,
            state.phase.spec_name(),
        ));
        j = j + 1;
    }
    assert(field.marks@.subrange(0, field.marks@.len() as int) =~= field.marks@);
}

/// The settlement: a header line, one line per mark a side holds, and the
/// end of the duel when a side is down.
fn execute_settlement(state: &mut DuelState) -> (r: Vec<EffectLogEntry>)
    ensures
        lines(r@) == settle_lines(core_of(*old(state))),
        old(state).alive(PlayerSide::First) && old(state).alive(PlayerSide::Second) ==> *final(state)
            == *old(state),
        !(old(state).alive(PlayerSide::First) && old(state).alive(PlayerSide::Second)) ==> *final(state)
            == (DuelState {
            phase: DuelPhase::End,
            result: Some(outcome(old(state).alive(PlayerSide::First), old(state).alive(PlayerSide::Second))),
            ..*old(state)
        }),
{
    let ghost c0 = core_of(*state);
    let mut log: Vec<EffectLogEntry> = Vec::new();
    let mut desc = String::new();
    append_str(&mut desc, "=== 第");
    append_int(&mut desc, state.round as i64);
    append_str(&mut desc, "回合结算阶段 ===");
    let e0 = log_entry(state, "系统", desc.as_str(), "系统");
    log.push(e0);
    assert(lines(log@) =~= seq![lv(e0)]);
    push_mark_lines(&mut log, state, PlayerSide::First);
    push_mark_lines(&mut log, state, PlayerSide::Second);
    let ghost lm = log@;
    assert(lines(lm) =~= settle_lines(c0).subrange(0, lines(lm).len() as int)) by {
        assert(lv(e0) == (c0.round, c0.phase.spec_name(), "系统"@, settlement_text(c0.round), "系统"@));
    }
    let first_alive = state.field(PlayerSide::First).is_alive();
    let second_alive = state.field(PlayerSide::Second).is_alive();
    if !first_alive || !second_alive {
        let result = if first_alive && !second_alive {
            DuelResult::FirstPlayerWin
        } else if !first_alive && second_alive {
            DuelResult::SecondPlayerWin
        } else {
            DuelResult::Draw
        };
        state.phase = DuelPhase::End;
        state.result = Some(result);
        let mut d = String::new();
        append_str(&mut d, "对峙结束: ");
        append_str(&mut d, result.description());
        let e = EffectLogEntry {
            round: state.round,
            phase: owned("结束"),
            source: owned("系统"),
            description: d,
            owner: owned("系统"),
        };
        log.push(e);
        assert(lines(log@) =~= lines(lm).push(lv(e)));
    }
    assert(lines(log@) =~= settle_lines(c0));
    log
}

fn append_log(dst: &mut Vec<EffectLogEntry>, src: Vec<EffectLogEntry>)
    ensures
        lines(final(dst)@) == lines(old(dst)@) + lines(src@),
{
    let mut src = src;
    let ghost s = src@;
    dst.append(&mut src);
    assert(lines(dst@) =~= lines(old(dst)@) + lines(s));
}

/// The settlement of a round, then the end of the duel or the next round.
fn run_settlement(
    state: &mut DuelState,
    round_log: &mut Vec<EffectLogEntry>,
    Ghost(c): Ghost<RoundCore>,
    Ghost(s0): Ghost<DuelState>,
)
    requires
        matches_core(*old(state), c, s0),
        c.phase == DuelPhase::Settlement,
        old(state).round < u32::MAX,
    ensures
        matches_core(*final(state), settle_core(c), s0),
        lines(final(round_log)@) == lines(old(round_log)@) + settle_lines(c),
{
    let ghost s1 = *state;
    assert(core_of(s1) == RoundCore { stack_cleared: false, ..c });
    let log = execute_settlement(state);
    append_log(round_log, log);
    if state.check_end() {
        assert(state.effect_log@.subrange(0, s0.effect_log@.len() as int) =~= s0.effect_log@);
        return;
    }
    state.round = state.round + 1;
    state.phase = DuelPhase::FirstPlayerTurn;
    state.on_phase_enter(DuelPhase::FirstPlayerTurn);
    assert(state.effect_log@.subrange(0, s0.effect_log@.len() as int) =~= s0.effect_log@);
}

/// The second player's turn, then (both standing) the settlement.
fn run_second(
    state: &mut DuelState,
    round_log: &mut Vec<EffectLogEntry>,
    Ghost(c): Ghost<RoundCore>,
    Ghost(s0): Ghost<DuelState>,
)
    requires
        matches_core(*old(state), c, s0),
        c.phase == DuelPhase::SecondPlayerTurn,
        attack_fits(c.f1),
        old(state).round < u32::MAX,
    ensures
        matches_core(*final(state), second_core(c), s0),
        lines(final(round_log)@) == lines(old(round_log)@) + second_lines(c),
{
    let ghost s1 = *state;
    let ghost l1 = lines(round_log@);
    assert(core_of(s1) == RoundCore { stack_cleared: false, ..c });
    let log = execute_player_turn(state, PlayerSide::Second);
    append_log(round_log, log);
    let ghost t = turn_core(c, PlayerSide::Second);
    assert(matches_core(*state, t, s0)) by {
        assert(state.effect_log@.subrange(0, s0.effect_log@.len() as int) =~= s0.effect_log@);
    }
    if state.check_end() {
        assert(state.effect_log@.subrange(0, s0.effect_log@.len() as int) =~= s0.effect_log@);
        assert(lines(round_log@) =~= l1 + second_lines(c));
        return;
    }
    state.advance_phase();
    assert(matches_core(*state, enter_settle(t), s0)) by {
        assert(state.effect_log@.subrange(0, s0.effect_log@.len() as int) =~= s0.effect_log@);
    }
    let ghost l2 = lines(round_log@);
    run_settlement(state, round_log, Ghost(enter_settle(t)), Ghost(s0));
    assert(lines(round_log@) =~= l1 + second_lines(c));
}

/// The first player's turn, then (both standing) the second player's.
fn run_first(
    state: &mut DuelState,
    round_log: &mut Vec<EffectLogEntry>,
    Ghost(c): Ghost<RoundCore>,
    Ghost(s0): Ghost<DuelState>,
)
    requires
        matches_core(*old(state), c, s0),
        c.phase == DuelPhase::FirstPlayerTurn,
        attack_fits(c.f0),
        attack_fits(c.f1),
        old(state).round < u32::MAX,
    ensures
        matches_core(*final(state), first_core(c), s0),
        lines(final(round_log)@) == lines(old(round_log)@) + first_lines(c),
{
    let ghost s1 = *state;
    let ghost l1 = lines(round_log@);
    assert(core_of(s1) == RoundCore { stack_cleared: false, ..c });
    let log = execute_player_turn(state, PlayerSide::First);
    append_log(round_log, log);
    let ghost t = turn_core(c, PlayerSide::First);
    assert(matches_core(*state, t, s0)) by {
        assert(state.effect_log@.subrange(0, s0.effect_log@.len() as int) =~= s0.effect_log@);
    }
    if state.check_end() {
        assert(state.effect_log@.subrange(0, s0.effect_log@.len() as int) =~= s0.effect_log@);
        assert(lines(round_log@) =~= l1 + first_lines(c));
        return;
    }
    state.advance_phase();
    assert(matches_core(*state, enter_second(t), s0)) by {
        assert(state.effect_log@.subrange(0, s0.effect_log@.len() as int) =~= s0.effect_log@);
    }
    run_second(state, round_log, Ghost(enter_second(t)), Ghost(s0));
    assert(lines(round_log@) =~= l1 + first_lines(c));
}

/// One full round: the first player's turn, the second player's turn and the
/// settlement, each stopping the round once a side is down (the duel ends
/// with the result that matches who still stands). When both sides stand
/// after the settlement the next round begins: its number counts up and the
/// first player's turn is entered. Returns the lines of the round.
pub fn execute_full_round(state: &mut DuelState) -> (r: Vec<EffectLogEntry>)
    requires
        attack_fits(old(state).fld(PlayerSide::First)),
        attack_fits(old(state).fld(PlayerSide::Second)),
        old(state).round < u32::MAX,
    ensures
        matches_core(*final(state), round_core(core_of(*old(state))), *old(state)),
        lines(r@) == round_lines(core_of(*old(state))),
        old(state).phase == DuelPhase::End ==> *final(state) == *old(state) && r@.len() == 0,
        old(state).phase != DuelPhase::End && !(final(state).alive(PlayerSide::First) && final(state).alive(
            PlayerSide::Second,
        )) ==> final(state).phase == DuelPhase::End && final(state).result == Some(
            outcome(final(state).alive(PlayerSide::First), final(state).alive(PlayerSide::Second)),
        ),
        old(state).phase != DuelPhase::End && final(state).alive(PlayerSide::First) && final(state).alive(
            PlayerSide::Second,
        ) ==> {
            &&& final(state).phase == DuelPhase::FirstPlayerTurn
            &&& final(state).result == old(state).result
            &&& final(state).round == (if old(state).phase == DuelPhase::Preparation && old(state).round
                < 1 {
                1int
            } else {
                old(state).round as int
            }) + 1
        },
{
    let ghost s0 = *state;
    let ghost c0 = core_of(s0);
    let mut round_log: Vec<EffectLogEntry> = Vec::new();
    assert(lines(round_log@) =~= Seq::<LineV>::empty());
    if state.phase == DuelPhase::Preparation {
        state.advance_phase();
        assert(matches_core(*state, enter_first(c0), s0)) by {
            assert(state.effect_log@.subrange(0, s0.effect_log@.len() as int) =~= s0.effect_log@);
        }
        run_first(state, &mut round_log, Ghost(enter_first(c0)), Ghost(s0));
    } else if state.phase == DuelPhase::FirstPlayerTurn {
        assert(matches_core(*state, c0, s0)) by {
            assert(state.effect_log@.subrange(0, s0.effect_log@.len() as int) =~= s0.effect_log@);
        }
        run_first(state, &mut round_log, Ghost(c0), Ghost(s0));
    } else if state.phase == DuelPhase::SecondPlayerTurn {
        assert(matches_core(*state, c0, s0)) by {
            assert(state.effect_log@.subrange(0, s0.effect_log@.len() as int) =~= s0.effect_log@);
        }
        run_second(state, &mut round_log, Ghost(c0), Ghost(s0));
    } else if state.phase == DuelPhase::Settlement {
        assert(matches_core(*state, c0, s0)) by {
            assert(state.effect_log@.subrange(0, s0.effect_log@.len() as int) =~= s0.effect_log@);
        }
        run_settlement(state, &mut round_log, Ghost(c0), Ghost(s0));
    } else {
        assert(state.effect_log@.subrange(0, s0.effect_log@.len() as int) =~= s0.effect_log@);
    }
    assert(lines(round_log@) =~= round_lines(c0));
    round_log
}

} // verus!


