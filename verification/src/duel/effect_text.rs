//! The text an effect kind is logged with when the duel has no line of its
//! own for it: the kind's name and fields, written as Rust's derived `Debug`
//! writes them (texts in double quotes, with quotes, backslashes and control
//! characters escaped).
use vstd::prelude::*;
use crate::base::{DamageType, PlayerSide};
use crate::duel::effect::{EffectKind, EffectType};
use crate::text::{append_int, append_str, chars_of, dec, push_char};

verus! {

/// A hexadecimal digit.
pub open spec fn hex_digit(d: int) -> char {
    if d < 10 {
        (('0' as int) + d) as char
    } else {
        (('a' as int) + d - 10) as char
    }
}

/// How one character of a text is written inside its quotes.
pub open spec fn esc_char(c: char) -> Seq<char> {
    if c == '"' {
        seq!['\\', '"']
    } else if c == '\\' {
        seq!['\\', '\\']
    } else if c == '\n' {
        seq!['\\', 'n']
    } else if c == '\r' {
        seq!['\\', 'r']
    } else if c == '\t' {
        seq!['\\', 't']
    } else if c == '\0' {
        seq!['\\', '0']
    } else if (c as int) < 32 || c as int == 127 {
        let n = c as int;
        if n < 16 {
            seq!['\\', 'u', '{', hex_digit(n), '}']
        } else {
            seq!['\\', 'u', '{', hex_digit(n / 16), hex_digit(n % 16), '}']
        }
    } else {
        seq![c]
    }
}

/// A text with each character escaped.
pub open spec fn esc(s: Seq<char>) -> Seq<char>
    decreases s.len(),
{
    if s.len() == 0 {
        Seq::empty()
    } else {
        esc(s.drop_last()) + esc_char(s.last())
    }
}

/// A text as `Debug` writes it: in double quotes, escaped.
pub open spec fn dbg_str(s: Seq<char>) -> Seq<char> {
    "\""@ + esc(s) + "\""@
}

pub open spec fn dbg_bool(b: bool) -> Seq<char> {
    if b { "true"@ } else { "false"@ }
}

pub open spec fn dbg_opt_i32(o: Option<i32>) -> Seq<char> {
    match o {
        Some(n) => "Some("@ + dec(n as int) + ")"@,
        None => "None"@,
    }
}

pub open spec fn dbg_opt_str(o: Option<Seq<char>>) -> Seq<char> {
    match o {
        Some(t) => "Some("@ + dbg_str(t) + ")"@,
        None => "None"@,
    }
}

pub open spec fn dbg_damage(d: DamageType) -> Seq<char> {
    match d {
        DamageType::Physical => "Physical"@,
        DamageType::Magical => "Magical"@,
        DamageType::True => "True"@,
        DamageType::PercentCurrent => "PercentCurrent"@,
        DamageType::PercentMax => "PercentMax"@,
    }
}

pub open spec fn dbg_side(p: PlayerSide) -> Seq<char> {
    match p {
        PlayerSide::First => "First"@,
        PlayerSide::Second => "Second"@,
        PlayerSide::Self_ => "Self_"@,
        PlayerSide::Opponent => "Opponent"@,
    }
}

/// The text of an effect kind: its name, then its fields in order.
pub open spec fn debug_text(k: EffectKind) -> Seq<char> {
    match k {
        EffectKind::DealDamage { amount, damage_type } => "DealDamage { amount: "@ + dec(amount as int) + ", damage_type: "@ + dbg_damage(damage_type) + " }"@,
        EffectKind::Heal { amount } => "Heal { amount: "@ + dec(amount as int) + " }"@,
        EffectKind::RestoreEnergy { amount } => "RestoreEnergy { amount: "@ + dec(amount as int) + " }"@,
        EffectKind::GainArmor { amount } => "GainArmor { amount: "@ + dec(amount as int) + " }"@,
        EffectKind::GainMark { mark_name, count, max } => "GainMark { mark_name: "@ + dbg_str(mark_name) + ", count: "@ + dec(count as int) + ", max: "@ + dbg_opt_i32(max) + " }"@,
        EffectKind::ConsumeMark { mark_name, count } => "ConsumeMark { mark_name: "@ + dbg_str(mark_name) + ", count: "@ + dec(count as int) + " }"@,
        EffectKind::Remove { target_what, amount } => "Remove { target_what: "@ + dbg_str(target_what) + ", amount: "@ + dec(amount as int) + " }"@,
        EffectKind::Discard { count, quality } => "Discard { count: "@ + dec(count as int) + ", quality: "@ + dbg_opt_str(quality) + " }"@,
        EffectKind::Draw { count, card_type } => "Draw { count: "@ + dec(count as int) + ", card_type: "@ + dbg_opt_str(card_type) + " }"@,
        EffectKind::Immune { condition } => "Immune { condition: "@ + dbg_str(condition) + " }"@,
        EffectKind::CounterDamage { amount } => "CounterDamage { amount: "@ + dec(amount as int) + " }"@,
        EffectKind::IncreaseStat { stat, amount, permanent } => "IncreaseStat { stat: "@ + dbg_str(stat) + ", amount: "@ + dec(amount as int) + ", permanent: "@ + dbg_bool(permanent) + " }"@,
        EffectKind::DecreaseStat { stat, amount, permanent } => "DecreaseStat { stat: "@ + dbg_str(stat) + ", amount: "@ + dec(amount as int) + ", permanent: "@ + dbg_bool(permanent) + " }"@,
        EffectKind::Deduct { resource, amount } => "Deduct { resource: "@ + dbg_str(resource) + ", amount: "@ + dec(amount as int) + " }"@,
        EffectKind::GrantArmor { amount } => "GrantArmor { amount: "@ + dec(amount as int) + " }"@,
        EffectKind::LimitDamage { max_per_hit } => "LimitDamage { max_per_hit: "@ + dec(max_per_hit as int) + " }"@,
        EffectKind::Nullify { target } => "Nullify { target: "@ + dbg_str(target) + " }"@,
        EffectKind::Seal { quality, duration } => "Seal { quality: "@ + dbg_str(quality) + ", duration: "@ + dbg_str(duration) + " }"@,
        EffectKind::ResetCooldown { skill_name } => "ResetCooldown { skill_name: "@ + dbg_str(skill_name) + " }"@,
        EffectKind::Eliminate => "Eliminate"@,
        EffectKind::SetNearDeath => "SetNearDeath"@,
        EffectKind::TreatAs { card_name } => "TreatAs { card_name: "@ + dbg_str(card_name) + " }"@,
        EffectKind::StoreAsMark { mark_name, max } => "StoreAsMark { mark_name: "@ + dbg_str(mark_name) + ", max: "@ + dec(max as int) + " }"@,
        EffectKind::ReleaseMarkDamage => "ReleaseMarkDamage"@,
        EffectKind::RearrangeTop { count } => "RearrangeTop { count: "@ + dec(count as int) + " }"@,
        EffectKind::ChangeIdentity { identity } => "ChangeIdentity { identity: "@ + dbg_str(identity) + " }"@,
        EffectKind::ExecuteTag { tag_name } => "ExecuteTag { tag_name: "@ + dbg_str(tag_name) + " }"@,
        EffectKind::ForceEffect { description } => "ForceEffect { description: "@ + dbg_str(description) + " }"@,
        EffectKind::FlipJudge { description } => "FlipJudge { description: "@ + dbg_str(description) + " }"@,
        EffectKind::CopyEffect { description } => "CopyEffect { description: "@ + dbg_str(description) + " }"@,
        EffectKind::SelectKeep { keep, from } => "SelectKeep { keep: "@ + dec(keep as int) + ", from: "@ + dec(from as int) + " }"@,
        EffectKind::ReturnToDeck { description } => "ReturnToDeck { description: "@ + dbg_str(description) + " }"@,
        EffectKind::LockTargets { count } => "LockTargets { count: "@ + dec(count as int) + " }"@,
        EffectKind::Replenish { resource, amount } => "Replenish { resource: "@ + dbg_str(resource) + ", amount: "@ + dec(amount as int) + " }"@,
        EffectKind::ConvertDamage { to_type } => "ConvertDamage { to_type: "@ + dbg_damage(to_type) + " }"@,
        EffectKind::BonusDamage { amount, damage_type } => "BonusDamage { amount: "@ + dec(amount as int) + ", damage_type: "@ + dbg_damage(damage_type) + " }"@,
        EffectKind::DrawToMatch { target_side } => "DrawToMatch { target_side: "@ + dbg_side(target_side) + " }"@,
        EffectKind::GainExtraAttack { count } => "GainExtraAttack { count: "@ + dec(count as int) + " }"@,
        EffectKind::RevealHand { target_side } => "RevealHand { target_side: "@ + dbg_side(target_side) + " }"@,
        EffectKind::ForceUseCard => "ForceUseCard"@,
        EffectKind::BanQuality { quality } => "BanQuality { quality: "@ + dbg_str(quality) + " }"@,
        EffectKind::JudgeCard => "JudgeCard"@,
        EffectKind::StealHand { condition } => "StealHand { condition: "@ + dbg_str(condition) + " }"@,
    }
}

fn hex_digit_exec(d: u32) -> (c: char)
    requires
        d < 16,
    ensures
        c == hex_digit(d as int),
{
    if d == 0 { '0' } else if d == 1 { '1' } else if d == 2 { '2' } else if d == 3 { '3' }
    else if d == 4 { '4' } else if d == 5 { '5' } else if d == 6 { '6' } else if d == 7 { '7' }
    else if d == 8 { '8' } else if d == 9 { '9' } else if d == 10 { 'a' } else if d == 11 { 'b' }
    else if d == 12 { 'c' } else if d == 13 { 'd' } else if d == 14 { 'e' } else { 'f' }
}

fn push_esc_char(s: &mut String, c: char)
    ensures
        final(s)@ == old(s)@ + esc_char(c),
{
    let ghost s0 = s@;
    if c == '"' {
        push_char(s, '\\');
        push_char(s, '"');
    } else if c == '\\' {
        push_char(s, '\\');
        push_char(s, '\\');
    } else if c == '\n' {
        push_char(s, '\\');
        push_char(s, 'n');
    } else if c == '\r' {
        push_char(s, '\\');
        push_char(s, 'r');
    } else if c == '\t' {
        push_char(s, '\\');
        push_char(s, 't');
    } else if c == '\0' {
        push_char(s, '\\');
        push_char(s, '0');
    } else if (c as u32) < 32 || c as u32 == 127 {
        let n = c as u32;
        push_char(s, '\\');
        push_char(s, 'u');
        push_char(s, '{');
        if n < 16 {
            push_char(s, hex_digit_exec(n));
        } else {
            push_char(s, hex_digit_exec(n / 16));
            push_char(s, hex_digit_exec(n % 16));
        }
        push_char(s, '}');
    } else {
        push_char(s, c);
    }
    assert(s@ =~= s0 + esc_char(c));
}

/// Appends a text as `Debug` writes it.
fn push_dbg_str(s: &mut String, t: &String)
    ensures
        final(s)@ == old(s)@ + dbg_str(t@),
{
    let ghost s0 = s@;
    push_char(s, '"');
    let v = chars_of(t.as_str());
    let mut i: usize = 0;
    while i < v.len()
        invariant
            i <= v@.len(),
            v@ == t@,
            s@ == s0 + seq!['"'] + esc(v@.subrange(0, i as int)),
        decreases v@.len() - i,
    {
        let ghost before = s@;
        push_esc_char(s, v[i]);
        assert(v@.subrange(0, i + 1).drop_last() =~= v@.subrange(0, i as int));
        assert(s@ =~= s0 + seq!['"'] + esc(v@.subrange(0, i + 1)));
        i = i + 1;
    }
    push_char(s, '"');
    assert(v@.subrange(0, v@.len() as int) =~= v@);
    proof {
        reveal_strlit("\"");
    }
    assert(s@ =~= s0 + dbg_str(t@));
}

fn push_opt_i32(s: &mut String, o: &Option<i32>)
    ensures
        final(s)@ == old(s)@ + dbg_opt_i32(*o),
{
    match o {
        Some(n) => {
            append_str(s, "Some(");
            append_int(s, *n as i64);
            append_str(s, ")");
        },
        None => append_str(s, "None"),
    }
}

fn push_opt_str(s: &mut String, o: &Option<String>)
    ensures
        final(s)@ == old(s)@ + dbg_opt_str(match o { Some(x) => Some(x@), None => None }),
{
    match o {
        Some(t) => {
            append_str(s, "Some(");
            push_dbg_str(s, t);
            append_str(s, ")");
        },
        None => append_str(s, "None"),
    }
}

fn damage_name(d: &DamageType) -> (r: &'static str)
    ensures
        r@ == dbg_damage(*d),
{
    match d {
        DamageType::Physical => "Physical",
        DamageType::Magical => "Magical",
        DamageType::True => "True",
        DamageType::PercentCurrent => "PercentCurrent",
        DamageType::PercentMax => "PercentMax",
    }
}

fn side_name(p: &PlayerSide) -> (r: &'static str)
    ensures
        r@ == dbg_side(*p),
{
    match p {
        PlayerSide::First => "First",
        PlayerSide::Second => "Second",
        PlayerSide::Self_ => "Self_",
        PlayerSide::Opponent => "Opponent",
    }
}

/// The text of an effect kind: its name, then its fields in order, as the
/// derived `Debug` writes them.
pub fn effect_debug_text(e: &EffectType) -> (r: String)
    ensures
        r@ == debug_text(e@),
{
    let mut s = String::new();
    match e {
        EffectType::DealDamage { amount, damage_type } => {
            append_str(&mut s, "DealDamage { amount: ");
            append_int(&mut s, *amount as i64);
            append_str(&mut s, ", damage_type: ");
            append_str(&mut s, damage_name(damage_type));
            append_str(&mut s, " }");
        },
        EffectType::Heal { amount } => {
            append_str(&mut s, "Heal { amount: ");
            append_int(&mut s, *amount as i64);
            append_str(&mut s, " }");
        },
        EffectType::RestoreEnergy { amount } => {
            append_str(&mut s, "RestoreEnergy { amount: ");
            append_int(&mut s, *amount as i64);
            append_str(&mut s, " }");
        },
        EffectType::GainArmor { amount } => {
            append_str(&mut s, "GainArmor { amount: ");
            append_int(&mut s, *amount as i64);
            append_str(&mut s, " }");
        },
        EffectType::GainMark { mark_name, count, max } => {
            append_str(&mut s, "GainMark { mark_name: ");
            push_dbg_str(&mut s, mark_name);
            append_str(&mut s, ", count: ");
            append_int(&mut s, *count as i64);
            append_str(&mut s, ", max: ");
            push_opt_i32(&mut s, max);
            append_str(&mut s, " }");
        },
        EffectType::ConsumeMark { mark_name, count } => {
            append_str(&mut s, "ConsumeMark { mark_name: ");
            push_dbg_str(&mut s, mark_name);
            append_str(&mut s, ", count: ");
            append_int(&mut s, *count as i64);
            append_str(&mut s, " }");
        },
        EffectType::Remove { target_what, amount } => {
            append_str(&mut s, "Remove { target_what: ");
            push_dbg_str(&mut s, target_what);
            append_str(&mut s, ", amount: ");
            append_int(&mut s, *amount as i64);
            append_str(&mut s, " }");
        },
        EffectType::Discard { count, quality } => {
            append_str(&mut s, "Discard { count: ");
            append_int(&mut s, *count as i64);
            append_str(&mut s, ", quality: ");
            push_opt_str(&mut s, quality);
            append_str(&mut s, " }");
        },
        EffectType::Draw { count, card_type } => {
            append_str(&mut s, "Draw { count: ");
            append_int(&mut s, *count as i64);
            append_str(&mut s, ", card_type: ");
            push_opt_str(&mut s, card_type);
            append_str(&mut s, " }");
        },
        EffectType::Immune { condition } => {
            append_str(&mut s, "Immune { condition: ");
            push_dbg_str(&mut s, condition);
            append_str(&mut s, " }");
        },
        EffectType::CounterDamage { amount } => {
            append_str(&mut s, "CounterDamage { amount: ");
            append_int(&mut s, *amount as i64);
            append_str(&mut s, " }");
        },
        EffectType::IncreaseStat { stat, amount, permanent } => {
            append_str(&mut s, "IncreaseStat { stat: ");
            push_dbg_str(&mut s, stat);
            append_str(&mut s, ", amount: ");
            append_int(&mut s, *amount as i64);
            append_str(&mut s, ", permanent: ");
            append_str(&mut s, if *permanent { "true" } else { "false" });
            append_str(&mut s, " }");
        },
        EffectType::DecreaseStat { stat, amount, permanent } => {
            append_str(&mut s, "DecreaseStat { stat: ");
            push_dbg_str(&mut s, stat);
            append_str(&mut s, ", amount: ");
            append_int(&mut s, *amount as i64);
            append_str(&mut s, ", permanent: ");
            append_str(&mut s, if *permanent { "true" } else { "false" });
            append_str(&mut s, " }");
        },
        EffectType::Deduct { resource, amount } => {
            append_str(&mut s, "Deduct { resource: ");
            push_dbg_str(&mut s, resource);
            append_str(&mut s, ", amount: ");
            append_int(&mut s, *amount as i64);
            append_str(&mut s, " }");
        },
        EffectType::GrantArmor { amount } => {
            append_str(&mut s, "GrantArmor { amount: ");
            append_int(&mut s, *amount as i64);
            append_str(&mut s, " }");
        },
        EffectType::LimitDamage { max_per_hit } => {
            append_str(&mut s, "LimitDamage { max_per_hit: ");
            append_int(&mut s, *max_per_hit as i64);
            append_str(&mut s, " }");
        },
        EffectType::Nullify { target } => {
            append_str(&mut s, "Nullify { target: ");
            push_dbg_str(&mut s, target);
            append_str(&mut s, " }");
        },
        EffectType::Seal { quality, duration } => {
            append_str(&mut s, "Seal { quality: ");
            push_dbg_str(&mut s, quality);
            append_str(&mut s, ", duration: ");
            push_dbg_str(&mut s, duration);
            append_str(&mut s, " }");
        },
        EffectType::ResetCooldown { skill_name } => {
            append_str(&mut s, "ResetCooldown { skill_name: ");
            push_dbg_str(&mut s, skill_name);
            append_str(&mut s, " }");
        },
        EffectType::Eliminate => {
            append_str(&mut s, "Eliminate");
        },
        EffectType::SetNearDeath => {
            append_str(&mut s, "SetNearDeath");
        },
        EffectType::TreatAs { card_name } => {
            append_str(&mut s, "TreatAs { card_name: ");
            push_dbg_str(&mut s, card_name);
            append_str(&mut s, " }");
        },
        EffectType::StoreAsMark { mark_name, max } => {
            append_str(&mut s, "StoreAsMark { mark_name: ");
            push_dbg_str(&mut s, mark_name);
            append_str(&mut s, ", max: ");
            append_int(&mut s, *max as i64);
            append_str(&mut s, " }");
        },
        EffectType::ReleaseMarkDamage => {
            append_str(&mut s, "ReleaseMarkDamage");
        },
        EffectType::RearrangeTop { count } => {
            append_str(&mut s, "RearrangeTop { count: ");
            append_int(&mut s, *count as i64);
            append_str(&mut s, " }");
        },
        EffectType::ChangeIdentity { identity } => {
            append_str(&mut s, "ChangeIdentity { identity: ");
            push_dbg_str(&mut s, identity);
            append_str(&mut s, " }");
        },
        EffectType::ExecuteTag { tag_name } => {
            append_str(&mut s, "ExecuteTag { tag_name: ");
            push_dbg_str(&mut s, tag_name);
            append_str(&mut s, " }");
        },
        EffectType::ForceEffect { description } => {
            append_str(&mut s, "ForceEffect { description: ");
            push_dbg_str(&mut s, description);
            append_str(&mut s, " }");
        },
        EffectType::FlipJudge { description } => {
            append_str(&mut s, "FlipJudge { description: ");
            push_dbg_str(&mut s, description);
            append_str(&mut s, " }");
        },
        EffectType::CopyEffect { description } => {
            append_str(&mut s, "CopyEffect { description: ");
            push_dbg_str(&mut s, description);
            append_str(&mut s, " }");
        },
        EffectType::SelectKeep { keep, from } => {
            append_str(&mut s, "SelectKeep { keep: ");
            append_int(&mut s, *keep as i64);
            append_str(&mut s, ", from: ");
            append_int(&mut s, *from as i64);
            append_str(&mut s, " }");
        },
        EffectType::ReturnToDeck { description } => {
            append_str(&mut s, "ReturnToDeck { description: ");
            push_dbg_str(&mut s, description);
            append_str(&mut s, " }");
        },
        EffectType::LockTargets { count } => {
            append_str(&mut s, "LockTargets { count: ");
            append_int(&mut s, *count as i64);
            append_str(&mut s, " }");
        },
        EffectType::Replenish { resource, amount } => {
            append_str(&mut s, "Replenish { resource: ");
            push_dbg_str(&mut s, resource);
            append_str(&mut s, ", amount: ");
            append_int(&mut s, *amount as i64);
            append_str(&mut s, " }");
        },
        EffectType::ConvertDamage { to_type } => {
            append_str(&mut s, "ConvertDamage { to_type: ");
            append_str(&mut s, damage_name(to_type));
            append_str(&mut s, " }");
        },
        EffectType::BonusDamage { amount, damage_type } => {
            append_str(&mut s, "BonusDamage { amount: ");
            append_int(&mut s, *amount as i64);
            append_str(&mut s, ", damage_type: ");
            append_str(&mut s, damage_name(damage_type));
            append_str(&mut s, " }");
        },
        EffectType::DrawToMatch { target_side } => {
            append_str(&mut s, "DrawToMatch { target_side: ");
            append_str(&mut s, side_name(target_side));
            append_str(&mut s, " }");
        },
        EffectType::GainExtraAttack { count } => {
            append_str(&mut s, "GainExtraAttack { count: ");
            append_int(&mut s, *count as i64);
            append_str(&mut s, " }");
        },
        EffectType::RevealHand { target_side } => {
            append_str(&mut s, "RevealHand { target_side: ");
            append_str(&mut s, side_name(target_side));
            append_str(&mut s, " }");
        },
        EffectType::ForceUseCard => {
            append_str(&mut s, "ForceUseCard");
        },
        EffectType::BanQuality { quality } => {
            append_str(&mut s, "BanQuality { quality: ");
            push_dbg_str(&mut s, quality);
            append_str(&mut s, " }");
        },
        EffectType::JudgeCard => {
            append_str(&mut s, "JudgeCard");
        },
        EffectType::StealHand { condition } => {
            append_str(&mut s, "StealHand { condition: ");
            push_dbg_str(&mut s, condition);
            append_str(&mut s, " }");
        },
    }
    assert(s@ =~= debug_text(e@));
    s
}

} // verus!
