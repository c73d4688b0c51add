//! Effects: turning a card's five-stage rows into executable effect objects.
//!
//! The effect kinds follow the predicate dictionary of the duel rules.
use vstd::prelude::*;
use crate::base::{DamageType, FiveStageEntry, PlayerSide};
use crate::text::{
    chars_of, contains_lit, digits_of, digits_only, eq_lit, find, find_lit, has_prefix, has_sub,
    is_digit, matches_at, owned, parse_i32, parse_i32_chars, slice_vec, starts_with_lit, string_of,
    trim, trim_str, trim_vec, append_str, append_chars,
};

verus! {

/// What an effect does, after the predicate dictionary of the rules.
#[derive(Debug, Clone, PartialEq)]
pub enum EffectType {
    DealDamage { amount: i32, damage_type: DamageType },
    Heal { amount: i32 },
    RestoreEnergy { amount: i32 },
    GainArmor { amount: i32 },
    GainMark { mark_name: String, count: i32, max: Option<i32> },
    ConsumeMark { mark_name: String, count: i32 },
    Remove { target_what: String, amount: i32 },
    Discard { count: i32, quality: Option<String> },
    Draw { count: i32, card_type: Option<String> },
    Immune { condition: String },
    CounterDamage { amount: i32 },
    IncreaseStat { stat: String, amount: i32, permanent: bool },
    DecreaseStat { stat: String, amount: i32, permanent: bool },
    Deduct { resource: String, amount: i32 },
    GrantArmor { amount: i32 },
    LimitDamage { max_per_hit: i32 },
    Nullify { target: String },
    Seal { quality: String, duration: String },
    ResetCooldown { skill_name: String },
    Eliminate,
    SetNearDeath,
    TreatAs { card_name: String },
    StoreAsMark { mark_name: String, max: i32 },
    ReleaseMarkDamage,
    RearrangeTop { count: i32 },
    ChangeIdentity { identity: String },
    ExecuteTag { tag_name: String },
    ForceEffect { description: String },
    FlipJudge { description: String },
    CopyEffect { description: String },
    SelectKeep { keep: i32, from: i32 },
    ReturnToDeck { description: String },
    LockTargets { count: i32 },
    Replenish { resource: String, amount: i32 },
    ConvertDamage { to_type: DamageType },
    BonusDamage { amount: i32, damage_type: DamageType },
    DrawToMatch { target_side: PlayerSide },
    GainExtraAttack { count: i32 },
    RevealHand { target_side: PlayerSide },
    ForceUseCard,
    BanQuality { quality: String },
    JudgeCard,
    StealHand { condition: String },
}

/// An `EffectType` with its texts as char sequences.
pub enum EffectKind {
    DealDamage { amount: i32, damage_type: DamageType },
    Heal { amount: i32 },
    RestoreEnergy { amount: i32 },
    GainArmor { amount: i32 },
    GainMark { mark_name: Seq<char>, count: i32, max: Option<i32> },
    ConsumeMark { mark_name: Seq<char>, count: i32 },
    Remove { target_what: Seq<char>, amount: i32 },
    Discard { count: i32, quality: Option<Seq<char>> },
    Draw { count: i32, card_type: Option<Seq<char>> },
    Immune { condition: Seq<char> },
    CounterDamage { amount: i32 },
    IncreaseStat { stat: Seq<char>, amount: i32, permanent: bool },
    DecreaseStat { stat: Seq<char>, amount: i32, permanent: bool },
    Deduct { resource: Seq<char>, amount: i32 },
    GrantArmor { amount: i32 },
    LimitDamage { max_per_hit: i32 },
    Nullify { target: Seq<char> },
    Seal { quality: Seq<char>, duration: Seq<char> },
    ResetCooldown { skill_name: Seq<char> },
    Eliminate,
    SetNearDeath,
    TreatAs { card_name: Seq<char> },
    StoreAsMark { mark_name: Seq<char>, max: i32 },
    ReleaseMarkDamage,
    RearrangeTop { count: i32 },
    ChangeIdentity { identity: Seq<char> },
    ExecuteTag { tag_name: Seq<char> },
    ForceEffect { description: Seq<char> },
    FlipJudge { description: Seq<char> },
    CopyEffect { description: Seq<char> },
    SelectKeep { keep: i32, from: i32 },
    ReturnToDeck { description: Seq<char> },
    LockTargets { count: i32 },
    Replenish { resource: Seq<char>, amount: i32 },
    ConvertDamage { to_type: DamageType },
    BonusDamage { amount: i32, damage_type: DamageType },
    DrawToMatch { target_side: PlayerSide },
    GainExtraAttack { count: i32 },
    RevealHand { target_side: PlayerSide },
    ForceUseCard,
    BanQuality { quality: Seq<char> },
    JudgeCard,
    StealHand { condition: Seq<char> },
}

impl View for EffectType {
    type V = EffectKind;

    open spec fn view(&self) -> EffectKind {
        match self {
            EffectType::DealDamage { amount, damage_type } => EffectKind::DealDamage { amount: *amount, damage_type: *damage_type },
            EffectType::Heal { amount } => EffectKind::Heal { amount: *amount },
            EffectType::RestoreEnergy { amount } => EffectKind::RestoreEnergy { amount: *amount },
            EffectType::GainArmor { amount } => EffectKind::GainArmor { amount: *amount },
            EffectType::GainMark { mark_name, count, max } => EffectKind::GainMark { mark_name: mark_name@, count: *count, max: *max },
            EffectType::ConsumeMark { mark_name, count } => EffectKind::ConsumeMark { mark_name: mark_name@, count: *count },
            EffectType::Remove { target_what, amount } => EffectKind::Remove { target_what: target_what@, amount: *amount },
            EffectType::Discard { count, quality } => EffectKind::Discard { count: *count, quality: match quality { Some(x) => Some(x@), None => None } },
            EffectType::Draw { count, card_type } => EffectKind::Draw { count: *count, card_type: match card_type { Some(x) => Some(x@), None => None } },
            EffectType::Immune { condition } => EffectKind::Immune { condition: condition@ },
            EffectType::CounterDamage { amount } => EffectKind::CounterDamage { amount: *amount },
            EffectType::IncreaseStat { stat, amount, permanent } => EffectKind::IncreaseStat { stat: stat@, amount: *amount, permanent: *permanent },
            EffectType::DecreaseStat { stat, amount, permanent } => EffectKind::DecreaseStat { stat: stat@, amount: *amount, permanent: *permanent },
            EffectType::Deduct { resource, amount } => EffectKind::Deduct { resource: resource@, amount: *amount },
            EffectType::GrantArmor { amount } => EffectKind::GrantArmor { amount: *amount },
            EffectType::LimitDamage { max_per_hit } => EffectKind::LimitDamage { max_per_hit: *max_per_hit },
            EffectType::Nullify { target } => EffectKind::Nullify { target: target@ },
            EffectType::Seal { quality, duration } => EffectKind::Seal { quality: quality@, duration: duration@ },
            EffectType::ResetCooldown { skill_name } => EffectKind::ResetCooldown { skill_name: skill_name@ },
            EffectType::Eliminate => EffectKind::Eliminate,
            EffectType::SetNearDeath => EffectKind::SetNearDeath,
            EffectType::TreatAs { card_name } => EffectKind::TreatAs { card_name: card_name@ },
            EffectType::StoreAsMark { mark_name, max } => EffectKind::StoreAsMark { mark_name: mark_name@, max: *max },
            EffectType::ReleaseMarkDamage => EffectKind::ReleaseMarkDamage,
            EffectType::RearrangeTop { count } => EffectKind::RearrangeTop { count: *count },
            EffectType::ChangeIdentity { identity } => EffectKind::ChangeIdentity { identity: identity@ },
            EffectType::ExecuteTag { tag_name } => EffectKind::ExecuteTag { tag_name: tag_name@ },
            EffectType::ForceEffect { description } => EffectKind::ForceEffect { description: description@ },
            EffectType::FlipJudge { description } => EffectKind::FlipJudge { description: description@ },
            EffectType::CopyEffect { description } => EffectKind::CopyEffect { description: description@ },
            EffectType::SelectKeep { keep, from } => EffectKind::SelectKeep { keep: *keep, from: *from },
            EffectType::ReturnToDeck { description } => EffectKind::ReturnToDeck { description: description@ },
            EffectType::LockTargets { count } => EffectKind::LockTargets { count: *count },
            EffectType::Replenish { resource, amount } => EffectKind::Replenish { resource: resource@, amount: *amount },
            EffectType::ConvertDamage { to_type } => EffectKind::ConvertDamage { to_type: *to_type },
            EffectType::BonusDamage { amount, damage_type } => EffectKind::BonusDamage { amount: *amount, damage_type: *damage_type },
            EffectType::DrawToMatch { target_side } => EffectKind::DrawToMatch { target_side: *target_side },
            EffectType::GainExtraAttack { count } => EffectKind::GainExtraAttack { count: *count },
            EffectType::RevealHand { target_side } => EffectKind::RevealHand { target_side: *target_side },
            EffectType::ForceUseCard => EffectKind::ForceUseCard,
            EffectType::BanQuality { quality } => EffectKind::BanQuality { quality: quality@ },
            EffectType::JudgeCard => EffectKind::JudgeCard,
            EffectType::StealHand { condition } => EffectKind::StealHand { condition: condition@ },
        }
    }
}

/// When an effect fires.
#[derive(Debug, Clone, PartialEq)]
pub enum TriggerCondition {
    Unconditional,
    Cost { resource: String, amount: i32, extra: Option<String> },
    OnEvent { event: String, params: Vec<String> },
    Threshold { stat: String, operator: String, value: i32 },
    StateCheck { target: String, condition: String },
    Cumulative { tracked_what: String, operator: String, value: i32 },
    Declare { what: String, value: String },
    JudgeResult { condition: String, expected: String },
    Ordinal { nth: i32, scope: String },
}

/// A `TriggerCondition` with its texts as char sequences.
pub enum TriggerKind {
    Unconditional,
    Cost { resource: Seq<char>, amount: i32, extra: Option<Seq<char>> },
    OnEvent { event: Seq<char>, params: Seq<Seq<char>> },
    Threshold { stat: Seq<char>, operator: Seq<char>, value: i32 },
    StateCheck { target: Seq<char>, condition: Seq<char> },
    Cumulative { tracked_what: Seq<char>, operator: Seq<char>, value: i32 },
    Declare { what: Seq<char>, value: Seq<char> },
    JudgeResult { condition: Seq<char>, expected: Seq<char> },
    Ordinal { nth: i32, scope: Seq<char> },
}

impl View for TriggerCondition {
    type V = TriggerKind;

    open spec fn view(&self) -> TriggerKind {
        match self {
            TriggerCondition::Unconditional => TriggerKind::Unconditional,
            TriggerCondition::Cost { resource, amount, extra } => TriggerKind::Cost { resource: resource@, amount: *amount, extra: match extra { Some(x) => Some(x@), None => None } },
            TriggerCondition::OnEvent { event, params } => TriggerKind::OnEvent { event: event@, params: params.deep_view() },
            TriggerCondition::Threshold { stat, operator, value } => TriggerKind::Threshold { stat: stat@, operator: operator@, value: *value },
            TriggerCondition::StateCheck { target, condition } => TriggerKind::StateCheck { target: target@, condition: condition@ },
            TriggerCondition::Cumulative { tracked_what, operator, value } => TriggerKind::Cumulative { tracked_what: tracked_what@, operator: operator@, value: *value },
            TriggerCondition::Declare { what, value } => TriggerKind::Declare { what: what@, value: value@ },
            TriggerCondition::JudgeResult { condition, expected } => TriggerKind::JudgeResult { condition: condition@, expected: expected@ },
            TriggerCondition::Ordinal { nth, scope } => TriggerKind::Ordinal { nth: *nth, scope: scope@ },
        }
    }
}


/// Whom an effect is aimed at.
#[derive(Debug, Clone, PartialEq)]
pub enum TargetSelector {
    Self_,
    Target,
    Attacker,
    DamageSource,
    AllOthers,
    Player(PlayerSide),
    AnyUnit,
    TwoUnits,
    CardName(String),
}

/// A `TargetSelector` with its text as a char sequence.
pub enum TargetKind {
    Self_,
    Target,
    Attacker,
    DamageSource,
    AllOthers,
    Player(PlayerSide),
    AnyUnit,
    TwoUnits,
    CardName(Seq<char>),
}

impl View for TargetSelector {
    type V = TargetKind;

    open spec fn view(&self) -> TargetKind {
        match self {
            TargetSelector::Self_ => TargetKind::Self_,
            TargetSelector::Target => TargetKind::Target,
            TargetSelector::Attacker => TargetKind::Attacker,
            TargetSelector::DamageSource => TargetKind::DamageSource,
            TargetSelector::AllOthers => TargetKind::AllOthers,
            TargetSelector::Player(s) => TargetKind::Player(*s),
            TargetSelector::AnyUnit => TargetKind::AnyUnit,
            TargetSelector::TwoUnits => TargetKind::TwoUnits,
            TargetSelector::CardName(n) => TargetKind::CardName(n@),
        }
    }
}

/// An executable effect built from one row of a card.
#[derive(Debug, Clone)]
pub struct Effect {
    pub effect_type: EffectType,
    pub trigger: TriggerCondition,
    pub target: TargetSelector,
    pub value: i32,
    pub source_card: String,
    pub condition_text: String,
    pub subject_text: String,
    pub predicate_text: String,
    pub object_text: String,
    pub note: String,
    pub limit: Option<String>,
}

// ---------------------------------------------------------------------------
// Subjects
// ---------------------------------------------------------------------------

/// Target named by a subject text.
pub open spec fn subject_target(subject: Seq<char>) -> TargetKind {
    let s = trim(subject);
    if s == "自身"@ {
        TargetKind::Self_
    } else if s == "目标"@ {
        TargetKind::Target
    } else if s == "攻击者"@ {
        TargetKind::Attacker
    } else if s == "伤害来源"@ {
        TargetKind::DamageSource
    } else if has_sub(s, "其他"@) {
        TargetKind::AllOthers
    } else {
        TargetKind::Target
    }
}

pub fn parse_subject(subject: &str) -> (r: TargetSelector)
    ensures
        r@ == subject_target(subject@),
{
    let s = trim_str(subject);
    if eq_lit(&s, "自身") {
        TargetSelector::Self_
    } else if eq_lit(&s, "目标") {
        TargetSelector::Target
    } else if eq_lit(&s, "攻击者") {
        TargetSelector::Attacker
    } else if eq_lit(&s, "伤害来源") {
        TargetSelector::DamageSource
    } else if contains_lit(&s, "其他") {
        TargetSelector::AllOthers
    } else {
        TargetSelector::Target
    }
}

// ---------------------------------------------------------------------------
// Names inside object texts
// ---------------------------------------------------------------------------

/// The text between the first `open` and the first `close` after it.
pub open spec fn bracketed(s: Seq<char>, open: Seq<char>, close: Seq<char>) -> Option<Seq<char>> {
    match find(s, open) {
        Some(i) => {
            let after = s.subrange(i + open.len(), s.len() as int);
            match find(after, close) {
                Some(j) => Some(after.subrange(0, j)),
                None => None,
            }
        },
        None => None,
    }
}

fn bracketed_exec(s: &Vec<char>, open: &str, close: &str) -> (r: Option<Vec<char>>)
    ensures
        match r {
            Some(v) => bracketed(s@, open@, close@) == Some(v@),
            None => bracketed(s@, open@, close@) is None,
        },
{
    let ov = chars_of(open);
    match find_lit(s, open) {
        Some(i) => {
            assert(i + ov.len() <= s.len());
            let after = slice_vec(s, i + ov.len(), s.len());
            match find_lit(&after, close) {
                Some(j) => {
                    let inner = slice_vec(&after, 0, j);
                    Some(inner)
                },
                None => None,
            }
        },
        None => None,
    }
}

/// Mark name an object text refers to: the name in 「」 if any, else a known
/// mark it mentions, else "标记".
pub open spec fn mark_name_of(obj: Seq<char>) -> Seq<char> {
    match bracketed(obj, "「"@, "」"@) {
        Some(n) => n,
        None => if has_sub(obj, "仁心"@) {
            "仁心"@
        } else if has_sub(obj, "自然"@) {
            "自然"@
        } else if has_sub(obj, "法令"@) {
            "法令"@
        } else if has_sub(obj, "坚守"@) {
            "坚守"@
        } else if has_sub(obj, "谋略"@) {
            "谋略"@
        } else if has_sub(obj, "零件"@) {
            "零件"@
        } else if has_sub(obj, "蓄力"@) {
            "蓄力"@
        } else if has_sub(obj, "材料"@) {
            "材料"@
        } else if has_sub(obj, "噬魂"@) {
            "噬魂"@
        } else {
            "标记"@
        },
    }
}

/// Tag name an object text refers to: the name in [] if any, else the whole text.
pub open spec fn tag_name_of(obj: Seq<char>) -> Seq<char> {
    match bracketed(obj, "["@, "]"@) {
        Some(n) => n,
        None => obj,
    }
}

fn mark_name_chars(obj: &Vec<char>) -> (r: String)
    ensures
        r@ == mark_name_of(obj@),
{
    match bracketed_exec(obj, "「", "」") {
        Some(v) => string_of(&v),
        None => {
            if contains_lit(obj, "仁心") {
                owned("仁心")
            } else if contains_lit(obj, "自然") {
                owned("自然")
            } else if contains_lit(obj, "法令") {
                owned("法令")
            } else if contains_lit(obj, "坚守") {
                owned("坚守")
            } else if contains_lit(obj, "谋略") {
                owned("谋略")
            } else if contains_lit(obj, "零件") {
                owned("零件")
            } else if contains_lit(obj, "蓄力") {
                owned("蓄力")
            } else if contains_lit(obj, "材料") {
                owned("材料")
            } else if contains_lit(obj, "噬魂") {
                owned("噬魂")
            } else {
                owned("标记")
            }
        },
    }
}

fn tag_name_chars(obj: &Vec<char>) -> (r: String)
    ensures
        r@ == tag_name_of(obj@),
{
    match bracketed_exec(obj, "[", "]") {
        Some(v) => string_of(&v),
        None => string_of(obj),
    }
}

/// The mark name in an object text.
pub fn extract_mark_name(obj: &str) -> (r: String)
    ensures
        r@ == mark_name_of(obj@),
{
    let v = chars_of(obj);
    mark_name_chars(&v)
}

/// The tag name in an object text.
pub fn extract_tag_name(obj: &str) -> (r: String)
    ensures
        r@ == tag_name_of(obj@),
{
    let v = chars_of(obj);
    tag_name_chars(&v)
}

// ---------------------------------------------------------------------------
// The number in an object text
// ---------------------------------------------------------------------------

pub open spec fn num_char(c: char) -> bool {
    ('0' <= c && c <= '9') || c == '-' || c == '.'
}

/// `a..b` is the first run of digits, signs and points in `s`.
pub open spec fn first_num_run(s: Seq<char>, a: int, b: int) -> bool {
    &&& 0 <= a < b <= s.len()
    &&& forall|k: int| 0 <= k < a ==> !num_char(#[trigger] s[k])
    &&& forall|k: int| a <= k < b ==> num_char(#[trigger] s[k])
    &&& (b == s.len() || !num_char(s[b]))
}

/// The first run of digits, `-` and `.` in `s`: the text that is read as the
/// effect's number.
pub open spec fn number_run(s: Seq<char>) -> Option<Seq<char>> {
    if exists|a: int, b: int| first_num_run(s, a, b) {
        let (a, b) = choose|a: int, b: int| first_num_run(s, a, b);
        Some(s.subrange(a, b))
    } else {
        None
    }
}

pub proof fn lemma_num_run_unique(s: Seq<char>, a: int, b: int, a2: int, b2: int)
    requires
        first_num_run(s, a, b),
        first_num_run(s, a2, b2),
    ensures
        a == a2 && b == b2,
{
    if a < a2 {
        assert(!num_char(s[a]));
    } else if a2 < a {
        assert(!num_char(s[a2]));
    }
    if b < b2 {
        assert(num_char(s[b]));
    } else if b2 < b {
        assert(num_char(s[b2]));
    }
}

/// The text the effect's number is read from (its first run of digits, `-`
/// and `.`), or `None` when the text has none.
pub fn number_text(s: &str) -> (r: Option<String>)
    ensures
        match r {
            Some(t) => number_run(s@) == Some(t@),
            None => number_run(s@) is None,
        },
{
    let v = chars_of(s);
    let mut a: usize = 0;
    while a < v.len() && !num_char_exec(v[a])
        invariant
            a <= v.len(),
            v@ == s@,
            forall|k: int| 0 <= k < a ==> !num_char(#[trigger] v@[k]),
        decreases v.len() - a,
    {
        a = a + 1;
    }
    if a == v.len() {
        proof {
            assert forall|x: int, y: int| !first_num_run(s@, x, y) by {
                if first_num_run(s@, x, y) {
                    assert(num_char(s@[x]));
                    assert(!num_char(v@[x]));
                }
            }
        }
        return None;
    }
    let mut b: usize = a + 1;
    while b < v.len() && num_char_exec(v[b])
        invariant
            a < b <= v.len(),
            v@ == s@,
            num_char(v@[a as int]),
            forall|k: int| a <= k < b ==> num_char(#[trigger] v@[k]),
        decreases v.len() - b,
    {
        b = b + 1;
    }
    proof {
        assert(first_num_run(s@, a as int, b as int));
        let (x, y) = choose|x: int, y: int| first_num_run(s@, x, y);
        lemma_num_run_unique(s@, a as int, b as int, x, y);
    }
    let t = slice_vec(&v, a, b);
    Some(string_of(&t))
}

fn num_char_exec(c: char) -> (r: bool)
    ensures
        r == num_char(c),
{
    ('0' <= c && c <= '9') || c == '-' || c == '.'
}

// ---------------------------------------------------------------------------
// Conditions
// ---------------------------------------------------------------------------

/// Value of the digits of `s`, read in order, other chars skipped.
pub open spec fn cost_num(s: Seq<char>) -> int
    decreases s.len(),
{
    if s.len() == 0 {
        0
    } else if is_digit(s.last()) {
        cost_num(s.drop_last()) * 10 + (s.last() as int - '0' as int)
    } else {
        cost_num(s.drop_last())
    }
}

/// The chars of a cost text that name the resource: all but digits, '点' and spaces.
pub open spec fn cost_resource(s: Seq<char>) -> Seq<char> {
    s.filter(|c: char| !is_digit(c) && c != '点' && c != ' ')
}

/// Resource a cost text names.
pub open spec fn resource_name(res: Seq<char>) -> Seq<char> {
    if has_sub(res, "技力"@) {
        "技力"@
    } else if has_sub(res, "生命"@) {
        "生命"@
    } else if has_sub(res, "标记"@) {
        "标记"@
    } else if has_sub(res, "张"@) {
        "手牌"@
    } else {
        "资源"@
    }
}

/// The text of a cost condition after "消耗".
pub open spec fn cost_rest(c: Seq<char>) -> Seq<char> {
    c.subrange("消耗"@.len() as int, c.len() as int)
}

/// The first two pieces of `c` split at `op`.
pub open spec fn split_two(c: Seq<char>, op: Seq<char>) -> (Seq<char>, Seq<char>) {
    match find(c, op) {
        Some(i) => {
            let after = c.subrange(i + op.len(), c.len() as int);
            (
                c.subrange(0, i),
                match find(after, op) {
                    Some(j) => after.subrange(0, j),
                    None => after,
                },
            )
        },
        None => (c, Seq::empty()),
    }
}

/// The number in a text made of its digits, 1 if they do not make one.
pub open spec fn digits_or(s: Seq<char>, d: i32) -> i32 {
    match parse_i32(digits_only(s)) {
        Some(v) => v,
        None => d,
    }
}

pub open spec fn threshold_of(c: Seq<char>, op: Seq<char>) -> TriggerKind {
    let (a, b) = split_two(c, op);
    TriggerKind::Threshold { stat: trim(a), operator: op, value: digits_or(b, 1) }
}

/// The N of "每回合第N次".
pub open spec fn ordinal_nth(c: Seq<char>) -> Option<i32> {
    if has_prefix(c, "每回合第"@) {
        let rest = c.subrange("每回合第"@.len() as int, c.len() as int);
        match find(rest, "次"@) {
            Some(e) => parse_i32(rest.subrange(0, e)),
            None => None,
        }
    } else {
        None
    }
}

/// The trigger a condition text states.
pub open spec fn condition_trigger(cond: Seq<char>) -> TriggerKind {
    let c = trim(cond);
    if c.len() == 0 || c == "—"@ {
        TriggerKind::Unconditional
    } else if has_prefix(c, "消耗"@) {
        let rest = cost_rest(c);
        TriggerKind::Cost {
            resource: resource_name(cost_resource(rest)),
            amount: if cost_num(rest) >= 1 { cost_num(rest) as i32 } else { 1i32 },
            extra: None,
        }
    } else if has_sub(c, "时"@) || has_sub(c, "后"@) {
        TriggerKind::OnEvent { event: c, params: Seq::empty() }
    } else if has_sub(c, "≥"@) || has_sub(c, "＜"@) || has_sub(c, "<"@) || has_sub(c, ">"@) {
        if has_sub(c, "≥"@) {
            threshold_of(c, "≥"@)
        } else if has_sub(c, "＜"@) {
            threshold_of(c, "＜"@)
        } else {
            TriggerKind::Unconditional
        }
    } else if has_prefix(c, "目标有"@) || has_prefix(c, "目标无"@) || has_prefix(c, "目标生命"@)
        || has_prefix(c, "目标手牌"@) {
        TriggerKind::StateCheck { target: "目标"@, condition: c }
    } else if has_prefix(c, "宣言"@) {
        TriggerKind::Declare { what: "品质"@, value: trim(c.subrange("宣言"@.len() as int, c.len() as int)) }
    } else if has_sub(c, "判定牌"@) {
        TriggerKind::JudgeResult { condition: "判定牌"@, expected: c }
    } else if has_prefix(c, "累计"@) {
        TriggerKind::Cumulative { tracked_what: "受伤"@, operator: "≥"@, value: 3 }
    } else if ordinal_nth(c) is Some {
        TriggerKind::Ordinal { nth: ordinal_nth(c)->0, scope: "每回合"@ }
    } else {
        TriggerKind::OnEvent { event: c, params: Seq::empty() }
    }
}

/// The cost amount of a condition text fits an `i32`.
pub open spec fn condition_fits(cond: Seq<char>) -> bool {
    has_prefix(trim(cond), "消耗"@) ==> cost_num(cost_rest(trim(cond))) <= i32::MAX
}

pub proof fn lemma_cost_num_prefix(s: Seq<char>, i: int)
    requires
        0 <= i <= s.len(),
    ensures
        0 <= cost_num(s.subrange(0, i)) <= cost_num(s),
    decreases s.len(),
{
    if i == s.len() {
        assert(s.subrange(0, i) =~= s);
        if s.len() > 0 {
            lemma_cost_num_prefix(s.drop_last(), 0);
        }
    } else {
        assert(s.drop_last().subrange(0, i) =~= s.drop_last().subrange(0, i));
        assert(s.drop_last().subrange(0, i) =~= s.subrange(0, i));
        lemma_cost_num_prefix(s.drop_last(), i);
    }
}

/// Amount and resource of a cost text.
fn parse_cost(rest: &Vec<char>) -> (r: (i32, Vec<char>))
    requires
        cost_num(rest@) <= i32::MAX,
    ensures
        r.0 == cost_num(rest@),
        r.1@ == cost_resource(rest@),
{
    let mut num: i32 = 0;
    let mut res: Vec<char> = Vec::new();
    let mut i: usize = 0;
    while i < rest.len()
        invariant
            i <= rest.len(),
            cost_num(rest@) <= i32::MAX,
            num == cost_num(rest@.subrange(0, i as int)),
            res@ == cost_resource(rest@.subrange(0, i as int)),
        decreases rest.len() - i,
    {
        let c = rest[i];
        let ghost pre = rest@.subrange(0, i as int);
        let ghost nxt = rest@.subrange(0, i + 1);
        assert(nxt.drop_last() =~= pre);
        proof {
            reveal(Seq::filter);
            lemma_cost_num_prefix(rest@, i + 1);
        }
        if '0' <= c && c <= '9' {
            let d: i32 = (c as u32 - '0' as u32) as i32;
            num = num * 10 + d;
        } else if c != '点' && c != ' ' {
            res.push(c);
        }
        i = i + 1;
    }
    assert(rest@.subrange(0, rest.len() as int) =~= rest@);
    (num, res)
}

fn resource_name_exec(res: &Vec<char>) -> (r: String)
    ensures
        r@ == resource_name(res@),
{
    if contains_lit(res, "技力") {
        owned("技力")
    } else if contains_lit(res, "生命") {
        owned("生命")
    } else if contains_lit(res, "标记") {
        owned("标记")
    } else if contains_lit(res, "张") {
        owned("手牌")
    } else {
        owned("资源")
    }
}

fn split_two_exec(c: &Vec<char>, op: &str) -> (r: (Vec<char>, Vec<char>))
    ensures
        (r.0@, r.1@) == split_two(c@, op@),
{
    let ov = chars_of(op);
    match find_lit(c, op) {
        Some(i) => {
            let a = slice_vec(c, 0, i);
            let after = slice_vec(c, i + ov.len(), c.len());
            let b = match find_lit(&after, op) {
                Some(j) => slice_vec(&after, 0, j),
                None => after,
            };
            (a, b)
        },
        None => {
            let a = slice_vec(c, 0, c.len());
            assert(a@ =~= c@);
            (a, Vec::new())
        },
    }
}

fn threshold_exec(c: &Vec<char>, op: &str) -> (r: TriggerCondition)
    ensures
        r@ == threshold_of(c@, op@),
{
    let (a, b) = split_two_exec(c, op);
    let stat = trim_vec(&a);
    let digits = digits_of(&b);
    let value = match parse_i32_chars(&digits) {
        Some(v) => v,
        None => 1,
    };
    TriggerCondition::Threshold { stat: string_of(&stat), operator: owned(op), value }
}

fn ordinal_exec(c: &Vec<char>) -> (r: Option<i32>)
    ensures
        r == ordinal_nth(c@),
{
    let pre = chars_of("每回合第");
    if !matches_at(c, &pre, 0) {
        return None;
    }
    let rest = slice_vec(c, pre.len(), c.len());
    match find_lit(&rest, "次") {
        Some(e) => {
            let head = slice_vec(&rest, 0, e);
            parse_i32_chars(&head)
        },
        None => None,
    }
}

fn no_params() -> (r: Vec<String>)
    ensures
        r.deep_view() == Seq::<Seq<char>>::empty(),
{
    let v: Vec<String> = Vec::new();
    assert(v.deep_view() =~= Seq::<Seq<char>>::empty());
    v
}

/// The trigger stated by a condition text.
pub fn parse_condition(cond: &str, _object: &str) -> (r: TriggerCondition)
    requires
        condition_fits(cond@),
    ensures
        r@ == condition_trigger(cond@),
{
    let c = trim_str(cond);
    if c.len() == 0 || eq_lit(&c, "—") {
        return TriggerCondition::Unconditional;
    }
    let cost = chars_of("消耗");
    if matches_at(&c, &cost, 0) {
        let rest = slice_vec(&c, cost.len(), c.len());
        let (num, res) = parse_cost(&rest);
        let resource = resource_name_exec(&res);
        let amount = if num >= 1 { num } else { 1 };
        return TriggerCondition::Cost { resource, amount, extra: None };
    }
    if contains_lit(&c, "时") || contains_lit(&c, "后") {
        return TriggerCondition::OnEvent { event: string_of(&c), params: no_params() };
    }
    if contains_lit(&c, "≥") || contains_lit(&c, "＜") || contains_lit(&c, "<") || contains_lit(
        &c,
        ">",
    ) {
        if contains_lit(&c, "≥") {
            return threshold_exec(&c, "≥");
        } else if contains_lit(&c, "＜") {
            return threshold_exec(&c, "＜");
        } else {
            return TriggerCondition::Unconditional;
        }
    }
    if starts_with_lit(&c, "目标有") || starts_with_lit(&c, "目标无") || starts_with_lit(&c, "目标生命")
        || starts_with_lit(&c, "目标手牌") {
        return TriggerCondition::StateCheck { target: owned("目标"), condition: string_of(&c) };
    }
    let declare = chars_of("宣言");
    if matches_at(&c, &declare, 0) {
        let rest = slice_vec(&c, declare.len(), c.len());
        let v = trim_vec(&rest);
        return TriggerCondition::Declare { what: owned("品质"), value: string_of(&v) };
    }
    if contains_lit(&c, "判定牌") {
        return TriggerCondition::JudgeResult { condition: owned("判定牌"), expected: string_of(&c) };
    }
    if starts_with_lit(&c, "累计") {
        return TriggerCondition::Cumulative {
            tracked_what: owned("受伤"),
            operator: owned("≥"),
            value: 3,
        };
    }
    match ordinal_exec(&c) {
        Some(n) => TriggerCondition::Ordinal { nth: n, scope: owned("每回合") },
        None => TriggerCondition::OnEvent { event: string_of(&c), params: no_params() },
    }
}

// ---------------------------------------------------------------------------
// Predicates
// ---------------------------------------------------------------------------

pub open spec fn dmg3(obj: Seq<char>) -> DamageType {
    if has_sub(obj, "法术"@) {
        DamageType::Magical
    } else if has_sub(obj, "真实"@) {
        DamageType::True
    } else {
        DamageType::Physical
    }
}

pub open spec fn dmg2(obj: Seq<char>) -> DamageType {
    if has_sub(obj, "法术"@) { DamageType::Magical } else { DamageType::Physical }
}

pub open spec fn dmg_true(obj: Seq<char>) -> DamageType {
    if has_sub(obj, "真实"@) { DamageType::True } else { DamageType::Physical }
}

/// "p → obj", the text kept for effects too involved to model.
pub open spec fn arrow_text(p: Seq<char>, obj: Seq<char>) -> Seq<char> {
    p + " → "@ + obj
}

fn dmg3_exec(obj: &Vec<char>) -> (r: DamageType)
    ensures
        r == dmg3(obj@),
{
    if contains_lit(obj, "法术") {
        DamageType::Magical
    } else if contains_lit(obj, "真实") {
        DamageType::True
    } else {
        DamageType::Physical
    }
}

fn dmg2_exec(obj: &Vec<char>) -> (r: DamageType)
    ensures
        r == dmg2(obj@),
{
    if contains_lit(obj, "法术") { DamageType::Magical } else { DamageType::Physical }
}

fn dmg_true_exec(obj: &Vec<char>) -> (r: DamageType)
    ensures
        r == dmg_true(obj@),
{
    if contains_lit(obj, "真实") { DamageType::True } else { DamageType::Physical }
}

fn arrow_text_exec(p: &Vec<char>, obj: &Vec<char>) -> (r: String)
    ensures
        r@ == arrow_text(p@, obj@),
{
    let mut s = string_of(p);
    append_str(&mut s, " → ");
    append_chars(&mut s, obj);
    s
}

/// The effect kind a predicate (and its object) names, both trimmed.
pub open spec fn predicate_effect(p: Seq<char>, obj: Seq<char>, value: i32) -> EffectKind {
    if p == "造成"@ {
        EffectKind::DealDamage { amount: value, damage_type: dmg3(obj) }
    } else if p == "恢复"@ {
        if has_sub(obj, "技力"@) { EffectKind::RestoreEnergy { amount: value } } else { EffectKind::Heal { amount: value } }
    } else if p == "获得"@ {
        if has_sub(obj, "护甲"@) {
            EffectKind::GainArmor { amount: value }
        } else if has_sub(obj, "标记"@) || has_sub(obj, "「"@) {
            EffectKind::GainMark { mark_name: mark_name_of(obj), count: value, max: None }
        } else if has_sub(obj, "技力"@) {
            EffectKind::RestoreEnergy { amount: value }
        } else {
            EffectKind::IncreaseStat { stat: obj, amount: value, permanent: false }
        }
    } else if p == "弃置"@ {
        EffectKind::Discard { count: value, quality: None }
    } else if p == "抽取"@ || p == "抽取并立即使用"@ {
        EffectKind::Draw {
            count: value,
            card_type: if has_sub(obj, "构筑"@) {
                Some("构筑卡"@)
            } else if has_sub(obj, "基本"@) {
                Some("基本牌"@)
            } else {
                None
            },
        }
    } else if p == "免疫"@ {
        EffectKind::Immune { condition: obj }
    } else if p == "消耗"@ {
        if has_sub(obj, "标记"@) || has_sub(obj, "「"@) {
            EffectKind::ConsumeMark { mark_name: mark_name_of(obj), count: value }
        } else {
            EffectKind::Discard { count: value, quality: None }
        }
    } else if p == "放置"@ {
        EffectKind::GainMark { mark_name: mark_name_of(obj), count: 1, max: None }
    } else if p == "移除"@ {
        EffectKind::Remove {
            target_what: if has_sub(obj, "标记"@) {
                "标记"@
            } else if has_sub(obj, "护甲"@) {
                "护甲"@
            } else {
                "技力"@
            },
            amount: value,
        }
    } else if p == "判定"@ || p == "令目标判定"@ {
        EffectKind::JudgeCard
    } else if p == "锁定"@ {
        EffectKind::LockTargets { count: 2 }
    } else if p == "积累"@ {
        EffectKind::GainMark { mark_name: mark_name_of(obj), count: value, max: None }
    } else if p == "补充"@ {
        EffectKind::Replenish {
            resource: if has_sub(obj, "谋略"@) { "谋略"@ } else { "资源"@ },
            amount: value,
        }
    } else if p == "抵消"@ {
        EffectKind::CounterDamage { amount: value }
    } else if p == "增加"@ {
        EffectKind::IncreaseStat {
            stat: if has_sub(obj, "法术"@) {
                "法术伤害"@
            } else if has_sub(obj, "物理"@) {
                "物理伤害"@
            } else if has_sub(obj, "上限"@) {
                "技力上限"@
            } else {
                "伤害"@
            },
            amount: value,
            permanent: has_sub(obj, "永久"@),
        }
    } else if p == "降低"@ {
        EffectKind::DecreaseStat {
            stat: if has_sub(obj, "上限"@) { "技力上限"@ } else { "技力"@ },
            amount: value,
            permanent: has_sub(obj, "永久"@),
        }
    } else if p == "扣除"@ {
        EffectKind::Deduct {
            resource: if has_sub(obj, "技力"@) {
                "技力"@
            } else if has_sub(obj, "生命"@) {
                "生命"@
            } else {
                "护甲"@
            },
            amount: value,
        }
    } else if p == "赋予"@ {
        EffectKind::GrantArmor { amount: value }
    } else if p == "限制"@ {
        EffectKind::LimitDamage { max_per_hit: value }
    } else if p == "无效化"@ || p == "使目标的基本牌无效化"@ {
        EffectKind::Nullify { target: obj }
    } else if p == "封锁"@ || p == "封锁其他单位"@ {
        EffectKind::Seal {
            quality: if has_sub(obj, "品质"@) { obj } else { "低于紫色"@ },
            duration: "下回合开始前"@,
        }
    } else if p == "重置"@ {
        EffectKind::ResetCooldown { skill_name: obj }
    } else if p == "淘汰"@ {
        EffectKind::Eliminate
    } else if p == "视为"@ {
        EffectKind::TreatAs { card_name: obj }
    } else if p == "存储"@ {
        EffectKind::StoreAsMark { mark_name: mark_name_of(obj), max: 4 }
    } else {
        predicate_effect_rest(p, obj, value)
    }
}

/// What the main predicates of the rules mean, for every object text and
/// value: "造成" deals the value as damage (spell when the object says 法术,
/// true damage when it says 真实 and not 法术, physical otherwise); "恢复"
/// restores energy when the object names 技力 and life otherwise; "获得"
/// with 护甲 gains armor; "消耗" of a 「mark」 spends that many layers;
/// "抵消" counters damage; "弃置" discards and "抽取" draws that many cards;
/// "免疫" grants immunity under the object's condition.
pub proof fn lemma_predicate_meanings(obj: Seq<char>, v: i32)
    ensures
        (predicate_effect("造成"@, obj, v) matches EffectKind::DealDamage { amount, damage_type } && amount == v
            && (has_sub(obj, "法术"@) ==> damage_type == DamageType::Magical) && (!has_sub(obj, "法术"@)
            && has_sub(obj, "真实"@) ==> damage_type == DamageType::True) && (!has_sub(obj, "法术"@)
            && !has_sub(obj, "真实"@) ==> damage_type == DamageType::Physical)),
        has_sub(obj, "技力"@) ==> predicate_effect("恢复"@, obj, v) == (EffectKind::RestoreEnergy { amount: v }),
        !has_sub(obj, "技力"@) ==> predicate_effect("恢复"@, obj, v) == (EffectKind::Heal { amount: v }),
        has_sub(obj, "护甲"@) ==> predicate_effect("获得"@, obj, v) == (EffectKind::GainArmor { amount: v }),
        !has_sub(obj, "护甲"@) && !has_sub(obj, "标记"@) && !has_sub(obj, "「"@) && has_sub(obj, "技力"@)
            ==> predicate_effect("获得"@, obj, v) == (EffectKind::RestoreEnergy { amount: v }),
        has_sub(obj, "「"@) ==> predicate_effect("消耗"@, obj, v) == (EffectKind::ConsumeMark {
            mark_name: mark_name_of(obj),
            count: v,
        }),
        predicate_effect("抵消"@, obj, v) == (EffectKind::CounterDamage { amount: v }),
        (predicate_effect("弃置"@, obj, v) matches EffectKind::Discard { count, quality } && count == v
            && quality is None),
        (predicate_effect("抽取"@, obj, v) matches EffectKind::Draw { count, .. } && count == v),
        predicate_effect("免疫"@, obj, v) == (EffectKind::Immune { condition: obj }),
{
    reveal_strlit("造成");
    reveal_strlit("恢复");
    reveal_strlit("获得");
    reveal_strlit("弃置");
    reveal_strlit("抽取");
    reveal_strlit("抽取并立即使用");
    reveal_strlit("免疫");
    reveal_strlit("消耗");
    reveal_strlit("放置");
    reveal_strlit("移除");
    reveal_strlit("判定");
    reveal_strlit("令目标判定");
    reveal_strlit("锁定");
    reveal_strlit("积累");
    reveal_strlit("补充");
    reveal_strlit("抵消");
    assert("造成"@[0] == '造');
    assert("恢复"@[0] == '恢');
    assert("获得"@[0] == '获');
    assert("弃置"@[0] == '弃');
    assert("抽取"@[0] == '抽');
    assert("抽取并立即使用"@[0] == '抽');
    assert("免疫"@[0] == '免');
    assert("消耗"@[0] == '消');
    assert("放置"@[0] == '放');
    assert("移除"@[0] == '移');
    assert("判定"@[0] == '判');
    assert("令目标判定"@[0] == '令');
    assert("锁定"@[0] == '锁');
    assert("积累"@[0] == '积');
    assert("补充"@[0] == '补');
    assert("抵消"@[0] == '抵');
}

/// More of the predicate dictionary, for every object text and value:
/// "获得" of a mark (no 护甲 named) gains that many layers of the named mark;
/// "放置" puts one layer; "积累" gathers that many; "增加" raises a stat by
/// the value (spell damage for 法术, physical damage for 物理, the energy cap
/// for 上限, damage otherwise), for good only when it says 永久; "降低"
/// lowers the energy cap when it says 上限 and energy otherwise; "扣除"
/// takes energy, life or armor as the object names it; "赋予" grants armor;
/// "限制" caps damage per hit; "淘汰" eliminates.
pub proof fn lemma_predicate_meanings_more(obj: Seq<char>, v: i32)
    ensures
        !has_sub(obj, "护甲"@) && has_sub(obj, "「"@) ==> predicate_effect("获得"@, obj, v) == (EffectKind::GainMark {
            mark_name: mark_name_of(obj),
            count: v,
            max: None,
        }),
        predicate_effect("放置"@, obj, v) == (EffectKind::GainMark { mark_name: mark_name_of(obj), count: 1, max: None }),
        predicate_effect("积累"@, obj, v) == (EffectKind::GainMark { mark_name: mark_name_of(obj), count: v, max: None }),
        (predicate_effect("增加"@, obj, v) matches EffectKind::IncreaseStat { stat, amount, permanent } && amount == v
            && permanent == has_sub(obj, "永久"@) && (has_sub(obj, "法术"@) ==> stat == "法术伤害"@) && (!has_sub(
            obj,
            "法术"@,
        ) && has_sub(obj, "物理"@) ==> stat == "物理伤害"@) && (!has_sub(obj, "法术"@) && !has_sub(obj, "物理"@)
            && has_sub(obj, "上限"@) ==> stat == "技力上限"@) && (!has_sub(obj, "法术"@) && !has_sub(obj, "物理"@)
            && !has_sub(obj, "上限"@) ==> stat == "伤害"@)),
        (predicate_effect("降低"@, obj, v) matches EffectKind::DecreaseStat { stat, amount, permanent } && amount == v
            && permanent == has_sub(obj, "永久"@) && stat == (if has_sub(obj, "上限"@) {
            "技力上限"@
        } else {
            "技力"@
        })),
        (predicate_effect("扣除"@, obj, v) matches EffectKind::Deduct { resource, amount } && amount == v && (has_sub(
            obj,
            "技力"@,
        ) ==> resource == "技力"@) && (!has_sub(obj, "技力"@) && has_sub(obj, "生命"@) ==> resource == "生命"@)
            && (!has_sub(obj, "技力"@) && !has_sub(obj, "生命"@) ==> resource == "护甲"@)),
        predicate_effect("赋予"@, obj, v) == (EffectKind::GrantArmor { amount: v }),
        predicate_effect("限制"@, obj, v) == (EffectKind::LimitDamage { max_per_hit: v }),
        predicate_effect("淘汰"@, obj, v) == EffectKind::Eliminate,
{
    reveal_strlit("造成");
    assert("造成"@[0] == '造');
    reveal_strlit("恢复");
    assert("恢复"@[0] == '恢');
    reveal_strlit("获得");
    assert("获得"@[0] == '获');
    reveal_strlit("弃置");
    assert("弃置"@[0] == '弃');
    reveal_strlit("抽取");
    assert("抽取"@[0] == '抽');
    reveal_strlit("抽取并立即使用");
    assert("抽取并立即使用"@[0] == '抽');
    reveal_strlit("免疫");
    assert("免疫"@[0] == '免');
    reveal_strlit("消耗");
    assert("消耗"@[0] == '消');
    reveal_strlit("放置");
    assert("放置"@[0] == '放');
    reveal_strlit("移除");
    assert("移除"@[0] == '移');
    reveal_strlit("判定");
    assert("判定"@[0] == '判');
    reveal_strlit("令目标判定");
    assert("令目标判定"@[0] == '令');
    reveal_strlit("锁定");
    assert("锁定"@[0] == '锁');
    reveal_strlit("积累");
    assert("积累"@[0] == '积');
    reveal_strlit("补充");
    assert("补充"@[0] == '补');
    reveal_strlit("抵消");
    assert("抵消"@[0] == '抵');
    reveal_strlit("增加");
    assert("增加"@[0] == '增');
    reveal_strlit("降低");
    assert("降低"@[0] == '降');
    reveal_strlit("扣除");
    assert("扣除"@[0] == '扣');
    reveal_strlit("赋予");
    assert("赋予"@[0] == '赋');
    reveal_strlit("限制");
    assert("限制"@[0] == '限');
    reveal_strlit("无效化");
    assert("无效化"@[0] == '无');
    reveal_strlit("使目标的基本牌无效化");
    assert("使目标的基本牌无效化"@[0] == '使');
    reveal_strlit("封锁");
    assert("封锁"@[0] == '封');
    reveal_strlit("封锁其他单位");
    assert("封锁其他单位"@[0] == '封');
    reveal_strlit("重置");
    assert("重置"@[0] == '重');
    reveal_strlit("淘汰");
    assert("淘汰"@[0] == '淘');
}

pub open spec fn predicate_effect_rest(p: Seq<char>, obj: Seq<char>, value: i32) -> EffectKind {
    if p == "重排"@ {
        EffectKind::RearrangeTop { count: digits_or(obj, 3) }
    } else if p == "更换为"@ {
        EffectKind::ChangeIdentity { identity: obj }
    } else if p == "执行"@ {
        EffectKind::ExecuteTag { tag_name: tag_name_of(obj) }
    } else if p == "强制使"@ {
        EffectKind::ForceEffect { description: obj }
    } else if p == "强制目标弃置"@ {
        EffectKind::Discard {
            count: 1,
            quality: if has_sub(obj, "白"@) {
                Some("白色"@)
            } else if has_sub(obj, "宣言"@) {
                Some("宣言品质"@)
            } else {
                None
            },
        }
    } else if p == "翻牌堆顶"@ {
        EffectKind::FlipJudge { description: obj }
    } else if p == "复制"@ {
        EffectKind::CopyEffect { description: obj }
    } else if p == "选择保留"@ {
        EffectKind::SelectKeep { keep: value, from: (value * 2) as i32 }
    } else if p == "放回"@ {
        EffectKind::ReturnToDeck { description: obj }
    } else if p == "对伤害来源使用"@ || p == "对1单位造成"@ || p == "额外造成"@ {
        EffectKind::DealDamage { amount: value, damage_type: dmg2(obj) }
    } else if p == "可将本卡叠放至"@ {
        EffectKind::ChangeIdentity { identity: "技能栏"@ }
    } else if p == "将攻击视为"@ {
        EffectKind::ConvertDamage { to_type: dmg2(obj) }
    } else if p == "额外获得"@ {
        if has_sub(obj, "攻击次数"@) {
            EffectKind::GainExtraAttack { count: 1 }
        } else if has_sub(obj, "标记"@) {
            EffectKind::GainMark { mark_name: mark_name_of(obj), count: 1, max: None }
        } else {
            EffectKind::IncreaseStat { stat: obj, amount: 1, permanent: false }
        }
    } else if p == "额外抽取"@ {
        EffectKind::Draw { count: value, card_type: None }
    } else if p == "额外扣除"@ {
        EffectKind::Deduct { resource: "技力"@, amount: value }
    } else if p == "额外附加"@ {
        EffectKind::DealDamage { amount: value, damage_type: DamageType::True }
    } else if p == "转化伤害类型为"@ {
        EffectKind::ConvertDamage { to_type: dmg_true(obj) }
    } else if p == "附加"@ {
        EffectKind::BonusDamage { amount: value, damage_type: dmg_true(obj) }
    } else if p == "使目标进入"@ {
        EffectKind::SetNearDeath
    } else if p == "可移除目标"@ {
        EffectKind::Remove { target_what: "标记"@, amount: 1 }
    } else if p == "使本次物理伤害翻倍"@ || p == "进行"@ || p == "令目标出示"@ || p == "强制目标在自身回合开始时"@ || p == "抽取并公示目标"@ || p == "强制目标"@ {
        EffectKind::ForceEffect { description: arrow_text(p, obj) }
    } else if p == "持续抽牌至手牌数等于"@ {
        EffectKind::DrawToMatch { target_side: PlayerSide::Second }
    } else if p == "再抽取"@ {
        EffectKind::Draw { count: 1, card_type: None }
    } else if p == "减少"@ {
        EffectKind::CounterDamage { amount: value }
    } else if p == "弃置本甲胄并清空所有技力和护甲"@ {
        EffectKind::ForceEffect { description: "弃置甲胄清空技力护甲"@ }
    } else {
        if has_sub(p, "造成"@) {
            EffectKind::DealDamage { amount: value, damage_type: DamageType::Physical }
        } else if has_sub(p, "获得"@) {
            EffectKind::IncreaseStat { stat: obj, amount: value, permanent: false }
        } else if has_sub(p, "恢复"@) {
            EffectKind::Heal { amount: value }
        } else {
            EffectKind::ForceEffect { description: arrow_text(p, obj) }
        }
    }
}

fn predicate_exec(p: &Vec<char>, obj: &Vec<char>, value: i32) -> (r: EffectType)
    requires
        p@ == "选择保留"@ ==> i32::MIN <= value * 2 <= i32::MAX,
    ensures
        r@ == predicate_effect(p@, obj@, value),
{
    if eq_lit(p, "造成") {
        EffectType::DealDamage { amount: value, damage_type: dmg3_exec(obj) }
    } else if eq_lit(p, "恢复") {
        if contains_lit(obj, "技力") { EffectType::RestoreEnergy { amount: value } } else { EffectType::Heal { amount: value } }
    } else if eq_lit(p, "获得") {
        if contains_lit(obj, "护甲") {
            EffectType::GainArmor { amount: value }
        } else if contains_lit(obj, "标记") || contains_lit(obj, "「") {
            EffectType::GainMark { mark_name: mark_name_chars(obj), count: value, max: None }
        } else if contains_lit(obj, "技力") {
            EffectType::RestoreEnergy { amount: value }
        } else {
            EffectType::IncreaseStat { stat: string_of(obj), amount: value, permanent: false }
        }
    } else if eq_lit(p, "弃置") {
        EffectType::Discard { count: value, quality: None }
    } else if eq_lit(p, "抽取") || eq_lit(p, "抽取并立即使用") {
        {
            let card_type = if contains_lit(obj, "构筑") {
                Some(owned("构筑卡"))
            } else if contains_lit(obj, "基本") {
                Some(owned("基本牌"))
            } else {
                None
            };
            EffectType::Draw { count: value, card_type }
        }
    } else if eq_lit(p, "免疫") {
        EffectType::Immune { condition: string_of(obj) }
    } else if eq_lit(p, "消耗") {
        if contains_lit(obj, "标记") || contains_lit(obj, "「") {
            EffectType::ConsumeMark { mark_name: mark_name_chars(obj), count: value }
        } else {
            EffectType::Discard { count: value, quality: None }
        }
    } else if eq_lit(p, "放置") {
        EffectType::GainMark { mark_name: mark_name_chars(obj), count: 1, max: None }
    } else if eq_lit(p, "移除") {
        {
            let what = if contains_lit(obj, "标记") {
                owned("标记")
            } else if contains_lit(obj, "护甲") {
                owned("护甲")
            } else {
                owned("技力")
            };
            EffectType::Remove { target_what: what, amount: value }
        }
    } else if eq_lit(p, "判定") || eq_lit(p, "令目标判定") {
        EffectType::JudgeCard
    } else if eq_lit(p, "锁定") {
        EffectType::LockTargets { count: 2 }
    } else if eq_lit(p, "积累") {
        EffectType::GainMark { mark_name: mark_name_chars(obj), count: value, max: None }
    } else if eq_lit(p, "补充") {
        {
            let resource = if contains_lit(obj, "谋略") { owned("谋略") } else { owned("资源") };
            EffectType::Replenish { resource, amount: value }
        }
    } else if eq_lit(p, "抵消") {
        EffectType::CounterDamage { amount: value }
    } else if eq_lit(p, "增加") {
        {
            let stat = if contains_lit(obj, "法术") {
                owned("法术伤害")
            } else if contains_lit(obj, "物理") {
                owned("物理伤害")
            } else if contains_lit(obj, "上限") {
                owned("技力上限")
            } else {
                owned("伤害")
            };
            EffectType::IncreaseStat { stat, amount: value, permanent: contains_lit(obj, "永久") }
        }
    } else if eq_lit(p, "降低") {
        {
            let stat = if contains_lit(obj, "上限") { owned("技力上限") } else { owned("技力") };
            EffectType::DecreaseStat { stat, amount: value, permanent: contains_lit(obj, "永久") }
        }
    } else if eq_lit(p, "扣除") {
        {
            let resource = if contains_lit(obj, "技力") {
                owned("技力")
            } else if contains_lit(obj, "生命") {
                owned("生命")
            } else {
                owned("护甲")
            };
            EffectType::Deduct { resource, amount: value }
        }
    } else if eq_lit(p, "赋予") {
        EffectType::GrantArmor { amount: value }
    } else if eq_lit(p, "限制") {
        EffectType::LimitDamage { max_per_hit: value }
    } else if eq_lit(p, "无效化") || eq_lit(p, "使目标的基本牌无效化") {
        EffectType::Nullify { target: string_of(obj) }
    } else if eq_lit(p, "封锁") || eq_lit(p, "封锁其他单位") {
        {
            let quality = if contains_lit(obj, "品质") { string_of(obj) } else { owned("低于紫色") };
            EffectType::Seal { quality, duration: owned("下回合开始前") }
        }
    } else if eq_lit(p, "重置") {
        EffectType::ResetCooldown { skill_name: string_of(obj) }
    } else if eq_lit(p, "淘汰") {
        EffectType::Eliminate
    } else if eq_lit(p, "视为") {
        EffectType::TreatAs { card_name: string_of(obj) }
    } else if eq_lit(p, "存储") {
        EffectType::StoreAsMark { mark_name: mark_name_chars(obj), max: 4 }
    } else {
        predicate_exec_rest(p, obj, value)
    }
}

fn predicate_exec_rest(p: &Vec<char>, obj: &Vec<char>, value: i32) -> (r: EffectType)
    requires
        p@ == "选择保留"@ ==> i32::MIN <= value * 2 <= i32::MAX,
    ensures
        r@ == predicate_effect_rest(p@, obj@, value),
{
    if eq_lit(p, "重排") {
        {
            let d = digits_of(obj);
            let count = match parse_i32_chars(&d) {
                Some(n) => n,
                None => 3,
            };
            EffectType::RearrangeTop { count }
        }
    } else if eq_lit(p, "更换为") {
        EffectType::ChangeIdentity { identity: string_of(obj) }
    } else if eq_lit(p, "执行") {
        EffectType::ExecuteTag { tag_name: tag_name_chars(obj) }
    } else if eq_lit(p, "强制使") {
        EffectType::ForceEffect { description: string_of(obj) }
    } else if eq_lit(p, "强制目标弃置") {
        {
            let quality = if contains_lit(obj, "白") {
                Some(owned("白色"))
            } else if contains_lit(obj, "宣言") {
                Some(owned("宣言品质"))
            } else {
                None
            };
            EffectType::Discard { count: 1, quality }
        }
    } else if eq_lit(p, "翻牌堆顶") {
        EffectType::FlipJudge { description: string_of(obj) }
    } else if eq_lit(p, "复制") {
        EffectType::CopyEffect { description: string_of(obj) }
    } else if eq_lit(p, "选择保留") {
        EffectType::SelectKeep { keep: value, from: value * 2 }
    } else if eq_lit(p, "放回") {
        EffectType::ReturnToDeck { description: string_of(obj) }
    } else if eq_lit(p, "对伤害来源使用") || eq_lit(p, "对1单位造成") || eq_lit(p, "额外造成") {
        EffectType::DealDamage { amount: value, damage_type: dmg2_exec(obj) }
    } else if eq_lit(p, "可将本卡叠放至") {
        EffectType::ChangeIdentity { identity: owned("技能栏") }
    } else if eq_lit(p, "将攻击视为") {
        EffectType::ConvertDamage { to_type: dmg2_exec(obj) }
    } else if eq_lit(p, "额外获得") {
        if contains_lit(obj, "攻击次数") {
            EffectType::GainExtraAttack { count: 1 }
        } else if contains_lit(obj, "标记") {
            EffectType::GainMark { mark_name: mark_name_chars(obj), count: 1, max: None }
        } else {
            EffectType::IncreaseStat { stat: string_of(obj), amount: 1, permanent: false }
        }
    } else if eq_lit(p, "额外抽取") {
        EffectType::Draw { count: value, card_type: None }
    } else if eq_lit(p, "额外扣除") {
        EffectType::Deduct { resource: owned("技力"), amount: value }
    } else if eq_lit(p, "额外附加") {
        EffectType::DealDamage { amount: value, damage_type: DamageType::True }
    } else if eq_lit(p, "转化伤害类型为") {
        EffectType::ConvertDamage { to_type: dmg_true_exec(obj) }
    } else if eq_lit(p, "附加") {
        EffectType::BonusDamage { amount: value, damage_type: dmg_true_exec(obj) }
    } else if eq_lit(p, "使目标进入") {
        EffectType::SetNearDeath
    } else if eq_lit(p, "可移除目标") {
        EffectType::Remove { target_what: owned("标记"), amount: 1 }
    } else if eq_lit(p, "使本次物理伤害翻倍") || eq_lit(p, "进行") || eq_lit(p, "令目标出示") || eq_lit(p, "强制目标在自身回合开始时") || eq_lit(p, "抽取并公示目标") || eq_lit(p, "强制目标") {
        EffectType::ForceEffect { description: arrow_text_exec(p, obj) }
    } else if eq_lit(p, "持续抽牌至手牌数等于") {
        EffectType::DrawToMatch { target_side: PlayerSide::Second }
    } else if eq_lit(p, "再抽取") {
        EffectType::Draw { count: 1, card_type: None }
    } else if eq_lit(p, "减少") {
        EffectType::CounterDamage { amount: value }
    } else if eq_lit(p, "弃置本甲胄并清空所有技力和护甲") {
        EffectType::ForceEffect { description: owned("弃置甲胄清空技力护甲") }
    } else {
        if contains_lit(p, "造成") {
            EffectType::DealDamage { amount: value, damage_type: DamageType::Physical }
        } else if contains_lit(p, "获得") {
            EffectType::IncreaseStat { stat: string_of(obj), amount: value, permanent: false }
        } else if contains_lit(p, "恢复") {
            EffectType::Heal { amount: value }
        } else {
            EffectType::ForceEffect { description: arrow_text_exec(p, obj) }
        }
    }
}


/// The effect a predicate names; every predicate names one.
pub fn parse_predicate(predicate: &str, object: &str, value: i32) -> (r: Option<EffectType>)
    requires
        trim(predicate@) == "选择保留"@ ==> i32::MIN <= value * 2 <= i32::MAX,
    ensures
        r matches Some(e) && e@ == predicate_effect(trim(predicate@), trim(object@), value),
{
    let p = trim_str(predicate);
    let obj = trim_str(object);
    Some(predicate_exec(&p, &obj, value))
}

// ---------------------------------------------------------------------------
// Effects from card rows
// ---------------------------------------------------------------------------

/// The number an effect works with: the one read from the object text, else 1.
pub open spec fn effect_value(number: Option<i32>) -> i32 {
    match number {
        Some(v) => v,
        None => 1,
    }
}

/// The limit a note states: none for an empty note or "—".
pub open spec fn note_limit(note: Seq<char>) -> Option<Seq<char>> {
    if note == "—"@ || note.len() == 0 {
        None
    } else {
        Some(note)
    }
}

/// `e` is the effect of `entry` on the card `card_name`, with `number` the
/// number read from the row's object text.
pub open spec fn effect_of_entry(
    e: Effect,
    entry: FiveStageEntry,
    card_name: Seq<char>,
    number: Option<i32>,
) -> bool {
    let v = effect_value(number);
    &&& e.effect_type@ == predicate_effect(trim(entry.predicate@), trim(entry.object@), v)
    &&& e.trigger@ == condition_trigger(entry.condition@)
    &&& e.target@ == subject_target(entry.subject@)
    &&& e.value == v
    &&& e.source_card@ == card_name
    &&& e.condition_text@ == entry.condition@
    &&& e.subject_text@ == entry.subject@
    &&& e.predicate_text@ == entry.predicate@
    &&& e.object_text@ == entry.object@
    &&& e.note@ == entry.note@
    &&& (match e.limit {
        Some(l) => note_limit(entry.note@) == Some(l@),
        None => note_limit(entry.note@) is None,
    })
}

impl Effect {
    /// Builds the effect of one card row. `number` is the row's number: the
    /// text `number_text` finds in the object, read as a decimal and cut
    /// toward zero to an `i32`, or `None` when it is not a number.
    pub fn from_entry(entry: &FiveStageEntry, card_name: &str, number: Option<i32>) -> (r: Option<
        Effect,
    >)
        requires
            condition_fits(entry.condition@),
            trim(entry.predicate@) == "选择保留"@ ==> i32::MIN <= effect_value(number) * 2
                <= i32::MAX,
        ensures
            r matches Some(e) && effect_of_entry(e, *entry, card_name@, number),
    {
        let value = match number {
            Some(v) => v,
            None => 1,
        };
        let trigger = parse_condition(entry.condition.as_str(), entry.object.as_str());
        let target = parse_subject(entry.subject.as_str());
        let effect_type = match parse_predicate(entry.predicate.as_str(), entry.object.as_str(), value) {
            Some(t) => t,
            None => {
                return None;
            },
        };
        let note = chars_of(entry.note.as_str());
        let limit = if eq_lit(&note, "—") || note.len() == 0 {
            None
        } else {
            Some(entry.note.clone())
        };
        Some(
            Effect {
                effect_type,
                trigger,
                target,
                value,
                source_card: owned(card_name),
                condition_text: entry.condition.clone(),
                subject_text: entry.subject.clone(),
                predicate_text: entry.predicate.clone(),
                object_text: entry.object.clone(),
                note: entry.note.clone(),
                limit,
            },
        )
    }
}

} // verus!
