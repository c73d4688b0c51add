//! Settlement instructions read from the text of an effect line: a cost
//! after "消耗", then damage, restoring, armor, drawing and a chained step,
//! each recognised by its keywords and the number written before them.
use vstd::prelude::*;
use crate::dz::dzcheck::{jget, member_of};
use crate::dz::dzparse::{item_views, lemma_array_view};
use crate::dz::effect_engine::{DamageType, EffectAction};
use crate::dz::ports::MarkId;
use crate::json::{jview, JsonValue, JsonView};
use crate::text::{
    all_digits, chars_of, contains_lit, digits_value, find, find_vec, first_at, has_sub, is_digit, occurs_at,
    parse_usize, parse_usize_chars, slice_vec, string_of, trim, trim_vec,
};

verus! {

/// An instruction as plain values.
pub enum ActView {
    PayCost { energy: u32, hp: u32, hand_cards: u32, marks: Seq<Seq<char>> },
    DealDamage { amount: u32, damage_type: DamageType },
    RestoreHp { amount: u32 },
    RestoreEnergy { amount: u32 },
    GainArmor { amount: u32 },
    RemoveArmor { amount: u32 },
    DeductEnergy { amount: u32 },
    RemoveMark { mark: Seq<char>, count: u32 },
    GainMark { mark: Seq<char>, count: u32 },
    DrawCards { count: u32 },
    DiscardCards { count: u32 },
    ImmuneDamage,
    Chain { action: Box<ActView> },
}

/// The plain view of an instruction.
pub open spec fn act_view(a: EffectAction) -> ActView
    decreases a,
{
    match a {
        EffectAction::PayCost { energy, hp, hand_cards, marks } => ActView::PayCost {
            energy,
            hp,
            hand_cards,
            marks: marks@.map_values(|m: MarkId| m@),
        },
        EffectAction::DealDamage { amount, damage_type } => ActView::DealDamage { amount, damage_type },
        EffectAction::RestoreHp { amount } => ActView::RestoreHp { amount },
        EffectAction::RestoreEnergy { amount } => ActView::RestoreEnergy { amount },
        EffectAction::GainArmor { amount } => ActView::GainArmor { amount },
        EffectAction::RemoveArmor { amount } => ActView::RemoveArmor { amount },
        EffectAction::DeductEnergy { amount } => ActView::DeductEnergy { amount },
        EffectAction::RemoveMark { mark_id, count } => ActView::RemoveMark { mark: mark_id@, count },
        EffectAction::GainMark { mark_id, count } => ActView::GainMark { mark: mark_id@, count },
        EffectAction::DrawCards { count } => ActView::DrawCards { count },
        EffectAction::DiscardCards { count } => ActView::DiscardCards { count },
        EffectAction::ImmuneDamage => ActView::ImmuneDamage,
        EffectAction::Chain { action } => ActView::Chain { action: Box::new(act_view(*action)) },
    }
}

pub open spec fn act_views(v: Seq<EffectAction>) -> Seq<ActView> {
    v.map_values(|a: EffectAction| act_view(a))
}

/// End of the run of ASCII digits that starts at `i`.
pub open spec fn digit_run(s: Seq<char>, i: int) -> int
    decreases s.len() - i,
{
    if 0 <= i < s.len() && is_digit(s[i]) {
        digit_run(s, i + 1)
    } else {
        i
    }
}

/// The ASCII digits `s` starts with.
pub open spec fn lead_digits(s: Seq<char>) -> Seq<char> {
    s.subrange(0, digit_run(s, 0))
}

/// `str::parse::<u32>` of a run of digits, 1 where it fails (empty or too large).
pub open spec fn count_of(d: Seq<char>) -> u32 {
    if d.len() > 0 && digits_value(d) <= u32::MAX {
        digits_value(d) as u32
    } else {
        1
    }
}

/// The number written between the first `before` and the next `keyword`
/// after it: 0 when either is missing, 1 when no number stands there.
pub open spec fn number_before(t: Seq<char>, before: Seq<char>, keyword: Seq<char>) -> u32 {
    match find(t, before) {
        None => 0,
        Some(p) => {
            let seg = t.subrange(p + before.len(), t.len() as int);
            match find(seg, keyword) {
                None => 0,
                Some(k) => count_of(lead_digits(trim(seg.subrange(0, k)))),
            }
        },
    }
}

pub open spec fn at_least_one(n: u32) -> u32 {
    if n > 0 {
        n
    } else {
        1
    }
}

/// The strings among `a[i..]`, in order.
pub open spec fn strs_from(a: Seq<JsonView>, i: int) -> Seq<Seq<char>>
    decreases a.len() - i,
{
    if i < 0 || i >= a.len() {
        Seq::empty()
    } else {
        match a[i] {
            JsonView::Str(s) => seq![s] + strs_from(a, i + 1),
            _ => strs_from(a, i + 1),
        }
    }
}

/// The mark references an entry lists.
pub open spec fn ref_names(e: JsonView) -> Seq<Seq<char>> {
    match jget(e, "mark_refs"@) {
        JsonView::Array(a) => strs_from(a, 0),
        _ => Seq::empty(),
    }
}

/// The references of `names[i..]` with a count written before them after a "个".
pub open spec fn counted_marks(t: Seq<char>, names: Seq<Seq<char>>, i: int) -> Seq<Seq<char>>
    decreases names.len() - i,
{
    if i < 0 || i >= names.len() {
        Seq::empty()
    } else if number_before(t, "个"@, names[i]) > 0 {
        seq![names[i]] + counted_marks(t, names, i + 1)
    } else {
        counted_marks(t, names, i + 1)
    }
}

/// The text of an entry ("" when it has none).
pub open spec fn entry_text(e: JsonView) -> Seq<char> {
    match jget(e, "text"@) {
        JsonView::Str(t) => t,
        _ => Seq::empty(),
    }
}

/// The cost an entry's text sets.
pub open spec fn pay_part(e: JsonView) -> Seq<ActView> {
    let t = entry_text(e);
    if has_sub(t, "消耗"@) {
        let energy = number_before(t, "消耗"@, "技力"@);
        let hp = number_before(t, "消耗"@, "生命"@);
        let cards = if has_sub(t, "弃"@) && has_sub(t, "张"@) {
            number_before(t, "弃"@, "张"@)
        } else {
            0
        };
        if energy > 0 || hp > 0 || cards > 0 {
            let marks = if has_sub(t, "「"@) && has_sub(t, "个"@) {
                counted_marks(t, ref_names(e), 0)
            } else {
                Seq::empty()
            };
            seq![ActView::PayCost { energy, hp, hand_cards: cards, marks }]
        } else {
            Seq::empty()
        }
    } else {
        Seq::empty()
    }
}

pub open spec fn damage_kind(t: Seq<char>) -> DamageType {
    if has_sub(t, "物理"@) {
        DamageType::Physical
    } else if has_sub(t, "法术"@) {
        DamageType::Spell
    } else if has_sub(t, "真实"@) {
        DamageType::TrueDamage
    } else {
        DamageType::Physical
    }
}

pub open spec fn damage_part(t: Seq<char>) -> Seq<ActView> {
    if has_sub(t, "造成"@) && has_sub(t, "伤害"@) {
        seq![ActView::DealDamage { amount: at_least_one(number_before(t, "造成"@, "点"@)), damage_type: damage_kind(t) }]
    } else {
        Seq::empty()
    }
}

pub open spec fn energy_part(t: Seq<char>) -> Seq<ActView> {
    if has_sub(t, "恢复"@) && has_sub(t, "技力"@) {
        seq![ActView::RestoreEnergy { amount: at_least_one(number_before(t, "恢复"@, "点"@)) }]
    } else {
        Seq::empty()
    }
}

pub open spec fn hp_part(t: Seq<char>) -> Seq<ActView> {
    if has_sub(t, "恢复"@) && has_sub(t, "生命"@) {
        seq![ActView::RestoreHp { amount: at_least_one(number_before(t, "恢复"@, "点"@)) }]
    } else {
        Seq::empty()
    }
}

pub open spec fn armor_part(t: Seq<char>) -> Seq<ActView> {
    if has_sub(t, "获得"@) && has_sub(t, "护甲"@) {
        seq![ActView::GainArmor { amount: at_least_one(number_before(t, "获得"@, "点"@)) }]
    } else {
        Seq::empty()
    }
}

pub open spec fn draw_part(t: Seq<char>) -> Seq<ActView> {
    if has_sub(t, "抽取"@) && has_sub(t, "张"@) {
        seq![ActView::DrawCards { count: at_least_one(number_before(t, "抽取"@, "张"@)) }]
    } else {
        Seq::empty()
    }
}

pub open spec fn chain_part(t: Seq<char>) -> Seq<ActView> {
    if has_sub(t, "随后"@) {
        seq![ActView::Chain { action: Box::new(ActView::DrawCards { count: 0 }) }]
    } else {
        Seq::empty()
    }
}

/// Everything after the cost: damage, restoring, armor, drawing, a chained step.
pub open spec fn effect_part(t: Seq<char>) -> Seq<ActView> {
    damage_part(t) + energy_part(t) + hp_part(t) + armor_part(t) + draw_part(t) + chain_part(t)
}

/// An effect line that deals damage ("造成 … 伤害") yields, right after its
/// costs, one damage instruction whose type follows the words of the text:
/// physical when it says 物理, spell when it says 法术 (and not 物理), true
/// damage (which armor does not absorb) when it says 真实 and neither of the
/// others, physical when it names no type; its amount is at least 1.
pub proof fn lemma_damage_type_follows_text(e: JsonView)
    requires
        has_sub(entry_text(e), "造成"@),
        has_sub(entry_text(e), "伤害"@),
    ensures
        entry_actions(e).len() > pay_part(e).len(),
        (entry_actions(e)[pay_part(e).len() as int] matches ActView::DealDamage { amount, damage_type } && amount
            >= 1 && (has_sub(entry_text(e), "物理"@) ==> damage_type == DamageType::Physical) && (!has_sub(
            entry_text(e),
            "物理"@,
        ) && has_sub(entry_text(e), "法术"@) ==> damage_type == DamageType::Spell) && (!has_sub(
            entry_text(e),
            "物理"@,
        ) && !has_sub(entry_text(e), "法术"@) && has_sub(entry_text(e), "真实"@) ==> damage_type
            == DamageType::TrueDamage) && (!has_sub(entry_text(e), "物理"@) && !has_sub(entry_text(e), "法术"@)
            && !has_sub(entry_text(e), "真实"@) ==> damage_type == DamageType::Physical)),
{
    let t = entry_text(e);
    let d = damage_part(t);
    let rest = energy_part(t) + hp_part(t) + armor_part(t) + draw_part(t) + chain_part(t);
    assert(effect_part(t) =~= d + rest);
    assert(entry_actions(e) =~= pay_part(e) + (d + rest));
    assert(entry_actions(e)[pay_part(e).len() as int] == d[0]);
}

/// Which instructions an effect text yields follows its words, for every
/// text: damage exactly when it says 造成 and 伤害, energy restored exactly
/// when 恢复 and 技力, life restored exactly when 恢复 and 生命, armor
/// exactly when 获得 and 护甲, cards drawn exactly when 抽取 and 张.
pub proof fn lemma_instructions_follow_words(t: Seq<char>)
    ensures
        (exists|i: int| 0 <= i < effect_part(t).len() && #[trigger] effect_part(t)[i] is DealDamage) <==> (has_sub(t, "造成"@)
            && has_sub(t, "伤害"@)),
        (exists|i: int| 0 <= i < effect_part(t).len() && #[trigger] effect_part(t)[i] is RestoreEnergy) <==> (has_sub(t, "恢复"@)
            && has_sub(t, "技力"@)),
        (exists|i: int| 0 <= i < effect_part(t).len() && #[trigger] effect_part(t)[i] is RestoreHp) <==> (has_sub(t, "恢复"@)
            && has_sub(t, "生命"@)),
        (exists|i: int| 0 <= i < effect_part(t).len() && #[trigger] effect_part(t)[i] is GainArmor) <==> (has_sub(t, "获得"@)
            && has_sub(t, "护甲"@)),
        (exists|i: int| 0 <= i < effect_part(t).len() && #[trigger] effect_part(t)[i] is DrawCards) <==> (has_sub(t, "抽取"@)
            && has_sub(t, "张"@)),
{
    let d = damage_part(t);
    let en = energy_part(t);
    let h = hp_part(t);
    let a = armor_part(t);
    let dr = draw_part(t);
    let c = chain_part(t);
    let all = effect_part(t);
    assert(all == d + en + h + a + dr + c);
    let o1: int = d.len() as int;
    let o2: int = o1 + en.len();
    let o3: int = o2 + h.len();
    let o4: int = o3 + a.len();
    let o5: int = o4 + dr.len();
    assert forall|i: int| 0 <= i < all.len() implies #[trigger] all[i] == (if i < o1 {
        d[i]
    } else if i < o2 {
        en[i - o1]
    } else if i < o3 {
        h[i - o2]
    } else if i < o4 {
        a[i - o3]
    } else if i < o5 {
        dr[i - o4]
    } else {
        c[i - o5]
    }) by {}
    if d.len() > 0 { assert(all[0] is DealDamage); }
    if en.len() > 0 { assert(all[o1] is RestoreEnergy); }
    if h.len() > 0 { assert(all[o2] is RestoreHp); }
    if a.len() > 0 { assert(all[o3] is GainArmor); }
    if dr.len() > 0 { assert(all[o4] is DrawCards); }
}

/// The instructions of an effect entry.
pub open spec fn entry_actions(e: JsonView) -> Seq<ActView> {
    pay_part(e) + effect_part(entry_text(e))
}

// ---------------------------------------------------------------------------
// Reading numbers
// ---------------------------------------------------------------------------

fn lead_digits_exec(s: &Vec<char>) -> (r: Vec<char>)
    ensures
        r@ == lead_digits(s@),
{
    let mut n: usize = 0;
    while n < s.len() && '0' <= s[n] && s[n] <= '9'
        invariant
            n <= s@.len(),
            digit_run(s@, n as int) == digit_run(s@, 0),
        decreases s@.len() - n,
    {
        n = n + 1;
    }
    slice_vec(s, 0, n)
}

proof fn lemma_lead_digits(s: Seq<char>, i: int)
    requires
        0 <= i <= s.len(),
    ensures
        i <= digit_run(s, i) <= s.len(),
        forall|k: int| i <= k < digit_run(s, i) ==> is_digit(#[trigger] s[k]),
    decreases s.len() - i,
{
    if i < s.len() && is_digit(s[i]) {
        lemma_lead_digits(s, i + 1);
    }
}

fn count_exec(d: &Vec<char>) -> (r: u32)
    requires
        all_digits(d@),
    ensures
        r == count_of(d@),
{
    proof {
        crate::text::lemma_digits_value_prefix(d@, d@.len() as int);
    }
    if d.len() > 0 {
        assert(is_digit(d@[0]));
        assert(d@[0] != '+');
    }
    assert(parse_usize(d@) == if d@.len() > 0 && digits_value(d@) <= usize::MAX {
        Some(digits_value(d@) as nat)
    } else {
        None::<nat>
    });
    match parse_usize_chars(d) {
        Some(v) => {
            assert(d@.len() > 0 && digits_value(d@) == v);
            if v <= 4294967295 {
                v as u32
            } else {
                1
            }
        },
        None => {
            assert(d@.len() == 0 || digits_value(d@) > usize::MAX);
            1
        },
    }
}

fn number_before_exec(t: &Vec<char>, before: &Vec<char>, keyword: &Vec<char>) -> (r: u32)
    ensures
        r == number_before(t@, before@, keyword@),
{
    match find_vec(t, before) {
        None => 0,
        Some(p) => {
            assert(occurs_at(t@, before@, p as int));
            let bl = before.len();
            let tl = t.len();
            assert(p + bl <= tl);
            let seg = slice_vec(t, p + bl, tl);
            match find_vec(&seg, keyword) {
                None => 0,
                Some(k) => {
                    let head = slice_vec(&seg, 0, k);
                    let trimmed = trim_vec(&head);
                    let d = lead_digits_exec(&trimmed);
                    proof {
                        lemma_lead_digits(trimmed@, 0);
                        assert(all_digits(d@));
                    }
                    count_exec(&d)
                },
            }
        },
    }
}

fn number_before_lit(t: &Vec<char>, before: &str, keyword: &str) -> (r: u32)
    ensures
        r == number_before(t@, before@, keyword@),
{
    let b = chars_of(before);
    let k = chars_of(keyword);
    number_before_exec(t, &b, &k)
}

// ---------------------------------------------------------------------------
// Reading an entry
// ---------------------------------------------------------------------------

fn text_exec(entry: &JsonValue) -> (r: Vec<char>)
    ensures
        r@ == entry_text(jview(*entry)),
{
    match member_of(entry, "text") {
        Some(JsonValue::Str(s)) => chars_of(s.as_str()),
        _ => Vec::new(),
    }
}

fn ref_names_exec(entry: &JsonValue) -> (r: Vec<Vec<char>>)
    ensures
        crate::text::views(r@) == ref_names(jview(*entry)),
{
    let mut out: Vec<Vec<char>> = Vec::new();
    match member_of(entry, "mark_refs") {
        Some(JsonValue::Array(a)) => {
            proof {
                lemma_array_view(*a);
            }
            let ghost iv = item_views(a@);
            let mut i: usize = 0;
            while i < a.len()
                invariant
                    i <= a@.len(),
                    iv == item_views(a@),
                    crate::text::views(out@) + strs_from(iv, i as int) == strs_from(iv, 0),
                decreases a@.len() - i,
            {
                let ghost before = crate::text::views(out@);
                match &a[i] {
                    JsonValue::Str(s) => {
                        out.push(chars_of(s.as_str()));
                        assert(crate::text::views(out@) =~= before.push(s@));
                        assert(before + strs_from(iv, i as int) =~= before.push(s@) + strs_from(iv, i + 1));
                    },
                    _ => {},
                }
                i = i + 1;
            }
            assert(crate::text::views(out@) + Seq::<Seq<char>>::empty() =~= crate::text::views(out@));
        },
        _ => {
            assert(crate::text::views(out@) =~= Seq::<Seq<char>>::empty());
        },
    }
    out
}

fn counted_marks_exec(t: &Vec<char>, names: &Vec<Vec<char>>) -> (r: Vec<MarkId>)
    ensures
        r@.map_values(|m: MarkId| m@) == counted_marks(t@, crate::text::views(names@), 0),
{
    let ghost nv = crate::text::views(names@);
    let unit = chars_of("个");
    let mut out: Vec<MarkId> = Vec::new();
    let mut i: usize = 0;
    while i < names.len()
        invariant
            i <= names@.len(),
            nv == crate::text::views(names@),
            unit@ == "个"@,
            out@.map_values(|m: MarkId| m@) + counted_marks(t@, nv, i as int) == counted_marks(t@, nv, 0),
        decreases names@.len() - i,
    {
        let ghost before = out@.map_values(|m: MarkId| m@);
        assert(nv[i as int] == names@[i as int]@);
        if number_before_exec(t, &unit, &names[i]) > 0 {
            out.push(MarkId(string_of(&names[i])));
            assert(out@.map_values(|m: MarkId| m@) =~= before.push(names@[i as int]@));
            assert(before + counted_marks(t@, nv, i as int) =~= before.push(names@[i as int]@) + counted_marks(
                t@,
                nv,
                i + 1,
            ));
        }
        i = i + 1;
    }
    assert(out@.map_values(|m: MarkId| m@) + Seq::<Seq<char>>::empty() =~= out@.map_values(|m: MarkId| m@));
    out
}

fn push_action(v: &mut Vec<EffectAction>, a: EffectAction)
    ensures
        act_views(final(v)@) == act_views(old(v)@).push(act_view(a)),
{
    let ghost before = v@;
    v.push(a);
    assert(act_views(v@) =~= act_views(before).push(act_view(a)));
}

fn pay_exec(entry: &JsonValue, t: &Vec<char>, out: &mut Vec<EffectAction>)
    requires
        t@ == entry_text(jview(*entry)),
    ensures
        act_views(final(out)@) == act_views(old(out)@) + pay_part(jview(*entry)),
{
    let ghost start = act_views(out@);
    if contains_lit(t, "消耗") {
        let energy = number_before_lit(t, "消耗", "技力");
        let hp = number_before_lit(t, "消耗", "生命");
        let cards = if contains_lit(t, "弃") && contains_lit(t, "张") {
            number_before_lit(t, "弃", "张")
        } else {
            0
        };
        if energy > 0 || hp > 0 || cards > 0 {
            let marks = if contains_lit(t, "「") && contains_lit(t, "个") {
                let names = ref_names_exec(entry);
                counted_marks_exec(t, &names)
            } else {
                let m: Vec<MarkId> = Vec::new();
                assert(m@.map_values(|x: MarkId| x@) =~= Seq::<Seq<char>>::empty());
                m
            };
            push_action(out, EffectAction::PayCost { energy, hp, hand_cards: cards, marks });
        }
    }
    assert(act_views(out@) =~= start + pay_part(jview(*entry)));
}

fn damage_exec(t: &Vec<char>, out: &mut Vec<EffectAction>)
    ensures
        act_views(final(out)@) == act_views(old(out)@) + damage_part(t@),
{
    let ghost start = act_views(out@);
    if contains_lit(t, "造成") && contains_lit(t, "伤害") {
        let amount = number_before_lit(t, "造成", "点");
        let amount = if amount > 0 { amount } else { 1 };
        let damage_type = if contains_lit(t, "物理") {
            DamageType::Physical
        } else if contains_lit(t, "法术") {
            DamageType::Spell
        } else if contains_lit(t, "真实") {
            DamageType::TrueDamage
        } else {
            DamageType::Physical
        };
        push_action(out, EffectAction::DealDamage { amount, damage_type });
    }
    assert(act_views(out@) =~= start + damage_part(t@));
}

fn energy_exec(t: &Vec<char>, out: &mut Vec<EffectAction>)
    ensures
        act_views(final(out)@) == act_views(old(out)@) + energy_part(t@),
{
    let ghost start = act_views(out@);
    if contains_lit(t, "恢复") && contains_lit(t, "技力") {
        let amount = number_before_lit(t, "恢复", "点");
        push_action(out, EffectAction::RestoreEnergy { amount: if amount > 0 { amount } else { 1 } });
    }
    assert(act_views(out@) =~= start + energy_part(t@));
}

fn hp_exec(t: &Vec<char>, out: &mut Vec<EffectAction>)
    ensures
        act_views(final(out)@) == act_views(old(out)@) + hp_part(t@),
{
    let ghost start = act_views(out@);
    if contains_lit(t, "恢复") && contains_lit(t, "生命") {
        let amount = number_before_lit(t, "恢复", "点");
        push_action(out, EffectAction::RestoreHp { amount: if amount > 0 { amount } else { 1 } });
    }
    assert(act_views(out@) =~= start + hp_part(t@));
}

fn armor_exec(t: &Vec<char>, out: &mut Vec<EffectAction>)
    ensures
        act_views(final(out)@) == act_views(old(out)@) + armor_part(t@),
{
    let ghost start = act_views(out@);
    if contains_lit(t, "获得") && contains_lit(t, "护甲") {
        let amount = number_before_lit(t, "获得", "点");
        push_action(out, EffectAction::GainArmor { amount: if amount > 0 { amount } else { 1 } });
    }
    assert(act_views(out@) =~= start + armor_part(t@));
}

fn draw_exec(t: &Vec<char>, out: &mut Vec<EffectAction>)
    ensures
        act_views(final(out)@) == act_views(old(out)@) + draw_part(t@),
{
    let ghost start = act_views(out@);
    if contains_lit(t, "抽取") && contains_lit(t, "张") {
        let count = number_before_lit(t, "抽取", "张");
        push_action(out, EffectAction::DrawCards { count: if count > 0 { count } else { 1 } });
    }
    assert(act_views(out@) =~= start + draw_part(t@));
}

fn chain_exec(t: &Vec<char>, out: &mut Vec<EffectAction>)
    ensures
        act_views(final(out)@) == act_views(old(out)@) + chain_part(t@),
{
    let ghost start = act_views(out@);
    if contains_lit(t, "随后") {
        let step = EffectAction::Chain { action: Box::new(EffectAction::DrawCards { count: 0 }) };
        assert(act_view(EffectAction::DrawCards { count: 0 }) == ActView::DrawCards { count: 0 });
        assert(act_view(step) == ActView::Chain { action: Box::new(ActView::DrawCards { count: 0 }) });
        push_action(out, step);
    }
    assert(act_views(out@) =~= start + chain_part(t@));
}

fn effect_exec(t: &Vec<char>, out: &mut Vec<EffectAction>)
    ensures
        act_views(final(out)@) == act_views(old(out)@) + effect_part(t@),
{
    let ghost start = act_views(out@);
    damage_exec(t, out);
    energy_exec(t, out);
    hp_exec(t, out);
    armor_exec(t, out);
    draw_exec(t, out);
    chain_exec(t, out);
    assert(act_views(out@) =~= start + effect_part(t@));
}

/// The settlement instructions of an effect entry, the cost first.
pub fn parse_effect_to_actions(entry: &JsonValue) -> (r: Vec<EffectAction>)
    ensures
        act_views(r@) == entry_actions(jview(*entry)),
{
    let t = text_exec(entry);
    let mut out: Vec<EffectAction> = Vec::new();
    assert(act_views(out@) =~= Seq::<ActView>::empty());
    pay_exec(entry, &t, &mut out);
    effect_exec(&t, &mut out);
    assert(act_views(out@) =~= entry_actions(jview(*entry)));
    out
}

} // verus!
