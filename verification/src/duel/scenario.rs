//! Preset duel scenarios, matched to the card pool by tag conditions rather
//! than by card names.
use vstd::prelude::*;
use crate::base::PlayerSide;
use crate::duel::state::{DuelPhase, DuelState, PlayerField};
use crate::text::owned;

verus! {

/// The tag a side's cards must carry, and the marks it plays with.
#[derive(Debug, Clone)]
pub struct ScenarioCondition {
    pub label: String,
    pub marks: Vec<String>,
}

/// One side of a scenario.
#[derive(Debug, Clone)]
pub struct ScenarioPlayer {
    pub name: String,
    pub faction: String,
    pub conditions: ScenarioCondition,
    pub hp: i32,
    pub max_hp: i32,
    pub armor: i32,
    pub energy: i32,
    pub max_energy: i32,
    pub physical_attack: i32,
    pub magic_attack: i32,
    pub physical_resist: i32,
    pub magic_resist: i32,
    pub hand_cards: Vec<String>,
    pub equipment: Vec<String>,
    pub skills: Vec<String>,
}

/// A preset scenario.
#[derive(Debug, Clone)]
pub struct Scenario {
    pub id: String,
    pub name: String,
    pub description: String,
    pub first_player: ScenarioPlayer,
    pub second_player: ScenarioPlayer,
}

/// How many cards of a pool suit each side of a scenario.
#[derive(Debug, Clone)]
pub struct ScenarioMatch {
    pub id: String,
    pub name: String,
    pub description: String,
    pub first_matches: usize,
    pub second_matches: usize,
    pub first_label: String,
    pub second_label: String,
}

/// A card of the pool: its name and its tags.
#[derive(Debug, Clone)]
pub struct CardInfo {
    pub name: String,
    pub list_tags: Vec<String>,
}

pub open spec fn stats_of(p: ScenarioPlayer) -> Seq<int> {
    seq![
        p.hp as int,
        p.max_hp as int,
        p.armor as int,
        p.energy as int,
        p.max_energy as int,
        p.physical_attack as int,
        p.magic_attack as int,
        p.physical_resist as int,
        p.magic_resist as int,
    ]
}

/// `p` is the side with these names, condition and stats (life, max life,
/// armor, energy, max energy, physical and magic attack, physical and magic
/// resistance), holding no cards.
pub open spec fn player_is(
    p: ScenarioPlayer,
    name: Seq<char>,
    faction: Seq<char>,
    label: Seq<char>,
    marks: Seq<Seq<char>>,
    stats: Seq<int>,
) -> bool {
    &&& p.name@ == name
    &&& p.faction@ == faction
    &&& p.conditions.label@ == label
    &&& p.conditions.marks.deep_view() == marks
    &&& stats_of(p) == stats
    &&& p.hand_cards@.len() == 0 && p.equipment@.len() == 0 && p.skills@.len() == 0
}

fn player(
    name: &str,
    faction: &str,
    label: &str,
    marks: Vec<String>,
    hp: i32,
    max_hp: i32,
    armor: i32,
    energy: i32,
    max_energy: i32,
    physical_attack: i32,
    magic_attack: i32,
    physical_resist: i32,
    magic_resist: i32,
) -> (r: ScenarioPlayer)
    ensures
        player_is(
            r,
            name@,
            faction@,
            label@,
            marks.deep_view(),
            seq![
                hp as int,
                max_hp as int,
                armor as int,
                energy as int,
                max_energy as int,
                physical_attack as int,
                magic_attack as int,
                physical_resist as int,
                magic_resist as int,
            ],
        ),
{
    ScenarioPlayer {
        name: owned(name),
        faction: owned(faction),
        conditions: ScenarioCondition { label: owned(label), marks },
        hp,
        max_hp,
        armor,
        energy,
        max_energy,
        physical_attack,
        magic_attack,
        physical_resist,
        magic_resist,
        hand_cards: Vec::new(),
        equipment: Vec::new(),
        skills: Vec::new(),
    }
}

/// A copy of a list of strings.
pub fn copy_strings(v: &Vec<String>) -> (r: Vec<String>)
    ensures
        r@ == v@,
{
    let mut r: Vec<String> = Vec::new();
    let mut i: usize = 0;
    while i < v.len()
        invariant
            i <= v.len(),
            r@ == v@.subrange(0, i as int),
        decreases v.len() - i,
    {
        r.push(v[i].clone());
        i = i + 1;
        assert(r@ =~= v@.subrange(0, i as int));
    }
    assert(v@.subrange(0, v.len() as int) =~= v@);
    r
}

/// `f` is the field a scenario side starts with.
pub open spec fn field_of_player(p: ScenarioPlayer, f: PlayerField) -> bool {
    &&& f.name@ == p.name@ && f.faction@ == p.faction@
    &&& f.hp == p.hp && f.max_hp == p.max_hp && f.armor == p.armor
    &&& f.energy == p.energy && f.max_energy == p.max_energy
    &&& f.physical_attack == p.physical_attack && f.magic_attack == p.magic_attack
    &&& f.physical_resist == p.physical_resist && f.magic_resist == p.magic_resist
    &&& f.hand_cards@ == p.hand_cards@ && f.equipment@ == p.equipment@ && f.skills@ == p.skills@
    &&& !f.has_attacked && f.attack_count == 1
    &&& f.marks@.len() == 0 && f.used_tags@.len() == 0
    &&& f.damage_dealt_this_turn == 0 && f.healed_this_turn == 0
}

impl ScenarioPlayer {
    /// The field this side starts a duel with.
    pub fn to_field(&self) -> (r: PlayerField)
        ensures
            field_of_player(*self, r),
    {
        let mut f = PlayerField::new(self.name.as_str(), self.faction.as_str());
        f.hp = self.hp;
        f.max_hp = self.max_hp;
        f.armor = self.armor;
        f.energy = self.energy;
        f.max_energy = self.max_energy;
        f.physical_attack = self.physical_attack;
        f.magic_attack = self.magic_attack;
        f.physical_resist = self.physical_resist;
        f.magic_resist = self.magic_resist;
        f.hand_cards = copy_strings(&self.hand_cards);
        f.equipment = copy_strings(&self.equipment);
        f.skills = copy_strings(&self.skills);
        f
    }
}

/// The preset "basic_duel".
pub open spec fn scenario_1_basic_duel_spec(s: Scenario) -> bool {
    &&& s.id@ == "basic_duel"@
    &&& s.name@ == "基础攻防：儒法之争"@
    &&& s.description@ == "标签「阵营」中的卡牌对阵，展示基础物理攻防。"@
    &&& player_is(s.first_player, "先行者"@, "儒家"@, "阵营"@, seq!["仁心"@], seq![8, 8, 2, 4, 4, 2, 1, 1, 0])
    &&& player_is(s.second_player, "后行者"@, "法家"@, "阵营"@, seq!["法令"@], seq![9, 9, 1, 3, 3, 2, 1, 0, 1])
}

pub fn scenario_1_basic_duel() -> (r: Scenario)
    ensures
        scenario_1_basic_duel_spec(r),
{
    let first_player =
        {
            let mut marks: Vec<String> = Vec::new();
            marks.push(owned("仁心"));
            assert(marks.deep_view() =~= seq!["仁心"@]);
            player("先行者", "儒家", "阵营", marks, 8, 8, 2, 4, 4, 2, 1, 1, 0)
        };
    let second_player =
        {
            let mut marks: Vec<String> = Vec::new();
            marks.push(owned("法令"));
            assert(marks.deep_view() =~= seq!["法令"@]);
            player("后行者", "法家", "阵营", marks, 9, 9, 1, 3, 3, 2, 1, 0, 1)
        };
    Scenario {
        id: owned("basic_duel"),
        name: owned("基础攻防：儒法之争"),
        description: owned("标签「阵营」中的卡牌对阵，展示基础物理攻防。"),
        first_player,
        second_player,
    }
}

/// The preset "mark_battle".
pub open spec fn scenario_2_mark_battle_spec(s: Scenario) -> bool {
    &&& s.id@ == "mark_battle"@
    &&& s.name@ == "标记对战：兵墨之争"@
    &&& s.description@ == "兵家积累[谋略]标记，墨家积累[坚守]标记的持久战。"@
    &&& player_is(s.first_player, "兵家将领"@, "兵家"@, "阵营"@, seq!["谋略"@], seq![10, 10, 3, 3, 3, 2, 0, 2, 0])
    &&& player_is(s.second_player, "墨家巨子"@, "墨家"@, "阵营"@, seq!["坚守"@], seq![8, 8, 4, 4, 4, 1, 2, 0, 2])
}

pub fn scenario_2_mark_battle() -> (r: Scenario)
    ensures
        scenario_2_mark_battle_spec(r),
{
    let first_player =
        {
            let mut marks: Vec<String> = Vec::new();
            marks.push(owned("谋略"));
            assert(marks.deep_view() =~= seq!["谋略"@]);
            player("兵家将领", "兵家", "阵营", marks, 10, 10, 3, 3, 3, 2, 0, 2, 0)
        };
    let second_player =
        {
            let mut marks: Vec<String> = Vec::new();
            marks.push(owned("坚守"));
            assert(marks.deep_view() =~= seq!["坚守"@]);
            player("墨家巨子", "墨家", "阵营", marks, 8, 8, 4, 4, 4, 1, 2, 0, 2)
        };
    Scenario {
        id: owned("mark_battle"),
        name: owned("标记对战：兵墨之争"),
        description: owned("兵家积累[谋略]标记，墨家积累[坚守]标记的持久战。"),
        first_player,
        second_player,
    }
}

/// The preset "tag_combo".
pub open spec fn scenario_3_tag_combo_clash_spec(s: Scenario) -> bool {
    &&& s.id@ == "tag_combo"@
    &&& s.name@ == "标签联动"@
    &&& s.description@ == "道家 vs 构筑卡持有者，双方构筑卡联动。"@
    &&& player_is(s.first_player, "炼气士"@, "道家"@, "阵营"@, seq!["自然"@], seq![7, 7, 1, 5, 5, 1, 3, 0, 3])
    &&& player_is(s.second_player, "说客"@, "杂家"@, "构筑卡"@, Seq::<Seq<char>>::empty(), seq![8, 8, 2, 4, 4, 2, 2, 1, 1])
}

pub fn scenario_3_tag_combo_clash() -> (r: Scenario)
    ensures
        scenario_3_tag_combo_clash_spec(r),
{
    let first_player =
        {
            let mut marks: Vec<String> = Vec::new();
            marks.push(owned("自然"));
            assert(marks.deep_view() =~= seq!["自然"@]);
            player("炼气士", "道家", "阵营", marks, 7, 7, 1, 5, 5, 1, 3, 0, 3)
        };
    let second_player =
        {
            let mut marks: Vec<String> = Vec::new();
            assert(marks.deep_view() =~= Seq::<Seq<char>>::empty());
            player("说客", "杂家", "构筑卡", marks, 8, 8, 2, 4, 4, 2, 2, 1, 1)
        };
    Scenario {
        id: owned("tag_combo"),
        name: owned("标签联动"),
        description: owned("道家 vs 构筑卡持有者，双方构筑卡联动。"),
        first_player,
        second_player,
    }
}

/// The preset "seal_counter".
pub open spec fn scenario_4_seal_counter_spec(s: Scenario) -> bool {
    &&& s.id@ == "seal_counter"@
    &&& s.name@ == "封锁与反制"@
    &&& s.description@ == "封锁品质、无效化、反制高阶效果对决。"@
    &&& player_is(s.first_player, "封锁者"@, "法家"@, "阵营"@, Seq::<Seq<char>>::empty(), seq![7, 7, 1, 5, 5, 1, 3, 0, 2])
    &&& player_is(s.second_player, "反制者"@, "道家"@, "阵营"@, Seq::<Seq<char>>::empty(), seq![8, 8, 2, 4, 4, 2, 2, 1, 1])
}

pub fn scenario_4_seal_counter() -> (r: Scenario)
    ensures
        scenario_4_seal_counter_spec(r),
{
    let first_player =
        {
            let mut marks: Vec<String> = Vec::new();
            assert(marks.deep_view() =~= Seq::<Seq<char>>::empty());
            player("封锁者", "法家", "阵营", marks, 7, 7, 1, 5, 5, 1, 3, 0, 2)
        };
    let second_player =
        {
            let mut marks: Vec<String> = Vec::new();
            assert(marks.deep_view() =~= Seq::<Seq<char>>::empty());
            player("反制者", "道家", "阵营", marks, 8, 8, 2, 4, 4, 2, 2, 1, 1)
        };
    Scenario {
        id: owned("seal_counter"),
        name: owned("封锁与反制"),
        description: owned("封锁品质、无效化、反制高阶效果对决。"),
        first_player,
        second_player,
    }
}

/// The preset "free_battle".
pub open spec fn scenario_5_free_battle_spec(s: Scenario) -> bool {
    &&& s.id@ == "free_battle"@
    &&& s.name@ == "自由对战"@
    &&& s.description@ == "默认属性对战，可手动选择卡牌参战。"@
    &&& player_is(s.first_player, "玩家1"@, "自定义"@, ""@, Seq::<Seq<char>>::empty(), seq![8, 8, 1, 4, 4, 2, 2, 1, 1])
    &&& player_is(s.second_player, "玩家2"@, "自定义"@, ""@, Seq::<Seq<char>>::empty(), seq![8, 8, 1, 4, 4, 2, 2, 1, 1])
}

pub fn scenario_5_free_battle() -> (r: Scenario)
    ensures
        scenario_5_free_battle_spec(r),
{
    let first_player =
        {
            let mut marks: Vec<String> = Vec::new();
            assert(marks.deep_view() =~= Seq::<Seq<char>>::empty());
            player("玩家1", "自定义", "", marks, 8, 8, 1, 4, 4, 2, 2, 1, 1)
        };
    let second_player =
        {
            let mut marks: Vec<String> = Vec::new();
            assert(marks.deep_view() =~= Seq::<Seq<char>>::empty());
            player("玩家2", "自定义", "", marks, 8, 8, 1, 4, 4, 2, 2, 1, 1)
        };
    Scenario {
        id: owned("free_battle"),
        name: owned("自由对战"),
        description: owned("默认属性对战，可手动选择卡牌参战。"),
        first_player,
        second_player,
    }
}

pub open spec fn preset_ids() -> Seq<Seq<char>> {
    seq!["basic_duel"@, "mark_battle"@, "tag_combo"@, "seal_counter"@, "free_battle"@]
}
/// The five presets, in order.
pub open spec fn presets_spec(v: Seq<Scenario>) -> bool {
    &&& v.len() == 5
    &&& scenario_1_basic_duel_spec(v[0])
    &&& scenario_2_mark_battle_spec(v[1])
    &&& scenario_3_tag_combo_clash_spec(v[2])
    &&& scenario_4_seal_counter_spec(v[3])
    &&& scenario_5_free_battle_spec(v[4])
}

/// The five presets.
pub fn preset_scenarios() -> (r: Vec<Scenario>)
    ensures
        presets_spec(r@),
{
    let mut v: Vec<Scenario> = Vec::new();
    v.push(scenario_1_basic_duel());
    v.push(scenario_2_mark_battle());
    v.push(scenario_3_tag_combo_clash());
    v.push(scenario_4_seal_counter());
    v.push(scenario_5_free_battle());
    v
}

pub fn list_scenarios() -> (r: Vec<Scenario>)
    ensures
        presets_spec(r@),
{
    preset_scenarios()
}

/// The presets have distinct ids.
pub proof fn lemma_preset_ids_distinct()
    ensures
        forall|i: int, j: int|
            0 <= i < j < preset_ids().len() ==> preset_ids()[i] != preset_ids()[j],
{
    reveal_strlit("basic_duel");
    reveal_strlit("mark_battle");
    reveal_strlit("tag_combo");
    reveal_strlit("seal_counter");
    reveal_strlit("free_battle");
    assert(preset_ids()[0][0] == 'b');
    assert(preset_ids()[1][0] == 'm');
    assert(preset_ids()[2][0] == 't');
    assert(preset_ids()[3][0] == 's');
    assert(preset_ids()[4][0] == 'f');
}

/// Whether a card suits a condition: every card does when the label is empty,
/// else the card must carry the label as a tag.
pub open spec fn card_matches(c: CardInfo, cond: ScenarioCondition) -> bool {
    cond.label@.len() == 0 || exists|i: int| 0 <= i < c.list_tags@.len() && c.list_tags@[i]@ == cond.label@
}

/// Number of cards of `pool` that suit `cond`.
pub open spec fn count_matching(pool: Seq<CardInfo>, cond: ScenarioCondition) -> nat
    decreases pool.len(),
{
    if pool.len() == 0 {
        0
    } else {
        count_matching(pool.drop_last(), cond) + if card_matches(pool.last(), cond) { 1nat } else { 0nat }
    }
}

impl CardInfo {
    pub fn new(name: &str, list_tags: &[String]) -> (r: CardInfo)
        ensures
            r.name@ == name@,
            r.list_tags@ == list_tags@,
    {
        let mut tags: Vec<String> = Vec::new();
        let mut i: usize = 0;
        while i < list_tags.len()
            invariant
                i <= list_tags@.len(),
                tags@ == list_tags@.subrange(0, i as int),
            decreases list_tags@.len() - i,
        {
            tags.push(list_tags[i].clone());
            i = i + 1;
            assert(tags@ =~= list_tags@.subrange(0, i as int));
        }
        assert(list_tags@.subrange(0, list_tags@.len() as int) =~= list_tags@);
        CardInfo { name: owned(name), list_tags: tags }
    }

    pub fn matches_condition(&self, condition: &ScenarioCondition) -> (r: bool)
        ensures
            r == card_matches(*self, *condition),
    {
        if condition.label.as_str().is_empty() {
            return true;
        }
        let mut i: usize = 0;
        while i < self.list_tags.len()
            invariant
                i <= self.list_tags@.len(),
                forall|k: int| 0 <= k < i ==> self.list_tags@[k]@ != condition.label@,
            decreases self.list_tags@.len() - i,
        {
            if self.list_tags[i] == condition.label {
                return true;
            }
            i = i + 1;
        }
        false
    }
}

fn count_pool(pool: &[CardInfo], cond: &ScenarioCondition) -> (r: usize)
    ensures
        r == count_matching(pool@, *cond),
{
    let mut n: usize = 0;
    let mut i: usize = 0;
    while i < pool.len()
        invariant
            i <= pool@.len(),
            n == count_matching(pool@.subrange(0, i as int), *cond),
            n <= i,
        decreases pool@.len() - i,
    {
        assert(pool@.subrange(0, i + 1).drop_last() =~= pool@.subrange(0, i as int));
        if pool[i].matches_condition(cond) {
            n = n + 1;
        }
        i = i + 1;
    }
    assert(pool@.subrange(0, pool@.len() as int) =~= pool@);
    n
}

/// How many cards of the pool suit each side of the scenario.
pub fn count_scenario_matches(scenario: &Scenario, card_pool: &[CardInfo]) -> (r: ScenarioMatch)
    ensures
        r.id@ == scenario.id@,
        r.name@ == scenario.name@,
        r.description@ == scenario.description@,
        r.first_matches == count_matching(card_pool@, scenario.first_player.conditions),
        r.second_matches == count_matching(card_pool@, scenario.second_player.conditions),
        r.first_label@ == scenario.first_player.conditions.label@,
        r.second_label@ == scenario.second_player.conditions.label@,
{
    let first_matches = count_pool(card_pool, &scenario.first_player.conditions);
    let second_matches = count_pool(card_pool, &scenario.second_player.conditions);
    ScenarioMatch {
        id: scenario.id.clone(),
        name: scenario.name.clone(),
        description: scenario.description.clone(),
        first_matches,
        second_matches,
        first_label: scenario.first_player.conditions.label.clone(),
        second_label: scenario.second_player.conditions.label.clone(),
    }
}

/// The preset with this id, if any.
pub open spec fn preset_index(id: Seq<char>) -> Option<int> {
    if exists|i: int| 0 <= i < 5 && preset_ids()[i] == id {
        Some(choose|i: int| 0 <= i < 5 && preset_ids()[i] == id)
    } else {
        None
    }
}

/// A fresh duel for the preset with this id, or `None` when there is none.
pub fn init_scenario(scenario_id: &str) -> (r: Option<DuelState>)
    ensures
        r is Some <==> (exists|i: int| 0 <= i < 5 && preset_ids()[i] == scenario_id@),
        r matches Some(st) ==> exists|s: Scenario| {
            &&& s.id@ == scenario_id@
            &&& (exists|i: int| 0 <= i < 5 && preset_ids()[i] == scenario_id@ && #[trigger] presets_at(i, s))
            &&& st.phase == DuelPhase::Preparation
            &&& st.round == 0
            &&& st.active_player == PlayerSide::First
            &&& st.result is None
            &&& st.effect_stack@.len() == 0 && st.effect_log@.len() == 0
            &&& st.scenario_id@ == scenario_id@
            &&& field_of_player(s.first_player, st.fields@[0])
            &&& field_of_player(s.second_player, st.fields@[1])
        },
{
    let all = preset_scenarios();
    let key = owned(scenario_id);
    let mut i: usize = 0;
    while i < all.len()
        invariant
            i <= all@.len(),
            presets_spec(all@),
            key@ == scenario_id@,
            forall|k: int| 0 <= k < i ==> all@[k].id@ != key@,
        decreases all@.len() - i,
    {
        if all[i].id == key {
            let s = &all[i];
            let first = s.first_player.to_field();
            let second = s.second_player.to_field();
            let st = DuelState::new(first, second, s.id.clone());
            proof {
                lemma_presets_at(all@, i as int);
            }
            return Some(st);
        }
        i = i + 1;
    }
    proof {
        assert forall|k: int| 0 <= k < 5 implies preset_ids()[k] != scenario_id@ by {
            lemma_presets_at(all@, k);
        }
    }
    None
}

/// The `i`-th preset is `s`.
pub open spec fn presets_at(i: int, s: Scenario) -> bool {
    if i == 0 {
        scenario_1_basic_duel_spec(s)
    } else if i == 1 {
        scenario_2_mark_battle_spec(s)
    } else if i == 2 {
        scenario_3_tag_combo_clash_spec(s)
    } else if i == 3 {
        scenario_4_seal_counter_spec(s)
    } else {
        scenario_5_free_battle_spec(s)
    }
}

pub proof fn lemma_presets_at(v: Seq<Scenario>, i: int)
    requires
        presets_spec(v),
        0 <= i < 5,
    ensures
        presets_at(i, v[i]),
        v[i].id@ == preset_ids()[i],
{
}

} // verus!
