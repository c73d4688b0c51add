//! Duels: state machine, effects, execution, preset scenarios, and the
//! session operations the front end calls.
pub mod effect;
pub mod effect_text;
pub mod executor;
pub mod scenario;
pub mod state;

use vstd::prelude::*;
use crate::base::PlayerSide;
use crate::duel::executor::{attack_fits, core_of, execute_full_round, lines, matches_core, round_core, round_lines};
use crate::duel::scenario::{
    count_matching, count_scenario_matches, field_of_player, init_scenario, list_scenarios,
    preset_ids, preset_scenarios, presets_at, presets_spec, CardInfo, Scenario, ScenarioMatch,
};
use crate::duel::state::{
    copy_log, outcome, same_state, DuelPhase, DuelState, EffectLogEntry,
};
use crate::text::{append_str, owned};

verus! {

/// The current duel, if one was started.
pub struct DuelManager(pub Option<DuelState>);

impl DuelManager {
    pub fn new() -> (r: DuelManager)
        ensures
            r.0 is None,
    {
        DuelManager(None)
    }
}

/// The effect log kept across turns.
pub struct EffectLogStore(pub Vec<EffectLogEntry>);

impl EffectLogStore {
    pub fn new() -> (r: EffectLogStore)
        ensures
            r.0@.len() == 0,
    {
        EffectLogStore(Vec::new())
    }
}

/// `st` is a fresh duel of the preset with id `id`.
pub open spec fn fresh_duel(st: DuelState, id: Seq<char>) -> bool {
    exists|s: Scenario, i: int|
        {
            &&& 0 <= i < 5
            &&& preset_ids()[i] == id
            &&& #[trigger] presets_at(i, s)
            &&& st.phase == DuelPhase::Preparation
            &&& st.round == 0
            &&& st.active_player == PlayerSide::First
            &&& st.result is None
            &&& st.effect_stack@.len() == 0 && st.effect_log@.len() == 0
            &&& st.scenario_id@ == id
            &&& field_of_player(s.first_player, st.fields@[0])
            &&& field_of_player(s.second_player, st.fields@[1])
        }
}

pub open spec fn is_preset(id: Seq<char>) -> bool {
    exists|i: int| 0 <= i < 5 && preset_ids()[i] == id
}

/// Starts the preset duel `scenario_id`: the manager holds it, the log is
/// emptied, and a copy is returned. An unknown id is an error and changes nothing.
pub fn do_init_duel(
    scenario_id: &str,
    duel_manager: &mut Option<DuelState>,
    log_store: &mut Vec<EffectLogEntry>,
) -> (r: Result<DuelState, String>)
    ensures
        r is Ok <==> is_preset(scenario_id@),
        r matches Ok(st) ==> {
            &&& fresh_duel(st, scenario_id@)
            &&& *final(duel_manager) matches Some(m) && same_state(m, st)
            &&& final(log_store)@.len() == 0
        },
        r matches Err(e) ==> {
            &&& e@ == "场景 '"@ + scenario_id@ + "' 不存在"@
            &&& *final(duel_manager) == *old(duel_manager)
            &&& *final(log_store) == *old(log_store)
        },
{
    match init_scenario(scenario_id) {
        Some(state) => {
            *duel_manager = Some(state.copy());
            log_store.clear();
            Ok(state)
        },
        None => {
            let mut e = owned("场景 '");
            append_str(&mut e, scenario_id);
            append_str(&mut e, "' 不存在");
            Err(e)
        },
    }
}

/// Plays one full round of the current duel and appends its lines to the
/// log; returns a copy of the state after it. Without a duel it is an error.
pub fn do_execute_turn(duel_manager: &mut Option<DuelState>, log_store: &mut Vec<EffectLogEntry>) -> (r:
    Result<DuelState, String>)
    requires
        *old(duel_manager) matches Some(st) ==> attack_fits(st.fld(PlayerSide::First)) && attack_fits(
            st.fld(PlayerSide::Second),
        ) && st.round < u32::MAX,
    ensures
        r is Ok <==> *old(duel_manager) is Some,
        r matches Err(e) ==> e@ == "请先调用 init_duel 初始化对峙"@ && *final(duel_manager) == *old(
            duel_manager,
        ) && *final(log_store) == *old(log_store),
        r matches Ok(st) ==> {
            let before = (*old(duel_manager))->0;
            &&& *final(duel_manager) matches Some(after) && same_state(st, after) && matches_core(
                after,
                round_core(core_of(before)),
                before,
            )
            &&& final(log_store)@.len() >= old(log_store)@.len()
            &&& final(log_store)@.subrange(0, old(log_store)@.len() as int) == old(log_store)@
            &&& lines(final(log_store)@.subrange(old(log_store)@.len() as int, final(log_store)@.len() as int))
                == round_lines(core_of(before))
        },
{
    match duel_manager {
        Some(state) => {
            let log = execute_full_round(state);
            let mut i: usize = 0;
            let ghost l0 = log_store@;
            while i < log.len()
                invariant
                    i <= log@.len(),
                    log_store@ == l0 + log@.subrange(0, i as int),
                decreases log@.len() - i,
            {
                log_store.push(log[i].copy());
                i = i + 1;
                assert(log_store@ =~= l0 + log@.subrange(0, i as int));
            }
            assert(log_store@.subrange(0, l0.len() as int) =~= l0);
            assert(log_store@.subrange(l0.len() as int, log_store@.len() as int) =~= log@);
            Ok(state.copy())
        },
        None => Err(owned("请先调用 init_duel 初始化对峙")),
    }
}

/// A copy of the current duel, if any.
pub fn do_get_duel_state(duel_manager: &Option<DuelState>) -> (r: Result<Option<DuelState>, String>)
    ensures
        r matches Ok(o) && match o {
            Some(st) => *duel_manager matches Some(m) && same_state(st, m),
            None => duel_manager is None,
        },
{
    match duel_manager {
        Some(st) => Ok(Some(st.copy())),
        None => Ok(None),
    }
}

/// A copy of the effect log.
pub fn do_get_effect_log(log_store: &Vec<EffectLogEntry>) -> (r: Result<Vec<EffectLogEntry>, String>)
    ensures
        r matches Ok(v) && v@ == log_store@,
{
    Ok(copy_log(log_store))
}

/// The preset scenarios.
pub fn do_list_duel_scenarios() -> (r: Vec<Scenario>)
    ensures
        presets_spec(r@),
{
    list_scenarios()
}

/// For each preset, how many cards of the pool suit each side.
pub fn do_list_duel_scenarios_with_matches(card_pool: Vec<CardInfo>) -> (r: Vec<ScenarioMatch>)
    ensures
        r@.len() == 5,
        forall|i: int|
            #![trigger r@[i]]
            0 <= i < 5 ==> exists|s: Scenario|
                {
                    &&& #[trigger] presets_at(i, s)
                    &&& r@[i].id@ == s.id@
                    &&& r@[i].first_matches == count_matching(card_pool@, s.first_player.conditions)
                    &&& r@[i].second_matches == count_matching(card_pool@, s.second_player.conditions)
                    &&& r@[i].first_label@ == s.first_player.conditions.label@
                    &&& r@[i].second_label@ == s.second_player.conditions.label@
                },
{
    let scenarios = preset_scenarios();
    let mut out: Vec<ScenarioMatch> = Vec::new();
    let mut i: usize = 0;
    while i < scenarios.len()
        invariant
            i <= scenarios@.len(),
            presets_spec(scenarios@),
            out@.len() == i,
            forall|k: int|
                0 <= k < i ==> {
                    &&& presets_at(k, scenarios@[k])
                    &&& out@[k].id@ == scenarios@[k].id@
                    &&& out@[k].first_matches == count_matching(
                        card_pool@,
                        scenarios@[k].first_player.conditions,
                    )
                    &&& out@[k].second_matches == count_matching(
                        card_pool@,
                        scenarios@[k].second_player.conditions,
                    )
                    &&& out@[k].first_label@ == scenarios@[k].first_player.conditions.label@
                    &&& out@[k].second_label@ == scenarios@[k].second_player.conditions.label@
                },
        decreases scenarios@.len() - i,
    {
        proof {
            crate::duel::scenario::lemma_presets_at(scenarios@, i as int);
        }
        let m = count_scenario_matches(&scenarios[i], card_pool.as_slice());
        out.push(m);
        i = i + 1;
    }
    proof {
        assert forall|k: int| #![trigger out@[k]] 0 <= k < 5 implies exists|s: Scenario|
            {
                &&& #[trigger] presets_at(k, s)
                &&& out@[k].id@ == s.id@
                &&& out@[k].first_matches == count_matching(card_pool@, s.first_player.conditions)
                &&& out@[k].second_matches == count_matching(card_pool@, s.second_player.conditions)
                &&& out@[k].first_label@ == s.first_player.conditions.label@
                &&& out@[k].second_label@ == s.second_player.conditions.label@
            } by {
            assert(presets_at(k, scenarios@[k]));
        }
    }
    out
}

/// A phase as shown by the debugging view.
#[derive(Debug, Clone)]
pub struct PhaseInfo {
    pub phase: String,
    pub name: String,
    pub index: u8,
}

fn phase_info(phase: &str, name: &str, index: u8) -> (r: PhaseInfo)
    ensures
        r.phase@ == phase@ && r.name@ == name@ && r.index == index,
{
    PhaseInfo { phase: owned(phase), name: owned(name), index }
}

/// The five phases in order, with their identifiers and display names.
pub fn do_get_duel_phase_info() -> (r: Vec<PhaseInfo>)
    ensures
        r@.len() == 5,
        forall|i: int| 0 <= i < 5 ==> #[trigger] r@[i].index == i,
        r@[0].phase@ == "Preparation"@ && r@[0].name@ == DuelPhase::Preparation.spec_name(),
        r@[1].phase@ == "FirstPlayerTurn"@ && r@[1].name@ == DuelPhase::FirstPlayerTurn.spec_name(),
        r@[2].phase@ == "SecondPlayerTurn"@ && r@[2].name@ == DuelPhase::SecondPlayerTurn.spec_name(),
        r@[3].phase@ == "Settlement"@ && r@[3].name@ == DuelPhase::Settlement.spec_name(),
        r@[4].phase@ == "End"@ && r@[4].name@ == DuelPhase::End.spec_name(),
{
    let mut v: Vec<PhaseInfo> = Vec::new();
    v.push(phase_info("Preparation", "准备阶段", 0));
    v.push(phase_info("FirstPlayerTurn", "先手回合", 1));
    v.push(phase_info("SecondPlayerTurn", "后手回合", 2));
    v.push(phase_info("Settlement", "结算阶段", 3));
    v.push(phase_info("End", "结束", 4));
    v
}

} // verus!
