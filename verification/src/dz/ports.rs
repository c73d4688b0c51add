//! Identifiers and shared records of the DZ engine.
use vstd::prelude::*;
use crate::text::copy_string;

verus! {

/// Identifier of a card definition.
#[derive(Debug, Clone, PartialEq, Eq, Hash)]
pub struct CardId(pub String);

/// Identifier of a static (compiled) card definition.
#[derive(Debug, Clone, PartialEq, Eq, Hash)]
pub struct StaticCardId(pub String);

/// Identifier of one card instance in a running game.
#[derive(Debug, Clone, PartialEq, Eq, Hash)]
pub struct RuntimeCardId(pub String);

/// Identifier of a mark.
#[derive(Debug, Clone, PartialEq, Eq, Hash)]
pub struct MarkId(pub String);

/// Identifier of a player.
#[derive(Debug, Clone, PartialEq, Eq, Hash)]
pub struct PlayerId(pub String);

impl View for StaticCardId {
    type V = Seq<char>;

    open spec fn view(&self) -> Seq<char> {
        self.0@
    }
}

impl View for RuntimeCardId {
    type V = Seq<char>;

    open spec fn view(&self) -> Seq<char> {
        self.0@
    }
}

impl View for MarkId {
    type V = Seq<char>;

    open spec fn view(&self) -> Seq<char> {
        self.0@
    }
}

impl View for PlayerId {
    type V = Seq<char>;

    open spec fn view(&self) -> Seq<char> {
        self.0@
    }
}

impl StaticCardId {
    pub fn copy(&self) -> (r: StaticCardId)
        ensures
            r@ == self@,
    {
        StaticCardId(copy_string(&self.0))
    }
}

impl RuntimeCardId {
    pub fn copy(&self) -> (r: RuntimeCardId)
        ensures
            r@ == self@,
    {
        RuntimeCardId(copy_string(&self.0))
    }
}

impl MarkId {
    pub fn copy(&self) -> (r: MarkId)
        ensures
            r@ == self@,
    {
        MarkId(copy_string(&self.0))
    }
}

impl PlayerId {
    pub fn copy(&self) -> (r: PlayerId)
        ensures
            r@ == self@,
    {
        PlayerId(copy_string(&self.0))
    }
}

/// Ids by their texts.
pub open spec fn rid_views(v: Seq<RuntimeCardId>) -> Seq<Seq<char>> {
    v.map_values(|r: RuntimeCardId| r@)
}

/// Where a card instance lies.
#[derive(Debug, Clone, Copy, PartialEq, Eq, Structural)]
pub enum Zone {
    Deck,
    Hand,
    Field,
    Graveyard,
    Exile,
}

/// Phase of a turn.
#[derive(Debug, Clone, Copy, PartialEq, Eq, Structural)]
pub enum Phase {
    Draw,
    Main,
    Combat,
    End,
}

/// One card instance in a running game. Its marks are kept as a list of
/// (mark id, count) pairs, the first pair for an id being the one that counts.
#[derive(Debug, Clone)]
pub struct RuntimeCardInstance {
    pub runtime_id: RuntimeCardId,
    pub static_def_ref: StaticCardId,
    pub zone: Zone,
    pub owner: PlayerId,
    pub hp: u32,
    pub armor: u32,
    pub energy: u32,
    pub marks: Vec<(String, u32)>,
}

impl RuntimeCardInstance {
    /// The same instance, field by field.
    pub open spec fn same(self, other: RuntimeCardInstance) -> bool {
        &&& self.runtime_id@ == other.runtime_id@
        &&& self.static_def_ref@ == other.static_def_ref@
        &&& self.zone == other.zone
        &&& self.owner@ == other.owner@
        &&& self.hp == other.hp
        &&& self.armor == other.armor
        &&& self.energy == other.energy
        &&& mark_pairs(self.marks@) == mark_pairs(other.marks@)
    }

    pub fn copy(&self) -> (r: RuntimeCardInstance)
        ensures
            r.same(*self),
    {
        let mut marks: Vec<(String, u32)> = Vec::new();
        let mut i: usize = 0;
        while i < self.marks.len()
            invariant
                i <= self.marks@.len(),
                marks@.len() == i,
                mark_pairs(marks@) == mark_pairs(self.marks@.subrange(0, i as int)),
            decreases self.marks@.len() - i,
        {
            let ghost before = marks@;
            let e = (copy_string(&self.marks[i].0), self.marks[i].1);
            marks.push(e);
            assert(marks@ == before.push(e));
            assert(self.marks@.subrange(0, i + 1) =~= self.marks@.subrange(0, i as int).push(self.marks@[i as int]));
            assert(mark_pairs(marks@) =~= mark_pairs(before).push((e.0@, e.1)));
            assert(mark_pairs(self.marks@.subrange(0, i + 1)) =~= mark_pairs(self.marks@.subrange(0, i as int)).push((self.marks@[i as int].0@, self.marks@[i as int].1)));
            i = i + 1;
        }
        assert(self.marks@.subrange(0, self.marks@.len() as int) =~= self.marks@);
        RuntimeCardInstance {
            runtime_id: self.runtime_id.copy(),
            static_def_ref: self.static_def_ref.copy(),
            zone: self.zone,
            owner: self.owner.copy(),
            hp: self.hp,
            armor: self.armor,
            energy: self.energy,
            marks,
        }
    }
}

/// Mark counts as (id text, count) pairs.
pub open spec fn mark_pairs(v: Seq<(String, u32)>) -> Seq<(Seq<char>, u32)> {
    v.map_values(|e: (String, u32)| (e.0@, e.1))
}

/// Severity of a parse or validation finding.
#[derive(Debug, Clone, Copy, PartialEq, Eq, Structural)]
pub enum IssueSeverity {
    Error,
    Warning,
}

/// A parse error with its position.
#[derive(Debug, Clone)]
pub struct ParseError {
    pub line: usize,
    pub col: usize,
    pub message: String,
    pub severity: IssueSeverity,
}

/// A finding of the validator: the rule broken and what was found.
#[derive(Debug, Clone)]
pub struct ValidationIssue {
    pub rule_id: u32,
    pub message: String,
    pub severity: IssueSeverity,
}

/// One line of a game log.
#[derive(Debug, Clone)]
pub struct LogEntry {
    pub turn: u32,
    pub action: String,
    pub actor: Option<String>,
    pub target: Option<String>,
    pub result: String,
}

/// A log line as texts.
pub struct LogView {
    pub turn: u32,
    pub action: Seq<char>,
    pub actor: Option<Seq<char>>,
    pub target: Option<Seq<char>>,
    pub result: Seq<char>,
}

pub open spec fn opt_view(o: Option<String>) -> Option<Seq<char>> {
    match o {
        Some(s) => Some(s@),
        None => None,
    }
}

impl View for LogEntry {
    type V = LogView;

    open spec fn view(&self) -> LogView {
        LogView {
            turn: self.turn,
            action: self.action@,
            actor: opt_view(self.actor),
            target: opt_view(self.target),
            result: self.result@,
        }
    }
}

pub open spec fn log_views(v: Seq<LogEntry>) -> Seq<LogView> {
    v.map_values(|e: LogEntry| e@)
}

impl LogEntry {
    pub fn copy(&self) -> (r: LogEntry)
        ensures
            r@ == self@,
    {
        LogEntry {
            turn: self.turn,
            action: copy_string(&self.action),
            actor: copy_opt(&self.actor),
            target: copy_opt(&self.target),
            result: copy_string(&self.result),
        }
    }
}

pub fn copy_opt(o: &Option<String>) -> (r: Option<String>)
    ensures
        opt_view(r) == opt_view(*o),
{
    match o {
        Some(s) => Some(copy_string(s)),
        None => None,
    }
}

/// Copy of a log.
pub fn copy_log(v: &Vec<LogEntry>) -> (r: Vec<LogEntry>)
    ensures
        log_views(r@) == log_views(v@),
{
    let mut out: Vec<LogEntry> = Vec::new();
    let mut i: usize = 0;
    while i < v.len()
        invariant
            i <= v@.len(),
            log_views(out@) == log_views(v@.subrange(0, i as int)),
        decreases v@.len() - i,
    {
        let e = v[i].copy();
        let ghost before = out@;
        out.push(e);
        assert(log_views(out@) =~= log_views(before).push(v@[i as int]@));
        assert(v@.subrange(0, i + 1) =~= v@.subrange(0, i as int).push(v@[i as int]));
        assert(log_views(v@.subrange(0, i + 1)) =~= log_views(v@.subrange(0, i as int)).push(v@[i as int]@));
        i = i + 1;
    }
    assert(v@.subrange(0, v@.len() as int) =~= v@);
    out
}

/// Outcome of playing a card.
#[derive(Debug, Clone)]
pub struct EffectResult {
    pub success: bool,
    pub log: Vec<LogEntry>,
    pub state_changes: Vec<String>,
}

/// Outcome of a batch render run; the two paths are kept as text.
#[derive(Debug, Clone)]
pub struct BatchOutputResult {
    pub total_cards: u32,
    pub cards_generated: u32,
    pub failed: Vec<String>,
    pub manifest_path: String,
    pub output_dir: String,
}

/// What an assistant is told about the card language and the card pool.
#[derive(Debug, Clone)]
pub struct AIContext {
    pub lexicon: String,
    pub grammar_spec: String,
    pub existing_cards_summary: Vec<String>,
    pub distribution_rules: String,
}

/// A card text produced by an assistant.
#[derive(Debug, Clone)]
pub struct AIGeneratedCard {
    pub dz_text: String,
    pub warnings: Vec<String>,
    pub retry_count: u32,
}

/// A completion offered while a card text is typed.
#[derive(Debug, Clone)]
pub struct CompletionSuggestion {
    pub text: String,
    pub display: String,
    pub category: String,
}

/// Reports progress of a long run.
pub trait ProgressCallback {
    fn on_progress(&self, current: u32, total: u32, current_card: &str);
}

/// Read-only catalogue of marks.
pub trait MarkRegistryPort {
    /// Whether the registry holds mark `id`.
    spec fn known(&self, id: Seq<char>) -> bool;

    fn list_all(&self) -> Vec<MarkId>;

    fn get_type(&self, id: &MarkId) -> Option<String>;

    fn is_valid(&self, id: &MarkId) -> (r: bool)
        ensures
            r == self.known(id@),
    ;
}

/// Loads shared and per-card assets by keyword.
pub trait AssetLoaderPort {
    fn load_shared(&self, keyword: &str) -> Result<Vec<u8>, String>;

    fn load_card_asset(&self, card_id: &StaticCardId, asset_name: &str) -> Result<Vec<u8>, String>;

    fn evict_card_cache(&self, card_id: &StaticCardId);
}

/// Diagnostic log.
pub trait LogPort {
    fn info(&self, msg: &str);

    fn warn(&self, msg: &str);

    fn error(&self, msg: &str);

    fn record_parse_error(&self, card_id: &StaticCardId, errors: &[ParseError]);

    fn get_recent_errors(&self, limit: usize) -> Vec<String>;
}

/// Card text assistant.
pub trait AIAssistantPort {
    fn generate_card(&self, prompt: &str, context: &AIContext) -> Result<AIGeneratedCard, String>;

    fn validate_and_fix(&self, dz_text: &str, errors: &[ParseError]) -> Result<String, String>;

    fn suggest_completion(&self, partial_dz: &str, cursor_position: usize) -> Result<Vec<CompletionSuggestion>, String>;
}

/// The runtime battlefield: the one place that writes game state. Saving
/// and loading snapshots is file work and lies outside this trait.
pub trait BattlefieldPort {
    fn init_game(&mut self, player_count: u32) -> Result<(), String>;

    fn get_player_hand(&self, player: PlayerId) -> Vec<RuntimeCardInstance>;

    fn get_player_field(&self, player: PlayerId) -> Vec<RuntimeCardInstance>;

    fn draw_card(&mut self, player: PlayerId) -> Result<RuntimeCardId, String>;

    fn play_card(&mut self, player: PlayerId, card: RuntimeCardId, target: Option<PlayerId>) -> Result<EffectResult, String>;

    fn get_turn(&self) -> u32;

    fn get_phase(&self) -> Phase;
}

/// The duel rules: whose turn it is, and who has won.
pub trait DuelEnginePort {
    /// Whether ending `player`'s turn now keeps every count in range.
    spec fn end_turn_ok(&self, player: PlayerId) -> bool;

    fn init_duel(&mut self, player_count: u32) -> Result<(), String>;

    fn start_turn(&mut self, player: PlayerId) -> Result<(), String>;

    fn end_turn(&mut self, player: PlayerId) -> Result<(), String>
        requires
            old(self).end_turn_ok(player),
    ;

    fn check_win_condition(&self) -> Option<PlayerId>;

    fn get_effect_log(&self) -> Vec<LogEntry>;
}

} // verus!
