//! Entities of the DZ game domain: compiled card trees, marks, rules and
//! the public view of a duel.
use vstd::prelude::*;
use crate::dz::ports::{MarkId, PlayerId, RuntimeCardId, StaticCardId};

verus! {

/// A card's syntax tree after parsing.
#[derive(Debug)]
pub struct CardAst {
    pub category: CardCategory,
    pub attributes: CardAttributes,
    pub effects: Vec<EffectBlock>,
}

/// Kind of card.
#[derive(Debug, Clone)]
pub enum CardCategory {
    Faction,
    Career,
    Construct(ConstructSubType),
    Basic(BasicQuality),
}

/// Kind of construct card.
#[derive(Debug, Clone, Copy, PartialEq, Eq, Structural)]
pub enum ConstructSubType {
    Blade,
    Treasure,
    Armor,
    Martial,
    Spell,
}

/// Quality of a basic card.
#[derive(Debug, Clone, Copy, PartialEq, Eq, Structural)]
pub enum BasicQuality {
    White,
    Blue,
    Purple,
    Orange,
}

/// Numeric attributes of a card and whether it is passive.
#[derive(Debug, Clone, Copy, PartialEq, Eq, Structural)]
pub struct CardAttributes {
    pub life: Option<u32>,
    pub armor: Option<u32>,
    pub energy: Option<u32>,
    pub is_passive: bool,
}

/// A block of effects, with the trigger that opens it if any.
#[derive(Debug)]
pub struct EffectBlock {
    pub trigger: Option<String>,
    pub entries: Vec<EffectEntry>,
}

/// One entry of an effect block.
#[derive(Debug)]
pub enum EffectEntry {
    Simple(EffectLine),
    Branch(BranchEntry),
    Options(Vec<EffectLine>),
}

/// Entries that apply when a condition holds.
#[derive(Debug)]
pub struct BranchEntry {
    pub condition: String,
    pub entries: Vec<EffectEntry>,
}

/// One effect in five parts: condition, subject, predicate, object, remark.
#[derive(Debug, Clone)]
pub struct EffectLine {
    pub condition: Option<String>,
    pub subject: Option<String>,
    pub predicate: String,
    pub object: String,
    pub remark: Option<String>,
}

/// A mark and how it behaves.
#[derive(Debug, Clone)]
pub struct Mark {
    pub id: MarkId,
    pub mark_type: MarkType,
}

/// How a mark behaves.
#[derive(Debug, Clone, Copy, PartialEq, Eq, Structural)]
pub enum MarkType {
    Cumulative,
    Threshold,
    StoredRelease,
    StackDetonate,
    TurnGain,
}

/// One rule entry, in the five parts of an effect line.
#[derive(Debug, Clone)]
pub struct Rule {
    pub condition: Option<String>,
    pub subject: Option<String>,
    pub predicate: String,
    pub object: String,
    pub remark: Option<String>,
}

/// The public view of a duel.
#[derive(Debug, Clone)]
pub struct DuelState {
    pub players: Vec<PlayerState>,
    pub turn: u32,
    pub phase: String,
}

/// One player's public state.
#[derive(Debug, Clone)]
pub struct PlayerState {
    pub id: PlayerId,
    pub faction: StaticCardId,
    pub career: StaticCardId,
    pub hand: Vec<RuntimeCardId>,
    pub field: Vec<RuntimeCardId>,
    pub deck_count: u32,
    pub graveyard: Vec<RuntimeCardId>,
}

} // verus!
