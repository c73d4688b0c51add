//! Types shared by every part of the engine.
use vstd::prelude::*;
use crate::text::append_str;

verus! {

/// Which side of a duel a player or effect belongs to.
#[derive(Debug, Clone, Copy, PartialEq, Eq, Structural)]
pub enum PlayerSide {
    First,
    Second,
    Self_,
    Opponent,
}

impl PlayerSide {
    /// The side facing this one.
    pub open spec fn spec_opponent(self) -> PlayerSide {
        match self {
            PlayerSide::First => PlayerSide::Second,
            PlayerSide::Second => PlayerSide::First,
            PlayerSide::Self_ => PlayerSide::Opponent,
            PlayerSide::Opponent => PlayerSide::Self_,
        }
    }

    pub fn opponent(&self) -> (r: PlayerSide)
        ensures
            r == self.spec_opponent(),
    {
        match self {
            PlayerSide::First => PlayerSide::Second,
            PlayerSide::Second => PlayerSide::First,
            PlayerSide::Self_ => PlayerSide::Opponent,
            PlayerSide::Opponent => PlayerSide::Self_,
        }
    }

    /// Display name of the side.
    pub open spec fn spec_name(self) -> Seq<char> {
        match self {
            PlayerSide::First => "先手方"@,
            PlayerSide::Second => "后手方"@,
            PlayerSide::Self_ => "自身方"@,
            PlayerSide::Opponent => "对方"@,
        }
    }

    pub fn name(&self) -> (r: &'static str)
        ensures
            r@ == self.spec_name(),
    {
        match self {
            PlayerSide::First => "先手方",
            PlayerSide::Second => "后手方",
            PlayerSide::Self_ => "自身方",
            PlayerSide::Opponent => "对方",
        }
    }
}

/// Taking the opponent twice gives back the same side.
pub proof fn lemma_opponent_involutive(s: PlayerSide)
    ensures
        s.spec_opponent().spec_opponent() == s,
        s.spec_opponent() != s,
{
}

/// Kind of damage an effect deals.
#[derive(Debug, Clone, Copy, PartialEq, Eq, Structural)]
pub enum DamageType {
    Physical,
    Magical,
    True,
    PercentCurrent,
    PercentMax,
}

/// One row of the five-stage card grammar: condition, subject, predicate, object, note.
#[derive(Debug, Clone, PartialEq)]
pub struct FiveStageEntry {
    pub id: String,
    pub condition: String,
    pub subject: String,
    pub predicate: String,
    pub object: String,
    pub note: String,
}

/// Outcome of a parse or a validation pass.
#[derive(Debug, Clone)]
pub struct ParseResult {
    pub success: bool,
    pub errors: Vec<String>,
    pub warnings: Vec<String>,
}

/// Core data of one card.
#[derive(Debug, Clone)]
pub struct Card {
    pub id: String,
    pub name: String,
    pub tags: Vec<String>,
    pub text: String,
}

/// Where a card lies.
#[derive(Debug, Clone, Copy, PartialEq, Eq, Structural)]
pub enum Zone {
    Deck,
    Hand,
    Field,
    Graveyard,
    Exile,
}

/// A named numeric attribute of a card.
#[derive(Debug, Clone)]
pub struct Stat {
    pub name: String,
    pub value: i32,
}

/// A tag of the tag system.
#[derive(Debug, Clone)]
pub struct Tag {
    pub id: String,
    pub name: String,
    pub color: String,
    pub description: String,
}

/// A tag attached to a card.
#[derive(Debug, Clone)]
pub struct Mark {
    pub id: String,
    pub tag_id: String,
    pub card_id: String,
    pub note: String,
}

/// Errors shared by the engine parts.
#[derive(Debug, Clone)]
pub enum CoreError {
    NotFound { entity: String, id: String },
    ParseError { card: String, detail: String },
    ValidateError { card: String, detail: String },
    DuelError { detail: String },
    IoError { detail: String },
}

impl CoreError {
    /// The text the error is shown with.
    pub open spec fn spec_message(self) -> Seq<char> {
        match self {
            CoreError::NotFound { entity, id } => entity@ + " not found: "@ + id@,
            CoreError::ParseError { card, detail } => "parse error in '"@ + card@ + "': "@ + detail@,
            CoreError::ValidateError { card, detail } => "validation error in '"@ + card@ + "': "@
                + detail@,
            CoreError::DuelError { detail } => "duel error: "@ + detail@,
            CoreError::IoError { detail } => "io error: "@ + detail@,
        }
    }

    pub fn message(&self) -> (r: String)
        ensures
            r@ == self.spec_message(),
    {
        let mut s = String::new();
        match self {
            CoreError::NotFound { entity, id } => {
                append_str(&mut s, entity.as_str());
                append_str(&mut s, " not found: ");
                append_str(&mut s, id.as_str());
            },
            CoreError::ParseError { card, detail } => {
                append_str(&mut s, "parse error in '");
                append_str(&mut s, card.as_str());
                append_str(&mut s, "': ");
                append_str(&mut s, detail.as_str());
            },
            CoreError::ValidateError { card, detail } => {
                append_str(&mut s, "validation error in '");
                append_str(&mut s, card.as_str());
                append_str(&mut s, "': ");
                append_str(&mut s, detail.as_str());
            },
            CoreError::DuelError { detail } => {
                append_str(&mut s, "duel error: ");
                append_str(&mut s, detail.as_str());
            },
            CoreError::IoError { detail } => {
                append_str(&mut s, "io error: ");
                append_str(&mut s, detail.as_str());
            },
        }
        proof {
            assert(s@ =~= self.spec_message());
        }
        s
    }
}

} // verus!
