//! Card text: lexer, parser, syntax checks, the card store and data governance.
pub mod card_data;
pub mod card_text;
pub mod data_gov;
pub mod lexer;
pub mod validator;

use vstd::prelude::*;
use crate::json::json_parse;
use crate::parser::card_data::{card_stats, count_parsed, delete_card, Card};
use crate::parser::card_text::{ast_of, card_parses, parse_card_text, ParseResult};
use crate::parser::data_gov::{
    all_pairs, detect_duplicates, pair_view, validate_cards_json, validation_of_value, DuplicatePair,
    JsonValidationResult,
};
use crate::parser::validator::{validate_all, validation_of, CardValidation};

verus! {

/// Parses one card's text.
pub fn parse_card(name: String, text: String) -> (r: ParseResult)
    ensures
        r.card_name@ == name@,
        card_parses(text@) ==> r.errors@.len() == 0 && (r.ast matches Some(a) && ast_of(a, name@, text@)),
        !card_parses(text@) ==> r.ast is None && r.errors@.len() == 1,
{
    parse_card_text(name.as_str(), text.as_str())
}

/// Checks every card of the collection.
pub fn validate_all_cards(cards: &Vec<Card>) -> (r: Vec<CardValidation>)
    ensures
        r@.len() == cards@.len(),
        forall|i: int| 0 <= i < cards@.len() ==> validation_of(cards@[i], #[trigger] r@[i]),
{
    validate_all(cards.as_slice())
}

/// How many cards parsed.
#[derive(Debug, Clone)]
pub struct ParseStats {
    pub total: usize,
    pub parsed: usize,
    pub failed: usize,
}

/// Counts of the collection's cards: all, parsed, failed.
pub fn parse_stats(cards: &Vec<Card>) -> (r: ParseStats)
    ensures
        r.total == cards@.len(),
        r.parsed == count_parsed(cards@),
        r.failed == r.total - r.parsed,
{
    let (total, parsed, failed) = card_stats(cards.as_slice());
    ParseStats { total, parsed, failed }
}

/// Removes the cards with this id from the collection.
pub fn do_delete_card(cards: &mut Vec<Card>, id: String) -> (r: Result<bool, String>)
    ensures
        final(cards)@ == crate::parser::card_data::without_id(old(cards)@, id@),
        r == Ok::<bool, String>(exists|i: int| 0 <= i < old(cards)@.len() && old(cards)@[i].id@ == id@),
{
    delete_card(cards, id.as_str())
}

/// Checks the text of a cards document.
pub fn do_validate_cards_json(json_str: String) -> (r: JsonValidationResult)
    ensures
        match json_parse(json_str@) {
            Ok(v) => validation_of_value(v, r),
            Err(e) => !r.valid && r.total_cards == 0 && crate::parser::data_gov::errs_view(r.errors@)
                == seq![("N/A"@, "N/A"@, "root"@, "JSON 解析失败: "@ + e)],
        },
{
    validate_cards_json(json_str.as_str())
}

/// Duplicate pairs among the collection's cards.
pub fn do_detect_duplicates(cards: &Vec<Card>) -> (r: Vec<DuplicatePair>)
    ensures
        r@.map_values(|p: DuplicatePair| pair_view(p)) == all_pairs(cards@, 0),
{
    detect_duplicates(cards)
}

} // verus!
