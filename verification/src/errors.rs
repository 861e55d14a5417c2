//! The failure values this library returns.

use vstd::prelude::*;

verus! {

/// Returned when a card or hand text cannot be parsed.
#[derive(PartialEq, Eq, Structural, Debug, Clone, Copy)]
pub struct StrParseErr;

/// Returned when a card is asked of an exhausted deck, or more cards are
/// asked for than a full deck holds.
#[derive(PartialEq, Eq, Structural, Debug, Clone, Copy)]
pub struct DeckIsEmptyErr;

/// Returned when a hand of fewer than five cards is asked for its rank.
#[derive(PartialEq, Eq, Structural, Debug, Clone, Copy)]
pub struct InsufficientCardsErr;

} // verus!
