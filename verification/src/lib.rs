//! A standard 52-card deck and a total ordering over poker hands.
//!
//! The heart of the crate is the hand-ranking engine: given a hand of five
//! or more cards it determines the hand's poker category and produces a
//! rank value that compares correctly against any other hand's rank,
//! kickers and the ace-low wheel straight included.

pub mod card;
pub mod card_iter;
pub mod deck;
pub mod errors;
pub mod hand;
pub mod rank;

pub use card::{Card, Suit, Value};
pub use card_iter::ComboIter;
pub use deck::Deck;
pub use hand::Hand;
pub use rank::{Rank, Rankable};
