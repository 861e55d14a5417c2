//! The hand: an ordered, growable sequence of cards, and its parsing.

use vstd::prelude::*;
use vstd::string::StrSliceExecFns;
use crate::card::{spec_card_from_chars, Card};
use crate::errors::StrParseErr;

verus! {

/// An ordered, growable sequence of cards. The container itself enforces no
/// uniqueness; parsing does (see [`Hand::try_from_str`]).
#[derive(Debug, Clone, Hash, PartialEq, Eq)]
pub struct Hand {
    cards: Vec<Card>,
}

impl View for Hand {
    type V = Seq<Card>;

    closed spec fn view(&self) -> Seq<Card> {
        self.cards@
    }
}

impl Hand {
    /// Create the default empty hand.
    pub fn default() -> (h: Hand)
        ensures
            h@ == Seq::<Card>::empty(),
    {
        Hand { cards: Vec::with_capacity(5) }
    }

    /// Create a hand holding exactly the given cards, in the given order.
    pub fn new_with_cards(cards: Vec<Card>) -> (h: Hand)
        ensures
            h@ == cards@,
    {
        Hand { cards }
    }

    /// Add a card at the end of the hand. No uniqueness check is done.
    pub fn push(&mut self, c: Card)
        ensures
            final(self)@ == old(self)@.push(c),
    {
        self.cards.push(c);
    }

    /// Truncate the hand to the given number of cards; a `len` at or above
    /// the current length leaves the hand unchanged.
    pub fn truncate(&mut self, len: usize)
        ensures
            len <= old(self)@.len() ==> final(self)@ == old(self)@.subrange(0, len as int),
            len > old(self)@.len() ==> final(self)@ == old(self)@,
    {
        self.cards.truncate(len)
    }

    /// How many cards are in this hand so far.
    pub fn len(&self) -> (l: usize)
        ensures
            l == self@.len(),
    {
        self.cards.len()
    }

    /// Whether the hand holds no cards at all.
    pub fn is_empty(&self) -> (b: bool)
        ensures
            b <==> self@.len() == 0,
    {
        self.cards.is_empty()
    }

    /// The cards of the hand, in order, as a fresh vector.
    pub fn iter(&self) -> (r: Vec<Card>)
        ensures
            r@ == self@,
    {
        let mut r: Vec<Card> = Vec::with_capacity(self.cards.len());
        let mut i: usize = 0;
        while i < self.cards.len()
            invariant
                i <= self.cards.len(),
                r@ == self.cards@.subrange(0, i as int),
            decreases self.cards.len() - i,
        {
            r.push(self.cards[i]);
            proof {
                assert(r@ =~= self.cards@.subrange(0, i + 1));
            }
            i += 1;
        }
        proof {
            assert(r@ =~= self.cards@);
        }
        r
    }

    /// The card at the given position.
    pub fn get(&self, i: usize) -> (c: Card)
        requires
            i < self@.len(),
        ensures
            c == self@[i as int],
    {
        self.cards[i]
    }

    /// Borrow the cards of the hand, in order.
    pub fn cards(&self) -> (r: &Vec<Card>)
        ensures
            r@ == self@,
    {
        &self.cards
    }
}

/// Whether a text denotes a hand: an even number of characters, every pair
/// of which denotes a card, with no card repeated.
pub open spec fn valid_hand_chars(s: Seq<char>) -> bool {
    &&& s.len() % 2 == 0
    &&& forall|k: int|
        0 <= k < s.len() / 2 ==> #[trigger] spec_card_from_chars(s[2 * k], s[2 * k + 1]) is Some
    &&& forall|k1: int, k2: int|
        0 <= k1 < k2 < s.len() / 2 ==> #[trigger] spec_card_from_chars(s[2 * k1], s[2 * k1 + 1])
            != #[trigger] spec_card_from_chars(s[2 * k2], s[2 * k2 + 1])
}

/// The cards a valid hand text denotes, in text order.
pub open spec fn parsed_cards(s: Seq<char>) -> Seq<Card> {
    Seq::new((s.len() / 2) as nat, |k: int| spec_card_from_chars(s[2 * k], s[2 * k + 1])->Some_0)
}

impl Hand {
    /// Parse a hand from text made of two-character cards, such as `"AdKh"`.
    /// The empty text parses to the empty hand; a repeated card is rejected.
    pub fn try_from_str(s: &str) -> (r: Result<Hand, StrParseErr>)
        ensures
            match r {
                Ok(h) => valid_hand_chars(s@) && h@ == parsed_cards(s@),
                Err(_) => !valid_hand_chars(s@),
            },
    {
        let n = s.unicode_len();
        if n % 2 != 0 {
            return Err(StrParseErr);
        }
        let half = n / 2;
        let mut cards: Vec<Card> = Vec::with_capacity(half);
        let mut k: usize = 0;
        while k < half
            invariant
                n == s@.len(),
                n % 2 == 0,
                half == n / 2,
                k <= half,
                cards@.len() == k as int,
                forall|j: int|
                    0 <= j < k ==> #[trigger] spec_card_from_chars(s@[2 * j], s@[2 * j + 1])
                        == Some(cards@[j]),
                forall|j1: int, j2: int| 0 <= j1 < j2 < k ==> cards@[j1] != cards@[j2],
            decreases half - k,
        {
            let c1 = s.get_char(2 * k);
            let c2 = s.get_char(2 * k + 1);
            match Card::from_chars(c1, c2) {
                None => {
                    return Err(StrParseErr);
                },
                Some(card) => {
                    let mut j: usize = 0;
                    while j < cards.len()
                        invariant
                            n == s@.len(),
                            n % 2 == 0,
                            half == n / 2,
                            k < half,
                            cards@.len() == k as int,
                            j <= cards@.len(),
                            spec_card_from_chars(s@[2 * (k as int)], s@[2 * (k as int) + 1])
                                == Some(card),
                            forall|j0: int|
                                0 <= j0 < k ==> #[trigger] spec_card_from_chars(
                                    s@[2 * j0],
                                    s@[2 * j0 + 1],
                                ) == Some(cards@[j0]),
                            forall|j0: int| 0 <= j0 < j ==> cards@[j0] != card,
                        decreases cards@.len() - j,
                    {
                        if cards[j] == card {
                            proof {
                                let jj = j as int;
                                let kk = k as int;
                                assert(spec_card_from_chars(s@[2 * jj], s@[2 * jj + 1])
                                    == spec_card_from_chars(s@[2 * kk], s@[2 * kk + 1]));
                                assert(!valid_hand_chars(s@));
                            }
                            return Err(StrParseErr);
                        }
                        j += 1;
                    }
                    cards.push(card);
                },
            }
            k += 1;
        }
        proof {
            assert(cards@ =~= parsed_cards(s@));
        }
        Ok(Hand { cards })
    }
}

} // verus!
