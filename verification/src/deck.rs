//! The deck: all 52 cards, sampled uniformly without replacement.
//!
//! The random source only ever picks an index below the number of
//! remaining cards; everything else — which card that index holds, and
//! what the deck keeps — is verified for every index the source could
//! yield.

use vstd::prelude::*;
use rand::Rng;
use crate::card::{value_of_index, Card, Suit, Value};
use crate::errors::DeckIsEmptyErr;

verus! {

#[verifier::external_type_specification]
#[verifier::external_body]
pub struct ExThreadRng(rand::rngs::ThreadRng);

/// Relies on `rand::thread_rng`: a handle to the thread-local random
/// generator. Nothing is assumed of it.
#[verifier::external_body]
fn new_rng() -> rand::rngs::ThreadRng {
    rand::thread_rng()
}

/// Relies on `rand::Rng::gen_range` over the range `0..n`: the sample lies
/// in that range. The call panics on an empty range, which the
/// precondition rules out; nothing more is assumed of a random sample.
#[verifier::external_body]
fn rand_below(rng: &mut rand::rngs::ThreadRng, n: usize) -> (r: usize)
    requires
        n > 0,
    ensures
        r < n,
{
    rng.gen_range(0..n)
}

/// One thirteen-card run of a single suit, two through ace.
pub open spec fn suit_run(s: Suit) -> Seq<Card> {
    Seq::new(13, |i: int| Card { value: value_of_index(i), suit: s })
}

/// The full 52-card deck: one card of every value and suit.
pub open spec fn full_deck() -> Seq<Card> {
    suit_run(Suit::Heart) + suit_run(Suit::Spade) + suit_run(Suit::Club) + suit_run(
        Suit::Diamond,
    )
}

/// The cards still in the deck, together with the random source that
/// draws from them.
pub struct Deck {
    cards: Vec<Card>,
    rand: rand::rngs::ThreadRng,
}

impl View for Deck {
    type V = Seq<Card>;

    closed spec fn view(&self) -> Seq<Card> {
        self.cards@
    }
}

/// Append the thirteen cards of one suit.
fn push_suit(cards: &mut Vec<Card>, s: Suit)
    ensures
        final(cards)@ == old(cards)@ + suit_run(s),
{
    let mut i: u8 = 0;
    proof {
        assert(cards@ =~= old(cards)@ + suit_run(s).subrange(0, 0));
    }
    while i < 13
        invariant
            i <= 13,
            cards@ == old(cards)@ + suit_run(s).subrange(0, i as int),
        decreases 13 - i,
    {
        cards.push(Card { value: Value::from_u8(i), suit: s });
        proof {
            assert(cards@ =~= old(cards)@ + suit_run(s).subrange(0, i + 1));
        }
        i += 1;
    }
    proof {
        assert(cards@ =~= old(cards)@ + suit_run(s));
    }
}

/// Removing a card by swapping the last one into its place keeps every
/// other card: the multiset loses exactly the removed card.
proof fn lemma_swap_remove_multiset(s: Seq<Card>, i: int)
    requires
        0 <= i < s.len(),
    ensures
        s.update(i, s.last()).drop_last().to_multiset() == s.to_multiset().remove(s[i]),
{
    broadcast use vstd::multiset::group_multiset_axioms;

    let t = s.update(i, s.last());
    let u = t.drop_last();
    assert(t =~= s.remove(i).insert(i, s.last()));
    vstd::seq_lib::to_multiset_remove(s, i);
    vstd::seq_lib::to_multiset_insert(s.remove(i), i, s.last());
    assert(u =~= t.remove(t.len() - 1));
    vstd::seq_lib::to_multiset_remove(t, t.len() - 1);
    assert(u.to_multiset() =~= s.to_multiset().remove(s[i]));
}

impl Default for Deck {
    /// A full 52-card deck with a fresh random source.
    fn default() -> (d: Deck)
        ensures
            d@ == full_deck(),
    {
        let mut cards: Vec<Card> = Vec::with_capacity(52);
        push_suit(&mut cards, Suit::Heart);
        push_suit(&mut cards, Suit::Spade);
        push_suit(&mut cards, Suit::Club);
        push_suit(&mut cards, Suit::Diamond);
        proof {
            assert(cards@ =~= full_deck());
        }
        Deck { cards, rand: new_rng() }
    }
}

impl Deck {
    /// Draw one card from the remaining cards, removing it. Fails exactly
    /// when the deck is empty. Whatever index the random source yields,
    /// the drawn card was in the deck and the deck keeps precisely the
    /// rest.
    pub fn get_random_card(&mut self) -> (r: Result<Card, DeckIsEmptyErr>)
        ensures
            old(self)@.len() == 0 ==> r == Err::<Card, DeckIsEmptyErr>(DeckIsEmptyErr)
                && final(self)@ == old(self)@,
            old(self)@.len() > 0 ==> match r {
                Ok(c) => old(self)@.contains(c) && final(self)@.len() == old(self)@.len() - 1
                    && old(self)@.to_multiset() == final(self)@.to_multiset().insert(c),
                Err(_) => false,
            },
    {
        let current_cards_len = self.cards.len();
        if current_cards_len == 0 {
            return Err(DeckIsEmptyErr);
        }
        let index = rand_below(&mut self.rand, current_cards_len);
        let ghost before = self.cards@;
        let card = self.cards.swap_remove(index);
        proof {
            broadcast use vstd::multiset::group_multiset_axioms;

            lemma_swap_remove_multiset(before, index as int);
            vstd::seq_lib::to_multiset_contains(before, card);
            vstd::seq_lib::to_multiset_len(before);
            assert(before.to_multiset().count(card) > 0);
            assert(before.to_multiset() =~= self.cards@.to_multiset().insert(card));
        }
        Ok(card)
    }

    /// Draw `amount` cards without replacement. More than a full deck is
    /// refused outright and leaves the deck untouched; success is owed
    /// whenever the deck holds at least `amount` cards, and then exactly
    /// the drawn cards leave the deck. A deck that runs out mid-draw
    /// reports the failure with the deck exhausted.
    pub fn get_random_cards(&mut self, amount: usize) -> (r: Result<Vec<Card>, DeckIsEmptyErr>)
        ensures
            match r {
                Ok(cards) => amount <= 52 && old(self)@.len() >= amount && cards@.len() == amount
                    && final(self)@.len() == old(self)@.len() - amount
                    && old(self)@.to_multiset() == final(self)@.to_multiset().add(
                    cards@.to_multiset(),
                ),
                Err(_) => (amount > 52 && final(self)@ == old(self)@) || (amount <= 52 && old(
                    self,
                )@.len() < amount && final(self)@.len() == 0),
            },
    {
        if amount > 52 {
            return Err(DeckIsEmptyErr);
        }
        let mut cards: Vec<Card> = Vec::with_capacity(amount);
        let mut i: usize = 0;
        proof {
            broadcast use vstd::seq_lib::group_to_multiset_ensures;

            assert(old(self)@.to_multiset() =~= self@.to_multiset().add(cards@.to_multiset()));
        }
        while i < amount
            invariant
                amount <= 52,
                i <= amount,
                cards@.len() == i as int,
                self@.len() + i == old(self)@.len(),
                old(self)@.to_multiset() == self@.to_multiset().add(cards@.to_multiset()),
            decreases amount - i,
        {
            let ghost deck_prev = self@;
            let ghost drawn_prev = cards@;
            match self.get_random_card() {
                Ok(card) => {
                    cards.push(card);
                    proof {
                        broadcast use vstd::multiset::group_multiset_axioms;

                        vstd::seq_lib::to_multiset_build(drawn_prev, card);
                        assert(old(self)@.to_multiset() =~= self@.to_multiset().add(
                            cards@.to_multiset(),
                        ));
                    }
                },
                Err(e) => {
                    return Err(e);
                },
            }
            i += 1;
        }
        Ok(cards)
    }
}

} // verus!
