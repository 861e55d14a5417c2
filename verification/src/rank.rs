//! Hand ranking: the `Rank` value, its total order, and the evaluation of
//! five-card hands.
//!
//! The model behind the evaluation: give each of the five cards a *key*,
//! `16 * m + v`, where `v` is the card's face-value ordinal and `m` is how
//! many of the five cards share that value. The keys, sorted in descending
//! order, determine everything: the multiplicity digit of each key sorts
//! paired cards in front of kickers, so within one category a plain
//! lexicographic comparison of the sorted keys reproduces poker's kicker
//! precedence, and the category itself can be read off the sorted keys and
//! the flush and straight flags. Straights carry the high card's ordinal as
//! their payload instead, which puts the ace-low wheel below every other
//! straight.

use vstd::prelude::*;
use vstd::relations::{sorted_by, total_ordering};
use vstd::std_specs::cmp::PartialOrdSpec;
use vstd::seq_lib::lemma_sorted_unique;
use crate::card::{value_index, Card};
use crate::card_iter::{is_combo, lex_le, lex_lt, ComboIter};
use crate::errors::InsufficientCardsErr;
use crate::hand::Hand;

verus! {

/// The rank of a five-card hand: one of the nine poker categories, from
/// weakest to strongest, each carrying a packed tiebreak payload. Ranks are
/// totally ordered; two ranks are equal exactly when category and all
/// tiebreak values coincide, so true poker ties, which are independent of
/// suits, compare equal.
#[derive(PartialEq, Eq, Structural, Debug, Clone, Copy, Hash)]
pub enum Rank {
    HighCard(u64),
    Pair(u64),
    TwoPair(u64),
    ThreeOfAKind(u64),
    Straight(u64),
    Flush(u64),
    FullHouse(u64),
    FourOfAKind(u64),
    StraightFlush(u64),
}

impl Rank {
    /// The position of this rank's category in the category order:
    /// 0 for a high card up to 8 for a straight flush.
    pub open spec fn spec_category_index(self) -> int {
        match self {
            Rank::HighCard(_) => 0,
            Rank::Pair(_) => 1,
            Rank::TwoPair(_) => 2,
            Rank::ThreeOfAKind(_) => 3,
            Rank::Straight(_) => 4,
            Rank::Flush(_) => 5,
            Rank::FullHouse(_) => 6,
            Rank::FourOfAKind(_) => 7,
            Rank::StraightFlush(_) => 8,
        }
    }

    /// The tiebreak payload this rank carries.
    pub open spec fn spec_payload(self) -> int {
        match self {
            Rank::HighCard(p) => p as int,
            Rank::Pair(p) => p as int,
            Rank::TwoPair(p) => p as int,
            Rank::ThreeOfAKind(p) => p as int,
            Rank::Straight(p) => p as int,
            Rank::Flush(p) => p as int,
            Rank::FullHouse(p) => p as int,
            Rank::FourOfAKind(p) => p as int,
            Rank::StraightFlush(p) => p as int,
        }
    }

    /// A payload small enough that the single comparison key below keeps
    /// categories apart. Every rank the evaluator produces satisfies this.
    pub open spec fn wf(self) -> bool {
        self.spec_payload() < 0x100_0000_0000
    }

    /// The single comparison key: the category index in the high bits, the
    /// payload in the low ones. On well-formed ranks its numeric order is
    /// exactly the rank order.
    pub open spec fn spec_key(self) -> int {
        self.spec_category_index() * 0x100_0000_0000 + self.spec_payload()
    }

    /// The position of this rank's category in the category order,
    /// 0 (high card) through 8 (straight flush). This exposes the coarse
    /// category only, not the tiebreak encoding.
    pub fn category_index(&self) -> (r: u8)
        ensures
            r as int == self.spec_category_index(),
    {
        match self {
            Rank::HighCard(_) => 0,
            Rank::Pair(_) => 1,
            Rank::TwoPair(_) => 2,
            Rank::ThreeOfAKind(_) => 3,
            Rank::Straight(_) => 4,
            Rank::Flush(_) => 5,
            Rank::FullHouse(_) => 6,
            Rank::FourOfAKind(_) => 7,
            Rank::StraightFlush(_) => 8,
        }
    }

    fn payload_value(&self) -> (r: u64)
        ensures
            r as int == self.spec_payload(),
    {
        match self {
            Rank::HighCard(p) => *p,
            Rank::Pair(p) => *p,
            Rank::TwoPair(p) => *p,
            Rank::ThreeOfAKind(p) => *p,
            Rank::Straight(p) => *p,
            Rank::Flush(p) => *p,
            Rank::FullHouse(p) => *p,
            Rank::FourOfAKind(p) => *p,
            Rank::StraightFlush(p) => *p,
        }
    }

    /// The single comparison key of a well-formed rank.
    pub fn key(&self) -> (r: u64)
        requires
            self.wf(),
        ensures
            r as int == self.spec_key(),
    {
        (self.category_index() as u64) * 0x100_0000_0000 + self.payload_value()
    }
}

impl core::cmp::PartialOrd for Rank {
    /// Ranks order first by category, then by the packed tiebreak payload.
    fn partial_cmp(&self, other: &Rank) -> (r: Option<core::cmp::Ordering>) {
        let c1 = self.category_index();
        let c2 = other.category_index();
        if c1 < c2 {
            Some(core::cmp::Ordering::Less)
        } else if c1 > c2 {
            Some(core::cmp::Ordering::Greater)
        } else {
            let p1 = self.payload_value();
            let p2 = other.payload_value();
            if p1 < p2 {
                Some(core::cmp::Ordering::Less)
            } else if p1 > p2 {
                Some(core::cmp::Ordering::Greater)
            } else {
                Some(core::cmp::Ordering::Equal)
            }
        }
    }
}

impl vstd::std_specs::cmp::PartialOrdSpecImpl for Rank {
    open spec fn obeys_partial_cmp_spec() -> bool {
        true
    }

    open spec fn partial_cmp_spec(&self, other: &Rank) -> Option<core::cmp::Ordering> {
        if self.spec_category_index() < other.spec_category_index() {
            Some(core::cmp::Ordering::Less)
        } else if self.spec_category_index() > other.spec_category_index() {
            Some(core::cmp::Ordering::Greater)
        } else if self.spec_payload() < other.spec_payload() {
            Some(core::cmp::Ordering::Less)
        } else if self.spec_payload() > other.spec_payload() {
            Some(core::cmp::Ordering::Greater)
        } else {
            Some(core::cmp::Ordering::Equal)
        }
    }
}

/// The face-value ordinals of the cards, in card order.
pub open spec fn vals_of(cards: Seq<Card>) -> Seq<int> {
    cards.map_values(|c: Card| value_index(c.value))
}

/// How many of the cards carry the face value with ordinal `v`.
pub open spec fn count_val(cards: Seq<Card>, v: int) -> nat {
    vals_of(cards).filter(|x: int| x == v).len()
}

/// The key of each card: sixteen times the value's multiplicity among the
/// cards, plus the value's ordinal.
pub open spec fn spec_keys(cards: Seq<Card>) -> Seq<u64> {
    Seq::new(
        cards.len(),
        |i: int| (count_val(cards, vals_of(cards)[i]) * 16 + vals_of(cards)[i]) as u64,
    )
}

/// The descending order the keys are sorted by.
pub open spec fn key_order() -> spec_fn(u64, u64) -> bool {
    |a: u64, b: u64| a >= b
}

/// The keys of the cards, sorted in descending order.
pub open spec fn sorted_keys(cards: Seq<Card>) -> Seq<u64> {
    spec_keys(cards).sort_by(key_order())
}

/// Whether all cards share one suit.
pub open spec fn is_flush(cards: Seq<Card>) -> bool {
    forall|i: int| 0 <= i < cards.len() ==> #[trigger] cards[i].suit == cards[0].suit
}

/// The sorted keys of the ace-low wheel straight: ace, five, four, three,
/// two, each with multiplicity one.
pub open spec fn wheel_keys() -> Seq<u64> {
    seq![28u64, 19u64, 18u64, 17u64, 16u64]
}

/// The ordinal of the straight's high card, if the five cards form a
/// straight: five distinct consecutive values, or the wheel, whose high
/// card for ordering purposes is the five.
pub open spec fn straight_high(cards: Seq<Card>) -> Option<int> {
    let sk = sorted_keys(cards);
    if sk == wheel_keys() {
        Some(3)
    } else if sk.len() == 5 && sk[0] < 32 && (forall|i: int|
        0 <= i < 5 ==> #[trigger] sk[i] as int == sk[0] as int - i) {
        Some(sk[0] as int - 16)
    } else {
        None
    }
}

/// The category of the five cards, as a category index, resolved in strict
/// precedence order.
pub open spec fn spec_category(cards: Seq<Card>) -> int {
    let sk = sorted_keys(cards);
    let straight = straight_high(cards) is Some;
    let flush = is_flush(cards);
    if straight && flush {
        8
    } else if sk[0] as int >= 64 {
        7
    } else if sk[0] as int >= 48 && sk[3] as int >= 32 {
        6
    } else if flush {
        5
    } else if straight {
        4
    } else if sk[0] as int >= 48 {
        3
    } else if sk[0] as int >= 32 && sk[2] as int >= 32 {
        2
    } else if sk[0] as int >= 32 {
        1
    } else {
        0
    }
}

/// The sorted keys packed into one number, most significant first: the
/// tiebreak payload of every category but the straights.
pub open spec fn pack_keys(sk: Seq<u64>) -> int {
    sk[0] as int * 0x1_0000_0000 + sk[1] as int * 0x100_0000 + sk[2] as int * 0x1_0000
        + sk[3] as int * 0x100 + sk[4] as int
}

/// The tiebreak payload of the five cards: the straight's high card, or the
/// packed sorted keys.
pub open spec fn spec_payload_of(cards: Seq<Card>) -> int {
    match straight_high(cards) {
        Some(h) => h,
        None => pack_keys(sorted_keys(cards)),
    }
}

/// The rank with the given category index and payload.
pub open spec fn rank_from(cat: int, payload: int) -> Rank {
    let p = payload as u64;
    if cat == 8 {
        Rank::StraightFlush(p)
    } else if cat == 7 {
        Rank::FourOfAKind(p)
    } else if cat == 6 {
        Rank::FullHouse(p)
    } else if cat == 5 {
        Rank::Flush(p)
    } else if cat == 4 {
        Rank::Straight(p)
    } else if cat == 3 {
        Rank::ThreeOfAKind(p)
    } else if cat == 2 {
        Rank::TwoPair(p)
    } else if cat == 1 {
        Rank::Pair(p)
    } else {
        Rank::HighCard(p)
    }
}

/// The rank of exactly five cards. This is a pure function of the cards'
/// values and suits; it is total, so a physically impossible hand holding
/// the same card twice still maps to some definite rank, deterministically.
pub open spec fn eval5(cards: Seq<Card>) -> Rank {
    rank_from(spec_category(cards), spec_payload_of(cards))
}

/// A multiplicity among five cards, written out as the sum of one indicator
/// per card.
proof fn lemma_count5(cards: Seq<Card>, v: int)
    requires
        cards.len() == 5,
    ensures
        count_val(cards, v) == (if vals_of(cards)[0] == v { 1int } else { 0 }) + (if vals_of(
            cards,
        )[1] == v { 1int } else { 0 }) + (if vals_of(cards)[2] == v { 1int } else { 0 }) + (
        if vals_of(cards)[3] == v { 1int } else { 0 }) + (if vals_of(cards)[4] == v {
            1int
        } else {
            0
        }),
{
    let vs = vals_of(cards);
    assert(vs.len() == 5);
    reveal_with_fuel(Seq::<_>::filter, 6);
    assert(vs.drop_last() =~= seq![vs[0], vs[1], vs[2], vs[3]]);
    assert(vs.drop_last().drop_last() =~= seq![vs[0], vs[1], vs[2]]);
    assert(vs.drop_last().drop_last().drop_last() =~= seq![vs[0], vs[1]]);
    assert(vs.drop_last().drop_last().drop_last().drop_last() =~= seq![vs[0]]);
    assert(seq![vs[0]].drop_last() =~= Seq::<int>::empty());
}

/// How many of the five latter arguments equal the first.
fn count_among(x: u64, a: u64, b: u64, c: u64, d: u64, e: u64) -> (r: u64)
    ensures
        r as int == (if a == x { 1int } else { 0 }) + (if b == x { 1int } else { 0 }) + (
        if c == x { 1int } else { 0 }) + (if d == x { 1int } else { 0 }) + (if e == x {
            1int
        } else {
            0
        }),
{
    let mut r: u64 = 0;
    if a == x {
        r += 1;
    }
    if b == x {
        r += 1;
    }
    if c == x {
        r += 1;
    }
    if d == x {
        r += 1;
    }
    if e == x {
        r += 1;
    }
    r
}

/// Sort the keys in descending order by repeated ordered insertion.
fn sort_desc(keys: &Vec<u64>) -> (r: Vec<u64>)
    ensures
        r@.len() == keys@.len(),
        sorted_by(r@, key_order()),
        r@.to_multiset() == keys@.to_multiset(),
{
    let mut r: Vec<u64> = Vec::with_capacity(keys.len());
    let mut i: usize = 0;
    proof {
        assert(keys@.subrange(0, 0) =~= Seq::<u64>::empty());
    }
    while i < keys.len()
        invariant
            i <= keys@.len(),
            r@.len() == i as int,
            sorted_by(r@, key_order()),
            r@.to_multiset() == keys@.subrange(0, i as int).to_multiset(),
        decreases keys@.len() - i,
    {
        let x = keys[i];
        let mut p: usize = 0;
        while p < r.len() && r[p] >= x
            invariant
                p <= r@.len(),
                forall|q: int| 0 <= q < p ==> r@[q] >= x,
            decreases r@.len() - p,
        {
            p += 1;
        }
        let ghost r0 = r@;
        r.insert(p, x);
        proof {
            vstd::seq_lib::to_multiset_insert(r0, p as int, x);
            assert(keys@.subrange(0, i + 1) =~= keys@.subrange(0, i as int).push(
                keys@[i as int],
            ));
            vstd::seq_lib::to_multiset_build(keys@.subrange(0, i as int), keys@[i as int]);
            assert forall|q1: int, q2: int| 0 <= q1 < q2 < r@.len() implies #[trigger] key_order()(
                r@[q1],
                r@[q2],
            ) by {
                assert(r@ == r0.insert(p as int, x));
                if q2 < p {
                    assert(key_order()(r0[q1], r0[q2]));
                } else if q1 > p {
                    assert(key_order()(r0[q1 - 1], r0[q2 - 1]));
                } else if q1 < p && q2 == p {
                    assert(r0[q1] >= x);
                } else if q1 == p {
                    assert(r@[q2] == r0[q2 - 1]);
                    if p < r0.len() {
                        assert(r0[p as int] < x);
                        if q2 - 1 > p {
                            assert(key_order()(r0[p as int], r0[q2 - 1]));
                        }
                    }
                } else if q1 < p && q2 > p {
                    assert(r@[q1] == r0[q1] && r@[q2] == r0[q2 - 1]);
                    assert(key_order()(r0[q1], r0[q2 - 1]) || q1 == q2 - 1);
                    assert(r0[q1] >= x);
                    if p < r0.len() && q2 - 1 >= p {
                        if q2 - 1 == p {
                            assert(r0[q2 - 1] < x);
                        } else {
                            assert(key_order()(r0[p as int], r0[q2 - 1]));
                        }
                    }
                }
            }
        }
        i += 1;
    }
    proof {
        assert(keys@.subrange(0, keys@.len() as int) =~= keys@);
    }
    r
}

/// The descending key order is a total ordering.
proof fn lemma_key_order_total()
    ensures
        total_ordering(key_order()),
{
    assert forall|x: u64, y: u64| #[trigger] key_order()(x, y) || #[trigger] key_order()(
        y,
        x,
    ) by {}
}

/// Evaluate exactly five cards to their rank.
#[verifier::rlimit(100)]
pub fn eval_five(cards: &Vec<Card>) -> (r: Rank)
    requires
        cards@.len() == 5,
    ensures
        r == eval5(cards@),
        r.wf(),
{
    let v0 = cards[0].value.index() as u64;
    let v1 = cards[1].value.index() as u64;
    let v2 = cards[2].value.index() as u64;
    let v3 = cards[3].value.index() as u64;
    let v4 = cards[4].value.index() as u64;

    let n0 = count_among(v0, v0, v1, v2, v3, v4);
    let n1 = count_among(v1, v0, v1, v2, v3, v4);
    let n2 = count_among(v2, v0, v1, v2, v3, v4);
    let n3 = count_among(v3, v0, v1, v2, v3, v4);
    let n4 = count_among(v4, v0, v1, v2, v3, v4);

    let k0 = n0 * 16 + v0;
    let k1 = n1 * 16 + v1;
    let k2 = n2 * 16 + v2;
    let k3 = n3 * 16 + v3;
    let k4 = n4 * 16 + v4;

    proof {
        lemma_count5(cards@, v0 as int);
        lemma_count5(cards@, v1 as int);
        lemma_count5(cards@, v2 as int);
        lemma_count5(cards@, v3 as int);
        lemma_count5(cards@, v4 as int);
    }
    let keys: Vec<u64> = vec![k0, k1, k2, k3, k4];
    proof {
        assert(keys@ =~= spec_keys(cards@));
    }
    let sk = sort_desc(&keys);
    proof {
        lemma_key_order_total();
        spec_keys(cards@).lemma_sort_by_ensures(key_order());
        lemma_sorted_unique(sk@, sorted_keys(cards@), key_order());
        assert(sk@ == sorted_keys(cards@));
    }
    let s0 = sk[0];
    let s1 = sk[1];
    let s2 = sk[2];
    let s3 = sk[3];
    let s4 = sk[4];
    proof {
        assert forall|j: int| 0 <= j < 5 implies 16 <= #[trigger] sk@[j] <= 92 by {
            broadcast use vstd::seq_lib::to_multiset_contains;

            assert(sk@.contains(sk@[j]));
            assert(keys@.to_multiset().count(sk@[j]) > 0);
            assert(keys@.contains(sk@[j]));
            let w = choose|w: int| 0 <= w < keys@.len() && keys@[w] == sk@[j];
            assert(16 <= keys@[w] <= 92);
        }
        assert(16 <= s0 <= 92 && 16 <= s1 <= 92 && 16 <= s2 <= 92 && 16 <= s3 <= 92 && 16 <= s4
            <= 92);
    }
    let flush = cards[0].suit == cards[1].suit && cards[0].suit == cards[2].suit && cards[0].suit
        == cards[3].suit && cards[0].suit == cards[4].suit;
    proof {
        assert(flush == is_flush(cards@));
    }
    let is_wheel = s0 == 28 && s1 == 19 && s2 == 18 && s3 == 17 && s4 == 16;
    let is_run = s0 < 32 && s1 + 1 == s0 && s2 + 2 == s0 && s3 + 3 == s0 && s4 + 4 == s0;
    let high: Option<u64> = if is_wheel {
        Some(3)
    } else if is_run {
        Some(s0 - 16)
    } else {
        None
    };
    proof {
        if is_wheel {
            assert(sorted_keys(cards@) =~= wheel_keys());
            assert(straight_high(cards@) == Some(3int));
        } else {
            assert(sorted_keys(cards@) != wheel_keys()) by {
                if sorted_keys(cards@) == wheel_keys() {
                    assert(sk@[0] == 28 && sk@[1] == 19 && sk@[2] == 18 && sk@[3] == 17
                        && sk@[4] == 16);
                }
            }
            if is_run {
                assert(straight_high(cards@) == Some(s0 as int - 16));
            } else {
                assert(straight_high(cards@) is None);
            }
        }
    }
    let straight = is_wheel || is_run;
    let cat: u8 = if straight && flush {
        8
    } else if s0 >= 64 {
        7
    } else if s0 >= 48 && s3 >= 32 {
        6
    } else if flush {
        5
    } else if straight {
        4
    } else if s0 >= 48 {
        3
    } else if s0 >= 32 && s2 >= 32 {
        2
    } else if s0 >= 32 {
        1
    } else {
        0
    };
    let payload: u64 = match high {
        Some(h) => h,
        None => s0 * 0x1_0000_0000 + s1 * 0x100_0000 + s2 * 0x1_0000 + s3 * 0x100 + s4,
    };
    let r = match cat {
        8 => Rank::StraightFlush(payload),
        7 => Rank::FourOfAKind(payload),
        6 => Rank::FullHouse(payload),
        5 => Rank::Flush(payload),
        4 => Rank::Straight(payload),
        3 => Rank::ThreeOfAKind(payload),
        2 => Rank::TwoPair(payload),
        1 => Rank::Pair(payload),
        _ => Rank::HighCard(payload),
    };
    proof {
        assert(cat as int == spec_category(cards@));
        assert(payload as int == spec_payload_of(cards@));
        assert(r == eval5(cards@));
    }
    r
}

/// The five cards a combination of indices picks out of a hand.
pub open spec fn select(cards: Seq<Card>, c: Seq<usize>) -> Seq<Card> {
    Seq::new(c.len(), |k: int| cards[c[k] as int])
}

/// What evaluation owes: `r` is the rank of some five-card subset of the
/// cards, and no five-card subset ranks higher.
pub open spec fn is_best_rank(cards: Seq<Card>, r: Rank) -> bool {
    &&& exists|c: Seq<usize>|
        #[trigger] is_combo(c, cards.len() as int) && r == eval5(select(cards, c))
    &&& forall|c: Seq<usize>|
        #[trigger] is_combo(c, cards.len() as int) ==> eval5(select(cards, c)).spec_key()
            <= r.spec_key()
}

/// Build the five cards a combination picks out.
fn select_cards(cards: &Vec<Card>, idx: &Vec<usize>) -> (r: Vec<Card>)
    requires
        idx@.len() == 5,
        forall|k: int| 0 <= k < 5 ==> (#[trigger] idx@[k] as int) < cards@.len(),
    ensures
        r@ == select(cards@, idx@),
{
    let mut r: Vec<Card> = Vec::with_capacity(5);
    r.push(cards[idx[0]]);
    r.push(cards[idx[1]]);
    r.push(cards[idx[2]]);
    r.push(cards[idx[3]]);
    r.push(cards[idx[4]]);
    proof {
        assert(r@ =~= select(cards@, idx@));
    }
    r
}

/// The capability of being ranked: anything that holds cards can ask for
/// the strongest rank among their five-card subsets.
pub trait Rankable {
    /// The cards the rank is computed from.
    spec fn cards_seq(&self) -> Seq<Card>;

    /// The strongest rank among all five-card subsets of the cards, or
    /// `InsufficientCardsErr` exactly when fewer than five cards are held.
    fn rank(&self) -> (r: Result<Rank, InsufficientCardsErr>)
        ensures
            match r {
                Ok(rk) => self.cards_seq().len() >= 5 && rk.wf() && is_best_rank(
                    self.cards_seq(),
                    rk,
                ),
                Err(_) => self.cards_seq().len() < 5,
            },
    ;
}

impl Rankable for Hand {
    open spec fn cards_seq(&self) -> Seq<Card> {
        self@
    }

    /// Rank the hand: evaluate it directly when it holds exactly five
    /// cards, otherwise drive the combination enumerator over every
    /// five-card subset and keep the maximum.
    fn rank(&self) -> (r: Result<Rank, InsufficientCardsErr>) {
        let cards = self.cards();
        let n = cards.len();
        if n < 5 {
            return Err(InsufficientCardsErr);
        }
        if n == 5 {
            let rk = eval_five(cards);
            proof {
                let c0 = seq![0usize, 1usize, 2usize, 3usize, 4usize];
                assert(is_combo(c0, 5));
                assert(select(self@, c0) =~= self@);
                assert forall|c: Seq<usize>| is_combo(c, 5) implies eval5(
                    select(self@, c),
                ).spec_key() <= rk.spec_key() by {
                    assert(c[1] >= 1 && c[2] >= 2 && c[3] >= 3 && c[4] >= 4);
                    assert(c[0] <= 1 && c[1] <= 2 && c[2] <= 3 && c[3] <= 4 && c[4] <= 4);
                    assert(c =~= c0);
                }
            }
            return Ok(rk);
        }
        let mut it = ComboIter::new(n);
        let mut best: Option<Rank> = None;
        let mut more = true;
        while more
            invariant
                it.wf(),
                it.n == n,
                n == self@.len(),
                cards@ == self@,
                n > 5,
                more == !it.done,
                more ==> is_combo(it.cur(), n as int),
                match best {
                    None => more && (forall|d: Seq<usize>|
                        #[trigger] is_combo(d, n as int) ==> lex_le(it.cur(), d)),
                    Some(b) => b.wf() && (exists|c: Seq<usize>|
                        #[trigger] is_combo(c, n as int) && b == eval5(select(self@, c))) && (
                    forall|d: Seq<usize>|
                        #[trigger] is_combo(d, n as int) && (more ==> lex_lt(d, it.cur()))
                            ==> eval5(select(self@, d)).spec_key() <= b.spec_key()),
                },
            decreases
                    n as int - it.idx@[0] as int,
                    n as int - it.idx@[1] as int,
                    n as int - it.idx@[2] as int,
                    n as int - it.idx@[3] as int,
                    n as int - it.idx@[4] as int,
                    (if it.done {
                        0int
                    } else {
                        1int
                    }),
        {
            proof {
                assert(forall|k: int|
                    0 <= k < 5 ==> (#[trigger] it.idx@[k] as int) < n as int);
            }
            let sel = select_cards(cards, &it.idx);
            let rk = eval_five(&sel);
            let newbest = match best {
                None => rk,
                Some(b) => if b.key() < rk.key() {
                    rk
                } else {
                    b
                },
            };
            let ghost prevcur = it.cur();
            let ghost prevbest = best;
            best = Some(newbest);
            more = it.advance();
            proof {
                assert(rk == eval5(select(self@, prevcur)));
                assert forall|d: Seq<usize>|
                    #[trigger] is_combo(d, n as int) && (more ==> lex_lt(d, it.cur()))
                        implies eval5(select(self@, d)).spec_key() <= newbest.spec_key() by {
                    if lex_lt(d, prevcur) {
                        assert(prevbest is Some);
                        let b = prevbest->Some_0;
                        assert(eval5(select(self@, d)).spec_key() <= b.spec_key());
                        assert(b.spec_key() <= newbest.spec_key());
                    } else if lex_lt(prevcur, d) {
                        if more {
                            assert(lex_le(it.cur(), d));
                            assert(false);
                        } else {
                            assert(lex_le(d, prevcur));
                            assert(false);
                        }
                    } else {
                        assert(d =~= prevcur);
                    }
                }
            }
        }
        proof {
            assert(best is Some);
        }
        match best {
            Some(b) => Ok(b),
            None => Err(InsufficientCardsErr),
        }
    }
}

/// Law: the category order dominates. A rank of a lower category compares
/// below any rank of a higher category, whatever payloads the two carry;
/// so a straight flush beats four of a kind, which beats a full house, and
/// so on down to a high card.
pub proof fn lemma_category_order(a: Rank, b: Rank)
    requires
        a.spec_category_index() < b.spec_category_index(),
    ensures
        a.partial_cmp_spec(&b) == Some(core::cmp::Ordering::Less),
        b.partial_cmp_spec(&a) == Some(core::cmp::Ordering::Greater),
{
}

/// Law: on well-formed ranks the comparison is a total order that agrees
/// with the single comparison key, and comparing equal means a true tie:
/// the very same category and tiebreak payload.
pub proof fn lemma_rank_order_total(a: Rank, b: Rank)
    requires
        a.wf(),
        b.wf(),
    ensures
        (a.partial_cmp_spec(&b) == Some(core::cmp::Ordering::Equal)) <==> a == b,
        (a.partial_cmp_spec(&b) == Some(core::cmp::Ordering::Less)) <==> a.spec_key()
            < b.spec_key(),
        (a.partial_cmp_spec(&b) == Some(core::cmp::Ordering::Greater)) <==> a.spec_key()
            > b.spec_key(),
{
}

/// Law: evaluation is pure. The best rank of a hand is fully determined by
/// the hand's cards: any two ranks that both satisfy the evaluator's
/// contract on the same cards are identical, payload and all.
pub proof fn lemma_rank_deterministic(cards: Seq<Card>, r1: Rank, r2: Rank)
    requires
        r1.wf(),
        r2.wf(),
        is_best_rank(cards, r1),
        is_best_rank(cards, r2),
    ensures
        r1 == r2,
{
    let c1 = choose|c: Seq<usize>|
        #[trigger] is_combo(c, cards.len() as int) && r1 == eval5(select(cards, c));
    let c2 = choose|c: Seq<usize>|
        #[trigger] is_combo(c, cards.len() as int) && r2 == eval5(select(cards, c));
    assert(r1.spec_key() <= r2.spec_key());
    assert(r2.spec_key() <= r1.spec_key());
    lemma_rank_order_total(r1, r2);
}

/// Law: a five-card hand evaluates to the rank of its own five cards; the
/// single combination the enumerator could produce adds nothing.
pub proof fn lemma_best_of_five(cards: Seq<Card>, r: Rank)
    requires
        cards.len() == 5,
        is_best_rank(cards, r),
    ensures
        r == eval5(cards),
{
    let c0 = seq![0usize, 1usize, 2usize, 3usize, 4usize];
    assert(is_combo(c0, 5));
    assert(select(cards, c0) =~= cards);
    let c1 = choose|c: Seq<usize>|
        #[trigger] is_combo(c, cards.len() as int) && r == eval5(select(cards, c));
    assert(c1[1] >= 1 && c1[2] >= 2 && c1[3] >= 3 && c1[4] >= 4);
    assert(c1 =~= c0);
}

/// Law: suits never break ties. Five-card hands with the same face values
/// in the same order, both flushes or both not, evaluate to the very same
/// rank; in particular two hands differing only in suits are a true tie.
pub proof fn lemma_eval5_suit_blind(c1: Seq<Card>, c2: Seq<Card>)
    requires
        vals_of(c1) == vals_of(c2),
        is_flush(c1) == is_flush(c2),
    ensures
        eval5(c1) == eval5(c2),
{
    assert(c1.len() == vals_of(c1).len());
    assert(c2.len() == vals_of(c2).len());
    assert(spec_keys(c1) =~= spec_keys(c2));
}

} // verus!
