use poker_core::errors::InsufficientCardsErr;
use poker_core::hand::Hand;
use poker_core::rank::{Rank, Rankable};

fn hand(s: &str) -> Hand {
    Hand::try_from_str(s).unwrap()
}

fn rank_of(s: &str) -> Rank {
    hand(s).rank().unwrap()
}

#[test]
fn test_category_detection() {
    assert!(matches!(rank_of("2c3c4c5c7d"), Rank::HighCard(_)));
    assert!(matches!(rank_of("2c2d4c5c7d"), Rank::Pair(_)));
    assert!(matches!(rank_of("2c2d5s5c7d"), Rank::TwoPair(_)));
    assert!(matches!(rank_of("2c2d2h5c7d"), Rank::ThreeOfAKind(_)));
    assert!(matches!(rank_of("2h3c4d5h6s"), Rank::Straight(_)));
    assert!(matches!(rank_of("2h5h7h9hJh"), Rank::Flush(_)));
    assert!(matches!(rank_of("3c3d3h9s9c"), Rank::FullHouse(_)));
    assert!(matches!(rank_of("2c2d2h2s3c"), Rank::FourOfAKind(_)));
    assert!(matches!(rank_of("ThJhQhKhAh"), Rank::StraightFlush(_)));
}

#[test]
fn test_category_ordering_chain() {
    // every category outranks the next one down, whatever the payloads
    let royal_flush = rank_of("ThJhQhKhAh");
    let four_of_a_kind = rank_of("2c2d2h2s3c");
    let full_house = rank_of("3c3d3h9s9c");
    let flush = rank_of("2h5h7h9hJh");
    let straight = rank_of("2h3c4d5h6s");
    let three_of_a_kind = rank_of("2c2d2h5c7d");
    let two_pair = rank_of("2c2d5s5c7d");
    let pair = rank_of("2c2d4c5c7d");
    let high_card = rank_of("2c3c4c5c7d");
    assert!(royal_flush > four_of_a_kind);
    assert!(four_of_a_kind > full_house);
    assert!(full_house > flush);
    assert!(flush > straight);
    assert!(straight > three_of_a_kind);
    assert!(three_of_a_kind > two_pair);
    assert!(two_pair > pair);
    assert!(pair > high_card);
}

#[test]
fn test_wheel_straight() {
    // the ace-low wheel is a straight, below a six-high straight and
    // above any high card
    let wheel = rank_of("Ah2c3d4h5s");
    assert!(matches!(wheel, Rank::Straight(_)));
    assert!(wheel < rank_of("2h3c4d5h6s"));
    assert!(wheel < rank_of("2h3h4h5h6h"));
    assert!(wheel > rank_of("AcKdQh9s8c"));
}

#[test]
fn test_kicker_precedence() {
    // pair of kings, nine kicker beats pair of kings, eight kicker
    assert!(rank_of("KcKd9c3s4d") > rank_of("KhKs8c3h4c"));
    // two pair: the higher second pair decides before the kicker
    assert!(rank_of("KsKd9c9d2c") > rank_of("KhKc8s8dAc"));
    // full house: the triple's value dominates the pair's
    assert!(rank_of("3c3d3h9s9c") < rank_of("4c4d4h2s2c"));
    // four of a kind: the lone kicker breaks the tie
    assert!(rank_of("2c2d2h2s3c") < rank_of("2c2d2h2sAc"));
    // flushes compare by their highest differing card
    assert!(rank_of("2h5h7h9hJh") < rank_of("3h5h7h9hQh"));
    // high cards compare all five values in descending significance
    assert!(rank_of("AcKdQh9s8c") > rank_of("AhKsQd9c7d"));
}

#[test]
fn test_true_ties_ignore_suits() {
    // identical values in different suits are a true tie
    let a = rank_of("2h3h4h5h7c");
    let b = rank_of("2d3d4d5d7s");
    assert_eq!(a, b);
    assert_eq!(Some(std::cmp::Ordering::Equal), a.partial_cmp(&b));
    let p1 = rank_of("KcKd9c3s4d");
    let p2 = rank_of("KhKs9d3h4c");
    assert_eq!(p1, p2);
}

#[test]
fn test_purity_same_hand_twice() {
    let h = hand("Ah2c3d4h5s");
    let r1 = h.rank().unwrap();
    let r2 = h.rank().unwrap();
    assert_eq!(r1, r2);
    let h7 = hand("2c3c4c5c6c9d9h");
    assert_eq!(h7.rank().unwrap(), h7.rank().unwrap());
}

#[test]
fn test_five_card_boundary() {
    // a five-card hand is evaluated directly, no enumeration needed
    assert!(matches!(rank_of("2c3c4c5c7d"), Rank::HighCard(_)));
    assert!(matches!(rank_of("5c6c7c8c9c"), Rank::StraightFlush(_)));
}

#[test]
fn test_insufficient_cards() {
    assert_eq!(Err(InsufficientCardsErr), hand("").rank());
    assert_eq!(Err(InsufficientCardsErr), hand("2c").rank());
    assert_eq!(Err(InsufficientCardsErr), hand("2c3c4c5c").rank());
}

#[test]
fn test_seven_card_hands_use_best_subset() {
    // the straight flush hides among seven cards
    assert!(matches!(rank_of("2c3c4c5c6c9d9h"), Rank::StraightFlush(_)));
    // quads win over the extra cards
    assert!(matches!(rank_of("2c2d2h2s3c4d5s"), Rank::FourOfAKind(_)));
    // a flush beats the pair inside the same seven cards
    assert!(matches!(rank_of("2h4h6h8hTh9d9c"), Rank::Flush(_)));
    // six cards: the straight beats the pair
    assert!(matches!(rank_of("2h3c4d5h6s6d"), Rank::Straight(_)));
}

#[test]
fn test_seven_card_equals_best_five() {
    // the rank of seven high cards is the rank of the best five of them
    let r7 = rank_of("2c4d6h8sTcQdAh");
    let r5 = rank_of("6h8sTcQdAh");
    assert_eq!(r5, r7);
}

#[test]
fn test_category_index_accessor() {
    assert_eq!(0, rank_of("2c3c4c5c7d").category_index());
    assert_eq!(4, rank_of("Ah2c3d4h5s").category_index());
    assert_eq!(8, rank_of("ThJhQhKhAh").category_index());
}
