use poker_core::card::{Card, Suit, Value};
use poker_core::hand::Hand;

#[test]
fn test_add_card() {
    let mut h = Hand::default();
    let c = Card {
        value: Value::Three,
        suit: Suit::Spade,
    };
    h.push(c);
    // Make sure that the card was added to the vec.
    //
    // This will also test that has len works
    assert_eq!(1, h.len());
}

#[test]
fn test_index() {
    let mut h = Hand::default();
    h.push(Card {
        value: Value::Four,
        suit: Suit::Spade,
    });
    // Make sure the card is there
    assert_eq!(
        Card {
            value: Value::Four,
            suit: Suit::Spade,
        },
        h.get(0)
    );
}

#[test]
fn test_parse_error() {
    assert!(Hand::try_from_str("BAD").is_err());
    assert!(Hand::try_from_str("Adx").is_err());
}

#[test]
fn test_parse_one_hand() {
    let h = Hand::try_from_str("Ad").unwrap();
    assert_eq!(1, h.len())
}

#[test]
fn test_parse_empty() {
    let h = Hand::try_from_str("").unwrap();
    assert!(h.is_empty());
}

#[test]
fn test_parse_duplicate_rejected() {
    assert!(Hand::try_from_str("AdAd").is_err());
    assert!(Hand::try_from_str("Ad2cAd").is_err());
}

#[test]
fn test_parse_keeps_order() {
    let h = Hand::try_from_str("Ad2c").unwrap();
    assert_eq!(2, h.len());
    assert_eq!(
        Card {
            value: Value::Ace,
            suit: Suit::Diamond,
        },
        h.get(0)
    );
    assert_eq!(
        Card {
            value: Value::Two,
            suit: Suit::Club,
        },
        h.get(1)
    );
}

#[test]
fn test_truncate() {
    let mut h = Hand::try_from_str("Ad2c3h").unwrap();
    h.truncate(1);
    assert_eq!(1, h.len());
    assert_eq!(
        Card {
            value: Value::Ace,
            suit: Suit::Diamond,
        },
        h.get(0)
    );
    h.truncate(9);
    assert_eq!(1, h.len());
}

#[test]
fn test_iter_copies_cards() {
    let h = Hand::try_from_str("Ad2c").unwrap();
    let cards = h.iter();
    assert_eq!(2, cards.len());
    assert_eq!(h.get(0), cards[0]);
    assert_eq!(h.get(1), cards[1]);
}

#[test]
fn test_new_with_cards() {
    let cards = vec![
        Card {
            value: Value::Ten,
            suit: Suit::Heart,
        },
        Card {
            value: Value::Jack,
            suit: Suit::Heart,
        },
    ];
    let h = Hand::new_with_cards(cards);
    assert_eq!(2, h.len());
    assert_eq!(Value::Ten, h.get(0).value);
}
