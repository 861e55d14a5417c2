use poker_core::card::{Card, Suit, Value};
use std::mem;

#[test]
fn test_constructor() {
    let c = Card {
        value: Value::Three,
        suit: Suit::Spade,
    };
    assert_eq!(Suit::Spade, c.suit);
    assert_eq!(Value::Three, c.value);
}

#[test]
fn test_compare() {
    let c1 = Card {
        value: Value::Three,
        suit: Suit::Spade,
    };
    let c2 = Card {
        value: Value::Four,
        suit: Suit::Spade,
    };
    let c3 = Card {
        value: Value::Four,
        suit: Suit::Club,
    };

    // Make sure that the values are ordered
    assert!(c1 < c2);
    assert!(c2 > c1);
    // Make sure that suit is used.
    assert!(c3 > c2);
}

#[test]
fn test_value_cmp() {
    assert!(Value::Two < Value::Ace);
    assert!(Value::King < Value::Ace);
    assert_eq!(Value::Two, Value::Two);
}

#[test]
fn test_from_u8() {
    assert_eq!(Value::Two, Value::from_u8(0));
    assert_eq!(Value::Ace, Value::from_u8(12));
}

#[test]
fn test_size_card() {
    // Card should be really small. Hopefully just two u8's
    assert!(mem::size_of::<Card>() <= 2);
}

#[test]
fn test_size_suit() {
    // One byte for Suit
    assert!(mem::size_of::<Suit>() <= 1);
}

#[test]
fn test_size_value() {
    // One byte for Value
    assert!(mem::size_of::<Value>() <= 1);
}

#[test]
fn test_gap() {
    // test on gap
    assert!(1 == Value::Ace.gap(Value::King));
    // test no gap at the high end
    assert!(0 == Value::Ace.gap(Value::Ace));
    // test no gap at the low end
    assert!(0 == Value::Two.gap(Value::Two));
    // Test one gap at the low end
    assert!(1 == Value::Two.gap(Value::Three));
    // test that ordering doesn't matter
    assert!(1 == Value::Three.gap(Value::Two));
    // Test things that are far apart
    assert!(12 == Value::Ace.gap(Value::Two));
    assert!(12 == Value::Two.gap(Value::Ace));
}

#[test]
fn test_value_chars_round_trip() {
    let values = Value::values();
    for i in 0..values.len() {
        let v = values[i];
        assert_eq!(Some(v), Value::from_char(v.to_char()));
    }
    assert_eq!(None, Value::from_char('x'));
}

#[test]
fn test_suit_chars_round_trip() {
    let suits = Suit::suits();
    for i in 0..suits.len() {
        let s = suits[i];
        assert_eq!(Some(s), Suit::from_char(s.to_char()));
    }
    assert_eq!(None, Suit::from_char('A'));
}

#[test]
fn test_card_parse() {
    let c = Card::try_from_str("Ah").unwrap();
    assert_eq!(Value::Ace, c.value);
    assert_eq!(Suit::Heart, c.suit);
    assert!(Card::try_from_str("A").is_err());
    assert!(Card::try_from_str("Axh").is_err());
    assert!(Card::try_from_str("1h").is_err());
}
