//! Card primitives: face values, suits, and the card itself.

use vstd::prelude::*;
use vstd::string::StrSliceExecFns;
use crate::errors::StrParseErr;

verus! {

/// Card rank or value, `Two` (weakest) through `Ace` (strongest).
#[derive(PartialEq, Eq, Structural, PartialOrd, Ord, Debug, Clone, Copy, Hash)]
pub enum Value {
    Two,
    Three,
    Four,
    Five,
    Six,
    Seven,
    Eight,
    Nine,
    Ten,
    Jack,
    Queen,
    King,
    Ace,
}

/// The ordinal of a face value: 0 for `Two` up to 12 for `Ace`.
pub open spec fn value_index(v: Value) -> int {
    match v {
        Value::Two => 0,
        Value::Three => 1,
        Value::Four => 2,
        Value::Five => 3,
        Value::Six => 4,
        Value::Seven => 5,
        Value::Eight => 6,
        Value::Nine => 7,
        Value::Ten => 8,
        Value::Jack => 9,
        Value::Queen => 10,
        Value::King => 11,
        Value::Ace => 12,
    }
}

/// The face value with the given ordinal; callers pass an `i` in `0..=12`.
pub open spec fn value_of_index(i: int) -> Value {
    if i == 0 {
        Value::Two
    } else if i == 1 {
        Value::Three
    } else if i == 2 {
        Value::Four
    } else if i == 3 {
        Value::Five
    } else if i == 4 {
        Value::Six
    } else if i == 5 {
        Value::Seven
    } else if i == 6 {
        Value::Eight
    } else if i == 7 {
        Value::Nine
    } else if i == 8 {
        Value::Ten
    } else if i == 9 {
        Value::Jack
    } else if i == 10 {
        Value::Queen
    } else if i == 11 {
        Value::King
    } else {
        Value::Ace
    }
}

/// The value a character denotes, if any ('2'..'9', 'T', 'J', 'Q', 'K', 'A').
pub open spec fn spec_value_from_char(c: char) -> Option<Value> {
    match c {
        '2' => Some(Value::Two),
        '3' => Some(Value::Three),
        '4' => Some(Value::Four),
        '5' => Some(Value::Five),
        '6' => Some(Value::Six),
        '7' => Some(Value::Seven),
        '8' => Some(Value::Eight),
        '9' => Some(Value::Nine),
        'T' => Some(Value::Ten),
        'J' => Some(Value::Jack),
        'Q' => Some(Value::Queen),
        'K' => Some(Value::King),
        'A' => Some(Value::Ace),
        _ => None,
    }
}

impl Value {
    /// The ordinal of this value, 0 (`Two`) through 12 (`Ace`).
    pub fn index(self) -> (r: u8)
        ensures
            r as int == value_index(self),
    {
        match self {
            Value::Two => 0,
            Value::Three => 1,
            Value::Four => 2,
            Value::Five => 3,
            Value::Six => 4,
            Value::Seven => 5,
            Value::Eight => 6,
            Value::Nine => 7,
            Value::Ten => 8,
            Value::Jack => 9,
            Value::Queen => 10,
            Value::King => 11,
            Value::Ace => 12,
        }
    }

    /// The value with ordinal `v`; anything above 12 is clamped to `Ace`.
    pub fn from_u8(v: u8) -> (r: Value)
        ensures
            r == value_of_index(if v <= 12 { v as int } else { 12 }),
    {
        match v {
            0 => Value::Two,
            1 => Value::Three,
            2 => Value::Four,
            3 => Value::Five,
            4 => Value::Six,
            5 => Value::Seven,
            6 => Value::Eight,
            7 => Value::Nine,
            8 => Value::Ten,
            9 => Value::Jack,
            10 => Value::Queen,
            11 => Value::King,
            _ => Value::Ace,
        }
    }

    /// All thirteen values, in ascending order of strength.
    pub fn values() -> (r: [Value; 13])
        ensures
            forall|i: int| 0 <= i < 13 ==> value_index(#[trigger] r@[i]) == i,
    {
        [
            Value::Two,
            Value::Three,
            Value::Four,
            Value::Five,
            Value::Six,
            Value::Seven,
            Value::Eight,
            Value::Nine,
            Value::Ten,
            Value::Jack,
            Value::Queen,
            Value::King,
            Value::Ace,
        ]
    }

    /// How many ranks separate the two values.
    pub fn gap(self, other: Value) -> (r: u8)
        ensures
            r as int == if value_index(self) >= value_index(other) {
                value_index(self) - value_index(other)
            } else {
                value_index(other) - value_index(self)
            },
    {
        let a = self.index();
        let b = other.index();
        if a >= b {
            a - b
        } else {
            b - a
        }
    }

    /// The value a character denotes, if any.
    pub fn from_char(c: char) -> (r: Option<Value>)
        ensures
            r == spec_value_from_char(c),
    {
        match c {
            '2' => Some(Value::Two),
            '3' => Some(Value::Three),
            '4' => Some(Value::Four),
            '5' => Some(Value::Five),
            '6' => Some(Value::Six),
            '7' => Some(Value::Seven),
            '8' => Some(Value::Eight),
            '9' => Some(Value::Nine),
            'T' => Some(Value::Ten),
            'J' => Some(Value::Jack),
            'Q' => Some(Value::Queen),
            'K' => Some(Value::King),
            'A' => Some(Value::Ace),
            _ => None,
        }
    }

    /// The character that denotes this value.
    pub fn to_char(self) -> (r: char)
        ensures
            spec_value_from_char(r) == Some(self),
    {
        match self {
            Value::Two => '2',
            Value::Three => '3',
            Value::Four => '4',
            Value::Five => '5',
            Value::Six => '6',
            Value::Seven => '7',
            Value::Eight => '8',
            Value::Nine => '9',
            Value::Ten => 'T',
            Value::Jack => 'J',
            Value::Queen => 'Q',
            Value::King => 'K',
            Value::Ace => 'A',
        }
    }
}

/// The four suits. Their order carries no poker meaning; it exists only so
/// that cards can be sorted.
#[derive(PartialEq, Eq, Structural, PartialOrd, Ord, Debug, Clone, Copy, Hash)]
pub enum Suit {
    Spade,
    Club,
    Heart,
    Diamond,
}

/// The ordinal of a suit, 0 (`Spade`) through 3 (`Diamond`).
pub open spec fn suit_index(s: Suit) -> int {
    match s {
        Suit::Spade => 0,
        Suit::Club => 1,
        Suit::Heart => 2,
        Suit::Diamond => 3,
    }
}

/// The suit a character denotes, if any ('h', 's', 'c', 'd').
pub open spec fn spec_suit_from_char(c: char) -> Option<Suit> {
    match c {
        'h' => Some(Suit::Heart),
        's' => Some(Suit::Spade),
        'c' => Some(Suit::Club),
        'd' => Some(Suit::Diamond),
        _ => None,
    }
}

impl Suit {
    /// All four suits.
    pub fn suits() -> (r: [Suit; 4])
        ensures
            forall|i: int| 0 <= i < 4 ==> suit_index(#[trigger] r@[i]) == i,
    {
        [Suit::Spade, Suit::Club, Suit::Heart, Suit::Diamond]
    }

    /// The suit a character denotes, if any.
    pub fn from_char(c: char) -> (r: Option<Suit>)
        ensures
            r == spec_suit_from_char(c),
    {
        match c {
            'h' => Some(Suit::Heart),
            's' => Some(Suit::Spade),
            'c' => Some(Suit::Club),
            'd' => Some(Suit::Diamond),
            _ => None,
        }
    }

    /// The character that denotes this suit.
    pub fn to_char(self) -> (r: char)
        ensures
            spec_suit_from_char(r) == Some(self),
    {
        match self {
            Suit::Heart => 'h',
            Suit::Spade => 's',
            Suit::Club => 'c',
            Suit::Diamond => 'd',
        }
    }
}

/// A playing card: a face value paired with a suit.
#[derive(PartialEq, Eq, Structural, PartialOrd, Ord, Debug, Clone, Copy, Hash)]
pub struct Card {
    /// The face value of this card.
    pub value: Value,
    /// The suit of this card.
    pub suit: Suit,
}

/// The card a two-character text denotes, if any: a value character
/// followed by a suit character.
pub open spec fn spec_card_from_chars(vc: char, sc: char) -> Option<Card> {
    match (spec_value_from_char(vc), spec_suit_from_char(sc)) {
        (Some(value), Some(suit)) => Some(Card { value, suit }),
        _ => None,
    }
}

impl Card {
    /// The card the two characters denote, if any.
    pub fn from_chars(vc: char, sc: char) -> (r: Option<Card>)
        ensures
            r == spec_card_from_chars(vc, sc),
    {
        match (Value::from_char(vc), Suit::from_char(sc)) {
            (Some(value), Some(suit)) => Some(Card { value, suit }),
            _ => None,
        }
    }

    /// Parse a card from its two-character text, such as `"Ah"`.
    pub fn try_from_str(s: &str) -> (r: Result<Card, StrParseErr>)
        ensures
            match r {
                Ok(c) => s@.len() == 2 && spec_card_from_chars(s@[0], s@[1]) == Some(c),
                Err(_) => s@.len() != 2 || spec_card_from_chars(s@[0], s@[1]) is None,
            },
    {
        if s.unicode_len() != 2 {
            return Err(StrParseErr);
        }
        match Card::from_chars(s.get_char(0), s.get_char(1)) {
            Some(c) => Ok(c),
            None => Err(StrParseErr),
        }
    }
}

} // verus!
