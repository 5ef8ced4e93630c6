//! The card domain: suits, ranks, cards, the bijection between cards and the
//! canonical codes 0..51, and the two-character rendering such as "Ah".

use vstd::prelude::*;

verus! {

/// One of the four suits. The declaration order fixes the suit indices
/// 0..3 used by the canonical code: Spades, Hearts, Diamonds, Clubs.
#[derive(Debug, Eq, PartialEq, Structural, Copy, Clone, Ord, PartialOrd, Hash)]
pub enum Suit {
    Spades,
    Hearts,
    Diamonds,
    Clubs,
}

/// One of the thirteen ranks, ordered Two < ... < Ace. The declaration order
/// fixes the rank indices 0..12 used by the canonical code. No jokers.
#[derive(Debug, Eq, PartialEq, Structural, Copy, Clone, Ord, PartialOrd, Hash)]
pub enum Value {
    Two,
    Three,
    Four,
    Five,
    Six,
    Seven,
    Eight,
    Nine,
    Ten,
    Jack,
    Queen,
    King,
    Ace,
}

/// An immutable card identity: a rank paired with a suit.
#[derive(Debug, Eq, PartialEq, Structural, Copy, Clone, Ord, PartialOrd, Hash)]
pub struct Card {
    pub value: Value,
    pub suit: Suit,
}

/// The index of a suit in declaration order.
pub open spec fn suit_index(s: Suit) -> int {
    match s {
        Suit::Spades => 0,
        Suit::Hearts => 1,
        Suit::Diamonds => 2,
        Suit::Clubs => 3,
    }
}

/// The suit with the given index; indices outside 0..3 fall to Clubs.
pub open spec fn suit_of_index(i: int) -> Suit {
    if i == 0 {
        Suit::Spades
    } else if i == 1 {
        Suit::Hearts
    } else if i == 2 {
        Suit::Diamonds
    } else {
        Suit::Clubs
    }
}

/// The index of a rank in declaration order.
pub open spec fn value_index(v: Value) -> int {
    match v {
        Value::Two => 0,
        Value::Three => 1,
        Value::Four => 2,
        Value::Five => 3,
        Value::Six => 4,
        Value::Seven => 5,
        Value::Eight => 6,
        Value::Nine => 7,
        Value::Ten => 8,
        Value::Jack => 9,
        Value::Queen => 10,
        Value::King => 11,
        Value::Ace => 12,
    }
}

/// The rank with the given index; indices outside 0..12 fall to Ace.
pub open spec fn value_of_index(i: int) -> Value {
    if i == 0 {
        Value::Two
    } else if i == 1 {
        Value::Three
    } else if i == 2 {
        Value::Four
    } else if i == 3 {
        Value::Five
    } else if i == 4 {
        Value::Six
    } else if i == 5 {
        Value::Seven
    } else if i == 6 {
        Value::Eight
    } else if i == 7 {
        Value::Nine
    } else if i == 8 {
        Value::Ten
    } else if i == 9 {
        Value::Jack
    } else if i == 10 {
        Value::Queen
    } else if i == 11 {
        Value::King
    } else {
        Value::Ace
    }
}

/// The strict (suit, rank) order on cards: by suit declaration order first,
/// then by rank within a suit. This is the order an unshuffled deck deals in.
pub open spec fn card_before(a: Card, b: Card) -> bool {
    ||| suit_index(a.suit) < suit_index(b.suit)
    ||| (a.suit == b.suit && value_index(a.value) < value_index(b.value))
}

/// The canonical code of a card: 13 * suit index + rank index, in [0, 51].
pub open spec fn card_code(c: Card) -> int {
    13 * suit_index(c.suit) + value_index(c.value)
}

/// The card whose canonical code is `code`: suit from `code / 13`, rank from
/// `code % 13`. Meaningful for codes in [0, 51].
pub open spec fn card_of_code(code: int) -> Card {
    Card { value: value_of_index(code % 13), suit: suit_of_index(code / 13) }
}

impl Card {
    /// Pairs a rank and a suit into a card.
    pub fn new(value: Value, suit: Suit) -> (c: Card)
        ensures
            c == (Card { value, suit }),
    {
        Card { value, suit }
    }
}

/// The one-character rendering of a suit.
pub open spec fn suit_char(s: Suit) -> char {
    match s {
        Suit::Spades => 's',
        Suit::Hearts => 'h',
        Suit::Diamonds => 'd',
        Suit::Clubs => 'c',
    }
}

/// The one-character rendering of a rank.
pub open spec fn value_char(v: Value) -> char {
    match v {
        Value::Two => '2',
        Value::Three => '3',
        Value::Four => '4',
        Value::Five => '5',
        Value::Six => '6',
        Value::Seven => '7',
        Value::Eight => '8',
        Value::Nine => '9',
        Value::Ten => 'T',
        Value::Jack => 'J',
        Value::Queen => 'Q',
        Value::King => 'K',
        Value::Ace => 'A',
    }
}

impl Suit {
    /// The suit's one-character short form: s, h, d or c.
    pub fn short_string(&self) -> (r: &'static str)
        ensures
            r@ == seq![suit_char(*self)],
    {
        match *self {
            Suit::Spades => {
                proof {
                    reveal_strlit("s");
                    assert("s"@ =~= seq![suit_char(Suit::Spades)]);
                }
                "s"
            },
            Suit::Hearts => {
                proof {
                    reveal_strlit("h");
                    assert("h"@ =~= seq![suit_char(Suit::Hearts)]);
                }
                "h"
            },
            Suit::Diamonds => {
                proof {
                    reveal_strlit("d");
                    assert("d"@ =~= seq![suit_char(Suit::Diamonds)]);
                }
                "d"
            },
            Suit::Clubs => {
                proof {
                    reveal_strlit("c");
                    assert("c"@ =~= seq![suit_char(Suit::Clubs)]);
                }
                "c"
            },
        }
    }
}

impl Value {
    /// The rank's one-character short form: 2-9, T, J, Q, K or A.
    pub fn short_string(&self) -> (r: &'static str)
        ensures
            r@ == seq![value_char(*self)],
    {
        match *self {
            Value::Two => {
                proof {
                    reveal_strlit("2");
                    assert("2"@ =~= seq![value_char(Value::Two)]);
                }
                "2"
            },
            Value::Three => {
                proof {
                    reveal_strlit("3");
                    assert("3"@ =~= seq![value_char(Value::Three)]);
                }
                "3"
            },
            Value::Four => {
                proof {
                    reveal_strlit("4");
                    assert("4"@ =~= seq![value_char(Value::Four)]);
                }
                "4"
            },
            Value::Five => {
                proof {
                    reveal_strlit("5");
                    assert("5"@ =~= seq![value_char(Value::Five)]);
                }
                "5"
            },
            Value::Six => {
                proof {
                    reveal_strlit("6");
                    assert("6"@ =~= seq![value_char(Value::Six)]);
                }
                "6"
            },
            Value::Seven => {
                proof {
                    reveal_strlit("7");
                    assert("7"@ =~= seq![value_char(Value::Seven)]);
                }
                "7"
            },
            Value::Eight => {
                proof {
                    reveal_strlit("8");
                    assert("8"@ =~= seq![value_char(Value::Eight)]);
                }
                "8"
            },
            Value::Nine => {
                proof {
                    reveal_strlit("9");
                    assert("9"@ =~= seq![value_char(Value::Nine)]);
                }
                "9"
            },
            Value::Ten => {
                proof {
                    reveal_strlit("T");
                    assert("T"@ =~= seq![value_char(Value::Ten)]);
                }
                "T"
            },
            Value::Jack => {
                proof {
                    reveal_strlit("J");
                    assert("J"@ =~= seq![value_char(Value::Jack)]);
                }
                "J"
            },
            Value::Queen => {
                proof {
                    reveal_strlit("Q");
                    assert("Q"@ =~= seq![value_char(Value::Queen)]);
                }
                "Q"
            },
            Value::King => {
                proof {
                    reveal_strlit("K");
                    assert("K"@ =~= seq![value_char(Value::King)]);
                }
                "K"
            },
            Value::Ace => {
                proof {
                    reveal_strlit("A");
                    assert("A"@ =~= seq![value_char(Value::Ace)]);
                }
                "A"
            },
        }
    }
}

/// The canonical two-character short form of a card: rank character, then
/// suit character, e.g. "Ah" for the ace of hearts. Pure and deterministic.
pub fn render(card: &Card) -> (r: String)
    ensures
        r@ == seq![value_char(card.value), suit_char(card.suit)],
{
    let rank = String::from_str(card.value.short_string());
    let r = rank.concat(card.suit.short_string());
    proof {
        assert(r@ =~= seq![value_char(card.value), suit_char(card.suit)]);
    }
    r
}

/// A code outside [0, 51] identifies no card; meeting one means the deck's
/// internal state was corrupted, not a normal runtime condition.
#[derive(Debug, Eq, PartialEq, Structural, Copy, Clone)]
pub enum DecodeError {
    InvalidCode,
}

/// Translates a value between 0 and 51 to a Card. Used internally.
pub fn create_card_for_value(value: u8) -> (c: Card)
    requires
        value < 52,
    ensures
        c == card_of_code(value as int),
{
    let suit_idx = value / 13;
    let suit = if suit_idx == 0 {
        Suit::Spades
    } else if suit_idx == 1 {
        Suit::Hearts
    } else if suit_idx == 2 {
        Suit::Diamonds
    } else {
        Suit::Clubs
    };

    let value_idx = value % 13;
    let value = if value_idx == 0 {
        Value::Two
    } else if value_idx == 1 {
        Value::Three
    } else if value_idx == 2 {
        Value::Four
    } else if value_idx == 3 {
        Value::Five
    } else if value_idx == 4 {
        Value::Six
    } else if value_idx == 5 {
        Value::Seven
    } else if value_idx == 6 {
        Value::Eight
    } else if value_idx == 7 {
        Value::Nine
    } else if value_idx == 8 {
        Value::Ten
    } else if value_idx == 9 {
        Value::Jack
    } else if value_idx == 10 {
        Value::Queen
    } else if value_idx == 11 {
        Value::King
    } else {
        Value::Ace
    };

    Card::new(value, suit)
}

/// The canonical code of a card: total, pure and injective into [0, 51],
/// the inverse of `decode`.
pub fn encode(card: &Card) -> (code: u8)
    ensures
        code as int == card_code(*card),
        code < 52,
{
    let suit_idx: u8 = match card.suit {
        Suit::Spades => 0,
        Suit::Hearts => 1,
        Suit::Diamonds => 2,
        Suit::Clubs => 3,
    };
    let value_idx: u8 = match card.value {
        Value::Two => 0,
        Value::Three => 1,
        Value::Four => 2,
        Value::Five => 3,
        Value::Six => 4,
        Value::Seven => 5,
        Value::Eight => 6,
        Value::Nine => 7,
        Value::Ten => 8,
        Value::Jack => 9,
        Value::Queen => 10,
        Value::King => 11,
        Value::Ace => 12,
    };
    13 * suit_idx + value_idx
}

/// The card with the given canonical code, or `DecodeError` for a code
/// outside [0, 51]: corruption is detected, never turned into a wrong card.
pub fn decode(code: u8) -> (r: Result<Card, DecodeError>)
    ensures
        code < 52 ==> r == Ok::<Card, DecodeError>(card_of_code(code as int)),
        code >= 52 ==> r == Err::<Card, DecodeError>(DecodeError::InvalidCode),
{
    if code < 52 {
        Ok(create_card_for_value(code))
    } else {
        Err(DecodeError::InvalidCode)
    }
}

/// Decoding a canonical code and encoding the card again gives the code
/// back: one direction of the bijection round trip.
pub proof fn lemma_code_round_trip(code: int)
    requires
        0 <= code < 52,
    ensures
        card_code(card_of_code(code)) == code,
{
    vstd::arithmetic::div_mod::lemma_fundamental_div_mod(code, 13);
    assert(0 <= code / 13 < 4 && 0 <= code % 13 < 13);
    assert(suit_index(suit_of_index(code / 13)) == code / 13);
    assert(value_index(value_of_index(code % 13)) == code % 13);
}

/// Encoding a card and decoding the code again gives the card back: the
/// other direction of the bijection round trip. Together with
/// `lemma_code_round_trip` this makes the code <-> card mapping a bijection.
pub proof fn lemma_card_round_trip(card: Card)
    ensures
        0 <= card_code(card) < 52,
        card_of_code(card_code(card)) == card,
{
    let s = suit_index(card.suit);
    let v = value_index(card.value);
    vstd::arithmetic::div_mod::lemma_fundamental_div_mod_converse_div(13 * s + v, 13, s, v);
    vstd::arithmetic::div_mod::lemma_fundamental_div_mod_converse_mod(13 * s + v, 13, s, v);
    assert(suit_of_index(s) == card.suit);
    assert(value_of_index(v) == card.value);
}

/// Distinct canonical codes decode to distinct cards: `card_of_code` is
/// injective on [0, 51].
pub proof fn lemma_decode_injective(a: int, b: int)
    requires
        0 <= a < 52,
        0 <= b < 52,
        card_of_code(a) == card_of_code(b),
    ensures
        a == b,
{
    lemma_code_round_trip(a);
    lemma_code_round_trip(b);
}

} // verus!
