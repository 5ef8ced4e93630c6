use pokurr::card::{decode, encode, render, Card, DecodeError, Suit, Value};

fn all_suits() -> Vec<Suit> {
    vec![Suit::Spades, Suit::Hearts, Suit::Diamonds, Suit::Clubs]
}

fn all_values() -> Vec<Value> {
    vec![
        Value::Two,
        Value::Three,
        Value::Four,
        Value::Five,
        Value::Six,
        Value::Seven,
        Value::Eight,
        Value::Nine,
        Value::Ten,
        Value::Jack,
        Value::Queen,
        Value::King,
        Value::Ace,
    ]
}

#[test]
fn new_pairs_value_and_suit() {
    let c = Card::new(Value::Queen, Suit::Diamonds);
    assert_eq!(c.value, Value::Queen);
    assert_eq!(c.suit, Suit::Diamonds);
}

#[test]
fn decode_exact_values() {
    assert_eq!(decode(0), Ok(Card::new(Value::Two, Suit::Spades)));
    assert_eq!(decode(12), Ok(Card::new(Value::Ace, Suit::Spades)));
    assert_eq!(decode(13), Ok(Card::new(Value::Two, Suit::Hearts)));
    assert_eq!(decode(25), Ok(Card::new(Value::Ace, Suit::Hearts)));
    assert_eq!(decode(26), Ok(Card::new(Value::Two, Suit::Diamonds)));
    assert_eq!(decode(51), Ok(Card::new(Value::Ace, Suit::Clubs)));
}

#[test]
fn encode_exact_values() {
    assert_eq!(encode(&Card::new(Value::Two, Suit::Spades)), 0);
    assert_eq!(encode(&Card::new(Value::Ace, Suit::Hearts)), 25);
    assert_eq!(encode(&Card::new(Value::Ace, Suit::Clubs)), 51);
}

#[test]
fn decode_rejects_out_of_range_codes() {
    assert_eq!(decode(52), Err(DecodeError::InvalidCode));
    assert_eq!(decode(53), Err(DecodeError::InvalidCode));
    assert_eq!(decode(255), Err(DecodeError::InvalidCode));
}

#[test]
fn code_round_trip_covers_all_codes() {
    for code in 0u8..52 {
        let card = decode(code).unwrap();
        assert_eq!(encode(&card), code);
    }
}

#[test]
fn card_round_trip_covers_all_cards() {
    for &suit in all_suits().iter() {
        for &value in all_values().iter() {
            let card = Card::new(value, suit);
            let code = encode(&card);
            assert!(code < 52);
            assert_eq!(decode(code), Ok(card));
        }
    }
}

#[test]
fn render_ace_of_hearts_and_ten_of_spades() {
    assert_eq!(render(&Card::new(Value::Ace, Suit::Hearts)), "Ah");
    assert_eq!(render(&Card::new(Value::Ten, Suit::Spades)), "Ts");
}

#[test]
fn render_is_rank_char_then_suit_char() {
    assert_eq!(render(&Card::new(Value::Two, Suit::Spades)), "2s");
    assert_eq!(render(&Card::new(Value::Nine, Suit::Diamonds)), "9d");
    assert_eq!(render(&Card::new(Value::Jack, Suit::Clubs)), "Jc");
    assert_eq!(render(&Card::new(Value::Queen, Suit::Hearts)), "Qh");
    assert_eq!(render(&Card::new(Value::King, Suit::Spades)), "Ks");
}

#[test]
fn short_strings_match_the_documented_characters() {
    let suit_chars: Vec<&str> = all_suits().iter().map(|s| s.short_string()).collect();
    assert_eq!(suit_chars, vec!["s", "h", "d", "c"]);
    let value_chars: Vec<&str> = all_values().iter().map(|v| v.short_string()).collect();
    assert_eq!(
        value_chars,
        vec!["2", "3", "4", "5", "6", "7", "8", "9", "T", "J", "Q", "K", "A"]
    );
}
