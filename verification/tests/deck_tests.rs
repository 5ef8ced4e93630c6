use pokurr::card::{create_card_for_value, decode, encode, Card, Suit, Value};
use pokurr::deck::{Deck, DeckError};

#[test]
fn create_card_for_value_matches_decode() {
    for code in 0u8..52 {
        assert_eq!(create_card_for_value(code), decode(code).unwrap());
    }
}

#[test]
fn unshuffled_deal_is_ascending_and_complete() {
    let mut deck = Deck::new_unshuffled();
    let mut dealt: Vec<Card> = Vec::new();
    for _ in 0..52 {
        dealt.push(deck.draw().unwrap());
    }
    // Strictly ascending in (suit, rank), which for the canonical codes is
    // strictly ascending code order.
    for i in 1..52 {
        assert!(encode(&dealt[i - 1]) < encode(&dealt[i]));
    }
    // Every code dealt exactly once, in order.
    for i in 0..52 {
        assert_eq!(encode(&dealt[i]), i as u8);
    }
    assert_eq!(dealt[0], Card::new(Value::Two, Suit::Spades));
    assert_eq!(dealt[51], Card::new(Value::Ace, Suit::Clubs));
}

#[test]
fn shuffled_drain_is_the_full_deck() {
    let mut deck = Deck::new_shuffled();
    let mut seen = [false; 52];
    for _ in 0..52 {
        let card = deck.draw().unwrap();
        let code = encode(&card) as usize;
        assert!(!seen[code]);
        seen[code] = true;
    }
    assert!(seen.iter().all(|&s| s));
}

#[test]
fn draw_53_times_fails_only_on_the_53rd() {
    let mut deck = Deck::new_shuffled();
    let mut dealt: Vec<Card> = Vec::new();
    for _ in 0..52 {
        dealt.push(deck.draw().unwrap());
    }
    for i in 0..52 {
        for j in 0..i {
            assert_ne!(dealt[i], dealt[j]);
        }
    }
    assert_eq!(deck.draw(), Err(DeckError::NotEnoughCards));
}

#[test]
fn draw_n_returns_the_next_n_cards_in_order() {
    let mut deck = Deck::new_unshuffled();
    let hand = deck.draw_n(5).unwrap();
    assert_eq!(hand.len(), 5);
    for i in 0..5 {
        assert_eq!(encode(&hand[i]), i as u8);
    }
    let next = deck.draw().unwrap();
    assert_eq!(encode(&next), 5);
}

#[test]
fn draw_n_zero_succeeds_and_deals_nothing() {
    let mut deck = Deck::new_unshuffled();
    let hand = deck.draw_n(0).unwrap();
    assert!(hand.is_empty());
    assert_eq!(encode(&deck.draw().unwrap()), 0);
}

#[test]
fn draw_n_is_all_or_nothing() {
    let mut deck = Deck::new_shuffled();
    let dealt = deck.draw_n(49).unwrap();
    assert_eq!(dealt.len(), 49);
    // Only 3 cards remain: asking for 5 fails and moves nothing.
    assert!(matches!(deck.draw_n(5), Err(DeckError::NotEnoughCards)));
    // The same 3 remaining cards are still dealable, untouched by the failure.
    let rest = deck.draw_n(3).unwrap();
    assert_eq!(rest.len(), 3);
    for card in rest.iter() {
        assert!(!dealt.contains(card));
    }
    assert!(matches!(deck.draw(), Err(DeckError::NotEnoughCards)));
}

#[test]
fn draw_n_on_exhausted_deck_fails() {
    let mut deck = Deck::new_unshuffled();
    deck.draw_n(52).unwrap();
    assert!(matches!(deck.draw_n(1), Err(DeckError::NotEnoughCards)));
    // An exhausted deck is still a valid object: a reset revives it.
    deck.reset_unshuffled();
    assert_eq!(deck.draw_n(52).unwrap().len(), 52);
}

#[test]
fn reset_unshuffled_replays_the_same_order() {
    let mut deck = Deck::new_shuffled();
    let first: Vec<Card> = deck.draw_n(20).unwrap();
    deck.reset_unshuffled();
    let replay: Vec<Card> = deck.draw_n(52).unwrap();
    // The cursor went back to 0 and the order was preserved: the drain
    // reproduces the partially dealt prefix, then the rest.
    assert_eq!(&replay[..20], &first[..]);
}

#[test]
fn reset_shuffled_restores_a_full_dealable_deck() {
    let mut deck = Deck::new_unshuffled();
    deck.draw_n(30).unwrap();
    deck.reset_shuffled();
    let mut seen = [false; 52];
    for _ in 0..52 {
        let code = encode(&deck.draw().unwrap()) as usize;
        assert!(!seen[code]);
        seen[code] = true;
    }
    assert!(seen.iter().all(|&s| s));
    assert!(matches!(deck.draw(), Err(DeckError::NotEnoughCards)));
}
