//! The dealing deck: an owner of the 52 canonical codes in some order, plus a
//! cursor counting how many cards have been dealt so far.

use vstd::prelude::*;
use rand::seq::SliceRandom;

use crate::card::{
    Card, card_before, card_code, card_of_code, create_card_for_value, lemma_card_round_trip,
    lemma_decode_injective, suit_index, suit_of_index, value_index, value_of_index,
};

verus! {

/// A deck of 52 cards that can be dealt from and shuffled.
pub struct Deck {
    count_dealt: usize,
    cards: Vec<u8>,
}

/// A draw can fail: there might not be enough cards left before a reset.
#[derive(Debug, Eq, PartialEq, Structural, Copy, Clone)]
pub enum DeckError {
    NotEnoughCards,
}

impl Deck {
    /// The codes the deck holds, in their current order.
    pub closed spec fn codes(&self) -> Seq<u8> {
        self.cards@
    }

    /// How many cards have been dealt since the last reset.
    pub closed spec fn dealt(&self) -> int {
        self.count_dealt as int
    }

    /// The deck's invariant: exactly 52 codes, each in [0, 51], none twice,
    /// and a cursor that never passes the end.
    pub open spec fn wf(&self) -> bool {
        &&& self.codes().len() == 52
        &&& 0 <= self.dealt() <= 52
        &&& forall|i: int| 0 <= i < 52 ==> self.codes()[i] < 52
        &&& self.codes().no_duplicates()
    }

    /// The card that draw number `i` (counted from a fresh cursor) yields
    /// under the deck's current order.
    pub open spec fn dealt_card(&self, i: int) -> Card {
        card_of_code(self.codes()[i] as int)
    }

    /// Returns a deck where all cards are sorted by Suit, then by Value:
    /// the codes 0..51 in ascending order, with nothing dealt yet.
    pub fn new_unshuffled() -> (d: Deck)
        ensures
            d.wf(),
            d.dealt() == 0,
            forall|i: int| 0 <= i < 52 ==> d.codes()[i] == i,
    {
        let mut cards: Vec<u8> = Vec::new();
        let mut value: u8 = 0;
        while value < 52
            invariant
                value <= 52,
                cards@.len() == value,
                forall|i: int| 0 <= i < value ==> cards@[i] == i,
            decreases 52 - value,
        {
            cards.push(value);
            value = value + 1;
        }
        Deck { count_dealt: 0, cards }
    }

    /// A freshly shuffled deck of 52 cards.
    pub fn new_shuffled() -> (d: Deck)
        ensures
            d.wf(),
            d.dealt() == 0,
    {
        let mut d = Deck::new_unshuffled();
        d.shuffle();
        d
    }

    /// Just pretend nothing was ever dealt: the cursor returns to 0 and the
    /// card order is left untouched.
    pub fn reset_unshuffled(&mut self)
        requires
            old(self).wf(),
        ensures
            final(self).wf(),
            final(self).codes() == old(self).codes(),
            final(self).dealt() == 0,
    {
        self.count_dealt = 0;
    }

    /// Shuffle the cards - just as if you were starting with a fresh
    /// shuffled deck: the cursor returns to 0 and the order is randomized.
    pub fn reset_shuffled(&mut self)
        requires
            old(self).wf(),
        ensures
            final(self).wf(),
            final(self).codes().to_multiset() == old(self).codes().to_multiset(),
            final(self).dealt() == 0,
    {
        self.count_dealt = 0;
        self.shuffle();
    }

    /// Randomly permutes the codes in place. The multiset of codes is
    /// unchanged, so the invariant survives; the cursor is not touched, which
    /// is why this stays internal and the public entry point is
    /// `reset_shuffled`.
    fn shuffle(&mut self)
        requires
            old(self).wf(),
        ensures
            final(self).wf(),
            final(self).codes().to_multiset() == old(self).codes().to_multiset(),
            final(self).dealt() == old(self).dealt(),
    {
        let ghost before = self.cards@;
        shuffle_codes(&mut self.cards);
        proof {
            broadcast use vstd::seq_lib::group_to_multiset_ensures;

            let after = self.cards@;
            assert(after.len() == before.len()) by {
                assert(after.to_multiset().len() == before.to_multiset().len());
            };
            before.lemma_multiset_has_no_duplicates();
            after.lemma_multiset_has_no_duplicates_conv();
            assert forall|i: int| 0 <= i < 52 implies after[i] < 52 by {
                assert(after.contains(after[i]));
                assert(before.to_multiset().count(after[i]) > 0);
                assert(before.contains(after[i]));
            };
        }
    }

    /// An attempt to get a card from the deck. There might not be enough:
    /// once all 52 have been dealt, a draw fails and changes nothing.
    pub fn draw(&mut self) -> (r: Result<Card, DeckError>)
        requires
            old(self).wf(),
        ensures
            final(self).wf(),
            final(self).codes() == old(self).codes(),
            old(self).dealt() == 52 ==> r == Err::<Card, DeckError>(DeckError::NotEnoughCards)
                && final(self).dealt() == old(self).dealt(),
            old(self).dealt() < 52 ==> final(self).dealt() == old(self).dealt() + 1
                && r == Ok::<Card, DeckError>(old(self).dealt_card(old(self).dealt())),
    {
        if self.count_dealt >= 52 {
            Err(DeckError::NotEnoughCards)
        } else {
            let value = self.cards[self.count_dealt];
            self.count_dealt = self.count_dealt + 1;

            let card = create_card_for_value(value);
            Ok(card)
        }
    }

    /// An attempt to get n cards from the deck wrapped in a Vec. There might
    /// not be enough: the draw is all or nothing, so a failing call leaves
    /// the cursor exactly where it was.
    pub fn draw_n(&mut self, n: usize) -> (r: Result<Vec<Card>, DeckError>)
        requires
            old(self).wf(),
        ensures
            final(self).wf(),
            final(self).codes() == old(self).codes(),
            old(self).dealt() + n > 52 ==> r == Err::<Vec<Card>, DeckError>(
                DeckError::NotEnoughCards,
            ) && final(self).dealt() == old(self).dealt(),
            old(self).dealt() + n <= 52 ==> final(self).dealt() == old(self).dealt() + n && (
            r matches Ok(cards) && cards@.len() == n && forall|i: int|
                0 <= i < n ==> cards@[i] == old(self).dealt_card(old(self).dealt() + i)),
    {
        if n > 52 - self.count_dealt {
            Err(DeckError::NotEnoughCards)
        } else {
            let mut cards: Vec<Card> = Vec::new();
            let mut i: usize = 0;
            while i < n
                invariant
                    old(self).wf(),
                    self.wf(),
                    self.codes() == old(self).codes(),
                    i <= n,
                    old(self).dealt() + n <= 52,
                    self.dealt() == old(self).dealt() + i,
                    cards@.len() == i,
                    forall|j: int|
                        0 <= j < i ==> cards@[j] == old(self).dealt_card(old(self).dealt() + j),
                decreases n - i,
            {
                let card = self.draw().unwrap();
                cards.push(card);
                i = i + 1;
            }
            Ok(cards)
        }
    }
}

/// The 52 cards of a standard deck, listed in canonical code order.
pub open spec fn full_deck() -> Seq<Card> {
    Seq::new(52, |i: int| card_of_code(i))
}

impl Deck {
    /// The cards a full drain of the deck deals, in deal order, were the
    /// cursor at 0 under the deck's current card order.
    pub open spec fn deal_sequence(&self) -> Seq<Card> {
        Seq::new(52, |i: int| self.dealt_card(i))
    }
}

/// A well-formed deck's codes cover every canonical code: 52 distinct values
/// drawn from [0, 51] leave no code out.
proof fn lemma_codes_complete(s: Seq<u8>)
    requires
        s.len() == 52,
        forall|i: int| 0 <= i < 52 ==> s[i] < 52,
        s.no_duplicates(),
    ensures
        forall|c: u8| c < 52 ==> #[trigger] s.contains(c),
{
    broadcast use vstd::seq_lib::seq_to_set_is_finite;

    let t = s.map_values(|x: u8| x as int);
    assert(t.no_duplicates()) by {
        assert(forall|i: int, j: int|
            0 <= i < t.len() && 0 <= j < t.len() && i != j ==> t[i] != t[j]);
    };
    t.unique_seq_to_set();
    assert(t.to_set().subset_of(vstd::set_lib::set_int_range(0, 52))) by {
        assert(forall|x: int| t.to_set().contains(x) ==> 0 <= x < 52);
    };
    vstd::set_lib::lemma_int_range(0, 52);
    vstd::set_lib::lemma_subset_equality(t.to_set(), vstd::set_lib::set_int_range(0, 52));
    assert forall|c: u8| c < 52 implies #[trigger] s.contains(c) by {
        assert(t.to_set().contains(c as int));
        assert(t.contains(c as int));
        let i = choose|i: int| 0 <= i < t.len() && t[i] == c as int;
        assert(s[i] == c);
    };
}

/// Draining a well-formed deck never deals the same card twice: distinct
/// draw positions yield distinct cards. With `Deck::draw`'s contract this
/// says that 52 successive draws from a fresh deck are pairwise distinct
/// (and the draw after them fails).
pub proof fn lemma_draws_distinct(d: Deck)
    requires
        d.wf(),
    ensures
        d.deal_sequence().no_duplicates(),
{
    assert forall|i: int, j: int|
        0 <= i < 52 && 0 <= j < 52 && i != j implies d.dealt_card(i) != d.dealt_card(j) by {
        if d.dealt_card(i) == d.dealt_card(j) {
            lemma_decode_injective(d.codes()[i] as int, d.codes()[j] as int);
        }
    };
}

/// Draining a well-formed deck deals every one of the 52 cards exactly once:
/// the multiset of dealt cards equals the full standard deck, whatever order
/// a shuffle produced.
pub proof fn lemma_drain_complete(d: Deck)
    requires
        d.wf(),
    ensures
        d.deal_sequence().to_multiset() == full_deck().to_multiset(),
{
    broadcast use vstd::seq_lib::group_to_multiset_ensures;

    let dealt = d.deal_sequence();
    let full = full_deck();

    lemma_draws_distinct(d);
    dealt.lemma_multiset_has_no_duplicates();

    assert(full.no_duplicates()) by {
        assert forall|i: int, j: int|
            0 <= i < 52 && 0 <= j < 52 && i != j implies full[i] != full[j] by {
            if full[i] == full[j] {
                lemma_decode_injective(i, j);
            }
        };
    };
    full.lemma_multiset_has_no_duplicates();

    lemma_codes_complete(d.codes());
    assert forall|k: Card| dealt.contains(k) && full.contains(k) by {
        lemma_card_round_trip(k);
        let c = card_code(k);
        assert(full[c] == k);
        assert(d.codes().contains(c as u8));
        let i = choose|i: int| 0 <= i < d.codes().len() && d.codes()[i] == c as u8;
        assert(dealt[i] == k);
    };

    assert(dealt.to_multiset() =~= full.to_multiset()) by {
        assert forall|k: Card| dealt.to_multiset().count(k) == full.to_multiset().count(
            k,
        ) by {
            assert(dealt.to_multiset().count(k) == 1);
            assert(full.to_multiset().count(k) == 1);
        };
    };
}

/// An unshuffled deck deals its 52 cards in strictly ascending (suit, rank)
/// order: each draw comes strictly later in the order than the one before.
pub proof fn lemma_unshuffled_deal_order(d: Deck, i: int, j: int)
    requires
        d.wf(),
        forall|k: int| 0 <= k < 52 ==> d.codes()[k] == k,
        0 <= i < j < 52,
    ensures
        card_before(d.dealt_card(i), d.dealt_card(j)),
{
    vstd::arithmetic::div_mod::lemma_fundamental_div_mod(i, 13);
    vstd::arithmetic::div_mod::lemma_fundamental_div_mod(j, 13);
    assert(0 <= i % 13 < 13 && 0 <= i / 13 < 4);
    assert(0 <= j % 13 < 13 && 0 <= j / 13 < 4);
    assert(i / 13 <= j / 13);
    assert(suit_index(suit_of_index(i / 13)) == i / 13);
    assert(suit_index(suit_of_index(j / 13)) == j / 13);
    assert(value_index(value_of_index(i % 13)) == i % 13);
    assert(value_index(value_of_index(j % 13)) == j % 13);
}

/// Relies on rand's SliceRandom::shuffle: a Fisher-Yates pass that reorders
/// the slice purely by swapping elements in place, so the multiset of codes
/// it holds is unchanged. Nothing is assumed about the resulting order.
#[verifier::external_body]
fn shuffle_codes(codes: &mut Vec<u8>)
    ensures
        final(codes)@.to_multiset() == old(codes)@.to_multiset(),
{
    let mut rng = rand::thread_rng();
    codes.shuffle(&mut rng);
}

} // verus!
