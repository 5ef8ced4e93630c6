//! A standard 52-card deck: immutable card identities, a bijection between
//! cards and the canonical codes 0..51, a short textual rendering, and a
//! dealing deck that tracks how many cards have been consumed.

pub mod card;
pub mod deck;
