//! The deck: the fifty-two distinct cards, randomly permuted at
//! creation, drawn one at a time from the top with exhaustion detected.

use crate::cards::{
    card_at, full_deck, full_deck_seq, lemma_full_deck_count_le_one,
    lemma_full_deck_seq_no_duplicates, Card, Suit,
};
use crate::error::GameError;
use crate::hand::Hand;
use rand::seq::SliceRandom;
use vstd::prelude::*;

verus! {

#[verifier::external_type_specification]
#[verifier::external_body]
pub struct ExThreadRng(rand::rngs::ThreadRng);

/// Relies on rand::thread_rng: it hands back the lazily initialized
/// thread-local generator, seeded from the system.
#[verifier::external_body]
fn fresh_rng() -> rand::rngs::ThreadRng {
    rand::thread_rng()
}

/// Relies on rand's SliceRandom::shuffle: a Fisher-Yates pass that only
/// swaps elements in place, so it permutes the slice: the length and
/// the multiset of elements are unchanged.
#[verifier::external_body]
fn shuffle_cards(cards: &mut Vec<Card>, rng: &mut rand::rngs::ThreadRng)
    ensures
        final(cards)@.len() == old(cards)@.len(),
        final(cards)@.to_multiset() == old(cards)@.to_multiset(),
{
    cards.shuffle(rng)
}

/// An ordered pile of cards. Cards are drawn from the back of `cards`,
/// the logical top of the pile.
#[derive(Debug)]
pub struct Deck {
    pub cards: Vec<Card>,
    pub used_count: u16,
}

impl Deck {
    /// A full deck: all fifty-two rank and suit combinations, exactly
    /// one of each, in a uniformly random order.
    pub fn new_deck() -> (d: Deck)
        ensures
            d.cards@.len() == 52,
            d.cards@.to_multiset() == full_deck(),
            d.cards@.no_duplicates(),
            d.used_count == 0,
    {
        let suits = Suit::iterator();
        let mut cards: Vec<Card> = Vec::new();
        let mut si: usize = 0;
        while si < 4
            invariant
                suits@.len() == 4,
                forall|i: int| 0 <= i < 4 ==> suits@[i] == crate::cards::suit_at(i),
                0 <= si <= 4,
                cards@ == full_deck_seq().take(13 * si),
            decreases 4 - si,
        {
            let mut n: u8 = 1;
            while n <= 13
                invariant
                    suits@.len() == 4,
                    forall|i: int| 0 <= i < 4 ==> suits@[i] == crate::cards::suit_at(i),
                    0 <= si < 4,
                    1 <= n <= 14,
                    cards@ == full_deck_seq().take(13 * si + (n - 1)),
                decreases 14 - n,
            {
                let c = Card { number: n, suit: suits[si] };
                proof {
                    let pos = 13 * (si as int) + (n - 1);
                    crate::cards::lemma_card_at_decompose(si as int, n - 1);
                    assert(card_at(pos) == c);
                    assert(full_deck_seq().take(pos).push(c) =~= full_deck_seq().take(pos + 1));
                }
                cards.push(c);
                n = n + 1;
            }
            si = si + 1;
        }
        proof {
            assert(cards@ =~= full_deck_seq());
            lemma_full_deck_seq_no_duplicates();
        }
        let mut rng = fresh_rng();
        shuffle_cards(&mut cards, &mut rng);
        proof {
            assert forall|c: Card| cards@.to_multiset().contains(c) implies cards@.to_multiset().count(
                c,
            ) == 1 by {
                lemma_full_deck_count_le_one(c);
            }
            cards@.lemma_multiset_has_no_duplicates_conv();
        }
        Deck { cards, used_count: 0 }
    }

    /// How many cards are still in the deck.
    pub fn remaining(&self) -> (r: usize)
        ensures
            r == self.cards@.len(),
    {
        self.cards.len()
    }

    /// Draw the top card into the given hand and report it. Drawing
    /// from an empty deck fails with `DeckExhausted` and changes
    /// neither the deck nor the hand.
    pub fn deal(&mut self, hand: &mut Hand) -> (r: Result<Card, GameError>)
        ensures
            old(self).cards@.len() == 0 ==> {
                &&& r == Err::<Card, GameError>(GameError::DeckExhausted)
                &&& final(self).cards@ == old(self).cards@
                &&& final(hand).cards@ == old(hand).cards@
                &&& final(self).used_count == old(self).used_count
            },
            old(self).cards@.len() > 0 ==> {
                &&& r == Ok::<Card, GameError>(old(self).cards@.last())
                &&& final(self).cards@ == old(self).cards@.drop_last()
                &&& final(hand).cards@ == old(hand).cards@.push(old(self).cards@.last())
                &&& final(self).used_count == old(self).used_count
            },
    {
        match self.cards.pop() {
            Some(card) => {
                hand.cards.push(card);
                Ok(card)
            },
            None => Err(GameError::DeckExhausted),
        }
    }
}

} // verus!
