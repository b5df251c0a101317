//! Cards: a rank paired with a suit, and the fixed population of
//! fifty-two distinct cards that every fresh deck holds.

use vstd::multiset::Multiset;
use vstd::prelude::*;

verus! {

/// One of the four French suits. A suit only identifies a card; it has
/// no effect on scoring.
#[derive(Debug, Clone, Copy, PartialEq, Eq, Structural)]
pub enum Suit {
    Diamonds,
    Clubs,
    Hearts,
    Spades,
}

/// A playing card: a rank (1 is the ace, 11 to 13 are the face cards)
/// together with a suit. Immutable once created.
#[derive(Debug, Clone, Copy, PartialEq, Eq, Structural)]
pub struct Card {
    pub number: u8,
    pub suit: Suit,
}

/// The suit at position `i` of the fixed suit order.
pub open spec fn suit_at(i: int) -> Suit {
    if i == 0 {
        Suit::Diamonds
    } else if i == 1 {
        Suit::Clubs
    } else if i == 2 {
        Suit::Hearts
    } else {
        Suit::Spades
    }
}

/// What a card contributes to a hand's score: face cards count ten,
/// every other rank counts its own number, so an ace counts one.
pub open spec fn card_points(c: Card) -> nat {
    if c.number > 10 {
        10
    } else {
        c.number as nat
    }
}

/// The card at position `i` when the fifty-two distinct cards are laid
/// out suit by suit, ranks ascending within each suit.
pub open spec fn card_at(i: int) -> Card {
    Card { number: (i % 13 + 1) as u8, suit: suit_at(i / 13) }
}

/// The fifty-two distinct cards, suit by suit, ranks ascending.
pub open spec fn full_deck_seq() -> Seq<Card> {
    Seq::new(52, |i: int| card_at(i))
}

/// The fifty-two distinct cards as a multiset: the population a fresh
/// deck holds and a round conserves.
pub open spec fn full_deck() -> Multiset<Card> {
    full_deck_seq().to_multiset()
}

impl Suit {
    /// The four suits, in the fixed suit order.
    pub fn iterator() -> (suits: Vec<Suit>)
        ensures
            suits@.len() == 4,
            forall|i: int| 0 <= i < 4 ==> suits@[i] == suit_at(i),
    {
        let mut suits: Vec<Suit> = Vec::new();
        suits.push(Suit::Diamonds);
        suits.push(Suit::Clubs);
        suits.push(Suit::Hearts);
        suits.push(Suit::Spades);
        suits
    }
}

/// Positions in the laid-out full deck can be read back off the card:
/// thirteen times the suit position plus the rank gives the position.
pub(crate) proof fn lemma_card_at_decompose(s: int, r: int)
    requires
        0 <= s,
        0 <= r < 13,
    ensures
        (13 * s + r) / 13 == s,
        (13 * s + r) % 13 == r,
{
    vstd::arithmetic::div_mod::lemma_fundamental_div_mod_converse(13 * s + r, 13, s, r);
}

/// Distinct positions of the laid-out full deck hold distinct cards.
proof fn lemma_card_at_injective(i: int, j: int)
    requires
        0 <= i < 52,
        0 <= j < 52,
        i != j,
    ensures
        card_at(i) != card_at(j),
{
    vstd::arithmetic::div_mod::lemma_fundamental_div_mod(i, 13);
    vstd::arithmetic::div_mod::lemma_fundamental_div_mod(j, 13);
    let qi = i / 13;
    let ri = i % 13;
    let qj = j / 13;
    let rj = j % 13;
    assert(0 <= ri < 13 && 0 <= rj < 13) by {
        vstd::arithmetic::div_mod::lemma_mod_bound(i, 13);
        vstd::arithmetic::div_mod::lemma_mod_bound(j, 13);
    }
    assert(0 <= qi < 4 && 0 <= qj < 4);
    if qi == qj {
        assert(ri != rj);
        assert(card_at(i).number == ri + 1 && card_at(j).number == rj + 1);
    } else {
        assert(suit_at(qi) != suit_at(qj));
    }
}

/// The fifty-two cards of the full deck are pairwise distinct.
pub proof fn lemma_full_deck_seq_no_duplicates()
    ensures
        full_deck_seq().no_duplicates(),
{
    assert forall|i: int, j: int| 0 <= i < 52 && 0 <= j < 52 && i != j implies full_deck_seq()[i]
        != full_deck_seq()[j] by {
        lemma_card_at_injective(i, j);
    }
}

/// The full deck holds fifty-two cards.
pub proof fn lemma_full_deck_len()
    ensures
        full_deck().len() == 52,
{
    broadcast use vstd::seq_lib::group_to_multiset_ensures;

}

/// The full deck holds no card more than once.
pub proof fn lemma_full_deck_count_le_one(c: Card)
    ensures
        full_deck().count(c) <= 1,
{
    broadcast use vstd::seq_lib::group_to_multiset_ensures;
    broadcast use vstd::multiset::group_multiset_axioms;

    lemma_full_deck_seq_no_duplicates();
    full_deck_seq().lemma_multiset_has_no_duplicates();
    if full_deck().count(c) > 0 {
        assert(full_deck().contains(c));
    }
}

} // verus!
