//! A participant's hand and the scoring rule.

use crate::cards::{card_points, Card};
use vstd::prelude::*;

verus! {

/// The cards one participant has drawn. A hand only grows during a
/// round; it never gives a card back.
#[derive(Debug)]
pub struct Hand {
    pub cards: Vec<Card>,
}

/// The score of a sequence of cards: the sum, over the cards, of the
/// rank capped at ten. There is no soft-ace alternate score.
pub open spec fn points_of(s: Seq<Card>) -> nat
    decreases s.len(),
{
    if s.len() == 0 {
        0
    } else {
        points_of(s.drop_last()) + card_points(s.last())
    }
}

/// Adding one card adds that card's points.
pub proof fn lemma_points_push(s: Seq<Card>, c: Card)
    ensures
        points_of(s.push(c)) == points_of(s) + card_points(c),
{
    assert(s.push(c).drop_last() =~= s);
}

/// The score of the first `i + 1` cards extends the score of the
/// first `i` by the points of card `i`.
pub proof fn lemma_points_take_step(s: Seq<Card>, i: int)
    requires
        0 <= i < s.len(),
    ensures
        points_of(s.take(i + 1)) == points_of(s.take(i)) + card_points(s[i]),
{
    assert(s.take(i + 1).drop_last() =~= s.take(i));
    assert(s.take(i + 1).last() == s[i]);
}

/// A prefix of a hand never scores more than the whole hand.
pub proof fn lemma_points_take_le(s: Seq<Card>, i: int)
    requires
        0 <= i <= s.len(),
    ensures
        points_of(s.take(i)) <= points_of(s),
    decreases s.len() - i,
{
    if i == s.len() {
        assert(s.take(i) =~= s);
    } else {
        lemma_points_take_step(s, i);
        lemma_points_take_le(s, i + 1);
    }
}

/// No card scores more than ten, so a hand scores at most ten per card.
pub proof fn lemma_points_bound(s: Seq<Card>)
    ensures
        points_of(s) <= 10 * s.len(),
    decreases s.len(),
{
    if s.len() > 0 {
        lemma_points_bound(s.drop_last());
    }
}

impl Hand {
    /// An empty hand.
    pub fn new_hand() -> (h: Hand)
        ensures
            h.cards@ == Seq::<Card>::empty(),
    {
        let h = Hand { cards: Vec::new() };
        proof {
            assert(h.cards@ =~= Seq::<Card>::empty());
        }
        h
    }

    /// The score of the hand, recomputed from the cards on every call:
    /// the sum of the rank capped at ten, over each card held.
    pub fn points(&self) -> (r: u32)
        requires
            points_of(self.cards@) <= u32::MAX,
        ensures
            r == points_of(self.cards@),
    {
        let mut total: u32 = 0;
        let mut i: usize = 0;
        while i < self.cards.len()
            invariant
                0 <= i <= self.cards@.len(),
                total == points_of(self.cards@.take(i as int)),
                points_of(self.cards@) <= u32::MAX,
            decreases self.cards@.len() - i,
        {
            let c = self.cards[i];
            let p: u32 = if c.number > 10 {
                10
            } else {
                c.number as u32
            };
            proof {
                lemma_points_take_step(self.cards@, i as int);
                lemma_points_take_le(self.cards@, i as int + 1);
            }
            total = total + p;
            i = i + 1;
        }
        proof {
            assert(self.cards@.take(self.cards@.len() as int) =~= self.cards@);
        }
        total
    }

    /// Whether the hand has gone over twenty-one.
    pub fn is_bust(&self) -> (r: bool)
        requires
            points_of(self.cards@) <= u32::MAX,
        ensures
            r == (points_of(self.cards@) > 21),
    {
        self.points() > 21
    }
}

} // verus!
