//! A participant: a name, a hand, and (for the human player) a balance
//! that persists across rounds.

use crate::cards::Card;
use crate::hand::Hand;
use vstd::prelude::*;

verus! {

/// A participant in the game. The balance is carried across rounds but
/// is not settled by the round engine itself.
#[derive(Debug)]
pub struct Player {
    pub name: String,
    pub current_hand: Hand,
    pub balance: u32,
}

impl Player {
    /// A participant with an empty hand and the starting balance.
    pub fn new(name: String) -> (p: Player)
        ensures
            p.name == name,
            p.current_hand.cards@ == Seq::<Card>::empty(),
            p.balance == 10000,
    {
        Player { name, current_hand: Hand::new_hand(), balance: 10000 }
    }

    /// Credit the balance.
    pub fn add(&mut self, b: u32)
        requires
            old(self).balance + b <= u32::MAX,
        ensures
            final(self).balance == old(self).balance + b,
            final(self).name == old(self).name,
            final(self).current_hand.cards@ == old(self).current_hand.cards@,
    {
        self.balance = self.balance + b;
    }

    /// Debit the balance.
    pub fn sub(&mut self, b: u32)
        requires
            b <= old(self).balance,
        ensures
            final(self).balance == old(self).balance - b,
            final(self).name == old(self).name,
            final(self).current_hand.cards@ == old(self).current_hand.cards@,
    {
        self.balance = self.balance - b;
    }
}

} // verus!
