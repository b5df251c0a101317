//! The round engine: the turn-taking state machine that deals the
//! opening hands, accepts the player's hit-or-stand decisions, runs the
//! dealer's automated draws, and determines the winner.

use crate::cards::{full_deck, Card};
use crate::deck::Deck;
use crate::error::GameError;
use crate::hand::{lemma_points_bound, lemma_points_push, points_of, Hand};
use crate::player::Player;
use vstd::multiset::Multiset;
use vstd::prelude::*;

verus! {

/// What the player can ask for during their turn.
#[derive(Debug, Clone, Copy, PartialEq, Eq, Structural)]
pub enum Decision {
    /// Draw one more card.
    Hit,
    /// Stop drawing and hand the turn to the dealer.
    Stand,
}

/// Who won the round. There is no push outcome: equal scores resolve
/// in the dealer's favour.
#[derive(Debug, Clone, Copy, PartialEq, Eq, Structural)]
pub enum Outcome {
    PlayerWin,
    DealerWin,
}

/// Where a round stands. A round begins in `PlayerTurn` (the opening
/// deal is part of construction); a stand moves it to `DealerTurn`; a
/// player bust, a dealer bust or the showdown end it in `Resolved`.
#[derive(Debug, Clone, Copy, PartialEq, Eq, Structural)]
pub enum RoundState {
    PlayerTurn,
    DealerTurn,
    Resolved(Outcome),
}

/// One round in play: the deck and both hands, with the engine's state.
/// Created at round start and discarded once resolved.
#[derive(Debug)]
pub struct Round {
    pub deck: Deck,
    pub player_hand: Hand,
    pub dealer_hand: Hand,
    pub state: RoundState,
}

impl Round {
    /// Every card of the round, wherever it currently sits.
    pub open spec fn all_cards(self) -> Multiset<Card> {
        self.deck.cards@.to_multiset().add(self.player_hand.cards@.to_multiset()).add(
            self.dealer_hand.cards@.to_multiset(),
        )
    }

    /// Scores stay within `u32` however the rest of the deck is dealt
    /// out: established at round start and kept by every transition.
    pub open spec fn wf(self) -> bool {
        points_of(self.player_hand.cards@) + points_of(self.dealer_hand.cards@) + 10
            * self.deck.cards@.len() <= u32::MAX
    }
}

/// The showdown rule for two settled scores: only a strictly higher
/// player score wins, so equal scores resolve in the dealer's favour.
pub open spec fn showdown_winner(player_pts: nat, dealer_pts: nat) -> Outcome {
    if player_pts > dealer_pts {
        Outcome::PlayerWin
    } else {
        Outcome::DealerWin
    }
}

/// Drawing the top card moves it: the deck gives up its last card and
/// whichever hand received it gains exactly that card.
proof fn lemma_draw_top(deck: Seq<Card>, hand: Seq<Card>)
    requires
        deck.len() > 0,
    ensures
        deck.to_multiset() == deck.drop_last().to_multiset().insert(deck.last()),
        hand.push(deck.last()).to_multiset() == hand.to_multiset().insert(deck.last()),
{
    broadcast use vstd::seq_lib::group_to_multiset_ensures;

    assert(deck.drop_last().push(deck.last()) =~= deck);
}

/// If every card the dealer drew was drawn at a score of sixteen or
/// below, a dealer already above sixteen cannot have drawn at all.
proof fn lemma_settled_dealer_drew_nothing(orig: Round, cur: Round)
    requires
        orig.dealer_hand.cards@.len() <= cur.dealer_hand.cards@.len(),
        cur.dealer_hand.cards@.take(orig.dealer_hand.cards@.len() as int)
            == orig.dealer_hand.cards@,
        forall|i: int|
            orig.dealer_hand.cards@.len() <= i < cur.dealer_hand.cards@.len() ==> points_of(
                cur.dealer_hand.cards@.take(i),
            ) <= 16,
    ensures
        points_of(orig.dealer_hand.cards@) > 16 ==> cur.dealer_hand.cards@
            == orig.dealer_hand.cards@,
{
    let n = orig.dealer_hand.cards@.len() as int;
    if points_of(orig.dealer_hand.cards@) > 16 {
        if n < cur.dealer_hand.cards@.len() {
            assert(points_of(cur.dealer_hand.cards@.take(n)) <= 16);
            assert(false);
        } else {
            assert(cur.dealer_hand.cards@.take(n) =~= cur.dealer_hand.cards@);
        }
    }
}

/// Card conservation: whenever a round still holds the population of a
/// full deck, the deck and the two hands together hold exactly
/// fifty-two cards.
pub proof fn lemma_round_card_count(r: Round)
    requires
        r.all_cards() == full_deck(),
    ensures
        r.player_hand.cards@.len() + r.dealer_hand.cards@.len() + r.deck.cards@.len() == 52,
{
    broadcast use vstd::seq_lib::group_to_multiset_ensures;
    broadcast use vstd::multiset::group_multiset_axioms;

    crate::cards::lemma_full_deck_len();
}

/// No card sits in two places at once: across the deck and the two
/// hands, each rank-and-suit pair occurs at most once.
pub proof fn lemma_no_shared_cards(r: Round, c: Card)
    requires
        r.all_cards() == full_deck(),
    ensures
        r.deck.cards@.to_multiset().count(c) + r.player_hand.cards@.to_multiset().count(c)
            + r.dealer_hand.cards@.to_multiset().count(c) <= 1,
{
    broadcast use vstd::multiset::group_multiset_axioms;

    crate::cards::lemma_full_deck_count_le_one(c);
}

impl Round {
    /// Start a round from the given deck: deal two cards each,
    /// alternating player, dealer, player, dealer, then wait for the
    /// player's first decision. A deck of fewer than four cards cannot
    /// open a round and fails with `DeckExhausted`.
    pub fn new(deck: Deck) -> (r: Result<Round, GameError>)
        requires
            10 * deck.cards@.len() <= u32::MAX,
        ensures
            deck.cards@.len() < 4 ==> r == Err::<Round, GameError>(GameError::DeckExhausted),
            deck.cards@.len() >= 4 ==> (r matches Ok(rd) && {
                let n = deck.cards@.len() as int;
                &&& rd.state == RoundState::PlayerTurn
                &&& rd.player_hand.cards@ == seq![deck.cards@[n - 1], deck.cards@[n - 3]]
                &&& rd.dealer_hand.cards@ == seq![deck.cards@[n - 2], deck.cards@[n - 4]]
                &&& rd.deck.cards@ == deck.cards@.take(n - 4)
                &&& rd.deck.used_count == deck.used_count
                &&& rd.all_cards() == deck.cards@.to_multiset()
                &&& rd.wf()
            }),
    {
        if deck.cards.len() < 4 {
            return Err(GameError::DeckExhausted);
        }
        let ghost n = deck.cards@.len() as int;
        let mut d = deck;
        let mut player_hand = Hand::new_hand();
        let mut dealer_hand = Hand::new_hand();
        let _ = d.deal(&mut player_hand);
        let _ = d.deal(&mut dealer_hand);
        let _ = d.deal(&mut player_hand);
        let _ = d.deal(&mut dealer_hand);
        let round = Round { deck: d, player_hand, dealer_hand, state: RoundState::PlayerTurn };
        proof {
            broadcast use vstd::seq_lib::group_to_multiset_ensures;
            broadcast use vstd::multiset::group_multiset_axioms;

            let s = deck.cards@;
            assert(round.player_hand.cards@ =~= seq![s[n - 1], s[n - 3]]);
            assert(round.dealer_hand.cards@ =~= seq![s[n - 2], s[n - 4]]);
            assert(round.deck.cards@ =~= s.take(n - 4));
            assert(s =~= s.take(n - 4).push(s[n - 4]).push(s[n - 3]).push(s[n - 2]).push(
                s[n - 1],
            ));
            assert(round.player_hand.cards@ =~= Seq::<Card>::empty().push(s[n - 1]).push(s[n - 3]));
            assert(round.dealer_hand.cards@ =~= Seq::<Card>::empty().push(s[n - 2]).push(s[n - 4]));
            assert(Seq::<Card>::empty().to_multiset() =~= Multiset::<Card>::empty());
            assert(round.all_cards() =~= s.to_multiset());
            lemma_points_bound(round.player_hand.cards@);
            lemma_points_bound(round.dealer_hand.cards@);
        }
        Ok(round)
    }

    /// Take the player's decision during their turn.
    ///
    /// A stand changes nothing but the state: the dealer's turn is
    /// next. A hit draws the top card into the player's hand and
    /// reports it; if the player busts the round resolves at once as a
    /// dealer win, with the dealer's hand untouched and no dealer turn.
    /// A hit on an empty deck fails with `DeckExhausted` and leaves the
    /// round unchanged.
    pub fn submit_decision(&mut self, decision: Decision) -> (r: Result<Option<Card>, GameError>)
        requires
            old(self).state is PlayerTurn,
            old(self).wf(),
        ensures
            final(self).wf(),
            final(self).all_cards() == old(self).all_cards(),
            final(self).dealer_hand.cards@ == old(self).dealer_hand.cards@,
            final(self).deck.used_count == old(self).deck.used_count,
            decision is Stand ==> {
                &&& r == Ok::<Option<Card>, GameError>(None)
                &&& final(self).state == RoundState::DealerTurn
                &&& final(self).player_hand.cards@ == old(self).player_hand.cards@
                &&& final(self).deck.cards@ == old(self).deck.cards@
            },
            decision is Hit && old(self).deck.cards@.len() == 0 ==> {
                &&& r == Err::<Option<Card>, GameError>(GameError::DeckExhausted)
                &&& final(self).state == old(self).state
                &&& final(self).player_hand.cards@ == old(self).player_hand.cards@
                &&& final(self).deck.cards@ == old(self).deck.cards@
            },
            decision is Hit && old(self).deck.cards@.len() > 0 ==> ({
                let c = old(self).deck.cards@.last();
                &&& r == Ok::<Option<Card>, GameError>(Some(c))
                &&& final(self).player_hand.cards@ == old(self).player_hand.cards@.push(c)
                &&& final(self).deck.cards@ == old(self).deck.cards@.drop_last()
                &&& (points_of(final(self).player_hand.cards@) > 21 ==> final(self).state
                    == RoundState::Resolved(Outcome::DealerWin))
                &&& (points_of(final(self).player_hand.cards@) <= 21 ==> final(self).state
                    == RoundState::PlayerTurn)
            }),
    {
        match decision {
            Decision::Stand => {
                self.state = RoundState::DealerTurn;
                Ok(None)
            },
            Decision::Hit => {
                let ghost prev = *self;
                match self.deck.deal(&mut self.player_hand) {
                    Ok(card) => {
                        proof {
                            broadcast use vstd::multiset::group_multiset_axioms;

                            lemma_draw_top(prev.deck.cards@, prev.player_hand.cards@);
                            assert(self.all_cards() =~= prev.all_cards());
                            lemma_points_push(prev.player_hand.cards@, card);
                        }
                        if self.player_hand.points() > 21 {
                            self.state = RoundState::Resolved(Outcome::DealerWin);
                        }
                        Ok(Some(card))
                    },
                    Err(e) => Err(e),
                }
            },
        }
    }

    /// Run the dealer's turn to the end of the round. No input is
    /// taken: the dealer draws exactly while its score is sixteen or
    /// below, and stops the moment it reaches seventeen. A dealer bust
    /// resolves the round as a player win at once, with no further
    /// draw; otherwise the showdown compares the scores, and only a
    /// strictly higher player score wins (equal scores go to the
    /// dealer). On success the cards drawn are reported in draw order.
    /// If the deck runs out while the dealer is still at sixteen or
    /// below, the round fails with `DeckExhausted` and stays
    /// unresolved.
    #[verifier::loop_isolation(false)]
    pub fn dealer_turn(&mut self) -> (r: Result<Vec<Card>, GameError>)
        requires
            old(self).state is DealerTurn,
            old(self).wf(),
        ensures
            final(self).wf(),
            final(self).all_cards() == old(self).all_cards(),
            final(self).player_hand.cards@ == old(self).player_hand.cards@,
            final(self).deck.used_count == old(self).deck.used_count,
            final(self).deck.cards@ == old(self).deck.cards@.take(
                final(self).deck.cards@.len() as int,
            ),
            final(self).dealer_hand.cards@ == old(self).dealer_hand.cards@ + old(
                self,
            ).deck.cards@.skip(final(self).deck.cards@.len() as int).reverse(),
            // every draw was made while the dealer held sixteen or below
            forall|i: int|
                old(self).dealer_hand.cards@.len() <= i < final(self).dealer_hand.cards@.len()
                    ==> points_of(final(self).dealer_hand.cards@.take(i)) <= 16,
            // a dealer already at seventeen draws nothing
            points_of(old(self).dealer_hand.cards@) > 16 ==> final(self).dealer_hand.cards@ == old(
                self,
            ).dealer_hand.cards@,
            r is Ok ==> {
                &&& r->Ok_0@ == old(self).deck.cards@.skip(
                    final(self).deck.cards@.len() as int,
                ).reverse()
                &&& points_of(final(self).dealer_hand.cards@) > 16
                &&& (points_of(final(self).dealer_hand.cards@) > 21 ==> final(self).state
                    == RoundState::Resolved(Outcome::PlayerWin))
                &&& (points_of(final(self).dealer_hand.cards@) <= 21 ==> final(self).state
                    == RoundState::Resolved(showdown_winner(points_of(final(self).player_hand.cards@), points_of(final(self).dealer_hand.cards@))))
            },
            r is Err ==> {
                &&& r == Err::<Vec<Card>, GameError>(GameError::DeckExhausted)
                &&& final(self).state == old(self).state
            },
            // the turn fails exactly when the deck runs dry first
            (r is Err) <==> (final(self).deck.cards@.len() == 0 && points_of(
                final(self).dealer_hand.cards@,
            ) <= 16),
    {
        let ghost orig = *self;
        let mut drawn: Vec<Card> = Vec::new();
        while self.dealer_hand.points() <= 16
            invariant
                self.wf(),
                self.state == orig.state,
                self.player_hand.cards@ == orig.player_hand.cards@,
                self.deck.used_count == orig.deck.used_count,
                self.deck.cards@.len() <= orig.deck.cards@.len(),
                self.deck.cards@ == orig.deck.cards@.take(self.deck.cards@.len() as int),
                self.dealer_hand.cards@ == orig.dealer_hand.cards@ + orig.deck.cards@.skip(
                    self.deck.cards@.len() as int,
                ).reverse(),
                drawn@ == orig.deck.cards@.skip(self.deck.cards@.len() as int).reverse(),
                forall|i: int|
                    orig.dealer_hand.cards@.len() <= i < self.dealer_hand.cards@.len()
                        ==> points_of(self.dealer_hand.cards@.take(i)) <= 16,
                self.all_cards() == orig.all_cards(),
            decreases self.deck.cards@.len(),
        {
            let ghost prev = *self;
            let ghost k = prev.deck.cards@.len() as int;
            match self.deck.deal(&mut self.dealer_hand) {
                Ok(c) => {
                    drawn.push(c);
                    proof {
                        broadcast use vstd::multiset::group_multiset_axioms;

                        lemma_draw_top(prev.deck.cards@, prev.dealer_hand.cards@);
                        assert(self.all_cards() =~= prev.all_cards());
                        lemma_points_push(prev.dealer_hand.cards@, c);
                        assert(c == orig.deck.cards@[k - 1]);
                        assert(self.deck.cards@ =~= orig.deck.cards@.take(k - 1));
                        assert(orig.deck.cards@.skip(k - 1).reverse() =~= orig.deck.cards@.skip(
                            k,
                        ).reverse().push(orig.deck.cards@[k - 1]));
                        assert(self.dealer_hand.cards@ =~= orig.dealer_hand.cards@
                            + orig.deck.cards@.skip(k - 1).reverse());
                        assert forall|i: int|
                            orig.dealer_hand.cards@.len() <= i < self.dealer_hand.cards@.len()
                                implies points_of(self.dealer_hand.cards@.take(i)) <= 16 by {
                            if i < prev.dealer_hand.cards@.len() {
                                assert(self.dealer_hand.cards@.take(i)
                                    =~= prev.dealer_hand.cards@.take(i));
                            } else {
                                assert(self.dealer_hand.cards@.take(i)
                                    =~= prev.dealer_hand.cards@);
                            }
                        }
                    }
                },
                Err(e) => {
                    proof {
                        assert(self.dealer_hand.cards@.take(orig.dealer_hand.cards@.len() as int)
                            =~= orig.dealer_hand.cards@);
                        lemma_settled_dealer_drew_nothing(orig, *self);
                    }
                    return Err(e);
                },
            }
        }
        proof {
            assert(self.dealer_hand.cards@.take(orig.dealer_hand.cards@.len() as int)
                =~= orig.dealer_hand.cards@);
            lemma_settled_dealer_drew_nothing(orig, *self);
        }
        let dealer_score = self.dealer_hand.points();
        if dealer_score > 21 {
            self.state = RoundState::Resolved(Outcome::PlayerWin);
        } else if self.player_hand.points() > dealer_score {
            self.state = RoundState::Resolved(Outcome::PlayerWin);
        } else {
            self.state = RoundState::Resolved(Outcome::DealerWin);
        }
        Ok(drawn)
    }
}

/// A table: the human player seated against the house dealer. Only the
/// players persist across rounds; each round brings its own deck.
pub struct Game {
    pub dealer: Player,
    pub player: Player,
}

impl Game {
    /// Seat the given player against a fresh dealer.
    pub fn new(player: Player) -> (g: Game)
        ensures
            g.player == player,
            g.dealer.name@ == "Dealer"@,
            g.dealer.current_hand.cards@ == Seq::<Card>::empty(),
            g.dealer.balance == 10000,
    {
        Game { player, dealer: Player::new("Dealer".to_owned()) }
    }
}

/// Turn a line of player input into a decision: `"y"` asks for a hit,
/// `"n"` stands, and anything else is `InvalidDecision`, on which the
/// caller asks again without touching the round.
pub fn parse_decision(input: &str) -> (r: Result<Decision, GameError>)
    ensures
        input@ == "y"@ ==> r == Ok::<Decision, GameError>(Decision::Hit),
        input@ == "n"@ ==> r == Ok::<Decision, GameError>(Decision::Stand),
        input@ != "y"@ && input@ != "n"@ ==> r == Err::<Decision, GameError>(
            GameError::InvalidDecision,
        ),
{
    proof {
        reveal_strlit("y");
        reveal_strlit("n");
        assert("y"@ != "n"@) by {
            assert("y"@[0] == 'y' && "n"@[0] == 'n');
        }
    }
    let s = input.to_owned();
    let yes = "y".to_owned();
    let no = "n".to_owned();
    if s == yes {
        Ok(Decision::Hit)
    } else if s == no {
        Ok(Decision::Stand)
    } else {
        Err(GameError::InvalidDecision)
    }
}

} // verus!
