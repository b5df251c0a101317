use blackjack::cards::{Card, Suit};
use blackjack::deck::Deck;
use blackjack::error::GameError;
use blackjack::hand::Hand;
use blackjack::player::Player;
use blackjack::round::{Decision, Game, parse_decision};

#[test]
fn it_works() {
    assert_eq!(2 + 2, 4);
}

#[test]
fn suits_come_in_a_fixed_order() {
    let suits = Suit::iterator();
    assert_eq!(
        suits,
        vec![Suit::Diamonds, Suit::Clubs, Suit::Hearts, Suit::Spades]
    );
}

// The score is the sum of the rank capped at ten: an ace and a king
// make eleven, and ten, ten, five make twenty-five, a bust.
#[test]
fn score_is_sum_of_rank_capped_at_ten() {
    let mut hand = Hand::new_hand();
    assert_eq!(hand.points(), 0);
    hand.cards.push(Card {
        number: 1,
        suit: Suit::Spades,
    });
    hand.cards.push(Card {
        number: 13,
        suit: Suit::Hearts,
    });
    assert_eq!(hand.points(), 11);
    assert!(!hand.is_bust());

    let busted = Hand {
        cards: vec![
            Card {
                number: 10,
                suit: Suit::Spades,
            },
            Card {
                number: 10,
                suit: Suit::Hearts,
            },
            Card {
                number: 5,
                suit: Suit::Clubs,
            },
        ],
    };
    assert_eq!(busted.points(), 25);
    assert!(busted.is_bust());
}

// A fresh deck holds every rank and suit combination exactly once:
// the shuffle may reorder the cards but can neither lose nor double
// one.
#[test]
fn a_new_deck_holds_each_of_the_fifty_two_cards_once() {
    let deck = Deck::new_deck();
    assert_eq!(deck.remaining(), 52);
    assert_eq!(deck.used_count, 0);
    for suit in Suit::iterator() {
        for number in 1..=13u8 {
            let wanted = Card { number, suit };
            let copies = deck.cards.iter().filter(|c| **c == wanted).count();
            assert_eq!(copies, 1);
        }
    }
}

#[test]
fn dealing_takes_the_top_card() {
    let mut deck = Deck {
        cards: vec![
            Card {
                number: 4,
                suit: Suit::Clubs,
            },
            Card {
                number: 9,
                suit: Suit::Diamonds,
            },
        ],
        used_count: 0,
    };
    let mut hand = Hand::new_hand();
    assert_eq!(
        deck.deal(&mut hand),
        Ok(Card {
            number: 9,
            suit: Suit::Diamonds,
        })
    );
    assert_eq!(deck.remaining(), 1);
    assert_eq!(
        hand.cards,
        vec![Card {
            number: 9,
            suit: Suit::Diamonds,
        }]
    );
    deck.deal(&mut hand).unwrap();
    assert_eq!(deck.deal(&mut hand), Err(GameError::DeckExhausted));
    assert_eq!(hand.cards.len(), 2);
}

#[test]
fn a_new_player_starts_with_ten_thousand_and_an_empty_hand() {
    let player = Player::new("Eric".to_string());
    assert_eq!(player.name, "Eric");
    assert_eq!(player.balance, 10000);
    assert!(player.current_hand.cards.is_empty());
}

#[test]
fn balance_moves_by_add_and_sub() {
    let mut player = Player::new("Eric".to_string());
    player.add(500);
    assert_eq!(player.balance, 10500);
    player.sub(700);
    assert_eq!(player.balance, 9800);
}

#[test]
fn a_game_seats_the_player_against_the_dealer() {
    let game = Game::new(Player::new("Eric".to_string()));
    assert_eq!(game.player.name, "Eric");
    assert_eq!(game.dealer.name, "Dealer");
    assert!(game.dealer.current_hand.cards.is_empty());
}

#[test]
fn decisions_parse_from_y_and_n_only() {
    assert_eq!(parse_decision("y"), Ok(Decision::Hit));
    assert_eq!(parse_decision("n"), Ok(Decision::Stand));
    assert_eq!(parse_decision(""), Err(GameError::InvalidDecision));
    assert_eq!(parse_decision("x"), Err(GameError::InvalidDecision));
    assert_eq!(parse_decision("yy"), Err(GameError::InvalidDecision));
    assert_eq!(parse_decision("N"), Err(GameError::InvalidDecision));
}
