//! A single-player blackjack-style card game against an automated dealer.
//!
//! The library holds the round-resolution engine: the deck and shuffle
//! model, the hand-scoring rule, and the turn-taking state machine that
//! alternates player decisions and automated dealer draws until a winner
//! is determined. Reading decisions from a terminal and rendering status
//! text are left to the surrounding program.

pub mod cards;
pub mod deck;
pub mod error;
pub mod hand;
pub mod player;
pub mod round;
