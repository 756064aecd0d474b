//! Rules engine of a casino-style blackjack game: cards, hand scoring,
//! a multi-deck shoe with card counting, and the round state machine.

pub mod card;
pub mod deck;
pub mod hand;
pub mod round;
pub mod shoe;
pub mod text;

pub use card::{Card, Error, Suit, Value, DECK_SIZE, TWENTY_ONE};
pub use deck::Deck;
pub use hand::Hand;
pub use round::{determine_outcome, play_round, Decision, Event, Outcome, Phase, Round};
pub use shoe::{Shoe, TrueCount};
