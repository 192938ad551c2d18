//! A single-player blackjack engine: cards, hands and shoes, a pluggable
//! playing strategy, the round state machine and the session's accounts.
//!
//! Every function states what it returns over mathematical models of the
//! data (sequences and multisets of cards), and the statements are proved.

pub mod card;
pub mod hand;
pub mod deck;
pub mod strategy;
pub mod stats;
pub mod trace;
pub mod engine;
