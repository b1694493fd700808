//! A deck-and-table model for card games: cards with stable asset keys, a
//! 54-card deck, players and turn rotation, and the per-frame layout and
//! hover resolution of the cards drawn onto the table.

pub mod card;
pub mod deck;
pub mod game;
pub mod layout;
pub mod player;
mod random;
pub mod session;
