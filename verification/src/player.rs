//! A player and the hand of cards that the player holds.

use vstd::prelude::*;

use crate::card::Card;

verus! {

/// A player: a name and a hand, which keeps the order in which the cards
/// came.
#[derive(Debug)]
pub struct Player {
    pub name: String,
    pub hand: Vec<Card>,
}

impl Player {
    /// A player of the given name with an empty hand.
    pub fn new(name: &str) -> (player: Player)
        ensures
            player.name@ == name@,
            player.hand@.len() == 0,
    {
        Player { name: name.to_owned(), hand: Vec::new() }
    }

    /// Adds a card at the end of the hand.
    pub fn draw_card(&mut self, card: Card)
        ensures
            final(self).hand@ == old(self).hand@.push(card),
            final(self).name == old(self).name,
    {
        self.hand.push(card);
    }

    /// Takes the card at position `index` out of the hand; the cards behind
    /// it move up by one. A position outside the hand gives `None` and
    /// leaves the hand as it is.
    pub fn play_card(&mut self, index: usize) -> (card: Option<Card>)
        ensures
            index < old(self).hand@.len() ==> card == Some(old(self).hand@[index as int])
                && final(self).hand@ == old(self).hand@.remove(index as int),
            index >= old(self).hand@.len() ==> card is None
                && final(self).hand@ == old(self).hand@,
            final(self).name == old(self).name,
    {
        if index < self.hand.len() {
            Some(self.hand.remove(index))
        } else {
            None
        }
    }
}

} // verus!
