//! A game: the players in seating order, the deck, and whose turn it is.

use vstd::prelude::*;

use crate::card::Card;
use crate::deck::{full_deck, Deck};
use crate::player::Player;

verus! {

/// The cards that the players hold, the hand of the first player first.
pub open spec fn cards_in_hands(players: Seq<Player>) -> Seq<Card>
    decreases players.len(),
{
    if players.len() == 0 {
        Seq::empty()
    } else {
        cards_in_hands(players.drop_last()) + players.last().hand@
    }
}

/// Players with empty hands hold no cards.
pub proof fn lemma_empty_hands(players: Seq<Player>)
    requires
        forall|i: int| 0 <= i < players.len() ==> (#[trigger] players[i]).hand@.len() == 0,
    ensures
        cards_in_hands(players) =~= Seq::<Card>::empty(),
    decreases players.len(),
{
    if players.len() > 0 {
        lemma_empty_hands(players.drop_last());
    }
}

/// The state of a game as contracts see it.
pub struct GameView {
    /// The players in seating order.
    pub players: Seq<Player>,
    /// The undrawn cards, bottom first.
    pub deck: Seq<Card>,
    /// The position of the player whose turn it is.
    pub current_player: int,
    /// The direction of play: `1` in seating order, `-1` against it.
    pub direction: int,
}

impl GameView {
    /// Whether the state is one that a game can be in: the direction is
    /// one of the two, the current position names a player (or is zero
    /// without players), and deck and hands together hold each card of the
    /// full deck exactly once.
    pub open spec fn valid(self) -> bool {
        &&& self.direction == 1 || self.direction == -1
        &&& if self.players.len() == 0 {
            self.current_player == 0
        } else {
            0 <= self.current_player < self.players.len()
        }
        &&& (self.deck + cards_in_hands(self.players)).to_multiset() == full_deck().to_multiset()
    }

    /// The state after the turn has passed on: the position moves by the
    /// direction and wraps around at either end of the seating order.
    /// Without players nothing changes.
    pub open spec fn next_turn(self) -> GameView {
        if self.players.len() == 0 {
            self
        } else {
            let count = self.players.len() as int;
            GameView { current_player: (self.current_player + self.direction) % count, ..self }
        }
    }

    /// The position that the turn passes to, written without a remainder:
    /// one seat on in the direction of play, and round to the other end of
    /// the seating order from either end of it.
    pub open spec fn next_player(self) -> int {
        if self.players.len() == 0 {
            self.current_player
        } else if self.direction == 1 {
            if self.current_player + 1 == self.players.len() {
                0
            } else {
                self.current_player + 1
            }
        } else {
            if self.current_player == 0 {
                self.players.len() - 1
            } else {
                self.current_player - 1
            }
        }
    }

    /// The state after the direction of play has turned round.
    pub open spec fn reverse(self) -> GameView {
        GameView { direction: -self.direction, ..self }
    }

    /// The state after the turn has passed on `k` times.
    pub open spec fn pass_turns(self, k: nat) -> GameView
        decreases k,
    {
        if k == 0 {
            self
        } else {
            self.next_turn().pass_turns((k - 1) as nat)
        }
    }
}

/// Passing the turn keeps a game valid, and the remainder wraps the
/// position round at both ends: one step back from the first player is the
/// last player, one step on from the last player is the first.
pub proof fn lemma_next_turn(v: GameView)
    requires
        v.valid(),
    ensures
        v.next_turn().valid(),
        v.next_turn().current_player == v.next_player(),
{
    let n = v.players.len() as int;
    let c = v.current_player;
    let d = v.direction;
    if n > 0 {
        if 0 <= c + d < n {
            vstd::arithmetic::div_mod::lemma_small_mod((c + d) as nat, n as nat);
        } else if c + d == n {
            vstd::arithmetic::div_mod::lemma_mod_self_0(n);
        } else {
            vstd::arithmetic::div_mod::lemma_mod_multiples_vanish(-1, n - 1, n);
            vstd::arithmetic::div_mod::lemma_small_mod((n - 1) as nat, n as nat);
        }
    }
}

/// After `k` turns the position has moved `k` times the direction, counted
/// round the table.
pub proof fn lemma_pass_turns(v: GameView, k: nat)
    requires
        v.valid(),
        v.players.len() > 0,
    ensures
        v.pass_turns(k).valid(),
        v.pass_turns(k).players == v.players,
        v.pass_turns(k).deck == v.deck,
        v.pass_turns(k).direction == v.direction,
        v.pass_turns(k).current_player == (v.current_player + k * v.direction)
            % (v.players.len() as int),
    decreases k,
{
    let n = v.players.len() as int;
    if k == 0 {
        assert(k * v.direction == 0);
        vstd::arithmetic::div_mod::lemma_small_mod(v.current_player as nat, n as nat);
    } else {
        let w = v.next_turn();
        lemma_pass_turns(w, (k - 1) as nat);
        let c = v.current_player;
        let d = v.direction;
        assert(k * d == d + (k - 1) * d) by (nonlinear_arith);
        vstd::arithmetic::div_mod::lemma_add_mod_noop(c + d, (k - 1) * d, n);
        vstd::arithmetic::div_mod::lemma_mod_twice(c + d, n);
        vstd::arithmetic::div_mod::lemma_add_mod_noop((c + d) % n, (k - 1) * d, n);
    }
}

/// A full round brings the turn back: after as many turns as there are
/// players, in either direction, it is the same player's turn again.
pub proof fn lemma_full_round(v: GameView)
    requires
        v.valid(),
        v.players.len() > 0,
    ensures
        v.pass_turns(v.players.len()) == v,
{
    let n = v.players.len() as int;
    lemma_pass_turns(v, v.players.len());
    vstd::arithmetic::div_mod::lemma_mod_multiples_vanish(v.direction, v.current_player, n);
    vstd::arithmetic::div_mod::lemma_small_mod(v.current_player as nat, n as nat);
    assert(n * v.direction == v.direction * n) by (nonlinear_arith);
}

/// A game in progress.
#[derive(Debug)]
pub struct Game {
    players: Vec<Player>,
    deck: Deck,
    current_player: usize,
    direction: i8,
}

impl View for Game {
    type V = GameView;

    closed spec fn view(&self) -> GameView {
        GameView {
            players: self.players@,
            deck: self.deck@,
            current_player: self.current_player as int,
            direction: self.direction as int,
        }
    }
}

impl Game {
    #[verifier::type_invariant]
    spec fn inv(self) -> bool {
        self@.valid()
    }

    /// A new game: one player for each name, in the order given and with an
    /// empty hand; a full deck, shuffled; the first player to move, in
    /// seating order.
    pub fn new(player_names: Vec<&str>) -> (game: Game)
        ensures
            game@.valid(),
            game@.players.len() == player_names@.len(),
            forall|i: int|
                0 <= i < player_names@.len() ==> (#[trigger] game@.players[i]).name@
                    == player_names@[i]@ && game@.players[i].hand@.len() == 0,
            game@.deck.to_multiset() == full_deck().to_multiset(),
            game@.current_player == 0,
            game@.direction == 1,
    {
        let mut players: Vec<Player> = Vec::new();
        let mut i: usize = 0;
        while i < player_names.len()
            invariant
                i <= player_names@.len(),
                players@.len() == i,
                forall|k: int|
                    0 <= k < i ==> (#[trigger] players@[k]).name@ == player_names@[k]@
                        && players@[k].hand@.len() == 0,
            decreases player_names@.len() - i,
        {
            players.push(Player::new(player_names[i]));
            i += 1;
        }
        let mut deck = Deck::new();
        deck.shuffle();
        proof {
            lemma_empty_hands(players@);
            assert(deck@ + cards_in_hands(players@) =~= deck@);
        }
        Game { players, deck, current_player: 0, direction: 1 }
    }

    /// Deals nothing: the game prescribes no opening deal, so the state
    /// stays as it is.
    pub fn start(&mut self)
        ensures
            final(self)@ == old(self)@,
    {
    }

    /// Passes the turn to the next player in the direction of play.
    pub fn next_turn(&mut self)
        ensures
            final(self)@ == old(self)@.next_turn(),
            final(self)@.current_player == old(self)@.next_player(),
            final(self)@.valid(),
    {
        proof {
            use_type_invariant(&*self);
            lemma_next_turn(self@);
        }
        let count: usize = self.players.len();
        if count > 0 {
            let current: usize = self.current_player;
            let next: usize = if self.direction == 1 {
                if current + 1 == count {
                    0
                } else {
                    current + 1
                }
            } else {
                if current == 0 {
                    count - 1
                } else {
                    current - 1
                }
            };
            self.current_player = next;
        }
    }

    /// Turns the direction of play round.
    pub fn reverse(&mut self)
        ensures
            final(self)@ == old(self)@.reverse(),
            final(self)@.valid(),
    {
        proof {
            use_type_invariant(&*self);
        }
        let turned: i8 = if self.direction == 1 {
            -1
        } else {
            1
        };
        self.direction = turned;
    }

    /// The players in seating order.
    pub fn players(&self) -> (players: &Vec<Player>)
        ensures
            players@ == self@.players,
    {
        &self.players
    }

    /// The deck.
    pub fn deck(&self) -> (deck: &Deck)
        ensures
            deck@ == self@.deck,
    {
        &self.deck
    }

    /// The position of the player whose turn it is.
    pub fn current_player(&self) -> (position: usize)
        ensures
            position == self@.current_player,
            self@.valid(),
    {
        proof {
            use_type_invariant(self);
        }
        self.current_player
    }

    /// The direction of play: `1` in seating order, `-1` against it.
    pub fn direction(&self) -> (direction: i8)
        ensures
            direction == self@.direction,
            direction == 1 || direction == -1,
    {
        proof {
            use_type_invariant(self);
        }
        self.direction
    }
}

} // verus!
