//! The pile of undrawn cards.

use vstd::prelude::*;

use crate::card::{lemma_canonical_key_injective, Card, Suit, JOKER_RANK};
use crate::random::shuffle_in_place;

verus! {

/// The number of cards in a full deck: thirteen ranks in four suits, and
/// two jokers.
pub const DECK_SIZE: usize = 54;

/// The standard suits in the order in which a new deck holds them.
pub open spec fn standard_suit(k: int) -> Suit {
    if k == 0 {
        Suit::Hearts
    } else if k == 1 {
        Suit::Diamonds
    } else if k == 2 {
        Suit::Clubs
    } else {
        Suit::Spades
    }
}

/// The card at position `i` of a new deck: the suits one after another, each
/// from ace to king, then the black joker and the red joker.
pub open spec fn full_deck_card(i: int) -> Card {
    if i < 52 {
        Card { suit: standard_suit(i / 13), rank: (i % 13 + 1) as u8 }
    } else if i == 52 {
        Card { suit: Suit::BlackJoker, rank: JOKER_RANK }
    } else {
        Card { suit: Suit::RedJoker, rank: JOKER_RANK }
    }
}

/// The cards of a new deck, in construction order.
pub open spec fn full_deck() -> Seq<Card> {
    Seq::new(DECK_SIZE as nat, |i: int| full_deck_card(i))
}

/// The position of a card in a new deck.
pub open spec fn full_deck_index(c: Card) -> int {
    match c.suit {
        Suit::Hearts => c.rank - 1,
        Suit::Diamonds => 13 + c.rank - 1,
        Suit::Clubs => 26 + c.rank - 1,
        Suit::Spades => 39 + c.rank - 1,
        Suit::BlackJoker => 52,
        Suit::RedJoker => 53,
    }
}

/// Whether `cards` can be part of one deck: every card is of a kind that the
/// deck has, and no kind occurs twice.
pub open spec fn is_subdeck(cards: Seq<Card>) -> bool {
    &&& cards.no_duplicates()
    &&& forall|i: int| 0 <= i < cards.len() ==> (#[trigger] cards[i]).in_domain()
}

/// A new deck holds each of the 54 kinds in the domain exactly once: every
/// card in the domain stands at its own position, and nowhere else.
pub proof fn lemma_full_deck()
    ensures
        full_deck().len() == DECK_SIZE,
        is_subdeck(full_deck()),
        forall|c: Card|
            c.in_domain() ==> 0 <= #[trigger] full_deck_index(c) < DECK_SIZE
                && full_deck()[full_deck_index(c)] == c,
        forall|i: int| 0 <= i < DECK_SIZE ==> full_deck_index(#[trigger] full_deck()[i]) == i,
{
    assert forall|i: int| 0 <= i < DECK_SIZE implies full_deck_index(#[trigger] full_deck()[i])
        == i && full_deck()[i].in_domain() by {
        assert(full_deck()[i] == full_deck_card(i));
    }
    assert forall|i: int, j: int|
        0 <= i < DECK_SIZE && 0 <= j < DECK_SIZE && i != j implies full_deck()[i]
        != full_deck()[j] by {
        assert(full_deck_index(full_deck()[i]) == i);
        assert(full_deck_index(full_deck()[j]) == j);
    }
}

/// Cards that are part of one deck stay so in any other order.
pub proof fn lemma_permuted_subdeck(a: Seq<Card>, b: Seq<Card>)
    requires
        is_subdeck(a),
        a.to_multiset() == b.to_multiset(),
    ensures
        is_subdeck(b),
        b.len() == a.len(),
{
    broadcast use vstd::seq_lib::group_to_multiset_ensures;

    a.lemma_multiset_has_no_duplicates();
    b.lemma_multiset_has_no_duplicates_conv();
    assert(a.len() == a.to_multiset().len());
    assert(b.len() == b.to_multiset().len());
    assert forall|i: int| 0 <= i < b.len() implies (#[trigger] b[i]).in_domain() by {
        assert(b.contains(b[i]));
        assert(a.to_multiset().count(b[i]) > 0);
        assert(a.contains(b[i]));
    }
}

/// What the draw after `k` earlier draws gives from a pile of `cards`: the
/// cards come off the end one after another, and then nothing comes.
pub open spec fn nth_draw(cards: Seq<Card>, k: nat) -> Option<Card> {
    if k < cards.len() {
        Some(cards[cards.len() - 1 - k])
    } else {
        None
    }
}

/// Cards that are part of one deck have canonical keys of their own.
pub proof fn lemma_subdeck_keys(cards: Seq<Card>, i: int, j: int)
    requires
        is_subdeck(cards),
        0 <= i < cards.len(),
        0 <= j < cards.len(),
        i != j,
    ensures
        cards[i].canonical_key() != cards[j].canonical_key(),
{
    assert(cards[i].in_domain() && cards[j].in_domain());
    if cards[i].canonical_key() == cards[j].canonical_key() {
        lemma_canonical_key_injective(cards[i], cards[j]);
    }
}

/// A pile that holds the cards of the full deck, in whatever order, gives
/// 54 cards with 54 different canonical keys, and nothing after them.
pub proof fn lemma_fresh_deck_draws(cards: Seq<Card>)
    requires
        cards.to_multiset() == full_deck().to_multiset(),
    ensures
        forall|k: nat| k < DECK_SIZE ==> (#[trigger] nth_draw(cards, k)) is Some,
        forall|k: nat| k >= DECK_SIZE ==> (#[trigger] nth_draw(cards, k)) is None,
        forall|k: nat, l: nat|
            #![trigger nth_draw(cards, k), nth_draw(cards, l)]
            k < DECK_SIZE && l < DECK_SIZE && k != l ==> nth_draw(cards, k)->0.canonical_key()
                != nth_draw(cards, l)->0.canonical_key(),
{
    lemma_full_deck();
    lemma_permuted_subdeck(full_deck(), cards);
    assert forall|k: nat, l: nat|
        #![trigger nth_draw(cards, k), nth_draw(cards, l)]
        k < DECK_SIZE && l < DECK_SIZE && k != l implies nth_draw(cards, k)->0.canonical_key()
        != nth_draw(cards, l)->0.canonical_key() by {
        lemma_subdeck_keys(cards, cards.len() - 1 - k, cards.len() - 1 - l);
    }
}

/// An ordered pile of cards, face down. The last card is the top of the pile.
///
/// A deck never holds a kind twice, nor a card outside the domain.
#[derive(Debug)]
pub struct Deck {
    cards: Vec<Card>,
}

impl View for Deck {
    type V = Seq<Card>;

    /// The cards of the pile, bottom first.
    closed spec fn view(&self) -> Seq<Card> {
        self.cards@
    }
}

impl Deck {
    #[verifier::type_invariant]
    spec fn inv(self) -> bool {
        is_subdeck(self.cards@)
    }

    /// Moves the cards out of the pile, which is left empty until the
    /// caller puts cards back.
    fn take_cards(&mut self) -> (cards: Vec<Card>)
        ensures
            cards@ == old(self).cards@,
            final(self).cards@.len() == 0,
    {
        let mut cards: Vec<Card> = Vec::new();
        std::mem::swap(&mut self.cards, &mut cards);
        cards
    }

    /// The full deck in construction order, unshuffled.
    pub fn new() -> (deck: Deck)
        ensures
            deck@ == full_deck(),
    {
        let mut cards: Vec<Card> = Vec::new();
        let mut s: usize = 0;
        while s < 4
            invariant
                s <= 4,
                cards@.len() == 13 * s,
                forall|k: int| 0 <= k < cards@.len() ==> cards@[k] == full_deck_card(k),
            decreases 4 - s,
        {
            let suit = if s == 0 {
                Suit::Hearts
            } else if s == 1 {
                Suit::Diamonds
            } else if s == 2 {
                Suit::Clubs
            } else {
                Suit::Spades
            };
            let mut rank: u8 = 1;
            while rank <= 13
                invariant
                    s < 4,
                    1 <= rank <= 14,
                    suit == standard_suit(s as int),
                    cards@.len() == 13 * s + rank - 1,
                    forall|k: int| 0 <= k < cards@.len() ==> cards@[k] == full_deck_card(k),
                decreases 14 - rank,
            {
                cards.push(Card::new(suit, rank));
                rank += 1;
            }
            s += 1;
        }
        cards.push(Card::new(Suit::BlackJoker, JOKER_RANK));
        cards.push(Card::new(Suit::RedJoker, JOKER_RANK));
        proof {
            assert(cards@ =~= full_deck());
            lemma_full_deck();
        }
        Deck { cards }
    }

    /// Puts the remaining cards in a random order. The cards stay the same:
    /// each card of the pile is in it afterwards, exactly once.
    pub fn shuffle(&mut self)
        ensures
            final(self)@.to_multiset() == old(self)@.to_multiset(),
            final(self)@.len() == old(self)@.len(),
            is_subdeck(final(self)@),
    {
        proof {
            use_type_invariant(&*self);
        }
        let mut rng = rand::thread_rng();
        let mut cards = self.take_cards();
        shuffle_in_place(&mut cards, &mut rng);
        proof {
            lemma_permuted_subdeck(old(self).cards@, cards@);
        }
        self.cards = cards;
    }

    /// Takes the top card off the pile. An empty pile gives `None` and stays
    /// as it is.
    pub fn draw(&mut self) -> (card: Option<Card>)
        ensures
            old(self)@.len() == 0 ==> card is None && final(self)@ == old(self)@,
            old(self)@.len() > 0 ==> card == Some(old(self)@.last())
                && final(self)@ == old(self)@.drop_last(),
            card == nth_draw(old(self)@, 0),
            forall|k: nat| nth_draw(final(self)@, k) == nth_draw(old(self)@, k + 1),
            card matches Some(c) ==> c.in_domain() && !final(self)@.contains(c),
            is_subdeck(final(self)@),
    {
        proof {
            use_type_invariant(&*self);
        }
        let mut cards = self.take_cards();
        let card = cards.pop();
        self.cards = cards;
        card
    }

    /// The cards of the pile, bottom first: the last one is drawn next.
    pub fn cards(&self) -> (cards: &Vec<Card>)
        ensures
            cards@ == self@,
            is_subdeck(self@),
    {
        proof {
            use_type_invariant(self);
        }
        &self.cards
    }

    /// Whether no card is left.
    pub fn is_empty(&self) -> (empty: bool)
        ensures
            empty == (self@.len() == 0),
    {
        self.cards.is_empty()
    }

    /// The number of cards left, which is never more than [`DECK_SIZE`].
    pub fn len(&self) -> (n: usize)
        ensures
            n == self@.len(),
            is_subdeck(self@),
    {
        proof {
            use_type_invariant(self);
        }
        self.cards.len()
    }
}

} // verus!
