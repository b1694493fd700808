use card_game::card::{Card, Suit, JOKER_RANK};
use card_game::deck::Deck;

#[test]
fn key_joins_rank_and_suit() {
    assert_eq!(Card::new(Suit::Spades, 11).name(), "jack_spades");
    assert_eq!(Card::new(Suit::Hearts, 1).name(), "ace_hearts");
    assert_eq!(Card::new(Suit::Hearts, 12).name(), "queen_hearts");
    assert_eq!(Card::new(Suit::Clubs, 13).name(), "king_clubs");
    assert_eq!(Card::new(Suit::Diamonds, 2).name(), "2_diamonds");
    assert_eq!(Card::new(Suit::Clubs, 10).name(), "10_clubs");
    assert_eq!(Card::new(Suit::Diamonds, 9).name(), "9_diamonds");
}

#[test]
fn court_cards_are_spelled_out() {
    for suit in [Suit::Hearts, Suit::Diamonds, Suit::Clubs, Suit::Spades] {
        let tail = format!("_{}", suit.name());
        assert_eq!(Card::new(suit, 1).name(), format!("ace{}", tail));
        assert_eq!(Card::new(suit, 11).name(), format!("jack{}", tail));
        assert_eq!(Card::new(suit, 12).name(), format!("queen{}", tail));
        assert_eq!(Card::new(suit, 13).name(), format!("king{}", tail));
    }
}

#[test]
fn joker_keys() {
    assert_eq!(Card::new(Suit::RedJoker, JOKER_RANK).name(), "red_joker");
    assert_eq!(Card::new(Suit::BlackJoker, JOKER_RANK).name(), "black_joker");
    assert_eq!(JOKER_RANK, 14);
}

#[test]
fn numbered_ranks_are_written_in_decimal() {
    for rank in 2u8..=10 {
        let key = Card::new(Suit::Hearts, rank).name();
        assert_eq!(key, format!("{}_hearts", rank));
    }
}

#[test]
fn ranks_outside_the_domain_are_written_in_decimal() {
    assert_eq!(Card::new(Suit::Hearts, 0).name(), "0_hearts");
    assert_eq!(Card::new(Suit::Hearts, 14).name(), "14_hearts");
    assert_eq!(Card::new(Suit::Clubs, 100).name(), "100_clubs");
    assert_eq!(Card::new(Suit::Spades, 109).name(), "109_spades");
    assert_eq!(Card::new(Suit::Spades, 200).name(), "200_spades");
    assert_eq!(Card::new(Suit::Diamonds, 255).name(), "255_diamonds");
    for rank in 0u8..=255 {
        if rank != 1 && rank != 11 && rank != 12 && rank != 13 {
            assert_eq!(Card::new(Suit::Clubs, rank).name(), format!("{}_clubs", rank));
        }
    }
}

#[test]
fn suit_names() {
    assert_eq!(Suit::Hearts.name(), "hearts");
    assert_eq!(Suit::Diamonds.name(), "diamonds");
    assert_eq!(Suit::Clubs.name(), "clubs");
    assert_eq!(Suit::Spades.name(), "spades");
    assert_eq!(Suit::BlackJoker.name(), "black_joker");
    assert_eq!(Suit::RedJoker.name(), "red_joker");
}

#[test]
fn jokers_are_told_from_standard_suits() {
    assert!(Suit::BlackJoker.is_joker());
    assert!(Suit::RedJoker.is_joker());
    assert!(!Suit::Hearts.is_joker());
    assert!(!Suit::Diamonds.is_joker());
    assert!(!Suit::Clubs.is_joker());
    assert!(!Suit::Spades.is_joker());
}

#[test]
fn new_keeps_suit_and_rank() {
    let card = Card::new(Suit::Clubs, 7);
    assert_eq!(card.suit, Suit::Clubs);
    assert_eq!(card.rank, 7);
    assert_eq!(card, Card { suit: Suit::Clubs, rank: 7 });
    assert_ne!(card, Card::new(Suit::Clubs, 8));
    assert_ne!(card, Card::new(Suit::Spades, 7));
}

#[test]
fn keys_of_the_54_kinds_do_not_collide() {
    let deck = Deck::new();
    let cards = deck.cards();
    assert_eq!(cards.len(), 54);
    for i in 0..cards.len() {
        for j in 0..cards.len() {
            if i != j {
                assert_ne!(cards[i].name(), cards[j].name());
            }
        }
    }
}

#[test]
fn keys_of_standard_cards_differ_for_every_rank() {
    let mut keys: Vec<String> = Vec::new();
    for suit in [Suit::Hearts, Suit::Diamonds, Suit::Clubs, Suit::Spades] {
        for rank in 0u8..=255 {
            keys.push(Card::new(suit, rank).name());
        }
    }
    let total = keys.len();
    keys.sort();
    keys.dedup();
    assert_eq!(keys.len(), total);
}
