//! Suits, cards and the canonical key that names a card's kind.

use vstd::prelude::*;
use vstd::string::StringExecFns;

verus! {

/// The rank that both jokers carry.
pub const JOKER_RANK: u8 = 14;

/// The four standard suits and the two joker pseudo-suits.
#[derive(Debug, Clone, Copy, PartialEq, Eq, Structural, Hash)]
pub enum Suit {
    Hearts,
    Diamonds,
    Clubs,
    Spades,
    BlackJoker,
    RedJoker,
}

impl Suit {
    /// Whether this is one of the two joker pseudo-suits.
    pub open spec fn is_joker_spec(self) -> bool {
        self == Suit::BlackJoker || self == Suit::RedJoker
    }

    /// The lowercase name of the suit, as card keys spell it.
    pub open spec fn name_spec(self) -> Seq<char> {
        match self {
            Suit::Hearts => "hearts"@,
            Suit::Diamonds => "diamonds"@,
            Suit::Clubs => "clubs"@,
            Suit::Spades => "spades"@,
            Suit::BlackJoker => "black_joker"@,
            Suit::RedJoker => "red_joker"@,
        }
    }

    /// The lowercase name of the suit, as card keys spell it.
    pub fn name(self) -> (name: &'static str)
        ensures
            name@ == self.name_spec(),
    {
        match self {
            Suit::Hearts => "hearts",
            Suit::Diamonds => "diamonds",
            Suit::Clubs => "clubs",
            Suit::Spades => "spades",
            Suit::BlackJoker => "black_joker",
            Suit::RedJoker => "red_joker",
        }
    }

    /// Whether this is one of the two joker pseudo-suits.
    #[verifier::when_used_as_spec(is_joker_spec)]
    pub fn is_joker(self) -> (b: bool)
        ensures
            b == self.is_joker_spec(),
    {
        match self {
            Suit::BlackJoker | Suit::RedJoker => true,
            _ => false,
        }
    }
}

/// The character of a decimal digit.
pub open spec fn digit_char(d: int) -> char {
    if d == 0 {
        '0'
    } else if d == 1 {
        '1'
    } else if d == 2 {
        '2'
    } else if d == 3 {
        '3'
    } else if d == 4 {
        '4'
    } else if d == 5 {
        '5'
    } else if d == 6 {
        '6'
    } else if d == 7 {
        '7'
    } else if d == 8 {
        '8'
    } else {
        '9'
    }
}

/// The decimal digits of `n`, most significant first, without leading zeros.
pub open spec fn decimal(n: nat) -> Seq<char>
    decreases n,
{
    if n < 10 {
        seq![digit_char(n as int)]
    } else {
        decimal(n / 10).push(digit_char((n % 10) as int))
    }
}

/// The name of a rank in a card key: a word for ace and the court cards,
/// the decimal number for every other rank.
pub open spec fn rank_name(rank: u8) -> Seq<char> {
    if rank == 1 {
        "ace"@
    } else if rank == 11 {
        "jack"@
    } else if rank == 12 {
        "queen"@
    } else if rank == 13 {
        "king"@
    } else {
        decimal(rank as nat)
    }
}

/// The one-character string of a decimal digit.
fn digit_str(d: u8) -> (s: &'static str)
    requires
        d < 10,
    ensures
        s@ == seq![digit_char(d as int)],
{
    proof {
        reveal_strlit("0");
        reveal_strlit("1");
        reveal_strlit("2");
        reveal_strlit("3");
        reveal_strlit("4");
        reveal_strlit("5");
        reveal_strlit("6");
        reveal_strlit("7");
        reveal_strlit("8");
        reveal_strlit("9");
    }
    let s = match d {
        0 => "0",
        1 => "1",
        2 => "2",
        3 => "3",
        4 => "4",
        5 => "5",
        6 => "6",
        7 => "7",
        8 => "8",
        _ => "9",
    };
    assert(s@ =~= seq![digit_char(d as int)]);
    s
}

/// Writes `n` in decimal.
fn decimal_string(n: u8) -> (s: String)
    ensures
        s@ == decimal(n as nat),
{
    reveal_with_fuel(decimal, 3);
    if n < 10 {
        digit_str(n).to_owned()
    } else if n < 100 {
        let mut s = digit_str(n / 10).to_owned();
        s.append(digit_str(n % 10));
        assert(s@ =~= decimal(n as nat));
        s
    } else {
        let mut s = digit_str(n / 100).to_owned();
        s.append(digit_str(n / 10 % 10));
        s.append(digit_str(n % 10));
        assert(s@ =~= decimal(n as nat));
        s
    }
}

/// A card kind: a suit and a rank.
///
/// Ranks run from 1 (ace) to 13 (king) in the standard suits; both jokers
/// carry [`JOKER_RANK`].
#[derive(Debug, Clone, Copy, PartialEq, Eq, Structural, Hash)]
pub struct Card {
    pub suit: Suit,
    pub rank: u8,
}

impl Card {
    /// Whether the rank lies in the range that the suit allows.
    pub open spec fn in_domain(self) -> bool {
        if self.suit.is_joker() {
            self.rank == JOKER_RANK
        } else {
            1 <= self.rank <= 13
        }
    }

    /// Builds a card from its parts, without checking the rank.
    pub fn new(suit: Suit, rank: u8) -> (card: Card)
        ensures
            card.suit == suit,
            card.rank == rank,
    {
        Card { suit, rank }
    }


    /// The canonical key of the card's kind, by which other parts of a
    /// program look up what belongs to the card: the name of the rank, an
    /// underscore, and the name of the suit, as in `jack_spades`. A joker's
    /// key is the name of its suit alone.
    pub open spec fn canonical_key(self) -> Seq<char> {
        if self.suit.is_joker() {
            self.suit.name_spec()
        } else {
            rank_name(self.rank) + "_"@ + self.suit.name_spec()
        }
    }

    /// The canonical key of the card's kind.
    pub fn name(&self) -> (key: String)
        ensures
            key@ == self.canonical_key(),
    {
        if self.suit.is_joker() {
            self.suit.name().to_owned()
        } else {
            let mut key = match self.rank {
                1 => "ace".to_owned(),
                11 => "jack".to_owned(),
                12 => "queen".to_owned(),
                13 => "king".to_owned(),
                _ => decimal_string(self.rank),
            };
            key.append("_");
            key.append(self.suit.name());
            key
        }
    }
}

/// Whether `c` is one of the ten decimal digits.
spec fn is_digit(c: char) -> bool {
    exists|d: int| 0 <= d <= 9 && c == digit_char(d)
}

/// Whether `s` is free of the underscore that separates rank and suit.
spec fn no_underscore(s: Seq<char>) -> bool {
    forall|i: int| 0 <= i < s.len() ==> s[i] != '_'
}

/// A decimal number has at least one character, and digits only.
proof fn lemma_decimal_digits(n: nat)
    ensures
        decimal(n).len() >= 1,
        forall|i: int| 0 <= i < decimal(n).len() ==> is_digit(#[trigger] decimal(n)[i]),
    decreases n,
{
    if n < 10 {
        assert(is_digit(digit_char(n as int)));
    } else {
        lemma_decimal_digits(n / 10);
        assert(is_digit(digit_char((n % 10) as int)));
    }
}

/// Different numbers are written differently.
proof fn lemma_decimal_injective(a: nat, b: nat)
    requires
        decimal(a) == decimal(b),
    ensures
        a == b,
    decreases a,
{
    lemma_decimal_digits(a / 10);
    lemma_decimal_digits(b / 10);
    if a < 10 && b < 10 {
        assert(decimal(a)[0] == digit_char(a as int));
        assert(decimal(b)[0] == digit_char(b as int));
    } else if a < 10 {
        assert(decimal(a).len() == 1);
        assert(decimal(b).len() == decimal(b / 10).len() + 1);
    } else if b < 10 {
        assert(decimal(b).len() == 1);
        assert(decimal(a).len() == decimal(a / 10).len() + 1);
    } else {
        let da = decimal(a / 10);
        let db = decimal(b / 10);
        assert(decimal(a) == da.push(digit_char((a % 10) as int)));
        assert(decimal(b) == db.push(digit_char((b % 10) as int)));
        assert(decimal(a).last() == digit_char((a % 10) as int));
        assert(decimal(b).last() == digit_char((b % 10) as int));
        assert(da =~= decimal(a).drop_last());
        assert(db =~= decimal(b).drop_last());
        lemma_decimal_injective(a / 10, b / 10);
    }
}

/// Different ranks have different names, and no name holds an underscore.
proof fn lemma_rank_names(a: u8, b: u8)
    ensures
        no_underscore(rank_name(a)),
        rank_name(a).len() >= 1,
        rank_name(a) == rank_name(b) ==> a == b,
{
    reveal_strlit("ace");
    reveal_strlit("jack");
    reveal_strlit("queen");
    reveal_strlit("king");
    lemma_decimal_digits(a as nat);
    lemma_decimal_digits(b as nat);
    assert(is_digit(decimal(a as nat)[0]));
    assert(is_digit(decimal(b as nat)[0]));
    assert forall|i: int| 0 <= i < rank_name(a).len() implies rank_name(a)[i] != '_' by {
        if a != 1 && a != 11 && a != 12 && a != 13 {
            assert(is_digit(decimal(a as nat)[i]));
        }
    }
    if rank_name(a) == rank_name(b) {
        assert(rank_name(a)[0] == rank_name(b)[0]);
        assert(rank_name(a).len() == rank_name(b).len());
        let a_word = a == 1 || a == 11 || a == 12 || a == 13;
        let b_word = b == 1 || b == 11 || b == 12 || b == 13;
        if !a_word && !b_word {
            lemma_decimal_injective(a as nat, b as nat);
        }
    }
}

/// Different suits have different names; the names of the standard suits
/// end in `s` and hold no underscore, those of the jokers end in `r`.
proof fn lemma_suit_names(a: Suit, b: Suit)
    ensures
        a.name_spec().len() >= 5,
        !a.is_joker() ==> no_underscore(a.name_spec()) && a.name_spec().last() == 's',
        a.is_joker() ==> a.name_spec().last() == 'r',
        a.name_spec() == b.name_spec() ==> a == b,
{
    reveal_strlit("hearts");
    reveal_strlit("diamonds");
    reveal_strlit("clubs");
    reveal_strlit("spades");
    reveal_strlit("black_joker");
    reveal_strlit("red_joker");
    if a.name_spec() == b.name_spec() {
        assert(a.name_spec().len() == b.name_spec().len());
        assert(a.name_spec()[0] == b.name_spec()[0]);
    }
}

/// A key of the form rank, underscore, suit can be read in one way only.
proof fn lemma_split_at_underscore(
    r1: Seq<char>,
    s1: Seq<char>,
    r2: Seq<char>,
    s2: Seq<char>,
)
    requires
        no_underscore(r1),
        no_underscore(r2),
        r1 + seq!['_'] + s1 == r2 + seq!['_'] + s2,
    ensures
        r1 == r2,
        s1 == s2,
{
    let k1 = r1 + seq!['_'] + s1;
    let k2 = r2 + seq!['_'] + s2;
    assert(k1[r1.len() as int] == '_');
    assert(k2[r2.len() as int] == '_');
    if r1.len() < r2.len() {
        assert(k2[r1.len() as int] == r2[r1.len() as int]);
    }
    if r2.len() < r1.len() {
        assert(k1[r2.len() as int] == r1[r2.len() as int]);
    }
    assert(k1.len() == k2.len());
    assert(r1 =~= k1.subrange(0, r1.len() as int));
    assert(r2 =~= k2.subrange(0, r2.len() as int));
    assert(s1 =~= k1.subrange(r1.len() as int + 1, k1.len() as int));
    assert(s2 =~= k2.subrange(r2.len() as int + 1, k2.len() as int));
}

/// The canonical key tells the kinds apart: cards with the same key have
/// the same suit, and unless they are jokers the same rank. So among the
/// cards of the domain, where a joker has one rank only, no two kinds share
/// a key.
pub proof fn lemma_canonical_key_injective(a: Card, b: Card)
    requires
        a.canonical_key() == b.canonical_key(),
    ensures
        a.suit == b.suit,
        !a.suit.is_joker() ==> a.rank == b.rank,
        a.in_domain() && b.in_domain() ==> a == b,
{
    reveal_strlit("_");
    assert("_"@ =~= seq!['_']);
    lemma_suit_names(a.suit, b.suit);
    lemma_suit_names(b.suit, a.suit);
    lemma_rank_names(a.rank, b.rank);
    lemma_rank_names(b.rank, a.rank);
    assert(a.canonical_key().last() == b.canonical_key().last());
    if !a.suit.is_joker() {
        assert(a.canonical_key().last() == a.suit.name_spec().last());
    }
    if !b.suit.is_joker() {
        assert(b.canonical_key().last() == b.suit.name_spec().last());
    }
    if !a.suit.is_joker() && !b.suit.is_joker() {
        lemma_split_at_underscore(
            rank_name(a.rank),
            a.suit.name_spec(),
            rank_name(b.rank),
            b.suit.name_spec(),
        );
    }
}

/// Ace, jack, queen and king are spelled out in a key, not numbered.
pub proof fn lemma_court_names()
    ensures
        rank_name(1) == "ace"@ && rank_name(1) != decimal(1),
        rank_name(11) == "jack"@ && rank_name(11) != decimal(11),
        rank_name(12) == "queen"@ && rank_name(12) != decimal(12),
        rank_name(13) == "king"@ && rank_name(13) != decimal(13),
{
    reveal_strlit("ace");
    reveal_strlit("jack");
    reveal_strlit("queen");
    reveal_strlit("king");
    lemma_decimal_digits(1);
    lemma_decimal_digits(11);
    lemma_decimal_digits(12);
    lemma_decimal_digits(13);
    assert(is_digit(decimal(1)[0]));
    assert(is_digit(decimal(11)[0]));
    assert(is_digit(decimal(12)[0]));
    assert(is_digit(decimal(13)[0]));
}

} // verus!
