//! The interaction loop as a state machine: one step per frame.
//!
//! A session starts on the start screen. A click on the start button opens
//! the table. On the table a click on the deck pile draws the top card of
//! the deck onto the table, where the drawn cards are laid out in draw order
//! and the card under the pointer is found. Reading the pointer and drawing
//! the frame are the caller's part.

use vstd::prelude::*;

use crate::card::Card;
use crate::deck::{full_deck, is_subdeck, lemma_full_deck, lemma_permuted_subdeck, Deck, DECK_SIZE};
use crate::layout::{deck_pile, deck_pile_rect, layout, Layout, Point, Rect, Viewport};

verus! {

/// Which screen a session shows.
#[derive(Debug, Clone, Copy, PartialEq, Eq, Structural)]
pub enum Screen {
    StartScreen,
    Playing,
}

/// What the caller samples for one frame. `click_pressed` is true only in
/// the frame in which the primary button went down.
#[derive(Debug, Clone, Copy, PartialEq, Eq, Structural)]
pub struct FrameInput {
    pub viewport: Viewport,
    pub pointer: Point,
    pub click_pressed: bool,
}

/// What the caller renders for one frame.
#[derive(Debug)]
pub enum Frame {
    /// The start screen, with the start button highlighted or not.
    Start { button_hovered: bool },
    /// The table: the deck pile, highlighted or not; the card that this
    /// frame's click drew, if any; the drawn cards with their places; and
    /// the position of the drawn card that this frame's click selected.
    Table { deck_hovered: bool, drew: Option<Card>, layout: Layout, selected: Option<usize> },
}

/// The state of a session as contracts see it.
pub struct SessionView {
    pub screen: Screen,
    pub start_button: Rect,
    /// The undrawn cards, bottom first.
    pub deck: Seq<Card>,
    /// The drawn cards, in draw order.
    pub drawn: Seq<Card>,
}

impl SessionView {
    /// Whether deck and table together hold each card of the full deck
    /// exactly once.
    pub open spec fn holds_full_deck(self) -> bool {
        (self.deck + self.drawn).to_multiset() == full_deck().to_multiset()
    }

    /// Whether this frame's click lands on the start button.
    pub open spec fn starts(self, input: FrameInput) -> bool {
        self.screen == Screen::StartScreen && self.start_button.contains(input.pointer)
            && input.click_pressed
    }

    /// Whether this frame's click draws a card: the table is shown, the
    /// click lands on the deck pile, and the deck has a card left.
    pub open spec fn draws(self, input: FrameInput) -> bool {
        self.screen == Screen::Playing && deck_pile().contains(input.pointer)
            && input.click_pressed && self.deck.len() > 0
    }

    /// The state after one frame.
    pub open spec fn advance(self, input: FrameInput) -> SessionView {
        if self.starts(input) {
            SessionView { screen: Screen::Playing, ..self }
        } else if self.draws(input) {
            SessionView {
                deck: self.deck.drop_last(),
                drawn: self.drawn.push(self.deck.last()),
                ..self
            }
        } else {
            self
        }
    }

    /// The state after a run of frames, the first of `inputs` first.
    pub open spec fn run(self, inputs: Seq<FrameInput>) -> SessionView
        decreases inputs.len(),
    {
        if inputs.len() == 0 {
            self
        } else {
            self.advance(inputs.first()).run(inputs.drop_first())
        }
    }

    /// Whether `frame` is what a step from this state with `input` shows,
    /// given the state `next` that the step leads to. The start screen is
    /// shown in the frame whose click leaves it.
    pub open spec fn shows(self, input: FrameInput, next: SessionView, frame: Frame) -> bool {
        match self.screen {
            Screen::StartScreen => frame == (Frame::Start {
                button_hovered: self.start_button.contains(input.pointer),
            }),
            Screen::Playing => {
                &&& frame matches Frame::Table { deck_hovered, drew, layout, selected }
                &&& deck_hovered == deck_pile().contains(input.pointer)
                &&& drew == if self.draws(input) {
                    Some(self.deck.last())
                } else {
                    None
                }
                &&& layout.describes(next.drawn, input.viewport, input.pointer)
                &&& selected == if input.click_pressed {
                    layout.hovered
                } else {
                    None
                }
            },
        }
    }
}

/// Moving the top card of the deck onto the table keeps the cards that deck
/// and table hold together.
pub proof fn lemma_draw_keeps_cards(deck: Seq<Card>, drawn: Seq<Card>)
    requires
        deck.len() > 0,
    ensures
        (deck.drop_last() + drawn.push(deck.last())).to_multiset() == (deck + drawn).to_multiset(),
{
    broadcast use vstd::seq_lib::group_to_multiset_ensures;
    broadcast use vstd::multiset::group_multiset_axioms;

    let top = deck.last();
    let rest = deck.drop_last();
    assert(deck == rest.push(top));
    vstd::seq_lib::lemma_multiset_commutative(rest, drawn.push(top));
    vstd::seq_lib::lemma_multiset_commutative(deck, drawn);
    assert(rest.push(top).to_multiset() == rest.to_multiset().insert(top));
    assert(drawn.push(top).to_multiset() == drawn.to_multiset().insert(top));
    assert((rest + drawn.push(top)).to_multiset() =~= (deck + drawn).to_multiset());
}

/// A step never loses or doubles a card, and never takes a card back from
/// the table: the drawn cards before the step are the first of the drawn
/// cards after it.
pub proof fn lemma_advance(v: SessionView, input: FrameInput)
    requires
        v.holds_full_deck(),
    ensures
        v.advance(input).holds_full_deck(),
        v.advance(input).start_button == v.start_button,
        v.drawn.is_prefix_of(v.advance(input).drawn),
        v.advance(input).drawn.len() <= v.drawn.len() + 1,
{
    if v.draws(input) && !v.starts(input) {
        lemma_draw_keeps_cards(v.deck, v.drawn);
    }
}

/// With the deck empty, no click draws: however many frames follow, the
/// drawn cards and the deck stay as they are.
pub proof fn lemma_empty_deck_stays(v: SessionView, inputs: Seq<FrameInput>)
    requires
        v.deck.len() == 0,
    ensures
        v.run(inputs).drawn == v.drawn,
        v.run(inputs).deck == v.deck,
    decreases inputs.len(),
{
    if inputs.len() > 0 {
        lemma_empty_deck_stays(v.advance(inputs.first()), inputs.drop_first());
    }
}

/// Deck and table that together hold the full deck hold 54 cards, each of a
/// kind of its own.
pub proof fn lemma_full_deck_split(v: SessionView)
    requires
        v.holds_full_deck(),
    ensures
        v.deck.len() + v.drawn.len() == DECK_SIZE,
        is_subdeck(v.deck + v.drawn),
{
    lemma_full_deck();
    lemma_permuted_subdeck(full_deck(), v.deck + v.drawn);
}

/// A running session: the screen shown, the deck, and the cards drawn onto
/// the table.
#[derive(Debug)]
pub struct Session {
    screen: Screen,
    start_button: Rect,
    deck: Deck,
    drawn: Vec<Card>,
}

impl View for Session {
    type V = SessionView;

    closed spec fn view(&self) -> SessionView {
        SessionView {
            screen: self.screen,
            start_button: self.start_button,
            deck: self.deck@,
            drawn: self.drawn@,
        }
    }
}

impl Session {
    #[verifier::type_invariant]
    spec fn inv(self) -> bool {
        self@.holds_full_deck()
    }

    /// A session on the start screen, with a freshly shuffled full deck and
    /// nothing drawn. `start_button` is the region of the start button.
    pub fn new(start_button: Rect) -> (session: Session)
        ensures
            session@.screen == Screen::StartScreen,
            session@.start_button == start_button,
            session@.drawn.len() == 0,
            session@.deck.to_multiset() == full_deck().to_multiset(),
            session@.deck.len() == DECK_SIZE,
            session@.holds_full_deck(),
    {
        let mut deck = Deck::new();
        deck.shuffle();
        let drawn: Vec<Card> = Vec::new();
        proof {
            assert(deck@ + drawn@ =~= deck@);
            lemma_full_deck();
        }
        Session { screen: Screen::StartScreen, start_button, deck, drawn }
    }

    /// Runs one frame: takes the state and what was sampled, and gives the
    /// next state and what to render.
    pub fn step(self, input: FrameInput) -> (next: (Session, Frame))
        ensures
            next.0@ == self@.advance(input),
            self@.shows(input, next.0@, next.1),
            self@.holds_full_deck(),
            next.0@.holds_full_deck(),
            self@.deck.len() + self@.drawn.len() == DECK_SIZE,
    {
        proof {
            use_type_invariant(&self);
            lemma_advance(self@, input);
            lemma_full_deck_split(self@);
            lemma_full_deck_split(self@.advance(input));
        }
        let Session { screen, start_button, mut deck, mut drawn } = self;
        match screen {
            Screen::StartScreen => {
                let button_hovered = start_button.contains(input.pointer);
                let screen = if button_hovered && input.click_pressed {
                    Screen::Playing
                } else {
                    Screen::StartScreen
                };
                (Session { screen, start_button, deck, drawn }, Frame::Start { button_hovered })
            },
            Screen::Playing => {
                let deck_hovered = deck_pile_rect().contains(input.pointer);
                let mut drew: Option<Card> = None;
                if deck_hovered && input.click_pressed {
                    drew = deck.draw();
                    if let Some(card) = drew {
                        drawn.push(card);
                    }
                }
                let layout = layout(&drawn, input.viewport, input.pointer);
                let selected = if input.click_pressed {
                    layout.hovered
                } else {
                    None
                };
                (
                    Session { screen, start_button, deck, drawn },
                    Frame::Table { deck_hovered, drew, layout, selected },
                )
            },
        }
    }

    /// The screen that the next frame shows.
    pub fn screen(&self) -> (screen: Screen)
        ensures
            screen == self@.screen,
    {
        self.screen
    }

    /// The cards drawn so far, in draw order.
    pub fn drawn_cards(&self) -> (cards: &Vec<Card>)
        ensures
            cards@ == self@.drawn,
            self@.holds_full_deck(),
    {
        proof {
            use_type_invariant(self);
        }
        &self.drawn
    }

    /// The number of cards left in the deck.
    pub fn cards_left(&self) -> (n: usize)
        ensures
            n == self@.deck.len(),
            n + self@.drawn.len() == DECK_SIZE,
    {
        proof {
            use_type_invariant(self);
            lemma_full_deck_split(self@);
        }
        self.deck.len()
    }
}

} // verus!
