use card_game::card::Card;
use card_game::deck::Deck;
use card_game::layout::{card_rect, Point, Rect, Viewport};
use card_game::session::{Frame, FrameInput, Screen, Session};

const VP: Viewport = Viewport { width: 800, height: 600 };
const BUTTON: Rect = Rect { x: 300, y: 300, w: 200, h: 50 };
const ON_BUTTON: Point = Point { x: 400, y: 325 };
const ON_DECK: Point = Point { x: 100, y: 300 };
const NOWHERE: Point = Point { x: 700, y: 100 };

fn input(pointer: Point, click_pressed: bool) -> FrameInput {
    FrameInput { viewport: VP, pointer, click_pressed }
}

fn playing() -> Session {
    let session = Session::new(BUTTON);
    let (session, _) = session.step(input(ON_BUTTON, true));
    assert_eq!(session.screen(), Screen::Playing);
    session
}

fn sorted_keys(cards: &[Card]) -> Vec<String> {
    let mut keys: Vec<String> = cards.iter().map(|c| c.name()).collect();
    keys.sort();
    keys
}

#[test]
fn session_starts_on_the_start_screen() {
    let session = Session::new(BUTTON);
    assert_eq!(session.screen(), Screen::StartScreen);
    assert!(session.drawn_cards().is_empty());
    assert_eq!(session.cards_left(), 54);
}

#[test]
fn start_needs_hover_and_click_in_one_frame() {
    let session = Session::new(BUTTON);
    let (session, frame) = session.step(input(NOWHERE, false));
    assert!(matches!(frame, Frame::Start { button_hovered: false }));
    assert_eq!(session.screen(), Screen::StartScreen);
    let (session, frame) = session.step(input(NOWHERE, true));
    assert!(matches!(frame, Frame::Start { button_hovered: false }));
    assert_eq!(session.screen(), Screen::StartScreen);
    let (session, frame) = session.step(input(ON_BUTTON, false));
    assert!(matches!(frame, Frame::Start { button_hovered: true }));
    assert_eq!(session.screen(), Screen::StartScreen);
    let (session, frame) = session.step(input(Point { x: 300, y: 325 }, true));
    assert!(matches!(frame, Frame::Start { button_hovered: false }));
    assert_eq!(session.screen(), Screen::StartScreen);
    let (session, frame) = session.step(input(ON_BUTTON, true));
    assert!(matches!(frame, Frame::Start { button_hovered: true }));
    assert_eq!(session.screen(), Screen::Playing);
    assert!(session.drawn_cards().is_empty());
    assert_eq!(session.cards_left(), 54);
}

#[test]
fn clicks_on_the_deck_do_nothing_on_the_start_screen() {
    let session = Session::new(BUTTON);
    let (session, frame) = session.step(input(ON_DECK, true));
    assert!(matches!(frame, Frame::Start { button_hovered: false }));
    assert_eq!(session.screen(), Screen::StartScreen);
    assert_eq!(session.cards_left(), 54);
    assert!(session.drawn_cards().is_empty());
}

#[test]
fn the_table_never_goes_back_to_the_start_screen() {
    let mut session = playing();
    for click in [false, true, true, false] {
        let (next, frame) = session.step(input(ON_BUTTON, click));
        assert!(matches!(frame, Frame::Table { .. }));
        assert_eq!(next.screen(), Screen::Playing);
        session = next;
    }
    assert!(session.drawn_cards().is_empty());
}

#[test]
fn click_on_the_deck_draws_one_card() {
    let session = playing();
    let (session, frame) = session.step(input(ON_DECK, true));
    match frame {
        Frame::Table { deck_hovered, drew, layout, selected } => {
            assert!(deck_hovered);
            let card = drew.expect("a card was drawn");
            assert_eq!(session.drawn_cards(), &vec![card]);
            assert_eq!(layout.placements.len(), 1);
            assert_eq!(layout.placements[0].card, card);
            assert_eq!(layout.placements[0].rect, card_rect(VP, 0));
            assert!(!layout.placements[0].highlighted);
            assert_eq!(layout.hovered, None);
            assert_eq!(selected, None);
        }
        Frame::Start { .. } => panic!("the table was expected"),
    }
    assert_eq!(session.cards_left(), 53);
}

#[test]
fn hover_without_click_draws_nothing() {
    let session = playing();
    let (session, frame) = session.step(input(ON_DECK, false));
    match frame {
        Frame::Table { deck_hovered, drew, layout, selected } => {
            assert!(deck_hovered);
            assert_eq!(drew, None);
            assert!(layout.placements.is_empty());
            assert_eq!(selected, None);
        }
        Frame::Start { .. } => panic!("the table was expected"),
    }
    assert_eq!(session.cards_left(), 54);
    let (session, frame) = session.step(input(NOWHERE, true));
    match frame {
        Frame::Table { deck_hovered, drew, .. } => {
            assert!(!deck_hovered);
            assert_eq!(drew, None);
        }
        Frame::Start { .. } => panic!("the table was expected"),
    }
    assert_eq!(session.cards_left(), 54);
    assert!(session.drawn_cards().is_empty());
}

#[test]
fn drawn_cards_grow_in_draw_order() {
    let mut session = playing();
    let mut seen: Vec<Card> = Vec::new();
    for n in 1..=54usize {
        let (next, frame) = session.step(input(ON_DECK, true));
        match frame {
            Frame::Table { drew, layout, .. } => {
                seen.push(drew.expect("a card was drawn"));
                assert_eq!(layout.placements.len(), n);
                for (i, placement) in layout.placements.iter().enumerate() {
                    assert_eq!(placement.card, seen[i]);
                    assert_eq!(placement.rect, card_rect(VP, i));
                }
            }
            Frame::Start { .. } => panic!("the table was expected"),
        }
        assert_eq!(next.drawn_cards(), &seen);
        assert_eq!(next.cards_left(), 54 - n);
        session = next;
    }
    let fresh = Deck::new();
    assert_eq!(sorted_keys(&seen), sorted_keys(fresh.cards()));
}

#[test]
fn clicks_on_an_empty_deck_change_nothing() {
    let mut session = playing();
    for _ in 0..54 {
        session = session.step(input(ON_DECK, true)).0;
    }
    assert_eq!(session.cards_left(), 0);
    let drawn: Vec<Card> = session.drawn_cards().clone();
    assert_eq!(drawn.len(), 54);
    for _ in 0..10 {
        let (next, frame) = session.step(input(ON_DECK, true));
        match frame {
            Frame::Table { deck_hovered, drew, layout, .. } => {
                assert!(deck_hovered);
                assert_eq!(drew, None);
                assert_eq!(layout.placements.len(), 54);
            }
            Frame::Start { .. } => panic!("the table was expected"),
        }
        assert_eq!(next.drawn_cards(), &drawn);
        assert_eq!(next.cards_left(), 0);
        assert_eq!(next.screen(), Screen::Playing);
        session = next;
    }
}

#[test]
fn click_on_a_drawn_card_selects_the_topmost() {
    let mut session = playing();
    for _ in 0..8 {
        session = session.step(input(ON_DECK, true)).0;
    }
    let overlap = Point { x: 110, y: 460 };
    let (session, frame) = session.step(input(overlap, false));
    match frame {
        Frame::Table { deck_hovered, drew, layout, selected } => {
            assert!(!deck_hovered);
            assert_eq!(drew, None);
            assert_eq!(layout.hovered, Some(7));
            assert_eq!(selected, None);
            for (i, placement) in layout.placements.iter().enumerate() {
                assert_eq!(placement.highlighted, i == 7);
            }
        }
        Frame::Start { .. } => panic!("the table was expected"),
    }
    let (session, frame) = session.step(input(overlap, true));
    match frame {
        Frame::Table { drew, layout, selected, .. } => {
            assert_eq!(drew, None);
            assert_eq!(layout.hovered, Some(7));
            assert_eq!(selected, Some(7));
        }
        Frame::Start { .. } => panic!("the table was expected"),
    }
    assert_eq!(session.drawn_cards().len(), 8);
    let (_, frame) = session.step(input(Point { x: 60, y: 440 }, true));
    match frame {
        Frame::Table { selected, .. } => assert_eq!(selected, Some(0)),
        Frame::Start { .. } => panic!("the table was expected"),
    }
}

#[test]
fn pointer_outside_the_viewport_hovers_nothing() {
    let mut session = playing();
    for _ in 0..10 {
        session = session.step(input(ON_DECK, true)).0;
    }
    for pointer in [Point { x: -5, y: -5 }, Point { x: 5000, y: 5000 }] {
        let (next, frame) = session.step(input(pointer, true));
        match frame {
            Frame::Table { deck_hovered, drew, layout, selected } => {
                assert!(!deck_hovered);
                assert_eq!(drew, None);
                assert_eq!(layout.hovered, None);
                assert_eq!(selected, None);
                assert!(layout.placements.iter().all(|p| !p.highlighted));
            }
            Frame::Start { .. } => panic!("the table was expected"),
        }
        assert_eq!(next.drawn_cards().len(), 10);
        session = next;
    }
}

#[test]
fn a_click_can_draw_and_select_at_once() {
    let low = Viewport { width: 800, height: 450 };
    let pointer = Point { x: 100, y: 350 };
    let session = playing();
    let (session, frame) =
        session.step(FrameInput { viewport: low, pointer, click_pressed: true });
    match frame {
        Frame::Table { deck_hovered, drew, layout, selected } => {
            assert!(deck_hovered);
            assert!(drew.is_some());
            assert_eq!(layout.placements[0].rect, Rect { x: 50, y: 310, w: 80, h: 90 });
            assert_eq!(layout.hovered, Some(0));
            assert_eq!(selected, Some(0));
        }
        Frame::Start { .. } => panic!("the table was expected"),
    }
    assert_eq!(session.drawn_cards().len(), 1);
}

#[test]
fn sessions_are_shuffled() {
    let fresh = Deck::new();
    let mut expected: Vec<Card> = fresh.cards().clone();
    expected.reverse();
    let mut changed = false;
    for _ in 0..5 {
        let mut session = playing();
        for _ in 0..54 {
            session = session.step(input(ON_DECK, true)).0;
        }
        if session.drawn_cards() != &expected {
            changed = true;
        }
    }
    assert!(changed);
}
