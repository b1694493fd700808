//! Where the drawn cards sit on the screen, and which of them the pointer is on.
//!
//! The first seven cards form a base row along the bottom of the viewport.
//! Later cards wrap into further rows of seven, each row a little lower than
//! the one before and every other row shifted to the right, so that the rows
//! overlap like a fanned stack. Cards drawn later lie on top of earlier ones.

use vstd::prelude::*;

use crate::card::Card;

verus! {

/// How many cards one row holds.
pub const CARDS_PER_ROW: usize = 7;

/// Distance of the first column from the left edge, and of the base row from
/// the bottom edge.
pub const MARGIN: i64 = 50;

/// Horizontal gap between neighbouring cards, and vertical step between rows.
pub const GAP: i64 = 20;

/// Extra shift to the right of every odd row.
pub const ROW_SHIFT: i64 = 50;

/// The largest number of cards that can be laid out: with it every
/// coordinate fits the fields of a [`Rect`].
pub const MAX_CARDS: usize = 0xFFFF_FFFF;

/// The size of the drawing area, in pixels.
#[derive(Debug, Clone, Copy, PartialEq, Eq, Structural)]
pub struct Viewport {
    pub width: u32,
    pub height: u32,
}

/// A pointer position, in pixels from the top left corner of the viewport.
#[derive(Debug, Clone, Copy, PartialEq, Eq, Structural)]
pub struct Point {
    pub x: i32,
    pub y: i32,
}

/// An axis-aligned rectangle on the screen.
#[derive(Debug, Clone, Copy, PartialEq, Eq, Structural)]
pub struct Rect {
    pub x: i64,
    pub y: i64,
    pub w: i64,
    pub h: i64,
}

impl Rect {
    /// Whether `p` lies strictly inside the rectangle: a point on the border
    /// is outside.
    pub open spec fn contains_spec(self, p: Point) -> bool {
        &&& self.x < p.x < self.x + self.w
        &&& self.y < p.y < self.y + self.h
    }

    /// Whether `p` lies strictly inside the rectangle.
    #[verifier::when_used_as_spec(contains_spec)]
    pub fn contains(self, p: Point) -> (inside: bool)
        ensures
            inside == self.contains_spec(p),
    {
        let dx: i128 = p.x as i128 - self.x as i128;
        let dy: i128 = p.y as i128 - self.y as i128;
        0 < dx && dx < self.w as i128 && 0 < dy && dy < self.h as i128
    }
}

/// The region of the deck pile, which has a fixed place and size whatever
/// the viewport and the drawn cards are.
pub open spec fn deck_pile() -> Rect {
    Rect { x: 50, y: 250, w: 100, h: 150 }
}

/// The region of the deck pile.
#[verifier::when_used_as_spec(deck_pile)]
pub fn deck_pile_rect() -> (r: Rect)
    ensures
        r == deck_pile(),
{
    Rect { x: 50, y: 250, w: 100, h: 150 }
}

/// Width of a card: a tenth of the viewport's width, rounded down.
pub open spec fn card_width(vp: Viewport) -> int {
    vp.width as int / 10
}

/// Height of a card: a fifth of the viewport's height, rounded down.
pub open spec fn card_height(vp: Viewport) -> int {
    vp.height as int / 5
}

/// Top edge of the base row, which leaves [`MARGIN`] below the cards.
pub open spec fn base_top(vp: Viewport) -> int {
    vp.height as int - card_height(vp) - MARGIN as int
}

/// How far column `col` of a row lies to the right of the first column:
/// `col` times `step`. It is written out column by column, which keeps it
/// linear in `step`.
pub open spec fn column_offset(col: int, step: int) -> int {
    if col <= 0 {
        0
    } else if col == 1 {
        step
    } else if col == 2 {
        2 * step
    } else if col == 3 {
        3 * step
    } else if col == 4 {
        4 * step
    } else if col == 5 {
        5 * step
    } else {
        6 * step
    }
}

/// The offset of a column is the column's number times the step.
pub proof fn lemma_column_offset(col: int, step: int)
    requires
        0 <= col <= 6,
    ensures
        column_offset(col, step) == col * step,
{
    assert(column_offset(col, step) == col * step) by (nonlinear_arith)
        requires
            0 <= col <= 6,
    ;
}

/// Left edge of the card at position `i` of the drawn sequence: its column
/// counts from the margin in steps of a card's width and the gap, and an
/// odd row is shifted.
pub open spec fn card_left(vp: Viewport, i: int) -> int {
    let step = card_width(vp) + GAP as int;
    if i < CARDS_PER_ROW as int {
        MARGIN as int + column_offset(i, step)
    } else {
        let row = i / CARDS_PER_ROW as int;
        let shift = if row % 2 == 1 { ROW_SHIFT as int } else { 0 };
        MARGIN as int + column_offset(i % CARDS_PER_ROW as int, step) + shift
    }
}

/// Top edge of the card at position `i` of the drawn sequence.
pub open spec fn card_top(vp: Viewport, i: int) -> int {
    if i < CARDS_PER_ROW as int {
        base_top(vp)
    } else {
        base_top(vp) + GAP as int * (i / CARDS_PER_ROW as int)
    }
}

/// Whether `r` is the rectangle of the card at position `i`.
pub open spec fn is_card_rect(r: Rect, vp: Viewport, i: int) -> bool {
    &&& r.x == card_left(vp, i)
    &&& r.y == card_top(vp, i)
    &&& r.w == card_width(vp)
    &&& r.h == card_height(vp)
}

/// Whether the pointer lies strictly inside the rectangle of the card at
/// position `i`.
pub open spec fn card_hit(vp: Viewport, i: int, p: Point) -> bool {
    &&& card_left(vp, i) < p.x < card_left(vp, i) + card_width(vp)
    &&& card_top(vp, i) < p.y < card_top(vp, i) + card_height(vp)
}

/// No card lies left of the margin or above the base row: a pointer there,
/// and so any pointer left of the viewport, is on no card.
pub proof fn lemma_off_table(vp: Viewport, i: int, p: Point)
    requires
        0 <= i,
        p.x <= MARGIN || p.y <= base_top(vp),
    ensures
        !card_hit(vp, i, p),
{
}

/// The rectangle of the card at position `index` of the drawn sequence.
pub fn card_rect(vp: Viewport, index: usize) -> (r: Rect)
    requires
        index <= MAX_CARDS,
    ensures
        is_card_rect(r, vp, index as int),
        forall|p: Point| r.contains(p) == card_hit(vp, index as int, p),
{
    let w: i64 = (vp.width / 10) as i64;
    let h: i64 = (vp.height / 5) as i64;
    let step: i64 = w + GAP;
    let base: i64 = vp.height as i64 - h - MARGIN;
    if index < CARDS_PER_ROW {
        let col: i64 = index as i64;
        proof {
            lemma_column_offset(col as int, step as int);
        }
        Rect { x: MARGIN + col * step, y: base, w, h }
    } else {
        let row: i64 = (index / CARDS_PER_ROW) as i64;
        let col: i64 = (index % CARDS_PER_ROW) as i64;
        let shift: i64 = if row % 2 == 1 { ROW_SHIFT } else { 0 };
        proof {
            lemma_column_offset(col as int, step as int);
        }
        Rect { x: MARGIN + col * step + shift, y: base + GAP * row, w, h }
    }
}

/// The topmost card under the pointer among the first `count` cards: the
/// highest position whose rectangle the pointer is strictly inside, if any.
pub open spec fn topmost_hit(vp: Viewport, count: nat, p: Point) -> Option<int>
    decreases count,
{
    if count == 0 {
        None
    } else if card_hit(vp, count - 1, p) {
        Some(count - 1)
    } else {
        topmost_hit(vp, (count - 1) as nat, p)
    }
}

/// Whether an executable hover result stands for `hit`.
pub open spec fn same_index(found: Option<usize>, hit: Option<int>) -> bool {
    match found {
        Some(i) => hit == Some(i as int),
        None => hit is None,
    }
}

/// Whether `found` names the topmost card under the pointer among the first
/// `count` cards: a card under the pointer above which no card is under the
/// pointer, or no card where none is under the pointer.
pub open spec fn is_topmost(found: Option<usize>, vp: Viewport, count: nat, p: Point) -> bool {
    match found {
        Some(h) => {
            &&& h < count
            &&& card_hit(vp, h as int, p)
            &&& forall|j: int| h < j < count ==> !card_hit(vp, j, p)
        },
        None => forall|j: int| 0 <= j < count ==> !card_hit(vp, j, p),
    }
}

/// Whether a hover result names position `i`.
pub open spec fn points_at(found: Option<usize>, i: int) -> bool {
    found matches Some(h) && h == i
}

/// `topmost_hit` names a card under the pointer above which no card is under
/// the pointer, and names none only when no card is under the pointer. So a
/// hover result that stands for it names the topmost card.
pub proof fn lemma_topmost_hit(vp: Viewport, count: nat, p: Point)
    ensures
        match topmost_hit(vp, count, p) {
            Some(i) => {
                &&& 0 <= i < count
                &&& card_hit(vp, i, p)
                &&& forall|j: int| i < j < count ==> !card_hit(vp, j, p)
            },
            None => forall|j: int| 0 <= j < count ==> !card_hit(vp, j, p),
        },
        forall|found: Option<usize>|
            same_index(found, topmost_hit(vp, count, p)) ==> is_topmost(found, vp, count, p),
    decreases count,
{
    if count > 0 && !card_hit(vp, count - 1, p) {
        lemma_topmost_hit(vp, (count - 1) as nat, p);
    }
}

/// Finds the topmost card under the pointer among `count` drawn cards.
///
/// The scan runs over all positions in ascending order and keeps the last
/// match, so where rectangles overlap the card drawn last wins.
pub fn hovered_index(vp: Viewport, count: usize, pointer: Point) -> (found: Option<usize>)
    requires
        count <= MAX_CARDS,
    ensures
        same_index(found, topmost_hit(vp, count as nat, pointer)),
        is_topmost(found, vp, count as nat, pointer),
{
    let mut found: Option<usize> = None;
    let mut i: usize = 0;
    while i < count
        invariant
            i <= count <= MAX_CARDS,
            same_index(found, topmost_hit(vp, i as nat, pointer)),
        decreases count - i,
    {
        if card_rect(vp, i).contains(pointer) {
            found = Some(i);
        }
        i += 1;
    }
    proof {
        lemma_topmost_hit(vp, count as nat, pointer);
    }
    found
}

/// Where one drawn card goes, and whether it is drawn highlighted.
#[derive(Debug, Clone, Copy, PartialEq, Eq, Structural)]
pub struct Placement {
    pub card: Card,
    pub rect: Rect,
    pub highlighted: bool,
}

/// The layout of one frame: a placement for every drawn card, in draw order,
/// and the position of the card that the pointer is on.
#[derive(Debug)]
pub struct Layout {
    pub placements: Vec<Placement>,
    pub hovered: Option<usize>,
}

impl Layout {
    /// Whether this is the layout of `drawn` in `vp` with the pointer at `p`.
    pub open spec fn describes(self, drawn: Seq<Card>, vp: Viewport, p: Point) -> bool {
        &&& self.placements@.len() == drawn.len()
        &&& same_index(self.hovered, topmost_hit(vp, drawn.len(), p))
        &&& is_topmost(self.hovered, vp, drawn.len(), p)
        &&& forall|i: int|
            0 <= i < drawn.len() ==> {
                &&& (#[trigger] self.placements@[i]).card == drawn[i]
                &&& is_card_rect(self.placements@[i].rect, vp, i)
                &&& self.placements@[i].highlighted == points_at(self.hovered, i)
            }
    }
}

/// Lays out the drawn cards and resolves the hover, in two passes: the first
/// finds the one hovered position, the second places every card and
/// highlights that position alone.
pub fn layout(drawn: &Vec<Card>, vp: Viewport, pointer: Point) -> (out: Layout)
    requires
        drawn.len() <= MAX_CARDS,
    ensures
        out.describes(drawn@, vp, pointer),
{
    let hovered = hovered_index(vp, drawn.len(), pointer);
    let mut placements: Vec<Placement> = Vec::new();
    let mut i: usize = 0;
    while i < drawn.len()
        invariant
            i <= drawn.len() <= MAX_CARDS,
            placements@.len() == i,
            forall|k: int|
                0 <= k < i ==> {
                    &&& (#[trigger] placements@[k]).card == drawn@[k]
                    &&& is_card_rect(placements@[k].rect, vp, k)
                    &&& placements@[k].highlighted == points_at(hovered, k)
                },
        decreases drawn.len() - i,
    {
        let highlighted = match hovered {
            Some(h) => h == i,
            None => false,
        };
        placements.push(Placement { card: drawn[i], rect: card_rect(vp, i), highlighted });
        i += 1;
    }
    Layout { placements, hovered }
}

/// At most one card of a layout is highlighted.
pub proof fn lemma_single_hover(
    out: Layout,
    drawn: Seq<Card>,
    vp: Viewport,
    p: Point,
    i: int,
    j: int,
)
    requires
        out.describes(drawn, vp, p),
        0 <= i < drawn.len(),
        0 <= j < drawn.len(),
        out.placements@[i].highlighted,
        out.placements@[j].highlighted,
    ensures
        i == j,
{
}

/// Where the pointer is on several overlapping cards, the highlighted one is
/// the one drawn last: a card under the pointer is either highlighted itself
/// or lies below the highlighted card.
pub proof fn lemma_topmost_wins(out: Layout, drawn: Seq<Card>, vp: Viewport, p: Point, i: int)
    requires
        out.describes(drawn, vp, p),
        0 <= i < drawn.len(),
        card_hit(vp, i, p),
    ensures
        out.hovered matches Some(h) && i <= h < drawn.len() && card_hit(vp, h as int, p)
            && out.placements@[h as int].highlighted,
{
}

/// The layout is a function of its input: two layouts of the same cards in
/// the same viewport place every card in the same rectangle, wherever the
/// pointer is; and with the pointer at the same place they agree on the
/// hovered card and on every highlight as well.
pub proof fn lemma_layout_deterministic(
    a: Layout,
    b: Layout,
    drawn: Seq<Card>,
    vp: Viewport,
    p: Point,
    q: Point,
)
    requires
        a.describes(drawn, vp, p),
        b.describes(drawn, vp, q),
    ensures
        a.placements@.len() == b.placements@.len(),
        forall|i: int|
            0 <= i < drawn.len() ==> a.placements@[i].rect == b.placements@[i].rect
                && a.placements@[i].card == b.placements@[i].card,
        p == q ==> a.hovered == b.hovered && a.placements@ == b.placements@,
{
    assert forall|i: int| 0 <= i < drawn.len() implies a.placements@[i].rect
        == b.placements@[i].rect && a.placements@[i].card == b.placements@[i].card by {
        let ra = a.placements@[i];
        let rb = b.placements@[i];
        assert(is_card_rect(ra.rect, vp, i) && is_card_rect(rb.rect, vp, i));
    }
    if p == q {
        assert(a.hovered == b.hovered);
        assert forall|i: int| 0 <= i < drawn.len() implies a.placements@[i]
            == b.placements@[i] by {
            let ra = a.placements@[i];
            let rb = b.placements@[i];
            assert(ra.highlighted == rb.highlighted);
        }
        assert(a.placements@ =~= b.placements@);
    }
}

} // verus!
