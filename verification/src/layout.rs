//! Where things stand inside the widget.
//!
//! All sizes are given for a screen of 96 dots per inch and scaled to the
//! screen at hand.
use vstd::prelude::*;

verus! {

pub const SEGMENT_W: i32 = 10;

pub const SEGMENT_H: i32 = 13;

pub const SEGMENT_GAP: i32 = 1;

pub const PROVIDER_SEGMENT_COUNT: i32 = 10;

pub const CORNER_RADIUS: i32 = 2;

pub const LEFT_DIVIDER_W: i32 = 3;

pub const DIVIDER_RIGHT_MARGIN: i32 = 10;

pub const LABEL_WIDTH: i32 = 18;

pub const LABEL_RIGHT_MARGIN: i32 = 10;

pub const BAR_RIGHT_MARGIN: i32 = 3;

pub const TEXT_WIDTH: i32 = 86;

pub const RIGHT_MARGIN: i32 = 0;

pub const WIDGET_HEIGHT: i32 = 46;

/// The width of the strip at the left by which the widget can be dragged.
pub const DIVIDER_HIT_ZONE: i32 = 13;

// ---------------------------------------------------------------------------
// Scaling
// ---------------------------------------------------------------------------

/// `n` divided by 96, rounded to the nearest integer, halves away from zero.
pub open spec fn rounded_96th(n: int) -> int {
    if n >= 0 {
        (n + 48) / 96
    } else {
        -((48 - n) / 96)
    }
}

/// `n`, or the nearest 32-bit number.
pub open spec fn saturated(n: int) -> int {
    if n < i32::MIN {
        i32::MIN as int
    } else if n > i32::MAX {
        i32::MAX as int
    } else {
        n
    }
}

/// A length at 96 dots per inch, scaled to `dpi`.
pub open spec fn scaled(px: int, dpi: int) -> int {
    saturated(rounded_96th(px * dpi))
}

/// Scales a length at 96 dots per inch to `dpi`.
pub fn sc(px: i32, dpi: u32) -> (r: i32)
    ensures
        r == scaled(px as int, dpi as int),
{
    assert(-0x8000_0000_0000_0000 <= px * dpi <= 0x7fff_ffff_ffff_ffff) by (nonlinear_arith)
        requires
            -0x8000_0000 <= px <= 0x7fff_ffff,
            0 <= dpi <= 0xffff_ffff,
    ;
    let n: i128 = px as i128 * dpi as i128;
    let rounded: i128 = if n >= 0 {
        (n + 48) / 96
    } else {
        -((48 - n) / 96)
    };
    if rounded < i32::MIN as i128 {
        i32::MIN
    } else if rounded > i32::MAX as i128 {
        i32::MAX
    } else {
        rounded as i32
    }
}

/// At 96 dots per inch every length is kept.
pub proof fn law_scaling_is_neutral(px: i32)
    ensures
        scaled(px as int, 96) == px,
{
}

/// A scaled length is the integer that comes nearest to the length times the
/// resolution over 96. One in the middle between two integers goes away from zero,
/// and one that no 32-bit number comes near to becomes the last 32-bit number.
pub proof fn law_scaling_is_exact(px: int, dpi: int)
    ensures
        ({
            let exact = px * dpi;
            let s = scaled(px, dpi);
            &&& i32::MIN * 96 <= exact <= i32::MAX * 96 ==> {
                &&& -48 <= 96 * s - exact <= 48
                &&& exact >= 0 ==> 96 * s - exact > -48
                &&& exact <= 0 ==> 96 * s - exact < 48
            }
            &&& exact < i32::MIN * 96 ==> s == i32::MIN
            &&& exact > i32::MAX * 96 ==> s == i32::MAX
        }),
{
}

/// Scaling keeps the order of lengths, negative ones included, and a finer
/// screen brings no length closer to zero.
pub proof fn law_scaling_is_monotone(a: int, b: int, dpi: int, finer: int)
    requires
        a <= b,
        0 <= dpi <= finer,
    ensures
        scaled(a, dpi) <= scaled(b, dpi),
        0 <= a ==> 0 <= scaled(a, dpi) <= scaled(a, finer),
        a <= 0 ==> scaled(a, finer) <= scaled(a, dpi) <= 0,
{
    assert(a * dpi <= b * dpi) by (nonlinear_arith)
        requires
            a <= b,
            0 <= dpi,
    ;
    if 0 <= a {
        assert(0 <= a * dpi <= a * finer) by (nonlinear_arith)
            requires
                0 <= a,
                0 <= dpi <= finer,
        ;
    }
    if a <= 0 {
        assert(a * finer <= a * dpi <= 0) by (nonlinear_arith)
            requires
                a <= 0,
                0 <= dpi <= finer,
        ;
    }
}

/// Scaling moves a length and its mirror image alike.
pub proof fn law_scaling_is_symmetric(px: int, dpi: int)
    requires
        i32::MIN < rounded_96th(px * dpi) < i32::MAX,
    ensures
        scaled(-px, dpi) == -scaled(px, dpi),
{
    assert((-px) * dpi == -(px * dpi)) by (nonlinear_arith);
}

// ---------------------------------------------------------------------------
// Widths
// ---------------------------------------------------------------------------

/// The width of a bar of segments.
pub open spec fn bar_width(dpi: int) -> int {
    (scaled(SEGMENT_W as int, dpi) + scaled(SEGMENT_GAP as int, dpi)) * 10 - scaled(
        SEGMENT_GAP as int,
        dpi,
    )
}

/// Where the labels start.
pub open spec fn label_x(dpi: int) -> int {
    scaled(LEFT_DIVIDER_W as int, dpi) + scaled(DIVIDER_RIGHT_MARGIN as int, dpi)
}

/// Where the bars start.
pub open spec fn bar_x(dpi: int) -> int {
    label_x(dpi) + scaled(LABEL_WIDTH as int, dpi) + scaled(LABEL_RIGHT_MARGIN as int, dpi)
}

/// The width of the widget.
pub open spec fn widget_width(dpi: int) -> int {
    bar_x(dpi) + bar_width(dpi) + scaled(BAR_RIGHT_MARGIN as int, dpi) + scaled(
        TEXT_WIDTH as int,
        dpi,
    ) + scaled(RIGHT_MARGIN as int, dpi)
}

/// The height of the widget.
pub open spec fn widget_height(dpi: int) -> int {
    scaled(WIDGET_HEIGHT as int, dpi)
}

/// Whether the width of the widget is a 32-bit number on a screen of `dpi`.
pub open spec fn layout_fits(dpi: u32) -> bool {
    widget_width(dpi as int) <= i32::MAX
}

fn unbounded_bar_width(dpi: u32) -> (r: i64)
    ensures
        r == bar_width(dpi as int),
        0 <= r <= 0xb_0000_0000,
{
    let gap: i64 = sc(SEGMENT_GAP, dpi) as i64;
    (sc(SEGMENT_W, dpi) as i64 + gap) * PROVIDER_SEGMENT_COUNT as i64 - gap
}

/// The width of the widget, on any screen.
pub(crate) fn unbounded_width(dpi: u32) -> (r: i64)
    ensures
        r == widget_width(dpi as int),
        0 <= r <= 0x20_0000_0000,
{
    let bar: i64 = unbounded_bar_width(dpi);
    sc(LEFT_DIVIDER_W, dpi) as i64 + sc(DIVIDER_RIGHT_MARGIN, dpi) as i64 + sc(
        LABEL_WIDTH,
        dpi,
    ) as i64 + sc(LABEL_RIGHT_MARGIN, dpi) as i64 + bar + sc(BAR_RIGHT_MARGIN, dpi) as i64 + sc(
        TEXT_WIDTH,
        dpi,
    ) as i64 + sc(RIGHT_MARGIN, dpi) as i64
}

/// The width of the widget.
pub fn total_widget_width(dpi: u32) -> (r: i32)
    requires
        layout_fits(dpi),
    ensures
        r == widget_width(dpi as int),
{
    unbounded_width(dpi) as i32
}

/// Whether the width of the widget is a 32-bit number on a screen of `dpi`.
pub fn layout_has_room(dpi: u32) -> (r: bool)
    ensures
        r == layout_fits(dpi),
{
    unbounded_width(dpi) <= i32::MAX as i64
}

/// Whether the segments of a bar, each with a gap behind it, are as wide as a
/// 32-bit number can tell.
pub open spec fn segments_fit(dpi: u32) -> bool {
    bar_width(dpi as int) + scaled(SEGMENT_GAP as int, dpi as int) <= i32::MAX
}

/// The width of a bar of segments.
pub fn provider_bar_width(dpi: u32) -> (r: i32)
    requires
        segments_fit(dpi),
    ensures
        r == bar_width(dpi as int),
{
    (sc(SEGMENT_W, dpi) + sc(SEGMENT_GAP, dpi)) * PROVIDER_SEGMENT_COUNT - sc(SEGMENT_GAP, dpi)
}

/// Where the labels start.
pub fn usage_label_x(dpi: u32) -> (r: i32)
    ensures
        r == label_x(dpi as int),
{
    sc(LEFT_DIVIDER_W, dpi) + sc(DIVIDER_RIGHT_MARGIN, dpi)
}

/// Where the bars start.
pub fn usage_bar_x(dpi: u32) -> (r: i32)
    ensures
        r == bar_x(dpi as int),
{
    usage_label_x(dpi) + sc(LABEL_WIDTH, dpi) + sc(LABEL_RIGHT_MARGIN, dpi)
}

/// The parts of the widget stand side by side from its left edge to its right one:
/// the divider, a margin, the label, a margin, ten segments with nine gaps between
/// them, a margin, and the text.
pub proof fn law_widths_add_up(dpi: int)
    ensures
        label_x(dpi) == scaled(3, dpi) + scaled(10, dpi),
        bar_x(dpi) - label_x(dpi) == scaled(18, dpi) + scaled(10, dpi),
        bar_width(dpi) == 10 * scaled(10, dpi) + 9 * scaled(1, dpi),
        widget_width(dpi) - (bar_x(dpi) + bar_width(dpi)) == scaled(3, dpi) + scaled(86, dpi),
        widget_height(dpi) == scaled(46, dpi),
{
    assert(scaled(0, dpi) == 0) by {
        assert(0 * dpi == 0) by (nonlinear_arith);
    }
}

/// The widths fit on every screen of up to 65535 dots per inch, the most that
/// a window is ever told of.
pub proof fn law_layout_fits(dpi: u32)
    requires
        dpi <= 0xffff,
    ensures
        layout_fits(dpi),
{
}

// ---------------------------------------------------------------------------
// Points and rectangles
// ---------------------------------------------------------------------------

/// A point on the screen or in a window.
#[derive(Clone, Copy, Debug, PartialEq, Eq, Structural)]
pub struct Point {
    pub x: i32,
    pub y: i32,
}

/// A rectangle; the right and the lower edge do not belong to it.
#[derive(Clone, Copy, Debug, PartialEq, Eq, Structural)]
pub struct Rect {
    pub left: i32,
    pub top: i32,
    pub right: i32,
    pub bottom: i32,
}

/// Whether a point lies in a rectangle.
pub open spec fn inside(pt: Point, rect: Rect) -> bool {
    rect.left <= pt.x < rect.right && rect.top <= pt.y < rect.bottom
}

/// Whether a point lies in a rectangle.
pub fn point_in_rect(pt: Point, rect: Rect) -> (r: bool)
    ensures
        r == inside(pt, rect),
{
    pt.x >= rect.left && pt.x < rect.right && pt.y >= rect.top && pt.y < rect.bottom
}

/// Of two rectangles that share an edge, a point on that edge lies in the one that
/// starts there: every point of the two together lies in exactly one of them, and a
/// point beyond an edge lies in none.
pub proof fn law_edges_belong_to_one_side(pt: Point, rect: Rect, x: i32, y: i32)
    requires
        rect.left <= x <= rect.right,
        rect.top <= y <= rect.bottom,
    ensures
        inside(pt, rect) <==> (inside(pt, Rect { right: x, ..rect }) <==> !inside(
            pt,
            Rect { left: x, ..rect },
        )),
        inside(pt, rect) <==> (inside(pt, Rect { bottom: y, ..rect }) <==> !inside(
            pt,
            Rect { top: y, ..rect },
        )),
        inside(pt, rect) <==> !(pt.x < rect.left || pt.x >= rect.right || pt.y < rect.top || pt.y
            >= rect.bottom),
{
}

// ---------------------------------------------------------------------------
// Rows
// ---------------------------------------------------------------------------

/// Half of `n`, rounded towards zero.
pub open spec fn half(n: int) -> int {
    if n >= 0 {
        n / 2
    } else {
        -((-n) / 2)
    }
}

/// Half of `n`, rounded towards zero.
pub(crate) fn halved(n: i32) -> (r: i32)
    ensures
        r == half(n as int),
{
    if n >= 0 {
        n / 2
    } else {
        (-((-(n as i64)) / 2)) as i32
    }
}

/// Half of a number is within one of the other half, and nearer to zero if they
/// differ.
pub proof fn law_halves_are_equal(n: int)
    ensures
        n >= 0 ==> half(n) <= n - half(n) <= half(n) + 1,
        n <= 0 ==> half(n) - 1 <= n - half(n) <= half(n),
{
}

/// The upper edges of the rows in a widget of the given height: one row is in
/// the middle, two rows stand at the lower edge, and there is no third.
pub open spec fn row_tops(height: int, row_count: nat, dpi: int) -> Seq<int> {
    let row = scaled(SEGMENT_H as int, dpi);
    let lower = height - scaled(7, dpi) - row;
    let upper = lower - scaled(6, dpi) - row;
    if row_count == 0 {
        Seq::empty()
    } else if row_count == 1 {
        seq![half(height - row)]
    } else {
        seq![upper, lower]
    }
}

/// Whether the upper edges of the rows, and what is computed on the way to
/// them, are 32-bit numbers.
pub open spec fn rows_fit(height: i32, row_count: nat, dpi: u32) -> bool {
    let row = scaled(SEGMENT_H as int, dpi as int);
    &&& row_count == 1 ==> height - row >= i32::MIN
    &&& row_count >= 2 ==> height - scaled(7, dpi as int) - row - scaled(6, dpi as int) - row
        >= i32::MIN
}

/// Numbers as mathematical integers.
pub open spec fn as_ints(v: Seq<i32>) -> Seq<int> {
    v.map_values(|n: i32| n as int)
}

/// The upper edges of the rows in a widget of the given height.
pub fn row_ys(height: i32, row_count: usize, dpi: u32) -> (r: Vec<i32>)
    requires
        rows_fit(height, row_count as nat, dpi),
    ensures
        as_ints(r@) == row_tops(height as int, row_count as nat, dpi as int),
{
    let seg_h: i32 = sc(SEGMENT_H, dpi);
    let r: Vec<i32> = if row_count == 0 {
        Vec::new()
    } else if row_count == 1 {
        let top: i32 = halved(height - seg_h);
        vec![top]
    } else {
        let row2_y: i32 = height - sc(7, dpi) - seg_h;
        let row1_y: i32 = row2_y - sc(6, dpi) - seg_h;
        vec![row1_y, row2_y]
    };
    assert(as_ints(r@) =~= row_tops(height as int, row_count as nat, dpi as int));
    r
}

/// Rows keep their distances at every height: there are at most two; a single
/// one has as much space above it as below it, up to one pixel; of two, the
/// lower one stands at its distance from the lower edge and the upper one at
/// its distance from the lower one, so they do not overlap.
pub proof fn law_rows_keep_their_distances(height: int, row_count: nat, dpi: u32)
    ensures
        ({
            let row = scaled(SEGMENT_H as int, dpi as int);
            let tops = row_tops(height, row_count, dpi as int);
            &&& tops.len() == (if row_count <= 2 {
                row_count
            } else {
                2
            })
            &&& row_count == 1 ==> -1 <= (height - (tops[0] + row)) - tops[0] <= 1
            &&& row_count == 1 && row <= height ==> 0 <= (height - (tops[0] + row)) - tops[0]
            &&& row_count == 1 && row >= height ==> (height - (tops[0] + row)) - tops[0] <= 0
            &&& row_count >= 2 ==> {
                &&& tops[1] + row + scaled(7, dpi as int) == height
                &&& tops[0] + row + scaled(6, dpi as int) == tops[1]
                &&& tops[0] + row <= tops[1]
            }
        }),
{
}

/// The rows of the widget, of which there are at most two: they lie inside it,
/// one above the other.
pub proof fn law_rows_lie_in_the_widget(row_count: nat, dpi: u32)
    ensures
        ({
            let height = widget_height(dpi as int);
            let row = scaled(SEGMENT_H as int, dpi as int);
            let tops = row_tops(height, row_count, dpi as int);
            &&& tops.len() <= 2
            &&& tops.len() <= row_count
            &&& forall|i: int|
                0 <= i < tops.len() ==> 0 <= #[trigger] tops[i] && tops[i] + row <= height
            &&& tops.len() == 2 ==> tops[0] + row <= tops[1]
        }),
{
}

/// A single row is in the middle of the widget: what is left above it and
/// below it differs by no more than one.
pub proof fn law_single_row_is_centered(dpi: u32)
    ensures
        ({
            let height = widget_height(dpi as int);
            let row = scaled(SEGMENT_H as int, dpi as int);
            let above = row_tops(height, 1, dpi as int)[0];
            let below = height - (above + row);
            0 <= below - above <= 1
        }),
{
}

/// The rectangle of the bar in a row, if there is such a row.
pub open spec fn bar_rect(row_index: nat, row_count: nat, dpi: int) -> Option<Rect> {
    let tops = row_tops(widget_height(dpi), row_count, dpi);
    if row_index < tops.len() {
        Some(
            Rect {
                left: bar_x(dpi) as i32,
                top: tops[row_index as int] as i32,
                right: (bar_x(dpi) + bar_width(dpi)) as i32,
                bottom: (tops[row_index as int] + scaled(SEGMENT_H as int, dpi)) as i32,
            },
        )
    } else {
        None
    }
}

/// The rectangle of the bar in a row, if there is such a row.
pub fn bar_rect_for_row(row_index: usize, row_count: usize, dpi: u32) -> (r: Option<Rect>)
    requires
        row_index < row_count && row_index < 2 ==> segments_fit(dpi) && bar_x(dpi as int)
            + bar_width(dpi as int) <= i32::MAX,
    ensures
        r == bar_rect(row_index as nat, row_count as nat, dpi as int),
{
    let height: i32 = sc(WIDGET_HEIGHT, dpi);
    let left: i32 = usage_bar_x(dpi);
    let tops = row_ys(height, row_count, dpi);
    let ghost expected = row_tops(height as int, row_count as nat, dpi as int);
    if row_index >= tops.len() {
        assert(as_ints(tops@).len() == tops@.len());
        return None;
    }
    let top: i32 = tops[row_index];
    proof {
        assert(as_ints(tops@)[row_index as int] == top);
        law_rows_lie_in_the_widget(row_count as nat, dpi);
    }
    Some(
        Rect {
            left,
            top,
            right: left + provider_bar_width(dpi),
            bottom: top + sc(SEGMENT_H, dpi),
        },
    )
}

/// Whether a point is in the bar of a row or so close to it that it counts.
pub open spec fn near_bar(x: int, y: int, row_index: nat, row_count: nat, dpi: int) -> bool {
    match bar_rect(row_index, row_count, dpi) {
        Some(rect) => rect.left - scaled(3, dpi) <= x < rect.right + scaled(3, dpi) && rect.top
            - scaled(4, dpi) <= y < rect.bottom + scaled(4, dpi),
        None => false,
    }
}

/// How many rows count for pointing: a widget without rows counts as one with
/// one row.
pub open spec fn pointed_rows(rows: nat) -> nat {
    if rows == 0 {
        1
    } else {
        rows
    }
}

/// Whether a point is in or close to the bar of any of the rows.
pub open spec fn over_bar(x: int, y: int, rows: nat, dpi: int) -> bool {
    exists|i: nat| i < pointed_rows(rows) && #[trigger] near_bar(x, y, i, pointed_rows(rows), dpi)
}

/// Whether the surroundings of the bars end at a 32-bit number.
pub open spec fn pointing_fits(dpi: u32) -> bool {
    bar_x(dpi as int) + bar_width(dpi as int) + scaled(3, dpi as int) <= i32::MAX
}

/// Decides whether the surroundings of the bars end at a 32-bit number.
pub fn pointing_has_room(dpi: u32) -> (r: bool)
    ensures
        r == pointing_fits(dpi),
{
    usage_bar_x(dpi) as i64 + unbounded_bar_width(dpi) + sc(3, dpi) as i64 <= i32::MAX as i64
}

/// Whether a point is in or close to the bar of any of the rows.
pub fn point_is_over_usage_bar(x: i32, y: i32, rows: usize, dpi: u32) -> (r: bool)
    requires
        pointing_fits(dpi),
    ensures
        r == over_bar(x as int, y as int, rows as nat, dpi as int),
{
    let row_count: usize = if rows == 0 {
        1
    } else {
        rows
    };
    let ghost d = dpi as int;
    let mut index: usize = 0;
    while index < row_count
        invariant
            index <= row_count,
            row_count == pointed_rows(rows as nat),
            pointing_fits(dpi),
            d == dpi as int,
            forall|i: nat| i < index ==> !#[trigger] near_bar(
                x as int,
                y as int,
                i,
                row_count as nat,
                d,
            ),
        decreases row_count - index,
    {
        if let Some(rect) = bar_rect_for_row(index, row_count, dpi) {
            proof {
                law_rows_lie_in_the_widget(row_count as nat, dpi);
            }
            let wide: i32 = sc(3, dpi);
            let high: i32 = sc(4, dpi);
            let near = Rect {
                left: rect.left - wide,
                top: rect.top - high,
                right: rect.right + wide,
                bottom: rect.bottom + high,
            };
            if point_in_rect(Point { x, y }, near) {
                assert(near_bar(x as int, y as int, index as nat, row_count as nat, d));
                return true;
            }
        }
        index = index + 1;
    }
    false
}

/// Each of the first two rows has a bar, as wide as ten segments with the gaps
/// between them and as high as a segment, and no other row has one.
pub proof fn law_rows_have_bars(row_index: nat, row_count: nat, dpi: u32)
    requires
        pointing_fits(dpi),
    ensures
        bar_rect(row_index, row_count, dpi as int) is Some <==> row_index < row_count && row_index
            < 2,
        bar_rect(row_index, row_count, dpi as int) matches Some(rect) ==> {
            let d = dpi as int;
            &&& rect.left == scaled(3, d) + scaled(10, d) + scaled(18, d) + scaled(10, d)
            &&& rect.right - rect.left == 10 * scaled(10, d) + 9 * scaled(1, d)
            &&& rect.bottom - rect.top == scaled(13, d)
            &&& rect.top == row_tops(scaled(46, d), row_count, d)[row_index as int]
        },
{
    law_rows_lie_in_the_widget(row_count, dpi);
}

/// A point counts for a bar if it lies in it, or at most three units beside it and
/// four above or below it; any other point does not. A widget without rows is
/// pointed at as if it had one.
pub proof fn law_bars_are_pointed_at(x: int, y: int, rows: nat, dpi: u32)
    requires
        pointing_fits(dpi),
    ensures
        ({
            let d = dpi as int;
            let near = |index: nat, count: nat|
                bar_rect(index, count, d) matches Some(rect) && rect.left - scaled(3, d) <= x
                    < rect.right + scaled(3, d) && rect.top - scaled(4, d) <= y < rect.bottom
                    + scaled(4, d);
            &&& rows == 0 ==> (over_bar(x, y, rows, d) <==> near(0, 1))
            &&& rows == 1 ==> (over_bar(x, y, rows, d) <==> near(0, 1))
            &&& rows >= 2 ==> (over_bar(x, y, rows, d) <==> near(0, rows) || near(1, rows))
        }),
{
    let d = dpi as int;
    let count = pointed_rows(rows);
    if over_bar(x, y, rows, d) {
        let i = choose|i: nat| i < count && #[trigger] near_bar(x, y, i, count, d);
        law_rows_have_bars(i, count, dpi);
        assert(i == 0 || i == 1);
    }
    assert(near_bar(x, y, 0, count, d) ==> over_bar(x, y, rows, d));
    if rows >= 2 {
        assert(near_bar(x, y, 1, count, d) ==> over_bar(x, y, rows, d));
    }
}

/// The bars can be pointed at on every screen of up to 65535 dots per inch.
pub proof fn law_pointing_fits(dpi: u32)
    requires
        dpi <= 0xffff,
    ensures
        pointing_fits(dpi),
        segments_fit(dpi),
{
}

} // verus!
