//! The picture of the widget, as a list of things to draw.
use vstd::prelude::*;

use crate::compact::{compact_codex_text, short_form};
use crate::layout::{
    as_ints, bar_width, bar_x, label_x, law_widths_add_up, layout_fits, pointed_rows, row_tops,
    row_ys, rows_fit, sc, scaled, total_widget_width, unbounded_width, usage_label_x, widget_height, widget_width, Rect,
    BAR_RIGHT_MARGIN, CORNER_RADIUS, LABEL_WIDTH, SEGMENT_GAP, SEGMENT_H, SEGMENT_W, TEXT_WIDTH,
    WIDGET_HEIGHT,
};
use crate::models::{at_least, at_most, Percent, PercentView};
use crate::paint::{
    bar_segments, color_code, colorref, divider_rects, divider_top, fill_of,
    law_segments_stand_for_ten_percent, palette, palette_for, row_layout, segment_at, Color, Palette,
    Segment, SegmentFill,
};
use crate::state::{row_views, state_view, AppState, DisplayRow, RowView, StateView};

verus! {

/// Something to draw.
#[derive(Debug)]
pub enum DrawOp {
    /// A rectangle in one colour.
    Fill(Rect, Color),
    /// A line of text, in the middle of the height of a rectangle.
    Text(Rect, String),
    /// A rectangle in one colour with rounded corners of the given radius.
    Rounded(Rect, Color, i32),
    /// As much of the segment with this number as the remaining percentage
    /// fills, in one colour and within rounded corners of the given radius.
    Part(Rect, i32, Percent, Color, i32),
}

/// Something to draw, with its text as a sequence of characters.
pub enum OpView {
    Fill(Rect, Color),
    Text(Rect, Seq<char>),
    Rounded(Rect, Color, i32),
    Part(Rect, i32, PercentView, Color, i32),
}

impl View for DrawOp {
    type V = OpView;

    open spec fn view(&self) -> OpView {
        match self {
            DrawOp::Fill(rect, color) => OpView::Fill(*rect, *color),
            DrawOp::Text(rect, text) => OpView::Text(*rect, text@),
            DrawOp::Rounded(rect, color, radius) => OpView::Rounded(*rect, *color, *radius),
            DrawOp::Part(rect, i, percent, color, radius) => OpView::Part(
                *rect,
                *i,
                percent@,
                *color,
                *radius,
            ),
        }
    }
}

/// Things to draw, with their texts as sequences of characters.
pub open spec fn op_views(ops: Seq<DrawOp>) -> Seq<OpView> {
    ops.map_values(|op: DrawOp| op@)
}

fn put(ops: &mut Vec<DrawOp>, op: DrawOp)
    ensures
        op_views(final(ops)@) == op_views(old(ops)@).push(op@),
{
    ops.push(op);
    assert(op_views(ops@) =~= op_views(old(ops)@).push(op@));
}

/// A region with rounded corners, as the drawing functions take it.
#[derive(Clone, Copy, Debug, PartialEq, Eq, Structural)]
pub struct Region {
    pub left: i32,
    pub top: i32,
    pub right: i32,
    pub bottom: i32,
    /// The diameter of the corners.
    pub corner: i32,
}

/// The region of a rectangle with rounded corners: its right and its lower edge
/// do not belong to it.
pub fn rounded_region(rect: Rect, radius: i32) -> (r: Region)
    requires
        rect.right < i32::MAX,
        rect.bottom < i32::MAX,
        i32::MIN <= 2 * radius <= i32::MAX,
    ensures
        r.left == rect.left,
        r.top == rect.top,
        r.right == rect.right + 1,
        r.bottom == rect.bottom + 1,
        r.corner == 2 * radius,
{
    Region {
        left: rect.left,
        top: rect.top,
        right: rect.right + 1,
        bottom: rect.bottom + 1,
        corner: radius * 2,
    }
}

// ---------------------------------------------------------------------------
// Rows
// ---------------------------------------------------------------------------

/// How a segment is drawn.
pub open spec fn segment_ops(
    segment: Segment,
    i: int,
    percent: PercentView,
    colors: Palette,
    radius: int,
) -> Seq<OpView> {
    let track = OpView::Rounded(segment.rect, colors.track, radius as i32);
    match segment.fill {
        SegmentFill::Full => seq![OpView::Rounded(segment.rect, colors.accent, radius as i32)],
        SegmentFill::Empty => seq![track],
        SegmentFill::Partial => seq![
            track,
            OpView::Part(segment.rect, i as i32, percent, colors.accent, radius as i32),
        ],
    }
}

/// Segment `i` of the bar in a row.
pub open spec fn row_segment(i: int, percent: PercentView, x: int, y: int, dpi: int) -> Segment {
    segment_at(
        i,
        percent.remaining as int,
        x,
        y,
        scaled(SEGMENT_W as int, dpi),
        scaled(SEGMENT_H as int, dpi),
        scaled(SEGMENT_GAP as int, dpi),
    )
}

/// How the first `n` segments of a bar at `x` and `y` are drawn.
pub open spec fn bar_ops(
    n: nat,
    percent: PercentView,
    x: int,
    y: int,
    colors: Palette,
    dpi: int,
) -> Seq<OpView>
    decreases n,
{
    if n == 0 {
        Seq::empty()
    } else {
        let i = (n - 1) as nat;
        bar_ops(i, percent, x, y, colors, dpi) + segment_ops(
            row_segment(i as int, percent, x, y, dpi),
            i as int,
            percent,
            colors,
            scaled(CORNER_RADIUS as int, dpi),
        )
    }
}

/// The rectangle in a row at `y` that starts at `x`.
pub open spec fn row_part(x: int, y: int, width: int, dpi: int) -> Rect {
    Rect {
        left: x as i32,
        top: y as i32,
        right: (x + width) as i32,
        bottom: (y + scaled(SEGMENT_H as int, dpi)) as i32,
    }
}

/// How a row with the upper edge `y` is drawn: its label, its bar, and its text
/// in short form.
pub open spec fn row_ops(row: RowView, y: int, colors: Palette, dpi: int) -> Seq<OpView> {
    let text_x = bar_x(dpi) + bar_width(dpi) + scaled(BAR_RIGHT_MARGIN as int, dpi);
    seq![
        OpView::Text(
            row_part(label_x(dpi), y, scaled(LABEL_WIDTH as int, dpi), dpi),
            row.label,
        ),
    ] + bar_ops(10, row.percent, bar_x(dpi), y, colors, dpi) + seq![
        OpView::Text(
            row_part(text_x, y, scaled(TEXT_WIDTH as int, dpi), dpi),
            short_form(row.text),
        ),
    ]
}

fn put_segment(
    ops: &mut Vec<DrawOp>,
    segment: Segment,
    i: i32,
    percent: Percent,
    colors: &Palette,
    radius: i32,
)
    ensures
        op_views(final(ops)@) == op_views(old(ops)@) + segment_ops(
            segment,
            i as int,
            percent@,
            *colors,
            radius as int,
        ),
{
    match segment.fill {
        SegmentFill::Full => {
            put(ops, DrawOp::Rounded(segment.rect, colors.accent, radius));
        },
        SegmentFill::Empty => {
            put(ops, DrawOp::Rounded(segment.rect, colors.track, radius));
        },
        SegmentFill::Partial => {
            put(ops, DrawOp::Rounded(segment.rect, colors.track, radius));
            put(ops, DrawOp::Part(segment.rect, i, percent, colors.accent, radius));
        },
    }
    assert(op_views(ops@) =~= op_views(old(ops)@) + segment_ops(
        segment,
        i as int,
        percent@,
        *colors,
        radius as int,
    ));
}

fn draw_segments(
    ops: &mut Vec<DrawOp>,
    percent: Percent,
    x: i32,
    y: i32,
    colors: &Palette,
    dpi: u32,
)
    requires
        layout_fits(dpi),
        x == bar_x(dpi as int),
        y + scaled(SEGMENT_H as int, dpi as int) <= i32::MAX,
    ensures
        op_views(final(ops)@) == op_views(old(ops)@) + bar_ops(
            10,
            percent@,
            x as int,
            y as int,
            *colors,
            dpi as int,
        ),
{
    let ghost d = dpi as int;
    let ghost before = op_views(ops@);
    let radius: i32 = sc(CORNER_RADIUS, dpi);
    let segments = bar_segments(
        percent.remaining(),
        x,
        y,
        sc(SEGMENT_W, dpi),
        sc(SEGMENT_H, dpi),
        sc(SEGMENT_GAP, dpi),
    );
    let mut i: usize = 0;
    assert(before + Seq::<OpView>::empty() =~= before);
    while i < 10
        invariant
            i <= 10,
            segments@.len() == 10,
            forall|k: int|
                0 <= k < 10 ==> #[trigger] segments@[k] == row_segment(
                    k,
                    percent@,
                    x as int,
                    y as int,
                    d,
                ),
            radius == scaled(CORNER_RADIUS as int, d),
            op_views(ops@) == before + bar_ops(i as nat, percent@, x as int, y as int, *colors, d),
        decreases 10 - i,
    {
        put_segment(ops, segments[i], i as i32, percent, colors, radius);
        proof {
            let done = bar_ops(i as nat, percent@, x as int, y as int, *colors, d);
            let next = segment_ops(
                row_segment(i as int, percent@, x as int, y as int, d),
                i as int,
                percent@,
                *colors,
                radius as int,
            );
            assert(bar_ops((i + 1) as nat, percent@, x as int, y as int, *colors, d) == done + next);
            assert(before + done + next =~= before + (done + next));
        }
        i = i + 1;
    }
}

fn draw_row(ops: &mut Vec<DrawOp>, row: &DisplayRow, y: i32, colors: &Palette, dpi: u32)
    requires
        layout_fits(dpi),
        y + scaled(SEGMENT_H as int, dpi as int) <= i32::MAX,
    ensures
        op_views(final(ops)@) == op_views(old(ops)@) + row_ops(row@, y as int, *colors, dpi as int),
{
    let ghost before = op_views(ops@);
    let parts = row_layout(usage_label_x(dpi), y, dpi);
    put(ops, DrawOp::Text(parts.label, row.label.clone()));
    draw_segments(ops, row.percent, parts.bar_x, y, colors, dpi);
    put(ops, DrawOp::Text(parts.text, compact_codex_text(row.text.as_str())));
    assert(op_views(ops@) =~= before + row_ops(row@, y as int, *colors, dpi as int));
}

/// The parts of a row stand side by side inside the widget: the label, then
/// the bar, then the text.
pub proof fn law_row_fits_the_widget(dpi: u32)
    requires
        layout_fits(dpi),
    ensures
        ({
            let d = dpi as int;
            let label_end = label_x(d) + scaled(LABEL_WIDTH as int, d);
            let last = row_segment(9, crate::models::unused(), bar_x(d), 0, d).rect;
            let text_x = bar_x(d) + bar_width(d) + scaled(BAR_RIGHT_MARGIN as int, d);
            &&& 0 <= label_x(d) <= label_end <= bar_x(d)
            &&& last.right == bar_x(d) + bar_width(d)
            &&& last.right <= text_x
            &&& text_x + scaled(TEXT_WIDTH as int, d) <= widget_width(d)
        }),
{
}

// ---------------------------------------------------------------------------
// The whole picture
// ---------------------------------------------------------------------------

/// How the first `n` rows are drawn.
pub open spec fn rows_ops(
    n: nat,
    rows: Seq<RowView>,
    tops: Seq<int>,
    colors: Palette,
    dpi: int,
) -> Seq<OpView>
    decreases n,
{
    if n == 0 {
        Seq::empty()
    } else {
        let i = n - 1;
        rows_ops(i as nat, rows, tops, colors, dpi) + row_ops(rows[i], tops[i], colors, dpi)
    }
}

/// How the background and the divider are drawn.
pub open spec fn frame_ops(width: int, height: int, colors: Palette, dpi: int) -> Seq<OpView> {
    let top = divider_top(height, dpi);
    let bottom = top + scaled(25, dpi);
    let middle = scaled(2, dpi) as i32;
    seq![
        OpView::Fill(
            Rect { left: 0, top: 0, right: width as i32, bottom: height as i32 },
            colors.background,
        ),
        OpView::Fill(
            Rect { left: 0, top: top as i32, right: middle, bottom: bottom as i32 },
            colors.divider_left,
        ),
        OpView::Fill(
            Rect {
                left: middle,
                top: top as i32,
                right: scaled(3, dpi) as i32,
                bottom: bottom as i32,
            },
            colors.divider_right,
        ),
    ]
}

/// How many rows are drawn: all of them, but no more than there is room for.
pub open spec fn drawn_rows(rows: nat) -> nat {
    if rows <= 2 {
        rows
    } else {
        2
    }
}

/// How a picture of the given size is drawn: the background and the divider,
/// then the rows.
pub open spec fn content_ops(
    width: int,
    height: int,
    is_dark: bool,
    rows: Seq<RowView>,
    dpi: int,
) -> Seq<OpView> {
    let colors = palette_for(is_dark);
    frame_ops(width, height, colors, dpi) + rows_ops(
        drawn_rows(rows.len()),
        rows,
        row_tops(height, rows.len(), dpi),
        colors,
        dpi,
    )
}

/// Whether everything in a picture of the given height and with so many rows has
/// a place that is a 32-bit number.
pub open spec fn content_fits(height: i32, rows: nat, dpi: u32) -> bool {
    &&& rows > 0 ==> layout_fits(dpi)
    &&& rows_fit(height, pointed_rows(rows), dpi)
    &&& height - scaled(25, dpi as int) >= i32::MIN
}

/// A picture of any height that a window can have fits if the widget fits, and
/// one without rows fits in any case.
pub proof fn law_content_fits(height: i32, rows: nat, dpi: u32)
    requires
        rows > 0 ==> layout_fits(dpi),
        0 <= height,
    ensures
        content_fits(height, rows, dpi),
{
}

/// Lists what is to be drawn in a picture of the given size.
pub fn paint_content(
    width: i32,
    height: i32,
    is_dark: bool,
    rows: &Vec<DisplayRow>,
    dpi: u32,
) -> (r: Vec<DrawOp>)
    requires
        content_fits(height, rows@.len(), dpi),
    ensures
        op_views(r@) == content_ops(
            width as int,
            height as int,
            is_dark,
            row_views(rows@),
            dpi as int,
        ),
{
    let ghost d = dpi as int;
    let ghost views = row_views(rows@);
    let ghost colors = palette_for(is_dark);
    let shades = palette(is_dark);
    let mut ops: Vec<DrawOp> = Vec::new();
    put(
        &mut ops,
        DrawOp::Fill(Rect { left: 0, top: 0, right: width, bottom: height }, shades.background),
    );
    let (outer, inner) = divider_rects(height, dpi);
    put(&mut ops, DrawOp::Fill(outer, shades.divider_left));
    put(&mut ops, DrawOp::Fill(inner, shades.divider_right));
    let ghost frame = frame_ops(width as int, height as int, colors, d);
    assert(op_views(ops@) =~= frame);

    let row_count: usize = if rows.len() == 0 {
        1
    } else {
        rows.len()
    };
    let ys = row_ys(height, row_count, dpi);
    let ghost tops = row_tops(height as int, views.len(), d);
    assert(as_ints(ys@).len() == ys@.len());
    assert(views.len() > 0 ==> as_ints(ys@) == tops);
    let mut i: usize = 0;
    assert(frame + Seq::<OpView>::empty() =~= frame);
    while i < rows.len() && i < ys.len()
        invariant
            i <= rows@.len(),
            i <= ys@.len(),
            content_fits(height, rows@.len(), dpi),
            d == dpi as int,
            views == row_views(rows@),
            shades == colors,
            tops == row_tops(height as int, views.len(), d),
            views.len() > 0 ==> as_ints(ys@) == tops,
            op_views(ops@) == frame + rows_ops(i as nat, views, tops, colors, d),
        decreases rows@.len() - i,
    {
        assert(as_ints(ys@)[i as int] == ys@[i as int]);
        assert(ys@[i as int] == tops[i as int]);
        assert(views[i as int] == rows@[i as int]@);
        proof {
            let done = rows_ops(i as nat, views, tops, colors, d);
            let next = row_ops(views[i as int], tops[i as int], colors, d);
            assert(rows_ops((i + 1) as nat, views, tops, colors, d) == done + next);
            assert(frame + done + next =~= frame + (done + next));
        }
        draw_row(&mut ops, &rows[i], ys[i], &shades, dpi);
        i = i + 1;
    }
    assert(i == drawn_rows(views.len()));
    ops
}

/// What is done to bring the widget up to date on the screen.
#[derive(Clone, Copy, Debug, PartialEq, Eq, Structural)]
pub enum RenderPlan {
    /// There is nothing to draw.
    Nothing,
    /// The window draws itself when it is told that it has to.
    Invalidate(isize),
    /// A picture of this size is made and handed to the window.
    Picture(PictureFrame),
}

/// A picture to be made.
#[derive(Clone, Copy, Debug, PartialEq, Eq, Structural)]
pub struct PictureFrame {
    pub hwnd: isize,
    pub is_dark: bool,
    pub width: i32,
    pub height: i32,
    pub pixel_count: usize,
    /// The colour by which the pixels of the background are recognised.
    pub background: u32,
}

/// Whether the number of pixels of the widget is a 32-bit number.
pub open spec fn picture_fits(dpi: u32) -> bool {
    layout_fits(dpi) && widget_width(dpi as int) * widget_height(dpi as int) <= i32::MAX
}

/// Decides whether the number of pixels of the widget is a 32-bit number.
pub fn picture_has_room(dpi: u32) -> (r: bool)
    ensures
        r == picture_fits(dpi),
{
    let width: i64 = unbounded_width(dpi);
    let height: i64 = sc(WIDGET_HEIGHT, dpi) as i64;
    if width > i32::MAX as i64 {
        return false;
    }
    assert(0 <= width * height <= 0x7fff_ffff * 0x7fff_ffff) by (nonlinear_arith)
        requires
            0 <= width <= 0x7fff_ffff,
            0 <= height <= 0x7fff_ffff,
    ;
    width * height <= i32::MAX as i64
}

/// How a widget in the given state is brought up to date.
pub open spec fn render_plan(s: Option<StateView>, dpi: int) -> RenderPlan {
    match s {
        None => RenderPlan::Nothing,
        Some(s) => if s.embedded {
            RenderPlan::Picture(
                PictureFrame {
                    hwnd: s.hwnd,
                    is_dark: s.is_dark,
                    width: widget_width(dpi) as i32,
                    height: widget_height(dpi) as i32,
                    pixel_count: (widget_width(dpi) * widget_height(dpi)) as usize,
                    background: color_code(palette_for(s.is_dark).background) as u32,
                },
            )
        } else {
            RenderPlan::Invalidate(s.hwnd)
        },
    }
}

/// Decides how the widget is brought up to date. A widget that is not embedded
/// draws itself like any other window.
pub fn render_layered(state: Option<&AppState>, dpi: u32) -> (r: RenderPlan)
    requires
        state_view(state) matches Some(s) ==> (s.embedded ==> picture_fits(dpi)),
    ensures
        r == render_plan(state_view(state), dpi as int),
{
    match state {
        None => RenderPlan::Nothing,
        Some(s) => {
            if !s.embedded {
                return RenderPlan::Invalidate(s.hwnd);
            }
            let width: i32 = total_widget_width(dpi);
            let height: i32 = sc(WIDGET_HEIGHT, dpi);
            assert(0 <= width * height) by (nonlinear_arith)
                requires
                    0 <= width,
                    0 <= height,
            ;
            RenderPlan::Picture(
                PictureFrame {
                    hwnd: s.hwnd,
                    is_dark: s.is_dark,
                    width,
                    height,
                    pixel_count: (width * height) as usize,
                    background: colorref(palette(s.is_dark).background),
                },
            )
        },
    }
}

// ---------------------------------------------------------------------------
// What a picture shows
// ---------------------------------------------------------------------------

/// Whether something fills a rectangle, all of it or the part that a percentage
/// takes, in a colour.
pub open spec fn colors_in(op: OpView, rect: Rect, color: Color) -> bool {
    match op {
        OpView::Rounded(r, c, _) => r == rect && c == color,
        OpView::Part(r, _, _, c, _) => r == rect && c == color,
        _ => false,
    }
}

/// Whether anything in a list fills a rectangle in a colour.
pub open spec fn colored(ops: Seq<OpView>, rect: Rect, color: Color) -> bool {
    exists|t: int| 0 <= t < ops.len() && colors_in(#[trigger] ops[t], rect, color)
}

/// The rectangle with the given upper left corner and size.
pub open spec fn box_at(x: int, y: int, width: int, height: int) -> Rect {
    Rect { left: x as i32, top: y as i32, right: (x + width) as i32, bottom: (y + height) as i32 }
}

proof fn lemma_either_part<A>(a: Seq<A>, b: Seq<A>, x: A)
    ensures
        (a + b).contains(x) <==> a.contains(x) || b.contains(x),
{
    if a.contains(x) {
        let i = choose|i: int| 0 <= i < a.len() && a[i] == x;
        assert((a + b)[i] == x);
    }
    if b.contains(x) {
        let i = choose|i: int| 0 <= i < b.len() && b[i] == x;
        assert((a + b)[a.len() + i] == x);
    }
}

spec fn segment_has(
    i: int,
    percent: PercentView,
    x: int,
    y: int,
    colors: Palette,
    dpi: int,
    op: OpView,
) -> bool {
    segment_ops(
        row_segment(i, percent, x, y, dpi),
        i,
        percent,
        colors,
        scaled(CORNER_RADIUS as int, dpi),
    ).contains(op)
}

proof fn lemma_bar_parts(
    n: nat,
    percent: PercentView,
    x: int,
    y: int,
    colors: Palette,
    dpi: int,
    op: OpView,
)
    ensures
        bar_ops(n, percent, x, y, colors, dpi).contains(op) <==> exists|i: int|
            0 <= i < n && #[trigger] segment_has(i, percent, x, y, colors, dpi, op),
    decreases n,
{
    if n > 0 {
        let i = (n - 1) as nat;
        lemma_bar_parts(i, percent, x, y, colors, dpi, op);
        lemma_either_part(
            bar_ops(i, percent, x, y, colors, dpi),
            segment_ops(
                row_segment(i as int, percent, x, y, dpi),
                i as int,
                percent,
                colors,
                scaled(CORNER_RADIUS as int, dpi),
            ),
            op,
        );
        if segment_has(i as int, percent, x, y, colors, dpi, op) {
            assert(0 <= i < n);
        }
    }
}

spec fn row_has(row: RowView, y: int, colors: Palette, dpi: int, op: OpView) -> bool {
    let text_x = bar_x(dpi) + bar_width(dpi) + scaled(BAR_RIGHT_MARGIN as int, dpi);
    ||| op == OpView::Text(
        row_part(label_x(dpi), y, scaled(LABEL_WIDTH as int, dpi), dpi),
        row.label,
    )
    ||| op == OpView::Text(
        row_part(text_x, y, scaled(TEXT_WIDTH as int, dpi), dpi),
        short_form(row.text),
    )
    ||| exists|i: int|
        0 <= i < 10 && #[trigger] segment_has(i, row.percent, bar_x(dpi), y, colors, dpi, op)
}

proof fn lemma_row_parts(row: RowView, y: int, colors: Palette, dpi: int, op: OpView)
    ensures
        row_ops(row, y, colors, dpi).contains(op) <==> row_has(row, y, colors, dpi, op),
{
    let text_x = bar_x(dpi) + bar_width(dpi) + scaled(BAR_RIGHT_MARGIN as int, dpi);
    let a = seq![
        OpView::Text(
            row_part(label_x(dpi), y, scaled(LABEL_WIDTH as int, dpi), dpi),
            row.label,
        ),
    ];
    let b = bar_ops(10, row.percent, bar_x(dpi), y, colors, dpi);
    let c = seq![
        OpView::Text(
            row_part(text_x, y, scaled(TEXT_WIDTH as int, dpi), dpi),
            short_form(row.text),
        ),
    ];
    lemma_either_part(a, b, op);
    lemma_either_part(a + b, c, op);
    lemma_bar_parts(10, row.percent, bar_x(dpi), y, colors, dpi, op);
    assert(a.contains(a[0]));
    assert(c.contains(c[0]));
}

spec fn rows_have(
    n: int,
    rows: Seq<RowView>,
    tops: Seq<int>,
    colors: Palette,
    dpi: int,
    op: OpView,
) -> bool {
    exists|k: int| 0 <= k < n && #[trigger] row_has(rows[k], tops[k], colors, dpi, op)
}

proof fn lemma_rows_parts(
    n: nat,
    rows: Seq<RowView>,
    tops: Seq<int>,
    colors: Palette,
    dpi: int,
    op: OpView,
)
    ensures
        rows_ops(n, rows, tops, colors, dpi).contains(op) <==> rows_have(
            n as int,
            rows,
            tops,
            colors,
            dpi,
            op,
        ),
    decreases n,
{
    if n > 0 {
        let i = n - 1;
        lemma_rows_parts(i as nat, rows, tops, colors, dpi, op);
        lemma_row_parts(rows[i], tops[i], colors, dpi, op);
        lemma_either_part(
            rows_ops(i as nat, rows, tops, colors, dpi),
            row_ops(rows[i], tops[i], colors, dpi),
            op,
        );
        if row_has(rows[i], tops[i], colors, dpi, op) {
            assert(0 <= i < n);
        }
    }
}

proof fn lemma_picture_parts(
    width: int,
    height: int,
    is_dark: bool,
    rows: Seq<RowView>,
    dpi: int,
    op: OpView,
)
    ensures
        content_ops(width, height, is_dark, rows, dpi).contains(op) <==> frame_ops(
            width,
            height,
            palette_for(is_dark),
            dpi,
        ).contains(op) || rows_have(
            drawn_rows(rows.len()) as int,
            rows,
            row_tops(height, rows.len(), dpi),
            palette_for(is_dark),
            dpi,
            op,
        ),
{
    let colors = palette_for(is_dark);
    let tops = row_tops(height, rows.len(), dpi);
    lemma_rows_parts(drawn_rows(rows.len()), rows, tops, colors, dpi, op);
    lemma_either_part(
        frame_ops(width, height, colors, dpi),
        rows_ops(drawn_rows(rows.len()), rows, tops, colors, dpi),
        op,
    );
}

proof fn lemma_colored(ops: Seq<OpView>, rect: Rect, color: Color, op: OpView)
    requires
        ops.contains(op),
        colors_in(op, rect, color),
    ensures
        colored(ops, rect, color),
{
    let t = choose|t: int| 0 <= t < ops.len() && ops[t] == op;
    assert(colors_in(ops[t], rect, color));
}

/// The rectangle of segment `i` in row `k`: segments stand side by side behind the
/// divider and the label, each with a gap behind it.
pub open spec fn segment_box(height: int, rows: nat, k: int, i: int, dpi: int) -> Rect {
    box_at(
        scaled(3, dpi) + scaled(10, dpi) + scaled(18, dpi) + scaled(10, dpi) + i * (scaled(10, dpi)
            + scaled(1, dpi)),
        row_tops(height, rows, dpi)[k],
        scaled(10, dpi),
        scaled(13, dpi),
    )
}

proof fn lemma_segment_boxes(height: i32, rows: nat, k: int, i: int, l: int, j: int, dpi: u32)
    requires
        content_fits(height, rows, dpi),
        0 <= k < rows,
        k < 2,
        0 <= l < rows,
        l < 2,
        0 <= i < 10,
        0 <= j < 10,
        5 <= dpi,
    ensures
        ({
            let d = dpi as int;
            let a = segment_box(height as int, rows, k, i, d);
            let b = segment_box(height as int, rows, l, j, d);
            let left = bar_x(d) + i * (scaled(10, d) + scaled(1, d));
            &&& a == b ==> k == l && i == j
            &&& a.left == left
            &&& a.right == left + scaled(10, d)
            &&& a.top == row_tops(height as int, rows, d)[k]
            &&& a.bottom == a.top + scaled(13, d)
        }),
{
    let d = dpi as int;
    let pitch = scaled(10, d) + scaled(1, d);
    assert(0 <= i * pitch <= 9 * pitch && 0 <= j * pitch <= 9 * pitch) by (nonlinear_arith)
        requires
            0 <= i < 10,
            0 <= j < 10,
            0 <= pitch,
    ;
    if i * pitch == j * pitch {
        assert(i == j) by (nonlinear_arith)
            requires
                i * pitch == j * pitch,
                pitch > 0,
        ;
    }
}

#[verifier::rlimit(30)]
proof fn lemma_which_segment(
    width: i32,
    height: i32,
    is_dark: bool,
    rows: Seq<RowView>,
    dpi: u32,
    k: int,
    i: int,
    op: OpView,
    color: Color,
)
    requires
        content_fits(height, rows.len(), dpi),
        0 <= k < rows.len(),
        k < 2,
        0 <= i < 10,
        5 <= dpi,
        content_ops(width as int, height as int, is_dark, rows, dpi as int).contains(op),
        colors_in(op, segment_box(height as int, rows.len(), k, i, dpi as int), color),
    ensures
        segment_has(
            i,
            rows[k].percent,
            bar_x(dpi as int),
            row_tops(height as int, rows.len(), dpi as int)[k],
            palette_for(is_dark),
            dpi as int,
            op,
        ),
{
    let d = dpi as int;
    let colors = palette_for(is_dark);
    let tops = row_tops(height as int, rows.len(), d);
    lemma_picture_parts(width as int, height as int, is_dark, rows, d, op);
    let l = choose|l: int|
        0 <= l < drawn_rows(rows.len()) && #[trigger] row_has(rows[l], tops[l], colors, d, op);
    let j = choose|j: int|
        0 <= j < 10 && #[trigger] segment_has(
            j,
            rows[l].percent,
            bar_x(d),
            tops[l],
            colors,
            d,
            op,
        );
    lemma_segment_boxes(height, rows.len(), k, i, l, j, dpi);
    lemma_segment_boxes(height, rows.len(), l, j, k, i, dpi);
    let found = segment_box(height as int, rows.len(), l, j, d);
    assert(row_segment(j, rows[l].percent, bar_x(d), tops[l], d).rect == found);
}

proof fn lemma_segment_is_drawn(
    width: i32,
    height: i32,
    is_dark: bool,
    rows: Seq<RowView>,
    dpi: u32,
    k: int,
    i: int,
    op: OpView,
)
    requires
        content_fits(height, rows.len(), dpi),
        0 <= k < rows.len(),
        k < 2,
        0 <= i < 10,
        segment_has(
            i,
            rows[k].percent,
            bar_x(dpi as int),
            row_tops(height as int, rows.len(), dpi as int)[k],
            palette_for(is_dark),
            dpi as int,
            op,
        ),
    ensures
        content_ops(width as int, height as int, is_dark, rows, dpi as int).contains(op),
{
    let d = dpi as int;
    let tops = row_tops(height as int, rows.len(), d);
    lemma_picture_parts(width as int, height as int, is_dark, rows, d, op);
    assert(row_has(rows[k], tops[k], palette_for(is_dark), d, op));
    assert(0 <= k < drawn_rows(rows.len()));
}

/// Whether `next` directly follows `op` wherever that stands in a list.
pub open spec fn followed_by(ops: Seq<OpView>, op: OpView, next: OpView) -> bool {
    forall|t: int|
        0 <= t < ops.len() && #[trigger] ops[t] == op ==> t + 1 < ops.len() && ops[t + 1] == next
}

proof fn lemma_followed_in_both(a: Seq<OpView>, b: Seq<OpView>, op: OpView, next: OpView)
    requires
        followed_by(a, op, next),
        followed_by(b, op, next),
    ensures
        followed_by(a + b, op, next),
{
    let all = a + b;
    assert forall|t: int| 0 <= t < all.len() && #[trigger] all[t] == op implies t + 1 < all.len()
        && all[t + 1] == next by {
        if t < a.len() {
            assert(a[t] == op);
            assert(all[t + 1] == a[t + 1]);
        } else {
            assert(b[t - a.len()] == op);
            assert(all[t + 1] == b[t - a.len() + 1]);
        }
    }
}

proof fn lemma_followed_in_bar(
    n: nat,
    percent: PercentView,
    x: int,
    y: int,
    colors: Palette,
    dpi: int,
    op: OpView,
    next: OpView,
)
    requires
        forall|j: int|
            0 <= j < n && #[trigger] segment_has(j, percent, x, y, colors, dpi, op) ==> segment_ops(
                row_segment(j, percent, x, y, dpi),
                j,
                percent,
                colors,
                scaled(CORNER_RADIUS as int, dpi),
            ) == seq![op, next],
        op != next,
    ensures
        followed_by(bar_ops(n, percent, x, y, colors, dpi), op, next),
    decreases n,
{
    if n > 0 {
        let i = (n - 1) as nat;
        let last = segment_ops(
            row_segment(i as int, percent, x, y, dpi),
            i as int,
            percent,
            colors,
            scaled(CORNER_RADIUS as int, dpi),
        );
        lemma_followed_in_bar(i, percent, x, y, colors, dpi, op, next);
        assert forall|t: int| 0 <= t < last.len() && #[trigger] last[t] == op implies t + 1
            < last.len() && last[t + 1] == next by {
            assert(segment_has(i as int, percent, x, y, colors, dpi, op));
            assert(last == seq![op, next]);
        }
        lemma_followed_in_both(bar_ops(i, percent, x, y, colors, dpi), last, op, next);
    }
}

proof fn lemma_followed_in_rows(
    n: nat,
    rows: Seq<RowView>,
    tops: Seq<int>,
    colors: Palette,
    dpi: int,
    op: OpView,
    next: OpView,
)
    requires
        forall|l: int, j: int|
            0 <= l < n && 0 <= j < 10 && #[trigger] segment_has(
                j,
                rows[l].percent,
                bar_x(dpi),
                tops[l],
                colors,
                dpi,
                op,
            ) ==> segment_ops(
                row_segment(j, rows[l].percent, bar_x(dpi), tops[l], dpi),
                j,
                rows[l].percent,
                colors,
                scaled(CORNER_RADIUS as int, dpi),
            ) == seq![op, next],
        op !is Text,
        op != next,
    ensures
        followed_by(rows_ops(n, rows, tops, colors, dpi), op, next),
    decreases n,
{
    if n > 0 {
        let i = n - 1;
        let row = rows[i];
        let y = tops[i];
        lemma_followed_in_rows(i as nat, rows, tops, colors, dpi, op, next);
        let bar = bar_ops(10, row.percent, bar_x(dpi), y, colors, dpi);
        lemma_followed_in_bar(10, row.percent, bar_x(dpi), y, colors, dpi, op, next);
        let whole = row_ops(row, y, colors, dpi);
        let name = seq![whole[0]];
        let text = seq![whole.last()];
        assert(whole =~= name + bar + text);
        lemma_followed_in_both(name, bar, op, next);
        lemma_followed_in_both(name + bar, text, op, next);
        lemma_followed_in_both(rows_ops(i as nat, rows, tops, colors, dpi), whole, op, next);
    }
}

proof fn lemma_partly_filled(
    height: i32,
    is_dark: bool,
    rows: Seq<RowView>,
    dpi: u32,
    k: int,
    i: int,
    l: int,
    j: int,
)
    requires
        content_fits(height, rows.len(), dpi),
        5 <= dpi,
        0 <= k < rows.len(),
        k < 2,
        0 <= i < 10,
        0 <= l < rows.len(),
        l < 2,
        0 <= j < 10,
        fill_of(rows[k].percent.remaining as int, i) == SegmentFill::Partial,
        segment_has(
            j,
            rows[l].percent,
            bar_x(dpi as int),
            row_tops(height as int, rows.len(), dpi as int)[l],
            palette_for(is_dark),
            dpi as int,
            OpView::Rounded(
                segment_box(height as int, rows.len(), k, i, dpi as int),
                palette_for(is_dark).track,
                scaled(CORNER_RADIUS as int, dpi as int) as i32,
            ),
        ),
    ensures
        ({
            let d = dpi as int;
            let rect = segment_box(height as int, rows.len(), k, i, d);
            let colors = palette_for(is_dark);
            let radius = scaled(CORNER_RADIUS as int, d);
            segment_ops(
                row_segment(
                    j,
                    rows[l].percent,
                    bar_x(d),
                    row_tops(height as int, rows.len(), d)[l],
                    d,
                ),
                j,
                rows[l].percent,
                colors,
                radius,
            ) == seq![
                OpView::Rounded(rect, colors.track, radius as i32),
                OpView::Part(rect, i as i32, rows[k].percent, colors.accent, radius as i32),
            ]
        }),
{
    let d = dpi as int;
    let y = row_tops(height as int, rows.len(), d)[l];
    let segment = row_segment(j, rows[l].percent, bar_x(d), y, d);
    lemma_segment_boxes(height, rows.len(), k, i, l, j, dpi);
    lemma_segment_boxes(height, rows.len(), l, j, k, i, dpi);
    assert(segment.rect == segment_box(height as int, rows.len(), l, j, d));
    assert(segment.rect == segment_box(height as int, rows.len(), k, i, d));
    assert(k == l && i == j);
}

/// Where a part of a segment is left, that part is drawn directly after the grey of the
/// segment, every time, so it is never covered by it.
#[verifier::rlimit(30)]
pub proof fn law_parts_are_drawn_on_top(
    width: i32,
    height: i32,
    is_dark: bool,
    rows: Seq<RowView>,
    dpi: u32,
    k: int,
    i: int,
)
    requires
        content_fits(height, rows.len(), dpi),
        5 <= dpi,
        0 <= k < rows.len(),
        k < 2,
        rows[k].percent.valid(),
        0 <= i < 10,
        !at_least(rows[k].percent.remaining as int, 10 * (i + 1)),
        !at_most(rows[k].percent.remaining as int, 10 * i),
    ensures
        ({
            let rect = segment_box(height as int, rows.len(), k, i, dpi as int);
            let grey: u8 = if is_dark {
                0x44
            } else {
                0xaa
            };
            let radius = scaled(2, dpi as int) as i32;
            followed_by(
                content_ops(width as int, height as int, is_dark, rows, dpi as int),
                OpView::Rounded(rect, Color { red: grey, green: grey, blue: grey }, radius),
                OpView::Part(
                    rect,
                    i as i32,
                    rows[k].percent,
                    Color { red: 0x3b, green: 0xaf, blue: 0xda },
                    radius,
                ),
            )
        }),
{
    let d = dpi as int;
    let colors = palette_for(is_dark);
    let tops = row_tops(height as int, rows.len(), d);
    let rect = segment_box(height as int, rows.len(), k, i, d);
    let radius = scaled(CORNER_RADIUS as int, d) as i32;
    let op = OpView::Rounded(rect, colors.track, radius);
    let next = OpView::Part(rect, i as i32, rows[k].percent, colors.accent, radius);
    law_segments_stand_for_ten_percent(rows[k].percent.remaining as int, i);
    let n = drawn_rows(rows.len());
    assert forall|l: int, j: int|
        0 <= l < n && 0 <= j < 10 && #[trigger] segment_has(
            j,
            rows[l].percent,
            bar_x(d),
            tops[l],
            colors,
            d,
            op,
        ) implies segment_ops(
        row_segment(j, rows[l].percent, bar_x(d), tops[l], d),
        j,
        rows[l].percent,
        colors,
        scaled(CORNER_RADIUS as int, d),
    ) == seq![op, next] by {
        lemma_partly_filled(height, is_dark, rows, dpi, k, i, l, j);
    }
    lemma_followed_in_rows(n, rows, tops, colors, d, op, next);
    lemma_followed_in_both(
        frame_ops(width as int, height as int, colors, d),
        rows_ops(n, rows, tops, colors, d),
        op,
        next,
    );
}

/// A bar shows how much is left. A segment whose ten percent are left is filled in
/// the accent colour and nowhere in the grey of the track; one of whose ten percent
/// nothing is left is filled in that grey and nowhere in the accent colour; and one
/// of whose ten percent a part is left is filled in grey, with the part that the
/// percentage takes in the accent colour.
pub proof fn law_picture_shows_what_remains(
    width: i32,
    height: i32,
    is_dark: bool,
    rows: Seq<RowView>,
    dpi: u32,
    k: int,
    i: int,
)
    requires
        content_fits(height, rows.len(), dpi),
        5 <= dpi,
        0 <= k < rows.len(),
        k < 2,
        rows[k].percent.valid(),
        0 <= i < 10,
    ensures
        ({
            let ops = content_ops(width as int, height as int, is_dark, rows, dpi as int);
            let rect = segment_box(height as int, rows.len(), k, i, dpi as int);
            let accent = Color { red: 0x3b, green: 0xaf, blue: 0xda };
            let grey: u8 = if is_dark {
                0x44
            } else {
                0xaa
            };
            let track = Color { red: grey, green: grey, blue: grey };
            let left = rows[k].percent.remaining as int;
            &&& at_least(left, 10 * (i + 1)) ==> colored(ops, rect, accent) && !colored(
                ops,
                rect,
                track,
            )
            &&& at_most(left, 10 * i) ==> colored(ops, rect, track) && !colored(ops, rect, accent)
            &&& !at_least(left, 10 * (i + 1)) && !at_most(left, 10 * i) ==> {
                &&& ops.contains(OpView::Rounded(rect, track, scaled(2, dpi as int) as i32))
                &&& ops.contains(
                    OpView::Part(
                        rect,
                        i as i32,
                        rows[k].percent,
                        accent,
                        scaled(2, dpi as int) as i32,
                    ),
                )
                &&& !ops.contains(OpView::Rounded(rect, accent, scaled(2, dpi as int) as i32))
            }
        }),
{
    let d = dpi as int;
    let ops = content_ops(width as int, height as int, is_dark, rows, d);
    let rect = segment_box(height as int, rows.len(), k, i, d);
    let colors = palette_for(is_dark);
    let left = rows[k].percent.remaining as int;
    let radius = scaled(CORNER_RADIUS as int, d);
    let segment = row_segment(
        i,
        rows[k].percent,
        bar_x(d),
        row_tops(height as int, rows.len(), d)[k],
        d,
    );
    let all = segment_ops(segment, i, rows[k].percent, colors, radius);
    lemma_segment_boxes(height, rows.len(), k, i, k, i, dpi);
    assert(segment.rect == rect);
    law_segments_stand_for_ten_percent(left, i);
    let full = OpView::Rounded(rect, colors.accent, radius as i32);
    let empty = OpView::Rounded(rect, colors.track, radius as i32);
    let part = OpView::Part(rect, i as i32, rows[k].percent, colors.accent, radius as i32);
    assert forall|t: int, c: Color|
        0 <= t < ops.len() && #[trigger] colors_in(ops[t], rect, c) implies all.contains(
        ops[t],
    ) by {
        assert(ops.contains(ops[t]));
        lemma_which_segment(width, height, is_dark, rows, dpi, k, i, ops[t], c);
    }
    if segment.fill == SegmentFill::Full {
        assert(all[0] == full);
        lemma_segment_is_drawn(width, height, is_dark, rows, dpi, k, i, full);
        lemma_colored(ops, rect, colors.accent, full);
    } else if segment.fill == SegmentFill::Empty {
        assert(all[0] == empty);
        lemma_segment_is_drawn(width, height, is_dark, rows, dpi, k, i, empty);
        lemma_colored(ops, rect, colors.track, empty);
    } else {
        assert(all[0] == empty && all[1] == part);
        lemma_segment_is_drawn(width, height, is_dark, rows, dpi, k, i, empty);
        lemma_segment_is_drawn(width, height, is_dark, rows, dpi, k, i, part);
        if ops.contains(full) {
            lemma_which_segment(width, height, is_dark, rows, dpi, k, i, full, colors.accent);
        }
    }
}

/// The name of row `k` where it stands: behind the divider.
pub open spec fn name_of_row(height: int, rows: Seq<RowView>, k: int, dpi: int) -> OpView {
    OpView::Text(
        box_at(
            scaled(3, dpi) + scaled(10, dpi),
            row_tops(height, rows.len(), dpi)[k],
            scaled(18, dpi),
            scaled(13, dpi),
        ),
        rows[k].label,
    )
}

/// The short form of the text of row `k` where it stands: behind the name and ten
/// segments with nine gaps between them.
pub open spec fn text_of_row(height: int, rows: Seq<RowView>, k: int, dpi: int) -> OpView {
    OpView::Text(
        box_at(
            scaled(3, dpi) + scaled(10, dpi) + scaled(18, dpi) + scaled(10, dpi) + 10 * scaled(
                10,
                dpi,
            ) + 9 * scaled(1, dpi) + scaled(3, dpi),
            row_tops(height, rows.len(), dpi)[k],
            scaled(86, dpi),
            scaled(13, dpi),
        ),
        short_form(rows[k].text),
    )
}

proof fn lemma_texts_of_row(height: int, rows: Seq<RowView>, k: int, dpi: int)
    ensures
        ({
            let y = row_tops(height, rows.len(), dpi)[k];
            let text_x = bar_x(dpi) + bar_width(dpi) + scaled(BAR_RIGHT_MARGIN as int, dpi);
            &&& name_of_row(height, rows, k, dpi) == OpView::Text(
                row_part(label_x(dpi), y, scaled(LABEL_WIDTH as int, dpi), dpi),
                rows[k].label,
            )
            &&& text_of_row(height, rows, k, dpi) == OpView::Text(
                row_part(text_x, y, scaled(TEXT_WIDTH as int, dpi), dpi),
                short_form(rows[k].text),
            )
        }),
{
    law_widths_add_up(dpi);
}

/// Beside each bar stand the name of its window and the short form of its text, the name
/// before the bar and the text behind it.
pub proof fn law_picture_names_the_rows(
    width: i32,
    height: i32,
    is_dark: bool,
    rows: Seq<RowView>,
    dpi: u32,
    k: int,
)
    requires
        0 <= k < rows.len(),
        k < 2,
    ensures
        ({
            let ops = content_ops(width as int, height as int, is_dark, rows, dpi as int);
            &&& ops.contains(name_of_row(height as int, rows, k, dpi as int))
            &&& ops.contains(text_of_row(height as int, rows, k, dpi as int))
        }),
{
    let d = dpi as int;
    let colors = palette_for(is_dark);
    let tops = row_tops(height as int, rows.len(), d);
    let name = name_of_row(height as int, rows, k, d);
    let text = text_of_row(height as int, rows, k, d);
    lemma_texts_of_row(height as int, rows, k, d);
    assert(row_has(rows[k], tops[k], colors, d, name));
    assert(row_has(rows[k], tops[k], colors, d, text));
    assert(0 <= k < drawn_rows(rows.len()));
    lemma_picture_parts(width as int, height as int, is_dark, rows, d, name);
    lemma_picture_parts(width as int, height as int, is_dark, rows, d, text);
}

/// No text is drawn but the names and the texts of the first two rows.
pub proof fn law_picture_has_no_other_text(
    width: i32,
    height: i32,
    is_dark: bool,
    rows: Seq<RowView>,
    dpi: u32,
    op: OpView,
)
    requires
        op is Text,
        content_ops(width as int, height as int, is_dark, rows, dpi as int).contains(op),
    ensures
        exists|k: int|
            0 <= k < rows.len() && k < 2 && (op == #[trigger] name_of_row(
                height as int,
                rows,
                k,
                dpi as int,
            ) || op == text_of_row(height as int, rows, k, dpi as int)),
{
    let d = dpi as int;
    let colors = palette_for(is_dark);
    let tops = row_tops(height as int, rows.len(), d);
    lemma_picture_parts(width as int, height as int, is_dark, rows, d, op);
    let k = choose|k: int|
        0 <= k < drawn_rows(rows.len()) && #[trigger] row_has(rows[k], tops[k], colors, d, op);
    lemma_texts_of_row(height as int, rows, k, d);
    assert forall|i: int|
        0 <= i < 10 implies !(#[trigger] segment_has(
        i,
        rows[k].percent,
        bar_x(d),
        tops[k],
        colors,
        d,
        op,
    )) by {}
    assert(op == name_of_row(height as int, rows, k, d) || op == text_of_row(
        height as int,
        rows,
        k,
        d,
    ));
}

/// Under everything lies the background, and what is filled on it is the divider
/// alone: two strips side by side at the left edge, in the middle of the height,
/// neither of which reaches under the names of the rows.
#[verifier::rlimit(30)]
pub proof fn law_picture_has_a_background(
    width: i32,
    height: i32,
    is_dark: bool,
    rows: Seq<RowView>,
    dpi: u32,
    t: int,
)
    requires
        content_fits(height, rows.len(), dpi),
        0 <= t < content_ops(width as int, height as int, is_dark, rows, dpi as int).len(),
    ensures
        ({
            let d = dpi as int;
            let ops = content_ops(width as int, height as int, is_dark, rows, d);
            let grey = |level: u8| Color { red: level, green: level, blue: level };
            let (ground, outer, inner): (u8, u8, u8) = if is_dark {
                (0x1c, 80, 40)
            } else {
                (0xf3, 160, 230)
            };
            &&& ops.len() >= 3
            &&& ops[0] == OpView::Fill(
                Rect { left: 0, top: 0, right: width, bottom: height },
                grey(ground),
            )
            &&& ops[1] matches OpView::Fill(a, ca) && ops[2] matches OpView::Fill(b, cb) && {
                &&& ca == grey(outer)
                &&& cb == grey(inner)
                &&& a.left == 0
                &&& a.right == b.left == scaled(2, d)
                &&& b.right == scaled(3, d) <= scaled(3, d) + scaled(10, d)
                &&& a.top == b.top
                &&& a.bottom == b.bottom == a.top + scaled(25, d)
                &&& -1 <= (height - a.bottom) - a.top <= 1
            }
            &&& t >= 3 ==> ops[t] !is Fill
        }),
{
    let d = dpi as int;
    let colors = palette_for(is_dark);
    let ops = content_ops(width as int, height as int, is_dark, rows, d);
    let tops = row_tops(height as int, rows.len(), d);
    let frame = frame_ops(width as int, height as int, colors, d);
    let rest = rows_ops(drawn_rows(rows.len()), rows, tops, colors, d);
    assert(ops[0] == frame[0] && ops[1] == frame[1] && ops[2] == frame[2]);
    if t >= 3 {
        assert(ops[t] == rest[t - 3]);
        assert(rest.contains(ops[t]));
        lemma_rows_parts(drawn_rows(rows.len()), rows, tops, colors, d, ops[t]);
    }
}

/// A widget that is embedded is drawn in a picture as large as the widget, with as many
/// pixels, in the colours of its theme; one that is not draws itself.
pub proof fn law_pictures_are_as_large_as_the_widget(s: StateView, dpi: u32)
    requires
        picture_fits(dpi),
    ensures
        render_plan(None, dpi as int) == RenderPlan::Nothing,
        !s.embedded ==> render_plan(Some(s), dpi as int) == RenderPlan::Invalidate(s.hwnd),
        s.embedded ==> (render_plan(Some(s), dpi as int) matches RenderPlan::Picture(frame) && {
            &&& frame.hwnd == s.hwnd
            &&& frame.is_dark == s.is_dark
            &&& frame.width == widget_width(dpi as int)
            &&& frame.height == widget_height(dpi as int)
            &&& frame.pixel_count == frame.width * frame.height
            &&& frame.background == (if s.is_dark {
                0x1c1c1cint
            } else {
                0xf3f3f3
            })
        }),
{
    let w = widget_width(dpi as int);
    let h = widget_height(dpi as int);
    assert(0 <= w * h) by (nonlinear_arith)
        requires
            0 <= w,
            0 <= h,
    ;
}

/// The picture of the widget fits on every screen of up to 40000 dots per inch.
pub proof fn law_pictures_fit(dpi: u32)
    requires
        dpi <= 40_000,
    ensures
        picture_fits(dpi),
{
    let w = widget_width(dpi as int);
    let h = widget_height(dpi as int);
    assert(0 <= w <= 99_700 && 0 <= h <= 19_200);
    assert(w * h <= 99_700 * 19_200) by (nonlinear_arith)
        requires
            0 <= w <= 99_700,
            0 <= h <= 19_200,
    ;
}

/// What is to be drawn is seen as it is.
pub proof fn law_drawings_are_seen(
    ops: Seq<DrawOp>,
    rect: Rect,
    color: Color,
    text: String,
    n: i32,
    percent: Percent,
    i: int,
)
    ensures
        op_views(ops).len() == ops.len(),
        0 <= i < ops.len() ==> op_views(ops)[i] == ops[i]@,
        DrawOp::Fill(rect, color)@ == OpView::Fill(rect, color),
        DrawOp::Text(rect, text)@ == OpView::Text(rect, text@),
        DrawOp::Rounded(rect, color, n)@ == OpView::Rounded(rect, color, n),
        DrawOp::Part(rect, n, percent, color, n)@ == OpView::Part(rect, n, percent@, color, n),
{
}

/// Nothing is drawn with rounded corners but the segments of the first two rows.
pub proof fn law_picture_has_no_other_bars(
    width: i32,
    height: i32,
    is_dark: bool,
    rows: Seq<RowView>,
    dpi: u32,
    op: OpView,
)
    requires
        content_fits(height, rows.len(), dpi),
        5 <= dpi,
        op is Rounded || op is Part,
        content_ops(width as int, height as int, is_dark, rows, dpi as int).contains(op),
    ensures
        exists|k: int, i: int|
            {
                let rect = #[trigger] segment_box(height as int, rows.len(), k, i, dpi as int);
                let radius = scaled(2, dpi as int);
                &&& 0 <= k < rows.len() && k < 2 && 0 <= i < 10
                &&& op is Rounded ==> op->Rounded_0 == rect && op->Rounded_2 == radius
                &&& op is Part ==> op->Part_0 == rect && op->Part_1 == i && op->Part_2
                    == rows[k].percent && op->Part_4 == radius
            },
{
    let d = dpi as int;
    let colors = palette_for(is_dark);
    let tops = row_tops(height as int, rows.len(), d);
    lemma_picture_parts(width as int, height as int, is_dark, rows, d, op);
    let k = choose|k: int|
        0 <= k < drawn_rows(rows.len()) && #[trigger] row_has(rows[k], tops[k], colors, d, op);
    let i = choose|i: int|
        0 <= i < 10 && #[trigger] segment_has(
            i,
            rows[k].percent,
            bar_x(d),
            tops[k],
            colors,
            d,
            op,
        );
    lemma_segment_boxes(height, rows.len(), k, i, k, i, dpi);
    let rect = segment_box(height as int, rows.len(), k, i, d);
    assert(row_segment(i, rows[k].percent, bar_x(d), tops[k], d).rect == rect);
}

} // verus!
