//! What is drawn: colours, the divider, the segments of a bar, and the pixels
//! of the finished picture.
use vstd::arithmetic::power2::lemma2_to64_rest;
use vstd::prelude::*;

use crate::layout::{
    bar_width, bar_x, half, halved, label_x, provider_bar_width, sc, scaled, Rect, BAR_RIGHT_MARGIN,
    LABEL_RIGHT_MARGIN, LABEL_WIDTH, PROVIDER_SEGMENT_COUNT, SEGMENT_H, TEXT_WIDTH,
};
use crate::layout::{segments_fit, widget_width};
use crate::models::{at_least, at_most, divisor, lemma_places_of_values, significand, PLACE_OF_100};

verus! {

// ---------------------------------------------------------------------------
// Colours
// ---------------------------------------------------------------------------

/// A colour.
#[derive(Clone, Copy, Debug, PartialEq, Eq, Structural)]
pub struct Color {
    pub red: u8,
    pub green: u8,
    pub blue: u8,
}

/// A colour as the drawing functions take it: red in the low byte.
pub open spec fn color_code(color: Color) -> int {
    color.red + 0x100 * color.green + 0x1_0000 * color.blue
}

/// A colour as the drawing functions take it.
pub fn colorref(color: Color) -> (r: u32)
    ensures
        r == color_code(color),
{
    color.red as u32 + 0x100 * color.green as u32 + 0x1_0000 * color.blue as u32
}

/// The grey in which all three parts have the same strength.
pub open spec fn gray(level: u8) -> Color {
    Color { red: level, green: level, blue: level }
}

/// The colours of the widget.
#[derive(Clone, Copy, Debug, PartialEq, Eq, Structural)]
pub struct Palette {
    pub accent: Color,
    pub track: Color,
    pub text: Color,
    pub background: Color,
    pub divider_left: Color,
    pub divider_right: Color,
    pub tooltip_background: Color,
    pub tooltip_text: Color,
}

/// The colours that go with a dark or a light taskbar.
pub open spec fn palette_for(is_dark: bool) -> Palette {
    let accent = Color { red: 0x3b, green: 0xaf, blue: 0xda };
    if is_dark {
        Palette {
            accent,
            track: gray(0x44),
            text: gray(0x88),
            background: gray(0x1c),
            divider_left: gray(80),
            divider_right: gray(40),
            tooltip_background: gray(0x2d),
            tooltip_text: gray(0xf2),
        }
    } else {
        Palette {
            accent,
            track: gray(0xaa),
            text: gray(0x40),
            background: gray(0xf3),
            divider_left: gray(160),
            divider_right: gray(230),
            tooltip_background: gray(0xfa),
            tooltip_text: gray(0x20),
        }
    }
}

fn gray_of(level: u8) -> (r: Color)
    ensures
        r == gray(level),
{
    Color { red: level, green: level, blue: level }
}

/// The colours that go with a dark or a light taskbar.
pub fn palette(is_dark: bool) -> (r: Palette)
    ensures
        r == palette_for(is_dark),
{
    let accent = Color { red: 0x3b, green: 0xaf, blue: 0xda };
    if is_dark {
        Palette {
            accent,
            track: gray_of(0x44),
            text: gray_of(0x88),
            background: gray_of(0x1c),
            divider_left: gray_of(80),
            divider_right: gray_of(40),
            tooltip_background: gray_of(0x2d),
            tooltip_text: gray_of(0xf2),
        }
    } else {
        Palette {
            accent,
            track: gray_of(0xaa),
            text: gray_of(0x40),
            background: gray_of(0xf3),
            divider_left: gray_of(160),
            divider_right: gray_of(230),
            tooltip_background: gray_of(0xfa),
            tooltip_text: gray_of(0x20),
        }
    }
}

// ---------------------------------------------------------------------------
// Pixels
// ---------------------------------------------------------------------------

/// A pixel with its opacity: a pixel of the background is nearly invisible but
/// can still be clicked on, and any other one is opaque. The opacity is in the
/// high byte.
pub open spec fn shaded(px: u32, background: u32) -> u32 {
    let rgb = px % 0x0100_0000;
    if rgb == background {
        0x0100_0000
    } else {
        (0xff00_0000 + rgb) as u32
    }
}

fn shade_pixel(px: u32, background: u32) -> (r: u32)
    ensures
        r == shaded(px, background),
{
    let rgb: u32 = px & 0x00ff_ffff;
    assert(rgb == px % 0x0100_0000) by (bit_vector)
        requires
            rgb == px & 0x00ff_ffff,
    ;
    if rgb == background {
        0x0100_0000
    } else {
        assert(rgb | 0xff00_0000 == 0xff00_0000 + rgb) by (bit_vector)
            requires
                rgb < 0x0100_0000,
        ;
        rgb | 0xff00_0000
    }
}

/// Gives every pixel of a picture its opacity.
pub fn shade_pixels(pixels: &mut Vec<u32>, background: u32)
    ensures
        final(pixels)@ == old(pixels)@.map_values(|px: u32| shaded(px, background)),
{
    let mut i: usize = 0;
    while i < pixels.len()
        invariant
            i <= pixels@.len(),
            pixels@.len() == old(pixels)@.len(),
            forall|k: int|
                0 <= k < i ==> #[trigger] pixels@[k] == shaded(old(pixels)@[k], background),
            forall|k: int| i <= k < pixels@.len() ==> #[trigger] pixels@[k] == old(pixels)@[k],
        decreases pixels@.len() - i,
    {
        let px: u32 = pixels[i];
        pixels.set(i, shade_pixel(px, background));
        i = i + 1;
    }
    assert(pixels@ =~= old(pixels)@.map_values(|px: u32| shaded(px, background)));
}

/// Whatever is not background keeps its colour and becomes opaque.
pub proof fn law_content_is_opaque(px: u32, background: u32)
    requires
        px % 0x0100_0000 != background,
    ensures
        shaded(px, background) / 0x0100_0000 == 0xff,
        shaded(px, background) % 0x0100_0000 == px % 0x0100_0000,
{
}

/// A pixel of the background can hardly be seen, but it is not quite transparent,
/// so it can be clicked on.
pub proof fn law_background_is_faint(px: u32, background: u32)
    requires
        px % 0x0100_0000 == background,
    ensures
        shaded(px, background) / 0x0100_0000 == 1,
        shaded(px, background) % 0x0100_0000 == 0,
{
}

/// A pixel of a picture in the given colour: blue is in the low byte.
pub open spec fn pixel_of(color: Color) -> u32 {
    (color.blue + 0x100 * color.green + 0x1_0000 * color.red) as u32
}

/// The background is told from everything that is drawn on it: its pixels
/// become nearly invisible, and those of every other colour become opaque.
pub proof fn law_background_is_told_apart(is_dark: bool)
    ensures
        ({
            let colors = palette_for(is_dark);
            let background = color_code(colors.background) as u32;
            &&& shaded(pixel_of(colors.background), background) == 0x0100_0000
            &&& shaded(pixel_of(colors.accent), background) / 0x0100_0000 == 0xff
            &&& shaded(pixel_of(colors.track), background) / 0x0100_0000 == 0xff
            &&& shaded(pixel_of(colors.text), background) / 0x0100_0000 == 0xff
            &&& shaded(pixel_of(colors.divider_left), background) / 0x0100_0000 == 0xff
            &&& shaded(pixel_of(colors.divider_right), background) / 0x0100_0000 == 0xff
        }),
{
}

// ---------------------------------------------------------------------------
// The frame of the picture
// ---------------------------------------------------------------------------

/// The width and the height of a window, if there is anything to draw on.
pub fn drawable_size(client: Rect) -> (r: Option<(i32, i32)>)
    requires
        i32::MIN <= client.right - client.left <= i32::MAX,
        i32::MIN <= client.bottom - client.top <= i32::MAX,
    ensures
        r is Some <==> client.left < client.right && client.top < client.bottom,
        r matches Some(size) ==> size.0 == client.right - client.left && size.1 == client.bottom
            - client.top,
{
    let width: i32 = client.right - client.left;
    let height: i32 = client.bottom - client.top;
    if width <= 0 || height <= 0 {
        None
    } else {
        Some((width, height))
    }
}

/// The upper edge of the divider in a picture of the given height.
pub open spec fn divider_top(height: int, dpi: int) -> int {
    half(height - scaled(25, dpi))
}

/// The two halves of the divider at the left of the widget, the outer one
/// first.
pub fn divider_rects(height: i32, dpi: u32) -> (r: (Rect, Rect))
    requires
        height - scaled(25, dpi as int) >= i32::MIN,
    ensures
        r.0.left == 0,
        r.0.right == scaled(2, dpi as int),
        r.1.left == r.0.right,
        r.1.right == scaled(3, dpi as int),
        r.0.top == divider_top(height as int, dpi as int),
        r.0.bottom == r.0.top + scaled(25, dpi as int),
        r.1.top == r.0.top,
        r.1.bottom == r.0.bottom,
{
    let divider_h: i32 = sc(25, dpi);
    let top: i32 = halved(height - divider_h);
    let bottom: i32 = top + divider_h;
    let middle: i32 = sc(2, dpi);
    (
        Rect { left: 0, top, right: middle, bottom },
        Rect { left: middle, top, right: sc(3, dpi), bottom },
    )
}

/// Where the parts of a row stand.
#[derive(Clone, Copy, Debug, PartialEq, Eq, Structural)]
pub struct RowLayout {
    pub label: Rect,
    /// The left edge of the bar.
    pub bar_x: i32,
    pub text: Rect,
}

/// The parts of a row whose label starts at `x` and `y`: the label, then the
/// bar, then the text, with margins between them.
pub fn row_layout(x: i32, y: i32, dpi: u32) -> (r: RowLayout)
    requires
        segments_fit(dpi),
        x + widget_width(dpi as int) - label_x(dpi as int) <= i32::MAX,
        y + scaled(SEGMENT_H as int, dpi as int) <= i32::MAX,
    ensures
        r.label.left == x,
        r.label.right == x + scaled(LABEL_WIDTH as int, dpi as int),
        r.bar_x == r.label.right + scaled(LABEL_RIGHT_MARGIN as int, dpi as int),
        r.text.left == r.bar_x + bar_width(dpi as int) + scaled(BAR_RIGHT_MARGIN as int, dpi as int),
        r.text.right == r.text.left + scaled(TEXT_WIDTH as int, dpi as int),
        r.label.top == y,
        r.label.bottom == y + scaled(SEGMENT_H as int, dpi as int),
        r.text.top == y,
        r.text.bottom == r.label.bottom,
{
    let bottom: i32 = y + sc(SEGMENT_H, dpi);
    let label_right: i32 = x + sc(LABEL_WIDTH, dpi);
    let bar_x: i32 = label_right + sc(LABEL_RIGHT_MARGIN, dpi);
    let text_x: i32 = bar_x + provider_bar_width(dpi) + sc(BAR_RIGHT_MARGIN, dpi);
    RowLayout {
        label: Rect { left: x, top: y, right: label_right, bottom },
        bar_x,
        text: Rect { left: text_x, top: y, right: text_x + sc(TEXT_WIDTH, dpi), bottom },
    }
}

// ---------------------------------------------------------------------------
// Segments
// ---------------------------------------------------------------------------

/// How a segment of a bar is drawn.
#[derive(Clone, Copy, Debug, PartialEq, Eq, Structural)]
pub enum SegmentFill {
    /// In the accent colour.
    Full,
    /// In the colour of the track.
    Empty,
    /// In the colour of the track, with a part in the accent colour.
    Partial,
}

/// The place of the double `10 * i` among the doubles, for `i` from 0 to 10.
pub open spec fn place_of_tens(i: int) -> int {
    if i <= 0 {
        0
    } else if i == 1 {
        0x4024_0000_0000_0000
    } else if i == 2 {
        0x4034_0000_0000_0000
    } else if i == 3 {
        0x403e_0000_0000_0000
    } else if i == 4 {
        0x4044_0000_0000_0000
    } else if i == 5 {
        0x4049_0000_0000_0000
    } else if i == 6 {
        0x404e_0000_0000_0000
    } else if i == 7 {
        0x4051_8000_0000_0000
    } else if i == 8 {
        0x4054_0000_0000_0000
    } else if i == 9 {
        0x4056_8000_0000_0000
    } else {
        0x4059_0000_0000_0000
    }
}

fn tens(i: i32) -> (r: i64)
    ensures
        r == place_of_tens(i as int),
{
    if i <= 0 {
        0
    } else if i == 1 {
        0x4024_0000_0000_0000
    } else if i == 2 {
        0x4034_0000_0000_0000
    } else if i == 3 {
        0x403e_0000_0000_0000
    } else if i == 4 {
        0x4044_0000_0000_0000
    } else if i == 5 {
        0x4049_0000_0000_0000
    } else if i == 6 {
        0x404e_0000_0000_0000
    } else if i == 7 {
        0x4051_8000_0000_0000
    } else if i == 8 {
        0x4054_0000_0000_0000
    } else if i == 9 {
        0x4056_8000_0000_0000
    } else {
        0x4059_0000_0000_0000
    }
}

/// The place nearest to `place` of a double from 0 to 100.
pub open spec fn clamped_place(place: int) -> int {
    if place < 0 {
        0
    } else if place > PLACE_OF_100 {
        PLACE_OF_100 as int
    } else {
        place
    }
}

/// How segment `i` is drawn when the percentage at `place` is to be shown. Each
/// segment stands for ten percent.
pub open spec fn fill_of(place: int, i: int) -> SegmentFill {
    if clamped_place(place) >= place_of_tens(i + 1) {
        SegmentFill::Full
    } else if clamped_place(place) <= place_of_tens(i) {
        SegmentFill::Empty
    } else {
        SegmentFill::Partial
    }
}

/// How segment `i` is drawn for a remaining percentage at `remaining`.
pub fn segment_fill(remaining: i64, i: i32) -> (r: SegmentFill)
    requires
        0 <= i < 10,
    ensures
        r == fill_of(remaining as int, i as int),
{
    let place: i64 = if remaining < 0 {
        0
    } else if remaining > PLACE_OF_100 {
        PLACE_OF_100
    } else {
        remaining
    };
    if place >= tens(i + 1) {
        SegmentFill::Full
    } else if place <= tens(i) {
        SegmentFill::Empty
    } else {
        SegmentFill::Partial
    }
}

/// A segment of a bar.
#[derive(Clone, Copy, Debug, PartialEq, Eq, Structural)]
pub struct Segment {
    pub rect: Rect,
    pub fill: SegmentFill,
}

/// Segment `i` of a bar at `x` and `y`.
pub open spec fn segment_at(
    i: int,
    remaining: int,
    x: int,
    y: int,
    seg_w: int,
    seg_h: int,
    seg_gap: int,
) -> Segment {
    Segment {
        rect: Rect {
            left: (x + i * (seg_w + seg_gap)) as i32,
            top: y as i32,
            right: (x + i * (seg_w + seg_gap) + seg_w) as i32,
            bottom: (y + seg_h) as i32,
        },
        fill: fill_of(remaining, i),
    }
}

/// The segments of a bar at `x` and `y` that shows a remaining percentage.
pub fn bar_segments(remaining: i64, x: i32, y: i32, seg_w: i32, seg_h: i32, seg_gap: i32) -> (r:
    Vec<Segment>)
    requires
        0 <= seg_w,
        0 <= seg_gap,
        0 <= seg_h,
        x + 9 * (seg_w + seg_gap) + seg_w <= i32::MAX,
        y + seg_h <= i32::MAX,
    ensures
        r@ == Seq::new(
            10,
            |i: int|
                segment_at(
                    i,
                    remaining as int,
                    x as int,
                    y as int,
                    seg_w as int,
                    seg_h as int,
                    seg_gap as int,
                ),
        ),
{
    let mut out: Vec<Segment> = Vec::new();
    let pitch: i64 = seg_w as i64 + seg_gap as i64;
    let mut i: i32 = 0;
    while i < PROVIDER_SEGMENT_COUNT
        invariant
            0 <= i <= 10,
            0 <= seg_w,
            0 <= seg_gap,
            pitch == seg_w + seg_gap,
            x + 9 * pitch + seg_w <= i32::MAX,
            y + seg_h <= i32::MAX,
            0 <= seg_h,
            out@.len() == i,
            forall|k: int|
                0 <= k < i ==> #[trigger] out@[k] == segment_at(
                    k,
                    remaining as int,
                    x as int,
                    y as int,
                    seg_w as int,
                    seg_h as int,
                    seg_gap as int,
                ),
        decreases 10 - i,
    {
        assert(0 <= i * pitch <= 9 * pitch) by (nonlinear_arith)
            requires
                0 <= i < 10,
                0 <= pitch,
        ;
        let left: i32 = (x as i64 + i as i64 * pitch) as i32;
        out.push(
            Segment {
                rect: Rect { left, top: y, right: left + seg_w, bottom: y + seg_h },
                fill: segment_fill(remaining, i),
            },
        );
        i = i + 1;
    }
    assert(out@ =~= Seq::new(
        10,
        |i: int|
            segment_at(
                i,
                remaining as int,
                x as int,
                y as int,
                seg_w as int,
                seg_h as int,
                seg_gap as int,
            ),
    ));
    out
}

/// The part of a segment that is drawn in the accent colour, if it is at least
/// one pixel wide.
pub fn partial_rect(segment: Rect, fill_width: i32) -> (r: Option<Rect>)
    requires
        segment.left + fill_width <= i32::MAX,
    ensures
        r == (if fill_width > 0 {
            Some(Rect { right: (segment.left + fill_width) as i32, ..segment })
        } else {
            None
        }),
{
    if fill_width > 0 {
        Some(
            Rect {
                left: segment.left,
                top: segment.top,
                right: segment.left + fill_width,
                bottom: segment.bottom,
            },
        )
    } else {
        None
    }
}

proof fn lemma_tens(i: int)
    requires
        1 <= i <= 10,
    ensures
        significand(place_of_tens(i)) == 10 * i * divisor(place_of_tens(i)),
{
    lemma2_to64_rest();
    let t = place_of_tens(i);
    if i == 1 {
        assert(divisor(t) == 0x2_0000_0000_0000);
    } else if i <= 3 {
        assert(divisor(t) == 0x1_0000_0000_0000);
    } else if i <= 6 {
        assert(divisor(t) == 0x8000_0000_0000);
    } else {
        assert(divisor(t) == 0x4000_0000_0000);
    }
}

/// Each segment stands for ten percent: it is full if at least the ten percent up
/// to its end are left, empty if at most the ten percent up to its start are, and
/// partly filled in between.
pub proof fn law_segments_stand_for_ten_percent(place: int, i: int)
    requires
        0 <= place <= PLACE_OF_100,
        0 <= i < 10,
    ensures
        fill_of(place, i) == SegmentFill::Full <==> at_least(place, 10 * (i + 1)),
        fill_of(place, i) == SegmentFill::Empty <==> at_most(place, 10 * i),
        fill_of(place, i) == SegmentFill::Partial <==> !at_least(place, 10 * (i + 1)) && !at_most(
            place,
            10 * i,
        ),
{
    lemma_tens(i + 1);
    lemma_places_of_values(place, place_of_tens(i + 1), 10 * (i + 1));
    if i > 0 {
        lemma_tens(i);
        lemma_places_of_values(place, place_of_tens(i), 10 * i);
    } else {
        let d = divisor(place);
        assert(10 * i * d == 0) by (nonlinear_arith)
            requires
                i == 0,
        ;
    }
}

/// A bar fills from the left: before a segment that is not empty all are full,
/// and after one that is not full all are empty. So at most one is partly
/// filled.
pub proof fn law_bar_fills_from_the_left(place: int, i: int, j: int)
    requires
        0 <= i < j < 10,
    ensures
        fill_of(place, j) != SegmentFill::Empty ==> fill_of(place, i) == SegmentFill::Full,
        fill_of(place, i) != SegmentFill::Full ==> fill_of(place, j) == SegmentFill::Empty,
{
}

/// With nothing left all segments are empty, and with everything left all are
/// full.
pub proof fn law_bar_ends(place: int, i: int)
    requires
        0 <= i < 10,
    ensures
        place <= 0 ==> fill_of(place, i) == SegmentFill::Empty,
        place >= PLACE_OF_100 ==> fill_of(place, i) == SegmentFill::Full,
{
}

/// A colour is taken apart again: red is in the low byte, then come green and blue.
pub proof fn law_colors_are_told_apart(color: Color)
    ensures
        color_code(color) % 0x100 == color.red,
        color_code(color) / 0x100 % 0x100 == color.green,
        color_code(color) / 0x1_0000 == color.blue,
{
}

} // verus!
