use codex_windows_taskbar::draw::{
    paint_content, picture_has_room, render_layered, rounded_region, DrawOp, RenderPlan,
};
use codex_windows_taskbar::layout::{
    bar_rect_for_row, layout_has_room, point_in_rect, point_is_over_usage_bar, pointing_has_room,
    provider_bar_width, row_ys, sc, total_widget_width, usage_bar_x, usage_label_x, Point, Rect,
};
use codex_windows_taskbar::localization::Strings;
use codex_windows_taskbar::models::{Percent, PLACE_OF_100};
use codex_windows_taskbar::paint::{
    bar_segments, colorref, divider_rects, drawable_size, palette, partial_rect, row_layout,
    segment_fill, shade_pixels, Color, SegmentFill,
};
use codex_windows_taskbar::position::{
    compute_anchor_y, drag_move, in_divider_zone, position_at_taskbar, Placement,
};
use codex_windows_taskbar::state::{AppState, DisplayRow, SettingsFile};

fn rect(left: i32, top: i32, right: i32, bottom: i32) -> Rect {
    Rect { left, top, right, bottom }
}

fn place(f: f64) -> i64 {
    f.to_bits() as i64
}

fn percent(remaining: f64) -> Percent {
    Percent::new(place(100.0 - remaining), place(remaining), remaining as u32).unwrap()
}

fn row(label: &str, remaining: f64, text: &str) -> DisplayRow {
    DisplayRow { label: label.to_string(), percent: percent(remaining), text: text.to_string() }
}

fn strings() -> Strings {
    Strings {
        window_title: "", session_window: "5h", weekly_window: "7d", now: "now", day_suffix: "d",
        hour_suffix: "h", minute_suffix: "m", second_suffix: "s", refresh: "", update_frequency: "",
        one_minute: "", five_minutes: "", fifteen_minutes: "", one_hour: "", settings: "",
        start_with_windows: "", reset_position: "", show_widget: "", exit: "",
    }
}

#[test]
fn lengths_are_scaled_like_rounded_doubles() {
    for dpi in [0u32, 1, 72, 96, 97, 120, 144, 168, 192, 480, 65535, u32::MAX] {
        for px in [0i32, 1, -1, 2, 3, -3, 10, 13, 46, 86, -12, 1000, i32::MAX, i32::MIN] {
            let expected = (px as f64 * dpi as f64 / 96.0).round() as i32;
            assert_eq!(sc(px, dpi), expected, "{} at {}", px, dpi);
        }
    }
}

#[test]
fn scaling_keeps_order_and_mirror_images() {
    assert_eq!(sc(25, 96), 25);
    assert!(sc(3, 120) <= sc(4, 120) && sc(3, 120) <= sc(3, 144));
    assert_eq!(sc(-7, 144), -sc(7, 144));
    assert!(sc(-12, 120) <= sc(-11, 120) && sc(-12, 144) <= sc(-12, 120));
}

#[test]
fn widths_add_up() {
    assert_eq!(provider_bar_width(96), 109);
    assert_eq!(usage_label_x(96), 13);
    assert_eq!(usage_bar_x(96), 41);
    assert_eq!(total_widget_width(96), 239);
    assert_eq!(provider_bar_width(144), (15 + 2) * 10 - 2);
    assert_eq!(total_widget_width(144), 5 + 15 + 27 + 15 + 168 + 5 + 129);
}

#[test]
fn rows_stand_where_they_should() {
    assert!(row_ys(46, 0, 96).is_empty());
    assert_eq!(row_ys(46, 1, 96), vec![16]);
    assert_eq!(row_ys(46, 2, 96), vec![7, 26]);
    assert_eq!(row_ys(46, 3, 96), vec![7, 26]);
    assert_eq!(row_ys(10, 1, 96), vec![-1]);
}

#[test]
fn rows_keep_their_distances_at_any_height() {
    assert!(row_ys(i32::MIN, 0, 96).is_empty());
    assert!(row_ys(i32::MIN, 0, u32::MAX).is_empty());
    assert_eq!(row_ys(i32::MIN + 13, 1, 96), vec![i32::MIN / 2]);
    assert_eq!(row_ys(i32::MAX, 1, 96), vec![1_073_741_817]);
    assert_eq!(row_ys(i32::MIN + 39, 2, 96), vec![i32::MIN, i32::MIN + 19]);
    for height in [-301, -20, 0, 1, 46, 47, 500] {
        for dpi in [0, 96, 120, 144, 191] {
            let row = sc(13, dpi);
            let one = row_ys(height, 1, dpi);
            assert_eq!(one.len(), 1);
            assert!((height - (one[0] + row) - one[0]).abs() <= 1);
            let two = row_ys(height, 5, dpi);
            assert_eq!(two.len(), 2);
            assert_eq!(two[1] + row + sc(7, dpi), height);
            assert_eq!(two[0] + row + sc(6, dpi), two[1]);
        }
    }
}

#[test]
fn bars_have_rectangles() {
    assert_eq!(bar_rect_for_row(0, 1, 96), Some(rect(41, 16, 150, 29)));
    assert_eq!(bar_rect_for_row(1, 2, 96), Some(rect(41, 26, 150, 39)));
    assert_eq!(bar_rect_for_row(1, 1, 96), None);
    assert_eq!(bar_rect_for_row(2, 3, 96), None);
}

#[test]
fn edges_belong_to_one_side() {
    let r = rect(0, 0, 10, 5);
    assert!(point_in_rect(Point { x: 0, y: 0 }, r));
    assert!(!point_in_rect(Point { x: 10, y: 0 }, r));
    assert!(!point_in_rect(Point { x: 9, y: 5 }, r));
    assert!(!point_in_rect(Point { x: -1, y: 2 }, r));
}

#[test]
fn pointing_near_a_bar_counts() {
    assert!(point_is_over_usage_bar(41, 16, 1, 96));
    assert!(point_is_over_usage_bar(38, 12, 1, 96));
    assert!(!point_is_over_usage_bar(37, 16, 1, 96));
    assert!(!point_is_over_usage_bar(60, 11, 1, 96));
    assert!(point_is_over_usage_bar(152, 32, 0, 96));
    assert!(!point_is_over_usage_bar(153, 32, 0, 96));
    assert!(!point_is_over_usage_bar(60, 2, 2, 96));
    assert!(point_is_over_usage_bar(60, 3, 2, 96));
    assert!(point_is_over_usage_bar(60, 42, 2, 96));
}

#[test]
fn colours_are_packed() {
    assert_eq!(colorref(Color { red: 0x3b, green: 0xaf, blue: 0xda }), 0xdaaf3b);
    let dark = palette(true);
    let light = palette(false);
    assert_eq!(colorref(dark.accent), 0xdaaf3b);
    assert_eq!(colorref(light.accent), 0xdaaf3b);
    assert_eq!(colorref(dark.background), 0x1c1c1c);
    assert_eq!(colorref(light.background), 0xf3f3f3);
    assert_eq!(colorref(dark.track), 0x444444);
    assert_eq!(colorref(light.track), 0xaaaaaa);
    assert_eq!(colorref(dark.text), 0x888888);
    assert_eq!(colorref(light.text), 0x404040);
    assert_eq!((dark.divider_left.red, dark.divider_right.red), (80, 40));
    assert_eq!((light.divider_left.red, light.divider_right.red), (160, 230));
    assert_eq!(colorref(dark.tooltip_background), 0x2d2d2d);
    assert_eq!(colorref(light.tooltip_background), 0xfafafa);
    assert_eq!(colorref(dark.tooltip_text), 0xf2f2f2);
    assert_eq!(colorref(light.tooltip_text), 0x202020);
}

#[test]
fn background_becomes_nearly_invisible() {
    let mut pixels = vec![0x001c1c1c, 0xff1c1c1c, 0x003bafda, 0x7f000000, 0x001c1c1d];
    shade_pixels(&mut pixels, 0x1c1c1c);
    assert_eq!(pixels, vec![0x01000000, 0x01000000, 0xff3bafda, 0xff000000, 0xff1c1c1d]);
}

#[test]
fn only_windows_with_extent_are_drawn() {
    assert_eq!(drawable_size(rect(2, 3, 10, 9)), Some((8, 6)));
    assert_eq!(drawable_size(rect(2, 3, 2, 9)), None);
    assert_eq!(drawable_size(rect(2, 3, 10, 1)), None);
}

#[test]
fn divider_is_centered() {
    assert_eq!(divider_rects(46, 96), (rect(0, 10, 2, 35), rect(2, 10, 3, 35)));
    assert_eq!(divider_rects(20, 96), (rect(0, -2, 2, 23), rect(2, -2, 3, 23)));
}

#[test]
fn rows_are_laid_out() {
    let r = row_layout(13, 7, 96);
    assert_eq!(r.label, rect(13, 7, 31, 20));
    assert_eq!(r.bar_x, 41);
    assert_eq!(r.text, rect(153, 7, 239, 20));
}

#[test]
fn segments_are_filled_by_ten_percent() {
    for remaining in [0.0f64, 0.5, 9.999, 10.0, 10.001, 35.0, 50.0, 89.9, 90.0, 99.999, 100.0] {
        for i in 0..10 {
            let start = i as f64 * 10.0;
            let expected = if remaining >= start + 10.0 {
                SegmentFill::Full
            } else if remaining <= start {
                SegmentFill::Empty
            } else {
                SegmentFill::Partial
            };
            assert_eq!(segment_fill(place(remaining), i), expected, "{} in {}", remaining, i);
        }
    }
    assert_eq!(segment_fill(-1, 0), SegmentFill::Empty);
    assert_eq!(segment_fill(place(250.0), 9), SegmentFill::Full);
    assert_eq!(place(100.0), PLACE_OF_100);
}

#[test]
fn bars_fill_from_the_left() {
    let segments = bar_segments(place(35.0), 41, 7, 10, 13, 1);
    assert_eq!(segments.len(), 10);
    assert_eq!(segments[0].rect, rect(41, 7, 51, 20));
    assert_eq!(segments[9].rect, rect(140, 7, 150, 20));
    let fills: Vec<SegmentFill> = segments.iter().map(|s| s.fill).collect();
    assert_eq!(fills[..3], [SegmentFill::Full; 3]);
    assert_eq!(fills[3], SegmentFill::Partial);
    assert_eq!(fills[4..], [SegmentFill::Empty; 6]);
}

#[test]
fn parts_have_at_least_one_pixel() {
    assert_eq!(partial_rect(rect(5, 1, 15, 9), 4), Some(rect(5, 1, 9, 9)));
    assert_eq!(partial_rect(rect(5, 1, 15, 9), 0), None);
    assert_eq!(partial_rect(rect(5, 1, 15, 9), -2), None);
}

#[test]
fn regions_reach_one_pixel_further() {
    let r = rounded_region(rect(1, 2, 3, 4), 2);
    assert_eq!((r.left, r.top, r.right, r.bottom, r.corner), (1, 2, 4, 5, 4));
}

#[test]
fn content_is_listed_in_order() {
    let rows = vec![row("5h", 35.0, "35% \u{b7} 2h"), row("7d", 100.0, "..."), row("x", 0.0, "")];
    let ops = paint_content(239, 46, true, &rows, 96);
    let colors = palette(true);
    match &ops[0] {
        DrawOp::Fill(r, c) => assert_eq!((*r, *c), (rect(0, 0, 239, 46), colors.background)),
        other => panic!("{:?}", other),
    }
    match &ops[1] {
        DrawOp::Fill(r, c) => assert_eq!((*r, *c), (rect(0, 10, 2, 35), colors.divider_left)),
        other => panic!("{:?}", other),
    }
    match &ops[2] {
        DrawOp::Fill(r, c) => assert_eq!((*r, *c), (rect(2, 10, 3, 35), colors.divider_right)),
        other => panic!("{:?}", other),
    }
    match &ops[3] {
        DrawOp::Text(r, t) => assert_eq!((*r, t.as_str()), (rect(13, 7, 31, 20), "5h")),
        other => panic!("{:?}", other),
    }
    match &ops[7] {
        DrawOp::Rounded(r, c, radius) => {
            assert_eq!((*r, *c, *radius), (rect(74, 7, 84, 20), colors.track, 2));
        }
        other => panic!("{:?}", other),
    }
    match &ops[8] {
        DrawOp::Part(r, i, p, c, radius) => {
            assert_eq!((*r, *i, *c, *radius), (rect(74, 7, 84, 20), 3, colors.accent, 2));
            assert_eq!(p.remaining(), place(35.0));
        }
        other => panic!("{:?}", other),
    }
    match &ops[15] {
        DrawOp::Text(r, t) => assert_eq!((*r, t.as_str()), (rect(153, 7, 239, 20), " 35% 2h")),
        other => panic!("{:?}", other),
    }
    match &ops[27] {
        DrawOp::Text(r, t) => assert_eq!((*r, t.as_str()), (rect(153, 26, 239, 39), "--")),
        other => panic!("{:?}", other),
    }
    assert_eq!(ops.len(), 28);
    assert_eq!(paint_content(239, 46, false, &vec![], 96).len(), 3);
}

#[test]
fn rendering_depends_on_the_attachment() {
    let settings = SettingsFile { tray_offset: 0, poll_interval_ms: 60_000, widget_visible: true };
    let mut state = AppState::new(77, settings, true, strings());
    assert_eq!(render_layered(None, 96), RenderPlan::Nothing);
    assert_eq!(render_layered(Some(&state), 96), RenderPlan::Invalidate(77));
    state.embedded = true;
    match render_layered(Some(&state), 96) {
        RenderPlan::Picture(p) => {
            assert_eq!((p.hwnd, p.is_dark, p.width, p.height), (77, true, 239, 46));
            assert_eq!((p.pixel_count, p.background), (239 * 46, 0x1c1c1c));
        }
        other => panic!("{:?}", other),
    }
}

#[test]
fn huge_resolutions_have_no_picture() {
    assert!(picture_has_room(96));
    assert!(picture_has_room(480));
    assert!(picture_has_room(0));
    assert!(!picture_has_room(65535));
    assert!(!picture_has_room(u32::MAX));
}

#[test]
fn resolutions_are_tested_for_what_is_computed() {
    assert!(layout_has_room(96));
    assert!(layout_has_room(860_000_000));
    assert!(!layout_has_room(870_000_000));
    assert!(pointing_has_room(1_340_000_000));
    assert!(!pointing_has_room(1_350_000_000));
    assert_eq!(provider_bar_width(1_340_000_000), 1_521_458_327);
    assert!(!point_is_over_usage_bar(0, 0, 1, 1_340_000_000));
    assert!(point_is_over_usage_bar(usage_bar_x(1_340_000_000), 300_000_000, 1, 1_340_000_000));
    assert_eq!(bar_rect_for_row(0, 0, u32::MAX), None);
    assert_eq!(
        paint_content(10, 0, true, &vec![], u32::MAX).len(),
        paint_content(10, 46, true, &vec![], 96).len()
    );
}

#[test]
fn widget_is_anchored_at_the_bottom() {
    assert_eq!(compute_anchor_y(1040, 60, 46), 1054);
    assert_eq!(compute_anchor_y(1040, 40, 46), 1040);
}

#[test]
fn widget_stands_left_of_the_tray() {
    let taskbar = rect(0, 1032, 1920, 1080);
    let tray = Some(rect(1700, 1032, 1920, 1080));
    assert_eq!(
        position_at_taskbar(true, taskbar, tray, 0, 96),
        Some(Placement { x: 1469, y: 2, width: 239, height: 46 })
    );
    assert_eq!(
        position_at_taskbar(false, taskbar, tray, 100, 96),
        Some(Placement { x: 1369, y: 1034, width: 239, height: 46 })
    );
}

#[test]
fn widget_never_leaves_the_taskbar() {
    let taskbar = rect(100, 1032, 1920, 1080);
    let x = |tray: Option<Rect>, offset: i32| {
        position_at_taskbar(true, taskbar, tray, offset, 96).unwrap().x
    };
    assert_eq!(x(None, 5000), 0);
    assert_eq!(x(None, -5000), 1820 - 239);
    assert_eq!(x(Some(rect(5, 0, 10, 10)), 0), 1820 - 239);
    assert_eq!(x(Some(rect(3000, 0, 3010, 10)), 0), 1820 - 239);
    assert_eq!(x(Some(rect(100, 0, 110, 10)), 0), 0);
}

#[test]
fn taskbars_without_extent_are_ignored() {
    assert_eq!(position_at_taskbar(true, rect(0, 0, 0, 40), None, 0, 96), None);
    assert_eq!(position_at_taskbar(true, rect(0, 40, 100, 40), None, 0, 96), None);
    assert_eq!(position_at_taskbar(false, rect(5, 0, 0, 40), None, 0, 96), None);
}

#[test]
fn embedded_and_free_widgets_stand_at_the_same_place() {
    let taskbar = rect(-1920, 1032, 0, 1080);
    let tray = Some(rect(-200, 1032, 0, 1080));
    let inner = position_at_taskbar(true, taskbar, tray, 33, 120).unwrap();
    let outer = position_at_taskbar(false, taskbar, tray, 33, 120).unwrap();
    assert_eq!((outer.x, outer.y), (taskbar.left + inner.x, taskbar.top + inner.y));
}

#[test]
fn widget_is_grabbed_at_its_left() {
    assert!(in_divider_zone(12, 96));
    assert!(!in_divider_zone(13, 96));
    assert!(in_divider_zone(-4, 96));
    assert!(in_divider_zone(19, 144));
}

#[test]
fn dragging_follows_the_mouse_within_limits() {
    let bar = rect(0, 1032, 1920, 1080);
    let tray = Some(rect(1700, 1032, 1920, 1080));
    let limit = 1700 - 239 + 8;
    let offset = |start: i32, from: i32, to: i32| {
        drag_move(start, from, to, true, Some((bar, tray)), 96).offset
    };
    assert_eq!(offset(10, 500, 480), 30);
    assert_eq!(offset(10, 500, 600), 0);
    assert_eq!(offset(10, 5000, 0), limit);
    assert_eq!(drag_move(10, 5000, 0, true, None, 96).offset, 5010);
    assert_eq!(drag_move(10, 5000, 0, true, None, 96).target, None);
}

#[test]
fn dragging_moves_the_window() {
    let bar = rect(100, 1032, 1920, 1080);
    let tray = Some(rect(1700, 1032, 1920, 1080));
    let inner = drag_move(10, 500, 480, true, Some((bar, tray)), 96).target.unwrap();
    assert_eq!(inner, Placement { x: 1600 - 239 - 30 + 8, y: 2, width: 239, height: 46 });
    let outer = drag_move(10, 500, 480, false, Some((bar, tray)), 96).target.unwrap();
    assert_eq!(outer, Placement { x: 1700 - 239 - 30 + 8, y: 1034, width: 239, height: 46 });
    assert_eq!(position_at_taskbar(true, bar, tray, 30, 96), Some(inner));
    assert_eq!(drag_move(10, 9000, 0, true, Some((bar, None)), 96).target.unwrap().x, 0);
}
