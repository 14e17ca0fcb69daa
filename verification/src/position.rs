//! Where the widget stands on the taskbar, and how it is dragged along it.
use vstd::prelude::*;

use crate::layout::{
    layout_fits, sc, scaled, total_widget_width, widget_height, widget_width, Rect, DIVIDER_HIT_ZONE,
    WIDGET_HEIGHT,
};

verus! {

/// How far the widget reaches over the edge of the tray.
pub const TRAY_EDGE_OVERLAP: i32 = 8;

/// The position and the size of a window.
#[derive(Clone, Copy, Debug, PartialEq, Eq, Structural)]
pub struct Placement {
    pub x: i32,
    pub y: i32,
    pub width: i32,
    pub height: i32,
}

/// The larger of two numbers.
pub open spec fn larger(a: int, b: int) -> int {
    if a >= b {
        a
    } else {
        b
    }
}

/// The number nearest to `n` from `low` to `high`.
pub open spec fn clamped(n: int, low: int, high: int) -> int {
    if n < low {
        low
    } else if n > high {
        high
    } else {
        n
    }
}

/// The larger of two numbers is one of them and no less than either, and the nearest
/// number in a range is in it, and no number in the range is nearer.
pub proof fn law_nearest_numbers(a: int, b: int, low: int, high: int)
    requires
        low <= high,
    ensures
        larger(a, b) == a || larger(a, b) == b,
        larger(a, b) >= a && larger(a, b) >= b,
        low <= clamped(a, low, high) <= high,
        low <= b <= high && a <= b ==> a <= clamped(a, low, high) <= b || a < low,
        low <= b <= high && a >= b ==> b <= clamped(a, low, high) <= a || a > high,
        low <= a <= high ==> clamped(a, low, high) == a,
        a <= low ==> clamped(a, low, high) == low,
        a >= high ==> clamped(a, low, high) == high,
{
}

fn clamp(n: i64, low: i64, high: i64) -> (r: i64)
    requires
        low <= high,
    ensures
        r == clamped(n as int, low as int, high as int),
{
    if n < low {
        low
    } else if n > high {
        high
    } else {
        n
    }
}

/// The upper edge of a widget that stands at the lower edge of the taskbar, or
/// at its upper edge if it is too high for it.
pub open spec fn anchor_y(anchor_top: int, anchor_height: int, widget_height: int) -> int {
    larger(anchor_top + anchor_height - widget_height, anchor_top)
}

/// The upper edge of a widget that stands at the lower edge of the taskbar.
pub fn compute_anchor_y(anchor_top: i32, anchor_height: i32, widget_height: i32) -> (r: i32)
    requires
        anchor_top + anchor_height - widget_height <= i32::MAX,
    ensures
        r == anchor_y(anchor_top as int, anchor_height as int, widget_height as int),
{
    let y: i64 = anchor_top as i64 + anchor_height as i64 - widget_height as i64;
    if y >= anchor_top as i64 {
        y as i32
    } else {
        anchor_top
    }
}

/// The left edge of the tray. A tray that does not start on the taskbar is
/// not believed; then it is the right edge of the taskbar.
pub open spec fn tray_edge(taskbar: Rect, tray: Option<Rect>) -> int {
    match tray {
        Some(tray) if taskbar.left <= tray.left <= taskbar.right => tray.left as int,
        _ => taskbar.right as int,
    }
}

/// Where the widget stands: left of the tray by `tray_offset`, and never
/// outside the taskbar. An embedded widget is placed relative to the taskbar,
/// any other one on the screen. Nowhere if the taskbar has no extent.
pub open spec fn placement(
    embedded: bool,
    taskbar: Rect,
    tray: Option<Rect>,
    tray_offset: int,
    dpi: int,
) -> Option<Placement> {
    let width = widget_width(dpi);
    let height = widget_height(dpi);
    let bar_width = taskbar.right - taskbar.left;
    let bar_height = taskbar.bottom - taskbar.top;
    let y = anchor_y(taskbar.top as int, bar_height, height);
    let x = tray_edge(taskbar, tray) - width - tray_offset + scaled(TRAY_EDGE_OVERLAP as int, dpi);
    if bar_width <= 0 || bar_height <= 0 {
        None
    } else if embedded {
        Some(
            Placement {
                x: clamped(x - taskbar.left, 0, larger(bar_width - width, 0)) as i32,
                y: clamped(y - taskbar.top, 0, larger(bar_height - height, 0)) as i32,
                width: width as i32,
                height: height as i32,
            },
        )
    } else {
        Some(
            Placement {
                x: clamped(
                    x,
                    taskbar.left as int,
                    larger(taskbar.right - width, taskbar.left as int),
                ) as i32,
                y: clamped(
                    y,
                    taskbar.top as int,
                    larger(taskbar.bottom - height, taskbar.top as int),
                ) as i32,
                width: width as i32,
                height: height as i32,
            },
        )
    }
}

/// Whether the extent of a taskbar can be told in 32 bits.
pub open spec fn taskbar_fits(taskbar: Rect) -> bool {
    taskbar.right - taskbar.left <= i32::MAX && taskbar.bottom - taskbar.top <= i32::MAX
}

/// Finds the place of the widget on the taskbar.
pub fn position_at_taskbar(
    embedded: bool,
    taskbar: Rect,
    tray: Option<Rect>,
    tray_offset: i32,
    dpi: u32,
) -> (r: Option<Placement>)
    requires
        taskbar_fits(taskbar),
        taskbar.left < taskbar.right && taskbar.top < taskbar.bottom ==> layout_fits(dpi),
    ensures
        r == placement(embedded, taskbar, tray, tray_offset as int, dpi as int),
{
    if taskbar.right <= taskbar.left || taskbar.bottom <= taskbar.top {
        return None;
    }
    let taskbar_width: i32 = taskbar.right - taskbar.left;
    let taskbar_height: i32 = taskbar.bottom - taskbar.top;
    let mut tray_left: i32 = taskbar.right;
    if let Some(tray) = tray {
        if tray.left >= taskbar.left && tray.left <= taskbar.right {
            tray_left = tray.left;
        }
    }
    let width: i32 = total_widget_width(dpi);
    let height: i32 = sc(WIDGET_HEIGHT, dpi);
    let y: i64 = compute_anchor_y(taskbar.top, taskbar_height, height) as i64;
    let x: i64 = tray_left as i64 - width as i64 - tray_offset as i64 + sc(
        TRAY_EDGE_OVERLAP,
        dpi,
    ) as i64;
    if embedded {
        let room_x: i64 = taskbar_width as i64 - width as i64;
        let max_x: i64 = if room_x >= 0 {
            room_x
        } else {
            0
        };
        let room_y: i64 = taskbar_height as i64 - height as i64;
        let max_y: i64 = if room_y >= 0 {
            room_y
        } else {
            0
        };
        Some(
            Placement {
                x: clamp(x - taskbar.left as i64, 0, max_x) as i32,
                y: clamp(y - taskbar.top as i64, 0, max_y) as i32,
                width,
                height,
            },
        )
    } else {
        let min_x: i64 = taskbar.left as i64;
        let last_x: i64 = taskbar.right as i64 - width as i64;
        let max_x: i64 = if last_x >= min_x {
            last_x
        } else {
            min_x
        };
        let min_y: i64 = taskbar.top as i64;
        let last_y: i64 = taskbar.bottom as i64 - height as i64;
        let max_y: i64 = if last_y >= min_y {
            last_y
        } else {
            min_y
        };
        Some(
            Placement {
                x: clamp(x, min_x, max_x) as i32,
                y: clamp(y, min_y, max_y) as i32,
                width,
                height,
            },
        )
    }
}

/// A widget that is no larger than the taskbar is placed entirely on it,
/// whatever the offset and the tray are.
pub proof fn law_widget_stays_on_the_taskbar(
    embedded: bool,
    taskbar: Rect,
    tray: Option<Rect>,
    tray_offset: int,
    dpi: u32,
)
    requires
        layout_fits(dpi),
        taskbar_fits(taskbar),
        0 < taskbar.right - taskbar.left,
        0 < taskbar.bottom - taskbar.top,
        widget_width(dpi as int) <= taskbar.right - taskbar.left,
        widget_height(dpi as int) <= taskbar.bottom - taskbar.top,
    ensures
        placement(embedded, taskbar, tray, tray_offset, dpi as int) matches Some(p) && {
            let left = if embedded {
                0
            } else {
                taskbar.left as int
            };
            let top = if embedded {
                0
            } else {
                taskbar.top as int
            };
            &&& left <= p.x
            &&& p.x + p.width <= left + (taskbar.right - taskbar.left)
            &&& top <= p.y
            &&& p.y + p.height <= top + (taskbar.bottom - taskbar.top)
        },
{
}

/// An embedded widget and one on the screen stand at the same place.
pub proof fn law_embedding_keeps_the_place(
    taskbar: Rect,
    tray: Option<Rect>,
    tray_offset: int,
    dpi: u32,
)
    requires
        layout_fits(dpi),
        taskbar_fits(taskbar),
        0 < taskbar.right - taskbar.left,
        0 < taskbar.bottom - taskbar.top,
    ensures
        ({
            let inner = placement(true, taskbar, tray, tray_offset, dpi as int)->0;
            let outer = placement(false, taskbar, tray, tray_offset, dpi as int)->0;
            outer.x == taskbar.left + inner.x && outer.y == taskbar.top + inner.y
        }),
{
}

/// Where the left edge of the tray counts: there if it lies on the taskbar, else at
/// the right edge of the taskbar. The widget ends eight units right of that and as
/// many pixels left of it as the offset says, if that leaves it on the taskbar; if
/// not, it stands at the edge of the taskbar that it would have crossed. It stands
/// at the lower edge of the taskbar, or at the upper one if it is too high.
pub proof fn law_widget_ends_at_the_tray(
    taskbar: Rect,
    tray: Option<Rect>,
    tray_offset: int,
    dpi: u32,
)
    requires
        layout_fits(dpi),
        taskbar_fits(taskbar),
    ensures
        ({
            let placed = placement(false, taskbar, tray, tray_offset, dpi as int);
            let edge = if tray is Some && tray->0.left >= taskbar.left && tray->0.left
                <= taskbar.right {
                tray->0.left
            } else {
                taskbar.right
            };
            let end = edge + scaled(8, dpi as int) - tray_offset;
            &&& placed is Some <==> taskbar.left < taskbar.right && taskbar.top < taskbar.bottom
            &&& placed matches Some(p) ==> {
                &&& p.width == widget_width(dpi as int)
                &&& p.height == widget_height(dpi as int)
                &&& taskbar.left + p.width <= end <= taskbar.right ==> p.x + p.width == end
                &&& end <= taskbar.left + p.width ==> p.x == taskbar.left
                &&& end >= taskbar.right && taskbar.left + p.width <= taskbar.right ==> p.x
                    + p.width == taskbar.right
                &&& taskbar.left + p.width >= taskbar.right ==> p.x == taskbar.left
                &&& p.height <= taskbar.bottom - taskbar.top ==> p.y + p.height == taskbar.bottom
                &&& p.height >= taskbar.bottom - taskbar.top ==> p.y == taskbar.top
            }
        }),
{
}

/// A widget at the lower edge of something ends where that ends, unless it is higher
/// than that: then both start together.
pub proof fn law_widget_is_anchored(anchor_top: int, anchor_height: int, height: int)
    ensures
        anchor_y(anchor_top, anchor_height, height) >= anchor_top,
        height <= anchor_height ==> anchor_y(anchor_top, anchor_height, height) + height
            == anchor_top + anchor_height,
        height >= anchor_height ==> anchor_y(anchor_top, anchor_height, height) == anchor_top,
{
}

// ---------------------------------------------------------------------------
// Dragging
// ---------------------------------------------------------------------------

/// Whether the widget can be grabbed at this distance from its left edge.
pub fn in_divider_zone(client_x: i32, dpi: u32) -> (r: bool)
    ensures
        r == (client_x < scaled(DIVIDER_HIT_ZONE as int, dpi as int)),
        r <==> client_x < scaled(13, dpi as int),
{
    client_x < sc(DIVIDER_HIT_ZONE, dpi)
}

/// The left edge of the tray, or the right edge of the taskbar if there is no
/// tray.
pub open spec fn drag_edge(taskbar: Rect, tray: Option<Rect>) -> int {
    match tray {
        Some(tray) => tray.left as int,
        None => taskbar.right as int,
    }
}

/// The offset at which the widget touches the left edge of the taskbar.
pub open spec fn max_offset(taskbar: Rect, tray: Option<Rect>, dpi: int) -> int {
    drag_edge(taskbar, tray) - taskbar.left - widget_width(dpi) + scaled(
        TRAY_EDGE_OVERLAP as int,
        dpi,
    )
}

/// The offset that a drag leads to: moving to the left makes it larger. It does
/// not fall below zero, and above all it does not exceed the limit.
pub open spec fn dragged_offset(
    start_offset: int,
    start_mouse_x: int,
    mouse_x: int,
    limit: Option<int>,
) -> int {
    let wanted = larger(start_offset + (start_mouse_x - mouse_x), 0);
    match limit {
        Some(limit) if wanted > limit => limit,
        _ => wanted,
    }
}

/// What a movement of the mouse does to a widget that is being dragged.
#[derive(Clone, Copy, Debug, PartialEq, Eq, Structural)]
pub struct DragMove {
    pub offset: i32,
    /// Where the widget goes, if the taskbar is known.
    pub target: Option<Placement>,
}

/// What a movement of the mouse does to a widget that is being dragged along a
/// taskbar and its tray, if they are known.
pub open spec fn drag_result(
    start_offset: int,
    start_mouse_x: int,
    mouse_x: int,
    embedded: bool,
    taskbar: Option<(Rect, Option<Rect>)>,
    dpi: int,
) -> DragMove {
    match taskbar {
        None => DragMove {
            offset: dragged_offset(start_offset, start_mouse_x, mouse_x, None) as i32,
            target: None,
        },
        Some((bar, tray)) => {
            let limit = max_offset(bar, tray, dpi);
            let offset = dragged_offset(start_offset, start_mouse_x, mouse_x, Some(limit));
            let y = anchor_y(bar.top as int, bar.bottom - bar.top, widget_height(dpi));
            DragMove {
                offset: offset as i32,
                target: Some(
                    Placement {
                        x: if embedded {
                            (limit - offset) as i32
                        } else {
                            (bar.left + limit - offset) as i32
                        },
                        y: if embedded {
                            (y - bar.top) as i32
                        } else {
                            y as i32
                        },
                        width: widget_width(dpi) as i32,
                        height: widget_height(dpi) as i32,
                    },
                ),
            }
        },
    }
}

/// Whether the taskbar, its tray and the offsets between them can be told in
/// 32 bits.
pub open spec fn drag_fits(taskbar: Option<(Rect, Option<Rect>)>, dpi: u32) -> bool {
    taskbar matches Some((bar, tray)) ==> {
        &&& i32::MIN <= max_offset(bar, tray, dpi as int) <= i32::MAX
        &&& bar.bottom - bar.top <= i32::MAX
    }
}

/// Follows a movement of the mouse with a widget that is being dragged.
pub fn drag_move(
    start_offset: i32,
    start_mouse_x: i32,
    mouse_x: i32,
    embedded: bool,
    taskbar: Option<(Rect, Option<Rect>)>,
    dpi: u32,
) -> (r: DragMove)
    requires
        taskbar is Some ==> layout_fits(dpi),
        start_offset + (start_mouse_x - mouse_x) <= i32::MAX,
        drag_fits(taskbar, dpi),
    ensures
        r == drag_result(
            start_offset as int,
            start_mouse_x as int,
            mouse_x as int,
            embedded,
            taskbar,
            dpi as int,
        ),
{
    let moved: i64 = start_offset as i64 + (start_mouse_x as i64 - mouse_x as i64);
    let wanted: i32 = if moved < 0 {
        0
    } else {
        moved as i32
    };
    match taskbar {
        None => DragMove { offset: wanted, target: None },
        Some((bar, tray)) => {
            let edge: i32 = match tray {
                Some(tray) => tray.left,
                None => bar.right,
            };
            let width: i32 = total_widget_width(dpi);
            let height: i32 = sc(WIDGET_HEIGHT, dpi);
            let limit: i64 = edge as i64 - bar.left as i64 - width as i64 + sc(
                TRAY_EDGE_OVERLAP,
                dpi,
            ) as i64;
            let offset: i32 = if wanted as i64 > limit {
                limit as i32
            } else {
                wanted
            };
            let low: i64 = bar.bottom as i64 - height as i64;
            let y: i64 = if low >= bar.top as i64 {
                low
            } else {
                bar.top as i64
            };
            let x: i64 = limit - offset as i64;
            let (px, py): (i64, i64) = if embedded {
                (x, y - bar.top as i64)
            } else {
                (bar.left as i64 + x, y)
            };
            DragMove {
                offset,
                target: Some(Placement { x: px as i32, y: py as i32, width, height }),
            }
        },
    }
}

/// As long as the widget fits between the left edge of the taskbar and the
/// tray, a drag leaves it between them: it goes neither right of where it
/// started nor over the left edge.
pub proof fn law_drag_stays_in_range(
    start_offset: int,
    start_mouse_x: int,
    mouse_x: int,
    limit: int,
)
    requires
        0 <= limit,
    ensures
        0 <= dragged_offset(start_offset, start_mouse_x, mouse_x, Some(limit)) <= limit,
        0 <= dragged_offset(start_offset, start_mouse_x, mouse_x, None),
{
}

/// A drag never moves the widget over the left edge of the taskbar.
pub proof fn law_drag_stops_at_the_left_edge(
    start_offset: int,
    start_mouse_x: int,
    mouse_x: int,
    taskbar: Rect,
    tray: Option<Rect>,
    dpi: u32,
)
    requires
        i32::MIN <= max_offset(taskbar, tray, dpi as int) <= i32::MAX,
    ensures
        drag_result(
            start_offset,
            start_mouse_x,
            mouse_x,
            true,
            Some((taskbar, tray)),
            dpi as int,
        ).target->0.x >= 0,
{
}

/// Where a drag puts the widget, the next placement leaves it: if the tray is
/// on the taskbar and the widget is not beyond the right end of the taskbar,
/// both are at the same x.
pub proof fn law_drag_agrees_with_placement(
    start_offset: int,
    start_mouse_x: int,
    mouse_x: int,
    taskbar: Rect,
    tray: Rect,
    dpi: u32,
)
    requires
        layout_fits(dpi),
        taskbar_fits(taskbar),
        0 < taskbar.right - taskbar.left,
        0 < taskbar.bottom - taskbar.top,
        taskbar.left <= tray.left <= taskbar.right,
        i32::MIN <= max_offset(taskbar, Some(tray), dpi as int) <= i32::MAX,
        start_offset + (start_mouse_x - mouse_x) <= i32::MAX,
        ({
            let x = drag_result(
                start_offset,
                start_mouse_x,
                mouse_x,
                true,
                Some((taskbar, Some(tray))),
                dpi as int,
            ).target->0.x;
            x + widget_width(dpi as int) <= taskbar.right - taskbar.left
        }),
    ensures
        ({
            let moved = drag_result(
                start_offset,
                start_mouse_x,
                mouse_x,
                true,
                Some((taskbar, Some(tray))),
                dpi as int,
            );
            placement(true, taskbar, Some(tray), moved.offset as int, dpi as int)->0.x
                == moved.target->0.x
        }),
{
}

/// A drag that comes back to where it started changes nothing, unless the
/// offset was out of range.
pub proof fn law_drag_back_changes_nothing(start_offset: int, mouse_x: int, limit: Option<int>)
    requires
        0 <= start_offset,
        limit matches Some(limit) ==> start_offset <= limit,
    ensures
        dragged_offset(start_offset, mouse_x, mouse_x, limit) == start_offset,
{
}

/// As long as neither end of the range is reached, the offset changes by what the
/// mouse moves by, to the right as well as to the left; where it would leave the
/// range, it is the end of the range.
pub proof fn law_offset_follows_the_mouse(
    start_offset: int,
    start_mouse_x: int,
    mouse_x: int,
    limit: Option<int>,
)
    ensures
        ({
            let moved = start_offset + start_mouse_x - mouse_x;
            let offset = dragged_offset(start_offset, start_mouse_x, mouse_x, limit);
            &&& 0 <= moved && (limit matches Some(most) ==> moved <= most) ==> offset == moved
            &&& moved <= 0 && (limit matches Some(most) ==> 0 <= most) ==> offset == 0
            &&& limit matches Some(most) ==> (moved >= most || most <= 0 ==> offset == most)
        }),
{
}

/// A widget that is dragged stays under the mouse: between two places of the mouse at
/// which neither end of the range is reached it moves by as much as the mouse and in
/// the same direction, and it stays at the same height. Its offset changes by as
/// much the other way.
pub proof fn law_widget_follows_the_mouse(
    start_offset: i32,
    start_mouse_x: i32,
    a: i32,
    b: i32,
    embedded: bool,
    taskbar: Rect,
    tray: Option<Rect>,
    dpi: u32,
)
    requires
        layout_fits(dpi),
        drag_fits(Some((taskbar, tray)), dpi),
        0 <= start_offset + start_mouse_x - a <= max_offset(taskbar, tray, dpi as int),
        0 <= start_offset + start_mouse_x - b <= max_offset(taskbar, tray, dpi as int),
    ensures
        ({
            let before = drag_result(
                start_offset as int,
                start_mouse_x as int,
                a as int,
                embedded,
                Some((taskbar, tray)),
                dpi as int,
            );
            let after = drag_result(
                start_offset as int,
                start_mouse_x as int,
                b as int,
                embedded,
                Some((taskbar, tray)),
                dpi as int,
            );
            &&& before.offset == start_offset + start_mouse_x - a
            &&& after.offset - before.offset == a - b
            &&& before.target is Some && after.target is Some
            &&& embedded ==> after.target->0.x - before.target->0.x == b - a
            &&& !embedded && taskbar.left >= 0 && max_offset(taskbar, tray, dpi as int)
                + taskbar.left <= i32::MAX ==> after.target->0.x - before.target->0.x == b - a
            &&& after.target->0.y == before.target->0.y
        }),
{
}

/// A widget that is dragged ends eight units right of the tray, or of the right edge
/// of the taskbar if there is no tray, and as many pixels left of that as its offset
/// says, at the height at which it is placed. The largest offset is the one at which
/// it touches the left edge of the taskbar. If no taskbar is known, only the offset
/// changes.
pub proof fn law_dragged_widget_ends_at_the_tray(
    start_offset: i32,
    start_mouse_x: i32,
    mouse_x: i32,
    taskbar: Rect,
    tray: Option<Rect>,
    dpi: u32,
)
    requires
        layout_fits(dpi),
        taskbar_fits(taskbar),
        drag_fits(Some((taskbar, tray)), dpi),
        taskbar.left < taskbar.right,
        taskbar.top < taskbar.bottom,
        start_offset + (start_mouse_x - mouse_x) <= i32::MAX,
    ensures
        ({
            let inner = drag_result(
                start_offset as int,
                start_mouse_x as int,
                mouse_x as int,
                true,
                Some((taskbar, tray)),
                dpi as int,
            );
            let outer = drag_result(
                start_offset as int,
                start_mouse_x as int,
                mouse_x as int,
                false,
                Some((taskbar, tray)),
                dpi as int,
            );
            let edge = if tray is Some {
                tray->0.left
            } else {
                taskbar.right
            };
            let end = edge + scaled(8, dpi as int) - inner.offset;
            let placed = placement(false, taskbar, tray, 0, dpi as int)->0;
            let moved = start_offset + start_mouse_x - mouse_x;
            let limit = max_offset(taskbar, tray, dpi as int);
            let free = drag_result(
                start_offset as int,
                start_mouse_x as int,
                mouse_x as int,
                true,
                None,
                dpi as int,
            );
            &&& inner.target matches Some(p) && outer.target matches Some(q) && {
                &&& inner.offset == outer.offset
                &&& p.x + p.width == end - taskbar.left
                &&& i32::MIN <= end - q.width <= i32::MAX ==> q.x + q.width == end
                &&& p.y == placed.y - taskbar.top
                &&& q.y == placed.y
                &&& p.width == q.width == placed.width
                &&& p.height == q.height == placed.height
            }
            &&& moved >= limit || limit <= 0 ==> inner.offset == limit
            &&& moved <= 0 <= limit ==> inner.offset == 0
            &&& 0 <= moved <= limit ==> inner.offset == moved
            &&& limit == edge + scaled(8, dpi as int) - widget_width(dpi as int) - taskbar.left
            &&& free.target is None
            &&& moved <= 0 ==> free.offset == 0
            &&& moved >= 0 ==> free.offset == moved
        }),
{
}

/// Taskbars of ordinary size can be told in 32 bits, and so can the offsets on them.
pub proof fn law_ordinary_taskbars_fit(taskbar: Rect, tray: Option<Rect>, dpi: u32)
    requires
        dpi <= 0xffff,
        -0x2000_0000 <= taskbar.left <= 0x2000_0000,
        -0x2000_0000 <= taskbar.right <= 0x2000_0000,
        -0x2000_0000 <= taskbar.top <= 0x2000_0000,
        -0x2000_0000 <= taskbar.bottom <= 0x2000_0000,
        tray matches Some(tray) ==> -0x2000_0000 <= tray.left <= 0x2000_0000,
    ensures
        taskbar_fits(taskbar),
        drag_fits(Some((taskbar, tray)), dpi),
        drag_fits(None, dpi),
{
}

} // verus!
