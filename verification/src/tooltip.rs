//! The tooltip of the widget: when the windows reset, in the local time of the
//! user, and where that is shown.
use vstd::prelude::*;

use crate::clock::{instant, Timestamp};
use crate::layout::{label_x, law_scaling_is_monotone, sc, scaled, usage_label_x, Rect};
use crate::localization::Strings;
use crate::models::SectionView;
use crate::poller::{label_of, window_label};
use crate::position::{larger, Placement};
use crate::paint::{palette, palette_for, Color};
use crate::state::{state_view, AppState, RowView, StateView};
use crate::text::{
    copy, decimal, join, joined, lemma_decimal_reads_back, lemma_joined_lines, lines,
    one_line, pad_left, push_padded_decimal, split_lines, texts,
};

verus! {

pub const TOOLTIP_HEIGHT: i32 = 36;

pub const TOOLTIP_MIN_WIDTH: i32 = 150;

pub const TOOLTIP_RADIUS: i32 = 2;

pub const TOOLTIP_TEXT_PADDING_X: i32 = 8;

pub const TOOLTIP_MEASURE_MAX_WIDTH: i32 = 1000;

/// File-time ticks in a second.
pub const WINDOWS_TICK: u64 = 10_000_000;

/// Seconds from the beginning of file time to the Unix epoch.
pub const SEC_TO_UNIX_EPOCH: u64 = 11_644_473_600;

// ---------------------------------------------------------------------------
// Times
// ---------------------------------------------------------------------------

/// A point in time in ticks of 100 nanoseconds since the beginning of file
/// time; nothing before the Unix epoch or if it does not fit in 64 bits.
pub open spec fn file_ticks(t: int) -> Option<u64> {
    let ticks = (t / 1_000_000_000 + SEC_TO_UNIX_EPOCH) * WINDOWS_TICK + (t % 1_000_000_000) / 100;
    if 0 <= t && ticks <= u64::MAX {
        Some(ticks as u64)
    } else {
        None
    }
}

/// The ticks of a point in time.
pub fn ticks_of(time: &Timestamp) -> (r: Option<u64>)
    ensures
        r == file_ticks(time@),
{
    let secs: i64 = time.unix_secs();
    if secs < 0 {
        return None;
    }
    let since: u64 = match (secs as u64).checked_add(SEC_TO_UNIX_EPOCH) {
        Some(since) => since,
        None => {
            return None;
        },
    };
    let whole: u64 = match since.checked_mul(WINDOWS_TICK) {
        Some(whole) => whole,
        None => {
            return None;
        },
    };
    whole.checked_add((time.subsec_nanos() / 100) as u64)
}

/// The low and the high half of a number of ticks.
#[derive(Clone, Copy, Debug, PartialEq, Eq, Structural)]
pub struct FileTime {
    pub low: u32,
    pub high: u32,
}

/// The file time of a number of ticks.
pub open spec fn file_time_of(ticks: u64) -> FileTime {
    FileTime { low: (ticks % 0x1_0000_0000) as u32, high: (ticks / 0x1_0000_0000) as u32 }
}

/// The file time of a reset, if it is known and can be told.
pub open spec fn reset_file_time(resets_at: Option<int>) -> Option<FileTime> {
    match resets_at {
        Some(t) => match file_ticks(t) {
            Some(ticks) => Some(file_time_of(ticks)),
            None => None,
        },
        None => None,
    }
}

/// Finds the file time of a reset.
pub fn file_time_of_reset(resets_at: Option<Timestamp>) -> (r: Option<FileTime>)
    ensures
        r == reset_file_time(instant(resets_at)),
{
    match resets_at {
        Some(t) => match ticks_of(&t) {
            Some(ticks) => Some(
                FileTime {
                    low: (ticks % 0x1_0000_0000) as u32,
                    high: (ticks / 0x1_0000_0000) as u32,
                },
            ),
            None => None,
        },
        None => None,
    }
}

/// A file time tells the point in time to the tick.
pub proof fn law_file_time_is_exact(t: int)
    requires
        reset_file_time(Some(t)) is Some,
    ensures
        ({
            let f = reset_file_time(Some(t))->0;
            (f.low + 0x1_0000_0000 * f.high - SEC_TO_UNIX_EPOCH * WINDOWS_TICK) * 100 == t - t % 100
        }),
{
}

/// A date and a time of day in the time zone of the user.
#[derive(Clone, Copy, Debug, PartialEq, Eq, Structural)]
pub struct LocalTime {
    /// 0 is Sunday.
    pub day_of_week: u16,
    /// 1 is January.
    pub month: u16,
    pub day: u16,
    pub hour: u16,
    pub minute: u16,
    pub second: u16,
}

/// The name of a day of the week.
pub open spec fn weekday_text(n: u16) -> Seq<char> {
    if n == 0 {
        "Sun"@
    } else if n == 1 {
        "Mon"@
    } else if n == 2 {
        "Tue"@
    } else if n == 3 {
        "Wed"@
    } else if n == 4 {
        "Thu"@
    } else if n == 5 {
        "Fri"@
    } else if n == 6 {
        "Sat"@
    } else {
        Seq::empty()
    }
}

/// The name of a month.
pub open spec fn month_text(n: u16) -> Seq<char> {
    if n == 1 {
        "Jan"@
    } else if n == 2 {
        "Feb"@
    } else if n == 3 {
        "Mar"@
    } else if n == 4 {
        "Apr"@
    } else if n == 5 {
        "May"@
    } else if n == 6 {
        "Jun"@
    } else if n == 7 {
        "Jul"@
    } else if n == 8 {
        "Aug"@
    } else if n == 9 {
        "Sep"@
    } else if n == 10 {
        "Oct"@
    } else if n == 11 {
        "Nov"@
    } else if n == 12 {
        "Dec"@
    } else {
        Seq::empty()
    }
}

fn weekday_name(n: u16) -> (r: String)
    ensures
        r@ == weekday_text(n),
{
    match n {
        0 => copy("Sun"),
        1 => copy("Mon"),
        2 => copy("Tue"),
        3 => copy("Wed"),
        4 => copy("Thu"),
        5 => copy("Fri"),
        6 => copy("Sat"),
        _ => String::new(),
    }
}

fn month_name(n: u16) -> (r: String)
    ensures
        r@ == month_text(n),
{
    match n {
        1 => copy("Jan"),
        2 => copy("Feb"),
        3 => copy("Mar"),
        4 => copy("Apr"),
        5 => copy("May"),
        6 => copy("Jun"),
        7 => copy("Jul"),
        8 => copy("Aug"),
        9 => copy("Sep"),
        10 => copy("Oct"),
        11 => copy("Nov"),
        12 => copy("Dec"),
        _ => String::new(),
    }
}

/// A number with at least two digits.
pub open spec fn two_digits(n: u16) -> Seq<char> {
    pad_left(decimal(n as nat), 2, '0')
}

/// A local time as the tooltip shows it.
pub open spec fn local_time_text(t: LocalTime) -> Seq<char> {
    weekday_text(t.day_of_week).push(' ') + month_text(t.month).push(' ') + two_digits(t.day).push(
        ' ',
    ) + two_digits(t.hour).push(':') + two_digits(t.minute).push(':') + two_digits(t.second)
}

/// Writes a local time as the tooltip shows it.
pub fn format_human_local_reset_time(local: &LocalTime) -> (r: String)
    ensures
        r@ == local_time_text(*local),
{
    let mut out = weekday_name(local.day_of_week);
    out.push(' ');
    out.append(month_name(local.month).as_str());
    out.push(' ');
    push_padded_decimal(&mut out, local.day as u64, 2, '0');
    out.push(' ');
    push_padded_decimal(&mut out, local.hour as u64, 2, '0');
    out.push(':');
    push_padded_decimal(&mut out, local.minute as u64, 2, '0');
    out.push(':');
    push_padded_decimal(&mut out, local.second as u64, 2, '0');
    assert(out@ =~= local_time_text(*local));
    out
}

// ---------------------------------------------------------------------------
// Texts
// ---------------------------------------------------------------------------

/// The line of the tooltip about a window that resets at `local`.
pub open spec fn tooltip_line(label: Seq<char>, local: Option<LocalTime>) -> Seq<char> {
    match local {
        Some(local) => label + " resets "@ + local_time_text(local),
        None => label + " reset time unavailable"@,
    }
}

/// Writes the line of the tooltip about a window that resets at `local`.
pub fn reset_tooltip_text(label: &str, local: &Option<LocalTime>) -> (r: String)
    ensures
        r@ == tooltip_line(label@, *local),
{
    match local {
        Some(local) => copy(label).concat(" resets ").concat(
            format_human_local_reset_time(local).as_str(),
        ),
        None => copy(label).concat(" reset time unavailable"),
    }
}

/// The usage windows that the tooltip speaks of: none after a failed poll.
pub open spec fn tooltip_windows(s: StateView) -> Seq<SectionView> {
    match s.data {
        Some(windows) if s.last_poll_ok => windows,
        _ => Seq::empty(),
    }
}

/// The local time with number `i`, if there is one.
pub open spec fn local_at(locals: Seq<Option<LocalTime>>, i: int) -> Option<LocalTime> {
    if 0 <= i < locals.len() {
        locals[i]
    } else {
        None
    }
}

/// The lines of the tooltip: one for each usage window, or one for each row if
/// no usage window is known. `locals` holds the local time of each reset.
pub open spec fn tooltip_lines(
    s: StateView,
    locals: Seq<Option<LocalTime>>,
    strings: Strings,
) -> Seq<Seq<char>> {
    let windows = tooltip_windows(s);
    if windows.len() > 0 {
        Seq::new(
            windows.len(),
            |i: int| tooltip_line(label_of(windows[i], strings), local_at(locals, i)),
        )
    } else {
        s.rows.map_values(|r: RowView| tooltip_line(r.label, None))
    }
}

/// The text of the tooltip.
pub open spec fn tooltip_text(
    s: StateView,
    locals: Seq<Option<LocalTime>>,
    strings: Strings,
) -> Seq<char> {
    joined(tooltip_lines(s, locals, strings), seq!['\n'])
}

proof fn lemma_names_are_one_line(n: u16)
    ensures
        one_line(weekday_text(n)),
        one_line(month_text(n)),
{
    reveal_strlit("Sun");
    reveal_strlit("Mon");
    reveal_strlit("Tue");
    reveal_strlit("Wed");
    reveal_strlit("Thu");
    reveal_strlit("Fri");
    reveal_strlit("Sat");
    reveal_strlit("Jan");
    reveal_strlit("Feb");
    reveal_strlit("Mar");
    reveal_strlit("Apr");
    reveal_strlit("May");
    reveal_strlit("Jun");
    reveal_strlit("Jul");
    reveal_strlit("Aug");
    reveal_strlit("Sep");
    reveal_strlit("Oct");
    reveal_strlit("Nov");
    reveal_strlit("Dec");
}

proof fn lemma_tooltip_line(label: Seq<char>, local: Option<LocalTime>)
    requires
        one_line(label),
    ensures
        tooltip_line(label, local).len() > 0,
        one_line(tooltip_line(label, local)),
{
    reveal_strlit(" resets ");
    reveal_strlit(" reset time unavailable");
    if let Some(t) = local {
        lemma_names_are_one_line(t.day_of_week);
        lemma_names_are_one_line(t.month);
        lemma_decimal_reads_back(t.day as nat);
        lemma_decimal_reads_back(t.hour as nat);
        lemma_decimal_reads_back(t.minute as nat);
        lemma_decimal_reads_back(t.second as nat);
        assert(one_line(two_digits(t.day)));
        assert(one_line(two_digits(t.hour)));
        assert(one_line(two_digits(t.minute)));
        assert(one_line(two_digits(t.second)));
        assert(one_line(local_time_text(t)));
    }
}

/// The tooltip has one line for each usage window, or for each row if no usage
/// window is known, as long as the labels themselves are single lines.
pub proof fn law_tooltip_has_a_line_for_each_window(
    s: StateView,
    locals: Seq<Option<LocalTime>>,
    strings: Strings,
)
    requires
        forall|i: int|
            0 <= i < tooltip_windows(s).len() ==> one_line(
                label_of(#[trigger] tooltip_windows(s)[i], strings),
            ),
        forall|i: int| 0 <= i < s.rows.len() ==> one_line((#[trigger] s.rows[i]).label),
    ensures
        line_count(tooltip_text(s, locals, strings)) == larger(
            if tooltip_windows(s).len() > 0 {
                tooltip_windows(s).len() as int
            } else {
                s.rows.len() as int
            },
            1,
        ),
{
    let all = tooltip_lines(s, locals, strings);
    let windows = tooltip_windows(s);
    assert forall|i: int| 0 <= i < all.len() implies (#[trigger] all[i]).len() > 0 && one_line(
        all[i],
    ) by {
        if windows.len() > 0 {
            lemma_tooltip_line(label_of(windows[i], strings), local_at(locals, i));
        } else {
            lemma_tooltip_line(s.rows[i].label, None);
        }
    }
    if all.len() > 0 {
        lemma_joined_lines(all);
    }
}

/// The file times of the resets that the tooltip speaks of, to be converted to
/// the time zone of the user.
pub fn tooltip_file_times(state: &AppState) -> (r: Vec<Option<FileTime>>)
    ensures
        r@ == tooltip_windows(state@).map_values(|w: SectionView| reset_file_time(w.resets_at)),
{
    let mut out: Vec<Option<FileTime>> = Vec::new();
    let ghost expected = tooltip_windows(state@).map_values(
        |w: SectionView| reset_file_time(w.resets_at),
    );
    if state.last_poll_ok {
        if let Some(data) = &state.codex_data {
            let mut i: usize = 0;
            while i < data.windows.len()
                invariant
                    i <= data.windows@.len(),
                    out@.len() == i,
                    forall|k: int|
                        0 <= k < i ==> #[trigger] out@[k] == reset_file_time(data@[k].resets_at),
                decreases data.windows@.len() - i,
            {
                assert(data@[i as int] == data.windows@[i as int]@);
                out.push(file_time_of_reset(data.windows[i].resets_at));
                i = i + 1;
            }
        }
    }
    assert(out@ =~= expected);
    out
}

/// Writes the text of the tooltip.
pub fn usage_tooltip_text(
    state: &AppState,
    locals: &Vec<Option<LocalTime>>,
    strings: Strings,
) -> (r: String)
    ensures
        r@ == tooltip_text(state@, locals@, strings),
{
    let ghost expected = tooltip_lines(state@, locals@, strings);
    proof {
        reveal_strlit("\n");
        assert("\n"@ =~= seq!['\n']);
    }
    let mut out: Vec<String> = Vec::new();
    if state.last_poll_ok {
        if let Some(data) = &state.codex_data {
            assert(data@.len() == data.windows@.len());
            if data.windows.len() > 0 {
                let mut i: usize = 0;
                while i < data.windows.len()
                    invariant
                        i <= data.windows@.len(),
                        out@.len() == i,
                        forall|k: int|
                            0 <= k < i ==> #[trigger] out@[k]@ == tooltip_line(
                                label_of(data@[k], strings),
                                local_at(locals@, k),
                            ),
                    decreases data.windows@.len() - i,
                {
                    assert(data@[i as int] == data.windows@[i as int]@);
                    let label = window_label(&data.windows[i], strings);
                    let local: Option<LocalTime> = if i < locals.len() {
                        locals[i]
                    } else {
                        None
                    };
                    out.push(reset_tooltip_text(label.as_str(), &local));
                    i = i + 1;
                }
                assert(texts(out@) =~= expected);
                return join(&out, "\n");
            }
        }
    }
    assert(tooltip_windows(state@).len() == 0);
    let mut i: usize = 0;
    while i < state.display_rows.len()
        invariant
            i <= state.display_rows@.len(),
            out@.len() == i,
            forall|k: int|
                0 <= k < i ==> #[trigger] out@[k]@ == tooltip_line(state@.rows[k].label, None),
        decreases state.display_rows@.len() - i,
    {
        assert(state@.rows[i as int] == state.display_rows@[i as int]@);
        out.push(reset_tooltip_text(state.display_rows[i].label.as_str(), &None));
        i = i + 1;
    }
    assert(texts(out@) =~= expected);
    join(&out, "\n")
}

// ---------------------------------------------------------------------------
// Showing and hiding
// ---------------------------------------------------------------------------

/// A tooltip that is to be shown.
#[derive(Debug)]
pub struct ShownTooltip {
    pub tooltip: isize,
    pub text: String,
    /// Whether the window has to ask to be told when the mouse leaves it.
    pub track: bool,
}

/// The state with the tooltip shown, if there is a tooltip.
pub open spec fn tooltip_shown(
    s: StateView,
    locals: Seq<Option<LocalTime>>,
    strings: Strings,
) -> StateView {
    if s.tooltip_hwnd is Some {
        StateView {
            mouse_tracking: true,
            tooltip_visible: true,
            tooltip_text: tooltip_text(s, locals, strings),
            ..s
        }
    } else {
        s
    }
}

/// Shows the tooltip when the mouse is over a bar.
pub fn show_usage_tooltip(
    state: &mut AppState,
    locals: &Vec<Option<LocalTime>>,
    strings: Strings,
) -> (r: Option<ShownTooltip>)
    ensures
        final(state)@ == tooltip_shown(old(state)@, locals@, strings),
        r is Some <==> old(state)@.tooltip_hwnd is Some,
        r matches Some(shown) ==> Some(shown.tooltip) == old(state)@.tooltip_hwnd && shown.text@
            == final(state)@.tooltip_text && shown.track == !old(state)@.mouse_tracking,
{
    match state.tooltip_hwnd {
        None => None,
        Some(tooltip) => {
            let track = !state.mouse_tracking;
            let text = usage_tooltip_text(state, locals, strings);
            state.mouse_tracking = true;
            state.tooltip_visible = true;
            state.tooltip_text = text.clone();
            Some(ShownTooltip { tooltip, text, track })
        },
    }
}

/// Hides the tooltip, and says which window is to be hidden: none if there is
/// no tooltip or it is not shown.
pub fn hide_usage_tooltip(state: &mut AppState) -> (r: Option<isize>)
    ensures
        final(state)@ == (if old(state)@.tooltip_hwnd is Some {
            StateView { tooltip_visible: false, mouse_tracking: false, ..old(state)@ }
        } else {
            old(state)@
        }),
        r == (if old(state)@.tooltip_visible || old(state)@.mouse_tracking {
            old(state)@.tooltip_hwnd
        } else {
            None
        }),
{
    match state.tooltip_hwnd {
        None => None,
        Some(tooltip) => {
            if !state.tooltip_visible && !state.mouse_tracking {
                return None;
            }
            state.tooltip_visible = false;
            state.mouse_tracking = false;
            Some(tooltip)
        },
    }
}

/// Takes in the window of the tooltip when it has been made.
pub fn install_usage_tooltip(
    state: &mut AppState,
    tooltip: isize,
    locals: &Vec<Option<LocalTime>>,
    strings: Strings,
)
    ensures
        final(state)@ == (StateView {
            tooltip_hwnd: Some(tooltip),
            tooltip_text: tooltip_text(old(state)@, locals@, strings),
            ..old(state)@
        }),
{
    let text = usage_tooltip_text(state, locals, strings);
    state.tooltip_hwnd = Some(tooltip);
    state.tooltip_text = text;
}

/// Brings the text of the tooltip up to date, and says which window is to be
/// drawn anew.
pub fn update_usage_tooltip(
    state: &mut AppState,
    locals: &Vec<Option<LocalTime>>,
    strings: Strings,
) -> (r: Option<isize>)
    ensures
        r == old(state)@.tooltip_hwnd,
        final(state)@ == (if old(state)@.tooltip_hwnd is Some {
            StateView { tooltip_text: tooltip_text(old(state)@, locals@, strings), ..old(state)@ }
        } else {
            old(state)@
        }),
{
    if state.tooltip_hwnd.is_some() {
        let text = usage_tooltip_text(state, locals, strings);
        state.tooltip_text = text;
    }
    state.tooltip_hwnd
}

// ---------------------------------------------------------------------------
// Geometry
// ---------------------------------------------------------------------------

/// The number of lines of a text, at least one.
pub open spec fn line_count(text: Seq<char>) -> int {
    larger(lines(text).len() as int, 1)
}

/// The height of a tooltip with this many lines.
pub open spec fn tooltip_height(count: int, dpi: int) -> int {
    larger(scaled(18 + count * 14, dpi), scaled(TOOLTIP_HEIGHT as int / 2, dpi))
}

/// The upper edge of the tooltip: above the widget, or below it if there is no
/// room above.
pub open spec fn tooltip_y(widget: Rect, height: int, dpi: int) -> int {
    let above = widget.top - height - scaled(6, dpi);
    if above < 0 {
        widget.bottom + scaled(6, dpi)
    } else {
        above
    }
}

/// The left edge of the tooltip: its text starts where the labels start.
pub open spec fn tooltip_x(widget: Rect, dpi: int) -> int {
    widget.left + label_x(dpi) - scaled(TOOLTIP_TEXT_PADDING_X as int, dpi)
}

/// Whether the place of the tooltip, and what is computed on the way to it, are
/// 32-bit numbers.
pub open spec fn tooltip_fits(widget: Rect, text: Seq<char>, dpi: u32) -> bool {
    &&& 18 + line_count(text) * 14 <= i32::MAX
    &&& i32::MIN <= tooltip_x(widget, dpi as int) <= i32::MAX
    &&& tooltip_y(widget, tooltip_height(line_count(text), dpi as int), dpi as int) <= i32::MAX
}

fn counted_lines(text: &str) -> (r: usize)
    ensures
        r == line_count(text@),
{
    let all = split_lines(text);
    assert(texts(all@).len() == all@.len());
    if all.len() == 0 {
        1
    } else {
        all.len()
    }
}

fn height_for(count: i32, dpi: u32) -> (r: i32)
    requires
        0 <= count,
        18 + count * 14 <= i32::MAX,
    ensures
        r == tooltip_height(count as int, dpi as int),
{
    let tall: i32 = sc(18 + count * 14, dpi);
    let least: i32 = sc(TOOLTIP_HEIGHT / 2, dpi);
    if tall >= least {
        tall
    } else {
        least
    }
}

/// Decides whether the tooltip has a place.
pub fn tooltip_has_room(widget: Rect, text: &str, dpi: u32) -> (r: bool)
    ensures
        r == tooltip_fits(widget, text@, dpi),
{
    let label: i64 = usage_label_x(dpi) as i64;
    let count: usize = counted_lines(text);
    if count as u64 > (i32::MAX as u64 - 18) / 14 {
        return false;
    }
    let height: i64 = height_for(count as i32, dpi) as i64;
    let x: i64 = widget.left as i64 + label - sc(TOOLTIP_TEXT_PADDING_X, dpi) as i64;
    let above: i64 = widget.top as i64 - height - sc(6, dpi) as i64;
    let y: i64 = if above < 0 {
        widget.bottom as i64 + sc(6, dpi) as i64
    } else {
        above
    };
    i32::MIN as i64 <= x && x <= i32::MAX as i64 && y <= i32::MAX as i64
}

/// Finds the place of the tooltip.
pub fn tooltip_placement(widget: Rect, text: &str, width: i32, dpi: u32) -> (r: Placement)
    requires
        tooltip_fits(widget, text@, dpi),
    ensures
        r.x == tooltip_x(widget, dpi as int),
        r.y == tooltip_y(widget, tooltip_height(line_count(text@), dpi as int), dpi as int),
        r.width == width,
        r.height == tooltip_height(line_count(text@), dpi as int),
{
    let height: i32 = height_for(counted_lines(text) as i32, dpi);
    let x: i64 = widget.left as i64 + usage_label_x(dpi) as i64 - sc(
        TOOLTIP_TEXT_PADDING_X,
        dpi,
    ) as i64;
    let above: i64 = widget.top as i64 - height as i64 - sc(6, dpi) as i64;
    let y: i32 = if above < 0 {
        widget.bottom + sc(6, dpi)
    } else {
        above as i32
    };
    Placement { x: x as i32, y, width, height }
}

/// The width of the tooltip: that of the text and the padding around it, and no
/// less than the minimum. `text_rect` is what the text takes; nothing if it
/// could not be measured.
pub fn tooltip_width_for_text(text_rect: Option<Rect>, dpi: u32) -> (r: i32)
    requires
        text_rect matches Some(rect) ==> i32::MIN <= rect.right - rect.left + scaled(
            TOOLTIP_TEXT_PADDING_X * 2,
            dpi as int,
        ) <= i32::MAX,
    ensures
        r == (match text_rect {
            Some(rect) => larger(
                rect.right - rect.left + scaled(TOOLTIP_TEXT_PADDING_X * 2, dpi as int),
                scaled(TOOLTIP_MIN_WIDTH as int, dpi as int),
            ),
            None => scaled(TOOLTIP_MIN_WIDTH as int, dpi as int),
        }),
        r >= scaled(150, dpi as int),
        text_rect matches Some(rect) ==> r >= rect.right - rect.left + scaled(16, dpi as int) && (r
            == scaled(150, dpi as int) || r == rect.right - rect.left + scaled(16, dpi as int)),
        text_rect is None ==> r == scaled(150, dpi as int),
{
    let least: i32 = sc(TOOLTIP_MIN_WIDTH, dpi);
    match text_rect {
        None => least,
        Some(rect) => {
            let wide: i64 = rect.right as i64 - rect.left as i64 + sc(
                TOOLTIP_TEXT_PADDING_X * 2,
                dpi,
            ) as i64;
            if wide >= least as i64 {
                wide as i32
            } else {
                least
            }
        },
    }
}

/// The rectangle in which the text of the tooltip is measured.
pub fn measure_rect(dpi: u32) -> (r: Rect)
    ensures
        r.left == 0,
        r.top == 0,
        r.right == scaled(TOOLTIP_MEASURE_MAX_WIDTH as int, dpi as int),
        r.bottom == scaled(TOOLTIP_HEIGHT as int, dpi as int),
        r.right == scaled(1000, dpi as int),
        r.bottom == scaled(36, dpi as int),
{
    Rect { left: 0, top: 0, right: sc(TOOLTIP_MEASURE_MAX_WIDTH, dpi), bottom: sc(TOOLTIP_HEIGHT, dpi) }
}

/// How the tooltip is drawn.
#[derive(Debug)]
pub struct TooltipPicture {
    /// The background, whose corners are rounded with this diameter.
    pub background: Color,
    pub corner: i32,
    pub border: i32,
    pub text_color: Color,
    pub text_rect: Rect,
    pub text: String,
}

/// Whether the tooltip is dark and what it says. Without a state it is empty
/// and follows the theme.
pub open spec fn tooltip_content(s: Option<StateView>, theme_is_dark: bool) -> (bool, Seq<char>) {
    match s {
        Some(s) => (s.is_dark, s.tooltip_text),
        None => (theme_is_dark, Seq::empty()),
    }
}

/// Lays out the tooltip in a window with the given client area.
pub fn paint_usage_tooltip(
    state: Option<&AppState>,
    theme_is_dark: bool,
    client: Rect,
    dpi: u32,
) -> (r: TooltipPicture)
    requires
        client.right - scaled(TOOLTIP_TEXT_PADDING_X as int, dpi as int) >= i32::MIN,
        client.bottom - scaled(2, dpi as int) >= i32::MIN,
    ensures
        ({
            let (is_dark, text) = tooltip_content(state_view(state), theme_is_dark);
            let padding = scaled(TOOLTIP_TEXT_PADDING_X as int, dpi as int);
            &&& r.background == palette_for(is_dark).tooltip_background
            &&& r.text_color == palette_for(is_dark).tooltip_text
            &&& r.text@ == text
            &&& r.corner == 2 * scaled(TOOLTIP_RADIUS as int, dpi as int)
            &&& r.border == scaled(1, dpi as int)
            &&& r.text_rect.left == padding
            &&& r.text_rect.top == scaled(3, dpi as int)
            &&& r.text_rect.right == client.right - padding
            &&& r.text_rect.bottom == client.bottom - scaled(2, dpi as int)
        }),
        r.text_rect.left == client.right - r.text_rect.right == scaled(8, dpi as int),
        r.corner == 2 * scaled(2, dpi as int),
        state is Some ==> r.text@ == state->0.tooltip_text@,
        state is None ==> r.text@.len() == 0,
{
    let (is_dark, text) = match state {
        Some(s) => (s.is_dark, s.tooltip_text.clone()),
        None => (theme_is_dark, String::new()),
    };
    let colors = palette(is_dark);
    let padding: i32 = sc(TOOLTIP_TEXT_PADDING_X, dpi);
    TooltipPicture {
        background: colors.tooltip_background,
        corner: sc(TOOLTIP_RADIUS, dpi) * 2,
        border: sc(1, dpi),
        text_color: colors.tooltip_text,
        text_rect: Rect {
            left: padding,
            top: sc(3, dpi),
            right: client.right - padding,
            bottom: client.bottom - sc(2, dpi),
        },
        text,
    }
}

/// A tooltip never covers the widget: it ends above it or starts below it.
pub proof fn law_tooltip_leaves_the_widget_free(widget: Rect, count: int, dpi: u32)
    requires
        widget.top <= widget.bottom,
    ensures
        ({
            let height = tooltip_height(count, dpi as int);
            let y = tooltip_y(widget, height, dpi as int);
            y + height <= widget.top || y >= widget.bottom
        }),
{
}

/// A reset is told in ticks of 100 nanoseconds since the beginning of the year 1601,
/// which is 116444736000000000 ticks before the Unix epoch. It is told if it is not
/// before that epoch and the ticks fit in 64 bits.
pub proof fn law_file_time_counts_ticks(t: int)
    ensures
        reset_file_time(None) is None,
        reset_file_time(Some(t)) is Some <==> 0 <= t && t / 100 + 116_444_736_000_000_000
            <= u64::MAX,
        reset_file_time(Some(t)) matches Some(f) ==> f.high * 0x1_0000_0000 + f.low == t / 100
            + 116_444_736_000_000_000,
{
}

proof fn lemma_two_digits(n: u16)
    requires
        n < 100,
    ensures
        two_digits(n) == seq![(48 + n / 10) as char, (48 + n % 10) as char],
{
    reveal_with_fuel(decimal, 3);
    assert(two_digits(n) =~= seq![(48 + n / 10) as char, (48 + n % 10) as char]);
}

/// A local time is shown as the name of the day, the name of the month, the day, and the
/// time of day, each part at its own place.
pub proof fn law_local_time_is_told(t: LocalTime)
    requires
        t.day_of_week < 7,
        1 <= t.month <= 12,
        t.day < 100,
        t.hour < 100,
        t.minute < 100,
        t.second < 100,
    ensures
        ({
            let days = seq!["Sun"@, "Mon"@, "Tue"@, "Wed"@, "Thu"@, "Fri"@, "Sat"@];
            let months = seq![
                "Jan"@,
                "Feb"@,
                "Mar"@,
                "Apr"@,
                "May"@,
                "Jun"@,
                "Jul"@,
                "Aug"@,
                "Sep"@,
                "Oct"@,
                "Nov"@,
                "Dec"@,
            ];
            let text = local_time_text(t);
            let digits = |at: int, n: u16|
                text[at] == (48 + n / 10) as char && text[at + 1] == (48 + n % 10) as char;
            &&& text.len() == 19
            &&& text.take(3) == days[t.day_of_week as int]
            &&& text.subrange(4, 7) == months[t.month - 1]
            &&& digits(8, t.day)
            &&& digits(11, t.hour)
            &&& digits(14, t.minute)
            &&& digits(17, t.second)
            &&& text[3] == ' ' && text[7] == ' ' && text[10] == ' '
            &&& text[13] == ':' && text[16] == ':'
        }),
{
    lemma_two_digits(t.day);
    lemma_two_digits(t.hour);
    lemma_two_digits(t.minute);
    lemma_two_digits(t.second);
    lemma_name_lengths(t.day_of_week, t.month);
    let text = local_time_text(t);
    assert(text.take(3) =~= weekday_text(t.day_of_week));
    assert(text.subrange(4, 7) =~= month_text(t.month));
}

proof fn lemma_name_lengths(day: u16, month: u16)
    requires
        day < 7,
        1 <= month <= 12,
    ensures
        weekday_text(day).len() == 3,
        month_text(month).len() == 3,
{
    reveal_strlit("Sun");
    reveal_strlit("Mon");
    reveal_strlit("Tue");
    reveal_strlit("Wed");
    reveal_strlit("Thu");
    reveal_strlit("Fri");
    reveal_strlit("Sat");
    reveal_strlit("Jan");
    reveal_strlit("Feb");
    reveal_strlit("Mar");
    reveal_strlit("Apr");
    reveal_strlit("May");
    reveal_strlit("Jun");
    reveal_strlit("Jul");
    reveal_strlit("Aug");
    reveal_strlit("Sep");
    reveal_strlit("Oct");
    reveal_strlit("Nov");
    reveal_strlit("Dec");
}

/// The tooltip says of each window, in their order, when it resets, by the label of the
/// window and the local time of its own reset; or that this is not known. After a failed
/// poll, and without windows, it says of each row that it is not known.
pub proof fn law_tooltip_speaks_of_each_window(
    s: StateView,
    locals: Seq<Option<LocalTime>>,
    strings: Strings,
    i: int,
)
    ensures
        ({
            let all = tooltip_lines(s, locals, strings);
            let known = s.last_poll_ok && s.data is Some && s.data->0.len() > 0;
            let windows = s.data->0;
            &&& tooltip_text(s, locals, strings) == joined(all, seq!['\n'])
            &&& known ==> all.len() == windows.len()
            &&& !known ==> all.len() == s.rows.len()
            &&& known && 0 <= i < windows.len() && i < locals.len() && locals[i] is Some ==> all[i]
                == label_of(windows[i], strings) + " resets "@ + local_time_text(locals[i]->0)
            &&& known && 0 <= i < windows.len() && (i >= locals.len() || locals[i] is None)
                ==> all[i] == label_of(windows[i], strings) + " reset time unavailable"@
            &&& !known && 0 <= i < s.rows.len() ==> all[i] == s.rows[i].label
                + " reset time unavailable"@
        }),
{
}

/// Showing the tooltip changes nothing but the tooltip, and nothing at all if there is
/// none.
pub proof fn law_showing_changes_the_tooltip(
    s: StateView,
    locals: Seq<Option<LocalTime>>,
    strings: Strings,
)
    ensures
        ({
            let shown = tooltip_shown(s, locals, strings);
            &&& s.tooltip_hwnd is None ==> shown == s
            &&& s.tooltip_hwnd is Some ==> shown.tooltip_visible && shown.mouse_tracking
                && shown.tooltip_text == tooltip_text(s, locals, strings)
            &&& StateView {
                mouse_tracking: s.mouse_tracking,
                tooltip_visible: s.tooltip_visible,
                tooltip_text: s.tooltip_text,
                ..shown
            } == s
        }),
{
}

/// The tooltip is as high as its lines and the space around them. It stands six units
/// above the widget if it does not reach over the upper edge of the screen there, else
/// six units below it, and its text starts where the names of the rows start.
pub proof fn law_tooltip_stands_by_the_widget(widget: Rect, count: int, height: int, dpi: u32)
    requires
        1 <= count,
        0 <= height,
    ensures
        ({
            let d = dpi as int;
            let y = tooltip_y(widget, height, d);
            &&& tooltip_height(count, d) == scaled(18 + 14 * count, d)
            &&& widget.top - scaled(6, d) >= height ==> y + height + scaled(6, d) == widget.top && y
                >= 0
            &&& widget.top - scaled(6, d) < height ==> y - scaled(6, d) == widget.bottom
            &&& tooltip_x(widget, d) + scaled(8, d) == widget.left + scaled(3, d) + scaled(10, d)
        }),
{
    law_scaling_is_monotone(18, 18 + count * 14, dpi as int, dpi as int);
}

/// A tooltip has as many lines as its text, and room for one if the text is empty.
pub proof fn law_lines_are_counted(text: Seq<char>)
    ensures
        lines(text).len() == 0 ==> line_count(text) == 1,
        lines(text).len() > 0 ==> line_count(text) == lines(text).len(),
{
}

/// The tooltip shows what the state says, in the colours of the state; without a state it
/// is empty and has the colours of the theme.
pub proof fn law_tooltip_shows_the_state(s: StateView, theme_is_dark: bool)
    ensures
        tooltip_content(Some(s), theme_is_dark).0 == s.is_dark,
        tooltip_content(Some(s), theme_is_dark).1 == s.tooltip_text,
        tooltip_content(None, theme_is_dark).0 == theme_is_dark,
        tooltip_content(None, theme_is_dark).1.len() == 0,
{
}

/// Tooltips of ordinary size have a place beside widgets in ordinary places.
pub proof fn law_ordinary_tooltips_fit(widget: Rect, text: Seq<char>, dpi: u32)
    requires
        dpi <= 0xffff,
        -0x2000_0000 <= widget.left <= 0x2000_0000,
        widget.top <= 0x2000_0000,
        widget.bottom <= 0x2000_0000,
        lines(text).len() <= 100_000,
    ensures
        tooltip_fits(widget, text, dpi),
{
    let count = line_count(text);
    assert(0 <= (18 + count * 14) * dpi) by (nonlinear_arith)
        requires
            0 <= count,
            0 <= dpi,
    ;
}

} // verus!
