//! The state of the widget, and how polls, timers and settings change it.
use vstd::arithmetic::power2::{lemma2_to64, lemma_pow2_pos, lemma_pow2_strictly_increases, pow2};
use vstd::bits::lemma_u64_shl_is_mul;
use vstd::prelude::*;

use crate::clock::{now, representable, Timestamp};
use crate::localization::Strings;
use crate::models::{unused, Percent, PercentView, SectionView, UsageData};
use crate::poller::{
    any_reset_reached, as_nat, countdown, display_change, format_line_at, is_past_reset_at,
    label_of, law_delay_is_exact, time_until_display_change_at, unknown, unknown_text, usage_line,
    window_label, PollError,
};
use crate::codex::usage_view;
use crate::text::{copy, join, joined, texts};

verus! {

/// How long to wait after the first failed poll, in milliseconds.
pub const RETRY_BASE_MS: u32 = 30_000;

pub const POLL_1_MIN: u32 = 60_000;

pub const POLL_5_MIN: u32 = 300_000;

pub const POLL_15_MIN: u32 = 900_000;

pub const POLL_1_HOUR: u32 = 3_600_000;

/// How often to poll once a reset has passed, in milliseconds.
pub const RESET_POLL_MS: u32 = 5_000;

// ---------------------------------------------------------------------------
// Settings
// ---------------------------------------------------------------------------

/// What is kept from one run to the next.
#[derive(Clone, Copy, Debug, PartialEq, Eq, Structural)]
pub struct SettingsFile {
    pub tray_offset: i32,
    pub poll_interval_ms: u32,
    pub widget_visible: bool,
}

/// The settings of a first run.
pub open spec fn first_settings() -> SettingsFile {
    SettingsFile { tray_offset: 0, poll_interval_ms: POLL_15_MIN, widget_visible: true }
}

/// The poll interval of settings that name none.
pub fn default_poll_interval() -> (r: u32)
    ensures
        r == first_settings().poll_interval_ms,
{
    POLL_15_MIN
}

/// Whether the widget is shown by settings that do not say.
pub fn default_widget_visible() -> (r: bool)
    ensures
        r == first_settings().widget_visible,
{
    true
}

impl Default for SettingsFile {
    fn default() -> (r: SettingsFile)
        ensures
            r == first_settings(),
    {
        SettingsFile {
            tray_offset: 0,
            poll_interval_ms: default_poll_interval(),
            widget_visible: true,
        }
    }
}

/// The settings to start with; `None` stands for a file that is missing or
/// could not be parsed.
pub fn load_settings(parsed: Option<SettingsFile>) -> (r: SettingsFile)
    ensures
        r == (match parsed {
            Some(settings) => settings,
            None => first_settings(),
        }),
{
    match parsed {
        Some(settings) => settings,
        None => SettingsFile::default(),
    }
}

// ---------------------------------------------------------------------------
// The state
// ---------------------------------------------------------------------------

/// One row of the widget: a label, a bar, and a text.
#[derive(Debug)]
pub struct DisplayRow {
    pub label: String,
    pub percent: Percent,
    pub text: String,
}

/// A row with its texts as sequences of characters.
pub struct RowView {
    pub label: Seq<char>,
    pub percent: PercentView,
    pub text: Seq<char>,
}

impl View for DisplayRow {
    type V = RowView;

    open spec fn view(&self) -> RowView {
        RowView { label: self.label@, percent: self.percent@, text: self.text@ }
    }
}

/// The rows with their texts as sequences of characters.
pub open spec fn row_views(rows: Seq<DisplayRow>) -> Seq<RowView> {
    rows.map_values(|r: DisplayRow| r@)
}

/// The state of the widget. Windows and hooks are held by their numbers.
#[derive(Debug)]
pub struct AppState {
    pub hwnd: isize,
    pub taskbar_hwnd: Option<isize>,
    pub tray_notify_hwnd: Option<isize>,
    pub tooltip_hwnd: Option<isize>,
    pub tooltip_visible: bool,
    pub mouse_tracking: bool,
    pub tooltip_text: String,
    pub win_event_hook: Option<isize>,
    pub is_dark: bool,
    pub embedded: bool,
    /// As many rows as the service reports windows.
    pub display_rows: Vec<DisplayRow>,
    pub codex_data: Option<UsageData>,
    pub poll_interval_ms: u32,
    pub retry_count: u32,
    pub last_poll_ok: bool,
    pub tray_offset: i32,
    pub dragging: bool,
    pub drag_start_mouse_x: i32,
    pub drag_start_offset: i32,
    pub widget_visible: bool,
}

/// The state of the widget in mathematical terms.
#[verifier::ext_equal]
pub struct StateView {
    pub hwnd: isize,
    pub taskbar_hwnd: Option<isize>,
    pub tray_notify_hwnd: Option<isize>,
    pub tooltip_hwnd: Option<isize>,
    pub tooltip_visible: bool,
    pub mouse_tracking: bool,
    pub tooltip_text: Seq<char>,
    pub win_event_hook: Option<isize>,
    pub is_dark: bool,
    pub embedded: bool,
    pub rows: Seq<RowView>,
    pub data: Option<Seq<SectionView>>,
    pub poll_interval_ms: u32,
    pub retry_count: u32,
    pub last_poll_ok: bool,
    pub tray_offset: i32,
    pub dragging: bool,
    pub drag_start_mouse_x: i32,
    pub drag_start_offset: i32,
    pub widget_visible: bool,
}

/// What usage data says, if there is any.
pub open spec fn data_view(data: Option<UsageData>) -> Option<Seq<SectionView>> {
    match data {
        Some(data) => Some(data@),
        None => None,
    }
}

impl View for AppState {
    type V = StateView;

    open spec fn view(&self) -> StateView {
        StateView {
            hwnd: self.hwnd,
            taskbar_hwnd: self.taskbar_hwnd,
            tray_notify_hwnd: self.tray_notify_hwnd,
            tooltip_hwnd: self.tooltip_hwnd,
            tooltip_visible: self.tooltip_visible,
            mouse_tracking: self.mouse_tracking,
            tooltip_text: self.tooltip_text@,
            win_event_hook: self.win_event_hook,
            is_dark: self.is_dark,
            embedded: self.embedded,
            rows: row_views(self.display_rows@),
            data: data_view(self.codex_data),
            poll_interval_ms: self.poll_interval_ms,
            retry_count: self.retry_count,
            last_poll_ok: self.last_poll_ok,
            tray_offset: self.tray_offset,
            dragging: self.dragging,
            drag_start_mouse_x: self.drag_start_mouse_x,
            drag_start_offset: self.drag_start_offset,
            widget_visible: self.widget_visible,
        }
    }
}

/// The rows before any usage is known.
pub open spec fn first_rows(strings: Strings) -> Seq<RowView> {
    seq![
        RowView { label: strings.session_window@, percent: unused(), text: unknown_text() },
        RowView { label: strings.weekly_window@, percent: unused(), text: unknown_text() },
    ]
}

/// The rows before any usage is known.
pub fn default_display_rows(strings: Strings) -> (r: Vec<DisplayRow>)
    ensures
        row_views(r@) == first_rows(strings),
{
    let r = vec![
        DisplayRow {
            label: copy(strings.session_window),
            percent: Percent::default(),
            text: unknown(),
        },
        DisplayRow {
            label: copy(strings.weekly_window),
            percent: Percent::default(),
            text: unknown(),
        },
    ];
    assert(row_views(r@) =~= first_rows(strings));
    r
}

/// The state of a widget that has just been made.
pub open spec fn first_state(
    hwnd: isize,
    settings: SettingsFile,
    is_dark: bool,
    strings: Strings,
) -> StateView {
    StateView {
        hwnd,
        taskbar_hwnd: None,
        tray_notify_hwnd: None,
        tooltip_hwnd: None,
        tooltip_visible: false,
        mouse_tracking: false,
        tooltip_text: Seq::empty(),
        win_event_hook: None,
        is_dark,
        embedded: false,
        rows: first_rows(strings),
        data: None,
        poll_interval_ms: settings.poll_interval_ms,
        retry_count: 0,
        last_poll_ok: false,
        tray_offset: settings.tray_offset,
        dragging: false,
        drag_start_mouse_x: 0,
        drag_start_offset: 0,
        widget_visible: settings.widget_visible,
    }
}

impl AppState {
    /// The state of a widget that has just been made.
    pub fn new(hwnd: isize, settings: SettingsFile, is_dark: bool, strings: Strings) -> (r:
        AppState)
        ensures
            r@ == first_state(hwnd, settings, is_dark, strings),
    {
        AppState {
            hwnd,
            taskbar_hwnd: None,
            tray_notify_hwnd: None,
            tooltip_hwnd: None,
            tooltip_visible: false,
            mouse_tracking: false,
            tooltip_text: String::new(),
            win_event_hook: None,
            is_dark,
            embedded: false,
            display_rows: default_display_rows(strings),
            codex_data: None,
            poll_interval_ms: settings.poll_interval_ms,
            retry_count: 0,
            last_poll_ok: false,
            tray_offset: settings.tray_offset,
            dragging: false,
            drag_start_mouse_x: 0,
            drag_start_offset: 0,
            widget_visible: settings.widget_visible,
        }
    }
}

/// The settings that a state stands for.
pub open spec fn settings_in(s: StateView) -> SettingsFile {
    SettingsFile {
        tray_offset: s.tray_offset,
        poll_interval_ms: s.poll_interval_ms,
        widget_visible: s.widget_visible,
    }
}

/// The settings that a state stands for.
pub fn settings_of(state: &AppState) -> (r: SettingsFile)
    ensures
        r == settings_in(state@),
{
    SettingsFile {
        tray_offset: state.tray_offset,
        poll_interval_ms: state.poll_interval_ms,
        widget_visible: state.widget_visible,
    }
}

/// A widget that starts with the settings of another one has the same
/// settings.
pub proof fn law_settings_are_restored(
    s: StateView,
    hwnd: isize,
    is_dark: bool,
    strings: Strings,
)
    ensures
        settings_in(first_state(hwnd, settings_in(s), is_dark, strings)) == settings_in(s),
{
}

// ---------------------------------------------------------------------------
// Rows
// ---------------------------------------------------------------------------

/// The row of a usage window at the time `now`.
pub open spec fn row_for(window: SectionView, strings: Strings, now: int) -> RowView {
    RowView {
        label: label_of(window, strings),
        percent: window.percentage,
        text: usage_line(window, strings, now),
    }
}

/// The rows of the usage windows at the time `now`.
pub open spec fn rows_for(windows: Seq<SectionView>, strings: Strings, now: int) -> Seq<RowView> {
    windows.map_values(|w: SectionView| row_for(w, strings, now))
}

/// The state with its rows brought up to date: they follow the data, but stay
/// as they are after a failed poll.
pub open spec fn refreshed(s: StateView, strings: Strings, now: int) -> StateView {
    match s.data {
        Some(windows) if s.last_poll_ok => StateView { rows: rows_for(windows, strings, now), ..s },
        _ => s,
    }
}

/// Brings the rows up to date as of `now`.
pub fn refresh_usage_texts_at(state: &mut AppState, strings: Strings, now: Timestamp)
    ensures
        final(state)@ == refreshed(old(state)@, strings, now@),
{
    if !state.last_poll_ok {
        return;
    }
    let mut rows: Vec<DisplayRow> = Vec::new();
    match &state.codex_data {
        None => {
            return;
        },
        Some(data) => {
            let ghost expected = rows_for(data@, strings, now@);
            let mut i: usize = 0;
            while i < data.windows.len()
                invariant
                    i <= data.windows@.len(),
                    expected == rows_for(data@, strings, now@),
                    rows@.len() == i,
                    forall|k: int| 0 <= k < i ==> #[trigger] rows@[k]@ == expected[k],
                decreases data.windows@.len() - i,
            {
                let window = &data.windows[i];
                assert(data@[i as int] == window@);
                rows.push(
                    DisplayRow {
                        label: window_label(window, strings),
                        percent: window.percentage,
                        text: format_line_at(window, strings, now),
                    },
                );
                i = i + 1;
            }
            assert(row_views(rows@) =~= expected);
        },
    }
    state.display_rows = rows;
}

/// Brings the rows up to date.
pub fn refresh_usage_texts(state: &mut AppState, strings: Strings)
    ensures
        exists|t: int| #[trigger]
            representable(t) && final(state)@ == refreshed(old(state)@, strings, t),
{
    let t = now();
    refresh_usage_texts_at(state, strings, t);
}

/// Brings the rows up to date when the countdown timer fires. What a failed
/// poll has left is not overwritten with old data.
pub fn update_display(state: &mut AppState, strings: Strings)
    ensures
        exists|t: int| #[trigger]
            representable(t) && final(state)@ == refreshed(old(state)@, strings, t),
{
    refresh_usage_texts(state, strings);
}

/// What a row shows while its usage is being asked for.
pub open spec fn waiting_text() -> Seq<char> {
    seq!['.', '.', '.']
}

/// The rows while the usage is being asked for: those of before, or the first
/// ones if there are none, each without its text.
pub open spec fn waiting_rows(rows: Seq<RowView>, strings: Strings) -> Seq<RowView> {
    let base = if rows.len() == 0 {
        first_rows(strings)
    } else {
        rows
    };
    base.map_values(|r: RowView| RowView { text: waiting_text(), ..r })
}

fn clear_texts(state: &mut AppState, strings: Strings)
    ensures
        final(state)@ == (StateView {
            rows: waiting_rows(old(state)@.rows, strings),
            ..old(state)@
        }),
{
    if state.display_rows.len() == 0 {
        state.display_rows = default_display_rows(strings);
    }
    let ghost base = state.display_rows@;
    let mut rows: Vec<DisplayRow> = Vec::new();
    let mut i: usize = 0;
    while i < state.display_rows.len()
        invariant
            i <= state.display_rows@.len(),
            state.display_rows@ == base,
            rows@.len() == i,
            forall|k: int|
                0 <= k < i ==> #[trigger] rows@[k]@ == (RowView {
                    text: waiting_text(),
                    ..base[k]@
                }),
        decreases state.display_rows@.len() - i,
    {
        let mut text = String::new();
        text.push('.');
        text.push('.');
        text.push('.');
        assert(text@ =~= waiting_text());
        rows.push(
            DisplayRow {
                label: state.display_rows[i].label.clone(),
                percent: state.display_rows[i].percent,
                text,
            },
        );
        i = i + 1;
    }
    assert(row_views(old(state).display_rows@).len() == old(state).display_rows@.len());
    assert(row_views(rows@) =~= waiting_rows(old(state)@.rows, strings)) by {
        let from = if old(state)@.rows.len() == 0 {
            first_rows(strings)
        } else {
            old(state)@.rows
        };
        assert(row_views(base) =~= from);
        assert forall|k: int| 0 <= k < rows@.len() implies #[trigger] row_views(rows@)[k]
            == waiting_rows(old(state)@.rows, strings)[k] by {
            assert(row_views(rows@)[k] == rows@[k]@);
            assert(row_views(base)[k] == base[k]@);
        }
    }
    state.display_rows = rows;
}

/// Clears the texts of the rows when the user asks for a new poll.
pub fn request_refresh(state: &mut AppState, strings: Strings)
    ensures
        final(state)@ == (StateView {
            rows: waiting_rows(old(state)@.rows, strings),
            ..old(state)@
        }),
{
    clear_texts(state, strings);
}

// ---------------------------------------------------------------------------
// Polls
// ---------------------------------------------------------------------------

/// The timers of the widget.
#[derive(Clone, Copy, Debug, PartialEq, Eq, Structural)]
pub enum Timer {
    /// Polls.
    Poll,
    /// Brings the countdowns up to date.
    Countdown,
    /// Polls after a reset.
    ResetPoll,
    /// Looks for the taskbar.
    TaskbarRetry,
}

/// What is to be done about a timer.
#[derive(Clone, Copy, Debug, PartialEq, Eq, Structural)]
pub enum TimerCommand {
    /// Let it fire every so many milliseconds from now on.
    Start(Timer, u32),
    Stop(Timer),
}

/// The smaller of two numbers.
pub open spec fn smaller(a: int, b: int) -> int {
    if a <= b {
        a
    } else {
        b
    }
}

/// How long to wait after the `failures`-th failed poll in a row, in
/// milliseconds: twice as long each time, but no longer than the poll interval.
pub open spec fn backoff(failures: nat, interval: nat) -> int
    recommends
        failures > 0,
{
    smaller(RETRY_BASE_MS * pow2((failures - 1) as nat), interval as int)
}

/// How long to wait after the `failures`-th failed poll in a row.
pub fn retry_delay(failures: u32, interval: u32) -> (r: u32)
    requires
        failures > 0,
    ensures
        r == backoff(failures as nat, interval as nat),
{
    let doublings: u32 = failures - 1;
    proof {
        lemma2_to64();
        if doublings > 32 {
            lemma_pow2_strictly_increases(32, doublings as nat);
        } else if doublings < 32 {
            lemma_pow2_strictly_increases(doublings as nat, 32);
        }
    }
    if doublings >= 32 {
        return interval;
    }
    proof {
        lemma_u64_shl_is_mul(1, doublings as u64);
    }
    let delay: u64 = RETRY_BASE_MS as u64 * (1u64 << (doublings as u64));
    if delay <= interval as u64 {
        delay as u32
    } else {
        interval
    }
}

/// The waits between failed polls never shrink and never exceed the poll
/// interval, and the first one is half a minute unless the interval is shorter.
pub proof fn law_backoff(failures: nat, interval: nat)
    requires
        failures > 0,
    ensures
        backoff(1, interval) == smaller(RETRY_BASE_MS as int, interval as int),
        backoff(failures, interval) <= backoff(failures + 1, interval) <= interval,
        backoff(failures + 1, interval) == smaller(2 * backoff(failures, interval), interval as int),
{
    lemma2_to64();
    lemma_pow2_pos((failures - 1) as nat);
    lemma_pow2_pos(failures);
    vstd::arithmetic::power2::lemma_pow2_unfold(failures);
    vstd::arithmetic::power2::lemma_pow2(0);
}

/// What a poll that brought usage data does to the state.
pub open spec fn after_success(
    s: StateView,
    windows: Seq<SectionView>,
    strings: Strings,
    now: int,
) -> StateView {
    StateView {
        retry_count: 0,
        ..refreshed(StateView { data: Some(windows), last_poll_ok: true, ..s }, strings, now)
    }
}

/// What is done about the timers after a poll that brought usage data: no more
/// polls for the sake of a reset unless one has passed, and the normal poll
/// interval again if there were failures.
pub open spec fn success_timers(s: StateView, windows: Seq<SectionView>, now: int) -> Seq<
    TimerCommand,
> {
    (if any_reset_reached(windows, now) {
        Seq::empty()
    } else {
        seq![TimerCommand::Stop(Timer::ResetPoll)]
    }) + (if s.retry_count > 0 {
        seq![TimerCommand::Start(Timer::Poll, s.poll_interval_ms)]
    } else {
        Seq::empty()
    })
}

/// The number of failed polls in a row, one more than before.
pub open spec fn one_more(count: u32) -> u32 {
    if count == u32::MAX {
        count
    } else {
        (count + 1) as u32
    }
}

/// What a failed poll does to the state.
pub open spec fn after_failure(s: StateView, strings: Strings) -> StateView {
    StateView {
        last_poll_ok: false,
        rows: waiting_rows(s.rows, strings),
        retry_count: one_more(s.retry_count),
        ..s
    }
}

/// What is done about the timers after a failed poll.
pub open spec fn failure_timers(s: StateView) -> Seq<TimerCommand> {
    seq![
        TimerCommand::Stop(Timer::ResetPoll),
        TimerCommand::Start(
            Timer::Poll,
            backoff(one_more(s.retry_count) as nat, s.poll_interval_ms as nat) as u32,
        ),
    ]
}

/// What a poll does to the state.
pub open spec fn after_poll(
    s: StateView,
    result: Result<Seq<SectionView>, PollError>,
    strings: Strings,
    now: int,
) -> StateView {
    match result {
        Ok(windows) => after_success(s, windows, strings, now),
        Err(_) => after_failure(s, strings),
    }
}

/// What is done about the timers after a poll.
pub open spec fn poll_timers(
    s: StateView,
    result: Result<Seq<SectionView>, PollError>,
    now: int,
) -> Seq<TimerCommand> {
    match result {
        Ok(windows) => success_timers(s, windows, now),
        Err(_) => failure_timers(s),
    }
}

/// Takes in what a poll brought at the time `now`.
pub fn do_poll_at(
    state: &mut AppState,
    result: Result<UsageData, PollError>,
    strings: Strings,
    now: Timestamp,
) -> (r: Vec<TimerCommand>)
    ensures
        final(state)@ == after_poll(old(state)@, usage_view(result), strings, now@),
        r@ == poll_timers(old(state)@, usage_view(result), now@),
{
    let mut timers: Vec<TimerCommand> = Vec::new();
    match result {
        Ok(data) => {
            let any_past_reset = is_past_reset_at(&data, now);
            state.codex_data = Some(data);
            if !any_past_reset {
                timers.push(TimerCommand::Stop(Timer::ResetPoll));
            }
            state.last_poll_ok = true;
            refresh_usage_texts_at(state, strings, now);
            if state.retry_count > 0 {
                state.retry_count = 0;
                timers.push(TimerCommand::Start(Timer::Poll, state.poll_interval_ms));
            }
            assert(timers@ =~= success_timers(old(state)@, data@, now@));
            assert(state@ =~= after_success(old(state)@, data@, strings, now@));
        },
        Err(_) => {
            state.last_poll_ok = false;
            clear_texts(state, strings);
            state.retry_count = state.retry_count.saturating_add(1);
            let retry_ms = retry_delay(state.retry_count, state.poll_interval_ms);
            timers.push(TimerCommand::Stop(Timer::ResetPoll));
            timers.push(TimerCommand::Start(Timer::Poll, retry_ms));
            assert(timers@ =~= failure_timers(old(state)@));
            assert(state@ =~= after_failure(old(state)@, strings));
        },
    }
    timers
}

/// Takes in what a poll brought.
pub fn do_poll(state: &mut AppState, result: Result<UsageData, PollError>, strings: Strings) -> (r:
    Vec<TimerCommand>)
    ensures
        exists|t: int| #[trigger]
            representable(t) && final(state)@ == after_poll(
                old(state)@,
                usage_view(result),
                strings,
                t,
            ) && r@ == poll_timers(old(state)@, usage_view(result), t),
{
    let t = now();
    do_poll_at(state, result, strings, t)
}

/// A failed poll leaves the last usage data in place, and the next one that
/// succeeds brings everything to where it would be without the failure.
pub proof fn law_success_makes_up_for_failure(
    s: StateView,
    windows: Seq<SectionView>,
    strings: Strings,
    now: int,
)
    ensures
        after_failure(s, strings).data == s.data,
        after_success(after_failure(s, strings), windows, strings, now) == after_success(
            s,
            windows,
            strings,
            now,
        ),
        success_timers(after_failure(s, strings), windows, now).contains(
            TimerCommand::Start(Timer::Poll, s.poll_interval_ms),
        ),
{
    let timers = success_timers(after_failure(s, strings), windows, now);
    assert(timers.last() == TimerCommand::Start(Timer::Poll, s.poll_interval_ms));
}

/// After a poll there are as many rows as usage windows; after a failed one
/// there is at least one row, and no row shows an old text.
pub proof fn law_rows_follow_polls(
    s: StateView,
    windows: Seq<SectionView>,
    strings: Strings,
    now: int,
)
    ensures
        after_success(s, windows, strings, now).rows == rows_for(windows, strings, now),
        rows_for(windows, strings, now).len() == windows.len(),
        after_failure(s, strings).rows.len() > 0,
        forall|i: int|
            0 <= i < after_failure(s, strings).rows.len() ==> (#[trigger] after_failure(
                s,
                strings,
            ).rows[i]).text == waiting_text(),
{
}

/// What a failed poll shows stays until the next poll: bringing the rows up to
/// date does not put old data in its place.
pub proof fn law_failure_stays_visible(s: StateView, strings: Strings, now: int)
    ensures
        refreshed(after_failure(s, strings), strings, now) == after_failure(s, strings),
{
}

/// Whether the percentages of all rows are valid.
pub open spec fn rows_valid(rows: Seq<RowView>) -> bool {
    forall|i: int| 0 <= i < rows.len() ==> (#[trigger] rows[i]).percent.valid()
}

/// The percentages in the rows stay valid: those of a new widget are, and a
/// poll keeps them so if it brings valid ones or fails. So is the one that the
/// tray icon shows.
pub proof fn law_percentages_stay_valid(
    s: StateView,
    windows: Seq<SectionView>,
    strings: Strings,
    now: int,
)
    requires
        rows_valid(s.rows),
        forall|i: int| 0 <= i < windows.len() ==> (#[trigger] windows[i]).percentage.valid(),
    ensures
        rows_valid(first_rows(strings)),
        rows_valid(after_success(s, windows, strings, now).rows),
        rows_valid(after_failure(s, strings).rows),
        most_used(s.rows).valid(),
{
    lemma_most_used_is_valid(s.rows);
    let rows = after_success(s, windows, strings, now).rows;
    assert forall|i: int| 0 <= i < rows.len() implies (#[trigger] rows[i]).percent.valid() by {
        assert(windows[i].percentage.valid());
    }
    let waiting = after_failure(s, strings).rows;
    assert forall|i: int| 0 <= i < waiting.len() implies (
    #[trigger] waiting[i]).percent.valid() by {
        if s.rows.len() > 0 {
            assert(s.rows[i].percent.valid());
        } else {
            assert(first_rows(strings)[i].percent.valid());
        }
    }
}

proof fn lemma_most_used_is_valid(rows: Seq<RowView>)
    requires
        rows_valid(rows),
    ensures
        most_used(rows).valid(),
    decreases rows.len(),
{
    if rows.len() > 0 {
        let front = rows.drop_last();
        assert forall|i: int| 0 <= i < front.len() implies (
        #[trigger] front[i]).percent.valid() by {
            assert(rows[i].percent.valid());
        }
        lemma_most_used_is_valid(front);
        assert(rows[rows.len() - 1].percent.valid());
    }
}

// ---------------------------------------------------------------------------
// The countdown timer
// ---------------------------------------------------------------------------

/// The least of two optional numbers.
pub open spec fn least(a: Option<nat>, b: Option<nat>) -> Option<nat> {
    match (a, b) {
        (Some(x), Some(y)) => if x <= y {
            Some(x)
        } else {
            Some(y)
        },
        (Some(x), None) => Some(x),
        (None, _) => b,
    }
}

/// The seconds after `now` at which the first of the countdowns shows something
/// else.
pub open spec fn next_change(windows: Seq<SectionView>, now: int) -> Option<nat>
    decreases windows.len(),
{
    if windows.len() == 0 {
        None
    } else {
        least(
            next_change(windows.drop_last(), now),
            display_change(windows.last().resets_at, now),
        )
    }
}

/// The windows in the data, if there is any.
pub open spec fn windows_in(s: StateView) -> Seq<SectionView> {
    match s.data {
        Some(windows) => windows,
        None => Seq::empty(),
    }
}

/// The milliseconds after which the countdowns are brought up to date: when the
/// first of them changes, or in a minute if none is running.
pub open spec fn countdown_ms(s: StateView, now: int) -> nat {
    match next_change(windows_in(s), now) {
        Some(secs) => secs * 1000,
        None => 60_000,
    }
}

/// What is done about the timers once the rows are up to date. After a failed
/// poll there is nothing to count down. Once a reset has passed, polls come in
/// quick succession.
pub open spec fn countdown_timers(s: StateView, now: int) -> Seq<TimerCommand> {
    if !s.last_poll_ok {
        seq![TimerCommand::Stop(Timer::Countdown), TimerCommand::Stop(Timer::ResetPoll)]
    } else {
        (if any_reset_reached(windows_in(s), now) {
            seq![TimerCommand::Start(Timer::ResetPoll, RESET_POLL_MS)]
        } else {
            Seq::empty()
        }).push(TimerCommand::Start(Timer::Countdown, countdown_ms(s, now) as u32))
    }
}

fn next_change_in(data: &UsageData, now: Timestamp) -> (r: Option<u64>)
    ensures
        as_nat(r) == next_change(data@, now@),
        r matches Some(secs) ==> 1 <= secs <= 86400,
{
    let mut min: Option<u64> = None;
    let mut i: usize = 0;
    assert(data@.take(0) =~= Seq::<SectionView>::empty());
    while i < data.windows.len()
        invariant
            i <= data.windows@.len(),
            data@.len() == data.windows@.len(),
            as_nat(min) == next_change(data@.take(i as int), now@),
            min matches Some(secs) ==> 1 <= secs <= 86400,
        decreases data.windows@.len() - i,
    {
        let delay = time_until_display_change_at(data.windows[i].resets_at, now);
        proof {
            assert(data@.take(i + 1).drop_last() =~= data@.take(i as int));
            assert(data@.take(i + 1).last() == data.windows@[i as int]@);
        }
        min = match (min, delay) {
            (Some(current), Some(delay)) => if current <= delay {
                Some(current)
            } else {
                Some(delay)
            },
            (Some(current), None) => Some(current),
            (None, other) => other,
        };
        i = i + 1;
    }
    assert(data@.take(data@.len() as int) =~= data@);
    min
}

/// Decides about the timers as of `now`.
pub fn schedule_countdown_timer_at(state: &AppState, now: Timestamp) -> (r: Vec<TimerCommand>)
    ensures
        r@ == countdown_timers(state@, now@),
{
    let mut timers: Vec<TimerCommand> = Vec::new();
    if !state.last_poll_ok {
        timers.push(TimerCommand::Stop(Timer::Countdown));
        timers.push(TimerCommand::Stop(Timer::ResetPoll));
        assert(timers@ =~= countdown_timers(state@, now@));
        return timers;
    }
    let mut min_delay: Option<u64> = None;
    if let Some(data) = &state.codex_data {
        if is_past_reset_at(data, now) {
            timers.push(TimerCommand::Start(Timer::ResetPoll, RESET_POLL_MS));
        }
        min_delay = next_change_in(data, now);
    }
    let ms: u32 = match min_delay {
        Some(secs) => secs as u32 * 1000,
        None => 60_000,
    };
    timers.push(TimerCommand::Start(Timer::Countdown, ms));
    assert(timers@ =~= countdown_timers(state@, now@));
    timers
}

/// Decides about the timers.
pub fn schedule_countdown_timer(state: &AppState) -> (r: Vec<TimerCommand>)
    ensures
        exists|t: int| #[trigger] representable(t) && r@ == countdown_timers(state@, t),
{
    let t = now();
    schedule_countdown_timer_at(state, t)
}

proof fn lemma_next_change_is_least(windows: Seq<SectionView>, now: int, i: int)
    requires
        0 <= i < windows.len(),
    ensures
        display_change(windows[i].resets_at, now) matches Some(secs) ==> next_change(
            windows,
            now,
        ) is Some && next_change(windows, now)->0 <= secs,
    decreases windows.len(),
{
    if i < windows.len() - 1 {
        lemma_next_change_is_least(windows.drop_last(), now, i);
    }
}

/// No row changes its text at any instant up to one second before the countdown
/// timer fires. So the timer never comes too late by more than that second.
/// `elapsed` is in nanoseconds.
pub proof fn law_timer_is_not_late(s: StateView, strings: Strings, now: int, elapsed: int)
    requires
        0 <= elapsed <= countdown_ms(s, now) * 1_000_000 - 1_000_000_000,
    ensures
        rows_for(windows_in(s), strings, now + elapsed) == rows_for(windows_in(s), strings, now),
{
    let windows = windows_in(s);
    let later = now + elapsed;
    assert forall|i: int| 0 <= i < windows.len() implies usage_line(
        #[trigger] windows[i],
        strings,
        later,
    ) == usage_line(windows[i], strings, now) by {
        lemma_next_change_is_least(windows, now, i);
        if let Some(reset) = windows[i].resets_at {
            if now <= reset {
                law_delay_is_exact(reset, now, elapsed, strings);
            }
        }
    }
    assert(rows_for(windows, strings, later) =~= rows_for(windows, strings, now));
}

proof fn lemma_next_change_is_attained(windows: Seq<SectionView>, now: int) -> (i: int)
    requires
        next_change(windows, now) is Some,
    ensures
        0 <= i < windows.len(),
        display_change(windows[i].resets_at, now) == next_change(windows, now),
    decreases windows.len(),
{
    if display_change(windows.last().resets_at, now) == next_change(windows, now) {
        windows.len() - 1
    } else {
        lemma_next_change_is_attained(windows.drop_last(), now)
    }
}

/// When the countdown timer fires and no reset has passed, some row has to be
/// drawn anew. So the timer does not come too early.
pub proof fn law_timer_is_not_early(s: StateView, strings: Strings, now: int)
    requires
        next_change(windows_in(s), now) is Some,
        !any_reset_reached(windows_in(s), now + countdown_ms(s, now) * 1_000_000),
    ensures
        rows_for(windows_in(s), strings, now + countdown_ms(s, now) * 1_000_000) != rows_for(
            windows_in(s),
            strings,
            now,
        ),
{
    let windows = windows_in(s);
    let due = now + countdown_ms(s, now) * 1_000_000;
    let i = lemma_next_change_is_attained(windows, now);
    let w = windows[i];
    let reset = w.resets_at->0;
    assert(!crate::poller::reset_reached(w, due));
    law_delay_is_exact(reset, now, 0, strings);
    assert(countdown(w.resets_at, due, strings) != countdown(w.resets_at, now, strings));
    lemma_lines_differ(w, strings, due, now);
    assert(rows_for(windows, strings, due)[i] == row_for(w, strings, due));
    assert(rows_for(windows, strings, now)[i] == row_for(w, strings, now));
}

proof fn lemma_lines_differ(w: SectionView, strings: Strings, a: int, b: int)
    requires
        countdown(w.resets_at, a, strings) != countdown(w.resets_at, b, strings),
    ensures
        usage_line(w, strings, a) != usage_line(w, strings, b),
{
    let percent = crate::text::decimal(w.percentage.remaining_whole as nat).push('%');
    let sep = crate::poller::line_separator();
    let x = countdown(w.resets_at, a, strings);
    let y = countdown(w.resets_at, b, strings);
    let n = (percent + sep).len();
    if x.len() > 0 && y.len() > 0 {
        assert((percent + sep + x).skip(n as int) =~= x);
        assert((percent + sep + y).skip(n as int) =~= y);
    } else if x.len() == 0 && y.len() == 0 {
        assert(x =~= y);
    } else {
        assert(percent.len() < n);
    }
}

// ---------------------------------------------------------------------------
// The theme, the tray icon and visibility
// ---------------------------------------------------------------------------

/// Takes in whether the taskbar is dark, and says whether that is new.
pub fn check_theme_change(state: &mut AppState, new_dark: bool) -> (changed: bool)
    ensures
        changed == (old(state)@.is_dark != new_dark),
        final(state)@ == (StateView { is_dark: new_dark, ..old(state)@ }),
{
    if state.is_dark != new_dark {
        state.is_dark = new_dark;
        true
    } else {
        false
    }
}

/// Shows a hidden widget or hides a visible one, and says which.
pub fn toggle_widget_visibility(state: &mut AppState) -> (visible: bool)
    ensures
        visible == !old(state)@.widget_visible,
        final(state)@ == (StateView { widget_visible: visible, ..old(state)@ }),
{
    state.widget_visible = !state.widget_visible;
    state.widget_visible
}

/// Of two percentages the one of which more is used.
pub open spec fn more_used(a: PercentView, b: PercentView) -> PercentView {
    if b.used > a.used {
        b
    } else {
        a
    }
}

/// The percentage of which most is used, of those in the rows and zero.
pub open spec fn most_used(rows: Seq<RowView>) -> PercentView
    decreases rows.len(),
{
    if rows.len() == 0 {
        unused()
    } else {
        more_used(most_used(rows.drop_last()), rows.last().percent)
    }
}

/// What the tooltip of the tray icon says about a row.
pub open spec fn tray_part(row: RowView) -> Seq<char> {
    row.label + ": "@ + row.text
}

/// What the tooltip of the tray icon says about the rows.
pub open spec fn tray_text(rows: Seq<RowView>) -> Seq<char> {
    "Codex "@ + joined(rows.map_values(|r: RowView| tray_part(r)), " | "@)
}

/// The percentage and the tooltip of the tray icon: those of the rows after a
/// successful poll, else none and the name of the program.
pub open spec fn tray_data(s: Option<StateView>) -> (Option<PercentView>, Seq<char>) {
    match s {
        Some(s) if s.last_poll_ok && s.rows.len() > 0 => (
            Some(most_used(s.rows)),
            tray_text(s.rows),
        ),
        _ => (None, "Codex Windows Taskbar"@),
    }
}

/// A state in mathematical terms, if there is one.
pub open spec fn state_view(state: Option<&AppState>) -> Option<StateView> {
    match state {
        Some(s) => Some(s@),
        None => None,
    }
}

/// The parts of a percentage, if there is one.
pub open spec fn percent_view(percent: Option<Percent>) -> Option<PercentView> {
    match percent {
        Some(percent) => Some(percent@),
        None => None,
    }
}

/// Finds the percentage and the tooltip of the tray icon. The percentage is the
/// one of which most is used, so what remains of it is what the icon shows.
pub fn tray_icon_data_from_state(state: Option<&AppState>) -> (r: (Option<Percent>, String))
    ensures
        (percent_view(r.0), r.1@) == tray_data(state_view(state)),
{
    if let Some(s) = state {
        if s.last_poll_ok && s.display_rows.len() > 0 {
            let ghost rows = s@.rows;
            let mut parts: Vec<String> = Vec::new();
            let mut most = Percent::default();
            let mut i: usize = 0;
            assert(rows.take(0) =~= Seq::<RowView>::empty());
            while i < s.display_rows.len()
                invariant
                    i <= s.display_rows@.len(),
                    rows == row_views(s.display_rows@),
                    parts@.len() == i,
                    forall|k: int| 0 <= k < i ==> #[trigger] parts@[k]@ == tray_part(rows[k]),
                    most@ == most_used(rows.take(i as int)),
                decreases s.display_rows@.len() - i,
            {
                let row = &s.display_rows[i];
                proof {
                    assert(rows[i as int] == row@);
                    assert(rows.take(i + 1).drop_last() =~= rows.take(i as int));
                    assert(rows.take(i + 1).last() == row@);
                }
                let part = row.label.clone().concat(": ").concat(row.text.as_str());
                parts.push(part);
                if row.percent.used() > most.used() {
                    most = row.percent;
                }
                i = i + 1;
            }
            assert(rows.take(rows.len() as int) =~= rows);
            assert(texts(parts@) =~= rows.map_values(|r: RowView| tray_part(r)));
            let tooltip = copy("Codex ").concat(join(&parts, " | ").as_str());
            return (Some(most), tooltip);
        }
    }
    (None, copy("Codex Windows Taskbar"))
}

/// The percentage of the tray icon is the worst one: no row has used more of
/// its quota.
pub proof fn law_tray_shows_the_worst(rows: Seq<RowView>, i: int)
    requires
        0 <= i < rows.len(),
    ensures
        rows[i].percent.used <= most_used(rows).used,
        most_used(rows).used >= 0,
        most_used(rows) == unused() || exists|k: int|
            0 <= k < rows.len() && most_used(rows) == (#[trigger] rows[k]).percent,
    decreases rows.len(),
{
    let front = rows.drop_last();
    if front.len() > 0 {
        let j = if i < front.len() {
            i
        } else {
            0
        };
        law_tray_shows_the_worst(front, j);
        if most_used(front) != unused() {
            let k = choose|k: int|
                0 <= k < front.len() && most_used(front) == (#[trigger] front[k]).percent;
            assert(rows[k] == front[k]);
        }
    } else {
        assert(most_used(front) == unused());
    }
    assert(rows.last() == rows[rows.len() - 1]);
}

// ---------------------------------------------------------------------------
// Laws of the state
// ---------------------------------------------------------------------------

/// Settings are what they are called, and a first run has the widget visible at the tray
/// and polls every quarter of an hour.
pub proof fn law_settings_mirror_the_state(s: StateView)
    ensures
        settings_in(s).tray_offset == s.tray_offset,
        settings_in(s).poll_interval_ms == s.poll_interval_ms,
        settings_in(s).widget_visible == s.widget_visible,
        first_settings().tray_offset == 0,
        first_settings().poll_interval_ms == 15 * 60 * 1000,
        first_settings().widget_visible,
{
}

/// A new widget takes over its settings, has polled nothing, is attached to nothing and
/// is not being dragged. It has a row for each of the two usual windows, which says that
/// nothing is known.
pub proof fn law_new_widget_is_blank(
    hwnd: isize,
    settings: SettingsFile,
    is_dark: bool,
    strings: Strings,
)
    ensures
        ({
            let s = first_state(hwnd, settings, is_dark, strings);
            &&& s.hwnd == hwnd && s.is_dark == is_dark
            &&& s.tray_offset == settings.tray_offset
            &&& s.poll_interval_ms == settings.poll_interval_ms
            &&& s.widget_visible == settings.widget_visible
            &&& s.data is None && !s.last_poll_ok && s.retry_count == 0
            &&& s.taskbar_hwnd is None && s.tray_notify_hwnd is None && s.win_event_hook is None
            &&& !s.embedded && !s.dragging
            &&& s.tooltip_hwnd is None && !s.tooltip_visible && !s.mouse_tracking
            &&& s.tooltip_text.len() == 0
            &&& s.rows.len() == 2
            &&& s.rows[0].label == strings.session_window@
            &&& s.rows[1].label == strings.weekly_window@
            &&& forall|i: int|
                0 <= i < 2 ==> (#[trigger] s.rows[i]).text == seq!['-', '-']
                    && s.rows[i].percent.used == 0
        }),
{
}

/// After a successful poll each row shows its own window, as it stands at that time: its
/// label, its percentage and its line of text. Nothing else of the state changes but
/// that the poll counts as a success and no failure is pending.
pub proof fn law_rows_show_the_windows(
    s: StateView,
    windows: Seq<SectionView>,
    strings: Strings,
    now: int,
    i: int,
)
    ensures
        ({
            let after = after_poll(s, Ok(windows), strings, now);
            &&& after.data == Some(windows)
            &&& after.last_poll_ok
            &&& after.retry_count == 0
            &&& after.rows.len() == windows.len()
            &&& 0 <= i < windows.len() ==> after.rows[i].label == label_of(windows[i], strings)
                && after.rows[i].percent == windows[i].percentage && after.rows[i].text
                == usage_line(windows[i], strings, now)
            &&& StateView {
                data: s.data,
                last_poll_ok: s.last_poll_ok,
                retry_count: s.retry_count,
                rows: s.rows,
                ..after
            } == s
        }),
{
}

/// After a failed poll the rows keep their labels and their bars but show three dots, and
/// one more failure is pending. The data of before stays, and nothing else changes.
pub proof fn law_failed_poll_keeps_the_bars(
    s: StateView,
    error: PollError,
    strings: Strings,
    now: int,
    i: int,
)
    ensures
        ({
            let after = after_poll(s, Err(error), strings, now);
            let before = if s.rows.len() > 0 {
                s.rows
            } else {
                first_rows(strings)
            };
            &&& !after.last_poll_ok
            &&& s.retry_count < u32::MAX ==> after.retry_count == s.retry_count + 1
            &&& s.retry_count == u32::MAX ==> after.retry_count == u32::MAX
            &&& after.rows.len() == before.len()
            &&& 0 <= i < before.len() ==> after.rows[i].label == before[i].label
                && after.rows[i].percent == before[i].percent && after.rows[i].text == seq![
                '.',
                '.',
                '.',
            ]
            &&& StateView {
                last_poll_ok: s.last_poll_ok,
                retry_count: s.retry_count,
                rows: s.rows,
                ..after
            } == s
        }),
{
}

/// Bringing the rows up to date changes nothing but the rows, and these only after a
/// successful poll; then they show the windows as they stand at that time.
pub proof fn law_refreshing_follows_the_clock(s: StateView, strings: Strings, now: int, i: int)
    ensures
        ({
            let after = refreshed(s, strings, now);
            &&& StateView { rows: s.rows, ..after } == s
            &&& !s.last_poll_ok || s.data is None ==> after == s
            &&& s.last_poll_ok && s.data is Some ==> {
                &&& after.rows.len() == s.data->0.len()
                &&& 0 <= i < after.rows.len() ==> after.rows[i].label == label_of(
                    s.data->0[i],
                    strings,
                ) && after.rows[i].percent == s.data->0[i].percentage && after.rows[i].text
                    == usage_line(s.data->0[i], strings, now)
            }
        }),
{
}

/// Failed polls are repeated after half a minute, a minute, two minutes and so on, but
/// after no more than the poll interval; a success brings the poll interval back, and
/// ends the polls for the sake of a reset unless a reset has come. No other timer is
/// touched by a poll.
pub proof fn law_polls_set_the_timers(
    s: StateView,
    windows: Seq<SectionView>,
    error: PollError,
    now: int,
    c: TimerCommand,
)
    ensures
        ({
            let success = poll_timers(s, Ok(windows), now);
            let failure = poll_timers(s, Err(error), now);
            let failures = if s.retry_count < u32::MAX {
                s.retry_count + 1
            } else {
                u32::MAX as int
            };
            let doubled = 30_000 * pow2((failures - 1) as nat);
            &&& success.contains(c) <==> {
                ||| c == TimerCommand::Stop(Timer::ResetPoll) && !any_reset_reached(windows, now)
                ||| c == TimerCommand::Start(Timer::Poll, s.poll_interval_ms) && s.retry_count > 0
            }
            &&& failure.len() == 2
            &&& failure[0] == TimerCommand::Stop(Timer::ResetPoll)
            &&& doubled <= s.poll_interval_ms ==> failure[1] == TimerCommand::Start(
                Timer::Poll,
                doubled as u32,
            )
            &&& doubled >= s.poll_interval_ms ==> failure[1] == TimerCommand::Start(
                Timer::Poll,
                s.poll_interval_ms,
            )
        }),
{
    let success = poll_timers(s, Ok(windows), now);
    let stop = TimerCommand::Stop(Timer::ResetPoll);
    let start = TimerCommand::Start(Timer::Poll, s.poll_interval_ms);
    if !any_reset_reached(windows, now) {
        assert(success[0] == stop);
    }
    if s.retry_count > 0 {
        assert(success.last() == start);
    }
}

/// After a failed poll the countdown timer is stopped, together with the polls for the
/// sake of a reset. After a successful one it is started, and so are those polls, every
/// five seconds, if a reset has come.
pub proof fn law_countdown_timer_is_set(s: StateView, now: int)
    ensures
        ({
            let timers = countdown_timers(s, now);
            let start = TimerCommand::Start(Timer::Countdown, countdown_ms(s, now) as u32);
            let reached = s.data is Some && any_reset_reached(s.data->0, now);
            &&& !s.last_poll_ok ==> timers == seq![
                TimerCommand::Stop(Timer::Countdown),
                TimerCommand::Stop(Timer::ResetPoll),
            ]
            &&& s.last_poll_ok && reached ==> timers == seq![
                TimerCommand::Start(Timer::ResetPoll, 5_000),
                start,
            ]
            &&& s.last_poll_ok && !reached ==> timers == seq![start]
        }),
{
    let timers = countdown_timers(s, now);
    if s.last_poll_ok {
        let last = TimerCommand::Start(Timer::Countdown, countdown_ms(s, now) as u32);
        if any_reset_reached(windows_in(s), now) {
            assert(timers =~= seq![TimerCommand::Start(Timer::ResetPoll, 5_000), last]);
        } else {
            assert(timers =~= seq![last]);
        }
    }
}

/// The countdown timer is set to the first change of any countdown that is running, or to
/// a minute if none is.
pub proof fn law_timer_meets_the_first_change(
    s: StateView,
    windows: Seq<SectionView>,
    now: int,
    i: int,
)
    requires
        s.data == Some(windows),
        0 <= i < windows.len(),
    ensures
        display_change(windows[i].resets_at, now) matches Some(secs) ==> countdown_ms(s, now)
            <= 1000 * secs,
        (forall|k: int|
            0 <= k < windows.len() ==> display_change((#[trigger] windows[k]).resets_at, now) is None)
            ==> countdown_ms(s, now) == 60_000,
        display_change(windows[i].resets_at, now) is Some ==> exists|k: int|
            0 <= k < windows.len() && display_change((#[trigger] windows[k]).resets_at, now) is Some
                && countdown_ms(s, now) == 1000 * display_change(windows[k].resets_at, now)->0,
{
    lemma_next_change_is_least(windows, now, i);
    if next_change(windows, now) is Some {
        let k = lemma_next_change_is_attained(windows, now);
        assert(display_change(windows[k].resets_at, now) == next_change(windows, now));
    }
}

/// Without usage data there is nothing to count down, and the timer comes in a minute.
pub proof fn law_timer_without_data(s: StateView, now: int)
    requires
        s.data is None,
    ensures
        countdown_ms(s, now) == 60_000,
        !any_reset_reached(windows_in(s), now),
{
}

/// The tray icon shows a percentage after a successful poll, if there are rows; else it
/// shows none and names the program. Its tooltip then says of each row its label and its
/// text, one row after the other.
pub proof fn law_tray_speaks_of_each_row(s: StateView, rows: Seq<RowView>, row: RowView)
    ensures
        tray_data(None).0 is None,
        tray_data(None).1 == "Codex Windows Taskbar"@,
        !s.last_poll_ok || s.rows.len() == 0 ==> tray_data(Some(s)) == tray_data(None),
        s.last_poll_ok && s.rows.len() > 0 ==> tray_data(Some(s)) == (
            Some(most_used(s.rows)),
            tray_text(s.rows),
        ),
        tray_text(seq![row]) == "Codex "@ + row.label + ": "@ + row.text,
        rows.len() > 0 ==> tray_text(rows.push(row)) == tray_text(rows) + " | "@ + row.label
            + ": "@ + row.text,
{
    let parts = rows.map_values(|r: RowView| tray_part(r));
    let more = rows.push(row).map_values(|r: RowView| tray_part(r));
    assert(more =~= parts.push(tray_part(row)));
    assert(more.drop_last() =~= parts);
    let single = seq![row].map_values(|r: RowView| tray_part(r));
    assert(single =~= seq![tray_part(row)]);
    assert(tray_text(seq![row]) =~= "Codex "@ + row.label + ": "@ + row.text);
    if rows.len() > 0 {
        assert(tray_text(rows.push(row)) =~= tray_text(rows) + " | "@ + row.label + ": "@
            + row.text);
    }
}

/// The state is seen as it is: every field, and every row with its label, its percentage
/// and its text.
pub proof fn law_state_is_seen(state: AppState, i: int)
    ensures
        ({
            let s = state@;
            &&& s.hwnd == state.hwnd
            &&& s.taskbar_hwnd == state.taskbar_hwnd
            &&& s.tray_notify_hwnd == state.tray_notify_hwnd
            &&& s.tooltip_hwnd == state.tooltip_hwnd
            &&& s.tooltip_visible == state.tooltip_visible
            &&& s.mouse_tracking == state.mouse_tracking
            &&& s.tooltip_text == state.tooltip_text@
            &&& s.win_event_hook == state.win_event_hook
            &&& s.is_dark == state.is_dark
            &&& s.embedded == state.embedded
            &&& s.poll_interval_ms == state.poll_interval_ms
            &&& s.retry_count == state.retry_count
            &&& s.last_poll_ok == state.last_poll_ok
            &&& s.tray_offset == state.tray_offset
            &&& s.dragging == state.dragging
            &&& s.drag_start_mouse_x == state.drag_start_mouse_x
            &&& s.drag_start_offset == state.drag_start_offset
            &&& s.widget_visible == state.widget_visible
            &&& state.codex_data is None <==> s.data is None
            &&& state.codex_data is Some ==> s.data->0 == state.codex_data->0@
            &&& s.rows.len() == state.display_rows@.len()
            &&& 0 <= i < s.rows.len() ==> s.rows[i].label == state.display_rows@[i].label@
                && s.rows[i].percent == state.display_rows@[i].percent@ && s.rows[i].text
                == state.display_rows@[i].text@
            &&& state_view(Some(&state)) == Some(s)
            &&& state_view(None) is None
        }),
{
}

/// Of two percentages the worse one is the one of which more is used, and the least of two
/// delays is one of them and no longer than either.
pub proof fn law_choices_between_two(a: PercentView, b: PercentView, x: nat, y: nat)
    ensures
        more_used(a, b) == a || more_used(a, b) == b,
        more_used(a, b).used >= a.used && more_used(a, b).used >= b.used,
        least(Some(x), Some(y)) == Some(x) || least(Some(x), Some(y)) == Some(y),
        least(Some(x), Some(y))->0 <= x && least(Some(x), Some(y))->0 <= y,
        least(Some(x), None) == Some(x),
        least(None, Some(y)) == Some(y),
        least(None, None) is None,
        smaller(x as int, y as int) == x || smaller(x as int, y as int) == y,
        smaller(x as int, y as int) <= x && smaller(x as int, y as int) <= y,
{
}

/// Percentages are seen as they are, if there are any.
pub proof fn law_percentages_are_seen(percent: Percent)
    ensures
        percent_view(Some(percent)) == Some(percent@),
        percent_view(None) is None,
{
}

} // verus!
