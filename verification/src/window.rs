//! The window of the widget: what its messages mean, what they lead to, and
//! what its menu offers.
use vstd::prelude::*;

use crate::layout::{
    layout_fits, over_bar, point_is_over_usage_bar, pointing_fits, scaled, Rect, DIVIDER_HIT_ZONE,
};
use crate::localization::Strings;
use crate::position::{drag_fits, drag_move, drag_result, in_divider_zone, max_offset, Placement};
use crate::state::{
    check_theme_change, settings_in, state_view, AppState, StateView, Timer, TimerCommand,
    POLL_15_MIN, POLL_1_HOUR, POLL_1_MIN, POLL_5_MIN,
};
use crate::taskbar::{TASKBAR_RETRY_MS, TRAY_ICON_UPDATE_REPOSITION_SUPPRESS_MS};

verus! {

// ---------------------------------------------------------------------------
// Messages
// ---------------------------------------------------------------------------

pub const WM_DESTROY: u32 = 0x0002;

pub const WM_PAINT: u32 = 0x000f;

pub const WM_ERASEBKGND: u32 = 0x0014;

pub const WM_SETTINGCHANGE: u32 = 0x001a;

pub const WM_SETCURSOR: u32 = 0x0020;

pub const WM_DISPLAYCHANGE: u32 = 0x007e;

pub const WM_COMMAND: u32 = 0x0111;

pub const WM_TIMER: u32 = 0x0113;

pub const WM_MOUSEMOVE: u32 = 0x0200;

pub const WM_LBUTTONDOWN: u32 = 0x0201;

pub const WM_LBUTTONUP: u32 = 0x0202;

pub const WM_RBUTTONUP: u32 = 0x0205;

pub const WM_MOUSELEAVE_MSG: u32 = 0x02a3;

pub const WM_DPICHANGED_MSG: u32 = 0x02e0;

/// A poll has changed the state.
pub const WM_APP_USAGE_UPDATED: u32 = 0x8001;

/// Something has happened to the icon in the tray.
pub const WM_APP_TRAY: u32 = 0x8003;

/// The refresh key was pressed.
pub const WM_APP_REFRESH_SHORTCUT: u32 = 0x8004;

pub const TIMER_POLL: usize = 1;

pub const TIMER_COUNTDOWN: usize = 2;

pub const TIMER_RESET_POLL: usize = 3;

pub const TIMER_TASKBAR_RETRY: usize = 4;

/// A hit test that finds the client area.
pub const HTCLIENT: u16 = 1;

/// A message to the window.
#[derive(Clone, Copy, Debug, PartialEq, Eq, Structural)]
pub enum Message {
    Paint,
    EraseBackground,
    DisplayChange,
    DpiChanged(u32),
    SettingChange,
    Timer(usize),
    UsageUpdated,
    RefreshShortcut,
    /// The mouse is over the part of the window that the hit test names.
    SetCursor(u16),
    LeftDown(i32),
    MouseMove(i32, i32),
    MouseLeave,
    LeftUp,
    RightUp,
    Command(u16),
    Tray,
    Destroy,
    Other,
}

/// The low word of a parameter.
pub open spec fn low_word(n: int) -> int {
    n % 0x1_0000
}

/// The word above the low word of a parameter.
pub open spec fn high_word(n: int) -> int {
    (n / 0x1_0000) % 0x1_0000
}

/// A word as a number with a sign.
pub open spec fn signed_word(word: int) -> int {
    if word >= 0x8000 {
        word - 0x1_0000
    } else {
        word
    }
}

/// What a message with its two parameters means.
pub open spec fn meaning(msg: u32, wparam: usize, lparam: isize) -> Message {
    if msg == WM_PAINT {
        Message::Paint
    } else if msg == WM_ERASEBKGND {
        Message::EraseBackground
    } else if msg == WM_DISPLAYCHANGE {
        Message::DisplayChange
    } else if msg == WM_DPICHANGED_MSG {
        Message::DpiChanged(low_word(wparam as int) as u32)
    } else if msg == WM_SETTINGCHANGE {
        Message::SettingChange
    } else if msg == WM_TIMER {
        Message::Timer(wparam)
    } else if msg == WM_APP_USAGE_UPDATED {
        Message::UsageUpdated
    } else if msg == WM_APP_REFRESH_SHORTCUT {
        Message::RefreshShortcut
    } else if msg == WM_SETCURSOR {
        Message::SetCursor(low_word(lparam as int) as u16)
    } else if msg == WM_LBUTTONDOWN {
        Message::LeftDown(signed_word(low_word(lparam as int)) as i32)
    } else if msg == WM_MOUSEMOVE {
        Message::MouseMove(
            signed_word(low_word(lparam as int)) as i32,
            signed_word(high_word(lparam as int)) as i32,
        )
    } else if msg == WM_MOUSELEAVE_MSG {
        Message::MouseLeave
    } else if msg == WM_LBUTTONUP {
        Message::LeftUp
    } else if msg == WM_RBUTTONUP {
        Message::RightUp
    } else if msg == WM_COMMAND {
        Message::Command(low_word(wparam as int) as u16)
    } else if msg == WM_APP_TRAY {
        Message::Tray
    } else if msg == WM_DESTROY {
        Message::Destroy
    } else {
        Message::Other
    }
}

fn low_word_of(n: i64) -> (r: i32)
    ensures
        r == low_word(n as int),
{
    if n >= 0 {
        (n % 0x1_0000) as i32
    } else {
        (0xffff - (-1 - n) % 0x1_0000) as i32
    }
}

fn high_word_of(n: i64) -> (r: i32)
    ensures
        r == high_word(n as int),
{
    if n >= 0 {
        low_word_of(n / 0x1_0000)
    } else {
        low_word_of(-1 - (-1 - n) / 0x1_0000)
    }
}

fn sign_extended(word: i32) -> (r: i32)
    requires
        0 <= word < 0x1_0000,
    ensures
        r == signed_word(word as int),
{
    if word >= 0x8000 {
        word - 0x1_0000
    } else {
        word
    }
}

/// Finds out what a message with its two parameters means.
pub fn decode_message(msg: u32, wparam: usize, lparam: isize) -> (r: Message)
    ensures
        r == meaning(msg, wparam, lparam),
{
    match msg {
        WM_PAINT => Message::Paint,
        WM_ERASEBKGND => Message::EraseBackground,
        WM_DISPLAYCHANGE => Message::DisplayChange,
        WM_DPICHANGED_MSG => Message::DpiChanged((wparam % 0x1_0000) as u32),
        WM_SETTINGCHANGE => Message::SettingChange,
        WM_TIMER => Message::Timer(wparam),
        WM_APP_USAGE_UPDATED => Message::UsageUpdated,
        WM_APP_REFRESH_SHORTCUT => Message::RefreshShortcut,
        WM_SETCURSOR => Message::SetCursor(low_word_of(lparam as i64) as u16),
        WM_LBUTTONDOWN => Message::LeftDown(sign_extended(low_word_of(lparam as i64))),
        WM_MOUSEMOVE => Message::MouseMove(
            sign_extended(low_word_of(lparam as i64)),
            sign_extended(high_word_of(lparam as i64)),
        ),
        WM_MOUSELEAVE_MSG => Message::MouseLeave,
        WM_LBUTTONUP => Message::LeftUp,
        WM_RBUTTONUP => Message::RightUp,
        WM_COMMAND => Message::Command((wparam % 0x1_0000) as u16),
        WM_APP_TRAY => Message::Tray,
        WM_DESTROY => Message::Destroy,
        _ => Message::Other,
    }
}

/// A point within 32768 pixels of the corner of the window is read as the one
/// that was put into the parameter, on either side of the corner.
pub proof fn law_points_are_read_back(x: i16, y: i16, lparam: isize)
    requires
        low_word(lparam as int) == low_word(x as int),
        high_word(lparam as int) == low_word(y as int),
    ensures
        meaning(WM_MOUSEMOVE, 0, lparam) == Message::MouseMove(x as i32, y as i32),
{
}

/// The timer with this number.
pub open spec fn timer_with_id(id: usize) -> Option<Timer> {
    if id == TIMER_POLL {
        Some(Timer::Poll)
    } else if id == TIMER_COUNTDOWN {
        Some(Timer::Countdown)
    } else if id == TIMER_RESET_POLL {
        Some(Timer::ResetPoll)
    } else if id == TIMER_TASKBAR_RETRY {
        Some(Timer::TaskbarRetry)
    } else {
        None
    }
}

/// The number of a timer.
pub fn timer_id(timer: Timer) -> (r: usize)
    ensures
        timer_with_id(r) == Some(timer),
{
    match timer {
        Timer::Poll => TIMER_POLL,
        Timer::Countdown => TIMER_COUNTDOWN,
        Timer::ResetPoll => TIMER_RESET_POLL,
        Timer::TaskbarRetry => TIMER_TASKBAR_RETRY,
    }
}

// ---------------------------------------------------------------------------
// What messages lead to
// ---------------------------------------------------------------------------

/// Something that is done in answer to a message.
#[derive(Clone, Copy, Debug, PartialEq, Eq, Structural)]
pub enum Task {
    /// Say that the window is drawn, without drawing it.
    Validate,
    /// Draw the window.
    Paint,
    /// Remember the resolution of the screen.
    SetDpi(u32),
    /// Ask for the resolution of the screen.
    RefreshDpi,
    /// Take in whether the taskbar is dark.
    CheckTheme,
    /// Bring the text of the tooltip up to date.
    UpdateTooltip,
    /// Make sure that the widget is attached to the taskbar.
    EnsureAttachment,
    /// Put the widget where it belongs.
    Position,
    /// Bring the widget up to date on the screen.
    Render,
    /// Poll in the background.
    Poll,
    /// Bring the rows up to date.
    UpdateDisplay,
    /// Decide about the timers.
    ScheduleCountdown,
    /// Stop looking for the taskbar if the widget is embedded now.
    StopRetryOnceEmbedded,
    /// Do not follow the tray for so many milliseconds.
    SuppressTray(u64),
    /// Bring the icon in the tray up to date.
    UpdateTrayIcon,
    /// Clear the texts of the rows.
    ClearTexts,
    /// Show that the widget can be dragged.
    ResizeCursor,
    /// Start to drag the widget from where the mouse is.
    BeginDrag,
    /// Get all mouse messages from now on.
    CaptureMouse,
    /// Drag the widget to where the mouse is.
    Drag,
    /// Stop dragging the widget.
    EndDrag,
    /// Get only the usual mouse messages again.
    ReleaseMouse,
    ShowTooltip,
    HideTooltip,
    SaveSettings,
    ShowMenu,
    /// Switch the start at login on or off.
    ToggleStartup,
    /// Put the widget back where it started.
    ResetPosition,
    /// Remember how often to poll.
    SetInterval(u32),
    Timer(TimerCommand),
    /// Remember that the widget is shown if it was hidden, or the reverse.
    ToggleVisibility,
    /// Show the widget without activating it.
    Show,
    Hide,
    /// Remove a hook on the tray.
    Unhook(isize),
    RemoveKeyboardHook,
    RemoveTrayIcon,
    Quit,
    /// Make the widget a window of its own above all others.
    StandAlone,
    AddTrayIcon,
    InstallKeyboardHook,
}

/// What is done in answer to a message, and what it returns: `None` if the
/// default procedure handles it.
#[derive(Debug)]
pub struct Response {
    pub tasks: Vec<Task>,
    pub result: Option<isize>,
}

/// What is done in answer to a message, in mathematical terms.
pub struct ResponseView {
    pub tasks: Seq<Task>,
    pub result: Option<isize>,
}

impl View for Response {
    type V = ResponseView;

    open spec fn view(&self) -> ResponseView {
        ResponseView { tasks: self.tasks@, result: self.result }
    }
}

/// Bringing the widget up to date with the desktop.
pub open spec fn settle_tasks() -> Seq<Task> {
    seq![
        Task::RefreshDpi,
        Task::UpdateTooltip,
        Task::EnsureAttachment,
        Task::Position,
        Task::Render,
    ]
}

/// Polling because the user asks for it.
pub open spec fn refresh_tasks() -> Seq<Task> {
    seq![Task::ClearTexts, Task::Render, Task::Poll]
}

/// What a timer leads to.
pub open spec fn timer_tasks(id: usize, s: Option<StateView>) -> Seq<Task> {
    match timer_with_id(id) {
        Some(Timer::Poll) => seq![Task::Poll],
        Some(Timer::Countdown) => seq![
            Task::UpdateDisplay,
            Task::Render,
            Task::ScheduleCountdown,
        ],
        Some(Timer::ResetPoll) => if s is Some {
            seq![Task::Poll]
        } else {
            Seq::empty()
        },
        Some(Timer::TaskbarRetry) => seq![
            Task::EnsureAttachment,
            Task::Position,
            Task::Render,
            Task::StopRetryOnceEmbedded,
        ],
        None => Seq::empty(),
    }
}

/// Showing a hidden widget or hiding a visible one.
pub open spec fn toggle_tasks(s: Option<StateView>) -> Seq<Task> {
    match s {
        None => Seq::empty(),
        Some(s) => seq![Task::ToggleVisibility, Task::SaveSettings] + if s.widget_visible {
            seq![Task::Hide]
        } else {
            seq![Task::EnsureAttachment, Task::Position, Task::Show, Task::Render]
        },
    }
}

/// Leaving the program.
pub open spec fn leave_tasks(s: Option<StateView>) -> Seq<Task> {
    (match s {
        Some(s) if s.win_event_hook is Some => seq![Task::Unhook(s.win_event_hook->0)],
        _ => Seq::empty(),
    }).push(Task::RemoveKeyboardHook)
}

/// Whether the widget is being dragged.
pub open spec fn is_dragging(s: Option<StateView>) -> bool {
    s matches Some(s) && s.dragging
}

/// Whether the widget is embedded in the taskbar.
pub open spec fn is_embedded(s: Option<StateView>) -> bool {
    s matches Some(s) && s.embedded
}

/// How many rows the widget has.
pub open spec fn row_count(s: Option<StateView>) -> nat {
    match s {
        Some(s) => s.rows.len(),
        None => 0,
    }
}

pub const IDM_REFRESH: u16 = 1;

pub const IDM_EXIT: u16 = 2;

pub const IDM_FREQ_1MIN: u16 = 10;

pub const IDM_FREQ_5MIN: u16 = 11;

pub const IDM_FREQ_15MIN: u16 = 12;

pub const IDM_FREQ_1HOUR: u16 = 13;

pub const IDM_START_WITH_WINDOWS: u16 = 20;

pub const IDM_RESET_POSITION: u16 = 30;

pub const IDM_TOGGLE_WIDGET: u16 = 40;

/// The poll interval that a menu item stands for.
pub open spec fn interval_with_id(id: u16) -> Option<u32> {
    if id == IDM_FREQ_1MIN {
        Some(POLL_1_MIN)
    } else if id == IDM_FREQ_5MIN {
        Some(POLL_5_MIN)
    } else if id == IDM_FREQ_15MIN {
        Some(POLL_15_MIN)
    } else if id == IDM_FREQ_1HOUR {
        Some(POLL_1_HOUR)
    } else {
        None
    }
}

fn interval_of(id: u16) -> (r: Option<u32>)
    ensures
        r == interval_with_id(id),
{
    match id {
        IDM_FREQ_1MIN => Some(POLL_1_MIN),
        IDM_FREQ_5MIN => Some(POLL_5_MIN),
        IDM_FREQ_15MIN => Some(POLL_15_MIN),
        IDM_FREQ_1HOUR => Some(POLL_1_HOUR),
        _ => None,
    }
}

/// What a menu item leads to.
pub open spec fn command_tasks(id: u16, s: Option<StateView>) -> Seq<Task> {
    match interval_with_id(id) {
        Some(interval) => seq![
            Task::SetInterval(interval),
            Task::SaveSettings,
            Task::Timer(TimerCommand::Start(Timer::Poll, interval)),
        ],
        None => if id == IDM_REFRESH {
            refresh_tasks()
        } else if id == IDM_EXIT {
            leave_tasks(s).push(Task::Quit)
        } else if id == IDM_RESET_POSITION {
            seq![Task::ResetPosition, Task::SaveSettings, Task::Position]
        } else if id == IDM_START_WITH_WINDOWS {
            seq![Task::ToggleStartup]
        } else if id == IDM_TOGGLE_WIDGET {
            toggle_tasks(s)
        } else {
            Seq::empty()
        },
    }
}

/// What a movement of the mouse leads to.
pub open spec fn mouse_tasks(x: int, y: int, s: Option<StateView>, dpi: int) -> Seq<Task> {
    if is_dragging(s) {
        seq![Task::HideTooltip, Task::Drag]
    } else if over_bar(x, y, row_count(s), dpi) {
        seq![Task::ShowTooltip]
    } else {
        seq![Task::HideTooltip]
    }
}

/// What the user does with the icon in the tray.
#[derive(Clone, Copy, Debug, PartialEq, Eq, Structural)]
pub enum TrayAction {
    Nothing,
    ToggleWidget,
    ShowContextMenu,
}

/// What the user does with the icon in the tray leads to.
pub open spec fn tray_tasks(action: TrayAction, s: Option<StateView>) -> Seq<Task> {
    match action {
        TrayAction::Nothing => Seq::empty(),
        TrayAction::ToggleWidget => toggle_tasks(s),
        TrayAction::ShowContextMenu => seq![Task::ShowMenu],
    }
}

/// Whether the cursor shows that the widget can be dragged.
pub open spec fn shows_resize(hit_test: u16, cursor_x: int, s: Option<StateView>, dpi: int) -> bool {
    is_dragging(s) || (hit_test == HTCLIENT && cursor_x < scaled(DIVIDER_HIT_ZONE as int, dpi))
}

/// What a message leads to. `cursor_x` is where the mouse is in the window, and
/// `tray` what the user does with the icon in the tray; each of them counts
/// only for the message that is about it.
pub open spec fn response(
    message: Message,
    cursor_x: int,
    tray: TrayAction,
    s: Option<StateView>,
    dpi: int,
) -> ResponseView {
    match message {
        Message::Paint => ResponseView {
            tasks: if is_embedded(s) {
                seq![Task::Validate]
            } else {
                seq![Task::Paint]
            },
            result: Some(0),
        },
        Message::EraseBackground => ResponseView { tasks: Seq::empty(), result: Some(1) },
        Message::DisplayChange => ResponseView { tasks: settle_tasks(), result: Some(0) },
        Message::DpiChanged(dpi) => ResponseView {
            tasks: seq![Task::SetDpi(dpi)] + settle_tasks(),
            result: Some(0),
        },
        Message::SettingChange => ResponseView {
            tasks: seq![Task::CheckTheme] + settle_tasks(),
            result: Some(0),
        },
        Message::Timer(id) => ResponseView { tasks: timer_tasks(id, s), result: Some(0) },
        Message::UsageUpdated => ResponseView {
            tasks: seq![
                Task::CheckTheme,
                Task::UpdateTooltip,
                Task::Render,
                Task::ScheduleCountdown,
                Task::SuppressTray(TRAY_ICON_UPDATE_REPOSITION_SUPPRESS_MS),
                Task::UpdateTrayIcon,
            ],
            result: Some(0),
        },
        Message::RefreshShortcut => ResponseView { tasks: refresh_tasks(), result: Some(0) },
        Message::SetCursor(hit_test) => if shows_resize(hit_test, cursor_x, s, dpi) {
            ResponseView { tasks: seq![Task::ResizeCursor], result: Some(1) }
        } else {
            ResponseView { tasks: Seq::empty(), result: None }
        },
        Message::LeftDown(x) => ResponseView {
            tasks: if x < scaled(DIVIDER_HIT_ZONE as int, dpi) {
                seq![Task::BeginDrag, Task::CaptureMouse]
            } else {
                Seq::empty()
            },
            result: Some(0),
        },
        Message::MouseMove(x, y) => ResponseView {
            tasks: mouse_tasks(x as int, y as int, s, dpi),
            result: Some(0),
        },
        Message::MouseLeave => ResponseView { tasks: seq![Task::HideTooltip], result: Some(0) },
        Message::LeftUp => ResponseView {
            tasks: if is_dragging(s) {
                seq![Task::EndDrag, Task::ReleaseMouse, Task::SaveSettings]
            } else {
                Seq::empty()
            },
            result: Some(0),
        },
        Message::RightUp => ResponseView { tasks: seq![Task::ShowMenu], result: Some(0) },
        Message::Command(id) => ResponseView { tasks: command_tasks(id, s), result: Some(0) },
        Message::Tray => ResponseView { tasks: tray_tasks(tray, s), result: Some(0) },
        Message::Destroy => ResponseView {
            tasks: leave_tasks(s) + seq![Task::RemoveTrayIcon, Task::Quit],
            result: Some(0),
        },
        Message::Other => ResponseView { tasks: Seq::empty(), result: None },
    }
}

fn push_settle(tasks: &mut Vec<Task>)
    ensures
        final(tasks)@ == old(tasks)@ + settle_tasks(),
{
    tasks.push(Task::RefreshDpi);
    tasks.push(Task::UpdateTooltip);
    tasks.push(Task::EnsureAttachment);
    tasks.push(Task::Position);
    tasks.push(Task::Render);
    assert(tasks@ =~= old(tasks)@ + settle_tasks());
}

fn tasks_of_timer(id: usize, state: Option<&AppState>) -> (r: Vec<Task>)
    ensures
        r@ == timer_tasks(id, state_view(state)),
{
    let tasks: Vec<Task> = match id {
        TIMER_POLL => vec![Task::Poll],
        TIMER_COUNTDOWN => vec![Task::UpdateDisplay, Task::Render, Task::ScheduleCountdown],
        TIMER_RESET_POLL => if state.is_some() {
            vec![Task::Poll]
        } else {
            Vec::new()
        },
        TIMER_TASKBAR_RETRY => vec![
            Task::EnsureAttachment,
            Task::Position,
            Task::Render,
            Task::StopRetryOnceEmbedded,
        ],
        _ => Vec::new(),
    };
    assert(tasks@ =~= timer_tasks(id, state_view(state)));
    tasks
}

fn tasks_of_toggle(state: Option<&AppState>) -> (r: Vec<Task>)
    ensures
        r@ == toggle_tasks(state_view(state)),
{
    let mut tasks: Vec<Task> = Vec::new();
    if let Some(s) = state {
        tasks.push(Task::ToggleVisibility);
        tasks.push(Task::SaveSettings);
        if s.widget_visible {
            tasks.push(Task::Hide);
        } else {
            tasks.push(Task::EnsureAttachment);
            tasks.push(Task::Position);
            tasks.push(Task::Show);
            tasks.push(Task::Render);
        }
    }
    assert(tasks@ =~= toggle_tasks(state_view(state)));
    tasks
}

fn tasks_of_leaving(state: Option<&AppState>) -> (r: Vec<Task>)
    ensures
        r@ == leave_tasks(state_view(state)),
{
    let mut tasks: Vec<Task> = Vec::new();
    if let Some(s) = state {
        if let Some(hook) = s.win_event_hook {
            tasks.push(Task::Unhook(hook));
        }
    }
    tasks.push(Task::RemoveKeyboardHook);
    assert(tasks@ =~= leave_tasks(state_view(state)));
    tasks
}

fn tasks_of_refresh() -> (r: Vec<Task>)
    ensures
        r@ == refresh_tasks(),
{
    let tasks = vec![Task::ClearTexts, Task::Render, Task::Poll];
    assert(tasks@ =~= refresh_tasks());
    tasks
}

fn tasks_of_command(id: u16, state: Option<&AppState>) -> (r: Vec<Task>)
    ensures
        r@ == command_tasks(id, state_view(state)),
{
    if let Some(interval) = interval_of(id) {
        let tasks = vec![
            Task::SetInterval(interval),
            Task::SaveSettings,
            Task::Timer(TimerCommand::Start(Timer::Poll, interval)),
        ];
        assert(tasks@ =~= command_tasks(id, state_view(state)));
        return tasks;
    }
    match id {
        IDM_REFRESH => tasks_of_refresh(),
        IDM_EXIT => {
            let mut tasks = tasks_of_leaving(state);
            tasks.push(Task::Quit);
            tasks
        },
        IDM_RESET_POSITION => {
            let tasks = vec![Task::ResetPosition, Task::SaveSettings, Task::Position];
            assert(tasks@ =~= command_tasks(id, state_view(state)));
            tasks
        },
        IDM_START_WITH_WINDOWS => {
            let tasks = vec![Task::ToggleStartup];
            assert(tasks@ =~= command_tasks(id, state_view(state)));
            tasks
        },
        IDM_TOGGLE_WIDGET => tasks_of_toggle(state),
        _ => Vec::new(),
    }
}

fn dragging_in(state: Option<&AppState>) -> (r: bool)
    ensures
        r == is_dragging(state_view(state)),
{
    match state {
        Some(s) => s.dragging,
        None => false,
    }
}

fn embedded_in(state: Option<&AppState>) -> (r: bool)
    ensures
        r == is_embedded(state_view(state)),
{
    match state {
        Some(s) => s.embedded,
        None => false,
    }
}

fn tasks_of_mouse(x: i32, y: i32, state: Option<&AppState>, dpi: u32) -> (r: Vec<Task>)
    requires
        !is_dragging(state_view(state)) ==> pointing_fits(dpi),
    ensures
        r@ == mouse_tasks(x as int, y as int, state_view(state), dpi as int),
{
    let rows: usize = match state {
        Some(s) => s.display_rows.len(),
        None => 0,
    };
    assert(rows == row_count(state_view(state)));
    let tasks: Vec<Task> = if dragging_in(state) {
        vec![Task::HideTooltip, Task::Drag]
    } else if point_is_over_usage_bar(x, y, rows, dpi) {
        vec![Task::ShowTooltip]
    } else {
        vec![Task::HideTooltip]
    };
    assert(tasks@ =~= mouse_tasks(x as int, y as int, state_view(state), dpi as int));
    tasks
}

fn tasks_of_tray(action: TrayAction, state: Option<&AppState>) -> (r: Vec<Task>)
    ensures
        r@ == tray_tasks(action, state_view(state)),
{
    match action {
        TrayAction::Nothing => Vec::new(),
        TrayAction::ToggleWidget => tasks_of_toggle(state),
        TrayAction::ShowContextMenu => {
            let tasks = vec![Task::ShowMenu];
            assert(tasks@ =~= tray_tasks(action, state_view(state)));
            tasks
        },
    }
}

fn tasks_of_drag(message: Message, state: Option<&AppState>, dpi: u32) -> (r: Vec<Task>)
    requires
        message is LeftDown || message is LeftUp,
    ensures
        r@ == response(message, 0, TrayAction::Nothing, state_view(state), dpi as int).tasks,
{
    let tasks: Vec<Task> = match message {
        Message::LeftDown(x) => if in_divider_zone(x, dpi) {
            vec![Task::BeginDrag, Task::CaptureMouse]
        } else {
            Vec::new()
        },
        _ => if dragging_in(state) {
            vec![Task::EndDrag, Task::ReleaseMouse, Task::SaveSettings]
        } else {
            Vec::new()
        },
    };
    assert(tasks@ =~= response(
        message,
        0,
        TrayAction::Nothing,
        state_view(state),
        dpi as int,
    ).tasks);
    tasks
}

fn tasks_of_desktop(message: Message) -> (r: Vec<Task>)
    requires
        message is DisplayChange || message is DpiChanged || message is SettingChange,
    ensures
        r@ == response(message, 0, TrayAction::Nothing, None, 0).tasks,
{
    let mut tasks: Vec<Task> = Vec::new();
    match message {
        Message::DpiChanged(dpi) => {
            tasks.push(Task::SetDpi(dpi));
        },
        Message::SettingChange => {
            tasks.push(Task::CheckTheme);
        },
        _ => {},
    }
    push_settle(&mut tasks);
    assert(tasks@ =~= response(message, 0, TrayAction::Nothing, None, 0).tasks);
    tasks
}

fn tasks_of_update() -> (r: Vec<Task>)
    ensures
        r@ == response(Message::UsageUpdated, 0, TrayAction::Nothing, None, 0).tasks,
{
    let tasks = vec![
        Task::CheckTheme,
        Task::UpdateTooltip,
        Task::Render,
        Task::ScheduleCountdown,
        Task::SuppressTray(TRAY_ICON_UPDATE_REPOSITION_SUPPRESS_MS),
        Task::UpdateTrayIcon,
    ];
    assert(tasks@ =~= response(Message::UsageUpdated, 0, TrayAction::Nothing, None, 0).tasks);
    tasks
}

fn only(task: Task) -> (r: Vec<Task>)
    ensures
        r@ == seq![task],
{
    let tasks = vec![task];
    assert(tasks@ =~= seq![task]);
    tasks
}

/// Decides what a message leads to. `cursor_x` is where the mouse is in the
/// window, and `tray` what the user does with the icon in the tray; each of
/// them counts only for the message that is about it.
pub fn wnd_proc(
    message: Message,
    cursor_x: i32,
    tray: TrayAction,
    state: Option<&AppState>,
    dpi: u32,
) -> (r: Response)
    requires
        message is MouseMove && !is_dragging(state_view(state)) ==> pointing_fits(dpi),
    ensures
        r@ == response(message, cursor_x as int, tray, state_view(state), dpi as int),
{
    match message {
        Message::Paint => Response {
            tasks: if embedded_in(state) {
                only(Task::Validate)
            } else {
                only(Task::Paint)
            },
            result: Some(0),
        },
        Message::EraseBackground => Response { tasks: Vec::new(), result: Some(1) },
        Message::DisplayChange
        | Message::DpiChanged(_)
        | Message::SettingChange => Response {
            tasks: tasks_of_desktop(message),
            result: Some(0),
        },
        Message::Timer(id) => Response { tasks: tasks_of_timer(id, state), result: Some(0) },
        Message::UsageUpdated => Response { tasks: tasks_of_update(), result: Some(0) },
        Message::RefreshShortcut => Response { tasks: tasks_of_refresh(), result: Some(0) },
        Message::SetCursor(hit_test) => {
            if dragging_in(state) || (hit_test == HTCLIENT && in_divider_zone(cursor_x, dpi)) {
                Response { tasks: only(Task::ResizeCursor), result: Some(1) }
            } else {
                Response { tasks: Vec::new(), result: None }
            }
        },
        Message::LeftDown(_) | Message::LeftUp => Response {
            tasks: tasks_of_drag(message, state, dpi),
            result: Some(0),
        },
        Message::MouseMove(x, y) => Response {
            tasks: tasks_of_mouse(x, y, state, dpi),
            result: Some(0),
        },
        Message::MouseLeave => Response { tasks: only(Task::HideTooltip), result: Some(0) },
        Message::RightUp => Response { tasks: only(Task::ShowMenu), result: Some(0) },
        Message::Command(id) => Response { tasks: tasks_of_command(id, state), result: Some(0) },
        Message::Tray => Response { tasks: tasks_of_tray(tray, state), result: Some(0) },
        Message::Destroy => {
            let mut tasks = tasks_of_leaving(state);
            tasks.push(Task::RemoveTrayIcon);
            tasks.push(Task::Quit);
            assert(tasks@ =~= leave_tasks(state_view(state)) + seq![
                Task::RemoveTrayIcon,
                Task::Quit,
            ]);
            Response { tasks, result: Some(0) }
        },
        Message::Other => Response { tasks: Vec::new(), result: None },
    }
}

/// Takes in whether the taskbar is dark, and decides what that leads to: a
/// widget whose theme is new is drawn anew.
pub fn theme_tasks(state: &mut AppState, dark: bool) -> (r: Vec<Task>)
    ensures
        final(state)@ == (StateView { is_dark: dark, ..old(state)@ }),
        r@ == (if old(state)@.is_dark != dark {
            seq![Task::Render]
        } else {
            Seq::empty()
        }),
{
    if check_theme_change(state, dark) {
        only(Task::Render)
    } else {
        Vec::new()
    }
}

/// Decides what an attempt to find the taskbar leads to: once the widget is
/// embedded, the taskbar is not looked for any more.
pub fn retry_tasks(state: Option<&AppState>) -> (r: Vec<Task>)
    ensures
        r@ == (if is_embedded(state_view(state)) {
            seq![Task::Timer(TimerCommand::Stop(Timer::TaskbarRetry))]
        } else {
            Seq::empty()
        }),
{
    if embedded_in(state) {
        only(Task::Timer(TimerCommand::Stop(Timer::TaskbarRetry)))
    } else {
        Vec::new()
    }
}

/// Decides whether the program may start: if the guard against a second
/// instance could be made and was not there before.
pub fn may_start(guard_made: bool, guard_existed: bool) -> (r: bool)
    ensures
        r == (guard_made && !guard_existed),
{
    guard_made && !guard_existed
}

/// What is done when the window has been made and the first attempt to attach
/// it is over.
pub open spec fn startup_tasks(s: StateView) -> Seq<Task> {
    (if s.embedded {
        Seq::empty()
    } else {
        seq![
            Task::StandAlone,
            Task::Timer(TimerCommand::Start(Timer::TaskbarRetry, TASKBAR_RETRY_MS)),
        ]
    }) + seq![Task::AddTrayIcon, Task::InstallKeyboardHook, Task::Position] + (
    if s.widget_visible {
        seq![Task::Show]
    } else {
        Seq::empty()
    }) + seq![
        Task::Render,
        Task::Timer(TimerCommand::Start(Timer::Poll, s.poll_interval_ms)),
        Task::Poll,
        Task::CheckTheme,
    ]
}

/// Decides what is done when the window has been made and the first attempt to
/// attach it is over.
pub fn run(state: &AppState) -> (r: Vec<Task>)
    ensures
        r@ == startup_tasks(state@),
{
    let mut tasks: Vec<Task> = Vec::new();
    if !state.embedded {
        tasks.push(Task::StandAlone);
        tasks.push(Task::Timer(TimerCommand::Start(Timer::TaskbarRetry, TASKBAR_RETRY_MS)));
    }
    tasks.push(Task::AddTrayIcon);
    tasks.push(Task::InstallKeyboardHook);
    tasks.push(Task::Position);
    if state.widget_visible {
        tasks.push(Task::Show);
    }
    tasks.push(Task::Render);
    tasks.push(Task::Timer(TimerCommand::Start(Timer::Poll, state.poll_interval_ms)));
    tasks.push(Task::Poll);
    tasks.push(Task::CheckTheme);
    assert(tasks@ =~= startup_tasks(state@));
    tasks
}

/// A resolution as the screen reports it; zero stands for a report that failed
/// and changes nothing.
pub fn refresh_dpi(current: u32, reported: u32) -> (r: u32)
    ensures
        r == (if reported > 0 {
            reported
        } else {
            current
        }),
{
    if reported > 0 {
        reported
    } else {
        current
    }
}

/// Whether a task changes what is kept from one run to the next.
pub open spec fn changes_settings(task: Task) -> bool {
    task is EndDrag || task is ResetPosition || task is SetInterval || task is ToggleVisibility
}

/// Whether some task after number `i` saves the settings.
pub open spec fn saved_after(tasks: Seq<Task>, i: int) -> bool {
    exists|k: int| i < k < tasks.len() && #[trigger] tasks[k] == Task::SaveSettings
}

/// Whatever changes the settings of the user is followed by saving them.
pub proof fn law_changes_are_saved(
    message: Message,
    cursor_x: int,
    tray: TrayAction,
    s: Option<StateView>,
    dpi: int,
    i: int,
)
    requires
        0 <= i < response(message, cursor_x, tray, s, dpi).tasks.len(),
        changes_settings(response(message, cursor_x, tray, s, dpi).tasks[i]),
    ensures
        saved_after(response(message, cursor_x, tray, s, dpi).tasks, i),
{
    let tasks = response(message, cursor_x, tray, s, dpi).tasks;
    match message {
        Message::LeftUp => {
            assert(tasks[2] == Task::SaveSettings);
        },
        Message::Command(id) => {
            lemma_command_saves(id, s, i);
        },
        Message::Tray => {
            if tray is ToggleWidget {
                assert(tasks[1] == Task::SaveSettings);
            }
        },
        Message::Timer(id) => {
            assert(tasks == timer_tasks(id, s));
        },
        Message::Destroy => {
            assert(tasks.len() <= 4);
        },
        _ => {},
    }
}

proof fn lemma_command_saves(id: u16, s: Option<StateView>, i: int)
    requires
        0 <= i < command_tasks(id, s).len(),
        changes_settings(command_tasks(id, s)[i]),
    ensures
        saved_after(command_tasks(id, s), i),
{
    let tasks = command_tasks(id, s);
    assert(tasks[1] == Task::SaveSettings);
}

/// Before the program is left, the hook on the tray and the one on the keyboard
/// are removed.
pub proof fn law_leaving_removes_hooks(s: Option<StateView>)
    ensures
        command_tasks(IDM_EXIT, s) == leave_tasks(s).push(Task::Quit),
        response(Message::Destroy, 0, TrayAction::Nothing, s, 0).tasks == leave_tasks(s) + seq![
            Task::RemoveTrayIcon,
            Task::Quit,
        ],
        leave_tasks(s).last() == Task::RemoveKeyboardHook,
        s matches Some(s) ==> (s.win_event_hook matches Some(hook) ==> leave_tasks(Some(s))[0]
            == Task::Unhook(hook)),
{
}

// ---------------------------------------------------------------------------
// Dragging and settings
// ---------------------------------------------------------------------------

/// The state of a widget that the user has grabbed.
pub open spec fn grabbed(s: StateView, mouse_x: i32) -> StateView {
    StateView {
        dragging: true,
        drag_start_mouse_x: mouse_x,
        drag_start_offset: s.tray_offset,
        ..s
    }
}

/// Starts to drag the widget.
pub fn begin_drag(state: &mut AppState, mouse_x: i32)
    ensures
        final(state)@ == grabbed(old(state)@, mouse_x),
{
    state.dragging = true;
    state.drag_start_mouse_x = mouse_x;
    state.drag_start_offset = state.tray_offset;
}

/// Drags the widget to where the mouse is, along a taskbar and its tray if they
/// are known, and says which window goes where.
pub fn drag(
    state: &mut AppState,
    mouse_x: i32,
    taskbar: Option<(Rect, Option<Rect>)>,
    dpi: u32,
) -> (r: Option<(isize, Placement)>)
    requires
        taskbar is Some ==> layout_fits(dpi),
        old(state)@.drag_start_offset + (old(state)@.drag_start_mouse_x - mouse_x) <= i32::MAX,
        drag_fits(taskbar, dpi),
    ensures
        ({
            let moved = drag_result(
                old(state)@.drag_start_offset as int,
                old(state)@.drag_start_mouse_x as int,
                mouse_x as int,
                old(state)@.embedded,
                taskbar,
                dpi as int,
            );
            &&& final(state)@ == (StateView { tray_offset: moved.offset, ..old(state)@ })
            &&& r == (match moved.target {
                Some(target) => Some((old(state)@.hwnd, target)),
                None => None,
            })
        }),
{
    let moved = drag_move(
        state.drag_start_offset,
        state.drag_start_mouse_x,
        mouse_x,
        state.embedded,
        taskbar,
        dpi,
    );
    state.tray_offset = moved.offset;
    match moved.target {
        Some(target) => Some((state.hwnd, target)),
        None => None,
    }
}

/// Stops dragging the widget, and says whether it was being dragged.
pub fn end_drag(state: &mut AppState) -> (r: bool)
    ensures
        r == old(state)@.dragging,
        final(state)@ == (StateView { dragging: false, ..old(state)@ }),
{
    let was_dragging = state.dragging;
    state.dragging = false;
    was_dragging
}

/// Puts the widget back where it started.
pub fn reset_position(state: &mut AppState)
    ensures
        final(state)@ == (StateView { tray_offset: 0, ..old(state)@ }),
{
    state.tray_offset = 0;
}

/// Remembers how often to poll.
pub fn set_poll_interval(state: &mut AppState, interval_ms: u32)
    ensures
        final(state)@ == (StateView { poll_interval_ms: interval_ms, ..old(state)@ }),
{
    state.poll_interval_ms = interval_ms;
}

/// A widget that is grabbed, moved and let go at the same place has the same
/// settings as before, unless its offset was out of range.
pub proof fn law_grabbing_changes_no_settings(
    s: StateView,
    mouse_x: i32,
    taskbar: Option<(Rect, Option<Rect>)>,
    dpi: int,
)
    requires
        0 <= s.tray_offset,
        taskbar matches Some((bar, tray)) ==> s.tray_offset <= max_offset(bar, tray, dpi),
    ensures
        ({
            let held = grabbed(s, mouse_x);
            let moved = drag_result(
                held.drag_start_offset as int,
                held.drag_start_mouse_x as int,
                mouse_x as int,
                held.embedded,
                taskbar,
                dpi,
            );
            let released = StateView { tray_offset: moved.offset, dragging: false, ..held };
            settings_in(released) == settings_in(s)
        }),
{
}

// ---------------------------------------------------------------------------
// The menu
// ---------------------------------------------------------------------------

/// An item of the menu.
#[derive(Clone, Copy, Debug)]
pub struct MenuItem {
    pub id: u16,
    pub label: &'static str,
    pub checked: bool,
}

/// An entry of the menu.
#[derive(Debug)]
pub enum MenuEntry {
    Item(MenuItem),
    Submenu(&'static str, Vec<MenuItem>),
    Separator,
}

/// An entry of the menu, with the items of a submenu as a sequence.
pub enum EntryView {
    Item(MenuItem),
    Submenu(&'static str, Seq<MenuItem>),
    Separator,
}

impl View for MenuEntry {
    type V = EntryView;

    open spec fn view(&self) -> EntryView {
        match self {
            MenuEntry::Item(item) => EntryView::Item(*item),
            MenuEntry::Submenu(label, items) => EntryView::Submenu(*label, items@),
            MenuEntry::Separator => EntryView::Separator,
        }
    }
}

/// The entries of a menu in mathematical terms.
pub open spec fn entry_views(menu: Seq<MenuEntry>) -> Seq<EntryView> {
    menu.map_values(|e: MenuEntry| e@)
}

/// The poll intervals that the user can choose, with the current one checked.
pub open spec fn interval_items(interval: u32, strings: Strings) -> Seq<MenuItem> {
    seq![
        MenuItem {
            id: IDM_FREQ_1MIN,
            label: strings.one_minute,
            checked: interval == POLL_1_MIN,
        },
        MenuItem {
            id: IDM_FREQ_5MIN,
            label: strings.five_minutes,
            checked: interval == POLL_5_MIN,
        },
        MenuItem {
            id: IDM_FREQ_15MIN,
            label: strings.fifteen_minutes,
            checked: interval == POLL_15_MIN,
        },
        MenuItem { id: IDM_FREQ_1HOUR, label: strings.one_hour, checked: interval == POLL_1_HOUR },
    ]
}

/// The settings that the user can change.
pub open spec fn settings_items(startup_enabled: bool, strings: Strings) -> Seq<MenuItem> {
    seq![
        MenuItem {
            id: IDM_START_WITH_WINDOWS,
            label: strings.start_with_windows,
            checked: startup_enabled,
        },
        MenuItem { id: IDM_RESET_POSITION, label: strings.reset_position, checked: false },
    ]
}

/// The menu of the widget. Without a state it shows the settings of a first
/// run.
pub open spec fn menu(s: Option<StateView>, startup_enabled: bool, strings: Strings) -> Seq<
    EntryView,
> {
    let (interval, visible) = match s {
        Some(s) => (s.poll_interval_ms, s.widget_visible),
        None => (POLL_15_MIN, true),
    };
    seq![
        EntryView::Item(MenuItem { id: IDM_REFRESH, label: strings.refresh, checked: false }),
        EntryView::Submenu(strings.update_frequency, interval_items(interval, strings)),
        EntryView::Submenu(strings.settings, settings_items(startup_enabled, strings)),
        EntryView::Item(
            MenuItem { id: IDM_TOGGLE_WIDGET, label: strings.show_widget, checked: visible },
        ),
        EntryView::Separator,
        EntryView::Item(MenuItem { id: IDM_EXIT, label: strings.exit, checked: false }),
    ]
}

/// Lists what the menu of the widget offers.
pub fn show_context_menu(
    state: Option<&AppState>,
    startup_enabled: bool,
    strings: Strings,
) -> (r: Vec<MenuEntry>)
    ensures
        entry_views(r@) == menu(state_view(state), startup_enabled, strings),
{
    let (interval, visible): (u32, bool) = match state {
        Some(s) => (s.poll_interval_ms, s.widget_visible),
        None => (POLL_15_MIN, true),
    };
    let intervals = vec![
        MenuItem {
            id: IDM_FREQ_1MIN,
            label: strings.one_minute,
            checked: interval == POLL_1_MIN,
        },
        MenuItem {
            id: IDM_FREQ_5MIN,
            label: strings.five_minutes,
            checked: interval == POLL_5_MIN,
        },
        MenuItem {
            id: IDM_FREQ_15MIN,
            label: strings.fifteen_minutes,
            checked: interval == POLL_15_MIN,
        },
        MenuItem { id: IDM_FREQ_1HOUR, label: strings.one_hour, checked: interval == POLL_1_HOUR },
    ];
    assert(intervals@ =~= interval_items(interval, strings));
    let settings = vec![
        MenuItem {
            id: IDM_START_WITH_WINDOWS,
            label: strings.start_with_windows,
            checked: startup_enabled,
        },
        MenuItem { id: IDM_RESET_POSITION, label: strings.reset_position, checked: false },
    ];
    assert(settings@ =~= settings_items(startup_enabled, strings));
    let entries = vec![
        MenuEntry::Item(MenuItem { id: IDM_REFRESH, label: strings.refresh, checked: false }),
        MenuEntry::Submenu(strings.update_frequency, intervals),
        MenuEntry::Submenu(strings.settings, settings),
        MenuEntry::Item(
            MenuItem { id: IDM_TOGGLE_WIDGET, label: strings.show_widget, checked: visible },
        ),
        MenuEntry::Separator,
        MenuEntry::Item(MenuItem { id: IDM_EXIT, label: strings.exit, checked: false }),
    ];
    assert(entry_views(entries@) =~= menu(state_view(state), startup_enabled, strings));
    entries
}

/// Every item of the menu does something.
pub proof fn law_every_item_works(
    s: StateView,
    startup_enabled: bool,
    strings: Strings,
    i: int,
    j: int,
)
    requires
        0 <= i < menu(Some(s), startup_enabled, strings).len(),
    ensures
        menu(Some(s), startup_enabled, strings)[i] matches EntryView::Item(item) ==> command_tasks(
            item.id,
            Some(s),
        ).len() > 0,
        menu(Some(s), startup_enabled, strings)[i] matches EntryView::Submenu(_, items) ==> (0 <= j
            < items.len() ==> command_tasks(items[j].id, Some(s)).len() > 0),
{
}

/// Once the user has chosen a poll interval, the menu checks the item that was
/// chosen and no other one.
pub proof fn law_menu_checks_the_choice(id: u16, strings: Strings, j: int)
    requires
        interval_with_id(id) is Some,
        0 <= j < interval_items(interval_with_id(id)->0, strings).len(),
    ensures
        ({
            let item = interval_items(interval_with_id(id)->0, strings)[j];
            item.checked <==> item.id == id
        }),
{
}

// ---------------------------------------------------------------------------
// Laws of messages, tasks and menus
// ---------------------------------------------------------------------------

/// Messages are told apart by their numbers, and every number that stands for none of them
/// is another message.
pub proof fn law_messages_are_told_apart(msg: u32, wparam: usize, lparam: isize)
    ensures
        ({
            let m = meaning(msg, wparam, lparam);
            &&& m is Destroy <==> msg == 0x0002
            &&& m is Paint <==> msg == 0x000f
            &&& m is EraseBackground <==> msg == 0x0014
            &&& m is SettingChange <==> msg == 0x001a
            &&& m is SetCursor <==> msg == 0x0020
            &&& m is DisplayChange <==> msg == 0x007e
            &&& m is Command <==> msg == 0x0111
            &&& m is Timer <==> msg == 0x0113
            &&& m is MouseMove <==> msg == 0x0200
            &&& m is LeftDown <==> msg == 0x0201
            &&& m is LeftUp <==> msg == 0x0202
            &&& m is RightUp <==> msg == 0x0205
            &&& m is MouseLeave <==> msg == 0x02a3
            &&& m is DpiChanged <==> msg == 0x02e0
            &&& m is UsageUpdated <==> msg == 0x8001
            &&& m is Tray <==> msg == 0x8003
            &&& m is RefreshShortcut <==> msg == 0x8004
        }),
{
}

/// What a message carries is read from its parameters: a timer, a menu item or a
/// resolution from the first one, and a place of the mouse or a hit test from the second.
/// Coordinates are words with a sign: they differ from what the parameter holds by a
/// multiple of the size of a word.
pub proof fn law_parameters_are_read(wparam: usize, lparam: isize)
    ensures
        meaning(0x0113, wparam, lparam) == Message::Timer(wparam),
        meaning(0x0111, wparam, lparam) matches Message::Command(id) && id == wparam % 0x1_0000,
        meaning(0x02e0, wparam, lparam) matches Message::DpiChanged(dpi) && dpi == wparam
            % 0x1_0000,
        meaning(0x0020, wparam, lparam) matches Message::SetCursor(hit) && same_word(
            hit as int,
            lparam as int,
        ),
        meaning(0x0201, wparam, lparam) matches Message::LeftDown(x) && -0x8000 <= x < 0x8000
            && same_word(x as int, lparam as int),
        meaning(0x0200, wparam, lparam) matches Message::MouseMove(x, y) && -0x8000 <= x < 0x8000
            && -0x8000 <= y < 0x8000 && same_word(x as int, lparam as int) && same_word(
            y as int,
            lparam as int / 0x1_0000,
        ),
{
    lemma_same_word(lparam as int);
    lemma_same_word(lparam as int / 0x1_0000);
}

/// Whether two numbers differ by a multiple of the size of a word.
pub open spec fn same_word(a: int, b: int) -> bool {
    (b - a) % 0x1_0000 == 0
}

proof fn lemma_same_word(n: int)
    ensures
        0 <= low_word(n) < 0x1_0000,
        same_word(low_word(n), n),
        -0x8000 <= signed_word(low_word(n)) < 0x8000,
        same_word(signed_word(low_word(n)), n),
        high_word(n) == low_word(n / 0x1_0000),
{
}

/// The four timers have the numbers from one to four, and no other number is that of a
/// timer.
pub proof fn law_timers_have_numbers(id: usize)
    ensures
        timer_with_id(id) == Some(Timer::Poll) <==> id == 1,
        timer_with_id(id) == Some(Timer::Countdown) <==> id == 2,
        timer_with_id(id) == Some(Timer::ResetPoll) <==> id == 3,
        timer_with_id(id) == Some(Timer::TaskbarRetry) <==> id == 4,
        timer_with_id(id) is None <==> id == 0 || id > 4,
{
}

/// Whether one task comes somewhere before another one.
pub open spec fn precedes(tasks: Seq<Task>, first: Task, second: Task) -> bool {
    exists|i: int, j: int|
        0 <= i < j < tasks.len() && #[trigger] tasks[i] == first && #[trigger] tasks[j] == second
}

/// Timers do what they are for. That of the polls polls, and so does that after a reset
/// if there is a widget. That of the countdowns brings the rows up to date, then the
/// screen, then the timers. That of the search attaches the widget, puts it where it
/// belongs, draws it, and ends the search if it was successful. An unknown timer does
/// nothing.
pub proof fn law_timers_do_their_work(id: usize, s: Option<StateView>, dpi: int)
    ensures
        ({
            let tasks = response(Message::Timer(id), 0, TrayAction::Nothing, s, dpi).tasks;
            &&& id == 1 ==> tasks == seq![Task::Poll]
            &&& id == 2 ==> tasks == seq![
                Task::UpdateDisplay,
                Task::Render,
                Task::ScheduleCountdown,
            ]
            &&& id == 3 && s is Some ==> tasks == seq![Task::Poll]
            &&& id == 3 && s is None ==> tasks.len() == 0
            &&& id == 4 ==> tasks == seq![
                Task::EnsureAttachment,
                Task::Position,
                Task::Render,
                Task::StopRetryOnceEmbedded,
            ]
            &&& id == 0 || id > 4 ==> tasks.len() == 0
        }),
{
}

/// When the desktop changes, the widget is attached, put where it belongs and drawn, in
/// this order, after the new resolution or the new theme has been taken in.
pub proof fn law_widget_settles(s: Option<StateView>, resolution: u32, dpi: int)
    ensures
        ({
            let tasks = |m: Message| response(m, 0, TrayAction::Nothing, s, dpi).tasks;
            let moved = tasks(Message::DisplayChange);
            &&& precedes(moved, Task::RefreshDpi, Task::EnsureAttachment)
            &&& precedes(moved, Task::EnsureAttachment, Task::Position)
            &&& precedes(moved, Task::Position, Task::Render)
            &&& moved.contains(Task::UpdateTooltip)
            &&& moved.len() == 5
            &&& tasks(Message::DpiChanged(resolution)) == seq![Task::SetDpi(resolution)] + moved
            &&& tasks(Message::SettingChange) == seq![Task::CheckTheme] + moved
        }),
{
    let moved = response(Message::DisplayChange, 0, TrayAction::Nothing, s, dpi).tasks;
    assert(moved[0] == Task::RefreshDpi);
    assert(moved[1] == Task::UpdateTooltip);
    assert(moved[2] == Task::EnsureAttachment);
    assert(moved[3] == Task::Position);
    assert(moved[4] == Task::Render);
}

/// When a poll has changed the state, everything that shows it is brought up to date, and
/// the timers are decided about. The tray is not followed for three quarters of a second
/// from before its icon changes.
pub proof fn law_updates_are_shown(s: Option<StateView>, dpi: int)
    ensures
        ({
            let tasks = response(Message::UsageUpdated, 0, TrayAction::Nothing, s, dpi).tasks;
            &&& tasks.contains(Task::UpdateTooltip)
            &&& precedes(tasks, Task::CheckTheme, Task::Render)
            &&& precedes(tasks, Task::Render, Task::ScheduleCountdown)
            &&& precedes(tasks, Task::SuppressTray(750), Task::UpdateTrayIcon)
            &&& tasks.len() == 6
        }),
{
    let tasks = response(Message::UsageUpdated, 0, TrayAction::Nothing, s, dpi).tasks;
    assert(tasks[0] == Task::CheckTheme);
    assert(tasks[1] == Task::UpdateTooltip);
    assert(tasks[2] == Task::Render);
    assert(tasks[3] == Task::ScheduleCountdown);
    assert(tasks[4] == Task::SuppressTray(750));
    assert(tasks[5] == Task::UpdateTrayIcon);
}

/// The refresh key and the menu item for it lead to the same: the texts are cleared, that
/// is shown, and then a poll begins.
pub proof fn law_refresh_polls(s: Option<StateView>, dpi: int)
    ensures
        ({
            let by_key = response(Message::RefreshShortcut, 0, TrayAction::Nothing, s, dpi).tasks;
            let by_menu = response(Message::Command(1), 0, TrayAction::Nothing, s, dpi).tasks;
            &&& by_key == by_menu
            &&& by_key == seq![Task::ClearTexts, Task::Render, Task::Poll]
        }),
{
}

/// The widget can be grabbed at the strip of thirteen units at its left edge and nowhere
/// else. While it is held, it follows the mouse and shows no tooltip; when it is let go,
/// its place is kept. A mouse button that goes up over a widget that is not held does
/// nothing. The cursor shows where the widget can be grabbed, and that it is held.
pub proof fn law_widget_is_dragged(s: StateView, x: i32, y: i32, hit: u16, dpi: int)
    ensures
        ({
            let tasks = |m: Message| response(m, 0, TrayAction::Nothing, Some(s), dpi).tasks;
            let cursor = response(
                Message::SetCursor(hit),
                x as int,
                TrayAction::Nothing,
                Some(s),
                dpi,
            );
            &&& x < scaled(13, dpi) ==> tasks(Message::LeftDown(x)) == seq![
                Task::BeginDrag,
                Task::CaptureMouse,
            ]
            &&& x >= scaled(13, dpi) ==> tasks(Message::LeftDown(x)).len() == 0
            &&& s.dragging ==> tasks(Message::MouseMove(x, y)) == seq![
                Task::HideTooltip,
                Task::Drag,
            ]
            &&& !s.dragging ==> !tasks(Message::MouseMove(x, y)).contains(Task::Drag)
            &&& s.dragging ==> tasks(Message::LeftUp) == seq![
                Task::EndDrag,
                Task::ReleaseMouse,
                Task::SaveSettings,
            ]
            &&& !s.dragging ==> tasks(Message::LeftUp).len() == 0
            &&& cursor.tasks.contains(Task::ResizeCursor) <==> s.dragging || (hit == 1 && x < scaled(
                13,
                dpi,
            ))
            &&& cursor.result == Some(1isize) <==> cursor.tasks.contains(Task::ResizeCursor)
            &&& cursor.result is None <==> cursor.tasks.len() == 0
        }),
{
    let cursor = response(Message::SetCursor(hit), x as int, TrayAction::Nothing, Some(s), dpi);
    if s.dragging || (hit == 1 && x < scaled(13, dpi)) {
        assert(cursor.tasks[0] == Task::ResizeCursor);
    }
}

/// The tooltip is shown while the mouse is over a bar and the widget is not held, and
/// hidden when the mouse is elsewhere or has left.
pub proof fn law_tooltip_follows_the_mouse(s: Option<StateView>, x: i32, y: i32, dpi: int)
    requires
        s is Some ==> !s->0.dragging,
    ensures
        ({
            let rows: nat = if s is Some {
                s->0.rows.len()
            } else {
                0
            };
            let tasks = response(Message::MouseMove(x, y), 0, TrayAction::Nothing, s, dpi).tasks;
            &&& over_bar(x as int, y as int, rows, dpi) ==> tasks == seq![Task::ShowTooltip]
            &&& !over_bar(x as int, y as int, rows, dpi) ==> tasks == seq![Task::HideTooltip]
            &&& response(Message::MouseLeave, 0, TrayAction::Nothing, s, dpi).tasks == seq![
                Task::HideTooltip,
            ]
        }),
{
}

/// Showing a hidden widget, or hiding a visible one, is remembered and kept, from the menu
/// as well as from the tray. A widget that is shown is attached and put where it belongs
/// before that, and drawn after it.
pub proof fn law_widget_is_toggled(s: StateView, dpi: int)
    ensures
        ({
            let by_menu = response(Message::Command(40), 0, TrayAction::Nothing, Some(s), dpi).tasks;
            let by_tray = response(Message::Tray, 0, TrayAction::ToggleWidget, Some(s), dpi).tasks;
            &&& by_menu == by_tray
            &&& precedes(by_menu, Task::ToggleVisibility, Task::SaveSettings)
            &&& by_menu.contains(Task::Hide) <==> s.widget_visible
            &&& by_menu.contains(Task::Show) <==> !s.widget_visible
            &&& !s.widget_visible ==> precedes(by_menu, Task::EnsureAttachment, Task::Position)
                && precedes(by_menu, Task::Position, Task::Show) && precedes(
                by_menu,
                Task::Show,
                Task::Render,
            )
        }),
{
    let tasks = toggle_tasks(Some(s));
    assert(tasks[0] == Task::ToggleVisibility);
    assert(tasks[1] == Task::SaveSettings);
    if s.widget_visible {
        assert(tasks[2] == Task::Hide);
    } else {
        assert(tasks[2] == Task::EnsureAttachment);
        assert(tasks[3] == Task::Position);
        assert(tasks[4] == Task::Show);
        assert(tasks[5] == Task::Render);
    }
}

/// The menu is shown by a click with the right button, on the widget or on its icon in
/// the tray, and by nothing else that is done with either.
pub proof fn law_menu_is_shown(s: Option<StateView>, tray: TrayAction, dpi: int)
    ensures
        response(Message::RightUp, 0, tray, s, dpi).tasks == seq![Task::ShowMenu],
        response(Message::Tray, 0, TrayAction::ShowContextMenu, s, dpi).tasks == seq![
            Task::ShowMenu,
        ],
        response(Message::Tray, 0, TrayAction::Nothing, s, dpi).tasks.len() == 0,
        response(Message::Tray, 0, tray, s, dpi).tasks.contains(Task::ShowMenu) <==> tray
            == TrayAction::ShowContextMenu,
{
    let tasks = response(Message::Tray, 0, tray, s, dpi).tasks;
    if tray == TrayAction::ShowContextMenu {
        assert(tasks[0] == Task::ShowMenu);
    }
}

/// A widget that is embedded is only told to be drawn; any other one draws itself. The
/// background is never erased. Messages that the widget knows nothing of are left to the
/// default procedure, and all others but those about the cursor are answered with zero.
pub proof fn law_messages_are_answered(
    message: Message,
    cursor_x: int,
    tray: TrayAction,
    s: Option<StateView>,
    dpi: int,
)
    ensures
        ({
            let r = response(message, cursor_x, tray, s, dpi);
            let embedded = s is Some && s->0.embedded;
            &&& message is Paint && embedded ==> r.tasks == seq![Task::Validate]
            &&& message is Paint && !embedded ==> r.tasks == seq![Task::Paint]
            &&& message is EraseBackground ==> r.result == Some(1isize) && r.tasks.len() == 0
            &&& message is Other ==> r.result is None && r.tasks.len() == 0
            &&& !(message is EraseBackground || message is Other || message is SetCursor)
                ==> r.result == Some(0isize)
        }),
{
}

/// The menu items for a poll interval stand for one minute, five, fifteen and sixty. The
/// interval is remembered and kept, and from then on polls come that often.
pub proof fn law_intervals_are_chosen(s: Option<StateView>, id: u16, dpi: int)
    requires
        10 <= id <= 13,
    ensures
        ({
            let minutes: u32 = if id == 10 {
                1
            } else if id == 11 {
                5
            } else if id == 12 {
                15
            } else {
                60
            };
            let ms = (minutes * 60_000) as u32;
            response(Message::Command(id), 0, TrayAction::Nothing, s, dpi).tasks == seq![
                Task::SetInterval(ms),
                Task::SaveSettings,
                Task::Timer(TimerCommand::Start(Timer::Poll, ms)),
            ]
        }),
{
}

/// The other menu items put the widget back where it started, switch the start at login,
/// and leave the program; any other number does nothing.
pub proof fn law_commands_do_what_they_say(s: Option<StateView>, id: u16, dpi: int)
    ensures
        ({
            let tasks = response(Message::Command(id), 0, TrayAction::Nothing, s, dpi).tasks;
            &&& id == 30 ==> tasks == seq![Task::ResetPosition, Task::SaveSettings, Task::Position]
            &&& id == 20 ==> tasks == seq![Task::ToggleStartup]
            &&& tasks.contains(Task::Quit) <==> id == 2
            &&& !(id == 1 || id == 2 || 10 <= id <= 13 || id == 20 || id == 30 || id == 40)
                ==> tasks.len() == 0
        }),
{
    let tasks = response(Message::Command(id), 0, TrayAction::Nothing, s, dpi).tasks;
    if id == 2 {
        assert(tasks.last() == Task::Quit);
    }
}

/// When the program is left, the hooks are removed first and the program ends last. A
/// window that goes away takes its icon in the tray with it.
pub proof fn law_program_is_left_clean(s: StateView, dpi: int)
    ensures
        ({
            let by_menu = response(Message::Command(2), 0, TrayAction::Nothing, Some(s), dpi).tasks;
            let gone = response(Message::Destroy, 0, TrayAction::Nothing, Some(s), dpi).tasks;
            &&& precedes(by_menu, Task::RemoveKeyboardHook, Task::Quit)
            &&& precedes(gone, Task::RemoveKeyboardHook, Task::Quit)
            &&& precedes(gone, Task::RemoveTrayIcon, Task::Quit)
            &&& by_menu.last() == Task::Quit && gone.last() == Task::Quit
            &&& s.win_event_hook is Some ==> precedes(
                by_menu,
                Task::Unhook(s.win_event_hook->0),
                Task::Quit,
            ) && precedes(gone, Task::Unhook(s.win_event_hook->0), Task::Quit)
        }),
{
    let by_menu = command_tasks(2, Some(s));
    let gone = response(Message::Destroy, 0, TrayAction::Nothing, Some(s), dpi).tasks;
    let n: int = if s.win_event_hook is Some {
        assert(by_menu[0] == Task::Unhook(s.win_event_hook->0));
        assert(gone[0] == Task::Unhook(s.win_event_hook->0));
        1
    } else {
        0
    };
    assert(by_menu[n] == Task::RemoveKeyboardHook);
    assert(by_menu[n + 1] == Task::Quit);
    assert(gone[n] == Task::RemoveKeyboardHook);
    assert(gone[n + 1] == Task::RemoveTrayIcon);
    assert(gone[n + 2] == Task::Quit);
}

/// When the program has started, the widget is put where it belongs, shown if the user
/// wants to see it, and drawn; the first poll begins, and from then on polls come as often
/// as the settings say. A widget that found no taskbar stands alone, and a taskbar is
/// looked for every two seconds.
pub proof fn law_program_starts(s: StateView)
    ensures
        ({
            let tasks = startup_tasks(s);
            let search = Task::Timer(TimerCommand::Start(Timer::TaskbarRetry, 2_000));
            let polls = Task::Timer(TimerCommand::Start(Timer::Poll, s.poll_interval_ms));
            &&& tasks.contains(Task::StandAlone) <==> !s.embedded
            &&& tasks.contains(search) <==> !s.embedded
            &&& tasks.contains(Task::Show) <==> s.widget_visible
            &&& s.widget_visible ==> precedes(tasks, Task::Position, Task::Show) && precedes(
                tasks,
                Task::Show,
                Task::Render,
            )
            &&& precedes(tasks, Task::AddTrayIcon, Task::Position)
            &&& precedes(tasks, Task::InstallKeyboardHook, Task::Position)
            &&& precedes(tasks, Task::Position, Task::Render)
            &&& precedes(tasks, Task::Render, polls)
            &&& precedes(tasks, polls, Task::Poll)
            &&& precedes(tasks, Task::Poll, Task::CheckTheme)
            &&& !tasks.contains(Task::Quit) && !tasks.contains(Task::Hide)
        }),
{
    let tasks = startup_tasks(s);
    let n: int = if s.embedded {
        0
    } else {
        assert(tasks[0] == Task::StandAlone);
        assert(tasks[1] == Task::Timer(TimerCommand::Start(Timer::TaskbarRetry, 2_000)));
        2
    };
    assert(tasks[n] == Task::AddTrayIcon);
    assert(tasks[n + 1] == Task::InstallKeyboardHook);
    assert(tasks[n + 2] == Task::Position);
    let m: int = if s.widget_visible {
        assert(tasks[n + 3] == Task::Show);
        n + 4
    } else {
        n + 3
    };
    assert(tasks[m] == Task::Render);
    assert(tasks[m + 1] == Task::Timer(TimerCommand::Start(Timer::Poll, s.poll_interval_ms)));
    assert(tasks[m + 2] == Task::Poll);
    assert(tasks[m + 3] == Task::CheckTheme);
    assert(tasks.len() == m + 4);
}

/// A widget that is grabbed remembers where the mouse and its offset were, and nothing
/// else changes. As long as neither end of its range is reached, dragging it from there
/// changes its offset by as much as the mouse moves.
pub proof fn law_grabbed_widget_follows_the_mouse(
    s: StateView,
    from: i32,
    to: i32,
    taskbar: Rect,
    tray: Option<Rect>,
    dpi: u32,
)
    requires
        drag_fits(Some((taskbar, tray)), dpi),
        0 <= s.tray_offset + from - to <= max_offset(taskbar, tray, dpi as int),
    ensures
        ({
            let held = grabbed(s, from);
            let moved = drag_result(
                held.drag_start_offset as int,
                held.drag_start_mouse_x as int,
                to as int,
                held.embedded,
                Some((taskbar, tray)),
                dpi as int,
            );
            &&& held.dragging
            &&& held.tray_offset == s.tray_offset
            &&& moved.offset == s.tray_offset + from - to
            &&& StateView {
                dragging: s.dragging,
                drag_start_mouse_x: s.drag_start_mouse_x,
                drag_start_offset: s.drag_start_offset,
                ..held
            } == s
        }),
{
}

/// The menu offers, in this order, to refresh, to choose how often to poll, to change
/// settings, to show or hide the widget, and to leave. The widget is checked if it is
/// visible, the start at login if it is switched on, and of the intervals the one that is
/// in use. Each item bears the text and the number of what it does.
pub proof fn law_menu_mirrors_the_state(
    s: StateView,
    startup_enabled: bool,
    strings: Strings,
    j: int,
)
    ensures
        ({
            let m = menu(Some(s), startup_enabled, strings);
            let none = menu(None, startup_enabled, strings);
            let texts = seq![
                strings.one_minute,
                strings.five_minutes,
                strings.fifteen_minutes,
                strings.one_hour,
            ];
            let minutes = seq![1int, 5, 15, 60];
            &&& m.len() == 6
            &&& m[0] == EntryView::Item(
                MenuItem { id: 1, label: strings.refresh, checked: false },
            )
            &&& m[1] matches EntryView::Submenu(label, items) && {
                &&& label == strings.update_frequency
                &&& items.len() == 4
                &&& 0 <= j < 4 ==> items[j].id == 10 + j && items[j].label == texts[j] && (
                items[j].checked <==> s.poll_interval_ms == 60_000 * minutes[j])
            }
            &&& m[2] matches EntryView::Submenu(label, items) && {
                &&& label == strings.settings
                &&& items.len() == 2
                &&& items[0] == (MenuItem {
                    id: 20,
                    label: strings.start_with_windows,
                    checked: startup_enabled,
                })
                &&& items[1] == (MenuItem {
                    id: 30,
                    label: strings.reset_position,
                    checked: false,
                })
            }
            &&& m[3] == EntryView::Item(
                MenuItem { id: 40, label: strings.show_widget, checked: s.widget_visible },
            )
            &&& m[4] is Separator
            &&& m[5] == EntryView::Item(MenuItem { id: 2, label: strings.exit, checked: false })
            &&& none == menu(
                Some(StateView { poll_interval_ms: 900_000, widget_visible: true, ..s }),
                startup_enabled,
                strings,
            )
        }),
{
}

/// What is to be done, and the entries of a menu, are seen as they are.
pub proof fn law_responses_are_seen(r: Response, item: MenuItem, entries: Seq<MenuEntry>, i: int)
    ensures
        r@.tasks == r.tasks@,
        r@.result == r.result,
        MenuEntry::Item(item)@ == EntryView::Item(item),
        MenuEntry::Separator@ == EntryView::Separator,
        entry_views(entries).len() == entries.len(),
        0 <= i < entries.len() ==> entry_views(entries)[i] == entries[i]@,
        0 <= i < entries.len() && entries[i] is Submenu ==> entries[i]@ == EntryView::Submenu(
            entries[i]->Submenu_0,
            entries[i]->Submenu_1@,
        ),
{
}

} // verus!
