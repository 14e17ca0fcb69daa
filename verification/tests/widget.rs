use codex_windows_taskbar::clock::{now, Timestamp};
use codex_windows_taskbar::layout::{Point, Rect};
use codex_windows_taskbar::localization::Strings;
use codex_windows_taskbar::models::{Percent, UsageData, UsageSection};
use codex_windows_taskbar::poller::PollError;
use codex_windows_taskbar::state::{
    check_theme_change, default_display_rows, default_poll_interval, default_widget_visible,
    do_poll, do_poll_at, load_settings, refresh_usage_texts, refresh_usage_texts_at,
    request_refresh, retry_delay, schedule_countdown_timer, schedule_countdown_timer_at,
    settings_of, toggle_widget_visibility, tray_icon_data_from_state, update_display, AppState,
    DisplayRow, SettingsFile, Timer, TimerCommand,
};
use codex_windows_taskbar::taskbar::{
    attach_step, attach_to_taskbar, attachment_query, ensure_taskbar_attachment,
    hovered_refresh_hwnd, is_key_press, key_pressed, on_tray_location_changed, place_widget,
    refresh_key_allowed, suppress_tray_reposition_for, taskbar_for_placing,
    tray_reposition_is_suppressed, AttachEffect, Attachment, Query, TrayWatch,
};
use codex_windows_taskbar::tooltip::{
    file_time_of_reset, format_human_local_reset_time, hide_usage_tooltip, install_usage_tooltip,
    measure_rect, paint_usage_tooltip, reset_tooltip_text, show_usage_tooltip, ticks_of,
    tooltip_file_times, tooltip_has_room, tooltip_placement, tooltip_width_for_text,
    update_usage_tooltip, usage_tooltip_text, LocalTime,
};
use codex_windows_taskbar::window::{
    begin_drag, decode_message, drag, end_drag, may_start, refresh_dpi, reset_position,
    retry_tasks, run, set_poll_interval, show_context_menu, theme_tasks, timer_id, wnd_proc, MenuEntry, MenuItem, Message,
    Response, Task, TrayAction, IDM_EXIT, IDM_FREQ_15MIN, IDM_FREQ_1HOUR, IDM_FREQ_1MIN,
    IDM_FREQ_5MIN, IDM_REFRESH, IDM_RESET_POSITION, IDM_START_WITH_WINDOWS, IDM_TOGGLE_WIDGET,
    WM_APP_REFRESH_SHORTCUT, WM_APP_TRAY, WM_APP_USAGE_UPDATED,
};

fn strings() -> Strings {
    Strings {
        window_title: "Codex",
        session_window: "5h",
        weekly_window: "7d",
        now: "now",
        day_suffix: "d",
        hour_suffix: "h",
        minute_suffix: "m",
        second_suffix: "s",
        refresh: "Refresh",
        update_frequency: "Update frequency",
        one_minute: "1 minute",
        five_minutes: "5 minutes",
        fifteen_minutes: "15 minutes",
        one_hour: "1 hour",
        settings: "Settings",
        start_with_windows: "Start with Windows",
        reset_position: "Reset position",
        show_widget: "Show widget",
        exit: "Exit",
    }
}

fn settings() -> SettingsFile {
    SettingsFile { tray_offset: 12, poll_interval_ms: 300_000, widget_visible: true }
}

fn state() -> AppState {
    AppState::new(7, settings(), false, strings())
}

fn percent(used: f64) -> Percent {
    let remaining = 100.0 - used;
    Percent::new(used.to_bits() as i64, remaining.to_bits() as i64, remaining as u32).unwrap()
}

fn at(secs: i64) -> Timestamp {
    Timestamp::from_unix_secs(secs)
}

fn section(used: f64, reset: Option<i64>, length: u64) -> UsageSection {
    UsageSection {
        percentage: percent(used),
        resets_at: reset.map(at),
        limit_window_seconds: Some(length),
    }
}

fn two_windows() -> UsageData {
    UsageData {
        windows: vec![section(42.0, Some(10_900), 18_000), section(80.0, Some(604_900), 604_800)],
    }
}

fn rows(state: &AppState) -> Vec<(&str, &str)> {
    state.display_rows.iter().map(|r| (r.label.as_str(), r.text.as_str())).collect()
}

fn rect(left: i32, top: i32, right: i32, bottom: i32) -> Rect {
    Rect { left, top, right, bottom }
}

// Settings and rows

#[test]
fn first_settings_are_used_without_a_file() {
    let first = load_settings(None);
    assert_eq!(first, SettingsFile::default());
    assert_eq!((first.tray_offset, first.poll_interval_ms, first.widget_visible), (0, 900_000, true));
    assert_eq!(default_poll_interval(), 900_000);
    assert!(default_widget_visible());
    assert_eq!(load_settings(Some(settings())), settings());
}

#[test]
fn settings_survive_a_restart() {
    let mut s = state();
    s.tray_offset = 99;
    s.widget_visible = false;
    let kept = settings_of(&s);
    let again = AppState::new(8, load_settings(Some(kept)), true, strings());
    assert_eq!(settings_of(&again), kept);
}

#[test]
fn a_new_widget_knows_nothing() {
    let s = state();
    assert_eq!(rows(&s), vec![("5h", "--"), ("7d", "--")]);
    assert_eq!(default_display_rows(strings()).len(), 2);
    assert!(s.codex_data.is_none() && !s.last_poll_ok && !s.embedded && !s.dragging);
    assert_eq!((s.hwnd, s.retry_count, s.poll_interval_ms, s.tray_offset), (7, 0, 300_000, 12));
}

#[test]
fn rows_follow_the_data() {
    let mut s = state();
    s.codex_data = Some(two_windows());
    refresh_usage_texts_at(&mut s, strings(), at(100));
    assert_eq!(rows(&s), vec![("5h", "--"), ("7d", "--")]);
    s.last_poll_ok = true;
    refresh_usage_texts_at(&mut s, strings(), at(100));
    assert_eq!(rows(&s), vec![("5h", "58% \u{b7} 3h"), ("7d", "20% \u{b7} 7d")]);
    refresh_usage_texts(&mut s, strings());
    assert_eq!(rows(&s), vec![("5h", "58% \u{b7} now"), ("7d", "20% \u{b7} now")]);
    s.last_poll_ok = false;
    s.display_rows[0].text = "...".to_string();
    update_display(&mut s, strings());
    assert_eq!(rows(&s)[0], ("5h", "..."));
}

#[test]
fn a_request_clears_the_texts() {
    let mut s = state();
    s.display_rows = vec![DisplayRow {
        label: "1d".to_string(),
        percent: percent(5.0),
        text: "95%".to_string(),
    }];
    request_refresh(&mut s, strings());
    assert_eq!(rows(&s), vec![("1d", "...")]);
    assert_eq!(s.display_rows[0].percent, percent(5.0));
    s.display_rows.clear();
    request_refresh(&mut s, strings());
    assert_eq!(rows(&s), vec![("5h", "..."), ("7d", "...")]);
}

// Polls and timers

#[test]
fn a_successful_poll_shows_its_data() {
    let mut s = state();
    let timers = do_poll_at(&mut s, Ok(two_windows()), strings(), at(100));
    assert!(s.last_poll_ok);
    assert_eq!(rows(&s), vec![("5h", "58% \u{b7} 3h"), ("7d", "20% \u{b7} 7d")]);
    assert_eq!(timers, vec![TimerCommand::Stop(Timer::ResetPoll)]);
}

#[test]
fn a_passed_reset_keeps_the_quick_polls() {
    let mut s = state();
    s.retry_count = 3;
    let timers = do_poll(&mut s, Ok(two_windows()), strings());
    assert_eq!(timers, vec![TimerCommand::Start(Timer::Poll, 300_000)]);
    assert_eq!(s.retry_count, 0);
}

#[test]
fn failed_polls_back_off() {
    let mut s = state();
    let mut delays = Vec::new();
    for _ in 0..6 {
        let timers = do_poll_at(&mut s, Err(PollError::RequestFailed), strings(), at(0));
        assert_eq!(timers[0], TimerCommand::Stop(Timer::ResetPoll));
        match timers[1] {
            TimerCommand::Start(Timer::Poll, ms) => delays.push(ms),
            other => panic!("{:?}", other),
        }
        assert_eq!(timers.len(), 2);
    }
    assert_eq!(delays, vec![30_000, 60_000, 120_000, 240_000, 300_000, 300_000]);
    assert_eq!((s.retry_count, s.last_poll_ok), (6, false));
    assert_eq!(rows(&s), vec![("5h", "..."), ("7d", "...")]);
}

#[test]
fn delays_saturate() {
    assert_eq!(retry_delay(1, 900_000), 30_000);
    assert_eq!(retry_delay(1, 10), 10);
    assert_eq!(retry_delay(18, u32::MAX), 30_000 << 17);
    assert_eq!(retry_delay(19, u32::MAX), u32::MAX);
    assert_eq!(retry_delay(33, u32::MAX), u32::MAX);
    assert_eq!(retry_delay(u32::MAX, 900_000), 900_000);
    let mut s = state();
    s.retry_count = u32::MAX;
    do_poll_at(&mut s, Err(PollError::NoCredentials), strings(), at(0));
    assert_eq!(s.retry_count, u32::MAX);
}

#[test]
fn success_makes_up_for_failure() {
    let mut a = state();
    let mut b = state();
    do_poll_at(&mut a, Err(PollError::TokenExpired), strings(), at(100));
    let timers = do_poll_at(&mut a, Ok(two_windows()), strings(), at(100));
    do_poll_at(&mut b, Ok(two_windows()), strings(), at(100));
    assert!(timers.contains(&TimerCommand::Start(Timer::Poll, 300_000)));
    assert_eq!(rows(&a), rows(&b));
    assert_eq!((a.retry_count, a.last_poll_ok), (b.retry_count, b.last_poll_ok));
}

#[test]
fn countdowns_are_scheduled() {
    let mut s = state();
    assert_eq!(
        schedule_countdown_timer_at(&s, at(0)),
        vec![TimerCommand::Stop(Timer::Countdown), TimerCommand::Stop(Timer::ResetPoll)]
    );
    s.last_poll_ok = true;
    assert_eq!(
        schedule_countdown_timer(&s),
        vec![TimerCommand::Start(Timer::Countdown, 60_000)]
    );
    s.codex_data = Some(two_windows());
    assert_eq!(
        schedule_countdown_timer_at(&s, at(90)),
        vec![TimerCommand::Start(Timer::Countdown, 11_000)]
    );
    assert_eq!(
        schedule_countdown_timer_at(&s, at(10_900)),
        vec![
            TimerCommand::Start(Timer::ResetPoll, 5_000),
            TimerCommand::Start(Timer::Countdown, 1_000)
        ]
    );
    assert_eq!(
        schedule_countdown_timer_at(&s, at(700_000)),
        vec![
            TimerCommand::Start(Timer::ResetPoll, 5_000),
            TimerCommand::Start(Timer::Countdown, 60_000)
        ]
    );
}

#[test]
fn texts_change_exactly_when_the_timer_fires() {
    let mut s = state();
    s.last_poll_ok = true;
    s.codex_data = Some(two_windows());
    let start = 50;
    let secs = match schedule_countdown_timer_at(&s, at(start))[0] {
        TimerCommand::Start(Timer::Countdown, ms) => (ms / 1000) as i64,
        other => panic!("{:?}", other),
    };
    let mut texts = |t: i64| {
        refresh_usage_texts_at(&mut s, strings(), at(t));
        s.display_rows.iter().map(|r| r.text.clone()).collect::<Vec<String>>()
    };
    let first = texts(start);
    assert_eq!(texts(start + secs - 1), first);
    assert_ne!(texts(start + secs), first);
}

#[test]
fn themes_and_visibility_are_taken_in() {
    let mut s = state();
    assert!(!check_theme_change(&mut s, false));
    assert!(check_theme_change(&mut s, true));
    assert!(s.is_dark);
    assert!(!toggle_widget_visibility(&mut s));
    assert!(!s.widget_visible);
    assert!(toggle_widget_visibility(&mut s));
    assert!(s.widget_visible);
}

#[test]
fn the_tray_shows_the_worst_window() {
    let mut s = state();
    assert_eq!(
        tray_icon_data_from_state(Some(&s)),
        (None, "Codex Windows Taskbar".to_string())
    );
    assert_eq!(tray_icon_data_from_state(None).1, "Codex Windows Taskbar");
    do_poll_at(&mut s, Ok(two_windows()), strings(), at(100));
    let (worst, text) = tray_icon_data_from_state(Some(&s));
    assert_eq!(worst, Some(percent(80.0)));
    assert_eq!(text, "Codex 5h: 58% \u{b7} 3h | 7d: 20% \u{b7} 7d");
    s.display_rows.clear();
    assert_eq!(tray_icon_data_from_state(Some(&s)).0, None);
}

// The tooltip

#[test]
fn reset_times_become_file_times() {
    assert_eq!(ticks_of(&at(0)), Some(116_444_736_000_000_000));
    let t = Timestamp::new(1, 123_456_789).unwrap();
    assert_eq!(ticks_of(&t), Some(116_444_736_000_000_000 + 11_234_567));
    assert_eq!(ticks_of(&at(-1)), None);
    assert_eq!(ticks_of(&at(i64::MAX)), None);
    let f = file_time_of_reset(Some(at(1_700_000_000))).unwrap();
    assert_eq!(((f.high as u64) << 32) + f.low as u64, 116_444_736_000_000_000 + 17_000_000_000_000_000);
    assert_eq!(file_time_of_reset(None), None);
    assert_eq!(file_time_of_reset(Some(at(-5))), None);
}

fn sunday() -> LocalTime {
    LocalTime { day_of_week: 0, month: 11, day: 5, hour: 7, minute: 8, second: 59 }
}

#[test]
fn local_times_are_written() {
    assert_eq!(format_human_local_reset_time(&sunday()), "Sun Nov 05 07:08:59");
    let odd = LocalTime { day_of_week: 7, month: 13, day: 31, hour: 23, minute: 0, second: 0 };
    assert_eq!(format_human_local_reset_time(&odd), "  31 23:00:00");
    let weekdays = ["Sun", "Mon", "Tue", "Wed", "Thu", "Fri", "Sat"];
    for (i, name) in weekdays.iter().enumerate() {
        let t = LocalTime { day_of_week: i as u16, ..sunday() };
        assert_eq!(format_human_local_reset_time(&t), format!("{} Nov 05 07:08:59", name));
    }
    let months =
        ["Jan", "Feb", "Mar", "Apr", "May", "Jun", "Jul", "Aug", "Sep", "Oct", "Nov", "Dec"];
    for (i, name) in months.iter().enumerate() {
        let t = LocalTime { month: i as u16 + 1, ..sunday() };
        assert_eq!(format_human_local_reset_time(&t), format!("Sun {} 05 07:08:59", name));
    }
}

#[test]
fn tooltips_name_each_window() {
    assert_eq!(reset_tooltip_text("5h", &Some(sunday())), "5h resets Sun Nov 05 07:08:59");
    assert_eq!(reset_tooltip_text("5h", &None), "5h reset time unavailable");
    let mut s = state();
    assert_eq!(
        usage_tooltip_text(&s, &vec![], strings()),
        "5h reset time unavailable\n7d reset time unavailable"
    );
    assert!(tooltip_file_times(&s).is_empty());
    do_poll_at(&mut s, Ok(two_windows()), strings(), at(100));
    let times = tooltip_file_times(&s);
    assert_eq!(times.len(), 2);
    assert_eq!(times[0], file_time_of_reset(Some(at(10_900))));
    assert_eq!(
        usage_tooltip_text(&s, &vec![None, Some(sunday())], strings()),
        "5h reset time unavailable\n7d resets Sun Nov 05 07:08:59"
    );
    assert_eq!(
        usage_tooltip_text(&s, &vec![Some(sunday())], strings()),
        "5h resets Sun Nov 05 07:08:59\n7d reset time unavailable"
    );
    s.last_poll_ok = false;
    assert!(tooltip_file_times(&s).is_empty());
}

#[test]
fn tooltips_have_a_line_for_each_window() {
    let mut s = state();
    let height = |s: &AppState| {
        let text = usage_tooltip_text(s, &vec![], strings());
        tooltip_placement(rect(0, 900, 239, 946), &text, 150, 96).height
    };
    assert_eq!(height(&s), 18 + 2 * 14);
    do_poll_at(
        &mut s,
        Ok(UsageData { windows: vec![section(1.0, Some(50), 18_000)] }),
        strings(),
        at(0),
    );
    assert_eq!(height(&s), 18 + 14);
    do_poll_at(&mut s, Ok(two_windows()), strings(), at(0));
    assert_eq!(height(&s), 18 + 2 * 14);
}

#[test]
fn failed_polls_stay_visible() {
    let mut s = state();
    do_poll_at(&mut s, Ok(two_windows()), strings(), at(100));
    do_poll_at(&mut s, Err(PollError::RequestFailed), strings(), at(100));
    refresh_usage_texts_at(&mut s, strings(), at(200));
    assert_eq!(rows(&s), vec![("5h", "..."), ("7d", "...")]);
    assert_eq!(s.codex_data.as_ref().map(|d| d.windows.len()), Some(2));
}

#[test]
fn tooltips_are_shown_and_hidden() {
    let mut s = state();
    assert!(show_usage_tooltip(&mut s, &vec![], strings()).is_none());
    assert_eq!(update_usage_tooltip(&mut s, &vec![], strings()), None);
    assert_eq!(hide_usage_tooltip(&mut s), None);
    install_usage_tooltip(&mut s, 55, &vec![], strings());
    assert_eq!(s.tooltip_hwnd, Some(55));
    assert!(s.tooltip_text.starts_with("5h reset"));
    assert_eq!(hide_usage_tooltip(&mut s), None);
    let shown = show_usage_tooltip(&mut s, &vec![], strings()).unwrap();
    assert!(shown.track && s.tooltip_visible && s.mouse_tracking);
    assert_eq!((shown.tooltip, shown.text.as_str()), (55, s.tooltip_text.as_str()));
    assert!(!show_usage_tooltip(&mut s, &vec![], strings()).unwrap().track);
    s.display_rows.truncate(1);
    assert_eq!(update_usage_tooltip(&mut s, &vec![], strings()), Some(55));
    assert_eq!(s.tooltip_text, "5h reset time unavailable");
    assert_eq!(hide_usage_tooltip(&mut s), Some(55));
    assert!(!s.tooltip_visible && !s.mouse_tracking);
    assert_eq!(hide_usage_tooltip(&mut s), None);
}

#[test]
fn tooltips_stand_above_or_below() {
    let above = tooltip_placement(rect(100, 1034, 339, 1080), "a\nb", 200, 96);
    assert_eq!((above.x, above.y, above.width, above.height), (105, 1034 - 46 - 6, 200, 46));
    let below = tooltip_placement(rect(100, 0, 339, 46), "", 200, 96);
    assert_eq!((below.x, below.y, below.height), (105, 52, 32));
    let single = tooltip_placement(rect(0, 500, 239, 546), "a", 150, 144);
    assert_eq!((single.height, single.y), (48, 500 - 48 - 9));
}

#[test]
fn tooltips_need_a_place() {
    assert!(tooltip_has_room(rect(100, 1034, 339, 1080), "a\nb", 96));
    assert!(tooltip_has_room(rect(i32::MIN, 0, 0, 46), "", 96));
    assert!(tooltip_has_room(rect(i32::MAX - 5, 0, i32::MAX, 46), "", 96));
    assert!(!tooltip_has_room(rect(i32::MAX - 4, 0, i32::MAX, 46), "", 96));
    assert!(tooltip_has_room(rect(0, 0, 239, i32::MAX - 6), "a", 96));
    assert!(!tooltip_has_room(rect(0, 0, 239, i32::MAX - 5), "a", 96));
}

#[test]
fn tooltips_are_as_wide_as_their_text() {
    assert_eq!(tooltip_width_for_text(None, 96), 150);
    assert_eq!(tooltip_width_for_text(Some(rect(0, 0, 100, 20)), 96), 150);
    assert_eq!(tooltip_width_for_text(Some(rect(0, 0, 300, 20)), 96), 316);
    assert_eq!(tooltip_width_for_text(Some(rect(0, 0, 300, 20)), 192), 332);
    assert_eq!(measure_rect(144), rect(0, 0, 1500, 54));
}

#[test]
fn tooltips_are_painted() {
    let mut s = state();
    s.tooltip_text = "hello".to_string();
    let p = paint_usage_tooltip(Some(&s), true, rect(0, 0, 200, 46), 96);
    assert_eq!((p.background.red, p.text_color.red), (0xfa, 0x20));
    assert_eq!((p.corner, p.border, p.text.as_str()), (4, 1, "hello"));
    assert_eq!(p.text_rect, rect(8, 3, 192, 44));
    let none = paint_usage_tooltip(None, true, rect(0, 0, 200, 46), 96);
    assert_eq!((none.background.red, none.text.as_str()), (0x2d, ""));
}

// The taskbar

#[test]
fn refresh_keys_are_half_a_second_apart() {
    let ms = 1_000_000u128;
    let mut last = None;
    assert!(refresh_key_allowed(&mut last, 1000 * ms));
    assert!(!refresh_key_allowed(&mut last, 1500 * ms - 1));
    assert_eq!(last, Some(1000 * ms));
    assert!(refresh_key_allowed(&mut last, 1500 * ms));
    assert_eq!(last, Some(1500 * ms));
    assert!(!refresh_key_allowed(&mut last, 0));
}

#[test]
fn only_the_refresh_key_counts() {
    assert!(is_key_press(0, 0x100));
    assert!(!is_key_press(0, 0x101));
    assert!(!is_key_press(-1, 0x100));
    let mut last = None;
    assert_eq!(key_pressed(0x41, Some(7), &mut last, 5), None);
    assert_eq!(key_pressed(0x52, None, &mut last, 5), None);
    assert_eq!(last, None);
    assert_eq!(key_pressed(0x52, Some(7), &mut last, 5), Some(7));
    assert_eq!(last, Some(5));
    assert_eq!(key_pressed(0x52, Some(7), &mut last, 6), None);
}

#[test]
fn the_mouse_has_to_be_over_the_widget() {
    let mut s = state();
    let inside = Some(Point { x: 5, y: 5 });
    let widget = Some(rect(0, 0, 10, 10));
    assert_eq!(hovered_refresh_hwnd(Some(&s), inside, widget, false), Some(7));
    assert_eq!(hovered_refresh_hwnd(Some(&s), Some(Point { x: 10, y: 5 }), widget, false), None);
    assert_eq!(hovered_refresh_hwnd(Some(&s), inside, None, false), None);
    assert_eq!(hovered_refresh_hwnd(Some(&s), inside, None, true), Some(7));
    assert_eq!(hovered_refresh_hwnd(Some(&s), None, widget, true), None);
    assert_eq!(hovered_refresh_hwnd(None, inside, widget, true), None);
    s.widget_visible = false;
    assert_eq!(hovered_refresh_hwnd(Some(&s), inside, widget, false), None);
}

#[test]
fn tray_icon_changes_are_not_movements() {
    let ms = 1_000_000u128;
    let mut watch = TrayWatch { suppressed_until: None, last_reposition: None };
    suppress_tray_reposition_for(&mut watch, 100 * ms, 750);
    assert!(tray_reposition_is_suppressed(&mut watch, 850 * ms - 1));
    assert_eq!(watch.suppressed_until, Some(850 * ms));
    assert!(!tray_reposition_is_suppressed(&mut watch, 850 * ms));
    assert_eq!(watch.suppressed_until, None);
    assert!(!tray_reposition_is_suppressed(&mut watch, 0));
}

#[test]
fn movements_of_the_tray_are_followed() {
    let ms = 1_000_000u128;
    let mut s = state();
    s.tray_notify_hwnd = Some(31);
    let mut watch = TrayWatch { suppressed_until: Some(10 * ms), last_reposition: None };
    assert!(!on_tray_location_changed(Some(&s), 30, &mut watch, 20 * ms));
    assert!(!on_tray_location_changed(None, 31, &mut watch, 20 * ms));
    assert!(!on_tray_location_changed(Some(&s), 31, &mut watch, 9 * ms));
    assert_eq!(watch.suppressed_until, Some(10 * ms));
    assert!(on_tray_location_changed(Some(&s), 31, &mut watch, 20 * ms));
    assert_eq!((watch.suppressed_until, watch.last_reposition), (None, Some(20 * ms)));
    assert!(!on_tray_location_changed(Some(&s), 31, &mut watch, 520 * ms));
    assert!(on_tray_location_changed(Some(&s), 31, &mut watch, 521 * ms));
}

fn attempt(mut a: Attachment, s: &mut AppState, answers: &[(Query, Option<isize>)]) -> Vec<AttachEffect> {
    let mut effects = Vec::new();
    for (query, answer) in answers {
        assert_eq!(attachment_query(&a), Some(*query));
        effects.extend(attach_step(&mut a, *answer, s));
    }
    assert_eq!(attachment_query(&a), None);
    effects
}

const STOP_RETRY: AttachEffect = AttachEffect::Timer(TimerCommand::Stop(Timer::TaskbarRetry));
const START_RETRY: AttachEffect = AttachEffect::Timer(TimerCommand::Start(Timer::TaskbarRetry, 2000));

#[test]
fn the_first_attachment_embeds_and_hooks() {
    let mut s = state();
    let a = attach_to_taskbar(&s);
    let effects = attempt(
        a,
        &mut s,
        &[
            (Query::FindTaskbar, Some(20)),
            (Query::IsWindow(20), Some(20)),
            (Query::FindTray(20), Some(21)),
            (Query::HookTray(21), Some(99)),
        ],
    );
    assert_eq!(effects, vec![AttachEffect::Embed(7, 20)]);
    assert_eq!((s.taskbar_hwnd, s.tray_notify_hwnd, s.win_event_hook), (Some(20), Some(21), Some(99)));
    assert!(s.embedded);
}

#[test]
fn without_a_taskbar_the_first_attachment_does_nothing() {
    let mut s = state();
    let a = attach_to_taskbar(&s);
    assert!(attempt(a, &mut s, &[(Query::FindTaskbar, None)]).is_empty());
    let a = attach_to_taskbar(&s);
    let effects = attempt(a, &mut s, &[(Query::FindTaskbar, Some(20)), (Query::IsWindow(20), None)]);
    assert!(effects.is_empty() && !s.embedded && s.taskbar_hwnd.is_none());
}

fn attached() -> AppState {
    let mut s = state();
    s.taskbar_hwnd = Some(20);
    s.tray_notify_hwnd = Some(21);
    s.win_event_hook = Some(99);
    s.embedded = true;
    s
}

#[test]
fn an_intact_attachment_is_left_alone() {
    let mut s = attached();
    let a = ensure_taskbar_attachment(&s);
    let effects = attempt(
        a,
        &mut s,
        &[
            (Query::IsWindow(20), Some(20)),
            (Query::Parent(7), Some(20)),
            (Query::IsWindow(21), Some(21)),
        ],
    );
    assert!(effects.is_empty());
    assert_eq!(s.win_event_hook, Some(99));
}

#[test]
fn a_lost_parent_is_restored() {
    let mut s = attached();
    let a = ensure_taskbar_attachment(&s);
    let effects = attempt(
        a,
        &mut s,
        &[
            (Query::IsWindow(20), Some(20)),
            (Query::Parent(7), None),
            (Query::IsWindow(21), Some(21)),
        ],
    );
    assert_eq!(effects, vec![AttachEffect::Embed(7, 20), AttachEffect::Show(7)]);
}

#[test]
fn a_restarted_taskbar_is_found_again() {
    let mut s = attached();
    let a = ensure_taskbar_attachment(&s);
    let effects = attempt(
        a,
        &mut s,
        &[
            (Query::IsWindow(20), None),
            (Query::FindTaskbar, Some(40)),
            (Query::IsWindow(40), Some(40)),
            (Query::FindTray(40), Some(41)),
            (Query::HookTray(41), None),
        ],
    );
    assert_eq!(
        effects,
        vec![
            AttachEffect::Embed(7, 40),
            AttachEffect::Unhook(99),
            AttachEffect::Show(7),
            STOP_RETRY
        ]
    );
    assert_eq!((s.taskbar_hwnd, s.tray_notify_hwnd, s.win_event_hook), (Some(40), Some(41), None));
}

#[test]
fn a_missing_taskbar_is_looked_for_again() {
    let mut s = attached();
    let a = ensure_taskbar_attachment(&s);
    let effects = attempt(a, &mut s, &[(Query::IsWindow(20), None), (Query::FindTaskbar, None)]);
    assert_eq!(effects, vec![START_RETRY]);
    assert_eq!((s.taskbar_hwnd, s.tray_notify_hwnd, s.embedded), (None, None, false));
    assert_eq!(s.win_event_hook, Some(99));
    s.widget_visible = false;
    let a = ensure_taskbar_attachment(&s);
    let effects = attempt(
        a,
        &mut s,
        &[
            (Query::FindTaskbar, Some(40)),
            (Query::IsWindow(40), Some(40)),
            (Query::FindTray(40), None),
        ],
    );
    assert_eq!(effects, vec![AttachEffect::Embed(7, 40), AttachEffect::Unhook(99), STOP_RETRY]);
    assert!(s.embedded && s.win_event_hook.is_none());
}

#[test]
fn a_replaced_tray_is_hooked() {
    let mut s = attached();
    let a = ensure_taskbar_attachment(&s);
    let effects = attempt(
        a,
        &mut s,
        &[
            (Query::IsWindow(20), Some(20)),
            (Query::Parent(7), Some(20)),
            (Query::IsWindow(21), None),
            (Query::FindTray(20), Some(22)),
            (Query::HookTray(22), Some(100)),
        ],
    );
    assert_eq!(effects, vec![AttachEffect::Unhook(99)]);
    assert_eq!((s.tray_notify_hwnd, s.win_event_hook), (Some(22), Some(100)));
}

#[test]
fn a_widget_that_cannot_join_keeps_its_tray() {
    let mut s = attached();
    s.embedded = false;
    s.tray_notify_hwnd = None;
    let a = ensure_taskbar_attachment(&s);
    let effects = attempt(
        a,
        &mut s,
        &[
            (Query::IsWindow(20), Some(20)),
            (Query::FindTaskbar, None),
            (Query::FindTray(20), None),
        ],
    );
    assert_eq!(effects, vec![AttachEffect::Unhook(99)]);
    assert_eq!((s.taskbar_hwnd, s.embedded), (Some(20), false));
}

#[test]
fn placing_waits_for_the_drag() {
    let mut s = attached();
    assert_eq!(taskbar_for_placing(None), None);
    assert_eq!(taskbar_for_placing(Some(&s)), Some(20));
    s.dragging = true;
    assert_eq!(taskbar_for_placing(Some(&s)), None);
    s.dragging = false;
    let bar = Some(rect(0, 1032, 1920, 1080));
    let moved = place_widget(&s, bar, Some(rect(1700, 1032, 1920, 1080)), 96).unwrap();
    assert_eq!((moved.hwnd, moved.placement.x, moved.placement.y, moved.show), (7, 1457, 2, true));
    assert_eq!(place_widget(&s, None, None, 96), None);
    assert_eq!(place_widget(&s, Some(rect(0, 0, 0, 0)), None, 96), None);
}

// The window

#[test]
fn messages_are_decoded() {
    let m = |msg: u32, w: usize, l: isize| decode_message(msg, w, l);
    assert_eq!(m(0x000f, 0, 0), Message::Paint);
    assert_eq!(m(0x0014, 0, 0), Message::EraseBackground);
    assert_eq!(m(0x007e, 0, 0), Message::DisplayChange);
    assert_eq!(m(0x02e0, 0x0090_0078, 0), Message::DpiChanged(0x78));
    assert_eq!(m(0x001a, 0, 0), Message::SettingChange);
    assert_eq!(m(0x0113, 3, 0), Message::Timer(3));
    assert_eq!(m(WM_APP_USAGE_UPDATED, 0, 0), Message::UsageUpdated);
    assert_eq!(m(WM_APP_REFRESH_SHORTCUT, 0, 0), Message::RefreshShortcut);
    assert_eq!(WM_APP_REFRESH_SHORTCUT, 0x8000 + 4);
    assert_eq!(m(WM_APP_TRAY, 0, 0), Message::Tray);
    assert_eq!(m(0x0020, 0, 0x0200_0001), Message::SetCursor(1));
    assert_eq!(m(0x02a3, 0, 0), Message::MouseLeave);
    assert_eq!(m(0x0202, 0, 0), Message::LeftUp);
    assert_eq!(m(0x0205, 0, 0), Message::RightUp);
    assert_eq!(m(0x0111, 0x0001_000a, 0), Message::Command(10));
    assert_eq!(m(0x0002, 0, 0), Message::Destroy);
    assert_eq!(m(0x0001, 0, 0), Message::Other);
}

#[test]
fn points_have_signs() {
    assert_eq!(decode_message(0x0200, 0, 0x0005_fffe), Message::MouseMove(-2, 5));
    assert_eq!(decode_message(0x0200, 0, -1), Message::MouseMove(-1, -1));
    assert_eq!(decode_message(0x0201, 0, 0x7fff), Message::LeftDown(32767));
    assert_eq!(decode_message(0x0201, 0, 0x8000), Message::LeftDown(-32768));
    for lparam in [0isize, 1, -1, 0x1234_5678, -0x1234_5678, isize::MAX, isize::MIN, 0x8000_0000] {
        let x = (lparam & 0xFFFF) as i16 as i32;
        let y = ((lparam >> 16) & 0xFFFF) as i16 as i32;
        assert_eq!(decode_message(0x0200, 0, lparam), Message::MouseMove(x, y));
        assert_eq!(
            decode_message(0x0020, 0, lparam),
            Message::SetCursor((lparam & 0xFFFF) as u16)
        );
    }
}

fn respond(message: Message, s: Option<&AppState>) -> Response {
    wnd_proc(message, 0, TrayAction::Nothing, s, 96)
}

fn tasks(message: Message, s: Option<&AppState>) -> Vec<Task> {
    let r = respond(message, s);
    assert_eq!(r.result, Some(0));
    r.tasks
}

#[test]
fn painting_depends_on_the_attachment() {
    assert_eq!(tasks(Message::Paint, Some(&attached())), vec![Task::Validate]);
    assert_eq!(tasks(Message::Paint, Some(&state())), vec![Task::Paint]);
    assert_eq!(tasks(Message::Paint, None), vec![Task::Paint]);
    let r = respond(Message::EraseBackground, None);
    assert_eq!((r.tasks.len(), r.result), (0, Some(1)));
    assert_eq!(respond(Message::Other, None).result, None);
}

#[test]
fn the_desktop_is_settled_with() {
    let settle = [
        Task::RefreshDpi,
        Task::UpdateTooltip,
        Task::EnsureAttachment,
        Task::Position,
        Task::Render,
    ];
    assert_eq!(tasks(Message::DisplayChange, None), settle);
    let changed = tasks(Message::DpiChanged(144), None);
    assert_eq!((changed[0], &changed[1..]), (Task::SetDpi(144), &settle[..]));
    let setting = tasks(Message::SettingChange, None);
    assert_eq!((setting[0], &setting[1..]), (Task::CheckTheme, &settle[..]));
}

#[test]
fn timers_lead_to_their_tasks() {
    let s = state();
    let fire = |timer: Timer| tasks(Message::Timer(timer_id(timer)), Some(&s));
    assert_eq!(fire(Timer::Poll), vec![Task::Poll]);
    assert_eq!(
        fire(Timer::Countdown),
        vec![Task::UpdateDisplay, Task::Render, Task::ScheduleCountdown]
    );
    assert_eq!(fire(Timer::ResetPoll), vec![Task::Poll]);
    assert_eq!(
        fire(Timer::TaskbarRetry),
        vec![Task::EnsureAttachment, Task::Position, Task::Render, Task::StopRetryOnceEmbedded]
    );
    assert!(tasks(Message::Timer(timer_id(Timer::ResetPoll)), None).is_empty());
    assert!(tasks(Message::Timer(77), Some(&s)).is_empty());
}

#[test]
fn news_and_shortcuts_lead_to_their_tasks() {
    assert_eq!(
        tasks(Message::UsageUpdated, None),
        vec![
            Task::CheckTheme,
            Task::UpdateTooltip,
            Task::Render,
            Task::ScheduleCountdown,
            Task::SuppressTray(750),
            Task::UpdateTrayIcon
        ]
    );
    let refresh = vec![Task::ClearTexts, Task::Render, Task::Poll];
    assert_eq!(tasks(Message::RefreshShortcut, None), refresh);
    assert_eq!(tasks(Message::Command(IDM_REFRESH), None), refresh);
}

#[test]
fn the_cursor_shows_where_to_grab() {
    let mut s = state();
    let cursor = |s: &AppState, hit: u16, x: i32| {
        let r = wnd_proc(Message::SetCursor(hit), x, TrayAction::Nothing, Some(s), 96);
        (r.tasks, r.result)
    };
    assert_eq!(cursor(&s, 1, 12), (vec![Task::ResizeCursor], Some(1)));
    assert_eq!(cursor(&s, 1, 13), (vec![], None));
    assert_eq!(cursor(&s, 2, 0), (vec![], None));
    s.dragging = true;
    assert_eq!(cursor(&s, 2, 500), (vec![Task::ResizeCursor], Some(1)));
}

#[test]
fn the_mouse_drags_or_shows_the_tooltip() {
    let mut s = state();
    assert_eq!(
        tasks(Message::LeftDown(12), Some(&s)),
        vec![Task::BeginDrag, Task::CaptureMouse]
    );
    assert!(tasks(Message::LeftDown(13), Some(&s)).is_empty());
    assert_eq!(tasks(Message::MouseMove(60, 10), Some(&s)), vec![Task::ShowTooltip]);
    assert_eq!(tasks(Message::MouseMove(200, 10), Some(&s)), vec![Task::HideTooltip]);
    assert_eq!(tasks(Message::MouseLeave, Some(&s)), vec![Task::HideTooltip]);
    assert!(tasks(Message::LeftUp, Some(&s)).is_empty());
    s.dragging = true;
    assert_eq!(
        tasks(Message::MouseMove(60, 10), Some(&s)),
        vec![Task::HideTooltip, Task::Drag]
    );
    assert_eq!(
        tasks(Message::LeftUp, Some(&s)),
        vec![Task::EndDrag, Task::ReleaseMouse, Task::SaveSettings]
    );
}

#[test]
fn commands_lead_to_their_tasks() {
    let mut s = attached();
    let command = |id: u16, s: &AppState| tasks(Message::Command(id), Some(s));
    assert_eq!(
        command(IDM_RESET_POSITION, &s),
        vec![Task::ResetPosition, Task::SaveSettings, Task::Position]
    );
    assert_eq!(command(IDM_START_WITH_WINDOWS, &s), vec![Task::ToggleStartup]);
    for (id, ms) in [
        (IDM_FREQ_1MIN, 60_000),
        (IDM_FREQ_5MIN, 300_000),
        (IDM_FREQ_15MIN, 900_000),
        (IDM_FREQ_1HOUR, 3_600_000),
    ] {
        assert_eq!(
            command(id, &s),
            vec![
                Task::SetInterval(ms),
                Task::SaveSettings,
                Task::Timer(TimerCommand::Start(Timer::Poll, ms))
            ]
        );
    }
    assert_eq!(
        command(IDM_EXIT, &s),
        vec![Task::Unhook(99), Task::RemoveKeyboardHook, Task::Quit]
    );
    assert_eq!(
        command(IDM_TOGGLE_WIDGET, &s),
        vec![Task::ToggleVisibility, Task::SaveSettings, Task::Hide]
    );
    s.widget_visible = false;
    assert_eq!(
        command(IDM_TOGGLE_WIDGET, &s),
        vec![
            Task::ToggleVisibility,
            Task::SaveSettings,
            Task::EnsureAttachment,
            Task::Position,
            Task::Show,
            Task::Render
        ]
    );
    assert!(command(5, &s).is_empty());
    assert!(tasks(Message::Command(IDM_TOGGLE_WIDGET), None).is_empty());
}

#[test]
fn the_tray_icon_toggles_or_shows_the_menu() {
    let s = attached();
    let tray = |action: TrayAction| wnd_proc(Message::Tray, 0, action, Some(&s), 96).tasks;
    assert!(tray(TrayAction::Nothing).is_empty());
    assert_eq!(tray(TrayAction::ShowContextMenu), vec![Task::ShowMenu]);
    assert_eq!(tray(TrayAction::ToggleWidget), tasks(Message::Command(IDM_TOGGLE_WIDGET), Some(&s)));
    assert_eq!(tasks(Message::RightUp, Some(&s)), vec![Task::ShowMenu]);
}

#[test]
fn leaving_removes_what_was_installed() {
    assert_eq!(
        tasks(Message::Destroy, Some(&attached())),
        vec![Task::Unhook(99), Task::RemoveKeyboardHook, Task::RemoveTrayIcon, Task::Quit]
    );
    assert_eq!(
        tasks(Message::Destroy, None),
        vec![Task::RemoveKeyboardHook, Task::RemoveTrayIcon, Task::Quit]
    );
}

#[test]
fn starting_depends_on_the_attachment() {
    let mut s = attached();
    let common = [
        Task::AddTrayIcon,
        Task::InstallKeyboardHook,
        Task::Position,
        Task::Show,
        Task::Render,
        Task::Timer(TimerCommand::Start(Timer::Poll, 300_000)),
        Task::Poll,
        Task::CheckTheme,
    ];
    assert_eq!(run(&s), common);
    s.embedded = false;
    s.widget_visible = false;
    let alone = run(&s);
    assert_eq!(
        &alone[..2],
        &[
            Task::StandAlone,
            Task::Timer(TimerCommand::Start(Timer::TaskbarRetry, 2000))
        ]
    );
    assert!(!alone.contains(&Task::Show));
    assert_eq!(alone.len(), 9);
}

#[test]
fn a_new_theme_is_drawn() {
    let mut s = state();
    assert!(theme_tasks(&mut s, false).is_empty());
    assert_eq!(theme_tasks(&mut s, true), vec![Task::Render]);
    assert!(s.is_dark && theme_tasks(&mut s, true).is_empty());
}

#[test]
fn an_embedded_widget_stops_looking() {
    let stop = vec![Task::Timer(TimerCommand::Stop(Timer::TaskbarRetry))];
    assert_eq!(retry_tasks(Some(&attached())), stop);
    assert!(retry_tasks(Some(&state())).is_empty());
    assert!(retry_tasks(None).is_empty());
}

#[test]
fn only_one_instance_starts() {
    assert!(may_start(true, false));
    assert!(!may_start(true, true));
    assert!(!may_start(false, false));
    assert!(!may_start(false, true));
}

#[test]
fn a_failed_resolution_report_changes_nothing() {
    assert_eq!(refresh_dpi(96, 144), 144);
    assert_eq!(refresh_dpi(96, 0), 96);
}

#[test]
fn a_drag_ends_where_the_mouse_is() {
    let mut s = attached();
    let bar = Some((rect(0, 1032, 1920, 1080), Some(rect(1700, 1032, 1920, 1080))));
    begin_drag(&mut s, 1500);
    assert!(s.dragging);
    assert_eq!((s.drag_start_mouse_x, s.drag_start_offset), (1500, 12));
    let (hwnd, placement) = drag(&mut s, 1400, bar, 96).unwrap();
    assert_eq!((hwnd, placement.x, s.tray_offset), (7, 1700 - 239 - 112 + 8, 112));
    drag(&mut s, 1500, bar, 96);
    assert_eq!(s.tray_offset, 12);
    assert_eq!(drag(&mut s, 1450, None, 96), None);
    assert_eq!(s.tray_offset, 62);
    assert!(end_drag(&mut s));
    assert!(!s.dragging && !end_drag(&mut s));
    reset_position(&mut s);
    set_poll_interval(&mut s, 60_000);
    assert_eq!((s.tray_offset, s.poll_interval_ms), (0, 60_000));
}

fn items(entries: &[MenuEntry]) -> Vec<MenuItem> {
    let mut all = Vec::new();
    for entry in entries {
        match entry {
            MenuEntry::Item(item) => all.push(*item),
            MenuEntry::Submenu(_, inner) => all.extend(inner.iter().copied()),
            MenuEntry::Separator => {}
        }
    }
    all
}

#[test]
fn the_menu_offers_everything() {
    let s = state();
    let menu = show_context_menu(Some(&s), true, strings());
    assert_eq!(menu.len(), 6);
    assert!(matches!(menu[4], MenuEntry::Separator));
    assert!(matches!(&menu[1], MenuEntry::Submenu("Update frequency", inner) if inner.len() == 4));
    assert!(matches!(&menu[2], MenuEntry::Submenu("Settings", inner) if inner.len() == 2));
    let all = items(&menu);
    let ids: Vec<u16> = all.iter().map(|i| i.id).collect();
    assert_eq!(ids, vec![1, 10, 11, 12, 13, 20, 30, 40, 2]);
    let labels: Vec<&str> = all.iter().map(|i| i.label).collect();
    assert_eq!(
        labels,
        vec![
            "Refresh",
            "1 minute",
            "5 minutes",
            "15 minutes",
            "1 hour",
            "Start with Windows",
            "Reset position",
            "Show widget",
            "Exit"
        ]
    );
    let checked: Vec<u16> = all.iter().filter(|i| i.checked).map(|i| i.id).collect();
    assert_eq!(checked, vec![11, 20, 40]);
    for item in all {
        assert!(!tasks(Message::Command(item.id), Some(&s)).is_empty());
    }
}

#[test]
fn the_menu_checks_what_was_chosen() {
    let mut s = state();
    for id in [IDM_FREQ_1MIN, IDM_FREQ_5MIN, IDM_FREQ_15MIN, IDM_FREQ_1HOUR] {
        match tasks(Message::Command(id), Some(&s))[0] {
            Task::SetInterval(ms) => set_poll_interval(&mut s, ms),
            other => panic!("{:?}", other),
        }
        s.widget_visible = false;
        let menu = items(&show_context_menu(Some(&s), false, strings()));
        let checked: Vec<u16> = menu.iter().filter(|i| i.checked).map(|i| i.id).collect();
        assert_eq!(checked, vec![id]);
    }
    let bare = items(&show_context_menu(None, false, strings()));
    let checked: Vec<u16> = bare.iter().filter(|i| i.checked).map(|i| i.id).collect();
    assert_eq!(checked, vec![IDM_FREQ_15MIN, IDM_TOGGLE_WIDGET]);
}

#[test]
fn polls_use_the_current_time() {
    let mut s = state();
    let soon = now().unix_secs() + 2 * 86400 + 1000;
    let data = UsageData { windows: vec![section(10.0, Some(soon), 18_000)] };
    let timers = do_poll(&mut s, Ok(data), strings());
    assert_eq!(timers, vec![TimerCommand::Stop(Timer::ResetPoll)]);
    assert_eq!(rows(&s), vec![("5h", "90% \u{b7} 2d")]);
}
