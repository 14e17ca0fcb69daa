use codex_windows_taskbar::clock::{now, timestamp_of_reading, Timestamp};
use codex_windows_taskbar::codex::{
    codex_usage_response_to_data, parse_codex_tokens, profile_directory, refresh_request, refresh_result,
    unix_to_system_time, usage_request, usage_result, CodexAuth, CodexRateLimit,
    CodexRefreshResponse, CodexTokens, CodexUsageBucket, CodexUsageResponse, HttpRequest, Reply,
    USER_AGENT,
};
use codex_windows_taskbar::flow::{poll_codex, poll_step, PollAction, PollEvent, PollPhase};
use codex_windows_taskbar::localization::Strings;
use codex_windows_taskbar::models::{
    bits_at, place_of, Percent, UsageData, UsageSection, PLACE_OF_100,
};
use codex_windows_taskbar::poller::{
    format_countdown, format_countdown_at, format_countdown_from_secs, format_line, format_line_at,
    is_past_reset, is_past_reset_at, time_until_display_change, time_until_display_change_at,
    time_until_display_change_from_secs, window_label, PollError,
};
use codex_windows_taskbar::wsl::WslUsage;

fn strings() -> Strings {
    Strings {
        window_title: "Codex",
        session_window: "5h",
        weekly_window: "7d",
        now: "now",
        day_suffix: "d",
        hour_suffix: "h",
        minute_suffix: "m",
        second_suffix: "s",
        refresh: "Refresh",
        update_frequency: "Update frequency",
        one_minute: "1 minute",
        five_minutes: "5 minutes",
        fifteen_minutes: "15 minutes",
        one_hour: "1 hour",
        settings: "Settings",
        start_with_windows: "Start with Windows",
        reset_position: "Reset position",
        show_widget: "Show widget",
        exit: "Exit",
    }
}

fn percent(whole: u32) -> Percent {
    let used = 100.0 - whole as f64;
    Percent::new(place_of(used.to_bits()), place_of((whole as f64).to_bits()), whole).unwrap()
}

fn at(secs: i64) -> Timestamp {
    Timestamp::from_unix_secs(secs)
}

fn bucket(whole: u32, reset_at: Option<i64>) -> CodexUsageBucket {
    CodexUsageBucket { used_percent: percent(whole), reset_at, limit_window_seconds: Some(18000) }
}

fn response(primary: Option<u32>, secondary: Option<u32>) -> CodexUsageResponse {
    CodexUsageResponse {
        rate_limit: Some(CodexRateLimit {
            primary_window: primary.map(|p| bucket(p, Some(1000))),
            secondary_window: secondary.map(|p| bucket(p, None)),
        }),
    }
}

fn tokens(access: &str, refresh: Option<&str>) -> CodexTokens {
    CodexTokens {
        access_token: Some(access.to_string()),
        refresh_token: refresh.map(|r| r.to_string()),
        account_id: Some("acc".to_string()),
    }
}

fn header(request: &HttpRequest, name: &str) -> Option<String> {
    request.headers.iter().find(|h| h.0 == name).map(|h| h.1.clone())
}

fn wholes(data: &UsageData) -> Vec<u32> {
    data.windows.iter().map(|w| w.percentage.remaining_whole()).collect()
}

// Times

#[test]
fn timestamps_know_their_order() {
    let a = Timestamp::new(5, 999_999_999).unwrap();
    assert!(Timestamp::new(5, 1_000_000_000).is_none());
    assert!(a.is_before(&at(6)));
    assert!(!at(6).is_before(&a));
    assert!(!a.is_before(&a));
    assert_eq!(at(8).whole_secs_since(&a), Some(2));
    assert_eq!(at(6).whole_secs_since(&a), Some(0));
    assert_eq!(a.whole_secs_since(&at(6)), None);
    assert_eq!(a.whole_secs_since(&at(5)), Some(0));
    assert_eq!(at(i64::MAX).whole_secs_since(&at(i64::MIN)), Some(u64::MAX));
    assert_eq!((a.unix_secs(), a.subsec_nanos()), (5, 999_999_999));
}

#[test]
fn clock_readings_become_timestamps() {
    let after = timestamp_of_reading(Ok((7, 3)));
    assert_eq!((after.unix_secs(), after.subsec_nanos()), (7, 3));
    let before = timestamp_of_reading(Err((7, 3)));
    assert_eq!((before.unix_secs(), before.subsec_nanos()), (-8, 999_999_997));
    let exact = timestamp_of_reading(Err((7, 0)));
    assert_eq!((exact.unix_secs(), exact.subsec_nanos()), (-7, 0));
    assert_eq!(timestamp_of_reading(Ok((u64::MAX, 0))).unix_secs(), i64::MAX);
    assert_eq!(timestamp_of_reading(Err((u64::MAX, 0))).unix_secs(), i64::MIN);
}

#[test]
fn the_clock_is_read() {
    let before = std::time::SystemTime::now()
        .duration_since(std::time::UNIX_EPOCH)
        .unwrap()
        .as_secs() as i64;
    let read = now();
    let after = std::time::SystemTime::now()
        .duration_since(std::time::UNIX_EPOCH)
        .unwrap()
        .as_secs() as i64;
    assert!(before <= read.unix_secs() && read.unix_secs() <= after);
}

#[test]
fn unix_times_are_converted() {
    assert!(unix_to_system_time(None).is_none());
    assert!(unix_to_system_time(Some(-1)).is_none());
    assert_eq!(unix_to_system_time(Some(0)), Some(at(0)));
    assert_eq!(unix_to_system_time(Some(1_700_000_000)), Some(at(1_700_000_000)));
    assert_eq!(unix_to_system_time(Some(i64::MAX)), Some(at(i64::MAX)));
}

// Countdowns

#[test]
fn countdowns_use_the_largest_unit() {
    let s = strings();
    for (secs, text) in [
        (0, "0s"),
        (59, "59s"),
        (60, "1m"),
        (3599, "59m"),
        (3600, "1h"),
        (86399, "23h"),
        (86400, "1d"),
        (604800, "7d"),
        (u64::MAX, "213503982334601d"),
    ] {
        assert_eq!(format_countdown_from_secs(secs, s), text);
    }
}

#[test]
fn countdowns_end_in_now() {
    let s = strings();
    assert_eq!(format_countdown_at(None, s, at(0)), "");
    assert_eq!(format_countdown_at(Some(at(99)), s, at(100)), "now");
    assert_eq!(format_countdown_at(Some(at(100)), s, at(100)), "0s");
    assert_eq!(format_countdown_at(Some(at(7301)), s, at(100)), "2h");
    assert_eq!(format_countdown(Some(at(5)), s), "now");
    assert_eq!(format_countdown(None, s), "");
    assert_eq!(format_countdown(Some(at(now().unix_secs() + 10 * 86400 + 100)), s), "10d");
}

#[test]
fn display_changes_at_the_end_of_the_bucket() {
    for (secs, delay) in [
        (0, 1),
        (1, 1),
        (59, 1),
        (60, 1),
        (61, 2),
        (3599, 60),
        (3600, 1),
        (7199, 3600),
        (86400, 1),
        (172799, 86400),
        (u64::MAX, u64::MAX % 86400 + 1),
    ] {
        assert_eq!(time_until_display_change_from_secs(secs), delay);
    }
}

#[test]
fn texts_are_steady_until_the_delay_is_over() {
    let s = strings();
    for total in [5u64, 60, 61, 119, 120, 3600, 3661, 7322, 86400, 90000, 200000] {
        let delay = time_until_display_change_from_secs(total);
        let text = format_countdown_from_secs(total, s);
        for elapsed in [0, delay / 2, delay - 1] {
            assert_eq!(format_countdown_from_secs(total - elapsed, s), text);
        }
        if delay <= total {
            assert_ne!(format_countdown_from_secs(total - delay, s), text);
        }
    }
}

#[test]
fn countdowns_are_steady_between_seconds() {
    let s = strings();
    let reset = Timestamp::new(9000, 250_000_000);
    let start = at(100);
    let delay = time_until_display_change_at(reset, start).unwrap() as i64;
    let text = format_countdown_at(reset, s, start);
    assert_eq!((delay, text.as_str()), (1701, "2h"));
    let last = Timestamp::new(100 + delay - 1, 250_000_000).unwrap();
    let between = Timestamp::new(100 + delay / 2, 999_999_999).unwrap();
    let after = Timestamp::new(100 + delay - 1, 250_000_001).unwrap();
    assert_eq!(format_countdown_at(reset, s, last), text);
    assert_eq!(format_countdown_at(reset, s, between), text);
    assert_ne!(format_countdown_at(reset, s, after), text);
}

#[test]
fn no_change_comes_without_a_future_reset() {
    assert_eq!(time_until_display_change_at(None, at(0)), None);
    assert_eq!(time_until_display_change_at(Some(at(99)), at(100)), None);
    assert_eq!(time_until_display_change_at(Some(at(165)), at(100)), Some(6));
    assert_eq!(time_until_display_change(None), None);
    assert_eq!(time_until_display_change(Some(at(5))), None);
    let far = at(now().unix_secs() + 3 * 86400 + 7200);
    let delay = time_until_display_change(Some(far)).unwrap();
    assert!(7190 <= delay && delay <= 7201);
}

#[test]
fn lines_show_what_remains() {
    let s = strings();
    let mut section =
        UsageSection { percentage: percent(58), resets_at: None, limit_window_seconds: None };
    assert_eq!(format_line_at(&section, s, at(0)), "58%");
    assert_eq!(format_line(&section, s), "58%");
    section.resets_at = Some(at(10900));
    assert_eq!(format_line_at(&section, s, at(100)), "58% \u{b7} 3h");
    assert_eq!(format_line_at(&section, s, at(20000)), "58% \u{b7} now");
    assert_eq!(format_line(&section, s), "58% \u{b7} now");
}

#[test]
fn labels_follow_the_window_length() {
    let s = strings();
    let label = |secs: Option<u64>| {
        let section =
            UsageSection { percentage: percent(1), resets_at: None, limit_window_seconds: secs };
        window_label(&section, s)
    };
    assert_eq!(label(Some(18000)), "5h");
    assert_eq!(label(Some(604800)), "7d");
    assert_eq!(label(Some(86400)), "1d");
    assert_eq!(label(Some(7200)), "2h");
    assert_eq!(label(None), "--");
}

#[test]
fn one_passed_reset_is_enough() {
    let section = |reset: Option<i64>| UsageSection {
        percentage: percent(1),
        resets_at: reset.map(at),
        limit_window_seconds: None,
    };
    let data = UsageData { windows: vec![section(None), section(Some(100))] };
    assert!(!is_past_reset_at(&data, at(99)));
    assert!(is_past_reset_at(&data, at(100)));
    assert!(is_past_reset_at(&data, at(101)));
    assert!(is_past_reset(&data));
    assert!(!is_past_reset_at(&UsageData { windows: vec![] }, at(0)));
    assert!(!is_past_reset(&UsageData { windows: vec![section(None)] }));
}

#[test]
fn defaults_mean_nothing_used() {
    let section = UsageSection::default();
    assert_eq!(section.percentage.remaining(), PLACE_OF_100);
    assert_eq!(section.percentage.remaining_whole(), 100);
    assert_eq!(section.percentage.used(), 0);
    assert!(section.resets_at.is_none());
    assert!(UsageData::default().windows.is_empty());
    assert_eq!(100f64.to_bits(), PLACE_OF_100 as u64);
}

#[test]
fn places_keep_the_order_of_doubles() {
    let ordered = [
        f64::NEG_INFINITY, f64::MIN, -100.0, -1.0, -f64::MIN_POSITIVE, -0.0, 0.0,
        f64::MIN_POSITIVE, 0.5, 1.0, 99.5, 100.0, f64::MAX, f64::INFINITY,
    ];
    for (i, a) in ordered.iter().enumerate() {
        assert_eq!(bits_at(place_of(a.to_bits())), a.to_bits());
        for b in &ordered[i + 1..] {
            assert!(place_of(a.to_bits()) < place_of(b.to_bits()), "{} {}", a, b);
        }
    }
    assert_eq!(place_of(0.0f64.to_bits()), 0);
    assert_eq!(place_of((-0.0f64).to_bits()), -1);
    assert_eq!(place_of(100.0f64.to_bits()), PLACE_OF_100);
    assert_eq!(bits_at(i64::MIN), u64::MAX);
}

#[test]
fn the_user_profile_comes_before_the_home_directory() {
    let dir = |name: &str| Some(name.to_string());
    assert_eq!(profile_directory(dir("p"), dir("h")), dir("p"));
    assert_eq!(profile_directory(None, dir("h")), dir("h"));
    assert_eq!(profile_directory(dir("p"), None), dir("p"));
    assert_eq!(profile_directory(None, None), None);
}

#[test]
fn percentages_have_to_fit_together() {
    let place = |f: f64| f.to_bits() as i64;
    for used in [0.0f64, 0.4, 1.0, 42.5, 99.6, 99.999999, 100.0, 250.0] {
        let remaining = (100.0 - used.clamp(0.0, 100.0)).clamp(0.0, 100.0);
        let whole = format!("{:.0}", remaining).parse::<u32>().unwrap();
        let made = Percent::new(place(used), place(remaining), whole).unwrap();
        assert_eq!(made.remaining_whole(), whole);
        assert_eq!((made.used(), made.remaining()), (place(used), place(remaining)));
    }
    assert_eq!(Percent::new(-5, PLACE_OF_100, 100).map(|p| p.used()), Some(-5));
    assert!(Percent::new(1, -1, 0).is_none());
    assert!(Percent::new(1, PLACE_OF_100 + 1, 100).is_none());
    assert!(Percent::new(1, 5, 101).is_none());
    assert!(Percent::new(0, 5, 1).is_none());
    assert!(Percent::new(PLACE_OF_100, 5, 1).is_none());
    assert!(Percent::new(1, PLACE_OF_100, 99).is_none());
    assert!(Percent::new(1, 0, 1).is_none());
}

// The service

#[test]
fn tokens_need_an_access_token() {
    assert!(parse_codex_tokens(None).is_none());
    assert!(parse_codex_tokens(Some(CodexAuth { tokens: None })).is_none());
    let no_access = CodexTokens {
        access_token: None,
        refresh_token: Some("r".to_string()),
        account_id: None,
    };
    assert!(parse_codex_tokens(Some(CodexAuth { tokens: Some(no_access) })).is_none());
    let found = parse_codex_tokens(Some(CodexAuth { tokens: Some(tokens("a", Some("r"))) }));
    assert_eq!(found.unwrap().access_token.as_deref(), Some("a"));
}

#[test]
fn usage_is_asked_for_with_the_token() {
    let request = usage_request("tok", &Some("acc".to_string()));
    assert_eq!(request.url, "https://chatgpt.com/backend-api/wham/usage");
    assert!(request.body.is_none());
    assert_eq!(header(&request, "Authorization").as_deref(), Some("Bearer tok"));
    assert_eq!(header(&request, "Accept").as_deref(), Some("application/json"));
    assert_eq!(header(&request, "User-Agent").as_deref(), Some(USER_AGENT));
    assert_eq!(header(&request, "chatgpt-account-id").as_deref(), Some("acc"));
    assert_eq!(request.headers.len(), 4);
    assert_eq!(usage_request("tok", &None).headers.len(), 3);
    assert_eq!(usage_request("tok", &Some(String::new())).headers.len(), 3);
}

#[test]
fn refresh_sends_a_form() {
    let request = refresh_request("a/b c");
    assert_eq!(request.url, "https://auth.openai.com/oauth/token");
    assert_eq!(
        request.body.as_deref(),
        Some("grant_type=refresh_token&refresh_token=a%2Fb%20c&client_id=app_EMoamEEZ73f0CkXaXp7hrann")
    );
    assert_eq!(
        header(&request, "Content-Type").as_deref(),
        Some("application/x-www-form-urlencoded")
    );
    assert_eq!(request.headers.len(), 1);
}

#[test]
fn answers_become_windows_in_order() {
    let data = codex_usage_response_to_data(response(Some(1), Some(2))).unwrap();
    assert_eq!(wholes(&data), vec![1, 2]);
    assert_eq!(data.windows[0].resets_at, Some(at(1000)));
    assert_eq!(data.windows[1].resets_at, None);
    assert_eq!(data.windows[0].limit_window_seconds, Some(18000));
    assert_eq!(wholes(&codex_usage_response_to_data(response(None, Some(2))).unwrap()), vec![2]);
    assert!(codex_usage_response_to_data(response(None, None)).unwrap().windows.is_empty());
    let empty = CodexUsageResponse { rate_limit: None };
    assert_eq!(codex_usage_response_to_data(empty).unwrap_err(), PollError::RequestFailed);
}

#[test]
fn replies_about_usage_are_read() {
    assert_eq!(wholes(&usage_result(Reply::Answered(Some(response(Some(9), None)))).unwrap()), vec![9]);
    assert_eq!(usage_result(Reply::Answered(None)).unwrap_err(), PollError::RequestFailed);
    assert_eq!(usage_result(Reply::Refused(401)).unwrap_err(), PollError::AuthRequired);
    assert_eq!(usage_result(Reply::Refused(403)).unwrap_err(), PollError::AuthRequired);
    assert_eq!(usage_result(Reply::Refused(500)).unwrap_err(), PollError::RequestFailed);
    assert_eq!(usage_result(Reply::Failed).unwrap_err(), PollError::RequestFailed);
}

#[test]
fn replies_about_tokens_are_read() {
    let answer = CodexRefreshResponse { access_token: "new".to_string() };
    assert_eq!(refresh_result(Reply::Answered(Some(answer))).unwrap(), "new");
    assert_eq!(refresh_result(Reply::Answered(None)).unwrap_err(), PollError::RequestFailed);
    assert_eq!(refresh_result(Reply::Refused(401)).unwrap_err(), PollError::TokenExpired);
    assert_eq!(refresh_result(Reply::Refused(403)).unwrap_err(), PollError::TokenExpired);
    assert_eq!(refresh_result(Reply::Refused(404)).unwrap_err(), PollError::RequestFailed);
    assert_eq!(refresh_result(Reply::Failed).unwrap_err(), PollError::RequestFailed);
}

// Whole polls

#[test]
fn a_poll_with_windows_credentials_asks_the_service() {
    let (phase, action) = poll_codex();
    assert!(matches!(action, PollAction::ReadWindowsTokens));
    let (phase, action) = poll_step(phase, PollEvent::Tokens(Some(tokens("tok", None))));
    let request = match action {
        PollAction::FetchUsage(request) => request,
        other => panic!("{:?}", other),
    };
    assert_eq!(header(&request, "Authorization").as_deref(), Some("Bearer tok"));
    let reply = Reply::Answered(Some(response(Some(40), Some(80))));
    let (phase, action) = poll_step(phase, PollEvent::Usage(reply));
    assert!(matches!(phase, PollPhase::Done));
    match action {
        PollAction::Finish(Ok(data)) => assert_eq!(wholes(&data), vec![40, 80]),
        other => panic!("{:?}", other),
    }
}

#[test]
fn a_refused_token_is_refreshed_once() {
    let (phase, _) = poll_codex();
    let (phase, _) = poll_step(phase, PollEvent::Tokens(Some(tokens("old", Some("ref")))));
    let (phase, action) = poll_step(phase, PollEvent::Usage(Reply::Refused(401)));
    match action {
        PollAction::RefreshToken(request) => {
            assert!(request.body.unwrap().contains("refresh_token=ref&"));
        }
        other => panic!("{:?}", other),
    }
    let answer = CodexRefreshResponse { access_token: "new".to_string() };
    let (phase, action) = poll_step(phase, PollEvent::Refresh(Reply::Answered(Some(answer))));
    match action {
        PollAction::FetchUsage(request) => {
            assert_eq!(header(&request, "Authorization").as_deref(), Some("Bearer new"));
            assert_eq!(header(&request, "chatgpt-account-id").as_deref(), Some("acc"));
        }
        other => panic!("{:?}", other),
    }
    let (_, action) = poll_step(phase, PollEvent::Usage(Reply::Refused(401)));
    assert!(matches!(action, PollAction::ListDistros));
}

#[test]
fn without_a_refresh_token_the_distributions_are_asked() {
    let (phase, _) = poll_codex();
    let (phase, _) = poll_step(phase, PollEvent::Tokens(Some(tokens("old", None))));
    let (phase, action) = poll_step(phase, PollEvent::Usage(Reply::Refused(403)));
    assert!(matches!(action, PollAction::ListDistros));
    let (_, action) = poll_step(phase, PollEvent::Distros(vec![]));
    assert!(matches!(action, PollAction::Finish(Err(PollError::NoCredentials))));
}

#[test]
fn credentials_are_looked_for_in_order() {
    let distros = || vec!["Ubuntu".to_string(), "Debian".to_string()];
    let (phase, _) = poll_codex();
    let (phase, action) = poll_step(phase, PollEvent::Tokens(None));
    assert!(matches!(action, PollAction::ListDistros));
    let (phase, action) = poll_step(phase, PollEvent::Distros(distros()));
    match action {
        PollAction::ListHomes(path) => assert_eq!(path, "\\\\wsl$\\Ubuntu\\home"),
        other => panic!("{:?}", other),
    }
    let (phase, action) = poll_step(phase, PollEvent::Homes(None));
    match action {
        PollAction::ListHomes(path) => assert_eq!(path, "\\\\wsl$\\Debian\\home"),
        other => panic!("{:?}", other),
    }
    let homes = vec![Some(false), None, Some(true), Some(true)];
    let (phase, action) = poll_step(phase, PollEvent::Homes(Some(homes)));
    match action {
        PollAction::ReadHomeTokens(distro, home) => {
            assert_eq!((distro.as_str(), home), ("Debian", 2));
        }
        other => panic!("{:?}", other),
    }
    let (phase, action) = poll_step(phase, PollEvent::Tokens(None));
    assert!(matches!(action, PollAction::ReadHomeTokens(_, 3)));
    let (phase, action) = poll_step(phase, PollEvent::Tokens(None));
    assert!(matches!(action, PollAction::ListDistros));
    let (phase, action) = poll_step(phase, PollEvent::Distros(distros()));
    match action {
        PollAction::ReadWslTokens(distro) => assert_eq!(distro, "Ubuntu"),
        other => panic!("{:?}", other),
    }
    let (phase, _) = poll_step(phase, PollEvent::Tokens(None));
    let (_, action) = poll_step(phase, PollEvent::Tokens(Some(tokens("deb", None))));
    match action {
        PollAction::FetchUsage(request) => {
            assert_eq!(header(&request, "Authorization").as_deref(), Some("Bearer deb"));
        }
        other => panic!("{:?}", other),
    }
}

#[test]
fn the_first_distribution_that_answers_counts() {
    let (phase, _) = poll_codex();
    let (phase, _) = poll_step(phase, PollEvent::Tokens(Some(tokens("t", None))));
    let (phase, _) = poll_step(phase, PollEvent::Usage(Reply::Failed));
    let names = vec!["A".to_string(), "B".to_string()];
    let (phase, action) = poll_step(phase, PollEvent::Distros(names));
    assert!(matches!(action, PollAction::FetchWslUsage(_)));
    let (phase, action) = poll_step(phase, PollEvent::WslUsage(WslUsage::NotRun));
    match action {
        PollAction::FetchWslUsage(distro) => assert_eq!(distro, "B"),
        other => panic!("{:?}", other),
    }
    let answer = WslUsage::Answered(response(None, Some(12)));
    let (_, action) = poll_step(phase, PollEvent::WslUsage(answer));
    match action {
        PollAction::Finish(Ok(data)) => assert_eq!(wholes(&data), vec![12]),
        other => panic!("{:?}", other),
    }
}

#[test]
fn requests_go_to_the_service_alone() {
    let (phase, _) = poll_codex();
    let (phase, first) = poll_step(phase, PollEvent::Tokens(Some(tokens("t", Some("r")))));
    let (phase, second) = poll_step(phase, PollEvent::Usage(Reply::Refused(403)));
    let answer = CodexRefreshResponse { access_token: "n".to_string() };
    let (_, third) = poll_step(phase, PollEvent::Refresh(Reply::Answered(Some(answer))));
    for (action, url) in [
        (first, "https://chatgpt.com/backend-api/wham/usage"),
        (second, "https://auth.openai.com/oauth/token"),
        (third, "https://chatgpt.com/backend-api/wham/usage"),
    ] {
        match action {
            PollAction::FetchUsage(request) | PollAction::RefreshToken(request) => {
                assert_eq!(request.url, url);
            }
            other => panic!("{:?}", other),
        }
    }
}

#[test]
fn a_poll_fails_when_no_distribution_answers() {
    let (phase, _) = poll_codex();
    let (phase, _) = poll_step(phase, PollEvent::Tokens(Some(tokens("t", None))));
    let (phase, _) = poll_step(phase, PollEvent::Usage(Reply::Answered(None)));
    let (phase, _) = poll_step(phase, PollEvent::Distros(vec!["A".to_string()]));
    let failed = WslUsage::Failed("exit code: 2".to_string());
    let (phase, action) = poll_step(phase, PollEvent::WslUsage(failed));
    assert!(matches!(phase, PollPhase::Done));
    assert!(matches!(action, PollAction::Finish(Err(PollError::RequestFailed))));
}
