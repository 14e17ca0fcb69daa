use codex_windows_taskbar::codex::{CodexRateLimit, CodexUsageResponse};
use codex_windows_taskbar::startup::{
    is_startup_enabled, set_startup_enabled, StartupChange, STARTUP_REGISTRY_PATH,
};
use codex_windows_taskbar::wsl::{
    credentials_arguments, credentials_text, decode_utf16le, decode_wsl_text, home_root,
    list_arguments, list_wsl_distros, looks_like_utf16le, pause, units_in, usage_arguments,
    wait_step, wsl_usage_result, ChildStatus, CommandOutput, WaitAction, WslUsage, USAGE_SCRIPT,
};

fn le(text: &str) -> Vec<u8> {
    text.encode_utf16().flat_map(|u| u.to_le_bytes()).collect()
}

fn wide(text: &str) -> Vec<u16> {
    text.encode_utf16().collect()
}

#[test]
fn nul_bytes_tell_utf16() {
    assert!(looks_like_utf16le(&le("Ubuntu")));
    assert!(!looks_like_utf16le(b"Ubuntu"));
    assert!(!looks_like_utf16le(b""));
    assert!(!looks_like_utf16le(b"a"));
    assert!(looks_like_utf16le(&[65, 0, 66, 67]));
    assert!(!looks_like_utf16le(&[65, 0, 66, 67, 68, 69]));
    let mut long = le(&"a".repeat(64));
    long.extend_from_slice(&[1u8; 400]);
    assert!(looks_like_utf16le(&long));
}

#[test]
fn utf16_is_decoded_with_and_without_mark() {
    let mut marked = vec![0xff, 0xfe];
    marked.extend(le("\u{4e2d}\u{6587}\u{1f600}"));
    assert_eq!(decode_utf16le(&marked).as_deref(), Some("\u{4e2d}\u{6587}\u{1f600}"));
    assert_eq!(decode_utf16le(&le("Debian")).as_deref(), Some("Debian"));
    assert_eq!(decode_utf16le(&le("\u{4e2d}\u{6587}")), None);
    assert_eq!(decode_utf16le(b"abc"), None);
    assert_eq!(decode_utf16le(b""), None);
    assert_eq!(decode_utf16le(&[0xff, 0xfe]).as_deref(), Some(""));
}

#[test]
fn lone_surrogates_are_replaced() {
    let bytes = [0xff, 0xfe, 0x00, 0xd8, 0x41, 0x00, 0x00, 0xdc];
    assert_eq!(decode_utf16le(&bytes).as_deref(), Some("\u{fffd}A\u{fffd}"));
}

#[test]
fn other_bytes_are_read_as_utf8() {
    assert_eq!(decode_wsl_text(b""), "");
    assert_eq!(decode_wsl_text("Ubuntu-\u{e9}".as_bytes()), "Ubuntu-\u{e9}");
    assert_eq!(decode_wsl_text(&[b'a', 0xff, b'b']), "a\u{fffd}b");
    for text in ["ab", "\u{4e2d}\u{6587}", "x\u{1f600}y\n", "\u{ff}\u{fe}"] {
        assert_eq!(decode_wsl_text(text.as_bytes()), text);
    }
    assert_eq!(decode_wsl_text(&le("Ubuntu")), "Ubuntu");
}

#[test]
fn distributions_are_listed() {
    let output = |success: bool, stdout: Vec<u8>| Some(CommandOutput { success, stdout });
    let listing = le("Ubuntu\r\n  Debian \r\n\r\n docker-desktop\r\n");
    assert_eq!(
        list_wsl_distros(&output(true, listing.clone())),
        vec!["Ubuntu", "Debian", "docker-desktop"]
    );
    assert!(list_wsl_distros(&output(false, listing)).is_empty());
    assert!(list_wsl_distros(&None).is_empty());
    assert!(list_wsl_distros(&output(true, b" \n\t\n".to_vec())).is_empty());
}

#[test]
fn credentials_have_to_be_utf8() {
    let output = |success: bool, stdout: &[u8]| Some(CommandOutput { success, stdout: stdout.to_vec() });
    assert_eq!(credentials_text(output(true, "{\"\u{e9}\"}".as_bytes())).as_deref(), Some("{\"\u{e9}\"}"));
    assert_eq!(credentials_text(output(true, &[0x7b, 0xff])), None);
    assert_eq!(credentials_text(output(false, b"{}")), None);
    assert_eq!(credentials_text(None), None);
}

#[test]
fn commands_are_written() {
    assert_eq!(list_arguments(), vec!["-l", "-q"]);
    assert_eq!(
        credentials_arguments("Ubuntu"),
        vec!["-d", "Ubuntu", "--", "sh", "-lc", "cat ~/.codex/auth.json"]
    );
    assert_eq!(
        usage_arguments("Ubuntu"),
        vec!["-d", "Ubuntu", "--", "python3", "-c", USAGE_SCRIPT]
    );
    assert!(USAGE_SCRIPT.starts_with("\nimport json\n"));
    assert!(USAGE_SCRIPT.ends_with("print(resp.read().decode(\"utf-8\"))\n"));
    assert_eq!(home_root("Ubuntu"), r"\\wsl$\Ubuntu\home");
}

#[test]
fn children_are_waited_for_until_the_deadline() {
    let limit = 5_000_000_000;
    assert_eq!(wait_step(ChildStatus::Exited, 6_000_000_000, limit), WaitAction::Collect);
    assert_eq!(wait_step(ChildStatus::Running, limit, limit), WaitAction::Sleep);
    assert_eq!(wait_step(ChildStatus::Running, limit + 1, limit), WaitAction::Kill);
    assert_eq!(wait_step(ChildStatus::Unknown, 0, limit), WaitAction::GiveUp);
}

#[test]
fn pauses_end_with_the_deadline() {
    let limit = 5_000_000_000;
    assert_eq!(pause(0, limit), 100_000_000);
    assert_eq!(pause(limit - 100_000_000, limit), 100_000_000);
    assert_eq!(pause(limit - 99_999_999, limit), 100_000_000);
    assert_eq!(pause(limit - 99_999_998, limit), 99_999_999);
    assert_eq!(pause(limit - 1, limit), 2);
    assert_eq!(pause(limit, limit), 1);
    assert_eq!(pause(limit + 1, limit), 100_000_000);
    assert_eq!(pause(0, u128::MAX), 100_000_000);
}

#[test]
fn children_that_exceed_the_deadline_are_killed() {
    let limit = 5_000_000_000;
    let outcome = |end: u128, first_look: u128| {
        let mut elapsed = first_look;
        loop {
            let status =
                if end < elapsed { ChildStatus::Exited } else { ChildStatus::Running };
            match wait_step(status, elapsed, limit) {
                WaitAction::Sleep => elapsed += pause(elapsed, limit),
                action => return action,
            }
        }
    };
    for first_look in [0, 7, 99_999_999, 4_950_000_000, limit] {
        assert_eq!(outcome(3_000_000_000, first_look), WaitAction::Collect);
        assert_eq!(outcome(limit, first_look), WaitAction::Collect);
        assert_eq!(outcome(limit + 1, first_look), WaitAction::Kill);
        assert_eq!(outcome(limit + 30_000_000, first_look), WaitAction::Kill);
    }
}

#[test]
fn usage_from_inside_is_read() {
    let empty = || CodexUsageResponse {
        rate_limit: Some(CodexRateLimit { primary_window: None, secondary_window: None }),
    };
    assert!(wsl_usage_result(WslUsage::Answered(empty())).unwrap().windows.is_empty());
    let message = |usage: WslUsage| wsl_usage_result(usage).unwrap_err();
    assert_eq!(message(WslUsage::NotRun), "wsl.exe/python3 timed out or failed to start");
    assert_eq!(message(WslUsage::Failed("exit code: 2".to_string())), "status exit code: 2");
    assert_eq!(
        message(WslUsage::Unreadable("EOF".to_string())),
        "invalid JSON from WSL Codex usage fetch: EOF"
    );
    assert_eq!(
        message(WslUsage::Answered(CodexUsageResponse { rate_limit: None })),
        "RequestFailed"
    );
}

#[test]
fn units_are_put_together() {
    assert_eq!(units_in(&[0x41, 0x00, 0x34, 0x12, 0x99]), vec![0x0041, 0x1234]);
    assert!(units_in(&[7]).is_empty());
}

#[test]
fn startup_value_has_to_name_the_file() {
    let exe = wide("C:\\Apps\\codex.exe");
    let value = |text: &str| Some(le(text));
    assert!(is_startup_enabled(&value("C:\\Apps\\codex.exe\0"), &exe));
    assert!(is_startup_enabled(&value("c:\\APPS\\Codex.EXE\0\0"), &exe));
    assert!(is_startup_enabled(&value("C:\\Apps\\codex.exe"), &exe));
    assert!(!is_startup_enabled(&value("C:\\Apps\\codex.exe.bak\0"), &exe));
    assert!(!is_startup_enabled(&value("\"C:\\Apps\\codex.exe\"\0"), &exe));
    assert!(!is_startup_enabled(&value("\0"), &exe));
    assert!(!is_startup_enabled(&value(""), &exe));
    assert!(!is_startup_enabled(&None, &exe));
    assert!(!is_startup_enabled(&value(""), &vec![]));
    assert_eq!(STARTUP_REGISTRY_PATH, r"Software\Microsoft\Windows\CurrentVersion\Run");
}

#[test]
fn what_startup_writes_is_read_back() {
    for name in ["C:\\a.exe", "C:\\\u{dc}ber\\\u{1f600}.exe"] {
        let exe = wide(name);
        match set_startup_enabled(true, &exe) {
            StartupChange::Write(bytes) => {
                assert_eq!(bytes, le(&format!("{}\0", name)));
                assert!(is_startup_enabled(&Some(bytes), &exe));
            }
            other => panic!("{:?}", other),
        }
    }
    assert!(matches!(set_startup_enabled(true, &vec![]), StartupChange::Keep));
    assert!(matches!(set_startup_enabled(false, &wide("x")), StartupChange::Delete));
}
