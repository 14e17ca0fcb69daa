use codex_windows_taskbar::compact::{
    compact_codex_text, compact_countdown, compact_percent, compact_provider_text,
};
use codex_windows_taskbar::text::{
    chars_of, eq_ignore_ascii_case, join, len_without_trailing, parse_u32, push_decimal,
    push_padded_decimal, split_lines, split_words, trim,
};
use codex_windows_taskbar::url::url_encode;

fn owned(parts: &[&str]) -> Vec<String> {
    parts.iter().map(|p| p.to_string()).collect()
}

#[test]
fn decimal_numbers_are_written() {
    let mut out = String::from("n=");
    push_decimal(&mut out, 0);
    push_decimal(&mut out, 120);
    push_decimal(&mut out, u64::MAX);
    assert_eq!(out, format!("n=0120{}", u64::MAX));
}

#[test]
fn padded_numbers_are_written() {
    let mut out = String::new();
    push_padded_decimal(&mut out, 7, 2, '0');
    push_padded_decimal(&mut out, 42, 3, ' ');
    push_padded_decimal(&mut out, 1234, 3, ' ');
    assert_eq!(out, "07 421234");
}

#[test]
fn unsigned_numbers_are_parsed_like_std() {
    for text in [
        "0", "7", "+7", "007", "4294967295", "4294967296", "", "+", "-1", "++1", "1a", " 1", "99%",
    ] {
        assert_eq!(parse_u32(&chars_of(text)), text.parse::<u32>().ok(), "{}", text);
    }
}

#[test]
fn white_space_is_trimmed_like_std() {
    for text in ["", " ", "a", " a b \t", "\u{a0}x\u{2003}", "\r\n", "\u{200b}a", "\u{85}b\u{1680}"] {
        assert_eq!(trim(text), text.trim(), "{:?}", text);
    }
}

#[test]
fn lines_are_split_like_std() {
    for text in ["", "\n", "a", "a\n", "a\nb", "a\r\nb\r", "a\n\nb\n\n", "\r\n", "\r", "a\rb\r\r\n"] {
        let expected: Vec<String> = text.lines().map(|l| l.to_string()).collect();
        assert_eq!(split_lines(text), expected, "{:?}", text);
    }
}

#[test]
fn words_are_split_like_std() {
    for text in ["", "  ", "a", " a  b\tc ", "58% \u{b7} 3h", "\u{3000}x\u{2028}y"] {
        let expected: Vec<String> = text.split_whitespace().map(|w| w.to_string()).collect();
        assert_eq!(split_words(text), expected, "{:?}", text);
    }
}

#[test]
fn parts_are_joined() {
    assert_eq!(join(&owned(&[]), ", "), "");
    assert_eq!(join(&owned(&["a"]), ", "), "a");
    assert_eq!(join(&owned(&["a", "", "c"]), " | "), "a |  | c");
}

#[test]
fn trailing_characters_are_counted_off() {
    assert_eq!(len_without_trailing(&chars_of("58%%"), '%'), 2);
    assert_eq!(len_without_trailing(&chars_of("%5"), '%'), 2);
    assert_eq!(len_without_trailing(&chars_of("%%"), '%'), 0);
}

#[test]
fn ascii_case_is_ignored_and_no_other() {
    let a = chars_of("C:\\Program Files\\\u{c4}.EXE\0");
    assert!(eq_ignore_ascii_case(&a, a.len() - 1, &chars_of("c:\\program files\\\u{c4}.exe")));
    assert!(!eq_ignore_ascii_case(&a, a.len() - 1, &chars_of("c:\\program files\\\u{e4}.exe")));
    assert!(!eq_ignore_ascii_case(&a, a.len(), &chars_of("c:\\program files\\\u{c4}.exe")));
    for (x, y) in [("@", "`"), ("[", "{"), ("Az", "aZ"), ("", "")] {
        assert_eq!(
            eq_ignore_ascii_case(&chars_of(x), x.len(), &chars_of(y)),
            x.eq_ignore_ascii_case(y)
        );
    }
}

#[test]
fn unreserved_bytes_are_kept() {
    let kept = "ABCXYZabcxyz0189-_.~";
    assert_eq!(url_encode(kept), kept);
    assert_eq!(url_encode(""), "");
}

#[test]
fn other_bytes_are_escaped() {
    assert_eq!(url_encode("a b&c=d/e+f%"), "a%20b%26c%3Dd%2Fe%2Bf%25");
    assert_eq!(url_encode("\u{e9}\u{20ac}\0\u{7f}"), "%C3%A9%E2%82%AC%00%7F");
}

#[test]
fn different_values_have_different_encodings() {
    assert_ne!(url_encode("a b"), url_encode("a%20b"));
    assert_eq!(url_encode("a%20b"), "a%2520b");
}

#[test]
fn escapes_are_two_capital_digits() {
    let text: String = (1u8..=127).map(|b| b as char).chain("\u{e9}\u{ffff}".chars()).collect();
    let encoded: Vec<char> = url_encode(&text).chars().collect();
    for (i, c) in encoded.iter().enumerate() {
        if *c == '%' {
            let digits: String = encoded[i + 1..i + 3].iter().collect();
            assert!(digits.chars().all(|d| "0123456789ABCDEF".contains(d)));
            let byte = u8::from_str_radix(&digits, 16).unwrap();
            assert!(!(byte.is_ascii_alphanumeric() || b"-_.~".contains(&byte)));
        } else {
            assert!(c.is_ascii_alphanumeric() || "-_.~".contains(*c));
        }
    }
}

#[test]
fn percent_is_the_first_word() {
    assert_eq!(compact_percent("58% \u{b7} 3h").as_deref(), Some(" 58%"));
    assert_eq!(compact_percent("100%").as_deref(), Some("100%"));
    assert_eq!(compact_percent("0").as_deref(), Some("  0%"));
    assert_eq!(compact_percent("1234%%").as_deref(), Some("1234%"));
    assert_eq!(compact_percent("--"), None);
    assert_eq!(compact_percent("..."), None);
    assert_eq!(compact_percent(""), None);
    assert_eq!(compact_percent("-5%"), None);
    assert_eq!(compact_percent("4294967296%"), None);
}

#[test]
fn countdown_is_what_follows_the_second_word() {
    assert_eq!(compact_countdown("58% \u{b7} 3h").as_deref(), Some("3h"));
    assert_eq!(compact_countdown("58% \u{b7}  3  Std.").as_deref(), Some("3 Std."));
    assert_eq!(compact_countdown("58% \u{b7}"), None);
    assert_eq!(compact_countdown("58%"), None);
}

#[test]
fn provider_text_has_its_countdown_on_request() {
    assert_eq!(compact_provider_text("7% \u{b7} 12m", true).as_deref(), Some("  7% 12m"));
    assert_eq!(compact_provider_text("7% \u{b7} 12m", false).as_deref(), Some("  7%"));
    assert_eq!(compact_provider_text("7%", true).as_deref(), Some("  7%"));
    assert_eq!(compact_provider_text("-- \u{b7} 12m", true), None);
}

#[test]
fn short_text_falls_back_to_dashes() {
    assert_eq!(compact_codex_text("42% \u{b7} 6d"), " 42% 6d");
    assert_eq!(compact_codex_text("..."), "--");
    assert_eq!(compact_codex_text("--"), "--");
    assert_eq!(compact_codex_text(""), "--");
}

#[test]
fn short_texts_line_up() {
    for (text, short) in [
        ("7% \u{b7} 3h", "  7% 3h"),
        ("42% \u{b7} 3h", " 42% 3h"),
        ("100% \u{b7} 3 Std.", "100% 3 Std."),
    ] {
        assert_eq!(compact_codex_text(text), short);
        assert_eq!(&short[3..5], "% ");
    }
}
