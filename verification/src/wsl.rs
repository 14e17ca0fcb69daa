//! The Windows Subsystem for Linux: the commands that are run in it, and what
//! their output means.
use vstd::prelude::*;
use vstd::slice::slice_subrange;
use vstd::utf8::{
    decode_utf8, encode_scalar, encode_utf8, encode_utf8_decode_utf8, encode_utf8_valid_utf8,
    last_continuation_byte, leading_byte_width_1, leading_byte_width_2, leading_byte_width_3,
    leading_byte_width_4, second_last_continuation_byte, third_last_continuation_byte, valid_utf8,
};

use crate::codex::{
    codex_usage_response_to_data, usage_of_response, CodexUsageResponse, CODEX_USAGE_URL, USER_AGENT,
};
use crate::models::{SectionView, UsageData};
use crate::text::{
    copy, is_white_space, lemma_trimmed, lines, split_lines, texts, trim, trimmed,
};

verus! {

// ---------------------------------------------------------------------------
// Text in an unknown encoding
// ---------------------------------------------------------------------------

/// Whether a UTF-16 unit is the first half of a surrogate pair.
pub open spec fn is_high_surrogate(u: u16) -> bool {
    0xd800 <= u <= 0xdbff
}

/// Whether a UTF-16 unit is the second half of a surrogate pair.
pub open spec fn is_low_surrogate(u: u16) -> bool {
    0xdc00 <= u <= 0xdfff
}

/// The character that a surrogate pair stands for.
pub open spec fn paired(high: u16, low: u16) -> char {
    (0x10000 + (high - 0xd800) * 0x400 + (low - 0xdc00)) as char
}

/// The text of a sequence of UTF-16 units, with U+FFFD for each surrogate that
/// is not part of a pair.
pub open spec fn utf16_lossy(units: Seq<u16>) -> Seq<char>
    decreases units.len(),
{
    if units.len() == 0 {
        Seq::empty()
    } else if is_high_surrogate(units[0]) && units.len() > 1 && is_low_surrogate(units[1]) {
        seq![paired(units[0], units[1])] + utf16_lossy(units.skip(2))
    } else if is_high_surrogate(units[0]) || is_low_surrogate(units[0]) {
        seq!['\u{fffd}'] + utf16_lossy(units.skip(1))
    } else {
        seq![units[0] as char] + utf16_lossy(units.skip(1))
    }
}

/// `String::from_utf16_lossy`: decodes UTF-16, replacing each surrogate
/// without a partner with U+FFFD.
#[verifier::external_body]
pub(crate) fn decode_utf16(units: &Vec<u16>) -> (r: String)
    ensures
        r@ == utf16_lossy(units@),
{
    String::from_utf16_lossy(units)
}

/// The text that `String::from_utf8_lossy` makes of a sequence of bytes.
pub uninterp spec fn utf8_lossy(bytes: Seq<u8>) -> Seq<char>;

/// `String::from_utf8_lossy`: decodes UTF-8, replacing what is invalid. Bytes
/// that are valid UTF-8 give the text that they encode.
#[verifier::external_body]
fn decode_utf8_lossy(bytes: &[u8]) -> (r: String)
    ensures
        r@ == utf8_lossy(bytes@),
        valid_utf8(bytes@) ==> r@ == decode_utf8(bytes@),
{
    String::from_utf8_lossy(bytes).into_owned()
}

/// `String::from_utf8`: the text that the bytes encode, if they are valid
/// UTF-8.
#[verifier::external_body]
fn decode_utf8_strict(bytes: Vec<u8>) -> (r: Option<String>)
    ensures
        r is Some <==> valid_utf8(bytes@),
        r matches Some(s) ==> s@ == decode_utf8(bytes@),
{
    String::from_utf8(bytes).ok()
}

/// The UTF-16 units of a sequence of bytes, low byte first.
pub open spec fn units_of(bytes: Seq<u8>) -> Seq<u16> {
    Seq::new(bytes.len() / 2, |i: int| (bytes[2 * i] + 256 * bytes[2 * i + 1]) as u16)
}

/// Puts the bytes of UTF-16 units together, low byte first. A single byte at the
/// end is left out.
pub fn units_in(bytes: &[u8]) -> (r: Vec<u16>)
    ensures
        r@ == units_of(bytes@),
{
    let mut units: Vec<u16> = Vec::new();
    let total: usize = bytes.len();
    let count: usize = total / 2;
    let mut i: usize = 0;
    while i < count
        invariant
            i <= count,
            total == bytes@.len(),
            count == total / 2,
            units@.len() == i,
            forall|k: int| 0 <= k < i ==> #[trigger] units@[k] == units_of(bytes@)[k],
        decreases count - i,
    {
        units.push(bytes[2 * i] as u16 + 256 * bytes[2 * i + 1] as u16);
        i = i + 1;
    }
    assert(units@ =~= units_of(bytes@));
    units
}

/// How many of the first `n` units of `bytes` have a high byte of zero.
pub open spec fn nul_high_bytes(bytes: Seq<u8>, n: nat) -> nat
    decreases n,
{
    if n == 0 {
        0
    } else {
        nul_high_bytes(bytes, (n - 1) as nat) + if bytes[2 * n - 1] == 0 {
            1nat
        } else {
            0nat
        }
    }
}

/// How many units are looked at to guess the encoding.
pub open spec fn sample_units(bytes: Seq<u8>) -> nat {
    if bytes.len() < 128 {
        bytes.len() / 2
    } else {
        64
    }
}

/// Whether at least half of the first units have a high byte of zero.
pub open spec fn seems_utf16le(bytes: Seq<u8>) -> bool {
    sample_units(bytes) > 0 && nul_high_bytes(bytes, sample_units(bytes)) * 2 >= sample_units(bytes)
}

/// Guesses whether bytes without a byte order mark are UTF-16.
pub fn looks_like_utf16le(bytes: &[u8]) -> (r: bool)
    ensures
        r == seems_utf16le(bytes@),
{
    let sample_len: usize = if bytes.len() < 128 {
        bytes.len()
    } else {
        128
    };
    let units: usize = sample_len / 2;
    if units == 0 {
        return false;
    }
    let mut nul_high: usize = 0;
    let mut i: usize = 0;
    while i < units
        invariant
            i <= units,
            units == sample_units(bytes@),
            units <= 64,
            2 * units <= bytes@.len(),
            nul_high == nul_high_bytes(bytes@, i as nat),
            nul_high <= i,
        decreases units - i,
    {
        if bytes[2 * i + 1] == 0 {
            nul_high = nul_high + 1;
        }
        i = i + 1;
    }
    nul_high * 2 >= units
}

/// Whether the bytes start with the byte order mark of UTF-16, low byte first.
pub open spec fn has_mark(bytes: Seq<u8>) -> bool {
    bytes.len() >= 2 && bytes[0] == 0xff && bytes[1] == 0xfe
}

/// The text of bytes that are, or seem to be, UTF-16 with the low byte first.
pub open spec fn utf16le_text(bytes: Seq<u8>) -> Option<Seq<char>> {
    if bytes.len() < 2 || bytes.len() % 2 != 0 {
        None
    } else if has_mark(bytes) {
        Some(utf16_lossy(units_of(bytes.skip(2))))
    } else if seems_utf16le(bytes) {
        Some(utf16_lossy(units_of(bytes)))
    } else {
        None
    }
}

/// Decodes bytes that are, or seem to be, UTF-16 with the low byte first.
pub fn decode_utf16le(bytes: &[u8]) -> (r: Option<String>)
    ensures
        r is Some <==> utf16le_text(bytes@) is Some,
        r matches Some(s) ==> utf16le_text(bytes@) == Some(s@),
{
    if bytes.len() < 2 || bytes.len() % 2 != 0 {
        return None;
    }
    let start: usize = if bytes[0] == 0xff && bytes[1] == 0xfe {
        2
    } else if looks_like_utf16le(bytes) {
        0
    } else {
        return None;
    };
    let body = slice_subrange(bytes, start, bytes.len());
    assert(body@ =~= bytes@.skip(start as int));
    assert(start == 0 ==> body@ =~= bytes@);
    let units = units_in(body);
    Some(decode_utf16(&units))
}

/// The text of bytes in an unknown encoding: UTF-16 if they seem to be that,
/// else UTF-8.
pub open spec fn wsl_text(bytes: Seq<u8>) -> Seq<char> {
    if bytes.len() == 0 {
        Seq::empty()
    } else {
        match utf16le_text(bytes) {
            Some(text) => text,
            None => utf8_lossy(bytes),
        }
    }
}

/// Whether no byte is zero.
pub open spec fn without_nul(bytes: Seq<u8>) -> bool {
    forall|i: int| 0 <= i < bytes.len() ==> #[trigger] bytes[i] != 0
}

proof fn lemma_no_nul_high_bytes(bytes: Seq<u8>, n: nat)
    requires
        without_nul(bytes),
        2 * n <= bytes.len(),
    ensures
        nul_high_bytes(bytes, n) == 0,
    decreases n,
{
    if n > 0 {
        lemma_no_nul_high_bytes(bytes, (n - 1) as nat);
        assert(bytes[2 * n - 1] != 0);
    }
}

/// Valid UTF-8 without a null is never taken for UTF-16.
pub proof fn law_utf8_is_not_taken_for_utf16(bytes: Seq<u8>)
    requires
        valid_utf8(bytes),
        without_nul(bytes),
    ensures
        utf16le_text(bytes) is None,
{
    lemma_no_nul_high_bytes(bytes, sample_units(bytes));
    if bytes.len() > 0 {
        assert(bytes[0] != 0xff);
    }
}

/// Decodes bytes in an unknown encoding.
pub fn decode_wsl_text(bytes: &[u8]) -> (r: String)
    ensures
        r@ == wsl_text(bytes@),
        utf16le_text(bytes@) is None && valid_utf8(bytes@) ==> r@ == decode_utf8(bytes@),
        valid_utf8(bytes@) && without_nul(bytes@) ==> r@ == decode_utf8(bytes@),
{
    proof {
        if valid_utf8(bytes@) && without_nul(bytes@) {
            law_utf8_is_not_taken_for_utf16(bytes@);
        }
    }
    if bytes.len() == 0 {
        assert(decode_utf8(bytes@) =~= Seq::<char>::empty());
        return String::new();
    }
    match decode_utf16le(bytes) {
        Some(decoded) => decoded,
        None => decode_utf8_lossy(bytes),
    }
}

/// The UTF-16 units of a character.
pub open spec fn utf16_units(c: char) -> Seq<u16> {
    let u = c as int;
    if u < 0x10000 {
        seq![u as u16]
    } else {
        seq![(0xd800 + (u - 0x10000) / 0x400) as u16, (0xdc00 + (u - 0x10000) % 0x400) as u16]
    }
}

/// The UTF-16 units of a text.
pub open spec fn utf16(text: Seq<char>) -> Seq<u16>
    decreases text.len(),
{
    if text.len() == 0 {
        Seq::empty()
    } else {
        utf16_units(text[0]) + utf16(text.skip(1))
    }
}

/// The bytes of a sequence of UTF-16 units, low byte first.
pub open spec fn le_bytes(units: Seq<u16>) -> Seq<u8> {
    Seq::new(
        units.len() * 2,
        |i: int|
            if i % 2 == 0 {
                (units[i / 2] % 256) as u8
            } else {
                (units[i / 2] / 256) as u8
            },
    )
}

proof fn lemma_char_range(c: char)
    ensures
        0 <= c as int <= 0x10ffff,
        !(0xd800 <= c as int <= 0xdfff),
{
}

/// Decoding the UTF-16 units of a text gives the text back.
pub proof fn law_utf16_round_trip(text: Seq<char>)
    ensures
        utf16_lossy(utf16(text)) == text,
    decreases text.len(),
{
    if text.len() > 0 {
        let c = text[0];
        let rest = text.skip(1);
        law_utf16_round_trip(rest);
        let units = utf16(text);
        let u = c as int;
        lemma_char_range(c);
        if u < 0x10000 {
            assert(units.skip(1) =~= utf16(rest));
            assert(units[0] as char == c);
        } else {
            assert(units[0] == 0xd800 + (u - 0x10000) / 0x400);
            assert(units[1] == 0xdc00 + (u - 0x10000) % 0x400);
            assert(units.skip(2) =~= utf16(rest));
            assert(paired(units[0], units[1]) == c);
        }
        assert(seq![c] + rest =~= text);
    } else {
        assert(utf16_lossy(utf16(text)) =~= text);
    }
}

/// Reading back the bytes of a sequence of UTF-16 units gives the units.
pub proof fn lemma_units_of_le_bytes(units: Seq<u16>)
    ensures
        units_of(le_bytes(units)) == units,
{
    assert(units_of(le_bytes(units)) =~= units);
}

/// A text that is written as UTF-16 behind a byte order mark is read back as
/// it was.
pub proof fn law_marked_text_is_read_back(text: Seq<char>)
    ensures
        wsl_text(seq![0xffu8, 0xfeu8] + le_bytes(utf16(text))) == text,
{
    let bytes = seq![0xffu8, 0xfeu8] + le_bytes(utf16(text));
    assert(bytes.skip(2) =~= le_bytes(utf16(text)));
    lemma_units_of_le_bytes(utf16(text));
    law_utf16_round_trip(text);
}

proof fn lemma_all_high_bytes_nul(bytes: Seq<u8>, n: nat)
    requires
        2 * n <= bytes.len(),
        forall|i: int| 0 <= i < n ==> #[trigger] bytes[2 * i + 1] == 0,
    ensures
        nul_high_bytes(bytes, n) == n,
    decreases n,
{
    if n > 0 {
        lemma_all_high_bytes_nul(bytes, (n - 1) as nat);
        let i = n - 1;
        assert(bytes[2 * i + 1] == 0);
        assert(2 * i + 1 == 2 * n - 1);
    }
}

proof fn lemma_latin_units(text: Seq<char>)
    requires
        forall|i: int| 0 <= i < text.len() ==> (#[trigger] text[i] as int) < 256,
    ensures
        utf16(text).len() == text.len(),
        forall|i: int| 0 <= i < text.len() ==> #[trigger] utf16(text)[i] == text[i] as u16,
    decreases text.len(),
{
    if text.len() > 0 {
        let rest = text.skip(1);
        assert forall|i: int| 0 <= i < rest.len() implies (#[trigger] rest[i] as int) < 256 by {
            assert(rest[i] == text[i + 1]);
        }
        lemma_latin_units(rest);
        assert((text[0] as int) < 256);
        lemma_char_range(text[0]);
        assert(utf16(text) == utf16_units(text[0]) + utf16(rest));
        assert(utf16_units(text[0]).len() == 1);
        assert forall|i: int| 0 <= i < text.len() implies #[trigger] utf16(text)[i]
            == text[i] as u16 by {
            if i > 0 {
                assert(utf16(text)[i] == utf16(rest)[i - 1]);
                assert(rest[i - 1] == text[i]);
            }
        }
    }
}

proof fn lemma_latin_high_bytes(text: Seq<char>)
    requires
        forall|i: int| 0 <= i < text.len() ==> (#[trigger] text[i] as int) < 256,
    ensures
        le_bytes(utf16(text)).len() == 2 * text.len(),
        forall|i: int| 0 <= i < text.len() ==> #[trigger] le_bytes(utf16(text))[2 * i + 1] == 0,
{
    let units = utf16(text);
    lemma_latin_units(text);
    assert forall|i: int| 0 <= i < text.len() implies #[trigger] le_bytes(units)[2 * i + 1] == 0 by {
        assert((text[i] as int) < 256);
        lemma_char_range(text[i]);
        assert(units[i] == text[i] as u16);
        assert((2 * i + 1) / 2 == i);
    }
}

/// A text of characters below U+0100 that is written as UTF-16 without a mark
/// is recognised and read back as it was.
pub proof fn law_unmarked_text_is_read_back(text: Seq<char>)
    requires
        text.len() > 0,
        forall|i: int| 0 <= i < text.len() ==> (#[trigger] text[i] as int) < 256,
    ensures
        wsl_text(le_bytes(utf16(text))) == text,
{
    let bytes = le_bytes(utf16(text));
    lemma_latin_high_bytes(text);
    lemma_all_high_bytes_nul(bytes, sample_units(bytes));
    assert(bytes[2 * 0int + 1] == 0);
    assert(seems_utf16le(bytes) && !has_mark(bytes));
    lemma_units_of_le_bytes(utf16(text));
    law_utf16_round_trip(text);
}

proof fn lemma_scalar_without_nul(c: u32)
    requires
        c != 0,
    ensures
        without_nul(encode_scalar(c)),
{
    assert(c != 0 && c <= 0x7f ==> leading_byte_width_1(c) != 0) by (bit_vector);
    assert(leading_byte_width_2(c) != 0) by (bit_vector);
    assert(leading_byte_width_3(c) != 0) by (bit_vector);
    assert(leading_byte_width_4(c) != 0) by (bit_vector);
    assert(last_continuation_byte(c) != 0) by (bit_vector);
    assert(second_last_continuation_byte(c) != 0) by (bit_vector);
    assert(third_last_continuation_byte(c) != 0) by (bit_vector);
}

proof fn lemma_text_without_nul(text: Seq<char>)
    requires
        forall|i: int| 0 <= i < text.len() ==> #[trigger] text[i] != '\0',
    ensures
        without_nul(encode_utf8(text)),
    decreases text.len(),
{
    if text.len() > 0 {
        let rest = text.drop_first();
        assert forall|i: int| 0 <= i < rest.len() implies #[trigger] rest[i] != '\0' by {
            assert(rest[i] == text[i + 1]);
        }
        lemma_text_without_nul(rest);
        assert(text[0] != '\0');
        lemma_char_range(text[0]);
        assert(text[0] as u32 != 0);
        lemma_scalar_without_nul(text[0] as u32);
    }
}

/// A text without a null that is written as UTF-8 is read back as it was:
/// its bytes are not taken for UTF-16, and as UTF-8 they are the text.
pub proof fn law_utf8_text_is_read_back(text: Seq<char>)
    requires
        forall|i: int| 0 <= i < text.len() ==> #[trigger] text[i] != '\0',
    ensures
        ({
            let bytes = encode_utf8(text);
            &&& valid_utf8(bytes)
            &&& without_nul(bytes)
            &&& utf16le_text(bytes) is None
            &&& decode_utf8(bytes) == text
        }),
{
    encode_utf8_valid_utf8(text);
    encode_utf8_decode_utf8(text);
    lemma_text_without_nul(text);
    law_utf8_is_not_taken_for_utf16(encode_utf8(text));
}

// ---------------------------------------------------------------------------
// Commands
// ---------------------------------------------------------------------------

/// How long a command may take that lists distributions or reads credentials,
/// in seconds.
pub const PROBE_TIMEOUT_SECS: u64 = 5;

/// How long a command may take that asks for the usage, in seconds.
pub const USAGE_TIMEOUT_SECS: u64 = 20;

/// The program that asks for the usage from inside a distribution.
pub const USAGE_SCRIPT: &'static str = r#"
import json
import pathlib
import urllib.request

auth = json.loads((pathlib.Path.home() / ".codex" / "auth.json").read_text())
tokens = auth.get("tokens") or {}
access_token = tokens.get("access_token")
if not access_token:
    raise SystemExit(2)

headers = {
    "Authorization": "Bearer " + access_token,
    "User-Agent": "Mozilla/5.0 (X11; Linux x86_64; rv:128.0) Gecko/20100101 Firefox/128.0",
    "Accept": "application/json",
}
account_id = tokens.get("account_id")
if account_id:
    headers["chatgpt-account-id"] = account_id

req = urllib.request.Request("https://chatgpt.com/backend-api/wham/usage", headers=headers)
with urllib.request.urlopen(req, timeout=15) as resp:
    print(resp.read().decode("utf-8"))
"#;

/// The arguments that list the distributions.
pub fn list_arguments() -> (r: Vec<String>)
    ensures
        texts(r@) == seq!["-l"@, "-q"@],
{
    let r = vec![copy("-l"), copy("-q")];
    assert(texts(r@) =~= seq!["-l"@, "-q"@]);
    r
}

/// The arguments that print the credentials file of a distribution.
pub fn credentials_arguments(distro: &str) -> (r: Vec<String>)
    ensures
        texts(r@) == seq!["-d"@, distro@, "--"@, "sh"@, "-lc"@, "cat ~/.codex/auth.json"@],
{
    let r = vec![
        copy("-d"),
        copy(distro),
        copy("--"),
        copy("sh"),
        copy("-lc"),
        copy("cat ~/.codex/auth.json"),
    ];
    assert(texts(r@) =~= seq!["-d"@, distro@, "--"@, "sh"@, "-lc"@, "cat ~/.codex/auth.json"@]);
    r
}

/// The arguments that ask for the usage from inside a distribution.
pub fn usage_arguments(distro: &str) -> (r: Vec<String>)
    ensures
        texts(r@) == seq!["-d"@, distro@, "--"@, "python3"@, "-c"@, USAGE_SCRIPT@],
{
    let r = vec![
        copy("-d"),
        copy(distro),
        copy("--"),
        copy("python3"),
        copy("-c"),
        copy(USAGE_SCRIPT),
    ];
    assert(texts(r@) =~= seq!["-d"@, distro@, "--"@, "python3"@, "-c"@, USAGE_SCRIPT@]);
    r
}

/// Where the home directories of a distribution appear in the file system of
/// the host.
pub open spec fn home_path(distro: Seq<char>) -> Seq<char> {
    r"\\wsl$\"@ + distro + r"\home"@
}

/// Where the home directories of a distribution appear in the file system of
/// the host.
pub fn home_root(distro: &str) -> (r: String)
    ensures
        r@ == home_path(distro@),
{
    copy(r"\\wsl$\").concat(distro).concat(r"\home")
}

/// What is known of a child process when it is looked at.
#[derive(Clone, Copy, Debug, PartialEq, Eq, Structural)]
pub enum ChildStatus {
    /// It has ended.
    Exited,
    /// It is still running.
    Running,
    /// Its state could not be found out.
    Unknown,
}

/// What is to be done about a child process.
#[derive(Clone, Copy, Debug, PartialEq, Eq, Structural)]
pub enum WaitAction {
    /// Collect its output.
    Collect,
    /// Look again after a pause.
    Sleep,
    /// Stop it, wait for its end, and go on without its output.
    Kill,
    /// Go on without its output.
    GiveUp,
}

/// What is to be done about a child process `elapsed` after its start, when it
/// may run for `timeout`.
pub open spec fn wait_action(status: ChildStatus, elapsed: int, timeout: int) -> WaitAction {
    match status {
        ChildStatus::Exited => WaitAction::Collect,
        ChildStatus::Running => if elapsed > timeout {
            WaitAction::Kill
        } else {
            WaitAction::Sleep
        },
        ChildStatus::Unknown => WaitAction::GiveUp,
    }
}

/// Decides about a child process `elapsed` after its start, when it may run for
/// `timeout`; both in nanoseconds.
pub fn wait_step(status: ChildStatus, elapsed: u128, timeout: u128) -> (r: WaitAction)
    ensures
        r == wait_action(status, elapsed as int, timeout as int),
{
    match status {
        ChildStatus::Exited => WaitAction::Collect,
        ChildStatus::Running => if elapsed > timeout {
            WaitAction::Kill
        } else {
            WaitAction::Sleep
        },
        ChildStatus::Unknown => WaitAction::GiveUp,
    }
}

/// The usual pause between two looks at a child process, in nanoseconds.
pub const LOOK_PAUSE_NANOS: u128 = 100_000_000;

/// The pause after a look at a child process: the usual one, but no longer than
/// to the first moment past the deadline.
pub open spec fn pause_after(elapsed: int, timeout: int) -> int {
    if elapsed <= timeout && timeout - elapsed < LOOK_PAUSE_NANOS {
        timeout - elapsed + 1
    } else {
        LOOK_PAUSE_NANOS as int
    }
}

/// Finds the pause after a look at a child process `elapsed` after its start,
/// when it may run for `timeout`; all in nanoseconds.
pub fn pause(elapsed: u128, timeout: u128) -> (r: u128)
    ensures
        r == pause_after(elapsed as int, timeout as int),
{
    if elapsed <= timeout && timeout - elapsed < LOOK_PAUSE_NANOS {
        timeout - elapsed + 1
    } else {
        LOOK_PAUSE_NANOS
    }
}

/// How waiting for a child process ends that runs until `end`, when it is looked
/// at `elapsed` after its start and then after each pause.
pub open spec fn wait_outcome(end: int, elapsed: int, timeout: int) -> WaitAction
    decreases timeout + 1 - elapsed,
{
    let status = if end < elapsed {
        ChildStatus::Exited
    } else {
        ChildStatus::Running
    };
    if wait_action(status, elapsed, timeout) == WaitAction::Sleep && elapsed <= timeout {
        wait_outcome(end, elapsed + pause_after(elapsed, timeout), timeout)
    } else {
        wait_action(status, elapsed, timeout)
    }
}

/// A child process that ends within its time is collected, and one that is still
/// running when its time is over is killed: no pause reaches past the deadline,
/// so none that exceeds it is collected, and none is left running.
pub proof fn law_deadline_is_kept(end: int, elapsed: int, timeout: int)
    requires
        elapsed <= timeout,
    ensures
        wait_outcome(end, elapsed, timeout) == (if end <= timeout {
            WaitAction::Collect
        } else {
            WaitAction::Kill
        }),
        elapsed < elapsed + pause_after(elapsed, timeout) <= timeout + 1,
    decreases timeout + 1 - elapsed,
{
    let next = elapsed + pause_after(elapsed, timeout);
    if end >= elapsed && next <= timeout {
        law_deadline_is_kept(end, next, timeout);
    } else if end >= elapsed {
        assert(next == timeout + 1);
        reveal_with_fuel(wait_outcome, 2);
    }
}

/// What a command left behind.
#[derive(Debug)]
pub struct CommandOutput {
    /// Whether it reported success.
    pub success: bool,
    pub stdout: Vec<u8>,
}

/// The lines that are not blank, without the white space around them.
pub open spec fn nonblank(ls: Seq<Seq<char>>) -> Seq<Seq<char>>
    decreases ls.len(),
{
    if ls.len() == 0 {
        Seq::empty()
    } else {
        let before = nonblank(ls.drop_last());
        let line = trimmed(ls.last());
        if line.len() > 0 {
            before.push(line)
        } else {
            before
        }
    }
}

/// The names in a list of distributions, one on each line that is not blank.
pub fn distro_names(text: &str) -> (r: Vec<String>)
    ensures
        texts(r@) == nonblank(lines(text@)),
{
    let ls = split_lines(text);
    let mut out: Vec<String> = Vec::new();
    let mut i: usize = 0;
    let ghost all = lines(text@);
    assert(all.take(0) =~= Seq::<Seq<char>>::empty());
    assert(texts(out@) =~= nonblank(all.take(0)));
    while i < ls.len()
        invariant
            i <= ls@.len(),
            texts(ls@) == all,
            texts(out@) == nonblank(all.take(i as int)),
        decreases ls@.len() - i,
    {
        let ghost before = out@;
        let line = trim(ls[i].as_str());
        proof {
            assert(all.take(i + 1).drop_last() =~= all.take(i as int));
            assert(all.take(i + 1).last() == ls@[i as int]@);
        }
        if !line.as_str().is_empty() {
            out.push(line);
            assert(texts(out@) =~= texts(before).push(line@));
        }
        i = i + 1;
    }
    assert(all.take(all.len() as int) =~= all);
    out
}

/// The names of the distributions that a listing names; none if the command
/// did not run to a successful end.
pub open spec fn listed_distros(output: Option<CommandOutput>) -> Seq<Seq<char>> {
    match output {
        Some(output) if output.success => nonblank(lines(wsl_text(output.stdout@))),
        _ => Seq::empty(),
    }
}

/// Reads a listing of distributions.
pub fn list_wsl_distros(output: &Option<CommandOutput>) -> (r: Vec<String>)
    ensures
        texts(r@) == listed_distros(*output),
{
    if let Some(output) = output {
        if output.success {
            let text = decode_wsl_text(output.stdout.as_slice());
            return distro_names(text.as_str());
        }
    }
    let r: Vec<String> = Vec::new();
    assert(texts(r@) =~= Seq::<Seq<char>>::empty());
    r
}

/// Every name in a listing is what a line holds; it is not empty and has no
/// white space around it.
pub proof fn law_names_are_trimmed(ls: Seq<Seq<char>>, i: int)
    requires
        0 <= i < nonblank(ls).len(),
    ensures
        nonblank(ls)[i].len() > 0,
        !is_white_space(nonblank(ls)[i][0]),
        !is_white_space(nonblank(ls)[i].last()),
        exists|k: int| 0 <= k < ls.len() && nonblank(ls)[i] == trimmed(#[trigger] ls[k]),
    decreases ls.len(),
{
    let before = nonblank(ls.drop_last());
    if i < before.len() {
        law_names_are_trimmed(ls.drop_last(), i);
        let k = choose|k: int|
            0 <= k < ls.drop_last().len() && before[i] == trimmed(#[trigger] ls.drop_last()[k]);
        assert(ls[k] == ls.drop_last()[k]);
    } else {
        assert(nonblank(ls)[i] == trimmed(ls[ls.len() - 1]));
        lemma_trimmed(ls.last());
    }
}

/// The text of a credentials file that a command printed; nothing if the
/// command failed or what it printed is not UTF-8.
pub fn credentials_text(output: Option<CommandOutput>) -> (r: Option<String>)
    ensures
        r is Some <==> output is Some && output->0.success && valid_utf8(output->0.stdout@),
        r matches Some(s) ==> s@ == decode_utf8(output->0.stdout@),
{
    match output {
        Some(output) => if output.success {
            decode_utf8_strict(output.stdout)
        } else {
            None
        },
        None => None,
    }
}

/// How an attempt to ask for the usage from inside a distribution ended.
#[derive(Debug)]
pub enum WslUsage {
    /// The command did not start, or took too long.
    NotRun,
    /// The command ended with this status, which is not success.
    Failed(String),
    /// The command printed something that is not an answer, for this reason.
    Unreadable(String),
    /// The command printed an answer.
    Answered(CodexUsageResponse),
}

/// What went wrong, or what the usage is.
pub open spec fn usage_of_wsl(usage: WslUsage) -> Result<Seq<SectionView>, Seq<char>> {
    match usage {
        WslUsage::NotRun => Err("wsl.exe/python3 timed out or failed to start"@),
        WslUsage::Failed(status) => Err("status "@ + status@),
        WslUsage::Unreadable(reason) => Err(
            "invalid JSON from WSL Codex usage fetch: "@ + reason@,
        ),
        WslUsage::Answered(response) => match usage_of_response(response) {
            Ok(sections) => Ok(sections),
            Err(_) => Err("RequestFailed"@),
        },
    }
}

/// What a result says about the usage, or which message it holds.
pub open spec fn wsl_view(r: Result<UsageData, String>) -> Result<Seq<SectionView>, Seq<char>> {
    match r {
        Ok(data) => Ok(data@),
        Err(message) => Err(message@),
    }
}

/// Reads the outcome of asking for the usage from inside a distribution.
pub fn wsl_usage_result(usage: WslUsage) -> (r: Result<UsageData, String>)
    ensures
        wsl_view(r) == usage_of_wsl(usage),
{
    match usage {
        WslUsage::NotRun => Err(copy("wsl.exe/python3 timed out or failed to start")),
        WslUsage::Failed(status) => Err(copy("status ").concat(status.as_str())),
        WslUsage::Unreadable(reason) => Err(
            copy("invalid JSON from WSL Codex usage fetch: ").concat(reason.as_str()),
        ),
        WslUsage::Answered(response) => match codex_usage_response_to_data(response) {
            Ok(data) => Ok(data),
            Err(_) => Err(copy("RequestFailed")),
        },
    }
}

/// The home directories of a distribution lie in the directory `home` of the share
/// that bears its name, whatever that name is.
pub proof fn law_homes_lie_in_the_share(distro: Seq<char>)
    ensures
        ({
            let path = home_path(distro);
            let share = seq!['\\', '\\', 'w', 's', 'l', '$', '\\'];
            let home = seq!['\\', 'h', 'o', 'm', 'e'];
            &&& path.len() == 7 + distro.len() + 5
            &&& path.take(7) == share
            &&& path.subrange(7, 7int + distro.len()) == distro
            &&& path.skip(7int + distro.len()) == home
        }),
{
    reveal_strlit(r"\\wsl$\");
    reveal_strlit(r"\home");
    let path = home_path(distro);
    assert(path.take(7) =~= seq!['\\', '\\', 'w', 's', 'l', '$', '\\']);
    assert(path.subrange(7, 7int + distro.len()) =~= distro);
    assert(path.skip(7int + distro.len()) =~= seq!['\\', 'h', 'o', 'm', 'e']);
}

/// Half of the sample decides: bytes seem to be UTF-16 if at least half of their first
/// units, up to 64 of them, have a high byte of zero. What follows the sample does not
/// matter.
pub proof fn law_sample_decides(a: Seq<u8>, b: Seq<u8>, zeros: nat)
    ensures
        a.len() >= 128 && b.len() >= 128 && a.take(128) == b.take(128) ==> seems_utf16le(a)
            == seems_utf16le(b),
        ({
            let units: nat = if a.len() / 2 < 64 {
                a.len() / 2
            } else {
                64
            };
            zeros == nul_high_bytes(a, units) ==> (seems_utf16le(a) <==> units > 0 && zeros
                >= units - zeros)
        }),
        nul_high_bytes(a, zeros + 1) - nul_high_bytes(a, zeros) == (if a[2 * zeros + 1int] == 0 {
            1int
        } else {
            0
        }),
        nul_high_bytes(a, 0) == 0,
        a.len() % 2 == 1 ==> utf16le_text(a) is None,
{
    if a.len() >= 128 && b.len() >= 128 && a.take(128) == b.take(128) {
        lemma_same_sample(a, b, 64);
    }
}

proof fn lemma_same_sample(a: Seq<u8>, b: Seq<u8>, n: nat)
    requires
        n <= 64,
        a.len() >= 128,
        b.len() >= 128,
        a.take(128) == b.take(128),
    ensures
        nul_high_bytes(a, n) == nul_high_bytes(b, n),
    decreases n,
{
    if n > 0 {
        lemma_same_sample(a, b, (n - 1) as nat);
        assert(a.take(128)[2 * n - 1] == a[2 * n - 1]);
        assert(b.take(128)[2 * n - 1] == b[2 * n - 1]);
    }
}

/// A child process that has ended is collected, however late that is seen. One that is
/// still running is left alone up to the deadline and killed after it, and one whose
/// state is unknown is given up.
pub proof fn law_children_are_told_apart(elapsed: int, timeout: int)
    ensures
        wait_action(ChildStatus::Exited, elapsed, timeout) == WaitAction::Collect,
        wait_action(ChildStatus::Running, elapsed, timeout) == WaitAction::Kill <==> timeout
            < elapsed,
        wait_action(ChildStatus::Running, elapsed, timeout) == WaitAction::Sleep <==> elapsed
            <= timeout,
        wait_action(ChildStatus::Unknown, elapsed, timeout) == WaitAction::GiveUp,
{
}

/// Looks at a child process are a tenth of a second apart, save for the last one, which
/// comes directly after the deadline.
pub proof fn law_looks_are_apart(elapsed: int, timeout: int)
    ensures
        timeout - elapsed >= 100_000_000 ==> pause_after(elapsed, timeout) == 100_000_000,
        0 <= timeout - elapsed < 100_000_000 ==> elapsed + pause_after(elapsed, timeout) == timeout
            + 1,
{
}

/// Every line of a listing counts on its own, in the order of the lines: a line with
/// something on it is a name, without the white space around it, and a blank line is
/// none.
pub proof fn law_every_line_is_a_name(front: Seq<Seq<char>>, line: Seq<char>)
    ensures
        trimmed(line).len() > 0 ==> nonblank(front.push(line)) == nonblank(front).push(
            trimmed(line),
        ),
        trimmed(line).len() == 0 ==> nonblank(front.push(line)) == nonblank(front),
        nonblank(Seq::empty()) == Seq::<Seq<char>>::empty(),
{
    assert(front.push(line).drop_last() =~= front);
}

/// A listing that was printed as UTF-16 behind a byte order mark names what the lines of
/// its text hold. Nothing is named by a command that failed or did not run.
pub proof fn law_listings_are_read(text: Seq<char>, output: CommandOutput)
    ensures
        output.success && output.stdout@ == seq![0xffu8, 0xfeu8] + le_bytes(utf16(text))
            ==> listed_distros(Some(output)) == nonblank(lines(text)),
        !output.success ==> listed_distros(Some(output)) == Seq::<Seq<char>>::empty(),
        listed_distros(None) == Seq::<Seq<char>>::empty(),
{
    law_marked_text_is_read_back(text);
}

/// A distribution reports usage if it was run to its end and printed an answer with rate
/// limits, and then it reports what that answer says.
pub proof fn law_distributions_report_answers(
    usage: WslUsage,
    response: CodexUsageResponse,
    text: String,
)
    ensures
        usage_of_wsl(usage) is Ok <==> usage is Answered && usage->Answered_0.rate_limit is Some,
        response.rate_limit is Some ==> usage_of_wsl(WslUsage::Answered(response)) is Ok
            && usage_of_wsl(WslUsage::Answered(response))->Ok_0 == usage_of_response(
            response,
        )->Ok_0,
        response.rate_limit is None ==> usage_of_wsl(WslUsage::Answered(response)) == Err::<
            Seq<SectionView>,
            Seq<char>,
        >("RequestFailed"@),
        usage_of_wsl(WslUsage::Failed(text)) == Err::<Seq<SectionView>, Seq<char>>(
            "status "@ + text@,
        ),
        usage_of_wsl(WslUsage::Unreadable(text)) == Err::<Seq<SectionView>, Seq<char>>(
            "invalid JSON from WSL Codex usage fetch: "@ + text@,
        ),
{
}

/// Bytes that carry the mark of UTF-16, or seem to be that, are read as UTF-16 if their
/// number is even; all others are read as UTF-8, and no bytes are no text.
pub proof fn law_encodings_are_told_apart(bytes: Seq<u8>)
    ensures
        ({
            let marked = bytes.len() >= 2 && bytes[0] == 0xff && bytes[1] == 0xfe;
            let even = bytes.len() % 2 == 0;
            &&& bytes.len() == 0 ==> wsl_text(bytes) == Seq::<char>::empty()
            &&& even && marked ==> wsl_text(bytes) == utf16_lossy(units_of(bytes.skip(2)))
            &&& even && !marked && seems_utf16le(bytes) ==> wsl_text(bytes) == utf16_lossy(
                units_of(bytes),
            )
            &&& bytes.len() > 0 && (!even || (!marked && !seems_utf16le(bytes))) ==> wsl_text(bytes)
                == utf8_lossy(bytes)
        }),
{
}

/// A unit is made of two bytes, the low one first, and a single byte at the end is left
/// out.
pub proof fn law_units_are_put_together(bytes: Seq<u8>, i: int)
    ensures
        units_of(bytes).len() == bytes.len() / 2,
        0 <= i < bytes.len() / 2 ==> units_of(bytes)[i] % 256 == bytes[2 * i]
            && units_of(bytes)[i] / 256 == bytes[2 * i + 1],
{
}

/// What a result says of the usage, or its message, is seen as it is.
pub proof fn law_wsl_results_are_seen(data: UsageData, message: String)
    ensures
        wsl_view(Ok(data)) == Ok::<Seq<SectionView>, Seq<char>>(data@),
        wsl_view(Err(message)) == Err::<Seq<SectionView>, Seq<char>>(message@),
{
}

/// Whether a text has another one in it.
pub open spec fn has_in_it(text: Seq<char>, part: Seq<char>) -> bool {
    exists|i: int|
        0 <= i <= text.len() - part.len() && #[trigger] text.subrange(i, i + part.len()) == part
}

proof fn lemma_has_in_it(text: Seq<char>, part: Seq<char>, i: int)
    requires
        0 <= i <= text.len() - part.len(),
        text.subrange(i, i + part.len()) == part,
    ensures
        has_in_it(text, part),
{
}

/// From inside a distribution the usage is asked for as it is from outside: at the same
/// address, by the same user agent, and with the access token and the account in the same
/// headers.
pub proof fn law_script_asks_as_the_program_does()
    ensures
        has_in_it(USAGE_SCRIPT@, CODEX_USAGE_URL@),
        has_in_it(USAGE_SCRIPT@, USER_AGENT@),
        has_in_it(USAGE_SCRIPT@, r#""Authorization": "Bearer " + access_token"#@),
        has_in_it(USAGE_SCRIPT@, r#"headers["chatgpt-account-id"] = account_id"#@),
{
    reveal_strlit(r#"
import json
import pathlib
import urllib.request

auth = json.loads((pathlib.Path.home() / ".codex" / "auth.json").read_text())
tokens = auth.get("tokens") or {}
access_token = tokens.get("access_token")
if not access_token:
    raise SystemExit(2)

headers = {
    "Authorization": "Bearer " + access_token,
    "User-Agent": "Mozilla/5.0 (X11; Linux x86_64; rv:128.0) Gecko/20100101 Firefox/128.0",
    "Accept": "application/json",
}
account_id = tokens.get("account_id")
if account_id:
    headers["chatgpt-account-id"] = account_id

req = urllib.request.Request("https://chatgpt.com/backend-api/wham/usage", headers=headers)
with urllib.request.urlopen(req, timeout=15) as resp:
    print(resp.read().decode("utf-8"))
"#);
    reveal_strlit("https://chatgpt.com/backend-api/wham/usage");
    reveal_strlit("Mozilla/5.0 (X11; Linux x86_64; rv:128.0) Gecko/20100101 Firefox/128.0");
    reveal_strlit(r#""Authorization": "Bearer " + access_token"#);
    reveal_strlit(r#"headers["chatgpt-account-id"] = account_id"#);
    let text = USAGE_SCRIPT@;
    assert(text.subrange(569, 611) =~= CODEX_USAGE_URL@);
    lemma_has_in_it(text, CODEX_USAGE_URL@, 569);
    assert(text.subrange(329, 399) =~= USER_AGENT@);
    lemma_has_in_it(text, USER_AGENT@, 329);
    assert(text.subrange(267, 308) =~= r#""Authorization": "Bearer " + access_token"#@);
    lemma_has_in_it(text, r#""Authorization": "Bearer " + access_token"#@, 267);
    assert(text.subrange(495, 537) =~= r#"headers["chatgpt-account-id"] = account_id"#@);
    lemma_has_in_it(text, r#"headers["chatgpt-account-id"] = account_id"#@, 495);
}

} // verus!
