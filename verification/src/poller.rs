//! The texts of a usage window, and how long they stay as they are.
use vstd::prelude::*;

use crate::clock::{instant, now, representable, Timestamp};
use crate::localization::Strings;
use crate::models::{SectionView, UsageData, UsageSection};
use crate::text::{copy, decimal, lemma_decimal_reads_back, push_decimal};

verus! {

/// Why a poll brought no usage data.
#[derive(Clone, Copy, Debug, PartialEq, Eq, Structural)]
pub enum PollError {
    AuthRequired,
    NoCredentials,
    TokenExpired,
    RequestFailed,
}

// ---------------------------------------------------------------------------
// Countdowns
// ---------------------------------------------------------------------------

/// The number and the suffix that a countdown shows when `total` seconds are
/// left: whole days if there is one, else whole hours, minutes or seconds.
pub open spec fn countdown_parts(total: nat, strings: Strings) -> (nat, Seq<char>) {
    if total >= 86400 {
        (total / 86400, strings.day_suffix@)
    } else if total >= 3600 {
        (total / 3600, strings.hour_suffix@)
    } else if total >= 60 {
        (total / 60, strings.minute_suffix@)
    } else {
        (total, strings.second_suffix@)
    }
}

/// What a countdown shows when `total` seconds are left.
pub open spec fn countdown_from_secs(total: nat, strings: Strings) -> Seq<char> {
    decimal(countdown_parts(total, strings).0) + countdown_parts(total, strings).1
}

/// What the countdown to a reset shows at the time `now`: nothing if no reset
/// is known, and the word for "now" once the reset has passed.
pub open spec fn countdown(resets_at: Option<int>, now: int, strings: Strings) -> Seq<char> {
    match resets_at {
        None => Seq::empty(),
        Some(reset) => if reset < now {
            strings.now@
        } else {
            countdown_from_secs(((reset - now) / 1_000_000_000) as nat, strings)
        },
    }
}

/// Writes a countdown when `total_secs` seconds are left.
pub fn format_countdown_from_secs(total_secs: u64, strings: Strings) -> (r: String)
    ensures
        r@ == countdown_from_secs(total_secs as nat, strings),
{
    let total_mins: u64 = total_secs / 60;
    let total_hours: u64 = total_secs / 3600;
    let total_days: u64 = total_secs / 86400;
    let mut out = String::new();
    if total_days >= 1 {
        push_decimal(&mut out, total_days);
        out.append(strings.day_suffix);
    } else if total_hours >= 1 {
        push_decimal(&mut out, total_hours);
        out.append(strings.hour_suffix);
    } else if total_mins >= 1 {
        push_decimal(&mut out, total_mins);
        out.append(strings.minute_suffix);
    } else {
        push_decimal(&mut out, total_secs);
        out.append(strings.second_suffix);
    }
    assert(out@ =~= countdown_from_secs(total_secs as nat, strings));
    out
}

/// Writes the countdown to a reset as it stands at the time `now`.
pub fn format_countdown_at(resets_at: Option<Timestamp>, strings: Strings, now: Timestamp) -> (r:
    String)
    ensures
        r@ == countdown(instant(resets_at), now@, strings),
{
    match resets_at {
        None => String::new(),
        Some(reset) => match reset.whole_secs_since(&now) {
            None => copy(strings.now),
            Some(secs) => format_countdown_from_secs(secs, strings),
        },
    }
}

/// Writes the countdown to a reset as it stands now.
pub fn format_countdown(resets_at: Option<Timestamp>, strings: Strings) -> (r: String)
    ensures
        exists|t: int| #[trigger]
            representable(t) && r@ == countdown(instant(resets_at), t, strings),
{
    let t = now();
    format_countdown_at(resets_at, strings, t)
}

/// The least number of seconds left for which a countdown shows the same as
/// for `total`.
pub open spec fn bucket_start(total: nat) -> nat {
    if total >= 86400 {
        total / 86400 * 86400
    } else if total >= 3600 {
        total / 3600 * 3600
    } else if total >= 60 {
        total / 60 * 60
    } else {
        total
    }
}

/// The seconds after which a countdown of `total` seconds shows something
/// else.
pub open spec fn display_change_delay(total: nat) -> nat {
    (total - bucket_start(total) + 1) as nat
}

/// The seconds after which a countdown of `total_secs` seconds shows something
/// else.
pub fn time_until_display_change_from_secs(total_secs: u64) -> (r: u64)
    ensures
        r == display_change_delay(total_secs as nat),
        1 <= r <= 86400,
{
    let total_mins: u64 = total_secs / 60;
    let total_hours: u64 = total_secs / 3600;
    let total_days: u64 = total_secs / 86400;
    let current_bucket_start: u64 = if total_days >= 1 {
        total_days * 86400
    } else if total_hours >= 1 {
        total_hours * 3600
    } else if total_mins >= 1 {
        total_mins * 60
    } else {
        total_secs
    };
    total_secs.saturating_sub(current_bucket_start) + 1
}

/// The seconds after `now` at which the countdown to a reset shows something
/// else; nothing if no reset is known or it has passed.
pub open spec fn display_change(resets_at: Option<int>, now: int) -> Option<nat> {
    match resets_at {
        Some(reset) if now <= reset => Some(
            display_change_delay(((reset - now) / 1_000_000_000) as nat),
        ),
        _ => None,
    }
}

/// An optional number as an optional natural number.
pub open spec fn as_nat(r: Option<u64>) -> Option<nat> {
    match r {
        Some(n) => Some(n as nat),
        None => None,
    }
}

/// How many seconds after `now` the countdown to a reset shows something else.
pub fn time_until_display_change_at(resets_at: Option<Timestamp>, now: Timestamp) -> (r: Option<
    u64,
>)
    ensures
        as_nat(r) == display_change(instant(resets_at), now@),
        r matches Some(secs) ==> 1 <= secs <= 86400,
{
    match resets_at {
        None => None,
        Some(reset) => match reset.whole_secs_since(&now) {
            None => None,
            Some(secs) => Some(time_until_display_change_from_secs(secs)),
        },
    }
}

/// How many seconds from now the countdown to a reset shows something else.
pub fn time_until_display_change(resets_at: Option<Timestamp>) -> (r: Option<u64>)
    ensures
        exists|t: int| #[trigger]
            representable(t) && as_nat(r) == display_change(instant(resets_at), t),
        r matches Some(secs) ==> 1 <= secs <= 86400,
{
    let t = now();
    time_until_display_change_at(resets_at, t)
}

/// Until the delay has passed, a countdown shows the same text in every
/// second.
pub proof fn law_countdown_is_steady(total: nat, elapsed: nat, strings: Strings)
    requires
        elapsed < display_change_delay(total),
    ensures
        elapsed <= total,
        countdown_from_secs((total - elapsed) as nat, strings) == countdown_from_secs(
            total,
            strings,
        ),
{
}

/// Two texts that start with different digits are different.
proof fn lemma_first_digit_differs(a: nat, b: nat, x: Seq<char>, y: Seq<char>)
    requires
        decimal(a)[0] != decimal(b)[0],
    ensures
        decimal(a) + x != decimal(b) + y,
{
    lemma_decimal_reads_back(a);
    lemma_decimal_reads_back(b);
    assert((decimal(a) + x)[0] == decimal(a)[0]);
    assert((decimal(b) + y)[0] == decimal(b)[0]);
}

/// Different numbers with the same suffix are different texts.
proof fn lemma_number_differs(a: nat, b: nat, x: Seq<char>)
    requires
        a != b,
    ensures
        decimal(a) + x != decimal(b) + x,
{
    lemma_decimal_reads_back(a);
    lemma_decimal_reads_back(b);
    let s = decimal(a) + x;
    let t = decimal(b) + x;
    if s == t {
        assert(s.len() == decimal(a).len() + x.len());
        assert(t.len() == decimal(b).len() + x.len());
        assert(s.take(decimal(a).len() as int) =~= decimal(a));
        assert(t.take(decimal(b).len() as int) =~= decimal(b));
    }
}

/// When the delay has passed and the reset has not, a countdown shows another
/// text, whatever the suffixes are.
pub proof fn law_countdown_changes(total: nat, strings: Strings)
    requires
        display_change_delay(total) <= total,
    ensures
        countdown_from_secs(
            (total - display_change_delay(total)) as nat,
            strings,
        ) != countdown_from_secs(total, strings),
{
    let later = (total - display_change_delay(total)) as nat;
    let (a, x) = countdown_parts(total, strings);
    let (b, y) = countdown_parts(later, strings);
    reveal_with_fuel(decimal, 3);
    if total >= 172800 {
        lemma_number_differs(a, b, x);
    } else if total >= 86400 {
        assert(later == 86399 && a == 1 && b == 23);
        lemma_first_digit_differs(a, b, x, y);
    } else if total >= 7200 {
        lemma_number_differs(a, b, x);
    } else if total >= 3600 {
        assert(later == 3599 && a == 1 && b == 59);
        lemma_first_digit_differs(a, b, x, y);
    } else if total >= 120 {
        lemma_number_differs(a, b, x);
    } else if total >= 60 {
        assert(later == 59 && a == 1 && b == 59);
        lemma_first_digit_differs(a, b, x, y);
    } else {
        lemma_number_differs(a, b, x);
    }
}

/// A countdown counts in the largest unit that fits into the time that is left: days,
/// else hours, else minutes, else seconds. It shows how many of that unit are whole,
/// followed by the suffix of that unit.
pub proof fn law_countdown_counts_the_largest_unit(total: nat, n: nat, strings: Strings)
    ensures
        ({
            let text = countdown_from_secs(total, strings);
            let whole = |unit: int| n * unit <= total < (n + 1) * unit;
            &&& total >= 86400 && whole(86400) ==> text == decimal(n) + strings.day_suffix@
            &&& 3600 <= total < 86400 && whole(3600) ==> text == decimal(n) + strings.hour_suffix@
            &&& 60 <= total < 3600 && whole(60) ==> text == decimal(n) + strings.minute_suffix@
            &&& total < 60 && whole(1) ==> text == decimal(n) + strings.second_suffix@
        }),
{
}

/// The countdown to a reset counts the whole seconds that are left; a reset that has
/// passed is shown by the word for "now", and an unknown one by nothing.
pub proof fn law_countdown_counts_whole_seconds(
    reset: int,
    now: int,
    secs: nat,
    strings: Strings,
)
    ensures
        secs * 1_000_000_000 <= reset - now < (secs + 1) * 1_000_000_000 ==> countdown(
            Some(reset),
            now,
            strings,
        ) == countdown_from_secs(secs, strings),
        reset < now ==> countdown(Some(reset), now, strings) == strings.now@,
        countdown(None, now, strings) == Seq::<char>::empty(),
{
}

/// A change of the countdown lies ahead as long as the reset has not passed, and it is
/// the same for all instants at which as many whole seconds are left. It comes when
/// the whole units that are shown are over: that is the number of seconds that exceed
/// them, and one.
pub proof fn law_change_comes_with_the_unit(reset: int, now: int, n: nat)
    ensures
        display_change(None, now) is None,
        display_change(Some(reset), now) is Some <==> now <= reset,
        ({
            let left = (reset - now) / 1_000_000_000;
            let delay = display_change(Some(reset), now)->0;
            now <= reset ==> {
                &&& left >= 86400 && n * 86400 <= left < (n + 1) * 86400 ==> delay == left - n * 86400
                    + 1
                &&& 3600 <= left < 86400 && n * 3600 <= left < (n + 1) * 3600 ==> delay == left - n
                    * 3600 + 1
                &&& 60 <= left < 3600 && n * 60 <= left < (n + 1) * 60 ==> delay == left - n * 60 + 1
                &&& left < 60 ==> delay == 1
            }
        }),
{
}

/// The countdown to a reset keeps its text at every instant up to one second
/// before the announced delay is over, and beyond that for as long as the time
/// that was left exceeded a whole number of seconds. When the delay is over,
/// the text is another one; if the reset has passed by then, it is the word for
/// "now". Instants are counted in nanoseconds from `now` on.
pub proof fn law_delay_is_exact(reset: int, now: int, elapsed: int, strings: Strings)
    requires
        now <= reset,
        0 <= elapsed <= (display_change(Some(reset), now)->0 - 1) * 1_000_000_000 + (reset - now)
            % 1_000_000_000,
    ensures
        countdown(Some(reset), now + elapsed, strings) == countdown(Some(reset), now, strings),
        ({
            let due = now + display_change(Some(reset), now)->0 * 1_000_000_000;
            if due <= reset {
                countdown(Some(reset), due, strings) != countdown(Some(reset), now, strings)
            } else {
                countdown(Some(reset), due, strings) == strings.now@
            }
        }),
{
    let total = ((reset - now) / 1_000_000_000) as nat;
    let later = (reset - now - elapsed) / 1_000_000_000;
    let delay = display_change_delay(total);
    assert(total - delay + 1 <= later <= total);
    law_countdown_is_steady(total, (total - later) as nat, strings);
    if delay <= total {
        law_countdown_changes(total, strings);
    }
}

// ---------------------------------------------------------------------------
// Lines of text
// ---------------------------------------------------------------------------

/// What stands between the percentage and the countdown.
pub open spec fn line_separator() -> Seq<char> {
    seq![' ', '\u{00b7}', ' ']
}

/// The text of a usage window at the time `now`: the remaining percentage, and
/// the countdown to the reset if there is one.
pub open spec fn usage_line(section: SectionView, strings: Strings, now: int) -> Seq<char> {
    let percent = decimal(section.percentage.remaining_whole as nat).push('%');
    let left = countdown(section.resets_at, now, strings);
    if left.len() == 0 {
        percent
    } else {
        percent + line_separator() + left
    }
}

/// Writes the text of a usage window at the time `now`.
pub fn format_line_at(section: &UsageSection, strings: Strings, now: Timestamp) -> (r: String)
    ensures
        r@ == usage_line(section@, strings, now@),
{
    let mut out = String::new();
    push_decimal(&mut out, section.percentage.remaining_whole() as u64);
    out.push('%');
    let ghost percent = decimal(section@.percentage.remaining_whole as nat).push('%');
    assert(out@ =~= percent);
    let left = format_countdown_at(section.resets_at, strings, now);
    if !left.as_str().is_empty() {
        out.push(' ');
        out.push('\u{00b7}');
        out.push(' ');
        assert(out@ =~= percent + line_separator());
        out.append(left.as_str());
    }
    out
}

/// Writes the text of a usage window as it stands now.
pub fn format_line(section: &UsageSection, strings: Strings) -> (r: String)
    ensures
        exists|t: int| #[trigger] representable(t) && r@ == usage_line(section@, strings, t),
{
    let t = now();
    format_line_at(section, strings, t)
}

/// What stands for a value that is not known.
pub open spec fn unknown_text() -> Seq<char> {
    seq!['-', '-']
}

/// Writes what stands for a value that is not known.
pub(crate) fn unknown() -> (r: String)
    ensures
        r@ == unknown_text(),
{
    let mut out = String::new();
    out.push('-');
    out.push('-');
    assert(out@ =~= unknown_text());
    out
}

/// The label of a usage window: the names of the windows of five hours and of
/// seven days, and for any other length that length as a countdown shows it.
pub open spec fn label_of(section: SectionView, strings: Strings) -> Seq<char> {
    match section.limit_window_seconds {
        Some(secs) => if secs == 18000 {
            strings.session_window@
        } else if secs == 604800 {
            strings.weekly_window@
        } else {
            countdown_from_secs(secs as nat, strings)
        },
        None => unknown_text(),
    }
}

/// Writes the label of a usage window.
pub fn window_label(section: &UsageSection, strings: Strings) -> (r: String)
    ensures
        r@ == label_of(section@, strings),
{
    match section.limit_window_seconds {
        Some(secs) => if secs == 18000 {
            copy(strings.session_window)
        } else if secs == 604800 {
            copy(strings.weekly_window)
        } else {
            format_countdown_from_secs(secs, strings)
        },
        None => unknown(),
    }
}

// ---------------------------------------------------------------------------
// Resets
// ---------------------------------------------------------------------------

/// Whether the reset of a window has come at the time `now`.
pub open spec fn reset_reached(section: SectionView, now: int) -> bool {
    section.resets_at is Some && section.resets_at->0 <= now
}

/// Whether the reset of any window has come at the time `now`.
pub open spec fn any_reset_reached(windows: Seq<SectionView>, now: int) -> bool {
    exists|i: int| 0 <= i < windows.len() && reset_reached(#[trigger] windows[i], now)
}

/// Whether the reset of any window has come at the time `now`.
pub fn is_past_reset_at(data: &UsageData, now: Timestamp) -> (r: bool)
    ensures
        r == any_reset_reached(data@, now@),
{
    let mut i: usize = 0;
    while i < data.windows.len()
        invariant
            i <= data.windows@.len(),
            data@.len() == data.windows@.len(),
            forall|k: int|
                0 <= k < i ==> !reset_reached(#[trigger] data@[k], now@),
        decreases data.windows@.len() - i,
    {
        if let Some(reset) = data.windows[i].resets_at {
            if !now.is_before(&reset) {
                assert(reset_reached(data@[i as int], now@));
                return true;
            }
        }
        i = i + 1;
    }
    false
}

/// Whether the reset of any window has come.
pub fn is_past_reset(data: &UsageData) -> (r: bool)
    ensures
        exists|t: int| #[trigger] representable(t) && r == any_reset_reached(data@, t),
{
    let t = now();
    is_past_reset_at(data, t)
}

/// Once the reset of a window has come, it stays reached.
pub proof fn law_reset_stays_reached(windows: Seq<SectionView>, now: int, later: int)
    requires
        now <= later,
        any_reset_reached(windows, now),
    ensures
        any_reset_reached(windows, later),
{
    let i = choose|i: int| 0 <= i < windows.len() && reset_reached(#[trigger] windows[i], now);
    assert(reset_reached(windows[i], later));
}

/// The text of a window starts with the whole percentage that is left and a percent
/// sign. If there is a countdown, it follows behind a dot between two spaces; if not,
/// nothing follows.
pub proof fn law_line_shows_what_is_left(section: SectionView, strings: Strings, now: int)
    ensures
        ({
            let line = usage_line(section, strings, now);
            let number = decimal(section.percentage.remaining_whole as nat);
            let left = countdown(section.resets_at, now, strings);
            &&& line.take(number.len() as int) == number
            &&& line.len() > number.len()
            &&& line[number.len() as int] == '%'
            &&& left.len() == 0 ==> line.len() == number.len() + 1
            &&& left.len() > 0 ==> {
                &&& line.len() == number.len() + 4 + left.len()
                &&& line[number.len() + 1int] == ' '
                &&& line[number.len() + 2int] == '\u{00b7}'
                &&& line[number.len() + 3int] == ' '
                &&& line.skip(number.len() + 4int) == left
            }
        }),
{
    let line = usage_line(section, strings, now);
    let number = decimal(section.percentage.remaining_whole as nat);
    let left = countdown(section.resets_at, now, strings);
    assert(line.take(number.len() as int) =~= number);
    if left.len() > 0 {
        assert(line.skip(number.len() + 4int) =~= left);
    }
}

/// The label tells the length of a window and nothing else of it: five hours and seven
/// days by their names, any other length as a countdown of that length, and an
/// unknown one by two dashes.
pub proof fn law_label_tells_the_length(
    section: SectionView,
    other: SectionView,
    secs: u64,
    strings: Strings,
)
    ensures
        section.limit_window_seconds == other.limit_window_seconds ==> label_of(section, strings)
            == label_of(other, strings),
        section.limit_window_seconds == Some(secs) && secs == 5 * 60 * 60 ==> label_of(
            section,
            strings,
        ) == strings.session_window@,
        section.limit_window_seconds == Some(secs) && secs == 7 * 24 * 60 * 60 ==> label_of(
            section,
            strings,
        ) == strings.weekly_window@,
        section.limit_window_seconds == Some(secs) && secs != 5 * 60 * 60 && secs != 7 * 24 * 60 * 60
            ==> label_of(section, strings) == countdown_from_secs(secs as nat, strings),
        section.limit_window_seconds is None ==> label_of(section, strings) == seq!['-', '-'],
{
}

/// A reset has come from its very instant on and not before, and that of any window
/// counts.
pub proof fn law_resets_come_on_time(windows: Seq<SectionView>, i: int, now: int)
    requires
        0 <= i < windows.len(),
        windows[i].resets_at is Some,
    ensures
        windows[i].resets_at->0 <= now ==> any_reset_reached(windows, now),
        (forall|k: int|
            0 <= k < windows.len() ==> ((#[trigger] windows[k]).resets_at matches Some(t) ==> now
                < t)) ==> !any_reset_reached(windows, now),
        !any_reset_reached(Seq::empty(), now),
{
    assert(windows[i].resets_at->0 <= now ==> reset_reached(windows[i], now));
}

} // verus!
