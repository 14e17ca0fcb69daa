//! Whether the program starts when the user logs in. That is so if a value in
//! the registry names its file.
use vstd::prelude::*;

use crate::text::{
    chars_of, eq_ignore_ascii_case, equal_ignoring_ascii_case, len_without_trailing,
    trim_end_matches,
};
use crate::wsl::{
    decode_utf16, is_high_surrogate, is_low_surrogate, le_bytes, lemma_units_of_le_bytes, paired,
    units_in, units_of, utf16_lossy,
};

verus! {

/// The registry key that holds the programs to start.
pub const STARTUP_REGISTRY_PATH: &'static str = "Software\\Microsoft\\Windows\\CurrentVersion\\Run";

/// The name of the value that stands for this program.
pub const STARTUP_REGISTRY_KEY: &'static str = "CodexWindowsTaskbar";

/// Whether a registry value names the file `exe`. The value is text in UTF-16,
/// ended by nulls that do not count, and the case of ASCII letters does not
/// count either.
pub open spec fn names_file(value: Option<Seq<u8>>, exe: Seq<u16>) -> bool {
    value matches Some(bytes) && exe.len() > 0 && equal_ignoring_ascii_case(
        trim_end_matches(utf16_lossy(units_of(bytes)), '\0'),
        utf16_lossy(exe),
    )
}

/// The bytes of a registry value, if it was read.
pub open spec fn value_bytes(value: Option<Vec<u8>>) -> Option<Seq<u8>> {
    match value {
        Some(bytes) => Some(bytes@),
        None => None,
    }
}

/// Decides from the registry value and the name of the running file whether the
/// program starts when the user logs in. `None` stands for a value that is
/// missing or could not be read, and an empty `exe` for a name that could not
/// be found out.
pub fn is_startup_enabled(value: &Option<Vec<u8>>, exe: &Vec<u16>) -> (r: bool)
    ensures
        r == names_file(value_bytes(*value), exe@),
{
    match value {
        None => false,
        Some(bytes) => {
            if exe.len() == 0 {
                return false;
            }
            let units = units_in(bytes.as_slice());
            let reg_value = chars_of(decode_utf16(&units).as_str());
            let reg_len: usize = len_without_trailing(&reg_value, '\0');
            let current_exe = chars_of(decode_utf16(exe).as_str());
            eq_ignore_ascii_case(&reg_value, reg_len, &current_exe)
        },
    }
}

/// What is done to the registry value.
#[derive(Debug)]
pub enum StartupChange {
    Write(Vec<u8>),
    Delete,
    Keep,
}

/// What is done to the registry value, with bytes as a sequence.
pub enum ChangeView {
    Write(Seq<u8>),
    Delete,
    Keep,
}

impl View for StartupChange {
    type V = ChangeView;

    open spec fn view(&self) -> ChangeView {
        match self {
            StartupChange::Write(bytes) => ChangeView::Write(bytes@),
            StartupChange::Delete => ChangeView::Delete,
            StartupChange::Keep => ChangeView::Keep,
        }
    }
}

/// How the registry value is changed to switch the start on or off: on by
/// writing the name of the running file, ended by a null, if it is known.
pub open spec fn startup_change(enable: bool, exe: Seq<u16>) -> ChangeView {
    if !enable {
        ChangeView::Delete
    } else if exe.len() > 0 {
        ChangeView::Write(le_bytes(exe.push(0)))
    } else {
        ChangeView::Keep
    }
}

/// Decides how the registry value is changed to switch the start on or off.
pub fn set_startup_enabled(enable: bool, exe: &Vec<u16>) -> (r: StartupChange)
    ensures
        r@ == startup_change(enable, exe@),
{
    if !enable {
        return StartupChange::Delete;
    }
    if exe.len() == 0 {
        return StartupChange::Keep;
    }
    let ghost expected = le_bytes(exe@.push(0));
    let mut bytes: Vec<u8> = Vec::new();
    let mut i: usize = 0;
    while i < exe.len()
        invariant
            i <= exe@.len(),
            expected == le_bytes(exe@.push(0)),
            bytes@.len() == 2 * i,
            forall|k: int| 0 <= k < 2 * i ==> #[trigger] bytes@[k] == expected[k],
        decreases exe@.len() - i,
    {
        let unit: u16 = exe[i];
        assert(expected[2 * i] == (unit % 256) as u8);
        assert(expected[2 * i + 1] == (unit / 256) as u8);
        bytes.push((unit % 256) as u8);
        bytes.push((unit / 256) as u8);
        i = i + 1;
    }
    bytes.push(0);
    bytes.push(0);
    assert(bytes@ =~= expected);
    StartupChange::Write(bytes)
}

proof fn lemma_null_is_decoded(units: Seq<u16>)
    ensures
        utf16_lossy(units.push(0)) == utf16_lossy(units).push('\0'),
    decreases units.len(),
{
    let more = units.push(0);
    if units.len() == 0 {
        reveal_with_fuel(utf16_lossy, 2);
        assert(more.skip(1) =~= Seq::<u16>::empty());
        assert(utf16_lossy(more) =~= seq!['\0']);
        assert(utf16_lossy(units).push('\0') =~= seq!['\0']);
    } else if is_high_surrogate(units[0]) && units.len() > 1 && is_low_surrogate(units[1]) {
        lemma_null_is_decoded(units.skip(2));
        assert(more.skip(2) =~= units.skip(2).push(0));
        assert(utf16_lossy(more) =~= utf16_lossy(units).push('\0'));
    } else {
        lemma_null_is_decoded(units.skip(1));
        assert(more.skip(1) =~= units.skip(1).push(0));
        assert(utf16_lossy(more) =~= utf16_lossy(units).push('\0'));
    }
}

proof fn lemma_last_unit(units: Seq<u16>)
    requires
        units.len() > 0,
        units.last() != 0,
    ensures
        utf16_lossy(units).len() > 0,
        utf16_lossy(units).last() != '\0',
    decreases units.len(),
{
    let n: int = if is_high_surrogate(units[0]) && units.len() > 1 && is_low_surrogate(units[1]) {
        2
    } else {
        1
    };
    let rest = units.skip(n);
    if rest.len() > 0 {
        assert(rest.last() == units.last());
        lemma_last_unit(rest);
        assert(utf16_lossy(units).last() == utf16_lossy(rest).last());
    } else {
        assert(utf16_lossy(rest) =~= Seq::<char>::empty());
        if n == 2 {
            let c = paired(units[0], units[1]);
            assert(c as int == 0x10000 + (units[0] - 0xd800) * 0x400 + (units[1] - 0xdc00));
            assert(utf16_lossy(units).last() == c);
        } else if is_high_surrogate(units[0]) || is_low_surrogate(units[0]) {
            assert(utf16_lossy(units).last() == '\u{fffd}');
        } else {
            assert(utf16_lossy(units).last() == units[0] as char);
        }
    }
}

/// What switching the start on writes is read back as switched on, for every
/// name that does not itself end in a null.
pub proof fn law_startup_is_enabled(exe: Seq<u16>)
    requires
        exe.len() > 0,
        exe.last() != 0,
    ensures
        startup_change(true, exe) matches ChangeView::Write(bytes) && names_file(Some(bytes), exe),
{
    let bytes = le_bytes(exe.push(0));
    lemma_units_of_le_bytes(exe.push(0));
    lemma_null_is_decoded(exe);
    lemma_last_unit(exe);
    let text = utf16_lossy(exe);
    assert(text.push('\0').drop_last() =~= text);
    assert(trim_end_matches(text.push('\0'), '\0') == trim_end_matches(text, '\0'));
    assert(trim_end_matches(text, '\0') == text);
}

/// Switching the start on writes the name of the running file and a null behind it, unit
/// by unit. Switching it off removes the value, and without a name nothing is changed.
pub proof fn law_value_holds_the_name(exe: Seq<u16>, i: int)
    ensures
        startup_change(false, exe) is Delete,
        exe.len() == 0 ==> startup_change(true, exe) is Keep,
        exe.len() > 0 ==> (startup_change(true, exe) matches ChangeView::Write(bytes) && {
            &&& bytes.len() == 2 * exe.len() + 2
            &&& bytes[2 * exe.len() as int] == 0 && bytes[2 * exe.len() as int + 1] == 0
            &&& 0 <= i < exe.len() ==> bytes[2 * i] + 256 * bytes[2 * i + 1] == exe[i]
        }),
{
    if exe.len() > 0 {
        let all = exe.push(0);
        let bytes = le_bytes(all);
        let n = exe.len() as int;
        assert(all[n] == 0);
        assert((2 * n) / 2 == n && (2 * n + 1) / 2 == n);
        assert(bytes[2 * n] == 0 && bytes[2 * n + 1] == 0);
        if 0 <= i < n {
            assert((2 * i) / 2 == i && (2 * i + 1) / 2 == i);
            assert(all[i] == exe[i]);
        }
    }
}

/// The start counts as switched on if and only if the value names the running file, but
/// for the case of ASCII letters: not if there is no value, if the name of the file is
/// not known, or if the value names another file.
pub proof fn law_value_names_one_file(value: Seq<u16>, exe: Seq<u16>)
    requires
        value.len() > 0,
        value.last() != 0,
    ensures
        names_file(Some(le_bytes(value.push(0))), exe) <==> exe.len() > 0
            && equal_ignoring_ascii_case(utf16_lossy(value), utf16_lossy(exe)),
        names_file(Some(le_bytes(value)), exe) <==> exe.len() > 0 && equal_ignoring_ascii_case(
            utf16_lossy(value),
            utf16_lossy(exe),
        ),
        !names_file(None, exe),
{
    lemma_units_of_le_bytes(value.push(0));
    lemma_units_of_le_bytes(value);
    lemma_null_is_decoded(value);
    lemma_last_unit(value);
    let text = utf16_lossy(value);
    assert(text.push('\0').drop_last() =~= text);
    assert(trim_end_matches(text, '\0') == text);
    assert(trim_end_matches(text.push('\0'), '\0') == trim_end_matches(text, '\0'));
}

/// What is done to the registry value, and the value itself, are seen as they are.
pub proof fn law_changes_are_seen(bytes: Vec<u8>)
    ensures
        StartupChange::Write(bytes)@ == ChangeView::Write(bytes@),
        StartupChange::Delete@ == ChangeView::Delete,
        StartupChange::Keep@ == ChangeView::Keep,
        value_bytes(Some(bytes)) == Some(bytes@),
        value_bytes(None) is None,
{
}

} // verus!
