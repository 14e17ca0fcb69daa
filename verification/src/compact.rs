//! The short form of a usage line, as it is drawn beside a bar.
use vstd::prelude::*;

use crate::localization::Strings;
use crate::models::SectionView;
use crate::poller::{countdown, unknown, unknown_text, usage_line};
use crate::text::{
    chars_of, decimal, is_digit, is_white_space, join_from, joined, law_stripping_leaves_the_text,
    len_without_trailing, lemma_decimal_reads_back, pad_left, parse_u32, parsed_u32, push_padded_decimal, same_text,
    split_words, string_from_chars, texts, trim_end_matches, trim_start, unsigned_body, word_len,
    words,
};

verus! {

/// The percentage that a text starts with: its first word without percent
/// signs at the end, if that is a number. It is right-aligned to three places.
pub open spec fn percent_part(text: Seq<char>) -> Option<Seq<char>> {
    let ws = words(text);
    if ws.len() == 0 || ws[0] == unknown_text() {
        None
    } else {
        match parsed_u32(trim_end_matches(ws[0], '%')) {
            Some(n) => Some(pad_left(decimal(n as nat), 3, ' ').push('%')),
            None => None,
        }
    }
}

/// What follows the second word of a text, with single spaces between the
/// words, unless nothing follows.
pub open spec fn countdown_part(text: Seq<char>) -> Option<Seq<char>> {
    let ws = words(text);
    if ws.len() <= 2 {
        None
    } else {
        Some(joined(ws.skip(2), seq![' ']))
    }
}

/// The short form of a text that starts with a percentage, with or without
/// what follows it.
pub open spec fn provider_part(text: Seq<char>, include_countdown: bool) -> Option<Seq<char>> {
    match percent_part(text) {
        Some(percent) => Some(
            match countdown_part(text) {
                Some(rest) if include_countdown => percent.push(' ') + rest,
                _ => percent,
            },
        ),
        None => None,
    }
}

/// The short form of a text, or the sign for what is not known.
pub open spec fn short_form(text: Seq<char>) -> Seq<char> {
    match provider_part(text, true) {
        Some(short) => short,
        None => unknown_text(),
    }
}

/// The text that a result holds.
pub open spec fn text_view(r: Option<String>) -> Option<Seq<char>> {
    match r {
        Some(s) => Some(s@),
        None => None,
    }
}

/// Writes the percentage that a text starts with.
pub fn compact_percent(text: &str) -> (r: Option<String>)
    ensures
        text_view(r) == percent_part(text@),
{
    let ws = split_words(text);
    if ws.len() == 0 {
        assert(texts(ws@).len() == 0);
        return None;
    }
    assert(texts(ws@)[0] == ws@[0]@);
    proof {
        reveal_strlit("--");
        assert("--"@ =~= unknown_text());
    }
    if same_text(ws[0].as_str(), "--") {
        return None;
    }
    let first = chars_of(ws[0].as_str());
    let len = len_without_trailing(&first, '%');
    let number = chars_of(string_from_chars(&first, 0, len).as_str());
    assert(number@ =~= first@.take(len as int));
    match parse_u32(&number) {
        None => None,
        Some(n) => {
            let mut out = String::new();
            push_padded_decimal(&mut out, n as u64, 3, ' ');
            assert(out@ =~= pad_left(decimal(n as nat), 3, ' '));
            out.push('%');
            Some(out)
        },
    }
}

/// Writes what follows the second word of a text.
pub fn compact_countdown(text: &str) -> (r: Option<String>)
    ensures
        text_view(r) == countdown_part(text@),
{
    let ws = split_words(text);
    assert(texts(ws@).len() == ws@.len());
    if ws.len() <= 2 {
        return None;
    }
    proof {
        reveal_strlit(" ");
        assert(" "@ =~= seq![' ']);
    }
    Some(join_from(&ws, 2, " "))
}

/// Writes the short form of a text that starts with a percentage.
pub fn compact_provider_text(text: &str, include_countdown: bool) -> (r: Option<String>)
    ensures
        text_view(r) == provider_part(text@, include_countdown),
{
    match compact_percent(text) {
        None => None,
        Some(percent) => {
            let mut compact = percent;
            if include_countdown {
                if let Some(rest) = compact_countdown(text) {
                    compact.push(' ');
                    compact.append(rest.as_str());
                }
            }
            Some(compact)
        },
    }
}

/// Writes the short form of a text, or the sign for what is not known.
pub fn compact_codex_text(codex_text: &str) -> (r: String)
    ensures
        r@ == short_form(codex_text@),
{
    match compact_provider_text(codex_text, true) {
        Some(short) => short,
        None => unknown(),
    }
}

/// Whether a text is one word: not empty and without white space.
pub open spec fn is_word(s: Seq<char>) -> bool {
    s.len() > 0 && forall|i: int| 0 <= i < s.len() ==> !is_white_space(#[trigger] s[i])
}

proof fn lemma_word_len_of_word(word: Seq<char>, rest: Seq<char>)
    requires
        forall|i: int| 0 <= i < word.len() ==> !is_white_space(#[trigger] word[i]),
        rest.len() == 0 || is_white_space(rest[0]),
    ensures
        word_len(word + rest) == word.len(),
    decreases word.len(),
{
    let s = word + rest;
    if word.len() > 0 {
        let tail = word.skip(1);
        assert forall|i: int| 0 <= i < tail.len() implies !is_white_space(#[trigger] tail[i]) by {
            assert(tail[i] == word[i + 1]);
        }
        lemma_word_len_of_word(tail, rest);
        assert(s.skip(1) =~= tail + rest);
        assert(s[0] == word[0]);
    } else {
        assert(s =~= rest);
    }
}

/// A word in front of a space or of nothing is the first word of the whole.
proof fn lemma_first_word(word: Seq<char>, rest: Seq<char>)
    requires
        is_word(word),
        rest.len() == 0 || is_white_space(rest[0]),
    ensures
        words(word + rest) == seq![word] + words(rest),
{
    let s = word + rest;
    assert(s[0] == word[0]);
    assert(trim_start(s) == s);
    lemma_word_len_of_word(word, rest);
    assert(s.take(word.len() as int) =~= word);
    assert(s.skip(word.len() as int) =~= rest);
}

/// A space in front changes no word.
proof fn lemma_leading_space(rest: Seq<char>)
    ensures
        words(seq![' '] + rest) == words(rest),
{
    let s = seq![' '] + rest;
    assert(s.skip(1) =~= rest);
    assert(trim_start(s) == trim_start(rest));
}

/// Beside a bar stands what the usage line says: the percentage, right-aligned
/// to three places, and the words of the countdown if there are any.
pub proof fn law_short_form_of_usage_line(section: SectionView, strings: Strings, now: int)
    ensures
        ({
            let left = words(countdown(section.resets_at, now, strings));
            let percent = pad_left(
                decimal(section.percentage.remaining_whole as nat),
                3,
                ' ',
            ).push('%');
            short_form(usage_line(section, strings, now)) == if left.len() == 0 {
                percent
            } else {
                percent.push(' ') + joined(left, seq![' '])
            }
        }),
{
    let n = section.percentage.remaining_whole;
    let number = decimal(n as nat);
    let first = number.push('%');
    let left = countdown(section.resets_at, now, strings);
    let line = usage_line(section, strings, now);
    let none = Seq::<char>::empty();
    lemma_decimal_reads_back(n as nat);
    assert forall|i: int| 0 <= i < first.len() implies !is_white_space(#[trigger] first[i]) by {
        if i < number.len() {
            assert(first[i] == number[i]);
        }
    }
    assert(words(none) =~= Seq::empty());
    if left.len() == 0 {
        assert(left =~= none);
        lemma_first_word(first, none);
        assert(line =~= first + none);
        assert(words(line) =~= seq![first]);
    } else {
        let dot = seq!['\u{00b7}'];
        let rest2 = seq![' '] + left;
        let rest1 = seq![' '] + (dot + rest2);
        assert(line =~= first + rest1);
        lemma_first_word(first, rest1);
        lemma_leading_space(dot + rest2);
        assert(dot[0] == '\u{00b7}');
        lemma_first_word(dot, rest2);
        lemma_leading_space(left);
        assert(words(line) =~= seq![first, dot] + words(left));
        assert(words(line).skip(2) =~= words(left));
    }
    assert(words(line)[0] == first);
    assert(first[0] == number[0]);
    assert(first != unknown_text());
    assert(first.drop_last() =~= number);
    assert(number.last() != '%');
    assert(trim_end_matches(number, '%') == number);
    assert(trim_end_matches(first, '%') == number);
    assert(unsigned_body(number) == number);
    assert(parsed_u32(number) == Some(n));
}

/// The percentage beside a bar always takes four characters, so the countdowns
/// of all rows start at the same place.
pub proof fn law_percentages_line_up(section: SectionView, strings: Strings, now: int)
    requires
        section.percentage.valid(),
    ensures
        ({
            let short = short_form(usage_line(section, strings, now));
            &&& short.len() >= 4
            &&& short[3] == '%'
            &&& short.len() > 4 ==> short[4] == ' '
        }),
{
    law_short_form_of_usage_line(section, strings, now);
    let n = section.percentage.remaining_whole;
    reveal_with_fuel(decimal, 3);
    assert(decimal(n as nat).len() <= 3);
    assert(pad_left(decimal(n as nat), 3, ' ').len() == 3);
}

/// The words of a text are its longest stretches without white space: a word in front
/// of white space, or of nothing, comes first, and white space in front of a text
/// changes nothing.
pub proof fn law_words_are_separated(word: Seq<char>, rest: Seq<char>, blank: char)
    requires
        is_word(word),
        is_white_space(blank),
    ensures
        rest.len() == 0 || is_white_space(rest[0]) ==> words(word + rest) == seq![word] + words(
            rest,
        ),
        words(seq![blank] + rest) == words(rest),
        words(Seq::empty()) == Seq::<Seq<char>>::empty(),
{
    if rest.len() == 0 || is_white_space(rest[0]) {
        lemma_first_word(word, rest);
    }
    let s = seq![blank] + rest;
    assert(s.skip(1) =~= rest);
    assert(trim_start(s) == trim_start(rest));
    assert(words(Seq::empty()) =~= Seq::<Seq<char>>::empty());
}

/// A text whose first word is no percentage, and one without words, is shown as two
/// dashes.
pub proof fn law_other_texts_are_unknown(text: Seq<char>)
    requires
        words(text).len() == 0 || parsed_u32(trim_end_matches(words(text)[0], '%')) is None,
    ensures
        short_form(text) == seq!['-', '-'],
        provider_part(text, true) is None,
        provider_part(text, false) is None,
{
}

/// The short form can be had without the countdown: then it is the percentage alone,
/// which the form with the countdown starts with.
pub proof fn law_countdown_can_be_left_out(text: Seq<char>)
    ensures
        provider_part(text, false) == percent_part(text),
        provider_part(text, true) is Some <==> percent_part(text) is Some,
        provider_part(text, true) matches Some(s) ==> {
            let percent = percent_part(text)->0;
            &&& s.len() >= percent.len()
            &&& s.take(percent.len() as int) == percent
            &&& words(text).len() <= 2 ==> s == percent
            &&& words(text).len() > 2 ==> s.skip(percent.len() as int) == seq![' '] + joined(
                words(text).skip(2),
                seq![' '],
            )
        },
{
    if let Some(s) = provider_part(text, true) {
        let percent = percent_part(text)->0;
        assert(s.take(percent.len() as int) =~= percent);
        if words(text).len() > 2 {
            assert(s.skip(percent.len() as int) =~= seq![' '] + joined(
                words(text).skip(2),
                seq![' '],
            ));
        }
    }
}

/// A text whose first word is a number, with percent signs behind it or not, has that
/// number as its percentage, right-aligned to three places and with one percent sign.
pub proof fn law_first_word_is_the_percentage(text: Seq<char>, n: u32)
    requires
        words(text).len() > 0,
        parsed_u32(trim_end_matches(words(text)[0], '%')) == Some(n),
    ensures
        percent_part(text) matches Some(p) && {
            let number = decimal(n as nat);
            &&& p.last() == '%'
            &&& p.len() == (if number.len() > 3 {
                number.len() + 1
            } else {
                4
            })
            &&& p.drop_last().skip(p.len() - 1 - number.len()) == number
            &&& forall|i: int| 0 <= i < p.len() - 1 - number.len() ==> #[trigger] p[i] == ' '
        },
{
    let w = words(text)[0];
    if w == unknown_text() {
        law_stripping_leaves_the_text(w, '%');
        assert(unsigned_body(w) == w);
        assert(!is_digit(w[0]));
    }
    let number = decimal(n as nat);
    let p = pad_left(number, 3, ' ').push('%');
    assert(p.drop_last() =~= pad_left(number, 3, ' '));
    assert(p.drop_last().skip(p.len() - 1 - number.len()) =~= number);
}

/// The text that a result holds is seen as it is.
pub proof fn law_short_forms_are_seen(text: String)
    ensures
        text_view(Some(text)) == Some(text@),
        text_view(None) is None,
{
}

} // verus!
