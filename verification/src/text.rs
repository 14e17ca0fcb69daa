//! Text as sequences of characters: numbers in decimal, white space, lines
//! and words, with the executable functions that compute them.
use vstd::prelude::*;

verus! {

/// `String::push`: the character goes to the end of the string.
pub assume_specification[ String::push ](s: &mut String, c: char)
    ensures
        final(s)@ == old(s)@.push(c),
;

// ---------------------------------------------------------------------------
// Characters and strings
// ---------------------------------------------------------------------------

/// The views of a sequence of strings.
pub open spec fn texts(v: Seq<String>) -> Seq<Seq<char>> {
    v.map_values(|s: String| s@)
}

/// The characters of a string slice.
pub fn chars_of(s: &str) -> (chars: Vec<char>)
    ensures
        chars@ == s@,
{
    let mut chars: Vec<char> = Vec::new();
    for c in it: s.chars()
        invariant
            chars@ == it.seq().take(it.index()),
            it.seq() == s@,
    {
        chars.push(c);
        assert(it.seq().take(it.index()).push(c) =~= it.seq().take(it.index() + 1));
    }
    assert(s@.take(s@.len() as int) =~= s@);
    chars
}

/// The string that holds the characters `from..to` of `chars`.
pub fn string_from_chars(chars: &Vec<char>, from: usize, to: usize) -> (s: String)
    requires
        from <= to <= chars@.len(),
    ensures
        s@ == chars@.subrange(from as int, to as int),
{
    let mut s = String::new();
    let mut i: usize = from;
    while i < to
        invariant
            from <= i <= to <= chars@.len(),
            s@ == chars@.subrange(from as int, i as int),
        decreases to - i,
    {
        s.push(chars[i]);
        proof {
            assert(chars@.subrange(from as int, i as int).push(chars@[i as int])
                =~= chars@.subrange(from as int, i + 1));
        }
        i = i + 1;
    }
    s
}

/// Whether two string slices hold the same characters.
pub fn same_text(a: &str, b: &str) -> (same: bool)
    ensures
        same == (a@ == b@),
{
    let x = chars_of(a);
    let y = chars_of(b);
    if x.len() != y.len() {
        return false;
    }
    let mut i: usize = 0;
    while i < x.len()
        invariant
            i <= x@.len(),
            x@.len() == y@.len(),
            x@.take(i as int) == y@.take(i as int),
            x@ == a@,
            y@ == b@,
        decreases x@.len() - i,
    {
        if x[i] != y[i] {
            return false;
        }
        assert(x@.take(i + 1) =~= x@.take(i as int).push(x@[i as int]));
        assert(y@.take(i + 1) =~= y@.take(i as int).push(y@[i as int]));
        i = i + 1;
    }
    assert(x@.take(x@.len() as int) =~= x@);
    assert(y@.take(y@.len() as int) =~= y@);
    true
}

/// Copies a string slice into a string of its own.
pub fn copy(s: &str) -> (r: String)
    ensures
        r@ == s@,
{
    s.to_owned()
}

// ---------------------------------------------------------------------------
// Numbers
// ---------------------------------------------------------------------------

/// The decimal digit `d`, for `d` below ten.
pub open spec fn digit(d: nat) -> char {
    (48 + d) as char
}

/// `n` in decimal, without leading zeros.
pub open spec fn decimal(n: nat) -> Seq<char>
    decreases n,
{
    if n < 10 {
        seq![digit(n)]
    } else {
        decimal(n / 10).push(digit(n % 10))
    }
}

/// `s` with as many copies of `fill` in front as it takes to be `width` long.
pub open spec fn pad_left(s: Seq<char>, width: nat, fill: char) -> Seq<char> {
    if s.len() >= width {
        s
    } else {
        Seq::new((width - s.len()) as nat, |i: int| fill) + s
    }
}

/// Appends `n` in decimal.
pub fn push_decimal(out: &mut String, n: u64)
    ensures
        final(out)@ == old(out)@ + decimal(n as nat),
    decreases n,
{
    if n >= 10 {
        push_decimal(out, n / 10);
    }
    let d: u8 = (n % 10) as u8;
    out.push((48u8 + d) as char);
    proof {
        if n >= 10 {
            assert(old(out)@ + decimal((n / 10) as nat).push(digit((n % 10) as nat)) =~= (old(out)@
                + decimal((n / 10) as nat)).push(digit((n % 10) as nat)));
        } else {
            assert(old(out)@ + seq![digit(n as nat)] =~= old(out)@.push(digit(n as nat)));
        }
    }
}

/// Appends `n` in decimal, padded on the left to `width` characters.
pub fn push_padded_decimal(out: &mut String, n: u64, width: usize, fill: char)
    ensures
        final(out)@ == old(out)@ + pad_left(decimal(n as nat), width as nat, fill),
{
    let mut number = String::new();
    push_decimal(&mut number, n);
    assert(number@ =~= decimal(n as nat));
    let len: usize = number.as_str().unicode_len();
    let mut i: usize = len;
    while i < width
        invariant
            len == number@.len(),
            len <= i,
            i <= width || i == len,
            out@ == old(out)@ + Seq::new((i - len) as nat, |k: int| fill),
        decreases width - i,
    {
        out.push(fill);
        proof {
            assert((old(out)@ + Seq::new((i - len) as nat, |k: int| fill)).push(fill)
                =~= old(out)@ + Seq::new((i + 1 - len) as nat, |k: int| fill));
        }
        i = i + 1;
    }
    out.append(number.as_str());
    proof {
        assert(out@ =~= old(out)@ + pad_left(decimal(n as nat), width as nat, fill));
    }
}

/// Whether `c` is one of the ten ASCII digits.
pub open spec fn is_digit(c: char) -> bool {
    '0' <= c <= '9'
}

/// The number that a sequence of digits stands for, read in decimal.
pub open spec fn digits_value(s: Seq<char>) -> nat
    decreases s.len(),
{
    if s.len() == 0 {
        0
    } else {
        digits_value(s.drop_last()) * 10 + (s.last() as nat - 48) as nat
    }
}

/// The digits of a number that may carry a plus sign in front.
pub open spec fn unsigned_body(s: Seq<char>) -> Seq<char> {
    if s.len() > 0 && s[0] == '+' {
        s.skip(1)
    } else {
        s
    }
}

/// The 32-bit number written in `s`: an optional plus sign and then at least
/// one digit, and nothing else. Nothing if `s` is not of that form or the
/// number is too large.
pub open spec fn parsed_u32(s: Seq<char>) -> Option<u32> {
    let body = unsigned_body(s);
    if body.len() > 0 && (forall|i: int| 0 <= i < body.len() ==> is_digit(#[trigger] body[i]))
        && digits_value(body) <= u32::MAX {
        Some(digits_value(body) as u32)
    } else {
        None
    }
}

proof fn lemma_digits_value_prefix(s: Seq<char>, n: int)
    requires
        0 <= n <= s.len(),
    ensures
        digits_value(s.take(n)) <= digits_value(s),
    decreases s.len(),
{
    if n == s.len() {
        assert(s.take(n) =~= s);
    } else {
        lemma_digits_value_prefix(s.drop_last(), n);
        assert(s.drop_last().take(n) =~= s.take(n));
    }
}

/// Reads a 32-bit number, as `str::parse` does.
pub fn parse_u32(chars: &Vec<char>) -> (r: Option<u32>)
    ensures
        r == parsed_u32(chars@),
{
    let start: usize = if chars.len() > 0 && chars[0] == '+' {
        1
    } else {
        0
    };
    let ghost body = unsigned_body(chars@);
    assert(body =~= chars@.skip(start as int));
    if start == chars.len() {
        return None;
    }
    let mut value: u64 = 0;
    let mut i: usize = start;
    while i < chars.len()
        invariant
            start <= i <= chars@.len(),
            start <= 1,
            body == chars@.skip(start as int),
            body == unsigned_body(chars@),
            value == digits_value(body.take(i - start)),
            value <= u32::MAX,
            forall|k: int| 0 <= k < i - start ==> is_digit(#[trigger] body[k]),
        decreases chars@.len() - i,
    {
        let c = chars[i];
        assert(body[i - start] == c);
        if !('0' <= c && c <= '9') {
            return None;
        }
        value = value * 10 + (c as u64 - 48);
        proof {
            assert(body.take(i + 1 - start).drop_last() =~= body.take(i - start));
            assert(body.take(i + 1 - start).last() == c);
            lemma_digits_value_prefix(body, i + 1 - start);
        }
        if value > u32::MAX as u64 {
            return None;
        }
        i = i + 1;
    }
    assert(body.take(body.len() as int) =~= body);
    Some(value as u32)
}

/// Every number in decimal consists of digits, has at least one of them, and
/// reads back as itself.
pub proof fn lemma_decimal_reads_back(n: nat)
    ensures
        decimal(n).len() > 0,
        forall|i: int| 0 <= i < decimal(n).len() ==> is_digit(#[trigger] decimal(n)[i]),
        digits_value(decimal(n)) == n,
    decreases n,
{
    if n < 10 {
        reveal_with_fuel(digits_value, 2);
        assert(decimal(n).drop_last() =~= Seq::<char>::empty());
    } else {
        lemma_decimal_reads_back(n / 10);
        assert(decimal(n).drop_last() =~= decimal(n / 10));
        assert forall|i: int| 0 <= i < decimal(n).len() implies is_digit(#[trigger] decimal(n)[i]) by {
            if i < decimal(n / 10).len() {
                assert(decimal(n)[i] == decimal(n / 10)[i]);
            }
        }
    }
}

// ---------------------------------------------------------------------------
// White space, lines and words
// ---------------------------------------------------------------------------

/// The characters that Unicode gives the property `White_Space`.
pub open spec fn is_white_space(c: char) -> bool {
    let u = c as u32;
    ||| 0x09 <= u <= 0x0d
    ||| u == 0x20
    ||| u == 0x85
    ||| u == 0xa0
    ||| u == 0x1680
    ||| 0x2000 <= u <= 0x200a
    ||| u == 0x2028
    ||| u == 0x2029
    ||| u == 0x202f
    ||| u == 0x205f
    ||| u == 0x3000
}

/// Whether `c` is white space, as `char::is_whitespace` has it.
pub fn white_space(c: char) -> (r: bool)
    ensures
        r == is_white_space(c),
{
    let u: u32 = c as u32;
    (0x09 <= u && u <= 0x0d) || u == 0x20 || u == 0x85 || u == 0xa0 || u == 0x1680 || (0x2000 <= u
        && u <= 0x200a) || u == 0x2028 || u == 0x2029 || u == 0x202f || u == 0x205f || u == 0x3000
}

/// `s` without the white space in front.
pub open spec fn trim_start(s: Seq<char>) -> Seq<char>
    decreases s.len(),
{
    if s.len() > 0 && is_white_space(s[0]) {
        trim_start(s.skip(1))
    } else {
        s
    }
}

/// `s` without the white space at its end.
pub open spec fn trim_end(s: Seq<char>) -> Seq<char>
    decreases s.len(),
{
    if s.len() > 0 && is_white_space(s.last()) {
        trim_end(s.drop_last())
    } else {
        s
    }
}

/// `s` without the white space around it.
pub open spec fn trimmed(s: Seq<char>) -> Seq<char> {
    trim_end(trim_start(s))
}

/// The index of the first character at or after `from` that is not white
/// space.
fn skip_white_space(chars: &Vec<char>, from: usize) -> (i: usize)
    requires
        from <= chars@.len(),
    ensures
        from <= i <= chars@.len(),
        trim_start(chars@.skip(from as int)) == chars@.skip(i as int),
        i < chars@.len() ==> !is_white_space(chars@[i as int]),
{
    let mut i: usize = from;
    while i < chars.len() && white_space(chars[i])
        invariant
            from <= i <= chars@.len(),
            trim_start(chars@.skip(from as int)) == trim_start(chars@.skip(i as int)),
        decreases chars@.len() - i,
    {
        proof {
            assert(chars@.skip(i as int)[0] == chars@[i as int]);
            assert(chars@.skip(i as int).skip(1) =~= chars@.skip(i + 1));
        }
        i = i + 1;
    }
    proof {
        if i < chars@.len() {
            assert(chars@.skip(i as int)[0] == chars@[i as int]);
        }
    }
    i
}

/// Removes the white space around a text, as `str::trim` does.
pub fn trim(s: &str) -> (r: String)
    ensures
        r@ == trimmed(s@),
{
    let chars = chars_of(s);
    let start = skip_white_space(&chars, 0);
    assert(chars@.skip(0) =~= s@);
    let mut end: usize = chars.len();
    assert(chars@.subrange(start as int, end as int) =~= chars@.skip(start as int));
    while start < end && white_space(chars[end - 1])
        invariant
            start <= end <= chars@.len(),
            trim_end(chars@.subrange(start as int, end as int)) == trimmed(s@),
        decreases end,
    {
        proof {
            let sub = chars@.subrange(start as int, end as int);
            assert(sub.last() == chars@[end - 1]);
            assert(sub.drop_last() =~= chars@.subrange(start as int, end - 1));
        }
        end = end - 1;
    }
    proof {
        let sub = chars@.subrange(start as int, end as int);
        if start < end {
            assert(sub.last() == chars@[end - 1]);
        }
    }
    string_from_chars(&chars, start, end)
}

/// How many characters stand before the first line feed of `s`.
pub open spec fn line_len(s: Seq<char>) -> nat
    decreases s.len(),
{
    if s.len() == 0 || s[0] == '\n' {
        0
    } else {
        1 + line_len(s.skip(1))
    }
}

/// `s` without a carriage return at its end.
pub open spec fn strip_cr(s: Seq<char>) -> Seq<char> {
    if s.len() > 0 && s.last() == '\r' {
        s.drop_last()
    } else {
        s
    }
}

/// The lines of `s`: what stands before each line feed, without a carriage
/// return directly in front of it, and what stands after the last one if that
/// is not empty.
pub open spec fn lines(s: Seq<char>) -> Seq<Seq<char>>
    decreases s.len(),
{
    if s.len() == 0 {
        Seq::empty()
    } else if line_len(s) >= s.len() {
        seq![s]
    } else {
        seq![strip_cr(s.take(line_len(s) as int))] + lines(s.skip(line_len(s) as int + 1))
    }
}

/// Splits a text into lines, as `str::lines` does.
pub fn split_lines(s: &str) -> (r: Vec<String>)
    ensures
        texts(r@) == lines(s@),
{
    let chars = chars_of(s);
    let mut out: Vec<String> = Vec::new();
    let mut pos: usize = 0;
    assert(chars@.skip(0) =~= s@);
    assert(texts(out@) + lines(s@) =~= lines(s@));
    while pos < chars.len()
        invariant
            pos <= chars@.len(),
            texts(out@) + lines(chars@.skip(pos as int)) == lines(s@),
        decreases chars@.len() - pos,
    {
        let ghost rest = chars@.skip(pos as int);
        let mut k: usize = pos;
        while k < chars.len() && chars[k] != '\n'
            invariant
                pos <= k <= chars@.len(),
                line_len(chars@.skip(pos as int)) == (k - pos) + line_len(chars@.skip(k as int)),
            decreases chars@.len() - k,
        {
            proof {
                assert(chars@.skip(k as int)[0] == chars@[k as int]);
                assert(chars@.skip(k as int).skip(1) =~= chars@.skip(k + 1));
            }
            k = k + 1;
        }
        proof {
            if k < chars@.len() {
                assert(chars@.skip(k as int)[0] == chars@[k as int]);
            }
            assert(line_len(rest) == k - pos);
        }
        let ghost before = out@;
        if k == chars.len() {
            let line = string_from_chars(&chars, pos, k);
            out.push(line);
            proof {
                assert(line@ =~= rest);
                assert(texts(out@) =~= texts(before).push(rest));
                assert(texts(before) + lines(rest) =~= texts(out@));
                assert(chars@.skip(k as int) =~= Seq::<char>::empty());
                assert(texts(out@) + lines(chars@.skip(k as int)) =~= texts(out@));
            }
            pos = k;
        } else {
            let end: usize = if k > pos && chars[k - 1] == '\r' {
                k - 1
            } else {
                k
            };
            let line = string_from_chars(&chars, pos, end);
            out.push(line);
            proof {
                let whole = rest.take(k - pos);
                assert(whole =~= chars@.subrange(pos as int, k as int));
                assert(line@ =~= strip_cr(whole));
                assert(rest.skip(k - pos + 1) =~= chars@.skip(k + 1));
                assert(texts(out@) =~= texts(before).push(strip_cr(whole)));
                assert(texts(out@) + lines(chars@.skip(k + 1)) =~= texts(before) + (seq![
                    strip_cr(whole),
                ] + lines(chars@.skip(k + 1))));
            }
            pos = k + 1;
        }
    }
    assert(chars@.skip(pos as int) =~= Seq::<char>::empty());
    assert(texts(out@) + lines(chars@.skip(pos as int)) =~= texts(out@));
    out
}

/// How many characters stand before the first white space of `s`.
pub open spec fn word_len(s: Seq<char>) -> nat
    decreases s.len(),
{
    if s.len() == 0 || is_white_space(s[0]) {
        0
    } else {
        1 + word_len(s.skip(1))
    }
}

/// Trimming makes no text longer, and what it leaves starts with no white
/// space.
pub proof fn lemma_trim_start(s: Seq<char>)
    ensures
        trim_start(s).len() <= s.len(),
        trim_start(s).len() > 0 ==> !is_white_space(trim_start(s)[0]),
    decreases s.len(),
{
    if s.len() > 0 && is_white_space(s[0]) {
        lemma_trim_start(s.skip(1));
    }
}

proof fn lemma_trim_end(s: Seq<char>)
    ensures
        trim_end(s).len() <= s.len(),
        trim_end(s).len() > 0 ==> !is_white_space(trim_end(s).last()) && trim_end(s)[0] == s[0],
    decreases s.len(),
{
    if s.len() > 0 && is_white_space(s.last()) {
        lemma_trim_end(s.drop_last());
    }
}

/// What trimming leaves has no white space around it.
pub proof fn lemma_trimmed(s: Seq<char>)
    ensures
        trimmed(s).len() > 0 ==> !is_white_space(trimmed(s)[0]) && !is_white_space(
            trimmed(s).last(),
        ),
{
    lemma_trim_start(s);
    lemma_trim_end(trim_start(s));
}

/// A word is no longer than the text that it starts, and consists of
/// characters that are not white space; one follows it unless it is all there
/// is.
pub proof fn lemma_word_len(s: Seq<char>)
    ensures
        word_len(s) <= s.len(),
        forall|i: int| 0 <= i < word_len(s) ==> !is_white_space(#[trigger] s[i]),
        word_len(s) < s.len() ==> is_white_space(s[word_len(s) as int]),
    decreases s.len(),
{
    if s.len() > 0 && !is_white_space(s[0]) {
        let rest = s.skip(1);
        lemma_word_len(rest);
        assert forall|i: int| 0 <= i < word_len(s) implies !is_white_space(#[trigger] s[i]) by {
            if i > 0 {
                assert(s[i] == rest[i - 1]);
            }
        }
    }
}

/// The words of `s`: its longest stretches without white space, in order.
pub open spec fn words(s: Seq<char>) -> Seq<Seq<char>>
    decreases s.len(),
{
    let t = trim_start(s);
    if t.len() == 0 {
        Seq::empty()
    } else {
        proof {
            lemma_trim_start(s);
            lemma_word_len(t);
        }
        seq![t.take(word_len(t) as int)] + words(t.skip(word_len(t) as int))
    }
}

/// Splits a text into words, as `str::split_whitespace` does.
pub fn split_words(s: &str) -> (r: Vec<String>)
    ensures
        texts(r@) == words(s@),
{
    let chars = chars_of(s);
    let mut out: Vec<String> = Vec::new();
    assert(chars@.skip(0) =~= s@);
    assert(texts(out@) + words(s@) =~= words(s@));
    let mut pos: usize = 0;
    while pos < chars.len()
        invariant
            pos <= chars@.len(),
            texts(out@) + words(chars@.skip(pos as int)) == words(s@),
        decreases chars@.len() - pos,
    {
        let start = skip_white_space(&chars, pos);
        let ghost rest = chars@.skip(start as int);
        if start == chars.len() {
            assert(texts(out@) + words(chars@.skip(pos as int)) =~= texts(out@));
            assert(chars@.skip(start as int) =~= Seq::<char>::empty());
            assert(words(Seq::<char>::empty()) =~= Seq::empty());
            assert(texts(out@) + words(chars@.skip(start as int)) =~= texts(out@));
            pos = start;
        } else {
            let mut k: usize = start;
            while k < chars.len() && !white_space(chars[k])
                invariant
                    start <= k <= chars@.len(),
                    word_len(chars@.skip(start as int)) == (k - start) + word_len(
                        chars@.skip(k as int),
                    ),
                decreases chars@.len() - k,
            {
                proof {
                    assert(chars@.skip(k as int)[0] == chars@[k as int]);
                    assert(chars@.skip(k as int).skip(1) =~= chars@.skip(k + 1));
                }
                k = k + 1;
            }
            proof {
                if k < chars@.len() {
                    assert(chars@.skip(k as int)[0] == chars@[k as int]);
                }
                assert(word_len(rest) == k - start);
                assert(rest[0] == chars@[start as int]);
                assert(k > start);
            }
            let ghost before = out@;
            let word = string_from_chars(&chars, start, k);
            out.push(word);
            proof {
                assert(word@ =~= rest.take(k - start));
                assert(rest.skip(k - start) =~= chars@.skip(k as int));
                assert(texts(out@) =~= texts(before).push(word@));
                assert(texts(out@) + words(chars@.skip(k as int)) =~= texts(before) + (seq![word@]
                    + words(chars@.skip(k as int))));
            }
            pos = k;
        }
    }
    assert(chars@.skip(pos as int) =~= Seq::<char>::empty());
    assert(words(Seq::<char>::empty()) =~= Seq::empty());
    assert(texts(out@) + words(chars@.skip(pos as int)) =~= texts(out@));
    out
}

/// The parts one after the other, with `sep` between each two of them.
pub open spec fn joined(parts: Seq<Seq<char>>, sep: Seq<char>) -> Seq<char>
    decreases parts.len(),
{
    if parts.len() == 0 {
        Seq::empty()
    } else if parts.len() == 1 {
        parts[0]
    } else {
        joined(parts.drop_last(), sep) + sep + parts.last()
    }
}

/// Whether a text has no line feed in it.
pub open spec fn one_line(s: Seq<char>) -> bool {
    forall|i: int| 0 <= i < s.len() ==> #[trigger] s[i] != '\n'
}

proof fn lemma_line_len(s: Seq<char>, rest: Seq<char>)
    ensures
        line_len(s) <= s.len(),
        line_len(s) < s.len() ==> s[line_len(s) as int] == '\n',
        line_len(s) == s.len() <==> one_line(s),
        line_len(s + rest) == (if line_len(s) < s.len() {
            line_len(s)
        } else {
            s.len() + line_len(rest)
        }),
    decreases s.len(),
{
    if s.len() == 0 {
        assert(s + rest =~= rest);
    } else if s[0] != '\n' {
        let tail = s.skip(1);
        lemma_line_len(tail, rest);
        assert((s + rest).skip(1) =~= tail + rest);
        assert((s + rest)[0] == s[0]);
        if one_line(tail) {
            assert forall|i: int| 0 <= i < s.len() implies #[trigger] s[i] != '\n' by {
                if i > 0 {
                    assert(tail[i - 1] == s[i]);
                }
            }
        } else {
            let i = choose|i: int| 0 <= i < tail.len() && #[trigger] tail[i] == '\n';
            assert(s[i + 1] == '\n');
        }
    } else {
        assert((s + rest)[0] == s[0]);
    }
}

proof fn lemma_one_more_line(s: Seq<char>, line: Seq<char>)
    requires
        s.len() > 0,
        s.last() != '\n',
        line.len() > 0,
        one_line(line),
    ensures
        lines(s + seq!['\n'] + line).len() == lines(s).len() + 1,
    decreases s.len(),
{
    let all = s + seq!['\n'] + line;
    let rest = seq!['\n'] + line;
    assert(all =~= s + rest);
    lemma_line_len(s, rest);
    lemma_line_len(line, Seq::empty());
    let k = line_len(s) as int;
    if k < s.len() {
        let tail = s.skip(k + 1);
        assert(tail.len() > 0 && tail.last() == s.last());
        lemma_one_more_line(tail, line);
        assert(all.skip(k + 1) =~= tail + seq!['\n'] + line);
    } else {
        assert(rest[0] == '\n');
        assert(all.skip(k + 1) =~= line);
        reveal_with_fuel(lines, 2);
    }
}

/// Lines that are joined by line feeds are as many lines again, if none of them
/// is empty or has a line feed in it.
pub proof fn lemma_joined_lines(parts: Seq<Seq<char>>)
    requires
        parts.len() > 0,
        forall|i: int| 0 <= i < parts.len() ==> (#[trigger] parts[i]).len() > 0 && one_line(parts[i]),
    ensures
        lines(joined(parts, seq!['\n'])).len() == parts.len(),
        joined(parts, seq!['\n']).len() > 0,
        joined(parts, seq!['\n']).last() != '\n',
    decreases parts.len(),
{
    let all = joined(parts, seq!['\n']);
    if parts.len() == 1 {
        lemma_line_len(parts[0], Seq::empty());
    } else {
        let front = parts.drop_last();
        lemma_joined_lines(front);
        lemma_one_more_line(joined(front, seq!['\n']), parts.last());
        assert(all.last() == parts.last().last());
    }
}

/// Joins the strings from index `from` on, with `sep` between each two.
pub fn join_from(parts: &Vec<String>, from: usize, sep: &str) -> (r: String)
    requires
        from <= parts@.len(),
    ensures
        r@ == joined(texts(parts@).skip(from as int), sep@),
{
    let mut out = String::new();
    let mut i: usize = from;
    let ghost all = texts(parts@).skip(from as int);
    assert(all.take(0) =~= Seq::<Seq<char>>::empty());
    while i < parts.len()
        invariant
            from <= i <= parts@.len(),
            all == texts(parts@).skip(from as int),
            out@ == joined(all.take(i - from), sep@),
        decreases parts@.len() - i,
    {
        let ghost so_far = out@;
        if i > from {
            out.append(sep);
        }
        out.append(parts[i].as_str());
        proof {
            let upto = all.take(i + 1 - from);
            assert(upto.drop_last() =~= all.take(i - from));
            assert(upto.last() == parts@[i as int]@);
            if i == from {
                assert(out@ =~= parts@[i as int]@);
            } else {
                assert(out@ =~= so_far + sep@ + parts@[i as int]@);
            }
        }
        i = i + 1;
    }
    assert(all.take(all.len() as int) =~= all);
    out
}

/// Joins all the strings, with `sep` between each two.
pub fn join(parts: &Vec<String>, sep: &str) -> (r: String)
    ensures
        r@ == joined(texts(parts@), sep@),
{
    assert(texts(parts@).skip(0) =~= texts(parts@));
    join_from(parts, 0, sep)
}

// ---------------------------------------------------------------------------
// Comparing and stripping
// ---------------------------------------------------------------------------

/// `s` without the copies of `c` at its end.
pub open spec fn trim_end_matches(s: Seq<char>, c: char) -> Seq<char>
    decreases s.len(),
{
    if s.len() > 0 && s.last() == c {
        trim_end_matches(s.drop_last(), c)
    } else {
        s
    }
}

/// How much of `chars` is left when the copies of `c` at its end are removed.
pub fn len_without_trailing(chars: &Vec<char>, c: char) -> (len: usize)
    ensures
        len <= chars@.len(),
        chars@.take(len as int) == trim_end_matches(chars@, c),
{
    let mut end: usize = chars.len();
    assert(chars@.take(end as int) =~= chars@);
    while end > 0 && chars[end - 1] == c
        invariant
            end <= chars@.len(),
            trim_end_matches(chars@.take(end as int), c) == trim_end_matches(chars@, c),
        decreases end,
    {
        proof {
            assert(chars@.take(end as int).last() == chars@[end - 1]);
            assert(chars@.take(end as int).drop_last() =~= chars@.take(end - 1));
        }
        end = end - 1;
    }
    proof {
        if end > 0 {
            assert(chars@.take(end as int).last() == chars@[end - 1]);
        }
    }
    end
}

/// The lower-case letter of an ASCII capital; any other character itself.
pub open spec fn ascii_lower(c: char) -> char {
    if 'A' <= c <= 'Z' {
        (c as u32 + 32) as char
    } else {
        c
    }
}

/// Whether two texts are equal when the case of ASCII letters is ignored.
pub open spec fn equal_ignoring_ascii_case(a: Seq<char>, b: Seq<char>) -> bool {
    a.map_values(|c: char| ascii_lower(c)) == b.map_values(|c: char| ascii_lower(c))
}

fn to_ascii_lower(c: char) -> (r: char)
    ensures
        r == ascii_lower(c),
{
    if 'A' <= c && c <= 'Z' {
        (c as u8 + 32) as char
    } else {
        c
    }
}

/// Compares the first `a_len` characters of `a` with `b`, as
/// `str::eq_ignore_ascii_case` does.
pub fn eq_ignore_ascii_case(a: &Vec<char>, a_len: usize, b: &Vec<char>) -> (same: bool)
    requires
        a_len <= a@.len(),
    ensures
        same == equal_ignoring_ascii_case(a@.take(a_len as int), b@),
{
    let ghost x = a@.take(a_len as int).map_values(|c: char| ascii_lower(c));
    let ghost y = b@.map_values(|c: char| ascii_lower(c));
    if a_len != b.len() {
        assert(x.len() != y.len());
        return false;
    }
    let mut i: usize = 0;
    while i < a_len
        invariant
            i <= a_len,
            a_len <= a@.len(),
            a_len == b@.len(),
            x == a@.take(a_len as int).map_values(|c: char| ascii_lower(c)),
            y == b@.map_values(|c: char| ascii_lower(c)),
            forall|k: int| 0 <= k < i ==> x[k] == y[k],
        decreases a_len - i,
    {
        assert(x[i as int] == ascii_lower(a@[i as int]));
        assert(y[i as int] == ascii_lower(b@[i as int]));
        if to_ascii_lower(a[i]) != to_ascii_lower(b[i]) {
            return false;
        }
        i = i + 1;
    }
    assert(x =~= y);
    true
}

// ---------------------------------------------------------------------------
// Laws of texts
// ---------------------------------------------------------------------------

/// A number below ten is written as its digit, and any other number as the number of
/// its tens with the digit of its ones behind it.
pub proof fn law_decimal_notation(tens: nat, ones: nat)
    requires
        ones < 10,
    ensures
        decimal(ones) == seq![(48 + ones) as char],
        tens > 0 ==> decimal(10 * tens + ones) == decimal(tens).push((48 + ones) as char),
{
    assert((10 * tens + ones) / 10 == tens);
    assert((10 * tens + ones) % 10 == ones);
}

/// A padded text is as wide as it should be, or as it was if it was wider: it ends
/// with the text, and before that stands nothing but the padding.
pub proof fn law_padding_goes_to_the_left(s: Seq<char>, width: nat, fill: char, i: int)
    ensures
        ({
            let p = pad_left(s, width, fill);
            &&& p.len() == s.len() || p.len() == width
            &&& p.len() >= s.len() && p.len() >= width
            &&& p.skip(p.len() - s.len()) == s
            &&& 0 <= i < p.len() - s.len() ==> p[i] == fill
        }),
{
    let p = pad_left(s, width, fill);
    assert(p.skip(p.len() - s.len()) =~= s);
}

proof fn lemma_decimal_starts_with_a_digit(n: nat)
    ensures
        decimal(n).len() > 0,
        decimal(n)[0] != '+',
{
    lemma_decimal_reads_back(n);
    assert(is_digit(decimal(n)[0]));
}

/// A number in decimal, with or without a plus sign, is read as that number if it has
/// 32 bits, and not at all if it is larger. Nothing but digits is read, save for one
/// plus sign in front of them.
pub proof fn law_numbers_are_parsed(n: nat, s: Seq<char>, i: int)
    ensures
        n <= u32::MAX ==> parsed_u32(decimal(n)) == Some(n as u32) && parsed_u32(
            seq!['+'] + decimal(n),
        ) == Some(n as u32),
        n > u32::MAX ==> parsed_u32(decimal(n)) is None,
        parsed_u32(s) is Some && 0 <= i < s.len() ==> '0' <= s[i] <= '9' || (i == 0 && s[0] == '+'),
        parsed_u32(s) is Some ==> s.len() > 0 && s != seq!['+'],
{
    lemma_decimal_reads_back(n);
    lemma_decimal_starts_with_a_digit(n);
    assert((seq!['+'] + decimal(n)).skip(1) =~= decimal(n));
    assert(unsigned_body(decimal(n)) == decimal(n));
    if parsed_u32(s) is Some && 0 <= i < s.len() {
        let body = unsigned_body(s);
        if s[0] == '+' {
            if i > 0 {
                assert(body[i - 1] == s[i]);
                assert(is_digit(body[i - 1]));
            }
        } else {
            assert(is_digit(body[i]));
        }
    }
    if s == seq!['+'] {
        assert(s.skip(1).len() == 0);
    }
}

/// Whether a text is white space throughout.
pub open spec fn all_white_space(s: Seq<char>) -> bool {
    forall|i: int| 0 <= i < s.len() ==> is_white_space(#[trigger] s[i])
}

proof fn lemma_trim_start_of(blank: Seq<char>, rest: Seq<char>)
    requires
        all_white_space(blank),
        rest.len() > 0 ==> !is_white_space(rest[0]),
    ensures
        trim_start(blank + rest) == rest,
    decreases blank.len(),
{
    let s = blank + rest;
    if blank.len() > 0 {
        assert(is_white_space(blank[0]));
        assert(s[0] == blank[0]);
        let tail = blank.skip(1);
        assert forall|i: int| 0 <= i < tail.len() implies is_white_space(#[trigger] tail[i]) by {
            assert(tail[i] == blank[i + 1]);
        }
        lemma_trim_start_of(tail, rest);
        assert(s.skip(1) =~= tail + rest);
    } else {
        assert(s =~= rest);
    }
}

proof fn lemma_trim_end_of(front: Seq<char>, blank: Seq<char>)
    requires
        all_white_space(blank),
        front.len() > 0 ==> !is_white_space(front.last()),
    ensures
        trim_end(front + blank) == front,
    decreases blank.len(),
{
    let s = front + blank;
    if blank.len() > 0 {
        assert(is_white_space(blank[blank.len() - 1]));
        assert(s.last() == blank.last());
        let head = blank.drop_last();
        assert forall|i: int| 0 <= i < head.len() implies is_white_space(#[trigger] head[i]) by {
            assert(head[i] == blank[i]);
        }
        lemma_trim_end_of(front, head);
        assert(s.drop_last() =~= front + head);
    } else {
        assert(s =~= front);
    }
}

/// Trimming takes away the white space in front of a text and behind it, and nothing
/// else.
pub proof fn law_trimming_leaves_the_text(front: Seq<char>, text: Seq<char>, back: Seq<char>)
    requires
        all_white_space(front),
        all_white_space(back),
        text.len() > 0 ==> !is_white_space(text[0]) && !is_white_space(text.last()),
    ensures
        trimmed(front + text + back) == text,
{
    if text.len() > 0 {
        assert(front + text + back =~= front + (text + back));
        assert((text + back)[0] == text[0]);
        lemma_trim_start_of(front, text + back);
        lemma_trim_end_of(text, back);
    } else {
        let blank = front + back;
        assert(front + text + back =~= blank + Seq::<char>::empty());
        assert forall|i: int| 0 <= i < blank.len() implies is_white_space(#[trigger] blank[i]) by {
            if i < front.len() {
                assert(blank[i] == front[i]);
            } else {
                assert(blank[i] == back[i - front.len()]);
            }
        }
        lemma_trim_start_of(blank, Seq::empty());
        assert(text =~= Seq::empty());
    }
}

/// Of the ASCII characters, the space and those from the tab to the carriage return
/// are white space; no letter, no digit and no sign is.
pub proof fn law_ascii_white_space(c: char)
    requires
        c as u32 <= 0x7f,
    ensures
        is_white_space(c) <==> c == ' ' || '\t' <= c <= '\r',
{
}

/// What stands before a line feed is the first line, and the lines of what stands
/// behind it follow; a carriage return directly before the line feed does not belong
/// to the line. A text without a line feed is one line as it stands, unless it is
/// empty.
pub proof fn law_lines_end_at_line_feeds(line: Seq<char>, rest: Seq<char>)
    requires
        one_line(line),
    ensures
        line.len() == 0 || line.last() != '\r' ==> lines(line + seq!['\n'] + rest) == seq![line]
            + lines(rest),
        lines(line + seq!['\r', '\n'] + rest) == seq![line] + lines(rest),
        line.len() > 0 ==> lines(line) == seq![line],
        line.len() == 0 ==> lines(line).len() == 0,
{
    let none = Seq::<char>::empty();
    lemma_line_len(line, none);
    let a = line + seq!['\n'] + rest;
    let tail = seq!['\n'] + rest;
    lemma_line_len(line, tail);
    assert(a =~= line + tail);
    assert(tail[0] == '\n');
    assert(a.take(line.len() as int) =~= line);
    assert(a.skip(line.len() + 1int) =~= rest);
    let ended = line.push('\r');
    let b = line + seq!['\r', '\n'] + rest;
    assert forall|i: int| 0 <= i < ended.len() implies #[trigger] ended[i] != '\n' by {
        if i < line.len() {
            assert(ended[i] == line[i]);
        }
    }
    lemma_line_len(ended, tail);
    assert(b =~= ended + tail);
    assert(b.take(ended.len() as int) =~= ended);
    assert(b.skip(ended.len() + 1int) =~= rest);
    assert(ended.drop_last() =~= line);
}

/// Joining puts the separator between each two parts and nowhere else.
pub proof fn law_joining_separates(parts: Seq<Seq<char>>, last: Seq<char>, sep: Seq<char>)
    ensures
        joined(Seq::empty(), sep) == Seq::<char>::empty(),
        joined(seq![last], sep) == last,
        parts.len() > 0 ==> joined(parts.push(last), sep) == joined(parts, sep) + sep + last,
{
    assert(parts.push(last).drop_last() =~= parts);
}

/// Stripping a character takes away all its copies at the end of a text, and nothing
/// else.
pub proof fn law_stripping_leaves_the_text(s: Seq<char>, c: char)
    ensures
        trim_end_matches(s.push(c), c) == trim_end_matches(s, c),
        s.len() == 0 || s.last() != c ==> trim_end_matches(s, c) == s,
{
    assert(s.push(c).drop_last() =~= s);
}

/// Texts are equal but for the case of ASCII letters if they are equally long and have
/// at each place the same character, or a letter and the other case of that letter.
pub proof fn law_case_is_ignored(a: Seq<char>, b: Seq<char>)
    ensures
        equal_ignoring_ascii_case(a, b) <==> a.len() == b.len() && forall|i: int|
            0 <= i < a.len() ==> {
                let x = #[trigger] a[i];
                ||| x == b[i]
                ||| 'A' <= x <= 'Z' && b[i] as u32 == x as u32 + 32
                ||| 'A' <= b[i] <= 'Z' && x as u32 == b[i] as u32 + 32
            },
{
    let x = a.map_values(|c: char| ascii_lower(c));
    let y = b.map_values(|c: char| ascii_lower(c));
    if x == y {
        assert(x.len() == y.len());
        assert forall|i: int| 0 <= i < a.len() implies {
            let c = #[trigger] a[i];
            ||| c == b[i]
            ||| 'A' <= c <= 'Z' && b[i] as u32 == c as u32 + 32
            ||| 'A' <= b[i] <= 'Z' && c as u32 == b[i] as u32 + 32
        } by {
            assert(x[i] == y[i]);
            assert(x[i] == ascii_lower(a[i]) && y[i] == ascii_lower(b[i]));
        }
    } else if a.len() == b.len() {
        if forall|i: int| 0 <= i < a.len() ==> x[i] == y[i] {
            assert(x =~= y);
        }
        let i = choose|i: int| 0 <= i < a.len() && x[i] != y[i];
        assert(a[i] == a[i]);
        assert(x[i] == ascii_lower(a[i]) && y[i] == ascii_lower(b[i]));
    }
}

/// Texts are seen as they are, one by one.
pub proof fn law_texts_are_seen(v: Seq<String>, i: int)
    ensures
        texts(v).len() == v.len(),
        0 <= i < v.len() ==> texts(v)[i] == v[i]@,
{
}

/// White space are the 25 characters that Unicode lists as such.
pub proof fn law_white_space_is_what_unicode_lists(c: char)
    ensures
        is_white_space(c) <==> seq![
            '\u{9}',
            '\u{a}',
            '\u{b}',
            '\u{c}',
            '\u{d}',
            '\u{20}',
            '\u{85}',
            '\u{a0}',
            '\u{1680}',
            '\u{2000}',
            '\u{2001}',
            '\u{2002}',
            '\u{2003}',
            '\u{2004}',
            '\u{2005}',
            '\u{2006}',
            '\u{2007}',
            '\u{2008}',
            '\u{2009}',
            '\u{200a}',
            '\u{2028}',
            '\u{2029}',
            '\u{202f}',
            '\u{205f}',
            '\u{3000}',
        ].contains(c),
{
    let listed = seq![
        '\u{9}',
        '\u{a}',
        '\u{b}',
        '\u{c}',
        '\u{d}',
        '\u{20}',
        '\u{85}',
        '\u{a0}',
        '\u{1680}',
        '\u{2000}',
        '\u{2001}',
        '\u{2002}',
        '\u{2003}',
        '\u{2004}',
        '\u{2005}',
        '\u{2006}',
        '\u{2007}',
        '\u{2008}',
        '\u{2009}',
        '\u{200a}',
        '\u{2028}',
        '\u{2029}',
        '\u{202f}',
        '\u{205f}',
        '\u{3000}',
    ];
    let u = c as int;
    if is_white_space(c) {
        let i: int = if u <= 0xd {
            u - 9
        } else if u == 0x20 {
            5
        } else if u == 0x85 {
            6
        } else if u == 0xa0 {
            7
        } else if u == 0x1680 {
            8
        } else if u <= 0x200a {
            u - 0x2000 + 9
        } else if u == 0x2028 {
            20
        } else if u == 0x2029 {
            21
        } else if u == 0x202f {
            22
        } else if u == 0x205f {
            23
        } else {
            24
        };
        assert(listed[i] == c);
    }
}

} // verus!
