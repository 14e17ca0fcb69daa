//! Percent-encoding of form values.
use vstd::prelude::*;
use vstd::utf8::{encode_utf8, encode_utf8_decode_utf8};

verus! {

/// The characters that stand for themselves: ASCII letters and digits, and
/// `-_.~`.
pub open spec fn is_unreserved(c: char) -> bool {
    ||| 'A' <= c <= 'Z'
    ||| 'a' <= c <= 'z'
    ||| '0' <= c <= '9'
    ||| c == '-'
    ||| c == '_'
    ||| c == '.'
    ||| c == '~'
}

/// The capital hexadecimal digit of a number below sixteen.
pub open spec fn hex_digit(d: nat) -> char {
    if d < 10 {
        (48 + d) as char
    } else {
        (55 + d) as char
    }
}

/// How a byte is written: as itself, or as a percent sign and two digits.
pub open spec fn encoded_byte(b: u8) -> Seq<char> {
    if is_unreserved(b as char) {
        seq![b as char]
    } else {
        seq!['%', hex_digit((b / 16) as nat), hex_digit((b % 16) as nat)]
    }
}

/// How a sequence of bytes is written.
pub open spec fn encoded(bytes: Seq<u8>) -> Seq<char>
    decreases bytes.len(),
{
    if bytes.len() == 0 {
        Seq::empty()
    } else {
        encoded_byte(bytes[0]) + encoded(bytes.skip(1))
    }
}

fn hex(d: u8) -> (c: char)
    requires
        d < 16,
    ensures
        c == hex_digit(d as nat),
{
    if d < 10 {
        (48 + d) as char
    } else {
        (55 + d) as char
    }
}

/// Encodes the UTF-8 bytes of `value`.
pub fn url_encode(value: &str) -> (r: String)
    ensures
        r@ == encoded(encode_utf8(value@)),
{
    let bytes = value.as_bytes();
    let mut out = String::new();
    let mut i: usize = 0;
    assert(bytes@.skip(0) =~= bytes@);
    assert(out@ + encoded(bytes@) =~= encoded(bytes@));
    while i < bytes.len()
        invariant
            i <= bytes@.len(),
            out@ + encoded(bytes@.skip(i as int)) == encoded(bytes@),
        decreases bytes@.len() - i,
    {
        let b: u8 = bytes[i];
        let ghost before = out@;
        let c: char = b as char;
        if ('A' <= c && c <= 'Z') || ('a' <= c && c <= 'z') || ('0' <= c && c <= '9') || c == '-'
            || c == '_' || c == '.' || c == '~' {
            out.push(c);
        } else {
            out.push('%');
            out.push(hex(b / 16));
            out.push(hex(b % 16));
        }
        proof {
            let rest = bytes@.skip(i as int);
            assert(rest[0] == b);
            assert(rest.skip(1) =~= bytes@.skip(i + 1));
            assert(out@ =~= before + encoded_byte(b));
            assert(before + (encoded_byte(b) + encoded(rest.skip(1))) =~= out@ + encoded(
                rest.skip(1),
            ));
        }
        i = i + 1;
    }
    assert(bytes@.skip(i as int) =~= Seq::<u8>::empty());
    assert(out@ + encoded(bytes@.skip(i as int)) =~= out@);
    out
}

/// The value of a hexadecimal digit.
pub open spec fn hex_value(c: char) -> nat {
    if '0' <= c <= '9' {
        (c as nat - 48) as nat
    } else {
        (c as nat - 55) as nat
    }
}

/// The bytes that an encoded text stands for.
pub open spec fn decoded(s: Seq<char>) -> Seq<u8>
    decreases s.len(),
{
    if s.len() == 0 {
        Seq::empty()
    } else if s[0] == '%' && s.len() >= 3 {
        seq![(hex_value(s[1]) * 16 + hex_value(s[2])) as u8] + decoded(s.skip(3))
    } else {
        seq![s[0] as u8] + decoded(s.skip(1))
    }
}

/// Decoding gives back the bytes that were encoded.
pub proof fn law_decoded_encoded(bytes: Seq<u8>)
    ensures
        decoded(encoded(bytes)) == bytes,
    decreases bytes.len(),
{
    if bytes.len() > 0 {
        let b = bytes[0];
        let rest = bytes.skip(1);
        law_decoded_encoded(rest);
        let s = encoded(bytes);
        if is_unreserved(b as char) {
            assert(s[0] == b as char);
            assert(s.skip(1) =~= encoded(rest));
            assert((b as char) as u8 == b);
        } else {
            assert(s.len() >= 3);
            assert(s[1] == hex_digit((b / 16) as nat));
            assert(s[2] == hex_digit((b % 16) as nat));
            assert(s.skip(3) =~= encoded(rest));
            assert(hex_value(s[1]) == b / 16);
            assert(hex_value(s[2]) == b % 16);
        }
        assert(decoded(s) =~= bytes);
    } else {
        assert(decoded(encoded(bytes)) =~= bytes);
    }
}

/// Different texts are encoded differently.
pub proof fn law_encoding_is_injective(a: Seq<char>, b: Seq<char>)
    requires
        encoded(encode_utf8(a)) == encoded(encode_utf8(b)),
    ensures
        a == b,
{
    law_decoded_encoded(encode_utf8(a));
    law_decoded_encoded(encode_utf8(b));
    encode_utf8_decode_utf8(a);
    encode_utf8_decode_utf8(b);
}

/// Whether a character is a capital hexadecimal digit.
pub open spec fn is_hex_digit(c: char) -> bool {
    '0' <= c <= '9' || 'A' <= c <= 'F'
}

/// An encoded text consists of percent signs and unreserved characters alone.
/// Behind each percent sign stand two capital hexadecimal digits, and the byte
/// that they name is not one that stands for itself.
pub proof fn law_encoding_is_safe(bytes: Seq<u8>, i: int)
    requires
        0 <= i < encoded(bytes).len(),
    ensures
        ({
            let s = encoded(bytes);
            &&& s[i] == '%' || is_unreserved(s[i])
            &&& s[i] == '%' ==> {
                &&& i + 2 < s.len()
                &&& is_hex_digit(s[i + 1])
                &&& is_hex_digit(s[i + 2])
                &&& !is_unreserved(((hex_value(s[i + 1]) * 16 + hex_value(s[i + 2])) as u8) as char)
            }
        }),
    decreases bytes.len(),
{
    if bytes.len() > 0 {
        let b = bytes[0];
        let s = encoded(bytes);
        let head = encoded_byte(b);
        let rest = encoded(bytes.skip(1));
        if i >= head.len() {
            let k = i - head.len();
            law_encoding_is_safe(bytes.skip(1), k);
            assert(s[i] == rest[k]);
            if s[i] == '%' {
                assert(s[i + 1] == rest[k + 1]);
                assert(s[i + 2] == rest[k + 2]);
            }
        } else {
            assert(s[i] == head[i]);
            if i == 0 && !is_unreserved(b as char) {
                assert(s[1] == head[1]);
                assert(s[2] == head[2]);
                assert(hex_value(s[1]) == b / 16);
                assert(hex_value(s[2]) == b % 16);
            }
        }
    }
}

/// ASCII letters, digits and the four signs `-_.~` are written as they are, and every
/// other byte takes three characters.
pub proof fn law_plain_characters_stay(b: u8)
    ensures
        ({
            let plain = (65 <= b <= 90) || (97 <= b <= 122) || (48 <= b <= 57) || b == 45 || b == 95
                || b == 46 || b == 126;
            &&& plain ==> encoded(seq![b]) == seq![b as char]
            &&& !plain ==> encoded(seq![b]).len() == 3 && encoded(seq![b])[0] == '%'
        }),
{
    reveal_with_fuel(encoded, 2);
    assert(seq![b].skip(1) =~= Seq::<u8>::empty());
    assert(encoded(seq![b]) =~= encoded_byte(b));
}

/// Bytes are written one after the other.
pub proof fn law_bytes_are_encoded_in_order(a: Seq<u8>, b: Seq<u8>)
    ensures
        encoded(a + b) == encoded(a) + encoded(b),
    decreases a.len(),
{
    if a.len() > 0 {
        law_bytes_are_encoded_in_order(a.skip(1), b);
        assert((a + b).skip(1) =~= a.skip(1) + b);
        assert((a + b)[0] == a[0]);
        assert(encoded(a + b) =~= encoded(a) + encoded(b));
    } else {
        assert(a + b =~= b);
        assert(encoded(a + b) =~= encoded(a) + encoded(b));
    }
}

} // verus!
