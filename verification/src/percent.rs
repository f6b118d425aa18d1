//! Percent-encoding of query-string values: every byte of the UTF-8 form that
//! is not an unreserved character becomes `%` and two upper-case hex digits.

use vstd::prelude::*;
use crate::text::push_char;

verus! {

/// Bytes that stand for themselves: ASCII letters, digits, `-`, `_`, `.`, `~`.
pub open spec fn is_unreserved(b: u8) -> bool {
    ||| 0x41 <= b <= 0x5a
    ||| 0x61 <= b <= 0x7a
    ||| 0x30 <= b <= 0x39
    ||| b == 0x2d
    ||| b == 0x5f
    ||| b == 0x2e
    ||| b == 0x7e
}

/// The upper-case hex digit for a value below 16.
pub open spec fn hex_digit(d: u8) -> char {
    if d < 10 {
        (0x30 + d) as char
    } else {
        (0x41 + d - 10) as char
    }
}

/// What one byte becomes.
pub open spec fn encode_byte(b: u8) -> Seq<char> {
    if is_unreserved(b) {
        seq![b as char]
    } else {
        seq!['%', hex_digit(b / 16), hex_digit(b % 16)]
    }
}

/// The percent-encoding of a byte sequence.
pub open spec fn percent_encoded(bytes: Seq<u8>) -> Seq<char>
    decreases bytes.len(),
{
    if bytes.len() == 0 {
        Seq::empty()
    } else {
        percent_encoded(bytes.drop_last()) + encode_byte(bytes.last())
    }
}

fn hex_digit_exec(d: u8) -> (c: char)
    requires
        d < 16,
    ensures
        c == hex_digit(d),
{
    if d < 10 {
        (0x30 + d) as char
    } else {
        (0x41 + d - 10) as char
    }
}

/// Percent-encodes the UTF-8 bytes of `s`.
pub fn percent_encode(s: &str) -> (out: String)
    ensures
        out@ == percent_encoded(vstd::utf8::encode_utf8(s@)),
{
    let bytes = s.as_bytes();
    let mut out = String::new();
    let mut i: usize = 0;
    while i < bytes.len()
        invariant
            bytes@ == vstd::utf8::encode_utf8(s@),
            i <= bytes@.len(),
            out@ == percent_encoded(bytes@.subrange(0, i as int)),
        decreases bytes.len() - i,
    {
        let b = bytes[i];
        let unreserved = (0x41 <= b && b <= 0x5a) || (0x61 <= b && b <= 0x7a) || (0x30 <= b
            && b <= 0x39) || b == 0x2d || b == 0x5f || b == 0x2e || b == 0x7e;
        if unreserved {
            push_char(&mut out, b as char);
        } else {
            push_char(&mut out, '%');
            push_char(&mut out, hex_digit_exec(b / 16));
            push_char(&mut out, hex_digit_exec(b % 16));
        }
        assert(bytes@.subrange(0, i + 1).drop_last() == bytes@.subrange(0, i as int));
        assert(out@ =~= percent_encoded(bytes@.subrange(0, i + 1)));
        i = i + 1;
    }
    assert(bytes@.subrange(0, bytes@.len() as int) == bytes@);
    out
}

/// A character that stands for itself in a query string.
pub open spec fn is_unreserved_char(c: char) -> bool {
    c <= '\u{7f}' && is_unreserved(c as u8)
}

/// A byte sequence of unreserved bytes encodes to the same characters.
proof fn lemma_unreserved_bytes(bytes: Seq<u8>)
    requires
        forall|i: int| 0 <= i < bytes.len() ==> is_unreserved(#[trigger] bytes[i]),
    ensures
        percent_encoded(bytes) =~= Seq::new(bytes.len(), |i: int| bytes[i] as char),
    decreases bytes.len(),
{
    if bytes.len() > 0 {
        lemma_unreserved_bytes(bytes.drop_last());
    }
}

proof fn lemma_char_at_least_nul(c: char)
    ensures
        '\0' <= c,
{
    assert((c as u32) >= ('\0' as u32));
}

/// Text made only of unreserved characters is left as it is.
pub proof fn law_unreserved_text_unchanged(s: Seq<char>)
    requires
        forall|i: int| 0 <= i < s.len() ==> is_unreserved_char(#[trigger] s[i]),
    ensures
        percent_encoded(vstd::utf8::encode_utf8(s)) == s,
{
    assert forall|i: int| 0 <= i < s.len() implies '\0' <= #[trigger] s[i] <= '\u{7f}' by {
        lemma_char_at_least_nul(s[i]);
    }
    assert(vstd::utf8::is_ascii_chars(s));
    vstd::utf8::is_ascii_chars_encode_utf8(s);
    let bytes = vstd::utf8::encode_utf8(s);
    assert forall|i: int| 0 <= i < bytes.len() implies is_unreserved(#[trigger] bytes[i]) by {
        assert(s[i] as u8 == bytes[i]);
    }
    lemma_unreserved_bytes(bytes);
    assert forall|i: int| 0 <= i < s.len() implies (bytes[i] as char) == s[i] by {
        assert(s[i] as u8 == bytes[i]);
    }
    assert(percent_encoded(bytes) =~= s);
}

/// Every character of an encoding is an unreserved character or `%`: the
/// result can stand in a query string as it is.
pub proof fn law_encoding_is_query_safe(bytes: Seq<u8>)
    ensures
        forall|i: int|
            0 <= i < percent_encoded(bytes).len() ==> is_unreserved_char(
                #[trigger] percent_encoded(bytes)[i],
            ) || percent_encoded(bytes)[i] == '%',
    decreases bytes.len(),
{
    if bytes.len() > 0 {
        law_encoding_is_query_safe(bytes.drop_last());
        let b = bytes.last();
        let front = percent_encoded(bytes.drop_last());
        let e = encode_byte(b);
        assert(percent_encoded(bytes) == front + e);
        assert forall|i: int| 0 <= i < e.len() implies is_unreserved_char(#[trigger] e[i]) || e[i]
            == '%' by {
            if !is_unreserved(b) && i > 0 {
                assert(b / 16 < 16 && b % 16 < 16);
            }
        }
        assert forall|i: int| 0 <= i < percent_encoded(bytes).len() implies is_unreserved_char(
            #[trigger] percent_encoded(bytes)[i],
        ) || percent_encoded(bytes)[i] == '%' by {
            if i >= front.len() {
                assert(percent_encoded(bytes)[i] == e[i - front.len()]);
            } else {
                assert(percent_encoded(bytes)[i] == front[i]);
            }
        }
    }
}

/// The value of an upper-case hex digit character.
pub open spec fn hex_value(c: char) -> int {
    if '0' <= c && c <= '9' {
        (c as int) - ('0' as int)
    } else {
        (c as int) - ('A' as int) + 10
    }
}

/// Percent-decoding, read from the end: a `%` three characters from the end
/// starts an escape of two hex digits; any other character stands for its own
/// byte.
pub open spec fn percent_decoded(s: Seq<char>) -> Seq<u8>
    decreases s.len(),
{
    if s.len() == 0 {
        Seq::empty()
    } else if s.len() >= 3 && s[s.len() - 3] == '%' {
        percent_decoded(s.subrange(0, s.len() - 3)).push(
            (hex_value(s[s.len() - 2]) * 16 + hex_value(s[s.len() - 1])) as u8,
        )
    } else {
        percent_decoded(s.drop_last()).push(s.last() as u8)
    }
}

/// How many bytes are not unreserved.
pub open spec fn reserved_count(bytes: Seq<u8>) -> nat
    decreases bytes.len(),
{
    if bytes.len() == 0 {
        0
    } else {
        reserved_count(bytes.drop_last()) + if is_unreserved(bytes.last()) {
            0nat
        } else {
            1nat
        }
    }
}

/// A character allowed in a query value as it is: an ASCII letter or digit,
/// `-`, `_`, `.`, `~`, or the escape mark `%`.
pub open spec fn is_query_char(c: char) -> bool {
    ||| 'A' <= c && c <= 'Z'
    ||| 'a' <= c && c <= 'z'
    ||| '0' <= c && c <= '9'
    ||| c == '-'
    ||| c == '_'
    ||| c == '.'
    ||| c == '~'
    ||| c == '%'
}

proof fn lemma_hex_digit(d: u8)
    requires
        d < 16,
    ensures
        hex_value(hex_digit(d)) == d as int,
        hex_digit(d) != '%',
        ('0' <= hex_digit(d) && hex_digit(d) <= '9') || ('A' <= hex_digit(d) && hex_digit(d)
            <= 'F'),
{
}

/// The last two characters of an encoding are never `%`.
proof fn lemma_encoding_tail(bytes: Seq<u8>)
    ensures
        percent_encoded(bytes).len() >= 1 ==> percent_encoded(bytes).last() != '%',
        percent_encoded(bytes).len() >= 2 ==> percent_encoded(bytes)[percent_encoded(bytes).len()
            - 2] != '%',
    decreases bytes.len(),
{
    if bytes.len() > 0 {
        let b = bytes.last();
        lemma_encoding_tail(bytes.drop_last());
        let front = percent_encoded(bytes.drop_last());
        let s = percent_encoded(bytes);
        assert(s == front + encode_byte(b));
        if is_unreserved(b) {
            assert(s.last() == b as char);
            if s.len() >= 2 {
                assert(s[s.len() - 2] == front.last());
            }
        } else {
            lemma_hex_digit(b / 16);
            lemma_hex_digit(b % 16);
            assert(s.last() == hex_digit(b % 16));
            assert(s[s.len() - 2] == hex_digit(b / 16));
        }
    }
}

/// Decoding an encoding gives back the bytes: no byte is lost, added or
/// changed.
pub proof fn law_decode_inverts_encode(bytes: Seq<u8>)
    ensures
        percent_decoded(percent_encoded(bytes)) == bytes,
    decreases bytes.len(),
{
    if bytes.len() > 0 {
        let b = bytes.last();
        let rest = bytes.drop_last();
        law_decode_inverts_encode(rest);
        lemma_encoding_tail(rest);
        let front = percent_encoded(rest);
        let s = percent_encoded(bytes);
        assert(s == front + encode_byte(b));
        if is_unreserved(b) {
            assert(s.drop_last() =~= front);
            if s.len() >= 3 {
                assert(s[s.len() - 3] == front[front.len() - 2]);
            }
            assert(s.last() == b as char);
        } else {
            lemma_hex_digit(b / 16);
            lemma_hex_digit(b % 16);
            assert(s[s.len() - 3] == '%');
            assert(s.subrange(0, s.len() - 3) =~= front);
            assert(s[s.len() - 2] == hex_digit(b / 16));
            assert(s[s.len() - 1] == hex_digit(b % 16));
            assert((b / 16) * 16 + b % 16 == b);
        }
        assert(bytes =~= rest.push(b));
    }
}

/// An encoding is one character per unreserved byte and three per other
/// byte.
pub proof fn law_encoding_length(bytes: Seq<u8>)
    ensures
        percent_encoded(bytes).len() == bytes.len() + 2 * reserved_count(bytes),
    decreases bytes.len(),
{
    if bytes.len() > 0 {
        law_encoding_length(bytes.drop_last());
    }
}

/// Every character of an encoding is an ASCII letter or digit, `-`, `_`,
/// `.`, `~` or `%`.
pub proof fn law_encoding_alphabet(bytes: Seq<u8>)
    ensures
        forall|i: int|
            0 <= i < percent_encoded(bytes).len() ==> is_query_char(
                #[trigger] percent_encoded(bytes)[i],
            ),
    decreases bytes.len(),
{
    if bytes.len() > 0 {
        law_encoding_alphabet(bytes.drop_last());
        let b = bytes.last();
        let front = percent_encoded(bytes.drop_last());
        let e = encode_byte(b);
        assert(percent_encoded(bytes) == front + e);
        if !is_unreserved(b) {
            lemma_hex_digit(b / 16);
            lemma_hex_digit(b % 16);
        }
        assert forall|i: int| 0 <= i < e.len() implies is_query_char(#[trigger] e[i]) by {}
        assert forall|i: int| 0 <= i < percent_encoded(bytes).len() implies is_query_char(
            #[trigger] percent_encoded(bytes)[i],
        ) by {
            if i >= front.len() {
                assert(percent_encoded(bytes)[i] == e[i - front.len()]);
            } else {
                assert(percent_encoded(bytes)[i] == front[i]);
            }
        }
    }
}

} // verus!
