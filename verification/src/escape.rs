//! Percent escapes in URLs.

use vstd::prelude::*;
use vstd::utf8::{decode_utf8, encode_utf8, valid_utf8};

verus! {

/// The upper-case hexadecimal digit of a number below sixteen.
pub open spec fn hex_upper(n: int) -> char {
    if n < 10 {
        (48 + n) as char
    } else {
        (55 + n) as char
    }
}

/// `b` is the code of an ASCII letter or digit.
pub open spec fn is_alnum(b: u8) -> bool {
    (0x30 <= b <= 0x39) || (0x41 <= b <= 0x5a) || (0x61 <= b <= 0x7a)
}

/// A byte in an escaped text: itself where it is an ASCII letter or digit, and
/// a percent sign with two hexadecimal digits otherwise.
pub open spec fn escape_byte(b: u8) -> Seq<char> {
    if is_alnum(b) {
        seq![b as char]
    } else {
        seq!['%', hex_upper(b as int / 16), hex_upper(b as int % 16)]
    }
}

/// A text with every byte of its UTF-8 form escaped that is no ASCII letter or
/// digit.
pub open spec fn percent_encoded(s: Seq<char>) -> Seq<char> {
    encode_utf8(s).flat_map(|b: u8| escape_byte(b))
}

/// The value of a hexadecimal digit, upper or lower case.
pub open spec fn hex_value(b: u8) -> Option<int> {
    if 0x30 <= b <= 0x39 {
        Some(b - 0x30)
    } else if 0x41 <= b <= 0x46 {
        Some(b - 0x37)
    } else if 0x61 <= b <= 0x66 {
        Some(b - 0x57)
    } else {
        None
    }
}

/// Bytes with every `%` that two hexadecimal digits follow replaced by the byte
/// that they name.
pub open spec fn unescaped_bytes(b: Seq<u8>) -> Seq<u8>
    decreases b.len(),
{
    if b.len() == 0 {
        b
    } else if b.len() >= 3 && b[0] == 0x25 && hex_value(b[1]) is Some && hex_value(b[2]) is Some {
        seq![(hex_value(b[1])->0 * 16 + hex_value(b[2])->0) as u8] + unescaped_bytes(b.skip(3))
    } else {
        seq![b[0]] + unescaped_bytes(b.skip(1))
    }
}

/// The text behind a text with percent escapes, where the bytes are UTF-8.
pub open spec fn percent_decoded(s: Seq<char>) -> Option<Seq<char>> {
    let b = unescaped_bytes(encode_utf8(s));
    if valid_utf8(b) {
        Some(decode_utf8(b))
    } else {
        None
    }
}

/// Calls `percent_encoding::utf8_percent_encode` with its set
/// `NON_ALPHANUMERIC`. The claim: each byte of the UTF-8 form that is an ASCII
/// letter or digit stays, each other becomes `%` and two upper-case digits.
#[verifier::external_body]
pub(crate) fn esc(s: &str) -> (r: String)
    ensures
        r@ == percent_encoded(s@),
{
    percent_encoding::utf8_percent_encode(s, percent_encoding::NON_ALPHANUMERIC).to_string()
}

/// Calls `percent_encoding::percent_decode_str` and its `decode_utf8`. The
/// claim: every `%` with two hexadecimal digits behind it becomes a byte, the
/// other bytes stay, and the outcome is a text exactly when it is UTF-8.
#[verifier::external_body]
pub(crate) fn percent_decode(s: &str) -> (r: Option<String>)
    ensures
        match r {
            Some(t) => percent_decoded(s@) == Some(t@),
            None => percent_decoded(s@) is None,
        },
{
    match percent_encoding::percent_decode_str(s).decode_utf8() {
        Ok(c) => Some(c.to_string()),
        Err(_) => None,
    }
}

/// Characters of ASCII as bytes.
pub open spec fn as_bytes(s: Seq<char>) -> Seq<u8> {
    Seq::new(s.len(), |i: int| s[i] as u8)
}

proof fn lemma_escaped_byte(b: u8, rest: Seq<u8>)
    ensures
        forall|i: int|
            0 <= i < escape_byte(b).len() ==> '\0' <= #[trigger] escape_byte(b)[i] && escape_byte(
                b,
            )[i] <= '\u{7f}',
        unescaped_bytes(as_bytes(escape_byte(b)) + rest) == seq![b] + unescaped_bytes(rest),
{
    let e = as_bytes(escape_byte(b));
    let s = e + rest;
    if is_alnum(b) {
        assert(e =~= seq![b]);
        assert(s[0] == b);
        assert(s.skip(1) =~= rest);
        assert(b != 0x25);
    } else {
        let hi = b as int / 16;
        let lo = b as int % 16;
        assert(0 <= hi < 16 && 0 <= lo < 16 && hi * 16 + lo == b);
        assert(e.len() == 3);
        assert(s[0] == 0x25);
        assert(s[1] == hex_upper(hi) as u8);
        assert(s[2] == hex_upper(lo) as u8);
        assert(hex_value(s[1]) == Some(hi));
        assert(hex_value(s[2]) == Some(lo));
        assert(s.skip(3) =~= rest);
        assert((hi * 16 + lo) as u8 == b);
    }
}

proof fn lemma_unescape_escaped(bytes: Seq<u8>)
    ensures
        ({
            let e = bytes.flat_map(|b: u8| escape_byte(b));
            &&& forall|i: int|
                0 <= i < e.len() ==> '\0' <= #[trigger] e[i] && e[i] <= '\u{7f}'
            &&& unescaped_bytes(as_bytes(e)) == bytes
        }),
    decreases bytes.len(),
{
    let f = |b: u8| escape_byte(b);
    let e = bytes.flat_map(f);
    if bytes.len() == 0 {
        assert(bytes.map_values(f).len() == 0);
        assert(e =~= Seq::<char>::empty());
        assert(as_bytes(e) =~= Seq::<u8>::empty());
        assert(bytes =~= Seq::<u8>::empty());
    } else {
        let b = bytes[0];
        let more = bytes.drop_first();
        let tail = more.flat_map(f);
        lemma_unescape_escaped(more);
        let parts = bytes.map_values(f);
        assert(parts.first() == escape_byte(b));
        assert(parts.drop_first() =~= more.map_values(f));
        assert(e =~= escape_byte(b) + tail);
        lemma_escaped_byte(b, as_bytes(tail));
        assert(as_bytes(e) =~= as_bytes(escape_byte(b)) + as_bytes(tail));
        assert forall|i: int| 0 <= i < e.len() implies '\0' <= #[trigger] e[i] && e[i]
            <= '\u{7f}' by {
            if i < escape_byte(b).len() {
                assert(e[i] == escape_byte(b)[i]);
            } else {
                assert(e[i] == tail[i - escape_byte(b).len()]);
            }
        }
        assert(seq![b] + more =~= bytes);
    }
}

/// A text that was escaped is read back as it was, whatever it holds; and so
/// different texts are escaped differently.
pub proof fn lemma_escape_round_trip(s: Seq<char>)
    ensures
        percent_decoded(percent_encoded(s)) == Some(s),
{
    let bytes = encode_utf8(s);
    let e = percent_encoded(s);
    lemma_unescape_escaped(bytes);
    assert(vstd::utf8::is_ascii_chars(e));
    vstd::utf8::is_ascii_chars_encode_utf8(e);
    assert(encode_utf8(e) =~= as_bytes(e));
    vstd::utf8::encode_utf8_valid_utf8(s);
    vstd::utf8::encode_utf8_decode_utf8(s);
}

/// An ASCII letter or digit stands for itself; every other byte is a percent
/// sign and two digits.
pub proof fn lemma_escaped(b: u8)
    ensures
        is_alnum(b) <==> escape_byte(b).len() == 1,
        is_alnum(b) ==> escape_byte(b) == seq![b as char],
        !is_alnum(b) ==> escape_byte(b).len() == 3 && escape_byte(b)[0] == '%',
{
}

} // verus!
