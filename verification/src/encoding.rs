//! Percent-encoding of text, and the test whether a text is a URL.
//!
//! The encoders and the decoder are those of the `percent-encoding` and
//! `urlencoding` crates, and the URL grammar is that of the `url` crate. What
//! this module claims of them is stated here and believed, not proved.

use vstd::prelude::*;
use vstd::utf8::{
    decode_utf8, encode_utf8, encode_utf8_decode_utf8, encode_utf8_valid_utf8, is_ascii_chars,
    is_ascii_chars_encode_utf8, valid_utf8,
};
use crate::text::text_view;

verus! {

/// The bytes that an encoder leaves as they are.
#[derive(Clone, Copy, Debug)]
pub enum SafeSet {
    /// The ASCII letters and digits.
    Alphanumeric,
    /// The ASCII letters and digits and `-`, `_`, `.`, `~`.
    Unreserved,
}

/// `b` is an ASCII letter or digit.
pub open spec fn is_alphanumeric_byte(b: u8) -> bool {
    ||| 0x30 <= b <= 0x39
    ||| 0x41 <= b <= 0x5A
    ||| 0x61 <= b <= 0x7A
}

impl SafeSet {
    /// Whether the set leaves `b` as it is.
    pub open spec fn keeps(self, b: u8) -> bool {
        match self {
            SafeSet::Alphanumeric => is_alphanumeric_byte(b),
            SafeSet::Unreserved => is_alphanumeric_byte(b) || b == 0x2D || b == 0x5F || b == 0x2E
                || b == 0x7E,
        }
    }
}

/// The upper-case hexadecimal digit for `n`, which is below 16.
pub open spec fn hex_digit(n: u8) -> char {
    if n < 10 {
        (0x30 + n) as char
    } else {
        (0x41 + n - 10) as char
    }
}

/// What one byte becomes: itself where the set keeps it, else `%` and its two
/// hexadecimal digits.
pub open spec fn encoded_byte(b: u8, safe: SafeSet) -> Seq<char> {
    if safe.keeps(b) {
        seq![b as char]
    } else {
        seq!['%', hex_digit(b / 16), hex_digit(b % 16)]
    }
}

/// The percent-encoding of a byte string.
pub open spec fn percent_encoded(bytes: Seq<u8>, safe: SafeSet) -> Seq<char>
    decreases bytes.len(),
{
    if bytes.len() == 0 {
        Seq::empty()
    } else {
        encoded_byte(bytes[0], safe) + percent_encoded(bytes.skip(1), safe)
    }
}

/// The percent-encoding of the UTF-8 form of a text.
pub open spec fn percent_encoded_text(s: Seq<char>, safe: SafeSet) -> Seq<char> {
    percent_encoded(encode_utf8(s), safe)
}

/// The value of the hexadecimal digit `b`, in either case.
pub open spec fn hex_value(b: u8) -> Option<u8> {
    if 0x30 <= b <= 0x39 {
        Some((b - 0x30) as u8)
    } else if 0x41 <= b <= 0x46 {
        Some((b - 0x41 + 10) as u8)
    } else if 0x61 <= b <= 0x66 {
        Some((b - 0x61 + 10) as u8)
    } else {
        None
    }
}

/// A byte string with each `%` that two hexadecimal digits follow replaced,
/// together with the digits, by the byte that they denote. A `%` that no two
/// digits follow stays.
pub open spec fn decoded_bytes(bytes: Seq<u8>) -> Seq<u8>
    decreases bytes.len(),
{
    if bytes.len() == 0 {
        Seq::empty()
    } else if bytes[0] == 0x25 && bytes.len() >= 3 && hex_value(bytes[1]) is Some && hex_value(
        bytes[2],
    ) is Some {
        seq![(hex_value(bytes[1])->0 * 16 + hex_value(bytes[2])->0) as u8] + decoded_bytes(
            bytes.skip(3),
        )
    } else {
        seq![bytes[0]] + decoded_bytes(bytes.skip(1))
    }
}

/// The percent-decoding of a text: the text that the decoded bytes of its
/// UTF-8 form are the UTF-8 form of, or `None` where they are not UTF-8.
pub open spec fn percent_decoded(s: Seq<char>) -> Option<Seq<char>> {
    if valid_utf8(decoded_bytes(encode_utf8(s))) {
        Some(decode_utf8(decoded_bytes(encode_utf8(s))))
    } else {
        None
    }
}

/// Whether `url::Url::parse` accepts a text as an absolute URL.
pub uninterp spec fn url_parses(s: Seq<char>) -> bool;

/// Calls `percent_encoding::percent_encode` with the set `NON_ALPHANUMERIC`.
/// Believed: every byte of the UTF-8 form of `s` that is not an ASCII letter
/// or digit comes out as `%` and two upper-case hexadecimal digits, and the
/// others unchanged.
#[verifier::external_body]
pub(crate) fn encode_non_alphanumeric(s: &str) -> (r: String)
    ensures
        r@ == percent_encoded_text(s@, SafeSet::Alphanumeric),
{
    percent_encoding::percent_encode(s.as_bytes(), percent_encoding::NON_ALPHANUMERIC).to_string()
}

/// Calls `urlencoding::encode`. Believed: every byte of the UTF-8 form of `s`
/// comes out as `%` and two upper-case hexadecimal digits, except the ASCII
/// letters and digits and `-`, `_`, `.`, `~`, which stay.
#[verifier::external_body]
pub(crate) fn encode_component(s: &str) -> (r: String)
    ensures
        r@ == percent_encoded_text(s@, SafeSet::Unreserved),
{
    urlencoding::encode(s).into_owned()
}

/// Calls `urlencoding::decode`. Believed: in the UTF-8 form of `s`, each `%`
/// that two hexadecimal digits follow is replaced, together with the digits,
/// by the byte that they denote, and every other byte stays; the result is
/// the text with these bytes as its UTF-8 form, or `None` where they are not
/// UTF-8.
#[verifier::external_body]
pub(crate) fn decode_component(s: &str) -> (r: Option<String>)
    ensures
        text_view(r) == percent_decoded(s@),
{
    urlencoding::decode(s).ok().map(|t| t.into_owned())
}

/// Calls `url::Url::parse`. Believed: whether it succeeds depends on `s`
/// alone.
#[verifier::external_body]
pub(crate) fn parses_as_url(s: &str) -> (r: bool)
    ensures
        r == url_parses(s@),
{
    url::Url::parse(s).is_ok()
}

/// An encoded byte is one character or three, and begins with `%` exactly
/// where the byte was not kept.
pub proof fn lemma_encoded_byte_shape(b: u8, safe: SafeSet)
    ensures
        safe.keeps(b) ==> encoded_byte(b, safe).len() == 1 && encoded_byte(b, safe)[0] != '%',
        !safe.keeps(b) ==> encoded_byte(b, safe).len() == 3 && encoded_byte(b, safe)[0] == '%',
{
}

/// The hexadecimal digits of two bytes agree only if the bytes do.
pub proof fn lemma_encoded_byte_injective(a: u8, b: u8, safe: SafeSet)
    requires
        safe.keeps(a) == safe.keeps(b),
        encoded_byte(a, safe) == encoded_byte(b, safe),
    ensures
        a == b,
{
    if safe.keeps(a) {
        assert(encoded_byte(a, safe)[0] == a as char);
        assert(encoded_byte(b, safe)[0] == b as char);
    } else {
        assert(encoded_byte(a, safe)[1] == hex_digit(a / 16));
        assert(encoded_byte(b, safe)[1] == hex_digit(b / 16));
        assert(encoded_byte(a, safe)[2] == hex_digit(a % 16));
        assert(encoded_byte(b, safe)[2] == hex_digit(b % 16));
        assert(a / 16 == b / 16);
        assert(a % 16 == b % 16);
    }
}

/// Percent-encoding loses nothing: two byte strings with one encoding are
/// equal.
pub proof fn lemma_percent_encoded_injective(a: Seq<u8>, b: Seq<u8>, safe: SafeSet)
    requires
        percent_encoded(a, safe) == percent_encoded(b, safe),
    ensures
        a == b,
    decreases a.len(),
{
    if a.len() == 0 {
        if b.len() > 0 {
            lemma_encoded_byte_shape(b[0], safe);
            assert(percent_encoded(b, safe).len() > 0);
        }
        assert(a =~= b);
    } else {
        lemma_encoded_byte_shape(a[0], safe);
        assert(percent_encoded(a, safe).len() > 0);
        assert(b.len() > 0);
        lemma_encoded_byte_shape(b[0], safe);
        let ea = encoded_byte(a[0], safe);
        let eb = encoded_byte(b[0], safe);
        let ra = percent_encoded(a.skip(1), safe);
        let rb = percent_encoded(b.skip(1), safe);
        assert((ea + ra)[0] == ea[0]);
        assert((eb + rb)[0] == eb[0]);
        assert(safe.keeps(a[0]) == safe.keeps(b[0]));
        assert(ea.len() == eb.len());
        assert(ea =~= (ea + ra).take(ea.len() as int));
        assert(eb =~= (eb + rb).take(eb.len() as int));
        assert(ra =~= (ea + ra).skip(ea.len() as int));
        assert(rb =~= (eb + rb).skip(eb.len() as int));
        lemma_encoded_byte_injective(a[0], b[0], safe);
        lemma_percent_encoded_injective(a.skip(1), b.skip(1), safe);
        assert(a =~= seq![a[0]] + a.skip(1));
        assert(b =~= seq![b[0]] + b.skip(1));
    }
}

/// Every character of an encoding over the alphanumeric set is an ASCII
/// letter, an ASCII digit or `%`.
pub proof fn lemma_percent_encoded_alphabet(bytes: Seq<u8>, i: int)
    requires
        0 <= i < percent_encoded(bytes, SafeSet::Alphanumeric).len(),
    ensures
        is_key_char(percent_encoded(bytes, SafeSet::Alphanumeric)[i]),
    decreases bytes.len(),
{
    if bytes.len() > 0 {
        let head = encoded_byte(bytes[0], SafeSet::Alphanumeric);
        if i >= head.len() {
            lemma_percent_encoded_alphabet(bytes.skip(1), i - head.len());
        }
    }
}

/// `c` is an ASCII letter, an ASCII digit or `%`.
pub open spec fn is_key_char(c: char) -> bool {
    let u = c as u32;
    ||| 0x30 <= u <= 0x39
    ||| 0x41 <= u <= 0x5A
    ||| 0x61 <= u <= 0x7A
    ||| u == 0x25
}

/// The bytes of a text of ASCII characters.
pub open spec fn ascii_bytes(chars: Seq<char>) -> Seq<u8> {
    Seq::new(chars.len(), |i: int| chars[i] as u8)
}

/// A hexadecimal digit denotes the value that it was written for.
pub proof fn lemma_hex_digit_value(n: u8)
    requires
        n < 16,
    ensures
        hex_value(hex_digit(n) as u8) == Some(n),
        hex_digit(n) as u32 <= 0x7f,
{
}

/// An encoded byte is made of ASCII characters.
pub proof fn lemma_encoded_byte_ascii(b: u8, safe: SafeSet)
    ensures
        is_ascii_chars(encoded_byte(b, safe)),
{
    lemma_hex_digit_value(b / 16);
    lemma_hex_digit_value(b % 16);
}

/// An encoding is made of ASCII characters.
pub proof fn lemma_percent_encoded_ascii(bytes: Seq<u8>, safe: SafeSet)
    ensures
        is_ascii_chars(percent_encoded(bytes, safe)),
    decreases bytes.len(),
{
    if bytes.len() > 0 {
        lemma_encoded_byte_ascii(bytes[0], safe);
        lemma_percent_encoded_ascii(bytes.skip(1), safe);
    }
}

/// Decoding the bytes of an encoding gives back what was encoded.
pub proof fn lemma_decoded_bytes_of_encoding(bytes: Seq<u8>, safe: SafeSet)
    ensures
        decoded_bytes(ascii_bytes(percent_encoded(bytes, safe))) == bytes,
    decreases bytes.len(),
{
    if bytes.len() == 0 {
        assert(ascii_bytes(percent_encoded(bytes, safe)) =~= Seq::<u8>::empty());
        assert(bytes =~= Seq::<u8>::empty());
    } else {
        let b = bytes[0];
        let head = encoded_byte(b, safe);
        let rest = percent_encoded(bytes.skip(1), safe);
        let all = ascii_bytes(head + rest);
        lemma_decoded_bytes_of_encoding(bytes.skip(1), safe);
        lemma_hex_digit_value(b / 16);
        lemma_hex_digit_value(b % 16);
        assert(all =~= ascii_bytes(head) + ascii_bytes(rest));
        if safe.keeps(b) {
            assert(all[0] == b);
            assert(all.skip(1) =~= ascii_bytes(rest));
        } else {
            assert(all[0] == 0x25);
            assert(all[1] == hex_digit(b / 16) as u8);
            assert(all[2] == hex_digit(b % 16) as u8);
            assert(all.skip(3) =~= ascii_bytes(rest));
            assert((b / 16) * 16 + b % 16 == b);
        }
        assert(bytes =~= seq![b] + bytes.skip(1));
    }
}

/// What was percent-encoded is what decoding gives back: no text is lost on
/// the way through an encoding.
pub proof fn lemma_decoding_inverts_encoding(s: Seq<char>, safe: SafeSet)
    ensures
        percent_decoded(percent_encoded_text(s, safe)) == Some(s),
{
    let encoded = percent_encoded_text(s, safe);
    lemma_percent_encoded_ascii(encode_utf8(s), safe);
    is_ascii_chars_encode_utf8(encoded);
    assert(encode_utf8(encoded) =~= ascii_bytes(encoded));
    lemma_decoded_bytes_of_encoding(encode_utf8(s), safe);
    encode_utf8_valid_utf8(s);
    encode_utf8_decode_utf8(s);
}

} // verus!
