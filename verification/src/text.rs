//! Text helpers: the std conversions between bytes and strings that the
//! library relies on, with what their documentation promises, and byte-level
//! comparisons used by the parsers.

use vstd::prelude::*;
use vstd::utf8::*;
use vstd::string::*;

verus! {

/// What `String::from_utf8_lossy` makes of a byte sequence: the decoded text,
/// with each invalid UTF-8 sequence replaced by U+FFFD.
pub uninterp spec fn lossy_utf8(bytes: Seq<u8>) -> Seq<char>;

/// The text that a byte sequence reads as: its decoding when it is valid
/// UTF-8, else what `String::from_utf8_lossy` makes of it.
pub open spec fn utf8_text(bytes: Seq<u8>) -> Seq<char> {
    if valid_utf8(bytes) {
        decode_utf8(bytes)
    } else {
        lossy_utf8(bytes)
    }
}

/// Calls `String::from_utf8_lossy` and takes ownership of the result.
///
/// Trusted: the result is `lossy_utf8` of the bytes, and when the bytes are
/// valid UTF-8 it is exactly their decoding (std documents that valid input
/// is returned unchanged). Which replacement characters stand in for invalid
/// sequences is left to the name.
#[verifier::external_body]
pub(crate) fn string_from_utf8_lossy(bytes: &[u8]) -> (res: String)
    ensures
        res@ == lossy_utf8(bytes@),
        res@ == utf8_text(bytes@),
{
    String::from_utf8_lossy(bytes).into_owned()
}

/// Calls `core::str::from_utf8`, keeping the string and dropping the error.
///
/// Trusted: std documents that the call succeeds exactly when the bytes are
/// valid UTF-8, and that the string it returns has those bytes.
#[verifier::external_body]
pub(crate) fn str_from_utf8(bytes: &[u8]) -> (res: Option<&str>)
    ensures
        res is Some <==> valid_utf8(bytes@),
        res matches Some(s) ==> s.spec_bytes() == bytes@,
{
    core::str::from_utf8(bytes).ok()
}

/// The decimal digit character for `d` (`d < 10`).
pub open spec fn digit_char(d: nat) -> char {
    ((48 + d) as u32) as char
}

/// The decimal notation of `n`, without sign or leading zeros.
pub open spec fn decimal(n: nat) -> Seq<char>
    decreases n,
{
    if n < 10 {
        seq![digit_char(n)]
    } else {
        decimal(n / 10) + seq![digit_char(n % 10)]
    }
}

/// Formats `n` with `Display` (`ToString::to_string`).
///
/// Trusted: std's `Display` for unsigned integers writes the decimal digits
/// of the value, with no sign, padding or leading zeros.
#[verifier::external_body]
pub(crate) fn usize_to_string(n: usize) -> (res: String)
    ensures
        res@ == decimal(n as nat),
{
    n.to_string()
}

/// Whether `s[start..end]` holds the same bytes as `t`.
pub(crate) fn bytes_eq_range(s: &[u8], start: usize, end: usize, t: &[u8]) -> (eq: bool)
    requires
        start <= end <= s@.len(),
    ensures
        eq == (s@.subrange(start as int, end as int) == t@),
{
    if end - start != t.len() {
        proof {
            assert(s@.subrange(start as int, end as int).len() != t@.len());
        }
        return false;
    }
    let mut i: usize = 0;
    while i < t.len()
        invariant
            start <= end <= s@.len(),
            end - start == t@.len(),
            i <= t@.len(),
            forall|j: int| 0 <= j < i ==> s@[start + j] == t@[j],
        decreases t@.len() - i,
    {
        if s[start + i] != t[i] {
            proof {
                assert(s@.subrange(start as int, end as int)[i as int] != t@[i as int]);
            }
            return false;
        }
        i = i + 1;
    }
    proof {
        assert(s@.subrange(start as int, end as int) =~= t@);
    }
    true
}

/// Whether the two strings are equal, compared by their UTF-8 bytes.
pub(crate) fn str_eq(a: &str, b: &str) -> (eq: bool)
    ensures
        eq == (a@ == b@),
{
    let ab = a.as_bytes();
    let bb = b.as_bytes();
    let eq = bytes_eq_range(ab, 0, ab.len(), bb);
    proof {
        assert(ab@.subrange(0, ab@.len() as int) =~= ab@);
        encode_utf8_decode_utf8(a@);
        encode_utf8_decode_utf8(b@);
    }
    eq
}

/// The UTF-8 encoding of a concatenation is the concatenation of the
/// encodings.
pub proof fn lemma_encode_utf8_concat(a: Seq<char>, b: Seq<char>)
    ensures
        encode_utf8(a + b) == encode_utf8(a) + encode_utf8(b),
    decreases a.len(),
{
    if a.len() == 0 {
        assert(a + b =~= b);
    } else {
        assert((a + b).drop_first() =~= a.drop_first() + b);
        lemma_encode_utf8_concat(a.drop_first(), b);
    }
}

/// A byte below 0x80 occurs in the UTF-8 encoding of a char only when the
/// char is that ASCII character.
pub proof fn lemma_scalar_ascii_byte(c: char, b: u8)
    requires
        b < 0x80,
    ensures
        forall|k: int|
            0 <= k < encode_scalar(c as u32).len() && #[trigger] encode_scalar(c as u32)[k] == b
                ==> (c as u32) == (b as u32),
{
    let v = c as u32;
    char_is_scalar(c);
    if has_width_1_encoding(v) {
        assert((v & 0x7F) as u8 as u32 == v) by (bit_vector)
            requires
                v <= 0x7F,
        ;
    } else {
        assert(0xC0 | ((v >> 6) & 0x1F) as u8 >= 0x80) by (bit_vector);
        assert(0xE0 | ((v >> 12) & 0x0F) as u8 >= 0x80) by (bit_vector);
        assert(0xF0 | ((v >> 18) & 0x7) as u8 >= 0x80) by (bit_vector);
        assert(0x80 | (v & 0x3F) as u8 >= 0x80) by (bit_vector);
        assert(0x80 | ((v >> 6) & 0x3F) as u8 >= 0x80) by (bit_vector);
        assert(0x80 | ((v >> 12) & 0x3F) as u8 >= 0x80) by (bit_vector);
    }
}

/// The UTF-8 encoding of a text without a given ASCII character holds no
/// byte of that character.
pub proof fn lemma_encode_utf8_avoids(s: Seq<char>, b: u8)
    requires
        b < 0x80,
        forall|i: int| 0 <= i < s.len() ==> (#[trigger] s[i] as u32) != (b as u32),
    ensures
        forall|k: int| 0 <= k < encode_utf8(s).len() ==> #[trigger] encode_utf8(s)[k] != b,
    decreases s.len(),
{
    if s.len() > 0 {
        lemma_scalar_ascii_byte(s[0], b);
        lemma_encode_utf8_avoids(s.drop_first(), b);
        let first = encode_scalar(s[0] as u32);
        let rest = encode_utf8(s.drop_first());
        assert forall|k: int| 0 <= k < encode_utf8(s).len() implies #[trigger] encode_utf8(s)[k]
            != b by {
            if k < first.len() {
                assert(encode_utf8(s)[k] == first[k]);
            } else {
                assert(encode_utf8(s)[k] == rest[k - first.len()]);
            }
        }
    }
}

/// The UTF-8 encoding of a text without a given ASCII character holds no
/// byte of that character.
pub proof fn lemma_encode_utf8_avoids_char(s: Seq<char>, ch: char)
    requires
        (ch as u32) < 0x80,
        forall|i: int| 0 <= i < s.len() ==> #[trigger] s[i] != ch,
    ensures
        forall|k: int|
            0 <= k < encode_utf8(s).len() ==> #[trigger] encode_utf8(s)[k] != (ch as u32) as u8,
{
    let b = (ch as u32) as u8;
    assert forall|i: int| 0 <= i < s.len() implies (#[trigger] s[i] as u32) != (b as u32) by {
        char_u32_cast(s[i], s[i] as u32);
        char_u32_cast(ch, ch as u32);
    }
    lemma_encode_utf8_avoids(s, b);
}

} // verus!
