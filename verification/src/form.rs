//! URL-encoded form bodies (`application/x-www-form-urlencoded`): percent
//! decoding and field lookup.

use vstd::prelude::*;
use vstd::slice::slice_subrange;
use vstd::string::*;
use vstd::utf8::*;

use crate::text::{lemma_encode_utf8_avoids, bytes_eq_range, string_from_utf8_lossy, utf8_text};

verus! {

/// ASCII `+`, which encodes a space.
pub const PLUS: u8 = 0x2b;
/// ASCII `&`, which separates the pairs of a form body.
pub const AMPERSAND: u8 = 0x26;
/// ASCII `=`, which separates a pair's name from its value.
pub const EQUALS: u8 = 0x3d;
/// ASCII `%`, which starts a hex escape.
pub const PERCENT: u8 = 0x25;
/// ASCII space.
pub const SPACE: u8 = 0x20;
/// ASCII `0`.
pub const DIGIT_0: u8 = 0x30;
/// ASCII `9`.
pub const DIGIT_9: u8 = 0x39;
/// ASCII `a`.
pub const LOWER_A: u8 = 0x61;
/// ASCII `f`.
pub const LOWER_F: u8 = 0x66;
/// ASCII `A`.
pub const UPPER_A: u8 = 0x41;
/// ASCII `F`.
pub const UPPER_F: u8 = 0x46;

/// The value of an ASCII hexadecimal digit; any other byte counts as 0.
pub open spec fn hex_value(c: u8) -> u8 {
    if DIGIT_0 <= c <= DIGIT_9 {
        (c - DIGIT_0) as u8
    } else if LOWER_A <= c <= LOWER_F {
        (c - LOWER_A + 10) as u8
    } else if UPPER_A <= c <= UPPER_F {
        (c - UPPER_A + 10) as u8
    } else {
        0
    }
}

/// Percent-decoding of a byte sequence: `+` stands for a space, `%` followed by
/// two more bytes stands for the byte with those two hex digits, and every
/// other byte (a `%` with fewer than two bytes after it too) stands for itself.
pub open spec fn percent_decode(s: Seq<u8>) -> Seq<u8>
    decreases s.len(),
{
    if s.len() == 0 {
        Seq::empty()
    } else if s[0] == PLUS {
        seq![SPACE] + percent_decode(s.drop_first())
    } else if s[0] == PERCENT && s.len() > 2 {
        seq![(hex_value(s[1]) * 16 + hex_value(s[2])) as u8] + percent_decode(s.skip(3))
    } else {
        seq![s[0]] + percent_decode(s.drop_first())
    }
}

/// The index of the first `b` in `s`, or `s.len()` when there is none.
pub open spec fn first_index_of(s: Seq<u8>, b: u8) -> nat
    decreases s.len(),
{
    if s.len() == 0 {
        0
    } else if s[0] == b {
        0
    } else {
        1 + first_index_of(s.drop_first(), b)
    }
}

/// The raw value of the first `&`-separated pair of `body` whose name (the
/// part before its first `=`) is `key`; pairs without `=` are skipped.
pub open spec fn field_lookup(body: Seq<u8>, key: Seq<u8>) -> Option<Seq<u8>>
    decreases body.len(),
{
    let end = first_index_of(body, AMPERSAND);
    let pair = body.take(end as int);
    let eq = first_index_of(pair, EQUALS);
    if eq < pair.len() && pair.take(eq as int) == key {
        Some(pair.skip(eq as int + 1))
    } else if end < body.len() {
        field_lookup(body.skip(end as int + 1), key)
    } else {
        None
    }
}

/// What `form_field` returns for a body and a key, both as UTF-8 bytes.
pub open spec fn form_value(body: Seq<u8>, key: Seq<u8>) -> Seq<char> {
    match field_lookup(body, key) {
        Some(raw) => utf8_text(percent_decode(raw)),
        None => Seq::empty(),
    }
}

/// `first_index_of` is the first position that holds `b`, or the length.
pub proof fn lemma_first_index_of(s: Seq<u8>, b: u8, k: int)
    requires
        0 <= k <= s.len(),
        forall|j: int| 0 <= j < k ==> s[j] != b,
        k == s.len() || s[k] == b,
    ensures
        first_index_of(s, b) == k,
    decreases k,
{
    if k > 0 {
        lemma_first_index_of(s.drop_first(), b, k - 1);
    }
}

fn hex_digit(c: u8) -> (v: u8)
    ensures
        v == hex_value(c),
        v < 16,
{
    if DIGIT_0 <= c && c <= DIGIT_9 {
        c - DIGIT_0
    } else if LOWER_A <= c && c <= LOWER_F {
        c - LOWER_A + 10
    } else if UPPER_A <= c && c <= UPPER_F {
        c - UPPER_A + 10
    } else {
        0
    }
}

/// Percent-decodes the bytes `s` (see `percent_decode`).
pub fn url_decode_bytes(s: &[u8]) -> (out: Vec<u8>)
    ensures
        out@ == percent_decode(s@),
{
    let mut out: Vec<u8> = Vec::new();
    let mut i: usize = 0;
    proof {
        assert(s@.skip(0) =~= s@);
    }
    while i < s.len()
        invariant
            i <= s@.len(),
            percent_decode(s@) == out@ + percent_decode(s@.skip(i as int)),
        decreases s@.len() - i,
    {
        let ghost rest = s@.skip(i as int);
        let c = s[i];
        if c == PLUS {
            proof {
                assert(rest.drop_first() =~= s@.skip(i + 1));
            }
            out.push(SPACE);
            i = i + 1;
        } else if c == PERCENT && s.len() - i > 2 {
            let hi = hex_digit(s[i + 1]);
            let lo = hex_digit(s[i + 2]);
            let byte = (hi << 4) | lo;
            proof {
                assert((hi << 4) | lo == hi * 16 + lo) by (bit_vector)
                    requires
                        hi < 16,
                        lo < 16,
                ;
                assert(rest.skip(3) =~= s@.skip(i + 3));
            }
            out.push(byte);
            i = i + 3;
        } else {
            proof {
                assert(rest.drop_first() =~= s@.skip(i + 1));
            }
            out.push(c);
            i = i + 1;
        }
    }
    proof {
        assert(out@ + Seq::<u8>::empty() =~= out@);
    }
    out
}

/// Decodes a URL-encoded string (`+` for space, `%XX` for a byte); where the
/// decoded bytes are not valid UTF-8, `String::from_utf8_lossy` replaces the
/// invalid sequences.
pub fn url_decode(s: &str) -> (res: String)
    ensures
        res@ == utf8_text(percent_decode(s.spec_bytes())),
{
    let bytes = url_decode_bytes(s.as_bytes());
    string_from_utf8_lossy(bytes.as_slice())
}

/// The first position in `s[start..end]` that holds `b`, or `end`.
fn find_byte(s: &[u8], start: usize, end: usize, b: u8) -> (i: usize)
    requires
        start <= end <= s@.len(),
    ensures
        start <= i <= end,
        i - start == first_index_of(s@.subrange(start as int, end as int), b),
{
    let mut i = start;
    while i < end && s[i] != b
        invariant
            start <= i <= end <= s@.len(),
            forall|j: int| start <= j < i ==> s@[j] != b,
        decreases end - i,
    {
        i = i + 1;
    }
    proof {
        let r = s@.subrange(start as int, end as int);
        assert forall|j: int| 0 <= j < i - start implies r[j] != b by {
            assert(r[j] == s@[start + j]);
        }
        lemma_first_index_of(r, b, i - start);
    }
    i
}

/// Extracts a URL-encoded form field value ("a=1&b=2" -> field).
///
/// The value of the first pair named `key` is decoded with `url_decode`; when
/// no pair has that name the result is empty.
pub fn form_field(body: &str, key: &str) -> (value: String)
    ensures
        value@ == form_value(body.spec_bytes(), key.spec_bytes()),
{
    let b = body.as_bytes();
    let k = key.as_bytes();
    let n = b.len();
    let mut pos: usize = 0;
    proof {
        assert(b@.skip(0) =~= b@);
    }
    loop
        invariant
            pos <= n,
            n == b@.len(),
            b@ == body.spec_bytes(),
            k@ == key.spec_bytes(),
            field_lookup(b@, k@) == field_lookup(b@.skip(pos as int), k@),
        decreases n - pos,
    {
        let end = find_byte(b, pos, n, AMPERSAND);
        let eq = find_byte(b, pos, end, EQUALS);
        let ghost rest = b@.skip(pos as int);
        let ghost pair = rest.take(end - pos);
        proof {
            assert(b@.subrange(pos as int, n as int) =~= rest);
            assert(b@.subrange(pos as int, end as int) =~= pair);
            assert(pair.take(eq - pos) =~= b@.subrange(pos as int, eq as int));
        }
        if eq < end && bytes_eq_range(b, pos, eq, k) {
            let raw = slice_subrange(b, eq + 1, end);
            proof {
                assert(raw@ =~= pair.skip(eq - pos + 1));
            }
            let decoded = url_decode_bytes(raw);
            return string_from_utf8_lossy(decoded.as_slice());
        }
        if end == n {
            return String::new();
        }
        proof {
            assert(rest.skip(end - pos + 1) =~= b@.skip(end + 1));
        }
        pos = end + 1;
    }
}

/// Percent-decoding leaves a byte sequence with no `%` and no `+` unchanged.
pub proof fn lemma_decode_plain(s: Seq<u8>)
    requires
        forall|i: int| 0 <= i < s.len() ==> s[i] != PERCENT && s[i] != PLUS,
    ensures
        percent_decode(s) == s,
    decreases s.len(),
{
    if s.len() > 0 {
        lemma_decode_plain(s.drop_first());
        assert(seq![s[0]] + s.drop_first() =~= s);
    }
}

/// URL-decoding leaves a text with no `%` and no `+` unchanged.
pub proof fn lemma_url_decode_plain_text(s: Seq<char>)
    requires
        forall|i: int| 0 <= i < s.len() ==> #[trigger] s[i] != '%' && s[i] != '+',
    ensures
        utf8_text(percent_decode(encode_utf8(s))) == s,
{
    assert forall|i: int| 0 <= i < s.len() implies (#[trigger] s[i] as u32) != (PERCENT as u32)
        && (s[i] as u32) != (PLUS as u32) by {
        char_u32_cast(s[i], s[i] as u32);
        char_u32_cast('%', '%' as u32);
        char_u32_cast('+', '+' as u32);
    }
    lemma_encode_utf8_avoids(s, PERCENT);
    lemma_encode_utf8_avoids(s, PLUS);
    lemma_decode_plain(encode_utf8(s));
    encode_utf8_valid_utf8(s);
    encode_utf8_decode_utf8(s);
}

/// `first_index_of` is within the sequence, every earlier byte differs from
/// `b`, and the byte there is `b` unless it is the length.
pub proof fn lemma_first_index_of_bounds(s: Seq<u8>, b: u8)
    ensures
        first_index_of(s, b) <= s.len(),
        forall|j: int| 0 <= j < first_index_of(s, b) ==> s[j] != b,
        first_index_of(s, b) == s.len() || s[first_index_of(s, b) as int] == b,
    decreases s.len(),
{
    if s.len() > 0 && s[0] != b {
        lemma_first_index_of_bounds(s.drop_first(), b);
        assert forall|j: int| 0 <= j < first_index_of(s, b) implies s[j] != b by {
            if j > 0 {
                assert(s[j] == s.drop_first()[j - 1]);
            }
        }
    }
}

/// Whether `body` holds, starting at `i`, a whole `&`-separated pair whose
/// name is exactly `key` (no `=` in it, followed by `=`) and whose value is
/// exactly `value` (no `&` in it, followed by `&` or the end).
pub open spec fn exact_pair_at(body: Seq<u8>, i: int, key: Seq<u8>, value: Seq<u8>) -> bool {
    let v_start = i + key.len() + 1;
    let v_end = v_start + value.len();
    &&& 0 <= i
    &&& v_end <= body.len()
    &&& (i == 0 || body[i - 1] == AMPERSAND)
    &&& body.subrange(i, i + key.len()) == key
    &&& (forall|j: int| 0 <= j < key.len() ==> key[j] != EQUALS && key[j] != AMPERSAND)
    &&& body[i + key.len()] == EQUALS
    &&& body.subrange(v_start, v_end) == value
    &&& (forall|j: int| 0 <= j < value.len() ==> value[j] != AMPERSAND)
    &&& (v_end == body.len() || body[v_end] == AMPERSAND)
}

/// Where the pair that the lookup selects starts.
proof fn selected_pair_start(body: Seq<u8>, key: Seq<u8>) -> (i: int)
    ensures
        field_lookup(body, key) matches Some(v) ==> exact_pair_at(body, i, key, v),
    decreases body.len(),
{
    let end = first_index_of(body, AMPERSAND);
    let pair = body.take(end as int);
    let eq = first_index_of(pair, EQUALS);
    lemma_first_index_of_bounds(body, AMPERSAND);
    lemma_first_index_of_bounds(pair, EQUALS);
    if eq < pair.len() && pair.take(eq as int) == key {
        let v = pair.skip(eq as int + 1);
        assert(body.subrange(0, key.len() as int) =~= key);
        assert(body.subrange(key.len() + 1int, key.len() + 1int + v.len()) =~= v);
        assert forall|j: int| 0 <= j < key.len() implies key[j] != EQUALS && key[j]
            != AMPERSAND by {
            assert(key[j] == pair[j]);
        }
        assert forall|j: int| 0 <= j < v.len() implies v[j] != AMPERSAND by {
            assert(v[j] == body[eq + 1 + j]);
        }
        assert(field_lookup(body, key) == Some(v));
        assert(exact_pair_at(body, 0, key, v));
        0
    } else if end < body.len() {
        let rest = body.skip(end as int + 1);
        assert(field_lookup(body, key) == field_lookup(rest, key));
        let k = selected_pair_start(rest, key);
        let i = k + end + 1;
        if let Some(v) = field_lookup(rest, key) {
            assert(rest.subrange(k, k + key.len()) =~= body.subrange(i, i + key.len()));
            assert(rest.subrange(k + key.len() + 1, k + key.len() + 1 + v.len()) =~= body.subrange(
                i + key.len() + 1,
                i + key.len() + 1 + v.len(),
            ));
            assert(exact_pair_at(body, i, key, v));
        }
        i
    } else {
        assert(field_lookup(body, key) is None);
        0
    }
}

/// A form field is found only in a pair whose name is exactly the key: the
/// value that the lookup gives stands in the body as a whole pair
/// `key=value`, at the start of the body or right after a `&`, and reaching
/// to the next `&` or the end. A pair whose name merely starts with the key
/// is never selected.
pub proof fn lemma_field_lookup_exact_pair(body: Seq<u8>, key: Seq<u8>)
    ensures
        field_lookup(body, key) matches Some(v) ==> exists|i: int| exact_pair_at(body, i, key, v),
{
    let i = selected_pair_start(body, key);
}

/// The uppercase ASCII hex digit for `d` (`d < 16`).
pub open spec fn upper_hex_digit(d: u8) -> u8 {
    if d < 10 {
        (0x30 + d) as u8
    } else {
        (0x41 + d - 10) as u8
    }
}

/// The lowercase ASCII hex digit for `d` (`d < 16`).
pub open spec fn lower_hex_digit(d: u8) -> u8 {
    if d < 10 {
        (0x30 + d) as u8
    } else {
        (0x61 + d - 10) as u8
    }
}

/// Every byte comes back from its percent escape, written with uppercase or
/// with lowercase hex digits: `%` followed by the two hex digits of `b` decodes
/// to exactly `b`.
pub proof fn lemma_percent_escape_decodes(b: u8)
    ensures
        percent_decode(seq![PERCENT, upper_hex_digit(b / 16), upper_hex_digit(b % 16)]) == seq![b],
        percent_decode(seq![PERCENT, lower_hex_digit(b / 16), lower_hex_digit(b % 16)]) == seq![b],
{
    let u = seq![PERCENT, upper_hex_digit(b / 16), upper_hex_digit(b % 16)];
    let l = seq![PERCENT, lower_hex_digit(b / 16), lower_hex_digit(b % 16)];
    assert(hex_value(upper_hex_digit(b / 16)) == b / 16);
    assert(hex_value(upper_hex_digit(b % 16)) == b % 16);
    assert(hex_value(lower_hex_digit(b / 16)) == b / 16);
    assert(hex_value(lower_hex_digit(b % 16)) == b % 16);
    assert((b / 16) * 16 + b % 16 == b);
    assert(u.skip(3) =~= Seq::<u8>::empty());
    assert(l.skip(3) =~= Seq::<u8>::empty());
    assert(u[0] == PERCENT && u.len() == 3);
    assert(percent_decode(u) == seq![(hex_value(u[1]) * 16 + hex_value(u[2])) as u8]
        + percent_decode(u.skip(3)));
    assert(percent_decode(u) =~= seq![b]);
    assert(percent_decode(l) =~= seq![b]);
}

/// A form field present in the body is found, and no later pair is chosen
/// over it: when the body holds a whole pair `key=w` at `i`, the lookup gives
/// the value of a whole pair named `key` that starts at `i` or before.
pub proof fn lemma_field_lookup_finds_first(body: Seq<u8>, key: Seq<u8>, i: int, w: Seq<u8>)
    requires
        exact_pair_at(body, i, key, w),
    ensures
        field_lookup(body, key) matches Some(v) && exists|i0: int|
            i0 <= i && exact_pair_at(body, i0, key, v),
    decreases body.len(),
{
    let end = first_index_of(body, AMPERSAND);
    let pair = body.take(end as int);
    let eq = first_index_of(pair, EQUALS);
    lemma_first_index_of_bounds(body, AMPERSAND);
    lemma_first_index_of_bounds(pair, EQUALS);
    lemma_field_lookup_exact_pair(body, key);
    if eq < pair.len() && pair.take(eq as int) == key {
        let v = pair.skip(eq as int + 1);
        assert(field_lookup(body, key) == Some(v));
        // the pair found starts the body
        assert(exact_pair_at(body, 0, key, v)) by {
            assert(body.subrange(0, key.len() as int) =~= key);
            assert(body.subrange(key.len() + 1int, key.len() + 1int + v.len()) =~= v);
            assert forall|j: int| 0 <= j < v.len() implies v[j] != AMPERSAND by {
                assert(v[j] == body[eq + 1 + j]);
            }
        }
    } else if i == 0 {
        // the pair at the start is `key=w`, so the first pair matches
        let kl = key.len() as int;
        assert forall|j: int| 0 <= j < kl + 1 + w.len() implies body[j] != AMPERSAND by {
            if j < kl {
                assert(body[j] == body.subrange(0, kl)[j]);
            } else if j > kl {
                assert(body[j] == body.subrange(kl + 1, kl + 1 + w.len())[j - kl - 1]);
            }
        }
        lemma_first_index_of(body, AMPERSAND, kl + 1 + w.len());
        assert forall|j: int| 0 <= j < kl implies pair[j] != EQUALS by {
            assert(pair[j] == body.subrange(0, kl)[j]);
        }
        lemma_first_index_of(pair, EQUALS, kl);
        assert(pair.take(kl) =~= key);
        assert(false);
    } else {
        // the pair at `i` lies after the first `&`
        assert(end <= i - 1) by {
            if end > i - 1 {
                assert(body[i - 1] == AMPERSAND);
            }
        }
        let rest = body.skip(end as int + 1);
        assert(field_lookup(body, key) == field_lookup(rest, key));
        let k = i - end - 1;
        assert(rest.subrange(k, k + key.len()) =~= body.subrange(i, i + key.len()));
        assert(rest.subrange(k + key.len() + 1, k + key.len() + 1 + w.len()) =~= body.subrange(
            i + key.len() + 1,
            i + key.len() + 1 + w.len(),
        ));
        assert(exact_pair_at(rest, k, key, w));
        lemma_field_lookup_finds_first(rest, key, k, w);
        let v = field_lookup(rest, key)->0;
        let k0 = choose|k0: int| k0 <= k && exact_pair_at(rest, k0, key, v);
        let i0 = k0 + end + 1;
        assert(rest.subrange(k0, k0 + key.len()) =~= body.subrange(i0, i0 + key.len()));
        assert(rest.subrange(k0 + key.len() + 1, k0 + key.len() + 1 + v.len()) =~= body.subrange(
            i0 + key.len() + 1,
            i0 + key.len() + 1 + v.len(),
        ));
        assert(exact_pair_at(body, i0, key, v));
    }
}

/// Without any `%`, decoding only turns each `+` into a space and keeps
/// every other byte, in place.
pub proof fn lemma_decode_without_escapes(s: Seq<u8>)
    requires
        forall|i: int| 0 <= i < s.len() ==> s[i] != PERCENT,
    ensures
        percent_decode(s).len() == s.len(),
        forall|i: int|
            0 <= i < s.len() ==> #[trigger] percent_decode(s)[i] == if s[i] == PLUS {
                SPACE
            } else {
                s[i]
            },
    decreases s.len(),
{
    if s.len() > 0 {
        lemma_decode_without_escapes(s.drop_first());
        let head: Seq<u8> = if s[0] == PLUS {
            seq![SPACE]
        } else {
            seq![s[0]]
        };
        assert(percent_decode(s) == head + percent_decode(s.drop_first()));
        assert forall|i: int| 0 <= i < s.len() implies #[trigger] percent_decode(s)[i] == if s[i]
            == PLUS {
            SPACE
        } else {
            s[i]
        } by {
            if i > 0 {
                assert(percent_decode(s)[i] == percent_decode(s.drop_first())[i - 1]);
                assert(s[i] == s.drop_first()[i - 1]);
            }
        }
    }
}

} // verus!
