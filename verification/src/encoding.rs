//! Hexadecimal and base64 text for bytes.
use crate::seqs;
use crate::text;
use base64::engine::general_purpose::STANDARD_NO_PAD;
use base64::engine::general_purpose::URL_SAFE_NO_PAD;
use base64::Engine;
use vstd::prelude::*;

verus! {

// ---------------------------------------------------------------------------------------------
// Hexadecimal.
// ---------------------------------------------------------------------------------------------

/// The lower-case hexadecimal digit with the value `v`.
pub open spec fn hex_char(v: int) -> char {
    if v < 10 {
        ((48 + v) as u32) as char
    } else {
        ((87 + v) as u32) as char
    }
}

/// Two lower-case hexadecimal digits for each byte, the upper half first.
pub open spec fn hex_text(data: Seq<u8>) -> Seq<char> {
    Seq::new(
        2 * data.len(),
        |i: int|
            if i % 2 == 0 {
                hex_char(data[i / 2] as int / 16)
            } else {
                hex_char(data[i / 2] as int % 16)
            },
    )
}

/// The value of a hexadecimal digit of either case.
pub open spec fn hex_value(c: char) -> Option<int> {
    if '0' <= c && c <= '9' {
        Some(c as int - 48)
    } else if 'a' <= c && c <= 'f' {
        Some(c as int - 87)
    } else if 'A' <= c && c <= 'F' {
        Some(c as int - 55)
    } else {
        None
    }
}

/// The bytes that the text writes in hexadecimal: an even number of digits of either case.
pub open spec fn unhexed(s: Seq<char>) -> Option<Seq<u8>> {
    if s.len() % 2 == 0 && forall|i: int| 0 <= i < s.len() ==> hex_value(#[trigger] s[i]) is Some {
        Some(
            Seq::new(
                s.len() / 2,
                |i: int| ((hex_value(s[2 * i])->0 * 16 + hex_value(s[2 * i + 1])->0) as u8),
            ),
        )
    } else {
        None
    }
}

/// `hex::encode` writes each byte as two lower-case hexadecimal digits.
#[verifier::external_body]
pub(crate) fn to_hex(data: &[u8]) -> (r: String)
    ensures
        r@ == hex_text(data@),
{
    hex::encode(data)
}

/// What the error of `hex::decode` says of a text that is not hexadecimal.
pub uninterp spec fn hex_refusal(s: Seq<char>) -> Seq<char>;

/// What reading a text as hexadecimal gives: the bytes, or why there are none.
pub open spec fn hex_read(s: Seq<char>) -> Result<Seq<u8>, Seq<char>> {
    match unhexed(s) {
        Some(data) => Ok(data),
        None => Err(hex_refusal(s)),
    }
}

/// `hex::decode` reads pairs of hexadecimal digits of either case; it fails on an odd number of
/// bytes and on any other character, and what its error says depends on the text alone.
#[verifier::external_body]
pub(crate) fn from_hex(s: &str) -> (r: Result<Vec<u8>, String>)
    ensures
        match r {
            Ok(data) => unhexed(s@) == Some(data@),
            Err(e) => unhexed(s@) is None && e@ == hex_refusal(s@) && (text::byte_len(s@) % 2 == 1
                ==> e@ == "Odd number of digits"@),
        },
{
    hex::decode(s).map_err(|e| e.to_string())
}

/// Reading back hexadecimal digits that were written gives the bytes.
pub proof fn hex_round_trip(data: Seq<u8>)
    ensures
        unhexed(hex_text(data)) == Some(data),
{
    let s = hex_text(data);
    assert forall|i: int| 0 <= i < s.len() implies hex_value(#[trigger] s[i]) is Some by {
        hex_digit(data[i / 2] as int / 16);
        hex_digit(data[i / 2] as int % 16);
    }
    let back = unhexed(s)->0;
    assert forall|i: int| 0 <= i < data.len() implies back[i] == data[i] by {
        hex_digit(data[i] as int / 16);
        hex_digit(data[i] as int % 16);
        assert((2 * i) / 2 == i);
        assert((2 * i + 1) / 2 == i);
    }
    assert(back =~= data);
}

proof fn hex_digit(v: int)
    requires
        0 <= v < 16,
    ensures
        hex_value(hex_char(v)) == Some(v),
{
    assert(hex_char(v) as int == if v < 10 {
        48 + v
    } else {
        87 + v
    });
}

/// A lower-case hexadecimal digit.
pub open spec fn is_lower_hex(c: char) -> bool {
    '0' <= c && c <= '9' || 'a' <= c && c <= 'f'
}

/// Bytes are written as two lower-case hexadecimal digits each.
pub proof fn hex_is_lower(data: Seq<u8>)
    ensures
        hex_text(data).len() == 2 * data.len(),
        forall|i: int| 0 <= i < hex_text(data).len() ==> is_lower_hex(#[trigger] hex_text(data)[i]),
{
    let s = hex_text(data);
    assert forall|i: int| 0 <= i < s.len() implies is_lower_hex(#[trigger] s[i]) by {
        hex_digit(data[i / 2] as int / 16);
        hex_digit(data[i / 2] as int % 16);
    }
}

/// Different bytes are written differently.
pub proof fn hex_injective(a: Seq<u8>, b: Seq<u8>)
    requires
        hex_text(a) == hex_text(b),
    ensures
        a == b,
{
    hex_round_trip(a);
    hex_round_trip(b);
}

/// Hexadecimal digits hold neither of the separators of a written fingerprint.
pub proof fn hex_plain(data: Seq<u8>, c: char)
    requires
        c == ':' || c == ' ',
    ensures
        hex_text(data).filter(|x: char| x != c) == hex_text(data),
{
    let s = hex_text(data);
    let p = |x: char| x != c;
    assert forall|i: int| 0 <= i < s.len() implies p(#[trigger] s[i]) by {
        hex_digit(data[i / 2] as int / 16);
        hex_digit(data[i / 2] as int % 16);
    }
    filter_keeps_all(s, p);
}

proof fn filter_keeps_all(s: Seq<char>, p: spec_fn(char) -> bool)
    requires
        forall|i: int| 0 <= i < s.len() ==> p(#[trigger] s[i]),
    ensures
        s.filter(p) == s,
    decreases s.len(),
{
    if s.len() == 0 {
        seqs::filter_empty(s, p);
        assert(s =~= Seq::<char>::empty());
    } else {
        let t = s.drop_last();
        assert(s =~= t.push(s.last()));
        assert forall|i: int| 0 <= i < t.len() implies p(#[trigger] t[i]) by {
            assert(t[i] == s[i]);
        }
        filter_keeps_all(t, p);
        seqs::filter_push(t, s.last(), p);
    }
}

// ---------------------------------------------------------------------------------------------
// Base64 without padding.
// ---------------------------------------------------------------------------------------------

/// The character of the alphabet for a group of six bits; `url` picks the URL-safe alphabet.
pub open spec fn b64_char(v: int, url: bool) -> char {
    if v < 26 {
        ((65 + v) as u32) as char
    } else if v < 52 {
        ((71 + v) as u32) as char
    } else if v < 62 {
        ((v - 4) as u32) as char
    } else if v == 62 {
        if url {
            '-'
        } else {
            '+'
        }
    } else {
        if url {
            '_'
        } else {
            '/'
        }
    }
}

/// The byte at `i`, or zero behind the end.
pub open spec fn byte_or_zero(data: Seq<u8>, i: int) -> int {
    if 0 <= i < data.len() {
        data[i] as int
    } else {
        0
    }
}

/// The group `i` of six bits of the bytes, read from the highest bit on.
pub open spec fn sextet(data: Seq<u8>, i: int) -> int {
    let k = 3 * (i / 4);
    if i % 4 == 0 {
        byte_or_zero(data, k) / 4
    } else if i % 4 == 1 {
        (byte_or_zero(data, k) % 4) * 16 + byte_or_zero(data, k + 1) / 16
    } else if i % 4 == 2 {
        (byte_or_zero(data, k + 1) % 16) * 4 + byte_or_zero(data, k + 2) / 64
    } else {
        byte_or_zero(data, k + 2) % 64
    }
}

/// How many characters base64 without padding takes for `n` bytes.
pub open spec fn b64_len(n: nat) -> nat {
    (4 * n + 2) / 3
}

/// The bytes in base64 without padding.
pub open spec fn b64_text(data: Seq<u8>, url: bool) -> Seq<char> {
    Seq::new(b64_len(data.len()), |i: int| b64_char(sextet(data, i), url))
}

/// The bytes that the text writes in base64 without padding, where it is what some bytes give.
pub open spec fn b64_bytes(s: Seq<char>, url: bool) -> Option<Seq<u8>> {
    if exists|d: Seq<u8>| b64_text(d, url) == s {
        Some(choose|d: Seq<u8>| b64_text(d, url) == s)
    } else {
        None
    }
}

/// `base64::Engine::encode` of `STANDARD_NO_PAD` writes the bytes with the standard alphabet and
/// no padding.
#[verifier::external_body]
pub(crate) fn to_b64(data: &[u8]) -> (r: String)
    ensures
        r@ == b64_text(data@, false),
{
    STANDARD_NO_PAD.encode(data)
}

/// `base64::Engine::encode` of `URL_SAFE_NO_PAD` writes the bytes with the URL-safe alphabet and
/// no padding.
#[verifier::external_body]
pub(crate) fn to_b64_url(data: &[u8]) -> (r: String)
    ensures
        r@ == b64_text(data@, true),
{
    URL_SAFE_NO_PAD.encode(data)
}

/// `base64::Engine::decode` of `STANDARD_NO_PAD` accepts exactly what encoding gives: no padding,
/// no other character, no length that no bytes give, no bit set behind the last byte.
#[verifier::external_body]
pub(crate) fn from_b64(s: &str) -> (r: Option<Vec<u8>>)
    ensures
        seqs::opt(r) == b64_bytes(s@, false),
{
    STANDARD_NO_PAD.decode(s.as_bytes()).ok()
}

/// `base64::Engine::decode` of `URL_SAFE_NO_PAD` accepts exactly what encoding gives, as above.
#[verifier::external_body]
pub(crate) fn from_b64_url(s: &str) -> (r: Option<Vec<u8>>)
    ensures
        seqs::opt(r) == b64_bytes(s@, true),
{
    URL_SAFE_NO_PAD.decode(s.as_bytes()).ok()
}

/// The value of a group of six bits lies below 64.
pub proof fn sextet_range(data: Seq<u8>, i: int)
    requires
        0 <= i,
    ensures
        0 <= sextet(data, i) < 64,
{
    let k = 3 * (i / 4);
    let a = byte_or_zero(data, k);
    let b = byte_or_zero(data, k + 1);
    let c = byte_or_zero(data, k + 2);
    assert(0 <= a < 256 && 0 <= b < 256 && 0 <= c < 256);
}

proof fn b64_char_injective(v: int, w: int, url: bool)
    requires
        0 <= v < 64,
        0 <= w < 64,
        b64_char(v, url) == b64_char(w, url),
    ensures
        v == w,
{
    b64_char_code(v, url);
    b64_char_code(w, url);
}

/// The code of an alphabet character.
proof fn b64_char_code(v: int, url: bool)
    requires
        0 <= v < 64,
    ensures
        b64_char(v, url) as int == if v < 26 {
            65 + v
        } else if v < 52 {
            71 + v
        } else if v < 62 {
            v - 4
        } else if v == 62 {
            if url {
                45int
            } else {
                43int
            }
        } else {
            if url {
                95int
            } else {
                47int
            }
        },
{
}

proof fn bytes_from_sextets(data: Seq<u8>, q: int)
    requires
        0 <= q,
    ensures
        byte_or_zero(data, 3 * q) == sextet(data, 4 * q) * 4 + sextet(data, 4 * q + 1) / 16,
        byte_or_zero(data, 3 * q + 1) == (sextet(data, 4 * q + 1) % 16) * 16 + sextet(
            data,
            4 * q + 2,
        ) / 4,
        byte_or_zero(data, 3 * q + 2) == (sextet(data, 4 * q + 2) % 4) * 64 + sextet(
            data,
            4 * q + 3,
        ),
{
    let a = byte_or_zero(data, 3 * q);
    let b = byte_or_zero(data, 3 * q + 1);
    let c = byte_or_zero(data, 3 * q + 2);
    assert(0 <= a < 256 && 0 <= b < 256 && 0 <= c < 256);
    assert((4 * q) / 4 == q && (4 * q) % 4 == 0);
    assert((4 * q + 1) / 4 == q && (4 * q + 1) % 4 == 1);
    assert((4 * q + 2) / 4 == q && (4 * q + 2) % 4 == 2);
    assert((4 * q + 3) / 4 == q && (4 * q + 3) % 4 == 3);
}

/// Different bytes are written differently.
pub proof fn b64_injective(a: Seq<u8>, b: Seq<u8>, url: bool)
    requires
        b64_text(a, url) == b64_text(b, url),
    ensures
        a == b,
{
    let s = b64_text(a, url);
    let t = b64_text(b, url);
    assert(s.len() == t.len());
    assert(a.len() == b.len());
    let n = b64_len(a.len());
    assert forall|i: int| 0 <= i < n implies sextet(a, i) == sextet(b, i) by {
        sextet_range(a, i);
        sextet_range(b, i);
        assert(s[i] == t[i]);
        b64_char_injective(sextet(a, i), sextet(b, i), url);
    }
    assert forall|j: int| 0 <= j < a.len() implies a[j] == b[j] by {
        let q = j / 3;
        bytes_from_sextets(a, q);
        bytes_from_sextets(b, q);
        if j % 3 == 0 {
            assert(j == 3 * q);
            assert(4 * q + 1 < n);
            assert(sextet(a, 4 * q) == sextet(b, 4 * q));
            assert(sextet(a, 4 * q + 1) == sextet(b, 4 * q + 1));
        } else if j % 3 == 1 {
            assert(j == 3 * q + 1);
            assert(4 * q + 2 < n);
            assert(sextet(a, 4 * q + 1) == sextet(b, 4 * q + 1));
            assert(sextet(a, 4 * q + 2) == sextet(b, 4 * q + 2));
        } else {
            assert(j == 3 * q + 2);
            assert(4 * q + 3 < n);
            assert(sextet(a, 4 * q + 2) == sextet(b, 4 * q + 2));
            assert(sextet(a, 4 * q + 3) == sextet(b, 4 * q + 3));
        }
        assert(byte_or_zero(a, j) == byte_or_zero(b, j));
    }
    assert(a =~= b);
}

/// Reading back base64 that was written gives the bytes.
pub proof fn b64_round_trip(data: Seq<u8>, url: bool)
    ensures
        b64_bytes(b64_text(data, url), url) == Some(data),
{
    let s = b64_text(data, url);
    assert(exists|d: Seq<u8>| b64_text(d, url) == s);
    let d = choose|d: Seq<u8>| b64_text(d, url) == s;
    b64_injective(d, data, url);
}

/// URL-safe base64 holds nothing but letters, digits, hyphens and underscores.
pub proof fn b64_url_safe(data: Seq<u8>)
    ensures
        text::all_url_safe(b64_text(data, true)),
{
    let s = b64_text(data, true);
    assert forall|i: int| 0 <= i < s.len() implies text::url_safe(#[trigger] s[i]) by {
        sextet_range(data, i);
        b64_char_code(sextet(data, i), true);
    }
}

/// Bytes in base64 hold no white space, and are nothing only where there are none.
pub proof fn b64_no_white(data: Seq<u8>)
    ensures
        data.len() > 0 ==> b64_text(data, false).len() > 0,
        forall|i: int|
            0 <= i < b64_text(data, false).len() ==> !text::is_white(
                #[trigger] b64_text(data, false)[i],
            ),
{
    let s = b64_text(data, false);
    assert forall|i: int| 0 <= i < s.len() implies !text::is_white(#[trigger] s[i]) by {
        sextet_range(data, i);
        b64_char_code(sextet(data, i), false);
    }
}

} // verus!
