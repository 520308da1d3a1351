//! Byte and text encodings: unpadded URL-safe base64, percent-encoding,
//! SHA-256 and lossy UTF-8 decoding.
use vstd::prelude::*;

use base64::engine::general_purpose::URL_SAFE_NO_PAD;
use base64::Engine;
use sha2::{Digest, Sha256};

verus! {

/// The URL-safe base64 alphabet: `A-Z`, `a-z`, `0-9`, `-`, `_`.
pub open spec fn b64_symbol(v: int) -> char {
    (if v < 26 {
        65 + v
    } else if v < 52 {
        97 + (v - 26)
    } else if v < 62 {
        48 + (v - 52)
    } else if v == 62 {
        45
    } else {
        95
    }) as char
}

/// Unpadded URL-safe base64 of `b`, three bytes to four symbols, with two
/// or three symbols for a last group of one or two bytes.
pub open spec fn b64url_encode(b: Seq<u8>) -> Seq<char>
    decreases b.len(),
{
    if b.len() == 0 {
        Seq::empty()
    } else {
        let x = b[0] as int;
        if b.len() == 1 {
            seq![b64_symbol(x / 4), b64_symbol((x % 4) * 16)]
        } else {
            let y = b[1] as int;
            if b.len() == 2 {
                seq![b64_symbol(x / 4), b64_symbol((x % 4) * 16 + y / 16), b64_symbol((y % 16) * 4)]
            } else {
                let z = b[2] as int;
                seq![
                    b64_symbol(x / 4),
                    b64_symbol((x % 4) * 16 + y / 16),
                    b64_symbol((y % 16) * 4 + z / 64),
                    b64_symbol(z % 64),
                ] + b64url_encode(b.skip(3))
            }
        }
    }
}

/// The bytes whose unpadded URL-safe base64 is `s`, if there are any.
pub open spec fn b64url_decode(s: Seq<char>) -> Option<Seq<u8>> {
    if exists|b: Seq<u8>| b64url_encode(b) == s {
        Some(choose|b: Seq<u8>| b64url_encode(b) == s)
    } else {
        None
    }
}

proof fn lemma_b64_symbol_injective(v: int, w: int)
    requires
        0 <= v < 64,
        0 <= w < 64,
        b64_symbol(v) == b64_symbol(w),
    ensures
        v == w,
{
    let x = b64_symbol(v);
    let y = b64_symbol(w);
    assert(x as u32 == y as u32);
}

proof fn lemma_b64url_encode_len(b: Seq<u8>)
    ensures
        b64url_encode(b).len() == (b.len() / 3) * 4 + (if b.len() % 3 == 0 {
            0int
        } else {
            (b.len() % 3 + 1) as int
        }),
    decreases b.len(),
{
    if b.len() >= 3 {
        lemma_b64url_encode_len(b.skip(3));
    }
}

/// Different bytes never share an encoding, so decoding is well defined.
pub proof fn lemma_b64url_encode_injective(a: Seq<u8>, b: Seq<u8>)
    requires
        b64url_encode(a) == b64url_encode(b),
    ensures
        a == b,
    decreases a.len(),
{
    lemma_b64url_encode_len(a);
    lemma_b64url_encode_len(b);
    let ea = b64url_encode(a);
    let eb = b64url_encode(b);
    assert(a.len() == b.len()) by {
        assert(ea.len() == eb.len());
    }
    if a.len() == 0 {
        assert(a =~= b);
    } else {
        let (a0, b0) = (a[0] as int, b[0] as int);
        if a.len() == 1 {
            assert(ea[0] == eb[0] && ea[1] == eb[1]);
            lemma_b64_symbol_injective(a0 / 4, b0 / 4);
            lemma_b64_symbol_injective((a0 % 4) * 16, (b0 % 4) * 16);
            assert(a[0] == b[0]);
            assert(a =~= b);
        } else {
            let (a1, b1) = (a[1] as int, b[1] as int);
            if a.len() == 2 {
                assert(ea[0] == eb[0] && ea[1] == eb[1] && ea[2] == eb[2]);
                lemma_b64_symbol_injective(a0 / 4, b0 / 4);
                lemma_b64_symbol_injective((a0 % 4) * 16 + a1 / 16, (b0 % 4) * 16 + b1 / 16);
                lemma_b64_symbol_injective((a1 % 16) * 4, (b1 % 16) * 4);
                assert(a[0] == b[0]);
                assert(a[1] == b[1]);
                assert(a =~= b);
            } else {
                let (a2, b2) = (a[2] as int, b[2] as int);
                let qa = seq![
                    b64_symbol(a0 / 4),
                    b64_symbol((a0 % 4) * 16 + a1 / 16),
                    b64_symbol((a1 % 16) * 4 + a2 / 64),
                    b64_symbol(a2 % 64),
                ];
                let qb = seq![
                    b64_symbol(b0 / 4),
                    b64_symbol((b0 % 4) * 16 + b1 / 16),
                    b64_symbol((b1 % 16) * 4 + b2 / 64),
                    b64_symbol(b2 % 64),
                ];
                assert(ea == qa + b64url_encode(a.skip(3)));
                assert(eb == qb + b64url_encode(b.skip(3)));
                assert(ea[0] == qa[0] && eb[0] == qb[0]);
                assert(ea[1] == qa[1] && eb[1] == qb[1]);
                assert(ea[2] == qa[2] && eb[2] == qb[2]);
                assert(ea[3] == qa[3] && eb[3] == qb[3]);
                lemma_b64_symbol_injective(a0 / 4, b0 / 4);
                lemma_b64_symbol_injective((a0 % 4) * 16 + a1 / 16, (b0 % 4) * 16 + b1 / 16);
                lemma_b64_symbol_injective((a1 % 16) * 4 + a2 / 64, (b1 % 16) * 4 + b2 / 64);
                lemma_b64_symbol_injective(a2 % 64, b2 % 64);
                assert(a[0] == b[0]);
                assert(a[1] == b[1]);
                assert(a[2] == b[2]);
                assert(ea.skip(4) == b64url_encode(a.skip(3)));
                assert(eb.skip(4) == b64url_encode(b.skip(3)));
                lemma_b64url_encode_injective(a.skip(3), b.skip(3));
                assert(a =~= seq![a[0], a[1], a[2]] + a.skip(3));
                assert(b =~= seq![b[0], b[1], b[2]] + b.skip(3));
            }
        }
    }
}

/// Decoding gives back exactly the bytes that were encoded.
pub proof fn lemma_b64url_roundtrip(b: Seq<u8>)
    ensures
        b64url_decode(b64url_encode(b)) == Some(b),
{
    let s = b64url_encode(b);
    assert(exists|c: Seq<u8>| b64url_encode(c) == s);
    let c = choose|c: Seq<u8>| b64url_encode(c) == s;
    lemma_b64url_encode_injective(c, b);
}

/// `base64::engine::general_purpose::URL_SAFE_NO_PAD.encode`: the unpadded
/// URL-safe base64 of the bytes.
#[verifier::external_body]
pub(crate) fn b64url_encode_bytes(bytes: &[u8]) -> (s: String)
    ensures
        s@ == b64url_encode(bytes@),
{
    URL_SAFE_NO_PAD.encode(bytes)
}

/// `URL_SAFE_NO_PAD.decode`: succeeds exactly on the canonical unpadded
/// URL-safe encoding of some bytes (it refuses `=`, stray characters, a
/// lone last symbol and set trailing bits), and gives those bytes.
#[verifier::external_body]
pub(crate) fn b64url_decode_str(data: &str) -> (r: Option<Vec<u8>>)
    ensures
        match r {
            Some(b) => b64url_encode(b@) == data@,
            None => forall|b: Seq<u8>| b64url_encode(b) != data@,
        },
{
    URL_SAFE_NO_PAD.decode(data).ok()
}

/// Decodes unpadded URL-safe base64.
pub fn decode_b64url(data: &str) -> (r: Option<Vec<u8>>)
    ensures
        match r {
            Some(b) => b64url_decode(data@) == Some(b@),
            None => b64url_decode(data@) is None,
        },
{
    let r = b64url_decode_str(data);
    proof {
        if r is Some {
            let b = r->0;
            let c = choose|c: Seq<u8>| b64url_encode(c) == data@;
            lemma_b64url_encode_injective(c, b@);
        }
    }
    r
}

/// Bytes that percent-encoding leaves as they are: ASCII letters, digits,
/// and `-`, `.`, `_`, `~`.
pub open spec fn unreserved(b: u8) -> bool {
    ||| 48 <= b <= 57
    ||| 65 <= b <= 90
    ||| 97 <= b <= 122
    ||| b == 45
    ||| b == 46
    ||| b == 95
    ||| b == 126
}

/// An upper-case hex digit.
pub open spec fn hex_upper(d: int) -> char {
    (if d < 10 {
        48 + d
    } else {
        55 + d
    }) as char
}

/// What percent-encoding makes of one byte: an unreserved byte stays as it
/// is, any other becomes `%` and two upper-case hex digits.
pub open spec fn percent_piece(b: u8) -> Seq<char> {
    if unreserved(b) {
        seq![b as char]
    } else {
        seq!['%', hex_upper(b as int / 16), hex_upper(b as int % 16)]
    }
}

/// Percent-encoding of bytes, byte by byte (what `urlencoding::encode`
/// does to a string's UTF-8 bytes).
pub open spec fn percent_encode(b: Seq<u8>) -> Seq<char>
    decreases b.len(),
{
    if b.len() == 0 {
        Seq::empty()
    } else {
        percent_piece(b[0]) + percent_encode(b.drop_first())
    }
}

proof fn lemma_percent_encode_push(b: Seq<u8>, x: u8)
    ensures
        percent_encode(b.push(x)) == percent_encode(b) + percent_piece(x),
    decreases b.len(),
{
    if b.len() == 0 {
        assert(b.push(x).drop_first() =~= Seq::<u8>::empty());
        assert(b.push(x)[0] == x);
        assert(percent_encode(Seq::<u8>::empty()) =~= Seq::<char>::empty());
        assert(percent_encode(b.push(x)) =~= percent_piece(x));
    } else {
        lemma_percent_encode_push(b.drop_first(), x);
        assert(b.push(x).drop_first() =~= b.drop_first().push(x));
        assert(percent_encode(b.push(x)) =~= percent_encode(b) + percent_piece(x));
    }
}

fn hex_upper_char(d: u8) -> (c: char)
    requires
        d < 16,
    ensures
        c == hex_upper(d as int),
{
    if d < 10 {
        (48u8 + d) as char
    } else {
        (55u8 + d) as char
    }
}

/// Percent-encodes the UTF-8 bytes of `s`: ASCII letters, digits and
/// `-`, `.`, `_`, `~` stay, every other byte becomes `%XX` (upper-case
/// hex), as `urlencoding::encode` does.
pub fn url_encode(s: &str) -> (r: String)
    ensures
        r@ == percent_encode(vstd::utf8::encode_utf8(s@)),
{
    let bytes = s.as_bytes();
    let ghost b = bytes@;
    assert(b == vstd::utf8::encode_utf8(s@));
    let mut r = String::new();
    let mut i: usize = 0;
    while i < bytes.len()
        invariant
            b == bytes@,
            0 <= i <= bytes.len(),
            r@ == percent_encode(b.take(i as int)),
        decreases bytes.len() - i,
    {
        let x = bytes[i];
        let unreserved_byte = (48 <= x && x <= 57) || (65 <= x && x <= 90) || (97 <= x && x <= 122)
            || x == 45 || x == 46 || x == 95 || x == 126;
        if unreserved_byte {
            crate::text::push_char(&mut r, x as char);
        } else {
            crate::text::push_char(&mut r, '%');
            crate::text::push_char(&mut r, hex_upper_char(x / 16));
            crate::text::push_char(&mut r, hex_upper_char(x % 16));
        }
        proof {
            lemma_percent_encode_push(b.take(i as int), x);
            assert(b.take(i + 1) =~= b.take(i as int).push(x));
        }
        assert(r@ =~= percent_encode(b.take(i + 1)));
        i = i + 1;
    }
    assert(b.take(b.len() as int) =~= b);
    r
}

/// SHA-256 of a byte sequence.
pub uninterp spec fn sha256(data: Seq<u8>) -> Seq<u8>;

/// `sha2::Sha256::digest`: the 32-byte SHA-256 digest of the bytes.
#[verifier::external_body]
pub(crate) fn sha256_digest(data: &[u8]) -> (r: Vec<u8>)
    ensures
        r@ == sha256(data@),
        r@.len() == 32,
{
    Sha256::digest(data).to_vec()
}

/// The text that `String::from_utf8_lossy` reads from bytes.
pub uninterp spec fn utf8_lossy(bytes: Seq<u8>) -> Seq<char>;

/// `String::from_utf8_lossy`: the bytes as text, each invalid sequence
/// replaced by U+FFFD; valid UTF-8 is decoded as it is. What the
/// replacement does on invalid input is left to the name `utf8_lossy`.
#[verifier::external_body]
pub(crate) fn utf8_lossy_string(bytes: &[u8]) -> (s: String)
    ensures
        s@ == utf8_lossy(bytes@),
        vstd::utf8::valid_utf8(bytes@) ==> s@ == vstd::utf8::decode_utf8(bytes@),
{
    String::from_utf8_lossy(bytes).into_owned()
}

} // verus!
