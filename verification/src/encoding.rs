//! Hexadecimal and base64url encodings, as the `hex` and `base64` crates
//! compute them, with their behaviour stated in full.

use vstd::prelude::*;

verus! {

/// The ASCII code of the lower-case hexadecimal digit for `v` (0 to 15).
pub open spec fn hex_digit_lower(v: int) -> u8 {
    if v < 10 {
        (48 + v) as u8
    } else {
        (87 + v) as u8
    }
}

/// The lower-case hexadecimal encoding of `data` as ASCII bytes: two digits per
/// byte, the high nibble first.
pub open spec fn hex_lower_bytes(data: Seq<u8>) -> Seq<u8>
    decreases data.len(),
{
    if data.len() == 0 {
        seq![]
    } else {
        let b = data.last();
        hex_lower_bytes(data.drop_last()) + seq![
            hex_digit_lower(b as int / 16),
            hex_digit_lower(b as int % 16),
        ]
    }
}

/// The lower-case hexadecimal encoding of `data` as characters.
pub open spec fn hex_lower(data: Seq<u8>) -> Seq<char> {
    hex_lower_bytes(data).map_values(|b: u8| b as char)
}

/// The value of the hexadecimal digit with ASCII code `c`, of either case.
pub open spec fn hex_digit_value(c: u8) -> Option<u8> {
    if 48 <= c <= 57 {
        Some((c - 48) as u8)
    } else if 97 <= c <= 102 {
        Some((c - 87) as u8)
    } else if 65 <= c <= 70 {
        Some((c - 55) as u8)
    } else {
        None
    }
}

/// The bytes that the hexadecimal text `s` denotes; `None` when its length is
/// odd or it holds a byte that is no hexadecimal digit.
pub open spec fn hex_decoded(s: Seq<u8>) -> Option<Seq<u8>>
    decreases s.len(),
{
    if s.len() % 2 != 0 {
        None
    } else if s.len() == 0 {
        Some(seq![])
    } else {
        let n = s.len() as int;
        match (hex_decoded(s.take(n - 2)), hex_digit_value(s[n - 2]), hex_digit_value(s[n - 1])) {
            (Some(prefix), Some(hi), Some(lo)) => Some(prefix.push((hi * 16 + lo) as u8)),
            _ => None,
        }
    }
}

/// The character of the URL-safe base64 alphabet for `v` (0 to 63).
pub open spec fn base64url_char(v: int) -> char {
    if v < 26 {
        (65 + v) as char
    } else if v < 52 {
        (71 + v) as char
    } else if v < 62 {
        (v - 4) as char
    } else if v == 62 {
        '-'
    } else {
        '_'
    }
}

/// The base64 encoding of `data` with the URL-safe alphabet and no padding
/// (RFC 4648, section 5): each group of three bytes gives four characters, a
/// final group of one or two bytes gives two or three.
pub open spec fn base64url_nopad(data: Seq<u8>) -> Seq<char>
    decreases data.len(),
{
    if data.len() == 0 {
        seq![]
    } else if data.len() == 1 {
        let b0 = data[0] as int;
        seq![base64url_char(b0 / 4), base64url_char((b0 % 4) * 16)]
    } else if data.len() == 2 {
        let b0 = data[0] as int;
        let b1 = data[1] as int;
        seq![
            base64url_char(b0 / 4),
            base64url_char((b0 % 4) * 16 + b1 / 16),
            base64url_char((b1 % 16) * 4),
        ]
    } else {
        let b0 = data[0] as int;
        let b1 = data[1] as int;
        let b2 = data[2] as int;
        seq![
            base64url_char(b0 / 4),
            base64url_char((b0 % 4) * 16 + b1 / 16),
            base64url_char((b1 % 16) * 4 + b2 / 64),
            base64url_char(b2 % 64),
        ] + base64url_nopad(data.skip(3))
    }
}

/// Calls `hex::encode`, which writes each byte as two lower-case hexadecimal
/// digits, the high nibble first.
#[verifier::external_body]
pub(crate) fn hex_encode(data: &[u8]) -> (s: String)
    ensures
        s@ == hex_lower(data@),
{
    hex::encode(data)
}

/// Calls `hex::decode`, which accepts digits of either case, fails on an odd
/// length or on a byte that is no hexadecimal digit, and otherwise gives one
/// byte per pair of digits. The error is mapped to `None`.
#[verifier::external_body]
pub(crate) fn hex_decode(text: &[u8]) -> (r: Option<Vec<u8>>)
    ensures
        match r {
            Some(v) => hex_decoded(text@) == Some(v@),
            None => hex_decoded(text@) is None,
        },
{
    hex::decode(text).ok()
}

/// Calls `Engine::encode` of `base64::engine::general_purpose::URL_SAFE_NO_PAD`:
/// base64 with the URL-safe alphabet and without padding.
#[verifier::external_body]
pub(crate) fn base64url_encode(data: &[u8]) -> (s: String)
    ensures
        s@ == base64url_nopad(data@),
{
    base64::Engine::encode(&base64::engine::general_purpose::URL_SAFE_NO_PAD, data)
}

/// Decoding the lower-case hexadecimal encoding of `data` gives `data` back.
pub proof fn lemma_hex_round_trip(data: Seq<u8>)
    ensures
        hex_lower_bytes(data).len() == 2 * data.len(),
        hex_decoded(hex_lower_bytes(data)) == Some(data),
    decreases data.len(),
{
    if data.len() > 0 {
        let prefix = data.drop_last();
        lemma_hex_round_trip(prefix);
        let s = hex_lower_bytes(data);
        let n = s.len() as int;
        assert(s.take(n - 2) =~= hex_lower_bytes(prefix));
        let b = data.last();
        assert(hex_digit_value(s[n - 2]) == Some((b / 16) as u8));
        assert(hex_digit_value(s[n - 1]) == Some((b % 16) as u8));
        assert(((b / 16) as u8 * 16 + (b % 16) as u8) as u8 == b);
        assert(prefix.push(b) =~= data);
    }
}

proof fn lemma_base64url_char_injective(v: int, w: int)
    requires
        0 <= v < 64,
        0 <= w < 64,
        base64url_char(v) == base64url_char(w),
    ensures
        v == w,
{
    let cv = base64url_char(v) as u32;
    let cw = base64url_char(w) as u32;
    assert(cv == cw);
    if v < 26 {
        assert(cv == 65 + v);
    } else if v < 52 {
        assert(cv == 71 + v);
    } else if v < 62 {
        assert(cv == v - 4);
    } else if v == 62 {
        assert(cv == 45);
    } else {
        assert(cv == 95);
    }
    if w < 26 {
        assert(cw == 65 + w);
    } else if w < 52 {
        assert(cw == 71 + w);
    } else if w < 62 {
        assert(cw == w - 4);
    } else if w == 62 {
        assert(cw == 45);
    } else {
        assert(cw == 95);
    }
}

/// The length of the base64url encoding of `n` bytes.
spec fn base64url_len(n: nat) -> int {
    4 * (n / 3) + (if n % 3 == 0 {
        0int
    } else if n % 3 == 1 {
        2int
    } else {
        3int
    })
}

proof fn lemma_base64url_len(data: Seq<u8>)
    ensures
        base64url_nopad(data).len() == base64url_len(data.len()),
    decreases data.len(),
{
    if data.len() >= 3 {
        lemma_base64url_len(data.skip(3));
    }
}

/// Different byte sequences have different base64url encodings.
pub proof fn lemma_base64url_injective(a: Seq<u8>, b: Seq<u8>)
    requires
        a != b,
    ensures
        base64url_nopad(a) != base64url_nopad(b),
    decreases a.len(),
{
    lemma_base64url_len(a);
    lemma_base64url_len(b);
    let ea = base64url_nopad(a);
    let eb = base64url_nopad(b);
    if ea == eb {
        assert(a.len() == b.len());
        let n = a.len();
        if n == 0 {
            assert(a =~= b);
        } else {
            let a0 = a[0] as int;
            let b0 = b[0] as int;
            assert(ea[0] == base64url_char(a0 / 4));
            assert(eb[0] == base64url_char(b0 / 4));
            lemma_base64url_char_injective(a0 / 4, b0 / 4);
            if n == 1 {
                assert(ea[1] == base64url_char((a0 % 4) * 16));
                assert(eb[1] == base64url_char((b0 % 4) * 16));
                lemma_base64url_char_injective((a0 % 4) * 16, (b0 % 4) * 16);
                assert(a =~= b);
            } else {
                let a1 = a[1] as int;
                let b1 = b[1] as int;
                assert(ea[1] == base64url_char((a0 % 4) * 16 + a1 / 16));
                assert(eb[1] == base64url_char((b0 % 4) * 16 + b1 / 16));
                lemma_base64url_char_injective((a0 % 4) * 16 + a1 / 16, (b0 % 4) * 16 + b1 / 16);
                assert(a0 == b0);
                assert(a1 / 16 == b1 / 16);
                if n == 2 {
                    assert(ea[2] == base64url_char((a1 % 16) * 4));
                    assert(eb[2] == base64url_char((b1 % 16) * 4));
                    lemma_base64url_char_injective((a1 % 16) * 4, (b1 % 16) * 4);
                    assert(a1 == b1);
                    assert(a =~= b);
                } else {
                    let a2 = a[2] as int;
                    let b2 = b[2] as int;
                    assert(ea[2] == base64url_char((a1 % 16) * 4 + a2 / 64));
                    assert(eb[2] == base64url_char((b1 % 16) * 4 + b2 / 64));
                    assert(ea[3] == base64url_char(a2 % 64));
                    assert(eb[3] == base64url_char(b2 % 64));
                    lemma_base64url_char_injective(
                        (a1 % 16) * 4 + a2 / 64,
                        (b1 % 16) * 4 + b2 / 64,
                    );
                    lemma_base64url_char_injective(a2 % 64, b2 % 64);
                    assert(a1 == b1);
                    assert(a2 == b2);
                    assert(ea.skip(4) =~= base64url_nopad(a.skip(3)));
                    assert(eb.skip(4) =~= base64url_nopad(b.skip(3)));
                    if a.skip(3) != b.skip(3) {
                        lemma_base64url_injective(a.skip(3), b.skip(3));
                    }
                    assert(a =~= a.take(3) + a.skip(3));
                    assert(b =~= b.take(3) + b.skip(3));
                    assert(a.take(3) =~= b.take(3));
                }
            }
        }
    }
}

} // verus!
