//! Hexadecimal encoding of byte strings, as used for MAC signatures.
//!
//! The mathematical encoding is written out as spec functions; the actual
//! byte work is delegated to the `hex` crate behind two trusted wrappers
//! whose contracts restate what that crate's source shows.

use vstd::prelude::*;

verus! {

/// A character that the decoder accepts: `0`-`9`, `a`-`f` or `A`-`F`.
pub open spec fn is_hex_digit(c: char) -> bool {
    (48 <= c as u32 && c as u32 <= 57) || (97 <= c as u32 && c as u32 <= 102) || (65 <= c as u32
        && c as u32 <= 70)
}

/// A character the encoder can produce: `0`-`9` or `a`-`f` only.
pub open spec fn is_lower_hex_digit(c: char) -> bool {
    (48 <= c as u32 && c as u32 <= 57) || (97 <= c as u32 && c as u32 <= 102)
}

/// The numeric value of a hex digit.
pub open spec fn hex_digit_val(c: char) -> int {
    if 48 <= c as u32 && c as u32 <= 57 {
        c as u32 - 48
    } else if 97 <= c as u32 && c as u32 <= 102 {
        c as u32 - 87
    } else {
        c as u32 - 55
    }
}

/// The lowercase digit for a value in `0 .. 16`.
pub open spec fn hex_digit_char(v: int) -> char {
    if v == 0 {
        '0'
    } else if v == 1 {
        '1'
    } else if v == 2 {
        '2'
    } else if v == 3 {
        '3'
    } else if v == 4 {
        '4'
    } else if v == 5 {
        '5'
    } else if v == 6 {
        '6'
    } else if v == 7 {
        '7'
    } else if v == 8 {
        '8'
    } else if v == 9 {
        '9'
    } else if v == 10 {
        'a'
    } else if v == 11 {
        'b'
    } else if v == 12 {
        'c'
    } else if v == 13 {
        'd'
    } else if v == 14 {
        'e'
    } else {
        'f'
    }
}

/// A string the decoder accepts: even length, every character a hex digit.
pub open spec fn is_hex_seq(s: Seq<char>) -> bool {
    s.len() % 2 == 0 && (forall|i: int| 0 <= i < s.len() ==> is_hex_digit(#[trigger] s[i]))
}

/// A string made of lowercase hex digits only, as the encoder emits.
pub open spec fn is_lower_hex_seq(s: Seq<char>) -> bool {
    forall|i: int| 0 <= i < s.len() ==> is_lower_hex_digit(#[trigger] s[i])
}

/// The bytes denoted by a hex string: each pair of digits one byte,
/// high digit first.
pub open spec fn decode_hex(s: Seq<char>) -> Seq<u8> {
    Seq::new(s.len() / 2, |i: int| (hex_digit_val(s[2 * i]) * 16 + hex_digit_val(s[2 * i + 1])) as u8)
}

/// The lowercase hex spelling of a byte string: two digits per byte,
/// high digit first.
pub open spec fn hex_of(b: Seq<u8>) -> Seq<char> {
    Seq::new(
        b.len() * 2,
        |i: int|
            if i % 2 == 0 {
                hex_digit_char(b[i / 2] as int / 16)
            } else {
                hex_digit_char(b[i / 2] as int % 16)
            },
    )
}

/// Every encoded string is a well-formed, lowercase hex string.
pub proof fn lemma_hex_of_well_formed(b: Seq<u8>)
    ensures
        hex_of(b).len() == b.len() * 2,
        is_hex_seq(hex_of(b)),
        is_lower_hex_seq(hex_of(b)),
{
    assert forall|i: int| 0 <= i < hex_of(b).len() implies is_lower_hex_digit(
        #[trigger] hex_of(b)[i],
    ) by {
        let x = b[i / 2] as int;
        assert(0 <= x < 256);
        assert(0 <= x / 16 < 16);
        assert(0 <= x % 16 < 16);
    }
    assert forall|i: int| 0 <= i < hex_of(b).len() implies is_hex_digit(#[trigger] hex_of(b)[i]) by {
        assert(is_lower_hex_digit(hex_of(b)[i]));
    }
}

/// Decoding inverts encoding: the round trip gives the bytes back.
pub proof fn lemma_decode_inverts_encode(b: Seq<u8>)
    ensures
        decode_hex(hex_of(b)) =~= b,
{
    assert forall|i: int| 0 <= i < b.len() implies decode_hex(hex_of(b))[i] == b[i] by {
        let x = b[i] as int;
        assert(hex_of(b)[2 * i] == hex_digit_char(x / 16));
        assert(hex_of(b)[2 * i + 1] == hex_digit_char(x % 16));
        assert(0 <= x < 256);
        assert(hex_digit_val(hex_digit_char(x / 16)) == x / 16);
        assert(hex_digit_val(hex_digit_char(x % 16)) == x % 16);
        assert((x / 16) * 16 + x % 16 == x);
    }
}

/// On lowercase hex strings, encoding inverts decoding: a lowercase hex
/// string is the encoding of the bytes it denotes.  Together with the
/// other direction this makes the encoding injective.
pub proof fn lemma_encode_inverts_decode(s: Seq<char>)
    requires
        is_hex_seq(s),
        is_lower_hex_seq(s),
    ensures
        hex_of(decode_hex(s)) =~= s,
{
    assert forall|i: int| 0 <= i < s.len() implies hex_of(decode_hex(s))[i] == s[i] by {
        let j = i / 2;
        let v0 = hex_digit_val(s[2 * j]);
        let v1 = hex_digit_val(s[2 * j + 1]);
        assert(is_lower_hex_digit(s[2 * j]));
        assert(is_lower_hex_digit(s[2 * j + 1]));
        assert(0 <= v0 < 16);
        assert(0 <= v1 < 16);
        assert(decode_hex(s)[j] == (v0 * 16 + v1) as u8);
        assert(0 <= v0 * 16 + v1 < 256) by (nonlinear_arith)
            requires
                0 <= v0 < 16,
                0 <= v1 < 16,
        ;
        assert((v0 * 16 + v1) / 16 == v0) by (nonlinear_arith)
            requires
                0 <= v0,
                0 <= v1 < 16,
        ;
        assert((v0 * 16 + v1) % 16 == v1) by (nonlinear_arith)
            requires
                0 <= v0,
                0 <= v1 < 16,
        ;
        lemma_char_of_val_of_char(s[2 * j]);
        lemma_char_of_val_of_char(s[2 * j + 1]);
        if i % 2 == 0 {
            assert(2 * j == i);
        } else {
            assert(2 * j + 1 == i);
        }
    }
}

/// For a lowercase hex digit, spelling its value gives the digit back.
proof fn lemma_char_of_val_of_char(c: char)
    requires
        is_lower_hex_digit(c),
    ensures
        hex_digit_char(hex_digit_val(c)) == c,
{
}

/// Relies on `hex::encode`: two lowercase digits per byte, high digit first.
#[verifier::external_body]
pub(crate) fn hex_encode(bytes: &[u8]) -> (r: String)
    ensures
        r@ == hex_of(bytes@),
{
    hex::encode(bytes)
}

/// Relies on `hex::decode`: succeeds exactly on even-length strings of hex
/// digits (either case) and returns the denoted bytes.
#[verifier::external_body]
pub(crate) fn hex_decode(s: &str) -> (r: Option<Vec<u8>>)
    ensures
        match r {
            Some(v) => is_hex_seq(s@) && v@ == decode_hex(s@),
            None => !is_hex_seq(s@),
        },
{
    hex::decode(s).ok()
}

} // verus!
