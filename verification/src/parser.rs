//! [`Ulid`](crate::Ulid) parsing constructs and utilities.
//!
//! This is mostly Crockford base32 handling: each symbol carries 5 bits, a
//! 16-byte buffer becomes 26 symbols and back.

use vstd::prelude::*;
use vstd::string::StringSliceAdditionalSpecFns;

verus! {

broadcast use vstd::array::group_array_axioms;

/// The casing of an encoded string.
pub enum Case {
    Upper,
    Lower,
}

/// Bit `t` of the bit stream of `s`, most significant bit of each byte
/// first; bits past the end of `s` read as zero.
pub open spec fn nth_bit(s: Seq<u8>, t: int) -> u8 {
    if 0 <= t < 8 * s.len() {
        (s[t / 8] >> ((7 - (t % 8)) as u8)) & 1
    } else {
        0
    }
}

/// The value of the `i`-th base32 symbol of `s`: the 5-bit window at bit
/// position `5 * i` of its bit stream, most significant bit first.
pub open spec fn sym_val(s: Seq<u8>, i: int) -> u8 {
    (16 * nth_bit(s, 5 * i) + 8 * nth_bit(s, 5 * i + 1) + 4 * nth_bit(s, 5 * i + 2) + 2 * nth_bit(
        s,
        5 * i + 3,
    ) + nth_bit(s, 5 * i + 4)) as u8
}

/// The uppercase Crockford base32 symbol for a 5-bit value: the digits,
/// then the letters with `I`, `L`, `O` and `U` left out.
pub open spec fn upper_symbol(v: u8) -> u8 {
    if v < 10 {
        (48 + v) as u8  // '0' to '9'

    } else if v < 18 {
        (55 + v) as u8  // 'A' to 'H'

    } else if v < 20 {
        (56 + v) as u8  // 'J', 'K'

    } else if v < 22 {
        (57 + v) as u8  // 'M', 'N'

    } else if v < 27 {
        (58 + v) as u8  // 'P' to 'T'

    } else {
        (59 + v) as u8  // 'V' to 'Z'

    }
}

/// The symbol for a 5-bit value in the requested case. Letters stand 32
/// code points higher in the lowercase alphabet; digits are identical in
/// both.
pub open spec fn symbol_byte(v: u8, upper: bool) -> u8 {
    if upper || upper_symbol(v) < 65 {
        upper_symbol(v)
    } else {
        (upper_symbol(v) + 32) as u8
    }
}

/// The 5-bit value read back from one byte of an encoded string, case
/// folded, honouring the documented aliases (`I` and `L` read as 1, `O`
/// as 0); `-1` when the byte is no Crockford base32 symbol.
pub open spec fn inv_symbol(b: u8) -> int {
    let c: u8 = if 97 <= b <= 122 {
        (b - 32) as u8
    } else {
        b
    };
    if 48 <= c <= 57 {
        c - 48
    } else if 65 <= c <= 72 {
        c - 55
    } else if c == 73 || c == 76 {
        1
    } else if c == 74 || c == 75 {
        c - 56
    } else if c == 77 || c == 78 {
        c - 57
    } else if c == 79 {
        0
    } else if 80 <= c <= 84 {
        c - 58
    } else if 86 <= c <= 90 {
        c - 59
    } else {
        -1
    }
}

/// Whether a byte is a Crockford base32 symbol or one of its aliases.
pub open spec fn valid_symbol(b: u8) -> bool {
    inv_symbol(b) >= 0
}

/// Whether every byte of an encoded string is a valid symbol.
pub open spec fn valid_symbols(s: Seq<u8>) -> bool {
    forall|i: int| 0 <= i < s.len() ==> valid_symbol(#[trigger] s[i])
}

/// `p` is the first position of `s` holding an invalid symbol.
pub open spec fn first_invalid(s: Seq<u8>, p: int) -> bool {
    &&& 0 <= p < s.len()
    &&& !valid_symbol(s[p])
    &&& forall|j: int| 0 <= j < p ==> valid_symbol(#[trigger] s[j])
}

/// The 26 symbol bytes encoding a 16-byte buffer in the requested case.
pub open spec fn encode_bytes(s: Seq<u8>, upper: bool) -> Seq<u8> {
    Seq::new(26, |i: int| symbol_byte(sym_val(s, i), upper))
}

/// The characters of the canonical 26-symbol encoding.
pub open spec fn encode_chars(s: Seq<u8>, upper: bool) -> Seq<char> {
    encode_bytes(s, upper).map(|i: int, b: u8| b as char)
}

/// Bit `k` of a 5-bit symbol value, most significant first.
pub open spec fn sym_bit(v: u8, k: int) -> u8 {
    (v >> ((4 - k) as u8)) & 1
}

/// Bit `t` of the bit stream spelled out by the symbols of an encoded
/// string: symbol `t / 5` contributes its bit `t % 5`.
pub open spec fn dec_bit(s: Seq<u8>, t: int) -> u8 {
    sym_bit(inv_symbol(s[t / 5]) as u8, t % 5)
}

/// Byte `j` recovered from an encoded string: bits `8 * j` to
/// `8 * j + 7` of the symbols' bit stream.
#[verifier::opaque]
pub open spec fn decoded_byte(s: Seq<u8>, j: int) -> u8 {
    (128 * dec_bit(s, 8 * j) + 64 * dec_bit(s, 8 * j + 1) + 32 * dec_bit(s, 8 * j + 2) + 16
        * dec_bit(s, 8 * j + 3) + 8 * dec_bit(s, 8 * j + 4) + 4 * dec_bit(s, 8 * j + 5) + 2
        * dec_bit(s, 8 * j + 6) + dec_bit(s, 8 * j + 7)) as u8
}

/// The 16 bytes decoded from a valid 26-symbol string.
pub open spec fn decoded_bytes(s: Seq<u8>) -> Seq<u8> {
    Seq::new(16, |j: int| decoded_byte(s, j))
}

/// The Crockford base32 symbol for a 5-bit value, in the requested case.
fn symbol_char(v: u8, upper: bool) -> (c: u8)
    requires
        v < 32,
    ensures
        c == symbol_byte(v, upper),
{
    let base: u8 = if v < 10 {
        48 + v
    } else if v < 18 {
        55 + v
    } else if v < 20 {
        56 + v
    } else if v < 22 {
        57 + v
    } else if v < 27 {
        58 + v
    } else {
        59 + v
    };
    if upper || base < 65 {
        base
    } else {
        base + 32
    }
}

/// The 5-bit value of one byte of an encoded string, or `-1` when the
/// byte is no base32 symbol.
fn symbol_value(b: u8) -> (v: i8)
    ensures
        v as int == inv_symbol(b),
{
    let c: u8 = if 97 <= b && b <= 122 {
        b - 32
    } else {
        b
    };
    if 48 <= c && c <= 57 {
        (c - 48) as i8
    } else if 65 <= c && c <= 72 {
        (c - 55) as i8
    } else if c == 73 || c == 76 {
        1
    } else if c == 74 || c == 75 {
        (c - 56) as i8
    } else if c == 77 || c == 78 {
        (c - 57) as i8
    } else if c == 79 {
        0
    } else if 80 <= c && c <= 84 {
        (c - 58) as i8
    } else if 86 <= c && c <= 90 {
        (c - 59) as i8
    } else {
        -1
    }
}

/// An error that can occur while parsing a [`Ulid`](crate::Ulid) string.
#[derive(Clone, Copy, Debug, Eq, Hash, Ord, PartialEq, PartialOrd)]
pub enum ParseError {
    /// Invalid character in the [`Ulid`](crate::Ulid) string.
    InvalidCharacter {
        /// The invalid character found.
        found: char,
        /// The invalid character position, relative to the 8-character
        /// chunk being processed.
        index: usize,
    },
    /// Invalid length of the [`Ulid`](crate::Ulid) string.
    InvalidLength {
        /// The invalid length found.
        found: usize,
    },
}

/// The 8 symbol values of one 5-byte group: consecutive 5-bit windows of
/// the group's 40 bits.
fn group_symbols(b0: u8, b1: u8, b2: u8, b3: u8, b4: u8) -> (r: [u8; 8])
    ensures
        forall|k: int| 0 <= k < 8 ==> #[trigger] r@[k] == sym_val(seq![b0, b1, b2, b3, b4], k),
        forall|k: int| 0 <= k < 8 ==> #[trigger] r@[k] < 32,
{
    let r: [u8; 8] = [
        (b0 & 0xF8) >> 3,
        ((b0 & 0x07) << 2) | ((b1 & 0xC0) >> 6),
        (b1 & 0x3E) >> 1,
        ((b1 & 0x01) << 4) | ((b2 & 0xF0) >> 4),
        ((b2 & 0x0F) << 1) | (b3 >> 7),
        (b3 & 0x7C) >> 2,
        ((b3 & 0x03) << 3) | ((b4 & 0xE0) >> 5),
        b4 & 0x1F,
    ];
    proof {
        let s = seq![b0, b1, b2, b3, b4];
        assert((b0 & 0xF8) >> 3 == 16 * ((b0 >> 7) & 1) + 8 * ((b0 >> 6) & 1) + 4 * ((b0 >> 5) & 1)
            + 2 * ((b0 >> 4) & 1) + ((b0 >> 3) & 1) && (b0 & 0xF8) >> 3 < 32) by (bit_vector);
        assert(r@[0] == sym_val(s, 0));
        assert(((b0 & 0x07) << 2) | ((b1 & 0xC0) >> 6) == 16 * ((b0 >> 2) & 1) + 8 * ((b0 >> 1) & 1)
            + 4 * ((b0 >> 0) & 1) + 2 * ((b1 >> 7) & 1) + ((b1 >> 6) & 1) && (((b0 & 0x07) << 2) | (
        (b1 & 0xC0) >> 6)) < 32) by (bit_vector);
        assert(r@[1] == sym_val(s, 1));
        assert((b1 & 0x3E) >> 1 == 16 * ((b1 >> 5) & 1) + 8 * ((b1 >> 4) & 1) + 4 * ((b1 >> 3) & 1)
            + 2 * ((b1 >> 2) & 1) + ((b1 >> 1) & 1) && (b1 & 0x3E) >> 1 < 32) by (bit_vector);
        assert(r@[2] == sym_val(s, 2));
        assert(((b1 & 0x01) << 4) | ((b2 & 0xF0) >> 4) == 16 * ((b1 >> 0) & 1) + 8 * ((b2 >> 7) & 1)
            + 4 * ((b2 >> 6) & 1) + 2 * ((b2 >> 5) & 1) + ((b2 >> 4) & 1) && (((b1 & 0x01) << 4) | (
        (b2 & 0xF0) >> 4)) < 32) by (bit_vector);
        assert(r@[3] == sym_val(s, 3));
        assert(((b2 & 0x0F) << 1) | (b3 >> 7) == 16 * ((b2 >> 3) & 1) + 8 * ((b2 >> 2) & 1) + 4 * ((
        b2 >> 1) & 1) + 2 * ((b2 >> 0) & 1) + ((b3 >> 7) & 1) && (((b2 & 0x0F) << 1) | (b3 >> 7))
            < 32) by (bit_vector);
        assert(r@[4] == sym_val(s, 4));
        assert((b3 & 0x7C) >> 2 == 16 * ((b3 >> 6) & 1) + 8 * ((b3 >> 5) & 1) + 4 * ((b3 >> 4) & 1)
            + 2 * ((b3 >> 3) & 1) + ((b3 >> 2) & 1) && (b3 & 0x7C) >> 2 < 32) by (bit_vector);
        assert(r@[5] == sym_val(s, 5));
        assert(((b3 & 0x03) << 3) | ((b4 & 0xE0) >> 5) == 16 * ((b3 >> 1) & 1) + 8 * ((b3 >> 0) & 1)
            + 4 * ((b4 >> 7) & 1) + 2 * ((b4 >> 6) & 1) + ((b4 >> 5) & 1) && (((b3 & 0x03) << 3) | (
        (b4 & 0xE0) >> 5)) < 32) by (bit_vector);
        assert(r@[6] == sym_val(s, 6));
        assert(b4 & 0x1F == 16 * ((b4 >> 4) & 1) + 8 * ((b4 >> 3) & 1) + 4 * ((b4 >> 2) & 1) + 2 * (
        (b4 >> 1) & 1) + ((b4 >> 0) & 1) && b4 & 0x1F < 32) by (bit_vector);
        assert(r@[7] == sym_val(s, 7));
    }
    r
}

/// The 5 bytes reassembled from 8 symbol values of 5 bits each.
fn decode_quantum(v0: u8, v1: u8, v2: u8, v3: u8, v4: u8, v5: u8, v6: u8, v7: u8) -> (r: [u8; 5])
    requires
        v0 < 32,
        v1 < 32,
        v2 < 32,
        v3 < 32,
        v4 < 32,
        v5 < 32,
        v6 < 32,
        v7 < 32,
    ensures
        r@[0] == (128 * sym_bit(v0, 0) + 64 * sym_bit(v0, 1) + 32 * sym_bit(v0, 2) + 16 * sym_bit(
            v0,
            3,
        ) + 8 * sym_bit(v0, 4) + 4 * sym_bit(v1, 0) + 2 * sym_bit(v1, 1) + sym_bit(v1, 2)) as u8,
        r@[1] == (128 * sym_bit(v1, 3) + 64 * sym_bit(v1, 4) + 32 * sym_bit(v2, 0) + 16 * sym_bit(
            v2,
            1,
        ) + 8 * sym_bit(v2, 2) + 4 * sym_bit(v2, 3) + 2 * sym_bit(v2, 4) + sym_bit(v3, 0)) as u8,
        r@[2] == (128 * sym_bit(v3, 1) + 64 * sym_bit(v3, 2) + 32 * sym_bit(v3, 3) + 16 * sym_bit(
            v3,
            4,
        ) + 8 * sym_bit(v4, 0) + 4 * sym_bit(v4, 1) + 2 * sym_bit(v4, 2) + sym_bit(v4, 3)) as u8,
        r@[3] == (128 * sym_bit(v4, 4) + 64 * sym_bit(v5, 0) + 32 * sym_bit(v5, 1) + 16 * sym_bit(
            v5,
            2,
        ) + 8 * sym_bit(v5, 3) + 4 * sym_bit(v5, 4) + 2 * sym_bit(v6, 0) + sym_bit(v6, 1)) as u8,
        r@[4] == (128 * sym_bit(v6, 2) + 64 * sym_bit(v6, 3) + 32 * sym_bit(v6, 4) + 16 * sym_bit(
            v7,
            0,
        ) + 8 * sym_bit(v7, 1) + 4 * sym_bit(v7, 2) + 2 * sym_bit(v7, 3) + sym_bit(v7, 4)) as u8,
{
    let r: [u8; 5] = [
        (v0 << 3) | (v1 >> 2),
        (v1 << 6) | (v2 << 1) | (v3 >> 4),
        (v3 << 4) | (v4 >> 1),
        (v4 << 7) | (v5 << 2) | (v6 >> 3),
        (v6 << 5) | v7,
    ];
    proof {
        assert((v0 << 3) | (v1 >> 2) == (128 * ((v0 >> 4) & 1) + 64 * ((v0 >> 3) & 1) + 32 * ((v0
            >> 2) & 1) + 16 * ((v0 >> 1) & 1) + 8 * ((v0 >> 0) & 1) + 4 * ((v1 >> 4) & 1) + 2 * ((v1
            >> 3) & 1) + ((v1 >> 2) & 1)) as u8) by (bit_vector)
            requires
                v0 < 32,
                v1 < 32,
        ;
        assert((v1 << 6) | (v2 << 1) | (v3 >> 4) == (128 * ((v1 >> 1) & 1) + 64 * ((v1 >> 0) & 1)
            + 32 * ((v2 >> 4) & 1) + 16 * ((v2 >> 3) & 1) + 8 * ((v2 >> 2) & 1) + 4 * ((v2 >> 1) & 1)
            + 2 * ((v2 >> 0) & 1) + ((v3 >> 4) & 1)) as u8) by (bit_vector)
            requires
                v1 < 32,
                v2 < 32,
                v3 < 32,
        ;
        assert((v3 << 4) | (v4 >> 1) == (128 * ((v3 >> 3) & 1) + 64 * ((v3 >> 2) & 1) + 32 * ((v3
            >> 1) & 1) + 16 * ((v3 >> 0) & 1) + 8 * ((v4 >> 4) & 1) + 4 * ((v4 >> 3) & 1) + 2 * ((v4
            >> 2) & 1) + ((v4 >> 1) & 1)) as u8) by (bit_vector)
            requires
                v3 < 32,
                v4 < 32,
        ;
        assert((v4 << 7) | (v5 << 2) | (v6 >> 3) == (128 * ((v4 >> 0) & 1) + 64 * ((v5 >> 4) & 1)
            + 32 * ((v5 >> 3) & 1) + 16 * ((v5 >> 2) & 1) + 8 * ((v5 >> 1) & 1) + 4 * ((v5 >> 0) & 1)
            + 2 * ((v6 >> 4) & 1) + ((v6 >> 3) & 1)) as u8) by (bit_vector)
            requires
                v4 < 32,
                v5 < 32,
                v6 < 32,
        ;
        assert((v6 << 5) | v7 == (128 * ((v6 >> 2) & 1) + 64 * ((v6 >> 1) & 1) + 32 * ((v6 >> 0)
            & 1) + 16 * ((v7 >> 4) & 1) + 8 * ((v7 >> 3) & 1) + 4 * ((v7 >> 2) & 1) + 2 * ((v7 >> 1)
            & 1) + ((v7 >> 0) & 1)) as u8) by (bit_vector)
            requires
                v6 < 32,
                v7 < 32,
        ;
    }
    r
}

/// Relies on `String::from_utf8`: a buffer of ASCII bytes decodes to
/// exactly those characters.
#[verifier::external_body]
fn ascii_to_string(bytes: Vec<u8>) -> (r: String)
    requires
        forall|i: int| 0 <= i < bytes@.len() ==> bytes@[i] < 128,
    ensures
        r@ == bytes@.map(|i: int, b: u8| b as char),
{
    String::from_utf8(bytes).unwrap_or_default()
}

/// Any bit of a byte stream is 0 or 1.
proof fn lemma_nth_bit_le_1(s: Seq<u8>, t: int)
    ensures
        nth_bit(s, t) <= 1,
{
    if 0 <= t < 8 * s.len() {
        let x = s[t / 8];
        let sh = (7 - (t % 8)) as u8;
        assert((x >> sh) & 1 <= 1) by (bit_vector);
    }
}

/// Any 5-bit symbol value is below 32.
pub proof fn lemma_sym_val_lt_32(s: Seq<u8>, i: int)
    ensures
        sym_val(s, i) < 32,
{
    lemma_nth_bit_le_1(s, 5 * i);
    lemma_nth_bit_le_1(s, 5 * i + 1);
    lemma_nth_bit_le_1(s, 5 * i + 2);
    lemma_nth_bit_le_1(s, 5 * i + 3);
    lemma_nth_bit_le_1(s, 5 * i + 4);
}

/// In the requested case, the symbol for a 5-bit value is printable ASCII.
proof fn lemma_symbol_byte_range(v: u8, upper: bool)
    requires
        v < 32,
    ensures
        48 <= symbol_byte(v, upper) < 128,
{
}

/// The first 8 symbols of a 16-byte buffer only read its first 5 bytes.
proof fn lemma_encode_group0(s: Seq<u8>)
    requires
        s.len() == 16,
    ensures
        sym_val(s, 0) == sym_val(seq![s[0], s[1], s[2], s[3], s[4]], 0),
        sym_val(s, 1) == sym_val(seq![s[0], s[1], s[2], s[3], s[4]], 1),
        sym_val(s, 2) == sym_val(seq![s[0], s[1], s[2], s[3], s[4]], 2),
        sym_val(s, 3) == sym_val(seq![s[0], s[1], s[2], s[3], s[4]], 3),
        sym_val(s, 4) == sym_val(seq![s[0], s[1], s[2], s[3], s[4]], 4),
        sym_val(s, 5) == sym_val(seq![s[0], s[1], s[2], s[3], s[4]], 5),
        sym_val(s, 6) == sym_val(seq![s[0], s[1], s[2], s[3], s[4]], 6),
        sym_val(s, 7) == sym_val(seq![s[0], s[1], s[2], s[3], s[4]], 7),
{
}

/// Symbols 8 to 15 of a 16-byte buffer only read its bytes 5 to 9.
proof fn lemma_encode_group1(s: Seq<u8>)
    requires
        s.len() == 16,
    ensures
        sym_val(s, 8) == sym_val(seq![s[5], s[6], s[7], s[8], s[9]], 0),
        sym_val(s, 9) == sym_val(seq![s[5], s[6], s[7], s[8], s[9]], 1),
        sym_val(s, 10) == sym_val(seq![s[5], s[6], s[7], s[8], s[9]], 2),
        sym_val(s, 11) == sym_val(seq![s[5], s[6], s[7], s[8], s[9]], 3),
        sym_val(s, 12) == sym_val(seq![s[5], s[6], s[7], s[8], s[9]], 4),
        sym_val(s, 13) == sym_val(seq![s[5], s[6], s[7], s[8], s[9]], 5),
        sym_val(s, 14) == sym_val(seq![s[5], s[6], s[7], s[8], s[9]], 6),
        sym_val(s, 15) == sym_val(seq![s[5], s[6], s[7], s[8], s[9]], 7),
{
}

/// Symbols 16 to 23 of a 16-byte buffer only read its bytes 10 to 14.
proof fn lemma_encode_group2(s: Seq<u8>)
    requires
        s.len() == 16,
    ensures
        sym_val(s, 16) == sym_val(seq![s[10], s[11], s[12], s[13], s[14]], 0),
        sym_val(s, 17) == sym_val(seq![s[10], s[11], s[12], s[13], s[14]], 1),
        sym_val(s, 18) == sym_val(seq![s[10], s[11], s[12], s[13], s[14]], 2),
        sym_val(s, 19) == sym_val(seq![s[10], s[11], s[12], s[13], s[14]], 3),
        sym_val(s, 20) == sym_val(seq![s[10], s[11], s[12], s[13], s[14]], 4),
        sym_val(s, 21) == sym_val(seq![s[10], s[11], s[12], s[13], s[14]], 5),
        sym_val(s, 22) == sym_val(seq![s[10], s[11], s[12], s[13], s[14]], 6),
        sym_val(s, 23) == sym_val(seq![s[10], s[11], s[12], s[13], s[14]], 7),
{
}

/// The last two symbols of a 16-byte buffer read its final byte padded
/// with zero bits.
proof fn lemma_encode_group3(s: Seq<u8>)
    requires
        s.len() == 16,
    ensures
        sym_val(s, 24) == sym_val(seq![s[15], 0, 0, 0, 0], 0),
        sym_val(s, 25) == sym_val(seq![s[15], 0, 0, 0, 0], 1),
{
    assert(((0u8 >> 7) & 1) == 0 && ((0u8 >> 6) & 1) == 0) by (bit_vector);
}

/// Encodes a 16-byte buffer as its canonical 26-symbol Crockford base32
/// string, in the requested case.
#[verifier::rlimit(100)]
pub fn encode(casing: Case, data: &[u8]) -> (r: String)
    requires
        data@.len() == 16,
    ensures
        r@ == encode_chars(data@, casing is Upper),
        r@.len() == 26,
{
    let upper: bool = match casing {
        Case::Upper => true,
        Case::Lower => false,
    };
    let g0 = group_symbols(data[0], data[1], data[2], data[3], data[4]);
    let g1 = group_symbols(data[5], data[6], data[7], data[8], data[9]);
    let g2 = group_symbols(data[10], data[11], data[12], data[13], data[14]);
    let g3 = group_symbols(data[15], 0, 0, 0, 0);
    let mut out: Vec<u8> = Vec::new();
    out.push(symbol_char(g0[0], upper));
    out.push(symbol_char(g0[1], upper));
    out.push(symbol_char(g0[2], upper));
    out.push(symbol_char(g0[3], upper));
    out.push(symbol_char(g0[4], upper));
    out.push(symbol_char(g0[5], upper));
    out.push(symbol_char(g0[6], upper));
    out.push(symbol_char(g0[7], upper));
    out.push(symbol_char(g1[0], upper));
    out.push(symbol_char(g1[1], upper));
    out.push(symbol_char(g1[2], upper));
    out.push(symbol_char(g1[3], upper));
    out.push(symbol_char(g1[4], upper));
    out.push(symbol_char(g1[5], upper));
    out.push(symbol_char(g1[6], upper));
    out.push(symbol_char(g1[7], upper));
    out.push(symbol_char(g2[0], upper));
    out.push(symbol_char(g2[1], upper));
    out.push(symbol_char(g2[2], upper));
    out.push(symbol_char(g2[3], upper));
    out.push(symbol_char(g2[4], upper));
    out.push(symbol_char(g2[5], upper));
    out.push(symbol_char(g2[6], upper));
    out.push(symbol_char(g2[7], upper));
    out.push(symbol_char(g3[0], upper));
    out.push(symbol_char(g3[1], upper));
    proof {
        lemma_encode_group0(data@);
        lemma_encode_group1(data@);
        lemma_encode_group2(data@);
        lemma_encode_group3(data@);
        assert(out@.len() == 26);
        assert forall|j: int| 0 <= j < 26 implies #[trigger] out@[j] == symbol_byte(
            sym_val(data@, j),
            upper,
        ) && out@[j] < 128 by {
            lemma_sym_val_lt_32(data@, j);
            lemma_symbol_byte_range(sym_val(data@, j), upper);
        }
        assert(out@ =~= encode_bytes(data@, upper));
    }
    let r: String = ascii_to_string(out);
    proof {
        assert(r@ =~= encode_chars(data@, upper));
    }
    r
}

/// Every bit of the symbol bit stream comes from the looked-up value of
/// the symbol it falls in.
proof fn lemma_dec_bits(s: Seq<u8>, vals: Seq<u8>)
    requires
        s.len() == 26,
        vals.len() >= 26,
        forall|j: int| 0 <= j < 26 ==> #[trigger] vals[j] as int == inv_symbol(s[j]),
    ensures
        forall|t: int| 0 <= t < 130 ==> #[trigger] dec_bit(s, t) == sym_bit(vals[t / 5], t % 5),
{
    assert forall|t: int| 0 <= t < 130 implies #[trigger] dec_bit(s, t) == sym_bit(
        vals[t / 5],
        t % 5,
    ) by {
        assert(0 <= t / 5 < 26);
    }
}

/// The bytes of group 0 of a decoded string are the weighted sums of
/// the bits of its looked-up symbol values.
proof fn lemma_decode_group0(s: Seq<u8>, vals: Seq<u8>)
    requires
        s.len() == 26,
        vals.len() == 32,
        forall|j: int| 0 <= j < 26 ==> #[trigger] vals[j] as int == inv_symbol(s[j]),
    ensures
        decoded_byte(s, 0) == (128 * sym_bit(vals[0], 0) + 64 * sym_bit(vals[0], 1) + 32 * sym_bit(vals[0], 2) + 16 * sym_bit(vals[0], 3) + 8 * sym_bit(vals[0], 4) + 4 * sym_bit(vals[1], 0) + 2 * sym_bit(vals[1], 1) + sym_bit(vals[1], 2)) as u8,
        decoded_byte(s, 1) == (128 * sym_bit(vals[1], 3) + 64 * sym_bit(vals[1], 4) + 32 * sym_bit(vals[2], 0) + 16 * sym_bit(vals[2], 1) + 8 * sym_bit(vals[2], 2) + 4 * sym_bit(vals[2], 3) + 2 * sym_bit(vals[2], 4) + sym_bit(vals[3], 0)) as u8,
        decoded_byte(s, 2) == (128 * sym_bit(vals[3], 1) + 64 * sym_bit(vals[3], 2) + 32 * sym_bit(vals[3], 3) + 16 * sym_bit(vals[3], 4) + 8 * sym_bit(vals[4], 0) + 4 * sym_bit(vals[4], 1) + 2 * sym_bit(vals[4], 2) + sym_bit(vals[4], 3)) as u8,
        decoded_byte(s, 3) == (128 * sym_bit(vals[4], 4) + 64 * sym_bit(vals[5], 0) + 32 * sym_bit(vals[5], 1) + 16 * sym_bit(vals[5], 2) + 8 * sym_bit(vals[5], 3) + 4 * sym_bit(vals[5], 4) + 2 * sym_bit(vals[6], 0) + sym_bit(vals[6], 1)) as u8,
        decoded_byte(s, 4) == (128 * sym_bit(vals[6], 2) + 64 * sym_bit(vals[6], 3) + 32 * sym_bit(vals[6], 4) + 16 * sym_bit(vals[7], 0) + 8 * sym_bit(vals[7], 1) + 4 * sym_bit(vals[7], 2) + 2 * sym_bit(vals[7], 3) + sym_bit(vals[7], 4)) as u8,
{
    reveal(decoded_byte);
    lemma_dec_bits(s, vals);
}

/// The bytes of group 1 of a decoded string are the weighted sums of
/// the bits of its looked-up symbol values.
proof fn lemma_decode_group1(s: Seq<u8>, vals: Seq<u8>)
    requires
        s.len() == 26,
        vals.len() == 32,
        forall|j: int| 0 <= j < 26 ==> #[trigger] vals[j] as int == inv_symbol(s[j]),
    ensures
        decoded_byte(s, 5) == (128 * sym_bit(vals[8], 0) + 64 * sym_bit(vals[8], 1) + 32 * sym_bit(vals[8], 2) + 16 * sym_bit(vals[8], 3) + 8 * sym_bit(vals[8], 4) + 4 * sym_bit(vals[9], 0) + 2 * sym_bit(vals[9], 1) + sym_bit(vals[9], 2)) as u8,
        decoded_byte(s, 6) == (128 * sym_bit(vals[9], 3) + 64 * sym_bit(vals[9], 4) + 32 * sym_bit(vals[10], 0) + 16 * sym_bit(vals[10], 1) + 8 * sym_bit(vals[10], 2) + 4 * sym_bit(vals[10], 3) + 2 * sym_bit(vals[10], 4) + sym_bit(vals[11], 0)) as u8,
        decoded_byte(s, 7) == (128 * sym_bit(vals[11], 1) + 64 * sym_bit(vals[11], 2) + 32 * sym_bit(vals[11], 3) + 16 * sym_bit(vals[11], 4) + 8 * sym_bit(vals[12], 0) + 4 * sym_bit(vals[12], 1) + 2 * sym_bit(vals[12], 2) + sym_bit(vals[12], 3)) as u8,
        decoded_byte(s, 8) == (128 * sym_bit(vals[12], 4) + 64 * sym_bit(vals[13], 0) + 32 * sym_bit(vals[13], 1) + 16 * sym_bit(vals[13], 2) + 8 * sym_bit(vals[13], 3) + 4 * sym_bit(vals[13], 4) + 2 * sym_bit(vals[14], 0) + sym_bit(vals[14], 1)) as u8,
        decoded_byte(s, 9) == (128 * sym_bit(vals[14], 2) + 64 * sym_bit(vals[14], 3) + 32 * sym_bit(vals[14], 4) + 16 * sym_bit(vals[15], 0) + 8 * sym_bit(vals[15], 1) + 4 * sym_bit(vals[15], 2) + 2 * sym_bit(vals[15], 3) + sym_bit(vals[15], 4)) as u8,
{
    reveal(decoded_byte);
    lemma_dec_bits(s, vals);
}

/// The bytes of group 2 of a decoded string are the weighted sums of
/// the bits of its looked-up symbol values.
proof fn lemma_decode_group2(s: Seq<u8>, vals: Seq<u8>)
    requires
        s.len() == 26,
        vals.len() == 32,
        forall|j: int| 0 <= j < 26 ==> #[trigger] vals[j] as int == inv_symbol(s[j]),
    ensures
        decoded_byte(s, 10) == (128 * sym_bit(vals[16], 0) + 64 * sym_bit(vals[16], 1) + 32 * sym_bit(vals[16], 2) + 16 * sym_bit(vals[16], 3) + 8 * sym_bit(vals[16], 4) + 4 * sym_bit(vals[17], 0) + 2 * sym_bit(vals[17], 1) + sym_bit(vals[17], 2)) as u8,
        decoded_byte(s, 11) == (128 * sym_bit(vals[17], 3) + 64 * sym_bit(vals[17], 4) + 32 * sym_bit(vals[18], 0) + 16 * sym_bit(vals[18], 1) + 8 * sym_bit(vals[18], 2) + 4 * sym_bit(vals[18], 3) + 2 * sym_bit(vals[18], 4) + sym_bit(vals[19], 0)) as u8,
        decoded_byte(s, 12) == (128 * sym_bit(vals[19], 1) + 64 * sym_bit(vals[19], 2) + 32 * sym_bit(vals[19], 3) + 16 * sym_bit(vals[19], 4) + 8 * sym_bit(vals[20], 0) + 4 * sym_bit(vals[20], 1) + 2 * sym_bit(vals[20], 2) + sym_bit(vals[20], 3)) as u8,
        decoded_byte(s, 13) == (128 * sym_bit(vals[20], 4) + 64 * sym_bit(vals[21], 0) + 32 * sym_bit(vals[21], 1) + 16 * sym_bit(vals[21], 2) + 8 * sym_bit(vals[21], 3) + 4 * sym_bit(vals[21], 4) + 2 * sym_bit(vals[22], 0) + sym_bit(vals[22], 1)) as u8,
        decoded_byte(s, 14) == (128 * sym_bit(vals[22], 2) + 64 * sym_bit(vals[22], 3) + 32 * sym_bit(vals[22], 4) + 16 * sym_bit(vals[23], 0) + 8 * sym_bit(vals[23], 1) + 4 * sym_bit(vals[23], 2) + 2 * sym_bit(vals[23], 3) + sym_bit(vals[23], 4)) as u8,
{
    reveal(decoded_byte);
    lemma_dec_bits(s, vals);
}

/// The bytes of group 3 of a decoded string are the weighted sums of
/// the bits of its looked-up symbol values.
proof fn lemma_decode_group3(s: Seq<u8>, vals: Seq<u8>)
    requires
        s.len() == 26,
        vals.len() == 32,
        forall|j: int| 0 <= j < 26 ==> #[trigger] vals[j] as int == inv_symbol(s[j]),
    ensures
        decoded_byte(s, 15) == (128 * sym_bit(vals[24], 0) + 64 * sym_bit(vals[24], 1) + 32 * sym_bit(vals[24], 2) + 16 * sym_bit(vals[24], 3) + 8 * sym_bit(vals[24], 4) + 4 * sym_bit(vals[25], 0) + 2 * sym_bit(vals[25], 1) + sym_bit(vals[25], 2)) as u8,
{
    reveal(decoded_byte);
    lemma_dec_bits(s, vals);
}

/// Reassembles the 16 bytes from the 26 looked-up symbol values of a
/// valid encoded string.
#[verifier::rlimit(100)]
fn decode_symbols(vals: &[u8; 32], Ghost(s): Ghost<Seq<u8>>) -> (r: Vec<u8>)
    requires
        s.len() == 26,
        forall|j: int| 0 <= j < 26 ==> #[trigger] vals@[j] as int == inv_symbol(s[j]) && vals@[j]
            < 32,
        forall|j: int| 26 <= j < 32 ==> #[trigger] vals@[j] == 0,
    ensures
        r@ == decoded_bytes(s),
        r@.len() == 16,
{
    let d0 = decode_quantum(vals[0], vals[1], vals[2], vals[3], vals[4], vals[5], vals[6], vals[7]);
    let d1 = decode_quantum(
        vals[8],
        vals[9],
        vals[10],
        vals[11],
        vals[12],
        vals[13],
        vals[14],
        vals[15],
    );
    let d2 = decode_quantum(
        vals[16],
        vals[17],
        vals[18],
        vals[19],
        vals[20],
        vals[21],
        vals[22],
        vals[23],
    );
    let d3 = decode_quantum(
        vals[24],
        vals[25],
        vals[26],
        vals[27],
        vals[28],
        vals[29],
        vals[30],
        vals[31],
    );
    let mut ret: Vec<u8> = Vec::new();
    ret.push(d0[0]);
    ret.push(d0[1]);
    ret.push(d0[2]);
    ret.push(d0[3]);
    ret.push(d0[4]);
    ret.push(d1[0]);
    ret.push(d1[1]);
    ret.push(d1[2]);
    ret.push(d1[3]);
    ret.push(d1[4]);
    ret.push(d2[0]);
    ret.push(d2[1]);
    ret.push(d2[2]);
    ret.push(d2[3]);
    ret.push(d2[4]);
    ret.push(d3[0]);
    proof {
        lemma_decode_group0(s, vals@);
        lemma_decode_group1(s, vals@);
        lemma_decode_group2(s, vals@);
        lemma_decode_group3(s, vals@);
        assert(ret@[0] == decoded_byte(s, 0));
        assert(ret@[1] == decoded_byte(s, 1));
        assert(ret@[2] == decoded_byte(s, 2));
        assert(ret@[3] == decoded_byte(s, 3));
        assert(ret@[4] == decoded_byte(s, 4));
        assert(ret@[5] == decoded_byte(s, 5));
        assert(ret@[6] == decoded_byte(s, 6));
        assert(ret@[7] == decoded_byte(s, 7));
        assert(ret@[8] == decoded_byte(s, 8));
        assert(ret@[9] == decoded_byte(s, 9));
        assert(ret@[10] == decoded_byte(s, 10));
        assert(ret@[11] == decoded_byte(s, 11));
        assert(ret@[12] == decoded_byte(s, 12));
        assert(ret@[13] == decoded_byte(s, 13));
        assert(ret@[14] == decoded_byte(s, 14));
        assert(ret@[15] == decoded_byte(s, 15));
        assert(ret@ =~= decoded_bytes(s));
    }
    ret
}

/// Decodes a 26-symbol string into the 16 bytes it encodes.
///
/// Fails with [`ParseError::InvalidLength`] when the input is not exactly
/// 26 bytes long, and with [`ParseError::InvalidCharacter`] at the first
/// byte that is no base32 symbol; the reported index is relative to the
/// 8-character chunk being processed, not to the whole string.
#[verifier::rlimit(100)]
pub fn decode(data: &str) -> (r: Result<Vec<u8>, ParseError>)
    ensures
        ({
            let s = data.spec_bytes();
            &&& (s.len() != 26 ==> r == Err::<Vec<u8>, ParseError>(
                ParseError::InvalidLength { found: s.len() as usize },
            ))
            &&& (s.len() == 26 && valid_symbols(s) ==> (r matches Ok(v) && v@ == decoded_bytes(s)
                && v@.len() == 16))
            &&& (s.len() == 26 && !valid_symbols(s) ==> (r matches Err(e) && exists|p: int|
                first_invalid(s, p) && e == (ParseError::InvalidCharacter {
                    found: s[p] as char,
                    index: (p % 8) as usize,
                })))
        }),
{
    let bytes: &[u8] = data.as_bytes();
    let n: usize = bytes.len();
    if n != 26 {
        return Err(ParseError::InvalidLength { found: n });
    }
    let mut vals: [u8; 32] = [0; 32];
    let mut i: usize = 0;
    while i < 26
        invariant
            i <= 26,
            bytes@ == data.spec_bytes(),
            bytes@.len() == 26,
            forall|j: int| 0 <= j < i ==> valid_symbol(#[trigger] bytes@[j]),
            forall|j: int| 0 <= j < i ==> #[trigger] vals@[j] as int == inv_symbol(bytes@[j])
                && vals@[j] < 32,
            forall|j: int| i <= j < 32 ==> #[trigger] vals@[j] == 0,
        decreases 26 - i,
    {
        let c: u8 = bytes[i];
        let v: i8 = symbol_value(c);
        if v < 0 {
            proof {
                assert(first_invalid(data.spec_bytes(), i as int));
            }
            return Err(ParseError::InvalidCharacter { found: c as char, index: i % 8 });
        }
        vals[i] = v as u8;
        i += 1;
    }
    let ret: Vec<u8> = decode_symbols(&vals, Ghost(data.spec_bytes()));
    Ok(ret)
}

/// Looking a symbol up in the inverse table returns the 5-bit value it
/// was chosen for, in either case.
proof fn lemma_symbol_round_trip(v: u8, upper: bool)
    requires
        v < 32,
    ensures
        inv_symbol(symbol_byte(v, upper)) == v,
{
}

/// The bits of a symbol value are the bits of the window it was read
/// from.
proof fn lemma_sym_bits(s: Seq<u8>, i: int)
    ensures
        sym_bit(sym_val(s, i), 0) == nth_bit(s, 5 * i),
        sym_bit(sym_val(s, i), 1) == nth_bit(s, 5 * i + 1),
        sym_bit(sym_val(s, i), 2) == nth_bit(s, 5 * i + 2),
        sym_bit(sym_val(s, i), 3) == nth_bit(s, 5 * i + 3),
        sym_bit(sym_val(s, i), 4) == nth_bit(s, 5 * i + 4),
{
    let x0 = nth_bit(s, 5 * i);
    let x1 = nth_bit(s, 5 * i + 1);
    let x2 = nth_bit(s, 5 * i + 2);
    let x3 = nth_bit(s, 5 * i + 3);
    let x4 = nth_bit(s, 5 * i + 4);
    lemma_nth_bit_le_1(s, 5 * i);
    lemma_nth_bit_le_1(s, 5 * i + 1);
    lemma_nth_bit_le_1(s, 5 * i + 2);
    lemma_nth_bit_le_1(s, 5 * i + 3);
    lemma_nth_bit_le_1(s, 5 * i + 4);
    let v = sym_val(s, i);
    assert(v == (16 * x0 + 8 * x1 + 4 * x2 + 2 * x3 + x4) as u8);
    assert((v >> 4) & 1 == x0 && (v >> 3) & 1 == x1 && (v >> 2) & 1 == x2 && (v >> 1) & 1 == x3 && (
    v >> 0) & 1 == x4) by (bit_vector)
        requires
            x0 <= 1,
            x1 <= 1,
            x2 <= 1,
            x3 <= 1,
            x4 <= 1,
            v == (16 * x0 + 8 * x1 + 4 * x2 + 2 * x3 + x4) as u8,
    ;
}

/// A byte is the weighted sum of its 8 bits.
proof fn lemma_byte_from_bits(s: Seq<u8>, j: int)
    requires
        0 <= j < s.len(),
    ensures
        (128 * nth_bit(s, 8 * j) + 64 * nth_bit(s, 8 * j + 1) + 32 * nth_bit(s, 8 * j + 2) + 16
            * nth_bit(s, 8 * j + 3) + 8 * nth_bit(s, 8 * j + 4) + 4 * nth_bit(s, 8 * j + 5) + 2
            * nth_bit(s, 8 * j + 6) + nth_bit(s, 8 * j + 7)) as u8 == s[j],
{
    let b = s[j];
    assert(nth_bit(s, 8 * j) == (b >> 7) & 1);
    assert(nth_bit(s, 8 * j + 1) == (b >> 6) & 1);
    assert(nth_bit(s, 8 * j + 2) == (b >> 5) & 1);
    assert(nth_bit(s, 8 * j + 3) == (b >> 4) & 1);
    assert(nth_bit(s, 8 * j + 4) == (b >> 3) & 1);
    assert(nth_bit(s, 8 * j + 5) == (b >> 2) & 1);
    assert(nth_bit(s, 8 * j + 6) == (b >> 1) & 1);
    assert(nth_bit(s, 8 * j + 7) == (b >> 0) & 1);
    assert((128 * ((b >> 7) & 1) + 64 * ((b >> 6) & 1) + 32 * ((b >> 5) & 1) + 16 * ((b >> 4) & 1)
        + 8 * ((b >> 3) & 1) + 4 * ((b >> 2) & 1) + 2 * ((b >> 1) & 1) + ((b >> 0) & 1)) as u8 == b)
        by (bit_vector);
}

/// Round trip of the codec: the canonical encoding of any 16-byte buffer,
/// in either case, consists of valid symbols, and decoding it returns
/// exactly the original bytes.
pub proof fn lemma_encode_decode_round_trip(s: Seq<u8>, upper: bool)
    requires
        s.len() == 16,
    ensures
        encode_bytes(s, upper).len() == 26,
        valid_symbols(encode_bytes(s, upper)),
        decoded_bytes(encode_bytes(s, upper)) == s,
{
    let e = encode_bytes(s, upper);
    assert forall|i: int| 0 <= i < 26 implies valid_symbol(#[trigger] e[i]) && inv_symbol(e[i])
        == sym_val(s, i) by {
        lemma_sym_val_lt_32(s, i);
        lemma_symbol_round_trip(sym_val(s, i), upper);
    }
    assert forall|t: int| 0 <= t < 128 implies #[trigger] dec_bit(e, t) == nth_bit(s, t) by {
        let i = t / 5;
        let k = t % 5;
        assert(0 <= i < 26);
        assert(inv_symbol(e[i]) == sym_val(s, i));
        lemma_sym_bits(s, i);
        assert(5 * i + k == t);
        if k == 0 {
            assert(dec_bit(e, t) == nth_bit(s, t));
        } else if k == 1 {
            assert(dec_bit(e, t) == nth_bit(s, t));
        } else if k == 2 {
            assert(dec_bit(e, t) == nth_bit(s, t));
        } else if k == 3 {
            assert(dec_bit(e, t) == nth_bit(s, t));
        } else {
            assert(k == 4);
            assert(dec_bit(e, t) == nth_bit(s, t));
        }
    }
    assert forall|j: int| 0 <= j < 16 implies #[trigger] decoded_bytes(e)[j] == s[j] by {
        reveal(decoded_byte);
        lemma_byte_from_bits(s, j);
        assert(decoded_byte(e, j) == (128 * nth_bit(s, 8 * j) + 64 * nth_bit(s, 8 * j + 1) + 32
            * nth_bit(s, 8 * j + 2) + 16 * nth_bit(s, 8 * j + 3) + 8 * nth_bit(s, 8 * j + 4) + 4
            * nth_bit(s, 8 * j + 5) + 2 * nth_bit(s, 8 * j + 6) + nth_bit(s, 8 * j + 7)) as u8);
    }
    assert(decoded_bytes(e) =~= s);
}

/// The canonical encoding consists of ASCII characters only, and the
/// UTF-8 bytes of the encoded string are exactly its symbol bytes.
/// Together with the codec round trip this traces a parsed encoding back
/// to its buffer.
pub proof fn lemma_encode_chars_bytes(s: Seq<u8>, upper: bool)
    requires
        s.len() == 16,
    ensures
        vstd::utf8::is_ascii_chars(encode_chars(s, upper)),
        vstd::utf8::encode_utf8(encode_chars(s, upper)) == encode_bytes(s, upper),
{
    let e = encode_bytes(s, upper);
    let c = encode_chars(s, upper);
    assert forall|i: int| 0 <= i < c.len() implies '\0' <= #[trigger] c[i] <= '\u{7f}' by {
        lemma_sym_val_lt_32(s, i);
        lemma_symbol_byte_range(sym_val(s, i), upper);
        assert(c[i] == e[i] as char);
    }
    assert(vstd::utf8::is_ascii_chars(c));
    vstd::utf8::is_ascii_chars_encode_utf8(c);
    assert forall|i: int| 0 <= i < 26 implies vstd::utf8::encode_utf8(c)[i] == e[i] by {
        lemma_sym_val_lt_32(s, i);
        lemma_symbol_byte_range(sym_val(s, i), upper);
        assert(c[i] == e[i] as char);
    }
    assert(vstd::utf8::encode_utf8(c) =~= e);
}

/// The uppercase and the lowercase encoding of one buffer differ only in
/// letter case: at every position either the same digit stands in both,
/// or the lowercase letter stands exactly 32 code points above its
/// uppercase counterpart. Symbol positions never differ.
pub proof fn lemma_case_agnostic(s: Seq<u8>)
    requires
        s.len() == 16,
    ensures
        forall|i: int|
            0 <= i < 26 ==> {
                let u = #[trigger] encode_bytes(s, true)[i];
                let l = encode_bytes(s, false)[i];
                (48 <= u <= 57 && l == u) || (65 <= u <= 90 && l == u + 32)
            },
{
    assert forall|i: int| 0 <= i < 26 implies {
        let u = #[trigger] encode_bytes(s, true)[i];
        let l = encode_bytes(s, false)[i];
        (48 <= u <= 57 && l == u) || (65 <= u <= 90 && l == u + 32)
    } by {
        lemma_sym_val_lt_32(s, i);
    }
}

impl ParseError {
    /// A short description of the error kind.
    pub fn _description(&self) -> (r: &'static str)
        ensures
            self is InvalidCharacter ==> r@ == "invalid character"@,
            self is InvalidLength ==> r@ == "invalid length"@,
    {
        match *self {
            ParseError::InvalidCharacter { .. } => "invalid character",
            ParseError::InvalidLength { .. } => "invalid length",
        }
    }
}

} // verus!
