//! Generate and parse ULIDs.
//!
//! Provides support for universally unique lexicographically sortable
//! identifiers (ULIDs). A ULID is a combination of a 48-bit millisecond
//! timestamp and an 80-bit unique number, stored as 16 octets. Typically a
//! ULID is displayed in a readable string form as a sequence of 26 base32
//! digits.
//!
//! The uniqueness property is not strictly guaranteed, however for all
//! practical purposes an unintentional collision would be extremely unlikely.

use vstd::prelude::*;
use vstd::string::StringSliceAdditionalSpecFns;

pub mod adapter;
pub mod generation;
pub mod parser;
pub mod prelude;

pub use crate::parser::ParseError;

verus! {

broadcast use vstd::array::group_array_axioms;

/// A 128-bit (16 byte) buffer containing the ID.
pub type Bytes = [u8; 16];

/// The big-endian bytes of a 32-bit field, most significant first.
pub open spec fn u32_bytes(v: u32) -> Seq<u8> {
    seq![(v >> 24) as u8, (v >> 16) as u8, (v >> 8) as u8, v as u8]
}

/// The big-endian bytes of a 16-bit field, most significant first.
pub open spec fn u16_bytes(v: u16) -> Seq<u8> {
    seq![(v >> 8) as u8, v as u8]
}

/// The 16-byte layout of the five fields: `f1` (4 bytes), `f2` (2 bytes),
/// `f3` (2 bytes), `f4` (4 bytes) and `f5` (4 bytes), each big-endian,
/// concatenated in that order.
pub open spec fn fields_bytes(f1: u32, f2: u16, f3: u16, f4: u32, f5: u32) -> Seq<u8> {
    u32_bytes(f1) + u16_bytes(f2) + u16_bytes(f3) + u32_bytes(f4) + u32_bytes(f5)
}

/// The 32-bit field read big-endian from bytes `i..i + 4` of `s`.
pub open spec fn field_u32(s: Seq<u8>, i: int) -> u32 {
    ((s[i] as u32) << 24) | ((s[i + 1] as u32) << 16) | ((s[i + 2] as u32) << 8) | (s[i + 3] as u32)
}

/// The 16-bit field read big-endian from bytes `i..i + 2` of `s`.
pub open spec fn field_u16(s: Seq<u8>, i: int) -> u16 {
    ((s[i] as u16) << 8) | (s[i + 1] as u16)
}

/// The five-field decomposition of a 16-byte buffer.
pub open spec fn fields_of(s: Seq<u8>) -> (u32, u16, u16, u32, u32) {
    (field_u32(s, 0), field_u16(s, 4), field_u16(s, 6), field_u32(s, 8), field_u32(s, 12))
}

/// The 16 big-endian bytes of a 128-bit unsigned integer.
pub open spec fn u128_bytes(v: u128) -> Seq<u8> {
    seq![
        (v >> 120) as u8,
        (v >> 112) as u8,
        (v >> 104) as u8,
        (v >> 96) as u8,
        (v >> 88) as u8,
        (v >> 80) as u8,
        (v >> 72) as u8,
        (v >> 64) as u8,
        (v >> 56) as u8,
        (v >> 48) as u8,
        (v >> 40) as u8,
        (v >> 32) as u8,
        (v >> 24) as u8,
        (v >> 16) as u8,
        (v >> 8) as u8,
        v as u8,
    ]
}

/// The 128-bit unsigned integer read big-endian from a 16-byte buffer.
pub open spec fn bytes_u128(s: Seq<u8>) -> u128 {
    ((s[0] as u128) << 120) | ((s[1] as u128) << 112) | ((s[2] as u128) << 104) | (
    (s[3] as u128) << 96) | ((s[4] as u128) << 88) | ((s[5] as u128) << 80) | (
    (s[6] as u128) << 72) | ((s[7] as u128) << 64) | ((s[8] as u128) << 56) | (
    (s[9] as u128) << 48) | ((s[10] as u128) << 40) | ((s[11] as u128) << 32) | (
    (s[12] as u128) << 24) | ((s[13] as u128) << 16) | ((s[14] as u128) << 8) | (
    s[15] as u128)
}

/// The 6 bytes holding the low 48 bits of a millisecond timestamp,
/// big-endian. Values outside the signed 48-bit range are truncated.
pub open spec fn millis_bytes(millis: i64) -> Seq<u8> {
    seq![
        (millis >> 40) as u8,
        (millis >> 32) as u8,
        (millis >> 24) as u8,
        (millis >> 16) as u8,
        (millis >> 8) as u8,
        millis as u8,
    ]
}

/// The unsigned 48-bit integer read big-endian from the first 6 bytes of `s`.
pub open spec fn be48(s: Seq<u8>) -> int {
    ((((s[0] * 256 + s[1]) * 256 + s[2]) * 256 + s[3]) * 256 + s[4]) * 256 + s[5]
}

/// The millisecond timestamp of a 16-byte buffer: its first 6 bytes as a
/// signed 48-bit big-endian integer, sign-extended to 64 bits.
pub open spec fn millis_of(s: Seq<u8>) -> i64 {
    if be48(s) >= 0x8000_0000_0000 {
        (be48(s) - 0x1_0000_0000_0000) as i64
    } else {
        be48(s) as i64
    }
}

/// Strict lexicographic order on byte sequences of equal length: some
/// position holds a smaller byte while all earlier positions agree.
pub open spec fn bytes_lt(a: Seq<u8>, b: Seq<u8>) -> bool {
    exists|i: int|
        0 <= i < a.len() && i < b.len() && a[i] < b[i] && (forall|j: int|
            0 <= j < i ==> a[j] == b[j])
}

/// A universally unique lexicographically sortable identifier (ULID).
///
/// Its view is the sequence of its 16 bytes: bytes 0 to 5 hold a big-endian
/// 48-bit millisecond timestamp, bytes 6 to 15 hold the random portion.
#[derive(Clone, Copy, Debug, Default, Eq, Hash, Ord, PartialEq, PartialOrd)]
pub struct Ulid(Bytes);

impl View for Ulid {
    type V = Seq<u8>;

    closed spec fn view(&self) -> Seq<u8> {
        self.0@
    }
}

/// Every [`Ulid`] consists of exactly 16 bytes.
pub broadcast proof fn lemma_ulid_len(u: Ulid)
    ensures
        (#[trigger] u@).len() == 16,
{
}

impl Ulid {
    /// Creates a [`Ulid`] using the supplied bytes.
    pub fn from_bytes(bytes: Bytes) -> (r: Ulid)
        ensures
            r@ == bytes@,
    {
        Ulid(bytes)
    }

    /// Creates a [`Ulid`] using the supplied bytes.
    ///
    /// Fails with a [`BytesError`] if and only if `slice` has any other
    /// length than 16; otherwise the bytes are copied verbatim.
    pub fn from_slice(slice: &[u8]) -> (r: Result<Ulid, BytesError>)
        ensures
            slice@.len() == 16 ==> (r matches Ok(u) && u@ == slice@),
            slice@.len() != 16 ==> (r matches Err(e) && e.spec_expected() == 16
                && e.spec_found() == slice@.len()),
    {
        let len: usize = slice.len();
        if len != 16 {
            return Err(BytesError::new(16, len));
        }

        let mut bytes: Bytes = [0; 16];
        let mut i: usize = 0;
        while i < 16
            invariant
                i <= 16,
                slice@.len() == 16,
                forall|j: int| 0 <= j < i ==> bytes@[j] == slice@[j],
            decreases 16 - i,
        {
            bytes[i] = slice[i];
            i += 1;
        }
        assert(bytes@ =~= slice@);
        Ok(Ulid::from_bytes(bytes))
    }

    /// Creates a [`Ulid`] from milliseconds and the provided bytes.
    ///
    /// The low 48 bits of `millis` are written big-endian into the first 6
    /// bytes (values outside the signed 48-bit range are truncated, not
    /// rejected); `bytes` fills the remaining 10 bytes unchanged.
    pub fn from_millis_bytes(millis: i64, bytes: [u8; 10]) -> (r: Ulid)
        ensures
            r@ == millis_bytes(millis) + bytes@,
    {
        let buf: Bytes = [
            (millis >> 40) as u8,
            (millis >> 32) as u8,
            (millis >> 24) as u8,
            (millis >> 16) as u8,
            (millis >> 8) as u8,
            millis as u8,
            bytes[0],
            bytes[1],
            bytes[2],
            bytes[3],
            bytes[4],
            bytes[5],
            bytes[6],
            bytes[7],
            bytes[8],
            bytes[9],
        ];
        assert(buf@ =~= millis_bytes(millis) + bytes@);
        Ulid::from_bytes(buf)
    }

    /// Creates a [`Ulid`] from a [`u128`] value, interpreted as the 16
    /// bytes of the identifier in big-endian order.
    pub fn from_u128(value: u128) -> (r: Ulid)
        ensures
            r@ == u128_bytes(value),
    {
        let buf: Bytes = [
            (value >> 120) as u8,
            (value >> 112) as u8,
            (value >> 104) as u8,
            (value >> 96) as u8,
            (value >> 88) as u8,
            (value >> 80) as u8,
            (value >> 72) as u8,
            (value >> 64) as u8,
            (value >> 56) as u8,
            (value >> 48) as u8,
            (value >> 40) as u8,
            (value >> 32) as u8,
            (value >> 24) as u8,
            (value >> 16) as u8,
            (value >> 8) as u8,
            value as u8,
        ];
        assert(buf@ =~= u128_bytes(value));
        Ulid::from_bytes(buf)
    }

    /// Creates a [`Ulid`] from five field values, laid out as
    /// [`fields_bytes`] describes.
    pub fn from_fields(f1: u32, f2: u16, f3: u16, f4: u32, f5: u32) -> (r: Ulid)
        ensures
            r@ == fields_bytes(f1, f2, f3, f4, f5),
    {
        let buf: Bytes = [
            (f1 >> 24) as u8,
            (f1 >> 16) as u8,
            (f1 >> 8) as u8,
            f1 as u8,
            (f2 >> 8) as u8,
            f2 as u8,
            (f3 >> 8) as u8,
            f3 as u8,
            (f4 >> 24) as u8,
            (f4 >> 16) as u8,
            (f4 >> 8) as u8,
            f4 as u8,
            (f5 >> 24) as u8,
            (f5 >> 16) as u8,
            (f5 >> 8) as u8,
            f5 as u8,
        ];
        assert(buf@ =~= fields_bytes(f1, f2, f3, f4, f5));
        Ulid::from_bytes(buf)
    }

    /// Returns the five field values of the [`Ulid`].
    ///
    /// These values can be passed to [`Ulid::from_fields`] to get the
    /// original [`Ulid`] back.
    ///
    /// - The first field value represents the high 32 bits of the timestamp.
    /// - The second field value represents the low 16 bits of the timestamp.
    /// - The third field value represents the first 16 bits of the random
    ///   portion.
    /// - The fourth field value represents the next 32 bits of the random
    ///   portion.
    /// - The fifth field value represents the last 32 bits of the random
    ///   portion.
    pub fn as_fields(&self) -> (r: (u32, u16, u16, u32, u32))
        ensures
            r == fields_of(self@),
    {
        broadcast use lemma_ulid_len;

        let b = self.as_bytes();
        let f1: u32 = ((b[0] as u32) << 24) | ((b[1] as u32) << 16) | ((b[2] as u32) << 8) | (
        b[3] as u32);
        let f2: u16 = ((b[4] as u16) << 8) | (b[5] as u16);
        let f3: u16 = ((b[6] as u16) << 8) | (b[7] as u16);
        let f4: u32 = ((b[8] as u32) << 24) | ((b[9] as u32) << 16) | ((b[10] as u32) << 8) | (
        b[11] as u32);
        let f5: u32 = ((b[12] as u32) << 24) | ((b[13] as u32) << 16) | ((b[14] as u32) << 8) | (
        b[15] as u32);
        (f1, f2, f3, f4, f5)
    }

    /// Returns the [`u128`] value represented by this [`Ulid`]: its 16
    /// bytes read as a big-endian unsigned integer.
    pub fn as_u128(self) -> (r: u128)
        ensures
            r == bytes_u128(self@),
    {
        broadcast use lemma_ulid_len;

        let b = self.as_bytes();
        ((b[0] as u128) << 120) | ((b[1] as u128) << 112) | ((b[2] as u128) << 104) | (
        (b[3] as u128) << 96) | ((b[4] as u128) << 88) | ((b[5] as u128) << 80) | (
        (b[6] as u128) << 72) | ((b[7] as u128) << 64) | ((b[8] as u128) << 56) | (
        (b[9] as u128) << 48) | ((b[10] as u128) << 40) | ((b[11] as u128) << 32) | (
        (b[12] as u128) << 24) | ((b[13] as u128) << 16) | ((b[14] as u128) << 8) | (
        b[15] as u128)
    }

    /// Returns the milliseconds of the timestamp portion of the [`Ulid`]:
    /// the first 6 bytes as a signed 48-bit big-endian integer,
    /// sign-extended to 64 bits.
    pub fn as_millis(&self) -> (r: i64)
        ensures
            r == millis_of(self@),
    {
        broadcast use lemma_ulid_len;

        let b = self.as_bytes();
        let b0: u8 = b[0];
        let b1: u8 = b[1];
        let b2: u8 = b[2];
        let b3: u8 = b[3];
        let b4: u8 = b[4];
        let b5: u8 = b[5];
        let v: u64 = ((b0 as u64) << 40) | ((b1 as u64) << 32) | ((b2 as u64) << 24) | ((b3 as u64)
            << 16) | ((b4 as u64) << 8) | (b5 as u64);
        proof {
            assert(v == ((((b0 * 256 + b1) * 256 + b2) * 256 + b3) * 256 + b4) * 256 + b5 && v
                < 0x1_0000_0000_0000) by (bit_vector)
                requires
                    v == ((b0 as u64) << 40) | ((b1 as u64) << 32) | ((b2 as u64) << 24) | ((b3
                        as u64) << 16) | ((b4 as u64) << 8) | (b5 as u64),
            ;
            assert(v == be48(self@));
        }
        if v >= 0x8000_0000_0000 {
            (v as i64) - 0x1_0000_0000_0000
        } else {
            v as i64
        }
    }

    /// Returns an array of 16 octets containing the [`Ulid`] data.
    pub fn as_bytes(&self) -> (r: &Bytes)
        ensures
            r@ == self@,
    {
        &self.0
    }

    /// Parses a [`Ulid`] from a string of case-insensitive base32 digits.
    ///
    /// Any of the formats generated by this crate (uppercase, lowercase)
    /// are supported by this parsing function.
    pub fn parse_str(input: &str) -> (r: Result<Ulid, ParseError>)
        ensures
            ({
                let s = input.spec_bytes();
                &&& (s.len() != 26 ==> r == Err::<Ulid, ParseError>(
                    ParseError::InvalidLength { found: s.len() as usize },
                ))
                &&& (s.len() == 26 && parser::valid_symbols(s) ==> (r matches Ok(u) && u@
                    == parser::decoded_bytes(s)))
                &&& (s.len() == 26 && !parser::valid_symbols(s) ==> (r matches Err(e) && exists|
                p: int|
                    parser::first_invalid(s, p) && e == (ParseError::InvalidCharacter {
                        found: s[p] as char,
                        index: (p % 8) as usize,
                    })))
            }),
    {
        match crate::parser::decode(input) {
            Err(e) => Err(e),
            Ok(bytes) => match Ulid::from_slice(bytes.as_slice()) {
                Ok(u) => Ok(u),
                Err(_) => {
                    proof {
                        assert(false);
                    }
                    Err(ParseError::InvalidLength { found: 0 })
                },
            },
        }
    }
}

impl core::str::FromStr for Ulid {
    type Err = ParseError;

    fn from_str(s: &str) -> Result<Self, Self::Err> {
        Ulid::parse_str(s)
    }
}

/// Round trip of the five-field view: reading the fields back from the
/// byte layout they were written into returns the original field values.
pub proof fn lemma_fields_round_trip(f1: u32, f2: u16, f3: u16, f4: u32, f5: u32)
    ensures
        fields_of(fields_bytes(f1, f2, f3, f4, f5)) == (f1, f2, f3, f4, f5),
{
    let s = fields_bytes(f1, f2, f3, f4, f5);
    assert(s[0] == (f1 >> 24) as u8 && s[1] == (f1 >> 16) as u8 && s[2] == (f1 >> 8) as u8 && s[3]
        == f1 as u8);
    assert(s[4] == (f2 >> 8) as u8 && s[5] == f2 as u8);
    assert(s[6] == (f3 >> 8) as u8 && s[7] == f3 as u8);
    assert(s[8] == (f4 >> 24) as u8 && s[9] == (f4 >> 16) as u8 && s[10] == (f4 >> 8) as u8 && s[11]
        == f4 as u8);
    assert(s[12] == (f5 >> 24) as u8 && s[13] == (f5 >> 16) as u8 && s[14] == (f5 >> 8) as u8 && s[15]
        == f5 as u8);
    lemma_u32_be_round_trip(f1);
    lemma_u16_be_round_trip(f2);
    lemma_u16_be_round_trip(f3);
    lemma_u32_be_round_trip(f4);
    lemma_u32_be_round_trip(f5);
}

/// A 32-bit value survives splitting into big-endian bytes and reassembly.
proof fn lemma_u32_be_round_trip(v: u32)
    ensures
        ((((v >> 24) as u8) as u32) << 24) | ((((v >> 16) as u8) as u32) << 16) | ((((v >> 8) as u8)
            as u32) << 8) | ((v as u8) as u32) == v,
{
    assert(((((v >> 24) as u8) as u32) << 24) | ((((v >> 16) as u8) as u32) << 16) | ((((v >> 8)
        as u8) as u32) << 8) | ((v as u8) as u32) == v) by (bit_vector);
}

/// A 16-bit value survives splitting into big-endian bytes and reassembly.
proof fn lemma_u16_be_round_trip(v: u16)
    ensures
        ((((v >> 8) as u8) as u16) << 8) | ((v as u8) as u16) == v,
{
    assert(((((v >> 8) as u8) as u16) << 8) | ((v as u8) as u16) == v) by (bit_vector);
}

/// Round trip of the 128-bit integer view: reassembling the 16 big-endian
/// bytes of a 128-bit unsigned integer returns the original integer.
pub proof fn lemma_u128_round_trip(v: u128)
    ensures
        bytes_u128(u128_bytes(v)) == v,
{
    let s = u128_bytes(v);
    assert(s[0] == (v >> 120) as u8 && s[1] == (v >> 112) as u8 && s[2] == (v >> 104) as u8 && s[3]
        == (v >> 96) as u8 && s[4] == (v >> 88) as u8 && s[5] == (v >> 80) as u8 && s[6] == (v
        >> 72) as u8 && s[7] == (v >> 64) as u8 && s[8] == (v >> 56) as u8 && s[9] == (v >> 48)
        as u8 && s[10] == (v >> 40) as u8 && s[11] == (v >> 32) as u8 && s[12] == (v >> 24) as u8
        && s[13] == (v >> 16) as u8 && s[14] == (v >> 8) as u8 && s[15] == v as u8);
    assert(((((v >> 120) as u8) as u128) << 120) | ((((v >> 112) as u8) as u128) << 112) | ((((v
        >> 104) as u8) as u128) << 104) | ((((v >> 96) as u8) as u128) << 96) | ((((v >> 88) as u8)
        as u128) << 88) | ((((v >> 80) as u8) as u128) << 80) | ((((v >> 72) as u8) as u128) << 72)
        | ((((v >> 64) as u8) as u128) << 64) | ((((v >> 56) as u8) as u128) << 56) | ((((v >> 48)
        as u8) as u128) << 48) | ((((v >> 40) as u8) as u128) << 40) | ((((v >> 32) as u8) as u128)
        << 32) | ((((v >> 24) as u8) as u128) << 24) | ((((v >> 16) as u8) as u128) << 16) | ((((v
        >> 8) as u8) as u128) << 8) | ((v as u8) as u128) == v) by (bit_vector);
}

/// Round trip of the timestamp: a millisecond value in the signed 48-bit
/// range written into the first 6 bytes is read back unchanged, whatever
/// the random portion holds.
pub proof fn lemma_millis_round_trip(millis: i64, rest: Seq<u8>)
    requires
        -0x8000_0000_0000 <= millis < 0x8000_0000_0000,
        rest.len() == 10,
    ensures
        millis_of(millis_bytes(millis) + rest) == millis,
{
    let s = millis_bytes(millis) + rest;
    let b0: u8 = (millis >> 40) as u8;
    let b1: u8 = (millis >> 32) as u8;
    let b2: u8 = (millis >> 24) as u8;
    let b3: u8 = (millis >> 16) as u8;
    let b4: u8 = (millis >> 8) as u8;
    let b5: u8 = millis as u8;
    assert(s[0] == b0 && s[1] == b1 && s[2] == b2 && s[3] == b3 && s[4] == b4 && s[5] == b5);
    assert(be48(s) == ((((b0 * 256 + b1) * 256 + b2) * 256 + b3) * 256 + b4) * 256 + b5);
    assert((millis >= 0 ==> ((((b0 * 256 + b1) * 256 + b2) * 256 + b3) * 256 + b4) * 256 + b5
        == millis) && (millis < 0 ==> ((((b0 * 256 + b1) * 256 + b2) * 256 + b3) * 256 + b4) * 256
        + b5 == millis + 0x1_0000_0000_0000)) by (bit_vector)
        requires
            -0x8000_0000_0000 <= millis < 0x8000_0000_0000,
            b0 == (millis >> 40) as u8,
            b1 == (millis >> 32) as u8,
            b2 == (millis >> 24) as u8,
            b3 == (millis >> 16) as u8,
            b4 == (millis >> 8) as u8,
            b5 == millis as u8,
    ;
}

/// Identifiers sort chronologically: when two 16-byte buffers carry
/// timestamps `ta < tb` in the unsigned 48-bit range, the first buffer is
/// lexicographically smaller than the second, whatever their random
/// portions hold. Timestamps outside that range wrap on truncation, so
/// they are excluded here.
pub proof fn lemma_millis_sorts(ta: i64, tb: i64, ra: Seq<u8>, rb: Seq<u8>)
    requires
        0 <= ta < tb < 0x1_0000_0000_0000,
        ra.len() == 10,
        rb.len() == 10,
    ensures
        bytes_lt(millis_bytes(ta) + ra, millis_bytes(tb) + rb),
{
    let a = millis_bytes(ta) + ra;
    let b = millis_bytes(tb) + rb;
    assert(a[0] == (ta >> 40) as u8 && a[1] == (ta >> 32) as u8 && a[2] == (ta >> 24) as u8 && a[3]
        == (ta >> 16) as u8 && a[4] == (ta >> 8) as u8 && a[5] == ta as u8);
    assert(b[0] == (tb >> 40) as u8 && b[1] == (tb >> 32) as u8 && b[2] == (tb >> 24) as u8 && b[3]
        == (tb >> 16) as u8 && b[4] == (tb >> 8) as u8 && b[5] == tb as u8);
    let xa0: u8 = (ta >> 40) as u8;
    let xa1: u8 = (ta >> 32) as u8;
    let xa2: u8 = (ta >> 24) as u8;
    let xa3: u8 = (ta >> 16) as u8;
    let xa4: u8 = (ta >> 8) as u8;
    let xa5: u8 = ta as u8;
    let xb0: u8 = (tb >> 40) as u8;
    let xb1: u8 = (tb >> 32) as u8;
    let xb2: u8 = (tb >> 24) as u8;
    let xb3: u8 = (tb >> 16) as u8;
    let xb4: u8 = (tb >> 8) as u8;
    let xb5: u8 = tb as u8;
    assert(xa0 < xb0 || (xa0 == xb0 && xa1 < xb1) || (xa0 == xb0 && xa1 == xb1 && xa2 < xb2) || (
    xa0 == xb0 && xa1 == xb1 && xa2 == xb2 && xa3 < xb3) || (xa0 == xb0 && xa1 == xb1 && xa2 == xb2
        && xa3 == xb3 && xa4 < xb4) || (xa0 == xb0 && xa1 == xb1 && xa2 == xb2 && xa3 == xb3 && xa4
        == xb4 && xa5 < xb5)) by (bit_vector)
        requires
            0 <= ta < tb < 0x1_0000_0000_0000,
            xa0 == (ta >> 40) as u8,
            xa1 == (ta >> 32) as u8,
            xa2 == (ta >> 24) as u8,
            xa3 == (ta >> 16) as u8,
            xa4 == (ta >> 8) as u8,
            xa5 == ta as u8,
            xb0 == (tb >> 40) as u8,
            xb1 == (tb >> 32) as u8,
            xb2 == (tb >> 24) as u8,
            xb3 == (tb >> 16) as u8,
            xb4 == (tb >> 8) as u8,
            xb5 == tb as u8,
    ;
    if a[0] < b[0] {
        assert(bytes_lt(a, b));
    } else if a[1] < b[1] {
        assert(bytes_lt(a, b));
    } else if a[2] < b[2] {
        assert(bytes_lt(a, b));
    } else if a[3] < b[3] {
        assert(bytes_lt(a, b));
    } else if a[4] < b[4] {
        assert(bytes_lt(a, b));
    } else {
        assert(a[5] < b[5]);
        assert(bytes_lt(a, b));
    }
}

/// The error that can occur when creating a [`Ulid`] from a byte source of
/// the wrong length.
#[derive(Clone, Copy, Debug, Eq, Hash, Ord, PartialEq, PartialOrd)]
pub struct BytesError {
    expected: usize,
    found: usize,
}

impl BytesError {
    /// The expected number of bytes, as a mathematical value.
    pub closed spec fn spec_expected(&self) -> usize {
        self.expected
    }

    /// The number of bytes found, as a mathematical value.
    pub closed spec fn spec_found(&self) -> usize {
        self.found
    }

    /// Create a new [`BytesError`].
    pub fn new(expected: usize, found: usize) -> (r: Self)
        ensures
            r.spec_expected() == expected,
            r.spec_found() == found,
    {
        BytesError { expected, found }
    }

    /// The expected number of bytes.
    pub fn expected(&self) -> (r: usize)
        ensures
            r == self.spec_expected(),
    {
        self.expected
    }

    /// The number of bytes found.
    pub fn found(&self) -> (r: usize)
        ensures
            r == self.spec_found(),
    {
        self.found
    }
}

} // verus!
