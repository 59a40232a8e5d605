//! Little-endian integers in a byte sequence.

use byteorder::ByteOrder;
use byteorder::LittleEndian;
use vstd::prelude::*;

verus! {

/// The 16-bit value whose little-endian form starts at `at` in `s`.
pub open spec fn u16_at(s: Seq<u8>, at: int) -> u16
    recommends
        0 <= at,
        at + 2 <= s.len(),
{
    (s[at] as int + 256 * (s[at + 1] as int)) as u16
}

/// The 32-bit value whose little-endian form starts at `at` in `s`.
pub open spec fn u32_at(s: Seq<u8>, at: int) -> u32
    recommends
        0 <= at,
        at + 4 <= s.len(),
{
    (s[at] as int + 256 * (s[at + 1] as int) + 65536 * (s[at + 2] as int) + 16777216 * (s[at
        + 3] as int)) as u32
}

/// The two bytes that hold `x`, low byte first.
pub open spec fn u16_bytes(x: u16) -> Seq<u8> {
    seq![(x % 256) as u8, (x / 256) as u8]
}

/// The four bytes that hold `x`, low byte first.
pub open spec fn u32_bytes(x: u32) -> Seq<u8> {
    seq![
        (x % 256) as u8,
        (x / 256 % 256) as u8,
        (x / 65536 % 256) as u8,
        (x / 16777216) as u8,
    ]
}

/// Reading back the bytes of a 16-bit value gives the value.
pub proof fn lemma_u16_round_trip(x: u16)
    ensures
        u16_bytes(x).len() == 2,
        u16_at(u16_bytes(x), 0) == x,
{
}

/// Reading back the bytes of a 32-bit value gives the value.
pub proof fn lemma_u32_round_trip(x: u32)
    ensures
        u32_bytes(x).len() == 4,
        u32_at(u32_bytes(x), 0) == x,
{
}

/// What is read at a position depends on the bytes at that position only:
/// a value written at `at` in any buffer is read back from there.
pub proof fn lemma_u32_at_of_bytes(s: Seq<u8>, at: int, x: u32)
    requires
        0 <= at,
        at + 4 <= s.len(),
        s.subrange(at, at + 4) == u32_bytes(x),
    ensures
        u32_at(s, at) == x,
{
    let b = s.subrange(at, at + 4);
    assert(b[0] == s[at] && b[1] == s[at + 1] && b[2] == s[at + 2] && b[3] == s[at + 3]);
    lemma_u32_round_trip(x);
}

/// As `lemma_u32_at_of_bytes`, for a 16-bit value.
pub proof fn lemma_u16_at_of_bytes(s: Seq<u8>, at: int, x: u16)
    requires
        0 <= at,
        at + 2 <= s.len(),
        s.subrange(at, at + 2) == u16_bytes(x),
    ensures
        u16_at(s, at) == x,
{
    let b = s.subrange(at, at + 2);
    assert(b[0] == s[at] && b[1] == s[at + 1]);
    lemma_u16_round_trip(x);
}

/// `byteorder::LittleEndian::read_u16`: the value of the first two bytes of
/// `bytes`, low byte first. It panics on fewer than two bytes, which the
/// precondition leaves out.
#[verifier::external_body]
pub(crate) fn read_u16_le(bytes: &[u8]) -> (value: u16)
    requires
        bytes@.len() >= 2,
    ensures
        value == u16_at(bytes@, 0),
{
    LittleEndian::read_u16(bytes)
}

/// `byteorder::LittleEndian::read_u32`: the value of the first four bytes of
/// `bytes`, low byte first. It panics on fewer than four bytes, which the
/// precondition leaves out.
#[verifier::external_body]
pub(crate) fn read_u32_le(bytes: &[u8]) -> (value: u32)
    requires
        bytes@.len() >= 4,
    ensures
        value == u32_at(bytes@, 0),
{
    LittleEndian::read_u32(bytes)
}

} // verus!
