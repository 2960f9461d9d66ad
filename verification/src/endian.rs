//! Little-endian numbers: what a run of bytes means, and the reads that the
//! `byteorder` crate performs on it.

use byteorder::{ByteOrder, LittleEndian};
use vstd::prelude::*;

verus! {

/// The unsigned number that `bytes` spell in little-endian order: the first
/// byte counts once, every later byte 256 times as much as the one before.
pub open spec fn le_value(bytes: Seq<u8>) -> nat
    decreases bytes.len(),
{
    if bytes.len() == 0 {
        0
    } else {
        bytes[0] as nat + 256 * le_value(bytes.drop_first())
    }
}

/// The signed number whose two's complement representation, in a word with
/// `modulus` many values, is `value`.
pub open spec fn as_signed(value: nat, modulus: nat) -> int {
    if 2 * value < modulus {
        value as int
    } else {
        value - modulus
    }
}

/// The little-endian value of two bytes, written out. It fits sixteen bits,
/// so a two-byte read always has a result.
pub proof fn lemma_le_value_2(bytes: Seq<u8>)
    requires
        bytes.len() == 2,
    ensures
        le_value(bytes) == bytes[0] + 0x100 * bytes[1],
        le_value(bytes) < 0x1_0000,
{
    reveal_with_fuel(le_value, 3);
    assert(bytes.drop_first().drop_first().len() == 0);
}

/// The little-endian value of four bytes, written out. It fits thirty-two
/// bits, so a four-byte read always has a result.
pub proof fn lemma_le_value_4(bytes: Seq<u8>)
    requires
        bytes.len() == 4,
    ensures
        le_value(bytes) == bytes[0] + 0x100 * bytes[1] + 0x1_0000 * bytes[2] + 0x100_0000
            * bytes[3],
        le_value(bytes) < 0x1_0000_0000,
{
    let b1 = bytes.drop_first();
    let b2 = b1.drop_first();
    lemma_le_value_2(b2);
    assert(le_value(b1) == b1[0] + 256 * le_value(b2));
    assert(le_value(bytes) == bytes[0] + 256 * le_value(b1));
}

/// The little-endian value of eight bytes is that of its low half plus
/// 2^32 times that of its high half. It fits sixty-four bits, so an
/// eight-byte read always has a result.
pub proof fn lemma_le_value_8(bytes: Seq<u8>)
    requires
        bytes.len() == 8,
    ensures
        le_value(bytes) == le_value(bytes.subrange(0, 4)) + 0x1_0000_0000 * le_value(
            bytes.subrange(4, 8),
        ),
        le_value(bytes) < 0x1_0000_0000_0000_0000,
{
    let low = bytes.subrange(0, 4);
    let high = bytes.subrange(4, 8);
    lemma_le_value_4(low);
    lemma_le_value_4(high);
    let b1 = bytes.drop_first();
    let b2 = b1.drop_first();
    let b3 = b2.drop_first();
    let b4 = b3.drop_first();
    assert(b4 =~= high);
    assert(le_value(b3) == b3[0] + 256 * le_value(b4));
    assert(le_value(b2) == b2[0] + 256 * le_value(b3));
    assert(le_value(b1) == b1[0] + 256 * le_value(b2));
    assert(le_value(bytes) == bytes[0] + 256 * le_value(b1));
}

/// `byteorder::LittleEndian::read_u16`: the first two bytes of `buf`, read as
/// a little-endian unsigned number. The call panics on a shorter buffer,
/// which the precondition excludes.
#[verifier::external_body]
pub(crate) fn read_u16_le(buf: &[u8]) -> (value: u16)
    requires
        buf@.len() >= 2,
    ensures
        value == le_value(buf@.subrange(0, 2)),
{
    LittleEndian::read_u16(buf)
}

/// `byteorder::LittleEndian::read_i16`: the first two bytes of `buf`, read as
/// a little-endian number in two's complement. The call panics on a shorter
/// buffer, which the precondition excludes.
#[verifier::external_body]
pub(crate) fn read_i16_le(buf: &[u8]) -> (value: i16)
    requires
        buf@.len() >= 2,
    ensures
        value == as_signed(le_value(buf@.subrange(0, 2)), 0x1_0000),
{
    LittleEndian::read_i16(buf)
}

/// `byteorder::LittleEndian::read_u32`: the first four bytes of `buf`, read
/// as a little-endian unsigned number. The call panics on a shorter buffer,
/// which the precondition excludes.
#[verifier::external_body]
pub(crate) fn read_u32_le(buf: &[u8]) -> (value: u32)
    requires
        buf@.len() >= 4,
    ensures
        value == le_value(buf@.subrange(0, 4)),
{
    LittleEndian::read_u32(buf)
}

/// `byteorder::LittleEndian::read_i32`: the first four bytes of `buf`, read
/// as a little-endian number in two's complement. The call panics on a
/// shorter buffer, which the precondition excludes.
#[verifier::external_body]
pub(crate) fn read_i32_le(buf: &[u8]) -> (value: i32)
    requires
        buf@.len() >= 4,
    ensures
        value == as_signed(le_value(buf@.subrange(0, 4)), 0x1_0000_0000),
{
    LittleEndian::read_i32(buf)
}

/// `byteorder::LittleEndian::read_u64`: the first eight bytes of `buf`, read
/// as a little-endian unsigned number. The call panics on a shorter buffer,
/// which the precondition excludes.
#[verifier::external_body]
pub(crate) fn read_u64_le(buf: &[u8]) -> (value: u64)
    requires
        buf@.len() >= 8,
    ensures
        value == le_value(buf@.subrange(0, 8)),
{
    LittleEndian::read_u64(buf)
}

} // verus!
