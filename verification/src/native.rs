//! Integers in the byte order of the machine: what a run of bytes is worth, the
//! bytes that a value is written as, and the calls into `byteorder` that read and
//! write them.

use byteorder::{ByteOrder, NativeEndian};
use vstd::endian::{endianness, Endian};
use vstd::prelude::*;

verus! {

/// The number of values that `width` bytes can tell apart: 256 to the power `width`.
pub open spec fn radix(width: nat) -> nat
    decreases width,
{
    if width == 0 {
        1
    } else {
        256 * radix((width - 1) as nat)
    }
}

/// The value of `bytes` read with the least significant byte first.
pub open spec fn le_value(bytes: Seq<u8>) -> nat
    decreases bytes.len(),
{
    if bytes.len() == 0 {
        0
    } else {
        bytes[0] as nat + 256 * le_value(bytes.drop_first())
    }
}

/// The `width` bytes of `value`, least significant byte first.
pub open spec fn le_bytes(value: nat, width: nat) -> Seq<u8>
    decreases width,
{
    if width == 0 {
        Seq::empty()
    } else {
        seq![(value % 256) as u8] + le_bytes(value / 256, (width - 1) as nat)
    }
}

/// The value of `bytes` read in the byte order of the machine.
pub open spec fn native_value(bytes: Seq<u8>) -> nat {
    match endianness() {
        Endian::Little => le_value(bytes),
        Endian::Big => le_value(bytes.reverse()),
    }
}

/// The `width` bytes of `value` in the byte order of the machine.
pub open spec fn native_bytes(value: nat, width: nat) -> Seq<u8> {
    match endianness() {
        Endian::Little => le_bytes(value, width),
        Endian::Big => le_bytes(value, width).reverse(),
    }
}

/// The value of the `width` bytes of `bytes` that start at `offset`, in the byte
/// order of the machine.
pub open spec fn native_at(bytes: Seq<u8>, offset: int, width: int) -> nat {
    native_value(bytes.subrange(offset, offset + width))
}

/// `len` bytes of zero.
pub open spec fn zeros(len: nat) -> Seq<u8> {
    Seq::new(len, |i: int| 0u8)
}

/// The signed 32-bit integer that shares its bits with `value`.
pub open spec fn as_signed_32(value: nat) -> int {
    if value < 0x8000_0000 {
        value as int
    } else {
        value - 0x1_0000_0000
    }
}

/// The unsigned 32-bit integer that shares its bits with `value`.
pub open spec fn as_unsigned_32(value: int) -> nat {
    if value >= 0 {
        value as nat
    } else {
        (value + 0x1_0000_0000) as nat
    }
}

/// The widths of the integers on the wire, as numbers of values.
pub proof fn lemma_radix_values()
    ensures
        radix(1) == 0x100,
        radix(2) == 0x1_0000,
        radix(4) == 0x1_0000_0000,
        radix(8) == 0x1_0000_0000_0000_0000,
{
    reveal_with_fuel(radix, 9);
}

/// A value is written as exactly `width` bytes.
pub proof fn lemma_le_bytes_len(value: nat, width: nat)
    ensures
        le_bytes(value, width).len() == width,
    decreases width,
{
    if width > 0 {
        lemma_le_bytes_len(value / 256, (width - 1) as nat);
    }
}

/// In the byte order of the machine too, a value is written as exactly `width`
/// bytes.
pub proof fn lemma_native_bytes_len(value: nat, width: nat)
    ensures
        native_bytes(value, width).len() == width,
{
    lemma_le_bytes_len(value, width);
}

/// Reading the bytes of a value that fits in them gives the value back.
pub proof fn lemma_le_round_trip(value: nat, width: nat)
    requires
        value < radix(width),
    ensures
        le_value(le_bytes(value, width)) == value,
    decreases width,
{
    if width > 0 {
        let rest = le_bytes(value / 256, (width - 1) as nat);
        lemma_le_round_trip(value / 256, (width - 1) as nat);
        assert(le_bytes(value, width).drop_first() =~= rest);
    }
}

/// In the byte order of the machine, a value that fits in `width` bytes is written
/// as `width` bytes that read back as the value.
pub proof fn lemma_native_round_trip(value: nat, width: nat)
    requires
        value < radix(width),
    ensures
        native_bytes(value, width).len() == width,
        native_value(native_bytes(value, width)) == value,
{
    lemma_le_bytes_len(value, width);
    lemma_le_round_trip(value, width);
    assert(le_bytes(value, width).reverse().reverse() =~= le_bytes(value, width));
}

/// The two readings of 32 bits, signed and unsigned, undo each other.
pub proof fn lemma_signed_32_round_trip(value: i32)
    ensures
        as_unsigned_32(value as int) < radix(4),
        as_signed_32(as_unsigned_32(value as int)) == value,
{
    lemma_radix_values();
}

/// `byteorder::NativeEndian::read_u16`: the first two bytes of `buf`, read in the
/// byte order of the machine. The call panics on a shorter buffer.
#[verifier::external_body]
pub(crate) fn read_u16(buf: &[u8]) -> (value: u16)
    requires
        buf@.len() >= 2,
    ensures
        value as nat == native_value(buf@.subrange(0, 2)),
{
    NativeEndian::read_u16(buf)
}

/// `byteorder::NativeEndian::read_u32`: the first four bytes of `buf`, read in the
/// byte order of the machine. The call panics on a shorter buffer.
#[verifier::external_body]
pub(crate) fn read_u32(buf: &[u8]) -> (value: u32)
    requires
        buf@.len() >= 4,
    ensures
        value as nat == native_value(buf@.subrange(0, 4)),
{
    NativeEndian::read_u32(buf)
}

/// `byteorder::NativeEndian::read_u64`: the first eight bytes of `buf`, read in the
/// byte order of the machine. The call panics on a shorter buffer.
#[verifier::external_body]
pub(crate) fn read_u64(buf: &[u8]) -> (value: u64)
    requires
        buf@.len() >= 8,
    ensures
        value as nat == native_value(buf@.subrange(0, 8)),
{
    NativeEndian::read_u64(buf)
}

/// `byteorder::NativeEndian::write_u16`: the first two bytes of `buf` become the
/// bytes of `value` in the byte order of the machine, and the rest of `buf` stays.
/// The call panics on a shorter buffer.
#[verifier::external_body]
pub(crate) fn write_u16(buf: &mut [u8], value: u16)
    requires
        old(buf)@.len() >= 2,
    ensures
        final(buf)@ == native_bytes(value as nat, 2) + old(buf)@.skip(2),
{
    NativeEndian::write_u16(buf, value)
}

/// `byteorder::NativeEndian::write_u32`: the first four bytes of `buf` become the
/// bytes of `value` in the byte order of the machine, and the rest of `buf` stays.
/// The call panics on a shorter buffer.
#[verifier::external_body]
pub(crate) fn write_u32(buf: &mut [u8], value: u32)
    requires
        old(buf)@.len() >= 4,
    ensures
        final(buf)@ == native_bytes(value as nat, 4) + old(buf)@.skip(4),
{
    NativeEndian::write_u32(buf, value)
}

/// `byteorder::NativeEndian::write_u64`: the first eight bytes of `buf` become the
/// bytes of `value` in the byte order of the machine, and the rest of `buf` stays.
/// The call panics on a shorter buffer.
#[verifier::external_body]
pub(crate) fn write_u64(buf: &mut [u8], value: u64)
    requires
        old(buf)@.len() >= 8,
    ensures
        final(buf)@ == native_bytes(value as nat, 8) + old(buf)@.skip(8),
{
    NativeEndian::write_u64(buf, value)
}

/// `byteorder::NativeEndian::write_i32`: the first four bytes of `buf` become the
/// bytes, in the byte order of the machine, of the unsigned integer that shares
/// its bits with `value`; the rest of `buf` stays. The call panics on a shorter
/// buffer.
#[verifier::external_body]
pub(crate) fn write_i32(buf: &mut [u8], value: i32)
    requires
        old(buf)@.len() >= 4,
    ensures
        final(buf)@ == native_bytes(as_unsigned_32(value as int), 4) + old(buf)@.skip(4),
{
    NativeEndian::write_i32(buf, value)
}

} // verus!
