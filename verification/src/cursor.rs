//! Fields of a fixed layout, one after the other: a cursor that reads a buffer
//! front to back, and the writes that fill one in the same order.

use crate::native::{
    lemma_native_bytes_len, native_at, native_bytes, read_u16, read_u32, read_u64, write_u16,
    write_u32, write_u64, zeros,
};
use vstd::prelude::*;

verus! {

/// A position in a buffer. Every read starts at the position and moves it past
/// what was read; nothing moves it back.
pub struct Cursor<'a> {
    buf: &'a [u8],
    offset: usize,
}

impl<'a> Cursor<'a> {
    /// The bytes of the buffer, read or not.
    pub closed spec fn bytes(&self) -> Seq<u8> {
        self.buf@
    }

    /// The number of bytes that lie before the position.
    pub closed spec fn position(&self) -> int {
        self.offset as int
    }

    /// The position is inside the buffer or at its end.
    pub closed spec fn wf(&self) -> bool {
        self.offset <= self.buf@.len() <= usize::MAX
    }

    /// The number of bytes that lie after the position.
    pub open spec fn remaining(&self) -> int {
        self.bytes().len() - self.position()
    }

    /// Whether `after` is `before` moved `width` bytes on, over the same buffer.
    pub open spec fn advanced(before: Self, after: Self, width: int) -> bool {
        &&& after.wf()
        &&& after.bytes() == before.bytes()
        &&& after.position() == before.position() + width
    }

    /// A cursor at the start of `buf`.
    pub fn new(buf: &'a [u8]) -> (cursor: Self)
        ensures
            cursor.wf(),
            cursor.bytes() == buf@,
            cursor.position() == 0,
    {
        assert(buf@.len() == buf.len());
        Cursor { buf, offset: 0 }
    }

    /// The number of bytes that are left to read.
    pub fn left(&self) -> (n: usize)
        requires
            self.wf(),
        ensures
            n == self.remaining(),
    {
        self.buf.len() - self.offset
    }

    /// Moves over `width` bytes without reading them.
    pub fn skip(&mut self, width: usize)
        requires
            old(self).wf(),
            width <= old(self).remaining(),
        ensures
            Self::advanced(*old(self), *final(self), width as int),
    {
        self.offset = self.offset + width;
    }

    /// Reads one byte.
    pub fn read_u8(&mut self) -> (value: u8)
        requires
            old(self).wf(),
            1 <= old(self).remaining(),
        ensures
            Self::advanced(*old(self), *final(self), 1),
            value == old(self).bytes()[old(self).position()],
    {
        let value = self.buf[self.offset];
        self.offset = self.offset + 1;
        value
    }

    /// Reads two bytes as an integer in the byte order of the machine.
    pub fn read_u16(&mut self) -> (value: u16)
        requires
            old(self).wf(),
            2 <= old(self).remaining(),
        ensures
            Self::advanced(*old(self), *final(self), 2),
            value as nat == native_at(old(self).bytes(), old(self).position(), 2),
    {
        let field = &self.buf[self.offset..self.offset + 2];
        assert(field@.subrange(0, 2) =~= field@);
        let value = read_u16(field);
        self.offset = self.offset + 2;
        value
    }

    /// Reads four bytes as an integer in the byte order of the machine.
    pub fn read_u32(&mut self) -> (value: u32)
        requires
            old(self).wf(),
            4 <= old(self).remaining(),
        ensures
            Self::advanced(*old(self), *final(self), 4),
            value as nat == native_at(old(self).bytes(), old(self).position(), 4),
    {
        let field = &self.buf[self.offset..self.offset + 4];
        assert(field@.subrange(0, 4) =~= field@);
        let value = read_u32(field);
        self.offset = self.offset + 4;
        value
    }

    /// Reads eight bytes as an integer in the byte order of the machine.
    pub fn read_u64(&mut self) -> (value: u64)
        requires
            old(self).wf(),
            8 <= old(self).remaining(),
        ensures
            Self::advanced(*old(self), *final(self), 8),
            value as nat == native_at(old(self).bytes(), old(self).position(), 8),
    {
        let field = &self.buf[self.offset..self.offset + 8];
        assert(field@.subrange(0, 8) =~= field@);
        let value = read_u64(field);
        self.offset = self.offset + 8;
        value
    }

    /// Fills `dest` with the bytes at the position.
    pub fn read_into(&mut self, dest: &mut [u8])
        requires
            old(self).wf(),
            old(dest)@.len() <= old(self).remaining(),
        ensures
            Self::advanced(*old(self), *final(self), old(dest)@.len() as int),
            final(dest)@ == old(self).bytes().subrange(
                old(self).position(),
                old(self).position() + old(dest)@.len(),
            ),
    {
        let width = dest.len();
        let start = self.offset;
        let mut i: usize = 0;
        while i < width
            invariant
                i <= width,
                width == dest@.len(),
                start == self.offset,
                start + width <= self.buf@.len() <= usize::MAX,
                self.buf == old(self).buf,
                forall|j: int| 0 <= j < i ==> dest@[j] == self.buf@[start + j],
            decreases width - i,
        {
            dest[i] = self.buf[start + i];
            i = i + 1;
        }
        self.offset = start + width;
        assert(dest@ =~= self.buf@.subrange(start as int, start + width));
    }
}

/// Whether `after` is `before` with `field` written from `offset` to `end` and
/// nothing changed after it: up to `end` it holds what `before` held up to
/// `offset` and then the field, and from `end` on what `before` held.
pub open spec fn written(
    before: Seq<u8>,
    after: Seq<u8>,
    offset: int,
    end: int,
    field: Seq<u8>,
) -> bool {
    &&& after.len() == before.len()
    &&& after.take(end) == before.take(offset) + field
    &&& forall|j: int| end <= j < after.len() ==> after[j] == before[j]
}

/// Writes one byte at `offset` and gives the offset after it.
pub fn put_u8(buffer: &mut [u8], offset: usize, value: u8) -> (end: usize)
    requires
        offset + 1 <= old(buffer)@.len(),
    ensures
        end == offset + 1,
        written(old(buffer)@, final(buffer)@, offset as int, end as int, seq![value]),
{
    buffer[offset] = value;
    assert(buffer@.take(offset + 1) =~= old(buffer)@.take(offset as int) + seq![value]);
    offset + 1
}

/// Writes an integer of two bytes at `offset`, in the byte order of the machine,
/// and gives the offset after it.
pub fn put_u16(buffer: &mut [u8], offset: usize, value: u16) -> (end: usize)
    requires
        offset + 2 <= old(buffer)@.len(),
    ensures
        end == offset + 2,
        written(
            old(buffer)@,
            final(buffer)@,
            offset as int,
            end as int,
            native_bytes(value as nat, 2),
        ),
{
    proof {
        lemma_native_bytes_len(value as nat, 2);
    }
    assert(buffer@.len() == buffer.len());
    let (_, field) = buffer.split_at_mut(offset);
    write_u16(field, value);
    assert(buffer@.take(offset + 2) =~= old(buffer)@.take(offset as int) + native_bytes(
        value as nat,
        2,
    ));
    offset + 2
}

/// Writes an integer of four bytes at `offset`, in the byte order of the machine,
/// and gives the offset after it.
pub fn put_u32(buffer: &mut [u8], offset: usize, value: u32) -> (end: usize)
    requires
        offset + 4 <= old(buffer)@.len(),
    ensures
        end == offset + 4,
        written(
            old(buffer)@,
            final(buffer)@,
            offset as int,
            end as int,
            native_bytes(value as nat, 4),
        ),
{
    proof {
        lemma_native_bytes_len(value as nat, 4);
    }
    assert(buffer@.len() == buffer.len());
    let (_, field) = buffer.split_at_mut(offset);
    write_u32(field, value);
    assert(buffer@.take(offset + 4) =~= old(buffer)@.take(offset as int) + native_bytes(
        value as nat,
        4,
    ));
    offset + 4
}

/// Writes an integer of eight bytes at `offset`, in the byte order of the
/// machine, and gives the offset after it.
pub fn put_u64(buffer: &mut [u8], offset: usize, value: u64) -> (end: usize)
    requires
        offset + 8 <= old(buffer)@.len(),
    ensures
        end == offset + 8,
        written(
            old(buffer)@,
            final(buffer)@,
            offset as int,
            end as int,
            native_bytes(value as nat, 8),
        ),
{
    proof {
        lemma_native_bytes_len(value as nat, 8);
    }
    assert(buffer@.len() == buffer.len());
    let (_, field) = buffer.split_at_mut(offset);
    write_u64(field, value);
    assert(buffer@.take(offset + 8) =~= old(buffer)@.take(offset as int) + native_bytes(
        value as nat,
        8,
    ));
    offset + 8
}

/// Writes the bytes of `field` at `offset` and gives the offset after them.
pub fn put_bytes(buffer: &mut [u8], offset: usize, field: &[u8]) -> (end: usize)
    requires
        offset + field@.len() <= old(buffer)@.len(),
    ensures
        end == offset + field@.len(),
        written(old(buffer)@, final(buffer)@, offset as int, end as int, field@),
{
    let width = field.len();
    assert(buffer@.len() == buffer.len());
    let mut i: usize = 0;
    while i < width
        invariant
            i <= width,
            width == field@.len(),
            offset + width <= buffer@.len() <= usize::MAX,
            buffer@.len() == old(buffer)@.len(),
            forall|j: int| offset <= j < offset + i ==> buffer@[j] == field@[j - offset],
            forall|j: int|
                0 <= j < buffer@.len() && !(offset <= j < offset + i) ==> buffer@[j] == old(
                    buffer,
                )@[j],
        decreases width - i,
    {
        buffer[offset + i] = field[i];
        i = i + 1;
    }
    assert(buffer@.take(offset + width) =~= old(buffer)@.take(offset as int) + field@);
    offset + width
}

/// Writes `width` bytes of zero at `offset` and gives the offset after them.
pub fn put_zeros(buffer: &mut [u8], offset: usize, width: usize) -> (end: usize)
    requires
        offset + width <= old(buffer)@.len(),
    ensures
        end == offset + width,
        written(old(buffer)@, final(buffer)@, offset as int, end as int, zeros(width as nat)),
{
    assert(buffer@.len() == buffer.len());
    let mut i: usize = 0;
    while i < width
        invariant
            i <= width,
            offset + width <= buffer@.len() <= usize::MAX,
            buffer@.len() == old(buffer)@.len(),
            forall|j: int| offset <= j < offset + i ==> buffer@[j] == 0,
            forall|j: int|
                0 <= j < buffer@.len() && !(offset <= j < offset + i) ==> buffer@[j] == old(
                    buffer,
                )@[j],
        decreases width - i,
    {
        buffer[offset + i] = 0;
        i = i + 1;
    }
    assert(buffer@.take(offset + width) =~= old(buffer)@.take(offset as int) + zeros(
        width as nat,
    ));
    offset + width
}

/// Where the start of `bytes` is `prefix` and then `field`, the field lies in
/// `bytes` right after the prefix, and the prefix at the start.
pub proof fn lemma_field_after_prefix(bytes: Seq<u8>, prefix: Seq<u8>, field: Seq<u8>)
    requires
        prefix.len() + field.len() <= bytes.len(),
        bytes.take((prefix.len() + field.len()) as int) == prefix + field,
    ensures
        bytes.take(prefix.len() as int) == prefix,
        bytes.subrange(prefix.len() as int, (prefix.len() + field.len()) as int) == field,
{
    let start = bytes.take((prefix.len() + field.len()) as int);
    assert forall|i: int| 0 <= i < prefix.len() implies bytes[i] == prefix[i] by {
        assert(start[i] == bytes[i]);
    }
    assert forall|i: int| 0 <= i < field.len() implies bytes[prefix.len() + i] == field[i] by {
        assert(start[prefix.len() + i] == bytes[prefix.len() + i]);
    }
    assert(bytes.take(prefix.len() as int) =~= prefix);
    assert(bytes.subrange(prefix.len() as int, (prefix.len() + field.len()) as int) =~= field);
}

} // verus!
