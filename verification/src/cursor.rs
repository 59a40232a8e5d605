//! A forward-reading, bounds-checked view of a byte buffer.

use crate::error::DecodeError;
use crate::le::{read_u16_le, read_u32_le, u16_at, u32_at};
use vstd::prelude::*;
use vstd::slice::slice_subrange;

verus! {

/// A buffer and a read position in it. The position never passes the end
/// of the buffer.
#[derive(Debug, Clone, Copy)]
pub struct ByteCursor<'a> {
    buf: &'a [u8],
    pos: usize,
}

impl<'a> ByteCursor<'a> {
    #[verifier::type_invariant]
    spec fn in_bounds(self) -> bool {
        self.pos <= self.buf@.len()
    }

    /// The whole buffer, from its first byte.
    pub closed spec fn bytes(self) -> Seq<u8> {
        self.buf@
    }

    /// The read position, counted from the start of the buffer.
    pub closed spec fn offset(self) -> int {
        self.pos as int
    }

    /// The number of bytes from the position to the end.
    pub open spec fn left(self) -> int {
        self.bytes().len() - self.offset()
    }

    /// A cursor at the start of `buf`.
    pub fn new(buf: &'a [u8]) -> (cursor: Self)
        ensures
            cursor.bytes() == buf@,
            cursor.offset() == 0,
    {
        ByteCursor { buf, pos: 0 }
    }

    /// The read position.
    pub fn position(&self) -> (at: usize)
        ensures
            at == self.offset(),
            at <= self.bytes().len(),
    {
        proof {
            use_type_invariant(self);
        }
        self.pos
    }

    /// How many bytes are left to read.
    pub fn remaining(&self) -> (n: usize)
        ensures
            n == self.left(),
    {
        proof {
            use_type_invariant(self);
        }
        self.buf.len() - self.pos
    }

    /// Reads one byte and steps over it; fails, without moving, where none
    /// is left.
    pub fn read_u8(&mut self) -> (r: Result<u8, DecodeError>)
        ensures
            final(self).bytes() == old(self).bytes(),
            old(self).left() >= 1 ==> r == Ok::<u8, DecodeError>(
                old(self).bytes()[old(self).offset()],
            ) && final(self).offset() == old(self).offset() + 1,
            old(self).left() < 1 ==> r == Err::<u8, DecodeError>(DecodeError::Truncated)
                && final(self).offset() == old(self).offset(),
    {
        proof {
            use_type_invariant(&*self);
        }
        if self.buf.len() - self.pos < 1 {
            return Err(DecodeError::Truncated);
        }
        let value: u8 = self.buf[self.pos];
        self.pos = self.pos + 1;
        Ok(value)
    }

    /// Reads a little-endian 16-bit value and steps over it; fails, without
    /// moving, where fewer than two bytes are left.
    pub fn read_u16(&mut self) -> (r: Result<u16, DecodeError>)
        ensures
            final(self).bytes() == old(self).bytes(),
            old(self).left() >= 2 ==> r == Ok::<u16, DecodeError>(
                u16_at(old(self).bytes(), old(self).offset()),
            ) && final(self).offset() == old(self).offset() + 2,
            old(self).left() < 2 ==> r == Err::<u16, DecodeError>(DecodeError::Truncated)
                && final(self).offset() == old(self).offset(),
    {
        proof {
            use_type_invariant(&*self);
        }
        if self.buf.len() - self.pos < 2 {
            return Err(DecodeError::Truncated);
        }
        let field = slice_subrange(self.buf, self.pos, self.pos + 2);
        let value: u16 = read_u16_le(field);
        self.pos = self.pos + 2;
        Ok(value)
    }

    /// Reads a little-endian 32-bit value and steps over it; fails, without
    /// moving, where fewer than four bytes are left.
    pub fn read_u32(&mut self) -> (r: Result<u32, DecodeError>)
        ensures
            final(self).bytes() == old(self).bytes(),
            old(self).left() >= 4 ==> r == Ok::<u32, DecodeError>(
                u32_at(old(self).bytes(), old(self).offset()),
            ) && final(self).offset() == old(self).offset() + 4,
            old(self).left() < 4 ==> r == Err::<u32, DecodeError>(DecodeError::Truncated)
                && final(self).offset() == old(self).offset(),
    {
        proof {
            use_type_invariant(&*self);
        }
        if self.buf.len() - self.pos < 4 {
            return Err(DecodeError::Truncated);
        }
        let field = slice_subrange(self.buf, self.pos, self.pos + 4);
        let value: u32 = read_u32_le(field);
        self.pos = self.pos + 4;
        Ok(value)
    }

    /// Hands out the next `n` bytes and steps over them; fails, without
    /// moving, where fewer than `n` are left.
    pub fn read_bytes(&mut self, n: usize) -> (r: Result<&'a [u8], DecodeError>)
        ensures
            final(self).bytes() == old(self).bytes(),
            n <= old(self).left() ==> (r matches Ok(taken) && taken@ == old(self).bytes().subrange(
                old(self).offset(),
                old(self).offset() + n,
            ) && final(self).offset() == old(self).offset() + n),
            n > old(self).left() ==> r == Err::<&[u8], DecodeError>(DecodeError::Truncated)
                && final(self).offset() == old(self).offset(),
    {
        proof {
            use_type_invariant(&*self);
        }
        if self.buf.len() - self.pos < n {
            return Err(DecodeError::Truncated);
        }
        let taken = slice_subrange(self.buf, self.pos, self.pos + n);
        self.pos = self.pos + n;
        Ok(taken)
    }

    /// A cursor on the same buffer at the absolute position `offset`; fails
    /// where `offset` lies past the end of the buffer.
    pub fn slice_from(&self, offset: usize) -> (r: Result<ByteCursor<'a>, DecodeError>)
        ensures
            offset <= self.bytes().len() ==> (r matches Ok(c) && c.bytes() == self.bytes()
                && c.offset() == offset),
            offset > self.bytes().len() ==> r matches Err(DecodeError::OffsetOutOfRange),
    {
        if offset > self.buf.len() {
            return Err(DecodeError::OffsetOutOfRange);
        }
        Ok(ByteCursor { buf: self.buf, pos: offset })
    }
}

} // verus!
