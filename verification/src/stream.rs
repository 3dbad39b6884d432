use vstd::prelude::*;
use crate::error::{ImageError, ImageResult};

verus! {

/// Byte order of the stream, selected by the 2-byte TIFF magic.
#[derive(Copy, PartialEq, Eq, Debug, Clone, Structural)]
pub enum ByteOrder {
    LittleEndian,
    BigEndian,
}

/// The 16-bit value stored as the two bytes `b0, b1` under `order`.
pub open spec fn u16_val(order: ByteOrder, b0: u8, b1: u8) -> int {
    match order {
        ByteOrder::LittleEndian => b0 + 256 * b1,
        ByteOrder::BigEndian => b1 + 256 * b0,
    }
}

/// The 32-bit value stored as the four bytes `b0..b3` under `order`.
pub open spec fn u32_val(order: ByteOrder, b0: u8, b1: u8, b2: u8, b3: u8) -> int {
    match order {
        ByteOrder::LittleEndian => b0 + 0x100 * b1 + 0x1_0000 * b2 + 0x100_0000 * b3,
        ByteOrder::BigEndian => b3 + 0x100 * b2 + 0x1_0000 * b1 + 0x100_0000 * b0,
    }
}

/// The 16-bit value at byte position `p` of `s` under `order`.
pub open spec fn u16_at(s: Seq<u8>, order: ByteOrder, p: int) -> int {
    u16_val(order, s[p], s[p + 1])
}

/// The 32-bit value at byte position `p` of `s` under `order`.
pub open spec fn u32_at(s: Seq<u8>, order: ByteOrder, p: int) -> int {
    u32_val(order, s[p], s[p + 1], s[p + 2], s[p + 3])
}

/// Combines two bytes into the 16-bit value they store under `order`.
pub fn u16_from_bytes(order: ByteOrder, b0: u8, b1: u8) -> (r: u16)
    ensures
        r == u16_val(order, b0, b1),
{
    match order {
        ByteOrder::LittleEndian => b0 as u16 + 256 * (b1 as u16),
        ByteOrder::BigEndian => b1 as u16 + 256 * (b0 as u16),
    }
}

/// Combines four bytes into the 32-bit value they store under `order`.
pub fn u32_from_bytes(order: ByteOrder, b0: u8, b1: u8, b2: u8, b3: u8) -> (r: u32)
    ensures
        r == u32_val(order, b0, b1, b2, b3),
{
    match order {
        ByteOrder::LittleEndian => (
            b0 as u32 + 0x100 * (b1 as u32) + 0x1_0000 * (b2 as u32) + 0x100_0000 * (b3 as u32)
        ),
        ByteOrder::BigEndian => (
            b3 as u32 + 0x100 * (b2 as u32) + 0x1_0000 * (b1 as u32) + 0x100_0000 * (b0 as u32)
        ),
    }
}

/// A byte-order-aware cursor over an in-memory byte stream.
///
/// Reads advance the cursor; `seek` moves it to an absolute offset, which may
/// lie beyond the end (later reads then fail). Short reads are errors, never
/// short successes.
#[derive(Debug)]
pub struct SmartReader {
    pub data: Vec<u8>,
    pub pos: usize,
    pub byte_order: ByteOrder,
}

impl SmartReader {
    /// The whole underlying byte stream.
    pub open spec fn bytes(&self) -> Seq<u8> {
        self.data@
    }

    /// The cursor: the index of the next byte a read would take.
    pub open spec fn pos(&self) -> int {
        self.pos as int
    }

    pub fn new(data: Vec<u8>, byte_order: ByteOrder) -> (r: SmartReader)
        ensures
            r.bytes() == data@,
            r.pos() == 0,
            r.byte_order == byte_order,
    {
        SmartReader { data, pos: 0, byte_order }
    }

    /// Moves the cursor to the absolute offset `offset`.
    pub fn seek(&mut self, offset: u32)
        ensures
            final(self).bytes() == old(self).bytes(),
            final(self).byte_order == old(self).byte_order,
            final(self).pos() == offset,
    {
        self.pos = offset as usize;
    }

    /// Reads one byte, advancing the cursor; fails at the end of the stream.
    pub fn read_u8(&mut self) -> (r: ImageResult<u8>)
        ensures
            final(self).bytes() == old(self).bytes(),
            final(self).byte_order == old(self).byte_order,
            old(self).pos() + 1 <= final(self).bytes().len() ==> (
                r == Ok::<u8, ImageError>(final(self).bytes()[old(self).pos()])
                && final(self).pos() == old(self).pos() + 1
            ),
            old(self).pos() + 1 > final(self).bytes().len() ==> (
                r == Err::<u8, ImageError>(ImageError::IoError)
                && final(self).pos() == old(self).pos()
            ),
    {
        if self.pos < self.data.len() {
            let b = self.data[self.pos];
            self.pos = self.pos + 1;
            Ok(b)
        } else {
            Err(ImageError::IoError)
        }
    }

    /// Reads a 16-bit value in the configured byte order.
    pub fn read_u16(&mut self) -> (r: ImageResult<u16>)
        ensures
            final(self).bytes() == old(self).bytes(),
            final(self).byte_order == old(self).byte_order,
            old(self).pos() + 2 <= final(self).bytes().len() ==> (
                r is Ok
                && r->Ok_0 == u16_at(final(self).bytes(), final(self).byte_order, old(self).pos())
                && final(self).pos() == old(self).pos() + 2
            ),
            old(self).pos() + 2 > final(self).bytes().len() ==> (
                r == Err::<u16, ImageError>(ImageError::IoError)
                && final(self).pos() == old(self).pos()
            ),
    {
        if self.pos < self.data.len() && self.data.len() - self.pos >= 2 {
            let b0 = self.data[self.pos];
            let b1 = self.data[self.pos + 1];
            self.pos = self.pos + 2;
            match self.byte_order {
                ByteOrder::LittleEndian => Ok(b0 as u16 + 256 * (b1 as u16)),
                ByteOrder::BigEndian => Ok(b1 as u16 + 256 * (b0 as u16)),
            }
        } else {
            Err(ImageError::IoError)
        }
    }

    /// Reads a 32-bit value in the configured byte order.
    pub fn read_u32(&mut self) -> (r: ImageResult<u32>)
        ensures
            final(self).bytes() == old(self).bytes(),
            final(self).byte_order == old(self).byte_order,
            old(self).pos() + 4 <= final(self).bytes().len() ==> (
                r is Ok
                && r->Ok_0 == u32_at(final(self).bytes(), final(self).byte_order, old(self).pos())
                && final(self).pos() == old(self).pos() + 4
            ),
            old(self).pos() + 4 > final(self).bytes().len() ==> (
                r == Err::<u32, ImageError>(ImageError::IoError)
                && final(self).pos() == old(self).pos()
            ),
    {
        if self.pos < self.data.len() && self.data.len() - self.pos >= 4 {
            let b0 = self.data[self.pos] as u32;
            let b1 = self.data[self.pos + 1] as u32;
            let b2 = self.data[self.pos + 2] as u32;
            let b3 = self.data[self.pos + 3] as u32;
            self.pos = self.pos + 4;
            match self.byte_order {
                ByteOrder::LittleEndian => Ok(
                    b0 + 0x100 * b1 + 0x1_0000 * b2 + 0x100_0000 * b3,
                ),
                ByteOrder::BigEndian => Ok(b3 + 0x100 * b2 + 0x1_0000 * b1 + 0x100_0000 * b0),
            }
        } else {
            Err(ImageError::IoError)
        }
    }

    /// Reads exactly `n` bytes, advancing the cursor; fails without moving it
    /// if fewer remain.
    pub fn read_bytes(&mut self, n: usize) -> (r: ImageResult<Vec<u8>>)
        ensures
            final(self).bytes() == old(self).bytes(),
            final(self).byte_order == old(self).byte_order,
            old(self).pos() + n <= final(self).bytes().len() ==> (
                r is Ok
                && r->Ok_0@ == final(self).bytes().subrange(old(self).pos(), old(self).pos() + n)
                && final(self).pos() == old(self).pos() + n
            ),
            old(self).pos() + n > final(self).bytes().len() ==> (
                r == Err::<Vec<u8>, ImageError>(ImageError::IoError)
                && final(self).pos() == old(self).pos()
            ),
    {
        if self.pos <= self.data.len() && self.data.len() - self.pos >= n {
            let mut out: Vec<u8> = Vec::new();
            let mut i: usize = 0;
            while i < n
                invariant
                    i <= n,
                    self.pos + n <= self.data.len(),
                    out@ == self.data@.subrange(self.pos as int, self.pos + i),
                decreases n - i,
            {
                out.push(self.data[self.pos + i]);
                proof {
                    assert(out@ =~= self.data@.subrange(self.pos as int, self.pos + i + 1));
                }
                i = i + 1;
            }
            self.pos = self.pos + n;
            Ok(out)
        } else {
            Err(ImageError::IoError)
        }
    }
}

} // verus!
