use byteorder::{ByteOrder, LittleEndian};
use vstd::prelude::*;

use crate::error::PeError;

verus! {

/// The unsigned 16-bit value stored little-endian at `p`.
pub open spec fn le_u16(s: Seq<u8>, p: int) -> int {
    s[p] + 256 * s[p + 1]
}

/// The unsigned 32-bit value stored little-endian at `p`.
pub open spec fn le_u32(s: Seq<u8>, p: int) -> int {
    le_u16(s, p) + 65536 * le_u16(s, p + 2)
}

/// The two's-complement 32-bit value stored little-endian at `p`.
pub open spec fn le_i32(s: Seq<u8>, p: int) -> int {
    if le_u32(s, p) < 0x8000_0000 {
        le_u32(s, p)
    } else {
        le_u32(s, p) - 0x1_0000_0000
    }
}

/// Relies on byteorder's `LittleEndian::read_u16`: the first two bytes of
/// the slice it is given, least significant first; it panics on fewer.
#[verifier::external_body]
fn le_read_u16(b: &[u8], at: usize) -> (r: u16)
    requires
        at + 2 <= b@.len(),
    ensures
        r as int == le_u16(b@, at as int),
{
    LittleEndian::read_u16(&b[at..])
}

/// Relies on byteorder's `LittleEndian::read_u32`: the first four bytes of
/// the slice it is given, least significant first; it panics on fewer.
#[verifier::external_body]
fn le_read_u32(b: &[u8], at: usize) -> (r: u32)
    requires
        at + 4 <= b@.len(),
    ensures
        r as int == le_u32(b@, at as int),
{
    LittleEndian::read_u32(&b[at..])
}

/// Relies on byteorder's `LittleEndian::read_i32`: the first four bytes of
/// the slice it is given, least significant first, as two's complement; it
/// panics on fewer.
#[verifier::external_body]
fn le_read_i32(b: &[u8], at: usize) -> (r: i32)
    requires
        at + 4 <= b@.len(),
    ensures
        r as int == le_i32(b@, at as int),
{
    LittleEndian::read_i32(&b[at..])
}

/// A byte source with a read position, read front to back.
pub struct ByteReader {
    data: Vec<u8>,
    pos: usize,
}

impl ByteReader {
    /// The bytes being read.
    pub closed spec fn bytes(&self) -> Seq<u8> {
        self.data@
    }

    /// Where the next read starts.
    pub closed spec fn position(&self) -> int {
        self.pos as int
    }

    /// A reader at the start of `data`.
    pub fn new(data: Vec<u8>) -> (r: ByteReader)
        ensures
            r.bytes() == data@,
            r.position() == 0,
    {
        ByteReader { data, pos: 0 }
    }

    /// Where the next read starts.
    pub fn pos(&self) -> (r: usize)
        ensures
            r as int == self.position(),
    {
        self.pos
    }

    /// The number of bytes being read.
    pub fn len(&self) -> (r: usize)
        ensures
            r as int == self.bytes().len(),
    {
        self.data.len()
    }

    /// Whether at least `n` bytes remain from the read position.
    fn has(&self, n: usize) -> (r: bool)
        ensures
            r == (self.position() + n <= self.bytes().len()),
            self.bytes().len() <= usize::MAX,
    {
        let len = self.data.len();
        self.pos <= len && len - self.pos >= n
    }

    /// Reads one byte.
    pub fn read_u8(&mut self) -> (r: Result<u8, PeError>)
        ensures
            final(self).bytes() == old(self).bytes(),
            old(self).position() + 1 <= old(self).bytes().len() ==> r == Ok::<u8, PeError>(
                old(self).bytes()[old(self).position()],
            ) && final(self).position() == old(self).position() + 1,
            old(self).position() + 1 > old(self).bytes().len() ==> r == Err::<u8, PeError>(
                PeError::Truncated,
            ),
    {
        if !self.has(1) {
            return Err(PeError::Truncated);
        }
        let v = self.data[self.pos];
        self.pos = self.pos + 1;
        Ok(v)
    }

    /// Reads a little-endian unsigned 16-bit integer.
    pub fn read_u16(&mut self) -> (r: Result<u16, PeError>)
        ensures
            final(self).bytes() == old(self).bytes(),
            old(self).position() + 2 <= old(self).bytes().len() ==> r.is_ok() && r.unwrap() as int
                == le_u16(old(self).bytes(), old(self).position()) && final(self).position()
                == old(self).position() + 2,
            old(self).position() + 2 > old(self).bytes().len() ==> r == Err::<u16, PeError>(
                PeError::Truncated,
            ),
    {
        if !self.has(2) {
            return Err(PeError::Truncated);
        }
        let v = le_read_u16(self.data.as_slice(), self.pos);
        self.pos = self.pos + 2;
        Ok(v)
    }

    /// Reads a little-endian unsigned 32-bit integer.
    pub fn read_u32(&mut self) -> (r: Result<u32, PeError>)
        ensures
            final(self).bytes() == old(self).bytes(),
            old(self).position() + 4 <= old(self).bytes().len() ==> r.is_ok() && r.unwrap() as int
                == le_u32(old(self).bytes(), old(self).position()) && final(self).position()
                == old(self).position() + 4,
            old(self).position() + 4 > old(self).bytes().len() ==> r == Err::<u32, PeError>(
                PeError::Truncated,
            ),
    {
        if !self.has(4) {
            return Err(PeError::Truncated);
        }
        let v = le_read_u32(self.data.as_slice(), self.pos);
        self.pos = self.pos + 4;
        Ok(v)
    }

    /// Reads a little-endian two's-complement 32-bit integer.
    pub fn read_i32(&mut self) -> (r: Result<i32, PeError>)
        ensures
            final(self).bytes() == old(self).bytes(),
            old(self).position() + 4 <= old(self).bytes().len() ==> r.is_ok() && r.unwrap() as int
                == le_i32(old(self).bytes(), old(self).position()) && final(self).position()
                == old(self).position() + 4,
            old(self).position() + 4 > old(self).bytes().len() ==> r == Err::<i32, PeError>(
                PeError::Truncated,
            ),
    {
        if !self.has(4) {
            return Err(PeError::Truncated);
        }
        let v = le_read_i32(self.data.as_slice(), self.pos);
        self.pos = self.pos + 4;
        Ok(v)
    }

    /// Moves the read position to the absolute offset `off`, which must lie
    /// inside the input.
    pub fn seek_to(&mut self, off: i32) -> (r: Result<(), PeError>)
        ensures
            final(self).bytes() == old(self).bytes(),
            0 <= off < old(self).bytes().len() ==> r.is_ok() && final(self).position() == off,
            !(0 <= off < old(self).bytes().len()) ==> r == Err::<(), PeError>(
                PeError::SeekOutOfRange,
            ) && final(self).position() == old(self).position(),
    {
        if off < 0 || off as usize >= self.data.len() {
            return Err(PeError::SeekOutOfRange);
        }
        self.pos = off as usize;
        Ok(())
    }
}

} // verus!
