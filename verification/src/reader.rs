//! A cursor over a byte slice: the stream that the TIFF reader walks.

use vstd::prelude::*;
use vstd::slice::slice_subrange;

use crate::endian::Endianness;
use crate::error::TiffError;

verus! {

/// A read position in a borrowed run of bytes. The position may lie beyond
/// the end; every read there fails.
#[derive(Debug, Clone)]
pub struct ByteReader<'a> {
    bytes: &'a [u8],
    position: u64,
}

/// The `count` bytes of `bytes` from `pos` on, if there are that many.
pub open spec fn spec_bytes_at(bytes: Seq<u8>, pos: int, count: int) -> Option<Seq<u8>> {
    if 0 <= pos && 0 <= count && pos + count <= bytes.len() {
        Some(bytes.subrange(pos, pos + count))
    } else {
        None
    }
}

/// The unsigned 16-bit integer at `pos`, if the stream holds its two bytes.
pub open spec fn spec_u16_at(bytes: Seq<u8>, pos: int, e: Endianness) -> Option<u16> {
    match spec_bytes_at(bytes, pos, 2) {
        Some(s) => Some(e.spec_u16(s)),
        None => None,
    }
}

/// The unsigned 32-bit integer at `pos`, if the stream holds its four bytes.
pub open spec fn spec_u32_at(bytes: Seq<u8>, pos: int, e: Endianness) -> Option<u32> {
    match spec_bytes_at(bytes, pos, 4) {
        Some(s) => Some(e.spec_u32(s)),
        None => None,
    }
}

/// The unsigned 64-bit integer at `pos`, if the stream holds its eight bytes.
pub open spec fn spec_u64_at(bytes: Seq<u8>, pos: int, e: Endianness) -> Option<u64> {
    match spec_bytes_at(bytes, pos, 8) {
        Some(s) => Some(e.spec_u64(s)),
        None => None,
    }
}

impl<'a> ByteReader<'a> {
    /// The bytes of the whole stream.
    pub closed spec fn spec_bytes(&self) -> Seq<u8> {
        self.bytes@
    }

    /// The offset of the next byte to be read.
    pub closed spec fn spec_position(&self) -> int {
        self.position as int
    }

    /// A reader at the start of `bytes`.
    pub fn new(bytes: &'a [u8]) -> (r: Self)
        ensures
            r.spec_bytes() == bytes@,
            r.spec_position() == 0,
    {
        ByteReader { bytes, position: 0 }
    }

    /// The offset of the next byte to be read.
    pub fn position(&self) -> (p: u64)
        ensures
            p == self.spec_position(),
    {
        self.position
    }

    /// The length of the whole stream.
    pub fn len(&self) -> (n: usize)
        ensures
            n == self.spec_bytes().len(),
    {
        self.bytes.len()
    }

    /// The number of bytes from the position to the end of the stream.
    pub fn remaining(&self) -> (n: usize)
        ensures
            n == if self.spec_position() <= self.spec_bytes().len() {
                self.spec_bytes().len() - self.spec_position()
            } else {
                0
            },
    {
        let len: usize = self.bytes.len();
        if self.position <= len as u64 {
            len - self.position as usize
        } else {
            0
        }
    }

    /// Moves to the absolute offset `position`, which may lie beyond the end.
    pub fn seek(&mut self, position: u64)
        ensures
            final(self).spec_bytes() == old(self).spec_bytes(),
            final(self).spec_position() == position,
    {
        self.position = position;
    }

    /// Hands out the next `count` bytes and moves past them. Where fewer are
    /// left, nothing is read and the position stays.
    pub fn read_exact(&mut self, count: usize) -> (r: Option<&'a [u8]>)
        ensures
            final(self).spec_bytes() == old(self).spec_bytes(),
            match r {
                Some(s) => Some(s@) == spec_bytes_at(
                    old(self).spec_bytes(),
                    old(self).spec_position(),
                    count as int,
                ) && final(self).spec_position() == old(self).spec_position() + count,
                None => spec_bytes_at(
                    old(self).spec_bytes(),
                    old(self).spec_position(),
                    count as int,
                ) is None && final(self).spec_position() == old(self).spec_position(),
            },
    {
        let len: usize = self.bytes.len();
        if self.position > len as u64 || count > len - self.position as usize {
            return None;
        }
        let start: usize = self.position as usize;
        let taken: &'a [u8] = slice_subrange(self.bytes, start, start + count);
        self.position = self.position + count as u64;
        Some(taken)
    }
}

/// Reads an unsigned 16-bit integer in the byte order `endianness` and moves
/// past it. Fails, and reads nothing, where fewer than two bytes are left.
pub fn read_u16(reader: &mut ByteReader, endianness: Endianness) -> (r: Result<u16, TiffError>)
    ensures
        final(reader).spec_bytes() == old(reader).spec_bytes(),
        match r {
            Ok(v) => Some(v) == spec_u16_at(
                old(reader).spec_bytes(),
                old(reader).spec_position(),
                endianness,
            ) && final(reader).spec_position() == old(reader).spec_position() + 2,
            Err(e) => e == TiffError::UnexpectedEof && spec_u16_at(
                old(reader).spec_bytes(),
                old(reader).spec_position(),
                endianness,
            ) is None && final(reader).spec_position() == old(reader).spec_position(),
        },
{
    match reader.read_exact(2) {
        Some(s) => {
            let buffer: [u8; 2] = [s[0], s[1]];
            assert(buffer@ =~= s@);
            Ok(endianness.u16_from_bytes(buffer))
        },
        None => Err(TiffError::UnexpectedEof),
    }
}

/// Reads an unsigned 32-bit integer in the byte order `endianness` and moves
/// past it. Fails, and reads nothing, where fewer than four bytes are left.
pub fn read_u32(reader: &mut ByteReader, endianness: Endianness) -> (r: Result<u32, TiffError>)
    ensures
        final(reader).spec_bytes() == old(reader).spec_bytes(),
        match r {
            Ok(v) => Some(v) == spec_u32_at(
                old(reader).spec_bytes(),
                old(reader).spec_position(),
                endianness,
            ) && final(reader).spec_position() == old(reader).spec_position() + 4,
            Err(e) => e == TiffError::UnexpectedEof && spec_u32_at(
                old(reader).spec_bytes(),
                old(reader).spec_position(),
                endianness,
            ) is None && final(reader).spec_position() == old(reader).spec_position(),
        },
{
    match reader.read_exact(4) {
        Some(s) => {
            let buffer: [u8; 4] = [s[0], s[1], s[2], s[3]];
            assert(buffer@ =~= s@);
            Ok(endianness.u32_from_bytes(buffer))
        },
        None => Err(TiffError::UnexpectedEof),
    }
}

/// Reads an unsigned 64-bit integer in the byte order `endianness` and moves
/// past it. Fails, and reads nothing, where fewer than eight bytes are left.
pub fn read_u64(reader: &mut ByteReader, endianness: Endianness) -> (r: Result<u64, TiffError>)
    ensures
        final(reader).spec_bytes() == old(reader).spec_bytes(),
        match r {
            Ok(v) => Some(v) == spec_u64_at(
                old(reader).spec_bytes(),
                old(reader).spec_position(),
                endianness,
            ) && final(reader).spec_position() == old(reader).spec_position() + 8,
            Err(e) => e == TiffError::UnexpectedEof && spec_u64_at(
                old(reader).spec_bytes(),
                old(reader).spec_position(),
                endianness,
            ) is None && final(reader).spec_position() == old(reader).spec_position(),
        },
{
    match reader.read_exact(8) {
        Some(s) => {
            let buffer: [u8; 8] = [s[0], s[1], s[2], s[3], s[4], s[5], s[6], s[7]];
            assert(buffer@ =~= s@);
            Ok(endianness.u64_from_bytes(buffer))
        },
        None => Err(TiffError::UnexpectedEof),
    }
}

impl Endianness {
    /// Reads an unsigned 16-bit integer in this byte order and moves past it.
    pub fn read_u16(self, reader: &mut ByteReader) -> (r: Result<u16, TiffError>)
        ensures
            final(reader).spec_bytes() == old(reader).spec_bytes(),
            match r {
                Ok(v) => Some(v) == spec_u16_at(
                    old(reader).spec_bytes(),
                    old(reader).spec_position(),
                    self,
                ) && final(reader).spec_position() == old(reader).spec_position() + 2,
                Err(e) => e == TiffError::UnexpectedEof && spec_u16_at(
                    old(reader).spec_bytes(),
                    old(reader).spec_position(),
                    self,
                ) is None && final(reader).spec_position() == old(reader).spec_position(),
            },
    {
        read_u16(reader, self)
    }

    /// Reads an unsigned 32-bit integer in this byte order and moves past it.
    pub fn read_u32(self, reader: &mut ByteReader) -> (r: Result<u32, TiffError>)
        ensures
            final(reader).spec_bytes() == old(reader).spec_bytes(),
            match r {
                Ok(v) => Some(v) == spec_u32_at(
                    old(reader).spec_bytes(),
                    old(reader).spec_position(),
                    self,
                ) && final(reader).spec_position() == old(reader).spec_position() + 4,
                Err(e) => e == TiffError::UnexpectedEof && spec_u32_at(
                    old(reader).spec_bytes(),
                    old(reader).spec_position(),
                    self,
                ) is None && final(reader).spec_position() == old(reader).spec_position(),
            },
    {
        read_u32(reader, self)
    }
}

} // verus!
