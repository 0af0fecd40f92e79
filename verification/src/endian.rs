//! Byte order, and the integers that a run of bytes stands for under it.

use vstd::prelude::*;

verus! {

/// Byte order of a TIFF stream.
#[derive(Debug, Clone, Copy, PartialEq, Eq, Structural)]
pub enum Endianness {
    /// `0x4949` (little-endian)
    LittleEndian,
    /// `0x4D4D` (big-endian)
    BigEndian,
}

impl Endianness {
    /// The unsigned 16-bit integer that the two bytes of `s` stand for.
    pub open spec fn spec_u16(self, s: Seq<u8>) -> u16
        recommends
            s.len() == 2,
    {
        match self {
            Endianness::LittleEndian => (s[0] as int + s[1] as int * 0x100) as u16,
            Endianness::BigEndian => (s[1] as int + s[0] as int * 0x100) as u16,
        }
    }

    /// The unsigned 32-bit integer that the four bytes of `s` stand for.
    pub open spec fn spec_u32(self, s: Seq<u8>) -> u32
        recommends
            s.len() == 4,
    {
        match self {
            Endianness::LittleEndian => (s[0] as int + s[1] as int * 0x100 + s[2] as int * 0x1_0000
                + s[3] as int * 0x100_0000) as u32,
            Endianness::BigEndian => (s[3] as int + s[2] as int * 0x100 + s[1] as int * 0x1_0000
                + s[0] as int * 0x100_0000) as u32,
        }
    }

    /// The unsigned 64-bit integer that the eight bytes of `s` stand for.
    pub open spec fn spec_u64(self, s: Seq<u8>) -> u64
        recommends
            s.len() == 8,
    {
        match self {
            Endianness::LittleEndian => (self.spec_u32(s.subrange(0, 4)) as int + self.spec_u32(
                s.subrange(4, 8),
            ) as int * 0x1_0000_0000) as u64,
            Endianness::BigEndian => (self.spec_u32(s.subrange(4, 8)) as int + self.spec_u32(
                s.subrange(0, 4),
            ) as int * 0x1_0000_0000) as u64,
        }
    }

    /// The two bytes that stand for `v`, in this byte order.
    pub open spec fn spec_u16_bytes(self, v: u16) -> Seq<u8> {
        match self {
            Endianness::LittleEndian => seq![(v % 0x100) as u8, (v / 0x100) as u8],
            Endianness::BigEndian => seq![(v / 0x100) as u8, (v % 0x100) as u8],
        }
    }

    /// The four bytes that stand for `v`, in this byte order.
    pub open spec fn spec_u32_bytes(self, v: u32) -> Seq<u8> {
        match self {
            Endianness::LittleEndian => seq![
                (v % 0x100) as u8,
                (v / 0x100 % 0x100) as u8,
                (v / 0x1_0000 % 0x100) as u8,
                (v / 0x100_0000) as u8,
            ],
            Endianness::BigEndian => seq![
                (v / 0x100_0000) as u8,
                (v / 0x1_0000 % 0x100) as u8,
                (v / 0x100 % 0x100) as u8,
                (v % 0x100) as u8,
            ],
        }
    }

    /// The eight bytes that stand for `v`, in this byte order.
    pub open spec fn spec_u64_bytes(self, v: u64) -> Seq<u8> {
        match self {
            Endianness::LittleEndian => self.spec_u32_bytes((v % 0x1_0000_0000) as u32)
                + self.spec_u32_bytes((v / 0x1_0000_0000) as u32),
            Endianness::BigEndian => self.spec_u32_bytes((v / 0x1_0000_0000) as u32)
                + self.spec_u32_bytes((v % 0x1_0000_0000) as u32),
        }
    }

    /// The byte order that `mark` announces, if it announces one.
    pub open spec fn spec_from_mark(mark: u16) -> Option<Endianness> {
        if mark == 0x4949 {
            Some(Endianness::LittleEndian)
        } else if mark == 0x4D4D {
            Some(Endianness::BigEndian)
        } else {
            None
        }
    }

    /// Tells which byte order the opening mark of a stream announces.
    pub fn from_mark(mark: u16) -> (r: Option<Endianness>)
        ensures
            r == Self::spec_from_mark(mark),
    {
        if mark == 0x4949 {
            Some(Endianness::LittleEndian)
        } else if mark == 0x4D4D {
            Some(Endianness::BigEndian)
        } else {
            None
        }
    }

    /// Decodes an unsigned 16-bit integer from its two bytes.
    pub fn u16_from_bytes(self, b: [u8; 2]) -> (v: u16)
        ensures
            v == self.spec_u16(b@),
    {
        let b0: u16 = b[0] as u16;
        let b1: u16 = b[1] as u16;
        match self {
            Endianness::LittleEndian => b0 + b1 * 0x100,
            Endianness::BigEndian => b1 + b0 * 0x100,
        }
    }

    /// Decodes an unsigned 32-bit integer from its four bytes.
    pub fn u32_from_bytes(self, b: [u8; 4]) -> (v: u32)
        ensures
            v == self.spec_u32(b@),
    {
        let b0: u32 = b[0] as u32;
        let b1: u32 = b[1] as u32;
        let b2: u32 = b[2] as u32;
        let b3: u32 = b[3] as u32;
        match self {
            Endianness::LittleEndian => b0 + b1 * 0x100 + b2 * 0x1_0000 + b3 * 0x100_0000,
            Endianness::BigEndian => b3 + b2 * 0x100 + b1 * 0x1_0000 + b0 * 0x100_0000,
        }
    }

    /// Decodes an unsigned 64-bit integer from its eight bytes.
    pub fn u64_from_bytes(self, b: [u8; 8]) -> (v: u64)
        ensures
            v == self.spec_u64(b@),
    {
        let first: u32 = self.u32_from_bytes([b[0], b[1], b[2], b[3]]);
        let second: u32 = self.u32_from_bytes([b[4], b[5], b[6], b[7]]);
        proof {
            assert(b@.subrange(0, 4) =~= [b[0], b[1], b[2], b[3]]@);
            assert(b@.subrange(4, 8) =~= [b[4], b[5], b[6], b[7]]@);
        }
        match self {
            Endianness::LittleEndian => first as u64 + second as u64 * 0x1_0000_0000,
            Endianness::BigEndian => second as u64 + first as u64 * 0x1_0000_0000,
        }
    }
}

/// The signed reading of a byte in two's complement.
pub open spec fn spec_i8_of(v: u8) -> i8 {
    if v < 0x80 {
        v as i8
    } else {
        (v as int - 0x100) as i8
    }
}

/// The signed reading of 16 bits in two's complement.
pub open spec fn spec_i16_of(v: u16) -> i16 {
    if v < 0x8000 {
        v as i16
    } else {
        (v as int - 0x1_0000) as i16
    }
}

/// The signed reading of 32 bits in two's complement.
pub open spec fn spec_i32_of(v: u32) -> i32 {
    if v < 0x8000_0000 {
        v as i32
    } else {
        (v as int - 0x1_0000_0000) as i32
    }
}

/// Reads a byte as a signed integer in two's complement.
pub fn i8_of(v: u8) -> (r: i8)
    ensures
        r == spec_i8_of(v),
{
    if v < 0x80 {
        v as i8
    } else {
        (v - 0x80) as i8 + i8::MIN
    }
}

/// Reads 16 bits as a signed integer in two's complement.
pub fn i16_of(v: u16) -> (r: i16)
    ensures
        r == spec_i16_of(v),
{
    if v < 0x8000 {
        v as i16
    } else {
        (v - 0x8000) as i16 + i16::MIN
    }
}

/// Reads 32 bits as a signed integer in two's complement.
pub fn i32_of(v: u32) -> (r: i32)
    ensures
        r == spec_i32_of(v),
{
    if v < 0x8000_0000 {
        v as i32
    } else {
        (v - 0x8000_0000) as i32 + i32::MIN
    }
}

/// Decoding undoes encoding: the bytes written for a 16-bit integer read
/// back as that integer, in either byte order.
pub proof fn lemma_u16_round_trip(e: Endianness, v: u16)
    ensures
        e.spec_u16_bytes(v).len() == 2,
        e.spec_u16(e.spec_u16_bytes(v)) == v,
{
}

/// Decoding undoes encoding: the bytes written for a 32-bit integer read
/// back as that integer, in either byte order.
pub proof fn lemma_u32_round_trip(e: Endianness, v: u32)
    ensures
        e.spec_u32_bytes(v).len() == 4,
        e.spec_u32(e.spec_u32_bytes(v)) == v,
{
}

/// Decoding undoes encoding: the bytes written for a 64-bit integer read
/// back as that integer, in either byte order.
pub proof fn lemma_u64_round_trip(e: Endianness, v: u64)
    ensures
        e.spec_u64_bytes(v).len() == 8,
        e.spec_u64(e.spec_u64_bytes(v)) == v,
{
    let lo = (v % 0x1_0000_0000) as u32;
    let hi = (v / 0x1_0000_0000) as u32;
    lemma_u32_round_trip(e, lo);
    lemma_u32_round_trip(e, hi);
    let s = e.spec_u64_bytes(v);
    match e {
        Endianness::LittleEndian => {
            assert(s.subrange(0, 4) =~= e.spec_u32_bytes(lo));
            assert(s.subrange(4, 8) =~= e.spec_u32_bytes(hi));
        },
        Endianness::BigEndian => {
            assert(s.subrange(0, 4) =~= e.spec_u32_bytes(hi));
            assert(s.subrange(4, 8) =~= e.spec_u32_bytes(lo));
        },
    }
}

} // verus!
