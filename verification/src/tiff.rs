//! A reader for TIFF streams: the header, the chain of image file
//! directories, and the typed value of every directory entry.
//!
//! Every reading function comes with a specification function over the bytes
//! of the stream, and promises to return exactly what that function gives.

use vstd::prelude::*;
use vstd::slice::slice_subrange;

use crate::endian::Endianness;
use crate::error::TiffError;
use crate::reader::{read_u16, read_u32, spec_bytes_at, spec_u16_at, spec_u32_at, ByteReader};
use crate::value::{lemma_value_shape, spec_field_value, spec_value, view_result};

verus! {

/// A parsed TIFF stream.
#[derive(Debug, Clone, PartialEq, Eq)]
pub struct Tiff {
    pub header: TiffHeader,
    pub ifds: Vec<TiffIfd>,
}

/// The eight bytes that open a TIFF stream.
#[derive(Debug, Clone, Copy, PartialEq, Eq, Structural)]
pub struct TiffHeader {
    pub endianness: Endianness,
    /// 42 for classic TIFF, 43 for BigTIFF.
    pub version: u16,
    pub first_ifd_offset: u32,
}

/// Image File Directory (IFD) structure
#[derive(Debug, Clone, PartialEq, Eq)]
pub struct TiffIfd {
    pub entries: Vec<TiffIfdEntry>,
    /// The offset of the directory that follows, `None` at the end of the chain.
    pub next_ifd_offset: Option<u32>,
}

/// One entry of a directory, with its value.
#[derive(Debug, Clone, PartialEq, Eq)]
pub struct TiffIfdEntry {
    pub tag: u16,
    pub field_type: TiffFieldType,
    pub count: u32,
    pub field_value: TiffFieldValue,
}

/// The type of the items of a value.
#[derive(Debug, Clone, Copy, PartialEq, Eq, Structural)]
pub enum TiffFieldType {
    BYTE,
    ASCII,
    SHORT,
    LONG,
    RATIONAL,
    SBYTE,
    UNDEFINED,
    SSHORT,
    SLONG,
    SRATIONAL,
    FLOAT,
    DOUBLE,
}

/// The value of a directory entry. `FLOAT` and `DOUBLE` hold the IEEE 754 bit
/// patterns of their items.
#[derive(Debug, Clone, PartialEq, Eq)]
pub enum TiffFieldValue {
    BYTE(Vec<u8>),
    ASCII(String),
    SHORT(Vec<u16>),
    LONG(Vec<u32>),
    RATIONAL(Vec<(u32, u32)>),
    SBYTE(Vec<i8>),
    UNDEFINED(Vec<u8>),
    SSHORT(Vec<i16>),
    SLONG(Vec<i32>),
    SRATIONAL(Vec<(i32, i32)>),
    FLOAT(Vec<u32>),
    DOUBLE(Vec<u64>),
}

/// The mathematical content of a [`TiffFieldValue`].
pub enum TiffFieldValueView {
    BYTE(Seq<u8>),
    ASCII(Seq<char>),
    SHORT(Seq<u16>),
    LONG(Seq<u32>),
    RATIONAL(Seq<(u32, u32)>),
    SBYTE(Seq<i8>),
    UNDEFINED(Seq<u8>),
    SSHORT(Seq<i16>),
    SLONG(Seq<i32>),
    SRATIONAL(Seq<(i32, i32)>),
    FLOAT(Seq<u32>),
    DOUBLE(Seq<u64>),
}

/// The mathematical content of a [`TiffIfdEntry`].
pub struct TiffIfdEntryView {
    pub tag: u16,
    pub field_type: TiffFieldType,
    pub count: u32,
    pub field_value: TiffFieldValueView,
}

/// The mathematical content of a [`TiffIfd`].
pub struct TiffIfdView {
    pub entries: Seq<TiffIfdEntryView>,
    pub next_ifd_offset: Option<u32>,
}

/// The mathematical content of a [`Tiff`].
pub struct TiffView {
    pub header: TiffHeader,
    pub ifds: Seq<TiffIfdView>,
}

impl View for TiffFieldValue {
    type V = TiffFieldValueView;

    open spec fn view(&self) -> TiffFieldValueView {
        match self {
            TiffFieldValue::BYTE(v) => TiffFieldValueView::BYTE(v@),
            TiffFieldValue::ASCII(s) => TiffFieldValueView::ASCII(s@),
            TiffFieldValue::SHORT(v) => TiffFieldValueView::SHORT(v@),
            TiffFieldValue::LONG(v) => TiffFieldValueView::LONG(v@),
            TiffFieldValue::RATIONAL(v) => TiffFieldValueView::RATIONAL(v@),
            TiffFieldValue::SBYTE(v) => TiffFieldValueView::SBYTE(v@),
            TiffFieldValue::UNDEFINED(v) => TiffFieldValueView::UNDEFINED(v@),
            TiffFieldValue::SSHORT(v) => TiffFieldValueView::SSHORT(v@),
            TiffFieldValue::SLONG(v) => TiffFieldValueView::SLONG(v@),
            TiffFieldValue::SRATIONAL(v) => TiffFieldValueView::SRATIONAL(v@),
            TiffFieldValue::FLOAT(v) => TiffFieldValueView::FLOAT(v@),
            TiffFieldValue::DOUBLE(v) => TiffFieldValueView::DOUBLE(v@),
        }
    }
}

impl View for TiffIfdEntry {
    type V = TiffIfdEntryView;

    open spec fn view(&self) -> TiffIfdEntryView {
        TiffIfdEntryView {
            tag: self.tag,
            field_type: self.field_type,
            count: self.count,
            field_value: self.field_value@,
        }
    }
}

/// The views of the entries of a directory, in their order.
pub open spec fn spec_entry_views(entries: Seq<TiffIfdEntry>) -> Seq<TiffIfdEntryView> {
    entries.map_values(|e: TiffIfdEntry| e@)
}

/// The views of the directories of a stream, in their order.
pub open spec fn spec_ifd_views(ifds: Seq<TiffIfd>) -> Seq<TiffIfdView> {
    ifds.map_values(|d: TiffIfd| d@)
}

impl View for TiffIfd {
    type V = TiffIfdView;

    open spec fn view(&self) -> TiffIfdView {
        TiffIfdView {
            entries: spec_entry_views(self.entries@),
            next_ifd_offset: self.next_ifd_offset,
        }
    }
}

impl View for Tiff {
    type V = TiffView;

    open spec fn view(&self) -> TiffView {
        TiffView { header: self.header, ifds: spec_ifd_views(self.ifds@) }
    }
}

impl TiffFieldType {
    /// The field type that the number `code` names in a directory entry.
    pub open spec fn spec_from_u16(code: u16) -> Option<TiffFieldType> {
        if code == 1 {
            Some(TiffFieldType::BYTE)
        } else if code == 2 {
            Some(TiffFieldType::ASCII)
        } else if code == 3 {
            Some(TiffFieldType::SHORT)
        } else if code == 4 {
            Some(TiffFieldType::LONG)
        } else if code == 5 {
            Some(TiffFieldType::RATIONAL)
        } else if code == 6 {
            Some(TiffFieldType::SBYTE)
        } else if code == 7 {
            Some(TiffFieldType::UNDEFINED)
        } else if code == 8 {
            Some(TiffFieldType::SSHORT)
        } else if code == 9 {
            Some(TiffFieldType::SLONG)
        } else if code == 10 {
            Some(TiffFieldType::SRATIONAL)
        } else if code == 11 {
            Some(TiffFieldType::FLOAT)
        } else if code == 12 {
            Some(TiffFieldType::DOUBLE)
        } else {
            None
        }
    }

    /// The number that names this field type in a directory entry.
    pub open spec fn spec_code(self) -> u16 {
        match self {
            TiffFieldType::BYTE => 1,
            TiffFieldType::ASCII => 2,
            TiffFieldType::SHORT => 3,
            TiffFieldType::LONG => 4,
            TiffFieldType::RATIONAL => 5,
            TiffFieldType::SBYTE => 6,
            TiffFieldType::UNDEFINED => 7,
            TiffFieldType::SSHORT => 8,
            TiffFieldType::SLONG => 9,
            TiffFieldType::SRATIONAL => 10,
            TiffFieldType::FLOAT => 11,
            TiffFieldType::DOUBLE => 12,
        }
    }

    /// The number of bytes that one item of this type takes.
    pub open spec fn spec_size(self) -> nat {
        match self {
            TiffFieldType::BYTE => 1,
            TiffFieldType::ASCII => 1,
            TiffFieldType::SHORT => 2,
            TiffFieldType::LONG => 4,
            TiffFieldType::RATIONAL => 8,
            TiffFieldType::SBYTE => 1,
            TiffFieldType::UNDEFINED => 1,
            TiffFieldType::SSHORT => 2,
            TiffFieldType::SLONG => 4,
            TiffFieldType::SRATIONAL => 8,
            TiffFieldType::FLOAT => 4,
            TiffFieldType::DOUBLE => 8,
        }
    }

    /// Tells which field type the number `code` of a directory entry names.
    pub fn from_u16(code: u16) -> (r: Option<TiffFieldType>)
        ensures
            r == Self::spec_from_u16(code),
    {
        match code {
            1 => Some(TiffFieldType::BYTE),
            2 => Some(TiffFieldType::ASCII),
            3 => Some(TiffFieldType::SHORT),
            4 => Some(TiffFieldType::LONG),
            5 => Some(TiffFieldType::RATIONAL),
            6 => Some(TiffFieldType::SBYTE),
            7 => Some(TiffFieldType::UNDEFINED),
            8 => Some(TiffFieldType::SSHORT),
            9 => Some(TiffFieldType::SLONG),
            10 => Some(TiffFieldType::SRATIONAL),
            11 => Some(TiffFieldType::FLOAT),
            12 => Some(TiffFieldType::DOUBLE),
            _ => None,
        }
    }

    /// The number that names this field type in a directory entry.
    pub fn code(&self) -> (c: u16)
        ensures
            c == self.spec_code(),
            Self::spec_from_u16(c) == Some(*self),
    {
        match self {
            TiffFieldType::BYTE => 1,
            TiffFieldType::ASCII => 2,
            TiffFieldType::SHORT => 3,
            TiffFieldType::LONG => 4,
            TiffFieldType::RATIONAL => 5,
            TiffFieldType::SBYTE => 6,
            TiffFieldType::UNDEFINED => 7,
            TiffFieldType::SSHORT => 8,
            TiffFieldType::SLONG => 9,
            TiffFieldType::SRATIONAL => 10,
            TiffFieldType::FLOAT => 11,
            TiffFieldType::DOUBLE => 12,
        }
    }

    /// The number of bytes that one item of this type takes.
    pub fn size(&self) -> (n: usize)
        ensures
            n == self.spec_size(),
            n == 1 || n == 2 || n == 4 || n == 8,
    {
        match self {
            TiffFieldType::BYTE => 1,
            TiffFieldType::ASCII => 1,
            TiffFieldType::SHORT => 2,
            TiffFieldType::LONG => 4,
            TiffFieldType::RATIONAL => 8,
            TiffFieldType::SBYTE => 1,
            TiffFieldType::UNDEFINED => 1,
            TiffFieldType::SSHORT => 2,
            TiffFieldType::SLONG => 4,
            TiffFieldType::SRATIONAL => 8,
            TiffFieldType::FLOAT => 4,
            TiffFieldType::DOUBLE => 8,
        }
    }
}

/// The header that the eight bytes from `pos` on hold, or the reason why they
/// hold none. The checks come in the order of the bytes: the byte order mark,
/// the version, the offset of the first directory.
pub open spec fn spec_header(bytes: Seq<u8>, pos: int) -> Result<TiffHeader, TiffError> {
    match spec_u16_at(bytes, pos, Endianness::LittleEndian) {
        None => Err(TiffError::UnexpectedEof),
        Some(mark) => match Endianness::spec_from_mark(mark) {
            None => Err(TiffError::InvalidByteOrder),
            Some(endianness) => match spec_u16_at(bytes, pos + 2, endianness) {
                None => Err(TiffError::UnexpectedEof),
                Some(version) => if version < 42 {
                    Err(TiffError::InvalidMagicNumber)
                } else {
                    match spec_u32_at(bytes, pos + 4, endianness) {
                        None => Err(TiffError::UnexpectedEof),
                        Some(first_ifd_offset) => Ok(
                            TiffHeader { endianness, version, first_ifd_offset },
                        ),
                    }
                },
            },
        },
    }
}

/// Reads the header at the reader's position. After a failure the reader
/// stands where the failure was met.
fn read_header(reader: &mut ByteReader) -> (r: Result<TiffHeader, TiffError>)
    ensures
        final(reader).spec_bytes() == old(reader).spec_bytes(),
        r == spec_header(old(reader).spec_bytes(), old(reader).spec_position()),
        r is Ok ==> final(reader).spec_position() == old(reader).spec_position() + 8,
{
    let byte_order: u16 = read_u16(reader, Endianness::LittleEndian)?;
    let endianness: Endianness = match Endianness::from_mark(byte_order) {
        Some(e) => e,
        None => return Err(TiffError::InvalidByteOrder),
    };
    let version: u16 = read_u16(reader, endianness)?;
    if version < 42 {
        return Err(TiffError::InvalidMagicNumber);
    }
    let first_ifd_offset: u32 = read_u32(reader, endianness)?;
    Ok(TiffHeader { endianness, version, first_ifd_offset })
}

impl TiffHeader {
    /// Reads the header at the reader's position. On success the reader
    /// stands behind its eight bytes; after a failure it stands where it
    /// stood.
    pub fn new(reader: &mut ByteReader) -> (r: Result<TiffHeader, TiffError>)
        ensures
            final(reader).spec_bytes() == old(reader).spec_bytes(),
            r == spec_header(old(reader).spec_bytes(), old(reader).spec_position()),
            final(reader).spec_position() == if r is Ok {
                old(reader).spec_position() + 8
            } else {
                old(reader).spec_position()
            },
    {
        let start: u64 = reader.position();
        let read: Result<TiffHeader, TiffError> = read_header(reader);
        if read.is_err() {
            reader.seek(start);
        }
        read
    }
}

/// The width in bytes of the value/offset field of a directory entry: 4 in
/// classic TIFF, 8 in BigTIFF. Other versions are not supported.
pub open spec fn spec_value_offset_size(version: u16) -> Option<nat> {
    if version == 42 {
        Some(4)
    } else if version == 43 {
        Some(8)
    } else {
        None
    }
}

/// The offset that the bytes of a value/offset field hold.
pub open spec fn spec_value_offset(slot_bytes: Seq<u8>, e: Endianness) -> u64 {
    if slot_bytes.len() == 4 {
        e.spec_u32(slot_bytes) as u64
    } else {
        e.spec_u64(slot_bytes)
    }
}

/// The directory entry at `pos`: a record of tag, field type and count in
/// eight bytes, then a value/offset field of `slot` bytes. A value of at most
/// `slot` bytes lies at the start of that field; a longer one lies at the
/// absolute offset that the field holds.
///
/// The record is read whole before anything in it is judged, so a stream
/// that ends inside it is short, whatever the bytes that are there say.
#[verifier::opaque]
pub open spec fn spec_entry(bytes: Seq<u8>, pos: int, e: Endianness, slot: nat) -> Result<
    TiffIfdEntryView,
    TiffError,
> {
    match spec_bytes_at(bytes, pos, 8 + slot as int) {
        None => Err(TiffError::UnexpectedEof),
        Some(record) => {
            let tag = e.spec_u16(record.subrange(0, 2));
            let code = e.spec_u16(record.subrange(2, 4));
            let count = e.spec_u32(record.subrange(4, 8));
            match TiffFieldType::spec_from_u16(code) {
                None => Err(TiffError::InvalidFieldType),
                Some(field_type) => {
                    let size = field_type.spec_size() * count;
                    let value = if size <= slot {
                        spec_value(record.subrange(8, 8 + size as int), e, field_type)
                    } else {
                        spec_field_value(
                            bytes,
                            spec_value_offset(record.subrange(8, 8 + slot as int), e) as int,
                            e,
                            field_type,
                            count,
                        )
                    };
                    match value {
                        Ok(field_value) => Ok(
                            TiffIfdEntryView { tag, field_type, count, field_value },
                        ),
                        Err(error) => Err(error),
                    }
                },
            }
        },
    }
}

/// Where the entry of index `i` starts in a directory whose entries start at
/// `first`.
pub open spec fn spec_entry_position(first: int, slot: nat, i: nat) -> int {
    first + i * (8 + slot)
}

/// The first `n` entries of the directory whose entries start at `pos`, or
/// the failure of the first entry that cannot be read.
pub open spec fn spec_entries(bytes: Seq<u8>, pos: int, e: Endianness, slot: nat, n: nat) -> Result<
    Seq<TiffIfdEntryView>,
    TiffError,
>
    decreases n,
{
    if n == 0 {
        Ok(Seq::empty())
    } else {
        match spec_entries(bytes, pos, e, slot, (n - 1) as nat) {
            Err(error) => Err(error),
            Ok(entries) => match spec_entry(
                bytes,
                spec_entry_position(pos, slot, (n - 1) as nat),
                e,
                slot,
            ) {
                Err(error) => Err(error),
                Ok(entry) => Ok(entries.push(entry)),
            },
        }
    }
}

/// The directory at `pos` in a stream of the given version: a count of at
/// least one entry, the entries, and the offset of the next directory, where
/// 0 stands for none.
#[verifier::opaque]
pub open spec fn spec_ifd(bytes: Seq<u8>, pos: int, e: Endianness, version: u16) -> Result<
    TiffIfdView,
    TiffError,
> {
    match spec_value_offset_size(version) {
        None => Err(TiffError::UnsupportedVersion),
        Some(slot) => match spec_u16_at(bytes, pos, e) {
            None => Err(TiffError::UnexpectedEof),
            Some(entry_count) => if entry_count < 1 {
                Err(TiffError::InvalidEntryCount)
            } else {
                match spec_entries(bytes, pos + 2, e, slot, entry_count as nat) {
                    Err(error) => Err(error),
                    Ok(entries) => match spec_u32_at(
                        bytes,
                        spec_entry_position(pos + 2, slot, entry_count as nat),
                        e,
                    ) {
                        None => Err(TiffError::UnexpectedEof),
                        Some(next) => Ok(
                            TiffIfdView {
                                entries,
                                next_ifd_offset: if next == 0 {
                                    None
                                } else {
                                    Some(next)
                                },
                            },
                        ),
                    },
                }
            },
        },
    }
}

/// `ifds` in front of what `rest` holds, or the failure of `rest`.
pub open spec fn spec_prepend(ifds: Seq<TiffIfdView>, rest: Result<Seq<TiffIfdView>, TiffError>)
    -> Result<Seq<TiffIfdView>, TiffError> {
    match rest {
        Ok(more) => Ok(ifds + more),
        Err(error) => Err(error),
    }
}

/// The directories of the chain that starts at `offset`, followed for at most
/// `limit` links. A chain that is longer than `limit` is a failure.
pub open spec fn spec_ifd_chain(
    bytes: Seq<u8>,
    offset: u32,
    e: Endianness,
    version: u16,
    limit: nat,
) -> Result<Seq<TiffIfdView>, TiffError>
    decreases limit,
{
    if limit == 0 {
        Err(TiffError::EndlessIfdChain)
    } else {
        match spec_ifd(bytes, offset as int, e, version) {
            Err(error) => Err(error),
            Ok(ifd) => match ifd.next_ifd_offset {
                None => Ok(seq![ifd]),
                Some(next) => spec_prepend(
                    seq![ifd],
                    spec_ifd_chain(bytes, next, e, version, (limit - 1) as nat),
                ),
            },
        }
    }
}

/// The TIFF stream that starts at `pos`: its header, and the chain of its
/// directories from the offset that the header names. Offsets count from the
/// start of `bytes`. A chain of directories that does not end within as many
/// links as the stream has bytes passes some offset twice and so never ends:
/// it is refused.
pub open spec fn spec_tiff(bytes: Seq<u8>, pos: int) -> Result<TiffView, TiffError> {
    match spec_header(bytes, pos) {
        Err(error) => Err(error),
        Ok(header) => match spec_ifd_chain(
            bytes,
            header.first_ifd_offset,
            header.endianness,
            header.version,
            bytes.len(),
        ) {
            Err(error) => Err(error),
            Ok(ifds) => Ok(TiffView { header, ifds }),
        },
    }
}

/// The entries of a directory as far as they were read, or why reading failed.
pub open spec fn spec_entries_read(r: Result<Vec<TiffIfdEntry>, TiffError>) -> Result<
    Seq<TiffIfdEntryView>,
    TiffError,
> {
    match r {
        Ok(entries) => Ok(spec_entry_views(entries@)),
        Err(error) => Err(error),
    }
}

/// Once an entry has failed, the directory fails in the same way however
/// many entries are asked for.
proof fn lemma_entries_failure_stays(
    bytes: Seq<u8>,
    pos: int,
    e: Endianness,
    slot: nat,
    i: nat,
    n: nat,
)
    requires
        i <= n,
        spec_entries(bytes, pos, e, slot, i) is Err,
    ensures
        spec_entries(bytes, pos, e, slot, n) == spec_entries(bytes, pos, e, slot, i),
    decreases n,
{
    if i < n {
        lemma_entries_failure_stays(bytes, pos, e, slot, i, (n - 1) as nat);
    }
}

/// What reading one more entry does to a directory of which `i` entries
/// were read: it grows by that entry, or fails for good.
proof fn lemma_entries_next(
    bytes: Seq<u8>,
    first: int,
    e: Endianness,
    slot: nat,
    i: nat,
    n: nat,
    entries: Seq<TiffIfdEntryView>,
    read: Result<TiffIfdEntryView, TiffError>,
)
    requires
        i < n,
        spec_entries(bytes, first, e, slot, i) == Ok::<Seq<TiffIfdEntryView>, TiffError>(entries),
        spec_entry(bytes, spec_entry_position(first, slot, i), e, slot) == read,
    ensures
        match read {
            Ok(entry) => spec_entries(bytes, first, e, slot, i + 1) == Ok::<
                Seq<TiffIfdEntryView>,
                TiffError,
            >(entries.push(entry)),
            Err(error) => spec_entries(bytes, first, e, slot, n) == Err::<
                Seq<TiffIfdEntryView>,
                TiffError,
            >(error),
        },
{
    assert(spec_entries(bytes, first, e, slot, i + 1) == match read {
        Ok(entry) => Ok::<Seq<TiffIfdEntryView>, TiffError>(entries.push(entry)),
        Err(error) => Err(error),
    });
    if read is Err {
        lemma_entries_failure_stays(bytes, first, e, slot, i + 1, n);
    }
}

/// Each entry starts where the one before it ends.
proof fn lemma_entry_position_step(first: int, slot: nat, i: nat)
    ensures
        spec_entry_position(first, slot, 0) == first,
        spec_entry_position(first, slot, i + 1) == spec_entry_position(first, slot, i) + 8 + slot,
{
    assert((i + 1) * (8 + slot) == i * (8 + slot) + 8 + slot) by (nonlinear_arith);
}

/// Reads the directory entry at the reader's position. On success the
/// reader stands behind the entry's record.
fn read_entry(reader: &mut ByteReader, endianness: Endianness, value_offset_size: usize) -> (r:
    Result<TiffIfdEntry, TiffError>)
    requires
        value_offset_size == 4 || value_offset_size == 8,
    ensures
        final(reader).spec_bytes() == old(reader).spec_bytes(),
        view_result(r) == spec_entry(
            old(reader).spec_bytes(),
            old(reader).spec_position(),
            endianness,
            value_offset_size as nat,
        ),
        r is Ok ==> final(reader).spec_position() == old(reader).spec_position() + 8
            + value_offset_size,
{
    reveal(spec_entry);
    let record: &[u8] = match reader.read_exact(8 + value_offset_size) {
        Some(record) => record,
        None => return Err(TiffError::UnexpectedEof),
    };
    let next_entry: u64 = reader.position();
    let tag: u16 = endianness.u16_from_bytes([record[0], record[1]]);
    let code: u16 = endianness.u16_from_bytes([record[2], record[3]]);
    let count: u32 = endianness.u32_from_bytes([record[4], record[5], record[6], record[7]]);
    proof {
        assert([record[0], record[1]]@ =~= record@.subrange(0, 2));
        assert([record[2], record[3]]@ =~= record@.subrange(2, 4));
        assert([record[4], record[5], record[6], record[7]]@ =~= record@.subrange(4, 8));
    }
    let field_type: TiffFieldType = match TiffFieldType::from_u16(code) {
        Some(field_type) => field_type,
        None => return Err(TiffError::InvalidFieldType),
    };
    let item_size: u64 = field_type.size() as u64;
    assert(item_size * count <= 8 * 0xFFFF_FFFF) by (nonlinear_arith)
        requires
            item_size <= 8,
            count <= 0xFFFF_FFFF,
    ;
    let size: u64 = item_size * count as u64;
    let field_value: TiffFieldValue = if size <= value_offset_size as u64 {
        // The field value is stored directly in the IFD entry
        let stored: &[u8] = slice_subrange(record, 8, 8 + size as usize);
        TiffFieldValue::from_bytes(stored, endianness, field_type)?
    } else {
        // The field value is stored in a separate location.
        // We need to seek to that location and read the value from there.
        let value_offset: u64 = if value_offset_size == 4 {
            let slot: [u8; 4] = [record[8], record[9], record[10], record[11]];
            assert(slot@ =~= record@.subrange(8, 12));
            endianness.u32_from_bytes(slot) as u64
        } else {
            let slot: [u8; 8] = [
                record[8],
                record[9],
                record[10],
                record[11],
                record[12],
                record[13],
                record[14],
                record[15],
            ];
            assert(slot@ =~= record@.subrange(8, 16));
            endianness.u64_from_bytes(slot)
        };
        reader.seek(value_offset);
        let read: Result<TiffFieldValue, TiffError> = TiffFieldValue::from_reader(
            reader,
            endianness,
            field_type,
            count,
        );
        reader.seek(next_entry);
        read?
    };
    Ok(TiffIfdEntry { tag, field_type, count, field_value })
}

/// Reads `entry_count` directory entries from the reader's position on.
fn read_entries(
    reader: &mut ByteReader,
    endianness: Endianness,
    value_offset_size: usize,
    entry_count: u16,
) -> (r: Result<Vec<TiffIfdEntry>, TiffError>)
    requires
        value_offset_size == 4 || value_offset_size == 8,
    ensures
        final(reader).spec_bytes() == old(reader).spec_bytes(),
        spec_entries_read(r) == spec_entries(
            old(reader).spec_bytes(),
            old(reader).spec_position(),
            endianness,
            value_offset_size as nat,
            entry_count as nat,
        ),
        r is Ok ==> final(reader).spec_position() == spec_entry_position(
            old(reader).spec_position(),
            value_offset_size as nat,
            entry_count as nat,
        ),
        r is Ok ==> r.unwrap().len() == entry_count,
{
    let ghost bytes = reader.spec_bytes();
    let ghost first = reader.spec_position();
    let ghost slot = value_offset_size as nat;
    let mut entries: Vec<TiffIfdEntry> = Vec::new();
    let mut i: u16 = 0;
    proof {
        lemma_entry_position_step(first, slot, 0);
        assert(spec_entry_views(entries@) =~= Seq::empty());
    }
    while i < entry_count
        invariant
            reader.spec_bytes() == bytes,
            bytes == old(reader).spec_bytes(),
            first == old(reader).spec_position(),
            value_offset_size == 4 || value_offset_size == 8,
            slot == value_offset_size,
            i <= entry_count,
            entries.len() == i,
            reader.spec_position() == spec_entry_position(first, slot, i as nat),
            spec_entries(bytes, first, endianness, slot, i as nat) == Ok::<
                Seq<TiffIfdEntryView>,
                TiffError,
            >(spec_entry_views(entries@)),
        decreases entry_count - i,
    {
        let read: Result<TiffIfdEntry, TiffError> = read_entry(
            reader,
            endianness,
            value_offset_size,
        );
        proof {
            lemma_entry_position_step(first, slot, i as nat);
            lemma_entries_next(
                bytes,
                first,
                endianness,
                slot,
                i as nat,
                entry_count as nat,
                spec_entry_views(entries@),
                view_result(read),
            );
        }
        let entry: TiffIfdEntry = read?;
        proof {
            assert(spec_entry_views(entries@.push(entry)) =~= spec_entry_views(entries@).push(
                entry@,
            ));
        }
        entries.push(entry);
        i += 1;
    }
    Ok(entries)
}

/// Reads the directory at the reader's position. After a failure the
/// reader stands where the failure was met.
fn read_ifd(reader: &mut ByteReader, endianness: Endianness, version: u16) -> (r: Result<
    TiffIfd,
    TiffError,
>)
    ensures
        final(reader).spec_bytes() == old(reader).spec_bytes(),
        view_result(r) == spec_ifd(
            old(reader).spec_bytes(),
            old(reader).spec_position(),
            endianness,
            version,
        ),
        r is Ok ==> final(reader).spec_position() == spec_entry_position(
            old(reader).spec_position() + 2,
            spec_value_offset_size(version).unwrap(),
            r.unwrap()@.entries.len(),
        ) + 4,
{
    reveal(spec_ifd);
    let value_offset_size: usize = match version {
        42 => 4,  // 32-bit offset
        43 => 8,  // 64-bit offset
        _ => return Err(TiffError::UnsupportedVersion),
    };
    let entry_count: u16 = read_u16(reader, endianness)?;
    if entry_count < 1 {
        return Err(TiffError::InvalidEntryCount);
    }
    let entries: Vec<TiffIfdEntry> = read_entries(
        reader,
        endianness,
        value_offset_size,
        entry_count,
    )?;
    let next_ifd_offset: u32 = read_u32(reader, endianness)?;
    let next_ifd_offset: Option<u32> = if next_ifd_offset == 0 {
        None
    } else {
        Some(next_ifd_offset)
    };
    Ok(TiffIfd { entries, next_ifd_offset })
}

impl TiffIfd {
    /// Reads the directory at the reader's position, from a stream of the
    /// given byte order and version. On success the reader stands behind the
    /// offset of the next directory; after a failure it stands where it
    /// stood.
    pub fn new(reader: &mut ByteReader, endianness: Endianness, version: u16) -> (r: Result<
        TiffIfd,
        TiffError,
    >)
        ensures
            final(reader).spec_bytes() == old(reader).spec_bytes(),
            view_result(r) == spec_ifd(
                old(reader).spec_bytes(),
                old(reader).spec_position(),
                endianness,
                version,
            ),
            final(reader).spec_position() == if r is Ok {
                spec_entry_position(
                    old(reader).spec_position() + 2,
                    spec_value_offset_size(version).unwrap(),
                    r.unwrap()@.entries.len(),
                ) + 4
            } else {
                old(reader).spec_position()
            },
    {
        let start: u64 = reader.position();
        let read: Result<TiffIfd, TiffError> = read_ifd(reader, endianness, version);
        if read.is_err() {
            reader.seek(start);
        }
        read
    }
}

/// Reads a TIFF stream from the reader's position on. After a failure the
/// reader stands where the failure was met.
fn read_tiff(reader: &mut ByteReader) -> (r: Result<Tiff, TiffError>)
    ensures
        final(reader).spec_bytes() == old(reader).spec_bytes(),
        view_result(r) == spec_tiff(old(reader).spec_bytes(), old(reader).spec_position()),
        r is Ok ==> final(reader).spec_position() == r.unwrap()@.end_of_last_ifd(),
{
    let ghost bytes = reader.spec_bytes();
    let header: TiffHeader = read_header(reader)?;

    let mut ifds: Vec<TiffIfd> = Vec::new();
    let mut ifd_offset: u32 = header.first_ifd_offset;
    let mut limit: usize = reader.len();
    proof {
        assert(spec_ifd_views(ifds@) =~= Seq::empty());
        let chain = spec_ifd_chain(
            bytes,
            ifd_offset,
            header.endianness,
            header.version,
            limit as nat,
        );
        if let Ok(all) = chain {
            assert(Seq::<TiffIfdView>::empty() + all =~= all);
        }
    }
    loop
        invariant
            reader.spec_bytes() == bytes,
            bytes == old(reader).spec_bytes(),
            spec_prepend(
                spec_ifd_views(ifds@),
                spec_ifd_chain(
                    bytes,
                    ifd_offset,
                    header.endianness,
                    header.version,
                    limit as nat,
                ),
            ) == spec_ifd_chain(
                bytes,
                header.first_ifd_offset,
                header.endianness,
                header.version,
                bytes.len(),
            ),
            spec_header(bytes, old(reader).spec_position()) == Ok::<TiffHeader, TiffError>(
                header,
            ),
            ifds.len() == 0 ==> ifd_offset == header.first_ifd_offset,
            ifds.len() > 0 ==> ifds[ifds.len() - 1].next_ifd_offset == Some(ifd_offset),
        decreases limit,
    {
        if limit == 0 {
            return Err(TiffError::EndlessIfdChain);
        }
        reader.seek(ifd_offset as u64);
        let ifd: TiffIfd = read_ifd(reader, header.endianness, header.version)?;
        let next: Option<u32> = ifd.next_ifd_offset;
        proof {
            let before = spec_ifd_views(ifds@);
            let after = spec_ifd_views(ifds@.push(ifd));
            assert(after =~= before.push(ifd@));
            assert(before + seq![ifd@] =~= after);
            if let Some(next_offset) = next {
                let rest = spec_ifd_chain(
                    bytes,
                    next_offset,
                    header.endianness,
                    header.version,
                    (limit - 1) as nat,
                );
                if let Ok(more) = rest {
                    assert(before + (seq![ifd@] + more) =~= after + more);
                }
            }
        }
        ifds.push(ifd);
        limit -= 1;
        match next {
            None => {
                let tiff = Tiff { header, ifds };
                proof {
                    let count = tiff.ifds.len() as int;
                    assert(tiff@.ifds[count - 1] == tiff.ifds[count - 1]@);
                    assert(tiff@.last_ifd_offset() == ifd_offset) by {
                        if count > 1 {
                            assert(tiff@.ifds[count - 2] == tiff.ifds[count - 2]@);
                        }
                    }
                }
                return Ok(tiff);
            },
            Some(next_offset) => {
                ifd_offset = next_offset;
            },
        }
    }
}

impl Tiff {
    /// Reads a TIFF stream: the header at the reader's position, then the
    /// chain of directories, whose offsets count from the start of the
    /// reader's bytes. On success the reader stands behind the last
    /// directory; after a failure it stands where it stood.
    pub fn from_reader(reader: &mut ByteReader) -> (r: Result<Tiff, TiffError>)
        ensures
            final(reader).spec_bytes() == old(reader).spec_bytes(),
            view_result(r) == spec_tiff(old(reader).spec_bytes(), old(reader).spec_position()),
            final(reader).spec_position() == if r is Ok {
                r.unwrap()@.end_of_last_ifd()
            } else {
                old(reader).spec_position()
            },
    {
        let start: u64 = reader.position();
        let read: Result<Tiff, TiffError> = read_tiff(reader);
        if read.is_err() {
            reader.seek(start);
        }
        read
    }
}

/// Whether the entry of index `i` is the first of `entries` with the tag `tag`.
pub open spec fn spec_is_first_with_tag(entries: Seq<TiffIfdEntryView>, tag: u16, i: int) -> bool {
    &&& 0 <= i < entries.len()
    &&& entries[i].tag == tag
    &&& forall|j: int| 0 <= j < i ==> entries[j].tag != tag
}

impl TiffIfdView {
    /// Whether the directory has an entry, and each of its entries is well
    /// formed.
    pub open spec fn well_formed(self) -> bool {
        &&& self.entries.len() >= 1
        &&& forall|k: int|
            0 <= k < self.entries.len() ==> (#[trigger] self.entries[k]).well_formed()
    }

    /// The first entry with the tag `tag`, if there is one.
    pub open spec fn entry_with_tag(self, tag: u16) -> Option<TiffIfdEntryView> {
        if exists|i: int| spec_is_first_with_tag(self.entries, tag, i) {
            Some(self.entries[choose|i: int| spec_is_first_with_tag(self.entries, tag, i)])
        } else {
            None
        }
    }
}

impl TiffView {
    /// The offset of the last directory of the stream.
    pub open spec fn last_ifd_offset(self) -> int {
        if self.ifds.len() <= 1 {
            self.header.first_ifd_offset as int
        } else {
            self.ifds[self.ifds.len() - 2].next_ifd_offset.unwrap() as int
        }
    }

    /// The offset behind the last directory of the stream.
    pub open spec fn end_of_last_ifd(self) -> int {
        spec_entry_position(
            self.last_ifd_offset() + 2,
            spec_value_offset_size(self.header.version).unwrap(),
            self.ifds.last().entries.len(),
        ) + 4
    }

    /// Whether the stream has a directory, and each of its directories is
    /// well formed.
    pub open spec fn well_formed(self) -> bool {
        &&& self.ifds.len() >= 1
        &&& forall|i: int| 0 <= i < self.ifds.len() ==> (#[trigger] self.ifds[i]).well_formed()
    }
}

impl TiffIfdEntryView {
    /// The items of a LONG value.
    pub open spec fn as_long(self) -> Option<Seq<u32>> {
        match self.field_value {
            TiffFieldValueView::LONG(data) => Some(data),
            _ => None,
        }
    }

    /// The bytes of an UNDEFINED value.
    pub open spec fn as_undefined(self) -> Option<Seq<u8>> {
        match self.field_value {
            TiffFieldValueView::UNDEFINED(data) => Some(data),
            _ => None,
        }
    }

    /// Whether the value has the type and the number of items that the
    /// entry announces.
    pub open spec fn well_formed(self) -> bool {
        &&& self.field_value.field_type() == self.field_type
        &&& self.field_value.item_count() == self.count
    }
}

impl TiffIfd {
    /// The first entry with the tag `tag`, if there is one.
    pub fn entry_with_tag(&self, tag: u16) -> (r: Option<&TiffIfdEntry>)
        ensures
            match r {
                Some(entry) => self@.entry_with_tag(tag) == Some(entry@),
                None => self@.entry_with_tag(tag) is None,
            },
            r is None <==> forall|i: int| 0 <= i < self.entries.len() ==> self.entries[i].tag != tag,
    {
        let mut i: usize = 0;
        while i < self.entries.len()
            invariant
                i <= self.entries.len(),
                forall|j: int| 0 <= j < i ==> self.entries[j].tag != tag,
            decreases self.entries.len() - i,
        {
            if self.entries[i].tag == tag {
                proof {
                    let entries = self@.entries;
                    assert(forall|j: int|
                        0 <= j < entries.len() ==> entries[j] == #[trigger] self.entries[j]@);
                    assert(spec_is_first_with_tag(entries, tag, i as int));
                    let chosen = choose|k: int| spec_is_first_with_tag(entries, tag, k);
                    assert(chosen == i);
                }
                return Some(&self.entries[i]);
            }
            i += 1;
        }
        proof {
            let entries = self@.entries;
            assert(forall|j: int|
                0 <= j < entries.len() ==> entries[j] == #[trigger] self.entries[j]@);
        }
        None
    }
}

impl TiffIfdEntry {
    /// The number of bytes that the value takes in a stream.
    pub fn field_value_size(&self) -> (n: usize)
        requires
            self@.field_value.size() <= usize::MAX,
        ensures
            n == self@.field_value.size(),
    {
        self.field_value.size()
    }

    /// The items of the value, if it is a LONG value.
    pub fn field_value_as_long(&self) -> (r: Option<&[u32]>)
        ensures
            match r {
                Some(data) => self@.as_long() == Some(data@),
                None => self@.as_long() is None,
            },
    {
        if let TiffFieldValue::LONG(ref data) = self.field_value {
            Some(data.as_slice())
        } else {
            None
        }
    }

    /// The bytes of the value, if it is an UNDEFINED value.
    pub fn field_value_as_undefined(&self) -> (r: Option<&[u8]>)
        ensures
            match r {
                Some(data) => self@.as_undefined() == Some(data@),
                None => self@.as_undefined() is None,
            },
    {
        if let TiffFieldValue::UNDEFINED(ref data) = self.field_value {
            Some(data.as_slice())
        } else {
            None
        }
    }
}

/// An entry that was read holds what it announces: a value of its field
/// type with as many items as its count says.
pub proof fn lemma_entry_well_formed(bytes: Seq<u8>, pos: int, e: Endianness, slot: nat)
    requires
        spec_entry(bytes, pos, e, slot) is Ok,
    ensures
        spec_entry(bytes, pos, e, slot).unwrap().well_formed(),
{
    reveal(spec_entry);
    let record = spec_bytes_at(bytes, pos, 8 + slot as int).unwrap();
    let count = e.spec_u32(record.subrange(4, 8));
    let field_type = TiffFieldType::spec_from_u16(e.spec_u16(record.subrange(2, 4))).unwrap();
    let width = field_type.spec_size();
    let size = width * count;
    let raw = if size <= slot {
        record.subrange(8, 8 + size as int)
    } else {
        spec_bytes_at(
            bytes,
            spec_value_offset(record.subrange(8, 8 + slot as int), e) as int,
            size as int,
        ).unwrap()
    };
    lemma_value_shape(raw, e, field_type);
    assert(raw.len() == size);
    assert((width * count) as nat / width == count) by (nonlinear_arith)
        requires
            width > 0,
    ;
}

/// The entries of a directory that was read are as many as were asked for,
/// and each holds what it announces.
pub proof fn lemma_entries_well_formed(
    bytes: Seq<u8>,
    pos: int,
    e: Endianness,
    slot: nat,
    n: nat,
)
    requires
        spec_entries(bytes, pos, e, slot, n) is Ok,
    ensures
        spec_entries(bytes, pos, e, slot, n).unwrap().len() == n,
        forall|k: int|
            0 <= k < n ==> (#[trigger] spec_entries(bytes, pos, e, slot, n).unwrap()[k])
                .well_formed(),
    decreases n,
{
    if n > 0 {
        lemma_entries_well_formed(bytes, pos, e, slot, (n - 1) as nat);
        lemma_entry_well_formed(bytes, spec_entry_position(pos, slot, (n - 1) as nat), e, slot);
    }
}

/// A directory that was read is well formed.
pub proof fn lemma_ifd_well_formed(bytes: Seq<u8>, pos: int, e: Endianness, version: u16)
    requires
        spec_ifd(bytes, pos, e, version) is Ok,
    ensures
        spec_ifd(bytes, pos, e, version).unwrap().well_formed(),
{
    reveal(spec_ifd);
    let slot = spec_value_offset_size(version).unwrap();
    let entry_count = spec_u16_at(bytes, pos, e).unwrap();
    lemma_entries_well_formed(bytes, pos + 2, e, slot, entry_count as nat);
}

/// A chain of directories that was read has a directory, and each of its
/// directories is well formed.
pub proof fn lemma_ifd_chain_well_formed(
    bytes: Seq<u8>,
    offset: u32,
    e: Endianness,
    version: u16,
    limit: nat,
)
    requires
        spec_ifd_chain(bytes, offset, e, version, limit) is Ok,
    ensures
        spec_ifd_chain(bytes, offset, e, version, limit).unwrap().len() >= 1,
        forall|i: int|
            0 <= i < spec_ifd_chain(bytes, offset, e, version, limit).unwrap().len() ==> (
            #[trigger] spec_ifd_chain(bytes, offset, e, version, limit).unwrap()[i]).well_formed(),
    decreases limit,
{
    lemma_ifd_well_formed(bytes, offset as int, e, version);
    let ifd = spec_ifd(bytes, offset as int, e, version).unwrap();
    if let Some(next) = ifd.next_ifd_offset {
        lemma_ifd_chain_well_formed(bytes, next, e, version, (limit - 1) as nat);
    }
}

/// A stream that was read is well formed: it has at least one directory,
/// each directory has at least one entry, and each entry holds a value of
/// its field type with as many items as its count says.
pub proof fn lemma_tiff_well_formed(bytes: Seq<u8>, pos: int)
    requires
        spec_tiff(bytes, pos) is Ok,
    ensures
        spec_tiff(bytes, pos).unwrap().well_formed(),
{
    let header = spec_header(bytes, pos).unwrap();
    lemma_ifd_chain_well_formed(
        bytes,
        header.first_ifd_offset,
        header.endianness,
        header.version,
        bytes.len(),
    );
}

} // verus!
