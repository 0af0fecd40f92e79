//! The byte layout of TIFF values and of the smallest TIFF streams, as
//! specification functions, and the proofs that the reader gets back from
//! such bytes exactly what was laid down in them.

use vstd::prelude::*;
use vstd::utf8::{encode_utf8, encode_utf8_decode_utf8, encode_utf8_valid_utf8};

use crate::endian::{
    lemma_u16_round_trip, lemma_u32_round_trip, lemma_u64_round_trip, spec_i16_of, spec_i32_of,
    spec_i8_of, Endianness,
};
use crate::error::TiffError;
use crate::reader::{spec_bytes_at, spec_u16_at, spec_u32_at};
use crate::tiff::{
    spec_entries, spec_entry, spec_entry_position, spec_header, spec_ifd, spec_ifd_chain,
    spec_tiff, spec_value_offset, spec_value_offset_size, TiffFieldType, TiffFieldValueView,
    TiffHeader, TiffIfdEntryView, TiffIfdView, TiffView,
};
use crate::value::{
    spec_i16_items, spec_i32_items, spec_i8_items, spec_rational_items, spec_srational_items,
    spec_u16_item, spec_u16_items, spec_u32_item, spec_u32_items, spec_u64_item, spec_u64_items,
    spec_value,
};

verus! {

/// The byte whose signed reading is `v`.
pub open spec fn spec_u8_of(v: i8) -> u8 {
    if v >= 0 {
        v as u8
    } else {
        (v as int + 0x100) as u8
    }
}

/// The 16 bits whose signed reading is `v`.
pub open spec fn spec_u16_of(v: i16) -> u16 {
    if v >= 0 {
        v as u16
    } else {
        (v as int + 0x1_0000) as u16
    }
}

/// The 32 bits whose signed reading is `v`.
pub open spec fn spec_u32_of(v: i32) -> u32 {
    if v >= 0 {
        v as u32
    } else {
        (v as int + 0x1_0000_0000) as u32
    }
}

/// The bytes that stand for the 16-bit items `s`, one after the other.
pub open spec fn spec_u16s_bytes(s: Seq<u16>, e: Endianness) -> Seq<u8> {
    Seq::new(2 * s.len(), |k: int| e.spec_u16_bytes(s[k / 2])[k % 2])
}

/// The bytes that stand for the 32-bit items `s`, one after the other.
pub open spec fn spec_u32s_bytes(s: Seq<u32>, e: Endianness) -> Seq<u8> {
    Seq::new(4 * s.len(), |k: int| e.spec_u32_bytes(s[k / 4])[k % 4])
}

/// The bytes that stand for the 64-bit items `s`, one after the other.
pub open spec fn spec_u64s_bytes(s: Seq<u64>, e: Endianness) -> Seq<u8> {
    Seq::new(8 * s.len(), |k: int| e.spec_u64_bytes(s[k / 8])[k % 8])
}

/// Numerators and denominators of `s` in one row.
pub open spec fn spec_rational_parts(s: Seq<(u32, u32)>) -> Seq<u32> {
    Seq::new(
        2 * s.len(),
        |k: int|
            if k % 2 == 0 {
                s[k / 2].0
            } else {
                s[k / 2].1
            },
    )
}

/// Numerators and denominators of `s` in one row, as they are stored.
pub open spec fn spec_srational_parts(s: Seq<(i32, i32)>) -> Seq<u32> {
    Seq::new(
        2 * s.len(),
        |k: int|
            if k % 2 == 0 {
                spec_u32_of(s[k / 2].0)
            } else {
                spec_u32_of(s[k / 2].1)
            },
    )
}

/// The bytes that a value takes in a stream of byte order `e`.
#[verifier::opaque]
pub open spec fn spec_value_bytes(v: TiffFieldValueView, e: Endianness) -> Seq<u8> {
    match v {
        TiffFieldValueView::BYTE(s) => s,
        TiffFieldValueView::ASCII(s) => encode_utf8(s),
        TiffFieldValueView::SHORT(s) => spec_u16s_bytes(s, e),
        TiffFieldValueView::LONG(s) => spec_u32s_bytes(s, e),
        TiffFieldValueView::RATIONAL(s) => spec_u32s_bytes(spec_rational_parts(s), e),
        TiffFieldValueView::SBYTE(s) => Seq::new(s.len(), |k: int| spec_u8_of(s[k])),
        TiffFieldValueView::UNDEFINED(s) => s,
        TiffFieldValueView::SSHORT(s) => spec_u16s_bytes(
            Seq::new(s.len(), |k: int| spec_u16_of(s[k])),
            e,
        ),
        TiffFieldValueView::SLONG(s) => spec_u32s_bytes(
            Seq::new(s.len(), |k: int| spec_u32_of(s[k])),
            e,
        ),
        TiffFieldValueView::SRATIONAL(s) => spec_u32s_bytes(spec_srational_parts(s), e),
        TiffFieldValueView::FLOAT(s) => spec_u32s_bytes(s, e),
        TiffFieldValueView::DOUBLE(s) => spec_u64s_bytes(s, e),
    }
}

/// The signed reading of the bits that were laid down for a signed integer
/// is that integer.
pub proof fn lemma_signed_round_trip(a: i8, b: i16, c: i32)
    ensures
        spec_i8_of(spec_u8_of(a)) == a,
        spec_i16_of(spec_u16_of(b)) == b,
        spec_i32_of(spec_u32_of(c)) == c,
{
}

/// The 16-bit item of index `i` in the bytes that were laid down for `s`
/// is `s[i]`.
pub proof fn lemma_u16_item_round_trip(s: Seq<u16>, e: Endianness, i: int)
    requires
        0 <= i < s.len(),
    ensures
        spec_u16_item(spec_u16s_bytes(s, e), e, i) == s[i],
{
    lemma_u16_round_trip(e, s[i]);
    assert(spec_u16s_bytes(s, e).subrange(2 * i, 2 * i + 2) =~= e.spec_u16_bytes(s[i]));
}

/// The 32-bit item of index `i` in the bytes that were laid down for `s`
/// is `s[i]`.
pub proof fn lemma_u32_item_round_trip(s: Seq<u32>, e: Endianness, i: int)
    requires
        0 <= i < s.len(),
    ensures
        spec_u32_item(spec_u32s_bytes(s, e), e, i) == s[i],
{
    lemma_u32_round_trip(e, s[i]);
    assert(spec_u32s_bytes(s, e).subrange(4 * i, 4 * i + 4) =~= e.spec_u32_bytes(s[i]));
}

/// The 64-bit item of index `i` in the bytes that were laid down for `s`
/// is `s[i]`.
pub proof fn lemma_u64_item_round_trip(s: Seq<u64>, e: Endianness, i: int)
    requires
        0 <= i < s.len(),
    ensures
        spec_u64_item(spec_u64s_bytes(s, e), e, i) == s[i],
{
    lemma_u64_round_trip(e, s[i]);
    assert(spec_u64s_bytes(s, e).subrange(8 * i, 8 * i + 8) =~= e.spec_u64_bytes(s[i]));
}

/// The 16-bit items of a row of bytes that was laid down for `s` are `s`.
pub proof fn lemma_u16_items_round_trip(s: Seq<u16>, e: Endianness)
    ensures
        spec_u16_items(spec_u16s_bytes(s, e), e) == s,
{
    let bytes = spec_u16s_bytes(s, e);
    assert forall|i: int| 0 <= i < s.len() implies spec_u16_item(bytes, e, i) == s[i] by {
        lemma_u16_item_round_trip(s, e, i);
    }
    assert(spec_u16_items(bytes, e) =~= s);
}

/// The 32-bit items of a row of bytes that was laid down for `s` are `s`.
pub proof fn lemma_u32_items_round_trip(s: Seq<u32>, e: Endianness)
    ensures
        spec_u32_items(spec_u32s_bytes(s, e), e) == s,
{
    let bytes = spec_u32s_bytes(s, e);
    assert forall|i: int| 0 <= i < s.len() implies spec_u32_item(bytes, e, i) == s[i] by {
        lemma_u32_item_round_trip(s, e, i);
    }
    assert(spec_u32_items(bytes, e) =~= s);
}

/// The 64-bit items of a row of bytes that was laid down for `s` are `s`.
pub proof fn lemma_u64_items_round_trip(s: Seq<u64>, e: Endianness)
    ensures
        spec_u64_items(spec_u64s_bytes(s, e), e) == s,
{
    let bytes = spec_u64s_bytes(s, e);
    assert forall|i: int| 0 <= i < s.len() implies spec_u64_item(bytes, e, i) == s[i] by {
        lemma_u64_item_round_trip(s, e, i);
    }
    assert(spec_u64_items(bytes, e) =~= s);
}

/// The signed bytes of a row of bytes that was laid down for `s` are `s`.
pub proof fn lemma_i8_items_round_trip(s: Seq<i8>)
    ensures
        spec_i8_items(Seq::new(s.len(), |k: int| spec_u8_of(s[k]))) == s,
{
    let bytes = Seq::new(s.len(), |k: int| spec_u8_of(s[k]));
    assert forall|i: int| 0 <= i < s.len() implies spec_i8_of(bytes[i]) == s[i] by {
        lemma_signed_round_trip(s[i], 0, 0);
    }
    assert(spec_i8_items(bytes) =~= s);
}

/// The signed 16-bit items of a row of bytes that was laid down for `s`
/// are `s`.
pub proof fn lemma_i16_items_round_trip(s: Seq<i16>, e: Endianness)
    ensures
        spec_i16_items(spec_u16s_bytes(Seq::new(s.len(), |k: int| spec_u16_of(s[k])), e), e) == s,
{
    let unsigned = Seq::new(s.len(), |k: int| spec_u16_of(s[k]));
    let bytes = spec_u16s_bytes(unsigned, e);
    assert forall|i: int| 0 <= i < s.len() implies spec_i16_of(spec_u16_item(bytes, e, i))
        == s[i] by {
        lemma_u16_item_round_trip(unsigned, e, i);
        lemma_signed_round_trip(0, s[i], 0);
    }
    assert(spec_i16_items(bytes, e) =~= s);
}

/// The signed 32-bit items of a row of bytes that was laid down for `s`
/// are `s`.
pub proof fn lemma_i32_items_round_trip(s: Seq<i32>, e: Endianness)
    ensures
        spec_i32_items(spec_u32s_bytes(Seq::new(s.len(), |k: int| spec_u32_of(s[k])), e), e) == s,
{
    let unsigned = Seq::new(s.len(), |k: int| spec_u32_of(s[k]));
    let bytes = spec_u32s_bytes(unsigned, e);
    assert forall|i: int| 0 <= i < s.len() implies spec_i32_of(spec_u32_item(bytes, e, i))
        == s[i] by {
        lemma_u32_item_round_trip(unsigned, e, i);
        lemma_signed_round_trip(0, 0, s[i]);
    }
    assert(spec_i32_items(bytes, e) =~= s);
}

/// The fractions of a row of bytes that was laid down for `s` are `s`.
pub proof fn lemma_rational_items_round_trip(s: Seq<(u32, u32)>, e: Endianness)
    ensures
        spec_rational_items(spec_u32s_bytes(spec_rational_parts(s), e), e) == s,
{
    let parts = spec_rational_parts(s);
    let bytes = spec_u32s_bytes(parts, e);
    assert forall|i: int| 0 <= i < s.len() implies (
        spec_u32_item(bytes, e, 2 * i),
        spec_u32_item(bytes, e, 2 * i + 1),
    ) == s[i] by {
        lemma_u32_item_round_trip(parts, e, 2 * i);
        lemma_u32_item_round_trip(parts, e, 2 * i + 1);
        assert(parts[2 * i] == s[i].0);
        assert(parts[2 * i + 1] == s[i].1);
    }
    assert(bytes.len() / 8 == s.len());
    assert(spec_rational_items(bytes, e) =~= s);
}

/// The signed fractions of a row of bytes that was laid down for `s`
/// are `s`.
pub proof fn lemma_srational_items_round_trip(s: Seq<(i32, i32)>, e: Endianness)
    ensures
        spec_srational_items(spec_u32s_bytes(spec_srational_parts(s), e), e) == s,
{
    let parts = spec_srational_parts(s);
    let bytes = spec_u32s_bytes(parts, e);
    assert forall|i: int| 0 <= i < s.len() implies (
        spec_i32_of(spec_u32_item(bytes, e, 2 * i)),
        spec_i32_of(spec_u32_item(bytes, e, 2 * i + 1)),
    ) == s[i] by {
        lemma_u32_item_round_trip(parts, e, 2 * i);
        lemma_u32_item_round_trip(parts, e, 2 * i + 1);
        assert(parts[2 * i] == spec_u32_of(s[i].0));
        assert(parts[2 * i + 1] == spec_u32_of(s[i].1));
        lemma_signed_round_trip(0, 0, s[i].0);
        lemma_signed_round_trip(0, 0, s[i].1);
    }
    assert(bytes.len() / 8 == s.len());
    assert(spec_srational_items(bytes, e) =~= s);
}

/// Round trip of values: the bytes that a value takes in a stream read back
/// as that value, item for item, for each of the twelve field types and in
/// either byte order. The bytes are as many as the items take.
pub proof fn lemma_value_round_trip(v: TiffFieldValueView, e: Endianness)
    ensures
        spec_value(spec_value_bytes(v, e), e, v.field_type()) == Ok::<
            TiffFieldValueView,
            TiffError,
        >(v),
        spec_value_bytes(v, e).len() == v.size(),
{
    reveal(spec_value_bytes);
    let width = v.field_type().spec_size();
    assert(v.size() == v.item_count() * width);
    match v {
        TiffFieldValueView::BYTE(s) => {
            assert(width == 1);
        },
        TiffFieldValueView::UNDEFINED(s) => {
            assert(width == 1);
        },
        TiffFieldValueView::ASCII(s) => {
            assert(width == 1);
            encode_utf8_valid_utf8(s);
            encode_utf8_decode_utf8(s);
        },
        TiffFieldValueView::SHORT(s) => {
            assert(width == 2);
            lemma_u16_items_round_trip(s, e);
        },
        TiffFieldValueView::LONG(s) => {
            assert(width == 4);
            lemma_u32_items_round_trip(s, e);
        },
        TiffFieldValueView::FLOAT(s) => {
            assert(width == 4);
            lemma_u32_items_round_trip(s, e);
        },
        TiffFieldValueView::DOUBLE(s) => {
            assert(width == 8);
            lemma_u64_items_round_trip(s, e);
        },
        TiffFieldValueView::SBYTE(s) => {
            assert(width == 1);
            lemma_i8_items_round_trip(s);
        },
        TiffFieldValueView::SSHORT(s) => {
            assert(width == 2);
            lemma_i16_items_round_trip(s, e);
        },
        TiffFieldValueView::SLONG(s) => {
            assert(width == 4);
            lemma_i32_items_round_trip(s, e);
        },
        TiffFieldValueView::RATIONAL(s) => {
            assert(width == 8);
            lemma_rational_items_round_trip(s, e);
        },
        TiffFieldValueView::SRATIONAL(s) => {
            assert(width == 8);
            lemma_srational_items_round_trip(s, e);
        },
    }
}

/// The two bytes of the mark that opens a stream in byte order `e`.
pub open spec fn spec_mark_bytes(e: Endianness) -> Seq<u8> {
    match e {
        Endianness::LittleEndian => seq![0x49u8, 0x49u8],
        Endianness::BigEndian => seq![0x4Du8, 0x4Du8],
    }
}

/// The eight bytes of a header.
pub open spec fn spec_header_bytes(header: TiffHeader) -> Seq<u8> {
    spec_mark_bytes(header.endianness) + header.endianness.spec_u16_bytes(header.version)
        + header.endianness.spec_u32_bytes(header.first_ifd_offset)
}

/// The bytes of a value/offset field of `slot` bytes that holds `offset`.
pub open spec fn spec_offset_bytes(e: Endianness, slot: nat, offset: u64) -> Seq<u8> {
    if slot == 4 {
        e.spec_u32_bytes(offset as u32)
    } else {
        e.spec_u64_bytes(offset)
    }
}

/// The value/offset field of an entry whose value takes the bytes `raw`, in
/// a stream that keeps longer values at `data_offset`: the value itself,
/// filled up with zeros, where it fits in `slot` bytes, and else the offset.
pub open spec fn spec_slot_bytes(e: Endianness, slot: nat, raw: Seq<u8>, data_offset: u64) -> Seq<
    u8,
> {
    if raw.len() <= slot {
        raw + Seq::new((slot - raw.len()) as nat, |k: int| 0u8)
    } else {
        spec_offset_bytes(e, slot, data_offset)
    }
}

/// The record of a directory entry: tag, field type, count, value/offset
/// field.
#[verifier::opaque]
pub open spec fn spec_entry_bytes(
    e: Endianness,
    slot: nat,
    tag: u16,
    v: TiffFieldValueView,
    data_offset: u64,
) -> Seq<u8> {
    e.spec_u16_bytes(tag) + e.spec_u16_bytes(v.field_type().spec_code()) + e.spec_u32_bytes(
        v.item_count() as u32,
    ) + spec_slot_bytes(e, slot, spec_value_bytes(v, e), data_offset)
}

/// Where the smallest stream of the given version keeps a value that does
/// not fit into its entry: behind the header and the one directory.
pub open spec fn spec_single_entry_data_offset(version: u16) -> u64 {
    if version == 42 {
        26
    } else {
        30
    }
}

/// The smallest TIFF stream that holds the value `v` under the tag `tag`: a
/// header, one directory of one entry at offset 8, and behind it the bytes
/// of the value where they do not fit into the entry.
#[verifier::opaque]
pub open spec fn spec_single_entry_tiff(
    e: Endianness,
    version: u16,
    tag: u16,
    v: TiffFieldValueView,
) -> Seq<u8>
    recommends
        version == 42 || version == 43,
        v.item_count() <= u32::MAX,
{
    let slot = spec_value_offset_size(version).unwrap();
    let raw = spec_value_bytes(v, e);
    spec_header_bytes(TiffHeader { endianness: e, version, first_ifd_offset: 8 })
        + e.spec_u16_bytes(1) + spec_entry_bytes(
        e,
        slot,
        tag,
        v,
        spec_single_entry_data_offset(version),
    ) + e.spec_u32_bytes(0) + (if raw.len() <= slot {
        Seq::empty()
    } else {
        raw
    })
}

/// The number of a field type names that field type.
pub proof fn lemma_field_type_code_round_trip(field_type: TiffFieldType)
    ensures
        TiffFieldType::spec_from_u16(field_type.spec_code()) == Some(field_type),
{
}

/// A stream that starts with the bytes of a header has that header.
pub proof fn lemma_header_round_trip(header: TiffHeader, rest: Seq<u8>)
    requires
        header.version >= 42,
    ensures
        spec_header(spec_header_bytes(header) + rest, 0) == Ok::<TiffHeader, TiffError>(header),
{
    let e = header.endianness;
    let bytes = spec_header_bytes(header) + rest;
    lemma_u16_round_trip(e, header.version);
    lemma_u32_round_trip(e, header.first_ifd_offset);
    assert(bytes.subrange(0, 2) =~= spec_mark_bytes(e));
    assert(bytes.subrange(2, 4) =~= e.spec_u16_bytes(header.version));
    assert(bytes.subrange(4, 8) =~= e.spec_u32_bytes(header.first_ifd_offset));
    assert(Endianness::spec_from_mark(
        Endianness::LittleEndian.spec_u16(spec_mark_bytes(e)),
    ) == Some(e));
}

/// A stream that holds the record of an entry at `pos`, and the bytes of
/// its value at `data_offset` where they do not fit into the record, has
/// that entry at `pos`.
pub proof fn lemma_entry_round_trip(
    bytes: Seq<u8>,
    pos: int,
    e: Endianness,
    slot: nat,
    tag: u16,
    v: TiffFieldValueView,
    data_offset: u64,
)
    requires
        slot == 4 || slot == 8,
        v.item_count() <= u32::MAX,
        slot == 4 ==> data_offset <= u32::MAX,
        spec_bytes_at(bytes, pos, 8 + slot as int) == Some(
            spec_entry_bytes(e, slot, tag, v, data_offset),
        ),
        v.size() > slot ==> spec_bytes_at(bytes, data_offset as int, v.size() as int) == Some(
            spec_value_bytes(v, e),
        ),
    ensures
        spec_entry(bytes, pos, e, slot) == Ok::<TiffIfdEntryView, TiffError>(
            TiffIfdEntryView {
                tag,
                field_type: v.field_type(),
                count: v.item_count() as u32,
                field_value: v,
            },
        ),
{
    reveal(spec_entry);
    reveal(spec_entry_bytes);
    let record = spec_entry_bytes(e, slot, tag, v, data_offset);
    let raw = spec_value_bytes(v, e);
    let count = v.item_count() as u32;
    let slot_bytes = spec_slot_bytes(e, slot, raw, data_offset);
    lemma_value_round_trip(v, e);
    lemma_field_type_code_round_trip(v.field_type());
    lemma_u16_round_trip(e, tag);
    lemma_u16_round_trip(e, v.field_type().spec_code());
    lemma_u32_round_trip(e, count);
    lemma_u32_round_trip(e, data_offset as u32);
    lemma_u64_round_trip(e, data_offset);
    assert(slot_bytes.len() == slot);
    assert(record.len() == 8 + slot);
    assert(record.subrange(0, 2) =~= e.spec_u16_bytes(tag));
    assert(record.subrange(2, 4) =~= e.spec_u16_bytes(v.field_type().spec_code()));
    assert(record.subrange(4, 8) =~= e.spec_u32_bytes(count));
    assert(record.subrange(8, 8 + slot as int) =~= slot_bytes);
    assert(v.field_type().spec_size() * count == raw.len());
    if raw.len() <= slot {
        assert(record.subrange(8, 8 + raw.len() as int) =~= raw);
    } else {
        assert(spec_value_offset(slot_bytes, e) == data_offset);
    }
}

/// Where the parts of a stream lie that is put together from five parts.
proof fn lemma_five_parts(
    head: Seq<u8>,
    count: Seq<u8>,
    record: Seq<u8>,
    next: Seq<u8>,
    tail: Seq<u8>,
)
    ensures
        ({
            let bytes = head + count + record + next + tail;
            let a = head.len() as int;
            let b = a + count.len();
            let c = b + record.len();
            let d = c + next.len();
            &&& bytes.len() == d + tail.len()
            &&& bytes == head + (count + record + next + tail)
            &&& bytes.subrange(a, b) == count
            &&& bytes.subrange(b, c) == record
            &&& bytes.subrange(c, d) == next
            &&& bytes.subrange(d, d + tail.len()) == tail
        }),
{
    let bytes = head + count + record + next + tail;
    let a = head.len() as int;
    let b = a + count.len();
    let c = b + record.len();
    let d = c + next.len();
    assert(bytes =~= head + (count + record + next + tail));
    assert(bytes.subrange(a, b) =~= count);
    assert(bytes.subrange(b, c) =~= record);
    assert(bytes.subrange(c, d) =~= next);
    assert(bytes.subrange(d, d + tail.len()) =~= tail);
}

/// A stream that holds at `pos` a count of 1, one entry and an offset of 0
/// has at `pos` a directory of that one entry, the last of its chain.
proof fn lemma_single_entry_ifd(
    bytes: Seq<u8>,
    pos: int,
    e: Endianness,
    version: u16,
    entry: TiffIfdEntryView,
)
    requires
        version == 42 || version == 43,
        0 <= pos,
        spec_u16_at(bytes, pos, e) == Some(1u16),
        spec_entry(bytes, pos + 2, e, spec_value_offset_size(version).unwrap()) == Ok::<
            TiffIfdEntryView,
            TiffError,
        >(entry),
        spec_u32_at(bytes, pos + 10 + spec_value_offset_size(version).unwrap(), e) == Some(0u32),
    ensures
        spec_ifd(bytes, pos, e, version) == Ok::<TiffIfdView, TiffError>(
            TiffIfdView { entries: seq![entry], next_ifd_offset: None },
        ),
{
    let slot = spec_value_offset_size(version).unwrap();
    assert(spec_entry_position(pos + 2, slot, 0) == pos + 2);
    assert(spec_entry_position(pos + 2, slot, 1) == pos + 10 + slot) by (nonlinear_arith)
        requires
            spec_entry_position(pos + 2, slot, 1) == pos + 2 + 1 * (8 + slot),
    ;
    assert(spec_entries(bytes, pos + 2, e, slot, 0) == Ok::<Seq<TiffIfdEntryView>, TiffError>(
        Seq::empty(),
    ));
    assert(Seq::<TiffIfdEntryView>::empty().push(entry) =~= seq![entry]);
    assert(spec_entries(bytes, pos + 2, e, slot, 1) == Ok::<Seq<TiffIfdEntryView>, TiffError>(
        seq![entry],
    )) by {
        reveal_with_fuel(spec_entries, 2);
    }
    reveal(spec_ifd);
}

/// A stream with a header that names offset 8, and with a last directory
/// at offset 8, is that header and that directory.
proof fn lemma_single_ifd_stream(bytes: Seq<u8>, header: TiffHeader, ifd: TiffIfdView)
    requires
        bytes.len() > 0,
        header.first_ifd_offset == 8,
        ifd.next_ifd_offset is None,
        spec_header(bytes, 0) == Ok::<TiffHeader, TiffError>(header),
        spec_ifd(bytes, 8, header.endianness, header.version) == Ok::<TiffIfdView, TiffError>(
            ifd,
        ),
    ensures
        spec_tiff(bytes, 0) == Ok::<TiffView, TiffError>(TiffView { header, ifds: seq![ifd] }),
{
    assert(spec_ifd_chain(bytes, 8, header.endianness, header.version, bytes.len()) == Ok::<
        Seq<TiffIfdView>,
        TiffError,
    >(seq![ifd]));
}

/// What lies where in the smallest stream that holds one value.
proof fn lemma_single_entry_tiff_layout(
    e: Endianness,
    version: u16,
    tag: u16,
    v: TiffFieldValueView,
)
    requires
        version == 42 || version == 43,
    ensures
        ({
            let slot = spec_value_offset_size(version).unwrap();
            let raw = spec_value_bytes(v, e);
            let data_offset = spec_single_entry_data_offset(version);
            let bytes = spec_single_entry_tiff(e, version, tag, v);
            &&& bytes.len() >= 22 + slot
            &&& spec_header(bytes, 0) == Ok::<TiffHeader, TiffError>(
                TiffHeader { endianness: e, version, first_ifd_offset: 8 },
            )
            &&& spec_u16_at(bytes, 8, e) == Some(1u16)
            &&& spec_bytes_at(bytes, 10, 8 + slot as int) == Some(
                spec_entry_bytes(e, slot, tag, v, data_offset),
            )
            &&& spec_u32_at(bytes, 18 + slot as int, e) == Some(0u32)
            &&& raw.len() > slot ==> spec_bytes_at(bytes, data_offset as int, raw.len() as int)
                == Some(raw)
        }),
{
    reveal(spec_single_entry_tiff);
    let slot = spec_value_offset_size(version).unwrap();
    let raw = spec_value_bytes(v, e);
    let data_offset = spec_single_entry_data_offset(version);
    let header = TiffHeader { endianness: e, version, first_ifd_offset: 8 };
    let head = spec_header_bytes(header);
    let count = e.spec_u16_bytes(1);
    let record = spec_entry_bytes(e, slot, tag, v, data_offset);
    let next = e.spec_u32_bytes(0);
    let tail = if raw.len() <= slot {
        Seq::<u8>::empty()
    } else {
        raw
    };
    let bytes = spec_single_entry_tiff(e, version, tag, v);
    assert(head.len() == 8);
    assert(count.len() == 2);
    assert(next.len() == 4);
    assert(record.len() == 8 + slot) by {
        reveal(spec_entry_bytes);
        assert(spec_slot_bytes(e, slot, raw, data_offset).len() == slot);
    }
    assert(bytes == head + count + record + next + tail);
    lemma_five_parts(head, count, record, next, tail);
    lemma_header_round_trip(header, count + record + next + tail);
    lemma_u16_round_trip(e, 1);
    lemma_u32_round_trip(e, 0);
}

/// Round trip of streams: the smallest stream that holds a value under a
/// tag parses to a header of its byte order and version and to one directory
/// with one entry, which has that tag and that value, item for item. This
/// holds in both byte orders, in classic TIFF and in BigTIFF, for each of
/// the twelve field types, and whether the value lies in its entry or behind
/// the directory.
pub proof fn lemma_single_entry_tiff_round_trip(
    e: Endianness,
    version: u16,
    tag: u16,
    v: TiffFieldValueView,
)
    requires
        version == 42 || version == 43,
        v.item_count() <= u32::MAX,
    ensures
        spec_tiff(spec_single_entry_tiff(e, version, tag, v), 0) == Ok::<TiffView, TiffError>(
            TiffView {
                header: TiffHeader { endianness: e, version, first_ifd_offset: 8 },
                ifds: seq![
                    TiffIfdView {
                        entries: seq![
                            TiffIfdEntryView {
                                tag,
                                field_type: v.field_type(),
                                count: v.item_count() as u32,
                                field_value: v,
                            },
                        ],
                        next_ifd_offset: None,
                    },
                ],
            },
        ),
{
    let slot = spec_value_offset_size(version).unwrap();
    let data_offset = spec_single_entry_data_offset(version);
    let header = TiffHeader { endianness: e, version, first_ifd_offset: 8 };
    let bytes = spec_single_entry_tiff(e, version, tag, v);
    let entry = TiffIfdEntryView {
        tag,
        field_type: v.field_type(),
        count: v.item_count() as u32,
        field_value: v,
    };
    let ifd = TiffIfdView { entries: seq![entry], next_ifd_offset: None };
    lemma_single_entry_tiff_layout(e, version, tag, v);
    lemma_value_round_trip(v, e);
    lemma_entry_round_trip(bytes, 10, e, slot, tag, v, data_offset);
    lemma_single_entry_ifd(bytes, 8, e, version, entry);
    lemma_single_ifd_stream(bytes, header, ifd);
}

} // verus!
