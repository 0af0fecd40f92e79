//! The typed value of a directory entry: how a run of bytes becomes a vector
//! of items of one of the twelve field types.

use vstd::prelude::*;
use vstd::slice::slice_to_vec;
use vstd::utf8::{decode_utf8, encode_utf8, valid_utf8};

use crate::endian::{i16_of, i32_of, i8_of, spec_i16_of, spec_i32_of, spec_i8_of, Endianness};
use crate::error::TiffError;
use crate::reader::{spec_bytes_at, ByteReader};
use crate::tiff::{TiffFieldType, TiffFieldValue, TiffFieldValueView};

verus! {

/// The result of a reading function, with the value taken by its view.
pub open spec fn view_result<T: View>(r: Result<T, TiffError>) -> Result<T::V, TiffError> {
    match r {
        Ok(v) => Ok(v@),
        Err(e) => Err(e),
    }
}

/// The `i`-th 16-bit item of `raw`.
pub open spec fn spec_u16_item(raw: Seq<u8>, e: Endianness, i: int) -> u16 {
    e.spec_u16(raw.subrange(2 * i, 2 * i + 2))
}

/// The `i`-th 32-bit item of `raw`.
pub open spec fn spec_u32_item(raw: Seq<u8>, e: Endianness, i: int) -> u32 {
    e.spec_u32(raw.subrange(4 * i, 4 * i + 4))
}

/// The `i`-th 64-bit item of `raw`.
pub open spec fn spec_u64_item(raw: Seq<u8>, e: Endianness, i: int) -> u64 {
    e.spec_u64(raw.subrange(8 * i, 8 * i + 8))
}

/// The 16-bit items that `raw` holds, a rest of one byte left aside.
pub open spec fn spec_u16_items(raw: Seq<u8>, e: Endianness) -> Seq<u16> {
    Seq::new(raw.len() / 2, |i: int| spec_u16_item(raw, e, i))
}

/// The 32-bit items that `raw` holds, a rest of up to three bytes left aside.
pub open spec fn spec_u32_items(raw: Seq<u8>, e: Endianness) -> Seq<u32> {
    Seq::new(raw.len() / 4, |i: int| spec_u32_item(raw, e, i))
}

/// The 64-bit items that `raw` holds, a rest of up to seven bytes left aside.
pub open spec fn spec_u64_items(raw: Seq<u8>, e: Endianness) -> Seq<u64> {
    Seq::new(raw.len() / 8, |i: int| spec_u64_item(raw, e, i))
}

/// The bytes of `raw`, each read as a signed integer.
pub open spec fn spec_i8_items(raw: Seq<u8>) -> Seq<i8> {
    Seq::new(raw.len(), |i: int| spec_i8_of(raw[i]))
}

/// The 16-bit items of `raw`, each read as a signed integer.
pub open spec fn spec_i16_items(raw: Seq<u8>, e: Endianness) -> Seq<i16> {
    Seq::new(raw.len() / 2, |i: int| spec_i16_of(spec_u16_item(raw, e, i)))
}

/// The 32-bit items of `raw`, each read as a signed integer.
pub open spec fn spec_i32_items(raw: Seq<u8>, e: Endianness) -> Seq<i32> {
    Seq::new(raw.len() / 4, |i: int| spec_i32_of(spec_u32_item(raw, e, i)))
}

/// The fractions that `raw` holds: numerator and denominator, 32 bits each.
pub open spec fn spec_rational_items(raw: Seq<u8>, e: Endianness) -> Seq<(u32, u32)> {
    Seq::new(
        raw.len() / 8,
        |i: int| (spec_u32_item(raw, e, 2 * i), spec_u32_item(raw, e, 2 * i + 1)),
    )
}

/// The signed fractions that `raw` holds.
pub open spec fn spec_srational_items(raw: Seq<u8>, e: Endianness) -> Seq<(i32, i32)> {
    Seq::new(
        raw.len() / 8,
        |i: int|
            (
                spec_i32_of(spec_u32_item(raw, e, 2 * i)),
                spec_i32_of(spec_u32_item(raw, e, 2 * i + 1)),
            ),
    )
}

/// The value of type `ty` that the bytes `raw` hold, all of them. Only an
/// ASCII value can fail: its bytes must be valid UTF-8.
pub open spec fn spec_value(raw: Seq<u8>, e: Endianness, ty: TiffFieldType) -> Result<
    TiffFieldValueView,
    TiffError,
> {
    match ty {
        TiffFieldType::BYTE => Ok(TiffFieldValueView::BYTE(raw)),
        TiffFieldType::ASCII => if valid_utf8(raw) {
            Ok(TiffFieldValueView::ASCII(decode_utf8(raw)))
        } else {
            Err(TiffError::InvalidAsciiString)
        },
        TiffFieldType::SHORT => Ok(TiffFieldValueView::SHORT(spec_u16_items(raw, e))),
        TiffFieldType::LONG => Ok(TiffFieldValueView::LONG(spec_u32_items(raw, e))),
        TiffFieldType::RATIONAL => Ok(TiffFieldValueView::RATIONAL(spec_rational_items(raw, e))),
        TiffFieldType::SBYTE => Ok(TiffFieldValueView::SBYTE(spec_i8_items(raw))),
        TiffFieldType::UNDEFINED => Ok(TiffFieldValueView::UNDEFINED(raw)),
        TiffFieldType::SSHORT => Ok(TiffFieldValueView::SSHORT(spec_i16_items(raw, e))),
        TiffFieldType::SLONG => Ok(TiffFieldValueView::SLONG(spec_i32_items(raw, e))),
        TiffFieldType::SRATIONAL => Ok(
            TiffFieldValueView::SRATIONAL(spec_srational_items(raw, e)),
        ),
        TiffFieldType::FLOAT => Ok(TiffFieldValueView::FLOAT(spec_u32_items(raw, e))),
        TiffFieldType::DOUBLE => Ok(TiffFieldValueView::DOUBLE(spec_u64_items(raw, e))),
    }
}

/// The value of `count` items of type `ty` that the stream holds from `pos`
/// on, or the reason why it holds none.
pub open spec fn spec_field_value(
    bytes: Seq<u8>,
    pos: int,
    e: Endianness,
    ty: TiffFieldType,
    count: u32,
) -> Result<TiffFieldValueView, TiffError> {
    match spec_bytes_at(bytes, pos, ty.spec_size() * count) {
        None => Err(TiffError::UnexpectedEof),
        Some(raw) => spec_value(raw, e, ty),
    }
}

impl TiffFieldValueView {
    /// The field type of this value.
    pub open spec fn field_type(self) -> TiffFieldType {
        match self {
            TiffFieldValueView::BYTE(_) => TiffFieldType::BYTE,
            TiffFieldValueView::ASCII(_) => TiffFieldType::ASCII,
            TiffFieldValueView::SHORT(_) => TiffFieldType::SHORT,
            TiffFieldValueView::LONG(_) => TiffFieldType::LONG,
            TiffFieldValueView::RATIONAL(_) => TiffFieldType::RATIONAL,
            TiffFieldValueView::SBYTE(_) => TiffFieldType::SBYTE,
            TiffFieldValueView::UNDEFINED(_) => TiffFieldType::UNDEFINED,
            TiffFieldValueView::SSHORT(_) => TiffFieldType::SSHORT,
            TiffFieldValueView::SLONG(_) => TiffFieldType::SLONG,
            TiffFieldValueView::SRATIONAL(_) => TiffFieldType::SRATIONAL,
            TiffFieldValueView::FLOAT(_) => TiffFieldType::FLOAT,
            TiffFieldValueView::DOUBLE(_) => TiffFieldType::DOUBLE,
        }
    }

    /// The number of items of this value. The items of an ASCII value are
    /// the bytes of its text in UTF-8.
    pub open spec fn item_count(self) -> nat {
        match self {
            TiffFieldValueView::BYTE(v) => v.len(),
            TiffFieldValueView::ASCII(s) => encode_utf8(s).len(),
            TiffFieldValueView::SHORT(v) => v.len(),
            TiffFieldValueView::LONG(v) => v.len(),
            TiffFieldValueView::RATIONAL(v) => v.len(),
            TiffFieldValueView::SBYTE(v) => v.len(),
            TiffFieldValueView::UNDEFINED(v) => v.len(),
            TiffFieldValueView::SSHORT(v) => v.len(),
            TiffFieldValueView::SLONG(v) => v.len(),
            TiffFieldValueView::SRATIONAL(v) => v.len(),
            TiffFieldValueView::FLOAT(v) => v.len(),
            TiffFieldValueView::DOUBLE(v) => v.len(),
        }
    }

    /// The number of bytes that this value takes in a stream.
    pub open spec fn size(self) -> nat {
        self.item_count() * self.field_type().spec_size()
    }
}

/// `String::from_utf8` of std: the text that `bytes` encode in UTF-8. The
/// contract takes from its documentation that the conversion succeeds exactly
/// on valid UTF-8, and that the string then holds the characters which those
/// bytes encode.
#[verifier::external_body]
pub(crate) fn string_from_utf8(bytes: Vec<u8>) -> (r: Option<String>)
    ensures
        r is Some <==> valid_utf8(bytes@),
        r is Some ==> r.unwrap()@ == decode_utf8(bytes@),
{
    String::from_utf8(bytes).ok()
}

fn u16_items(raw: &[u8], e: Endianness) -> (r: Vec<u16>)
    ensures
        r@ == spec_u16_items(raw@, e),
{
    let n: usize = raw.len() / 2;
    let mut values: Vec<u16> = Vec::new();
    let mut i: usize = 0;
    while i < n
        invariant
            n == raw.len() / 2,
            i <= n,
            values.len() == i,
            forall|k: int| 0 <= k < i ==> values[k] == spec_u16_item(raw@, e, k),
        decreases n - i,
    {
        let item: [u8; 2] = [raw[2 * i], raw[2 * i + 1]];
        assert(item@ =~= raw@.subrange(2 * i, 2 * i + 2));
        values.push(e.u16_from_bytes(item));
        i += 1;
    }
    assert(values@ =~= spec_u16_items(raw@, e));
    values
}

fn u32_items(raw: &[u8], e: Endianness) -> (r: Vec<u32>)
    ensures
        r@ == spec_u32_items(raw@, e),
{
    let n: usize = raw.len() / 4;
    let mut values: Vec<u32> = Vec::new();
    let mut i: usize = 0;
    while i < n
        invariant
            n == raw.len() / 4,
            i <= n,
            values.len() == i,
            forall|k: int| 0 <= k < i ==> values[k] == spec_u32_item(raw@, e, k),
        decreases n - i,
    {
        let item: [u8; 4] = [raw[4 * i], raw[4 * i + 1], raw[4 * i + 2], raw[4 * i + 3]];
        assert(item@ =~= raw@.subrange(4 * i, 4 * i + 4));
        values.push(e.u32_from_bytes(item));
        i += 1;
    }
    assert(values@ =~= spec_u32_items(raw@, e));
    values
}

fn u64_items(raw: &[u8], e: Endianness) -> (r: Vec<u64>)
    ensures
        r@ == spec_u64_items(raw@, e),
{
    let n: usize = raw.len() / 8;
    let mut values: Vec<u64> = Vec::new();
    let mut i: usize = 0;
    while i < n
        invariant
            n == raw.len() / 8,
            i <= n,
            values.len() == i,
            forall|k: int| 0 <= k < i ==> values[k] == spec_u64_item(raw@, e, k),
        decreases n - i,
    {
        let item: [u8; 8] = [
            raw[8 * i],
            raw[8 * i + 1],
            raw[8 * i + 2],
            raw[8 * i + 3],
            raw[8 * i + 4],
            raw[8 * i + 5],
            raw[8 * i + 6],
            raw[8 * i + 7],
        ];
        assert(item@ =~= raw@.subrange(8 * i, 8 * i + 8));
        values.push(e.u64_from_bytes(item));
        i += 1;
    }
    assert(values@ =~= spec_u64_items(raw@, e));
    values
}

fn i8_items(raw: &[u8]) -> (r: Vec<i8>)
    ensures
        r@ == spec_i8_items(raw@),
{
    let n: usize = raw.len();
    let mut values: Vec<i8> = Vec::new();
    let mut i: usize = 0;
    while i < n
        invariant
            n == raw.len(),
            i <= n,
            values.len() == i,
            forall|k: int| 0 <= k < i ==> values[k] == spec_i8_of(raw@[k]),
        decreases n - i,
    {
        values.push(i8_of(raw[i]));
        i += 1;
    }
    assert(values@ =~= spec_i8_items(raw@));
    values
}

fn i16_items(raw: &[u8], e: Endianness) -> (r: Vec<i16>)
    ensures
        r@ == spec_i16_items(raw@, e),
{
    let unsigned: Vec<u16> = u16_items(raw, e);
    let n: usize = unsigned.len();
    let mut values: Vec<i16> = Vec::new();
    let mut i: usize = 0;
    while i < n
        invariant
            n == unsigned.len(),
            i <= n,
            values.len() == i,
            forall|k: int| 0 <= k < i ==> values[k] == spec_i16_of(unsigned[k]),
        decreases n - i,
    {
        values.push(i16_of(unsigned[i]));
        i += 1;
    }
    assert(values@ =~= spec_i16_items(raw@, e));
    values
}

fn i32_items(raw: &[u8], e: Endianness) -> (r: Vec<i32>)
    ensures
        r@ == spec_i32_items(raw@, e),
{
    let unsigned: Vec<u32> = u32_items(raw, e);
    let n: usize = unsigned.len();
    let mut values: Vec<i32> = Vec::new();
    let mut i: usize = 0;
    while i < n
        invariant
            n == unsigned.len(),
            i <= n,
            values.len() == i,
            forall|k: int| 0 <= k < i ==> values[k] == spec_i32_of(unsigned[k]),
        decreases n - i,
    {
        values.push(i32_of(unsigned[i]));
        i += 1;
    }
    assert(values@ =~= spec_i32_items(raw@, e));
    values
}

fn rational_items(raw: &[u8], e: Endianness) -> (r: Vec<(u32, u32)>)
    ensures
        r@ == spec_rational_items(raw@, e),
{
    let parts: Vec<u32> = u32_items(raw, e);
    let n: usize = raw.len() / 8;
    let mut values: Vec<(u32, u32)> = Vec::new();
    let mut i: usize = 0;
    while i < n
        invariant
            n == raw.len() / 8,
            parts@ == spec_u32_items(raw@, e),
            i <= n,
            values.len() == i,
            forall|k: int|
                0 <= k < i ==> values[k] == (
                    spec_u32_item(raw@, e, 2 * k),
                    spec_u32_item(raw@, e, 2 * k + 1),
                ),
        decreases n - i,
    {
        values.push((parts[2 * i], parts[2 * i + 1]));
        i += 1;
    }
    assert(values@ =~= spec_rational_items(raw@, e));
    values
}

fn srational_items(raw: &[u8], e: Endianness) -> (r: Vec<(i32, i32)>)
    ensures
        r@ == spec_srational_items(raw@, e),
{
    let parts: Vec<u32> = u32_items(raw, e);
    let n: usize = raw.len() / 8;
    let mut values: Vec<(i32, i32)> = Vec::new();
    let mut i: usize = 0;
    while i < n
        invariant
            n == raw.len() / 8,
            parts@ == spec_u32_items(raw@, e),
            i <= n,
            values.len() == i,
            forall|k: int|
                0 <= k < i ==> values[k] == (
                    spec_i32_of(spec_u32_item(raw@, e, 2 * k)),
                    spec_i32_of(spec_u32_item(raw@, e, 2 * k + 1)),
                ),
        decreases n - i,
    {
        values.push((i32_of(parts[2 * i]), i32_of(parts[2 * i + 1])));
        i += 1;
    }
    assert(values@ =~= spec_srational_items(raw@, e));
    values
}

impl TiffFieldValue {
    /// Decodes the value of type `field_type` that the bytes `raw` hold.
    /// The number of items follows from the length of `raw`; bytes that do
    /// not fill a last item are left aside.
    pub fn from_bytes(raw: &[u8], endianness: Endianness, field_type: TiffFieldType) -> (r: Result<
        TiffFieldValue,
        TiffError,
    >)
        ensures
            view_result(r) == spec_value(raw@, endianness, field_type),
    {
        match field_type {
            TiffFieldType::BYTE => Ok(TiffFieldValue::BYTE(slice_to_vec(raw))),
            TiffFieldType::ASCII => match string_from_utf8(slice_to_vec(raw)) {
                Some(text) => Ok(TiffFieldValue::ASCII(text)),
                None => Err(TiffError::InvalidAsciiString),
            },
            TiffFieldType::SHORT => Ok(TiffFieldValue::SHORT(u16_items(raw, endianness))),
            TiffFieldType::LONG => Ok(TiffFieldValue::LONG(u32_items(raw, endianness))),
            TiffFieldType::RATIONAL => Ok(
                TiffFieldValue::RATIONAL(rational_items(raw, endianness)),
            ),
            TiffFieldType::SBYTE => Ok(TiffFieldValue::SBYTE(i8_items(raw))),
            TiffFieldType::UNDEFINED => Ok(TiffFieldValue::UNDEFINED(slice_to_vec(raw))),
            TiffFieldType::SSHORT => Ok(TiffFieldValue::SSHORT(i16_items(raw, endianness))),
            TiffFieldType::SLONG => Ok(TiffFieldValue::SLONG(i32_items(raw, endianness))),
            TiffFieldType::SRATIONAL => Ok(
                TiffFieldValue::SRATIONAL(srational_items(raw, endianness)),
            ),
            TiffFieldType::FLOAT => Ok(TiffFieldValue::FLOAT(u32_items(raw, endianness))),
            TiffFieldType::DOUBLE => Ok(TiffFieldValue::DOUBLE(u64_items(raw, endianness))),
        }
    }

    /// Reads a value of `count` items of type `field_type` at the reader's
    /// position. On success the reader stands behind the value; after a
    /// failure it stands where it stood.
    pub fn from_reader(
        reader: &mut ByteReader,
        endianness: Endianness,
        field_type: TiffFieldType,
        count: u32,
    ) -> (r: Result<TiffFieldValue, TiffError>)
        ensures
            final(reader).spec_bytes() == old(reader).spec_bytes(),
            view_result(r) == spec_field_value(
                old(reader).spec_bytes(),
                old(reader).spec_position(),
                endianness,
                field_type,
                count,
            ),
            final(reader).spec_position() == if r is Ok {
                old(reader).spec_position() + field_type.spec_size() * count
            } else {
                old(reader).spec_position()
            },
    {
        let start: u64 = reader.position();
        let item_size: u64 = field_type.size() as u64;
        assert(item_size * count <= 8 * 0xFFFF_FFFF) by (nonlinear_arith)
            requires
                item_size <= 8,
                count <= 0xFFFF_FFFF,
        ;
        let size: u64 = item_size * count as u64;
        if size > reader.remaining() as u64 {
            return Err(TiffError::UnexpectedEof);
        }
        match reader.read_exact(size as usize) {
            Some(raw) => {
                let read: Result<TiffFieldValue, TiffError> = Self::from_bytes(
                    raw,
                    endianness,
                    field_type,
                );
                if read.is_err() {
                    reader.seek(start);
                }
                read
            },
            None => Err(TiffError::UnexpectedEof),
        }
    }

    /// The field type of this value.
    pub fn field_type(&self) -> (ty: TiffFieldType)
        ensures
            ty == self@.field_type(),
    {
        match self {
            TiffFieldValue::BYTE(_) => TiffFieldType::BYTE,
            TiffFieldValue::ASCII(_) => TiffFieldType::ASCII,
            TiffFieldValue::SHORT(_) => TiffFieldType::SHORT,
            TiffFieldValue::LONG(_) => TiffFieldType::LONG,
            TiffFieldValue::RATIONAL(_) => TiffFieldType::RATIONAL,
            TiffFieldValue::SBYTE(_) => TiffFieldType::SBYTE,
            TiffFieldValue::UNDEFINED(_) => TiffFieldType::UNDEFINED,
            TiffFieldValue::SSHORT(_) => TiffFieldType::SSHORT,
            TiffFieldValue::SLONG(_) => TiffFieldType::SLONG,
            TiffFieldValue::SRATIONAL(_) => TiffFieldType::SRATIONAL,
            TiffFieldValue::FLOAT(_) => TiffFieldType::FLOAT,
            TiffFieldValue::DOUBLE(_) => TiffFieldType::DOUBLE,
        }
    }

    /// The number of bytes that this value takes in a stream.
    pub fn size(&self) -> (n: usize)
        requires
            self@.size() <= usize::MAX,
        ensures
            n == self@.size(),
    {
        match self {
            TiffFieldValue::BYTE(values) => values.len(),
            TiffFieldValue::ASCII(string) => string.as_str().len(),
            TiffFieldValue::SHORT(values) => values.len() * 2,
            TiffFieldValue::LONG(values) => values.len() * 4,
            TiffFieldValue::RATIONAL(values) => values.len() * 8,
            TiffFieldValue::SBYTE(values) => values.len(),
            TiffFieldValue::UNDEFINED(values) => values.len(),
            TiffFieldValue::SSHORT(values) => values.len() * 2,
            TiffFieldValue::SLONG(values) => values.len() * 4,
            TiffFieldValue::SRATIONAL(values) => values.len() * 8,
            TiffFieldValue::FLOAT(values) => values.len() * 4,
            TiffFieldValue::DOUBLE(values) => values.len() * 8,
        }
    }
}

/// A value that was decoded from `raw` has the type that was asked for, and
/// takes as many bytes as `raw` holds whole items.
pub proof fn lemma_value_shape(raw: Seq<u8>, e: Endianness, ty: TiffFieldType)
    requires
        spec_value(raw, e, ty) is Ok,
    ensures
        spec_value(raw, e, ty)->Ok_0.field_type() == ty,
        spec_value(raw, e, ty)->Ok_0.item_count() == raw.len() / ty.spec_size(),
{
    if ty == TiffFieldType::ASCII {
        vstd::utf8::decode_utf8_encode_utf8(raw);
    }
}

} // verus!
