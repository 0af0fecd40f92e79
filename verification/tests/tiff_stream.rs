use libuhdr::reader::ByteReader;
use libuhdr::{
    Endianness, ErrorKind, Tiff, TiffError, TiffFieldType, TiffFieldValue, TiffHeader, TiffIfd,
    TiffIfdEntry,
};

const LE: Endianness = Endianness::LittleEndian;
const BE: Endianness = Endianness::BigEndian;

/// What a test writes into one directory entry.
struct Field {
    tag: u16,
    code: u16,
    count: u32,
    raw: Vec<u8>,
}

fn put16(e: Endianness, v: u16) -> [u8; 2] {
    match e {
        Endianness::LittleEndian => v.to_le_bytes(),
        Endianness::BigEndian => v.to_be_bytes(),
    }
}

fn put32(e: Endianness, v: u32) -> [u8; 4] {
    match e {
        Endianness::LittleEndian => v.to_le_bytes(),
        Endianness::BigEndian => v.to_be_bytes(),
    }
}

fn put64(e: Endianness, v: u64) -> [u8; 8] {
    match e {
        Endianness::LittleEndian => v.to_le_bytes(),
        Endianness::BigEndian => v.to_be_bytes(),
    }
}

fn mark(e: Endianness) -> [u8; 2] {
    match e {
        Endianness::LittleEndian => [0x49, 0x49],
        Endianness::BigEndian => [0x4D, 0x4D],
    }
}

/// Lays out a stream: the header, the directories one behind the other from
/// offset 8 on, and behind them the values that do not fit their entries.
fn build_tiff(e: Endianness, version: u16, ifds: &[Vec<Field>]) -> Vec<u8> {
    let slot: usize = if version == 43 { 8 } else { 4 };
    let mut data_offset = 8;
    for fields in ifds {
        data_offset += 2 + fields.len() * (8 + slot) + 4;
    }
    let mut bytes = Vec::new();
    let mut data = Vec::new();
    bytes.extend_from_slice(&mark(e));
    bytes.extend_from_slice(&put16(e, version));
    bytes.extend_from_slice(&put32(e, 8));
    for (i, fields) in ifds.iter().enumerate() {
        bytes.extend_from_slice(&put16(e, fields.len() as u16));
        for field in fields {
            bytes.extend_from_slice(&put16(e, field.tag));
            bytes.extend_from_slice(&put16(e, field.code));
            bytes.extend_from_slice(&put32(e, field.count));
            if field.raw.len() <= slot {
                bytes.extend_from_slice(&field.raw);
                bytes.extend(std::iter::repeat(0u8).take(slot - field.raw.len()));
            } else {
                let offset = data_offset + data.len();
                if slot == 4 {
                    bytes.extend_from_slice(&put32(e, offset as u32));
                } else {
                    bytes.extend_from_slice(&put64(e, offset as u64));
                }
                data.extend_from_slice(&field.raw);
            }
        }
        let next = if i + 1 < ifds.len() { bytes.len() + 4 } else { 0 };
        bytes.extend_from_slice(&put32(e, next as u32));
    }
    assert_eq!(bytes.len(), data_offset);
    bytes.extend_from_slice(&data);
    bytes
}

fn parse(bytes: &[u8]) -> Result<Tiff, TiffError> {
    let mut reader = ByteReader::new(bytes);
    Tiff::from_reader(&mut reader)
}

/// The bytes that a value takes in a stream, written with std alone.
fn raw_of(e: Endianness, value: &TiffFieldValue) -> Vec<u8> {
    let mut raw = Vec::new();
    match value {
        TiffFieldValue::BYTE(v) | TiffFieldValue::UNDEFINED(v) => raw.extend_from_slice(v),
        TiffFieldValue::ASCII(s) => raw.extend_from_slice(s.as_bytes()),
        TiffFieldValue::SBYTE(v) => raw.extend(v.iter().map(|x| *x as u8)),
        TiffFieldValue::SHORT(v) => v.iter().for_each(|x| raw.extend_from_slice(&put16(e, *x))),
        TiffFieldValue::SSHORT(v) => {
            v.iter().for_each(|x| raw.extend_from_slice(&put16(e, *x as u16)))
        }
        TiffFieldValue::LONG(v) | TiffFieldValue::FLOAT(v) => {
            v.iter().for_each(|x| raw.extend_from_slice(&put32(e, *x)))
        }
        TiffFieldValue::SLONG(v) => {
            v.iter().for_each(|x| raw.extend_from_slice(&put32(e, *x as u32)))
        }
        TiffFieldValue::RATIONAL(v) => v.iter().for_each(|x| {
            raw.extend_from_slice(&put32(e, x.0));
            raw.extend_from_slice(&put32(e, x.1));
        }),
        TiffFieldValue::SRATIONAL(v) => v.iter().for_each(|x| {
            raw.extend_from_slice(&put32(e, x.0 as u32));
            raw.extend_from_slice(&put32(e, x.1 as u32));
        }),
        TiffFieldValue::DOUBLE(v) => v.iter().for_each(|x| raw.extend_from_slice(&put64(e, *x))),
    }
    raw
}

fn field_of(e: Endianness, tag: u16, value: &TiffFieldValue) -> Field {
    let raw = raw_of(e, value);
    let field_type = value.field_type();
    Field { tag, code: field_type.code(), count: (raw.len() / field_type.size()) as u32, raw }
}

/// Values of each field type: those in `small` fit a value/offset field of
/// four bytes, those in `large` do not fit one of eight bytes.
fn sample_values() -> (Vec<TiffFieldValue>, Vec<TiffFieldValue>) {
    let small = vec![
        TiffFieldValue::BYTE(vec![7, 0xFF]),
        TiffFieldValue::ASCII("ab".to_string()),
        TiffFieldValue::SHORT(vec![0xBEEF]),
        TiffFieldValue::LONG(vec![0xDEAD_BEEF]),
        TiffFieldValue::RATIONAL(vec![]),
        TiffFieldValue::SBYTE(vec![-1, 2, -128, 127]),
        TiffFieldValue::UNDEFINED(vec![48, 49, 48, 48]),
        TiffFieldValue::SSHORT(vec![-2, 2]),
        TiffFieldValue::SLONG(vec![-123456]),
        TiffFieldValue::SRATIONAL(vec![]),
        TiffFieldValue::FLOAT(vec![1.5f32.to_bits()]),
        TiffFieldValue::DOUBLE(vec![]),
    ];
    let large = vec![
        TiffFieldValue::BYTE((0..=255).collect()),
        TiffFieldValue::ASCII("Ultra HDR gain map \u{2014} test".to_string()),
        TiffFieldValue::SHORT(vec![0, 1, 0x7FFF, 0x8000, 0xFFFF]),
        TiffFieldValue::LONG(vec![0, 1, 0x7FFF_FFFF, 0x8000_0000, 0xFFFF_FFFF]),
        TiffFieldValue::RATIONAL(vec![(1, 3), (0xFFFF_FFFF, 1), (0, 0)]),
        TiffFieldValue::SBYTE((-128..=127).collect()),
        TiffFieldValue::UNDEFINED(vec![0xAB; 32]),
        TiffFieldValue::SSHORT(vec![0, -1, i16::MIN, i16::MAX, 258]),
        TiffFieldValue::SLONG(vec![0, -1, i32::MIN, i32::MAX, 16909060]),
        TiffFieldValue::SRATIONAL(vec![(-1, 3), (i32::MIN, i32::MAX), (5, -7)]),
        TiffFieldValue::FLOAT(vec![0.015625f32.to_bits(), (-2.2f32).to_bits(), f32::NAN.to_bits()]),
        TiffFieldValue::DOUBLE(vec![0.3127f64.to_bits(), (-1.0e-300f64).to_bits()]),
    ];
    (small, large)
}

fn check_round_trip(e: Endianness, version: u16, value: &TiffFieldValue) {
    let bytes = build_tiff(e, version, &[vec![field_of(e, 0x0100, value)]]);
    let tiff = parse(&bytes).unwrap();
    assert_eq!(tiff.header, TiffHeader { endianness: e, version, first_ifd_offset: 8 });
    assert_eq!(tiff.ifds.len(), 1);
    assert_eq!(tiff.ifds[0].next_ifd_offset, None);
    assert_eq!(tiff.ifds[0].entries.len(), 1);
    let entry = &tiff.ifds[0].entries[0];
    assert_eq!(entry.tag, 0x0100);
    assert_eq!(entry.field_type, value.field_type());
    assert_eq!(entry.count as usize, raw_of(e, value).len() / value.field_type().size());
    assert_eq!(&entry.field_value, value);
    assert_eq!(entry.field_value_size(), raw_of(e, value).len());
}

#[test]
fn values_inside_their_entry_round_trip_in_little_endian() {
    for value in sample_values().0 {
        check_round_trip(LE, 42, &value);
    }
}

#[test]
fn values_inside_their_entry_round_trip_in_big_endian() {
    for value in sample_values().0 {
        check_round_trip(BE, 42, &value);
    }
}

#[test]
fn values_behind_the_directory_round_trip_in_little_endian() {
    for value in sample_values().1 {
        check_round_trip(LE, 42, &value);
    }
}

#[test]
fn values_behind_the_directory_round_trip_in_big_endian() {
    for value in sample_values().1 {
        check_round_trip(BE, 42, &value);
    }
}

#[test]
fn values_round_trip_in_version_43() {
    let (small, large) = sample_values();
    for value in small.iter().chain(large.iter()) {
        check_round_trip(LE, 43, value);
        check_round_trip(BE, 43, value);
    }
    let eight_bytes = TiffFieldValue::DOUBLE(vec![2.5f64.to_bits()]);
    let bytes = build_tiff(BE, 43, &[vec![field_of(BE, 1, &eight_bytes)]]);
    assert_eq!(bytes.len(), 8 + 2 + 16 + 4);
    check_round_trip(BE, 43, &eight_bytes);
}

#[test]
fn value_of_five_bytes_lies_behind_the_directory_in_version_42() {
    let value = TiffFieldValue::BYTE(vec![1, 2, 3, 4, 5]);
    let bytes = build_tiff(LE, 42, &[vec![field_of(LE, 9, &value)]]);
    assert_eq!(bytes.len(), 26 + 5);
    assert_eq!(&bytes[18..22], &[26, 0, 0, 0]);
    assert_eq!(parse(&bytes).unwrap().ifds[0].entries[0].field_value, value);
    let four = TiffFieldValue::BYTE(vec![1, 2, 3, 4]);
    let bytes = build_tiff(LE, 42, &[vec![field_of(LE, 9, &four)]]);
    assert_eq!(bytes.len(), 26);
    assert_eq!(parse(&bytes).unwrap().ifds[0].entries[0].field_value, four);
}

#[test]
fn entry_behind_a_short_value_starts_behind_the_whole_field() {
    let first = TiffFieldValue::SHORT(vec![0x0102]);
    let second = TiffFieldValue::LONG(vec![0x0A0B_0C0D]);
    let third = TiffFieldValue::BYTE(vec![]);
    let fourth = TiffFieldValue::ASCII("x".to_string());
    for e in [LE, BE] {
        let fields = vec![
            field_of(e, 1, &first),
            field_of(e, 2, &second),
            field_of(e, 3, &third),
            field_of(e, 4, &fourth),
        ];
        let tiff = parse(&build_tiff(e, 42, &[fields])).unwrap();
        let entries = &tiff.ifds[0].entries;
        assert_eq!(entries.len(), 4);
        assert_eq!(entries[0].field_value, first);
        assert_eq!(entries[1].tag, 2);
        assert_eq!(entries[1].field_value, second);
        assert_eq!(entries[2].count, 0);
        assert_eq!(entries[2].field_value, third);
        assert_eq!(entries[3].field_value, fourth);
    }
}

#[test]
fn chain_of_directories_is_followed_to_its_end() {
    let a = TiffFieldValue::SHORT(vec![1]);
    let b = TiffFieldValue::UNDEFINED(vec![9; 20]);
    let c = TiffFieldValue::LONG(vec![3]);
    let ifds = vec![
        vec![field_of(BE, 10, &a), field_of(BE, 11, &b)],
        vec![field_of(BE, 20, &c)],
        vec![field_of(BE, 30, &b), field_of(BE, 31, &a), field_of(BE, 32, &c)],
    ];
    let tiff = parse(&build_tiff(BE, 42, &ifds)).unwrap();
    assert_eq!(tiff.ifds.len(), 3);
    assert_eq!(tiff.ifds[0].next_ifd_offset, Some(8 + 2 + 24 + 4));
    assert_eq!(tiff.ifds[1].next_ifd_offset, Some(38 + 2 + 12 + 4));
    assert_eq!(tiff.ifds[2].next_ifd_offset, None);
    assert_eq!(tiff.ifds[0].entries[1].field_value, b);
    assert_eq!(tiff.ifds[1].entries[0].field_value, c);
    assert_eq!(tiff.ifds[2].entries[0].field_value, b);
    assert_eq!(tiff.ifds[2].entries[2].tag, 32);
}

#[test]
fn header_alone_is_no_stream() {
    let bytes = [0x49, 0x49, 0x2A, 0x00, 0x08, 0x00, 0x00, 0x00];
    assert_eq!(parse(&bytes), Err(TiffError::UnexpectedEof));
}

#[test]
fn empty_stream_is_refused() {
    assert_eq!(parse(&[]), Err(TiffError::UnexpectedEof));
}

#[test]
fn stream_with_invalid_magic_is_refused() {
    let mut bytes = build_tiff(LE, 42, &[vec![field_of(LE, 1, &TiffFieldValue::BYTE(vec![1]))]]);
    bytes[0] = 0x4A;
    bytes[1] = 0x4A;
    let error = parse(&bytes).unwrap_err();
    assert_eq!(error, TiffError::InvalidByteOrder);
    assert_eq!(error.kind(), ErrorKind::InvalidData);
    assert_eq!(error.message(), "Invalid TIFF byte order");
}

#[test]
fn stream_with_version_below_42_is_refused() {
    let bytes = build_tiff(BE, 41, &[vec![field_of(BE, 1, &TiffFieldValue::BYTE(vec![1]))]]);
    let error = parse(&bytes).unwrap_err();
    assert_eq!(error, TiffError::InvalidMagicNumber);
    assert_eq!(error.kind(), ErrorKind::InvalidData);
    assert_eq!(error.message(), "Invalid TIFF magic number");
}

#[test]
fn stream_with_version_above_43_is_refused() {
    let bytes = build_tiff(LE, 44, &[vec![field_of(LE, 1, &TiffFieldValue::BYTE(vec![1]))]]);
    let mut reader = ByteReader::new(&bytes);
    assert_eq!(TiffHeader::new(&mut reader).unwrap().version, 44);
    let error = parse(&bytes).unwrap_err();
    assert_eq!(error, TiffError::UnsupportedVersion);
    assert_eq!(error.kind(), ErrorKind::InvalidData);
    assert_eq!(error.message(), "Unsupported TIFF version");
}

#[test]
fn directory_without_entries_is_refused() {
    let bytes = build_tiff(LE, 42, &[vec![]]);
    let error = parse(&bytes).unwrap_err();
    assert_eq!(error, TiffError::InvalidEntryCount);
    assert_eq!(error.kind(), ErrorKind::InvalidData);
    assert_eq!(error.message(), "Invalid IFD entry count");
}

#[test]
fn unknown_field_type_is_refused() {
    for code in [0u16, 13, 16, 17, 0x0700] {
        let field = Field { tag: 1, code, count: 1, raw: vec![1] };
        let error = parse(&build_tiff(LE, 42, &[vec![field]])).unwrap_err();
        assert_eq!(error, TiffError::InvalidFieldType);
        assert_eq!(error.kind(), ErrorKind::InvalidData);
        assert_eq!(error.message(), "Invalid field type");
    }
}

#[test]
fn ascii_value_that_is_not_utf8_is_refused_in_a_stream() {
    let field = Field { tag: 1, code: 2, count: 2, raw: vec![0xFF, 0xFE] };
    assert_eq!(parse(&build_tiff(BE, 42, &[vec![field]])), Err(TiffError::InvalidAsciiString));
    let field = Field { tag: 1, code: 2, count: 6, raw: vec![0x61, 0x62, 0x80, 0x63, 0x64, 0x65] };
    assert_eq!(parse(&build_tiff(BE, 42, &[vec![field]])), Err(TiffError::InvalidAsciiString));
}

#[test]
fn stream_that_ends_early_is_refused() {
    let value = TiffFieldValue::UNDEFINED(vec![5; 10]);
    let bytes = build_tiff(LE, 42, &[vec![field_of(LE, 1, &value)]]);
    assert!(parse(&bytes).is_ok());
    for len in 0..bytes.len() {
        let error = parse(&bytes[..len]).unwrap_err();
        assert_eq!(error, TiffError::UnexpectedEof);
        assert_eq!(error.kind(), ErrorKind::UnexpectedEof);
        assert_eq!(error.message(), "failed to fill whole buffer");
    }
}

#[test]
fn stream_that_ends_inside_an_entry_is_short_whatever_the_entry_says() {
    let field = Field { tag: 1, code: 99, count: 1, raw: vec![1] };
    let bytes = build_tiff(LE, 42, &[vec![field]]);
    assert_eq!(parse(&bytes), Err(TiffError::InvalidFieldType));
    assert_eq!(parse(&bytes[..21]), Err(TiffError::UnexpectedEof));
    assert_eq!(parse(&bytes[..22]), Err(TiffError::InvalidFieldType));
}

#[test]
fn value_offset_beyond_the_end_is_refused() {
    let value = TiffFieldValue::LONG(vec![1, 2, 3]);
    let mut bytes = build_tiff(BE, 42, &[vec![field_of(BE, 1, &value)]]);
    bytes[18..22].copy_from_slice(&0xFFFF_FFF0u32.to_be_bytes());
    assert_eq!(parse(&bytes), Err(TiffError::UnexpectedEof));
    bytes[18..22].copy_from_slice(&27u32.to_be_bytes());
    assert_eq!(parse(&bytes), Err(TiffError::UnexpectedEof));
    bytes[18..22].copy_from_slice(&0u32.to_be_bytes());
    let tiff = parse(&bytes).unwrap();
    assert_eq!(
        tiff.ifds[0].entries[0].field_value,
        TiffFieldValue::LONG(vec![0x4D4D_002A, 0x0000_0008, 0x0001_0001])
    );
}

#[test]
fn count_that_overflows_the_stream_is_refused() {
    let field = Field { tag: 1, code: 12, count: u32::MAX, raw: vec![0; 16] };
    assert_eq!(parse(&build_tiff(LE, 42, &[vec![field]])), Err(TiffError::UnexpectedEof));
}

#[test]
fn chain_that_runs_in_a_circle_is_refused() {
    let value = TiffFieldValue::SHORT(vec![1]);
    let mut bytes = build_tiff(LE, 42, &[vec![field_of(LE, 1, &value)]]);
    bytes[22..26].copy_from_slice(&8u32.to_le_bytes());
    let error = parse(&bytes).unwrap_err();
    assert_eq!(error, TiffError::EndlessIfdChain);
    assert_eq!(error.kind(), ErrorKind::InvalidData);
    assert_eq!(error.message(), "Endless IFD chain");

    let ifds = vec![vec![field_of(LE, 1, &value)], vec![field_of(LE, 2, &value)]];
    let mut bytes = build_tiff(LE, 42, &ifds);
    assert_eq!(parse(&bytes).unwrap().ifds.len(), 2);
    let last = bytes.len() - 4;
    bytes[last..].copy_from_slice(&8u32.to_le_bytes());
    assert_eq!(parse(&bytes), Err(TiffError::EndlessIfdChain));
}

#[test]
fn offsets_count_from_the_start_of_the_bytes() {
    let value = TiffFieldValue::UNDEFINED(vec![1, 2, 3, 4, 5, 6]);
    let tiff_bytes = build_tiff(LE, 42, &[vec![field_of(LE, 7, &value)]]);
    let mut bytes = vec![0xEE; 4];
    bytes.extend_from_slice(&tiff_bytes);
    // The header now lies at offset 4; the offsets in it still count from 0.
    bytes[4 + 4..4 + 8].copy_from_slice(&12u32.to_le_bytes());
    bytes[4 + 18..4 + 22].copy_from_slice(&30u32.to_le_bytes());
    let mut reader = ByteReader::new(&bytes);
    reader.seek(4);
    let tiff = Tiff::from_reader(&mut reader).unwrap();
    assert_eq!(tiff.header.first_ifd_offset, 12);
    assert_eq!(tiff.ifds[0].entries[0].field_value, value);
}

#[test]
fn directory_is_read_at_the_position_of_the_reader() {
    let value = TiffFieldValue::SHORT(vec![5, 6]);
    let bytes = build_tiff(BE, 42, &[vec![field_of(BE, 3, &value), field_of(BE, 4, &value)]]);
    let mut reader = ByteReader::new(&bytes);
    reader.seek(8);
    let ifd = TiffIfd::new(&mut reader, BE, 42).unwrap();
    assert_eq!(ifd.entries.len(), 2);
    assert_eq!(ifd.next_ifd_offset, None);
    assert_eq!(reader.position(), 8 + 2 + 24 + 4);
    let mut reader = ByteReader::new(&bytes);
    reader.seek(8);
    assert_eq!(TiffIfd::new(&mut reader, BE, 44), Err(TiffError::UnsupportedVersion));
    assert_eq!(reader.position(), 8);
}

#[test]
fn reader_stands_behind_the_last_directory_of_a_stream() {
    let small = TiffFieldValue::SHORT(vec![1]);
    let large = TiffFieldValue::UNDEFINED(vec![9; 20]);
    let ifds = vec![
        vec![field_of(LE, 1, &small), field_of(LE, 2, &large)],
        vec![field_of(LE, 3, &large)],
    ];
    let bytes = build_tiff(LE, 42, &ifds);
    let mut reader = ByteReader::new(&bytes);
    assert!(Tiff::from_reader(&mut reader).is_ok());
    assert_eq!(reader.position(), 8 + (2 + 24 + 4) + (2 + 12 + 4));
    let bytes = build_tiff(BE, 43, &[vec![field_of(BE, 1, &large)]]);
    let mut reader = ByteReader::new(&bytes);
    assert!(Tiff::from_reader(&mut reader).is_ok());
    assert_eq!(reader.position(), 8 + 2 + 16 + 4);
}

#[test]
fn reader_stays_where_it_stood_after_a_stream_failed() {
    let value = TiffFieldValue::UNDEFINED(vec![9; 20]);
    let bytes = build_tiff(LE, 42, &[vec![field_of(LE, 1, &value)]]);
    let mut reader = ByteReader::new(&bytes[..bytes.len() - 1]);
    assert_eq!(Tiff::from_reader(&mut reader), Err(TiffError::UnexpectedEof));
    assert_eq!(reader.position(), 0);
    reader.seek(8);
    assert_eq!(TiffIfd::new(&mut reader, LE, 42), Err(TiffError::UnexpectedEof));
    assert_eq!(reader.position(), 8);
    reader.seek(3);
    assert_eq!(Tiff::from_reader(&mut reader), Err(TiffError::InvalidByteOrder));
    assert_eq!(reader.position(), 3);
    let text = [0x61, 0xFF];
    let mut reader = ByteReader::new(&text);
    assert_eq!(
        TiffFieldValue::from_reader(&mut reader, LE, TiffFieldType::ASCII, 2),
        Err(TiffError::InvalidAsciiString)
    );
    assert_eq!(reader.position(), 0);
}

#[test]
fn first_entry_with_a_tag_is_found() {
    let ifd = TiffIfd {
        entries: vec![
            TiffIfdEntry {
                tag: 5,
                field_type: TiffFieldType::BYTE,
                count: 1,
                field_value: TiffFieldValue::BYTE(vec![1]),
            },
            TiffIfdEntry {
                tag: 6,
                field_type: TiffFieldType::BYTE,
                count: 1,
                field_value: TiffFieldValue::BYTE(vec![2]),
            },
            TiffIfdEntry {
                tag: 5,
                field_type: TiffFieldType::BYTE,
                count: 1,
                field_value: TiffFieldValue::BYTE(vec![3]),
            },
        ],
        next_ifd_offset: None,
    };
    assert_eq!(ifd.entry_with_tag(5).unwrap().field_value, TiffFieldValue::BYTE(vec![1]));
    assert_eq!(ifd.entry_with_tag(6).unwrap().field_value, TiffFieldValue::BYTE(vec![2]));
    assert_eq!(ifd.entry_with_tag(7), None);
    let empty = TiffIfd { entries: vec![], next_ifd_offset: None };
    assert_eq!(empty.entry_with_tag(5), None);
}

#[test]
fn values_are_handed_out_by_their_type() {
    let long = TiffIfdEntry {
        tag: 1,
        field_type: TiffFieldType::LONG,
        count: 2,
        field_value: TiffFieldValue::LONG(vec![10, 20]),
    };
    assert_eq!(long.field_value_as_long(), Some(&[10u32, 20][..]));
    assert_eq!(long.field_value_as_undefined(), None);
    assert_eq!(long.field_value_size(), 8);
    let undefined = TiffIfdEntry {
        tag: 1,
        field_type: TiffFieldType::UNDEFINED,
        count: 3,
        field_value: TiffFieldValue::UNDEFINED(vec![1, 2, 3]),
    };
    assert_eq!(undefined.field_value_as_undefined(), Some(&[1u8, 2, 3][..]));
    assert_eq!(undefined.field_value_as_long(), None);
    assert_eq!(undefined.field_value_size(), 3);
    let byte = TiffIfdEntry {
        tag: 1,
        field_type: TiffFieldType::BYTE,
        count: 3,
        field_value: TiffFieldValue::BYTE(vec![1, 2, 3]),
    };
    assert_eq!(byte.field_value_as_undefined(), None);
    assert_eq!(byte.field_value_as_long(), None);
}
