//! The Multi-Picture Format index: the list of the images that one JPEG file
//! holds, read from the TIFF-structured payload of its MPF marker.

use vstd::prelude::*;

use crate::endian::Endianness;
use crate::error::TiffError;
use crate::reader::ByteReader;
use crate::tiff::{
    lemma_tiff_well_formed, spec_tiff, Tiff, TiffIfd, TiffIfdEntry, TiffIfdView, TiffView,
};

verus! {

/// Represents the Multi-Picture Format (MPF) information extracted from TIFF
/// bytes, which can be contained in a JPEG file.
#[derive(Debug, Clone, PartialEq, Eq)]
pub struct MpfInfo {
    mp_entries: Vec<MpfMpEntry>,
}

/// One record of the MP Entry field: where an image lies in the file.
#[derive(Debug, Clone, Copy, PartialEq, Eq)]
pub struct MpfMpEntry {
    pub individual_image_attribute: [u8; 4],
    pub individual_image_size: u32,
    pub individual_image_data_offset: u32,
    pub dependent_image_1_entry_number: u16,
    pub dependent_image_2_entry_number: u16,
}

/// The mathematical content of an [`MpfMpEntry`].
pub struct MpfMpEntryView {
    pub individual_image_attribute: Seq<u8>,
    pub individual_image_size: u32,
    pub individual_image_data_offset: u32,
    pub dependent_image_1_entry_number: u16,
    pub dependent_image_2_entry_number: u16,
}

/// Why a payload is not an MPF index.
#[derive(Debug, Clone, Copy, PartialEq, Eq, Structural)]
pub enum MpfError {
    /// The payload is not a TIFF stream.
    Tiff(TiffError),
    /// The stream has no directory.
    MissingIndexIfd,
    /// The directory has no version entry (tag 0xB000).
    MissingVersion,
    /// The version entry is not of type UNDEFINED.
    VersionNotUndefined,
    /// The version is not `0100`.
    UnsupportedVersion,
    /// The directory has no entry for the number of images (tag 0xB001).
    MissingNumberOfImages,
    /// The number of images is not of type LONG.
    NumberOfImagesNotLong,
    /// The entry for the number of images holds no item.
    NumberOfImagesEmpty,
    /// The directory has no MP Entry field (tag 0xB002).
    MissingEntries,
    /// The MP Entry field is not of type UNDEFINED.
    EntriesNotUndefined,
    /// The MP Entry field does not hold 16 bytes for each image.
    EntriesLengthMismatch,
}

impl MpfError {
    /// The text of [`MpfError::message`].
    pub open spec fn spec_message(self) -> Seq<char> {
        match self {
            MpfError::Tiff(error) => error.spec_message(),
            MpfError::MissingIndexIfd => "No directory found for the MP index"@,
            MpfError::MissingVersion => "No MP format version found"@,
            MpfError::VersionNotUndefined => "MP format version must be of type UNDEFINED"@,
            MpfError::UnsupportedVersion => "Version bytes must be '0', '1', '0', '0'"@,
            MpfError::MissingNumberOfImages => "No number of images found"@,
            MpfError::NumberOfImagesNotLong => "Failed to read number of images"@,
            MpfError::NumberOfImagesEmpty => "No value found for number of images"@,
            MpfError::MissingEntries => "No MP entries found"@,
            MpfError::EntriesNotUndefined => "MP entries must be of type UNDEFINED"@,
            MpfError::EntriesLengthMismatch => "MP entries must take 16 bytes for each image"@,
        }
    }

    /// A short description of the failure, for a diagnostic.
    pub fn message(self) -> (m: &'static str)
        ensures
            m@ == self.spec_message(),
    {
        match self {
            MpfError::Tiff(error) => error.message(),
            MpfError::MissingIndexIfd => "No directory found for the MP index",
            MpfError::MissingVersion => "No MP format version found",
            MpfError::VersionNotUndefined => "MP format version must be of type UNDEFINED",
            MpfError::UnsupportedVersion => "Version bytes must be '0', '1', '0', '0'",
            MpfError::MissingNumberOfImages => "No number of images found",
            MpfError::NumberOfImagesNotLong => "Failed to read number of images",
            MpfError::NumberOfImagesEmpty => "No value found for number of images",
            MpfError::MissingEntries => "No MP entries found",
            MpfError::EntriesNotUndefined => "MP entries must be of type UNDEFINED",
            MpfError::EntriesLengthMismatch => "MP entries must take 16 bytes for each image",
        }
    }
}

/// Tag of the MPF version.
pub const TAG_MP_FORMAT_VERSION: u16 = 0xB000;

/// Tag of the number of images.
pub const TAG_NUMBER_OF_IMAGES: u16 = 0xB001;

/// Tag of the MP Entry field.
pub const TAG_MP_ENTRY: u16 = 0xB002;

/// The version that is accepted: the characters `0100`.
pub open spec fn spec_mp_format_version() -> Seq<u8> {
    seq![48u8, 49u8, 48u8, 48u8]
}

impl View for MpfMpEntry {
    type V = MpfMpEntryView;

    open spec fn view(&self) -> MpfMpEntryView {
        MpfMpEntryView {
            individual_image_attribute: self.individual_image_attribute@,
            individual_image_size: self.individual_image_size,
            individual_image_data_offset: self.individual_image_data_offset,
            dependent_image_1_entry_number: self.dependent_image_1_entry_number,
            dependent_image_2_entry_number: self.dependent_image_2_entry_number,
        }
    }
}

/// The views of MP entries, in their order.
pub open spec fn spec_mp_entry_views(entries: Seq<MpfMpEntry>) -> Seq<MpfMpEntryView> {
    entries.map_values(|e: MpfMpEntry| e@)
}

impl View for MpfInfo {
    type V = Seq<MpfMpEntryView>;

    closed spec fn view(&self) -> Seq<MpfMpEntryView> {
        spec_mp_entry_views(self.mp_entries@)
    }
}

/// The MP entry that a record of 16 bytes holds: four bytes of attribute,
/// the size and the offset of the image in 32 bits each, and the numbers of
/// two dependent images in 16 bits each.
pub open spec fn spec_mp_entry(record: Seq<u8>, e: Endianness) -> MpfMpEntryView
    recommends
        record.len() == 16,
{
    MpfMpEntryView {
        individual_image_attribute: record.subrange(0, 4),
        individual_image_size: e.spec_u32(record.subrange(4, 8)),
        individual_image_data_offset: e.spec_u32(record.subrange(8, 12)),
        dependent_image_1_entry_number: e.spec_u16(record.subrange(12, 14)),
        dependent_image_2_entry_number: e.spec_u16(record.subrange(14, 16)),
    }
}

/// The record of the image of index `i` in an MP Entry field.
pub open spec fn spec_mp_record(field: Seq<u8>, i: int) -> Seq<u8> {
    field.subrange(16 * i, 16 * i + 16)
}

/// The MP entries that an MP Entry field of `16 * n` bytes holds, in the
/// order of the file.
pub open spec fn spec_mp_entries(field: Seq<u8>, e: Endianness, n: nat) -> Seq<MpfMpEntryView> {
    Seq::new(n, |i: int| spec_mp_entry(spec_mp_record(field, i), e))
}

/// The number of images that the index directory announces: the first item
/// of its LONG entry with tag 0xB001.
pub open spec fn spec_number_of_images(ifd: TiffIfdView) -> Option<u32> {
    match ifd.entry_with_tag(TAG_NUMBER_OF_IMAGES) {
        Some(entry) => match entry.as_long() {
            Some(items) => if items.len() > 0 {
                Some(items[0])
            } else {
                None
            },
            None => None,
        },
        None => None,
    }
}

/// The MP Entry field of the index directory: the bytes of its UNDEFINED
/// entry with tag 0xB002.
pub open spec fn spec_mp_entry_field(ifd: TiffIfdView) -> Option<Seq<u8>> {
    match ifd.entry_with_tag(TAG_MP_ENTRY) {
        Some(entry) => entry.as_undefined(),
        None => None,
    }
}

/// The MP entries that the index directory `ifd` of a stream in byte order
/// `e` announces, or the first reason why it announces none. The checks come
/// in this order: the version, the number of images, the MP Entry field.
pub open spec fn spec_mpf_of_ifd(ifd: TiffIfdView, e: Endianness) -> Result<
    Seq<MpfMpEntryView>,
    MpfError,
> {
    match ifd.entry_with_tag(TAG_MP_FORMAT_VERSION) {
        None => Err(MpfError::MissingVersion),
        Some(version) => match version.as_undefined() {
            None => Err(MpfError::VersionNotUndefined),
            Some(version_bytes) => if version_bytes != spec_mp_format_version() {
                Err(MpfError::UnsupportedVersion)
            } else {
                match ifd.entry_with_tag(TAG_NUMBER_OF_IMAGES) {
                    None => Err(MpfError::MissingNumberOfImages),
                    Some(number) => match number.as_long() {
                        None => Err(MpfError::NumberOfImagesNotLong),
                        Some(items) => if items.len() == 0 {
                            Err(MpfError::NumberOfImagesEmpty)
                        } else {
                            match ifd.entry_with_tag(TAG_MP_ENTRY) {
                                None => Err(MpfError::MissingEntries),
                                Some(entries) => match entries.as_undefined() {
                                    None => Err(MpfError::EntriesNotUndefined),
                                    Some(field) => if field.len() != 16 * items[0] {
                                        Err(MpfError::EntriesLengthMismatch)
                                    } else {
                                        Ok(spec_mp_entries(field, e, items[0] as nat))
                                    },
                                },
                            }
                        },
                    },
                }
            },
        },
    }
}

/// The MP entries that a parsed TIFF stream announces in its first directory.
pub open spec fn spec_mpf_of_tiff(tiff: TiffView) -> Result<
    Seq<MpfMpEntryView>,
    MpfError,
> {
    if tiff.ifds.len() == 0 {
        Err(MpfError::MissingIndexIfd)
    } else {
        spec_mpf_of_ifd(tiff.ifds[0], tiff.header.endianness)
    }
}

/// The MP entries that the payload `bytes` of an MPF marker announces.
pub open spec fn spec_mpf(bytes: Seq<u8>) -> Result<Seq<MpfMpEntryView>, MpfError> {
    match spec_tiff(bytes, 0) {
        Err(error) => Err(MpfError::Tiff(error)),
        Ok(tiff) => spec_mpf_of_tiff(tiff),
    }
}

/// What a parsing function returned, with the index taken by its view.
pub open spec fn spec_mpf_result(r: Result<MpfInfo, MpfError>) -> Result<
    Seq<MpfMpEntryView>,
    MpfError,
> {
    match r {
        Ok(info) => Ok(info@),
        Err(error) => Err(error),
    }
}

impl MpfMpEntry {
    /// Decodes one record of the MP Entry field.
    pub fn from_record(record: &[u8; 16], endianness: Endianness) -> (entry: MpfMpEntry)
        ensures
            entry@ == spec_mp_entry(record@, endianness),
    {
        let attribute: [u8; 4] = [record[0], record[1], record[2], record[3]];
        let size: [u8; 4] = [record[4], record[5], record[6], record[7]];
        let offset: [u8; 4] = [record[8], record[9], record[10], record[11]];
        let dependent_1: [u8; 2] = [record[12], record[13]];
        let dependent_2: [u8; 2] = [record[14], record[15]];
        proof {
            assert(attribute@ =~= record@.subrange(0, 4));
            assert(size@ =~= record@.subrange(4, 8));
            assert(offset@ =~= record@.subrange(8, 12));
            assert(dependent_1@ =~= record@.subrange(12, 14));
            assert(dependent_2@ =~= record@.subrange(14, 16));
        }
        MpfMpEntry {
            individual_image_attribute: attribute,
            individual_image_size: endianness.u32_from_bytes(size),
            individual_image_data_offset: endianness.u32_from_bytes(offset),
            dependent_image_1_entry_number: endianness.u16_from_bytes(dependent_1),
            dependent_image_2_entry_number: endianness.u16_from_bytes(dependent_2),
        }
    }
}

/// Checks that the index directory announces version `0100`.
fn check_version(ifd: &TiffIfd) -> (r: Result<(), MpfError>)
    ensures
        match r {
            Ok(_) => ifd@.entry_with_tag(TAG_MP_FORMAT_VERSION) is Some && ifd@.entry_with_tag(
                TAG_MP_FORMAT_VERSION,
            ).unwrap().as_undefined() == Some(spec_mp_format_version()),
            Err(error) => match ifd@.entry_with_tag(TAG_MP_FORMAT_VERSION) {
                None => error == MpfError::MissingVersion,
                Some(version) => match version.as_undefined() {
                    None => error == MpfError::VersionNotUndefined,
                    Some(version_bytes) => version_bytes != spec_mp_format_version() && error
                        == MpfError::UnsupportedVersion,
                },
            },
        },
{
    let version_entry: &TiffIfdEntry = match ifd.entry_with_tag(TAG_MP_FORMAT_VERSION) {
        Some(entry) => entry,
        None => return Err(MpfError::MissingVersion),
    };
    let version_bytes: &[u8] = match version_entry.field_value_as_undefined() {
        Some(bytes) => bytes,
        None => return Err(MpfError::VersionNotUndefined),
    };
    if version_bytes.len() == 4 && version_bytes[0] == 48 && version_bytes[1] == 49
        && version_bytes[2] == 48 && version_bytes[3] == 48 {
        assert(version_bytes@ =~= spec_mp_format_version());
        Ok(())
    } else {
        assert(version_bytes@ != spec_mp_format_version()) by {
            if version_bytes@ == spec_mp_format_version() {
                assert(version_bytes@.len() == 4);
                assert(version_bytes@[0] == 48 && version_bytes@[1] == 49);
                assert(version_bytes@[2] == 48 && version_bytes@[3] == 48);
            }
        }
        Err(MpfError::UnsupportedVersion)
    }
}

impl MpfInfo {
    /// The images of the file, the primary image first.
    pub fn mp_entries(&self) -> (entries: &[MpfMpEntry])
        ensures
            spec_mp_entry_views(entries@) == self@,
    {
        self.mp_entries.as_slice()
    }

    /// Reads the index from the first directory of a parsed TIFF stream.
    pub fn from_tiff(tiff: &Tiff) -> (r: Result<MpfInfo, MpfError>)
        ensures
            spec_mpf_result(r) == spec_mpf_of_tiff(tiff@),
    {
        if tiff.ifds.len() == 0 {
            return Err(MpfError::MissingIndexIfd);
        }
        let mp_index_ifd: &TiffIfd = &tiff.ifds[0];
        let endianness: Endianness = tiff.header.endianness;
        assert(tiff@.ifds[0] == mp_index_ifd@);

        check_version(mp_index_ifd)?;

        let number_of_images: u32 = {
            let number_of_images_entry: &TiffIfdEntry = match mp_index_ifd.entry_with_tag(
                TAG_NUMBER_OF_IMAGES,
            ) {
                Some(entry) => entry,
                None => return Err(MpfError::MissingNumberOfImages),
            };
            let items: &[u32] = match number_of_images_entry.field_value_as_long() {
                Some(items) => items,
                None => return Err(MpfError::NumberOfImagesNotLong),
            };
            if items.len() == 0 {
                return Err(MpfError::NumberOfImagesEmpty);
            }
            items[0]
        };

        let mp_entry_entry: &TiffIfdEntry = match mp_index_ifd.entry_with_tag(TAG_MP_ENTRY) {
            Some(entry) => entry,
            None => return Err(MpfError::MissingEntries),
        };
        let mp_entry_bytes: &[u8] = match mp_entry_entry.field_value_as_undefined() {
            Some(bytes) => bytes,
            None => return Err(MpfError::EntriesNotUndefined),
        };
        if mp_entry_bytes.len() as u64 != 16 * (number_of_images as u64) {
            return Err(MpfError::EntriesLengthMismatch);
        }
        let count: usize = number_of_images as usize;
        let mut mp_entries: Vec<MpfMpEntry> = Vec::new();
        let mut i: usize = 0;
        while i < count
            invariant
                i <= count,
                mp_entry_bytes.len() == 16 * count,
                mp_entries.len() == i,
                forall|k: int|
                    0 <= k < i ==> (#[trigger] mp_entries[k])@ == spec_mp_entry(
                        spec_mp_record(mp_entry_bytes@, k),
                        endianness,
                    ),
            decreases count - i,
        {
            let at: usize = i * 16;
            let record: [u8; 16] = [
                mp_entry_bytes[at],
                mp_entry_bytes[at + 1],
                mp_entry_bytes[at + 2],
                mp_entry_bytes[at + 3],
                mp_entry_bytes[at + 4],
                mp_entry_bytes[at + 5],
                mp_entry_bytes[at + 6],
                mp_entry_bytes[at + 7],
                mp_entry_bytes[at + 8],
                mp_entry_bytes[at + 9],
                mp_entry_bytes[at + 10],
                mp_entry_bytes[at + 11],
                mp_entry_bytes[at + 12],
                mp_entry_bytes[at + 13],
                mp_entry_bytes[at + 14],
                mp_entry_bytes[at + 15],
            ];
            assert(record@ =~= spec_mp_record(mp_entry_bytes@, i as int));
            mp_entries.push(MpfMpEntry::from_record(&record, endianness));
            i += 1;
        }
        assert(spec_mp_entry_views(mp_entries@) =~= spec_mp_entries(
            mp_entry_bytes@,
            endianness,
            count as nat,
        ));
        Ok(Self { mp_entries })
    }

    /// Reads the index from the payload of an MPF marker.
    pub fn new_from_bytes(mpf_bytes: &[u8]) -> (r: Result<MpfInfo, MpfError>)
        ensures
            spec_mpf_result(r) == spec_mpf(mpf_bytes@),
    {
        let mut reader: ByteReader = ByteReader::new(mpf_bytes);
        let mpf_tiff: Tiff = match Tiff::from_reader(&mut reader) {
            Ok(tiff) => tiff,
            Err(error) => return Err(MpfError::Tiff(error)),
        };
        Self::from_tiff(&mpf_tiff)
    }
}

/// The offset of the image of index `i` as the MP Entry field stores it.
pub open spec fn spec_stored_data_offset(field: Seq<u8>, e: Endianness, i: int) -> u32 {
    e.spec_u32(spec_mp_record(field, i).subrange(8, 12))
}

/// An index that announces N images parses to exactly N entries, in the
/// order of the file: the MP Entry field holds N records of 16 bytes, and
/// the entry of index `i` is what the record of index `i` holds.
pub proof fn lemma_mpf_entries_in_file_order(ifd: TiffIfdView, e: Endianness)
    requires
        spec_mpf_of_ifd(ifd, e) is Ok,
    ensures
        spec_number_of_images(ifd) is Some,
        spec_mp_entry_field(ifd) is Some,
        spec_mp_entry_field(ifd).unwrap().len() == 16 * spec_number_of_images(ifd).unwrap(),
        spec_mpf_of_ifd(ifd, e).unwrap().len() == spec_number_of_images(ifd).unwrap(),
        forall|i: int|
            0 <= i < spec_number_of_images(ifd).unwrap() ==> (#[trigger] spec_mpf_of_ifd(
                ifd,
                e,
            ).unwrap()[i]) == spec_mp_entry(
                spec_mp_record(spec_mp_entry_field(ifd).unwrap(), i),
                e,
            ),
{
}

/// Where the offsets that the MP Entry field stores increase from image to
/// image, so do the offsets of the entries that are parsed from it. The
/// parser itself takes the offsets as they are stored and does not compare
/// them.
pub proof fn lemma_mpf_offsets_increase(ifd: TiffIfdView, e: Endianness)
    requires
        spec_mpf_of_ifd(ifd, e) is Ok,
        forall|i: int, j: int|
            0 <= i < j < spec_number_of_images(ifd).unwrap() ==> spec_stored_data_offset(
                spec_mp_entry_field(ifd).unwrap(),
                e,
                i,
            ) < spec_stored_data_offset(spec_mp_entry_field(ifd).unwrap(), e, j),
    ensures
        forall|i: int, j: int|
            0 <= i < j < spec_mpf_of_ifd(ifd, e).unwrap().len() ==> (#[trigger] spec_mpf_of_ifd(
                ifd,
                e,
            ).unwrap()[i]).individual_image_data_offset < (#[trigger] spec_mpf_of_ifd(
                ifd,
                e,
            ).unwrap()[j]).individual_image_data_offset,
{
    lemma_mpf_entries_in_file_order(ifd, e);
    let entries = spec_mpf_of_ifd(ifd, e).unwrap();
    let field = spec_mp_entry_field(ifd).unwrap();
    assert forall|i: int, j: int| 0 <= i < j < entries.len() implies (#[trigger] entries[i]).individual_image_data_offset
        < (#[trigger] entries[j]).individual_image_data_offset by {
        assert(entries[i].individual_image_data_offset == spec_stored_data_offset(field, e, i));
        assert(entries[j].individual_image_data_offset == spec_stored_data_offset(field, e, j));
    }
}

/// A payload that is a TIFF stream has a first directory, and its index is
/// the index of that directory: reading a payload never fails for want of a
/// directory.
pub proof fn lemma_mpf_index_is_first_ifd(bytes: Seq<u8>)
    requires
        spec_tiff(bytes, 0) is Ok,
    ensures
        spec_tiff(bytes, 0).unwrap().ifds.len() >= 1,
        spec_mpf(bytes) == spec_mpf_of_ifd(
            spec_tiff(bytes, 0).unwrap().ifds[0],
            spec_tiff(bytes, 0).unwrap().header.endianness,
        ),
        spec_mpf(bytes) != Err::<Seq<MpfMpEntryView>, MpfError>(MpfError::MissingIndexIfd),
{
    lemma_tiff_well_formed(bytes, 0);
}

} // verus!
