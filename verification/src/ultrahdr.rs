//! An Ultra HDR file taken apart: the primary image, the gain map behind
//! it, and the gain map properties of the gain map's XMP packet.

use vstd::prelude::*;

use crate::jpeg::{spec_gain_map_bytes, UhdrJpeg, UhdrJpegView};
use crate::xmp::{spec_gain_map_xmp_of_bytes, GainMapXmp, GainMapXmpView};

verus! {

/// The parts of an Ultra HDR file.
#[derive(Debug, Clone, PartialEq, Eq)]
pub struct UltraHdrImage {
    /// The image that the file starts with.
    pub primary: UhdrJpeg,
    /// The image behind the primary image.
    pub gain_map: UhdrJpeg,
    /// The gain map properties that the XMP packet of the gain map holds.
    pub gain_map_xmp: GainMapXmp,
}

/// Why a file is no Ultra HDR file.
#[derive(Debug, Clone, PartialEq, Eq)]
pub enum UltraHdrError {
    /// The file is no JPEG image; the decoder's message.
    Jpeg(String),
    /// The file holds no gain map that can be cut out and decoded.
    GainMap,
    /// The gain map carries no XMP packet.
    GainMapXmpMissing,
    /// The XMP packet of the gain map does not hold the gain map properties.
    GainMapXmpInvalid,
}

/// The mathematical content of an [`UltraHdrImage`].
pub struct UltraHdrImageView {
    pub primary: UhdrJpegView,
    pub gain_map: UhdrJpegView,
    pub gain_map_xmp: GainMapXmpView,
}

impl View for UltraHdrImage {
    type V = UltraHdrImageView;

    open spec fn view(&self) -> UltraHdrImageView {
        UltraHdrImageView {
            primary: self.primary@,
            gain_map: self.gain_map@,
            gain_map_xmp: self.gain_map_xmp@,
        }
    }
}

impl UltraHdrImageView {
    /// Whether the parts belong together: both images are well formed, and
    /// the properties are those of the gain map's XMP packet.
    pub open spec fn well_formed(self) -> bool {
        &&& self.primary.well_formed()
        &&& self.gain_map.well_formed()
        &&& self.gain_map.xmp_bytes is Some
        &&& spec_gain_map_xmp_of_bytes(self.gain_map.xmp_bytes.unwrap()) == Some(
            self.gain_map_xmp,
        )
    }
}

/// What two decoded images make: an Ultra HDR image, or the first thing
/// that is missing.
pub open spec fn spec_ultra_hdr(primary: UhdrJpegView, gain_map: Option<UhdrJpegView>) -> Result<
    UltraHdrImageView,
    UltraHdrError,
> {
    match gain_map {
        None => Err(UltraHdrError::GainMap),
        Some(gain_map) => match gain_map.xmp_bytes {
            None => Err(UltraHdrError::GainMapXmpMissing),
            Some(xmp_bytes) => match spec_gain_map_xmp_of_bytes(xmp_bytes) {
                None => Err(UltraHdrError::GainMapXmpInvalid),
                Some(gain_map_xmp) => Ok(UltraHdrImageView { primary, gain_map, gain_map_xmp }),
            },
        },
    }
}

/// The view of an optional image.
pub open spec fn spec_optional_image(image: Option<UhdrJpeg>) -> Option<UhdrJpegView> {
    match image {
        Some(i) => Some(i@),
        None => None,
    }
}

/// What a function that builds an Ultra HDR image returned, with the image
/// taken by its view.
pub open spec fn spec_ultra_hdr_result(r: Result<UltraHdrImage, UltraHdrError>) -> Result<
    UltraHdrImageView,
    UltraHdrError,
> {
    match r {
        Ok(image) => Ok(image@),
        Err(error) => Err(error),
    }
}

impl UltraHdrImage {
    /// Puts a primary image and the gain map that was cut out of its file
    /// together, and reads the gain map properties.
    pub fn from_images(primary: UhdrJpeg, gain_map: Option<UhdrJpeg>) -> (r: Result<
        UltraHdrImage,
        UltraHdrError,
    >)
        ensures
            spec_ultra_hdr_result(r) == spec_ultra_hdr(primary@, spec_optional_image(gain_map)),
    {
        let gain_map: UhdrJpeg = match gain_map {
            Some(gain_map) => gain_map,
            None => return Err(UltraHdrError::GainMap),
        };
        let read: Option<GainMapXmp> = match gain_map.xmp_bytes() {
            Some(xmp_bytes) => GainMapXmp::new_from_xmp_bytes(xmp_bytes),
            None => return Err(UltraHdrError::GainMapXmpMissing),
        };
        match read {
            Some(gain_map_xmp) => Ok(UltraHdrImage { primary, gain_map, gain_map_xmp }),
            None => Err(UltraHdrError::GainMapXmpInvalid),
        }
    }

    /// Takes an Ultra HDR file apart: decodes the primary image, cuts the
    /// gain map out where the index of the primary image says, decodes it,
    /// and reads the gain map properties from its XMP packet.
    ///
    /// Whether the two images decode lies with the decoder. What comes back
    /// belongs together, and the file has a gain map where the index of the
    /// primary image says.
    pub fn new_from_bytes(jpeg_bytes: &[u8]) -> (r: Result<UltraHdrImage, UltraHdrError>)
        ensures
            r is Ok ==> r.unwrap()@.well_formed() && spec_gain_map_bytes(
                r.unwrap()@.primary.mpf_bytes,
                jpeg_bytes@,
            ) is Some,
    {
        let primary: UhdrJpeg = match UhdrJpeg::new_from_bytes(jpeg_bytes) {
            Ok(primary) => primary,
            Err(message) => return Err(UltraHdrError::Jpeg(message)),
        };
        let gain_map: Option<UhdrJpeg> = primary.extract_gain_map_jpeg(jpeg_bytes);
        Self::from_images(primary, gain_map)
    }
}

} // verus!
