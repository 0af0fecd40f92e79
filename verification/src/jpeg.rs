//! A decoded JPEG image with the metadata that Ultra HDR needs: the raster,
//! and the raw XMP, ICC and Multi-Picture Format payloads of its markers.

use vstd::prelude::*;
use vstd::slice::slice_subrange;

use zune_jpeg::zune_core::bytestream::ZCursor;
use zune_jpeg::zune_core::colorspace::ColorSpace;
use zune_jpeg::JpegDecoder;

use crate::mpf::{spec_mpf, MpfInfo, MpfMpEntry};

verus! {

/// The decoder of `zune_jpeg`. Nothing is known of what one holds.
#[verifier::external_type_specification]
#[verifier::external_body]
#[verifier::reject_recursive_types(T)]
pub struct ExJpegDecoder<T>(JpegDecoder<T>);

/// The in-memory source of `zune_core` that the decoder reads from.
#[verifier::external_type_specification]
#[verifier::external_body]
#[verifier::reject_recursive_types(T)]
pub struct ExZCursor<T>(ZCursor<T>);

/// How the samples of a decoded raster are laid out.
#[derive(Debug, Clone, Copy, PartialEq, Eq, Structural)]
pub enum JpegColorSpace {
    /// Three bytes for each pixel: red, green, blue.
    RGB,
    /// One byte for each pixel.
    Luma,
    /// A layout that this library does not read pixels from.
    Other,
}

/// What the headers of a JPEG image say of it.
#[derive(Debug, Clone, PartialEq, Eq)]
pub struct JpegHeaderInfo {
    pub width: u16,
    pub height: u16,
    /// The payload of the Multi-Picture Format marker.
    pub multi_picture_information: Option<Vec<u8>>,
}

/// `JpegDecoder::new` of `zune_jpeg`, on a `ZCursor` over `jpeg_bytes`.
#[verifier::external_body]
fn decoder_new<'a>(jpeg_bytes: &'a [u8]) -> JpegDecoder<ZCursor<&'a [u8]>> {
    JpegDecoder::new(ZCursor::new(jpeg_bytes))
}

/// `JpegDecoder::decode_headers` of `zune_jpeg`. A failure comes back as the
/// decoder's own message behind a prefix; nothing is claimed of when it
/// fails.
#[verifier::external_body]
fn decoder_decode_headers<'a>(decoder: &mut JpegDecoder<ZCursor<&'a [u8]>>) -> Result<(), String> {
    decoder.decode_headers().map_err(|e| format!("Failed to decode JPEG headers: {}", e))
}

/// `JpegDecoder::info` of `zune_jpeg`: the fields of its `ImageInfo` that
/// this library reads. `None` means that no headers were decoded.
#[verifier::external_body]
fn decoder_info<'a>(decoder: &JpegDecoder<ZCursor<&'a [u8]>>) -> Option<JpegHeaderInfo> {
    decoder.info().map(
        |info|
            JpegHeaderInfo {
                width: info.width,
                height: info.height,
                multi_picture_information: info.multi_picture_information,
            },
    )
}

/// `JpegDecoder::xmp` of `zune_jpeg`: a copy of the XMP packet, if the
/// headers hold one.
#[verifier::external_body]
fn decoder_xmp<'a>(decoder: &JpegDecoder<ZCursor<&'a [u8]>>) -> Option<Vec<u8>> {
    decoder.xmp().cloned()
}

/// `JpegDecoder::output_colorspace` of `zune_jpeg`, told apart as far as
/// this library reads pixels. `None` means that no headers were decoded.
#[verifier::external_body]
fn decoder_output_colorspace<'a>(decoder: &JpegDecoder<ZCursor<&'a [u8]>>) -> Option<
    JpegColorSpace,
> {
    decoder.output_colorspace().map(
        |color_space|
            match color_space {
                ColorSpace::RGB => JpegColorSpace::RGB,
                ColorSpace::Luma => JpegColorSpace::Luma,
                _ => JpegColorSpace::Other,
            },
    )
}

/// `JpegDecoder::decode` of `zune_jpeg`: the samples of the image. A failure
/// comes back as the decoder's own message behind a prefix; nothing is
/// claimed of the samples or of when it fails.
#[verifier::external_body]
fn decoder_decode<'a>(decoder: &mut JpegDecoder<ZCursor<&'a [u8]>>) -> Result<Vec<u8>, String> {
    decoder.decode().map_err(|e| format!("Failed to decode JPEG image: {}", e))
}

/// `JpegDecoder::icc_profile` of `zune_jpeg`: the embedded ICC profile, if
/// the headers hold a complete one.
#[verifier::external_body]
fn decoder_icc_profile<'a>(decoder: &JpegDecoder<ZCursor<&'a [u8]>>) -> Option<Vec<u8>> {
    decoder.icc_profile()
}

/// Represents a JPEG image, potentially with Ultra HDR metadata and gain
/// map information: the decoded raster, eight bits for each sample, and the
/// payloads of the XMP, ICC and Multi-Picture Format markers as they were
/// found.
#[derive(Debug, PartialEq, Eq)]
pub struct UhdrJpeg {
    width: u16,
    height: u16,
    jpeg_color_space: JpegColorSpace,
    pixels: Vec<u8>,
    xmp_bytes: Option<Vec<u8>>,
    icc_profile_bytes: Option<Vec<u8>>,
    mpf_bytes: Option<Vec<u8>>,
}

/// The mathematical content of a [`UhdrJpeg`].
pub struct UhdrJpegView {
    pub width: nat,
    pub height: nat,
    pub color_space: JpegColorSpace,
    pub pixels: Seq<u8>,
    pub xmp_bytes: Option<Seq<u8>>,
    pub icc_profile_bytes: Option<Seq<u8>>,
    pub mpf_bytes: Option<Seq<u8>>,
}

/// The four texels that a bilinear sample mixes, as they are stored, and
/// the texel that they are anchored at.
#[derive(Debug, Clone, Copy, PartialEq, Eq)]
pub struct BilinearTexels {
    /// The column of the anchor, within the image.
    pub base_x: usize,
    /// The row of the anchor, within the image.
    pub base_y: usize,
    /// The texel at the anchor.
    pub top_left: Option<[u8; 3]>,
    /// The texel below the anchor.
    pub bottom_left: Option<[u8; 3]>,
    /// The texel right of the anchor.
    pub top_right: Option<[u8; 3]>,
    /// The texel right of and below the anchor.
    pub bottom_right: Option<[u8; 3]>,
}

/// The bytes of an optional byte vector.
pub open spec fn spec_optional_bytes(bytes: Option<Vec<u8>>) -> Option<Seq<u8>> {
    match bytes {
        Some(b) => Some(b@),
        None => None,
    }
}

/// The three samples of an optional texel.
pub open spec fn spec_optional_texel(texel: Option<[u8; 3]>) -> Option<Seq<u8>> {
    match texel {
        Some(t) => Some(t@),
        None => None,
    }
}

impl JpegColorSpace {
    /// The number of bytes that one pixel takes; 0 where pixels are not read.
    pub open spec fn spec_channels(self) -> nat {
        match self {
            JpegColorSpace::RGB => 3,
            JpegColorSpace::Luma => 1,
            JpegColorSpace::Other => 0,
        }
    }
}

impl UhdrJpegView {
    /// Whether the raster fits the extent: no side is 0, and a raster of RGB
    /// or Luma samples holds exactly the samples of width times height
    /// pixels.
    pub open spec fn well_formed(self) -> bool {
        &&& 1 <= self.width <= u16::MAX
        &&& 1 <= self.height <= u16::MAX
        &&& self.color_space != JpegColorSpace::Other ==> self.pixels.len() == self.width
            * self.height * self.color_space.spec_channels()
    }

    /// The index in row-major order of the pixel in column `x` of row `y`.
    pub open spec fn pixel_index(self, x: int, y: int) -> int {
        y * self.width + x
    }

    /// Red, green and blue of the pixel in column `x` of row `y`. A Luma
    /// sample stands for all three. There is none outside the image, nor in
    /// a raster of another layout.
    pub open spec fn rgb888(self, x: int, y: int) -> Option<Seq<u8>> {
        if 0 <= x < self.width && 0 <= y < self.height {
            let i = self.pixel_index(x, y);
            match self.color_space {
                JpegColorSpace::RGB => Some(
                    seq![self.pixels[3 * i], self.pixels[3 * i + 1], self.pixels[3 * i + 2]],
                ),
                JpegColorSpace::Luma => Some(
                    seq![self.pixels[i], self.pixels[i], self.pixels[i]],
                ),
                JpegColorSpace::Other => None,
            }
        } else {
            None
        }
    }
}

/// The bytes of the gain map image in a file `file` whose primary image
/// carries the MPF payload `mpf_bytes`: from the size of the primary image,
/// which the first MP entry gives, up to the last byte of the file, that
/// byte left out. There are none where the payload is missing or does not
/// parse, where it lists fewer than two images, or where the file is shorter
/// than the primary image is said to be.
pub open spec fn spec_gain_map_bytes(mpf_bytes: Option<Seq<u8>>, file: Seq<u8>) -> Option<
    Seq<u8>,
> {
    match mpf_bytes {
        None => None,
        Some(payload) => match spec_mpf(payload) {
            Err(_) => None,
            Ok(entries) => if entries.len() < 2 {
                None
            } else {
                let start = entries[0].individual_image_size as int;
                if start <= file.len() - 1 {
                    Some(file.subrange(start, file.len() - 1))
                } else {
                    None
                }
            },
        },
    }
}

/// The pixels of a row-major raster lie inside it.
proof fn lemma_pixel_index_in_range(width: nat, height: nat, x: nat, y: nat)
    requires
        x < width,
        y < height,
    ensures
        y * width <= y * width + x < width * height,
{
    assert(y * width + width <= width * height) by (nonlinear_arith)
        requires
            y + 1 <= height,
    ;
    assert(0 <= y * width) by (nonlinear_arith);
}

impl View for UhdrJpeg {
    type V = UhdrJpegView;

    closed spec fn view(&self) -> UhdrJpegView {
        UhdrJpegView {
            width: self.width as nat,
            height: self.height as nat,
            color_space: self.jpeg_color_space,
            pixels: self.pixels@,
            xmp_bytes: spec_optional_bytes(self.xmp_bytes),
            icc_profile_bytes: spec_optional_bytes(self.icc_profile_bytes),
            mpf_bytes: spec_optional_bytes(self.mpf_bytes),
        }
    }
}

/// A copy of an optional byte vector.
fn clone_optional_bytes(bytes: &Option<Vec<u8>>) -> (r: Option<Vec<u8>>)
    ensures
        spec_optional_bytes(r) == spec_optional_bytes(*bytes),
{
    match bytes {
        Some(b) => {
            let copy: Vec<u8> = b.clone();
            assert(copy@ =~= b@);
            Some(copy)
        },
        None => None,
    }
}

impl Clone for UhdrJpeg {
    fn clone(&self) -> (r: Self)
        ensures
            r@ == self@,
    {
        proof {
            use_type_invariant(self);
        }
        let pixels: Vec<u8> = self.pixels.clone();
        assert(pixels@ =~= self.pixels@);
        UhdrJpeg {
            width: self.width,
            height: self.height,
            jpeg_color_space: self.jpeg_color_space,
            pixels,
            xmp_bytes: clone_optional_bytes(&self.xmp_bytes),
            icc_profile_bytes: clone_optional_bytes(&self.icc_profile_bytes),
            mpf_bytes: clone_optional_bytes(&self.mpf_bytes),
        }
    }
}

impl UhdrJpeg {
    #[verifier::type_invariant]
    spec fn type_invariant(&self) -> bool {
        self@.well_formed()
    }

    /// Puts an image together from what a decoder gave. Fails where the
    /// raster does not fit the extent.
    pub fn from_decoded(
        info: JpegHeaderInfo,
        jpeg_color_space: JpegColorSpace,
        pixels: Vec<u8>,
        xmp_bytes: Option<Vec<u8>>,
        icc_profile_bytes: Option<Vec<u8>>,
    ) -> (r: Option<UhdrJpeg>)
        ensures
            ({
                let view = UhdrJpegView {
                    width: info.width as nat,
                    height: info.height as nat,
                    color_space: jpeg_color_space,
                    pixels: pixels@,
                    xmp_bytes: spec_optional_bytes(xmp_bytes),
                    icc_profile_bytes: spec_optional_bytes(icc_profile_bytes),
                    mpf_bytes: spec_optional_bytes(info.multi_picture_information),
                };
                match r {
                    Some(jpeg) => view.well_formed() && jpeg@ == view,
                    None => !view.well_formed(),
                }
            }),
    {
        if info.width < 1 || info.height < 1 {
            return None;
        }
        let channels: u64 = match jpeg_color_space {
            JpegColorSpace::RGB => 3,
            JpegColorSpace::Luma => 1,
            JpegColorSpace::Other => 0,
        };
        assert(info.width * info.height <= 0xFFFF * 0xFFFF) by (nonlinear_arith)
            requires
                info.width <= 0xFFFF,
                info.height <= 0xFFFF,
        ;
        let pixel_count: u64 = info.width as u64 * info.height as u64;
        if channels != 0 && pixels.len() as u64 != pixel_count * channels {
            return None;
        }
        Some(
            UhdrJpeg {
                width: info.width,
                height: info.height,
                jpeg_color_space,
                pixels,
                xmp_bytes,
                icc_profile_bytes,
                mpf_bytes: info.multi_picture_information,
            },
        )
    }

    /// Creates a new `UhdrJpeg` instance from the provided JPEG bytes.
    /// This function decodes the JPEG image and extracts the XMP metadata,
    /// the ICC profile and the pixel data. Despite the struct's name, the
    /// JPEG does not need to be in an Ultra HDR JPEG format for this function
    /// to succeed.
    ///
    /// Whether it succeeds, and with what, lies with the decoder. What comes
    /// back is put together by [`UhdrJpeg::from_decoded`], so an image that
    /// comes back is well formed.
    pub fn new_from_bytes(jpeg_bytes: &[u8]) -> (r: Result<UhdrJpeg, String>)
        ensures
            r is Ok ==> r.unwrap()@.well_formed(),
    {
        let mut jpeg_decoder = decoder_new(jpeg_bytes);
        decoder_decode_headers(&mut jpeg_decoder)?;

        let jpeg_info: JpegHeaderInfo = match decoder_info(&jpeg_decoder) {
            Some(info) => info,
            None => return Err("Failed to get JPEG image information".to_owned()),
        };
        let xmp_bytes: Option<Vec<u8>> = decoder_xmp(&jpeg_decoder);
        let jpeg_output_color_space: JpegColorSpace = match decoder_output_colorspace(
            &jpeg_decoder,
        ) {
            Some(color_space) => color_space,
            None => return Err("Failed to get JPEG output ColorSpace".to_owned()),
        };
        let pixels: Vec<u8> = decoder_decode(&mut jpeg_decoder)?;
        let icc_profile_bytes: Option<Vec<u8>> = decoder_icc_profile(&jpeg_decoder);

        match Self::from_decoded(
            jpeg_info,
            jpeg_output_color_space,
            pixels,
            xmp_bytes,
            icc_profile_bytes,
        ) {
            Some(jpeg) => Ok(jpeg),
            None => Err("Decoded JPEG raster does not fit the image extent".to_owned()),
        }
    }

    /// Width and height of the image, in pixels. Neither is 0, and the
    /// raster fits them.
    pub fn extent(&self) -> (r: (usize, usize))
        ensures
            r.0 == self@.width,
            r.1 == self@.height,
            self@.well_formed(),
    {
        proof {
            use_type_invariant(self);
        }
        (self.width as usize, self.height as usize)
    }

    /// The layout of the samples.
    pub fn jpeg_color_space(&self) -> (r: JpegColorSpace)
        ensures
            r == self@.color_space,
    {
        self.jpeg_color_space
    }

    /// The decoded samples, row by row.
    pub fn pixels(&self) -> (r: &[u8])
        ensures
            r@ == self@.pixels,
    {
        self.pixels.as_slice()
    }

    /// The XMP packet, if the image carries one.
    pub fn xmp_bytes(&self) -> (r: Option<&[u8]>)
        ensures
            match r {
                Some(bytes) => self@.xmp_bytes == Some(bytes@),
                None => self@.xmp_bytes is None,
            },
    {
        match &self.xmp_bytes {
            Some(bytes) => Some(bytes.as_slice()),
            None => None,
        }
    }

    /// The embedded ICC profile, if the image carries one.
    pub fn icc_profile_bytes(&self) -> (r: Option<&[u8]>)
        ensures
            match r {
                Some(bytes) => self@.icc_profile_bytes == Some(bytes@),
                None => self@.icc_profile_bytes is None,
            },
    {
        match &self.icc_profile_bytes {
            Some(bytes) => Some(bytes.as_slice()),
            None => None,
        }
    }

    /// Returns the MPF (Multi-Picture Format) information bytes if available,
    /// which can be parsed according to _CIPA DC-007_.
    pub fn mpf_bytes(&self) -> (r: Option<&[u8]>)
        ensures
            match r {
                Some(bytes) => self@.mpf_bytes == Some(bytes@),
                None => self@.mpf_bytes is None,
            },
    {
        match &self.mpf_bytes {
            Some(bytes) => Some(bytes.as_slice()),
            None => None,
        }
    }

    /// The part of `file_bytes` that holds the gain map image, where
    /// `file_bytes` is the file that this image is the primary image of.
    pub fn gain_map_jpeg_bytes<'a>(&self, file_bytes: &'a [u8]) -> (r: Option<&'a [u8]>)
        ensures
            match r {
                Some(bytes) => spec_gain_map_bytes(self@.mpf_bytes, file_bytes@) == Some(
                    bytes@,
                ),
                None => spec_gain_map_bytes(self@.mpf_bytes, file_bytes@) is None,
            },
    {
        let mpf_info: MpfInfo = {
            let mpf_bytes: &[u8] = self.mpf_bytes()?;
            match MpfInfo::new_from_bytes(mpf_bytes) {
                Ok(info) => info,
                Err(_) => return None,
            }
        };
        let mp_entries: &[MpfMpEntry] = mpf_info.mp_entries();
        if mp_entries.len() < 2 {
            return None;
        }
        let first_mp_entry: &MpfMpEntry = &mp_entries[0];
        assert(mpf_info@[0] == first_mp_entry@);
        let offset: u32 = first_mp_entry.individual_image_size;
        if file_bytes.len() < 1 || offset as u64 > (file_bytes.len() - 1) as u64 {
            return None;
        }
        Some(slice_subrange(file_bytes, offset as usize, file_bytes.len() - 1))
    }

    /// Extracts the gain map JPEG from the bytes of the whole file if
    /// available, using the MPF information. Returns `None` if the JPEG does not
    /// contain MPF information or if the gain map JPEG cannot be extracted.
    pub fn extract_gain_map_jpeg(&self, file_bytes: &[u8]) -> (r: Option<UhdrJpeg>)
        ensures
            spec_gain_map_bytes(self@.mpf_bytes, file_bytes@) is None ==> r is None,
            r is Some ==> r.unwrap()@.well_formed(),
    {
        let gain_map_jpeg_bytes: &[u8] = self.gain_map_jpeg_bytes(file_bytes)?;
        match UhdrJpeg::new_from_bytes(gain_map_jpeg_bytes) {
            Ok(gain_map_jpeg) => Some(gain_map_jpeg),
            Err(_) => None,
        }
    }

    /// Red, green and blue of the pixel in column `x` of row `y`, as stored.
    /// A Luma sample stands for all three.
    pub fn get_pixel_as_rgb888(&self, x: usize, y: usize) -> (r: Option<[u8; 3]>)
        ensures
            spec_optional_texel(r) == self@.rgb888(x as int, y as int),
    {
        proof {
            use_type_invariant(self);
        }
        let width: usize = self.width as usize;
        let height: usize = self.height as usize;
        if x >= width || y >= height {
            return None;
        }
        proof {
            lemma_pixel_index_in_range(width as nat, height as nat, x as nat, y as nat);
            assert(self@.well_formed());
            assert(self@.width * self@.height == width * height);
            assert(width * height * 3 == 3 * (width * height)) by (nonlinear_arith);
            assert(width * height * 1 == width * height) by (nonlinear_arith);
            if self.jpeg_color_space != JpegColorSpace::Other {
                assert(width * height <= self.pixels.len());
            }
        }
        match self.jpeg_color_space {
            JpegColorSpace::RGB => {
                let pixel_index: usize = (y * width + x) * 3;
                let texel: [u8; 3] = [
                    self.pixels[pixel_index],
                    self.pixels[pixel_index + 1],
                    self.pixels[pixel_index + 2],
                ];
                assert(Some(texel@) =~= self@.rgb888(x as int, y as int));
                Some(texel)
            },
            JpegColorSpace::Luma => {
                let pixel_index: usize = y * width + x;
                let texel: [u8; 3] = [
                    self.pixels[pixel_index],
                    self.pixels[pixel_index],
                    self.pixels[pixel_index],
                ];
                assert(Some(texel@) =~= self@.rgb888(x as int, y as int));
                Some(texel)
            },
            JpegColorSpace::Other => None,
        }
    }

    /// The texels that a bilinear sample anchored at (`base_x`, `base_y`)
    /// mixes. The anchor is first moved into the image; a neighbour that
    /// then lies outside the image is missing.
    pub fn bilinear_texels(&self, base_x: usize, base_y: usize) -> (r: BilinearTexels)
        ensures
            r.base_x == if base_x < self@.width {
                base_x as int
            } else {
                self@.width - 1
            },
            r.base_y == if base_y < self@.height {
                base_y as int
            } else {
                self@.height - 1
            },
            r.base_x < self@.width,
            r.base_y < self@.height,
            self@.color_space != JpegColorSpace::Other ==> r.top_left is Some,
            spec_optional_texel(r.top_left) == self@.rgb888(r.base_x as int, r.base_y as int),
            spec_optional_texel(r.bottom_left) == self@.rgb888(r.base_x as int, r.base_y + 1),
            spec_optional_texel(r.top_right) == self@.rgb888(r.base_x + 1, r.base_y as int),
            spec_optional_texel(r.bottom_right) == self@.rgb888(r.base_x + 1, r.base_y + 1),
    {
        proof {
            use_type_invariant(self);
        }
        let width: usize = self.width as usize;
        let height: usize = self.height as usize;
        let base_x: usize = if base_x < width {
            base_x
        } else {
            width - 1
        };
        let base_y: usize = if base_y < height {
            base_y
        } else {
            height - 1
        };
        BilinearTexels {
            base_x,
            base_y,
            top_left: self.get_pixel_as_rgb888(base_x, base_y),
            bottom_left: self.get_pixel_as_rgb888(base_x, base_y + 1),
            top_right: self.get_pixel_as_rgb888(base_x + 1, base_y),
            bottom_right: self.get_pixel_as_rgb888(base_x + 1, base_y + 1),
        }
    }
}

} // verus!
