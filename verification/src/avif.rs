//! The way into the AVIF encoder for HDR10 frames: samples of ten bits in
//! Y'CbCr, checked before they are handed over.

use vstd::prelude::*;

use ravif::{Encoder, MatrixCoefficients, PixelRange};

verus! {

/// The matrix by which the samples of a frame were derived from RGB, as far
/// as the encoder can write it into a file.
#[derive(Debug, Clone, Copy, PartialEq, Eq, Structural)]
pub enum YcbcrMatrix {
    Identity,
    BT709,
    Unspecified,
    BT601,
    YCgCo,
    BT2020NCL,
    BT2020CL,
}

/// How a frame is to be encoded. The encoder writes the matrix and the
/// range into the file; it has no setting for the transfer characteristics
/// and the colour primaries of the samples.
#[derive(Debug, Clone, Copy, PartialEq, Eq, Structural)]
pub struct AvifSettings {
    /// Quality, from 1 to 100.
    pub quality: u8,
    /// Speed preset, from 1 (slowest) to 10.
    pub speed: u8,
    /// Whether the samples use the full range of their ten bits.
    pub full_range: bool,
    pub matrix: YcbcrMatrix,
}

/// What is wrong with a frame.
#[derive(Debug, Clone, Copy, PartialEq, Eq, Structural)]
pub enum FrameFault {
    /// The frame does not hold one pixel for each place of its extent.
    PixelCount,
    /// A sample does not fit into ten bits.
    SampleRange,
}

/// Why no image was encoded.
#[derive(Debug, Clone, PartialEq, Eq)]
pub enum AvifError {
    /// The settings are not ones that the encoder takes.
    Settings,
    /// The frame was not handed to the encoder.
    Frame(FrameFault),
    /// The encoder failed; its message.
    Encoder(String),
}

/// The largest sample of ten bits.
pub const MAX_SAMPLE: u16 = 1023;

impl AvifSettings {
    /// Whether the encoder takes these settings.
    pub open spec fn valid(self) -> bool {
        &&& 1 <= self.quality <= 100
        &&& 1 <= self.speed <= 10
    }

    /// The settings of an HDR10 image: quality 100, speed 4, full range,
    /// the non-constant-luminance matrix of BT.2020.
    pub open spec fn spec_hdr10() -> AvifSettings {
        AvifSettings { quality: 100, speed: 4, full_range: true, matrix: YcbcrMatrix::BT2020NCL }
    }

    /// The settings of an HDR10 image.
    pub fn hdr10() -> (r: AvifSettings)
        ensures
            r == Self::spec_hdr10(),
            r.valid(),
    {
        AvifSettings { quality: 100, speed: 4, full_range: true, matrix: YcbcrMatrix::BT2020NCL }
    }
}

/// Whether each sample of the first `n` pixels fits into ten bits.
pub open spec fn spec_samples_fit(pixels: Seq<[u16; 3]>, n: int) -> bool {
    forall|i: int, c: int| 0 <= i < n && 0 <= c < 3 ==> (#[trigger] pixels[i][c]) <= MAX_SAMPLE
}

/// What is wrong with a frame of the given extent, if anything: the number
/// of its pixels is judged first, then their samples.
pub open spec fn spec_frame_fault(width: nat, height: nat, pixels: Seq<[u16; 3]>) -> Option<
    FrameFault,
> {
    if pixels.len() != width * height {
        Some(FrameFault::PixelCount)
    } else if !spec_samples_fit(pixels, pixels.len() as int) {
        Some(FrameFault::SampleRange)
    } else {
        None
    }
}

/// `Encoder::encode_raw_planes_10_bit` of `ravif`, on an encoder made by
/// `Encoder::new`, `with_quality` and `with_speed`, without alpha; the file is
/// handed out, a failure as its message. `with_quality` and `with_speed`
/// panic outside 1 to 100 and 1 to 10, and the samples are documented as ten
/// bits wide, so the contract asks for both. It claims of the outcome only
/// that a frame with too few pixels fails, which `ravif` reports as
/// `TooFewPixels` where the encoder has not refused the extent before.
#[verifier::external_body]
fn encode_raw_planes_10_bit(
    settings: AvifSettings,
    width: usize,
    height: usize,
    pixels: &[[u16; 3]],
) -> (r: Result<Vec<u8>, String>)
    requires
        settings.valid(),
        spec_samples_fit(pixels@, pixels.len() as int),
    ensures
        pixels.len() < width * height ==> r is Err,
{
    let range = if settings.full_range { PixelRange::Full } else { PixelRange::Limited };
    let matrix = match settings.matrix {
        YcbcrMatrix::Identity => MatrixCoefficients::Identity,
        YcbcrMatrix::BT709 => MatrixCoefficients::BT709,
        YcbcrMatrix::Unspecified => MatrixCoefficients::Unspecified,
        YcbcrMatrix::BT601 => MatrixCoefficients::BT601,
        YcbcrMatrix::YCgCo => MatrixCoefficients::YCgCo,
        YcbcrMatrix::BT2020NCL => MatrixCoefficients::BT2020NCL,
        YcbcrMatrix::BT2020CL => MatrixCoefficients::BT2020CL,
    };
    let encoder = Encoder::new().with_quality(settings.quality.into()).with_speed(settings.speed);
    let planes = pixels.iter().cloned();
    let encoded = encoder.encode_raw_planes_10_bit(width, height, planes, None::<[u16; 0]>, range, matrix);
    encoded.map(|image| image.avif_file).map_err(|e| e.to_string())
}

/// Tells whether each sample of a frame fits into ten bits.
fn samples_fit(pixels: &[[u16; 3]]) -> (r: bool)
    ensures
        r == spec_samples_fit(pixels@, pixels.len() as int),
{
    let mut i: usize = 0;
    while i < pixels.len()
        invariant
            i <= pixels.len(),
            spec_samples_fit(pixels@, i as int),
        decreases pixels.len() - i,
    {
        let pixel: &[u16; 3] = &pixels[i];
        if pixel[0] > MAX_SAMPLE || pixel[1] > MAX_SAMPLE || pixel[2] > MAX_SAMPLE {
            assert(!(pixels@[i as int][0] <= MAX_SAMPLE && pixels@[i as int][1] <= MAX_SAMPLE
                && pixels@[i as int][2] <= MAX_SAMPLE));
            return false;
        }
        i += 1;
    }
    true
}

/// What keeps a frame from being handed to the encoder, if anything: the
/// settings are judged first, then the frame.
pub open spec fn spec_refusal(
    settings: AvifSettings,
    width: nat,
    height: nat,
    pixels: Seq<[u16; 3]>,
) -> Option<AvifError> {
    if !settings.valid() {
        Some(AvifError::Settings)
    } else {
        match spec_frame_fault(width, height, pixels) {
            Some(fault) => Some(AvifError::Frame(fault)),
            None => None,
        }
    }
}

/// Encodes a frame with the given settings. With settings that the encoder
/// does not take, or with a fault in the frame, nothing is handed to the
/// encoder; whether the encoder takes a frame without fault, and what file
/// it makes of it, lies with the encoder.
pub fn encode_ycbcr_pixels_to_avif(
    settings: AvifSettings,
    width: usize,
    height: usize,
    ycbcr_pixels: &[[u16; 3]],
) -> (r: Result<Vec<u8>, AvifError>)
    ensures
        match spec_refusal(settings, width as nat, height as nat, ycbcr_pixels@) {
            Some(error) => r == Err::<Vec<u8>, AvifError>(error),
            None => r is Ok || r matches Err(AvifError::Encoder(_)),
        },
{
    if settings.quality < 1 || settings.quality > 100 || settings.speed < 1 || settings.speed > 10
    {
        return Err(AvifError::Settings);
    }
    assert((width as nat) * (height as nat) == width * height) by (nonlinear_arith);
    let given: usize = ycbcr_pixels.len();
    match width.checked_mul(height) {
        Some(pixel_count) => {
            if given != pixel_count {
                return Err(AvifError::Frame(FrameFault::PixelCount));
            }
        },
        None => {
            // An extent of more pixels than any slice holds.
            return Err(AvifError::Frame(FrameFault::PixelCount));
        },
    }
    if !samples_fit(ycbcr_pixels) {
        return Err(AvifError::Frame(FrameFault::SampleRange));
    }
    match encode_raw_planes_10_bit(settings, width, height, ycbcr_pixels) {
        Ok(avif_file) => Ok(avif_file),
        Err(message) => Err(AvifError::Encoder(message)),
    }
}

/// Encodes an HDR10 frame.
///
/// - `ycbcr_pixels`: A slice of HDR10 pixels, each represented as an array
///   of 3 `u16` values (Y', Cb, Cr), row by row. The values must be in the
///   range [0, 1023].
pub fn encode_hdr10_ycbcr_pixels_to_avif(
    width: usize,
    height: usize,
    ycbcr_pixels: &[[u16; 3]],
) -> (r: Result<Vec<u8>, AvifError>)
    ensures
        match spec_frame_fault(width as nat, height as nat, ycbcr_pixels@) {
            Some(fault) => r == Err::<Vec<u8>, AvifError>(AvifError::Frame(fault)),
            None => r is Ok || r matches Err(AvifError::Encoder(_)),
        },
        r != Err::<Vec<u8>, AvifError>(AvifError::Settings),
{
    encode_ycbcr_pixels_to_avif(AvifSettings::hdr10(), width, height, ycbcr_pixels)
}

} // verus!
