//! Container parsing for Ultra HDR JPEG images.
//!
//! An Ultra HDR JPEG carries a second image, the gain map, behind its
//! primary image, and says where in a Multi-Picture Format (MPF) record,
//! which is a small TIFF stream. This library reads that record, cuts the
//! gain map out of the file, holds the decoded rasters of both images,
//! reads the gain map properties of the XMP packet as texts, and hands
//! frames of ten-bit samples to the AVIF encoder.
//!
//! Every function is verified against a specification over the bytes it
//! reads. Arithmetic on samples, which is floating point, is left to the
//! caller.

pub mod avif;
pub mod chain;
pub mod encode;
pub mod endian;
pub mod error;
pub mod jpeg;
pub mod mpf;
pub mod reader;
pub mod tiff;
pub mod ultrahdr;
pub mod value;
pub mod xmp;

pub use crate::avif::{AvifError, AvifSettings, FrameFault, YcbcrMatrix};
pub use crate::endian::Endianness;
pub use crate::error::{ErrorKind, TiffError};
pub use crate::jpeg::{BilinearTexels, JpegColorSpace, JpegHeaderInfo, UhdrJpeg};
pub use crate::mpf::{MpfError, MpfInfo, MpfMpEntry};
pub use crate::reader::ByteReader;
pub use crate::tiff::{Tiff, TiffFieldType, TiffFieldValue, TiffHeader, TiffIfd, TiffIfdEntry};
pub use crate::ultrahdr::{UltraHdrError, UltraHdrImage};
pub use crate::xmp::{GainMapXmp, XmlAttribute, XmlNode, XmpValue};
