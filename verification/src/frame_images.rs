//! Image files of single MONO8 frames: the 8-bit grayscale TIFF payload of a
//! recorded frame, read back when a session is replayed, and the grayscale
//! PNG of a recovered frame. The bytes are produced and read by the `tiff`
//! and `png` crates; this module checks the frame's size against its
//! dimensions and states what comes back.

use vstd::prelude::*;
use crate::recorded::Metadata;

verus! {

/// Frames shorter than this many bytes fit every offset, strip table and
/// buffer limit of the TIFF and PNG writers and readers used here, so
/// encoding them succeeds and a TIFF written for them reads back in full.
pub const IMAGE_SURE_LEN_LIMIT: usize = 0x0400_0000;

/// The bytes of the baseline TIFF file that `tiff::encoder::TiffEncoder`
/// writes for a `width` x `height` 8-bit grayscale image with samples `data`.
pub uninterp spec fn tiff_gray8_encoded(width: u32, height: u32, data: Seq<u8>) -> Seq<u8>;

/// The 8-bit samples that `tiff::decoder::Decoder::read_image` reads from
/// the TIFF file `bytes`; `None` when reading fails or the samples are not
/// 8-bit unsigned.
pub uninterp spec fn tiff_gray8_decoded(bytes: Seq<u8>) -> Option<Seq<u8>>;

/// The bytes of the PNG file that `png::Encoder` writes for a `width` x
/// `height` 8-bit grayscale image with samples `data`.
pub uninterp spec fn png_gray8_encoded(width: u32, height: u32, data: Seq<u8>) -> Seq<u8>;

/// Whether `data` holds exactly one 8-bit sample per pixel of a non-empty
/// `width` x `height` image, and is short enough for the image crates.
pub open spec fn fits_image(width: u32, height: u32, data: Seq<u8>) -> bool {
    &&& width > 0
    &&& height > 0
    &&& data.len() == width * height
    &&& data.len() < IMAGE_SURE_LEN_LIMIT
}

/// Writes an 8-bit grayscale image as TIFF into memory with
/// `TiffEncoder::write_image::<colortype::Gray8>`. The result is the name
/// `tiff_gray8_encoded` of the arguments. For an image that `fits_image`,
/// the encoder (which rejects empty dimensions, too few samples and offsets
/// beyond the format) succeeds, and its uncompressed strips are read
/// back by `tiff::decoder::Decoder::read_image` as the same samples.
#[verifier::external_body]
fn encode_gray8_tiff(width: u32, height: u32, data: &[u8]) -> (res: Option<Vec<u8>>)
    ensures
        fits_image(width, height, data@) ==> res is Some,
        res is Some ==> width > 0 && height > 0,
        res matches Some(b) ==> b@ == tiff_gray8_encoded(width, height, data@),
        res matches Some(b) ==> (fits_image(width, height, data@) ==> tiff_gray8_decoded(b@)
            == Some(data@)),
{
    let mut cursor = std::io::Cursor::new(Vec::new());
    {
        let mut encoder = tiff::encoder::TiffEncoder::new(&mut cursor).ok()?;
        encoder.write_image::<tiff::encoder::colortype::Gray8>(width, height, data).ok()?;
    }
    Some(cursor.into_inner())
}

/// Reads a TIFF file from memory with `tiff::decoder::Decoder::new` and
/// `read_image`, keeping the samples when they are 8-bit unsigned; the
/// outcome is the name `tiff_gray8_decoded` of the bytes.
#[verifier::external_body]
fn decode_gray8_tiff(bytes: &[u8]) -> (res: Option<Vec<u8>>)
    ensures
        match tiff_gray8_decoded(bytes@) {
            Some(d) => res matches Some(v) && v@ == d,
            None => res is None,
        },
{
    let mut decoder = tiff::decoder::Decoder::new(std::io::Cursor::new(bytes)).ok()?;
    match decoder.read_image().ok()? {
        tiff::decoder::DecodingResult::U8(samples) => Some(samples),
        _ => None,
    }
}

/// Writes an 8-bit grayscale image as PNG into memory with `png::Encoder`
/// (`write_header`, `write_image_data`, `finish`). The result is the name
/// `png_gray8_encoded` of the arguments; for an image that `fits_image` the
/// encoder (which rejects only empty dimensions and a sample count that does
/// not match them) succeeds.
#[verifier::external_body]
fn encode_gray8_png(width: u32, height: u32, data: &[u8]) -> (res: Option<Vec<u8>>)
    ensures
        fits_image(width, height, data@) ==> res is Some,
        res is Some ==> width > 0 && height > 0,
        res matches Some(b) ==> b@ == png_gray8_encoded(width, height, data@),
{
    let mut out: Vec<u8> = Vec::new();
    let mut encoder = png::Encoder::new(&mut out, width, height);
    encoder.set_color(png::ColorType::Grayscale);
    encoder.set_depth(png::BitDepth::Eight);
    let mut writer = encoder.write_header().ok()?;
    writer.write_image_data(data).ok()?;
    writer.finish().ok()?;
    Some(out)
}

/// The number of pixels of a `width` x `height` image, which fits a `u64`.
fn pixel_count(width: u32, height: u32) -> (res: u64)
    ensures
        res == width * height,
{
    assert((width as u64) * (height as u64) <= u64::MAX) by (nonlinear_arith)
        requires
            width <= u32::MAX,
            height <= u32::MAX,
    ;
    (width as u64) * (height as u64)
}

/// Why a recorded TIFF payload could not be read back.
#[derive(Debug, Clone, Copy, PartialEq, Eq, Structural)]
pub enum PayloadError {
    /// The payload is not a TIFF file of 8-bit samples.
    NotGray8Tiff,
    /// The payload holds a different number of samples than its metadata's
    /// dimensions call for.
    SizeMismatch { got: usize, expected: u64 },
}

/// What reading a recorded TIFF payload for a `width` x `height` frame gives.
pub open spec fn spec_decode_recorded_payload(bytes: Seq<u8>, width: u32, height: u32) -> Result<
    Seq<u8>,
    PayloadError,
> {
    match tiff_gray8_decoded(bytes) {
        None => Err(PayloadError::NotGray8Tiff),
        Some(samples) => if samples.len() == width * height {
            Ok(samples)
        } else {
            Err(
                PayloadError::SizeMismatch {
                    got: samples.len() as usize,
                    expected: (width * height) as u64,
                },
            )
        },
    }
}

/// Encodes a captured frame as the 8-bit grayscale TIFF payload of a
/// recording. The frame must hold one sample per pixel of the dimensions in
/// its metadata, else there is no payload. A payload that is written is read
/// back by `decode_recorded_payload` as the same frame.
pub fn encode_recorded_frame(data: &[u8], metadata: &Metadata) -> (res: Option<Vec<u8>>)
    ensures
        data@.len() != metadata.width * metadata.height ==> res is None,
        (metadata.width == 0 || metadata.height == 0) ==> res is None,
        fits_image(metadata.width, metadata.height, data@) ==> res is Some,
        res matches Some(b) ==> b@ == tiff_gray8_encoded(metadata.width, metadata.height, data@),
        res matches Some(b) ==> (data@.len() < IMAGE_SURE_LEN_LIMIT ==> spec_decode_recorded_payload(
            b@,
            metadata.width,
            metadata.height,
        ) == Ok::<Seq<u8>, PayloadError>(data@)),
{
    let expected = pixel_count(metadata.width, metadata.height);
    if data.len() as u64 != expected {
        return None;
    }
    encode_gray8_tiff(metadata.width, metadata.height, data)
}

/// Reads the samples of a recorded frame's TIFF payload and checks that
/// they fill the dimensions in its metadata.
pub fn decode_recorded_payload(bytes: &[u8], metadata: &Metadata) -> (res: Result<
    Vec<u8>,
    PayloadError,
>)
    ensures
        match spec_decode_recorded_payload(bytes@, metadata.width, metadata.height) {
            Ok(samples) => res matches Ok(v) && v@ == samples,
            Err(e) => res == Err::<Vec<u8>, PayloadError>(e),
        },
{
    let expected = pixel_count(metadata.width, metadata.height);
    match decode_gray8_tiff(bytes) {
        None => Err(PayloadError::NotGray8Tiff),
        Some(samples) => {
            if samples.len() as u64 == expected {
                Ok(samples)
            } else {
                Err(PayloadError::SizeMismatch { got: samples.len(), expected })
            }
        },
    }
}

/// Encodes a recovered MONO8 frame as a grayscale PNG file. The frame must
/// hold one sample per pixel of `width` x `height`, else there is no file.
pub fn encode_recovered_png(width: u32, height: u32, raw_bytes: &[u8]) -> (res: Option<Vec<u8>>)
    ensures
        raw_bytes@.len() != width * height ==> res is None,
        (width == 0 || height == 0) ==> res is None,
        fits_image(width, height, raw_bytes@) ==> res is Some,
        res matches Some(b) ==> b@ == png_gray8_encoded(width, height, raw_bytes@),
{
    let expected = pixel_count(width, height);
    if raw_bytes.len() as u64 != expected {
        return None;
    }
    encode_gray8_png(width, height, raw_bytes)
}

} // verus!
