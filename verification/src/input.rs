//! Reading PNG and WebP input, and the metadata of JPEG input, with the decoders of the `image`
//! crate: animation check, metadata chunks and pixels, handed to the conversions of `decode`.
use vstd::endian::endianness;
use vstd::prelude::*;

use std::io::Cursor;

use image::codecs::jpeg::JpegDecoder;
use image::codecs::png::PngDecoder;
use image::codecs::webp::WebPDecoder;
use image::{ColorType, ImageDecoder, ImageError};

use crate::decode::{
    check_not_animated, decoded_to_16bit_spec, decoded_to_8bit_spec, finish_decoded, oriented_samples_view,
    swaps_axes, view_channels, view_len, working_image_from_decoder, DecodedColorType, DecodedInput, InputFormat, RawImage, SampleView,
    WorkingColorSpace,
};
use crate::error::Error;
use crate::metadata::{exif_orientation_cleared, Orientation, SourceMetadata};
use crate::resize::native_little_endian;

verus! {

#[verifier::external_type_specification]
#[verifier::external_body]
pub struct ExColorType(ColorType);

/// Metadata chunks as a decoder reports them, the orientation as its EXIF code.
pub struct RawMetadata {
    pub icc: Option<Vec<u8>>,
    pub exif: Option<Vec<u8>>,
    pub xmp: Option<Vec<u8>>,
    pub orientation_code: u8,
}

/// Metadata chunks as mathematical values.
pub struct MetadataView {
    pub icc: Option<Seq<u8>>,
    pub exif: Option<Seq<u8>>,
    pub xmp: Option<Seq<u8>>,
    pub orientation_code: u8,
}

/// The view of an optional chunk.
pub open spec fn chunk_view(c: Option<Vec<u8>>) -> Option<Seq<u8>> {
    match c {
        Some(v) => Some(v@),
        None => None,
    }
}

impl View for RawMetadata {
    type V = MetadataView;

    open spec fn view(&self) -> MetadataView {
        MetadataView {
            icc: chunk_view(self.icc),
            exif: chunk_view(self.exif),
            xmp: chunk_view(self.xmp),
            orientation_code: self.orientation_code,
        }
    }
}

/// The pixels a decoder reads: its dimensions, its color type and its buffer.
pub struct RawPixels {
    pub width: u32,
    pub height: u32,
    pub color_type: ColorType,
    pub data: Vec<u8>,
}

/// Decoded pixels as mathematical values.
pub struct PixelsView {
    pub width: u32,
    pub height: u32,
    pub color_type: ColorType,
    pub data: Seq<u8>,
}

impl View for RawPixels {
    type V = PixelsView;

    open spec fn view(&self) -> PixelsView {
        PixelsView { width: self.width, height: self.height, color_type: self.color_type, data: self.data@ }
    }
}

// ---------------------------------------------------------------------------------------------
// What the decoders of `image` read from given bytes
//
// Each decoder is deterministic on its input, so what it reports is named as a function of the
// input bytes; `None` where it refuses them with an `ImageError`.
// ---------------------------------------------------------------------------------------------

/// Whether `PngDecoder::is_apng` finds an animation.
pub uninterp spec fn png_animation(bytes: Seq<u8>) -> Option<bool>;

/// The metadata that a `PngDecoder` reports.
pub uninterp spec fn png_metadata(bytes: Seq<u8>) -> Option<MetadataView>;

/// The pixels that `PngDecoder::read_image` reads on a machine of the given byte order (it writes
/// 16-bit samples with `to_ne_bytes`).
pub uninterp spec fn png_pixels(bytes: Seq<u8>, little_endian: bool) -> Option<PixelsView>;

/// Whether `WebPDecoder::has_animation` reports an animation, once `WebPDecoder::new` accepts
/// the bytes.
pub uninterp spec fn webp_animation(bytes: Seq<u8>) -> Option<bool>;

/// The metadata that a `WebPDecoder` reports.
pub uninterp spec fn webp_metadata(bytes: Seq<u8>) -> Option<MetadataView>;

/// The pixels that `WebPDecoder::read_image` reads.
pub uninterp spec fn webp_pixels(bytes: Seq<u8>) -> Option<PixelsView>;

/// The metadata that a `JpegDecoder` reports.
pub uninterp spec fn jpeg_metadata(bytes: Seq<u8>) -> Option<MetadataView>;

/// The library's name for a color type of `image`.
pub uninterp spec fn decoded_color_type(c: ColorType) -> DecodedColorType;

/// `PngDecoder::new` on the bytes, then `is_apng`.
#[verifier::external_body]
fn png_is_animated(bytes: &[u8]) -> (r: Result<bool, ImageError>)
    ensures
        r is Ok <==> png_animation(bytes@) is Some,
        r matches Ok(a) ==> png_animation(bytes@) == Some(a),
{
    PngDecoder::new(Cursor::new(bytes))?.is_apng()
}

/// `PngDecoder::new` on the bytes, then (through `ImageDecoder`) `orientation` as its EXIF code
/// (`Orientation::to_exif`, one to eight), `icc_profile`, `exif_metadata` and `xmp_metadata`.
#[verifier::external_body]
fn png_read_metadata(bytes: &[u8]) -> (r: Result<RawMetadata, ImageError>)
    ensures
        r is Ok <==> png_metadata(bytes@) is Some,
        r matches Ok(m) ==> png_metadata(bytes@) == Some(m@) && 1 <= m.orientation_code <= 8,
{
    let mut d = PngDecoder::new(Cursor::new(bytes))?;
    let orientation_code = d.orientation()?.to_exif();
    Ok(RawMetadata { icc: d.icc_profile()?, exif: d.exif_metadata()?, xmp: d.xmp_metadata()?, orientation_code })
}

/// `PngDecoder::new` on the bytes, then `dimensions`, `color_type`, and `read_image` into a
/// zeroed buffer of `total_bytes` bytes; 16-bit samples come out in the machine's byte order
/// (vstd's `endianness()`).
#[verifier::external_body]
fn png_read_pixels(bytes: &[u8]) -> (r: Result<RawPixels, ImageError>)
    ensures
        r is Ok <==> png_pixels(bytes@, endianness() is Little) is Some,
        r matches Ok(p) ==> png_pixels(bytes@, endianness() is Little) == Some(p@),
{
    let d = PngDecoder::new(Cursor::new(bytes))?;
    let (width, height) = d.dimensions();
    let color_type = d.color_type();
    let mut data = vec![0u8; d.total_bytes() as usize];
    d.read_image(&mut data)?;
    Ok(RawPixels { width, height, color_type, data })
}

/// `WebPDecoder::new` on the bytes, then `has_animation`.
#[verifier::external_body]
fn webp_is_animated(bytes: &[u8]) -> (r: Result<bool, ImageError>)
    ensures
        r is Ok <==> webp_animation(bytes@) is Some,
        r matches Ok(a) ==> webp_animation(bytes@) == Some(a),
{
    Ok(WebPDecoder::new(Cursor::new(bytes))?.has_animation())
}

/// As `png_read_metadata`, with a `WebPDecoder`.
#[verifier::external_body]
fn webp_read_metadata(bytes: &[u8]) -> (r: Result<RawMetadata, ImageError>)
    ensures
        r is Ok <==> webp_metadata(bytes@) is Some,
        r matches Ok(m) ==> webp_metadata(bytes@) == Some(m@) && 1 <= m.orientation_code <= 8,
{
    let mut d = WebPDecoder::new(Cursor::new(bytes))?;
    let orientation_code = d.orientation()?.to_exif();
    Ok(RawMetadata { icc: d.icc_profile()?, exif: d.exif_metadata()?, xmp: d.xmp_metadata()?, orientation_code })
}

/// As `png_read_pixels`, with a `WebPDecoder`.
#[verifier::external_body]
fn webp_read_pixels(bytes: &[u8]) -> (r: Result<RawPixels, ImageError>)
    ensures
        r is Ok <==> webp_pixels(bytes@) is Some,
        r matches Ok(p) ==> webp_pixels(bytes@) == Some(p@),
{
    let d = WebPDecoder::new(Cursor::new(bytes))?;
    let (width, height) = d.dimensions();
    let color_type = d.color_type();
    let mut data = vec![0u8; d.total_bytes() as usize];
    d.read_image(&mut data)?;
    Ok(RawPixels { width, height, color_type, data })
}

/// As `png_read_metadata`, with a `JpegDecoder`.
#[verifier::external_body]
fn jpeg_read_metadata(bytes: &[u8]) -> (r: Result<RawMetadata, ImageError>)
    ensures
        r is Ok <==> jpeg_metadata(bytes@) is Some,
        r matches Ok(m) ==> jpeg_metadata(bytes@) == Some(m@) && 1 <= m.orientation_code <= 8,
{
    let mut d = JpegDecoder::new(Cursor::new(bytes))?;
    let orientation_code = d.orientation()?.to_exif();
    Ok(RawMetadata { icc: d.icc_profile()?, exif: d.exif_metadata()?, xmp: d.xmp_metadata()?, orientation_code })
}

/// Tells `image`'s color types apart; a layout that the library does not handle carries its
/// `Debug` name.
#[verifier::external_body]
fn color_type_of(c: ColorType) -> (r: DecodedColorType)
    ensures
        r == decoded_color_type(c),
{
    match c {
        ColorType::L8 => DecodedColorType::L8,
        ColorType::La8 => DecodedColorType::La8,
        ColorType::Rgb8 => DecodedColorType::Rgb8,
        ColorType::Rgba8 => DecodedColorType::Rgba8,
        ColorType::L16 => DecodedColorType::L16,
        ColorType::La16 => DecodedColorType::La16,
        ColorType::Rgb16 => DecodedColorType::Rgb16,
        ColorType::Rgba16 => DecodedColorType::Rgba16,
        other => DecodedColorType::Other(format!("{other:?}")),
    }
}

} // verus!

verus! {

/// The orientation of an EXIF orientation code, as `Orientation::from_exif` of `image` reads
/// codes one to eight.
pub open spec fn orientation_of_code(code: u8) -> Orientation {
    if code == 2 {
        Orientation::FlipHorizontal
    } else if code == 3 {
        Orientation::Rotate180
    } else if code == 4 {
        Orientation::FlipVertical
    } else if code == 5 {
        Orientation::Rotate90FlipH
    } else if code == 6 {
        Orientation::Rotate90
    } else if code == 7 {
        Orientation::Rotate270FlipH
    } else if code == 8 {
        Orientation::Rotate270
    } else {
        Orientation::NoTransforms
    }
}

/// Reads an EXIF orientation code.
pub fn orientation_from_code(code: u8) -> (o: Orientation)
    ensures
        o == orientation_of_code(code),
{
    if code == 2 {
        Orientation::FlipHorizontal
    } else if code == 3 {
        Orientation::Rotate180
    } else if code == 4 {
        Orientation::FlipVertical
    } else if code == 5 {
        Orientation::Rotate90FlipH
    } else if code == 6 {
        Orientation::Rotate90
    } else if code == 7 {
        Orientation::Rotate270FlipH
    } else if code == 8 {
        Orientation::Rotate270
    } else {
        Orientation::NoTransforms
    }
}

/// The working samples of decoded pixels, at 8 bits in fast mode and at 16 bits otherwise
/// (16-bit samples read in the machine's byte order).
pub open spec fn decoded_samples(p: PixelsView, fast: bool) -> Option<SampleView> {
    let le = endianness() is Little;
    if fast {
        decoded_to_8bit_spec(decoded_color_type(p.color_type), p.data, le)
    } else {
        decoded_to_16bit_spec(decoded_color_type(p.color_type), p.data, le)
    }
}

/// The oriented samples of decoded pixels whose metadata gives orientation `o`.
pub open spec fn upright_samples(v: SampleView, o: Orientation, w: u32, h: u32) -> SampleView {
    if o is NoTransforms {
        v
    } else {
        oriented_samples_view(v, o, w as int, h as int)
    }
}

/// What decoding the metadata `m` and pixels `p` of an input gives.
pub open spec fn decoded_from_parts(m: MetadataView, p: PixelsView, fast: bool, r: Result<DecodedInput, Error>) -> bool {
    let o = orientation_of_code(m.orientation_code);
    let conv = decoded_samples(p, fast);
    &&& p.data.len() * 3 > usize::MAX ==> (r matches Err(e) && e is Decode)
    &&& p.data.len() * 3 <= usize::MAX && conv is None ==> (r matches Err(e) && e is Unsupported)
    &&& p.data.len() * 3 <= usize::MAX && (conv matches Some(v) && view_len(v) == (p.width as nat) * (
        p.height as nat) * view_channels(v)) ==> r is Ok
    &&& r matches Ok(d) ==> {
        &&& conv matches Some(v) && d.image.data@ == upright_samples(v, o, p.width, p.height)
        &&& d.image.color_space is Source && d.image.wf()
        &&& d.image.width == (if swaps_axes(o) { p.height } else { p.width })
        &&& d.image.height == (if swaps_axes(o) { p.width } else { p.height })
        &&& chunk_view(d.metadata.icc) == m.icc && chunk_view(d.metadata.xmp) == m.xmp
        &&& d.metadata.orientation == o
        &&& chunk_view(d.metadata.exif) == match m.exif {
            Some(e) => Some(exif_orientation_cleared(e)),
            None => None,
        }
    }
    &&& r matches Err(e) ==> (e is Decode || e is Unsupported)
}

/// Builds the decoded input from a decoder's metadata and pixels: the samples are converted
/// and the EXIF orientation is applied.
fn decode_from_parts(meta: RawMetadata, pixels: RawPixels, fast: bool) -> (r: Result<DecodedInput, Error>)
    ensures
        decoded_from_parts(meta@, pixels@, fast, r),
{
    let ghost mv = meta@;
    let ghost pv = pixels@;
    let metadata = SourceMetadata {
        icc: meta.icc,
        exif: meta.exif,
        xmp: meta.xmp,
        orientation: orientation_from_code(meta.orientation_code),
    };
    let raw = RawImage {
        width: pixels.width,
        height: pixels.height,
        color_type: color_type_of(pixels.color_type),
        data: pixels.data,
    };
    if raw.data.len() > usize::MAX / 3 {
        return Err(Error::decode("decoded image buffer is too large"));
    }
    let image = working_image_from_decoder(raw, fast, native_little_endian())?;
    let ghost before = image;
    let r = finish_decoded(image, metadata);
    proof {
        let o = orientation_of_code(mv.orientation_code);
        let n = (before.width as int) * (before.height as int) * (before.data.spec_channels() as int);
        assert(n <= usize::MAX);
    }
    r
}

/// Decodes a PNG input: animated PNGs are refused, then the metadata and the pixels are read and
/// the EXIF orientation is applied.
pub fn decode_png(bytes: &[u8], fast: bool) -> (r: Result<DecodedInput, Error>)
    ensures
        match png_animation(bytes@) {
            None => r matches Err(e) && e is Image,
            Some(true) => r matches Err(e) && e is Unsupported && e.message_view()
                == "animated PNG input is not supported in v1"@,
            Some(false) => match (png_metadata(bytes@), png_pixels(bytes@, endianness() is Little)) {
                (Some(m), Some(p)) => decoded_from_parts(m, p, fast, r),
                _ => r matches Err(e) && e is Image,
            },
        },
{
    let animated = match png_is_animated(bytes) {
        Ok(a) => a,
        Err(e) => return Err(Error::Image(e)),
    };
    check_not_animated(&InputFormat::Png, animated)?;
    let meta = match png_read_metadata(bytes) {
        Ok(m) => m,
        Err(e) => return Err(Error::Image(e)),
    };
    let pixels = match png_read_pixels(bytes) {
        Ok(p) => p,
        Err(e) => return Err(Error::Image(e)),
    };
    decode_from_parts(meta, pixels, fast)
}

/// Decodes a WebP input: animated WebPs are refused, then the metadata and the pixels are read
/// and the EXIF orientation is applied.
pub fn decode_webp(bytes: &[u8], fast: bool) -> (r: Result<DecodedInput, Error>)
    ensures
        match webp_animation(bytes@) {
            None => r matches Err(e) && e is Image,
            Some(true) => r matches Err(e) && e is Unsupported && e.message_view()
                == "animated WebP input is not supported in v1"@,
            Some(false) => match (webp_metadata(bytes@), webp_pixels(bytes@)) {
                (Some(m), Some(p)) => decoded_from_parts(m, p, fast, r),
                _ => r matches Err(e) && e is Image,
            },
        },
{
    let animated = match webp_is_animated(bytes) {
        Ok(a) => a,
        Err(e) => return Err(Error::Image(e)),
    };
    check_not_animated(&InputFormat::WebP, animated)?;
    let meta = match webp_read_metadata(bytes) {
        Ok(m) => m,
        Err(e) => return Err(Error::Image(e)),
    };
    let pixels = match webp_read_pixels(bytes) {
        Ok(p) => p,
        Err(e) => return Err(Error::Image(e)),
    };
    decode_from_parts(meta, pixels, fast)
}

/// The metadata of a JPEG input, as `image`'s JPEG decoder reads it.
pub fn read_jpeg_metadata(bytes: &[u8]) -> (r: Result<SourceMetadata, Error>)
    ensures
        match jpeg_metadata(bytes@) {
            None => r matches Err(e) && e is Image,
            Some(m) => r matches Ok(s) && chunk_view(s.icc) == m.icc && chunk_view(s.exif) == m.exif
                && chunk_view(s.xmp) == m.xmp && s.orientation == orientation_of_code(m.orientation_code),
        },
{
    match jpeg_read_metadata(bytes) {
        Ok(meta) => Ok(SourceMetadata {
            icc: meta.icc,
            exif: meta.exif,
            xmp: meta.xmp,
            orientation: orientation_from_code(meta.orientation_code),
        }),
        Err(e) => Err(Error::Image(e)),
    }
}

} // verus!
