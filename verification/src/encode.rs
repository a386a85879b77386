//! The encode path and encoder settings, final 8-bit packing for the lossless encoder, and
//! metadata attachment.
use vstd::prelude::*;

use crate::config::{ConversionOptions, Mode};
use crate::decode::{down16, down16_spec, SampleView, WorkingData, WorkingImage};
use crate::error::Error;
use crate::metadata::{MetadataPolicy, SourceMetadata};

verus! {

/// How the pixels are handed to libwebp.
#[derive(Debug, Clone, Copy, PartialEq, Eq, Structural)]
pub enum EncodePath {
    /// Lossy, from YUV planes made by SimpleYUV.
    SimpleYuv,
    /// Lossy, from YUV planes made by libwebp's SharpYUV.
    SharpYuv,
    /// Lossless from ARGB pixels, with the near-lossless level if one was asked for.
    Lossless(Option<u8>),
}

/// The encoding path that the options select.
pub fn encode_path(options: &ConversionOptions) -> (p: EncodePath)
    ensures
        p == match options.mode {
            Mode::Lossy => if options.sharpyuv {
                EncodePath::SharpYuv
            } else {
                EncodePath::SimpleYuv
            },
            Mode::Lossless => EncodePath::Lossless(None),
            Mode::NearLossless(v) => EncodePath::Lossless(Some(v)),
        },
{
    match options.mode {
        Mode::Lossy => if options.uses_simpleyuv() {
            EncodePath::SimpleYuv
        } else {
            EncodePath::SharpYuv
        },
        Mode::Lossless => EncodePath::Lossless(None),
        Mode::NearLossless(v) => EncodePath::Lossless(Some(v)),
    }
}

/// The settings handed to libwebp's encoder configuration. `quality_bits` is the bit pattern of
/// the `f32` quality.
#[derive(Debug, Clone, Copy, PartialEq, Eq, Structural)]
pub struct EncoderSettings {
    pub quality_bits: u32,
    pub method: u8,
    pub alpha_quality: u8,
    pub exact: bool,
    pub lossless: bool,
    pub near_lossless: Option<u8>,
    /// Whether SharpYUV is asked of libwebp; lossless encodes leave it unset.
    pub sharp_yuv: Option<bool>,
    pub sns_strength: Option<u8>,
    pub filter_strength: Option<u8>,
    /// libwebp's own threading level; the encoder runs single-threaded.
    pub thread_level: u8,
}

/// The encoder settings for the chosen path: quality, method, alpha quality and `-exact` always,
/// SNS and filter strength where given, SharpYUV for lossy output, the lossless flag and the
/// near-lossless level for lossless output.
pub fn encoder_settings(options: &ConversionOptions, path: EncodePath) -> (s: EncoderSettings)
    ensures
        s.quality_bits == options.quality_bits,
        s.method == options.method,
        s.alpha_quality == options.alpha_quality,
        s.exact == options.exact,
        s.sns_strength == options.sns_strength,
        s.filter_strength == options.filter_strength,
        s.thread_level == 1,
        s.lossless == (path is Lossless),
        s.near_lossless == match path {
            EncodePath::Lossless(level) => level,
            _ => None,
        },
        s.sharp_yuv == match path {
            EncodePath::SimpleYuv => Some(false),
            EncodePath::SharpYuv => Some(true),
            EncodePath::Lossless(_) => None,
        },
{
    let (lossless, near_lossless, sharp_yuv) = match path {
        EncodePath::SimpleYuv => (false, None, Some(false)),
        EncodePath::SharpYuv => (false, None, Some(true)),
        EncodePath::Lossless(level) => (true, level, None),
    };
    EncoderSettings {
        quality_bits: options.quality_bits,
        method: options.method,
        alpha_quality: options.alpha_quality,
        exact: options.exact,
        lossless,
        near_lossless,
        sharp_yuv,
        sns_strength: options.sns_strength,
        filter_strength: options.filter_strength,
        thread_level: 1,
    }
}

/// An ARGB pixel as libwebp stores it: alpha in the top byte, then red, green and blue.
pub open spec fn argb_spec(a: u8, r: u8, g: u8, b: u8) -> u32 {
    ((a as nat) * 0x100_0000 + (r as nat) * 0x1_0000 + (g as nat) * 0x100 + (b as nat)) as u32
}

pub fn down16_to_8(value: u16) -> (r: u8)
    ensures
        r == down16_spec(value),
{
    down16(value)
}

fn pack(a: u8, r: u8, g: u8, b: u8) -> (p: u32)
    ensures
        p == argb_spec(a, r, g, b),
{
    let p = ((a as u32) << 24) | ((r as u32) << 16) | ((g as u32) << 8) | (b as u32);
    proof {
        assert(((a as u32) << 24) | ((r as u32) << 16) | ((g as u32) << 8) | (b as u32) == (a as u32)
            * 0x100_0000 + (r as u32) * 0x1_0000 + (g as u32) * 0x100 + (b as u32)) by (bit_vector)
            requires
                a <= 255,
                r <= 255,
                g <= 255,
                b <= 255,
        ;
    }
    p
}

/// An opaque 8-bit RGB pixel.
pub fn pack_rgb8(pixel: &[u8]) -> (p: u32)
    requires
        pixel@.len() >= 3,
    ensures
        p == argb_spec(255, pixel@[0], pixel@[1], pixel@[2]),
{
    pack(255, pixel[0], pixel[1], pixel[2])
}

/// An 8-bit RGBA pixel.
pub fn pack_rgba8(pixel: &[u8]) -> (p: u32)
    requires
        pixel@.len() >= 4,
    ensures
        p == argb_spec(pixel@[3], pixel@[0], pixel@[1], pixel@[2]),
{
    pack(pixel[3], pixel[0], pixel[1], pixel[2])
}

/// An opaque 16-bit RGB pixel, narrowed to 8 bits.
pub fn pack_rgb16(pixel: &[u16]) -> (p: u32)
    requires
        pixel@.len() >= 3,
    ensures
        p == argb_spec(
            255,
            down16_spec(pixel@[0]),
            down16_spec(pixel@[1]),
            down16_spec(pixel@[2]),
        ),
{
    pack(255, down16_to_8(pixel[0]), down16_to_8(pixel[1]), down16_to_8(pixel[2]))
}

/// A 16-bit RGBA pixel, narrowed to 8 bits.
pub fn pack_rgba16(pixel: &[u16]) -> (p: u32)
    requires
        pixel@.len() >= 4,
    ensures
        p == argb_spec(
            down16_spec(pixel@[3]),
            down16_spec(pixel@[0]),
            down16_spec(pixel@[1]),
            down16_spec(pixel@[2]),
        ),
{
    pack(down16_to_8(pixel[3]), down16_to_8(pixel[0]), down16_to_8(pixel[1]), down16_to_8(pixel[2]))
}

/// The ARGB pixels of a working image: one per complete pixel of its buffer.
pub open spec fn argb8_spec(data: SampleView) -> Seq<u32> {
    match data {
        SampleView::Rgb8(d) => Seq::new(d.len() / 3, |i: int| argb_spec(255, d[3 * i], d[3 * i + 1], d[3 * i + 2])),
        SampleView::Rgba8(d) => Seq::new(d.len() / 4, |i: int| argb_spec(d[4 * i + 3], d[4 * i], d[4 * i + 1], d[4 * i + 2])),
        SampleView::Rgb16(d) => Seq::new(
            d.len() / 3,
            |i: int|
                argb_spec(255, down16_spec(d[3 * i]), down16_spec(d[3 * i + 1]), down16_spec(d[3 * i + 2])),
        ),
        SampleView::Rgba16(d) => Seq::new(
            d.len() / 4,
            |i: int|
                argb_spec(
                    down16_spec(d[4 * i + 3]),
                    down16_spec(d[4 * i]),
                    down16_spec(d[4 * i + 1]),
                    down16_spec(d[4 * i + 2]),
                ),
        ),
    }
}

/// Final quantization of a working image to the ARGB layout of the lossless encoder.
pub fn working_image_to_argb8(image: &WorkingImage) -> (out: Vec<u32>)
    ensures
        out@ == argb8_spec(image.data@),
{
    let mut out: Vec<u32> = Vec::new();
    match &image.data {
        WorkingData::Rgb8(data) => {
            let len = data.len();
            let n = len / 3;
            let mut i: usize = 0;
            while i < n
                invariant
                    len == data@.len(),
                    n == data@.len() / 3,
                    0 <= i <= n,
                    out@.len() == i,
                    forall|j: int| 0 <= j < i ==> #[trigger] out@[j] == argb_spec(255, data@[3 * j], data@[3 * j + 1], data@[3 * j + 2]),
                decreases n - i,
            {
                let px: [u8; 3] = [data[3 * i], data[3 * i + 1], data[3 * i + 2]];
                out.push(pack_rgb8(&px));
                i += 1;
            }
            assert(out@ =~= argb8_spec(image.data@));
        },
        WorkingData::Rgba8(data) => {
            let len = data.len();
            let n = len / 4;
            let mut i: usize = 0;
            while i < n
                invariant
                    len == data@.len(),
                    n == data@.len() / 4,
                    0 <= i <= n,
                    out@.len() == i,
                    forall|j: int| 0 <= j < i ==> #[trigger] out@[j] == argb_spec(data@[4 * j + 3], data@[4 * j], data@[4 * j + 1], data@[4 * j + 2]),
                decreases n - i,
            {
                let px: [u8; 4] = [data[4 * i], data[4 * i + 1], data[4 * i + 2], data[4 * i + 3]];
                out.push(pack_rgba8(&px));
                i += 1;
            }
            assert(out@ =~= argb8_spec(image.data@));
        },
        WorkingData::Rgb16(data) => {
            let len = data.len();
            let n = len / 3;
            let mut i: usize = 0;
            while i < n
                invariant
                    len == data@.len(),
                    n == data@.len() / 3,
                    0 <= i <= n,
                    out@.len() == i,
                    forall|j: int| 0 <= j < i ==> #[trigger] out@[j] == argb_spec(255, down16_spec(data@[3 * j]), down16_spec(data@[3 * j + 1]), down16_spec(data@[3 * j + 2])),
                decreases n - i,
            {
                let px: [u16; 3] = [data[3 * i], data[3 * i + 1], data[3 * i + 2]];
                out.push(pack_rgb16(&px));
                i += 1;
            }
            assert(out@ =~= argb8_spec(image.data@));
        },
        WorkingData::Rgba16(data) => {
            let len = data.len();
            let n = len / 4;
            let mut i: usize = 0;
            while i < n
                invariant
                    len == data@.len(),
                    n == data@.len() / 4,
                    0 <= i <= n,
                    out@.len() == i,
                    forall|j: int| 0 <= j < i ==> #[trigger] out@[j] == argb_spec(down16_spec(data@[4 * j + 3]), down16_spec(data@[4 * j]), down16_spec(data@[4 * j + 1]), down16_spec(data@[4 * j + 2])),
                decreases n - i,
            {
                let px: [u16; 4] = [data[4 * i], data[4 * i + 1], data[4 * i + 2], data[4 * i + 3]];
                out.push(pack_rgba16(&px));
                i += 1;
            }
            assert(out@ =~= argb8_spec(image.data@));
        },
    }
    out
}

/// The WebP file with an ICCP chunk holding `icc`, as `webpx::embed_icc` builds it with
/// libwebp's mux API, or `None` where the mux rejects the input.
pub uninterp spec fn icc_embedded(webp: Seq<u8>, icc: Seq<u8>) -> Option<Seq<u8>>;

/// The WebP file with an EXIF chunk, as `webpx::embed_exif` builds it, or `None`.
pub uninterp spec fn exif_embedded(webp: Seq<u8>, exif: Seq<u8>) -> Option<Seq<u8>>;

/// The WebP file with an XMP chunk, as `webpx::embed_xmp` builds it, or `None`.
pub uninterp spec fn xmp_embedded(webp: Seq<u8>, xmp: Seq<u8>) -> Option<Seq<u8>>;

/// Calls `webpx::embed_icc`, which re-muxes the file with the profile as its ICCP chunk. The
/// contract names the result as a function of the two byte strings; the error text is not
/// stated.
#[verifier::external_body]
fn embed_icc(webp: &[u8], icc: &[u8]) -> (r: Result<Vec<u8>, String>)
    ensures
        match r {
            Ok(v) => icc_embedded(webp@, icc@) == Some(v@),
            Err(_) => icc_embedded(webp@, icc@) is None,
        },
{
    match webpx::embed_icc(webp, icc) {
        Ok(v) => Ok(v),
        Err(err) => Err(format!("failed to attach ICC profile: {err}")),
    }
}

/// Calls `webpx::embed_exif`, which re-muxes the file with an EXIF chunk. The contract names the
/// result; the error text is not stated.
#[verifier::external_body]
fn embed_exif(webp: &[u8], exif: &[u8]) -> (r: Result<Vec<u8>, String>)
    ensures
        match r {
            Ok(v) => exif_embedded(webp@, exif@) == Some(v@),
            Err(_) => exif_embedded(webp@, exif@) is None,
        },
{
    match webpx::embed_exif(webp, exif) {
        Ok(v) => Ok(v),
        Err(err) => Err(format!("failed to attach EXIF metadata: {err}")),
    }
}

/// Calls `webpx::embed_xmp`, which re-muxes the file with an XMP chunk. The contract names the
/// result; the error text is not stated.
#[verifier::external_body]
fn embed_xmp(webp: &[u8], xmp: &[u8]) -> (r: Result<Vec<u8>, String>)
    ensures
        match r {
            Ok(v) => xmp_embedded(webp@, xmp@) == Some(v@),
            Err(_) => xmp_embedded(webp@, xmp@) is None,
        },
{
    match webpx::embed_xmp(webp, xmp) {
        Ok(v) => Ok(v),
        Err(err) => Err(format!("failed to attach XMP metadata: {err}")),
    }
}

/// The ICC step of metadata attachment.
pub open spec fn with_icc(webp: Seq<u8>, policy: MetadataPolicy, icc: Option<Vec<u8>>) -> Option<Seq<u8>> {
    if (policy is All || policy is Icc) && icc is Some {
        icc_embedded(webp, icc->0@)
    } else {
        Some(webp)
    }
}

/// The EXIF step of metadata attachment.
pub open spec fn with_exif(webp: Option<Seq<u8>>, policy: MetadataPolicy, exif: Option<Vec<u8>>) -> Option<Seq<u8>> {
    match webp {
        None => None,
        Some(w) => if (policy is All || policy is Exif) && exif is Some {
            exif_embedded(w, exif->0@)
        } else {
            Some(w)
        },
    }
}

/// The XMP step of metadata attachment.
pub open spec fn with_xmp(webp: Option<Seq<u8>>, policy: MetadataPolicy, xmp: Option<Vec<u8>>) -> Option<Seq<u8>> {
    match webp {
        None => None,
        Some(w) => if (policy is All || policy is Xmp) && xmp is Some {
            xmp_embedded(w, xmp->0@)
        } else {
            Some(w)
        },
    }
}

/// The encoded file with the chunks that the policy keeps, ICC first, then EXIF, then XMP.
pub open spec fn attach_metadata_spec(webp: Seq<u8>, policy: MetadataPolicy, metadata: SourceMetadata) -> Option<Seq<u8>> {
    with_xmp(with_exif(with_icc(webp, policy, metadata.icc), policy, metadata.exif), policy, metadata.xmp)
}

/// Attaches the source's ICC, EXIF and XMP chunks to an encoded WebP file, as the policy says.
pub fn attach_metadata(webp: Vec<u8>, policy: MetadataPolicy, metadata: &SourceMetadata) -> (r: Result<Vec<u8>, Error>)
    ensures
        match attach_metadata_spec(webp@, policy, *metadata) {
            Some(v) => r matches Ok(out) && out@ == v,
            None => r matches Err(e) && e is Encode,
        },
{
    let mut webp = webp;
    if policy.keep_icc() {
        if let Some(icc) = &metadata.icc {
            webp = match embed_icc(webp.as_slice(), icc.as_slice()) {
                Ok(v) => v,
                Err(message) => return Err(Error::Encode(message)),
            };
        }
    }
    if policy.keep_exif() {
        if let Some(exif) = &metadata.exif {
            webp = match embed_exif(webp.as_slice(), exif.as_slice()) {
                Ok(v) => v,
                Err(message) => return Err(Error::Encode(message)),
            };
        }
    }
    if policy.keep_xmp() {
        if let Some(xmp) = &metadata.xmp {
            webp = match embed_xmp(webp.as_slice(), xmp.as_slice()) {
                Ok(v) => v,
                Err(message) => return Err(Error::Encode(message)),
            };
        }
    }
    Ok(webp)
}

/// The policy `All` keeps exactly what `Icc`, `Exif` and `Xmp` keep together: attaching with
/// `All` is attaching the ICC profile, then the EXIF chunk, then the XMP packet, each step as
/// the single-chunk policy does it on the file the previous step produced.
pub proof fn lemma_all_is_icc_then_exif_then_xmp(webp: Seq<u8>, metadata: SourceMetadata)
    ensures
        attach_metadata_spec(webp, MetadataPolicy::All, metadata) == match attach_metadata_spec(
            webp,
            MetadataPolicy::Icc,
            metadata,
        ) {
            None => None,
            Some(w1) => match attach_metadata_spec(w1, MetadataPolicy::Exif, metadata) {
                None => None,
                Some(w2) => attach_metadata_spec(w2, MetadataPolicy::Xmp, metadata),
            },
        },
{
}

/// Each single-chunk policy attaches its own chunk when the source has one, and nothing else.
pub proof fn lemma_single_chunk_policies(webp: Seq<u8>, metadata: SourceMetadata)
    ensures
        attach_metadata_spec(webp, MetadataPolicy::Exif, metadata) == match metadata.exif {
            Some(e) => exif_embedded(webp, e@),
            None => Some(webp),
        },
        attach_metadata_spec(webp, MetadataPolicy::Xmp, metadata) == match metadata.xmp {
            Some(x) => xmp_embedded(webp, x@),
            None => Some(webp),
        },
{
}

/// With the metadata policy `NoMetadata` the encoded file is returned as it is.
pub proof fn lemma_no_metadata_keeps_file(webp: Seq<u8>, metadata: SourceMetadata)
    ensures
        attach_metadata_spec(webp, MetadataPolicy::NoMetadata, metadata) == Some(webp),
{
}

/// The default policy attaches only the ICC profile: EXIF and XMP chunks are never added.
pub proof fn lemma_icc_policy_attaches_only_icc(webp: Seq<u8>, metadata: SourceMetadata)
    ensures
        attach_metadata_spec(webp, MetadataPolicy::Icc, metadata) == match metadata.icc {
            Some(icc) => icc_embedded(webp, icc@),
            None => Some(webp),
        },
{
}

} // verus!

