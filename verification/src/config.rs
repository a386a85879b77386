//! Conversion options: resize requests, encoding mode and quality, and the rules they obey.
use vstd::prelude::*;

use crate::error::Error;
use crate::metadata::MetadataPolicy;

verus! {

/// Resampling filter used when image dimensions change.
#[non_exhaustive]
#[derive(Debug, Clone, Copy, PartialEq, Eq, Structural)]
pub enum ResizeFilter {
    Lanczos3,
    CatmullRom,
    Mitchell,
}

/// WebP encoding mode.
#[non_exhaustive]
#[derive(Debug, Clone, Copy, PartialEq, Eq, Structural)]
pub enum Mode {
    Lossy,
    Lossless,
    NearLossless(u8),
}

/// Requested output dimensions and resize behavior.
#[non_exhaustive]
#[derive(Debug, Clone, Copy, PartialEq, Eq, Structural)]
pub struct ResizeOptions {
    pub width: Option<u32>,
    pub height: Option<u32>,
    pub max_width: Option<u32>,
    pub max_height: Option<u32>,
    pub max_side: Option<u32>,
    pub no_upscale: bool,
    pub filter: Option<ResizeFilter>,
}

/// The message of the first rule that a set of resize options breaks, if any.
pub open spec fn resize_options_error(o: ResizeOptions) -> Option<Seq<char>> {
    if (o.width is Some || o.height is Some) && (o.max_width is Some || o.max_height is Some) {
        Some("`--width/--height` cannot be combined with `--max-width/--max-height`"@)
    } else if o.max_side is Some && (o.width is Some || o.height is Some || o.max_width is Some
        || o.max_height is Some) {
        Some("`--max-side` cannot be combined with other resize size flags"@)
    } else {
        None
    }
}

impl Default for ResizeOptions {
    fn default() -> (o: Self)
        ensures
            o == (ResizeOptions {
                width: None,
                height: None,
                max_width: None,
                max_height: None,
                max_side: None,
                no_upscale: false,
                filter: None,
            }),
    {
        ResizeOptions {
            width: None,
            height: None,
            max_width: None,
            max_height: None,
            max_side: None,
            no_upscale: false,
            filter: None,
        }
    }
}

impl ResizeOptions {
    pub fn with_width(self, width: u32) -> (o: Self)
        ensures
            o == (ResizeOptions {
                width: Some(width),
                max_width: None,
                max_height: None,
                max_side: None,
                ..self
            }),
    {
        let mut o = self;
        o.width = Some(width);
        o.max_width = None;
        o.max_height = None;
        o.max_side = None;
        o
    }

    pub fn with_height(self, height: u32) -> (o: Self)
        ensures
            o == (ResizeOptions {
                height: Some(height),
                max_width: None,
                max_height: None,
                max_side: None,
                ..self
            }),
    {
        let mut o = self;
        o.height = Some(height);
        o.max_width = None;
        o.max_height = None;
        o.max_side = None;
        o
    }

    pub fn with_max_width(self, max_width: u32) -> (o: Self)
        ensures
            o == (ResizeOptions {
                width: None,
                height: None,
                max_width: Some(max_width),
                max_side: None,
                ..self
            }),
    {
        let mut o = self;
        o.width = None;
        o.height = None;
        o.max_width = Some(max_width);
        o.max_side = None;
        o
    }

    pub fn with_max_height(self, max_height: u32) -> (o: Self)
        ensures
            o == (ResizeOptions {
                width: None,
                height: None,
                max_height: Some(max_height),
                max_side: None,
                ..self
            }),
    {
        let mut o = self;
        o.width = None;
        o.height = None;
        o.max_height = Some(max_height);
        o.max_side = None;
        o
    }

    pub fn with_max_side(self, max_side: u32) -> (o: Self)
        ensures
            o == (ResizeOptions {
                width: None,
                height: None,
                max_width: None,
                max_height: None,
                max_side: Some(max_side),
                ..self
            }),
    {
        let mut o = self;
        o.width = None;
        o.height = None;
        o.max_width = None;
        o.max_height = None;
        o.max_side = Some(max_side);
        o
    }

    pub fn with_no_upscale(self, no_upscale: bool) -> (o: Self)
        ensures
            o == (ResizeOptions { no_upscale, ..self }),
    {
        let mut o = self;
        o.no_upscale = no_upscale;
        o
    }

    pub fn with_filter(self, filter: ResizeFilter) -> (o: Self)
        ensures
            o == (ResizeOptions { filter: Some(filter), ..self }),
    {
        let mut o = self;
        o.filter = Some(filter);
        o
    }

    /// Rejects combinations of size flags that cannot be honoured together.
    pub fn validate(&self) -> (r: Result<(), Error>)
        ensures
            r is Ok <==> resize_options_error(*self) is None,
            r matches Err(e) ==> e is InvalidArgument && e.message_view()
                == resize_options_error(*self).unwrap(),
    {
        if (self.width.is_some() || self.height.is_some()) && (self.max_width.is_some()
            || self.max_height.is_some()) {
            return Err(
                Error::invalid(
                    "`--width/--height` cannot be combined with `--max-width/--max-height`",
                ),
            );
        }
        if self.max_side.is_some() && (self.width.is_some() || self.height.is_some()
            || self.max_width.is_some() || self.max_height.is_some()) {
            return Err(Error::invalid("`--max-side` cannot be combined with other resize size flags"));
        }
        Ok(())
    }
}

/// The bit pattern of the `f32` value 100.0.
pub const QUALITY_MAX_BITS: u32 = 0x42C8_0000u32;

/// The bit pattern of the `f32` value -0.0.
pub const NEGATIVE_ZERO_BITS: u32 = 0x8000_0000u32;

/// The bit pattern of the `f32` value 75.0, the default quality.
pub const DEFAULT_QUALITY_BITS: u32 = 0x4296_0000u32;

/// Whether the IEEE-754 single-precision value with bit pattern `bits` lies in `0.0..=100.0`.
///
/// Non-negative values order like their bit patterns, and every NaN pattern with a clear sign
/// bit lies above the pattern of 100.0; among patterns with the sign bit set only -0.0 compares
/// `>= 0.0`.
pub open spec fn quality_bits_in_range(bits: u32) -> bool {
    bits <= QUALITY_MAX_BITS || bits == NEGATIVE_ZERO_BITS
}

/// Complete configuration for one image conversion.
///
/// The encoder quality is kept as the bit pattern of an `f32` value (`f32::to_bits`).
#[non_exhaustive]
#[derive(Debug, Clone, Copy, PartialEq, Eq, Structural)]
pub struct ConversionOptions {
    pub mode: Mode,
    pub quality_bits: u32,
    pub alpha_quality: u8,
    pub method: u8,
    pub sns_strength: Option<u8>,
    pub filter_strength: Option<u8>,
    pub exact: bool,
    pub sharpyuv: bool,
    pub fast: bool,
    pub fast_hq: bool,
    pub metadata: MetadataPolicy,
    pub resize: ResizeOptions,
}

/// The message of the first rule that a set of conversion options breaks, if any.
pub open spec fn conversion_options_error(o: ConversionOptions) -> Option<Seq<char>> {
    if o.fast && o.fast_hq {
        Some("`--fast` and `--fasthq` cannot be used together"@)
    } else if o.fast_hq && o.sharpyuv {
        Some("`--fasthq` cannot be combined with `--sharpyuv`"@)
    } else if o.fast_hq && !(o.mode is Lossy) {
        Some("`--fasthq` is available only for lossy encoding"@)
    } else if o.method > 6 {
        Some("`-m` must be in the range 0..=6"@)
    } else if o.alpha_quality > 100 {
        Some("`-alpha_q` must be in the range 0..=100"@)
    } else if o.mode matches Mode::NearLossless(v) && v > 100 {
        Some("`-near_lossless` must be in the range 0..=100"@)
    } else if !quality_bits_in_range(o.quality_bits) {
        Some("`-q` must be in the range 0..=100"@)
    } else if o.sns_strength matches Some(v) && v > 100 {
        Some("`-sns` must be in the range 0..=100"@)
    } else if o.filter_strength matches Some(v) && v > 100 {
        Some("`-f` must be in the range 0..=100"@)
    } else {
        resize_options_error(o.resize)
    }
}

impl Default for ConversionOptions {
    fn default() -> (o: Self)
        ensures
            o.mode == Mode::Lossy,
            o.quality_bits == DEFAULT_QUALITY_BITS,
            o.alpha_quality == 100,
            o.method == 4,
            o.sns_strength is None,
            o.filter_strength is None,
            !o.exact,
            !o.sharpyuv,
            !o.fast,
            !o.fast_hq,
            o.metadata == MetadataPolicy::Icc,
            o.resize == (ResizeOptions {
                width: None,
                height: None,
                max_width: None,
                max_height: None,
                max_side: None,
                no_upscale: false,
                filter: None,
            }),
    {
        ConversionOptions {
            mode: Mode::Lossy,
            quality_bits: DEFAULT_QUALITY_BITS,
            alpha_quality: 100,
            method: 4,
            sns_strength: None,
            filter_strength: None,
            exact: false,
            sharpyuv: false,
            fast: false,
            fast_hq: false,
            metadata: MetadataPolicy::Icc,
            resize: ResizeOptions::default(),
        }
    }
}

impl ConversionOptions {
    pub fn with_mode(self, mode: Mode) -> (o: Self)
        ensures
            o == (ConversionOptions { mode, ..self }),
    {
        let mut o = self;
        o.mode = mode;
        o
    }

    /// Sets the encoder quality from the bit pattern of an `f32` (`f32::to_bits`).
    pub fn with_quality(self, quality_bits: u32) -> (o: Self)
        ensures
            o == (ConversionOptions { quality_bits, ..self }),
    {
        let mut o = self;
        o.quality_bits = quality_bits;
        o
    }

    pub fn with_alpha_quality(self, alpha_quality: u8) -> (o: Self)
        ensures
            o == (ConversionOptions { alpha_quality, ..self }),
    {
        let mut o = self;
        o.alpha_quality = alpha_quality;
        o
    }

    pub fn with_method(self, method: u8) -> (o: Self)
        ensures
            o == (ConversionOptions { method, ..self }),
    {
        let mut o = self;
        o.method = method;
        o
    }

    pub fn with_metadata(self, metadata: MetadataPolicy) -> (o: Self)
        ensures
            o == (ConversionOptions { metadata, ..self }),
    {
        let mut o = self;
        o.metadata = metadata;
        o
    }

    pub fn with_resize(self, resize: ResizeOptions) -> (o: Self)
        ensures
            o == (ConversionOptions { resize, ..self }),
    {
        let mut o = self;
        o.resize = resize;
        o
    }

    pub fn with_max_side(self, max_side: u32) -> (o: Self)
        ensures
            o == (ConversionOptions {
                resize: ResizeOptions {
                    width: None,
                    height: None,
                    max_width: None,
                    max_height: None,
                    max_side: Some(max_side),
                    ..self.resize
                },
                ..self
            }),
    {
        let mut o = self;
        o.resize = o.resize.with_max_side(max_side);
        o
    }

    pub fn with_fast(self, fast: bool) -> (o: Self)
        ensures
            o == (ConversionOptions { fast, ..self }),
    {
        let mut o = self;
        o.fast = fast;
        o
    }

    pub fn with_fast_hq(self, fast_hq: bool) -> (o: Self)
        ensures
            o == (ConversionOptions { fast_hq, ..self }),
    {
        let mut o = self;
        o.fast_hq = fast_hq;
        o
    }

    pub fn with_sharpyuv(self, sharpyuv: bool) -> (o: Self)
        ensures
            o == (ConversionOptions { sharpyuv, ..self }),
    {
        let mut o = self;
        o.sharpyuv = sharpyuv;
        o
    }

    /// Checks every option before any image processing starts.
    pub fn validate(&self) -> (r: Result<(), Error>)
        ensures
            r is Ok <==> conversion_options_error(*self) is None,
            r matches Err(e) ==> e is InvalidArgument && e.message_view()
                == conversion_options_error(*self).unwrap(),
    {
        if self.fast && self.fast_hq {
            return Err(Error::invalid("`--fast` and `--fasthq` cannot be used together"));
        }
        if self.fast_hq && self.sharpyuv {
            return Err(Error::invalid("`--fasthq` cannot be combined with `--sharpyuv`"));
        }
        if self.fast_hq && !matches!(self.mode, Mode::Lossy) {
            return Err(Error::invalid("`--fasthq` is available only for lossy encoding"));
        }
        if self.method > 6 {
            return Err(Error::invalid("`-m` must be in the range 0..=6"));
        }
        if self.alpha_quality > 100 {
            return Err(Error::invalid("`-alpha_q` must be in the range 0..=100"));
        }
        if let Mode::NearLossless(value) = self.mode {
            if value > 100 {
                return Err(Error::invalid("`-near_lossless` must be in the range 0..=100"));
            }
        }
        if !(self.quality_bits <= QUALITY_MAX_BITS || self.quality_bits == NEGATIVE_ZERO_BITS) {
            return Err(Error::invalid("`-q` must be in the range 0..=100"));
        }
        if let Some(value) = self.sns_strength {
            if value > 100 {
                return Err(Error::invalid("`-sns` must be in the range 0..=100"));
            }
        }
        if let Some(value) = self.filter_strength {
            if value > 100 {
                return Err(Error::invalid("`-f` must be in the range 0..=100"));
            }
        }
        self.resize.validate()
    }

    /// The lossy path uses SimpleYUV unless SharpYUV was requested.
    pub fn uses_simpleyuv(&self) -> (b: bool)
        ensures
            b == !self.sharpyuv,
    {
        !self.sharpyuv
    }

    /// The 8-bit decode path is taken in fast mode.
    pub fn uses_fast_decode(&self) -> (b: bool)
        ensures
            b == self.fast,
    {
        self.fast
    }
}

/// Accepted options use `--fasthq` only for lossy encoding with the high-bit-depth decode and
/// SimpleYUV: it cannot be combined with `--fast`, `--sharpyuv`, lossless or near-lossless.
pub proof fn lemma_fasthq_only_with_simpleyuv_lossy(o: ConversionOptions)
    requires
        conversion_options_error(o) is None,
        o.fast_hq,
    ensures
        !o.fast,
        !o.sharpyuv,
        o.mode is Lossy,
{
}

} // verus!
