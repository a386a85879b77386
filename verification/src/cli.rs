//! Validation of the command-line options into a conversion configuration.
use vstd::prelude::*;

use crate::config::{
    quality_bits_in_range, resize_options_error, ConversionOptions, Mode, ResizeFilter,
    ResizeOptions, NEGATIVE_ZERO_BITS, QUALITY_MAX_BITS,
};
use crate::error::Error;
use crate::metadata::MetadataPolicy;

verus! {

/// The parsed command-line flags, before validation. `quality_bits` is the bit pattern of the
/// `-q` value (`f32::to_bits`).
#[derive(Debug, Clone, Copy, PartialEq, Eq, Structural)]
pub struct CliArgs {
    pub quality_bits: u32,
    pub alpha_quality: u8,
    pub method: u8,
    pub sns_strength: Option<u8>,
    pub filter_strength: Option<u8>,
    pub sharpyuv: bool,
    pub lossless: bool,
    pub near_lossless: Option<u8>,
    pub exact: bool,
    pub fast: bool,
    pub fast_hq: bool,
    pub metadata: MetadataPolicy,
    pub width: Option<u32>,
    pub height: Option<u32>,
    pub max_width: Option<u32>,
    pub max_height: Option<u32>,
    pub max_side: Option<u32>,
    pub no_upscale: bool,
    pub resize_filter: Option<ResizeFilter>,
}

/// The resize options that the flags ask for.
pub open spec fn cli_resize(cli: CliArgs) -> ResizeOptions {
    ResizeOptions {
        width: cli.width,
        height: cli.height,
        max_width: cli.max_width,
        max_height: cli.max_height,
        max_side: cli.max_side,
        no_upscale: cli.no_upscale,
        filter: cli.resize_filter,
    }
}

/// The message of the first rule that the flags break, if any.
pub open spec fn cli_error(cli: CliArgs) -> Option<Seq<char>> {
    if cli.lossless && cli.near_lossless is Some {
        Some("`-lossless` and `-near_lossless` cannot be used together"@)
    } else if cli.fast && cli.fast_hq {
        Some("`--fast` and `--fasthq` cannot be used together"@)
    } else if resize_options_error(cli_resize(cli)) is Some {
        resize_options_error(cli_resize(cli))
    } else if cli.method > 6 {
        Some("`-m` must be in the range 0..=6"@)
    } else if cli.alpha_quality > 100 {
        Some("`-alpha_q` must be in the range 0..=100"@)
    } else if cli.near_lossless matches Some(v) && v > 100 {
        Some("`-near_lossless` must be in the range 0..=100"@)
    } else if !quality_bits_in_range(cli.quality_bits) {
        Some("`-q` must be in the range 0..=100"@)
    } else if cli.sns_strength matches Some(v) && v > 100 {
        Some("`-sns` must be in the range 0..=100"@)
    } else if cli.filter_strength matches Some(v) && v > 100 {
        Some("`-f` must be in the range 0..=100"@)
    } else {
        None
    }
}

/// The encoding mode that the flags select.
pub open spec fn cli_mode(cli: CliArgs) -> Mode {
    if cli.lossless {
        Mode::Lossless
    } else if let Some(v) = cli.near_lossless {
        Mode::NearLossless(v)
    } else {
        Mode::Lossy
    }
}

/// The configuration that valid flags describe.
pub open spec fn cli_options(cli: CliArgs) -> ConversionOptions {
    ConversionOptions {
        mode: cli_mode(cli),
        quality_bits: cli.quality_bits,
        alpha_quality: cli.alpha_quality,
        method: cli.method,
        sns_strength: cli.sns_strength,
        filter_strength: cli.filter_strength,
        exact: cli.exact,
        sharpyuv: cli.sharpyuv,
        fast: cli.fast,
        fast_hq: cli.fast_hq,
        metadata: cli.metadata,
        resize: cli_resize(cli),
    }
}

/// Checks the command-line flags and turns them into a conversion configuration.
pub fn validate(cli: CliArgs) -> (r: Result<ConversionOptions, Error>)
    ensures
        match cli_error(cli) {
            None => r == Ok::<ConversionOptions, Error>(cli_options(cli)),
            Some(m) => r matches Err(e) && e is InvalidArgument && e.message_view() == m,
        },
{
    if cli.lossless && cli.near_lossless.is_some() {
        return Err(Error::invalid("`-lossless` and `-near_lossless` cannot be used together"));
    }
    if cli.fast && cli.fast_hq {
        return Err(Error::invalid("`--fast` and `--fasthq` cannot be used together"));
    }
    if (cli.width.is_some() || cli.height.is_some()) && (cli.max_width.is_some()
        || cli.max_height.is_some()) {
        return Err(
            Error::invalid(
                "`--width/--height` cannot be combined with `--max-width/--max-height`",
            ),
        );
    }
    if cli.max_side.is_some() && (cli.width.is_some() || cli.height.is_some()
        || cli.max_width.is_some() || cli.max_height.is_some()) {
        return Err(Error::invalid("`--max-side` cannot be combined with other resize size flags"));
    }
    if cli.method > 6 {
        return Err(Error::invalid("`-m` must be in the range 0..=6"));
    }
    if cli.alpha_quality > 100 {
        return Err(Error::invalid("`-alpha_q` must be in the range 0..=100"));
    }
    if let Some(value) = cli.near_lossless {
        if value > 100 {
            return Err(Error::invalid("`-near_lossless` must be in the range 0..=100"));
        }
    }
    if !(cli.quality_bits <= QUALITY_MAX_BITS || cli.quality_bits == NEGATIVE_ZERO_BITS) {
        return Err(Error::invalid("`-q` must be in the range 0..=100"));
    }
    if let Some(value) = cli.sns_strength {
        if value > 100 {
            return Err(Error::invalid("`-sns` must be in the range 0..=100"));
        }
    }
    if let Some(value) = cli.filter_strength {
        if value > 100 {
            return Err(Error::invalid("`-f` must be in the range 0..=100"));
        }
    }

    let mode = if cli.lossless {
        Mode::Lossless
    } else if let Some(value) = cli.near_lossless {
        Mode::NearLossless(value)
    } else {
        Mode::Lossy
    };

    Ok(
        ConversionOptions {
            mode,
            quality_bits: cli.quality_bits,
            alpha_quality: cli.alpha_quality,
            method: cli.method,
            sns_strength: cli.sns_strength,
            filter_strength: cli.filter_strength,
            exact: cli.exact,
            sharpyuv: cli.sharpyuv,
            fast: cli.fast,
            fast_hq: cli.fast_hq,
            metadata: cli.metadata,
            resize: ResizeOptions {
                width: cli.width,
                height: cli.height,
                max_width: cli.max_width,
                max_height: cli.max_height,
                max_side: cli.max_side,
                no_upscale: cli.no_upscale,
                filter: cli.resize_filter,
            },
        },
    )
}

/// Flags that pass the command-line checks describe a configuration whose only possible
/// rejection by `ConversionOptions::validate` is a `--fasthq` conflict.
pub proof fn lemma_valid_cli_leaves_only_fasthq_conflicts(cli: CliArgs)
    requires
        cli_error(cli) is None,
        !cli.fast_hq,
    ensures
        crate::config::conversion_options_error(cli_options(cli)) is None,
{
}

} // verus!
