//! Output size, filter choice and the resizer.
use vstd::prelude::*;
use vstd::endian::endianness;

use crate::config::{ResizeFilter, ResizeOptions};
use crate::decode::{SampleView, WorkingColorSpace, WorkingData, WorkingImage};
use crate::error::Error;
use fast_image_resize::images::Image;
use fast_image_resize::{FilterType, PixelType, ResizeAlg, ResizeOptions as FirResizeOptions, Resizer};

verus! {

/// The largest width or height of a WebP canvas.
pub const MAX_WEBP_DIMENSION: u32 = 16383;

/// Output dimensions chosen for a conversion.
#[derive(Debug, Clone, Copy, PartialEq, Eq, Structural)]
pub struct TargetSize {
    pub width: u32,
    pub height: u32,
    pub resized: bool,
}

/// `value * numer / denom`, rounded down.
pub open spec fn scale_rounded_spec(value: u32, numer: u32, denom: u32) -> nat {
    (value as nat) * (numer as nat) / (denom as nat)
}

/// `max(1, v)`.
pub open spec fn at_least_one(v: int) -> int {
    if v < 1 {
        1
    } else {
        v
    }
}

/// Fits a `src_width` x `src_height` image inside `max_width` x `max_height` keeping its aspect
/// ratio: both sides are multiplied by `min(max_width / src_width, max_height / src_height)`
/// and rounded down, never below one. An image that already fits is kept as it is.
pub open spec fn fit_inside_spec(src_width: u32, src_height: u32, max_width: u32, max_height: u32) -> (
    int,
    int,
) {
    if src_width <= max_width && src_height <= max_height {
        (src_width as int, src_height as int)
    } else if src_width == 0 {
        (1, at_least_one(max_height as int))
    } else if src_height == 0 {
        (at_least_one(max_width as int), 1)
    } else if (max_width as int) * (src_height as int) <= (max_height as int) * (src_width as int) {
        // the width limit is the tighter one
        (
            at_least_one(max_width as int),
            at_least_one((src_height as int) * (max_width as int) / (src_width as int)),
        )
    } else {
        (
            at_least_one((src_width as int) * (max_height as int) / (src_height as int)),
            at_least_one(max_height as int),
        )
    }
}

/// The dimensions requested by `options` before clamping and limits are applied.
pub open spec fn requested_size(src_width: u32, src_height: u32, options: ResizeOptions) -> (
    int,
    int,
) {
    match (options.width, options.height) {
        (Some(w), Some(h)) => (w as int, h as int),
        (Some(w), None) => (w as int, scale_rounded_spec(src_height, w, src_width) as int),
        (None, Some(h)) => (scale_rounded_spec(src_width, h, src_height) as int, h as int),
        (None, None) => {
            if let Some(side) = options.max_side {
                fit_inside_spec(src_width, src_height, side, side)
            } else if options.max_width is Some || options.max_height is Some {
                fit_inside_spec(
                    src_width,
                    src_height,
                    options.max_width.unwrap_or(src_width),
                    options.max_height.unwrap_or(src_height),
                )
            } else {
                (src_width as int, src_height as int)
            }
        },
    }
}

/// Inputs on which the size computation divides by a zero source dimension.
pub open spec fn target_size_defined(src_width: u32, src_height: u32, options: ResizeOptions) -> bool {
    &&& (options.width is Some && options.height is None) ==> src_width > 0
    &&& (options.width is None && options.height is Some) ==> src_height > 0
}

/// What `compute_target_size` returns: the target dimensions, or the message of its error.
pub open spec fn target_size_spec(src_width: u32, src_height: u32, options: ResizeOptions) -> Result<
    (int, int),
    Seq<char>,
> {
    let (w, h) = requested_size(src_width, src_height, options);
    if w == 0 || h == 0 {
        Err("calculated target size is zero"@)
    } else {
        let w2 = if options.no_upscale && w > src_width {
            src_width as int
        } else {
            w
        };
        let h2 = if options.no_upscale && h > src_height {
            src_height as int
        } else {
            h
        };
        if w2 > MAX_WEBP_DIMENSION || h2 > MAX_WEBP_DIMENSION {
            Err("resulting WebP dimensions exceed 16383x16383"@)
        } else {
            Ok((w2, h2))
        }
    }
}

/// The resampling filter: the requested one, else Catmull-Rom when either side grows and
/// Lanczos3 otherwise.
pub open spec fn auto_filter(src_width: u32, src_height: u32, target: TargetSize, requested: Option<ResizeFilter>) -> ResizeFilter {
    match requested {
        Some(r) => r,
        None => if target.width > src_width || target.height > src_height {
            ResizeFilter::CatmullRom
        } else {
            ResizeFilter::Lanczos3
        },
    }
}

/// Picks the resampling filter: the requested one, else Catmull-Rom when either side grows and
/// Lanczos3 otherwise.
pub fn resolve_filter(
    src_width: u32,
    src_height: u32,
    target: TargetSize,
    requested: Option<ResizeFilter>,
) -> (f: ResizeFilter)
    ensures
        f == auto_filter(src_width, src_height, target, requested),
{
    if let Some(filter) = requested {
        return filter;
    }
    if target.width > src_width || target.height > src_height {
        ResizeFilter::CatmullRom
    } else {
        ResizeFilter::Lanczos3
    }
}

/// The product of two 32-bit values fits in 64 bits.
proof fn lemma_u32_product_fits(a: u32, b: u32)
    ensures
        0 <= (a as int) * (b as int) <= u64::MAX,
{
    assert(0 <= (a as int) * (b as int) <= 0xFFFF_FFFFint * 0xFFFF_FFFFint) by (nonlinear_arith)
        requires
            0 <= a <= 0xFFFF_FFFF,
            0 <= b <= 0xFFFF_FFFF,
    ;
}

/// `value * numer / denom` in 64-bit arithmetic, which holds every such quotient.
pub fn scale_rounded(value: u32, numer: u32, denom: u32) -> (r: u64)
    requires
        denom > 0,
    ensures
        r == scale_rounded_spec(value, numer, denom),
{
    proof {
        lemma_u32_product_fits(value, numer);
    }
    let product: u64 = (value as u64) * (numer as u64);
    product / (denom as u64)
}

/// Fits a source size inside a bounding box, keeping the aspect ratio.
pub fn fit_inside(src_width: u32, src_height: u32, max_width: u32, max_height: u32) -> (r: (
    u32,
    u32,
))
    ensures
        (r.0 as int, r.1 as int) == fit_inside_spec(src_width, src_height, max_width, max_height),
{
    if src_width <= max_width && src_height <= max_height {
        return (src_width, src_height);
    }
    if src_width == 0 {
        return (1, if max_height == 0 { 1 } else { max_height });
    }
    if src_height == 0 {
        return (if max_width == 0 { 1 } else { max_width }, 1);
    }
    proof {
        lemma_u32_product_fits(max_width, src_height);
        lemma_u32_product_fits(max_height, src_width);
        lemma_u32_product_fits(src_height, max_width);
        lemma_u32_product_fits(src_width, max_height);
    }
    let width_limit: u64 = (max_width as u64) * (src_height as u64);
    let height_limit: u64 = (max_height as u64) * (src_width as u64);
    if width_limit <= height_limit {
        // src_height * max_width / src_width <= max_height < 2^32
        let scaled: u64 = (src_height as u64) * (max_width as u64) / (src_width as u64);
        proof {
            assert((src_height as int) * (max_width as int) / (src_width as int) <= max_height as int) by (nonlinear_arith)
                requires
                    (max_width as int) * (src_height as int) <= (max_height as int) * (src_width as int),
                    src_width > 0,
            {
                vstd::arithmetic::div_mod::lemma_div_is_ordered(
                    (src_height as int) * (max_width as int),
                    (max_height as int) * (src_width as int),
                    src_width as int,
                );
                vstd::arithmetic::div_mod::lemma_div_by_multiple(max_height as int, src_width as int);
            }
        }
        let h: u32 = scaled as u32;
        (if max_width == 0 { 1 } else { max_width }, if h == 0 { 1 } else { h })
    } else {
        let scaled: u64 = (src_width as u64) * (max_height as u64) / (src_height as u64);
        proof {
            assert((src_width as int) * (max_height as int) / (src_height as int) <= max_width as int) by (nonlinear_arith)
                requires
                    (max_width as int) * (src_height as int) > (max_height as int) * (src_width as int),
                    src_height > 0,
            {
                vstd::arithmetic::div_mod::lemma_div_is_ordered(
                    (src_width as int) * (max_height as int),
                    (max_width as int) * (src_height as int),
                    src_height as int,
                );
                vstd::arithmetic::div_mod::lemma_div_by_multiple(max_width as int, src_height as int);
            }
        }
        let w: u32 = scaled as u32;
        (if w == 0 { 1 } else { w }, if max_height == 0 { 1 } else { max_height })
    }
}

/// Computes the output dimensions for a source of the given size.
pub fn compute_target_size(src_width: u32, src_height: u32, options: &ResizeOptions) -> (r: Result<
    TargetSize,
    Error,
>)
    requires
        target_size_defined(src_width, src_height, *options),
    ensures
        match target_size_spec(src_width, src_height, *options) {
            Ok((w, h)) => r matches Ok(t) && t.width == w && t.height == h && t.resized == (w
                != src_width || h != src_height),
            Err(m) => r matches Err(e) && e is InvalidArgument && e.message_view() == m,
        },
{
    let (mut width, mut height): (u64, u64) = match (options.width, options.height) {
        (Some(width), Some(height)) => (width as u64, height as u64),
        (Some(width), None) => (width as u64, scale_rounded(src_height, width, src_width)),
        (None, Some(height)) => (scale_rounded(src_width, height, src_height), height as u64),
        (None, None) => {
            let (w, h) = if let Some(side) = options.max_side {
                fit_inside(src_width, src_height, side, side)
            } else if options.max_width.is_some() || options.max_height.is_some() {
                let max_width = match options.max_width {
                    Some(v) => v,
                    None => src_width,
                };
                let max_height = match options.max_height {
                    Some(v) => v,
                    None => src_height,
                };
                fit_inside(src_width, src_height, max_width, max_height)
            } else {
                (src_width, src_height)
            };
            (w as u64, h as u64)
        },
    };

    if width == 0 || height == 0 {
        return Err(Error::invalid("calculated target size is zero"));
    }

    if options.no_upscale {
        if width > src_width as u64 {
            width = src_width as u64;
        }
        if height > src_height as u64 {
            height = src_height as u64;
        }
    }

    if width > MAX_WEBP_DIMENSION as u64 || height > MAX_WEBP_DIMENSION as u64 {
        return Err(Error::invalid("resulting WebP dimensions exceed 16383x16383"));
    }
    let width: u32 = width as u32;
    let height: u32 = height as u32;

    Ok(TargetSize { width, height, resized: width != src_width || height != src_height })
}

} // verus!

verus! {

/// `--no-upscale` never lets a side grow beyond the source.
pub proof fn lemma_no_upscale_never_enlarges(src_width: u32, src_height: u32, options: ResizeOptions)
    requires
        options.no_upscale,
        target_size_spec(src_width, src_height, options) is Ok,
    ensures
        target_size_spec(src_width, src_height, options)->Ok_0.0 <= src_width,
        target_size_spec(src_width, src_height, options)->Ok_0.1 <= src_height,
{
}

/// Every accepted target fits a WebP canvas, and is at least one pixel wide and high when the
/// source is.
pub proof fn lemma_target_within_webp_limits(src_width: u32, src_height: u32, options: ResizeOptions)
    requires
        target_size_spec(src_width, src_height, options) is Ok,
    ensures
        target_size_spec(src_width, src_height, options)->Ok_0.0 <= MAX_WEBP_DIMENSION,
        target_size_spec(src_width, src_height, options)->Ok_0.1 <= MAX_WEBP_DIMENSION,
        src_width >= 1 ==> target_size_spec(src_width, src_height, options)->Ok_0.0 >= 1,
        src_height >= 1 ==> target_size_spec(src_width, src_height, options)->Ok_0.1 >= 1,
{
    let (w, h) = requested_size(src_width, src_height, options);
    assert(w != 0 && h != 0);
    lemma_requested_size_nonnegative(src_width, src_height, options);
}

proof fn lemma_requested_size_nonnegative(src_width: u32, src_height: u32, options: ResizeOptions)
    ensures
        requested_size(src_width, src_height, options).0 >= 0,
        requested_size(src_width, src_height, options).1 >= 0,
{
    let sw = src_width as int;
    let sh = src_height as int;
    if options.width is None && options.height is None {
        if let Some(side) = options.max_side {
            lemma_fit_inside_nonnegative(src_width, src_height, side, side);
        } else if options.max_width is Some || options.max_height is Some {
            lemma_fit_inside_nonnegative(
                src_width,
                src_height,
                options.max_width.unwrap_or(src_width),
                options.max_height.unwrap_or(src_height),
            );
        }
    }
}

proof fn lemma_fit_inside_nonnegative(src_width: u32, src_height: u32, max_width: u32, max_height: u32)
    ensures
        fit_inside_spec(src_width, src_height, max_width, max_height).0 >= 0,
        fit_inside_spec(src_width, src_height, max_width, max_height).1 >= 0,
{
}

/// A fitted image lies inside its bounding box, and an image that already fits is left as it is.
pub proof fn lemma_fit_inside_box(src_width: u32, src_height: u32, max_width: u32, max_height: u32)
    requires
        max_width >= 1,
        max_height >= 1,
    ensures
        fit_inside_spec(src_width, src_height, max_width, max_height).0 <= max_width,
        fit_inside_spec(src_width, src_height, max_width, max_height).1 <= max_height,
        src_width <= max_width && src_height <= max_height ==> fit_inside_spec(
            src_width,
            src_height,
            max_width,
            max_height,
        ) == (src_width as int, src_height as int),
{
    let sw = src_width as int;
    let sh = src_height as int;
    let mw = max_width as int;
    let mh = max_height as int;
    if sw <= mw && sh <= mh {
    } else if sw == 0 || sh == 0 {
    } else if mw * sh <= mh * sw {
        lemma_scaled_side_within(sh, mw, sw, mh);
    } else {
        lemma_scaled_side_within(sw, mh, sh, mw);
    }
}

/// When `limit * side <= bound * other`, scaling `side` by `limit / other` stays within `bound`.
proof fn lemma_scaled_side_within(side: int, limit: int, other: int, bound: int)
    requires
        side >= 0,
        limit >= 0,
        other > 0,
        bound >= 1,
        limit * side <= bound * other,
    ensures
        at_least_one(side * limit / other) <= bound,
        side * limit / other >= 0,
{
    assert(side * limit == limit * side) by (nonlinear_arith);
    vstd::arithmetic::div_mod::lemma_div_is_ordered(side * limit, bound * other, other);
    vstd::arithmetic::div_mod::lemma_div_by_multiple(bound, other);
    vstd::arithmetic::div_mod::lemma_div_pos_is_pos(side * limit, other);
    assert(side * limit >= 0) by (nonlinear_arith)
        requires
            side >= 0,
            limit >= 0,
    ;
}

/// `--max-side N` brings the longest side of a larger image down to exactly `N`, and the other
/// side to at most `N`.
pub proof fn lemma_max_side_sets_longest_edge(src_width: u32, src_height: u32, side: u32)
    requires
        side >= 1,
        src_width >= 1,
        src_height >= 1,
        src_width > side || src_height > side,
    ensures
        ({
            let (w, h) = fit_inside_spec(src_width, src_height, side, side);
            &&& w <= side && h <= side
            &&& (w == side || h == side)
            &&& (src_width >= src_height ==> w == side)
            &&& (src_height >= src_width ==> h == side)
        }),
{
    let sw = src_width as int;
    let sh = src_height as int;
    let n = side as int;
    lemma_fit_inside_box(src_width, src_height, side, side);
    if n * sh <= n * sw {
        if sh >= sw {
            // then sh == sw and the scaled height is exactly n
            assert(n * sh <= n * sw ==> sh <= sw) by (nonlinear_arith)
                requires
                    n >= 1,
            ;
            assert(sh * n / sw == n) by {
                vstd::arithmetic::div_mod::lemma_div_by_multiple(n, sw);
                assert(sh * n == n * sw) by (nonlinear_arith)
                    requires
                        sh == sw,
                ;
            }
        }
    } else {
        assert(n * sh > n * sw ==> sh > sw) by (nonlinear_arith)
            requires
                n >= 1,
        ;
    }
}

/// Fitting into a box keeps the aspect ratio: when the source does not fit, both sides end up
/// within the box, and one side is at its limit while the other is the proportional size,
/// rounded down and never below one.
pub proof fn lemma_fit_keeps_aspect_ratio(src_width: u32, src_height: u32, max_width: u32, max_height: u32)
    requires
        src_width >= 1,
        src_height >= 1,
        max_width >= 1,
        max_height >= 1,
        !(src_width <= max_width && src_height <= max_height),
    ensures
        ({
            let (fw, fh) = fit_inside_spec(src_width, src_height, max_width, max_height);
            &&& 1 <= fw <= max_width
            &&& 1 <= fh <= max_height
            &&& (fw == max_width && fh == at_least_one((src_height as int) * (max_width as int) / (
                src_width as int)) && (max_width as int) * (src_height as int) <= (max_height as int)
                * (src_width as int)) || (fh == max_height && fw == at_least_one((src_width as int) * (
                max_height as int) / (src_height as int)) && (max_width as int) * (src_height as int)
                > (max_height as int) * (src_width as int))
        }),
{
    let sw = src_width as int;
    let sh = src_height as int;
    let mw = max_width as int;
    let mh = max_height as int;
    if mw * sh <= mh * sw {
        assert(sh * mw / sw <= mh) by (nonlinear_arith)
            requires
                mw * sh <= mh * sw,
                sw > 0,
                sh >= 0,
                mw >= 0,
                mh >= 0,
        {
            vstd::arithmetic::div_mod::lemma_div_is_ordered(sh * mw, mh * sw, sw);
            vstd::arithmetic::div_mod::lemma_div_by_multiple(mh, sw);
        }
    } else {
        assert(sw * mh / sh <= mw) by (nonlinear_arith)
            requires
                mw * sh > mh * sw,
                sh > 0,
                sw >= 0,
                mw >= 0,
                mh >= 0,
        {
            vstd::arithmetic::div_mod::lemma_div_is_ordered(sw * mh, mw * sh, sh);
            vstd::arithmetic::div_mod::lemma_div_by_multiple(mw, sh);
        }
    }
}

/// With only a width limit, a wider source is scaled to that width and its height follows in
/// proportion (rounded down, at least one): 3000 x 2000 under a limit of 1000 gives 1000 x 666.
pub proof fn lemma_max_width_alone_scales_height(src_width: u32, src_height: u32, options: ResizeOptions)
    requires
        options.width is None,
        options.height is None,
        options.max_side is None,
        options.max_height is None,
        options.max_width matches Some(m) && 1 <= m < src_width,
        !options.no_upscale,
        src_height >= 1,
        (src_height as int) * (options.max_width->0 as int) / (src_width as int) <= MAX_WEBP_DIMENSION,
        options.max_width->0 <= MAX_WEBP_DIMENSION,
    ensures
        target_size_spec(src_width, src_height, options) == Ok::<(int, int), Seq<char>>(
            (
                options.max_width->0 as int,
                at_least_one((src_height as int) * (options.max_width->0 as int) / (src_width as int)),
            ),
        ),
{
    let m = options.max_width->0;
    lemma_fit_keeps_aspect_ratio(src_width, src_height, m, src_height);
    let sw = src_width as int;
    let sh = src_height as int;
    assert((m as int) * sh <= sh * sw) by (nonlinear_arith)
        requires
            m < sw,
            sh >= 1,
    ;
}

/// With only `--width`, the height follows in proportion, rounded down: the target is
/// `width x floor(src_height * width / src_width)` whenever it is accepted, and it is accepted
/// when both sides are between one and the WebP limit.
pub proof fn lemma_width_alone_keeps_aspect(src_width: u32, src_height: u32, options: ResizeOptions)
    requires
        options.width is Some,
        options.height is None,
        !options.no_upscale,
        src_width >= 1,
    ensures
        ({
            let wd = options.width->0 as int;
            let ht = (src_height as int) * wd / (src_width as int);
            &&& target_size_spec(src_width, src_height, options) matches Ok((tw, th)) ==> tw == wd && th == ht
            &&& (1 <= wd <= MAX_WEBP_DIMENSION && 1 <= ht <= MAX_WEBP_DIMENSION) ==> target_size_spec(
                src_width,
                src_height,
                options,
            ) is Ok
        }),
{
}

/// With only `--height`, the width follows in proportion, rounded down.
pub proof fn lemma_height_alone_keeps_aspect(src_width: u32, src_height: u32, options: ResizeOptions)
    requires
        options.width is None,
        options.height is Some,
        !options.no_upscale,
        src_height >= 1,
    ensures
        ({
            let ht = options.height->0 as int;
            let wd = (src_width as int) * ht / (src_height as int);
            &&& target_size_spec(src_width, src_height, options) matches Ok((tw, th)) ==> tw == wd && th == ht
            &&& (1 <= wd <= MAX_WEBP_DIMENSION && 1 <= ht <= MAX_WEBP_DIMENSION) ==> target_size_spec(
                src_width,
                src_height,
                options,
            ) is Ok
        }),
{
}

/// `--max-side N` brings the longer side of a larger source down to `N` and scales the other in
/// proportion (rounded down, at least one).
pub proof fn lemma_max_side_bounds_the_longer_side(src_width: u32, src_height: u32, options: ResizeOptions)
    requires
        options.width is None,
        options.height is None,
        options.max_side matches Some(n) && n >= 1,
        src_width >= 1,
        src_height >= 1,
        src_width > options.max_side->0 || src_height > options.max_side->0,
    ensures
        ({
            let n = options.max_side->0;
            let (fw, fh) = requested_size(src_width, src_height, options);
            &&& src_width >= src_height ==> fw == n && fh == at_least_one(
                (src_height as int) * (n as int) / (src_width as int),
            )
            &&& src_width < src_height ==> fh == n && fw == at_least_one(
                (src_width as int) * (n as int) / (src_height as int),
            )
        }),
{
    let n = options.max_side->0;
    lemma_fit_keeps_aspect_ratio(src_width, src_height, n, n);
    let sw = src_width as int;
    let sh = src_height as int;
    assert((n as int) * sh <= (n as int) * sw <==> sh <= sw) by (nonlinear_arith)
        requires
            n >= 1,
    ;
}

/// Without any resize option the target is the source size, and nothing is resized.
pub proof fn lemma_no_options_keeps_size(src_width: u32, src_height: u32, options: ResizeOptions)
    requires
        options.width is None,
        options.height is None,
        options.max_width is None,
        options.max_height is None,
        options.max_side is None,
        1 <= src_width <= MAX_WEBP_DIMENSION,
        1 <= src_height <= MAX_WEBP_DIMENSION,
    ensures
        target_size_spec(src_width, src_height, options) == Ok::<(int, int), Seq<char>>(
            (src_width as int, src_height as int),
        ),
{
}

} // verus!

verus! {

/// The two bytes of a 16-bit sample in the given byte order.
pub open spec fn u16_low_first(v: u16, little_endian: bool) -> (u8, u8) {
    if little_endian {
        ((v as nat % 256) as u8, (v as nat / 256) as u8)
    } else {
        ((v as nat / 256) as u8, (v as nat % 256) as u8)
    }
}

/// The bytes of 16-bit samples, two per sample, in the given byte order.
pub open spec fn u16_to_bytes_spec(values: Seq<u16>, little_endian: bool) -> Seq<u8> {
    Seq::new(
        values.len() * 2,
        |p: int|
            if p % 2 == 0 {
                u16_low_first(values[p / 2], little_endian).0
            } else {
                u16_low_first(values[p / 2], little_endian).1
            },
    )
}

/// 16-bit samples read from consecutive byte pairs in the given byte order.
pub open spec fn bytes_to_u16_spec(bytes: Seq<u8>, little_endian: bool) -> Seq<u16> {
    Seq::new(bytes.len() / 2, |i: int| crate::decode::sample16(bytes, 2 * i, little_endian))
}

/// Splits 16-bit samples into bytes in the given byte order.
pub fn u16_to_bytes(values: Vec<u16>, little_endian: bool) -> (out: Vec<u8>)
    requires
        values@.len() * 2 <= usize::MAX,
    ensures
        out@ == u16_to_bytes_spec(values@, little_endian),
{
    let mut out: Vec<u8> = Vec::new();
    let mut i: usize = 0;
    while i < values.len()
        invariant
            0 <= i <= values@.len(),
            out@.len() == 2 * i,
            forall|p: int|
                0 <= p < out@.len() ==> #[trigger] out@[p] == (if p % 2 == 0 {
                    u16_low_first(values@[p / 2], little_endian).0
                } else {
                    u16_low_first(values@[p / 2], little_endian).1
                }),
        decreases values@.len() - i,
    {
        let v = values[i];
        let low = (v % 256) as u8;
        let high = (v / 256) as u8;
        if little_endian {
            out.push(low);
            out.push(high);
        } else {
            out.push(high);
            out.push(low);
        }
        i += 1;
    }
    assert(out@ =~= u16_to_bytes_spec(values@, little_endian));
    out
}

/// Joins byte pairs into 16-bit samples in the given byte order; a trailing odd byte is dropped.
pub fn bytes_to_u16(bytes: Vec<u8>, little_endian: bool) -> (out: Vec<u16>)
    ensures
        out@ == bytes_to_u16_spec(bytes@, little_endian),
{
    let out = crate::decode::rgb16_bytes_to_rgb16(bytes.as_slice(), little_endian);
    assert(out@ =~= bytes_to_u16_spec(bytes@, little_endian));
    out
}

/// Splitting 16-bit samples into bytes and joining them again gives back the samples.
pub proof fn lemma_u16_bytes_roundtrip(values: Seq<u16>, little_endian: bool)
    ensures
        bytes_to_u16_spec(u16_to_bytes_spec(values, little_endian), little_endian) == values,
{
    let bytes = u16_to_bytes_spec(values, little_endian);
    let back = bytes_to_u16_spec(bytes, little_endian);
    assert forall|i: int| 0 <= i < values.len() implies #[trigger] back[i] == values[i] by {
        let v = values[i];
        assert((2 * i) % 2 == 0);
        assert((2 * i + 1) % 2 == 1);
        assert((2 * i) / 2 == i);
        assert((2 * i + 1) / 2 == i);
        assert((v as nat % 256) + 256 * (v as nat / 256) == v as nat);
    }
    assert(back =~= values);
}

/// Asks the machine for its byte order: `u16::from_ne_bytes([1, 0])` reads the bytes in the
/// executing hardware's native order (vstd's `endianness()`), so it is 1 on little-endian
/// targets and 256 on big-endian ones.
#[verifier::external_body]
fn native_endian_probe() -> (r: u16)
    ensures
        r == 1 <==> endianness() is Little,
        r == 256 <==> endianness() is Big,
{
    u16::from_ne_bytes([1, 0])
}

/// Whether 16-bit samples are stored low byte first on this machine.
pub fn native_little_endian() -> (little: bool)
    ensures
        little <==> endianness() is Little,
{
    native_endian_probe() == 1
}

/// Why `fast_image_resize` refused to resize.
pub enum ResizeFailure {
    /// The source buffer did not fit the source dimensions.
    InvalidSource(String),
    /// The resizer itself failed.
    Failed(String),
}

/// Pixel layouts handed to the resizer.
#[derive(Clone, Copy)]
pub enum PixelKind {
    U8x3,
    U8x4,
    U16x3,
    U16x4,
}

pub open spec fn pixel_bytes(kind: PixelKind) -> nat {
    match kind {
        PixelKind::U8x3 => 3,
        PixelKind::U8x4 => 4,
        PixelKind::U16x3 => 6,
        PixelKind::U16x4 => 8,
    }
}

#[verifier::external_type_specification]
#[verifier::external_body]
pub struct ExFirResizeOptions(FirResizeOptions);

/// The resizer options that `fir_options` builds for a filter.
pub uninterp spec fn fir_options_for(filter: ResizeFilter) -> FirResizeOptions;

/// The bytes that `fast_image_resize` writes for a `dst_width` x `dst_height` image resized from
/// the `src_width` x `src_height` image in `data`, with pixels of the given layout, on a machine
/// of the given byte order (16-bit channels are read and written as native-order values).
pub uninterp spec fn fir_resized(
    src_width: u32,
    src_height: u32,
    data: Seq<u8>,
    kind: PixelKind,
    dst_width: u32,
    dst_height: u32,
    options: FirResizeOptions,
    little_endian: bool,
) -> Seq<u8>;

/// The bytes of a `width` x `height` image with pixels of the given layout.
pub open spec fn image_bytes(width: u32, height: u32, kind: PixelKind) -> nat {
    (width as nat) * (height as nat) * pixel_bytes(kind)
}

/// Pixel layouts of one byte per channel, whose buffers need no alignment.
pub open spec fn byte_channels(kind: PixelKind) -> bool {
    kind is U8x3 || kind is U8x4
}

/// The options of `fast_image_resize`'s resizer (its `ResizeOptions::new`): convolution with the given
/// filter (`resize_alg`), with alpha premultiplied during the resize (`use_alpha(true)`). The
/// options are named as a function of the filter.
#[verifier::external_body]
fn fir_options(filter: ResizeFilter) -> (o: FirResizeOptions)
    ensures
        o == fir_options_for(filter),
{
    let filter = match filter {
        ResizeFilter::Lanczos3 => FilterType::Lanczos3,
        ResizeFilter::CatmullRom => FilterType::CatmullRom,
        ResizeFilter::Mitchell => FilterType::Mitchell,
    };
    FirResizeOptions::new().resize_alg(ResizeAlg::Convolution(filter)).use_alpha(true)
}

/// Resizes a packed pixel buffer with `fast_image_resize`'s `Resizer::resize`. The buffers are
/// `Image::from_vec_u8`, `Image::new` and `Image::into_vec` of the crate. `from_vec_u8` refuses a
/// buffer shorter than `width * height * pixel size` bytes, and one not aligned to the pixel type
/// (which never happens for one byte per channel); `resize` then succeeds for two images of one
/// pixel type with the whole source cropped. The output, `width * height * pixel size` bytes
/// allocated by `Image::new`, is named as a function of all the arguments and of the machine's
/// byte order (vstd's `endianness()`).
#[verifier::external_body]
fn fir_resize(src_width: u32, src_height: u32, data: Vec<u8>, kind: PixelKind, dst_width: u32, dst_height: u32, options: &FirResizeOptions) -> (r: Result<Vec<u8>, ResizeFailure>)
    requires
        image_bytes(dst_width, dst_height, kind) <= usize::MAX,
        image_bytes(src_width, src_height, kind) <= usize::MAX,
    ensures
        image_bytes(src_width, src_height, kind) > data@.len() ==> r matches Err(ResizeFailure::InvalidSource(_)),
        data@.len() >= image_bytes(src_width, src_height, kind) && byte_channels(kind) ==> r is Ok,
        r matches Ok(v) ==> v@ == fir_resized(
            src_width,
            src_height,
            data@,
            kind,
            dst_width,
            dst_height,
            *options,
            endianness() is Little,
        ),
        r matches Ok(v) ==> v@.len() == (dst_width as nat) * (dst_height as nat) * pixel_bytes(kind),
{
    let pixel = match kind {
        PixelKind::U8x3 => PixelType::U8x3,
        PixelKind::U8x4 => PixelType::U8x4,
        PixelKind::U16x3 => PixelType::U16x3,
        PixelKind::U16x4 => PixelType::U16x4,
    };
    let src = match Image::from_vec_u8(src_width, src_height, data, pixel) {
        Ok(img) => img,
        Err(err) => return Err(ResizeFailure::InvalidSource(format!("invalid source buffer for resize: {err}"))),
    };
    let mut dst = Image::new(dst_width, dst_height, pixel);
    match Resizer::new().resize(&src, &mut dst, Some(options)) {
        Ok(()) => Ok(dst.into_vec()),
        Err(err) => Err(ResizeFailure::Failed(format!("resize failed: {err}"))),
    }
}

fn resize_failure_error(f: ResizeFailure) -> (e: Error)
    ensures
        f is InvalidSource ==> e is InvalidArgument,
        f is Failed ==> e is Encode,
{
    match f {
        ResizeFailure::InvalidSource(m) => Error::InvalidArgument(m),
        ResizeFailure::Failed(m) => Error::Encode(m),
    }
}

/// Whether two sample views have the same layout.
pub open spec fn same_layout(a: SampleView, b: SampleView) -> bool {
    (a is Rgb8 && b is Rgb8) || (a is Rgba8 && b is Rgba8) || (a is Rgb16 && b is Rgb16) || (a is Rgba16 && b is Rgba16)
}

/// The samples that `resize` produces from those of a `w` x `h` image: the resizer's output for
/// their bytes (16-bit samples split into and joined from bytes in the machine's byte order).
pub open spec fn resized_samples(view: SampleView, w: u32, h: u32, target: TargetSize, filter: ResizeFilter) -> SampleView {
    let o = fir_options_for(filter);
    let le = endianness() is Little;
    let (tw, th) = (target.width, target.height);
    match view {
        SampleView::Rgb8(d) => SampleView::Rgb8(fir_resized(w, h, d, PixelKind::U8x3, tw, th, o, le)),
        SampleView::Rgba8(d) => SampleView::Rgba8(fir_resized(w, h, d, PixelKind::U8x4, tw, th, o, le)),
        SampleView::Rgb16(d) => SampleView::Rgb16(
            bytes_to_u16_spec(fir_resized(w, h, u16_to_bytes_spec(d, le), PixelKind::U16x3, tw, th, o, le), le),
        ),
        SampleView::Rgba16(d) => SampleView::Rgba16(
            bytes_to_u16_spec(fir_resized(w, h, u16_to_bytes_spec(d, le), PixelKind::U16x4, tw, th, o, le), le),
        ),
    }
}

/// The message of a source buffer shorter than its dimensions.
pub open spec fn short_buffer_message() -> Seq<char> {
    "invalid source buffer for resize: Size of buffer is smaller than required"@
}

/// Whether `width * height * bytes` fits in `usize`.
fn fits_address_space(width: u32, height: u32, bytes: usize) -> (b: bool)
    ensures
        b == ((width as nat) * (height as nat) * (bytes as nat) <= usize::MAX),
{
    match (width as usize).checked_mul(height as usize) {
        Some(pixels) => pixels.checked_mul(bytes).is_some(),
        None => {
            proof {
                assert((width as nat) * (height as nat) * (bytes as nat) >= (width as nat) * (height as nat)
                    || bytes == 0) by (nonlinear_arith);
                if bytes == 0 {
                    assert((width as nat) * (height as nat) * 0 == 0) by (nonlinear_arith);
                }
            }
            bytes == 0
        },
    }
}

/// The bytes of a working image's buffer, per sample and per pixel.
proof fn lemma_buffer_bytes(image: WorkingImage)
    ensures
        image.data.spec_is_u8() ==> (image.covers_pixels() <==> image.data.spec_len()
            >= (image.width as nat) * (image.height as nat) * pixel_bytes(kind_of(image.data))),
        !image.data.spec_is_u8() ==> (image.covers_pixels() <==> 2 * image.data.spec_len()
            >= (image.width as nat) * (image.height as nat) * pixel_bytes(kind_of(image.data))),
{
    let p = (image.width as nat) * (image.height as nat);
    assert(p * 6 == 2 * (p * 3) && p * 8 == 2 * (p * 4)) by (nonlinear_arith);
}

/// The resizer's pixel layout of working data.
pub open spec fn kind_of(data: WorkingData) -> PixelKind {
    match data {
        WorkingData::Rgb8(_) => PixelKind::U8x3,
        WorkingData::Rgba8(_) => PixelKind::U8x4,
        WorkingData::Rgb16(_) => PixelKind::U16x3,
        WorkingData::Rgba16(_) => PixelKind::U16x4,
    }
}

/// Resizes a working image to the target size with the chosen filter; an image that keeps its
/// size is returned as it is.
pub fn resize(image: WorkingImage, target: TargetSize, filter: ResizeFilter) -> (r: Result<WorkingImage, Error>)
    requires
        target.resized ==> image_bytes(target.width, target.height, kind_of(image.data)) <= usize::MAX,
        image.data.spec_len() * 2 <= usize::MAX,
    ensures
        !target.resized ==> r == Ok::<WorkingImage, Error>(image),
        target.resized && !image.covers_pixels() ==> (r matches Err(e) && e is InvalidArgument),
        target.resized && image.covers_pixels() && image.data.spec_is_u8() ==> r is Ok,
        target.resized ==> (r matches Ok(img) ==> img.width == target.width && img.height == target.height
            && img.color_space == image.color_space && img.data@ == resized_samples(
                image.data@,
                image.width,
                image.height,
                target,
                filter,
            )
            && same_layout(img.data@, image.data@) && img.wf()),
        r matches Err(e) ==> (e is InvalidArgument || e is Encode || e is Decode),
{
    if !target.resized {
        return Ok(image);
    }
    let width = image.width;
    let height = image.height;
    let color_space = image.color_space;
    let bytes_per_pixel: usize = match &image.data {
        WorkingData::Rgb8(_) => 3,
        WorkingData::Rgba8(_) => 4,
        WorkingData::Rgb16(_) => 6,
        WorkingData::Rgba16(_) => 8,
    };
    proof {
        lemma_buffer_bytes(image);
    }
    if !fits_address_space(width, height, bytes_per_pixel) {
        // no buffer that fits in memory holds that many bytes
        return Err(Error::invalid("invalid source buffer for resize: Size of buffer is smaller than required"));
    }
    let ghost le = endianness() is Little;
    let options = fir_options(filter);
    match image.data {
        WorkingData::Rgb8(data) => match fir_resize(width, height, data, PixelKind::U8x3, target.width, target.height, &options) {
            Ok(out) => WorkingImage::new(target.width, target.height, WorkingData::Rgb8(out), color_space),
            Err(f) => Err(resize_failure_error(f)),
        },
        WorkingData::Rgba8(data) => match fir_resize(width, height, data, PixelKind::U8x4, target.width, target.height, &options) {
            Ok(out) => WorkingImage::new(target.width, target.height, WorkingData::Rgba8(out), color_space),
            Err(f) => Err(resize_failure_error(f)),
        },
        WorkingData::Rgb16(data) => {
            let little_endian = native_little_endian();
            let bytes = u16_to_bytes(data, little_endian);
            match fir_resize(width, height, bytes, PixelKind::U16x3, target.width, target.height, &options) {
                Ok(out) => {
                    let samples = bytes_to_u16(out, little_endian);
                    proof {
                        let t = target.width as nat * target.height as nat;
                        assert((t * 6) / 2 == t * 3) by (nonlinear_arith);
                    }
                    WorkingImage::new(target.width, target.height, WorkingData::Rgb16(samples), color_space)
                },
                Err(f) => Err(resize_failure_error(f)),
            }
        },
        WorkingData::Rgba16(data) => {
            let little_endian = native_little_endian();
            let bytes = u16_to_bytes(data, little_endian);
            match fir_resize(width, height, bytes, PixelKind::U16x4, target.width, target.height, &options) {
                Ok(out) => {
                    let samples = bytes_to_u16(out, little_endian);
                    proof {
                        let t = target.width as nat * target.height as nat;
                        assert((t * 8) / 2 == t * 4) by (nonlinear_arith);
                    }
                    WorkingImage::new(target.width, target.height, WorkingData::Rgba16(samples), color_space)
                },
                Err(f) => Err(resize_failure_error(f)),
            }
        },
    }
}

} // verus!
