//! The decisions of a conversion between decoding and encoding: the output size, whether the
//! linear-light color pipeline is needed, and resizing in linear light.
use vstd::prelude::*;

use crate::cms::{transformed_view, view_transform_builds, ColorPipeline};
use crate::config::{ConversionOptions, Mode, ResizeFilter};
use crate::decode::{lemma_wf_whole_pixels, SampleView, WorkingColorSpace, WorkingImage};
use crate::error::Error;
use crate::resize::{
    auto_filter, compute_target_size, image_bytes, kind_of, lemma_target_within_webp_limits, resize, resized_samples,
    resolve_filter, same_layout, target_size_defined, target_size_spec, TargetSize, MAX_WEBP_DIMENSION,
};

verus! {

/// How a conversion runs once the source size is known.
#[derive(Debug, Clone, Copy, PartialEq, Eq, Structural)]
pub struct ConversionPlan {
    /// The output size.
    pub target: TargetSize,
    /// Resizing in fast-HQ mode runs the color transforms in parallel.
    pub fast_hq_resize: bool,
    /// A color pipeline (source profile and its linear-light companion) is built.
    pub needs_linear_pipeline: bool,
}

/// Whether the options and target call for the linear-light color pipeline: resizing always
/// does, and so does SimpleYUV for lossy output.
pub open spec fn needs_linear_spec(options: ConversionOptions, target: TargetSize) -> bool {
    target.resized || (!options.sharpyuv && options.mode is Lossy)
}

/// Plans a conversion of a source of the given size.
pub fn plan_conversion(width: u32, height: u32, options: &ConversionOptions) -> (r: Result<ConversionPlan, Error>)
    requires
        target_size_defined(width, height, options.resize),
    ensures
        match target_size_spec(width, height, options.resize) {
            Err(m) => r matches Err(e) && e is InvalidArgument && e.message_view() == m,
            Ok((w, h)) => r matches Ok(p) && p.target.width == w && p.target.height == h
                && p.target.resized == (w != width || h != height) && p.fast_hq_resize == (options.fast_hq
                && p.target.resized) && p.needs_linear_pipeline == needs_linear_spec(*options, p.target),
        },
        r matches Ok(p) ==> p.target.width <= MAX_WEBP_DIMENSION && p.target.height <= MAX_WEBP_DIMENSION
            && (width >= 1 ==> p.target.width >= 1) && (height >= 1 ==> p.target.height >= 1),
{
    let target = compute_target_size(width, height, &options.resize)?;
    proof {
        lemma_target_within_webp_limits(width, height, options.resize);
    }
    let fast_hq_resize = options.fast_hq && target.resized;
    let needs_linear_pipeline = target.resized || (options.uses_simpleyuv() && matches!(options.mode, Mode::Lossy));
    Ok(ConversionPlan { target, fast_hq_resize, needs_linear_pipeline })
}

/// Resizing always comes with a color pipeline, and the parallel transforms are only used when
/// resizing.
pub proof fn lemma_resize_needs_linear_pipeline(options: ConversionOptions, target: TargetSize)
    requires
        target.resized,
    ensures
        needs_linear_spec(options, target),
{
}

/// Lossy SimpleYUV output always comes with a color pipeline.
pub proof fn lemma_simpleyuv_needs_linear_pipeline(options: ConversionOptions, target: TargetSize)
    requires
        !options.sharpyuv,
        options.mode is Lossy,
    ensures
        needs_linear_spec(options, target),
{
}

/// The samples of a `w` x `h` image resized in linear light: taken to the linear profile (unless
/// they already are linear), resized with `filter`, and taken back to the source profile.
pub open spec fn linear_light_resized(
    view: SampleView,
    already_linear: bool,
    w: u32,
    h: u32,
    target: TargetSize,
    filter: ResizeFilter,
    cms: ColorPipeline,
) -> SampleView {
    let linear = if already_linear {
        view
    } else {
        transformed_view(view, cms.source(), cms.linear())
    };
    transformed_view(resized_samples(linear, w, h, target, filter), cms.linear(), cms.source())
}

/// Resizes a source-coded image in linear light: to linear light with the pipeline's profiles,
/// resized with the requested (or automatic) filter, and back to the source encoding.
pub fn resize_in_linear_light(
    image: WorkingImage,
    plan: &ConversionPlan,
    requested_filter: Option<ResizeFilter>,
    cms: &ColorPipeline,
) -> (r: Result<WorkingImage, Error>)
    requires
        image.data.spec_len() % image.data.spec_channels() == 0,
        plan.target.resized,
        image_bytes(plan.target.width, plan.target.height, kind_of(image.data)) <= usize::MAX,
        image.data.spec_len() * 2 <= usize::MAX,
    ensures
        r matches Ok(img) ==> img.width == plan.target.width && img.height == plan.target.height
            && img.wf() && img.color_space is Source && same_layout(img.data@, image.data@)
            && img.data@ == linear_light_resized(
                image.data@,
                image.color_space is LinearRgb,
                image.width,
                image.height,
                plan.target,
                auto_filter(image.width, image.height, plan.target, requested_filter),
                *cms,
            ),
        image.color_space is Source && !view_transform_builds(image.data@, cms.source(), cms.linear())
            ==> (r matches Err(e) && e is Color),
        !image.covers_pixels() ==> r is Err,
        image.data.spec_is_u8() && image.covers_pixels() && (image.color_space is Source
            ==> view_transform_builds(image.data@, cms.source(), cms.linear())) && view_transform_builds(
            image.data@,
            cms.linear(),
            cms.source(),
        ) ==> r is Ok,
        r matches Err(e) ==> (e is Color || e is InvalidArgument || e is Encode || e is Decode),
{
    let mut image = image;
    if plan.fast_hq_resize {
        cms.to_linear_parallel_in_place(&mut image)?;
    } else {
        cms.to_linear_in_place(&mut image)?;
    }
    let filter = resolve_filter(image.width, image.height, plan.target, requested_filter);
    let mut resized = resize(image, plan.target, filter)?;
    proof {
        lemma_wf_whole_pixels(resized);
    }
    if plan.fast_hq_resize {
        cms.convert_from_linear_parallel_in_place(&mut resized)?;
    } else {
        cms.convert_from_linear_in_place(&mut resized)?;
    }
    Ok(resized)
}

} // verus!
