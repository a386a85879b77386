use img2webp_hq::cms::ColorPipeline;
use img2webp_hq::decode::{WorkingColorSpace, WorkingData, WorkingImage};
use img2webp_hq::pipeline::{plan_conversion, resize_in_linear_light};
use img2webp_hq::resize::{resize, TargetSize};
use img2webp_hq::{ConversionOptions, Mode, ResizeOptions};
use lcms2::{CIExyY, CIExyYTRIPLE, Profile, Tag, TagSignature, ToneCurve, XYZ2xyY};

fn xyy(profile: &Profile, tag: TagSignature) -> CIExyY {
    match profile.read_tag(tag) {
        Tag::CIEXYZ(xyz) => XYZ2xyY(xyz),
        _ => panic!("profile lacks {tag:?}"),
    }
}

fn srgb_linear_pipeline() -> ColorPipeline {
    let source = Profile::new_srgb();
    let white = xyy(&source, TagSignature::MediaWhitePointTag);
    let primaries = CIExyYTRIPLE {
        Red: xyy(&source, TagSignature::RedColorantTag),
        Green: xyy(&source, TagSignature::GreenColorantTag),
        Blue: xyy(&source, TagSignature::BlueColorantTag),
    };
    let gamma_one = ToneCurve::new(1.0);
    let linear = Profile::new_rgb(&white, &primaries, &[&gamma_one, &gamma_one, &gamma_one]).unwrap();
    ColorPipeline::from_profiles(source, linear)
}

#[test]
fn lossy_simpleyuv_needs_the_color_pipeline_without_resizing() {
    let plan = plan_conversion(640, 480, &ConversionOptions::default()).unwrap();
    assert!(!plan.target.resized);
    assert!(plan.needs_linear_pipeline);
    assert!(!plan.fast_hq_resize);
}

#[test]
fn lossless_without_resizing_skips_the_color_pipeline() {
    let options = ConversionOptions::default().with_mode(Mode::Lossless);
    let plan = plan_conversion(640, 480, &options).unwrap();
    assert!(!plan.needs_linear_pipeline);
    let options = ConversionOptions::default().with_sharpyuv(true);
    assert!(!plan_conversion(640, 480, &options).unwrap().needs_linear_pipeline);
}

#[test]
fn resizing_always_needs_the_color_pipeline() {
    let options = ConversionOptions::default()
        .with_mode(Mode::Lossless)
        .with_max_side(100)
        .with_fast_hq(true);
    let plan = plan_conversion(400, 200, &options).unwrap();
    assert!(plan.target.resized);
    assert_eq!((plan.target.width, plan.target.height), (100, 50));
    assert!(plan.needs_linear_pipeline);
    assert!(plan.fast_hq_resize);
}

#[test]
fn oversized_sources_fail_planning() {
    let err = plan_conversion(20000, 10, &ConversionOptions::default()).unwrap_err();
    assert!(matches!(err, img2webp_hq::Error::InvalidArgument(_)));
}

#[test]
fn linear_light_resize_returns_a_source_image_of_the_target_size() {
    let options = ConversionOptions::default().with_resize(ResizeOptions::default().with_width(2).with_height(2));
    let plan = plan_conversion(4, 4, &options).unwrap();
    let image = WorkingImage::new(4, 4, WorkingData::Rgb8(vec![200; 48]), WorkingColorSpace::Source).unwrap();
    let resized = resize_in_linear_light(image, &plan, None, &srgb_linear_pipeline()).unwrap();
    assert_eq!((resized.width, resized.height), (2, 2));
    assert_eq!(resized.color_space, WorkingColorSpace::Source);
    match resized.data {
        WorkingData::Rgb8(data) => {
            assert_eq!(data.len(), 12);
            for v in data {
                assert!((v as i32 - 200).abs() <= 2, "flat image drifted to {v}");
            }
        }
        _ => panic!("layout changed"),
    }
}

#[test]
fn sixteen_bit_resize_keeps_flat_images_flat() {
    let options = ConversionOptions::default().with_resize(ResizeOptions::default().with_width(2).with_height(2));
    let plan = plan_conversion(4, 4, &options).unwrap();
    let image = WorkingImage::new(4, 4, WorkingData::Rgba16(vec![0x1234; 64]), WorkingColorSpace::Source).unwrap();
    let resized = resize_in_linear_light(image, &plan, None, &srgb_linear_pipeline()).unwrap();
    match resized.data {
        WorkingData::Rgba16(data) => {
            assert_eq!(data.len(), 16);
            for (i, v) in data.iter().enumerate() {
                assert!((*v as i32 - 0x1234).abs() <= 64, "sample {i} drifted to {v}");
            }
        }
        _ => panic!("layout changed"),
    }
}

#[test]
fn short_buffers_are_refused_before_resizing() {
    let image = WorkingImage { width: 4, height: 4, data: WorkingData::Rgb8(vec![0; 10]), color_space: WorkingColorSpace::Source };
    let target = TargetSize { width: 2, height: 2, resized: true };
    let err = resize(image, target, img2webp_hq::ResizeFilter::Lanczos3).unwrap_err();
    assert!(matches!(err, img2webp_hq::Error::InvalidArgument(_)));
    let huge = WorkingImage { width: u32::MAX, height: u32::MAX, data: WorkingData::Rgba16(vec![0; 8]), color_space: WorkingColorSpace::Source };
    let err = resize(huge, target, img2webp_hq::ResizeFilter::Lanczos3).unwrap_err();
    assert_eq!(err.message(), "invalid source buffer for resize: Size of buffer is smaller than required");
}

#[test]
fn eight_bit_resize_depends_on_the_filter_only_through_its_output() {
    let data: Vec<u8> = (0..4 * 4 * 3).map(|i| (i * 5) as u8).collect();
    let target = TargetSize { width: 2, height: 2, resized: true };
    let run = |filter| {
        let image = WorkingImage::new(4, 4, WorkingData::Rgb8(data.clone()), WorkingColorSpace::Source).unwrap();
        match resize(image, target, filter).unwrap().data {
            WorkingData::Rgb8(d) => d,
            _ => panic!("layout changed"),
        }
    };
    let a = run(img2webp_hq::ResizeFilter::Lanczos3);
    let b = run(img2webp_hq::ResizeFilter::Lanczos3);
    assert_eq!(a, b);
    assert_eq!(a.len(), 12);
}

#[test]
fn resize_reaches_targets_beyond_the_webp_canvas() {
    let image = WorkingImage::new(2, 1, WorkingData::Rgb8(vec![50; 6]), WorkingColorSpace::Source).unwrap();
    let target = TargetSize { width: 20000, height: 1, resized: true };
    let out = resize(image, target, img2webp_hq::ResizeFilter::CatmullRom).unwrap();
    assert_eq!((out.width, out.height), (20000, 1));
    assert_eq!(out.data.len(), 60000);
    assert_eq!(out.color_space, WorkingColorSpace::Source);
}
