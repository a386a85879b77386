use img2webp_hq::cms::{
    load_source_profile, pipeline_source_profile, validate_source_profile, ColorPipeline,
};
use img2webp_hq::decode::{WorkingColorSpace, WorkingData, WorkingImage};
use img2webp_hq::Error;
use lcms2::{CIExyY, CIExyYTRIPLE, Profile, Tag, TagSignature, ToneCurve, XYZ2xyY};

fn chromaticity(profile: &Profile, tag: TagSignature) -> CIExyY {
    match profile.read_tag(tag) {
        Tag::CIEXYZ(xyz) => XYZ2xyY(xyz),
        _ => panic!("profile lacks {tag:?}"),
    }
}

fn srgb_pipeline() -> ColorPipeline {
    let source = Profile::new_srgb();
    let white = chromaticity(&source, TagSignature::MediaWhitePointTag);
    let primaries = CIExyYTRIPLE {
        Red: chromaticity(&source, TagSignature::RedColorantTag),
        Green: chromaticity(&source, TagSignature::GreenColorantTag),
        Blue: chromaticity(&source, TagSignature::BlueColorantTag),
    };
    let linear_curve = ToneCurve::new(1.0);
    let linear = Profile::new_rgb(&white, &primaries, &[&linear_curve, &linear_curve, &linear_curve]).unwrap();
    ColorPipeline::from_profiles(source, linear)
}

fn gray_icc() -> Vec<u8> {
    let white = CIExyY { x: 0.3127, y: 0.3290, Y: 1.0 };
    Profile::new_gray(&white, &ToneCurve::new(2.2)).unwrap().icc().unwrap()
}

#[test]
fn u16_luts_match_lcms_transform() {
    let pipeline = srgb_pipeline();
    let tables = pipeline.linear_u16_tables().unwrap();
    let samples = (0..4096u32)
        .flat_map(|index| {
            [
                (index.wrapping_mul(15_485) & 0xffff) as u16,
                (index.wrapping_mul(27_149).wrapping_add(12_345) & 0xffff) as u16,
                (index.wrapping_mul(39_307).wrapping_add(54_321) & 0xffff) as u16,
            ]
        })
        .collect::<Vec<_>>();
    let mut lcms = WorkingImage::new(
        4096,
        1,
        WorkingData::Rgb16(samples.clone()),
        WorkingColorSpace::Source,
    )
    .unwrap();
    let mut lut = lcms.clone();
    pipeline.to_linear_in_place(&mut lcms).unwrap();
    pipeline
        .to_linear_u16_lut_in_place(&mut lut, &tables)
        .unwrap();

    let lcms = match lcms.data {
        WorkingData::Rgb16(data) => data,
        _ => unreachable!(),
    };
    let lut = match lut.data {
        WorkingData::Rgb16(data) => data,
        _ => unreachable!(),
    };
    let max_diff = lcms
        .iter()
        .zip(lut)
        .map(|(lcms, lut)| (*lcms as i32 - lut as i32).unsigned_abs())
        .max()
        .unwrap();
    assert_eq!(max_diff, 0);

    let linear_samples = (0..4096u32)
        .flat_map(|index| {
            [
                (index.wrapping_mul(51_007) & 0xffff) as u16,
                (index.wrapping_mul(9_973).wrapping_add(22_222) & 0xffff) as u16,
                (index.wrapping_mul(31_337).wrapping_add(44_444) & 0xffff) as u16,
            ]
        })
        .collect::<Vec<_>>();
    let mut transformed = WorkingImage::new(
        4096,
        1,
        WorkingData::Rgb16(linear_samples.clone()),
        WorkingColorSpace::LinearRgb,
    )
    .unwrap();
    pipeline
        .convert_from_linear_in_place(&mut transformed)
        .unwrap();
    let expected = match transformed.data {
        WorkingData::Rgb16(data) => data,
        _ => unreachable!(),
    };
    let actual = linear_samples
        .chunks_exact(3)
        .flat_map(|pixel| {
            [
                tables.linear_to_source[0][pixel[0] as usize],
                tables.linear_to_source[1][pixel[1] as usize],
                tables.linear_to_source[2][pixel[2] as usize],
            ]
        })
        .collect::<Vec<_>>();
    let max_diff = expected
        .iter()
        .zip(actual)
        .map(|(expected, actual)| (*expected as i32 - actual as i32).unsigned_abs())
        .max()
        .unwrap();
    assert_eq!(max_diff, 0);
}

#[test]
fn missing_profile_loads_nothing() {
    assert!(matches!(load_source_profile(None), Ok(None)));
    assert!(validate_source_profile(None, true).is_ok());
}

#[test]
fn srgb_icc_bytes_load_as_rgb() {
    let icc = Profile::new_srgb().icc().unwrap();
    assert!(matches!(load_source_profile(Some(&icc)), Ok(Some(_))));
    assert!(validate_source_profile(Some(&icc), true).is_ok());
    assert!(pipeline_source_profile(Some(&icc)).is_ok());
}

#[test]
fn rejects_non_rgb_icc_profile() {
    let icc = gray_icc();
    match load_source_profile(Some(&icc)) {
        Err(Error::Unsupported(message)) => {
            assert!(message.contains("only RGB ICC profiles are supported"));
        }
        Err(other) => panic!("unexpected error: {}", other.message()),
        Ok(_) => panic!("gray profile accepted"),
    }
    assert!(matches!(validate_source_profile(Some(&icc), false), Err(Error::Unsupported(_))));
}

#[test]
fn unparsable_icc_is_a_color_error() {
    let err = load_source_profile(Some(&[1, 2, 3, 4])).unwrap_err();
    assert!(matches!(err, Error::Color(_)));
    assert!(err.message().starts_with("failed to parse ICC profile: "));
}

#[test]
fn missing_icc_defaults_to_srgb_pipeline_profile() {
    assert!(pipeline_source_profile(None).is_ok());
}

#[test]
fn simpleyuv_tables_cover_both_precisions() {
    let tables = srgb_pipeline().simpleyuv_tables().unwrap();
    for c in 0..3 {
        assert_eq!(tables.source_u8_to_linear[c].len(), 1024);
        assert_eq!(tables.linear_to_source_u8[c].len(), 65536);
        assert_eq!(tables.source_u16_to_linear[c].len(), 16384);
        assert_eq!(tables.linear_to_source_u16[c].len(), 65536);
        assert_eq!(tables.source_u8_to_linear[c][0], 0);
        assert_eq!(tables.source_u8_to_linear[c][1023], 65535);
        assert_eq!(tables.linear_to_source_u8[c][0], 0);
        assert_eq!(tables.linear_to_source_u8[c][65535], 1023);
        assert_eq!(tables.linear_to_source_u16[c][65535], 16383);
    }
    // sRGB mid-gray (code 512 of 1023) is about 21.6% linear light.
    let mid = tables.source_u8_to_linear[1][512] as f64 / 65535.0;
    assert!((mid - 0.2158).abs() < 0.01, "mid gray {mid}");
}

#[test]
fn linear_tables_follow_the_transforms() {
    let pipeline = srgb_pipeline();
    let tables = pipeline.linear_u16_tables().unwrap();
    for c in 0..3 {
        assert_eq!(tables.source_to_linear[c].len(), 65536);
        assert_eq!(tables.linear_to_source[c].len(), 65536);
        assert_eq!(tables.chroma_source_to_linear[c].len(), 16384);
        assert_eq!(tables.chroma_linear_to_source[c].len(), 65536);
        assert!(tables.source_to_linear[c][32768] < 32768);
        assert!(tables.linear_to_source[c][32768] > 32768);
    }
}

#[test]
fn linear_round_trip_stays_close() {
    let pipeline = srgb_pipeline();
    let source_samples = vec![10u8, 128, 250, 0, 255, 64];
    let mut image =
        WorkingImage::new(2, 1, WorkingData::Rgb8(source_samples.clone()), WorkingColorSpace::Source).unwrap();
    pipeline.to_linear_in_place(&mut image).unwrap();
    assert_eq!(image.color_space, WorkingColorSpace::LinearRgb);
    match &image.data {
        WorkingData::Rgb8(data) => assert!(data[1] < 128, "linear mid value {}", data[1]),
        _ => unreachable!(),
    }
    pipeline.convert_from_linear_in_place(&mut image).unwrap();
    assert_eq!(image.color_space, WorkingColorSpace::Source);
    match image.data {
        WorkingData::Rgb8(data) => {
            for (a, b) in data.iter().zip(source_samples.iter()) {
                assert!((*a as i32 - *b as i32).abs() <= 16, "{a} vs {b}");
            }
        }
        _ => unreachable!(),
    }
}

#[test]
fn transforms_skip_images_already_in_place() {
    let pipeline = srgb_pipeline();
    let mut image =
        WorkingImage::new(1, 1, WorkingData::Rgb8(vec![1, 2, 3]), WorkingColorSpace::LinearRgb).unwrap();
    pipeline.to_linear_in_place(&mut image).unwrap();
    match &image.data {
        WorkingData::Rgb8(data) => assert_eq!(data, &vec![1, 2, 3]),
        _ => unreachable!(),
    }
    let mut image =
        WorkingImage::new(1, 1, WorkingData::Rgb8(vec![1, 2, 3]), WorkingColorSpace::Source).unwrap();
    pipeline.convert_from_linear_parallel_in_place(&mut image).unwrap();
    assert_eq!(image.color_space, WorkingColorSpace::Source);
}

#[test]
fn alpha_is_copied_by_rgba_transforms() {
    let pipeline = srgb_pipeline();
    let mut image = WorkingImage::new(
        1,
        1,
        WorkingData::Rgba16(vec![40000, 20000, 10000, 1234]),
        WorkingColorSpace::Source,
    )
    .unwrap();
    pipeline.to_linear_parallel_in_place(&mut image).unwrap();
    match image.data {
        WorkingData::Rgba16(data) => {
            assert_eq!(data[3], 1234);
            assert!(data[0] < 40000);
        }
        _ => unreachable!(),
    }
}

#[test]
fn lut_path_refuses_8bit_samples() {
    let pipeline = srgb_pipeline();
    let tables = pipeline.linear_u16_tables().unwrap();
    let mut image =
        WorkingImage::new(1, 1, WorkingData::Rgb8(vec![1, 2, 3]), WorkingColorSpace::Source).unwrap();
    let err = pipeline.to_linear_u16_lut_in_place(&mut image, &tables).unwrap_err();
    assert_eq!(err.message(), "--fasthq requires the high-bit-depth decode path");
}

#[test]
fn inverse_tables_undo_forward_tables() {
    let tables = srgb_pipeline().simpleyuv_tables().unwrap();
    for code in [0usize, 64, 512, 900, 1023] {
        let linear = tables.source_u8_to_linear[1][code];
        let back = tables.linear_to_source_u8[1][linear as usize] as i32;
        assert!((back - code as i32).abs() <= 1, "{code} -> {linear} -> {back}");
    }
    for code in [0usize, 1000, 8192, 16383] {
        let linear = tables.source_u16_to_linear[0][code];
        let back = tables.linear_to_source_u16[0][linear as usize] as i32;
        assert!((back - code as i32).abs() <= 4, "{code} -> {linear} -> {back}");
    }
}

#[test]
fn tabulated_tone_curves_are_inverted_by_table() {
    let srgb = Profile::new_srgb();
    let white = chromaticity(&srgb, TagSignature::MediaWhitePointTag);
    let primaries = CIExyYTRIPLE {
        Red: chromaticity(&srgb, TagSignature::RedColorantTag),
        Green: chromaticity(&srgb, TagSignature::GreenColorantTag),
        Blue: chromaticity(&srgb, TagSignature::BlueColorantTag),
    };
    let table: Vec<u16> = (0..256u32).map(|i| ((i * i * 65535) / (255 * 255)) as u16).collect();
    let curve = ToneCurve::new_tabulated(&table);
    let source = Profile::new_rgb(&white, &primaries, &[&curve, &curve, &curve]).unwrap();
    let flat = ToneCurve::new(1.0);
    let linear = Profile::new_rgb(&white, &primaries, &[&flat, &flat, &flat]).unwrap();
    let pipeline = ColorPipeline::from_profiles(source, linear);
    let tables = pipeline.simpleyuv_tables().unwrap();
    for c in 0..3 {
        assert_eq!(tables.linear_to_source_u8[c].len(), 65536);
        assert_eq!(tables.linear_to_source_u8[c][0], 0);
        assert_eq!(tables.linear_to_source_u8[c][65535], 1023);
    }
    assert!(pipeline.linear_u16_tables().is_ok());
}

#[test]
fn srgb_transforms_build_for_every_layout() {
    let pipeline = srgb_pipeline();
    let layouts = vec![
        WorkingData::Rgb8(vec![10, 20, 30]),
        WorkingData::Rgba8(vec![10, 20, 30, 40]),
        WorkingData::Rgb16(vec![1000, 2000, 3000]),
        WorkingData::Rgba16(vec![1000, 2000, 3000, 4000]),
    ];
    for data in layouts {
        let mut image = WorkingImage::new(1, 1, data, WorkingColorSpace::Source).unwrap();
        pipeline.to_linear_in_place(&mut image).unwrap();
        assert_eq!(image.color_space, WorkingColorSpace::LinearRgb);
        pipeline.convert_from_linear_in_place(&mut image).unwrap();
        assert_eq!(image.color_space, WorkingColorSpace::Source);
    }
}
