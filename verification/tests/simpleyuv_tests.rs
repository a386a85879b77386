use img2webp_hq::cms::ColorPipeline;
use img2webp_hq::decode::{WorkingColorSpace, WorkingData, WorkingImage};
use img2webp_hq::simpleyuv::{
    average_linear, import_u8, import_u16, linear_u16_to_yuv420, precision_shift,
    rgb_to_component_8bit, rgb_to_gray, rgba_to_yuv420_sharpish_linear_u16, scale_matrix,
    working_image_to_yuv420, WEBP_RGB_TO_U, WEBP_RGB_TO_V, WEBP_RGB_TO_Y,
};
use lcms2::{CIExyY, CIExyYTRIPLE, Profile, Tag, TagSignature, ToneCurve, XYZ2xyY};

fn xyy_of(profile: &Profile, tag: TagSignature) -> CIExyY {
    match profile.read_tag(tag) {
        Tag::CIEXYZ(xyz) => XYZ2xyY(xyz),
        _ => panic!("profile lacks {tag:?}"),
    }
}

fn srgb_color_pipeline() -> ColorPipeline {
    let source = Profile::new_srgb();
    let white = xyy_of(&source, TagSignature::MediaWhitePointTag);
    let primaries = CIExyYTRIPLE {
        Red: xyy_of(&source, TagSignature::RedColorantTag),
        Green: xyy_of(&source, TagSignature::GreenColorantTag),
        Blue: xyy_of(&source, TagSignature::BlueColorantTag),
    };
    let linear_curve = ToneCurve::new(1.0);
    let linear = Profile::new_rgb(&white, &primaries, &[&linear_curve, &linear_curve, &linear_curve]).unwrap();
    ColorPipeline::from_profiles(source, linear)
}

fn srgb_to_linear_code(value: u16, bit_depth: u8) -> u16 {
    let max = ((1u32 << bit_depth) - 1) as f64;
    let value = value as f64 / max;
    let linear = if value <= 0.04045 {
        value / 12.92
    } else {
        ((value + 0.055) / 1.055).powf(2.4)
    };
    (linear * u16::MAX as f64).round() as u16
}

fn linear_to_srgb_code(value: u16, bit_depth: u8) -> u16 {
    let max = ((1u32 << bit_depth) - 1) as f64;
    let value = value as f64 / u16::MAX as f64;
    let gamma = if value <= 0.0031308 {
        value * 12.92
    } else {
        1.055 * value.powf(1.0 / 2.4) - 0.055
    };
    (gamma * max).round() as u16
}

#[test]
fn missing_icc_defaults_to_srgb_for_linear_subsampling() {
    let image = WorkingImage {
        width: 2,
        height: 2,
        data: WorkingData::Rgba8(vec![
            255, 0, 0, 255, 0, 255, 0, 255, 0, 0, 255, 255, 255, 255, 255, 255,
        ]),
        color_space: WorkingColorSpace::Source,
    };
    let cms = srgb_color_pipeline();
    let planes = working_image_to_yuv420(&image, &cms).unwrap();

    let max = (1u16 << 10) - 1;
    let avg_r = linear_to_srgb_code(
        average_linear(
            srgb_to_linear_code(max, 10) as u32
                + srgb_to_linear_code(0, 10) as u32
                + srgb_to_linear_code(0, 10) as u32
                + srgb_to_linear_code(max, 10) as u32,
        ),
        10,
    );
    let avg_g = linear_to_srgb_code(
        average_linear(
            srgb_to_linear_code(0, 10) as u32
                + srgb_to_linear_code(max, 10) as u32
                + srgb_to_linear_code(0, 10) as u32
                + srgb_to_linear_code(max, 10) as u32,
        ),
        10,
    );
    let avg_b = linear_to_srgb_code(
        average_linear(
            srgb_to_linear_code(0, 10) as u32
                + srgb_to_linear_code(0, 10) as u32
                + srgb_to_linear_code(max, 10) as u32
                + srgb_to_linear_code(max, 10) as u32,
        ),
        10,
    );

    assert_eq!(
        planes.u,
        vec![rgb_to_component_8bit(
            avg_r as i32,
            avg_g as i32,
            avg_b as i32,
            &scale_matrix(&WEBP_RGB_TO_U, 8),
            precision_shift(8),
        )]
    );
    assert_eq!(
        planes.v,
        vec![rgb_to_component_8bit(
            avg_r as i32,
            avg_g as i32,
            avg_b as i32,
            &scale_matrix(&WEBP_RGB_TO_V, 8),
            precision_shift(8),
        )]
    );
}

#[test]
fn linear_rgb_input_subsamples_without_gamma_roundtrip() {
    let cms = srgb_color_pipeline();
    let image = WorkingImage {
        width: 2,
        height: 2,
        data: WorkingData::Rgba8(vec![
            32, 64, 96, 255, 64, 96, 128, 255, 96, 128, 160, 255, 128, 160, 192, 255,
        ]),
        color_space: WorkingColorSpace::LinearRgb,
    };
    let planes = working_image_to_yuv420(&image, &cms).unwrap();

    let y_coeffs = scale_matrix(&WEBP_RGB_TO_Y, 8);
    let u_coeffs = scale_matrix(&WEBP_RGB_TO_U, 8);
    let v_coeffs = scale_matrix(&WEBP_RGB_TO_V, 8);

    assert_eq!(
        planes.y[0],
        rgb_to_component_8bit(
            import_u8(32) as i32,
            import_u8(64) as i32,
            import_u8(96) as i32,
            &y_coeffs,
            precision_shift(8),
        )
    );
    assert_eq!(
        planes.u,
        vec![rgb_to_component_8bit(
            average_linear(
                import_u8(32) as u32
                    + import_u8(64) as u32
                    + import_u8(96) as u32
                    + import_u8(128) as u32,
            ) as i32,
            average_linear(
                import_u8(64) as u32
                    + import_u8(96) as u32
                    + import_u8(128) as u32
                    + import_u8(160) as u32,
            ) as i32,
            average_linear(
                import_u8(96) as u32
                    + import_u8(128) as u32
                    + import_u8(160) as u32
                    + import_u8(192) as u32,
            ) as i32,
            &u_coeffs,
            precision_shift(8),
        )]
    );
    assert_eq!(
        planes.v,
        vec![rgb_to_component_8bit(
            average_linear(
                import_u8(32) as u32
                    + import_u8(64) as u32
                    + import_u8(96) as u32
                    + import_u8(128) as u32,
            ) as i32,
            average_linear(
                import_u8(64) as u32
                    + import_u8(96) as u32
                    + import_u8(128) as u32
                    + import_u8(160) as u32,
            ) as i32,
            average_linear(
                import_u8(96) as u32
                    + import_u8(128) as u32
                    + import_u8(160) as u32
                    + import_u8(192) as u32,
            ) as i32,
            &v_coeffs,
            precision_shift(8),
        )]
    );
}

#[test]
fn fixed_point_helpers_have_exact_values() {
    assert_eq!(precision_shift(8), 2);
    assert_eq!(precision_shift(14), 0);
    assert_eq!(precision_shift(16), -2);
    assert_eq!(import_u8(255), 1020);
    assert_eq!(import_u16(65535), 16383);
    assert_eq!(average_linear(1 + 2 + 3 + 4), 3);
    assert_eq!(scale_matrix(&WEBP_RGB_TO_Y, 8), [16839, 33059, 6420, 4194304]);
    assert_eq!(rgb_to_gray(16383, 16383, 16383), 16383);
    assert_eq!(rgb_to_gray(0, 0, 0), 0);
}

#[test]
fn black_and_white_map_to_video_range_luma() {
    let y = scale_matrix(&WEBP_RGB_TO_Y, 8);
    assert_eq!(rgb_to_component_8bit(0, 0, 0, &y, precision_shift(8)), 16);
    let white = import_u8(255) as i32;
    assert_eq!(rgb_to_component_8bit(white, white, white, &y, precision_shift(8)), 235);
    let u = scale_matrix(&WEBP_RGB_TO_U, 8);
    assert_eq!(rgb_to_component_8bit(white, white, white, &u, precision_shift(8)), 128);
}

#[test]
fn gray_linear_image_has_neutral_sharpish_chroma() {
    let data = vec![
        20000u16, 20000, 20000, 40000, 40000, 40000, 60000, 60000, 60000, 1000, 1000, 1000,
    ];
    let image = WorkingImage::new(2, 2, WorkingData::Rgb16(data), WorkingColorSpace::LinearRgb).unwrap();
    let planes = rgba_to_yuv420_sharpish_linear_u16(&image).unwrap().unwrap();
    assert_eq!(planes.u, vec![128]);
    assert_eq!(planes.v, vec![128]);
    assert_eq!(planes.y.len(), 4);
    assert!(planes.y[2] > planes.y[1] && planes.y[1] > planes.y[0] && planes.y[0] > planes.y[3]);
    assert!(planes.a.is_none());
}

#[test]
fn sharpish_path_declines_other_images() {
    let image = WorkingImage::new(1, 1, WorkingData::Rgb16(vec![1, 2, 3]), WorkingColorSpace::Source).unwrap();
    assert!(rgba_to_yuv420_sharpish_linear_u16(&image).is_none());
    let image = WorkingImage::new(1, 1, WorkingData::Rgb8(vec![1, 2, 3]), WorkingColorSpace::LinearRgb).unwrap();
    assert!(rgba_to_yuv420_sharpish_linear_u16(&image).is_none());
}

#[test]
fn sharpish_alpha_is_narrowed_to_8_bits() {
    let image = WorkingImage::new(
        1,
        1,
        WorkingData::Rgba16(vec![0, 0, 0, 65535]),
        WorkingColorSpace::LinearRgb,
    )
    .unwrap();
    let planes = rgba_to_yuv420_sharpish_linear_u16(&image).unwrap().unwrap();
    assert_eq!(planes.a, Some(vec![255]));
}

#[test]
fn linear_u16_path_checks_its_input() {
    let cms = srgb_color_pipeline();
    let tables = cms.linear_u16_tables().unwrap();
    let image = WorkingImage::new(1, 1, WorkingData::Rgb16(vec![1, 2, 3]), WorkingColorSpace::Source).unwrap();
    assert_eq!(
        linear_u16_to_yuv420(&image, &tables).unwrap_err().message(),
        "--fasthq expected linear RGB input"
    );
    let image = WorkingImage::new(1, 1, WorkingData::Rgb8(vec![1, 2, 3]), WorkingColorSpace::LinearRgb).unwrap();
    assert_eq!(
        linear_u16_to_yuv420(&image, &tables).unwrap_err().message(),
        "--fasthq requires 16-bit working data"
    );
}

#[test]
fn linear_u16_path_matches_simpleyuv_on_source_codes() {
    let cms = srgb_color_pipeline();
    let tables = cms.linear_u16_tables().unwrap();
    let linear = vec![
        1000u16, 20000, 40000, 65535, 0, 30000, 12345, 54321, 222, 9999, 8888, 7777,
    ];
    let image =
        WorkingImage::new(2, 2, WorkingData::Rgb16(linear.clone()), WorkingColorSpace::LinearRgb).unwrap();
    let planes = linear_u16_to_yuv420(&image, &tables).unwrap();
    let y = scale_matrix(&WEBP_RGB_TO_Y, 14);
    let source: Vec<u16> = linear
        .iter()
        .enumerate()
        .map(|(i, v)| tables.linear_to_source[i % 3][*v as usize])
        .collect();
    for p in 0..4 {
        let expected = rgb_to_component_8bit(
            import_u16(source[3 * p]) as i32,
            import_u16(source[3 * p + 1]) as i32,
            import_u16(source[3 * p + 2]) as i32,
            &y,
            precision_shift(14),
        );
        assert_eq!(planes.y[p], expected);
    }
    assert_eq!(planes.u.len(), 1);
    assert_eq!(planes.v.len(), 1);
}

#[test]
fn odd_sizes_round_chroma_planes_up() {
    let cms = srgb_color_pipeline();
    let image = WorkingImage::new(3, 3, WorkingData::Rgb8(vec![100; 27]), WorkingColorSpace::Source).unwrap();
    let planes = working_image_to_yuv420(&image, &cms).unwrap();
    assert_eq!(planes.y.len(), 9);
    assert_eq!(planes.u.len(), 4);
    assert_eq!(planes.u_stride, 2);
    assert_eq!(planes.y_stride, 3);
}

#[test]
fn widened_samples_keep_luma_within_one_code() {
    let cms = srgb_color_pipeline();
    let mut pixels = Vec::new();
    for v in [0u8, 1, 17, 64, 127, 128, 200, 254, 255] {
        pixels.extend_from_slice(&[v, 255 - v, v / 2]);
    }
    let wide = img2webp_hq::decode::rgb8_to_rgb16(&pixels);
    let narrow_image = WorkingImage::new(3, 3, WorkingData::Rgb8(pixels), WorkingColorSpace::Source).unwrap();
    let wide_image = WorkingImage::new(3, 3, WorkingData::Rgb16(wide), WorkingColorSpace::Source).unwrap();
    let a = working_image_to_yuv420(&narrow_image, &cms).unwrap();
    let b = working_image_to_yuv420(&wide_image, &cms).unwrap();
    for (x, y) in a.y.iter().zip(b.y.iter()) {
        assert!((*x as i32 - *y as i32).abs() <= 1, "{x} vs {y}");
    }
}
