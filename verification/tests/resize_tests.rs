use img2webp_hq::resize::{compute_target_size, fit_inside, resolve_filter, scale_rounded, TargetSize};
use img2webp_hq::{ResizeFilter, ResizeOptions};

#[test]
fn fit_preserves_aspect_ratio() {
    let options = ResizeOptions::default()
        .with_max_width(1000)
        .with_max_height(1000)
        .with_filter(ResizeFilter::Lanczos3);
    let result = compute_target_size(4000, 2000, &options).unwrap();
    assert_eq!((result.width, result.height), (1000, 500));
}

#[test]
fn max_side_scales_landscape_by_longest_edge() {
    let options = ResizeOptions::default().with_max_side(1200);
    let result = compute_target_size(4000, 2000, &options).unwrap();

    assert_eq!((result.width, result.height), (1200, 600));
}

#[test]
fn max_side_scales_portrait_by_longest_edge() {
    let options = ResizeOptions::default().with_max_side(1200);
    let result = compute_target_size(2000, 4000, &options).unwrap();

    assert_eq!((result.width, result.height), (600, 1200));
}

#[test]
fn auto_filter_uses_catmullrom_for_upscale() {
    let target = TargetSize {
        width: 800,
        height: 800,
        resized: true,
    };

    assert_eq!(
        resolve_filter(400, 400, target, None),
        ResizeFilter::CatmullRom
    );
}

#[test]
fn auto_filter_uses_lanczos3_for_downscale() {
    let target = TargetSize {
        width: 400,
        height: 400,
        resized: true,
    };

    assert_eq!(
        resolve_filter(800, 800, target, None),
        ResizeFilter::Lanczos3
    );
}

#[test]
fn requested_filter_wins_over_automatic_choice() {
    let target = TargetSize {
        width: 800,
        height: 800,
        resized: true,
    };
    assert_eq!(
        resolve_filter(400, 400, target, Some(ResizeFilter::Mitchell)),
        ResizeFilter::Mitchell
    );
}

#[test]
fn no_options_keep_source_size() {
    let result = compute_target_size(640, 480, &ResizeOptions::default()).unwrap();
    assert_eq!((result.width, result.height, result.resized), (640, 480, false));
}

#[test]
fn width_alone_scales_height_proportionally() {
    let options = ResizeOptions::default().with_width(1000);
    let result = compute_target_size(4000, 3000, &options).unwrap();
    assert_eq!((result.width, result.height, result.resized), (1000, 750, true));
}

#[test]
fn height_alone_scales_width_proportionally() {
    let options = ResizeOptions::default().with_height(300);
    let result = compute_target_size(4000, 3000, &options).unwrap();
    assert_eq!((result.width, result.height), (400, 300));
}

#[test]
fn no_upscale_keeps_small_sources() {
    let options = ResizeOptions::default()
        .with_width(2000)
        .with_height(2000)
        .with_no_upscale(true);
    let result = compute_target_size(800, 600, &options).unwrap();
    assert_eq!((result.width, result.height, result.resized), (800, 600, false));
}

#[test]
fn max_box_never_exceeds_either_side() {
    let options = ResizeOptions::default().with_max_width(500).with_max_height(500);
    let result = compute_target_size(1000, 3000, &options).unwrap();
    assert!(result.width <= 500 && result.height <= 500);
    assert_eq!(result.height, 500);
}

#[test]
fn zero_target_is_refused() {
    let options = ResizeOptions::default().with_width(0).with_height(10);
    let err = compute_target_size(100, 100, &options).unwrap_err();
    assert_eq!(err.message(), "calculated target size is zero");
}

#[test]
fn oversized_target_is_refused() {
    let options = ResizeOptions::default().with_width(20000).with_height(100);
    let err = compute_target_size(100, 100, &options).unwrap_err();
    assert!(matches!(err, img2webp_hq::Error::InvalidArgument(_)));
}

#[test]
fn scale_rounded_rounds_down() {
    assert_eq!(scale_rounded(3000, 1000, 4000), 750);
    assert_eq!(scale_rounded(7, 1, 2), 3);
}

#[test]
fn fit_inside_scales_by_the_tighter_side() {
    assert_eq!(fit_inside(4000, 2000, 1000, 1000), (1000, 500));
    assert_eq!(fit_inside(2000, 4000, 1000, 1000), (500, 1000));
}

#[test]
fn sixteen_bit_samples_survive_the_byte_round_trip() {
    use_byte_round_trip(true);
    use_byte_round_trip(false);
}

fn use_byte_round_trip(little_endian: bool) {
    let values = vec![0u16, 1, 0x1234, 0xFF00, 0xFFFF];
    let bytes = img2webp_hq::resize::u16_to_bytes(values.clone(), little_endian);
    assert_eq!(bytes.len(), 10);
    assert_eq!(bytes[4..6], if little_endian { [0x34, 0x12] } else { [0x12, 0x34] });
    assert_eq!(img2webp_hq::resize::bytes_to_u16(bytes, little_endian), values);
}

#[test]
fn proportional_side_beyond_webp_limit_is_refused() {
    let options = ResizeOptions::default().with_width(2);
    let err = compute_target_size(1, 2_147_483_649, &options).unwrap_err();
    assert!(matches!(err, img2webp_hq::Error::InvalidArgument(_)));
    assert_eq!(scale_rounded(2_147_483_649, 2, 1), 4_294_967_298);
}
