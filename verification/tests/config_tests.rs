use img2webp_hq::cli::{validate, CliArgs};
use img2webp_hq::config::{DEFAULT_QUALITY_BITS, NEGATIVE_ZERO_BITS, QUALITY_MAX_BITS};
use img2webp_hq::{ConversionOptions, MetadataPolicy, Mode, ResizeFilter, ResizeOptions};

fn cli(quality: f32) -> CliArgs {
    CliArgs {
        quality_bits: quality.to_bits(),
        alpha_quality: 100,
        method: 4,
        sns_strength: None,
        filter_strength: None,
        sharpyuv: false,
        lossless: false,
        near_lossless: None,
        exact: false,
        fast: false,
        fast_hq: false,
        metadata: MetadataPolicy::Icc,
        width: None,
        height: None,
        max_width: None,
        max_height: None,
        max_side: None,
        no_upscale: false,
        resize_filter: None,
    }
}

#[test]
fn defaults_match_cli_defaults() {
    let options = ConversionOptions::default();
    assert_eq!(options.mode, Mode::Lossy);
    assert_eq!(f32::from_bits(options.quality_bits), 75.0);
    assert_eq!(options.alpha_quality, 100);
    assert_eq!(options.method, 4);
    assert_eq!(options.metadata, MetadataPolicy::Icc);
    options.validate().unwrap();
}

#[test]
fn max_side_builder_replaces_other_dimensions() {
    let options = ResizeOptions::default()
        .with_width(800)
        .with_height(600)
        .with_max_side(1200);
    assert_eq!(options.max_side, Some(1200));
    assert_eq!(options.width, None);
    assert_eq!(options.height, None);
    options.validate().unwrap();
}

#[test]
fn rejects_max_side_with_other_size_flags() {
    let mut args = cli(75.0);
    args.width = Some(1200);
    args.max_side = Some(1200);
    let err = validate(args).unwrap_err();

    assert_eq!(
        err.message(),
        "`--max-side` cannot be combined with other resize size flags"
    );
}

#[test]
fn rejects_fast_and_fasthq_together() {
    let mut args = cli(75.0);
    args.fast = true;
    args.fast_hq = true;
    let err = validate(args).unwrap_err();

    assert_eq!(
        err.message(),
        "`--fast` and `--fasthq` cannot be used together"
    );
}

#[test]
fn sharpyuv_flag_switches_lossy_pipeline() {
    let mut args = cli(75.0);
    args.sharpyuv = true;
    let job = validate(args).unwrap();

    assert!(job.sharpyuv);
    assert!(!job.uses_simpleyuv());
    assert!(!job.uses_fast_decode());
}

#[test]
fn quality_bit_patterns_cover_the_accepted_range() {
    assert_eq!(DEFAULT_QUALITY_BITS, 75.0f32.to_bits());
    assert_eq!(QUALITY_MAX_BITS, 100.0f32.to_bits());
    assert_eq!(NEGATIVE_ZERO_BITS, (-0.0f32).to_bits());
}

#[test]
fn quality_edges_are_checked_like_floats() {
    assert!(validate(cli(0.0)).is_ok());
    assert!(validate(cli(-0.0)).is_ok());
    assert!(validate(cli(100.0)).is_ok());
    let err = validate(cli(100.5)).unwrap_err();
    assert_eq!(err.message(), "`-q` must be in the range 0..=100");
    assert!(validate(cli(-1.0)).is_err());
    assert!(validate(cli(f32::NAN)).is_err());
    assert!(validate(cli(f32::INFINITY)).is_err());
}

#[test]
fn lossless_flags_select_the_mode() {
    let mut args = cli(75.0);
    args.lossless = true;
    assert_eq!(validate(args).unwrap().mode, Mode::Lossless);

    let mut args = cli(75.0);
    args.near_lossless = Some(60);
    assert_eq!(validate(args).unwrap().mode, Mode::NearLossless(60));

    let mut args = cli(75.0);
    args.lossless = true;
    args.near_lossless = Some(60);
    assert_eq!(
        validate(args).unwrap_err().message(),
        "`-lossless` and `-near_lossless` cannot be used together"
    );
}

#[test]
fn out_of_range_flags_are_refused() {
    let mut args = cli(75.0);
    args.method = 7;
    assert_eq!(validate(args).unwrap_err().message(), "`-m` must be in the range 0..=6");

    let mut args = cli(75.0);
    args.alpha_quality = 101;
    assert_eq!(
        validate(args).unwrap_err().message(),
        "`-alpha_q` must be in the range 0..=100"
    );

    let mut args = cli(75.0);
    args.sns_strength = Some(101);
    assert_eq!(validate(args).unwrap_err().message(), "`-sns` must be in the range 0..=100");

    let mut args = cli(75.0);
    args.filter_strength = Some(101);
    assert_eq!(validate(args).unwrap_err().message(), "`-f` must be in the range 0..=100");

    let mut args = cli(75.0);
    args.near_lossless = Some(101);
    assert_eq!(
        validate(args).unwrap_err().message(),
        "`-near_lossless` must be in the range 0..=100"
    );
}

#[test]
fn width_with_max_box_is_refused() {
    let mut options = ResizeOptions::default().with_width(100);
    options.max_height = Some(50);
    assert_eq!(
        options.validate().unwrap_err().message(),
        "`--width/--height` cannot be combined with `--max-width/--max-height`"
    );
}

#[test]
fn fasthq_conflicts_are_refused() {
    let options = ConversionOptions::default().with_fast_hq(true).with_sharpyuv(true);
    assert_eq!(
        options.validate().unwrap_err().message(),
        "`--fasthq` cannot be combined with `--sharpyuv`"
    );
    let options = ConversionOptions::default().with_fast(true).with_fast_hq(true);
    assert_eq!(
        options.validate().unwrap_err().message(),
        "`--fast` and `--fasthq` cannot be used together"
    );
}

#[test]
fn cli_carries_resize_flags_over() {
    let mut args = cli(80.0);
    args.max_width = Some(640);
    args.no_upscale = true;
    args.resize_filter = Some(ResizeFilter::Mitchell);
    let options = validate(args).unwrap();
    assert_eq!(options.resize.max_width, Some(640));
    assert!(options.resize.no_upscale);
    assert_eq!(options.resize.filter, Some(ResizeFilter::Mitchell));
    assert_eq!(options.quality_bits, 80.0f32.to_bits());
}

#[test]
fn metadata_policies_keep_their_chunks() {
    assert!(MetadataPolicy::All.keep_icc() && MetadataPolicy::All.keep_exif() && MetadataPolicy::All.keep_xmp());
    assert!(MetadataPolicy::Icc.keep_icc() && !MetadataPolicy::Icc.keep_exif());
    assert!(!MetadataPolicy::NoMetadata.keep_icc() && !MetadataPolicy::NoMetadata.keep_xmp());
    assert!(MetadataPolicy::Exif.keep_exif() && !MetadataPolicy::Exif.keep_xmp());
    assert!(MetadataPolicy::Xmp.keep_xmp() && !MetadataPolicy::Xmp.keep_icc());
}

#[test]
fn accepted_flags_give_accepted_options() {
    let mut args = cli(90.0);
    args.near_lossless = Some(20);
    args.max_side = Some(800);
    let options = validate(args).unwrap();
    assert!(options.validate().is_ok());
}

#[test]
fn fasthq_is_refused_for_lossless_modes() {
    let options = ConversionOptions::default().with_fast_hq(true).with_mode(Mode::Lossless);
    assert_eq!(
        options.validate().unwrap_err().message(),
        "`--fasthq` is available only for lossy encoding"
    );
    assert!(ConversionOptions::default().with_fast_hq(true).validate().is_ok());
}
