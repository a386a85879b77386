use img2webp_hq::decode::{WorkingColorSpace, WorkingData, WorkingImage};
use img2webp_hq::encode::{
    attach_metadata, encode_path, encoder_settings, pack_rgb16, pack_rgb8, pack_rgba8,
    working_image_to_argb8, EncodePath,
};
use img2webp_hq::{ConversionOptions, Mode};
use img2webp_hq::metadata::{Orientation, SourceMetadata};
use img2webp_hq::MetadataPolicy;

#[test]
fn pixels_pack_as_argb() {
    assert_eq!(pack_rgb8(&[0x11, 0x22, 0x33]), 0xFF11_2233);
    assert_eq!(pack_rgba8(&[0x11, 0x22, 0x33, 0x44]), 0x4411_2233);
    assert_eq!(pack_rgb16(&[0xFFFF, 0, 0x8080]), 0xFFFF_0080);
}

#[test]
fn working_images_become_argb_rows() {
    let image = WorkingImage::new(
        2,
        1,
        WorkingData::Rgba16(vec![65535, 0, 0, 65535, 0, 65535, 0, 0]),
        WorkingColorSpace::Source,
    )
    .unwrap();
    assert_eq!(working_image_to_argb8(&image), vec![0xFFFF_0000, 0x0000_FF00]);
}

#[test]
fn no_metadata_policy_keeps_the_file() {
    let metadata = SourceMetadata {
        icc: Some(vec![1, 2, 3]),
        exif: Some(vec![4]),
        xmp: Some(vec![5]),
        orientation: Orientation::NoTransforms,
    };
    let webp = b"RIFF\x04\0\0\0WEBP".to_vec();
    let out = attach_metadata(webp.clone(), MetadataPolicy::NoMetadata, &metadata).unwrap();
    assert_eq!(out, webp);
}

#[test]
fn icc_policy_without_profile_keeps_the_file() {
    let metadata = SourceMetadata { icc: None, exif: Some(vec![4]), xmp: None, orientation: Orientation::NoTransforms };
    let webp = b"RIFF\x04\0\0\0WEBP".to_vec();
    let out = attach_metadata(webp.clone(), MetadataPolicy::Icc, &metadata).unwrap();
    assert_eq!(out, webp);
}

#[test]
fn attaching_to_a_broken_file_is_an_encode_error() {
    let metadata = SourceMetadata {
        icc: Some(vec![1, 2, 3]),
        exif: None,
        xmp: None,
        orientation: Orientation::NoTransforms,
    };
    let err = attach_metadata(vec![0, 1, 2], MetadataPolicy::All, &metadata).unwrap_err();
    assert!(matches!(err, img2webp_hq::Error::Encode(_)));
    assert!(err.message().starts_with("failed to attach ICC profile: "));
}

#[test]
fn options_select_the_encode_path() {
    assert_eq!(encode_path(&ConversionOptions::default()), EncodePath::SimpleYuv);
    assert_eq!(encode_path(&ConversionOptions::default().with_sharpyuv(true)), EncodePath::SharpYuv);
    assert_eq!(
        encode_path(&ConversionOptions::default().with_mode(Mode::Lossless)),
        EncodePath::Lossless(None)
    );
    assert_eq!(
        encode_path(&ConversionOptions::default().with_mode(Mode::NearLossless(40))),
        EncodePath::Lossless(Some(40))
    );
}

#[test]
fn encoder_settings_follow_the_path() {
    let options = ConversionOptions::default().with_method(6);
    let lossy = encoder_settings(&options, EncodePath::SimpleYuv);
    assert_eq!(lossy.sharp_yuv, Some(false));
    assert!(!lossy.lossless);
    assert_eq!(lossy.method, 6);
    assert_eq!(lossy.thread_level, 1);
    assert_eq!(f32::from_bits(lossy.quality_bits), 75.0);
    let sharp = encoder_settings(&options, EncodePath::SharpYuv);
    assert_eq!(sharp.sharp_yuv, Some(true));
    let near = encoder_settings(&options, EncodePath::Lossless(Some(60)));
    assert!(near.lossless);
    assert_eq!(near.near_lossless, Some(60));
    assert_eq!(near.sharp_yuv, None);
}

#[test]
fn icc_profile_is_muxed_into_a_real_file() {
    let argb = vec![0xFF10_2030u32; 4];
    let webp = webpx::Encoder::new_argb(&argb, 2, 2)
        .config(webpx::EncoderConfig::new().lossless(true))
        .encode(webpx::Unstoppable)
        .unwrap();
    let metadata = SourceMetadata {
        icc: Some(lcms2::Profile::new_srgb().icc().unwrap()),
        exif: None,
        xmp: None,
        orientation: Orientation::NoTransforms,
    };
    let out = attach_metadata(webp.clone(), MetadataPolicy::Icc, &metadata).unwrap();
    assert_ne!(out, webp);
    assert!(out.windows(4).any(|w| w == b"ICCP"));
    let kept = attach_metadata(webp.clone(), MetadataPolicy::Exif, &metadata).unwrap();
    assert_eq!(kept, webp);
}
