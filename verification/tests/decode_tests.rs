use img2webp_hq::decode::{
    check_not_animated, convert_decoded_to_16bit, convert_decoded_to_8bit, detect_format, down16,
    finish_decoded, normalize_rows, up8, working_image_from_decoder, working_image_from_jpeg_u8,
    DecodedColorType, InputFormat, JpegLayout, RawImage, WorkingColorSpace, WorkingData,
    WorkingImage,
};
use img2webp_hq::metadata::{Orientation, SourceMetadata};
use img2webp_hq::input::orientation_from_code;
use img2webp_hq::Error;
use image::ImageEncoder;

fn rgb8(width: u32, height: u32, data: Vec<u8>) -> WorkingImage {
    WorkingImage::new(width, height, WorkingData::Rgb8(data), WorkingColorSpace::Source).unwrap()
}

fn no_metadata(orientation: Orientation) -> SourceMetadata {
    SourceMetadata { icc: None, exif: None, xmp: None, orientation }
}

#[test]
fn magic_bytes_select_the_decoder() {
    assert_eq!(detect_format(&[0x89, b'P', b'N', b'G', 0x0D, 0x0A, 0x1A, 0x0A, 0, 0]).unwrap(), InputFormat::Png);
    assert_eq!(detect_format(&[0xFF, 0xD8, 0xFF, 0xE0, 0, 0]).unwrap(), InputFormat::Jpeg);
    assert_eq!(detect_format(b"RIFF\0\0\0\0WEBPVP8 ").unwrap(), InputFormat::WebP);
}

#[test]
fn other_formats_are_unsupported() {
    match detect_format(b"GIF89a\0\0\0\0") {
        Err(Error::Unsupported(message)) => assert!(message.starts_with("unsupported input format: ")),
        _ => panic!("GIF accepted"),
    }
    assert!(matches!(detect_format(b"not an image"), Err(Error::Image(_))));
}

#[test]
fn animated_inputs_are_refused() {
    assert!(check_not_animated(&InputFormat::Png, false).is_ok());
    assert_eq!(
        check_not_animated(&InputFormat::Png, true).unwrap_err().message(),
        "animated PNG input is not supported in v1"
    );
    assert_eq!(
        check_not_animated(&InputFormat::WebP, true).unwrap_err().message(),
        "animated WebP input is not supported in v1"
    );
}

#[test]
fn working_image_checks_its_buffer() {
    let err = WorkingImage::new(2, 2, WorkingData::Rgb8(vec![0; 11]), WorkingColorSpace::Source).unwrap_err();
    assert_eq!(err.message(), "invalid working image buffer: expected 12 samples, got 11");
    let image = rgb8(2, 2, vec![0; 12]);
    assert!(!image.has_alpha());
    assert!(image.is_u8());
    assert_eq!(image.data.channels(), 3);
    assert_eq!(image.data.len(), 12);
}

#[test]
fn sample_depth_conversions_round_trip() {
    assert_eq!(up8(0xAB), 0xABAB);
    assert_eq!(down16(0xABAB), 0xAB);
    assert_eq!(down16(65535), 255);
    assert_eq!(down16(128), 0);
    assert_eq!(down16(129), 1);
}

#[test]
fn gray_and_opaque_alpha_become_rgb() {
    let gray = convert_decoded_to_8bit(&DecodedColorType::L8, vec![7, 9], true).unwrap();
    assert!(matches!(gray, WorkingData::Rgb8(ref d) if d == &vec![7, 7, 7, 9, 9, 9]));
    let opaque = convert_decoded_to_8bit(&DecodedColorType::Rgba8, vec![1, 2, 3, 255], true).unwrap();
    assert!(matches!(opaque, WorkingData::Rgb8(ref d) if d == &vec![1, 2, 3]));
    let translucent = convert_decoded_to_8bit(&DecodedColorType::La8, vec![5, 128], true).unwrap();
    assert!(matches!(translucent, WorkingData::Rgba8(ref d) if d == &vec![5, 5, 5, 128]));
}

#[test]
fn sixteen_bit_samples_follow_the_byte_order() {
    let le = convert_decoded_to_16bit(&DecodedColorType::L16, vec![0x34, 0x12], true).unwrap();
    assert!(matches!(le, WorkingData::Rgb16(ref d) if d == &vec![0x1234, 0x1234, 0x1234]));
    let be = convert_decoded_to_16bit(&DecodedColorType::L16, vec![0x34, 0x12], false).unwrap();
    assert!(matches!(be, WorkingData::Rgb16(ref d) if d == &vec![0x3412, 0x3412, 0x3412]));
    let widened = convert_decoded_to_16bit(&DecodedColorType::Rgb8, vec![0, 128, 255], true).unwrap();
    assert!(matches!(widened, WorkingData::Rgb16(ref d) if d == &vec![0, 128 * 257, 65535]));
}

#[test]
fn unknown_layouts_are_unsupported() {
    let err = convert_decoded_to_8bit(&DecodedColorType::Other("Rgb32F".to_string()), vec![], true).unwrap_err();
    assert_eq!(err.message(), "unsupported decoded color type: Rgb32F");
}

#[test]
fn decoder_buffers_become_source_images() {
    let raw = RawImage { width: 1, height: 2, color_type: DecodedColorType::Rgb8, data: vec![1, 2, 3, 4, 5, 6] };
    let image = working_image_from_decoder(raw, false, true).unwrap();
    assert_eq!(image.color_space, WorkingColorSpace::Source);
    assert!(matches!(image.data, WorkingData::Rgb16(ref d) if d[0] == 257 && d.len() == 6));
    let raw = RawImage { width: 2, height: 2, color_type: DecodedColorType::Rgb8, data: vec![1, 2, 3] };
    assert!(matches!(working_image_from_decoder(raw, true, true), Err(Error::Decode(_))));
}

#[test]
fn row_padding_is_dropped() {
    let packed = normalize_rows(vec![1u8, 2, 0, 3, 4, 0], 2, 2, 1, 3).unwrap();
    assert_eq!(packed, vec![1, 2, 3, 4]);
    let err = normalize_rows(vec![1u8, 2, 3], 2, 2, 1, 1).unwrap_err();
    assert_eq!(err.message(), "decoder returned an invalid row layout");
}

#[test]
fn jpeg_gray_rows_become_rgb() {
    let image = working_image_from_jpeg_u8(JpegLayout::Gray, vec![10, 20, 99, 30, 40, 99], 2, 2, 3).unwrap();
    assert!(matches!(image.data, WorkingData::Rgb8(ref d) if d == &vec![10, 10, 10, 20, 20, 20, 30, 30, 30, 40, 40, 40]));
}

#[test]
fn rotation_by_90_swaps_the_axes() {
    // 2x1 image: left pixel 1, right pixel 2.
    let image = rgb8(2, 1, vec![1, 1, 1, 2, 2, 2]);
    let rotated = image.apply_orientation(Orientation::Rotate90).unwrap();
    assert_eq!((rotated.width, rotated.height), (1, 2));
    assert!(matches!(rotated.data, WorkingData::Rgb8(ref d) if d == &vec![1, 1, 1, 2, 2, 2]));
    let image = rgb8(2, 1, vec![1, 1, 1, 2, 2, 2]);
    let flipped = image.apply_orientation(Orientation::FlipHorizontal).unwrap();
    assert!(matches!(flipped.data, WorkingData::Rgb8(ref d) if d == &vec![2, 2, 2, 1, 1, 1]));
}

#[test]
fn rotation_by_180_reverses_pixels_and_twice_is_identity() {
    let pixels = vec![1, 1, 1, 2, 2, 2, 3, 3, 3, 4, 4, 4, 5, 5, 5, 6, 6, 6];
    let once = rgb8(3, 2, pixels.clone()).apply_orientation(Orientation::Rotate180).unwrap();
    assert!(matches!(once.data, WorkingData::Rgb8(ref d) if d == &vec![6, 6, 6, 5, 5, 5, 4, 4, 4, 3, 3, 3, 2, 2, 2, 1, 1, 1]));
    let twice = once.apply_orientation(Orientation::Rotate180).unwrap();
    assert!(matches!(twice.data, WorkingData::Rgb8(ref d) if d == &pixels));
}

#[test]
fn upright_images_are_kept_as_decoded() {
    let decoded = finish_decoded(rgb8(1, 1, vec![9, 8, 7]), no_metadata(Orientation::NoTransforms)).unwrap();
    assert!(matches!(decoded.image.data, WorkingData::Rgb8(ref d) if d == &vec![9, 8, 7]));
    assert_eq!(decoded.metadata.orientation, Orientation::NoTransforms);
}

#[test]
fn finishing_rotates_pixels_and_keeps_other_chunks() {
    let mut metadata = no_metadata(Orientation::Rotate270);
    metadata.icc = Some(vec![1, 2, 3]);
    let decoded = finish_decoded(rgb8(2, 1, vec![1, 1, 1, 2, 2, 2]), metadata).unwrap();
    assert_eq!((decoded.image.width, decoded.image.height), (1, 2));
    assert!(matches!(decoded.image.data, WorkingData::Rgb8(ref d) if d == &vec![2, 2, 2, 1, 1, 1]));
    assert_eq!(decoded.metadata.icc, Some(vec![1, 2, 3]));
}

#[test]
fn applied_orientation_is_cleared_from_exif() {
    let exif = vec![
        0x49, 0x49, 42, 0, 8, 0, 0, 0, 1, 0, 0x12, 0x01, 3, 0, 1, 0, 0, 0, 6, 0, 0, 0,
    ];
    let mut metadata = no_metadata(Orientation::Rotate90);
    metadata.exif = Some(exif.clone());
    let decoded = finish_decoded(rgb8(2, 1, vec![1, 1, 1, 2, 2, 2]), metadata).unwrap();
    let cleared = decoded.metadata.exif.unwrap();
    assert_eq!(cleared.len(), exif.len());
    assert_eq!(&cleared[18..20], &[1, 0]);
    assert_eq!(&cleared[..18], &exif[..18]);
    assert_eq!((decoded.image.width, decoded.image.height), (1, 2));
}

#[test]
fn image_errors_keep_their_text() {
    let err = detect_format(b"not an image").unwrap_err();
    assert!(!err.message().is_empty());
}

#[test]
fn narrowed_high_bit_depth_decode_matches_fast_decode() {
    let layouts = [
        (DecodedColorType::Rgb8, vec![0u8, 17, 128, 255, 3, 200]),
        (DecodedColorType::La8, vec![9, 255, 77, 255]),
        (DecodedColorType::Rgba16, vec![0x34, 0x12, 0xFF, 0xFF, 0, 0x80, 0x10, 0x00]),
        (DecodedColorType::L16, vec![0xAB, 0xAB, 0x01, 0x00]),
    ];
    for (color_type, raw) in layouts {
        let fast = convert_decoded_to_8bit(&color_type, raw.clone(), true).unwrap();
        let wide = convert_decoded_to_16bit(&color_type, raw, true).unwrap();
        match (fast, wide) {
            (WorkingData::Rgb8(a), WorkingData::Rgb16(b)) | (WorkingData::Rgba8(a), WorkingData::Rgba16(b)) => {
                let narrowed: Vec<u8> = b.iter().map(|v| down16(*v)).collect();
                assert_eq!(a, narrowed);
            }
            _ => panic!("layouts differ for {color_type:?}"),
        }
    }
}

fn png_bytes(data: &[u8], width: u32, height: u32, color: image::ExtendedColorType) -> Vec<u8> {
    let mut bytes = Vec::new();
    image::codecs::png::PngEncoder::new(&mut bytes).write_image(data, width, height, color).unwrap();
    bytes
}

#[test]
fn png_input_decodes_to_source_samples() {
    let pixels: Vec<u8> = (0..2 * 3 * 3).map(|i| (i * 10) as u8).collect();
    let bytes = png_bytes(&pixels, 3, 2, image::ExtendedColorType::Rgb8);
    let fast = img2webp_hq::input::decode_png(&bytes, true).unwrap();
    assert_eq!((fast.image.width, fast.image.height), (3, 2));
    assert_eq!(fast.image.color_space, WorkingColorSpace::Source);
    assert!(matches!(&fast.image.data, WorkingData::Rgb8(d) if *d == pixels));
    assert_eq!(fast.metadata.orientation, Orientation::NoTransforms);
    assert!(fast.metadata.exif.is_none());
    let wide = img2webp_hq::input::decode_png(&bytes, false).unwrap();
    let expected: Vec<u16> = pixels.iter().map(|&v| v as u16 * 257).collect();
    assert!(matches!(&wide.image.data, WorkingData::Rgb16(d) if *d == expected));
}

#[test]
fn gray_alpha_png_becomes_rgba() {
    let bytes = png_bytes(&[7, 200, 9, 100], 2, 1, image::ExtendedColorType::La8);
    let decoded = img2webp_hq::input::decode_png(&bytes, true).unwrap();
    assert!(matches!(&decoded.image.data, WorkingData::Rgba8(d) if *d == vec![7, 7, 7, 200, 9, 9, 9, 100]));
}

#[test]
fn broken_png_is_an_image_error() {
    let mut bytes = png_bytes(&[1, 2, 3], 1, 1, image::ExtendedColorType::Rgb8);
    bytes.truncate(20);
    assert!(matches!(img2webp_hq::input::decode_png(&bytes, true), Err(Error::Image(_))));
}

#[test]
fn webp_input_decodes_to_source_samples() {
    let pixels = vec![10u8, 20, 30, 255, 40, 50, 60, 128];
    let mut bytes = Vec::new();
    image::codecs::webp::WebPEncoder::new_lossless(&mut bytes)
        .write_image(&pixels, 2, 1, image::ExtendedColorType::Rgba8)
        .unwrap();
    let decoded = img2webp_hq::input::decode_webp(&bytes, true).unwrap();
    assert_eq!((decoded.image.width, decoded.image.height), (2, 1));
    assert!(matches!(&decoded.image.data, WorkingData::Rgba8(d) if *d == pixels));
}

#[test]
fn jpeg_metadata_is_read_from_the_header() {
    let mut bytes = Vec::new();
    image::codecs::jpeg::JpegEncoder::new(&mut bytes)
        .write_image(&[128u8; 12], 2, 2, image::ExtendedColorType::Rgb8)
        .unwrap();
    let metadata = img2webp_hq::input::read_jpeg_metadata(&bytes).unwrap();
    assert_eq!(metadata.orientation, Orientation::NoTransforms);
    assert!(metadata.icc.is_none());
    assert!(metadata.exif.is_none());
    assert!(img2webp_hq::input::read_jpeg_metadata(&[0xFF, 0xD8, 0x00]).is_err());
}

#[test]
fn exif_codes_name_orientations() {
    assert_eq!(orientation_from_code(1), Orientation::NoTransforms);
    assert_eq!(orientation_from_code(2), Orientation::FlipHorizontal);
    assert_eq!(orientation_from_code(3), Orientation::Rotate180);
    assert_eq!(orientation_from_code(4), Orientation::FlipVertical);
    assert_eq!(orientation_from_code(5), Orientation::Rotate90FlipH);
    assert_eq!(orientation_from_code(6), Orientation::Rotate90);
    assert_eq!(orientation_from_code(7), Orientation::Rotate270FlipH);
    assert_eq!(orientation_from_code(8), Orientation::Rotate270);
}

#[test]
fn unknown_layout_message_names_the_layout() {
    let err = convert_decoded_to_8bit(&DecodedColorType::Other("Rgb32F".to_string()), vec![0; 12], true).unwrap_err();
    assert_eq!(err.message(), "unsupported decoded color type: Rgb32F");
}
