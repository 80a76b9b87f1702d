use nokhwa::decode::{decode_frame, yuyv422_to_rgb888, SourceLayout};
use nokhwa::format::CaptureError;

#[test]
fn yuyv_black_white_and_grey() {
    assert_eq!(yuyv422_to_rgb888(&[16, 128, 235, 128]), Ok(vec![0, 0, 0, 255, 255, 255]));
    assert_eq!(yuyv422_to_rgb888(&[128, 128, 128, 128]), Ok(vec![130; 6]));
}

#[test]
fn yuyv_saturated_red_clamps() {
    assert_eq!(yuyv422_to_rgb888(&[81, 90, 81, 240]), Ok(vec![255, 0, 0, 255, 0, 0]));
}

#[test]
fn yuyv_partial_group_fails() {
    assert_eq!(yuyv422_to_rgb888(&[1, 2, 3]), Err(CaptureError::DecodeFailed));
    assert_eq!(yuyv422_to_rgb888(&[]), Ok(vec![]));
}

#[test]
fn yuyv_frame_has_fixed_size() {
    let img = decode_frame(&[16, 128, 235, 128], 2, 1, SourceLayout::Yuy2, false).unwrap();
    assert_eq!((img.width(), img.height()), (2, 1));
    assert_eq!(img.into_raw(), vec![0, 0, 0, 255, 255, 255]);
}

#[test]
fn short_buffer_is_padded_with_zeros() {
    let img = decode_frame(&[1, 2, 3], 2, 2, SourceLayout::Rgb, false).unwrap();
    let data = img.into_raw();
    assert_eq!(data.len(), 2 * 2 * 3);
    assert_eq!(data, vec![1, 2, 3, 0, 0, 0, 0, 0, 0, 0, 0, 0]);
}

#[test]
fn long_buffer_is_cut() {
    let img = decode_frame(&[1, 2, 3, 4, 5, 6, 7, 8], 1, 2, SourceLayout::Rgb, false).unwrap();
    assert_eq!(img.into_raw(), vec![1, 2, 3, 4, 5, 6]);
}

#[test]
fn alpha_is_dropped() {
    let img = decode_frame(&[1, 2, 3, 99, 4, 5, 6, 99], 2, 1, SourceLayout::Rgb, true).unwrap();
    assert_eq!(img.into_raw(), vec![1, 2, 3, 4, 5, 6]);
}

#[test]
fn unsupported_layout_fails_only_that_frame() {
    assert!(matches!(
        decode_frame(&[1, 2, 3], 1, 1, SourceLayout::Unsupported, false),
        Err(CaptureError::DecodeFailed)
    ));
    let next = decode_frame(&[7, 8, 9], 1, 1, SourceLayout::Rgb, false).unwrap();
    assert_eq!(next.into_raw(), vec![7, 8, 9]);
}

#[test]
fn decoding_twice_gives_identical_bytes() {
    let raw = [81u8, 90, 81, 240, 16, 128, 235, 128];
    let a = decode_frame(&raw, 2, 2, SourceLayout::Yuy2, false).unwrap().into_raw();
    let b = decode_frame(&raw, 2, 2, SourceLayout::Yuy2, false).unwrap().into_raw();
    assert_eq!(a, b);
    assert_eq!(a.len(), 12);
}

fn small_jpeg() -> Vec<u8> {
    let pixels: Vec<u8> = (0..4 * 4).flat_map(|_| [200u8, 40, 40]).collect();
    let mut out = Vec::new();
    let mut enc = image::codecs::jpeg::JpegEncoder::new_with_quality(&mut out, 95);
    enc.encode(&pixels, 4, 4, image::ColorType::Rgb8).unwrap();
    out
}

#[test]
fn jpeg_frame_decodes_to_rgb() {
    let jpeg = small_jpeg();
    let img = decode_frame(&jpeg, 4, 4, SourceLayout::Encoded, false).unwrap();
    let data = img.into_raw();
    assert_eq!(data.len(), 4 * 4 * 3);
    // Lossy, but close to the encoded colour and not the compressed bytes.
    assert!(data[0] > 150 && data[1] < 100 && data[2] < 100);
    assert_ne!(&data[..], &jpeg[..data.len()]);
}

#[test]
fn jpeg_frame_is_padded_to_the_requested_size() {
    let jpeg = small_jpeg();
    let data = decode_frame(&jpeg, 5, 4, SourceLayout::Encoded, false).unwrap().into_raw();
    assert_eq!(data.len(), 5 * 4 * 3);
    assert!(data[4 * 4 * 3..].iter().all(|b| *b == 0));
}

#[test]
fn corrupt_jpeg_fails_to_decode() {
    assert!(matches!(
        decode_frame(&[0xff, 0xd8, 0x00, 0x01], 4, 4, SourceLayout::Encoded, false),
        Err(CaptureError::DecodeFailed)
    ));
    assert!(matches!(
        decode_frame(b"not a jpeg", 4, 4, SourceLayout::Encoded, false),
        Err(CaptureError::DecodeFailed)
    ));
}
