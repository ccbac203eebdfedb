use screen_capture::canonical::CanonicalImage;
use screen_capture::codec::{decode, decode_container, encode, flatten_rgb, EncodeError};
use screen_capture::crop::{crop_image, crop_region, CropError};
use screen_capture::normalize::{
    cascade_hypothesis, expand_rgb_pixels, normalize, swap_bgra_pixels, try_hypothesis,
    NormalizationError, PixelFormatHypothesis,
};
use screen_capture::pipeline::{frame_to_transport, PipelineError};
use screen_capture::resize::{constrain, scale_edge, MAX_EDGE};
use screen_capture::RawFrame;

fn frame(width: u32, height: u32, bytes: Vec<u8>) -> RawFrame {
    RawFrame { width, height, bytes }
}

fn gradient(width: u32, height: u32) -> CanonicalImage {
    let mut pixels = Vec::new();
    for y in 0..height {
        for x in 0..width {
            pixels.push((x * 7 % 256) as u8);
            pixels.push((y * 5 % 256) as u8);
            pixels.push(((x + y) % 256) as u8);
            pixels.push(255);
        }
    }
    CanonicalImage { width, height, pixels }
}

fn png_bytes(width: u32, height: u32) -> Vec<u8> {
    let img = image::RgbaImage::from_pixel(width, height, image::Rgba([10, 20, 30, 255]));
    let mut out = Vec::new();
    img.write_to(&mut std::io::Cursor::new(&mut out), image::ImageFormat::Png)
        .unwrap();
    out
}

#[test]
fn rgba_buffer_is_kept_unchanged() {
    let bytes: Vec<u8> = (0..16).collect();
    let img = normalize(frame(2, 2, bytes.clone())).unwrap();
    assert_eq!((img.width, img.height), (2, 2));
    assert_eq!(img.pixels, bytes);
}

#[test]
fn rgb_buffer_is_widened_with_opaque_alpha() {
    let img = normalize(frame(2, 1, vec![1, 2, 3, 4, 5, 6])).unwrap();
    assert_eq!((img.width, img.height), (2, 1));
    assert_eq!(img.pixels, vec![1, 2, 3, 255, 4, 5, 6, 255]);
}

#[test]
fn compressed_container_keeps_its_own_dimensions() {
    let png = png_bytes(3, 2);
    let img = normalize(frame(10, 10, png)).unwrap();
    assert_eq!((img.width, img.height), (3, 2));
    assert_eq!(img.pixels.len(), 3 * 2 * 4);
    assert_eq!(&img.pixels[0..4], &[10, 20, 30, 255]);
}

#[test]
fn unrecognized_length_is_reported() {
    let r = normalize(frame(2, 2, vec![0, 1, 2, 3, 4]));
    assert_eq!(
        r.err(),
        Some(NormalizationError::UnsupportedLength { observed_len: 5, width: 2, height: 2 })
    );
}

#[test]
fn zero_dimensions_fail_fast() {
    let r = normalize(frame(0, 5, Vec::new()));
    assert_eq!(
        r.err(),
        Some(NormalizationError::UnsupportedLength { observed_len: 0, width: 0, height: 5 })
    );
    let r = normalize(frame(4, 0, png_bytes(1, 1)));
    assert!(r.is_err());
}

#[test]
fn hypotheses_come_in_fixed_order() {
    assert_eq!(cascade_hypothesis(0), PixelFormatHypothesis::Rgba8);
    assert_eq!(cascade_hypothesis(1), PixelFormatHypothesis::Rgb8);
    assert_eq!(cascade_hypothesis(2), PixelFormatHypothesis::CompressedContainer);
    assert_eq!(cascade_hypothesis(3), PixelFormatHypothesis::BgraFallback);
}

#[test]
fn bgra_is_reordered() {
    assert_eq!(swap_bgra_pixels(&vec![1, 2, 3, 4, 5, 6, 7, 8]), vec![3, 2, 1, 4, 7, 6, 5, 8]);
    let f = frame(1, 1, vec![9, 8, 7, 6]);
    let img = try_hypothesis(PixelFormatHypothesis::BgraFallback, &f).unwrap();
    assert_eq!(img.pixels, vec![7, 8, 9, 6]);
    assert!(try_hypothesis(PixelFormatHypothesis::Rgb8, &f).is_none());
}

#[test]
fn rgb_expansion_and_flattening() {
    assert_eq!(expand_rgb_pixels(&vec![1, 2, 3]), vec![1, 2, 3, 255]);
    assert_eq!(flatten_rgb(&vec![1, 2, 3, 4, 5, 6, 7, 8]), vec![1, 2, 3, 5, 6, 7]);
}

#[test]
fn garbage_does_not_decode_as_container() {
    assert!(decode_container(&[1, 2, 3, 4, 5]).is_none());
    assert!(decode_container(&png_bytes(2, 2)).is_some());
}

#[test]
fn small_image_is_not_resized() {
    let img = gradient(40, 30);
    let expected = img.pixels.clone();
    let out = constrain(img);
    assert_eq!((out.width, out.height), (40, 30));
    assert_eq!(out.pixels, expected);
}

#[test]
fn constrain_is_idempotent() {
    let once = constrain(gradient(2500, 10));
    assert_eq!((once.width, once.height), (2000, 8));
    assert_eq!(once.pixels.len(), 2000 * 8 * 4);
    let expected = once.pixels.clone();
    let twice = constrain(CanonicalImage { width: once.width, height: once.height, pixels: once.pixels });
    assert_eq!((twice.width, twice.height), (2000, 8));
    assert_eq!(twice.pixels, expected);
}

#[test]
fn tall_image_is_scaled_on_its_height() {
    let out = constrain(gradient(3, 6000));
    assert_eq!((out.width, out.height), (1, 2000));
}

#[test]
fn scenario_a_black_full_hd_frame() {
    let mut bytes = vec![0u8; 1920 * 1080 * 4];
    for p in 0..1920 * 1080 {
        bytes[4 * p + 3] = 255;
    }
    let img = normalize(frame(1920, 1080, bytes)).unwrap();
    assert_eq!((img.width, img.height), (1920, 1080));
    assert!(img.pixels.chunks(4).all(|p| p == [0, 0, 0, 255]));
    let img = constrain(img);
    assert_eq!((img.width, img.height), (1920, 1080));
    let text = encode(&img).unwrap();
    assert!(!text.is_empty());
}

#[test]
fn scenario_b_longer_edge_becomes_max() {
    assert_eq!(MAX_EDGE, 2000);
    assert_eq!(scale_edge(3000, 4000), 1500);
    let out = constrain(gradient(4000, 300));
    assert_eq!((out.width, out.height), (2000, 150));
    assert_eq!(out.pixels.len(), 2000 * 150 * 4);
}

#[test]
fn scaled_edge_rounds_and_stays_positive() {
    assert_eq!(scale_edge(1, 4000), 1);
    assert_eq!(scale_edge(3, 4000), 2);
    assert_eq!(scale_edge(2001, 2001), 2000);
}

#[test]
fn round_trip_keeps_dimensions() {
    let text = encode(&gradient(16, 9)).unwrap();
    assert!(text.len() % 4 == 0);
    assert!(!text.contains(char::is_whitespace));
    let back = decode(&text).unwrap();
    assert_eq!((back.width, back.height), (16, 9));
    assert_eq!(back.pixels.len(), 16 * 9 * 4);
}

#[test]
fn encode_output_is_base64_jpeg() {
    let text = encode(&gradient(4, 4)).unwrap();
    assert!(text.starts_with("/9j/"));
}

#[test]
fn encode_refuses_unencodable_dimensions() {
    let empty = CanonicalImage { width: 0, height: 3, pixels: Vec::new() };
    assert_eq!(encode(&empty), Err(EncodeError::SerializationFailure));
    let wide = CanonicalImage { width: 70000, height: 1, pixels: vec![0; 70000 * 4] };
    assert_eq!(encode(&wide), Err(EncodeError::SerializationFailure));
}

#[test]
fn crop_outside_is_out_of_bounds() {
    let text = encode(&gradient(16, 9)).unwrap();
    assert_eq!(
        crop_region(&text, 100, 100, 4, 4),
        Err(CropError::OutOfBounds { x: 100, y: 100, width: 4, height: 4 })
    );
    assert_eq!(
        crop_region(&text, -1, 0, 4, 4),
        Err(CropError::OutOfBounds { x: -1, y: 0, width: 4, height: 4 })
    );
    assert_eq!(
        crop_region(&text, 14, 0, 4, 4),
        Err(CropError::OutOfBounds { x: 14, y: 0, width: 4, height: 4 })
    );
}

#[test]
fn crop_inside_has_the_requested_size() {
    let text = encode(&gradient(16, 9)).unwrap();
    let part = crop_region(&text, 2, 3, 8, 4).unwrap();
    let back = decode(&part).unwrap();
    assert_eq!((back.width, back.height), (8, 4));
    let whole = crop_region(&text, 0, 0, 16, 9).unwrap();
    assert_eq!(decode(&whole).map(|i| (i.width, i.height)), Some((16, 9)));
}

#[test]
fn crop_copies_the_right_pixels() {
    let img = gradient(5, 4);
    let part = crop_image(&img, 1, 2, 3, 2);
    assert_eq!((part.width, part.height), (3, 2));
    let mut expected = Vec::new();
    for y in 2..4usize {
        for x in 1..4usize {
            let i = (y * 5 + x) * 4;
            expected.extend_from_slice(&img.pixels[i..i + 4]);
        }
    }
    assert_eq!(part.pixels, expected);
}

#[test]
fn crop_of_undecodable_text_fails() {
    assert_eq!(crop_region("not base64!", 0, 0, 1, 1), Err(CropError::DecodeFailure));
    assert_eq!(crop_region("AAECAwQF", 0, 0, 1, 1), Err(CropError::DecodeFailure));
}

#[test]
fn empty_crop_cannot_be_encoded() {
    let text = encode(&gradient(8, 8)).unwrap();
    assert_eq!(
        crop_region(&text, 0, 0, 0, 4),
        Err(CropError::EncodeFailure(EncodeError::SerializationFailure))
    );
}

#[test]
fn frame_runs_through_the_pipeline() {
    let text = frame_to_transport(frame(2, 2, vec![200; 12])).unwrap();
    let back = decode(&text).unwrap();
    assert_eq!((back.width, back.height), (2, 2));
    assert_eq!(
        frame_to_transport(frame(3, 3, vec![1, 2])),
        Err(PipelineError::Normalization(NormalizationError::UnsupportedLength {
            observed_len: 2,
            width: 3,
            height: 3
        }))
    );
}

fn is_transport_text(s: &str) -> bool {
    !s.is_empty()
        && s.len() % 4 == 0
        && s.chars().all(|c| c.is_ascii_alphanumeric() || c == '+' || c == '/' || c == '=')
}

#[test]
fn transport_text_uses_only_base64_characters() {
    assert!(is_transport_text(&encode(&gradient(7, 5)).unwrap()));
    let text = encode(&gradient(16, 9)).unwrap();
    assert!(is_transport_text(&crop_region(&text, 1, 1, 3, 3).unwrap()));
}

#[test]
fn empty_rectangle_on_the_edge_is_within_bounds() {
    let text = encode(&gradient(16, 9)).unwrap();
    assert_eq!(
        crop_region(&text, 16, 0, 0, 9),
        Err(CropError::EncodeFailure(EncodeError::SerializationFailure))
    );
}

#[test]
fn oversized_frame_is_constrained_before_encoding() {
    let img = gradient(2200, 20);
    let text = frame_to_transport(frame(2200, 20, img.pixels)).unwrap();
    assert!(is_transport_text(&text));
    let back = decode(&text).unwrap();
    assert_eq!((back.width, back.height), (2000, 18));
}
