use moyu::png_rgba::{decode_png_rgba, encode_png_rgba, rgba_from_frame, DecodedFrame, PngColor};

fn png_of(width: u32, height: u32, color: png::ColorType, data: &[u8]) -> Vec<u8> {
    let mut out = Vec::new();
    {
        let mut encoder = png::Encoder::new(&mut out, width, height);
        encoder.set_color(color);
        encoder.set_depth(png::BitDepth::Eight);
        let mut writer = encoder.write_header().unwrap();
        writer.write_image_data(data).unwrap();
    }
    out
}

#[test]
fn rgba_round_trips_through_encode_and_decode() {
    let rgba: Vec<u8> = vec![10, 20, 30, 40, 50, 60, 70, 80, 90, 100, 110, 120, 130, 140, 150, 160];
    let bytes = encode_png_rgba(2, 2, &rgba).unwrap();
    assert!(bytes.starts_with(b"\x89PNG\r\n\x1a\n"));
    let (w, h, decoded) = decode_png_rgba(&bytes).unwrap();
    assert_eq!((w, h), (2, 2));
    assert_eq!(decoded, rgba);
}

#[test]
fn rgb_pixels_become_opaque_rgba() {
    let bytes = png_of(2, 1, png::ColorType::Rgb, &[1, 2, 3, 4, 5, 6]);
    let (w, h, rgba) = decode_png_rgba(&bytes).unwrap();
    assert_eq!((w, h), (2, 1));
    assert_eq!(rgba, vec![1, 2, 3, 255, 4, 5, 6, 255]);
}

#[test]
fn grayscale_pixels_are_copied_into_each_channel() {
    let bytes = png_of(3, 1, png::ColorType::Grayscale, &[0, 128, 255]);
    let (_, _, rgba) = decode_png_rgba(&bytes).unwrap();
    assert_eq!(rgba, vec![0, 0, 0, 255, 128, 128, 128, 255, 255, 255, 255, 255]);
}

#[test]
fn grayscale_alpha_keeps_its_alpha() {
    let bytes = png_of(2, 1, png::ColorType::GrayscaleAlpha, &[9, 100, 200, 7]);
    let (_, _, rgba) = decode_png_rgba(&bytes).unwrap();
    assert_eq!(rgba, vec![9, 9, 9, 100, 200, 200, 200, 7]);
}

#[test]
fn oversized_image_is_refused() {
    let data = vec![0u8; 2000 * 1201];
    let bytes = png_of(2000, 1201, png::ColorType::Grayscale, &data);
    assert_eq!(decode_png_rgba(&bytes), Err("image size out of range".to_string()));
}

#[test]
fn image_at_pixel_limit_is_accepted() {
    let data = vec![0u8; 2000 * 1200];
    let bytes = png_of(2000, 1200, png::ColorType::Grayscale, &data);
    let (w, h, rgba) = decode_png_rgba(&bytes).unwrap();
    assert_eq!((w, h, rgba.len()), (2000, 1200, 2000 * 1200 * 4));
}

#[test]
fn garbage_is_not_a_png() {
    assert!(decode_png_rgba(b"not a png at all").is_err());
}

#[test]
fn indexed_and_empty_frames_are_refused() {
    let indexed = DecodedFrame { width: 1, height: 1, color: PngColor::Indexed, data: vec![0] };
    assert_eq!(rgba_from_frame(indexed), Err("indexed png was not expanded".to_string()));
    let empty = DecodedFrame { width: 0, height: 5, color: PngColor::Rgba, data: vec![] };
    assert_eq!(rgba_from_frame(empty), Err("image size out of range".to_string()));
}

#[test]
fn encoding_with_wrong_sample_count_fails() {
    assert!(encode_png_rgba(2, 2, &[0u8; 15]).is_err());
}
