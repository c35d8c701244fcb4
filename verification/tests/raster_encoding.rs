use supertools::raster::{jpeg_bytes_from_rgba, png_bytes_from_rgba, png_rgba_from_bytes};

#[test]
fn png_of_short_buffer_is_refused() {
    let e = png_bytes_from_rgba(2, 2, vec![0; 15]).unwrap_err();
    assert_eq!(e, "无法从 SVG 渲染结果构建图像缓冲");
}

#[test]
fn png_encoding_is_not_the_raw_pixels() {
    let pixels = vec![10u8; 4 * 3 * 3];
    let png = png_bytes_from_rgba(3, 3, pixels.clone()).unwrap();
    assert_ne!(png, pixels);
    assert_eq!(&png[1..4], b"PNG");
}

#[test]
fn jpeg_encoding_starts_with_soi() {
    let jpg = jpeg_bytes_from_rgba(2, 2, vec![200u8; 16], 0).unwrap();
    assert_eq!(&jpg[..2], &[0xFF, 0xD8]);
    let jpg100 = jpeg_bytes_from_rgba(2, 2, vec![200u8; 16], 250).unwrap();
    assert_eq!(&jpg100[..2], &[0xFF, 0xD8]);
}

#[test]
fn jpeg_of_empty_image_fails() {
    let e = jpeg_bytes_from_rgba(0, 5, vec![], 80).unwrap_err();
    assert!(e.starts_with("写入 JPG 失败: "));
    let e = jpeg_bytes_from_rgba(4, 4, vec![0; 10], 80).unwrap_err();
    assert_eq!(e, "无法从 SVG 渲染结果构建图像缓冲");
}

#[test]
fn png_needs_the_exact_pixel_count() {
    let e = png_bytes_from_rgba(1, 1, vec![0; 8]).unwrap_err();
    assert_eq!(e, "无法从 SVG 渲染结果构建图像缓冲");
    let e = png_bytes_from_rgba(0, 0, vec![]).unwrap_err();
    assert!(e.starts_with("编码 PNG 失败: "));
}

#[test]
fn jpeg_accepts_a_longer_buffer() {
    let jpg = jpeg_bytes_from_rgba(1, 1, vec![9u8; 8], 80).unwrap();
    assert_eq!(&jpg[..2], &[0xFF, 0xD8]);
}

#[test]
fn png_round_trip() {
    let pixels = vec![1u8, 2, 3, 255, 4, 5, 6, 128];
    let png = png_bytes_from_rgba(2, 1, pixels.clone()).unwrap();
    assert_eq!(png_rgba_from_bytes(&png, "x: ").unwrap(), (2, 1, pixels));
    assert!(png_rgba_from_bytes(&[1, 2, 3], "解码 PNG 失败: ").unwrap_err().starts_with("解码 PNG 失败: "));
}
