use supertools::png::{inspect_png_bytes, PngError};
use supertools::raster::png_bytes_from_rgba;

const SIGNATURE: [u8; 8] = [137, 80, 78, 71, 13, 10, 26, 10];

fn chunk(kind: &[u8; 4], data: &[u8]) -> Vec<u8> {
    let mut out = Vec::new();
    out.extend_from_slice(&(data.len() as u32).to_be_bytes());
    out.extend_from_slice(kind);
    out.extend_from_slice(data);
    out.extend_from_slice(&[0, 0, 0, 0]);
    out
}

fn png_of(chunks: &[Vec<u8>]) -> Vec<u8> {
    let mut out = SIGNATURE.to_vec();
    for c in chunks {
        out.extend_from_slice(c);
    }
    out
}

#[test]
fn plain_png_is_not_apng() {
    let bytes = png_of(&[chunk(b"IHDR", &[0; 13]), chunk(b"IDAT", &[1, 2, 3]), chunk(b"IEND", &[])]);
    let r = inspect_png_bytes(&bytes).unwrap();
    assert!(!r.is_apng);
}

#[test]
fn actl_chunk_marks_apng() {
    let bytes = png_of(&[chunk(b"IHDR", &[0; 13]), chunk(b"acTL", &[0; 8]), chunk(b"IEND", &[])]);
    assert!(inspect_png_bytes(&bytes).unwrap().is_apng);
}

#[test]
fn actl_after_iend_is_ignored() {
    let bytes = png_of(&[chunk(b"IHDR", &[0; 13]), chunk(b"IEND", &[]), chunk(b"acTL", &[0; 8])]);
    assert!(!inspect_png_bytes(&bytes).unwrap().is_apng);
}

#[test]
fn trailing_bytes_after_iend_change_nothing() {
    let mut bytes = png_of(&[chunk(b"IHDR", &[0; 13]), chunk(b"acTL", &[0; 8]), chunk(b"IEND", &[])]);
    let before = inspect_png_bytes(&bytes).unwrap().is_apng;
    bytes.extend_from_slice(&[0xff, 0xff, 0xff, 0xff, 1, 2, 3, 4, 5, 6, 7, 8, 9]);
    assert_eq!(inspect_png_bytes(&bytes).unwrap().is_apng, before);
}

#[test]
fn wrong_signature_is_not_png() {
    let mut bytes = png_of(&[chunk(b"IHDR", &[0; 13]), chunk(b"IEND", &[])]);
    bytes[1] = b'Q';
    assert_eq!(inspect_png_bytes(&bytes).err(), Some(PngError::NotPng));
    assert_eq!(inspect_png_bytes(&SIGNATURE[..7]).err(), Some(PngError::NotPng));
    assert_eq!(PngError::NotPng.message(), "不是有效的 PNG 文件");
}

#[test]
fn overlong_chunk_is_truncated() {
    let mut bytes = png_of(&[chunk(b"IHDR", &[0; 13])]);
    bytes.extend_from_slice(&[0, 0, 1, 0]);
    bytes.extend_from_slice(b"IDAT");
    bytes.extend_from_slice(&[1, 2, 3]);
    assert_eq!(inspect_png_bytes(&bytes).err(), Some(PngError::Truncated));
    assert_eq!(PngError::Truncated.message(), "PNG 结构不完整");
}

#[test]
fn missing_ihdr_is_reported() {
    let bytes = png_of(&[chunk(b"IDAT", &[1]), chunk(b"IEND", &[])]);
    assert_eq!(inspect_png_bytes(&bytes).err(), Some(PngError::MissingIhdr));
    assert_eq!(inspect_png_bytes(&SIGNATURE).err(), Some(PngError::MissingIhdr));
    assert_eq!(PngError::MissingIhdr.message(), "PNG 缺少 IHDR 头");
}

#[test]
fn short_tail_after_last_chunk_is_ignored() {
    let mut bytes = png_of(&[chunk(b"IHDR", &[0; 13])]);
    bytes.extend_from_slice(&[1, 2, 3, 4, 5, 6, 7]);
    assert!(!inspect_png_bytes(&bytes).unwrap().is_apng);
}

#[test]
fn encoded_png_passes_inspection() {
    let bytes = png_bytes_from_rgba(2, 1, vec![255, 0, 0, 255, 0, 0, 255, 128]).unwrap();
    assert_eq!(&bytes[..8], &SIGNATURE);
    assert!(!inspect_png_bytes(&bytes).unwrap().is_apng);
}
