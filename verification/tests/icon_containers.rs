use supertools::icon_formats::{build_icns, build_ico, IcnsChunk, SizedPng};

#[test]
fn ico_layout() {
    let images = vec![
        SizedPng { size: 16, png: vec![1, 2, 3] },
        SizedPng { size: 256, png: vec![4, 5] },
    ];
    let ico = build_ico(&images);
    let expected: Vec<u8> = vec![
        0, 0, 1, 0, 2, 0, //
        16, 16, 0, 0, 1, 0, 32, 0, 3, 0, 0, 0, 38, 0, 0, 0, //
        0, 0, 0, 0, 1, 0, 32, 0, 2, 0, 0, 0, 41, 0, 0, 0, //
        1, 2, 3, 4, 5,
    ];
    assert_eq!(ico, expected);
}

#[test]
fn ico_offsets_locate_images() {
    let images: Vec<SizedPng> = (0..7u32)
        .map(|k| SizedPng { size: 16 << k.min(4), png: vec![k as u8; 10 + k as usize * 3] })
        .collect();
    let ico = build_ico(&images);
    for (k, image) in images.iter().enumerate() {
        let entry = &ico[6 + 16 * k..6 + 16 * (k + 1)];
        let len = u32::from_le_bytes([entry[8], entry[9], entry[10], entry[11]]) as usize;
        let off = u32::from_le_bytes([entry[12], entry[13], entry[14], entry[15]]) as usize;
        assert_eq!(len, image.png.len());
        assert_eq!(&ico[off..off + len], image.png.as_slice());
    }
}

#[test]
fn icns_layout_and_length() {
    let chunks = vec![
        IcnsChunk { kind: "icp4", png: vec![1, 2] },
        IcnsChunk { kind: "ic07", png: vec![3] },
    ];
    let icns = build_icns(&chunks);
    let mut expected = b"icns".to_vec();
    expected.extend_from_slice(&[0, 0, 0, 27]);
    expected.extend_from_slice(b"icp4");
    expected.extend_from_slice(&[0, 0, 0, 10, 1, 2]);
    expected.extend_from_slice(b"ic07");
    expected.extend_from_slice(&[0, 0, 0, 9, 3]);
    assert_eq!(icns, expected);
    assert_eq!(u32::from_be_bytes([icns[4], icns[5], icns[6], icns[7]]) as usize, icns.len());
}
