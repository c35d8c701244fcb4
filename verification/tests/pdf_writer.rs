use supertools::pdf_writer::{
    build_images_pdf_objects, encode_pdf_objects, flatten_image_to_rgb, images_pdf_document,
    pdf_stream_object, RgbaPixels,
};

const HEADER: &[u8] = b"%PDF-1.4\n%\xE2\xE3\xCF\xD3\n";

#[test]
fn stream_object_layout() {
    let r = pdf_stream_object("<< /Length 3 >>".to_string(), b"abc");
    assert_eq!(r, b"<< /Length 3 >>\nstream\nabc\nendstream".to_vec());
}

#[test]
fn single_object_document() {
    let r = encode_pdf_objects(&[b"A".to_vec()]);
    let mut expected = HEADER.to_vec();
    expected.extend_from_slice(b"1 0 obj\nA\nendobj\n");
    expected.extend_from_slice(b"xref\n0 2\n0000000000 65535 f \n0000000015 00000 n \n");
    expected.extend_from_slice(b"trailer\n<< /Size 2 /Root 1 0 R >>\nstartxref\n32\n%%EOF\n");
    assert_eq!(r, expected);
}

#[test]
fn empty_document_has_only_the_free_entry() {
    let r = encode_pdf_objects(&[]);
    let mut expected = HEADER.to_vec();
    expected.extend_from_slice(b"xref\n0 1\n0000000000 65535 f \ntrailer\n<< /Size 1 /Root 1 0 R >>\nstartxref\n15\n%%EOF\n");
    assert_eq!(r, expected);
}

fn find(hay: &[u8], needle: &[u8]) -> usize {
    hay.windows(needle.len()).position(|w| w == needle).unwrap()
}

#[test]
fn xref_offsets_point_at_objects() {
    let objects = vec![b"first".to_vec(), b"second object".to_vec(), Vec::new(), b"x".to_vec()];
    let doc = encode_pdf_objects(&objects);
    let table = find(&doc, b"xref\n");
    let text = String::from_utf8_lossy(&doc[table..]).to_string();
    let lines: Vec<&str> = text.lines().collect();
    for (k, object) in objects.iter().enumerate() {
        let offset: usize = lines[3 + k][..10].parse().unwrap();
        let heading = format!("{} 0 obj\n", k + 1);
        assert_eq!(&doc[offset..offset + heading.len()], heading.as_bytes());
        let start = offset + heading.len();
        assert_eq!(&doc[start..start + object.len()], object.as_slice());
    }
    let pointer: usize = lines[lines.len() - 2].parse().unwrap();
    assert_eq!(pointer, table);
}

#[test]
fn flatten_composes_over_white() {
    let image = RgbaPixels {
        width: 3,
        height: 1,
        data: vec![100, 50, 0, 128, 10, 20, 30, 255, 1, 2, 3, 0],
    };
    let (w, h, rgb) = flatten_image_to_rgb(&image);
    assert_eq!((w, h), (3, 1));
    assert_eq!(rgb, vec![177, 152, 127, 10, 20, 30, 255, 255, 255]);
}

#[test]
fn images_pdf_layout() {
    let images = vec![
        RgbaPixels { width: 1, height: 1, data: vec![255, 0, 0, 255] },
        RgbaPixels { width: 2, height: 1, data: vec![0, 0, 0, 0, 0, 0, 0, 255] },
    ];
    let objects = build_images_pdf_objects(&images);
    assert_eq!(objects.len(), 8);
    assert_eq!(objects[0], b"<< /Type /Catalog /Pages 2 0 R >>".to_vec());
    assert_eq!(objects[1], b"<< /Type /Pages /Kids [5 0 R 8 0 R] /Count 2 >>".to_vec());
    let mut image = b"<< /Type /XObject /Subtype /Image /Width 1 /Height 1 /ColorSpace /DeviceRGB /BitsPerComponent 8 /Length 3 >>\nstream\n".to_vec();
    image.extend_from_slice(&[255, 0, 0]);
    image.extend_from_slice(b"\nendstream");
    assert_eq!(objects[2], image);
    assert_eq!(
        objects[3],
        b"<< /Length 27 >>\nstream\nq\n1 0 0 1 0 0 cm\n/Im1 Do\nQ\n\nendstream".to_vec()
    );
    assert_eq!(
        objects[4],
        b"<< /Type /Page /Parent 2 0 R /MediaBox [0 0 1 1] /Resources << /XObject << /Im1 3 0 R >> >> /Contents 4 0 R >>".to_vec()
    );
    assert_eq!(
        objects[7],
        b"<< /Type /Page /Parent 2 0 R /MediaBox [0 0 2 1] /Resources << /XObject << /Im1 6 0 R >> >> /Contents 7 0 R >>".to_vec()
    );
    let doc = images_pdf_document(&images);
    assert_eq!(doc, encode_pdf_objects(&objects));
}
