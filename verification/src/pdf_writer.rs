//! The raw PDF writer (objects, cross-reference table, trailer), the
//! image-to-PDF object layout and the flattening of transparent pixels
//! over white.

use vstd::prelude::*;
use crate::text::{push_chars, push_decimal, push_decimal_bytes, push_str_bytes, push_zero_padded_bytes, string_of};

verus! {

/// The views of a list of byte buffers.
pub open spec fn byte_views(objs: Seq<Vec<u8>>) -> Seq<Seq<u8>> {
    objs.map_values(|o: Vec<u8>| o@)
}

/// A stream object: its dictionary, the `stream` keyword, the data and `endstream`.
pub open spec fn stream_object(dictionary: Seq<char>, data: Seq<u8>) -> Seq<u8> {
    crate::text::utf8(dictionary) + crate::text::utf8("\nstream\n"@) + data + crate::text::utf8("\nendstream"@)
}

/// Builds the bytes of a PDF stream object.
pub fn pdf_stream_object(dictionary: String, data: &[u8]) -> (r: Vec<u8>)
    ensures
        r@ == stream_object(dictionary@, data@),
{
    let mut output: Vec<u8> = Vec::new();
    push_str_bytes(&mut output, dictionary.as_str());
    push_str_bytes(&mut output, "\nstream\n");
    output.extend_from_slice(data);
    push_str_bytes(&mut output, "\nendstream");
    assert(output@ =~= stream_object(dictionary@, data@));
    output
}

/// The file header: the version line and a comment of four high bytes.
pub open spec fn pdf_header() -> Seq<u8> {
    seq![37u8, 80u8, 68u8, 70u8, 45u8, 49u8, 46u8, 52u8, 10u8, 37u8, 0xE2u8, 0xE3u8, 0xCFu8, 0xD3u8, 10u8]
}

/// The line that opens object number `i + 1`.
pub open spec fn object_heading(i: nat) -> Seq<u8> {
    crate::text::ascii(crate::text::decimal(i + 1)) + crate::text::utf8(" 0 obj\n"@)
}

/// The `i`-th object (zero-based) as it stands in the file.
pub open spec fn object_block(i: nat, obj: Seq<u8>) -> Seq<u8> {
    object_heading(i) + obj + crate::text::utf8("\nendobj\n"@)
}

/// All objects, numbered from 1, one after the other.
pub open spec fn object_blocks(objs: Seq<Seq<u8>>) -> Seq<u8>
    decreases objs.len(),
{
    if objs.len() == 0 {
        Seq::empty()
    } else {
        object_blocks(objs.drop_last()) + object_block((objs.len() - 1) as nat, objs.last())
    }
}

/// The byte offset of the `i`-th object (zero-based) in the file.
pub open spec fn object_offset(objs: Seq<Seq<u8>>, i: int) -> int {
    (pdf_header().len() + object_blocks(objs.take(i)).len()) as int
}

/// The cross-reference entries of the first `k` objects.
pub open spec fn xref_entries(objs: Seq<Seq<u8>>, k: int) -> Seq<u8>
    decreases k,
{
    if k <= 0 {
        Seq::empty()
    } else {
        xref_entries(objs, k - 1) + crate::text::ascii(crate::text::zero_padded(object_offset(objs, k - 1) as nat, 10))
            + crate::text::utf8(" 00000 n \n"@)
    }
}

/// The complete PDF file made of the objects `objs`, object 1 being the
/// catalog: header, numbered objects, cross-reference table, trailer and the
/// `startxref` pointer to the table.
pub open spec fn pdf_document(objs: Seq<Seq<u8>>) -> Seq<u8> {
    let body = pdf_header() + object_blocks(objs);
    body + crate::text::utf8("xref\n0 "@) + crate::text::ascii(crate::text::decimal(objs.len() + 1)) + crate::text::utf8("\n0000000000 65535 f \n"@)
        + xref_entries(objs, objs.len() as int) + crate::text::utf8("trailer\n<< /Size "@) + crate::text::ascii(
        crate::text::decimal(objs.len() + 1),
    ) + crate::text::utf8(" /Root 1 0 R >>\nstartxref\n"@) + crate::text::ascii(crate::text::decimal(body.len())) + crate::text::utf8("\n%%EOF\n"@)
}

proof fn lemma_blocks_prefix(objs: Seq<Seq<u8>>, j: int)
    requires
        0 <= j <= objs.len(),
    ensures
        object_blocks(objs.take(j)).len() <= object_blocks(objs).len(),
        object_blocks(objs).subrange(0, object_blocks(objs.take(j)).len() as int) == object_blocks(
            objs.take(j),
        ),
    decreases objs.len(),
{
    if j == objs.len() {
        assert(objs.take(j) =~= objs);
        assert(object_blocks(objs).subrange(0, object_blocks(objs).len() as int) =~= object_blocks(objs));
    } else {
        let d = objs.drop_last();
        lemma_blocks_prefix(d, j);
        assert(d.take(j) =~= objs.take(j));
        let p = object_blocks(objs.take(j));
        assert(object_blocks(objs) == object_blocks(d) + object_block((objs.len() - 1) as nat, objs.last()));
        assert(object_blocks(objs).subrange(0, p.len() as int) =~= object_blocks(d).subrange(0, p.len() as int));
    }
}

/// The cross-reference table is right: at the offset it records for each
/// object, the file holds that object's heading `n 0 obj`, the object's
/// bytes and `endobj`.
pub proof fn law_xref_offsets_locate_objects(objs: Seq<Seq<u8>>, i: int)
    requires
        0 <= i < objs.len(),
    ensures
        ({
            let off = object_offset(objs, i);
            let blk = object_block(i as nat, objs[i]);
            pdf_document(objs).subrange(off, off + blk.len()) == blk
        }),
{
    lemma_blocks_prefix(objs, i + 1);
    let t = objs.take(i + 1);
    assert(t.drop_last() =~= objs.take(i));
    assert(t.last() == objs[i]);
    let blk = object_block(i as nat, objs[i]);
    let pre = object_blocks(objs.take(i));
    assert(object_blocks(t) == pre + blk);
    let doc = pdf_document(objs);
    let off = object_offset(objs, i);
    let whole = object_blocks(objs);
    assert(doc.subrange(0, (pdf_header().len() + whole.len()) as int) =~= pdf_header() + whole);
    assert forall|k: int| 0 <= k < blk.len() implies doc.subrange(off, off + blk.len())[k] == blk[k] by {
        assert(doc[off + k] == (pdf_header() + whole)[off + k]);
        assert(whole[pre.len() + k] == object_blocks(t)[pre.len() + k]);
    }
    assert(doc.subrange(off, off + blk.len()) =~= blk);
}

/// The `startxref` pointer is right: it gives the offset at which the
/// cross-reference table (`xref`) begins.
pub proof fn law_startxref_locates_table(objs: Seq<Seq<u8>>)
    ensures
        ({
            let at: int = (pdf_header().len() + object_blocks(objs).len()) as int;
            let head = crate::text::utf8("xref\n0 "@);
            pdf_document(objs).subrange(at, at + head.len()) == head
        }),
{
    let at: int = (pdf_header().len() + object_blocks(objs).len()) as int;
    let head = crate::text::utf8("xref\n0 "@);
    let doc = pdf_document(objs);
    assert forall|k: int| 0 <= k < head.len() implies doc.subrange(at, at + head.len())[k] == head[k] by {
        assert(doc[at + k] == (pdf_header() + object_blocks(objs) + head)[at + k]);
    }
    assert(doc.subrange(at, at + head.len()) =~= head);
}

fn push_object_blocks(out: &mut Vec<u8>, objects: &[Vec<u8>]) -> (offsets: Vec<usize>)
    requires
        old(out)@ == pdf_header(),
        objects@.len() < usize::MAX,
    ensures
        final(out)@ == pdf_header() + object_blocks(byte_views(objects@)),
        offsets@.len() == objects@.len(),
        forall|k: int|
            0 <= k < objects@.len() ==> offsets@[k] == object_offset(byte_views(objects@), k),
{
    let ghost objs = byte_views(objects@);
    let n = objects.len();
    let mut offsets: Vec<usize> = Vec::new();
    let mut index: usize = 0;
    assert(objs.take(0) =~= Seq::<Seq<u8>>::empty());
    while index < n
        invariant
            n == objects@.len() == objs.len(),
            n < usize::MAX,
            objs == byte_views(objects@),
            index <= n,
            out@ == pdf_header() + object_blocks(objs.take(index as int)),
            offsets@.len() == index,
            forall|k: int| 0 <= k < index ==> offsets@[k] == object_offset(objs, k),
        decreases n - index,
    {
        offsets.push(out.len());
        let ghost before = out@;
        push_decimal_bytes(out, (index + 1) as u64);
        push_str_bytes(out, " 0 obj\n");
        out.extend_from_slice(objects[index].as_slice());
        push_str_bytes(out, "\nendobj\n");
        proof {
            assert(objs.take(index + 1).drop_last() =~= objs.take(index as int));
            assert(objs[index as int] == objects@[index as int]@);
            assert(out@ =~= before + object_block(index as nat, objs[index as int]));
        }
        index = index + 1;
    }
    assert(objs.take(n as int) =~= objs);
    offsets
}

fn push_xref_entries(out: &mut Vec<u8>, offsets: &Vec<usize>, Ghost(objs): Ghost<Seq<Seq<u8>>>)
    requires
        offsets@.len() == objs.len(),
        forall|j: int| 0 <= j < objs.len() ==> offsets@[j] == object_offset(objs, j),
    ensures
        final(out)@ == old(out)@ + xref_entries(objs, objs.len() as int),
{
    let n = offsets.len();
    let ghost start = out@;
    let mut k: usize = 0;
    while k < n
        invariant
            n == objs.len() == offsets@.len(),
            k <= n,
            forall|j: int| 0 <= j < n ==> offsets@[j] == object_offset(objs, j),
            out@ == start + xref_entries(objs, k as int),
        decreases n - k,
    {
        push_zero_padded_bytes(out, offsets[k] as u64, 10);
        push_str_bytes(out, " 00000 n \n");
        k = k + 1;
        assert(out@ =~= start + xref_entries(objs, k as int));
    }
}

/// Serializes the objects into a PDF file (header, numbered objects,
/// cross-reference table and trailer).
pub fn encode_pdf_objects(objects: &[Vec<u8>]) -> (r: Vec<u8>)
    requires
        objects@.len() < usize::MAX,
    ensures
        r@ == pdf_document(byte_views(objects@)),
{
    let ghost objs = byte_views(objects@);
    let n = objects.len();
    let mut out: Vec<u8> = vec![37u8, 80u8, 68u8, 70u8, 45u8, 49u8, 46u8, 52u8, 10u8, 37u8, 0xE2u8, 0xE3u8, 0xCFu8, 0xD3u8, 10u8];
    assert(out@ =~= pdf_header());
    let offsets = push_object_blocks(&mut out, objects);
    let xref_position = out.len();
    let ghost body = out@;
    push_str_bytes(&mut out, "xref\n0 ");
    push_decimal_bytes(&mut out, (n as u64) + 1);
    push_str_bytes(&mut out, "\n0000000000 65535 f \n");
    push_xref_entries(&mut out, &offsets, Ghost(objs));
    push_str_bytes(&mut out, "trailer\n<< /Size ");
    push_decimal_bytes(&mut out, (n as u64) + 1);
    push_str_bytes(&mut out, " /Root 1 0 R >>\nstartxref\n");
    push_decimal_bytes(&mut out, xref_position as u64);
    push_str_bytes(&mut out, "\n%%EOF\n");
    out
}


/// A decoded raster image: `width × height` pixels of four bytes (red,
/// green, blue, alpha), row by row.
pub struct RgbaPixels {
    pub width: u32,
    pub height: u32,
    pub data: Vec<u8>,
}

impl RgbaPixels {
    /// The buffer holds exactly `width × height` pixels.
    pub open spec fn wf(&self) -> bool {
        self.data@.len() == 4 * (self.width as int * self.height as int)
    }
}

/// A channel composed over a white background with opacity `a` (out of 255),
/// rounded down.
pub open spec fn over_white(c: u8, a: u8) -> u8 {
    ((c * a + 255 * (255 - a)) / 255) as u8
}

/// The first `n` pixels of `data`, composed over white, three bytes each.
pub open spec fn flattened(data: Seq<u8>, n: nat) -> Seq<u8>
    decreases n,
{
    if n == 0 {
        Seq::empty()
    } else {
        let p = 4 * (n - 1);
        flattened(data, (n - 1) as nat) + seq![
            over_white(data[p], data[p + 3]),
            over_white(data[p + 1], data[p + 3]),
            over_white(data[p + 2], data[p + 3]),
        ]
    }
}

proof fn lemma_over_white_bound(c: u8, a: u8)
    ensures
        c * a + 255 * (255 - a) <= 65025,
        over_white(c, 255) == c,
{
    assert(c * a <= 255 * a) by (nonlinear_arith)
        requires
            c <= 255,
            a >= 0,
    ;
    assert(c * 255 / 255 == c) by (nonlinear_arith);
}

fn blend_over_white(c: u8, a: u8) -> (r: u8)
    ensures
        r == over_white(c, a),
{
    proof {
        lemma_over_white_bound(c, a);
    }
    let alpha = a as u32;
    let inv_alpha = 255u32 - alpha;
    ((c as u32 * alpha + 255 * inv_alpha) / 255) as u8
}

/// Composes every pixel over a white background and drops the alpha
/// channel; returns the dimensions with the RGB bytes.
pub fn flatten_image_to_rgb(image: &RgbaPixels) -> (r: (u32, u32, Vec<u8>))
    requires
        image.wf(),
    ensures
        r.0 == image.width,
        r.1 == image.height,
        r.2@ == flattened(image.data@, image.data@.len() / 4),
{
    let data = &image.data;
    let len = data.len();
    let count = len / 4;
    let mut rgb: Vec<u8> = Vec::new();
    let mut i: usize = 0;
    while i < count
        invariant
            len == data@.len(),
            count == len / 4,
            i <= count,
            rgb@ == flattened(data@, i as nat),
        decreases count - i,
    {
        let p = 4 * i;
        let red = data[p];
        let green = data[p + 1];
        let blue = data[p + 2];
        let a = data[p + 3];
        proof {
            lemma_over_white_bound(red, a);
            lemma_over_white_bound(green, a);
            lemma_over_white_bound(blue, a);
        }
        if a == 255 {
            rgb.push(red);
            rgb.push(green);
            rgb.push(blue);
        } else {
            rgb.push(blend_over_white(red, a));
            rgb.push(blend_over_white(green, a));
            rgb.push(blend_over_white(blue, a));
        }
        i = i + 1;
        assert(rgb@ =~= flattened(data@, i as nat));
    }
    (image.width, image.height, rgb)
}


/// The dictionary of an image XObject of `w × h` RGB pixels and `len` data bytes.
pub open spec fn image_dictionary(w: u32, h: u32, len: nat) -> Seq<char> {
    "<< /Type /XObject /Subtype /Image /Width "@ + crate::text::decimal(w as nat) + " /Height "@ + crate::text::decimal(
        h as nat,
    ) + " /ColorSpace /DeviceRGB /BitsPerComponent 8 /Length "@ + crate::text::decimal(len) + " >>"@
}

/// The content stream that paints the image over a `w × h` page.
pub open spec fn page_content(w: u32, h: u32) -> Seq<char> {
    "q\n"@ + crate::text::decimal(w as nat) + " 0 0 "@ + crate::text::decimal(h as nat) + " 0 0 cm\n/Im1 Do\nQ\n"@
}

/// The dictionary of a stream of `len` bytes.
pub open spec fn length_dictionary(len: nat) -> Seq<char> {
    "<< /Length "@ + crate::text::decimal(len) + " >>"@
}

/// A page of `w × h` points showing image object `image_id` with the
/// content stream `content_id`.
pub open spec fn page_dictionary(w: u32, h: u32, image_id: nat, content_id: nat) -> Seq<char> {
    "<< /Type /Page /Parent 2 0 R /MediaBox [0 0 "@ + crate::text::decimal(w as nat) + " "@ + crate::text::decimal(h as nat)
        + "] /Resources << /XObject << /Im1 "@ + crate::text::decimal(image_id) + " 0 R >> >> /Contents "@
        + crate::text::decimal(content_id) + " 0 R >>"@
}

/// The three objects of the `k`-th image (zero-based): the image, its content
/// stream and its page, numbered `3k + 3`, `3k + 4` and `3k + 5`.
pub open spec fn image_page_objects(w: u32, h: u32, rgb: Seq<u8>, k: nat) -> Seq<Seq<u8>> {
    let content = crate::text::utf8(page_content(w, h));
    seq![
        stream_object(image_dictionary(w, h, rgb.len()), rgb),
        stream_object(length_dictionary(content.len()), content),
        crate::text::utf8(page_dictionary(w, h, 3 * k + 3, 3 * k + 4)),
    ]
}

/// The RGB bytes of an image composed over white.
pub open spec fn flat_rgb(img: RgbaPixels) -> Seq<u8> {
    flattened(img.data@, img.data@.len() / 4)
}

/// The objects of the first `n` images.
pub open spec fn image_pages(images: Seq<RgbaPixels>, n: nat) -> Seq<Seq<u8>>
    decreases n,
{
    if n == 0 {
        Seq::empty()
    } else {
        let img = images[n - 1];
        image_pages(images, (n - 1) as nat) + image_page_objects(
            img.width,
            img.height,
            flat_rgb(img),
            (n - 1) as nat,
        )
    }
}

/// The reference to the page of the `k`-th image.
pub open spec fn page_reference(k: nat) -> Seq<char> {
    crate::text::decimal(3 * k + 5) + " 0 R"@
}

/// The references to the first `n` pages, separated by spaces.
pub open spec fn page_references(n: nat) -> Seq<char>
    decreases n,
{
    if n == 0 {
        Seq::empty()
    } else if n == 1 {
        page_reference(0)
    } else {
        page_references((n - 1) as nat) + " "@ + page_reference((n - 1) as nat)
    }
}

/// The page tree over `n` pages.
pub open spec fn pages_dictionary(n: nat) -> Seq<char> {
    "<< /Type /Pages /Kids ["@ + page_references(n) + "] /Count "@ + crate::text::decimal(n) + " >>"@
}

/// The objects of a PDF with one page per image: the catalog, the page
/// tree, then image, content stream and page of each image in turn.
pub open spec fn images_pdf_objects(images: Seq<RgbaPixels>) -> Seq<Seq<u8>> {
    seq![crate::text::utf8("<< /Type /Catalog /Pages 2 0 R >>"@), crate::text::utf8(pages_dictionary(images.len()))]
        + image_pages(images, images.len())
}

fn push_decimal_u64(out: &mut Vec<char>, n: u64)
    ensures
        final(out)@ == old(out)@ + crate::text::decimal(n as nat),
{
    push_decimal(out, n);
}

fn image_objects_of(image: &RgbaPixels, k: usize) -> (r: (Vec<u8>, Vec<u8>, Vec<u8>))
    requires
        image.wf(),
        3 * k + 5 <= u64::MAX,
    ensures
        seq![r.0@, r.1@, r.2@] == image_page_objects(
            image.width,
            image.height,
            flat_rgb(*image),
            k as nat,
        ),
{
    let (width, height, rgb) = flatten_image_to_rgb(image);
    let mut dict: Vec<char> = Vec::new();
    push_chars(&mut dict, "<< /Type /XObject /Subtype /Image /Width ");
    push_decimal_u64(&mut dict, width as u64);
    push_chars(&mut dict, " /Height ");
    push_decimal_u64(&mut dict, height as u64);
    push_chars(&mut dict, " /ColorSpace /DeviceRGB /BitsPerComponent 8 /Length ");
    push_decimal_u64(&mut dict, rgb.len() as u64);
    push_chars(&mut dict, " >>");
    assert(dict@ =~= image_dictionary(width, height, rgb@.len()));
    let image_object = pdf_stream_object(string_of(dict), rgb.as_slice());

    let mut content: Vec<char> = Vec::new();
    push_chars(&mut content, "q\n");
    push_decimal_u64(&mut content, width as u64);
    push_chars(&mut content, " 0 0 ");
    push_decimal_u64(&mut content, height as u64);
    push_chars(&mut content, " 0 0 cm\n/Im1 Do\nQ\n");
    assert(content@ =~= page_content(width, height));
    let content_string = string_of(content);
    let content_bytes = content_string.as_str().as_bytes();
    let mut cdict: Vec<char> = Vec::new();
    push_chars(&mut cdict, "<< /Length ");
    push_decimal_u64(&mut cdict, content_bytes.len() as u64);
    push_chars(&mut cdict, " >>");
    assert(cdict@ =~= length_dictionary(crate::text::utf8(page_content(width, height)).len()));
    let content_object = pdf_stream_object(string_of(cdict), content_bytes);

    let mut page: Vec<char> = Vec::new();
    push_chars(&mut page, "<< /Type /Page /Parent 2 0 R /MediaBox [0 0 ");
    push_decimal_u64(&mut page, width as u64);
    push_chars(&mut page, " ");
    push_decimal_u64(&mut page, height as u64);
    push_chars(&mut page, "] /Resources << /XObject << /Im1 ");
    push_decimal_u64(&mut page, 3 * (k as u64) + 3);
    push_chars(&mut page, " 0 R >> >> /Contents ");
    push_decimal_u64(&mut page, 3 * (k as u64) + 4);
    push_chars(&mut page, " 0 R >>");
    assert(page@ =~= page_dictionary(width, height, (3 * k + 3) as nat, (3 * k + 4) as nat));
    let page_string = string_of(page);
    let mut page_object: Vec<u8> = Vec::new();
    push_str_bytes(&mut page_object, page_string.as_str());
    assert(page_object@ =~= crate::text::utf8(page_string@));
    (image_object, content_object, page_object)
}


fn pages_dictionary_bytes(n: usize) -> (r: Vec<u8>)
    requires
        3 * n + 5 <= u64::MAX,
    ensures
        r@ == crate::text::utf8(pages_dictionary(n as nat)),
{
    let mut kids: Vec<char> = Vec::new();
    let mut k: usize = 0;
    while k < n
        invariant
            k <= n,
            3 * n + 5 <= u64::MAX,
            kids@ == page_references(k as nat),
        decreases n - k,
    {
        if k > 0 {
            push_chars(&mut kids, " ");
        }
        push_decimal_u64(&mut kids, 3 * (k as u64) + 5);
        push_chars(&mut kids, " 0 R");
        k = k + 1;
        assert(kids@ =~= page_references(k as nat));
    }
    let mut dict: Vec<char> = Vec::new();
    push_chars(&mut dict, "<< /Type /Pages /Kids [");
    let mut i: usize = 0;
    while i < kids.len()
        invariant
            i <= kids@.len(),
            dict@ == "<< /Type /Pages /Kids ["@ + kids@.take(i as int),
        decreases kids@.len() - i,
    {
        dict.push(kids[i]);
        i = i + 1;
        assert(dict@ =~= "<< /Type /Pages /Kids ["@ + kids@.take(i as int));
    }
    assert(kids@.take(kids@.len() as int) =~= kids@);
    push_chars(&mut dict, "] /Count ");
    push_decimal_u64(&mut dict, n as u64);
    push_chars(&mut dict, " >>");
    assert(dict@ =~= pages_dictionary(n as nat));
    let text = string_of(dict);
    let mut bytes: Vec<u8> = Vec::new();
    push_str_bytes(&mut bytes, text.as_str());
    assert(bytes@ =~= crate::text::utf8(text@));
    bytes
}

/// The objects of a PDF with one page per image, each image composed over
/// white: catalog, page tree, then image, content stream and page per image.
pub fn build_images_pdf_objects(images: &Vec<RgbaPixels>) -> (r: Vec<Vec<u8>>)
    requires
        forall|k: int| 0 <= k < images@.len() ==> (#[trigger] images@[k]).wf(),
        3 * images@.len() + 5 <= u64::MAX,
    ensures
        byte_views(r@) == images_pdf_objects(images@),
{
    let n = images.len();
    let mut catalog: Vec<u8> = Vec::new();
    push_str_bytes(&mut catalog, "<< /Type /Catalog /Pages 2 0 R >>");
    let mut objects: Vec<Vec<u8>> = Vec::new();
    objects.push(catalog);
    objects.push(pages_dictionary_bytes(n));
    let ghost head = byte_views(objects@);
    assert(head =~= seq![crate::text::utf8("<< /Type /Catalog /Pages 2 0 R >>"@), crate::text::utf8(pages_dictionary(n as nat))]);
    let mut k: usize = 0;
    while k < n
        invariant
            n == images@.len(),
            k <= n,
            3 * n + 5 <= u64::MAX,
            forall|j: int| 0 <= j < images@.len() ==> (#[trigger] images@[j]).wf(),
            head == seq![crate::text::utf8("<< /Type /Catalog /Pages 2 0 R >>"@), crate::text::utf8(pages_dictionary(n as nat))],
            byte_views(objects@) == head + image_pages(images@, k as nat),
        decreases n - k,
    {
        let (image_object, content_object, page_object) = image_objects_of(&images[k], k);
        let ghost trio = seq![image_object@, content_object@, page_object@];
        let ghost before = byte_views(objects@);
        objects.push(image_object);
        objects.push(content_object);
        objects.push(page_object);
        k = k + 1;
        assert(byte_views(objects@) =~= before + trio);
        assert(byte_views(objects@) =~= head + image_pages(images@, k as nat));
    }
    objects
}

proof fn lemma_image_pages_len(images: Seq<RgbaPixels>, n: nat)
    ensures
        image_pages(images, n).len() == 3 * n,
    decreases n,
{
    if n > 0 {
        lemma_image_pages_len(images, (n - 1) as nat);
    }
}

/// The bytes of a PDF with one page per image.
pub fn images_pdf_document(images: &Vec<RgbaPixels>) -> (r: Vec<u8>)
    requires
        forall|k: int| 0 <= k < images@.len() ==> (#[trigger] images@[k]).wf(),
        3 * images@.len() + 5 <= usize::MAX,
    ensures
        r@ == pdf_document(images_pdf_objects(images@)),
{
    let objects = build_images_pdf_objects(images);
    proof {
        lemma_image_pages_len(images@, images@.len());
        assert(byte_views(objects@).len() == objects@.len());
    }
    encode_pdf_objects(objects.as_slice())
}


/// Flattening keeps opaque colours and turns fully transparent pixels white.
pub proof fn law_flatten_opaque_and_transparent(c: u8)
    ensures
        over_white(c, 255) == c,
        over_white(c, 0) == 255,
{
    lemma_over_white_bound(c, 255);
    assert(c * 0 == 0) by (nonlinear_arith);
}


proof fn lemma_image_pages_index(images: Seq<RgbaPixels>, n: nat, k: int, j: int)
    requires
        n <= images.len(),
        0 <= k < n,
        0 <= j < 3,
    ensures
        image_pages(images, n)[3 * k + j] == image_page_objects(
            images[k].width,
            images[k].height,
            flat_rgb(images[k]),
            k as nat,
        )[j],
    decreases n,
{
    let m = (n - 1) as nat;
    lemma_image_pages_len(images, m);
    let img = images[m as int];
    let last = image_page_objects(img.width, img.height, flat_rgb(img), m);
    assert(image_pages(images, n) == image_pages(images, m) + last);
    if k < m {
        lemma_image_pages_index(images, m, k, j);
        assert(image_pages(images, n)[3 * k + j] == image_pages(images, m)[3 * k + j]);
    } else {
        assert(image_pages(images, n)[3 * k + j] == last[j]);
    }
}

/// The text that follows the `MediaBox` size in a page dictionary.
pub open spec fn page_dictionary_tail(image_id: nat, content_id: nat) -> Seq<char> {
    "] /Resources << /XObject << /Im1 "@ + crate::text::decimal(image_id) + " 0 R >> >> /Contents "@
        + crate::text::decimal(content_id) + " 0 R >>"@
}

proof fn lemma_page_dictionary_split(w: u32, h: u32, image_id: nat, content_id: nat)
    ensures
        page_dictionary(w, h, image_id, content_id) == "<< /Type /Page /Parent 2 0 R /MediaBox [0 0 "@
            + crate::text::decimal(w as nat) + " "@ + crate::text::decimal(h as nat)
            + page_dictionary_tail(image_id, content_id),
        page_dictionary_tail(image_id, content_id)[0] == ']',
{
    assert(page_dictionary(w, h, image_id, content_id) =~= "<< /Type /Page /Parent 2 0 R /MediaBox [0 0 "@
        + crate::text::decimal(w as nat) + " "@ + crate::text::decimal(h as nat)
        + page_dictionary_tail(image_id, content_id));
    reveal_strlit("] /Resources << /XObject << /Im1 ");
}

/// Each page shows its image over the whole page, undistorted: the page's
/// `MediaBox` is `[0 0 W H]` with `W` and `H` the image's width and height,
/// and its content stream scales the unit square by exactly that `W` and
/// `H` (`W 0 0 H 0 0 cm`) before painting the image.
pub proof fn law_pages_fit_their_images(images: Seq<RgbaPixels>, k: int)
    requires
        0 <= k < images.len(),
    ensures
        images_pdf_objects(images)[3 * k + 3] == stream_object(
            "<< /Length "@ + crate::text::decimal(crate::text::utf8("q\n"@ + crate::text::decimal(images[k].width as nat)
                + " 0 0 "@ + crate::text::decimal(images[k].height as nat) + " 0 0 cm\n/Im1 Do\nQ\n"@).len()) + " >>"@,
            crate::text::utf8("q\n"@ + crate::text::decimal(images[k].width as nat) + " 0 0 "@
                + crate::text::decimal(images[k].height as nat) + " 0 0 cm\n/Im1 Do\nQ\n"@),
        ),
        exists|rest: Seq<char>| rest.len() > 0 && rest[0] == ']' && #[trigger] images_pdf_objects(images)[3 * k + 4]
            == crate::text::utf8("<< /Type /Page /Parent 2 0 R /MediaBox [0 0 "@
                + crate::text::decimal(images[k].width as nat) + " "@ + crate::text::decimal(images[k].height as nat) + rest),
{
    let objs = images_pdf_objects(images);
    let n = images.len();
    lemma_image_pages_len(images, n);
    lemma_image_pages_index(images, n, k, 1);
    lemma_image_pages_index(images, n, k, 2);
    assert(objs[3 * k + 3] == image_pages(images, n)[3 * k + 1]);
    assert(objs[3 * k + 4] == image_pages(images, n)[3 * k + 2]);
    let tail = page_dictionary_tail((3 * k + 3) as nat, (3 * k + 4) as nat);
    lemma_page_dictionary_split(images[k].width, images[k].height, (3 * k + 3) as nat, (3 * k + 4) as nat);
    assert(tail.len() > 0 && tail[0] == ']');
}

} // verus!
