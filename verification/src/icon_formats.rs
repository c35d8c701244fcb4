//! Container formats of icon files built from already encoded PNG images:
//! Windows `.ico` and Apple `.icns`, plus PNG encoding of RGBA pixels.

use vstd::prelude::*;
use crate::text::push_str_bytes;

verus! {

/// The two little-endian bytes of `x mod 2^16`.
pub open spec fn u16_le(x: nat) -> Seq<u8> {
    seq![(x % 256) as u8, (x / 256 % 256) as u8]
}

/// The four little-endian bytes of `x mod 2^32`.
pub open spec fn u32_le(x: nat) -> Seq<u8> {
    seq![(x % 256) as u8, (x / 256 % 256) as u8, (x / 65536 % 256) as u8, (x / 16777216 % 256) as u8]
}

/// The four big-endian bytes of `x mod 2^32`.
pub open spec fn u32_be(x: nat) -> Seq<u8> {
    seq![(x / 16777216 % 256) as u8, (x / 65536 % 256) as u8, (x / 256 % 256) as u8, (x % 256) as u8]
}

fn push_u16_le(out: &mut Vec<u8>, x: u64)
    ensures
        final(out)@ == old(out)@ + u16_le(x as nat),
{
    out.push((x % 256) as u8);
    out.push((x / 256 % 256) as u8);
    assert(final(out)@ =~= old(out)@ + u16_le(x as nat));
}

fn push_u32_le(out: &mut Vec<u8>, x: u64)
    ensures
        final(out)@ == old(out)@ + u32_le(x as nat),
{
    out.push((x % 256) as u8);
    out.push((x / 256 % 256) as u8);
    out.push((x / 65536 % 256) as u8);
    out.push((x / 16777216 % 256) as u8);
    assert(final(out)@ =~= old(out)@ + u32_le(x as nat));
}

fn push_u32_be(out: &mut Vec<u8>, x: u64)
    ensures
        final(out)@ == old(out)@ + u32_be(x as nat),
{
    out.push((x / 16777216 % 256) as u8);
    out.push((x / 65536 % 256) as u8);
    out.push((x / 256 % 256) as u8);
    out.push((x % 256) as u8);
    assert(final(out)@ =~= old(out)@ + u32_be(x as nat));
}

/// An image inside an icon container: its edge in pixels and its PNG bytes.
pub struct SizedPng {
    pub size: u32,
    pub png: Vec<u8>,
}

/// The edge as an `.ico` directory records it: 256 and more are written 0.
pub open spec fn ico_dimension(size: u32) -> u8 {
    if size >= 256 {
        0
    } else {
        size as u8
    }
}

/// Total length of the PNG data of the first `k` images.
pub open spec fn png_bytes_before(images: Seq<SizedPng>, k: int) -> int
    decreases k,
{
    if k <= 0 {
        0
    } else {
        png_bytes_before(images, k - 1) + images[k - 1].png@.len()
    }
}

/// Where the `k`-th image's data begins in an `.ico` of `images`.
pub open spec fn ico_offset(images: Seq<SizedPng>, k: int) -> int {
    6 + 16 * images.len() + png_bytes_before(images, k)
}

/// The 16-byte directory entry of one image.
pub open spec fn ico_entry(size: u32, len: nat, offset: nat) -> Seq<u8> {
    seq![ico_dimension(size), ico_dimension(size), 0u8, 0u8] + u16_le(1) + u16_le(32) + u32_le(len)
        + u32_le(offset)
}

/// The directory entries of the first `k` images.
pub open spec fn ico_directory(images: Seq<SizedPng>, k: int) -> Seq<u8>
    decreases k,
{
    if k <= 0 {
        Seq::empty()
    } else {
        ico_directory(images, k - 1) + ico_entry(
            images[k - 1].size,
            images[k - 1].png@.len(),
            ico_offset(images, k - 1) as nat,
        )
    }
}

/// The PNG data of the first `k` images, one after the other.
pub open spec fn png_data(images: Seq<SizedPng>, k: int) -> Seq<u8>
    decreases k,
{
    if k <= 0 {
        Seq::empty()
    } else {
        png_data(images, k - 1) + images[k - 1].png@
    }
}

/// An `.ico` file holding `images` as PNG entries: header (reserved, type 1,
/// count), directory, then the image data.
pub open spec fn ico_file(images: Seq<SizedPng>) -> Seq<u8> {
    u16_le(0) + u16_le(1) + u16_le(images.len()) + ico_directory(images, images.len() as int)
        + png_data(images, images.len() as int)
}

proof fn lemma_png_data_len(images: Seq<SizedPng>, k: int)
    requires
        0 <= k <= images.len(),
    ensures
        png_data(images, k).len() == png_bytes_before(images, k),
        ico_directory(images, k).len() == 16 * k,
    decreases k,
{
    if k > 0 {
        lemma_png_data_len(images, k - 1);
    }
}

/// Assembles an `.ico` file from PNG images.
pub fn build_ico(images: &Vec<SizedPng>) -> (r: Vec<u8>)
    requires
        ico_offset(images@, images@.len() as int) <= usize::MAX,
    ensures
        r@ == ico_file(images@),
{
    let n = images.len();
    let mut ico: Vec<u8> = Vec::new();
    push_u16_le(&mut ico, 0);
    push_u16_le(&mut ico, 1);
    push_u16_le(&mut ico, n as u64);
    let ghost head = ico@;
    proof {
        lemma_png_bytes_before_monotone(images@, 0, n as int);
    }
    let mut offset: u64 = 6 + 16 * (n as u64);
    let mut k: usize = 0;
    proof {
        lemma_png_data_len(images@, n as int);
    }
    while k < n
        invariant
            n == images@.len(),
            k <= n,
            ico_offset(images@, n as int) <= usize::MAX,
            offset == ico_offset(images@, k as int),
            ico@ == head + ico_directory(images@, k as int),
        decreases n - k,
    {
        proof {
            lemma_png_bytes_before_monotone(images@, k as int + 1, n as int);
        }
        let item = &images[k];
        let dim: u8 = if item.size >= 256 { 0 } else { item.size as u8 };
        ico.push(dim);
        ico.push(dim);
        ico.push(0);
        ico.push(0);
        push_u16_le(&mut ico, 1);
        push_u16_le(&mut ico, 32);
        push_u32_le(&mut ico, item.png.len() as u64);
        push_u32_le(&mut ico, offset);
        offset = offset + item.png.len() as u64;
        k = k + 1;
        assert(ico@ =~= head + ico_directory(images@, k as int));
    }
    let ghost dir = ico@;
    let mut j: usize = 0;
    while j < n
        invariant
            n == images@.len(),
            j <= n,
            ico@ == dir + png_data(images@, j as int),
        decreases n - j,
    {
        ico.extend_from_slice(images[j].png.as_slice());
        j = j + 1;
        assert(ico@ =~= dir + png_data(images@, j as int));
    }
    ico
}

proof fn lemma_png_bytes_before_monotone(images: Seq<SizedPng>, i: int, j: int)
    requires
        0 <= i <= j,
    ensures
        0 <= png_bytes_before(images, i) <= png_bytes_before(images, j),
    decreases j,
{
    if i < j {
        lemma_png_bytes_before_monotone(images, i, j - 1);
    } else if i > 0 {
        lemma_png_bytes_before_monotone(images, i - 1, i - 1);
    }
}

proof fn lemma_png_data_prefix(images: Seq<SizedPng>, j: int, n: int)
    requires
        0 <= j <= n <= images.len(),
    ensures
        png_data(images, j).len() <= png_data(images, n).len(),
        png_data(images, n).subrange(0, png_data(images, j).len() as int) == png_data(images, j),
    decreases n,
{
    if j == n {
        assert(png_data(images, n).subrange(0, png_data(images, n).len() as int) =~= png_data(images, n));
    } else {
        lemma_png_data_prefix(images, j, n - 1);
        let p = png_data(images, j);
        assert(png_data(images, n).subrange(0, p.len() as int) =~= png_data(images, n - 1).subrange(0, p.len() as int));
    }
}

/// The `.ico` directory is right: at the offset recorded for each image the
/// file holds that image's PNG bytes, as many as its entry records.
pub proof fn law_ico_offsets_locate_images(images: Seq<SizedPng>, k: int)
    requires
        0 <= k < images.len(),
    ensures
        ({
            let off = ico_offset(images, k);
            ico_file(images).subrange(off, off + images[k].png@.len()) == images[k].png@
        }),
{
    let n = images.len() as int;
    lemma_png_data_len(images, n);
    lemma_png_data_len(images, k);
    lemma_png_data_prefix(images, k + 1, n);
    let file = ico_file(images);
    let head = u16_le(0) + u16_le(1) + u16_le(images.len()) + ico_directory(images, n);
    assert(head.len() == 6 + 16 * n);
    let data = png_data(images, n);
    let pre = png_data(images, k);
    let png = images[k].png@;
    assert(png_data(images, k + 1) == pre + png);
    let off = ico_offset(images, k);
    assert forall|i: int| 0 <= i < png.len() implies file.subrange(off, off + png.len())[i] == png[i] by {
        assert(file[off + i] == data[pre.len() + i]);
        assert(data[pre.len() + i] == png_data(images, k + 1)[pre.len() + i]);
    }
    assert(file.subrange(off, off + png.len()) =~= png);
}

/// A chunk of an `.icns` file: its four-character type and its PNG bytes.
pub struct IcnsChunk {
    pub kind: &'static str,
    pub png: Vec<u8>,
}

/// The sum of `8 + len` over the first `k` chunks, plus the 8-byte file header.
pub open spec fn icns_total(chunks: Seq<IcnsChunk>, k: int) -> int
    decreases k,
{
    if k <= 0 {
        8
    } else {
        icns_total(chunks, k - 1) + 8 + chunks[k - 1].png@.len()
    }
}

/// The first `k` chunks: type, big-endian length (header included), data.
pub open spec fn icns_chunks(chunks: Seq<IcnsChunk>, k: int) -> Seq<u8>
    decreases k,
{
    if k <= 0 {
        Seq::empty()
    } else {
        icns_chunks(chunks, k - 1) + crate::text::utf8(chunks[k - 1].kind@) + u32_be(
            (8 + chunks[k - 1].png@.len()) as nat,
        ) + chunks[k - 1].png@
    }
}

/// An `.icns` file: magic `icns`, big-endian total length, then the chunks.
pub open spec fn icns_file(chunks: Seq<IcnsChunk>) -> Seq<u8> {
    crate::text::utf8("icns"@) + u32_be(icns_total(chunks, chunks.len() as int) as nat) + icns_chunks(
        chunks,
        chunks.len() as int,
    )
}

proof fn lemma_icns_total_grows(chunks: Seq<IcnsChunk>, i: int, j: int)
    requires
        0 <= i <= j,
    ensures
        8 <= icns_total(chunks, i) <= icns_total(chunks, j),
    decreases j,
{
    if i < j {
        lemma_icns_total_grows(chunks, i, j - 1);
    } else if i > 0 {
        lemma_icns_total_grows(chunks, i - 1, i - 1);
    }
}

/// Assembles an `.icns` file from typed PNG chunks.
pub fn build_icns(chunks: &Vec<IcnsChunk>) -> (r: Vec<u8>)
    requires
        icns_total(chunks@, chunks@.len() as int) <= u32::MAX,
    ensures
        r@ == icns_file(chunks@),
{
    let n = chunks.len();
    let mut total_len: u32 = 8;
    let mut k: usize = 0;
    while k < n
        invariant
            n == chunks@.len(),
            k <= n,
            icns_total(chunks@, n as int) <= u32::MAX,
            total_len == icns_total(chunks@, k as int),
        decreases n - k,
    {
        proof {
            lemma_icns_total_grows(chunks@, k as int + 1, n as int);
        }
        let chunk_len = (8 + chunks[k].png.len()) as u32;
        total_len = total_len + chunk_len;
        k = k + 1;
    }
    let mut icns: Vec<u8> = Vec::new();
    push_str_bytes(&mut icns, "icns");
    push_u32_be(&mut icns, total_len as u64);
    let ghost head = icns@;
    let mut j: usize = 0;
    while j < n
        invariant
            n == chunks@.len(),
            j <= n,
            icns_total(chunks@, n as int) <= u32::MAX,
            icns@ == head + icns_chunks(chunks@, j as int),
        decreases n - j,
    {
        proof {
            lemma_icns_total_grows(chunks@, j as int + 1, n as int);
            lemma_icns_total_grows(chunks@, j as int, j as int);
        }
        let chunk = &chunks[j];
        assert(icns_total(chunks@, j as int + 1) == icns_total(chunks@, j as int) + 8 + chunk.png@.len());
        push_str_bytes(&mut icns, chunk.kind);
        push_u32_be(&mut icns, (8 + chunk.png.len()) as u64);
        icns.extend_from_slice(chunk.png.as_slice());
        j = j + 1;
        assert(icns@ =~= head + icns_chunks(chunks@, j as int));
    }
    icns
}

proof fn lemma_icns_chunks_len(chunks: Seq<IcnsChunk>, k: int)
    requires
        0 <= k <= chunks.len(),
        forall|i: int| 0 <= i < chunks.len() ==> crate::text::utf8((#[trigger] chunks[i]).kind@).len() == 4,
    ensures
        icns_chunks(chunks, k).len() + 8 == icns_total(chunks, k),
    decreases k,
{
    if k > 0 {
        lemma_icns_chunks_len(chunks, k - 1);
        assert(crate::text::utf8(chunks[k - 1].kind@).len() == 4);
    }
}

/// The length that an `.icns` file records in its header is its own length,
/// when every chunk type is four bytes long.
pub proof fn law_icns_length_field(chunks: Seq<IcnsChunk>)
    requires
        forall|i: int| 0 <= i < chunks.len() ==> crate::text::utf8((#[trigger] chunks[i]).kind@).len() == 4,
    ensures
        icns_file(chunks).len() == icns_total(chunks, chunks.len() as int),
{
    lemma_icns_chunks_len(chunks, chunks.len() as int);
    reveal_strlit("icns");
    vstd::utf8::is_ascii_chars_encode_utf8("icns"@);
}

} // verus!
