//! Structural inspection of PNG files: signature, chunk walk up to `IEND`,
//! presence of `IHDR` and detection of animated PNG (`acTL`).

use vstd::prelude::*;

verus! {

/// What the inspection of a well-formed PNG reports.
pub struct PngInspection {
    pub is_apng: bool,
}

/// Why a byte string is not accepted as a PNG.
#[derive(Debug, Clone, Copy, PartialEq, Eq, Structural)]
pub enum PngError {
    /// The eight-byte signature is missing.
    NotPng,
    /// A chunk announces more bytes than the file holds.
    Truncated,
    /// No `IHDR` chunk was met before the walk ended.
    MissingIhdr,
}

/// The PNG file signature.
pub open spec fn png_signature() -> Seq<u8> {
    seq![137u8, 80u8, 78u8, 71u8, 13u8, 10u8, 26u8, 10u8]
}

pub open spec fn tag_ihdr() -> Seq<u8> {
    seq![73u8, 72u8, 68u8, 82u8]
}

pub open spec fn tag_actl() -> Seq<u8> {
    seq![97u8, 99u8, 84u8, 76u8]
}

pub open spec fn tag_iend() -> Seq<u8> {
    seq![73u8, 69u8, 78u8, 68u8]
}

/// The big-endian 32-bit number stored at `b[i..i + 4]`.
pub open spec fn be_u32_at(b: Seq<u8>, i: int) -> int {
    b[i] * 16777216 + b[i + 1] * 65536 + b[i + 2] * 256 + b[i + 3]
}

/// The end of a chunk walk: either a chunk overran the file, or the walk
/// stopped with what it had seen of `IHDR` and `acTL`.
pub enum ChunkWalk {
    Overrun,
    Finished { has_ihdr: bool, is_apng: bool },
}

/// The chunk walk from offset `off`: while a chunk header (length and type)
/// fits, the chunk must fit whole; its type is noted and the walk moves past
/// it, stopping after an `IEND` chunk.
pub open spec fn chunk_walk(b: Seq<u8>, off: int, has_ihdr: bool, is_apng: bool) -> ChunkWalk
    decreases b.len() - off,
{
    if 0 <= off && off + 8 <= b.len() {
        let len = be_u32_at(b, off);
        if off + 12 + len > b.len() {
            ChunkWalk::Overrun
        } else {
            let tag = b.subrange(off + 4, off + 8);
            let ihdr = has_ihdr || tag == tag_ihdr();
            let apng = is_apng || tag == tag_actl();
            if tag == tag_iend() {
                ChunkWalk::Finished { has_ihdr: ihdr, is_apng: apng }
            } else {
                chunk_walk(b, off + 12 + len, ihdr, apng)
            }
        }
    } else {
        ChunkWalk::Finished { has_ihdr, is_apng }
    }
}

/// What inspecting the bytes `b` of a file gives.
pub open spec fn png_inspection(b: Seq<u8>) -> Result<PngInspection, PngError> {
    if b.len() < 8 || b.take(8) != png_signature() {
        Err(PngError::NotPng)
    } else {
        match chunk_walk(b, 8, false, false) {
            ChunkWalk::Overrun => Err(PngError::Truncated),
            ChunkWalk::Finished { has_ihdr, is_apng } => if has_ihdr {
                Ok(PngInspection { is_apng })
            } else {
                Err(PngError::MissingIhdr)
            },
        }
    }
}

/// The chunk walk from `off` meets an `IEND` chunk whose bytes all lie inside `b`.
pub open spec fn walk_reaches_iend(b: Seq<u8>, off: int) -> bool
    decreases b.len() - off,
{
    if 0 <= off && off + 8 <= b.len() {
        let len = be_u32_at(b, off);
        if off + 12 + len > b.len() {
            false
        } else if b.subrange(off + 4, off + 8) == tag_iend() {
            true
        } else {
            walk_reaches_iend(b, off + 12 + len)
        }
    } else {
        false
    }
}

proof fn lemma_walk_ignores_tail(b: Seq<u8>, extra: Seq<u8>, off: int, has_ihdr: bool, is_apng: bool)
    requires
        walk_reaches_iend(b, off),
    ensures
        walk_reaches_iend(b + extra, off),
        chunk_walk(b + extra, off, has_ihdr, is_apng) == chunk_walk(b, off, has_ihdr, is_apng),
    decreases b.len() - off,
{
    let c = b + extra;
    let len = be_u32_at(b, off);
    assert(be_u32_at(c, off) == len);
    assert(c.subrange(off + 4, off + 8) =~= b.subrange(off + 4, off + 8));
    let tag = b.subrange(off + 4, off + 8);
    if tag != tag_iend() {
        lemma_walk_ignores_tail(b, extra, off + 12 + len, has_ihdr || tag == tag_ihdr(), is_apng || tag == tag_actl());
    }
}

/// Bytes appended after the `IEND` chunk of a file do not change what its
/// inspection reports.
pub proof fn law_trailing_bytes_ignored(b: Seq<u8>, extra: Seq<u8>)
    requires
        walk_reaches_iend(b, 8),
    ensures
        png_inspection(b + extra) == png_inspection(b),
{
    lemma_walk_ignores_tail(b, extra, 8, false, false);
    assert((b + extra).take(8) =~= b.take(8));
}

fn tag_is(b: &[u8], at: usize, t0: u8, t1: u8, t2: u8, t3: u8) -> (r: bool)
    requires
        at + 4 <= b@.len(),
    ensures
        r == (b@.subrange(at as int, at + 4) == seq![t0, t1, t2, t3]),
{
    let r = b[at] == t0 && b[at + 1] == t1 && b[at + 2] == t2 && b[at + 3] == t3;
    assert(r ==> b@.subrange(at as int, at + 4) =~= seq![t0, t1, t2, t3]);
    assert(b@.subrange(at as int, at + 4) == seq![t0, t1, t2, t3] ==> {
        &&& b@.subrange(at as int, at + 4)[0] == t0
        &&& b@.subrange(at as int, at + 4)[1] == t1
        &&& b@.subrange(at as int, at + 4)[2] == t2
        &&& b@.subrange(at as int, at + 4)[3] == t3
    });
    r
}

/// Checks the PNG signature and walks the chunks of `bytes`.
pub fn inspect_png_bytes(bytes: &[u8]) -> (r: Result<PngInspection, PngError>)
    ensures
        r == png_inspection(bytes@),
{
    let n = bytes.len();
    if n < 8 {
        return Err(PngError::NotPng);
    }
    let sig = tag_is(bytes, 0, 137, 80, 78, 71) && tag_is(bytes, 4, 13, 10, 26, 10);
    assert(sig <==> bytes@.take(8) == png_signature()) by {
        if bytes@.take(8) == png_signature() {
            assert forall|k: int| 0 <= k < 8 implies bytes@[k] == png_signature()[k] by {
                assert(bytes@[k] == bytes@.take(8)[k]);
            }
            assert(bytes@.subrange(0, 4) =~= seq![137u8, 80u8, 78u8, 71u8]);
            assert(bytes@.subrange(4, 8) =~= seq![13u8, 10u8, 26u8, 10u8]);
        }
        if sig {
            assert forall|k: int| 0 <= k < 8 implies bytes@[k] == png_signature()[k] by {
                if k < 4 {
                    assert(bytes@[k] == bytes@.subrange(0, 4)[k]);
                } else {
                    assert(bytes@[k] == bytes@.subrange(4, 8)[k - 4]);
                }
            }
            assert(bytes@.take(8) =~= png_signature());
        }
    }
    if !sig {
        return Err(PngError::NotPng);
    }
    let mut offset: usize = 8;
    let mut has_ihdr = false;
    let mut is_apng = false;
    let mut done = false;
    while !done && n - offset >= 8
        invariant
            n == bytes@.len(),
            8 <= offset <= n,
            bytes@.take(8) == png_signature(),
            !done ==> chunk_walk(bytes@, 8, false, false) == chunk_walk(
                bytes@,
                offset as int,
                has_ihdr,
                is_apng,
            ),
            done ==> chunk_walk(bytes@, 8, false, false) == (ChunkWalk::Finished {
                has_ihdr,
                is_apng,
            }),
        decreases n - offset,
    {
        let length: u64 = bytes[offset] as u64 * 16777216 + bytes[offset + 1] as u64 * 65536
            + bytes[offset + 2] as u64 * 256 + bytes[offset + 3] as u64;
        assert(length == be_u32_at(bytes@, offset as int));
        if length > (n - offset) as u64 || (n - offset) as u64 - length < 12 {
            assert(offset + 12 + be_u32_at(bytes@, offset as int) > n);
            assert(chunk_walk(bytes@, offset as int, has_ihdr, is_apng) == ChunkWalk::Overrun);
            return Err(PngError::Truncated);
        }
        let ihdr = tag_is(bytes, offset + 4, 73, 72, 68, 82);
        let actl = tag_is(bytes, offset + 4, 97, 99, 84, 76);
        let iend = tag_is(bytes, offset + 4, 73, 69, 78, 68);
        has_ihdr = has_ihdr || ihdr;
        is_apng = is_apng || actl;
        offset = offset + 12 + length as usize;
        if iend {
            done = true;
        }
    }
    if !done {
        assert(chunk_walk(bytes@, offset as int, has_ihdr, is_apng) == (ChunkWalk::Finished {
            has_ihdr,
            is_apng,
        }));
    }
    if !has_ihdr {
        return Err(PngError::MissingIhdr);
    }
    Ok(PngInspection { is_apng })
}


/// The message of an inspection error.
pub open spec fn png_error_text(e: PngError) -> Seq<char> {
    match e {
        PngError::NotPng => "不是有效的 PNG 文件"@,
        PngError::Truncated => "PNG 结构不完整"@,
        PngError::MissingIhdr => "PNG 缺少 IHDR 头"@,
    }
}

impl PngError {
    /// The message of this error.
    pub fn message(&self) -> (r: String)
        ensures
            r@ == png_error_text(*self),
    {
        match self {
            PngError::NotPng => String::from_str("不是有效的 PNG 文件"),
            PngError::Truncated => String::from_str("PNG 结构不完整"),
            PngError::MissingIhdr => String::from_str("PNG 缺少 IHDR 头"),
        }
    }
}


/// One chunk of a PNG file: its four-byte type, its data and its four-byte
/// CRC.
pub struct ChunkParts {
    pub kind: Seq<u8>,
    pub data: Seq<u8>,
    pub crc: Seq<u8>,
}

/// A length written as the four big-endian bytes of a 32-bit number.
pub open spec fn length_field(n: nat) -> Seq<u8> {
    seq![(n / 16777216) as u8, ((n / 65536) % 256) as u8, ((n / 256) % 256) as u8, (n % 256) as u8]
}

/// The bytes of a chunk: length of its data, type, data, CRC.
pub open spec fn chunk_bytes(c: ChunkParts) -> Seq<u8> {
    length_field(c.data.len()) + c.kind + c.data + c.crc
}

/// The bytes of a list of chunks, one after the other.
pub open spec fn chunks_bytes(cs: Seq<ChunkParts>) -> Seq<u8>
    decreases cs.len(),
{
    if cs.len() == 0 {
        Seq::empty()
    } else {
        chunk_bytes(cs[0]) + chunks_bytes(cs.drop_first())
    }
}

/// Some chunk of the list has the given type.
pub open spec fn has_chunk(cs: Seq<ChunkParts>, kind: Seq<u8>) -> bool {
    exists|i: int| 0 <= i < cs.len() && #[trigger] cs[i].kind == kind
}

/// The chunks form a well-formed list: each has a four-byte type and CRC and
/// fewer than 2^32 data bytes, the last is `IEND` and no other is.
pub open spec fn well_formed_chunks(cs: Seq<ChunkParts>) -> bool {
    &&& cs.len() > 0
    &&& forall|i: int| 0 <= i < cs.len() ==> (#[trigger] cs[i]).kind.len() == 4 && cs[i].crc.len() == 4
        && cs[i].data.len() < 0x1_0000_0000
    &&& cs.last().kind == tag_iend()
    &&& forall|i: int| 0 <= i < cs.len() - 1 ==> (#[trigger] cs[i]).kind != tag_iend()
}

proof fn lemma_length_field(n: nat)
    requires
        n < 0x1_0000_0000,
    ensures
        be_u32_at(length_field(n), 0) == n,
{
    let x = n as u32;
    assert(((x / 16777216) as u8) as int * 16777216 + (((x / 65536) % 256) as u8) as int * 65536
        + (((x / 256) % 256) as u8) as int * 256 + ((x % 256) as u8) as int == x as int) by (bit_vector);
}

proof fn lemma_walk_chunks(pre: Seq<u8>, cs: Seq<ChunkParts>, has_ihdr: bool, is_apng: bool)
    requires
        well_formed_chunks(cs),
    ensures
        chunk_walk(pre + chunks_bytes(cs), pre.len() as int, has_ihdr, is_apng) == (ChunkWalk::Finished {
            has_ihdr: has_ihdr || has_chunk(cs, tag_ihdr()),
            is_apng: is_apng || has_chunk(cs, tag_actl()),
        }),
    decreases cs.len(),
{
    let c = cs[0];
    let rest = cs.drop_first();
    let b = pre + chunks_bytes(cs);
    let off = pre.len() as int;
    let head = chunk_bytes(c);
    assert(chunks_bytes(cs) == head + chunks_bytes(rest));
    assert(b =~= pre + head + chunks_bytes(rest));
    assert(cs[0].kind.len() == 4 && cs[0].crc.len() == 4 && cs[0].data.len() < 0x1_0000_0000);
    let len = c.data.len();
    lemma_length_field(len);
    assert(b.subrange(off, off + 4) =~= length_field(len));
    assert(be_u32_at(b, off) == be_u32_at(length_field(len), 0));
    assert(b.subrange(off + 4, off + 8) =~= c.kind);
    assert(head.len() == 12 + len);
    let tag = c.kind;
    let ihdr = has_ihdr || tag == tag_ihdr();
    let apng = is_apng || tag == tag_actl();
    if cs.len() == 1 {
        assert(tag == tag_iend());
        assert(has_chunk(cs, tag_ihdr()) == (tag == tag_ihdr()));
        assert(has_chunk(cs, tag_actl()) == (tag == tag_actl()));
    } else {
        assert(tag != tag_iend());
        assert(well_formed_chunks(rest)) by {
            assert forall|i: int| 0 <= i < rest.len() implies (#[trigger] rest[i]).kind.len() == 4 && rest[i].crc.len() == 4
                && rest[i].data.len() < 0x1_0000_0000 by {
                assert(rest[i] == cs[i + 1]);
            }
            assert forall|i: int| 0 <= i < rest.len() - 1 implies (#[trigger] rest[i]).kind != tag_iend() by {
                assert(rest[i] == cs[i + 1]);
            }
        }
        let pre2 = pre + head;
        assert(b =~= pre2 + chunks_bytes(rest));
        lemma_walk_chunks(pre2, rest, ihdr, apng);
        assert(has_chunk(cs, tag_ihdr()) == (tag == tag_ihdr() || has_chunk(rest, tag_ihdr()))) by {
            if has_chunk(rest, tag_ihdr()) {
                let i = choose|i: int| 0 <= i < rest.len() && #[trigger] rest[i].kind == tag_ihdr();
                assert(cs[i + 1].kind == tag_ihdr());
            }
            if has_chunk(cs, tag_ihdr()) && tag != tag_ihdr() {
                let i = choose|i: int| 0 <= i < cs.len() && #[trigger] cs[i].kind == tag_ihdr();
                assert(rest[i - 1].kind == tag_ihdr());
            }
        }
        assert(has_chunk(cs, tag_actl()) == (tag == tag_actl() || has_chunk(rest, tag_actl()))) by {
            if has_chunk(rest, tag_actl()) {
                let i = choose|i: int| 0 <= i < rest.len() && #[trigger] rest[i].kind == tag_actl();
                assert(cs[i + 1].kind == tag_actl());
            }
            if has_chunk(cs, tag_actl()) && tag != tag_actl() {
                let i = choose|i: int| 0 <= i < cs.len() && #[trigger] cs[i].kind == tag_actl();
                assert(rest[i - 1].kind == tag_actl());
            }
        }
    }
}

/// A well-formed PNG file (the signature, then chunks of any lengths whose
/// length fields are the full big-endian 32-bit counts of their data, ending
/// with `IEND`) is accepted exactly when it has an `IHDR` chunk, and is
/// reported animated exactly when it has an `acTL` chunk.
pub proof fn law_well_formed_files_are_accepted(cs: Seq<ChunkParts>)
    requires
        well_formed_chunks(cs),
    ensures
        png_inspection(png_signature() + chunks_bytes(cs)) == (if has_chunk(cs, tag_ihdr()) {
            Ok(PngInspection { is_apng: has_chunk(cs, tag_actl()) })
        } else {
            Err(PngError::MissingIhdr)
        }),
{
    let b = png_signature() + chunks_bytes(cs);
    assert(b.take(8) =~= png_signature());
    lemma_walk_chunks(png_signature(), cs, false, false);
}

} // verus!
