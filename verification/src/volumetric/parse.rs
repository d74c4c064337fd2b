use vstd::prelude::*;

use crate::volumetric::dims::Dims;

verus! {

/// A scale vector as three IEEE-754 single-precision bit patterns, before the
/// shrink factor that the renderer applies to the scale of each format.
#[derive(Clone, Copy, PartialEq, Eq, Structural, Debug)]
pub struct ScaleBits {
    pub x: u32,
    pub y: u32,
    pub z: u32,
}

/// What a volume file's header says about the voxel grid that follows it.
#[derive(Clone, Copy, PartialEq, Eq, Structural, Debug)]
pub struct VolumeMetadata {
    /// Voxels along each axis.
    pub size: Dims,
    /// Voxels of padding around the grid.
    pub border: u32,
    /// Distance between neighbouring voxels along each axis.
    pub scale: ScaleBits,
    /// Position in the file of the first voxel.
    pub data_offset: usize,
}

/// Bytes in the header of a skull volume file: three big-endian `u32` sizes,
/// four bytes that are skipped, and three big-endian `f32` scales.
pub const SKULL_HEADER_LEN: usize = 28;

/// Bytes in the header of a beetle volume file: three little-endian `u16` sizes.
pub const BEETLE_HEADER_LEN: usize = 6;

/// Bit pattern of the single-precision float 1.0.
pub const ONE_F32_BITS: u32 = 0x3F80_0000;

/// The big-endian `u32` in bytes `i .. i + 4` of `s`.
pub open spec fn be_u32_at(s: Seq<u8>, i: int) -> u32 {
    (s[i] * 0x100_0000 + s[i + 1] * 0x1_0000 + s[i + 2] * 0x100 + s[i + 3]) as u32
}

/// The little-endian `u16` in bytes `i .. i + 2` of `s`.
pub open spec fn le_u16_at(s: Seq<u8>, i: int) -> u16 {
    (s[i] + s[i + 1] * 0x100) as u16
}

/// The metadata that a skull header at the start of `s` gives.
pub open spec fn skull_metadata(s: Seq<u8>) -> VolumeMetadata {
    VolumeMetadata {
        size: Dims {
            x: be_u32_at(s, 0) as usize,
            y: be_u32_at(s, 4) as usize,
            z: be_u32_at(s, 8) as usize,
        },
        border: 0,
        scale: ScaleBits { x: be_u32_at(s, 16), y: be_u32_at(s, 20), z: be_u32_at(s, 24) },
        data_offset: 28,
    }
}

/// The metadata that a beetle header at the start of `s` gives: its scale is
/// 1.0 along each axis.
pub open spec fn beetle_metadata(s: Seq<u8>) -> VolumeMetadata {
    VolumeMetadata {
        size: Dims {
            x: le_u16_at(s, 0) as usize,
            y: le_u16_at(s, 2) as usize,
            z: le_u16_at(s, 4) as usize,
        },
        border: 0,
        scale: ScaleBits { x: ONE_F32_BITS, y: ONE_F32_BITS, z: ONE_F32_BITS },
        data_offset: 6,
    }
}

/// Reads the big-endian `u32` at position `i` of `s`.
fn read_be_u32(s: &[u8], i: usize) -> (res: u32)
    requires
        i + 4 <= s@.len(),
    ensures
        res == be_u32_at(s@, i as int),
{
    (s[i] as u32) * 0x100_0000 + (s[i + 1] as u32) * 0x1_0000 + (s[i + 2] as u32) * 0x100 + (s[i
        + 3] as u32)
}

/// Reads the little-endian `u16` at position `i` of `s`.
fn read_le_u16(s: &[u8], i: usize) -> (res: u16)
    requires
        i + 2 <= s@.len(),
    ensures
        res == le_u16_at(s@, i as int),
{
    (s[i] as u16) + (s[i + 1] as u16) * 0x100
}

/// Reads a beetle header: three little-endian `u16` sizes. Fails with
/// "Parse error" on fewer than six bytes.
pub fn beetle_parser(slice: &[u8]) -> (res: Result<VolumeMetadata, &'static str>)
    ensures
        slice@.len() >= BEETLE_HEADER_LEN ==> res == Ok::<VolumeMetadata, &'static str>(
            beetle_metadata(slice@),
        ),
        slice@.len() < BEETLE_HEADER_LEN ==> (res matches Err(e) && e@ == "Parse error"@),
{
    if slice.len() < BEETLE_HEADER_LEN {
        return Err("Parse error");
    }
    let x = read_le_u16(slice, 0);
    let y = read_le_u16(slice, 2);
    let z = read_le_u16(slice, 4);
    let size = Dims::new(x as usize, y as usize, z as usize);
    Ok(
        VolumeMetadata {
            size,
            border: 0,
            scale: ScaleBits { x: ONE_F32_BITS, y: ONE_F32_BITS, z: ONE_F32_BITS },
            data_offset: BEETLE_HEADER_LEN,
        },
    )
}

/// Reads a skull header: the bytes after it, and the position of the first
/// voxel, the sizes and the scale bits; `None` on fewer than 28 bytes.
fn skull_inner(s: &[u8]) -> (res: Option<(&[u8], (usize, Dims, ScaleBits))>)
    ensures
        s@.len() < SKULL_HEADER_LEN ==> res is None,
        s@.len() >= SKULL_HEADER_LEN ==> (res matches Some((rest, (offset, size, scale))) && rest@
            == s@.subrange(28, s@.len() as int) && offset == skull_metadata(s@).data_offset && size
            == skull_metadata(s@).size && scale == skull_metadata(s@).scale),
{
    if s.len() < SKULL_HEADER_LEN {
        return None;
    }
    let x = read_be_u32(s, 0);
    let y = read_be_u32(s, 4);
    let z = read_be_u32(s, 8);
    let scale = ScaleBits { x: read_be_u32(s, 16), y: read_be_u32(s, 20), z: read_be_u32(s, 24) };
    let size = Dims::new(x as usize, y as usize, z as usize);
    let offset = SKULL_HEADER_LEN;
    let rest = &s[SKULL_HEADER_LEN..s.len()];
    Some((rest, (offset, size, scale)))
}

/// Reads a skull header: three big-endian `u32` sizes, four skipped bytes and
/// three big-endian `f32` scales. Fails with "Parse error" on fewer than 28
/// bytes.
pub fn skull_parser(slice: &[u8]) -> (res: Result<VolumeMetadata, &'static str>)
    ensures
        slice@.len() >= SKULL_HEADER_LEN ==> res == Ok::<VolumeMetadata, &'static str>(
            skull_metadata(slice@),
        ),
        slice@.len() < SKULL_HEADER_LEN ==> (res matches Err(e) && e@ == "Parse error"@),
{
    let parse_res = skull_inner(slice);
    let (data_offset, size, scale) = match parse_res {
        Some(r) => r.1,
        None => return Err("Parse error"),
    };
    Ok(VolumeMetadata { size, border: 0, scale, data_offset })
}

/// A skull header is read from its 28 bytes alone: bytes after them do not
/// change what is parsed.
pub proof fn lemma_skull_header_prefix(s: Seq<u8>, t: Seq<u8>)
    requires
        s.len() >= SKULL_HEADER_LEN,
    ensures
        skull_metadata(s + t) == skull_metadata(s),
{
    assert(forall|i: int| 0 <= i < 28 ==> (s + t)[i] == s[i]);
}

/// A beetle header is read from its 6 bytes alone: bytes after them do not
/// change what is parsed.
pub proof fn lemma_beetle_header_prefix(s: Seq<u8>, t: Seq<u8>)
    requires
        s.len() >= BEETLE_HEADER_LEN,
    ensures
        beetle_metadata(s + t) == beetle_metadata(s),
{
    assert(forall|i: int| 0 <= i < 6 ==> (s + t)[i] == s[i]);
}

/// The four bytes of `v`, most significant first.
pub open spec fn be_bytes(v: u32) -> Seq<u8> {
    seq![
        (v / 0x100_0000) as u8,
        ((v / 0x1_0000) % 0x100) as u8,
        ((v / 0x100) % 0x100) as u8,
        (v % 0x100) as u8,
    ]
}

/// The two bytes of `v`, least significant first.
pub open spec fn le_bytes(v: u16) -> Seq<u8> {
    seq![(v % 0x100) as u8, (v / 0x100) as u8]
}

/// The big-endian `u32` read where the four bytes of `v` stand is `v`.
proof fn lemma_be_u32_reads_back(s: Seq<u8>, i: int, v: u32)
    requires
        0 <= i,
        i + 4 <= s.len(),
        s.subrange(i, i + 4) == be_bytes(v),
    ensures
        be_u32_at(s, i) == v,
{
    assert(s[i] == s.subrange(i, i + 4)[0]);
    assert(s[i + 1] == s.subrange(i, i + 4)[1]);
    assert(s[i + 2] == s.subrange(i, i + 4)[2]);
    assert(s[i + 3] == s.subrange(i, i + 4)[3]);
    let (b0, b1, b2, b3) = (s[i], s[i + 1], s[i + 2], s[i + 3]);
    assert(b0 == v / 0x100_0000 && b1 == (v / 0x1_0000) % 0x100 && b2 == (v / 0x100) % 0x100 && b3
        == v % 0x100);
    assert(b0 * 0x100_0000 + b1 * 0x1_0000 + b2 * 0x100 + b3 == v) by (nonlinear_arith)
        requires
            b0 == v / 0x100_0000,
            b1 == (v / 0x1_0000) % 0x100,
            b2 == (v / 0x100) % 0x100,
            b3 == v % 0x100,
            0 <= v < 0x1_0000_0000,
    ;
}

/// The little-endian `u16` read where the two bytes of `v` stand is `v`.
proof fn lemma_le_u16_reads_back(s: Seq<u8>, i: int, v: u16)
    requires
        0 <= i,
        i + 2 <= s.len(),
        s.subrange(i, i + 2) == le_bytes(v),
    ensures
        le_u16_at(s, i) == v,
{
    assert(s[i] == s.subrange(i, i + 2)[0]);
    assert(s[i + 1] == s.subrange(i, i + 2)[1]);
    let (b0, b1) = (s[i], s[i + 1]);
    assert(b0 + b1 * 0x100 == v) by (nonlinear_arith)
        requires b0 == v % 0x100, b1 == v / 0x100, 0 <= v < 0x1_0000;
}

/// A skull file whose header holds the sizes `x`, `y`, `z` and the scale bits
/// `sx`, `sy`, `sz` big-endian, in that order, with any four bytes between,
/// reads back as exactly those values, whatever follows the header.
pub proof fn lemma_skull_header_roundtrip(
    x: u32,
    y: u32,
    z: u32,
    gap: Seq<u8>,
    sx: u32,
    sy: u32,
    sz: u32,
    rest: Seq<u8>,
)
    requires
        gap.len() == 4,
    ensures
        ({
            let s = be_bytes(x) + be_bytes(y) + be_bytes(z) + gap + be_bytes(sx) + be_bytes(sy)
                + be_bytes(sz) + rest;
            &&& s.len() >= SKULL_HEADER_LEN
            &&& skull_metadata(s) == VolumeMetadata {
                size: Dims { x: x as usize, y: y as usize, z: z as usize },
                border: 0,
                scale: ScaleBits { x: sx, y: sy, z: sz },
                data_offset: 28,
            }
        }),
{
    let s = be_bytes(x) + be_bytes(y) + be_bytes(z) + gap + be_bytes(sx) + be_bytes(sy) + be_bytes(
        sz,
    ) + rest;
    assert(s.subrange(0, 4) =~= be_bytes(x));
    assert(s.subrange(4, 8) =~= be_bytes(y));
    assert(s.subrange(8, 12) =~= be_bytes(z));
    assert(s.subrange(16, 20) =~= be_bytes(sx));
    assert(s.subrange(20, 24) =~= be_bytes(sy));
    assert(s.subrange(24, 28) =~= be_bytes(sz));
    lemma_be_u32_reads_back(s, 0, x);
    lemma_be_u32_reads_back(s, 4, y);
    lemma_be_u32_reads_back(s, 8, z);
    lemma_be_u32_reads_back(s, 16, sx);
    lemma_be_u32_reads_back(s, 20, sy);
    lemma_be_u32_reads_back(s, 24, sz);
}

/// A beetle file whose header holds the sizes `x`, `y`, `z` little-endian, in
/// that order, reads back as exactly those sizes, whatever follows the header.
pub proof fn lemma_beetle_header_roundtrip(x: u16, y: u16, z: u16, rest: Seq<u8>)
    ensures
        ({
            let s = le_bytes(x) + le_bytes(y) + le_bytes(z) + rest;
            &&& s.len() >= BEETLE_HEADER_LEN
            &&& beetle_metadata(s).size == (Dims { x: x as usize, y: y as usize, z: z as usize })
            &&& beetle_metadata(s).data_offset == 6
            &&& beetle_metadata(s).border == 0
            &&& beetle_metadata(s).scale == (ScaleBits {
                x: ONE_F32_BITS,
                y: ONE_F32_BITS,
                z: ONE_F32_BITS,
            })
        }),
{
    let s = le_bytes(x) + le_bytes(y) + le_bytes(z) + rest;
    assert(s.subrange(0, 2) =~= le_bytes(x));
    assert(s.subrange(2, 4) =~= le_bytes(y));
    assert(s.subrange(4, 6) =~= le_bytes(z));
    lemma_le_u16_reads_back(s, 0, x);
    lemma_le_u16_reads_back(s, 2, y);
    lemma_le_u16_reads_back(s, 4, z);
}

} // verus!
