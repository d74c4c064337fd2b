use vstd::prelude::*;

use crate::volumetric::dims::{
    get_3d_index, index3, lemma_index3_in_volume, lemma_quotient_remainder_unique, Dims,
};

verus! {

/// Voxels along each side of a block.
pub const BLOCK_SIDE: usize = 3;

/// Voxels that two neighbouring blocks share along an axis.
pub const BLOCK_OVERLAP: usize = 1;

/// Voxels in one block: `BLOCK_SIDE` cubed.
pub const BLOCK_DATA_LEN: usize = 27;

/// Position in a block's data of the voxel at offset `(ox, oy, oz)` from the
/// block's origin: z runs fastest, then y, then x.
pub open spec fn block_slot(ox: int, oy: int, oz: int) -> int {
    ox * 9 + oy * 3 + oz
}

/// The value of voxel `(x, y, z)` of a grid of size `size` laid out in `data`,
/// or 0 for a position outside the grid.
pub open spec fn voxel_or_zero(data: Seq<u8>, size: Dims, x: int, y: int, z: int) -> u8 {
    if x >= size.x || y >= size.y || z >= size.z {
        0
    } else {
        data[index3(size, x, y, z)]
    }
}

/// The values of the block whose origin is voxel `(x, y, z)`: the 3 x 3 x 3
/// voxels from the origin on, with 0 for those outside the grid.
pub open spec fn spec_block(data: Seq<u8>, size: Dims, x: int, y: int, z: int) -> Seq<u8> {
    Seq::new(27, |i: int| voxel_or_zero(data, size, x + i / 9, y + (i / 3) % 3, z + i % 3))
}

/// Every voxel inside the grid that the block with origin `(x, y, z)` covers
/// lies inside `data`.
pub open spec fn block_readable(data_len: int, size: Dims, x: int, y: int, z: int) -> bool {
    forall|px: int, py: int, pz: int|
        x <= px < x + 3 && y <= py < y + 3 && z <= pz < z + 3 && px < size.x && py < size.y
            && pz < size.z ==> #[trigger] index3(size, px, py, pz) < data_len
}

/// Offsets from a block's origin are recovered from the slot they give.
pub proof fn lemma_block_slot_decode(ox: int, oy: int, oz: int)
    requires
        0 <= ox < 3,
        0 <= oy < 3,
        0 <= oz < 3,
    ensures
        0 <= block_slot(ox, oy, oz) < 27,
        block_slot(ox, oy, oz) / 9 == ox,
        (block_slot(ox, oy, oz) / 3) % 3 == oy,
        block_slot(ox, oy, oz) % 3 == oz,
{
    let i = block_slot(ox, oy, oz);
    assert(i / 9 == ox) by (nonlinear_arith)
        requires i == ox * 9 + oy * 3 + oz, 0 <= ox < 3, 0 <= oy < 3, 0 <= oz < 3;
    assert(i / 3 == ox * 3 + oy) by (nonlinear_arith)
        requires i == ox * 9 + oy * 3 + oz, 0 <= ox < 3, 0 <= oy < 3, 0 <= oz < 3;
    assert((ox * 3 + oy) % 3 == oy) by (nonlinear_arith) requires 0 <= ox < 3, 0 <= oy < 3;
    assert(i % 3 == oz) by (nonlinear_arith)
        requires i == ox * 9 + oy * 3 + oz, 0 <= ox < 3, 0 <= oy < 3, 0 <= oz < 3;
}

/// A cube of `BLOCK_SIDE`^3 voxel values cut out of a volume. The renderer
/// reads them as floats; they are kept here as the bytes they are read from,
/// which convert to floats exactly.
pub struct Block {
    data: [u8; BLOCK_DATA_LEN],
}

impl View for Block {
    type V = Seq<u8>;

    closed spec fn view(&self) -> Seq<u8> {
        self.data@
    }
}

impl Block {
    pub fn from_data(data: [u8; BLOCK_DATA_LEN]) -> (res: Block)
        ensures
            res@ == data@,
    {
        Block { data }
    }

    /// The block's values at `start_index`, one step along z from it, one
    /// step along y from it, and one step along both: the four corners of a
    /// cell face that lies in a yz plane.
    pub fn get_block_data_half(&self, start_index: usize) -> (res: [u8; 4])
        requires
            start_index + BLOCK_SIDE + 1 < BLOCK_DATA_LEN,
        ensures
            res@ == seq![
                self@[start_index as int],
                self@[start_index + 1],
                self@[start_index + 3],
                self@[start_index + 4],
            ],
    {
        proof {
            broadcast use vstd::array::group_array_axioms;
        }
        let res = [
            self.data[start_index],
            self.data[start_index + 1],
            self.data[start_index + BLOCK_SIDE],
            self.data[start_index + BLOCK_SIDE + 1],
        ];
        assert(res@ =~= seq![
            self@[start_index as int],
            self@[start_index + 1],
            self@[start_index + 3],
            self@[start_index + 4],
        ]);
        res
    }
}

/// Cuts out of the voxel sequence `data` of a grid of size `size` the block
/// whose origin is voxel `(x, y, z)`; voxels outside the grid read as 0.
pub fn get_block(data: &[u8], size: Dims, x: usize, y: usize, z: usize) -> (res: Block)
    requires
        x + 2 <= usize::MAX,
        x < size.x ==> y + 2 <= usize::MAX,
        x < size.x && y < size.y ==> z + 2 <= usize::MAX,
        block_readable(data@.len() as int, size, x as int, y as int, z as int),
    ensures
        res@ == spec_block(data@, size, x as int, y as int, z as int),
{
    broadcast use vstd::array::group_array_axioms;

    let ghost expected = spec_block(data@, size, x as int, y as int, z as int);
    let mut v = [0u8; BLOCK_DATA_LEN];
    let mut ptr: usize = 0;
    let mut off_x: usize = 0;
    while off_x < BLOCK_SIDE
        invariant
            off_x <= 3,
            ptr == off_x * 9,
            x + 2 <= usize::MAX,
            x < size.x ==> y + 2 <= usize::MAX,
            x < size.x && y < size.y ==> z + 2 <= usize::MAX,
            block_readable(data@.len() as int, size, x as int, y as int, z as int),
            expected == spec_block(data@, size, x as int, y as int, z as int),
            forall|i: int| 0 <= i < ptr ==> v@[i] == expected[i],
        decreases 3 - off_x,
    {
        let mut off_y: usize = 0;
        while off_y < BLOCK_SIDE
            invariant
                off_x < 3,
                off_y <= 3,
                ptr == off_x * 9 + off_y * 3,
                x + 2 <= usize::MAX,
                x < size.x ==> y + 2 <= usize::MAX,
                x < size.x && y < size.y ==> z + 2 <= usize::MAX,
                block_readable(data@.len() as int, size, x as int, y as int, z as int),
                expected == spec_block(data@, size, x as int, y as int, z as int),
                forall|i: int| 0 <= i < ptr ==> v@[i] == expected[i],
            decreases 3 - off_y,
        {
            let mut off_z: usize = 0;
            while off_z < BLOCK_SIDE
                invariant
                    off_x < 3,
                    off_y < 3,
                    off_z <= 3,
                    ptr == off_x * 9 + off_y * 3 + off_z,
                    x + 2 <= usize::MAX,
                    x < size.x ==> y + 2 <= usize::MAX,
                    x < size.x && y < size.y ==> z + 2 <= usize::MAX,
                    block_readable(data@.len() as int, size, x as int, y as int, z as int),
                    expected == spec_block(data@, size, x as int, y as int, z as int),
                    forall|i: int| 0 <= i < ptr ==> v@[i] == expected[i],
                decreases 3 - off_z,
            {
                proof {
                    lemma_block_slot_decode(off_x as int, off_y as int, off_z as int);
                }
                if x + off_x >= size.x || y + off_y >= size.y || z + off_z >= size.z {
                    v[ptr] = 0;
                } else {
                    let px = x + off_x;
                    let py = y + off_y;
                    let pz = z + off_z;
                    proof {
                        lemma_index3_in_volume(size, px as int, py as int, pz as int);
                        assert(index3(size, px as int, py as int, pz as int) < data@.len());
                        assert(data@.len() == data.len());
                    }
                    let index = get_3d_index(size, px, py, pz);
                    let value = data[index];
                    v[ptr] = value;
                }
                ptr += 1;
                off_z += 1;
            }
            off_y += 1;
        }
        off_x += 1;
    }
    assert(v@ =~= expected);
    Block::from_data(v)
}

/// Number of block origins `0, 2, 4, ...` below `n`: blocks along an axis of
/// `n` voxels.
pub open spec fn blocks_along(n: int) -> int {
    (n + 1) / 2
}

/// Position in the block list of a volume of size `size` of the block with
/// block coordinates `(i, j, l)` (origin `(2 i, 2 j, 2 l)`): blocks are listed
/// with l running fastest, then j, then i.
pub open spec fn block_list_slot(size: Dims, i: int, j: int, l: int) -> int {
    (i * blocks_along(size.y as int) + j) * blocks_along(size.z as int) + l
}

/// A grid with at least one voxel along each axis has a positive volume.
proof fn lemma_volume_positive(size: Dims)
    requires
        size.x >= 1,
        size.y >= 1,
        size.z >= 1,
    ensures
        size.volume() > 0,
{
    let (a, b, c) = (size.x as int, size.y as int, size.z as int);
    assert(a * b * c > 0) by (nonlinear_arith) requires a >= 1, b >= 1, c >= 1;
}

/// The slots of the blocks listed before block `(i, j, l)` all come before
/// its slot, and the next block's slot follows it.
proof fn lemma_slots_before(size: Dims, i: int, j: int, l: int)
    requires
        0 <= i,
        0 <= j,
        0 <= l,
    ensures
        block_list_slot(size, i, j, l) + 1 == block_list_slot(size, i, j, l + 1),
        forall|i2: int, j2: int, l2: int|
            0 <= i2 < i && 0 <= j2 < blocks_along(size.y as int) && 0 <= l2 < blocks_along(
                size.z as int,
            ) ==> 0 <= #[trigger] block_list_slot(size, i2, j2, l2) < block_list_slot(
                size,
                i,
                j,
                l,
            ),
        forall|j2: int, l2: int|
            0 <= j2 < j && 0 <= l2 < blocks_along(size.z as int) ==> 0 <= #[trigger] block_list_slot(
                size,
                i,
                j2,
                l2,
            ) < block_list_slot(size, i, j, l),
        forall|l2: int| 0 <= l2 < l ==> 0 <= #[trigger] block_list_slot(size, i, j, l2)
            < block_list_slot(size, i, j, l),
{
    let ny = blocks_along(size.y as int);
    let nz = blocks_along(size.z as int);
    assert forall|i2: int, j2: int, l2: int|
        0 <= i2 < i && 0 <= j2 < ny && 0 <= l2 < nz implies 0 <= #[trigger] block_list_slot(
        size,
        i2,
        j2,
        l2,
    ) < block_list_slot(size, i, j, l) by {
        assert(0 <= (i2 * ny + j2) * nz + l2 < (i * ny + j) * nz + l) by (nonlinear_arith)
            requires 0 <= i2 < i, 0 <= j2 < ny, 0 <= l2 < nz, 0 <= j, 0 <= l;
    }
    assert forall|j2: int, l2: int|
        0 <= j2 < j && 0 <= l2 < nz implies 0 <= #[trigger] block_list_slot(size, i, j2, l2)
        < block_list_slot(size, i, j, l) by {
        assert(0 <= (i * ny + j2) * nz + l2 < (i * ny + j) * nz + l) by (nonlinear_arith)
            requires 0 <= i, 0 <= j2 < j, 0 <= l2 < nz, 0 <= l, 0 <= ny;
    }
    assert forall|l2: int| 0 <= l2 < l implies 0 <= #[trigger] block_list_slot(size, i, j, l2)
        < block_list_slot(size, i, j, l) by {
        assert(0 <= (i * ny + j) * nz + l2) by (nonlinear_arith)
            requires 0 <= i, 0 <= j, 0 <= l2, 0 <= ny, 0 <= nz;
    }
}

/// After the last block of a row along z comes the first block of the next row.
proof fn lemma_slot_carry_l(size: Dims, i: int, j: int)
    ensures
        block_list_slot(size, i, j, blocks_along(size.z as int)) == block_list_slot(
            size,
            i,
            j + 1,
            0,
        ),
{
    let ny = blocks_along(size.y as int);
    let nz = blocks_along(size.z as int);
    assert((i * ny + j) * nz + nz == (i * ny + j + 1) * nz) by (nonlinear_arith);
}

/// After the last row of a slab along y comes the first row of the next slab,
/// and the slab after the last one starts at the number of blocks.
proof fn lemma_slot_carry_j(size: Dims, i: int)
    ensures
        block_list_slot(size, i, blocks_along(size.y as int), 0) == block_list_slot(
            size,
            i + 1,
            0,
            0,
        ),
        block_list_slot(size, i, 0, 0) == i * blocks_along(size.y as int) * blocks_along(
            size.z as int,
        ),
{
    let ny = blocks_along(size.y as int);
    let nz = blocks_along(size.z as int);
    assert((i * ny + ny) * nz + 0 == ((i + 1) * ny + 0) * nz + 0) by (nonlinear_arith);
    assert((i * ny + 0) * nz + 0 == i * ny * nz) by (nonlinear_arith);
}

/// An axis of `n` voxels has one block for each even origin below `n`.
pub proof fn lemma_blocks_along_counts_origins(n: int, k: int)
    requires
        0 <= n,
    ensures
        0 <= blocks_along(n),
        0 <= k < blocks_along(n) <==> 0 <= 2 * k < n,
{
}

/// Inside a block, z runs fastest, then y, then x: the origin is at slot 0,
/// and one step along z, y or x moves 1, 3 or 9 slots on.
pub proof fn lemma_block_slot_steps(ox: int, oy: int, oz: int)
    ensures
        block_slot(0, 0, 0) == 0,
        block_slot(ox, oy, oz + 1) == block_slot(ox, oy, oz) + 1,
        block_slot(ox, oy + 1, oz) == block_slot(ox, oy, oz) + BLOCK_SIDE,
        block_slot(ox + 1, oy, oz) == block_slot(ox, oy, oz) + BLOCK_SIDE * BLOCK_SIDE,
{
}

/// What a `BlockVolume` holds: the size of the voxel grid, the block
/// counts by which block positions are computed, and the values of each
/// block in list order.
pub struct BlockVolumeView {
    pub data_size: Dims,
    pub block_size: Dims,
    pub blocks: Seq<Seq<u8>>,
}

impl BlockVolumeView {
    /// Position in the block list that voxel `(x, y, z)` is looked up in.
    pub open spec fn spec_block_index(self, x: int, y: int, z: int) -> int {
        z / 2 + (y / 2) * self.block_size.z + (x / 2) * self.block_size.y * self.block_size.z
    }

    /// The arithmetic of `spec_block_index`, done left to right in `usize`,
    /// does not overflow.
    pub open spec fn index_fits(self, x: int, y: int, z: int) -> bool {
        &&& (x / 2) * self.block_size.y <= usize::MAX
        &&& self.spec_block_index(x, y, z) <= usize::MAX
    }

    /// Position in a block that voxel `(x, y, z)` is looked up at.
    pub open spec fn spec_block_offset(x: int, y: int, z: int) -> int {
        block_slot(x % 2, y % 2, z % 2)
    }

    /// The value that a lookup of voxel `(x, y, z)` finds, if its block exists.
    pub open spec fn spec_get_3d_data(self, x: int, y: int, z: int) -> Option<u8> {
        let index = self.spec_block_index(x, y, z);
        if index < self.blocks.len() {
            Some(self.blocks[index][Self::spec_block_offset(x, y, z)])
        } else {
            None
        }
    }

    /// The volume is the one that `BlockVolume::build` makes of the voxel
    /// sequence `data` of a grid of size `size`.
    pub open spec fn is_built_from(self, data: Seq<u8>, size: Dims) -> bool {
        &&& self.data_size == size
        &&& self.block_size.x == blocks_along(size.x as int)
        &&& self.block_size.y == blocks_along(size.y as int)
        &&& self.block_size.z == blocks_along(size.z as int)
        &&& self.blocks.len() == blocks_along(size.x as int) * blocks_along(size.y as int)
            * blocks_along(size.z as int)
        &&& forall|i: int, j: int, l: int|
            0 <= i < blocks_along(size.x as int) && 0 <= j < blocks_along(size.y as int) && 0 <= l
                < blocks_along(size.z as int) ==> #[trigger] self.blocks[block_list_slot(
                size,
                i,
                j,
                l,
            )] == spec_block(data, size, 2 * i, 2 * j, 2 * l)
    }
}

/// A voxel inside the grid of a built volume is looked up in its own block,
/// the one whose origin is the voxel's position with each coordinate rounded
/// down to an even number; that block exists; the lookup arithmetic fits in
/// `usize` wherever the block list does; and the block's values at the
/// voxel's offset and one step beyond it along each axis are the grid's
/// voxels `(x + dx, y + dy, z + dz)`, with 0 outside the grid: the eight cell
/// corners that sampling interpolates between are the source voxels.
pub proof fn lemma_cell_corners(
    vol: BlockVolumeView,
    data: Seq<u8>,
    size: Dims,
    x: int,
    y: int,
    z: int,
    dx: int,
    dy: int,
    dz: int,
)
    requires
        vol.is_built_from(data, size),
        0 <= x < size.x,
        0 <= y < size.y,
        0 <= z < size.z,
        0 <= dx <= 1,
        0 <= dy <= 1,
        0 <= dz <= 1,
    ensures
        vol.spec_block_index(x, y, z) == block_list_slot(size, x / 2, y / 2, z / 2),
        0 <= vol.spec_block_index(x, y, z) < vol.blocks.len(),
        vol.blocks.len() <= usize::MAX ==> vol.index_fits(x, y, z),
        vol.blocks[vol.spec_block_index(x, y, z)][block_slot(x % 2 + dx, y % 2 + dy, z % 2 + dz)]
            == voxel_or_zero(data, size, x + dx, y + dy, z + dz),
        x + dx < size.x && y + dy < size.y && z + dz < size.z ==> vol.blocks[vol.spec_block_index(
            x,
            y,
            z,
        )][block_slot(x % 2 + dx, y % 2 + dy, z % 2 + dz)] == data[index3(
            size,
            x + dx,
            y + dy,
            z + dz,
        )],
        x + dx >= size.x || y + dy >= size.y || z + dz >= size.z ==> vol.blocks[vol.spec_block_index(
            x,
            y,
            z,
        )][block_slot(x % 2 + dx, y % 2 + dy, z % 2 + dz)] == 0,
{
    let nx = blocks_along(size.x as int);
    let ny = blocks_along(size.y as int);
    let nz = blocks_along(size.z as int);
    let (i, j, l) = (x / 2, y / 2, z / 2);
    assert(0 <= i < nx && 0 <= j < ny && 0 <= l < nz);
    assert(l + j * nz + i * ny * nz == (i * ny + j) * nz + l) by (nonlinear_arith);
    lemma_slot_carry_j(size, nx);
    lemma_slots_before(size, nx, 0, 0);
    assert(vol.blocks[block_list_slot(size, i, j, l)] == spec_block(data, size, 2 * i, 2 * j, 2 * l));
    lemma_block_slot_decode(x % 2 + dx, y % 2 + dy, z % 2 + dz);
    assert(0 <= i * ny) by (nonlinear_arith) requires 0 <= i, 0 <= ny;
    assert(i * ny <= (i * ny + j) * nz + l) by (nonlinear_arith)
        requires 0 <= i, 0 <= ny, 0 <= j, 1 <= nz, 0 <= l;
}

/// In a built volume, blocks are listed z fastest, then y, then x: the
/// voxel at the origin is looked up in list position 0, and two voxels along
/// z, y or x (one block's step) move the lookup 1, `blocks_along(size.z)` or
/// `blocks_along(size.y) * blocks_along(size.z)` positions on.
pub proof fn lemma_block_index_steps(
    vol: BlockVolumeView,
    data: Seq<u8>,
    size: Dims,
    x: int,
    y: int,
    z: int,
)
    requires
        vol.is_built_from(data, size),
        0 <= x,
        0 <= y,
        0 <= z,
    ensures
        vol.spec_block_index(0, 0, 0) == 0,
        vol.spec_block_index(x, y, z + 2) == vol.spec_block_index(x, y, z) + 1,
        vol.spec_block_index(x, y + 2, z) == vol.spec_block_index(x, y, z) + blocks_along(
            size.z as int,
        ),
        vol.spec_block_index(x + 2, y, z) == vol.spec_block_index(x, y, z) + blocks_along(
            size.y as int,
        ) * blocks_along(size.z as int),
{
    let by = vol.block_size.y as int;
    let bz = vol.block_size.z as int;
    assert((y + 2) / 2 == y / 2 + 1 && (x + 2) / 2 == x / 2 + 1 && (z + 2) / 2 == z / 2 + 1);
    assert((y / 2 + 1) * bz == (y / 2) * bz + bz) by (nonlinear_arith);
    assert((x / 2 + 1) * by * bz == (x / 2) * by * bz + by * bz) by (nonlinear_arith);
    assert(0 * bz == 0 && 0 * by * bz == 0) by (nonlinear_arith);
}

/// In a built volume, looking up a voxel inside the grid gives back that
/// voxel of the source data; the lookup arithmetic fits in `usize` wherever
/// the block list does, so the lookup neither overflows nor misses.
pub proof fn lemma_lookup_gives_source_voxel(
    vol: BlockVolumeView,
    data: Seq<u8>,
    size: Dims,
    x: int,
    y: int,
    z: int,
)
    requires
        vol.is_built_from(data, size),
        0 <= x < size.x,
        0 <= y < size.y,
        0 <= z < size.z,
    ensures
        vol.blocks.len() <= usize::MAX ==> vol.index_fits(x, y, z),
        vol.spec_get_3d_data(x, y, z) == Some(data[index3(size, x, y, z)]),
{
    lemma_cell_corners(vol, data, size, x, y, z, 0, 0, 0);
}

/// Voxels that lie below twice the block counts along each axis get distinct
/// (block position, offset) pairs from the lookup.
pub proof fn lemma_lookup_injective(
    vol: BlockVolumeView,
    x1: int,
    y1: int,
    z1: int,
    x2: int,
    y2: int,
    z2: int,
)
    requires
        0 <= x1 < 2 * vol.block_size.x,
        0 <= y1 < 2 * vol.block_size.y,
        0 <= z1 < 2 * vol.block_size.z,
        0 <= x2 < 2 * vol.block_size.x,
        0 <= y2 < 2 * vol.block_size.y,
        0 <= z2 < 2 * vol.block_size.z,
        vol.spec_block_index(x1, y1, z1) == vol.spec_block_index(x2, y2, z2),
        BlockVolumeView::spec_block_offset(x1, y1, z1) == BlockVolumeView::spec_block_offset(
            x2,
            y2,
            z2,
        ),
    ensures
        x1 == x2 && y1 == y2 && z1 == z2,
{
    let by = vol.block_size.y as int;
    let bz = vol.block_size.z as int;
    let (a1, b1, c1) = (x1 / 2, y1 / 2, z1 / 2);
    let (a2, b2, c2) = (x2 / 2, y2 / 2, z2 / 2);
    assert(c1 + b1 * bz + a1 * by * bz == (a1 * by + b1) * bz + c1) by (nonlinear_arith);
    assert(c2 + b2 * bz + a2 * by * bz == (a2 * by + b2) * bz + c2) by (nonlinear_arith);
    lemma_quotient_remainder_unique(a1 * by + b1, c1, a2 * by + b2, c2, bz);
    lemma_quotient_remainder_unique(a1, b1, a2, b2, by);
    lemma_block_slot_decode(x1 % 2, y1 % 2, z1 % 2);
    lemma_block_slot_decode(x2 % 2, y2 % 2, z2 % 2);
}

/// What a volume is built from; every part may be missing. The scale and the
/// transfer function are carried through to the caller as they are.
pub struct BuildMetadata<S, T> {
    /// Voxels along each axis.
    pub size: Option<Dims>,
    /// Distance between neighbouring voxels along each axis.
    pub scale: Option<S>,
    /// The volume file's bytes.
    pub data: Option<Vec<u8>>,
    /// Position in `data` of the first voxel; 0 where missing.
    pub data_offset: Option<usize>,
    /// Transfer function from voxel values to colours.
    pub tf: Option<T>,
}

impl<S, T> BuildMetadata<S, T> {
    /// Every part that building needs is present.
    pub open spec fn is_complete(self) -> bool {
        &&& self.size is Some
        &&& self.scale is Some
        &&& self.data is Some
        &&& self.tf is Some
    }

    /// Position in `data` of the first voxel.
    pub open spec fn offset(self) -> int {
        match self.data_offset {
            Some(o) => o as int,
            None => 0,
        }
    }

    /// The voxel bytes: `data` from the offset on.
    pub open spec fn voxels(self) -> Seq<u8> {
        self.data.unwrap()@.subrange(self.offset(), self.data.unwrap()@.len() as int)
    }
}

/// The voxel bytes of metadata with data are the data from the given offset
/// on, or the whole data where no offset is given.
pub proof fn lemma_voxels_follow_offset<S, T>(m: BuildMetadata<S, T>)
    requires
        m.data is Some,
    ensures
        m.data_offset matches Some(o) ==> (o <= m.data.unwrap()@.len() ==> {
            &&& m.voxels().len() == m.data.unwrap()@.len() - o
            &&& forall|i: int|
                0 <= i < m.voxels().len() ==> #[trigger] m.voxels()[i] == m.data.unwrap()@[o + i]
        }),
        m.data_offset is None ==> m.voxels() == m.data.unwrap()@,
{
    if m.data_offset is None {
        assert(m.voxels() =~= m.data.unwrap()@);
    }
}

/// In a volume built from complete metadata, looking up a voxel inside the
/// grid gives back the data byte at the offset plus the voxel's position.
pub proof fn lemma_metadata_lookup<S, T>(
    m: BuildMetadata<S, T>,
    vol: BlockVolumeView,
    x: int,
    y: int,
    z: int,
)
    requires
        m.is_complete(),
        m.data_offset matches Some(o) ==> o + m.size.unwrap().volume() <= m.data.unwrap()@.len(),
        m.data_offset is None ==> m.size.unwrap().volume() <= m.data.unwrap()@.len(),
        vol.is_built_from(m.voxels(), m.size.unwrap()),
        0 <= x < m.size.unwrap().x,
        0 <= y < m.size.unwrap().y,
        0 <= z < m.size.unwrap().z,
    ensures
        m.data_offset matches Some(o) ==> vol.spec_get_3d_data(x, y, z) == Some(
            m.data.unwrap()@[o + index3(m.size.unwrap(), x, y, z)],
        ),
        m.data_offset is None ==> vol.spec_get_3d_data(x, y, z) == Some(
            m.data.unwrap()@[index3(m.size.unwrap(), x, y, z)],
        ),
{
    let size = m.size.unwrap();
    lemma_lookup_gives_source_voxel(vol, m.voxels(), size, x, y, z);
    lemma_index3_in_volume(size, x, y, z);
    lemma_voxels_follow_offset(m);
    if let Some(o) = m.data_offset {
        assert(m.voxels()[index3(size, x, y, z)] == m.data.unwrap()@[o + index3(size, x, y, z)]);
    }
}

/// A voxel grid cut into blocks of `BLOCK_SIDE`^3 voxels whose origins are
/// `BLOCK_SIDE - BLOCK_OVERLAP` voxels apart, so that neighbouring blocks share
/// a face.
pub struct BlockVolume {
    data_size: Dims,
    block_size: Dims,
    data: Vec<Block>,
}

impl View for BlockVolume {
    type V = BlockVolumeView;

    closed spec fn view(&self) -> BlockVolumeView {
        BlockVolumeView {
            data_size: self.data_size,
            block_size: self.block_size,
            blocks: self.data@.map_values(|b: Block| b@),
        }
    }
}

impl BlockVolume {
    /// Block 3d position -> position inside the block.
    fn get_block_offset(&self, x: usize, y: usize, z: usize) -> (res: usize)
        ensures
            res == BlockVolumeView::spec_block_offset(x as int, y as int, z as int),
            res < BLOCK_DATA_LEN,
    {
        let jump_per_block = BLOCK_SIDE - BLOCK_OVERLAP;
        (z % jump_per_block) + (y % jump_per_block) * BLOCK_SIDE + (x % jump_per_block)
            * BLOCK_SIDE * BLOCK_SIDE
    }

    /// Voxel 3d position -> position of its block in the block list.
    fn get_block_index(&self, x: usize, y: usize, z: usize) -> (res: usize)
        requires
            self@.index_fits(x as int, y as int, z as int),
        ensures
            res == self@.spec_block_index(x as int, y as int, z as int),
    {
        let jump_per_block = BLOCK_SIDE - BLOCK_OVERLAP;
        proof {
            let bz = self.block_size.z as int;
            let by = self.block_size.y as int;
            assert(0 <= (y / 2) * bz) by (nonlinear_arith) requires 0 <= y / 2, 0 <= bz;
            assert(0 <= (x / 2) * by * bz) by (nonlinear_arith) requires 0 <= x / 2, 0 <= by, 0 <= bz;
        }
        (z / jump_per_block) + (y / jump_per_block) * self.block_size.z + (x / jump_per_block)
            * self.block_size.y * self.block_size.z
    }

    /// Voxel 3d position -> (position of its block in the block list,
    /// position inside the block).
    pub fn get_indexes(&self, x: usize, y: usize, z: usize) -> (res: (usize, usize))
        requires
            self@.index_fits(x as int, y as int, z as int),
        ensures
            res.0 == self@.spec_block_index(x as int, y as int, z as int),
            res.1 == BlockVolumeView::spec_block_offset(x as int, y as int, z as int),
    {
        let block_offset = self.get_block_offset(x, y, z);
        let block_index = self.get_block_index(x, y, z);
        (block_index, block_offset)
    }

    /// The value of voxel `(x, y, z)` as the block structure holds it, or
    /// `None` where the block it is looked up in does not exist.
    fn get_3d_data(&self, x: usize, y: usize, z: usize) -> (res: Option<u8>)
        requires
            self@.index_fits(x as int, y as int, z as int),
        ensures
            res == self@.spec_get_3d_data(x as int, y as int, z as int),
    {
        let (block_index, block_offset) = self.get_indexes(x, y, z);
        if block_index < self.data.len() {
            let b = &self.data[block_index];
            proof {
                broadcast use vstd::array::group_array_axioms;
            }
            Some(b.data[block_offset])
        } else {
            None
        }
    }

    /// Whether the lookup arithmetic for voxel `(x, y, z)` stays within `usize`.
    pub fn index_fits(&self, x: usize, y: usize, z: usize) -> (res: bool)
        ensures
            res == self@.index_fits(x as int, y as int, z as int),
    {
        let jump_per_block = BLOCK_SIDE - BLOCK_OVERLAP;
        let ghost (xi, yi) = (x / 2, y / 2);
        let ghost by = self.block_size.y as int;
        let ghost bz = self.block_size.z as int;
        proof {
            assert(0 <= xi * by) by (nonlinear_arith) requires 0 <= xi, 0 <= by;
            assert(0 <= yi * bz) by (nonlinear_arith) requires 0 <= yi, 0 <= bz;
            assert(0 <= (xi * by) * bz) by (nonlinear_arith) requires 0 <= xi * by, 0 <= bz;
        }
        match (x / jump_per_block).checked_mul(self.block_size.y) {
            None => false,
            Some(a) => match a.checked_mul(self.block_size.z) {
                None => false,
                Some(b) => match (y / jump_per_block).checked_mul(self.block_size.z) {
                    None => false,
                    Some(c) => match (z / jump_per_block).checked_add(c) {
                        None => false,
                        Some(d) => d.checked_add(b).is_some(),
                    },
                },
            },
        }
    }

    /// The block values at the eight corners of the cell whose lowest corner
    /// is voxel `(x, y, z)`, as sampling interpolates between them: first the
    /// face at the voxel's x, then the face one step further along x; in each
    /// face the corners at (y, z), (y, z + 1), (y + 1, z), (y + 1, z + 1).
    /// `None` where the lookup arithmetic overflows or the block does not exist.
    pub fn sample_corners(&self, x: usize, y: usize, z: usize) -> (res: Option<([u8; 4], [u8; 4])>)
        ensures
            res is Some <==> self@.index_fits(x as int, y as int, z as int)
                && self@.spec_block_index(x as int, y as int, z as int) < self@.blocks.len(),
            res matches Some((first, second)) ==> {
                let b = self@.blocks[self@.spec_block_index(x as int, y as int, z as int)];
                let (ox, oy, oz) = (x % 2, y % 2, z % 2);
                &&& first@ == seq![
                    b[block_slot(ox as int, oy as int, oz as int)],
                    b[block_slot(ox as int, oy as int, oz + 1)],
                    b[block_slot(ox as int, oy + 1, oz as int)],
                    b[block_slot(ox as int, oy + 1, oz + 1)],
                ]
                &&& second@ == seq![
                    b[block_slot(ox + 1, oy as int, oz as int)],
                    b[block_slot(ox + 1, oy as int, oz + 1)],
                    b[block_slot(ox + 1, oy + 1, oz as int)],
                    b[block_slot(ox + 1, oy + 1, oz + 1)],
                ]
            },
    {
        if !self.index_fits(x, y, z) {
            return None;
        }
        let (block_index, block_offset) = self.get_indexes(x, y, z);
        if block_index >= self.data.len() {
            return None;
        }
        let block = &self.data[block_index];
        let first_index = block_offset;
        let second_index = block_offset + BLOCK_SIDE * BLOCK_SIDE;
        let first_data = block.get_block_data_half(first_index);
        let second_data = block.get_block_data_half(second_index);
        Some((first_data, second_data))
    }

    /// Number of blocks in the block list.
    pub fn block_count(&self) -> (res: usize)
        ensures
            res == self@.blocks.len(),
    {
        self.data.len()
    }

    /// Size of the voxel grid.
    pub fn get_size(&self) -> (res: Dims)
        ensures
            res == self@.data_size,
    {
        self.data_size
    }

    /// The value of voxel `(x, y, z)` as the block structure holds it, or
    /// `None` where the block it is looked up in does not exist.
    pub fn get_data(&self, x: usize, y: usize, z: usize) -> (res: Option<u8>)
        requires
            self@.index_fits(x as int, y as int, z as int),
        ensures
            res == self@.spec_get_3d_data(x as int, y as int, z as int),
    {
        self.get_3d_data(x, y, z)
    }

    /// Builds a volume from its metadata: fails with "No size", "No scale",
    /// "No data" or "No transfer function" on the first part that is missing,
    /// in that order; otherwise cuts the voxel bytes after the offset into
    /// blocks, and hands back the scale and the transfer function.
    pub fn from_metadata<S, T>(metadata: BuildMetadata<S, T>) -> (res: Result<
        (BlockVolume, S, T),
        &'static str,
    >)
        requires
            metadata.is_complete() ==> {
                let size = metadata.size.unwrap();
                let data = metadata.data.unwrap()@;
                &&& metadata.offset() <= data.len()
                &&& size.volume() <= data.len() - metadata.offset()
                &&& size.volume() > 0 ==> size.x < usize::MAX && size.y < usize::MAX && size.z
                    < usize::MAX
            },
        ensures
            metadata.size is None ==> (res matches Err(e) && e@ == "No size"@),
            metadata.size is Some && metadata.scale is None ==> (res matches Err(e) && e@
                == "No scale"@),
            metadata.size is Some && metadata.scale is Some && metadata.data is None ==> (res matches Err(
                e,
            ) && e@ == "No data"@),
            metadata.size is Some && metadata.scale is Some && metadata.data is Some
                && metadata.tf is None ==> (res matches Err(e) && e@ == "No transfer function"@),
            metadata.is_complete() ==> (res matches Ok((volume, scale, tf)) && volume@.is_built_from(
                metadata.voxels(),
                metadata.size.unwrap(),
            ) && volume@.data_size == metadata.size.unwrap() && volume@.blocks.len() <= usize::MAX && scale == metadata.scale.unwrap() && tf
                == metadata.tf.unwrap()),
    {
        let BuildMetadata { size, scale, data, data_offset, tf } = metadata;
        let size = match size {
            Some(s) => s,
            None => return Err("No size"),
        };
        let scale = match scale {
            Some(s) => s,
            None => return Err("No scale"),
        };
        let data = match data {
            Some(d) => d,
            None => return Err("No data"),
        };
        let offset = match data_offset {
            Some(o) => o,
            None => 0,
        };
        let tf = match tf {
            Some(t) => t,
            None => return Err("No transfer function"),
        };
        let slice = &data.as_slice()[offset..data.len()];
        let volume = BlockVolume::build(slice, size);
        Ok((volume, scale, tf))
    }

    /// Cuts the voxel sequence `data` of a grid of size `size` into blocks:
    /// one block for each origin whose coordinates are multiples of
    /// `BLOCK_SIDE - BLOCK_OVERLAP` below the size, listed with z running
    /// fastest, then y, then x. The number of blocks along each axis is kept
    /// for lookups.
    pub fn build(data: &[u8], size: Dims) -> (res: BlockVolume)
        requires
            size.volume() <= data@.len(),
            size.volume() > 0 ==> size.x < usize::MAX && size.y < usize::MAX && size.z
                < usize::MAX,
        ensures
            res@.is_built_from(data@, size),
            res@.data_size == size,
            res@.blocks.len() <= usize::MAX,
    {
        let step_size = BLOCK_SIDE - BLOCK_OVERLAP;
        let nx = size.x / step_size + size.x % step_size;
        let ny = size.y / step_size + size.y % step_size;
        let nz = size.z / step_size + size.z % step_size;
        assert(nx == blocks_along(size.x as int));
        assert(ny == blocks_along(size.y as int));
        assert(nz == blocks_along(size.z as int));
        assert forall|px: int, py: int, pz: int|
            0 <= px < size.x && 0 <= py < size.y && 0 <= pz < size.z implies #[trigger] index3(
            size,
            px,
            py,
            pz,
        ) < data@.len() by {
            lemma_index3_in_volume(size, px, py, pz);
        }

        let mut blocks: Vec<Block> = Vec::new();
        let mut i: usize = 0;
        proof {
            lemma_slot_carry_j(size, 0);
        }
        while i < nx
            invariant
                nx == blocks_along(size.x as int),
                ny == blocks_along(size.y as int),
                nz == blocks_along(size.z as int),
                step_size == 2,
                i <= nx,
                size.volume() > 0 ==> size.x < usize::MAX && size.y < usize::MAX && size.z
                    < usize::MAX,
                forall|px: int, py: int, pz: int|
                    0 <= px < size.x && 0 <= py < size.y && 0 <= pz < size.z ==> #[trigger] index3(
                        size,
                        px,
                        py,
                        pz,
                    ) < data@.len(),
                blocks@.len() == block_list_slot(size, i as int, 0, 0),
                forall|i2: int, j2: int, l2: int|
                    0 <= i2 < i && 0 <= j2 < ny && 0 <= l2 < nz ==> (#[trigger] blocks@[block_list_slot(
                        size,
                        i2,
                        j2,
                        l2,
                    )])@ == spec_block(data@, size, 2 * i2, 2 * j2, 2 * l2),
            decreases nx - i,
        {
            let x = i * step_size;
            let mut j: usize = 0;
            while j < ny
                invariant
                    nx == blocks_along(size.x as int),
                    ny == blocks_along(size.y as int),
                    nz == blocks_along(size.z as int),
                    step_size == 2,
                    i < nx,
                    x == 2 * i,
                    j <= ny,
                    size.volume() > 0 ==> size.x < usize::MAX && size.y < usize::MAX && size.z
                        < usize::MAX,
                    forall|px: int, py: int, pz: int|
                        0 <= px < size.x && 0 <= py < size.y && 0 <= pz < size.z
                            ==> #[trigger] index3(size, px, py, pz) < data@.len(),
                    blocks@.len() == block_list_slot(size, i as int, j as int, 0),
                    forall|i2: int, j2: int, l2: int|
                        0 <= i2 < i && 0 <= j2 < ny && 0 <= l2 < nz
                            ==> (#[trigger] blocks@[block_list_slot(size, i2, j2, l2)])@
                            == spec_block(data@, size, 2 * i2, 2 * j2, 2 * l2),
                    forall|j2: int, l2: int|
                        0 <= j2 < j && 0 <= l2 < nz ==> (#[trigger] blocks@[block_list_slot(
                            size,
                            i as int,
                            j2,
                            l2,
                        )])@ == spec_block(data@, size, 2 * i, 2 * j2, 2 * l2),
                decreases ny - j,
            {
                let y = j * step_size;
                let mut l: usize = 0;
                while l < nz
                    invariant
                        nx == blocks_along(size.x as int),
                        ny == blocks_along(size.y as int),
                        nz == blocks_along(size.z as int),
                        step_size == 2,
                        i < nx,
                        j < ny,
                        x == 2 * i,
                        y == 2 * j,
                        l <= nz,
                        size.volume() > 0 ==> size.x < usize::MAX && size.y < usize::MAX
                            && size.z < usize::MAX,
                        forall|px: int, py: int, pz: int|
                            0 <= px < size.x && 0 <= py < size.y && 0 <= pz < size.z
                                ==> #[trigger] index3(size, px, py, pz) < data@.len(),
                        blocks@.len() == block_list_slot(size, i as int, j as int, l as int),
                        forall|i2: int, j2: int, l2: int|
                            0 <= i2 < i && 0 <= j2 < ny && 0 <= l2 < nz
                                ==> (#[trigger] blocks@[block_list_slot(size, i2, j2, l2)])@
                                == spec_block(data@, size, 2 * i2, 2 * j2, 2 * l2),
                        forall|j2: int, l2: int|
                            0 <= j2 < j && 0 <= l2 < nz ==> (#[trigger] blocks@[block_list_slot(
                                size,
                                i as int,
                                j2,
                                l2,
                            )])@ == spec_block(data@, size, 2 * i, 2 * j2, 2 * l2),
                        forall|l2: int|
                            0 <= l2 < l ==> (#[trigger] blocks@[block_list_slot(
                                size,
                                i as int,
                                j as int,
                                l2,
                            )])@ == spec_block(data@, size, 2 * i, 2 * j, 2 * l2),
                    decreases nz - l,
                {
                    let z = l * step_size;
                    proof {
                        lemma_volume_positive(size);
                        lemma_slots_before(size, i as int, j as int, l as int);
                    }
                    let block = get_block(data, size, x, y, z);
                    blocks.push(block);
                    l += 1;
                }
                proof {
                    lemma_slot_carry_l(size, i as int, j as int);
                }
                j += 1;
            }
            proof {
                lemma_slot_carry_j(size, i as int);
            }
            i += 1;
        }
        let block_size = Dims::new(nx, ny, nz);
        // The length of a `Vec` fits in `usize`.
        let count = blocks.len();
        let res = BlockVolume { data_size: size, block_size, data: blocks };
        proof {
            lemma_slot_carry_j(size, nx as int);
            lemma_slots_before(size, nx as int, 0, 0);
            assert forall|i2: int, j2: int, l2: int|
                0 <= i2 < nx && 0 <= j2 < ny && 0 <= l2 < nz implies #[trigger] res@.blocks[block_list_slot(
                size,
                i2,
                j2,
                l2,
            )] == spec_block(data@, size, 2 * i2, 2 * j2, 2 * l2) by {
                assert(blocks@[block_list_slot(size, i2, j2, l2)]@ == spec_block(
                    data@,
                    size,
                    2 * i2,
                    2 * j2,
                    2 * l2,
                ));
            }
        }
        res
    }
}

} // verus!
