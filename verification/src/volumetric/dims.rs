use vstd::prelude::*;

verus! {

/// Three unsigned integers along the x, y and z axes: the size of a voxel
/// grid, a voxel position in it, or a count of blocks per axis.
#[derive(Clone, Copy, PartialEq, Eq, Structural, Debug)]
pub struct Dims {
    pub x: usize,
    pub y: usize,
    pub z: usize,
}

impl Dims {
    pub fn new(x: usize, y: usize, z: usize) -> (res: Dims)
        ensures
            res == (Dims { x, y, z }),
    {
        Dims { x, y, z }
    }

    /// Number of voxels in a grid of this size.
    pub open spec fn volume(self) -> int {
        self.x * self.y * self.z
    }
}

/// Position of voxel `(x, y, z)` in the row-major voxel sequence of a grid of
/// size `size`: z runs fastest, then y, then x.
pub open spec fn index3(size: Dims, x: int, y: int, z: int) -> int {
    z + y * size.z + x * size.y * size.z
}

/// A voxel inside the grid comes before the end of the grid's voxel sequence.
pub proof fn lemma_index3_in_volume(size: Dims, x: int, y: int, z: int)
    requires
        0 <= x < size.x,
        0 <= y < size.y,
        0 <= z < size.z,
    ensures
        0 <= x * size.y,
        x * size.y <= x * size.y * size.z,
        x * size.y * size.z <= index3(size, x, y, z),
        0 <= index3(size, x, y, z) < size.volume(),
{
    let sy = size.y as int;
    let sz = size.z as int;
    assert(0 <= y * sz <= (sy - 1) * sz) by (nonlinear_arith)
        requires 0 <= y < sy, 0 < sz;
    assert((sy - 1) * sz == sy * sz - sz) by (nonlinear_arith);
    assert(0 <= x * sy) by (nonlinear_arith) requires 0 <= x, 0 <= sy;
    assert(x * sy <= x * sy * sz) by (nonlinear_arith) requires 0 <= x, 0 <= sy, 1 <= sz;
    assert(0 <= x * sy * sz <= (size.x - 1) * sy * sz) by (nonlinear_arith)
        requires 0 <= x < size.x, 0 <= sy, 0 <= sz;
    assert((size.x - 1) * sy * sz == size.x * sy * sz - sy * sz) by (nonlinear_arith);
}

/// Computes `index3(size, x, y, z)`, evaluated as `z + y * size.z + x * size.y * size.z`.
pub fn get_3d_index(size: Dims, x: usize, y: usize, z: usize) -> (res: usize)
    requires
        x * size.y <= usize::MAX,
        index3(size, x as int, y as int, z as int) <= usize::MAX,
    ensures
        res == index3(size, x as int, y as int, z as int),
{
    proof {
        let sy = size.y as int;
        let sz = size.z as int;
        assert(0 <= y * sz) by (nonlinear_arith) requires 0 <= y, 0 <= sz;
        assert(0 <= x * sy * sz) by (nonlinear_arith) requires 0 <= x, 0 <= sy, 0 <= sz;
    }
    z + y * size.z + x * size.y * size.z
}

/// Voxel positions are laid out row by row: the first voxel is at position
/// 0, one step along z moves one position on, one step along y moves
/// `size.z` positions on, and one step along x moves `size.y * size.z`
/// positions on.
pub proof fn lemma_index3_steps(size: Dims, x: int, y: int, z: int)
    ensures
        index3(size, 0, 0, 0) == 0,
        index3(size, x, y, z + 1) == index3(size, x, y, z) + 1,
        index3(size, x, y + 1, z) == index3(size, x, y, z) + size.z,
        index3(size, x + 1, y, z) == index3(size, x, y, z) + size.y * size.z,
{
    let sy = size.y as int;
    let sz = size.z as int;
    assert((y + 1) * sz == y * sz + sz) by (nonlinear_arith);
    assert((x + 1) * sy * sz == x * sy * sz + sy * sz) by (nonlinear_arith);
    assert(0 * sz == 0 && 0 * sy * sz == 0) by (nonlinear_arith);
}

/// Distinct voxels inside the grid have distinct positions.
pub proof fn lemma_index3_injective(size: Dims, x1: int, y1: int, z1: int, x2: int, y2: int, z2: int)
    requires
        0 <= x1 < size.x,
        0 <= y1 < size.y,
        0 <= z1 < size.z,
        0 <= x2 < size.x,
        0 <= y2 < size.y,
        0 <= z2 < size.z,
        index3(size, x1, y1, z1) == index3(size, x2, y2, z2),
    ensures
        x1 == x2,
        y1 == y2,
        z1 == z2,
{
    let sy = size.y as int;
    let sz = size.z as int;
    assert(z1 + y1 * sz + x1 * sy * sz == (x1 * sy + y1) * sz + z1) by (nonlinear_arith);
    assert(z2 + y2 * sz + x2 * sy * sz == (x2 * sy + y2) * sz + z2) by (nonlinear_arith);
    lemma_quotient_remainder_unique(x1 * sy + y1, z1, x2 * sy + y2, z2, sz);
    lemma_quotient_remainder_unique(x1, y1, x2, y2, sy);
}

/// `q * m + r` with `0 <= r < m` determines `q` and `r`.
pub proof fn lemma_quotient_remainder_unique(q1: int, r1: int, q2: int, r2: int, m: int)
    requires
        0 <= r1 < m,
        0 <= r2 < m,
        q1 * m + r1 == q2 * m + r2,
    ensures
        q1 == q2,
        r1 == r2,
{
    if q1 < q2 {
        assert(q1 * m + r1 < q2 * m + r2) by (nonlinear_arith)
            requires q1 < q2, 0 <= r1 < m, 0 <= r2;
    } else if q2 < q1 {
        assert(q2 * m + r2 < q1 * m + r1) by (nonlinear_arith)
            requires q2 < q1, 0 <= r2 < m, 0 <= r1;
    }
}

} // verus!
