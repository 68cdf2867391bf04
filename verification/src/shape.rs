//! Shapes of dense three-dimensional arrays and their linearization.

use vstd::prelude::*;

verus! {

/// Side length of a chunk along X and Z, in voxels.
pub const CHUNK_LENGTH: u32 = 32;

/// Height of a chunk along Y, in voxels.
pub const CHUNK_HEIGHT: u32 = 256;

/// `CHUNK_LENGTH` as a `usize`.
pub const CHUNK_LENGTH_U: usize = 32;

/// The dimensions of a dense three-dimensional array.
#[derive(Clone, Copy, Debug, PartialEq, Eq, Structural)]
pub struct BufferShape {
    pub x: u32,
    pub y: u32,
    pub z: u32,
}

/// Number of cells of an array with the given dimensions.
pub open spec fn volume(x: int, y: int, z: int) -> int {
    x * y * z
}

/// The linear index of cell `(x, y, z)` in an array whose first two dimensions
/// are `dx` and `dy`: X varies fastest, then Y, then Z.
pub open spec fn linear_index(dx: int, dy: int, x: int, y: int, z: int) -> int {
    x + dx * y + dx * dy * z
}

impl BufferShape {
    /// Number of cells.
    pub open spec fn volume(self) -> int {
        volume(self.x as int, self.y as int, self.z as int)
    }

    /// A shape is usable when its strides and its cell count fit the index type.
    pub open spec fn wf(self) -> bool {
        &&& self.x * self.y <= u32::MAX
        &&& self.volume() <= u32::MAX
    }

    /// Whether `(x, y, z)` names a cell of this shape.
    pub open spec fn contains(self, x: int, y: int, z: int) -> bool {
        0 <= x < self.x && 0 <= y < self.y && 0 <= z < self.z
    }

    /// The linear index of a cell.
    pub open spec fn index_of(self, x: int, y: int, z: int) -> int {
        linear_index(self.x as int, self.y as int, x, y, z)
    }

    /// The shape grown by one cell on every side.
    pub open spec fn padded(self) -> BufferShape
        recommends
            self.x + 2 <= u32::MAX,
            self.y + 2 <= u32::MAX,
            self.z + 2 <= u32::MAX,
    {
        BufferShape { x: (self.x + 2) as u32, y: (self.y + 2) as u32, z: (self.z + 2) as u32 }
    }

    /// The shape of one chunk.
    pub fn chunk() -> (s: BufferShape)
        ensures
            s == (BufferShape { x: CHUNK_LENGTH, y: CHUNK_HEIGHT, z: CHUNK_LENGTH }),
            s.wf(),
            s.volume() == 262144,
    {
        assert(volume(32, 256, 32) == 262144) by (nonlinear_arith);
        BufferShape { x: CHUNK_LENGTH, y: CHUNK_HEIGHT, z: CHUNK_LENGTH }
    }

    /// The dimensions as an array, X first.
    pub fn as_array(&self) -> (a: [u32; 3])
        ensures
            a[0] == self.x,
            a[1] == self.y,
            a[2] == self.z,
    {
        [self.x, self.y, self.z]
    }

    /// Number of cells, or `None` when it does not fit the index type.
    pub fn checked_size(&self) -> (n: Option<u32>)
        ensures
            self.wf() <==> n.is_some(),
            n matches Some(v) ==> v == self.volume(),
    {
        assert(self.x * self.y <= 0xFFFF_FFFF * 0xFFFF_FFFF) by (nonlinear_arith)
            requires
                self.x <= 0xFFFF_FFFF,
                self.y <= 0xFFFF_FFFF,
        ;
        let xy: u64 = (self.x as u64) * (self.y as u64);
        if xy > 0xFFFF_FFFF {
            None
        } else {
            assert(xy * self.z <= 0xFFFF_FFFF * 0xFFFF_FFFF) by (nonlinear_arith)
                requires
                    xy <= 0xFFFF_FFFF,
                    self.z <= 0xFFFF_FFFF,
            ;
            let xyz: u64 = xy * (self.z as u64);
            if xyz > 0xFFFF_FFFF {
                None
            } else {
                Some(xyz as u32)
            }
        }
    }

    /// Number of cells.
    pub fn size(&self) -> (n: u32)
        requires
            self.wf(),
        ensures
            n == self.volume(),
    {
        match self.checked_size() {
            Some(n) => n,
            None => 0,
        }
    }
}

/// With a positive last dimension the first two dimensions' product is at most the volume.
pub proof fn lemma_volume_monotone(x: int, y: int, z: int)
    requires
        0 <= x,
        0 <= y,
        0 <= z,
    ensures
        z >= 1 ==> x * y <= volume(x, y, z),
        volume(x, y, z) >= 0,
{
    assert(z >= 1 ==> x * y <= x * y * z) by (nonlinear_arith)
        requires
            0 <= x,
            0 <= y,
            0 <= z,
    ;
    assert(x * y * z >= 0) by (nonlinear_arith)
        requires
            0 <= x,
            0 <= y,
            0 <= z,
    ;
}

/// A cell inside the shape has a linear index below the volume.
pub proof fn lemma_index_in_range(dx: int, dy: int, dz: int, x: int, y: int, z: int)
    requires
        0 <= x < dx,
        0 <= y < dy,
        0 <= z < dz,
    ensures
        0 <= linear_index(dx, dy, x, y, z) < volume(dx, dy, dz),
        dx * y >= 0,
        dx * dy * z >= 0,
{
    assert(dx * y >= 0 && dx * y <= dx * (dy - 1)) by (nonlinear_arith)
        requires
            0 <= y < dy,
            0 < dx,
    ;
    assert(dx * dy * z >= 0 && dx * dy * z <= dx * dy * (dz - 1)) by (nonlinear_arith)
        requires
            0 <= z < dz,
            0 < dx,
            0 < dy,
    ;
    assert(dx * (dy - 1) == dx * dy - dx) by (nonlinear_arith);
    assert(dx * dy * (dz - 1) == dx * dy * dz - dx * dy) by (nonlinear_arith);
}

/// Distinct cells have distinct linear indices.
pub proof fn lemma_index_injective(
    dx: int,
    dy: int,
    x1: int,
    y1: int,
    z1: int,
    x2: int,
    y2: int,
    z2: int,
)
    requires
        0 <= x1 < dx,
        0 <= y1 < dy,
        0 <= z1,
        0 <= x2 < dx,
        0 <= y2 < dy,
        0 <= z2,
        linear_index(dx, dy, x1, y1, z1) == linear_index(dx, dy, x2, y2, z2),
    ensures
        x1 == x2,
        y1 == y2,
        z1 == z2,
{
    let r1 = x1 + dx * y1;
    let r2 = x2 + dx * y2;
    lemma_index_in_range(dx, dy, 1, x1, y1, 0);
    lemma_index_in_range(dx, dy, 1, x2, y2, 0);
    assert(volume(dx, dy, 1) == dx * dy) by (nonlinear_arith);
    assert(dx * dy * 0 == 0) by (nonlinear_arith);
    assert(0 <= r1 < dx * dy);
    assert(0 <= r2 < dx * dy);
    assert(z1 == z2) by (nonlinear_arith)
        requires
            0 <= r1 < dx * dy,
            0 <= r2 < dx * dy,
            r1 + dx * dy * z1 == r2 + dx * dy * z2,
    ;
    assert(r1 == r2);
    assert(y1 == y2) by (nonlinear_arith)
        requires
            0 <= x1 < dx,
            0 <= x2 < dx,
            x1 + dx * y1 == x2 + dx * y2,
    ;
}

/// Every index below the volume is the linear index of exactly the cell
/// `(i % dx, (i / dx) % dy, i / (dx * dy))`, which lies inside the shape.
pub proof fn lemma_index_surjective(dx: int, dy: int, dz: int, i: int)
    requires
        0 < dx,
        0 < dy,
        0 <= i < volume(dx, dy, dz),
    ensures
        0 <= i % dx < dx,
        0 <= (i / dx) % dy < dy,
        0 <= i / (dx * dy) < dz,
        linear_index(dx, dy, i % dx, (i / dx) % dy, i / (dx * dy)) == i,
{
    let q = i / dx;
    let x = i % dx;
    assert(i == dx * q + x && 0 <= x < dx) by (nonlinear_arith)
        requires
            q == i / dx,
            x == i % dx,
            0 < dx,
    ;
    assert(q >= 0) by (nonlinear_arith)
        requires
            i == dx * q + x,
            0 <= x < dx,
            0 <= i,
            0 < dx,
    ;
    let z = q / dy;
    let y = q % dy;
    assert(q == dy * z + y && 0 <= y < dy) by (nonlinear_arith)
        requires
            z == q / dy,
            y == q % dy,
            0 < dy,
    ;
    assert(z >= 0) by (nonlinear_arith)
        requires
            q == dy * z + y,
            0 <= y < dy,
            0 <= q,
            0 < dy,
    ;
    assert(i == x + dx * y + dx * dy * z) by (nonlinear_arith)
        requires
            i == dx * q + x,
            q == dy * z + y,
    ;
    assert(z < dz) by (nonlinear_arith)
        requires
            i == x + dx * y + dx * dy * z,
            i < dx * dy * dz,
            0 <= x,
            0 <= y,
            0 < dx,
            0 < dy,
            0 <= z,
    ;
    // `i / (dx * dy)` is the same `z`: `i = (dx * dy) * z + r` with `0 <= r < dx * dy`.
    let r = x + dx * y;
    assert(0 <= r < dx * dy) by (nonlinear_arith)
        requires
            r == x + dx * y,
            0 <= x < dx,
            0 <= y < dy,
    ;
    assert(dx * dy > 0) by (nonlinear_arith)
        requires
            0 < dx,
            0 < dy,
    ;
    assert(i == z * (dx * dy) + r) by (nonlinear_arith)
        requires
            i == x + dx * y + dx * dy * z,
            r == x + dx * y,
    ;
    vstd::arithmetic::div_mod::lemma_fundamental_div_mod_converse(i, dx * dy, z, r);
}

} // verus!
