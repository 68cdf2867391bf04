//! The voxel buffer: a dense, fixed-shape 3D array of voxels, the storage
//! unit for one chunk's block data.

use vstd::prelude::*;
use crate::shape::{lemma_index_in_range, lemma_index_injective, lemma_index_surjective, BufferShape};
use crate::voxel::Voxel;

verus! {

/// An axis-aligned box of cells, given by its lowest corner and its dimensions.
#[derive(Clone, Copy, Debug)]
pub struct Extent {
    pub minimum: [u32; 3],
    pub shape: [u32; 3],
}

impl Extent {
    /// Whether cell `(x, y, z)` lies inside the box.
    pub open spec fn contains(self, x: int, y: int, z: int) -> bool {
        &&& self.minimum[0] <= x < self.minimum[0] + self.shape[0]
        &&& self.minimum[1] <= y < self.minimum[1] + self.shape[1]
        &&& self.minimum[2] <= z < self.minimum[2] + self.shape[2]
    }

    /// Whether the whole box lies inside an array of the given shape.
    pub open spec fn fits(self, shape: BufferShape) -> bool {
        &&& self.minimum[0] + self.shape[0] <= shape.x
        &&& self.minimum[1] + self.shape[1] <= shape.y
        &&& self.minimum[2] + self.shape[2] <= shape.z
    }

    /// The box with the given lowest corner and dimensions.
    pub fn from_min_and_shape(minimum: [u32; 3], shape: [u32; 3]) -> (e: Extent)
        ensures
            e.minimum == minimum,
            e.shape == shape,
    {
        Extent { minimum, shape }
    }

    /// Decides whether the box lies inside an array of the given shape.
    pub fn fits_in(&self, shape: &BufferShape) -> (b: bool)
        ensures
            b == self.fits(*shape),
    {
        self.minimum[0] as u64 + self.shape[0] as u64 <= shape.x as u64
            && self.minimum[1] as u64 + self.shape[1] as u64 <= shape.y as u64
            && self.minimum[2] as u64 + self.shape[2] as u64 <= shape.z as u64
    }
}

/// Fills the box `minimum .. minimum + fill_shape` of the array `data`, whose
/// dimensions are `dims`, with `value`.
///
/// Calls `ndcopy::fill3` with an `ndshape::RuntimeShape` built from `dims`. The
/// contract claims what that function's row loop does when the box lies inside
/// the array: every cell of the box holds `value` afterwards, every other cell
/// keeps what it held, and the length does not change.
#[verifier::external_body]
fn fill_box(data: &mut Vec<Voxel>, dims: BufferShape, minimum: [u32; 3], fill_shape: [u32; 3], value: Voxel)
    requires
        dims.wf(),
        old(data)@.len() == dims.volume(),
        (Extent { minimum, shape: fill_shape }).fits(dims),
    ensures
        final(data)@.len() == old(data)@.len(),
        forall|x: int, y: int, z: int|
            dims.contains(x, y, z) ==> #[trigger] final(data)@[dims.index_of(x, y, z)] == (if (Extent {
                minimum,
                shape: fill_shape,
            }).contains(x, y, z) {
                value
            } else {
                old(data)@[dims.index_of(x, y, z)]
            }),
{
    let dst_shape = ndshape::RuntimeShape::<u32, 3>::new([dims.x, dims.y, dims.z]);
    ndcopy::fill3(fill_shape, value, data.as_mut_slice(), &dst_shape, minimum);
}

/// Copies the box `src_start .. src_start + copy_shape` of the array `src`, whose
/// dimensions are `src_dims`, onto the box of the same size at `dst_start` in the
/// array `dst`, whose dimensions are `dst_dims`.
///
/// Calls `ndcopy::copy3` with two `ndshape::RuntimeShape` values. The contract
/// claims what that function's row loop does when both boxes lie inside their
/// arrays: every cell of the destination box holds the voxel of the matching
/// source cell afterwards, every other destination cell keeps what it held, and
/// the length does not change.
#[verifier::external_body]
fn copy_box(
    copy_shape: [u32; 3],
    src: &Vec<Voxel>,
    src_dims: BufferShape,
    src_start: [u32; 3],
    dst: &mut Vec<Voxel>,
    dst_dims: BufferShape,
    dst_start: [u32; 3],
)
    requires
        src_dims.wf(),
        dst_dims.wf(),
        src@.len() == src_dims.volume(),
        old(dst)@.len() == dst_dims.volume(),
        (Extent { minimum: src_start, shape: copy_shape }).fits(src_dims),
        (Extent { minimum: dst_start, shape: copy_shape }).fits(dst_dims),
    ensures
        final(dst)@.len() == old(dst)@.len(),
        forall|x: int, y: int, z: int|
            dst_dims.contains(x, y, z) ==> #[trigger] final(dst)@[dst_dims.index_of(x, y, z)] == (if (Extent {
                minimum: dst_start,
                shape: copy_shape,
            }).contains(x, y, z) {
                src@[src_dims.index_of(
                    x - dst_start[0] + src_start[0],
                    y - dst_start[1] + src_start[1],
                    z - dst_start[2] + src_start[2],
                )]
            } else {
                old(dst)@[dst_dims.index_of(x, y, z)]
            }),
{
    let src_shape = ndshape::RuntimeShape::<u32, 3>::new([src_dims.x, src_dims.y, src_dims.z]);
    let dst_shape = ndshape::RuntimeShape::<u32, 3>::new([dst_dims.x, dst_dims.y, dst_dims.z]);
    ndcopy::copy3(copy_shape, src.as_slice(), &src_shape, src_start, dst.as_mut_slice(), &dst_shape, dst_start);
}

/// A buffer of voxels stored as one contiguous array, together with its shape.
#[derive(Clone, Debug)]
pub struct VoxelBuffer {
    data: Vec<Voxel>,
    shape: BufferShape,
}

impl View for VoxelBuffer {
    type V = Seq<Voxel>;

    /// The flat voxel array, in linearization order.
    closed spec fn view(&self) -> Seq<Voxel> {
        self.data@
    }
}

impl VoxelBuffer {
    /// The shape this buffer was made with.
    pub closed spec fn shape_spec(&self) -> BufferShape {
        self.shape
    }

    /// The invariant of every buffer: the array holds exactly one voxel per cell.
    pub open spec fn wf(&self) -> bool {
        &&& self.shape_spec().wf()
        &&& self@.len() == self.shape_spec().volume()
    }

    /// The voxel stored at cell `(x, y, z)`.
    pub open spec fn at(&self, x: int, y: int, z: int) -> Voxel {
        self@[self.shape_spec().index_of(x, y, z)]
    }

    /// Allocates a buffer of the given shape with every cell holding `initial_val`.
    pub fn new(shape: BufferShape, initial_val: Voxel) -> (b: Self)
        requires
            shape.wf(),
        ensures
            b.wf(),
            b.shape_spec() == shape,
            b@ == Seq::new(shape.volume() as nat, |i: int| initial_val),
    {
        let n = shape.size() as usize;
        let data = vec![initial_val; n];
        assert(data@ =~= Seq::new(shape.volume() as nat, |i: int| initial_val));
        VoxelBuffer { data, shape }
    }

    /// Allocates a buffer of the given shape with every cell holding the empty voxel.
    pub fn new_empty(shape: BufferShape) -> (b: Self)
        requires
            shape.wf(),
        ensures
            b.wf(),
            b.shape_spec() == shape,
            b@ == Seq::new(shape.volume() as nat, |i: int| Voxel(0)),
    {
        VoxelBuffer::new(shape, Voxel(0))
    }

    /// Builds a buffer from a flat voxel array, or gives the array back untouched
    /// in `Err` when its length is not the shape's cell count.
    pub fn from_voxels(shape: BufferShape, data: Vec<Voxel>) -> (r: Result<Self, Vec<Voxel>>)
        ensures
            r.is_ok() <==> (shape.wf() && data@.len() == shape.volume()),
            r matches Ok(b) ==> b.wf() && b.shape_spec() == shape && b@ == data@,
            r matches Err(d) ==> d@ == data@,
    {
        match shape.checked_size() {
            Some(n) => {
                if data.len() == n as usize {
                    Ok(VoxelBuffer { data, shape })
                } else {
                    Err(data)
                }
            },
            None => Err(data),
        }
    }

    /// The linear index of a cell of this buffer.
    fn linearize(&self, pos: [u32; 3]) -> (i: usize)
        requires
            self.wf(),
            self.shape_spec().contains(pos[0] as int, pos[1] as int, pos[2] as int),
        ensures
            i == self.shape_spec().index_of(pos[0] as int, pos[1] as int, pos[2] as int),
            i < self@.len(),
    {
        proof {
            lemma_index_in_range(
                self.shape.x as int,
                self.shape.y as int,
                self.shape.z as int,
                pos[0] as int,
                pos[1] as int,
                pos[2] as int,
            );
            assert(self.shape.x * pos[1] <= self.shape.x * self.shape.y) by (nonlinear_arith)
                requires
                    pos[1] < self.shape.y,
            ;
        }
        let row: u32 = self.shape.x * pos[1];
        let stride: u32 = self.shape.x * self.shape.y;
        let plane: u32 = stride * pos[2];
        (pos[0] + row + plane) as usize
    }

    /// Returns the voxel at the queried position in local space.
    pub fn voxel_at(&self, pos: [u32; 3]) -> (v: Voxel)
        requires
            self.wf(),
            self.shape_spec().contains(pos[0] as int, pos[1] as int, pos[2] as int),
        ensures
            v == self.at(pos[0] as int, pos[1] as int, pos[2] as int),
    {
        let i = self.linearize(pos);
        self.data[i]
    }

    /// Returns a mutable reference to the voxel at the queried position in local
    /// space: what is written through it is the only change to the buffer.
    pub fn voxel_at_mut(&mut self, pos: [u32; 3]) -> (v: &mut Voxel)
        requires
            old(self).wf(),
            old(self).shape_spec().contains(pos[0] as int, pos[1] as int, pos[2] as int),
        ensures
            *v == old(self).at(pos[0] as int, pos[1] as int, pos[2] as int),
            final(self).shape_spec() == old(self).shape_spec(),
            final(self)@ == old(self)@.update(
                old(self).shape_spec().index_of(pos[0] as int, pos[1] as int, pos[2] as int),
                *final(v),
            ),
            final(self).wf(),
    {
        let i = self.linearize(pos);
        &mut self.data[i]
    }

    /// Writes `val` at the queried position in local space and leaves every
    /// other cell as it was.
    pub fn set_voxel(&mut self, pos: [u32; 3], val: Voxel)
        requires
            old(self).wf(),
            old(self).shape_spec().contains(pos[0] as int, pos[1] as int, pos[2] as int),
        ensures
            final(self).wf(),
            final(self).shape_spec() == old(self).shape_spec(),
            final(self)@ == old(self)@.update(
                old(self).shape_spec().index_of(pos[0] as int, pos[1] as int, pos[2] as int),
                val,
            ),
            forall|x: int, y: int, z: int|
                old(self).shape_spec().contains(x, y, z) ==> #[trigger] final(self).at(x, y, z) == (if x
                    == pos[0] && y == pos[1] && z == pos[2] {
                    val
                } else {
                    old(self).at(x, y, z)
                }),
    {
        let i = self.linearize(pos);
        self.data.set(i, val);
        proof {
            let s = self.shape;
            assert forall|x: int, y: int, z: int| s.contains(x, y, z) implies #[trigger] self.at(x, y, z)
                == (if x == pos[0] && y == pos[1] && z == pos[2] {
                val
            } else {
                old(self).at(x, y, z)
            }) by {
                lemma_index_in_range(s.x as int, s.y as int, s.z as int, x, y, z);
                if s.index_of(x, y, z) == i {
                    lemma_index_injective(
                        s.x as int,
                        s.y as int,
                        x,
                        y,
                        z,
                        pos[0] as int,
                        pos[1] as int,
                        pos[2] as int,
                    );
                }
            }
        }
    }

    /// The flat voxel array.
    pub fn slice(&self) -> (s: &[Voxel])
        ensures
            s@ == self@,
    {
        self.data.as_slice()
    }

    /// The shape of the buffer.
    pub fn shape(&self) -> (s: &BufferShape)
        ensures
            *s == self.shape_spec(),
    {
        &self.shape
    }

    /// Fills an extent of this buffer with the specified value: every cell inside
    /// the extent holds `val` afterwards and every other cell is unchanged.
    pub fn fill_extent(&mut self, extent: Extent, val: Voxel)
        requires
            old(self).wf(),
            extent.fits(old(self).shape_spec()),
        ensures
            final(self).wf(),
            final(self).shape_spec() == old(self).shape_spec(),
            forall|x: int, y: int, z: int|
                old(self).shape_spec().contains(x, y, z) ==> #[trigger] final(self).at(x, y, z) == (
                if extent.contains(x, y, z) {
                    val
                } else {
                    old(self).at(x, y, z)
                }),
    {
        fill_box(&mut self.data, self.shape, extent.minimum, extent.shape, val);
    }

    /// Copies the box of dimensions `copy_shape` at `src_start` in this buffer onto
    /// the box of the same dimensions at `dst_start` in `dst`; the rest of `dst`
    /// is unchanged.
    pub fn copy_extent_to(
        &self,
        copy_shape: [u32; 3],
        src_start: [u32; 3],
        dst: &mut VoxelBuffer,
        dst_start: [u32; 3],
    )
        requires
            self.wf(),
            old(dst).wf(),
            (Extent { minimum: src_start, shape: copy_shape }).fits(self.shape_spec()),
            (Extent { minimum: dst_start, shape: copy_shape }).fits(old(dst).shape_spec()),
        ensures
            final(dst).wf(),
            final(dst).shape_spec() == old(dst).shape_spec(),
            forall|x: int, y: int, z: int|
                old(dst).shape_spec().contains(x, y, z) ==> #[trigger] final(dst).at(x, y, z) == (if (Extent {
                    minimum: dst_start,
                    shape: copy_shape,
                }).contains(x, y, z) {
                    self.at(
                        x - dst_start[0] + src_start[0],
                        y - dst_start[1] + src_start[1],
                        z - dst_start[2] + src_start[2],
                    )
                } else {
                    old(dst).at(x, y, z)
                }),
    {
        copy_box(copy_shape, &self.data, self.shape, src_start, &mut dst.data, dst.shape, dst_start);
    }

    /// A copy of this buffer that shares nothing with it.
    pub fn snapshot(&self) -> (b: Self)
        ensures
            b@ == self@,
            b.shape_spec() == self.shape_spec(),
    {
        let data = self.data.clone();
        assert(data@ =~= self.data@);
        VoxelBuffer { data, shape: self.shape }
    }
}

/// Two buffers of one shape that agree on every cell hold the same array.
pub proof fn lemma_cells_determine_buffer(a: VoxelBuffer, b: VoxelBuffer)
    requires
        a.wf(),
        b.wf(),
        a.shape_spec() == b.shape_spec(),
        forall|x: int, y: int, z: int|
            a.shape_spec().contains(x, y, z) ==> #[trigger] a.at(x, y, z) == b.at(x, y, z),
    ensures
        a@ == b@,
{
    let s = a.shape_spec();
    assert forall|i: int| 0 <= i < a@.len() implies a@[i] == b@[i] by {
        let dx = s.x as int;
        let dy = s.y as int;
        let dz = s.z as int;
        if dx == 0 || dy == 0 {
            assert(dx * dy * dz == 0) by (nonlinear_arith)
                requires
                    dx == 0 || dy == 0,
            ;
        } else {
            lemma_index_surjective(dx, dy, dz, i);
            let x = i % dx;
            let y = (i / dx) % dy;
            let z = i / (dx * dy);
            assert(s.contains(x, y, z));
            assert(a.at(x, y, z) == b.at(x, y, z));
        }
    }
    assert(a@ =~= b@);
}

} // verus!
