//! Greedy meshing of a voxel buffer: the buffer is copied into a scratch buffer
//! padded by one voxel on every side, merged into quads, and every quad gets its
//! triangle indices and the material of the voxel it starts at.

use vstd::prelude::*;
use crate::buffer::VoxelBuffer;
use crate::shape::{lemma_index_in_range, lemma_index_surjective, lemma_volume_monotone, BufferShape};
use crate::voxel::{MaterialVoxel, Voxel};

verus! {

/// Makes `block_mesh::GreedyQuadsBuffer` known to the verifier as an opaque
/// type: the intermediate buffer of the greedy algorithm, carried between calls.
#[verifier::external_type_specification]
#[verifier::external_body]
pub struct ExGreedyQuadsBuffer(block_mesh::GreedyQuadsBuffer);

/// Number of cube faces, and of quad groups.
pub const FACE_COUNT: usize = 6;

/// A merged rectangular face. `face` says which of the six cube faces it belongs
/// to, in the order -X, -Y, -Z, +X, +Y, +Z; `minimum` is the lowest voxel it
/// covers, in padded coordinates.
#[derive(Clone, Copy, Debug)]
pub struct FaceQuad {
    pub face: usize,
    pub minimum: [u32; 3],
    pub width: u32,
    pub height: u32,
}

/// The quads that greedy meshing yields for the padded voxel array `voxels` of
/// dimensions `dx`, `dy`, `dz`, face by face.
pub uninterp spec fn greedy_quads_of(voxels: Seq<Voxel>, dx: u32, dy: u32, dz: u32) -> Seq<FaceQuad>;

/// Whether a quad names one of the six faces and starts at a cell that is not on
/// the border of an array with dimensions `dims`.
pub open spec fn quad_in_interior(q: FaceQuad, dims: BufferShape) -> bool {
    &&& q.face < FACE_COUNT
    &&& 1 <= q.minimum[0] && q.minimum[0] + 1 < dims.x
    &&& 1 <= q.minimum[1] && q.minimum[1] + 1 < dims.y
    &&& 1 <= q.minimum[2] && q.minimum[2] + 1 < dims.z
}

/// The axis along which the width of a quad on the given face runs: Z for the
/// faces that look along X or Y, X for those that look along Z.
pub open spec fn width_axis(face: int) -> int {
    if face % 3 == 2 {
        0
    } else {
        2
    }
}

/// The axis along which the height of a quad on the given face runs: X for the
/// faces that look along Y, Y for the others.
pub open spec fn height_axis(face: int) -> int {
    if face % 3 == 1 {
        0
    } else {
        1
    }
}

/// The dimension of a shape along an axis, X being axis 0.
pub open spec fn dimension(dims: BufferShape, axis: int) -> int {
    if axis == 0 {
        dims.x as int
    } else if axis == 1 {
        dims.y as int
    } else {
        dims.z as int
    }
}

/// Whether a quad covers at least one cell and ends, along its width and its
/// height, before the border of an array with dimensions `dims`.
pub open spec fn quad_stays_inside(q: FaceQuad, dims: BufferShape) -> bool {
    &&& q.width >= 1
    &&& q.height >= 1
    &&& q.minimum[width_axis(q.face as int)] + q.width < dimension(dims, width_axis(q.face as int))
    &&& q.minimum[height_axis(q.face as int)] + q.height < dimension(dims, height_axis(q.face as int))
}

/// Whether the two triangles of a quad on the given face wind counter-clockwise
/// in the order of its corners.
pub open spec fn winds_counter_clockwise(face: int) -> bool {
    face == 0 || face == 4 || face == 5
}

/// The six triangle indices of a quad whose four vertices start at `start`.
pub open spec fn quad_indices(face: int, start: int) -> Seq<int> {
    if winds_counter_clockwise(face) {
        seq![start, start + 1, start + 2, start + 1, start + 3, start + 2]
    } else {
        seq![start, start + 2, start + 1, start + 1, start + 2, start + 3]
    }
}

/// Makes the intermediate buffer of the greedy algorithm for arrays of `size` cells.
///
/// Calls `block_mesh::GreedyQuadsBuffer::new`; nothing is claimed of the result.
#[verifier::external_body]
fn new_greedy_buffer(size: usize) -> block_mesh::GreedyQuadsBuffer {
    block_mesh::GreedyQuadsBuffer::new(size)
}

/// Runs greedy meshing over the whole padded array and hands out the quads of
/// the six face groups in group order, each tagged with its group's number.
///
/// Calls `block_mesh::greedy_quads` with `block_mesh::RIGHT_HANDED_Y_UP_CONFIG`.
/// The result is named, not described. Beside the name the contract claims what
/// the function's loops show: a quad is pushed for at most one interior cell per
/// face, starts at that interior cell, is at least one cell wide and high, and
/// is never grown past the last interior cell of its row or column.
#[verifier::external_body]
fn greedy_faces(
    voxels: &[Voxel],
    dims: BufferShape,
    max: [u32; 3],
    output: &mut block_mesh::GreedyQuadsBuffer,
) -> (quads: Vec<FaceQuad>)
    requires
        dims.wf(),
        dims.x >= 2,
        dims.y >= 2,
        dims.z >= 2,
        voxels@.len() == dims.volume(),
        max[0] == dims.x - 1,
        max[1] == dims.y - 1,
        max[2] == dims.z - 1,
    ensures
        quads@ == greedy_quads_of(voxels@, dims.x, dims.y, dims.z),
        quads@.len() <= 6 * dims.volume(),
        forall|k: int| 0 <= k < quads@.len() ==> quad_in_interior(#[trigger] quads@[k], dims),
        forall|k: int| 0 <= k < quads@.len() ==> quad_stays_inside(#[trigger] quads@[k], dims),
{
    let shape = ndshape::RuntimeShape::<u32, 3>::new([dims.x, dims.y, dims.z]);
    let faces = &block_mesh::RIGHT_HANDED_Y_UP_CONFIG.faces;
    block_mesh::greedy_quads(voxels, &shape, [0; 3], max, faces, output);
    let groups = output.quads.groups.iter().enumerate();
    groups.flat_map(|(face, group)| {
        group.iter().map(move |q| FaceQuad { face, minimum: q.minimum, width: q.width, height: q.height })
    }).collect()
}

/// The triangle indices of one quad on the given face.
///
/// Calls `block_mesh::OrientedBlockFace::quad_mesh_indices` on the face of that
/// number in `block_mesh::RIGHT_HANDED_Y_UP_CONFIG`. The contract spells out the
/// two index orders of that function and which faces of the configuration wind
/// which way.
#[verifier::external_body]
fn face_quad_indices(face: usize, start: u32) -> (r: [u32; 6])
    requires
        face < FACE_COUNT,
        start + 3 <= u32::MAX,
    ensures
        forall|j: int| 0 <= j < 6 ==> r[j] == #[trigger] quad_indices(face as int, start as int)[j],
{
    block_mesh::RIGHT_HANDED_Y_UP_CONFIG.faces[face].quad_mesh_indices(start)
}

/// The voxel of padded cell `(x, y, z)` over a buffer with the given cells and
/// shape: the buffer's own voxel inside, the empty voxel on the border.
pub open spec fn padded_cell(cells: Seq<Voxel>, shape: BufferShape, x: int, y: int, z: int) -> Voxel {
    if 1 <= x <= shape.x && 1 <= y <= shape.y && 1 <= z <= shape.z {
        cells[shape.index_of(x - 1, y - 1, z - 1)]
    } else {
        Voxel(0)
    }
}

/// The flat array of a buffer padded with one empty voxel on every side.
pub open spec fn padded_cells(cells: Seq<Voxel>, shape: BufferShape) -> Seq<Voxel> {
    let p = shape.padded();
    Seq::new(
        p.volume() as nat,
        |i: int|
            padded_cell(cells, shape, i % (p.x as int), (i / (p.x as int)) % (p.y as int), i / (p.x * p.y)),
    )
}

/// Whether a buffer of this shape can be meshed: the padded array and four
/// vertices for every possible quad must fit the 32-bit index type.
pub open spec fn meshable(shape: BufferShape) -> bool {
    &&& shape.x + 2 <= u32::MAX
    &&& shape.y + 2 <= u32::MAX
    &&& shape.z + 2 <= u32::MAX
    &&& (shape.x + 2) * (shape.y + 2) <= u32::MAX
    &&& 24 * shape.padded().volume() <= u32::MAX
}

/// A meshable shape has a usable padded shape.
pub proof fn lemma_meshable_padded(shape: BufferShape)
    requires
        meshable(shape),
    ensures
        shape.padded().wf(),
        0 <= shape.padded().volume(),
        shape.padded().x == shape.x + 2,
        shape.padded().y == shape.y + 2,
        shape.padded().z == shape.z + 2,
{
    let p = shape.padded();
    lemma_volume_monotone(p.x as int, p.y as int, p.z as int);
}

/// Decides whether a buffer of this shape can be meshed.
pub fn is_meshable(shape: &BufferShape) -> (b: bool)
    ensures
        b == meshable(*shape),
{
    if shape.x > u32::MAX - 2 || shape.y > u32::MAX - 2 || shape.z > u32::MAX - 2 {
        return false;
    }
    let p = BufferShape { x: shape.x + 2, y: shape.y + 2, z: shape.z + 2 };
    proof {
        lemma_volume_monotone(p.x as int, p.y as int, p.z as int);
    }
    match p.checked_size() {
        Some(n) => n <= u32::MAX / 24,
        None => {
            proof {
                if p.x * p.y <= u32::MAX {
                    assert(p.volume() > u32::MAX);
                }
            }
            false
        },
    }
}

/// The render geometry of one chunk, without its floating-point attributes:
/// the merged quads, six triangle indices per quad, and one material index per
/// vertex, four vertices per quad.
#[derive(Clone, Debug)]
pub struct ChunkMesh {
    pub quads: Vec<FaceQuad>,
    pub indices: Vec<u32>,
    pub material_indices: Vec<u32>,
}

/// Whether `indices` and `materials` are the mesh data of `quads` over `buffer`:
/// quad number `k` owns vertices `4k .. 4k + 4`, its six indices are those of its
/// face starting at `4k`, and each of its vertices carries the material of the
/// buffer's voxel at the quad's minimum, taken back to unpadded coordinates.
pub open spec fn is_mesh_of(
    quads: Seq<FaceQuad>,
    buffer: &VoxelBuffer,
    indices: Seq<u32>,
    materials: Seq<u32>,
) -> bool {
    &&& indices.len() == 6 * quads.len()
    &&& materials.len() == 4 * quads.len()
    &&& forall|k: int, j: int|
        0 <= k < quads.len() && 0 <= j < 6 ==> #[trigger] indices[6 * k + j] == quad_indices(
            quads[k].face as int,
            4 * k,
        )[j]
    &&& forall|k: int, j: int|
        0 <= k < quads.len() && 0 <= j < 4 ==> #[trigger] materials[4 * k + j] == buffer.at(
            quads[k].minimum[0] - 1,
            quads[k].minimum[1] - 1,
            quads[k].minimum[2] - 1,
        ).mat_id()
}

impl ChunkMesh {
    /// A mesh without geometry.
    pub fn new() -> (m: Self)
        ensures
            m.quads@.len() == 0,
            m.indices@.len() == 0,
            m.material_indices@.len() == 0,
    {
        ChunkMesh { quads: Vec::new(), indices: Vec::new(), material_indices: Vec::new() }
    }

    /// Number of quads.
    pub fn num_quads(&self) -> (n: usize)
        ensures
            n == self.quads@.len(),
    {
        self.quads.len()
    }
}

/// Computes the triangle indices and per-vertex material indices of `quads` over
/// `buffer` and stores them, with the quads, in `render_mesh`, replacing what it held.
pub fn build_mesh(buffer: &VoxelBuffer, quads: Vec<FaceQuad>, render_mesh: &mut ChunkMesh)
    requires
        buffer.wf(),
        meshable(buffer.shape_spec()),
        4 * quads@.len() <= u32::MAX,
        forall|k: int|
            0 <= k < quads@.len() ==> quad_in_interior(#[trigger] quads@[k], buffer.shape_spec().padded()),
    ensures
        final(render_mesh).quads@ == quads@,
        is_mesh_of(quads@, buffer, final(render_mesh).indices@, final(render_mesh).material_indices@),
{
    let mut indices: Vec<u32> = Vec::new();
    let mut materials: Vec<u32> = Vec::new();
    let n = quads.len();
    let mut k: usize = 0;
    while k < n
        invariant
            buffer.wf(),
            meshable(buffer.shape_spec()),
            n == quads@.len(),
            4 * n <= u32::MAX,
            k <= n,
            forall|i: int|
                0 <= i < quads@.len() ==> quad_in_interior(
                    #[trigger] quads@[i],
                    buffer.shape_spec().padded(),
                ),
            indices@.len() == 6 * k,
            materials@.len() == 4 * k,
            forall|i: int, j: int|
                0 <= i < k && 0 <= j < 6 ==> #[trigger] indices@[6 * i + j] == quad_indices(
                    quads@[i].face as int,
                    4 * i,
                )[j],
            forall|i: int, j: int|
                0 <= i < k && 0 <= j < 4 ==> #[trigger] materials@[4 * i + j] == buffer.at(
                    quads@[i].minimum[0] - 1,
                    quads@[i].minimum[1] - 1,
                    quads@[i].minimum[2] - 1,
                ).mat_id(),
        decreases n - k,
    {
        let quad = quads[k];
        assert(quad_in_interior(quads@[k as int], buffer.shape_spec().padded()));
        let start: u32 = (4 * k) as u32;
        let idx = face_quad_indices(quad.face, start);
        let ghost old_indices = indices@;
        let ghost old_materials = materials@;
        indices.push(idx[0]);
        indices.push(idx[1]);
        indices.push(idx[2]);
        indices.push(idx[3]);
        indices.push(idx[4]);
        indices.push(idx[5]);
        let source = [quad.minimum[0] - 1, quad.minimum[1] - 1, quad.minimum[2] - 1];
        let material: u32 = buffer.voxel_at(source).as_mat_id() as u32;
        materials.push(material);
        materials.push(material);
        materials.push(material);
        materials.push(material);
        proof {
            assert forall|i: int, j: int| 0 <= i < k + 1 && 0 <= j < 6 implies #[trigger] indices@[6 * i
                + j] == quad_indices(quads@[i].face as int, 4 * i)[j] by {
                if i < k {
                    assert(indices@[6 * i + j] == old_indices[6 * i + j]);
                } else {
                    assert(idx[j] == quad_indices(quad.face as int, start as int)[j]);
                }
            }
            assert forall|i: int, j: int| 0 <= i < k + 1 && 0 <= j < 4 implies #[trigger] materials@[4
                * i + j] == buffer.at(
                quads@[i].minimum[0] - 1,
                quads@[i].minimum[1] - 1,
                quads@[i].minimum[2] - 1,
            ).mat_id() by {
                if i < k {
                    assert(materials@[4 * i + j] == old_materials[4 * i + j]);
                }
            }
        }
        k = k + 1;
    }
    render_mesh.quads = quads;
    render_mesh.indices = indices;
    render_mesh.material_indices = materials;
}

/// Whether padded cell `(x, y, z)` lies on the one-voxel border around a buffer
/// of the given shape.
pub open spec fn on_border(shape: BufferShape, x: int, y: int, z: int) -> bool {
    &&& shape.padded().contains(x, y, z)
    &&& !(1 <= x <= shape.x && 1 <= y <= shape.y && 1 <= z <= shape.z)
}

/// Intermediate buffers for greedy meshing, reusable between calls so that
/// meshing a chunk allocates nothing but its result.
pub struct MeshBuffers {
    /// The padded buffer that the greedy algorithm runs on.
    scratch_buffer: VoxelBuffer,
    greedy_buffer: block_mesh::GreedyQuadsBuffer,
    shape: BufferShape,
}

impl MeshBuffers {
    /// The shape of the buffers that can be meshed with these.
    pub closed spec fn shape_spec(&self) -> BufferShape {
        self.shape
    }

    /// The invariant: the scratch buffer has the padded shape and its border is empty.
    pub closed spec fn wf(&self) -> bool {
        &&& meshable(self.shape)
        &&& self.scratch_buffer.wf()
        &&& self.scratch_buffer.shape_spec() == self.shape.padded()
        &&& forall|x: int, y: int, z: int|
            on_border(self.shape, x, y, z) ==> #[trigger] self.scratch_buffer.at(x, y, z) == Voxel(0)
    }

    /// The shape of the buffers that can be meshed with these.
    pub fn shape(&self) -> (s: BufferShape)
        ensures
            s == self.shape_spec(),
    {
        self.shape
    }

    /// Makes the buffers for meshing voxel buffers of the given shape.
    pub fn new(shape: BufferShape) -> (m: Self)
        requires
            meshable(shape),
        ensures
            m.wf(),
            m.shape_spec() == shape,
    {
        proof {
            lemma_meshable_padded(shape);
        }
        let padded_shape = BufferShape { x: shape.x + 2, y: shape.y + 2, z: shape.z + 2 };
        let scratch_buffer = VoxelBuffer::new_empty(padded_shape);
        let greedy_buffer = new_greedy_buffer(padded_shape.size() as usize);
        proof {
            assert forall|x: int, y: int, z: int| on_border(shape, x, y, z) implies #[trigger] scratch_buffer.at(
                x,
                y,
                z,
            ) == Voxel(0) by {
                lemma_index_in_range(
                    padded_shape.x as int,
                    padded_shape.y as int,
                    padded_shape.z as int,
                    x,
                    y,
                    z,
                );
            }
        }
        MeshBuffers { scratch_buffer, greedy_buffer, shape }
    }
}

/// Meshes a voxel buffer: copies it into the padded scratch buffer, merges the
/// visible faces greedily and fills `render_mesh` with the quads, their triangle
/// indices and their per-vertex material indices.
pub fn mesh_buffer(buffer: &VoxelBuffer, mesh_buffers: &mut MeshBuffers, render_mesh: &mut ChunkMesh)
    requires
        buffer.wf(),
        old(mesh_buffers).wf(),
        old(mesh_buffers).shape_spec() == buffer.shape_spec(),
    ensures
        final(mesh_buffers).wf(),
        final(mesh_buffers).shape_spec() == old(mesh_buffers).shape_spec(),
        final(render_mesh).quads@ == greedy_quads_of(
            padded_cells(buffer@, buffer.shape_spec()),
            buffer.shape_spec().padded().x,
            buffer.shape_spec().padded().y,
            buffer.shape_spec().padded().z,
        ),
        is_mesh_of(
            final(render_mesh).quads@,
            buffer,
            final(render_mesh).indices@,
            final(render_mesh).material_indices@,
        ),
        forall|k: int|
            0 <= k < final(render_mesh).quads@.len() ==> quad_in_interior(
                #[trigger] final(render_mesh).quads@[k],
                buffer.shape_spec().padded(),
            ),
        forall|k: int|
            0 <= k < final(render_mesh).quads@.len() ==> quad_stays_inside(
                #[trigger] final(render_mesh).quads@[k],
                buffer.shape_spec().padded(),
            ),
{
    let shape = *buffer.shape();
    proof {
        lemma_meshable_padded(shape);
    }
    let padded_shape = BufferShape { x: shape.x + 2, y: shape.y + 2, z: shape.z + 2 };
    let ghost old_scratch = mesh_buffers.scratch_buffer;
    buffer.copy_extent_to(shape.as_array(), [0, 0, 0], &mut mesh_buffers.scratch_buffer, [1, 1, 1]);
    proof {
        let scratch = mesh_buffers.scratch_buffer;
        let px = padded_shape.x as int;
        let py = padded_shape.y as int;
        let pz = padded_shape.z as int;
        assert forall|x: int, y: int, z: int| on_border(shape, x, y, z) implies #[trigger] scratch.at(
            x,
            y,
            z,
        ) == Voxel(0) by {
            assert(scratch.at(x, y, z) == old_scratch.at(x, y, z));
        }
        assert forall|i: int| 0 <= i < scratch@.len() implies scratch@[i] == padded_cell(
            buffer@,
            shape,
            i % px,
            (i / px) % py,
            i / (px * py),
        ) by {
            lemma_index_surjective(px, py, pz, i);
            let x = i % px;
            let y = (i / px) % py;
            let z = i / (px * py);
            assert(padded_shape.contains(x, y, z));
            assert(scratch.at(x, y, z) == scratch@[i]);
            if 1 <= x <= shape.x && 1 <= y <= shape.y && 1 <= z <= shape.z {
                assert(scratch.at(x, y, z) == buffer.at(x - 1, y - 1, z - 1));
            } else {
                assert(on_border(shape, x, y, z));
            }
        }
        assert(scratch@ =~= padded_cells(buffer@, shape));
    }
    let max = [padded_shape.x - 1, padded_shape.y - 1, padded_shape.z - 1];
    let quads = greedy_faces(
        mesh_buffers.scratch_buffer.slice(),
        padded_shape,
        max,
        &mut mesh_buffers.greedy_buffer,
    );
    build_mesh(buffer, quads, render_mesh);
}

} // verus!
