//! The chunk map: the single source of truth for which voxels exist where.

use vstd::prelude::*;
use crate::buffer::VoxelBuffer;
use crate::keyed::{ChunkKey, KeyMap};
use crate::shape::BufferShape;
use crate::voxel::Voxel;

verus! {

/// A mapping from chunk coordinate to that chunk's voxel buffer. It owns the
/// buffers: they are moved in on insertion and dropped on removal.
pub struct ChunkMap {
    data: KeyMap<VoxelBuffer>,
    shape: BufferShape,
}

impl View for ChunkMap {
    type V = Map<ChunkKey, Seq<Voxel>>;

    /// The flat voxel array of every chunk that has data.
    closed spec fn view(&self) -> Map<ChunkKey, Seq<Voxel>> {
        Map::new(|k: ChunkKey| self.data@.contains_key(k), |k: ChunkKey| self.data@[k]@)
    }
}

impl ChunkMap {
    /// The shape that every buffer of the map has.
    pub closed spec fn shape_spec(&self) -> BufferShape {
        self.shape
    }

    /// The coordinates that have data, in the order in which they are walked.
    pub closed spec fn order(&self) -> Seq<ChunkKey> {
        self.data.order()
    }

    /// The invariant: at most one buffer per coordinate, each well-formed and of
    /// the map's shape.
    pub closed spec fn wf(&self) -> bool {
        &&& self.data.wf()
        &&& self.shape.wf()
        &&& forall|k: ChunkKey| #[trigger]
            self.data@.contains_key(k) ==> self.data@[k].wf() && self.data@[k].shape_spec() == self.shape
    }

    /// In a well-formed map every chunk's array has one voxel per cell of the
    /// map's shape, and the order lists each coordinate with data once.
    pub proof fn lemma_wf(&self)
        requires
            self.wf(),
        ensures
            self.shape_spec().wf(),
            forall|k: ChunkKey| #[trigger]
                self@.contains_key(k) ==> self@[k].len() == self.shape_spec().volume(),
            self.order().no_duplicates(),
            self.order().to_set() == self@.dom(),
    {
        self.data.lemma_order();
        assert(self.data@.dom() =~= self@.dom());
    }

    /// The empty map for buffers of the given shape.
    pub fn new(shape: BufferShape) -> (m: Self)
        requires
            shape.wf(),
        ensures
            m.wf(),
            m.shape_spec() == shape,
            m@ == Map::<ChunkKey, Seq<Voxel>>::empty(),
    {
        let m = ChunkMap { data: KeyMap::new(), shape };
        assert(m@ =~= Map::<ChunkKey, Seq<Voxel>>::empty());
        m
    }

    /// Checks whether there's a buffer at the specified coordinate.
    pub fn has_buffer(&self, coord: ChunkKey) -> (b: bool)
        requires
            self.wf(),
        ensures
            b == self@.contains_key(coord),
    {
        self.data.contains_key(coord)
    }

    /// Installs or replaces the buffer for a coordinate.
    pub fn insert(&mut self, coord: ChunkKey, buffer: VoxelBuffer)
        requires
            old(self).wf(),
            buffer.wf(),
            buffer.shape_spec() == old(self).shape_spec(),
        ensures
            final(self).wf(),
            final(self).shape_spec() == old(self).shape_spec(),
            final(self)@ == old(self)@.insert(coord, buffer@),
    {
        self.data.insert(coord, buffer);
        assert(self@ =~= old(self)@.insert(coord, buffer@));
    }

    /// The buffer at a coordinate, if it has one.
    pub fn buffer_at(&self, coord: ChunkKey) -> (r: Option<&VoxelBuffer>)
        requires
            self.wf(),
        ensures
            r matches Some(b) ==> {
                &&& self@.contains_key(coord)
                &&& b@ == self@[coord]
                &&& b.wf()
                &&& b.shape_spec() == self.shape_spec()
            },
            r is None ==> !self@.contains_key(coord),
    {
        self.data.get(coord)
    }

    /// The buffer at a coordinate for editing in place, if it has one. The map
    /// stays well-formed as long as the buffer does and keeps its shape.
    pub fn buffer_at_mut(&mut self, coord: ChunkKey) -> (r: Option<&mut VoxelBuffer>)
        requires
            old(self).wf(),
        ensures
            final(self).shape_spec() == old(self).shape_spec(),
            r matches Some(b) ==> {
                &&& old(self)@.contains_key(coord)
                &&& b@ == old(self)@[coord]
                &&& b.wf()
                &&& b.shape_spec() == old(self).shape_spec()
                &&& final(self)@ =~= old(self)@.insert(coord, final(b)@)
                &&& (final(b).wf() && final(b).shape_spec() == old(self).shape_spec()) ==> final(self).wf()
            },
            r is None ==> !old(self)@.contains_key(coord) && final(self)@ =~= old(self)@ && final(self).wf(),
    {
        self.data.get_mut(coord)
    }

    /// Drops the buffer of a coordinate, as when its chunk is unloaded.
    pub fn remove(&mut self, coord: ChunkKey) -> (previous: Option<VoxelBuffer>)
        requires
            old(self).wf(),
        ensures
            final(self).wf(),
            final(self).shape_spec() == old(self).shape_spec(),
            final(self)@ == old(self)@.remove(coord),
            previous.is_some() == old(self)@.contains_key(coord),
            previous matches Some(b) ==> b@ == old(self)@[coord] && b.wf() && b.shape_spec() == old(
                self,
            ).shape_spec(),
    {
        let previous = self.data.remove(coord);
        assert(self@ =~= old(self)@.remove(coord));
        previous
    }

    /// The shape that every buffer of the map has.
    pub fn shape(&self) -> (s: BufferShape)
        ensures
            s == self.shape_spec(),
    {
        self.shape
    }

    /// Number of chunks that have data.
    pub fn len(&self) -> (n: usize)
        requires
            self.wf(),
        ensures
            n == self@.dom().len(),
    {
        assert(self.data@.dom() =~= self@.dom());
        self.data.len()
    }
}

} // verus!
