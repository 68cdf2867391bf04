//! The world chunk manager: the chunk map, the handle registry, the dirty set,
//! the command queue and the pending generation and meshing tasks, moved
//! forward one step at a time by the tick's stages.
//!
//! The manager decides; whoever drives it performs the outside work. It asks
//! for chunks to be created and destroyed, is told when a generation or a
//! meshing task has finished, and hands out the buffers to mesh.

use vstd::prelude::*;
use crate::buffer::VoxelBuffer;
use crate::chunk_map::ChunkMap;
use crate::chunks::{
    footprint_fits_in, get_chunk_for_pos, load_candidates, sorted_by_distance, unload_candidates,
    update_player_pos, update_view_chunks, ChunkCommandQueue, ChunkEntities, ChunkLoadRadius,
    CurrentLocalPlayerChunk, DirtyChunks, WorldPos, chunk_origin, footprint_fits, in_footprint,
};
use crate::keyed::{ChunkKey, KeySet};
use crate::persistence::{
    encoded, lemma_save_load_round_trip, load_outcome, zstd_decompressed, PersistError,
};
use crate::shape::{lemma_index_in_range, BufferShape};
use crate::voxel::{Voxel, AIR_ID};

verus! {

/// The view distance that a new world starts with, in chunks.
pub const DEFAULT_LOAD_RADIUS: i32 = 8;

/// The name and the seed of a world, both fixed when it is made.
#[derive(Clone, Debug)]
pub struct WorldSettings {
    pub seed: i32,
    pub name: String,
}

impl WorldSettings {
    /// The settings of the one world there is: seed 0, named "world".
    pub fn standard() -> (s: Self)
        ensures
            s.seed == 0,
            s.name@ == "world"@,
    {
        WorldSettings { seed: 0, name: "world".to_owned() }
    }
}

/// Everything the chunk pipeline keeps between ticks.
pub struct VoxelWorld {
    /// The voxel data of the chunks that have been generated or loaded.
    pub chunks: ChunkMap,
    /// The handle of every loaded chunk.
    pub chunk_entities: ChunkEntities,
    /// The chunks whose voxels changed since their last mesh build.
    pub dirty_chunks: DirtyChunks,
    /// The chunks to create and to destroy.
    pub command_queue: ChunkCommandQueue,
    /// Where the player is.
    pub player_chunk: CurrentLocalPlayerChunk,
    /// How far the player sees.
    pub load_radius: ChunkLoadRadius,
    /// The chunks whose terrain is being generated or loaded.
    pub terrain_tasks: KeySet,
    /// The chunks whose mesh is being built.
    pub meshing_tasks: KeySet,
}

/// A meshing task to run: the chunk, its handle and a snapshot of its voxels
/// that shares nothing with the chunk map.
pub struct MeshJob {
    pub key: ChunkKey,
    pub entity: u64,
    pub buffer: VoxelBuffer,
}

/// The dirty coordinates that get a meshing task: those that have both a live
/// handle and data, in the order in which they were marked.
pub open spec fn mesh_candidates(
    dirty: Seq<ChunkKey>,
    entities: Map<ChunkKey, u64>,
    chunks: Map<ChunkKey, Seq<Voxel>>,
) -> Seq<ChunkKey>
    decreases dirty.len(),
{
    if dirty.len() == 0 {
        Seq::empty()
    } else {
        let rest = mesh_candidates(dirty.drop_last(), entities, chunks);
        if entities.contains_key(dirty.last()) && chunks.contains_key(dirty.last()) {
            rest.push(dirty.last())
        } else {
            rest
        }
    }
}

/// A meshing task is issued only for a dirty chunk that has a handle and data.
pub proof fn lemma_mesh_candidates(
    dirty: Seq<ChunkKey>,
    entities: Map<ChunkKey, u64>,
    chunks: Map<ChunkKey, Seq<Voxel>>,
)
    ensures
        forall|i: int|
            0 <= i < mesh_candidates(dirty, entities, chunks).len() ==> {
                let k = #[trigger] mesh_candidates(dirty, entities, chunks)[i];
                dirty.contains(k) && entities.contains_key(k) && chunks.contains_key(k)
            },
        forall|k: ChunkKey|
            dirty.contains(k) && entities.contains_key(k) && chunks.contains_key(k)
                ==> #[trigger] mesh_candidates(dirty, entities, chunks).contains(k),
    decreases dirty.len(),
{
    let out = mesh_candidates(dirty, entities, chunks);
    if dirty.len() > 0 {
        let head = dirty.drop_last();
        let rest = mesh_candidates(head, entities, chunks);
        lemma_mesh_candidates(head, entities, chunks);
        assert forall|i: int| 0 <= i < out.len() implies ({
            let k = #[trigger] out[i];
            dirty.contains(k) && entities.contains_key(k) && chunks.contains_key(k)
        }) by {
            if i < rest.len() {
                assert(out[i] == rest[i]);
                let h = choose|h: int| 0 <= h < head.len() && head[h] == rest[i];
                assert(dirty[h] == rest[i]);
            } else {
                assert(dirty[dirty.len() - 1] == out[i]);
            }
        }
        assert forall|k: ChunkKey|
            dirty.contains(k) && entities.contains_key(k) && chunks.contains_key(k) implies #[trigger] out.contains(
            k,
        ) by {
            let h = choose|h: int| 0 <= h < dirty.len() && dirty[h] == k;
            if h < head.len() {
                assert(head[h] == k);
                assert(rest.contains(k));
                let j = choose|j: int| 0 <= j < rest.len() && rest[j] == k;
                assert(out[j] == k);
            } else {
                assert(out[out.len() - 1] == k);
            }
        }
    }
}

/// The handles that destroying the queued coordinates one after the other
/// takes out of the registry: one for each queued coordinate that is still
/// registered when its turn comes.
pub open spec fn detached_handles(queue: Seq<ChunkKey>, registry: Map<ChunkKey, u64>) -> Seq<u64>
    decreases queue.len(),
{
    if queue.len() == 0 {
        Seq::empty()
    } else if registry.contains_key(queue[0]) {
        seq![registry[queue[0]]] + detached_handles(queue.drop_first(), registry.remove(queue[0]))
    } else {
        detached_handles(queue.drop_first(), registry)
    }
}

/// The coordinate of the chunk that holds the block at `pos`.
pub open spec fn chunk_of(pos: WorldPos) -> ChunkKey {
    ChunkKey { x: chunk_origin(pos.x as int) as i32, y: 0, z: chunk_origin(pos.z as int) as i32 }
}

/// The X coordinate of the block at `pos` inside its chunk.
pub open spec fn local_x(pos: WorldPos) -> int {
    pos.x - chunk_origin(pos.x as int)
}

/// The Z coordinate of the block at `pos` inside its chunk.
pub open spec fn local_z(pos: WorldPos) -> int {
    pos.z - chunk_origin(pos.z as int)
}

/// The flat voxel array of a chunk after the block at `pos` was set to `voxel`.
pub open spec fn with_block(cells: Seq<Voxel>, shape: BufferShape, pos: WorldPos, voxel: Voxel) -> Seq<Voxel> {
    cells.update(shape.index_of(local_x(pos), pos.y as int, local_z(pos)), voxel)
}

impl VoxelWorld {
    /// Whether the block at `pos` can be edited: its chunk has data and the
    /// block lies inside the chunk's shape.
    pub open spec fn editable(&self, pos: WorldPos) -> bool {
        &&& self.chunks@.contains_key(chunk_of(pos))
        &&& self.chunks.shape_spec().contains(local_x(pos), pos.y as int, local_z(pos))
    }

    /// The voxel of the block at `pos`.
    pub open spec fn block_at(&self, pos: WorldPos) -> Voxel {
        self.chunks@[chunk_of(pos)][self.chunks.shape_spec().index_of(local_x(pos), pos.y as int, local_z(pos))]
    }

    /// Reads the block at `pos`, if its chunk has data and the block lies
    /// inside the chunk's shape.
    pub fn block(&self, pos: WorldPos) -> (r: Option<Voxel>)
        requires
            self.wf(),
        ensures
            r == (if self.editable(pos) {
                Some(self.block_at(pos))
            } else {
                None
            }),
    {
        let key = get_chunk_for_pos(pos);
        assert(key == chunk_of(pos));
        let shape = self.chunks.shape();
        if pos.y < 0 {
            return None;
        }
        let lx: i64 = pos.x as i64 - key.x as i64;
        let lz: i64 = pos.z as i64 - key.z as i64;
        if lx >= shape.x as i64 || pos.y as i64 >= shape.y as i64 || lz >= shape.z as i64 {
            return None;
        }
        match self.chunks.buffer_at(key) {
            Some(buffer) => Some(buffer.voxel_at([lx as u32, pos.y as u32, lz as u32])),
            None => None,
        }
    }

    /// Sets the block at `pos` to `voxel` if `only_over` is `None` or names the
    /// voxel that the block holds now, and marks the chunk dirty either way.
    /// Where the block cannot be edited nothing changes.
    fn edit_block(&mut self, pos: WorldPos, voxel: Voxel, only_over: Option<Voxel>) -> (written: bool)
        requires
            old(self).wf(),
        ensures
            final(self).wf(),
            final(self).player_chunk == old(self).player_chunk,
            final(self).load_radius == old(self).load_radius,
            final(self).chunks.shape_spec() == old(self).chunks.shape_spec(),
            written == (old(self).editable(pos) && (only_over is None || only_over == Some(
                old(self).block_at(pos),
            ))),
            final(self).chunks@ == (if written {
                old(self).chunks@.insert(
                    chunk_of(pos),
                    with_block(old(self).chunks@[chunk_of(pos)], old(self).chunks.shape_spec(), pos, voxel),
                )
            } else {
                old(self).chunks@
            }),
            final(self).dirty_chunks@ == (if old(self).editable(pos) {
                old(self).dirty_chunks@.insert(chunk_of(pos))
            } else {
                old(self).dirty_chunks@
            }),
            final(self).chunk_entities == old(self).chunk_entities,
            final(self).command_queue == old(self).command_queue,
            final(self).terrain_tasks == old(self).terrain_tasks,
            final(self).meshing_tasks == old(self).meshing_tasks,
    {
        let key = get_chunk_for_pos(pos);
        assert(key == chunk_of(pos));
        let shape = self.chunks.shape();
        if pos.y < 0 {
            return false;
        }
        let lx: i64 = pos.x as i64 - key.x as i64;
        let lz: i64 = pos.z as i64 - key.z as i64;
        if lx >= shape.x as i64 || pos.y as i64 >= shape.y as i64 || lz >= shape.z as i64 {
            return false;
        }
        let local: [u32; 3] = [lx as u32, pos.y as u32, lz as u32];
        let mut written = false;
        let mut touched = false;
        match self.chunks.buffer_at_mut(key) {
            Some(buffer) => {
                touched = true;
                let current = buffer.voxel_at(local);
                let allowed = match only_over {
                    Some(v) => v == current,
                    None => true,
                };
                if allowed {
                    buffer.set_voxel(local, voxel);
                    written = true;
                }
            },
            None => {},
        }
        if touched {
            self.dirty_chunks.mark_dirty(key);
        }
        proof {
            if !written {
                assert(self.chunks@ =~= old(self).chunks@);
            }
        }
        written
    }

    /// Places `voxel` at `pos` if the block there is air, and marks the chunk
    /// dirty if the block can be edited at all.
    pub fn place_block(&mut self, pos: WorldPos, voxel: Voxel) -> (placed: bool)
        requires
            old(self).wf(),
        ensures
            final(self).wf(),
            final(self).player_chunk == old(self).player_chunk,
            final(self).load_radius == old(self).load_radius,
            final(self).chunks.shape_spec() == old(self).chunks.shape_spec(),
            placed == (old(self).editable(pos) && old(self).block_at(pos) == Voxel(AIR_ID)),
            final(self).chunks@ == (if placed {
                old(self).chunks@.insert(
                    chunk_of(pos),
                    with_block(old(self).chunks@[chunk_of(pos)], old(self).chunks.shape_spec(), pos, voxel),
                )
            } else {
                old(self).chunks@
            }),
            final(self).dirty_chunks@ == (if old(self).editable(pos) {
                old(self).dirty_chunks@.insert(chunk_of(pos))
            } else {
                old(self).dirty_chunks@
            }),
            final(self).chunk_entities == old(self).chunk_entities,
            final(self).command_queue == old(self).command_queue,
            final(self).terrain_tasks == old(self).terrain_tasks,
            final(self).meshing_tasks == old(self).meshing_tasks,
    {
        self.edit_block(pos, voxel, Some(Voxel(AIR_ID)))
    }

    /// Replaces the block at `pos` by air and marks the chunk dirty, if the
    /// block can be edited.
    pub fn remove_block(&mut self, pos: WorldPos) -> (removed: bool)
        requires
            old(self).wf(),
        ensures
            final(self).wf(),
            final(self).player_chunk == old(self).player_chunk,
            final(self).load_radius == old(self).load_radius,
            final(self).chunks.shape_spec() == old(self).chunks.shape_spec(),
            removed == old(self).editable(pos),
            final(self).chunks@ == (if removed {
                old(self).chunks@.insert(
                    chunk_of(pos),
                    with_block(
                        old(self).chunks@[chunk_of(pos)],
                        old(self).chunks.shape_spec(),
                        pos,
                        Voxel(AIR_ID),
                    ),
                )
            } else {
                old(self).chunks@
            }),
            final(self).dirty_chunks@ == (if removed {
                old(self).dirty_chunks@.insert(chunk_of(pos))
            } else {
                old(self).dirty_chunks@
            }),
            final(self).chunk_entities == old(self).chunk_entities,
            final(self).command_queue == old(self).command_queue,
            final(self).terrain_tasks == old(self).terrain_tasks,
            final(self).meshing_tasks == old(self).meshing_tasks,
    {
        self.edit_block(pos, Voxel(AIR_ID), None)
    }

    /// The invariant of the manager. Every part is well-formed; only loaded
    /// chunks have data or a pending generation task; and a mesh task is
    /// pending only for a chunk that has data.
    pub open spec fn wf(&self) -> bool {
        &&& self.chunks.wf()
        &&& self.chunk_entities.wf()
        &&& self.dirty_chunks.wf()
        &&& self.terrain_tasks.wf()
        &&& self.meshing_tasks.wf()
        &&& forall|k: ChunkKey| #[trigger]
            self.chunks@.contains_key(k) ==> self.chunk_entities@.contains_key(k)
        &&& forall|k: ChunkKey| #[trigger]
            self.terrain_tasks@.contains(k) ==> self.chunk_entities@.contains_key(k)
        &&& forall|k: ChunkKey| #[trigger] self.meshing_tasks@.contains(k) ==> self.chunks@.contains_key(k)
    }

    /// A world without chunks, for buffers of the given shape, with the player
    /// at the origin and the default view distance.
    pub fn new(shape: BufferShape) -> (w: Self)
        requires
            shape.wf(),
        ensures
            w.wf(),
            w.chunks.shape_spec() == shape,
            w.chunks@ == Map::<ChunkKey, Seq<Voxel>>::empty(),
            w.chunk_entities@ == Map::<ChunkKey, u64>::empty(),
            w.dirty_chunks@ == Set::<ChunkKey>::empty(),
            w.terrain_tasks@ == Set::<ChunkKey>::empty(),
            w.meshing_tasks@ == Set::<ChunkKey>::empty(),
            w.command_queue.create_spec() == Seq::<ChunkKey>::empty(),
            w.command_queue.destroy_spec() == Seq::<ChunkKey>::empty(),
            w.load_radius.horizontal == DEFAULT_LOAD_RADIUS,
            w.player_chunk.chunk_min == (ChunkKey { x: 0, y: 0, z: 0 }),
            w.player_chunk.world_pos == (WorldPos { x: 0, y: 0, z: 0 }),
    {
        VoxelWorld {
            chunks: ChunkMap::new(shape),
            chunk_entities: ChunkEntities::new(),
            dirty_chunks: DirtyChunks::new(),
            command_queue: ChunkCommandQueue::new(),
            player_chunk: CurrentLocalPlayerChunk {
                chunk_min: ChunkKey { x: 0, y: 0, z: 0 },
                world_pos: WorldPos { x: 0, y: 0, z: 0 },
            },
            load_radius: ChunkLoadRadius { horizontal: DEFAULT_LOAD_RADIUS },
            terrain_tasks: KeySet::new(),
            meshing_tasks: KeySet::new(),
        }
    }

    /// Moves the player and recomputes the chunk it is in.
    pub fn move_player(&mut self, player_coords: WorldPos)
        requires
            old(self).wf(),
        ensures
            final(self).wf(),
            final(self).player_chunk.world_pos == player_coords,
            final(self).player_chunk.chunk_min.x == chunk_origin(player_coords.x as int),
            final(self).player_chunk.chunk_min.y == 0,
            final(self).player_chunk.chunk_min.z == chunk_origin(player_coords.z as int),
            final(self).chunks == old(self).chunks,
            final(self).chunk_entities == old(self).chunk_entities,
            final(self).dirty_chunks == old(self).dirty_chunks,
            final(self).command_queue == old(self).command_queue,
            final(self).load_radius == old(self).load_radius,
            final(self).terrain_tasks == old(self).terrain_tasks,
            final(self).meshing_tasks == old(self).meshing_tasks,
    {
        update_player_pos(player_coords, &mut self.player_chunk);
    }

    /// The decision pass of a tick: queues the chunks in sight that are not
    /// loaded for creation, nearest first, and the loaded chunks out of sight
    /// for destruction. Does nothing, and says so, where the footprint around
    /// the player would leave the representable coordinates.
    pub fn plan_chunks(&mut self) -> (planned: bool)
        requires
            old(self).wf(),
        ensures
            final(self).wf(),
            planned == footprint_fits(old(self).player_chunk.chunk_min, old(self).load_radius.horizontal as int),
            final(self).chunks == old(self).chunks,
            final(self).chunk_entities == old(self).chunk_entities,
            final(self).dirty_chunks == old(self).dirty_chunks,
            final(self).player_chunk == old(self).player_chunk,
            final(self).load_radius == old(self).load_radius,
            final(self).terrain_tasks == old(self).terrain_tasks,
            final(self).meshing_tasks == old(self).meshing_tasks,
            !planned ==> final(self).command_queue == old(self).command_queue,
            planned ==> {
                &&& sorted_by_distance(
                    final(self).command_queue.create_spec(),
                    old(self).player_chunk.chunk_min,
                )
                &&& final(self).command_queue.create_spec().to_multiset() == (old(
                    self,
                ).command_queue.create_spec() + load_candidates(
                    old(self).player_chunk.chunk_min,
                    old(self).load_radius.horizontal as int,
                    old(self).chunk_entities@.dom(),
                )).to_multiset()
                &&& final(self).command_queue.destroy_spec() == old(self).command_queue.destroy_spec()
                    + unload_candidates(
                    old(self).chunk_entities.order(),
                    old(self).player_chunk.chunk_min,
                    old(self).load_radius.horizontal as int,
                )
                &&& old(self).command_queue.create_spec().len() == 0 ==> {
                    &&& final(self).command_queue.create_spec().no_duplicates()
                    &&& forall|k: ChunkKey| #[trigger]
                        final(self).command_queue.create_spec().contains(k) <==> (in_footprint(
                            k,
                            old(self).player_chunk.chunk_min,
                            old(self).load_radius.horizontal as int,
                        ) && !old(self).chunk_entities@.contains_key(k))
                }
            },
    {
        if footprint_fits_in(self.player_chunk.chunk_min, self.load_radius.horizontal) {
            update_view_chunks(
                &self.player_chunk,
                &self.chunk_entities,
                &self.load_radius,
                &mut self.command_queue,
            );
            true
        } else {
            false
        }
    }

    /// Takes the creation commands out of the queue, nearest first as planned.
    /// Each wants a handle: see `attach_chunk`.
    pub fn take_create_requests(&mut self) -> (requests: Vec<ChunkKey>)
        requires
            old(self).wf(),
        ensures
            final(self).wf(),
            final(self).player_chunk == old(self).player_chunk,
            final(self).load_radius == old(self).load_radius,
            requests@ == old(self).command_queue.create_spec(),
            final(self).command_queue.create_spec() == Seq::<ChunkKey>::empty(),
            final(self).command_queue.destroy_spec() == old(self).command_queue.destroy_spec(),
            final(self).chunks == old(self).chunks,
            final(self).chunk_entities == old(self).chunk_entities,
            final(self).dirty_chunks == old(self).dirty_chunks,
            final(self).terrain_tasks == old(self).terrain_tasks,
            final(self).meshing_tasks == old(self).meshing_tasks,
    {
        self.command_queue.take_create()
    }

    /// Creates a chunk: attaches `entity` as the handle of the chunk at `key`
    /// and marks its terrain as being generated. A coordinate that is loaded
    /// already keeps its handle and nothing changes: the answer is `false`, and
    /// `entity` stands for no chunk.
    pub fn attach_chunk(&mut self, key: ChunkKey, entity: u64) -> (attached: bool)
        requires
            old(self).wf(),
        ensures
            final(self).wf(),
            final(self).player_chunk == old(self).player_chunk,
            final(self).load_radius == old(self).load_radius,
            attached == !old(self).chunk_entities@.contains_key(key),
            attached ==> {
                &&& final(self).chunk_entities@ == old(self).chunk_entities@.insert(key, entity)
                &&& final(self).terrain_tasks@ == old(self).terrain_tasks@.insert(key)
            },
            !attached ==> {
                &&& final(self).chunk_entities@ == old(self).chunk_entities@
                &&& final(self).terrain_tasks@ == old(self).terrain_tasks@
            },
            final(self).chunks == old(self).chunks,
            final(self).dirty_chunks == old(self).dirty_chunks,
            final(self).command_queue == old(self).command_queue,
            final(self).meshing_tasks == old(self).meshing_tasks,
    {
        if self.chunk_entities.entity(key).is_some() {
            false
        } else {
            self.chunk_entities.attach_entity(key, entity);
            self.terrain_tasks.insert(key);
            true
        }
    }

    /// Commits a finished generation task: installs `buffer` as the data of the
    /// chunk at `key`, then marks the chunk dirty, then forgets the task. The
    /// result of a task that is not pending, as when its chunk was unloaded
    /// meanwhile, is dropped and nothing changes.
    pub fn complete_terrain_gen(&mut self, key: ChunkKey, buffer: VoxelBuffer) -> (committed: bool)
        requires
            old(self).wf(),
            buffer.wf(),
            buffer.shape_spec() == old(self).chunks.shape_spec(),
        ensures
            final(self).wf(),
            final(self).player_chunk == old(self).player_chunk,
            final(self).load_radius == old(self).load_radius,
            final(self).chunks.shape_spec() == old(self).chunks.shape_spec(),
            committed == old(self).terrain_tasks@.contains(key),
            committed ==> {
                &&& final(self).chunks@ == old(self).chunks@.insert(key, buffer@)
                &&& final(self).dirty_chunks@ == old(self).dirty_chunks@.insert(key)
                &&& final(self).terrain_tasks@ == old(self).terrain_tasks@.remove(key)
            },
            !committed ==> {
                &&& final(self).chunks@ == old(self).chunks@
                &&& final(self).dirty_chunks@ == old(self).dirty_chunks@
                &&& final(self).terrain_tasks@ == old(self).terrain_tasks@
            },
            final(self).chunk_entities == old(self).chunk_entities,
            final(self).command_queue == old(self).command_queue,
            final(self).meshing_tasks == old(self).meshing_tasks,
    {
        if self.terrain_tasks.contains(key) {
            self.chunks.insert(key, buffer);
            self.dirty_chunks.mark_dirty(key);
            self.terrain_tasks.remove(key);
            true
        } else {
            false
        }
    }

    /// Commits a finished meshing task: forgets the task and names the handle
    /// whose render geometry is to be replaced. A task that is not pending, as
    /// when its chunk was unloaded meanwhile, names none.
    pub fn complete_mesh(&mut self, key: ChunkKey) -> (entity: Option<u64>)
        requires
            old(self).wf(),
        ensures
            final(self).wf(),
            final(self).player_chunk == old(self).player_chunk,
            final(self).load_radius == old(self).load_radius,
            entity == (if old(self).meshing_tasks@.contains(key) {
                Some(old(self).chunk_entities@[key])
            } else {
                None
            }),
            final(self).meshing_tasks@ == old(self).meshing_tasks@.remove(key),
            final(self).chunks == old(self).chunks,
            final(self).chunk_entities == old(self).chunk_entities,
            final(self).dirty_chunks == old(self).dirty_chunks,
            final(self).command_queue == old(self).command_queue,
            final(self).terrain_tasks == old(self).terrain_tasks,
    {
        if self.meshing_tasks.remove(key) {
            assert(self.chunks@.contains_key(key));
            self.chunk_entities.entity(key)
        } else {
            None
        }
    }

    /// Issues the meshing tasks of a tick: one for every dirty chunk that has a
    /// live handle and data, each with a snapshot of the chunk's buffer, and
    /// marks each as pending.
    pub fn queue_mesh_tasks(&mut self) -> (jobs: Vec<MeshJob>)
        requires
            old(self).wf(),
        ensures
            final(self).wf(),
            final(self).player_chunk == old(self).player_chunk,
            final(self).load_radius == old(self).load_radius,
            jobs@.len() == mesh_candidates(
                old(self).dirty_chunks.order(),
                old(self).chunk_entities@,
                old(self).chunks@,
            ).len(),
            forall|i: int|
                0 <= i < jobs@.len() ==> {
                    let job = #[trigger] jobs@[i];
                    &&& job.key == mesh_candidates(
                        old(self).dirty_chunks.order(),
                        old(self).chunk_entities@,
                        old(self).chunks@,
                    )[i]
                    &&& old(self).chunks@.contains_key(job.key)
                    &&& job.entity == old(self).chunk_entities@[job.key]
                    &&& job.buffer@ == old(self).chunks@[job.key]
                    &&& job.buffer.wf()
                    &&& job.buffer.shape_spec() == old(self).chunks.shape_spec()
                },
            final(self).meshing_tasks@ == old(self).meshing_tasks@.union(
                mesh_candidates(
                    old(self).dirty_chunks.order(),
                    old(self).chunk_entities@,
                    old(self).chunks@,
                ).to_set(),
            ),
            final(self).chunks == old(self).chunks,
            final(self).chunk_entities == old(self).chunk_entities,
            final(self).dirty_chunks == old(self).dirty_chunks,
            final(self).command_queue == old(self).command_queue,
            final(self).terrain_tasks == old(self).terrain_tasks,
    {
        let dirty = self.dirty_chunks.iter_dirty();
        let ghost entities = self.chunk_entities@;
        let ghost chunks = self.chunks@;
        let mut jobs: Vec<MeshJob> = Vec::new();
        let mut i: usize = 0;
        assert(dirty@.subrange(0, 0) =~= Seq::<ChunkKey>::empty());
        assert(self.meshing_tasks@.union(Seq::<ChunkKey>::empty().to_set()) =~= self.meshing_tasks@);
        while i < dirty.len()
            invariant
                i <= dirty@.len(),
                dirty@ == old(self).dirty_chunks.order(),
                self.wf(),
                self.player_chunk == old(self).player_chunk,
                self.load_radius == old(self).load_radius,
                self.chunks == old(self).chunks,
                self.chunk_entities == old(self).chunk_entities,
                self.dirty_chunks == old(self).dirty_chunks,
                self.command_queue == old(self).command_queue,
                self.terrain_tasks == old(self).terrain_tasks,
                entities == self.chunk_entities@,
                chunks == self.chunks@,
                jobs@.len() == mesh_candidates(dirty@.subrange(0, i as int), entities, chunks).len(),
                forall|j: int|
                    0 <= j < jobs@.len() ==> {
                        let job = #[trigger] jobs@[j];
                        &&& job.key == mesh_candidates(dirty@.subrange(0, i as int), entities, chunks)[j]
                        &&& chunks.contains_key(job.key)
                        &&& job.entity == entities[job.key]
                        &&& job.buffer@ == chunks[job.key]
                        &&& job.buffer.wf()
                        &&& job.buffer.shape_spec() == self.chunks.shape_spec()
                    },
                self.meshing_tasks@ == old(self).meshing_tasks@.union(
                    mesh_candidates(dirty@.subrange(0, i as int), entities, chunks).to_set(),
                ),
            decreases dirty@.len() - i,
        {
            let key = dirty[i];
            let ghost head = dirty@.subrange(0, i as int);
            let ghost next = dirty@.subrange(0, i + 1);
            let ghost before = mesh_candidates(head, entities, chunks);
            assert(next.drop_last() =~= head);
            assert(next.last() == key);
            let ghost old_jobs = jobs@;
            match self.chunk_entities.entity(key) {
                Some(entity) => {
                    match self.chunks.buffer_at(key) {
                        Some(buffer) => {
                            let snapshot = buffer.snapshot();
                            jobs.push(MeshJob { key, entity, buffer: snapshot });
                            self.meshing_tasks.insert(key);
                            proof {
                                let after = mesh_candidates(next, entities, chunks);
                                assert(after == before.push(key));
                                assert(after.to_set() =~= before.to_set().insert(key)) by {
                                    assert forall|k: ChunkKey| after.to_set().contains(k)
                                        <==> before.to_set().insert(key).contains(k) by {
                                        if before.contains(k) {
                                            let j = choose|j: int| 0 <= j < before.len() && before[j] == k;
                                            assert(after[j] == k);
                                        }
                                        if k == key {
                                            assert(after[after.len() - 1] == k);
                                        }
                                    }
                                }
                                assert(self.meshing_tasks@ =~= old(self).meshing_tasks@.union(after.to_set()));
                                assert forall|j: int| 0 <= j < jobs@.len() implies ({
                                    let job = #[trigger] jobs@[j];
                                    &&& job.key == after[j]
                                    &&& chunks.contains_key(job.key)
                                    &&& job.entity == entities[job.key]
                                    &&& job.buffer@ == chunks[job.key]
                                    &&& job.buffer.wf()
                                    &&& job.buffer.shape_spec() == self.chunks.shape_spec()
                                }) by {
                                    if j < old_jobs.len() {
                                        assert(jobs@[j] == old_jobs[j]);
                                    }
                                }
                            }
                        },
                        None => {},
                    }
                },
                None => {},
            }
            i = i + 1;
        }
        assert(dirty@.subrange(0, dirty@.len() as int) =~= dirty@);
        jobs
    }

    /// Destroys the chunks queued for destruction: removes their handles, their
    /// data and their pending tasks, and names the handles that were removed,
    /// which stand for no chunk any more.
    pub fn destroy_chunks(&mut self) -> (handles: Vec<u64>)
        requires
            old(self).wf(),
        ensures
            final(self).wf(),
            final(self).player_chunk == old(self).player_chunk,
            final(self).load_radius == old(self).load_radius,
            final(self).chunks.shape_spec() == old(self).chunks.shape_spec(),
            handles@ == detached_handles(old(self).command_queue.destroy_spec(), old(self).chunk_entities@),
            final(self).chunk_entities@ == old(self).chunk_entities@.remove_keys(
                old(self).command_queue.destroy_spec().to_set(),
            ),
            final(self).chunks@ == old(self).chunks@.remove_keys(
                old(self).command_queue.destroy_spec().to_set(),
            ),
            final(self).terrain_tasks@ == old(self).terrain_tasks@.difference(
                old(self).command_queue.destroy_spec().to_set(),
            ),
            final(self).meshing_tasks@ == old(self).meshing_tasks@.difference(
                old(self).command_queue.destroy_spec().to_set(),
            ),
            final(self).command_queue.destroy_spec() == Seq::<ChunkKey>::empty(),
            final(self).command_queue.create_spec() == old(self).command_queue.create_spec(),
            final(self).dirty_chunks == old(self).dirty_chunks,
    {
        let queue = self.command_queue.take_destroy();
        let mut handles: Vec<u64> = Vec::new();
        let mut i: usize = 0;
        let ghost registry = self.chunk_entities@;
        assert(queue@.subrange(0, queue@.len() as int) =~= queue@);
        assert(Seq::<u64>::empty() + detached_handles(queue@, registry) =~= detached_handles(
            queue@,
            registry,
        ));
        while i < queue.len()
            invariant
                i <= queue@.len(),
                self.wf(),
                self.player_chunk == old(self).player_chunk,
                self.load_radius == old(self).load_radius,
                self.chunks.shape_spec() == old(self).chunks.shape_spec(),
                self.dirty_chunks == old(self).dirty_chunks,
                self.command_queue.destroy_spec() == Seq::<ChunkKey>::empty(),
                self.command_queue.create_spec() == old(self).command_queue.create_spec(),
                queue@ == old(self).command_queue.destroy_spec(),
                registry == old(self).chunk_entities@,
                handles@ + detached_handles(
                    queue@.subrange(i as int, queue@.len() as int),
                    self.chunk_entities@,
                ) == detached_handles(queue@, registry),
                forall|k: ChunkKey| #[trigger]
                    self.chunk_entities@.contains_key(k) <==> (registry.contains_key(k)
                        && !queue@.subrange(0, i as int).contains(k)),
                forall|k: ChunkKey| #[trigger]
                    self.chunk_entities@.contains_key(k) ==> self.chunk_entities@[k] == registry[k],
                forall|k: ChunkKey| #[trigger]
                    self.chunks@.contains_key(k) <==> (old(self).chunks@.contains_key(k)
                        && !queue@.subrange(0, i as int).contains(k)),
                forall|k: ChunkKey| #[trigger]
                    self.chunks@.contains_key(k) ==> self.chunks@[k] == old(self).chunks@[k],
                forall|k: ChunkKey| #[trigger]
                    self.terrain_tasks@.contains(k) <==> (old(self).terrain_tasks@.contains(k)
                        && !queue@.subrange(0, i as int).contains(k)),
                forall|k: ChunkKey| #[trigger]
                    self.meshing_tasks@.contains(k) <==> (old(self).meshing_tasks@.contains(k)
                        && !queue@.subrange(0, i as int).contains(k)),
            decreases queue@.len() - i,
        {
            let command = queue[i];
            let ghost tail = queue@.subrange(i as int, queue@.len() as int);
            let ghost done = queue@.subrange(0, i as int);
            let ghost next_done = queue@.subrange(0, i + 1);
            let ghost before_handles = handles@;
            let ghost before_registry = self.chunk_entities@;
            proof {
                assert(tail[0] == command);
                assert(tail.drop_first() =~= queue@.subrange(i + 1, queue@.len() as int));
                assert(next_done =~= done.push(command));
                assert forall|k: ChunkKey| next_done.contains(k) <==> (done.contains(k) || k
                    == command) by {
                    if done.contains(k) {
                        let j = choose|j: int| 0 <= j < done.len() && done[j] == k;
                        assert(next_done[j] == k);
                    }
                    if k == command {
                        assert(next_done[i as int] == k);
                    }
                    if next_done.contains(k) {
                        let j = choose|j: int| 0 <= j < next_done.len() && next_done[j] == k;
                        if j < i {
                            assert(done[j] == k);
                        }
                    }
                }
            }
            match self.chunk_entities.detach_entity(command) {
                Some(entity) => {
                    handles.push(entity);
                    proof {
                        let rest = detached_handles(tail.drop_first(), self.chunk_entities@);
                        assert(handles@ + rest =~= before_handles + (seq![entity] + rest));
                    }
                },
                None => {
                    proof {
                        assert(self.chunk_entities@ =~= before_registry);
                    }
                },
            }
            self.chunks.remove(command);
            self.terrain_tasks.remove(command);
            self.meshing_tasks.remove(command);
            i = i + 1;
        }
        proof {
            let doomed = queue@.to_set();
            assert(queue@.subrange(0, queue@.len() as int) =~= queue@);
            assert(queue@.subrange(queue@.len() as int, queue@.len() as int) =~= Seq::<ChunkKey>::empty());
            assert(handles@ + Seq::<u64>::empty() =~= handles@);
            assert(self.chunk_entities@ =~= registry.remove_keys(doomed));
            assert(self.chunks@ =~= old(self).chunks@.remove_keys(doomed));
            assert(self.terrain_tasks@ =~= old(self).terrain_tasks@.difference(doomed));
            assert(self.meshing_tasks@ =~= old(self).meshing_tasks@.difference(doomed));
        }
        handles
    }

    /// Clears the dirty set in its entirety, whether or not the meshing tasks
    /// issued for it have finished.
    pub fn clear_dirty_chunks(&mut self)
        requires
            old(self).wf(),
        ensures
            final(self).wf(),
            final(self).player_chunk == old(self).player_chunk,
            final(self).load_radius == old(self).load_radius,
            final(self).dirty_chunks@ == Set::<ChunkKey>::empty(),
            final(self).chunks == old(self).chunks,
            final(self).chunk_entities == old(self).chunk_entities,
            final(self).command_queue == old(self).command_queue,
            final(self).terrain_tasks == old(self).terrain_tasks,
            final(self).meshing_tasks == old(self).meshing_tasks,
    {
        self.dirty_chunks.clear();
    }

    /// Number of dirty chunks.
    pub fn dirty_chunk_count(&self) -> (n: usize)
        requires
            self.wf(),
        ensures
            n == self.dirty_chunks@.len(),
    {
        self.dirty_chunks.num_dirty()
    }

    /// Number of loaded chunks.
    pub fn loaded_chunk_count(&self) -> (n: usize)
        requires
            self.wf(),
        ensures
            n == self.chunk_entities@.dom().len(),
    {
        self.chunk_entities.len()
    }

    /// Queues every loaded chunk for destruction.
    pub fn unload_all(&mut self)
        requires
            old(self).wf(),
        ensures
            final(self).wf(),
            final(self).player_chunk == old(self).player_chunk,
            final(self).load_radius == old(self).load_radius,
            final(self).command_queue.create_spec() == old(self).command_queue.create_spec(),
            final(self).command_queue.destroy_spec() == old(self).command_queue.destroy_spec() + old(
                self,
            ).chunk_entities.order(),
            final(self).chunks == old(self).chunks,
            final(self).chunk_entities == old(self).chunk_entities,
            final(self).dirty_chunks == old(self).dirty_chunks,
            final(self).terrain_tasks == old(self).terrain_tasks,
            final(self).meshing_tasks == old(self).meshing_tasks,
    {
        let keys = self.chunk_entities.iter_keys();
        self.command_queue.queue_unload(&keys);
    }
}

/// Handles dynamically loading and unloading chunks of the world according to
/// the player's position: makes the state that the lifecycle stages work on.
#[derive(Clone, Copy, Debug, PartialEq, Eq, Structural)]
pub struct VoxelWorldChunkingPlugin;

impl VoxelWorldChunkingPlugin {
    /// The state of a world before its first tick: nothing loaded, nothing
    /// queued, nothing dirty, the player at the origin and a view distance of 8.
    pub fn build(&self, shape: BufferShape) -> (w: VoxelWorld)
        requires
            shape.wf(),
        ensures
            w.wf(),
            w.chunks.shape_spec() == shape,
            w.chunks@ == Map::<ChunkKey, Seq<Voxel>>::empty(),
            w.chunk_entities@ == Map::<ChunkKey, u64>::empty(),
            w.dirty_chunks@ == Set::<ChunkKey>::empty(),
            w.terrain_tasks@ == Set::<ChunkKey>::empty(),
            w.meshing_tasks@ == Set::<ChunkKey>::empty(),
            w.command_queue.create_spec() == Seq::<ChunkKey>::empty(),
            w.command_queue.destroy_spec() == Seq::<ChunkKey>::empty(),
            w.load_radius.horizontal == DEFAULT_LOAD_RADIUS,
            w.player_chunk.chunk_min == (ChunkKey { x: 0, y: 0, z: 0 }),
            w.player_chunk.world_pos == (WorldPos { x: 0, y: 0, z: 0 }),
    {
        VoxelWorld::new(shape)
    }
}

/// In every state of the manager each loaded coordinate is registered once: no
/// coordinate has two handles.
pub proof fn lemma_one_handle_per_chunk(world: VoxelWorld)
    requires
        world.wf(),
    ensures
        world.chunk_entities.order().no_duplicates(),
        world.chunk_entities.order().to_set() == world.chunk_entities@.dom(),
        world.chunk_entities.order().len() == world.chunk_entities@.dom().len(),
{
    world.chunk_entities.order().unique_seq_to_set();
}

/// In every state of the manager a chunk with a pending meshing task has data
/// in the chunk map and a live handle: no mesh is awaited for a chunk before
/// its data exists.
pub proof fn lemma_mesh_tasks_have_data(world: VoxelWorld, key: ChunkKey)
    requires
        world.wf(),
        world.meshing_tasks@.contains(key),
    ensures
        world.chunks@.contains_key(key),
        world.chunk_entities@.contains_key(key),
{
}

/// An edit survives unloading and reloading: if the blob that was saved for a
/// chunk decompresses to the byte form of its edited voxels, loading the blob
/// gives the edited voxels.
pub proof fn lemma_edit_survives_reload(
    cells: Seq<Voxel>,
    shape: BufferShape,
    pos: WorldPos,
    voxel: Voxel,
    blob: Seq<u8>,
)
    requires
        shape.wf(),
        cells.len() == shape.volume(),
        shape.contains(local_x(pos), pos.y as int, local_z(pos)),
        zstd_decompressed(blob) == Some(encoded(with_block(cells, shape, pos, voxel))),
    ensures
        load_outcome(blob, shape.volume()) == Ok::<Seq<Voxel>, PersistError>(
            with_block(cells, shape, pos, voxel),
        ),
{
    let edited = with_block(cells, shape, pos, voxel);
    lemma_index_in_range(
        shape.x as int,
        shape.y as int,
        shape.z as int,
        local_x(pos),
        pos.y as int,
        local_z(pos),
    );
    assert(edited.len() == cells.len());
    lemma_save_load_round_trip(edited, blob);
}

} // verus!
