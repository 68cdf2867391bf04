use voxel_world::buffer::VoxelBuffer;
use voxel_world::chunk_map::ChunkMap;
use voxel_world::chunks::WorldPos;
use voxel_world::keyed::ChunkKey;
use voxel_world::mesh::{mesh_buffer, ChunkMesh, MeshBuffers};
use voxel_world::persistence::{chunk_from_disk, chunk_to_blob};
use voxel_world::shape::BufferShape;
use voxel_world::terraingen::{generate_chunk, Heightmap, TerrainGenerator, TerrainGeneratorPlugin};
use voxel_world::voxel::Voxel;
use voxel_world::world::{VoxelWorld, VoxelWorldChunkingPlugin, WorldSettings};

const AIR: Voxel = Voxel(1);
const ROCK: Voxel = Voxel(3);

fn key(x: i32, z: i32) -> ChunkKey {
    ChunkKey { x, y: 0, z }
}

fn terrain() -> VoxelBuffer {
    let mut generator = TerrainGenerator::new();
    TerrainGeneratorPlugin.build(&mut generator);
    let heights = Heightmap::from_samples(vec![0; 32 * 32], 32, 32).unwrap();
    generate_chunk(&generator, BufferShape::chunk(), &heights)
}

fn world_with_radius(radius: i32) -> VoxelWorld {
    let mut world = VoxelWorldChunkingPlugin.build(BufferShape::chunk());
    world.load_radius.horizontal = radius;
    world
}

fn load_everything_in_sight(world: &mut VoxelWorld, first_entity: u64) -> Vec<ChunkKey> {
    assert!(world.plan_chunks());
    let requests = world.take_create_requests();
    for (i, request) in requests.iter().enumerate() {
        assert!(world.attach_chunk(*request, first_entity + i as u64));
    }
    for request in &requests {
        assert!(world.complete_terrain_gen(*request, terrain()));
    }
    requests
}

#[test]
fn a_new_world_is_empty() {
    let world = VoxelWorld::new(BufferShape::chunk());
    assert_eq!(world.loaded_chunk_count(), 0);
    assert_eq!(world.dirty_chunk_count(), 0);
    assert_eq!(world.load_radius.horizontal, 8);
    assert_eq!(world.player_chunk.chunk_min, key(0, 0));
    assert_eq!(world.chunks.len(), 0);
    assert_eq!(world.command_queue.num_create(), 0);
    assert_eq!(world.command_queue.num_destroy(), 0);
}

#[test]
fn the_standard_world_is_named_world_with_seed_zero() {
    let settings = WorldSettings::standard();
    assert_eq!(settings.seed, 0);
    assert_eq!(settings.name, "world");
}

#[test]
fn a_tick_loads_what_is_in_sight() {
    let mut world = world_with_radius(2);
    let requests = load_everything_in_sight(&mut world, 100);
    assert_eq!(requests.len(), 9);
    assert_eq!(requests[0], key(0, 0));
    assert_eq!(world.loaded_chunk_count(), 9);
    assert_eq!(world.chunks.len(), 9);
    assert_eq!(world.dirty_chunk_count(), 9);
    assert_eq!(world.chunk_entities.entity(key(0, 0)), Some(100));
    assert_eq!(world.terrain_tasks.len(), 0);
}

#[test]
fn planning_again_asks_for_nothing_that_is_loaded() {
    let mut world = world_with_radius(3);
    load_everything_in_sight(&mut world, 0);
    let loaded = world.loaded_chunk_count();
    assert!(world.plan_chunks());
    assert_eq!(world.take_create_requests(), Vec::<ChunkKey>::new());
    assert_eq!(world.command_queue.num_destroy(), 0);
    assert_eq!(world.loaded_chunk_count(), loaded);
}

#[test]
fn a_loaded_coordinate_keeps_its_handle() {
    let mut world = world_with_radius(1);
    assert!(world.attach_chunk(key(0, 0), 5));
    assert!(!world.attach_chunk(key(0, 0), 6));
    assert_eq!(world.chunk_entities.entity(key(0, 0)), Some(5));
    assert_eq!(world.loaded_chunk_count(), 1);
    assert_eq!(world.chunk_entities.iter_keys(), vec![key(0, 0)]);
}

#[test]
fn ticks_never_register_a_coordinate_twice() {
    let mut world = world_with_radius(3);
    let mut next_entity = 0u64;
    for step in 0..12 {
        world.move_player(WorldPos { x: step * 40, y: 70, z: -step * 25 });
        assert!(world.plan_chunks());
        for request in world.take_create_requests() {
            world.attach_chunk(request, next_entity);
            next_entity += 1;
        }
        world.destroy_chunks();
        let keys = world.chunk_entities.iter_keys();
        for (i, a) in keys.iter().enumerate() {
            for b in &keys[i + 1..] {
                assert_ne!(a, b);
            }
        }
        let mut handles: Vec<u64> =
            keys.iter().map(|k| world.chunk_entities.entity(*k).unwrap()).collect();
        handles.sort_unstable();
        handles.dedup();
        assert_eq!(handles.len(), keys.len());
        assert_eq!(world.loaded_chunk_count(), keys.len());
    }
}

#[test]
fn a_generation_result_is_committed_once() {
    let mut world = world_with_radius(1);
    assert!(world.attach_chunk(key(0, 0), 1));
    assert!(world.terrain_tasks.contains(key(0, 0)));
    assert!(!world.chunks.has_buffer(key(0, 0)));
    assert!(world.complete_terrain_gen(key(0, 0), terrain()));
    assert!(world.chunks.has_buffer(key(0, 0)));
    assert!(world.dirty_chunks.is_dirty(key(0, 0)));
    assert!(!world.terrain_tasks.contains(key(0, 0)));
    assert!(!world.complete_terrain_gen(key(0, 0), VoxelBuffer::new(BufferShape::chunk(), AIR)));
    assert_eq!(world.chunks.buffer_at(key(0, 0)).unwrap().voxel_at([0, 10, 0]), ROCK);
}

#[test]
fn the_result_for_an_unloaded_chunk_is_dropped() {
    let mut world = world_with_radius(1);
    assert!(world.attach_chunk(key(0, 0), 1));
    world.unload_all();
    assert_eq!(world.destroy_chunks(), vec![1]);
    assert!(!world.complete_terrain_gen(key(0, 0), terrain()));
    assert_eq!(world.chunks.len(), 0);
    assert_eq!(world.dirty_chunk_count(), 0);
    assert!(!world.complete_terrain_gen(key(64, 64), terrain()));
}

#[test]
fn mesh_tasks_are_issued_for_dirty_chunks_with_data() {
    let mut world = world_with_radius(1);
    assert!(world.attach_chunk(key(0, 0), 1));
    assert!(world.attach_chunk(key(32, 0), 2));
    assert!(world.complete_terrain_gen(key(32, 0), terrain()));
    world.dirty_chunks.mark_dirty(key(0, 0));
    world.dirty_chunks.mark_dirty(key(96, 0));
    let jobs = world.queue_mesh_tasks();
    assert_eq!(jobs.len(), 1);
    assert_eq!(jobs[0].key, key(32, 0));
    assert_eq!(jobs[0].entity, 2);
    assert_eq!(jobs[0].buffer.slice(), world.chunks.buffer_at(key(32, 0)).unwrap().slice());
    assert_eq!(world.meshing_tasks.to_vec(), vec![key(32, 0)]);
    assert_eq!(world.dirty_chunk_count(), 3);
}

#[test]
fn a_mesh_is_only_awaited_for_a_chunk_with_data() {
    let mut world = world_with_radius(2);
    load_everything_in_sight(&mut world, 0);
    let jobs = world.queue_mesh_tasks();
    assert_eq!(jobs.len(), 9);
    for pending in world.meshing_tasks.to_vec() {
        assert!(world.chunks.has_buffer(pending));
        assert!(world.chunk_entities.entity(pending).is_some());
    }
    world.move_player(WorldPos { x: 10_000, y: 0, z: 0 });
    assert!(world.plan_chunks());
    world.destroy_chunks();
    assert_eq!(world.meshing_tasks.len(), 0);
    for job in jobs {
        assert_eq!(world.complete_mesh(job.key), None);
    }
}

#[test]
fn a_finished_mesh_names_the_handle_to_update() {
    let mut world = world_with_radius(1);
    load_everything_in_sight(&mut world, 40);
    let jobs = world.queue_mesh_tasks();
    assert_eq!(jobs.len(), 1);
    world.clear_dirty_chunks();
    assert_eq!(world.dirty_chunk_count(), 0);
    assert_eq!(world.complete_mesh(key(0, 0)), Some(40));
    assert_eq!(world.complete_mesh(key(0, 0)), None);
    assert_eq!(world.queue_mesh_tasks().len(), 0);
}

#[test]
fn a_snapshot_is_not_touched_by_later_edits() {
    let mut world = world_with_radius(1);
    load_everything_in_sight(&mut world, 0);
    let jobs = world.queue_mesh_tasks();
    assert!(world.remove_block(WorldPos { x: 3, y: 63, z: 3 }));
    assert_eq!(jobs[0].buffer.voxel_at([3, 63, 3]), ROCK);
    assert_eq!(world.chunks.buffer_at(key(0, 0)).unwrap().voxel_at([3, 63, 3]), AIR);
}

#[test]
fn moving_away_unloads_what_is_out_of_sight() {
    let mut world = world_with_radius(2);
    load_everything_in_sight(&mut world, 0);
    world.move_player(WorldPos { x: 64, y: 0, z: 0 });
    assert_eq!(world.player_chunk.chunk_min, key(64, 0));
    assert!(world.plan_chunks());
    let requests = world.take_create_requests();
    assert_eq!(
        requests,
        vec![key(64, 0), key(64, -32), key(64, 32), key(96, 0), key(96, -32), key(96, 32)]
    );
    let gone = world.destroy_chunks();
    assert_eq!(gone.len(), 5);
    assert_eq!(world.loaded_chunk_count(), 4);
    let mut left = world.chunk_entities.iter_keys();
    left.sort_by_key(|k| (k.x, k.z));
    assert_eq!(left, vec![key(0, 0), key(32, -32), key(32, 0), key(32, 32)]);
    assert!(!world.chunks.has_buffer(key(-32, 0)));
    assert!(!world.chunks.has_buffer(key(0, 32)));
    assert!(world.chunks.has_buffer(key(0, 0)));
    assert!(world.chunks.has_buffer(key(32, 0)));
    assert_eq!(world.chunks.len(), 4);
    assert_eq!(world.command_queue.num_destroy(), 0);
}

#[test]
fn destroying_twice_names_each_handle_once() {
    let mut world = world_with_radius(1);
    assert!(world.attach_chunk(key(0, 0), 7));
    assert!(world.attach_chunk(key(32, 0), 8));
    world.unload_all();
    world.command_queue.queue_unload(&vec![key(0, 0), key(500, 500)]);
    assert_eq!(world.destroy_chunks(), vec![7, 8]);
    assert_eq!(world.loaded_chunk_count(), 0);
    assert_eq!(world.destroy_chunks(), Vec::<u64>::new());
}

#[test]
fn planning_refuses_a_footprint_beyond_the_coordinates() {
    let mut world = world_with_radius(2);
    world.move_player(WorldPos { x: i32::MAX, y: 0, z: 0 });
    assert!(!world.plan_chunks());
    assert_eq!(world.command_queue.num_create(), 0);
    world.load_radius.horizontal = 0;
    assert!(world.plan_chunks());
}

#[test]
fn placing_needs_air() {
    let mut world = world_with_radius(1);
    load_everything_in_sight(&mut world, 0);
    world.clear_dirty_chunks();
    assert!(!world.place_block(WorldPos { x: 5, y: 10, z: 5 }, Voxel(4)));
    assert_eq!(world.chunks.buffer_at(key(0, 0)).unwrap().voxel_at([5, 10, 5]), ROCK);
    assert!(world.dirty_chunks.is_dirty(key(0, 0)));
    world.clear_dirty_chunks();
    assert!(world.place_block(WorldPos { x: 5, y: 64, z: 5 }, Voxel(4)));
    assert_eq!(world.chunks.buffer_at(key(0, 0)).unwrap().voxel_at([5, 64, 5]), Voxel(4));
    assert_eq!(world.chunks.buffer_at(key(0, 0)).unwrap().voxel_at([5, 65, 5]), AIR);
    assert!(world.dirty_chunks.is_dirty(key(0, 0)));
}

#[test]
fn edits_resolve_to_chunk_and_local_position() {
    let mut world = world_with_radius(2);
    load_everything_in_sight(&mut world, 0);
    world.clear_dirty_chunks();
    assert!(world.remove_block(WorldPos { x: -1, y: 20, z: 33 }));
    let buffer = world.chunks.buffer_at(key(-32, 32)).unwrap();
    assert_eq!(buffer.voxel_at([31, 20, 1]), AIR);
    assert_eq!(buffer.slice().iter().filter(|v| **v == AIR).count(), 32 * 32 * 192 + 1);
    assert_eq!(world.dirty_chunks.iter_dirty(), vec![key(-32, 32)]);
    assert_eq!(world.chunks.buffer_at(key(0, 0)).unwrap().voxel_at([31, 20, 1]), ROCK);
}

#[test]
fn edits_outside_the_world_change_nothing() {
    let mut world = world_with_radius(1);
    load_everything_in_sight(&mut world, 0);
    world.clear_dirty_chunks();
    let before = world.chunks.buffer_at(key(0, 0)).unwrap().snapshot();
    assert!(!world.remove_block(WorldPos { x: 0, y: -1, z: 0 }));
    assert!(!world.remove_block(WorldPos { x: 0, y: 256, z: 0 }));
    assert!(!world.remove_block(WorldPos { x: 32, y: 10, z: 0 }));
    assert!(!world.place_block(WorldPos { x: 0, y: i32::MAX, z: 0 }, Voxel(4)));
    assert_eq!(world.chunks.buffer_at(key(0, 0)).unwrap().slice(), before.slice());
    assert_eq!(world.dirty_chunk_count(), 0);
}

#[test]
fn an_edit_survives_unloading_and_reloading() {
    let mut world = world_with_radius(1);
    load_everything_in_sight(&mut world, 0);
    world.clear_dirty_chunks();
    assert!(world.place_block(WorldPos { x: 9, y: 100, z: 9 }, Voxel(6)));
    let jobs = world.queue_mesh_tasks();
    assert_eq!(jobs.len(), 1);
    let blob = chunk_to_blob(&jobs[0].buffer).unwrap();
    world.unload_all();
    assert_eq!(world.destroy_chunks().len(), 1);
    assert!(!world.chunks.has_buffer(key(0, 0)));

    assert!(world.plan_chunks());
    assert_eq!(world.take_create_requests(), vec![key(0, 0)]);
    assert!(world.attach_chunk(key(0, 0), 77));
    let reloaded = chunk_from_disk(Some(&blob[..]), world.chunks.shape()).unwrap();
    assert!(world.complete_terrain_gen(key(0, 0), reloaded));
    let buffer = world.chunks.buffer_at(key(0, 0)).unwrap();
    assert_eq!(buffer.voxel_at([9, 100, 9]), Voxel(6));
    assert_eq!(buffer.voxel_at([9, 99, 9]), AIR);
    assert_eq!(buffer.voxel_at([9, 63, 9]), ROCK);
}

#[test]
fn a_generated_chunk_meshes_into_few_quads() {
    let buffer = terrain();
    let mut buffers = MeshBuffers::new(BufferShape::chunk());
    let mut mesh = ChunkMesh::new();
    mesh_buffer(&buffer, &mut buffers, &mut mesh);
    assert_eq!(mesh.num_quads(), 10);
    let mut materials = mesh.material_indices.clone();
    materials.dedup();
    materials.sort_unstable();
    materials.dedup();
    assert_eq!(materials, vec![2, 3]);
}

#[test]
fn the_chunk_map_owns_one_buffer_per_coordinate() {
    let shape = BufferShape { x: 2, y: 2, z: 2 };
    let mut map = ChunkMap::new(shape);
    assert_eq!(map.shape(), shape);
    assert!(map.buffer_at(key(0, 0)).is_none());
    map.insert(key(0, 0), VoxelBuffer::new(shape, Voxel(3)));
    map.insert(key(2, 0), VoxelBuffer::new(shape, Voxel(4)));
    map.insert(key(0, 0), VoxelBuffer::new(shape, Voxel(5)));
    assert_eq!(map.len(), 2);
    assert_eq!(map.buffer_at(key(0, 0)).unwrap().voxel_at([1, 1, 1]), Voxel(5));
    assert_eq!(map.buffer_at(key(2, 0)).unwrap().voxel_at([1, 1, 1]), Voxel(4));
    if let Some(buffer) = map.buffer_at_mut(key(2, 0)) {
        *buffer.voxel_at_mut([0, 1, 0]) = Voxel(9);
    }
    assert_eq!(map.buffer_at(key(2, 0)).unwrap().voxel_at([0, 1, 0]), Voxel(9));
    assert!(map.buffer_at_mut(key(4, 0)).is_none());
    let removed = map.remove(key(2, 0)).unwrap();
    assert_eq!(removed.voxel_at([0, 1, 0]), Voxel(9));
    assert!(map.remove(key(2, 0)).is_none());
    assert!(!map.has_buffer(key(2, 0)));
    assert!(map.has_buffer(key(0, 0)));
    assert_eq!(map.len(), 1);
}

#[test]
fn blocks_can_be_read_where_they_can_be_edited() {
    let mut world = world_with_radius(1);
    load_everything_in_sight(&mut world, 0);
    assert_eq!(world.block(WorldPos { x: 3, y: 0, z: 3 }), Some(Voxel(2)));
    assert_eq!(world.block(WorldPos { x: 3, y: 63, z: 3 }), Some(ROCK));
    assert_eq!(world.block(WorldPos { x: 31, y: 64, z: 31 }), Some(AIR));
    assert_eq!(world.block(WorldPos { x: 3, y: -1, z: 3 }), None);
    assert_eq!(world.block(WorldPos { x: 3, y: 256, z: 3 }), None);
    assert_eq!(world.block(WorldPos { x: 32, y: 10, z: 3 }), None);
    assert_eq!(world.block(WorldPos { x: -1, y: 10, z: 3 }), None);
    assert!(world.remove_block(WorldPos { x: 3, y: 63, z: 3 }));
    assert_eq!(world.block(WorldPos { x: 3, y: 63, z: 3 }), Some(AIR));
}

#[test]
fn the_steps_of_a_tick_leave_player_and_radius_alone() {
    let mut world = world_with_radius(2);
    world.move_player(WorldPos { x: 40, y: 70, z: -40 });
    let player = world.player_chunk;
    load_everything_in_sight(&mut world, 0);
    world.queue_mesh_tasks();
    world.complete_mesh(key(32, -64));
    world.place_block(WorldPos { x: 40, y: 100, z: -40 }, Voxel(4));
    world.remove_block(WorldPos { x: 40, y: 100, z: -40 });
    world.clear_dirty_chunks();
    world.unload_all();
    world.destroy_chunks();
    assert_eq!(world.player_chunk, player);
    assert_eq!(world.load_radius.horizontal, 2);
}
