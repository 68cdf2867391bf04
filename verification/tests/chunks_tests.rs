use voxel_world::chunks::{
    chunk_origin_of, clear_dirty_chunks, distance_squared, footprint_fits_in, get_chunk_for_pos,
    is_beyond_radius, sort_by_distance, update_player_pos, update_view_chunks, ChunkCommandQueue,
    ChunkEntities, ChunkLoadRadius, CurrentLocalPlayerChunk, DirtyChunks, WorldPos,
};
use voxel_world::keyed::{ChunkKey, KeyMap, KeySet};

fn key(x: i32, z: i32) -> ChunkKey {
    ChunkKey { x, y: 0, z }
}

fn player_at(x: i32, z: i32) -> CurrentLocalPlayerChunk {
    CurrentLocalPlayerChunk { chunk_min: key(x, z), world_pos: WorldPos { x, y: 0, z } }
}

#[test]
fn chunk_origins_round_down() {
    assert_eq!(chunk_origin_of(0), 0);
    assert_eq!(chunk_origin_of(31), 0);
    assert_eq!(chunk_origin_of(32), 32);
    assert_eq!(chunk_origin_of(-1), -32);
    assert_eq!(chunk_origin_of(-32), -32);
    assert_eq!(chunk_origin_of(-33), -64);
    assert_eq!(chunk_origin_of(i32::MAX), 2_147_483_616);
    assert_eq!(chunk_origin_of(i32::MIN), i32::MIN);
}

#[test]
fn the_chunk_of_a_position_ignores_its_height() {
    assert_eq!(get_chunk_for_pos(WorldPos { x: 2, y: 180, z: 2 }), key(0, 0));
    assert_eq!(get_chunk_for_pos(WorldPos { x: 100, y: -5, z: -100 }), key(96, -128));
}

#[test]
fn moving_the_player_updates_position_and_chunk() {
    let mut player = player_at(0, 0);
    update_player_pos(WorldPos { x: 70, y: 12, z: -1 }, &mut player);
    assert_eq!(player.world_pos, WorldPos { x: 70, y: 12, z: -1 });
    assert_eq!(player.chunk_min, key(64, -32));
}

#[test]
fn distances_are_squared_and_exact() {
    assert_eq!(distance_squared(key(0, 0), key(96, -128)), 96 * 96 + 128 * 128);
    assert_eq!(
        distance_squared(ChunkKey { x: 1, y: 2, z: 3 }, ChunkKey { x: 4, y: 6, z: 3 }),
        25
    );
    assert_eq!(
        distance_squared(key(i32::MIN, i32::MIN), key(i32::MAX, i32::MAX)),
        2 * (u32::MAX as i128) * (u32::MAX as i128)
    );
}

#[test]
fn sorting_is_by_distance_and_keeps_ties_in_order() {
    let mut keys = vec![key(64, 0), key(0, 32), key(32, 0), key(0, 0), key(0, -32), key(-64, 0)];
    sort_by_distance(&mut keys, key(0, 0));
    assert_eq!(keys, vec![key(0, 0), key(0, 32), key(32, 0), key(0, -32), key(64, 0), key(-64, 0)]);
    let mut empty: Vec<ChunkKey> = Vec::new();
    sort_by_distance(&mut empty, key(0, 0));
    assert!(empty.is_empty());
}

#[test]
fn beyond_the_radius_means_strictly_farther() {
    let origin = key(0, 0);
    assert!(!is_beyond_radius(key(64, 0), origin, 2));
    assert!(is_beyond_radius(key(96, 0), origin, 2));
    assert!(!is_beyond_radius(key(32, 32), origin, 2));
    assert!(is_beyond_radius(key(64, 32), origin, 2));
    assert!(!is_beyond_radius(key(-64, 0), origin, -2));
    assert!(is_beyond_radius(key(32, 0), origin, 0));
    assert!(!is_beyond_radius(origin, origin, 0));
    assert!(!is_beyond_radius(ChunkKey { x: 0, y: 900, z: 0 }, origin, 1));
}

#[test]
fn the_footprint_must_stay_representable() {
    assert!(footprint_fits_in(key(0, 0), 8));
    assert!(footprint_fits_in(key(i32::MAX, 0), 0));
    assert!(footprint_fits_in(key(i32::MAX, 0), -4));
    assert!(!footprint_fits_in(key(i32::MAX, 0), 1));
    assert!(!footprint_fits_in(key(0, i32::MIN + 31), 1));
    assert!(footprint_fits_in(key(0, i32::MIN + 32), 1));
    assert!(!footprint_fits_in(key(0, 0), i32::MAX));
}

#[test]
fn a_radius_of_two_asks_for_nine_chunks_nearest_first() {
    let mut queue = ChunkCommandQueue::new();
    update_view_chunks(
        &player_at(0, 0),
        &ChunkEntities::new(),
        &ChunkLoadRadius { horizontal: 2 },
        &mut queue,
    );
    assert_eq!(queue.num_destroy(), 0);
    let create = queue.take_create();
    assert_eq!(
        create,
        vec![
            key(0, 0),
            key(-32, 0),
            key(0, -32),
            key(0, 32),
            key(32, 0),
            key(-32, -32),
            key(-32, 32),
            key(32, -32),
            key(32, 32),
        ]
    );
}

#[test]
fn the_footprint_is_a_circle_around_the_player() {
    let mut queue = ChunkCommandQueue::new();
    let player = player_at(320, -640);
    update_view_chunks(&player, &ChunkEntities::new(), &ChunkLoadRadius { horizontal: 8 }, &mut queue);
    let create = queue.take_create();
    let mut expected = 0;
    for dx in -8i32..8 {
        for dz in -8i32..8 {
            let inside = dx * dx + dz * dz < 64;
            let k = key(320 + dx * 32, -640 + dz * 32);
            assert_eq!(create.contains(&k), inside);
            if inside {
                expected += 1;
            }
        }
    }
    assert_eq!(create.len(), expected);
    assert_eq!(create[0], player.chunk_min);
    for pair in create.windows(2) {
        assert!(
            distance_squared(pair[0], player.chunk_min) <= distance_squared(pair[1], player.chunk_min)
        );
    }
}

#[test]
fn loaded_chunks_are_not_asked_for_again() {
    let mut entities = ChunkEntities::new();
    entities.attach_entity(key(0, 0), 1);
    entities.attach_entity(key(32, 0), 2);
    let mut queue = ChunkCommandQueue::new();
    update_view_chunks(&player_at(0, 0), &entities, &ChunkLoadRadius { horizontal: 2 }, &mut queue);
    let create = queue.take_create();
    assert_eq!(create.len(), 7);
    assert!(!create.contains(&key(0, 0)));
    assert!(!create.contains(&key(32, 0)));
}

#[test]
fn chunks_out_of_sight_are_queued_for_destruction_in_registry_order() {
    let mut entities = ChunkEntities::new();
    entities.attach_entity(key(320, 0), 1);
    entities.attach_entity(key(0, 0), 2);
    entities.attach_entity(key(0, -96), 3);
    entities.attach_entity(key(64, 0), 4);
    let mut queue = ChunkCommandQueue::new();
    queue.queue_unload(&vec![key(7, 7)]);
    update_view_chunks(&player_at(0, 0), &entities, &ChunkLoadRadius { horizontal: 2 }, &mut queue);
    assert_eq!(queue.take_destroy(), vec![key(7, 7), key(320, 0), key(0, -96)]);
    assert_eq!(queue.num_create(), 8);
}

#[test]
fn no_radius_no_creation() {
    for radius in [0, -3] {
        let mut queue = ChunkCommandQueue::new();
        update_view_chunks(
            &player_at(0, 0),
            &ChunkEntities::new(),
            &ChunkLoadRadius { horizontal: radius },
            &mut queue,
        );
        assert_eq!(queue.num_create(), 0);
    }
}

#[test]
fn earlier_creation_commands_are_kept_and_sorted_in() {
    let mut queue = ChunkCommandQueue::new();
    let player = player_at(0, 0);
    update_view_chunks(&player, &ChunkEntities::new(), &ChunkLoadRadius { horizontal: 1 }, &mut queue);
    update_view_chunks(&player, &ChunkEntities::new(), &ChunkLoadRadius { horizontal: 1 }, &mut queue);
    assert_eq!(queue.take_create(), vec![key(0, 0), key(0, 0)]);
    assert_eq!(queue.num_create(), 0);
}

#[test]
fn the_registry_keeps_one_handle_per_coordinate() {
    let mut entities = ChunkEntities::new();
    assert_eq!(entities.len(), 0);
    assert_eq!(entities.attach_entity(key(0, 0), 10), None);
    assert_eq!(entities.attach_entity(key(32, 0), 11), None);
    assert_eq!(entities.attach_entity(key(0, 0), 12), Some(10));
    assert_eq!(entities.len(), 2);
    assert_eq!(entities.entity(key(0, 0)), Some(12));
    assert_eq!(entities.entity(key(32, 0)), Some(11));
    assert_eq!(entities.entity(key(64, 0)), None);
    assert_eq!(entities.iter_keys(), vec![key(0, 0), key(32, 0)]);
    assert_eq!(entities.detach_entity(key(0, 0)), Some(12));
    assert_eq!(entities.detach_entity(key(0, 0)), None);
    assert_eq!(entities.iter_keys(), vec![key(32, 0)]);
    assert_eq!(entities.len(), 1);
}

#[test]
fn coordinates_differ_in_any_component() {
    let mut entities = ChunkEntities::new();
    entities.attach_entity(ChunkKey { x: 1, y: 2, z: 3 }, 1);
    assert_eq!(entities.entity(ChunkKey { x: 1, y: 2, z: 4 }), None);
    assert_eq!(entities.entity(ChunkKey { x: 1, y: 0, z: 3 }), None);
    assert_eq!(entities.entity(ChunkKey { x: 3, y: 2, z: 1 }), None);
    assert_eq!(entities.entity(ChunkKey { x: 1, y: 2, z: 3 }), Some(1));
}

#[test]
fn the_dirty_set_holds_each_chunk_once() {
    let mut dirty = DirtyChunks::new();
    dirty.mark_dirty(key(0, 0));
    dirty.mark_dirty(key(32, 0));
    dirty.mark_dirty(key(0, 0));
    assert_eq!(dirty.num_dirty(), 2);
    assert_eq!(dirty.iter_dirty(), vec![key(0, 0), key(32, 0)]);
    assert!(dirty.is_dirty(key(32, 0)));
    assert!(!dirty.is_dirty(key(64, 0)));
    clear_dirty_chunks(&mut dirty);
    assert_eq!(dirty.num_dirty(), 0);
    assert!(!dirty.is_dirty(key(0, 0)));
}

#[test]
fn queue_unload_appends_in_order() {
    let mut queue = ChunkCommandQueue::new();
    queue.queue_unload(&vec![key(1, 1), key(2, 2)]);
    queue.queue_unload(&vec![key(1, 1)]);
    assert_eq!(queue.num_destroy(), 3);
    assert_eq!(queue.num_create(), 0);
    assert_eq!(queue.take_destroy(), vec![key(1, 1), key(2, 2), key(1, 1)]);
    assert_eq!(queue.num_destroy(), 0);
}

#[test]
fn key_sets_and_maps_keep_insertion_order() {
    let mut set = KeySet::new();
    assert!(set.insert(key(2, 0)));
    assert!(set.insert(key(1, 0)));
    assert!(!set.insert(key(2, 0)));
    assert_eq!(set.to_vec(), vec![key(2, 0), key(1, 0)]);
    assert_eq!(set.key_at(1), key(1, 0));
    assert!(set.remove(key(2, 0)));
    assert!(!set.remove(key(2, 0)));
    assert_eq!(set.len(), 1);
    assert!(set.contains(key(1, 0)));
    set.clear();
    assert_eq!(set.len(), 0);

    let mut map: KeyMap<&str> = KeyMap::new();
    assert_eq!(map.insert(key(2, 0), "two"), None);
    assert_eq!(map.insert(key(1, 0), "one"), None);
    assert_eq!(map.insert(key(2, 0), "deux"), Some("two"));
    assert_eq!(map.keys(), vec![key(2, 0), key(1, 0)]);
    assert_eq!(map.get(key(2, 0)), Some(&"deux"));
    assert_eq!(map.get(key(1, 0)), Some(&"one"));
    assert_eq!(map.key_at(0), key(2, 0));
    if let Some(v) = map.get_mut(key(1, 0)) {
        *v = "uno";
    }
    assert_eq!(map.get(key(1, 0)), Some(&"uno"));
    assert!(map.get_mut(key(9, 9)).is_none());
    assert_eq!(map.remove(key(2, 0)), Some("deux"));
    assert_eq!(map.remove(key(2, 0)), None);
    assert!(!map.contains_key(key(2, 0)));
    assert_eq!(map.len(), 1);
}

#[test]
fn removing_a_key_keeps_every_other_key_findable() {
    let mut map: KeyMap<u32> = KeyMap::new();
    for i in 0..50 {
        assert_eq!(map.insert(key(i * 32, -i), i as u32), None);
    }
    for i in (0..50).step_by(3) {
        assert_eq!(map.remove(key(i * 32, -i)), Some(i as u32));
    }
    for i in 0..50 {
        let expected = if i % 3 == 0 { None } else { Some(i as u32) };
        assert_eq!(map.get(key(i * 32, -i)).copied(), expected);
        assert_eq!(map.contains_key(key(i * 32, -i)), expected.is_some());
    }
    assert_eq!(map.len(), 33);
    let keys = map.keys();
    assert_eq!(keys.len(), 33);
    for (position, k) in keys.iter().enumerate() {
        assert_eq!(map.key_at(position), *k);
        assert!(keys[position + 1..].iter().all(|other| other != k));
    }
    for k in keys {
        assert!(map.remove(k).is_some());
    }
    assert_eq!(map.len(), 0);
    assert_eq!(map.insert(key(0, 0), 7), None);
    assert_eq!(map.get(key(0, 0)), Some(&7));
}
