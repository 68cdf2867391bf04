//! Chunk lifecycle: which chunk coordinates should be loaded around the player,
//! the registry of chunk handles, the dirty set and the command queue.

use vstd::prelude::*;
use vstd::seq_lib::{to_multiset_build, to_multiset_contains, to_multiset_insert};
use crate::keyed::{ChunkKey, KeyMap, KeySet};
use crate::shape::CHUNK_LENGTH;

verus! {

/// A position in the world, in whole blocks.
#[derive(Clone, Copy, Debug, PartialEq, Eq, Structural)]
pub struct WorldPos {
    pub x: i32,
    pub y: i32,
    pub z: i32,
}

/// The origin of the chunk column that holds block coordinate `v` along one
/// horizontal axis: `v` rounded down to a multiple of the chunk length.
pub open spec fn chunk_origin(v: int) -> int {
    (v / (CHUNK_LENGTH as int)) * (CHUNK_LENGTH as int)
}

/// Rounds a block coordinate down to a multiple of the chunk length.
pub fn chunk_origin_of(v: i32) -> (o: i32)
    ensures
        o == chunk_origin(v as int),
        o <= v < o + CHUNK_LENGTH,
{
    let q = v.checked_div_euclid(32);
    assert(-67108864 <= (v as int) / 32 <= 67108863 && ((v as int) / 32) * 32 <= v < ((v as int) / 32)
        * 32 + 32) by (nonlinear_arith)
        requires
            -2147483648 <= v <= 2147483647,
    ;
    match q {
        Some(q) => q * 32,
        None => 0,
    }
}

/// Gets the chunk for any given position: floor division by the chunk length
/// on X and Z, with Y fixed at the world bottom.
pub fn get_chunk_for_pos(pos: WorldPos) -> (key: ChunkKey)
    ensures
        key.x == chunk_origin(pos.x as int),
        key.y == 0,
        key.z == chunk_origin(pos.z as int),
{
    ChunkKey { x: chunk_origin_of(pos.x), y: 0, z: chunk_origin_of(pos.z) }
}

/// The current chunk the player is in, and the player's block position.
#[derive(Clone, Copy, Debug, PartialEq, Eq, Structural)]
pub struct CurrentLocalPlayerChunk {
    pub chunk_min: ChunkKey,
    pub world_pos: WorldPos,
}

/// Updates the current chunk position for the current player.
pub fn update_player_pos(player_coords: WorldPos, chunk_pos: &mut CurrentLocalPlayerChunk)
    ensures
        final(chunk_pos).world_pos == player_coords,
        final(chunk_pos).chunk_min.x == chunk_origin(player_coords.x as int),
        final(chunk_pos).chunk_min.y == 0,
        final(chunk_pos).chunk_min.z == chunk_origin(player_coords.z as int),
{
    let nearest_chunk_origin = get_chunk_for_pos(player_coords);
    chunk_pos.world_pos = player_coords;
    if chunk_pos.chunk_min != nearest_chunk_origin {
        chunk_pos.chunk_min = nearest_chunk_origin;
    }
}

/// The view distance, in chunks.
#[derive(Clone, Copy, Debug, PartialEq, Eq, Structural)]
pub struct ChunkLoadRadius {
    pub horizontal: i32,
}

/// Squared distance between two chunk coordinates.
pub open spec fn distance_sq(a: ChunkKey, b: ChunkKey) -> int {
    (a.x - b.x) * (a.x - b.x) + (a.y - b.y) * (a.y - b.y) + (a.z - b.z) * (a.z - b.z)
}

/// Squared horizontal distance between two chunk coordinates.
pub open spec fn horizontal_distance_sq(a: ChunkKey, b: ChunkKey) -> int {
    (a.x - b.x) * (a.x - b.x) + (a.z - b.z) * (a.z - b.z)
}

fn square(d: i64) -> (s: i128)
    requires
        -4294967296 <= d <= 4294967296,
    ensures
        s == d * d,
        0 <= s <= 18446744073709551616,
{
    assert(0 <= d * d <= 18446744073709551616) by (nonlinear_arith)
        requires
            -4294967296 <= d <= 4294967296,
    ;
    (d as i128) * (d as i128)
}

/// Computes the squared distance between two chunk coordinates.
pub fn distance_squared(a: ChunkKey, b: ChunkKey) -> (d: i128)
    ensures
        d == distance_sq(a, b),
        d >= 0,
{
    let dx = square(a.x as i64 - b.x as i64);
    let dy = square(a.y as i64 - b.y as i64);
    let dz = square(a.z as i64 - b.z as i64);
    dx + dy + dz
}

/// Whether the chunk at `key` lies farther from `origin` than `radius` chunks,
/// measured horizontally. Such a chunk is due for unloading.
pub open spec fn beyond_radius(key: ChunkKey, origin: ChunkKey, radius: int) -> bool {
    horizontal_distance_sq(key, origin) > radius * radius * (CHUNK_LENGTH * CHUNK_LENGTH)
}

/// Decides whether the chunk at `key` is due for unloading.
pub fn is_beyond_radius(key: ChunkKey, origin: ChunkKey, radius: i32) -> (b: bool)
    ensures
        b == beyond_radius(key, origin, radius as int),
{
    let dx = square(key.x as i64 - origin.x as i64);
    let dz = square(key.z as i64 - origin.z as i64);
    let rr = square(radius as i64);
    assert(rr * 1024 <= 18446744073709551616 * 1024) by (nonlinear_arith)
        requires
            rr <= 18446744073709551616,
    ;
    assert(radius * radius * (CHUNK_LENGTH * CHUNK_LENGTH) == rr * 1024) by (nonlinear_arith)
        requires
            rr == radius * radius,
            CHUNK_LENGTH == 32,
    ;
    dx + dz > rr * 1024
}

/// The coordinate `dx` chunks along X and `dz` chunks along Z from `origin`.
pub open spec fn offset_key(origin: ChunkKey, dx: int, dz: int) -> ChunkKey {
    ChunkKey {
        x: (origin.x + dx * CHUNK_LENGTH) as i32,
        y: origin.y,
        z: (origin.z + dz * CHUNK_LENGTH) as i32,
    }
}

/// Whether the chunk offset `(dx, dz)` lies inside the circular load footprint
/// of the given radius.
pub open spec fn in_load_range(dx: int, dz: int, radius: int) -> bool {
    &&& -radius <= dx < radius
    &&& -radius <= dz < radius
    &&& dx * dx + dz * dz < radius * radius
}

/// Whether every coordinate of the load footprint around `origin` is representable.
pub open spec fn footprint_fits(origin: ChunkKey, radius: int) -> bool {
    radius > 0 ==> {
        &&& i32::MIN <= origin.x - radius * CHUNK_LENGTH
        &&& origin.x + radius * CHUNK_LENGTH <= i32::MAX
        &&& i32::MIN <= origin.z - radius * CHUNK_LENGTH
        &&& origin.z + radius * CHUNK_LENGTH <= i32::MAX
    }
}

/// Decides whether every coordinate of the load footprint is representable.
pub fn footprint_fits_in(origin: ChunkKey, radius: i32) -> (b: bool)
    ensures
        b == footprint_fits(origin, radius as int),
{
    if radius <= 0 {
        return true;
    }
    let reach: i64 = radius as i64 * 32;
    let x = origin.x as i64;
    let z = origin.z as i64;
    x - reach >= -2147483648 && x + reach <= 2147483647 && z - reach >= -2147483648 && z + reach
        <= 2147483647
}

/// The coordinates to create in row `dx` of the footprint, among the first `n`
/// offsets along Z, in the order in which the footprint is walked.
pub open spec fn row_candidates(
    origin: ChunkKey,
    radius: int,
    loaded: Set<ChunkKey>,
    dx: int,
    n: int,
) -> Seq<ChunkKey>
    decreases n,
{
    if n <= 0 {
        Seq::empty()
    } else {
        let rest = row_candidates(origin, radius, loaded, dx, n - 1);
        let dz = n - 1 - radius;
        let key = offset_key(origin, dx, dz);
        if dx * dx + dz * dz < radius * radius && !loaded.contains(key) {
            rest.push(key)
        } else {
            rest
        }
    }
}

/// The coordinates to create in the first `n` rows of the footprint.
pub open spec fn grid_candidates(origin: ChunkKey, radius: int, loaded: Set<ChunkKey>, n: int) -> Seq<
    ChunkKey,
>
    decreases n,
{
    if n <= 0 {
        Seq::empty()
    } else {
        grid_candidates(origin, radius, loaded, n - 1) + row_candidates(
            origin,
            radius,
            loaded,
            n - 1 - radius,
            2 * radius,
        )
    }
}

/// The coordinates to create around `origin`: every coordinate of the circular
/// footprint that has no handle yet, in the order in which the footprint is walked.
pub open spec fn load_candidates(origin: ChunkKey, radius: int, loaded: Set<ChunkKey>) -> Seq<ChunkKey> {
    grid_candidates(origin, radius, loaded, 2 * radius)
}

/// The members of `keys` that are due for unloading, in the order of `keys`.
pub open spec fn unload_candidates(keys: Seq<ChunkKey>, origin: ChunkKey, radius: int) -> Seq<ChunkKey>
    decreases keys.len(),
{
    if keys.len() == 0 {
        Seq::empty()
    } else {
        let rest = unload_candidates(keys.drop_last(), origin, radius);
        if beyond_radius(keys.last(), origin, radius) {
            rest.push(keys.last())
        } else {
            rest
        }
    }
}

/// Whether `keys` is in ascending order of distance from `origin`.
pub open spec fn sorted_by_distance(keys: Seq<ChunkKey>, origin: ChunkKey) -> bool {
    forall|i: int, j: int|
        0 <= i <= j < keys.len() ==> distance_sq(keys[i], origin) <= distance_sq(keys[j], origin)
}

/// Sorts `keys` by ascending distance from `origin`.
pub fn sort_by_distance(keys: &mut Vec<ChunkKey>, origin: ChunkKey)
    ensures
        sorted_by_distance(final(keys)@, origin),
        final(keys)@.to_multiset() == old(keys)@.to_multiset(),
{
    let mut out: Vec<ChunkKey> = Vec::new();
    let n = keys.len();
    let mut i: usize = 0;
    assert(keys@.subrange(0, 0) =~= Seq::<ChunkKey>::empty());
    while i < n
        invariant
            n == keys@.len(),
            i <= n,
            sorted_by_distance(out@, origin),
            out@.to_multiset() == keys@.subrange(0, i as int).to_multiset(),
            out@.len() == i,
        decreases n - i,
    {
        let key = keys[i];
        let d = distance_squared(key, origin);
        let mut j: usize = 0;
        while j < out.len() && distance_squared(out[j], origin) <= d
            invariant
                j <= out@.len(),
                d == distance_sq(key, origin),
                forall|a: int| 0 <= a < j ==> distance_sq(out@[a], origin) <= d,
            decreases out@.len() - j,
        {
            j = j + 1;
        }
        let ghost before = out@;
        out.insert(j, key);
        proof {
            to_multiset_insert(before, j as int, key);
            assert(keys@.subrange(0, i + 1) =~= keys@.subrange(0, i as int).push(key));
            to_multiset_build(keys@.subrange(0, i as int), key);
            assert forall|a: int, b: int| 0 <= a <= b < out@.len() implies distance_sq(out@[a], origin)
                <= distance_sq(out@[b], origin) by {
                let a0 = if a < j { a } else { a - 1 };
                let b0 = if b < j { b } else { b - 1 };
                if a != j && b != j {
                    assert(out@[a] == before[a0] && out@[b] == before[b0]);
                } else if a == j && b != j {
                    assert(out@[b] == before[b0]);
                    assert(distance_sq(before[j as int], origin) <= distance_sq(before[b0], origin));
                } else if b == j && a != j {
                    assert(out@[a] == before[a0]);
                }
            }
        }
        i = i + 1;
    }
    assert(keys@.subrange(0, n as int) =~= keys@);
    *keys = out;
}

/// The registry of chunk handles: which engine entity stands for which loaded
/// chunk coordinate.
pub struct ChunkEntities(KeyMap<u64>);

impl View for ChunkEntities {
    type V = Map<ChunkKey, u64>;

    closed spec fn view(&self) -> Map<ChunkKey, u64> {
        self.0@
    }
}

impl ChunkEntities {
    /// The loaded coordinates in the order in which they are walked: a newly
    /// attached coordinate comes last.
    pub closed spec fn order(&self) -> Seq<ChunkKey> {
        self.0.order()
    }

    /// The invariant of the map that holds the registry.
    pub closed spec fn inner_wf(&self) -> bool {
        self.0.wf()
    }

    /// The invariant of the registry: no coordinate is registered twice, so no
    /// coordinate ever has two handles.
    pub open spec fn wf(&self) -> bool {
        &&& self.inner_wf()
        &&& self.order().no_duplicates()
        &&& self.order().to_set() == self@.dom()
    }

    /// The empty registry.
    pub fn new() -> (r: Self)
        ensures
            r.wf(),
            r@ == Map::<ChunkKey, u64>::empty(),
    {
        let r = ChunkEntities(KeyMap::new());
        proof {
            r.0.lemma_order();
        }
        r
    }

    /// Returns the entity attached to the chunk.
    pub fn entity(&self, pos: ChunkKey) -> (r: Option<u64>)
        requires
            self.wf(),
        ensures
            r == (if self@.contains_key(pos) {
                Some(self@[pos])
            } else {
                None
            }),
    {
        match self.0.get(pos) {
            Some(e) => Some(*e),
            None => None,
        }
    }

    /// Attaches the specified entity to the chunk data, and returns the entity
    /// that the chunk had before, which is no longer registered.
    pub fn attach_entity(&mut self, pos: ChunkKey, entity: u64) -> (previous: Option<u64>)
        requires
            old(self).wf(),
        ensures
            final(self).wf(),
            final(self)@ == old(self)@.insert(pos, entity),
            previous == (if old(self)@.contains_key(pos) {
                Some(old(self)@[pos])
            } else {
                None
            }),
            final(self).order() == (if old(self)@.contains_key(pos) {
                old(self).order()
            } else {
                old(self).order().push(pos)
            }),
    {
        let previous = self.0.insert(pos, entity);
        proof {
            self.0.lemma_order();
        }
        previous
    }

    /// Detaches the specified entity to the chunk data.
    pub fn detach_entity(&mut self, pos: ChunkKey) -> (previous: Option<u64>)
        requires
            old(self).wf(),
        ensures
            final(self).wf(),
            final(self)@ == old(self)@.remove(pos),
            previous == (if old(self)@.contains_key(pos) {
                Some(old(self)@[pos])
            } else {
                None
            }),
    {
        let previous = self.0.remove(pos);
        proof {
            self.0.lemma_order();
        }
        previous
    }

    /// Returns the loaded chunk keys, in the registry's order.
    pub fn iter_keys(&self) -> (keys: Vec<ChunkKey>)
        ensures
            keys@ == self.order(),
    {
        self.0.keys()
    }

    /// Return the number of loaded chunks.
    pub fn len(&self) -> (n: usize)
        requires
            self.wf(),
        ensures
            n == self@.dom().len(),
            n == self.order().len(),
    {
        self.0.len()
    }
}

impl Default for ChunkEntities {
    fn default() -> (r: Self)
        ensures
            r.wf(),
            r@ == Map::<ChunkKey, u64>::empty(),
    {
        ChunkEntities::new()
    }
}

/// Holds the dirty chunks for the current frame: the coordinates whose voxels
/// changed since their last mesh build.
pub struct DirtyChunks(KeySet);

impl View for DirtyChunks {
    type V = Set<ChunkKey>;

    closed spec fn view(&self) -> Set<ChunkKey> {
        self.0@
    }
}

impl DirtyChunks {
    /// The dirty coordinates in the order in which they were first marked.
    pub closed spec fn order(&self) -> Seq<ChunkKey> {
        self.0.order()
    }

    /// The invariant of the set that holds the marks.
    pub closed spec fn inner_wf(&self) -> bool {
        self.0.wf()
    }

    /// The invariant: the order lists exactly the dirty coordinates, each once.
    pub open spec fn wf(&self) -> bool {
        &&& self.inner_wf()
        &&& self.order().no_duplicates()
        &&& self.order().to_set() == self@
    }

    /// The empty set.
    pub fn new() -> (d: Self)
        ensures
            d.wf(),
            d@ == Set::<ChunkKey>::empty(),
    {
        DirtyChunks(KeySet::new())
    }

    /// Marks a chunk as changed since its last mesh build.
    pub fn mark_dirty(&mut self, chunk: ChunkKey)
        requires
            old(self).wf(),
        ensures
            final(self).wf(),
            final(self)@ == old(self)@.insert(chunk),
    {
        self.0.insert(chunk);
    }

    /// The dirty coordinates, in the order in which they were first marked.
    pub fn iter_dirty(&self) -> (keys: Vec<ChunkKey>)
        ensures
            keys@ == self.order(),
    {
        self.0.to_vec()
    }

    /// Number of dirty chunks.
    pub fn num_dirty(&self) -> (n: usize)
        requires
            self.wf(),
        ensures
            n == self@.len(),
            n == self.order().len(),
    {
        self.0.len()
    }

    /// Whether a chunk is marked.
    pub fn is_dirty(&self, chunk: ChunkKey) -> (b: bool)
        requires
            self.wf(),
        ensures
            b == self@.contains(chunk),
    {
        self.0.contains(chunk)
    }

    /// Forgets every mark.
    pub fn clear(&mut self)
        ensures
            final(self).wf(),
            final(self)@ == Set::<ChunkKey>::empty(),
    {
        self.0.clear();
    }
}

impl Default for DirtyChunks {
    fn default() -> (d: Self)
        ensures
            d.wf(),
            d@ == Set::<ChunkKey>::empty(),
    {
        DirtyChunks::new()
    }
}

/// Clears the dirty set in its entirety, once per tick.
pub fn clear_dirty_chunks(dirty_chunks: &mut DirtyChunks)
    ensures
        final(dirty_chunks).wf(),
        final(dirty_chunks)@ == Set::<ChunkKey>::empty(),
{
    dirty_chunks.clear();
}

/// A queue tracking the creation / destroy commands for chunks.
#[derive(Clone, Debug)]
pub struct ChunkCommandQueue {
    create: Vec<ChunkKey>,
    destroy: Vec<ChunkKey>,
}

impl ChunkCommandQueue {
    /// The coordinates waiting to be created, first to last.
    pub closed spec fn create_spec(&self) -> Seq<ChunkKey> {
        self.create@
    }

    /// The coordinates waiting to be destroyed, first to last.
    pub closed spec fn destroy_spec(&self) -> Seq<ChunkKey> {
        self.destroy@
    }

    /// The empty queue.
    pub fn new() -> (q: Self)
        ensures
            q.create_spec() == Seq::<ChunkKey>::empty(),
            q.destroy_spec() == Seq::<ChunkKey>::empty(),
    {
        ChunkCommandQueue { create: Vec::new(), destroy: Vec::new() }
    }

    /// Queues every coordinate of `region` for destruction.
    pub fn queue_unload(&mut self, region: &Vec<ChunkKey>)
        ensures
            final(self).create_spec() == old(self).create_spec(),
            final(self).destroy_spec() == old(self).destroy_spec() + region@,
    {
        let mut i: usize = 0;
        assert(region@.subrange(0, 0) =~= Seq::<ChunkKey>::empty());
        assert(self.destroy@ + Seq::<ChunkKey>::empty() =~= self.destroy@);
        while i < region.len()
            invariant
                i <= region@.len(),
                self.create@ == old(self).create@,
                self.destroy@ == old(self).destroy@ + region@.subrange(0, i as int),
            decreases region@.len() - i,
        {
            self.destroy.push(region[i]);
            assert(region@.subrange(0, i + 1) =~= region@.subrange(0, i as int).push(region@[i as int]));
            assert(self.destroy@ =~= old(self).destroy@ + region@.subrange(0, i + 1));
            i = i + 1;
        }
        assert(region@.subrange(0, region@.len() as int) =~= region@);
    }

    /// Takes every creation command out of the queue, first to last.
    pub fn take_create(&mut self) -> (taken: Vec<ChunkKey>)
        ensures
            taken@ == old(self).create_spec(),
            final(self).create_spec() == Seq::<ChunkKey>::empty(),
            final(self).destroy_spec() == old(self).destroy_spec(),
    {
        let mut taken: Vec<ChunkKey> = Vec::new();
        std::mem::swap(&mut taken, &mut self.create);
        taken
    }

    /// Takes every destruction command out of the queue, first to last.
    pub fn take_destroy(&mut self) -> (taken: Vec<ChunkKey>)
        ensures
            taken@ == old(self).destroy_spec(),
            final(self).destroy_spec() == Seq::<ChunkKey>::empty(),
            final(self).create_spec() == old(self).create_spec(),
    {
        let mut taken: Vec<ChunkKey> = Vec::new();
        std::mem::swap(&mut taken, &mut self.destroy);
        taken
    }

    /// Number of creation commands waiting.
    pub fn num_create(&self) -> (n: usize)
        ensures
            n == self.create_spec().len(),
    {
        self.create.len()
    }

    /// Number of destruction commands waiting.
    pub fn num_destroy(&self) -> (n: usize)
        ensures
            n == self.destroy_spec().len(),
    {
        self.destroy.len()
    }
}

impl Default for ChunkCommandQueue {
    fn default() -> (q: Self)
        ensures
            q.create_spec() == Seq::<ChunkKey>::empty(),
            q.destroy_spec() == Seq::<ChunkKey>::empty(),
    {
        ChunkCommandQueue::new()
    }
}

/// Whether `key` is a coordinate of the circular load footprint around `origin`:
/// a whole number of chunks away along X and Z, at the origin's height, and
/// closer than `radius` chunks.
pub open spec fn in_footprint(key: ChunkKey, origin: ChunkKey, radius: int) -> bool {
    &&& key.y == origin.y
    &&& (key.x - origin.x) % (CHUNK_LENGTH as int) == 0
    &&& (key.z - origin.z) % (CHUNK_LENGTH as int) == 0
    &&& in_load_range(
        (key.x - origin.x) / (CHUNK_LENGTH as int),
        (key.z - origin.z) / (CHUNK_LENGTH as int),
        radius,
    )
}

proof fn lemma_row_candidates(origin: ChunkKey, radius: int, loaded: Set<ChunkKey>, dx: int, n: int)
    requires
        footprint_fits(origin, radius),
        -radius <= dx < radius,
        0 <= n <= 2 * radius,
    ensures
        forall|i: int|
            #![trigger row_candidates(origin, radius, loaded, dx, n)[i]]
            0 <= i < row_candidates(origin, radius, loaded, dx, n).len() ==> {
                let k = row_candidates(origin, radius, loaded, dx, n)[i];
                &&& in_footprint(k, origin, radius)
                &&& !loaded.contains(k)
                &&& k.x == origin.x + dx * CHUNK_LENGTH
                &&& k.z < origin.z + (n - radius) * CHUNK_LENGTH
            },
        forall|k: ChunkKey|
            in_footprint(k, origin, radius) && !loaded.contains(k) && k.x == origin.x + dx * CHUNK_LENGTH
                && k.z < origin.z + (n - radius) * CHUNK_LENGTH ==> #[trigger] row_candidates(
                origin,
                radius,
                loaded,
                dx,
                n,
            ).contains(k),
        row_candidates(origin, radius, loaded, dx, n).no_duplicates(),
    decreases n,
{
    let row = row_candidates(origin, radius, loaded, dx, n);
    if n > 0 {
        lemma_row_candidates(origin, radius, loaded, dx, n - 1);
        let rest = row_candidates(origin, radius, loaded, dx, n - 1);
        let dz = n - 1 - radius;
        let key = offset_key(origin, dx, dz);
        lemma_offset_key(origin, radius, dx, dz);
        assert forall|i: int| 0 <= i < row.len() implies ({
            let k = #[trigger] row[i];
            &&& in_footprint(k, origin, radius)
            &&& !loaded.contains(k)
            &&& k.x == origin.x + dx * CHUNK_LENGTH
            &&& k.z < origin.z + (n - radius) * CHUNK_LENGTH
        }) by {
            if i < rest.len() {
                assert(row[i] == rest[i]);
            }
        }
        assert forall|k: ChunkKey|
            in_footprint(k, origin, radius) && !loaded.contains(k) && k.x == origin.x + dx * CHUNK_LENGTH
                && k.z < origin.z + (n - radius) * CHUNK_LENGTH implies #[trigger] row.contains(k) by {
            let kz = (k.z - origin.z) / (CHUNK_LENGTH as int);
            if kz == dz {
                assert(k == key);
                assert(row[row.len() - 1] == k);
            } else {
                assert(rest.contains(k));
                let j = choose|j: int| 0 <= j < rest.len() && rest[j] == k;
                assert(row[j] == k);
            }
        }
        assert forall|a: int, b: int| 0 <= a < b < row.len() implies row[a] != row[b] by {
            if b < rest.len() {
                assert(row[a] == rest[a] && row[b] == rest[b]);
            } else {
                assert(row[a] == rest[a]);
            }
        }
    }
}

proof fn lemma_grid_candidates(origin: ChunkKey, radius: int, loaded: Set<ChunkKey>, n: int)
    requires
        footprint_fits(origin, radius),
        0 <= n <= 2 * radius,
    ensures
        forall|i: int|
            #![trigger grid_candidates(origin, radius, loaded, n)[i]]
            0 <= i < grid_candidates(origin, radius, loaded, n).len() ==> {
                let k = grid_candidates(origin, radius, loaded, n)[i];
                &&& in_footprint(k, origin, radius)
                &&& !loaded.contains(k)
                &&& k.x < origin.x + (n - radius) * CHUNK_LENGTH
            },
        forall|k: ChunkKey|
            in_footprint(k, origin, radius) && !loaded.contains(k) && k.x < origin.x + (n - radius)
                * CHUNK_LENGTH ==> #[trigger] grid_candidates(origin, radius, loaded, n).contains(k),
        grid_candidates(origin, radius, loaded, n).no_duplicates(),
    decreases n,
{
    let grid = grid_candidates(origin, radius, loaded, n);
    if n > 0 {
        lemma_grid_candidates(origin, radius, loaded, n - 1);
        let dx = n - 1 - radius;
        lemma_row_candidates(origin, radius, loaded, dx, 2 * radius);
        let rest = grid_candidates(origin, radius, loaded, n - 1);
        let row = row_candidates(origin, radius, loaded, dx, 2 * radius);
        assert(grid == rest + row);
        assert forall|i: int| 0 <= i < grid.len() implies ({
            let k = #[trigger] grid[i];
            &&& in_footprint(k, origin, radius)
            &&& !loaded.contains(k)
            &&& k.x < origin.x + (n - radius) * CHUNK_LENGTH
        }) by {
            if i < rest.len() {
                assert(grid[i] == rest[i]);
            } else {
                assert(grid[i] == row[i - rest.len()]);
            }
        }
        assert forall|k: ChunkKey|
            in_footprint(k, origin, radius) && !loaded.contains(k) && k.x < origin.x + (n - radius)
                * CHUNK_LENGTH implies #[trigger] grid.contains(k) by {
            let kx = (k.x - origin.x) / (CHUNK_LENGTH as int);
            if kx == dx {
                assert(row.contains(k));
                let j = choose|j: int| 0 <= j < row.len() && row[j] == k;
                assert(grid[rest.len() + j] == k);
            } else {
                assert(rest.contains(k));
                let j = choose|j: int| 0 <= j < rest.len() && rest[j] == k;
                assert(grid[j] == k);
            }
        }
        assert forall|a: int, b: int| 0 <= a < b < grid.len() implies grid[a] != grid[b] by {
            if b < rest.len() {
                assert(grid[a] == rest[a] && grid[b] == rest[b]);
            } else if a < rest.len() {
                assert(grid[a] == rest[a] && grid[b] == row[b - rest.len()]);
            } else {
                assert(grid[a] == row[a - rest.len()] && grid[b] == row[b - rest.len()]);
            }
        }
    }
}

/// The coordinates queued for creation are exactly the coordinates of the
/// footprint that have no handle, each once: no coordinate that is loaded, and
/// none twice, is ever asked for.
pub proof fn lemma_load_candidates(origin: ChunkKey, radius: int, loaded: Set<ChunkKey>)
    requires
        footprint_fits(origin, radius),
    ensures
        load_candidates(origin, radius, loaded).no_duplicates(),
        forall|k: ChunkKey| #[trigger]
            load_candidates(origin, radius, loaded).contains(k) <==> (in_footprint(k, origin, radius)
                && !loaded.contains(k)),
{
    let c = load_candidates(origin, radius, loaded);
    if radius > 0 {
        lemma_grid_candidates(origin, radius, loaded, 2 * radius);
        assert forall|k: ChunkKey| #[trigger] c.contains(k) implies in_footprint(k, origin, radius)
            && !loaded.contains(k) by {
            let j = choose|j: int| 0 <= j < c.len() && c[j] == k;
            assert(c[j] == k);
        }
    } else {
        assert(c =~= Seq::<ChunkKey>::empty());
    }
}

/// The coordinates queued for destruction are exactly the loaded coordinates
/// beyond the radius, in registry order.
pub proof fn lemma_unload_candidates(keys: Seq<ChunkKey>, origin: ChunkKey, radius: int)
    ensures
        forall|k: ChunkKey| #[trigger]
            unload_candidates(keys, origin, radius).contains(k) <==> (keys.contains(k) && beyond_radius(
                k,
                origin,
                radius,
            )),
        keys.no_duplicates() ==> unload_candidates(keys, origin, radius).no_duplicates(),
        unload_candidates(keys, origin, radius).len() <= keys.len(),
    decreases keys.len(),
{
    let out = unload_candidates(keys, origin, radius);
    if keys.len() > 0 {
        let head = keys.drop_last();
        let last = keys.last();
        lemma_unload_candidates(head, origin, radius);
        let rest = unload_candidates(head, origin, radius);
        assert forall|k: ChunkKey| #[trigger] out.contains(k) <==> (keys.contains(k) && beyond_radius(
            k,
            origin,
            radius,
        )) by {
            if out.contains(k) {
                let j = choose|j: int| 0 <= j < out.len() && out[j] == k;
                if j < rest.len() {
                    assert(rest[j] == k);
                    assert(rest.contains(k));
                    let h = choose|h: int| 0 <= h < head.len() && head[h] == k;
                    assert(keys[h] == k);
                } else {
                    assert(k == last);
                    assert(keys[keys.len() - 1] == k);
                }
            }
            if keys.contains(k) && beyond_radius(k, origin, radius) {
                let h = choose|h: int| 0 <= h < keys.len() && keys[h] == k;
                if h < head.len() {
                    assert(head[h] == k);
                    assert(rest.contains(k));
                    let j = choose|j: int| 0 <= j < rest.len() && rest[j] == k;
                    assert(out[j] == k);
                } else {
                    assert(out[out.len() - 1] == k);
                }
            }
        }
        if keys.no_duplicates() {
            assert forall|a: int, b: int| 0 <= a < b < out.len() implies out[a] != out[b] by {
                if b < rest.len() {
                    assert(out[a] == rest[a] && out[b] == rest[b]);
                } else {
                    assert(out[a] == rest[a]);
                    assert(rest.contains(rest[a]));
                    let h = choose|h: int| 0 <= h < head.len() && head[h] == rest[a];
                    assert(keys[h] == rest[a]);
                }
            }
        }
    }
}

/// A rearrangement of a list in which nothing occurs twice has the same
/// members, each once.
pub proof fn lemma_rearranged(a: Seq<ChunkKey>, b: Seq<ChunkKey>)
    requires
        a.to_multiset() == b.to_multiset(),
        b.no_duplicates(),
    ensures
        a.no_duplicates(),
        forall|k: ChunkKey| #[trigger] a.contains(k) <==> b.contains(k),
{
    b.lemma_multiset_has_no_duplicates();
    a.lemma_multiset_has_no_duplicates_conv();
    assert forall|k: ChunkKey| #[trigger] a.contains(k) <==> b.contains(k) by {
        to_multiset_contains(a, k);
        to_multiset_contains(b, k);
    }
}

/// The key at a footprint offset is the origin moved by whole chunks.
proof fn lemma_offset_key(origin: ChunkKey, radius: int, dx: int, dz: int)
    requires
        footprint_fits(origin, radius),
        -radius <= dx < radius,
        -radius <= dz < radius,
    ensures
        offset_key(origin, dx, dz).x == origin.x + dx * CHUNK_LENGTH,
        offset_key(origin, dx, dz).z == origin.z + dz * CHUNK_LENGTH,
        offset_key(origin, dx, dz).y == origin.y,
{
    assert(-radius * CHUNK_LENGTH <= dx * CHUNK_LENGTH < radius * CHUNK_LENGTH) by (nonlinear_arith)
        requires
            -radius <= dx < radius,
            CHUNK_LENGTH == 32,
    ;
    assert(-radius * CHUNK_LENGTH <= dz * CHUNK_LENGTH < radius * CHUNK_LENGTH) by (nonlinear_arith)
        requires
            -radius <= dz < radius,
            CHUNK_LENGTH == 32,
    ;
}

/// Checks for the loaded chunks around the player and schedules loading of new
/// chunks in sight and unloading of chunks out of sight.
///
/// Every coordinate of the circular footprint that has no handle is queued for
/// creation, every loaded coordinate beyond the radius is queued for
/// destruction, and the creation queue ends up nearest first. Into an empty
/// creation queue goes no coordinate that is loaded, and none twice.
pub fn update_view_chunks(
    player_pos: &CurrentLocalPlayerChunk,
    chunk_entities: &ChunkEntities,
    view_radius: &ChunkLoadRadius,
    chunk_command_queue: &mut ChunkCommandQueue,
)
    requires
        chunk_entities.wf(),
        footprint_fits(player_pos.chunk_min, view_radius.horizontal as int),
    ensures
        sorted_by_distance(final(chunk_command_queue).create_spec(), player_pos.chunk_min),
        final(chunk_command_queue).create_spec().to_multiset() == (old(chunk_command_queue).create_spec()
            + load_candidates(
            player_pos.chunk_min,
            view_radius.horizontal as int,
            chunk_entities@.dom(),
        )).to_multiset(),
        final(chunk_command_queue).destroy_spec() == old(chunk_command_queue).destroy_spec()
            + unload_candidates(
            chunk_entities.order(),
            player_pos.chunk_min,
            view_radius.horizontal as int,
        ),
        old(chunk_command_queue).create_spec().len() == 0 ==> {
            &&& final(chunk_command_queue).create_spec().no_duplicates()
            &&& forall|k: ChunkKey| #[trigger]
                final(chunk_command_queue).create_spec().contains(k) <==> (in_footprint(
                    k,
                    player_pos.chunk_min,
                    view_radius.horizontal as int,
                ) && !chunk_entities@.contains_key(k))
        },
{
    let origin = player_pos.chunk_min;
    let radius = view_radius.horizontal;
    let r: i64 = radius as i64;
    let ghost loaded = chunk_entities@.dom();
    let ghost old_create = chunk_command_queue.create@;
    let ghost old_destroy = chunk_command_queue.destroy@;
    assert(old_create + Seq::<ChunkKey>::empty() =~= old_create);
    let mut x: i64 = -r;
    while x < r
        invariant
            chunk_entities.wf(),
            loaded == chunk_entities@.dom(),
            footprint_fits(origin, radius as int),
            r == radius,
            -r <= x <= r || (r <= 0 && x == -r),
            chunk_command_queue.destroy@ == old_destroy,
            chunk_command_queue.create@ == old_create + grid_candidates(
                origin,
                radius as int,
                loaded,
                x + r,
            ),
        decreases r - x,
    {
        let ghost row_start = chunk_command_queue.create@;
        let mut z: i64 = -r;
        assert(row_start + Seq::<ChunkKey>::empty() =~= row_start);
        while z < r
            invariant
                chunk_entities.wf(),
                loaded == chunk_entities@.dom(),
                footprint_fits(origin, radius as int),
                r == radius,
                r > 0,
                -r <= x < r,
                -r <= z <= r,
                chunk_command_queue.destroy@ == old_destroy,
                chunk_command_queue.create@ == row_start + row_candidates(
                    origin,
                    radius as int,
                    loaded,
                    x as int,
                    z + r,
                ),
            decreases r - z,
        {
            let ghost before = chunk_command_queue.create@;
            proof {
                lemma_offset_key(origin, radius as int, x as int, z as int);
                assert(0 <= x * x <= 2147483647 * 2147483647) by (nonlinear_arith)
                    requires
                        -2147483647 <= x <= 2147483647,
                ;
                assert(0 <= z * z <= 2147483647 * 2147483647) by (nonlinear_arith)
                    requires
                        -2147483647 <= z <= 2147483647,
                ;
                assert(0 <= r * r <= 2147483647 * 2147483647) by (nonlinear_arith)
                    requires
                        0 <= r <= 2147483647,
                ;
                assert(-r * 32 <= x * 32 < r * 32 && -r * 32 <= z * 32 < r * 32);
            }
            if x * x + z * z < r * r {
                let chunk_key = ChunkKey {
                    x: (origin.x as i64 + x * 32) as i32,
                    y: origin.y,
                    z: (origin.z as i64 + z * 32) as i32,
                };
                assert(chunk_key == offset_key(origin, x as int, z as int));
                if chunk_entities.entity(chunk_key).is_none() {
                    chunk_command_queue.create.push(chunk_key);
                }
            }
            proof {
                let next = row_candidates(origin, radius as int, loaded, x as int, z + r + 1);
                assert(z + r + 1 - 1 - radius == z);
                assert(chunk_command_queue.create@ =~= row_start + next);
            }
            z = z + 1;
        }
        proof {
            assert(x + r + 1 - 1 - radius == x);
            assert(z + r == 2 * radius);
            assert(chunk_command_queue.create@ =~= old_create + (grid_candidates(
                origin,
                radius as int,
                loaded,
                x + r,
            ) + row_candidates(origin, radius as int, loaded, x as int, 2 * radius)));
        }
        x = x + 1;
    }
    proof {
        if r <= 0 {
            assert(grid_candidates(origin, radius as int, loaded, 2 * radius) =~= Seq::<ChunkKey>::empty());
            assert(grid_candidates(origin, radius as int, loaded, x + r) =~= Seq::<ChunkKey>::empty());
        } else {
            assert(x + r == 2 * radius);
        }
    }
    let keys = chunk_entities.iter_keys();
    let mut i: usize = 0;
    assert(keys@.subrange(0, 0) =~= Seq::<ChunkKey>::empty());
    assert(old_destroy + Seq::<ChunkKey>::empty() =~= old_destroy);
    while i < keys.len()
        invariant
            i <= keys@.len(),
            chunk_command_queue.create@ == old_create + load_candidates(origin, radius as int, loaded),
            chunk_command_queue.destroy@ == old_destroy + unload_candidates(
                keys@.subrange(0, i as int),
                origin,
                radius as int,
            ),
        decreases keys@.len() - i,
    {
        let loaded_chunk = keys[i];
        let ghost head = keys@.subrange(0, i as int);
        let ghost next = keys@.subrange(0, i + 1);
        assert(next.drop_last() =~= head);
        assert(next.last() == loaded_chunk);
        if is_beyond_radius(loaded_chunk, origin, radius) {
            chunk_command_queue.destroy.push(loaded_chunk);
        }
        assert(chunk_command_queue.destroy@ =~= old_destroy + unload_candidates(
            next,
            origin,
            radius as int,
        ));
        i = i + 1;
    }
    assert(keys@.subrange(0, keys@.len() as int) =~= keys@);
    sort_by_distance(&mut chunk_command_queue.create, origin);
    proof {
        if old_create.len() == 0 {
            let wanted = load_candidates(origin, radius as int, loaded);
            assert(old_create + wanted =~= wanted);
            lemma_load_candidates(origin, radius as int, loaded);
            lemma_rearranged(chunk_command_queue.create@, wanted);
        }
    }
}

} // verus!
