//! The terrain generator: from per-column height offsets to a filled voxel buffer.
//!
//! The height offsets are sampled from noise fields outside this library; from
//! them on, generation is a fixed function, so that a chunk that was never
//! saved can always be regenerated identically.

use vstd::prelude::*;
use crate::buffer::{lemma_cells_determine_buffer, Extent, VoxelBuffer};
use crate::voxel::{Voxel, AIR_ID, BEDROCK_ID, DIRT_ID, ROCK_ID, SAND_ID, SNOW_ID};

verus! {

/// The surface level of a column whose height offset is zero.
pub const BASE_SURFACE_LEVEL: i32 = 64;

/// A grid of integer samples over a chunk's horizontal footprint, one per column.
#[derive(Clone, Debug)]
pub struct Heightmap {
    samples: Vec<i32>,
    width: u32,
    depth: u32,
}

impl Heightmap {
    /// Number of columns along X.
    pub closed spec fn width_spec(&self) -> int {
        self.width as int
    }

    /// Number of columns along Z.
    pub closed spec fn depth_spec(&self) -> int {
        self.depth as int
    }

    /// The samples, row by row: the sample of column `(x, z)` is at `z * width + x`.
    pub closed spec fn samples_spec(&self) -> Seq<i32> {
        self.samples@
    }

    /// The invariant: one sample per column.
    pub open spec fn wf(&self) -> bool {
        self.samples_spec().len() == self.width_spec() * self.depth_spec()
    }

    /// The sample of column `(x, z)`.
    pub open spec fn at(&self, x: int, z: int) -> int {
        self.samples_spec()[z * self.width_spec() + x] as int
    }

    /// Makes a view of `width` by `depth` columns over the samples, or gives the
    /// samples back in `Err` when their number is not `width * depth`.
    pub fn from_samples(samples: Vec<i32>, width: u32, depth: u32) -> (r: Result<Self, Vec<i32>>)
        ensures
            r.is_ok() <==> samples@.len() == width * depth,
            r matches Ok(h) ==> h.wf() && h.width_spec() == width && h.depth_spec() == depth
                && h.samples_spec() == samples@,
            r matches Err(s) ==> s@ == samples@,
    {
        assert(0 <= width * depth <= 0xFFFF_FFFF * 0xFFFF_FFFF) by (nonlinear_arith)
            requires
                0 <= width <= 0xFFFF_FFFF,
                0 <= depth <= 0xFFFF_FFFF,
        ;
        let expected: u64 = (width as u64) * (depth as u64);
        if samples.len() as u64 == expected {
            Ok(Heightmap { samples, width, depth })
        } else {
            Err(samples)
        }
    }

    /// Gets the value at the specified coordinates, X first.
    pub fn get(&self, pos: [u32; 2]) -> (v: i32)
        requires
            self.wf(),
            pos[0] < self.width_spec(),
            pos[1] < self.depth_spec(),
        ensures
            v == self.at(pos[0] as int, pos[1] as int),
    {
        assert(0 <= pos[1] * self.width && pos[1] * self.width + pos[0] < self.width * self.depth)
            by (nonlinear_arith)
            requires
                0 <= pos[0] < self.width,
                0 <= pos[1] < self.depth,
        ;
        assert(self.samples@.len() == self.width * self.depth);
        assert(pos[1] * self.width <= 0xFFFF_FFFF * 0xFFFF_FFFF) by (nonlinear_arith)
            requires
                0 <= pos[1] <= 0xFFFF_FFFF,
                0 <= self.width <= 0xFFFF_FFFF,
        ;
        let len: usize = self.samples.len();
        let i: u64 = (pos[1] as u64) * (self.width as u64) + (pos[0] as u64);
        assert(i < len);
        self.samples[i as usize]
    }
}

/// Humidity above which a column counts as humid, in thousandths.
pub const HUMID_ABOVE: i32 = 800;

/// Temperature below which a column counts as cold and above which it counts
/// as warm, in thousandths.
pub const COLD_BELOW: i32 = 200;

/// The position, in registration order, of the biome for a climate given in
/// thousandths.
pub open spec fn climate_biome(humidity: int, temperature: int) -> int {
    if humidity > HUMID_ABOVE && temperature < COLD_BELOW {
        2
    } else if humidity > HUMID_ABOVE && temperature > COLD_BELOW {
        1
    } else {
        0
    }
}

/// A terrain-generation policy: what covers the rock of a column.
#[derive(Clone, Copy, Debug, PartialEq, Eq, Structural)]
pub enum Biome {
    /// Bare rock up to the surface.
    BasicPlains,
    /// Four layers of sand over the rock.
    BasicDesert,
    /// One layer of snow over three layers of dirt.
    BasicSnowyPlains,
}

impl Biome {
    /// How many layers below the surface this biome covers.
    pub open spec fn cover_depth(self) -> int {
        match self {
            Biome::BasicPlains => 0,
            Biome::BasicDesert => 4,
            Biome::BasicSnowyPlains => 4,
        }
    }

    /// The voxel of the cover at `depth` layers below the topmost solid layer.
    pub open spec fn cover_voxel(self, depth: int) -> Voxel {
        match self {
            Biome::BasicPlains => Voxel(ROCK_ID),
            Biome::BasicDesert => Voxel(SAND_ID),
            Biome::BasicSnowyPlains => if depth == 0 {
                Voxel(SNOW_ID)
            } else {
                Voxel(DIRT_ID)
            },
        }
    }

    /// The solid voxel at `depth` layers below the topmost solid layer of a column.
    pub open spec fn solid_voxel(self, depth: int) -> Voxel {
        if 0 <= depth < self.cover_depth() {
            self.cover_voxel(depth)
        } else {
            Voxel(ROCK_ID)
        }
    }

    /// Computes the solid voxel at `depth` layers below the topmost solid layer.
    pub fn solid_voxel_at(&self, depth: i64) -> (v: Voxel)
        ensures
            v == self.solid_voxel(depth as int),
    {
        match self {
            Biome::BasicPlains => Voxel(ROCK_ID),
            Biome::BasicDesert => if 0 <= depth && depth < 4 {
                Voxel(SAND_ID)
            } else {
                Voxel(ROCK_ID)
            },
            Biome::BasicSnowyPlains => if depth == 0 {
                Voxel(SNOW_ID)
            } else if 0 < depth && depth < 4 {
                Voxel(DIRT_ID)
            } else {
                Voxel(ROCK_ID)
            },
        }
    }
}

/// The voxel that terrain generation puts at height `y` of a column whose
/// surface level is `surface`, before the world-bottom border is stamped:
/// solid below the surface, air at and above it.
pub open spec fn column_voxel(biome: Biome, surface: int, y: int) -> Voxel {
    if y < surface {
        biome.solid_voxel(surface - 1 - y)
    } else {
        Voxel(AIR_ID)
    }
}

/// The voxel of a generated chunk at height `y` of a column whose surface level
/// is `surface`: the border voxel on the lowest layer, whatever the terrain.
pub open spec fn terrain_voxel(biome: Biome, surface: int, y: int) -> Voxel {
    if y == 0 {
        Voxel(BEDROCK_ID)
    } else {
        column_voxel(biome, surface, y)
    }
}

/// Whether `buffer` holds the terrain generated for the given biome and height
/// offsets: every cell holds the terrain voxel of its column and height.
pub open spec fn is_generated(buffer: &VoxelBuffer, biome: Biome, heights: &Heightmap) -> bool {
    forall|x: int, y: int, z: int|
        buffer.shape_spec().contains(x, y, z) ==> #[trigger] buffer.at(x, y, z) == terrain_voxel(
            biome,
            BASE_SURFACE_LEVEL + heights.at(x, z),
            y,
        )
}

/// Stamps the one-voxel-thick border at the world bottom across the whole
/// footprint, overriding whatever was there.
pub fn terrain_generate_world_bottom_border(buffer: &mut VoxelBuffer)
    requires
        old(buffer).wf(),
    ensures
        final(buffer).wf(),
        final(buffer).shape_spec() == old(buffer).shape_spec(),
        forall|x: int, y: int, z: int|
            old(buffer).shape_spec().contains(x, y, z) ==> #[trigger] final(buffer).at(x, y, z) == (if y
                == 0 {
                Voxel(BEDROCK_ID)
            } else {
                old(buffer).at(x, y, z)
            }),
{
    let shape = *buffer.shape();
    let layers: u32 = if shape.y == 0 {
        0
    } else {
        1
    };
    let extent = Extent::from_min_and_shape([0, 0, 0], [shape.x, layers, shape.z]);
    buffer.fill_extent(extent, Voxel(BEDROCK_ID));
}

/// The terrain generator: the registered biomes, the first of which shapes
/// every column.
#[derive(Clone, Debug)]
pub struct TerrainGenerator {
    biome_list: Vec<Biome>,
}

impl TerrainGenerator {
    /// The registered biomes, in registration order.
    pub closed spec fn biomes(&self) -> Seq<Biome> {
        self.biome_list@
    }

    /// A generator without biomes.
    pub fn new() -> (g: Self)
        ensures
            g.biomes() == Seq::<Biome>::empty(),
    {
        TerrainGenerator { biome_list: Vec::new() }
    }

    /// Registers a biome after those that are registered already.
    pub fn register_biome(&mut self, biome: Biome) -> (g: &mut Self)
        ensures
            g.biomes() == old(self).biomes().push(biome),
            *final(self) == *final(g),
    {
        self.biome_list.push(biome);
        self
    }

    /// Returns the biome for the climate of column `(x, z)`, read from two
    /// maps that hold humidity and temperature in thousandths: humid and cold
    /// gives the third biome, humid and warm the second, and everything else,
    /// the boundaries included, the first. The biome that the table picks
    /// must be registered.
    pub fn _biome_at_xz(
        &self,
        x: u32,
        z: u32,
        humidity_map: &Heightmap,
        temperature_map: &Heightmap,
    ) -> (biome: &Biome)
        requires
            humidity_map.wf(),
            temperature_map.wf(),
            x < humidity_map.width_spec(),
            z < humidity_map.depth_spec(),
            x < temperature_map.width_spec(),
            z < temperature_map.depth_spec(),
            climate_biome(
                humidity_map.at(x as int, z as int),
                temperature_map.at(x as int, z as int),
            ) < self.biomes().len(),
        ensures
            *biome == self.biomes()[climate_biome(
                humidity_map.at(x as int, z as int),
                temperature_map.at(x as int, z as int),
            )],
    {
        let humidity = humidity_map.get([x, z]);
        let temperature = temperature_map.get([x, z]);
        if humidity > HUMID_ABOVE && temperature < COLD_BELOW {
            &self.biome_list[2]
        } else if humidity > HUMID_ABOVE && temperature > COLD_BELOW {
            &self.biome_list[1]
        } else {
            &self.biome_list[0]
        }
    }

    /// Number of registered biomes.
    pub fn biome_count(&self) -> (n: usize)
        ensures
            n == self.biomes().len(),
    {
        self.biome_list.len()
    }

    /// Fills `buffer` with the terrain of one chunk from its per-column height
    /// offsets: solid below each column's surface, air at and above it, and the
    /// border voxel across the lowest layer.
    pub fn generate(&self, buffer: &mut VoxelBuffer, heights: &Heightmap)
        requires
            self.biomes().len() > 0,
            old(buffer).wf(),
            heights.wf(),
            heights.width_spec() == old(buffer).shape_spec().x,
            heights.depth_spec() == old(buffer).shape_spec().z,
        ensures
            final(buffer).wf(),
            final(buffer).shape_spec() == old(buffer).shape_spec(),
            is_generated(final(buffer), self.biomes()[0], heights),
            forall|x: int, z: int|
                old(buffer).shape_spec().contains(x, 0, z) ==> #[trigger] final(buffer).at(x, 0, z)
                    == Voxel(BEDROCK_ID),
    {
        let shape = *buffer.shape();
        let biome = self.biome_list[0];
        let mut z: u32 = 0;
        while z < shape.z
            invariant
                buffer.wf(),
                buffer.shape_spec() == shape,
                shape == old(buffer).shape_spec(),
                heights.wf(),
                heights.width_spec() == shape.x,
                heights.depth_spec() == shape.z,
                z <= shape.z,
                forall|cx: int, cy: int, cz: int|
                    shape.contains(cx, cy, cz) && cz < z ==> #[trigger] buffer.at(cx, cy, cz)
                        == column_voxel(biome, BASE_SURFACE_LEVEL + heights.at(cx, cz), cy),
            decreases shape.z - z,
        {
            let mut x: u32 = 0;
            while x < shape.x
                invariant
                    buffer.wf(),
                    buffer.shape_spec() == shape,
                    heights.wf(),
                    heights.width_spec() == shape.x,
                    heights.depth_spec() == shape.z,
                    z < shape.z,
                    x <= shape.x,
                    forall|cx: int, cy: int, cz: int|
                        shape.contains(cx, cy, cz) && (cz < z || (cz == z && cx < x))
                            ==> #[trigger] buffer.at(cx, cy, cz) == column_voxel(
                            biome,
                            BASE_SURFACE_LEVEL + heights.at(cx, cz),
                            cy,
                        ),
                decreases shape.x - x,
            {
                let surface_level: i64 = BASE_SURFACE_LEVEL as i64 + heights.get([x, z]) as i64;
                let mut h: u32 = 0;
                while h < shape.y
                    invariant
                        buffer.wf(),
                        buffer.shape_spec() == shape,
                        z < shape.z,
                        x < shape.x,
                        h <= shape.y,
                        surface_level == BASE_SURFACE_LEVEL + heights.at(x as int, z as int),
                        forall|cx: int, cy: int, cz: int|
                            shape.contains(cx, cy, cz) && (cz < z || (cz == z && (cx < x || (cx == x
                                && cy < h)))) ==> #[trigger] buffer.at(cx, cy, cz) == column_voxel(
                                biome,
                                BASE_SURFACE_LEVEL + heights.at(cx, cz),
                                cy,
                            ),
                    decreases shape.y - h,
                {
                    let voxel = if (h as i64) < surface_level {
                        biome.solid_voxel_at(surface_level - 1 - h as i64)
                    } else {
                        Voxel(AIR_ID)
                    };
                    buffer.set_voxel([x, h, z], voxel);
                    h = h + 1;
                }
                x = x + 1;
            }
            z = z + 1;
        }
        terrain_generate_world_bottom_border(buffer);
    }
}

impl Default for TerrainGenerator {
    fn default() -> (g: Self)
        ensures
            g.biomes() == Seq::<Biome>::empty(),
    {
        TerrainGenerator::new()
    }
}

/// Generates the terrain of one chunk into a fresh buffer of the given shape.
pub fn generate_chunk(generator: &TerrainGenerator, shape: crate::shape::BufferShape, heights: &Heightmap) -> (buffer:
    VoxelBuffer)
    requires
        generator.biomes().len() > 0,
        shape.wf(),
        heights.wf(),
        heights.width_spec() == shape.x,
        heights.depth_spec() == shape.z,
    ensures
        buffer.wf(),
        buffer.shape_spec() == shape,
        is_generated(&buffer, generator.biomes()[0], heights),
{
    let mut buffer = VoxelBuffer::new_empty(shape);
    generator.generate(&mut buffer, heights);
    buffer
}

/// Registers the biomes of the world with a terrain generator.
#[derive(Clone, Copy, Debug, PartialEq, Eq, Structural)]
pub struct TerrainGeneratorPlugin;

impl TerrainGeneratorPlugin {
    /// Registers the plains biome, the one biome that shapes terrain.
    pub fn build(&self, generator: &mut TerrainGenerator)
        ensures
            final(generator).biomes() == old(generator).biomes().push(Biome::BasicPlains),
    {
        generator.register_biome(Biome::BasicPlains);
    }
}

/// Generation is a function of the biome and the height offsets alone: two
/// buffers of one shape generated from the same inputs hold identical arrays.
pub proof fn lemma_generate_deterministic(a: VoxelBuffer, b: VoxelBuffer, biome: Biome, heights: Heightmap)
    requires
        a.wf(),
        b.wf(),
        a.shape_spec() == b.shape_spec(),
        is_generated(&a, biome, &heights),
        is_generated(&b, biome, &heights),
    ensures
        a@ == b@,
{
    lemma_cells_determine_buffer(a, b);
}

} // verus!
