//! Voxel values and how meshing sees them.

use vstd::prelude::*;

verus! {

/// Identifier of the reserved "nothing was written here" voxel.
pub const EMPTY_ID: u16 = 0;

/// Identifier of air: intentionally empty, breathable space.
pub const AIR_ID: u16 = 1;

/// Identifier of the unbreakable world-bottom border.
pub const BEDROCK_ID: u16 = 2;

/// Identifier of plain rock, the bulk of generated terrain.
pub const ROCK_ID: u16 = 3;

/// Identifier of dirt.
pub const DIRT_ID: u16 = 4;

/// Identifier of sand.
pub const SAND_ID: u16 = 5;

/// Identifier of grass.
pub const GRASS_ID: u16 = 6;

/// Identifier of snow.
pub const SNOW_ID: u16 = 7;

/// Identifier of water, the one translucent material.
pub const WATER_ID: u16 = 8;

/// A block type identifier occupying one grid cell. Equality is by raw identifier.
#[derive(Clone, Copy, Hash, Debug, PartialEq, Eq, Structural)]
pub struct Voxel(pub u16);

/// How a voxel takes part in mesh generation.
#[derive(Clone, Copy, Debug, PartialEq, Eq, Structural)]
pub enum Visibility {
    /// Produces no geometry.
    Empty,
    /// Produces geometry and lets light through.
    Translucent,
    /// Produces geometry and blocks light.
    Opaque,
}

/// The visibility class of a raw voxel identifier.
pub open spec fn visibility_of(id: u16) -> Visibility {
    if id == EMPTY_ID || id == AIR_ID {
        Visibility::Empty
    } else if id == WATER_ID {
        Visibility::Translucent
    } else {
        Visibility::Opaque
    }
}

impl Voxel {
    /// The reserved empty voxel.
    pub fn empty() -> (v: Voxel)
        ensures
            v == Voxel(EMPTY_ID),
    {
        Voxel(EMPTY_ID)
    }

    /// Visibility of this voxel for meshing: empty and air produce nothing,
    /// water is translucent, everything else is opaque.
    pub fn visibility(&self) -> (v: Visibility)
        ensures
            v == visibility_of(self.0),
    {
        if self.0 == EMPTY_ID || self.0 == AIR_ID {
            Visibility::Empty
        } else if self.0 == WATER_ID {
            Visibility::Translucent
        } else {
            Visibility::Opaque
        }
    }
}

impl Default for Voxel {
    fn default() -> (v: Self)
        ensures
            v == Voxel(0),
    {
        Voxel(0)
    }
}

/// A voxel that can name the material it is drawn with.
pub trait MaterialVoxel {
    /// The material index of this voxel, as a specification.
    spec fn mat_id(&self) -> u16;

    /// The material index of this voxel.
    fn as_mat_id(&self) -> (id: u16)
        ensures
            id == self.mat_id(),
    ;
}

impl MaterialVoxel for Voxel {
    open spec fn mat_id(&self) -> u16 {
        self.0
    }

    fn as_mat_id(&self) -> (id: u16) {
        self.0
    }
}

/// Makes `block_mesh::VoxelVisibility` known to the verifier, with its three
/// variants, so that the conversion below is checked code.
#[verifier::external_type_specification]
pub struct ExVoxelVisibility(block_mesh::VoxelVisibility);

/// The visibility class of a raw voxel identifier, in the meshing crate's own
/// type: variant for variant what `visibility_of` gives.
pub open spec fn meshing_visibility_of(id: u16) -> block_mesh::VoxelVisibility {
    match visibility_of(id) {
        Visibility::Empty => block_mesh::VoxelVisibility::Empty,
        Visibility::Translucent => block_mesh::VoxelVisibility::Translucent,
        Visibility::Opaque => block_mesh::VoxelVisibility::Opaque,
    }
}

/// How the meshing crate asks a voxel for its visibility: the same answer as
/// `Voxel::visibility`, in that crate's own type.
impl block_mesh::Voxel for Voxel {
    /// Visibility of this voxel as the meshing crate reads it: empty and air
    /// produce nothing, water is translucent, everything else is opaque.
    fn get_visibility(&self) -> (v: block_mesh::VoxelVisibility)
        ensures
            v == meshing_visibility_of(self.0),
    {
        match self.visibility() {
            Visibility::Empty => block_mesh::VoxelVisibility::Empty,
            Visibility::Translucent => block_mesh::VoxelVisibility::Translucent,
            Visibility::Opaque => block_mesh::VoxelVisibility::Opaque,
        }
    }
}

/// How the meshing crate asks a voxel for its merge value.
impl block_mesh::MergeVoxel for Voxel {
    type MergeValue = u16;

    /// The value two neighbouring faces must share to be merged into one quad:
    /// the raw identifier.
    fn merge_value(&self) -> (m: u16)
        ensures
            m == self.0,
    {
        self.0
    }
}

} // verus!
