//! The block catalogue: every block type with its states, name and physical
//! properties, and the textures and model of every block state.

use std::collections::HashMap;
use vstd::prelude::*;

verus! {

broadcast use vstd::std_specs::hash::group_hash_axioms;

/// The physical properties of a block type.
#[derive(Debug, Clone, Copy, PartialEq, Eq, Structural)]
pub struct BlockProperties {
    pub collidable: bool,
    pub opaque: bool,
    pub is_air: bool,
}

impl Default for BlockProperties {
    /// A solid block: collidable, opaque, not air.
    fn default() -> (p: Self)
        ensures
            p == (BlockProperties { collidable: true, opaque: true, is_air: false }),
    {
        BlockProperties { collidable: true, opaque: true, is_air: false }
    }
}

/// A block type. Its states are the state identifiers from `first_state` to
/// `last_state`, both included.
#[derive(Debug, Clone)]
pub struct Block {
    pub block_id: u32,
    pub first_state: u32,
    pub last_state: u32,
    pub name: String,
    pub properties: BlockProperties,
}

/// The block types by identifier.
pub type BlocksMap = HashMap<u32, Block>;

/// Whether `block` is the block type with the given identifier, states, name
/// and properties.
pub open spec fn is_block(
    block: Block,
    block_id: u32,
    first_state: u32,
    last_state: u32,
    name: Seq<char>,
    properties: BlockProperties,
) -> bool {
    &&& block.block_id == block_id
    &&& block.first_state == first_state
    &&& block.last_state == last_state
    &&& block.name@ == name
    &&& block.properties == properties
}

/// The properties of air.
pub open spec fn air_properties() -> BlockProperties {
    BlockProperties { collidable: false, opaque: false, is_air: true }
}

/// The properties of a solid block.
pub open spec fn solid_properties() -> BlockProperties {
    BlockProperties { collidable: true, opaque: true, is_air: false }
}

/// Number of block types in the catalogue.
pub const BLOCK_COUNT: u32 = 5;

/// Whether `blocks` holds every block type of the catalogue under its
/// identifier: air, stone, dirt, the grass block with two states and the oak
/// log with two states.
pub open spec fn holds_blocks(blocks: Map<u32, Block>) -> bool {
    &&& is_block(blocks[0], 0, 0, 0, "air"@, air_properties())
    &&& is_block(blocks[1], 1, 1, 1, "stone"@, solid_properties())
    &&& is_block(blocks[2], 2, 2, 2, "dirt"@, solid_properties())
    &&& is_block(blocks[3], 3, 3, 4, "grass_block"@, solid_properties())
    &&& is_block(blocks[4], 4, 5, 6, "Oak Log"@, solid_properties())
}

fn register_block(
    blocks: &mut BlocksMap,
    block_id: u32,
    first_state: u32,
    last_state: u32,
    name: &str,
    properties: BlockProperties,
)
    ensures
        final(blocks)@.dom() == old(blocks)@.dom().insert(block_id),
        is_block(final(blocks)@[block_id], block_id, first_state, last_state, name@, properties),
        forall|k: u32| k != block_id && old(blocks)@.contains_key(k) ==> final(blocks)@[k] == old(blocks)@[k],
{
    let block = Block { block_id, first_state, last_state, name: name.to_owned(), properties };
    blocks.insert(block_id, block);
}

/// Registers the block types of the catalogue under their identifiers,
/// replacing what those identifiers held: air, stone, dirt, the grass block
/// with two states and the oak log with two states.
pub fn create_blocks(blocks: &mut BlocksMap)
    ensures
        final(blocks)@.dom() == old(blocks)@.dom().union(Set::new(|k: u32| k < BLOCK_COUNT)),
        forall|k: u32|
            k >= BLOCK_COUNT && old(blocks)@.contains_key(k) ==> final(blocks)@[k] == old(blocks)@[k],
        holds_blocks(final(blocks)@),
{
    register_block(
        blocks,
        0,
        0,
        0,
        "air",
        BlockProperties { collidable: false, opaque: false, is_air: true },
    );
    register_block(blocks, 1, 1, 1, "stone", BlockProperties::default());
    register_block(blocks, 2, 2, 2, "dirt", BlockProperties::default());
    register_block(blocks, 3, 3, 4, "grass_block", BlockProperties::default());
    register_block(blocks, 4, 5, 6, "Oak Log", BlockProperties::default());
    assert(blocks@.dom() =~= old(blocks)@.dom().union(Set::new(|k: u32| k < BLOCK_COUNT)));
}

/// The catalogue of block types.
#[derive(Debug, Clone)]
pub struct Blocks {
    map: BlocksMap,
}

impl View for Blocks {
    type V = Map<u32, Block>;

    closed spec fn view(&self) -> Map<u32, Block> {
        self.map@
    }
}

impl Blocks {
    /// The catalogue with every block type registered, and nothing else.
    pub fn create() -> (b: Self)
        ensures
            b@.dom() == Set::new(|k: u32| k < BLOCK_COUNT),
            holds_blocks(b@),
    {
        let mut map: BlocksMap = HashMap::new();
        create_blocks(&mut map);
        assert(map@.dom() =~= Set::new(|k: u32| k < BLOCK_COUNT));
        Blocks { map }
    }

    /// The block type with the given identifier.
    pub fn get(&self, block_id: u32) -> (r: Option<&Block>)
        ensures
            r matches Some(b) ==> self@.contains_key(block_id) && *b == self@[block_id],
            r is None ==> !self@.contains_key(block_id),
    {
        self.map.get(&block_id)
    }

    /// Number of block types.
    pub fn len(&self) -> (n: usize)
        ensures
            n == self@.dom().len(),
    {
        self.map.len()
    }
}

/// One of the six directions a block face can look in.
#[derive(Debug, Clone, Copy, PartialEq, Eq, Structural)]
pub enum Direction {
    Up,
    Down,
    North,
    South,
    East,
    West,
}

/// How the textures of a block state are laid out over its faces.
#[derive(Debug, Clone, Copy, PartialEq, Eq, Structural)]
pub enum BlockTexturePattern {
    /// No texture at all.
    Untextured,
    /// One texture on every face.
    Single,
    /// One texture on top and bottom, one on the sides.
    TopBottom,
    /// One texture on top, one on the bottom, one on the sides.
    TopBottomSides,
    /// One texture per face.
    All,
    /// Laid out by the model itself.
    Custom,
}

/// The pattern that a number of textures stands for, if it stands for one.
pub open spec fn pattern_of(count: int) -> Option<BlockTexturePattern> {
    if count == 0 {
        Some(BlockTexturePattern::Untextured)
    } else if count == 1 {
        Some(BlockTexturePattern::Single)
    } else if count == 2 {
        Some(BlockTexturePattern::TopBottom)
    } else if count == 3 {
        Some(BlockTexturePattern::TopBottomSides)
    } else if count == 6 {
        Some(BlockTexturePattern::All)
    } else {
        None
    }
}

/// Which texture of a pattern a face looking in `direction` shows, if any.
pub open spec fn texture_slot(pattern: BlockTexturePattern, direction: Direction) -> Option<int> {
    match pattern {
        BlockTexturePattern::Untextured | BlockTexturePattern::Custom => None,
        BlockTexturePattern::Single => Some(0),
        BlockTexturePattern::TopBottom => match direction {
            Direction::Up | Direction::Down => Some(0),
            _ => Some(1),
        },
        BlockTexturePattern::TopBottomSides => match direction {
            Direction::Up => Some(0),
            Direction::Down => Some(1),
            _ => Some(2),
        },
        BlockTexturePattern::All => match direction {
            Direction::Up => Some(0),
            Direction::Down => Some(1),
            Direction::North => Some(2),
            Direction::South => Some(3),
            Direction::East => Some(4),
            Direction::West => Some(5),
        },
    }
}

/// The textures of a block state: the file names of the images and how they
/// are laid out over the faces.
#[derive(Debug, Clone)]
pub struct BlockTextures {
    pub pattern: BlockTexturePattern,
    pub textures: Vec<String>,
}

impl BlockTextures {
    /// No textures.
    pub fn none() -> (t: Self)
        ensures
            t.pattern == BlockTexturePattern::Untextured,
            t.textures@.len() == 0,
    {
        BlockTextures { pattern: BlockTexturePattern::Untextured, textures: Vec::new() }
    }

    /// The textures with the given file names, laid out by their number.
    pub fn new(paths: Vec<String>) -> (t: Self)
        requires
            pattern_of(paths@.len() as int).is_some(),
        ensures
            Some(t.pattern) == pattern_of(paths@.len() as int),
            t.textures@ == paths@,
    {
        let pattern = match paths.len() {
            0 => BlockTexturePattern::Untextured,
            1 => BlockTexturePattern::Single,
            2 => BlockTexturePattern::TopBottom,
            3 => BlockTexturePattern::TopBottomSides,
            _ => BlockTexturePattern::All,
        };
        BlockTextures { pattern, textures: paths }
    }

    /// Decides whether a number of textures stands for a pattern.
    pub fn is_valid_count(count: usize) -> (b: bool)
        ensures
            b == pattern_of(count as int).is_some(),
    {
        count <= 3 || count == 6
    }

    /// The texture that a face looking in `direction` shows, if the pattern
    /// gives it one and the texture is there.
    pub fn get_texture(&self, direction: &Direction) -> (r: Option<&String>)
        ensures
            r == (match texture_slot(self.pattern, *direction) {
                Some(i) => if i < self.textures@.len() {
                    Some(&self.textures@[i])
                } else {
                    None
                },
                None => None,
            }),
    {
        let slot: Option<usize> = match self.pattern {
            BlockTexturePattern::Untextured | BlockTexturePattern::Custom => None,
            BlockTexturePattern::Single => Some(0),
            BlockTexturePattern::TopBottom => match direction {
                Direction::Up | Direction::Down => Some(0),
                _ => Some(1),
            },
            BlockTexturePattern::TopBottomSides => match direction {
                Direction::Up => Some(0),
                Direction::Down => Some(1),
                _ => Some(2),
            },
            BlockTexturePattern::All => match direction {
                Direction::Up => Some(0),
                Direction::Down => Some(1),
                Direction::North => Some(2),
                Direction::South => Some(3),
                Direction::East => Some(4),
                Direction::West => Some(5),
            },
        };
        match slot {
            Some(i) => if i < self.textures.len() {
                Some(&self.textures[i])
            } else {
                None
            },
            None => None,
        }
    }
}

/// The kind of geometry a block state is drawn with.
#[derive(Debug, Clone, Copy, PartialEq, Eq, Structural)]
pub enum BlockModelKind {
    /// Nothing is drawn.
    Invisible,
    /// A full cube.
    Standard,
}

/// One state of a block type.
#[derive(Debug, Clone)]
pub struct BlockState {
    pub block_id: u32,
    pub state_id: u32,
    pub textures: BlockTextures,
    pub model: BlockModelKind,
}

/// The block states by identifier.
pub type StatesMap = HashMap<u32, BlockState>;

/// Whether `state` is the given state of the given block with the given
/// texture file names: laid out by their number, and drawn as a cube unless
/// there are none.
pub open spec fn is_state(state: BlockState, block_id: u32, state_id: u32, textures: Seq<Seq<char>>) -> bool {
    &&& state.block_id == block_id
    &&& state.state_id == state_id
    &&& Some(state.textures.pattern) == pattern_of(textures.len() as int)
    &&& state.textures.textures@.len() == textures.len()
    &&& forall|i: int| 0 <= i < textures.len() ==> (#[trigger] state.textures.textures@[i])@ == textures[i]
    &&& state.model == (if textures.len() == 0 {
        BlockModelKind::Invisible
    } else {
        BlockModelKind::Standard
    })
}

/// Number of block states in the catalogue.
pub const STATE_COUNT: u32 = 7;

/// Whether `states` holds every block state of the catalogue under its
/// identifier, with the file names of its textures.
pub open spec fn holds_states(states: Map<u32, BlockState>) -> bool {
    &&& is_state(states[0], 0, 0, Seq::empty())
    &&& is_state(states[1], 1, 1, seq!["stone.png"@])
    &&& is_state(states[2], 2, 2, seq!["dirt.png"@])
    &&& is_state(states[3], 3, 3, seq!["grass_block_top.png"@, "dirt.png"@, "grass_block_side.png"@])
    &&& is_state(states[4], 3, 4, seq!["grass_block_top.png"@, "dirt.png"@, "grass_block_side.png"@])
    &&& is_state(states[5], 4, 5, seq!["oak_log_top.png"@, "oak_log.png"@])
    &&& is_state(states[6], 4, 6, seq!["oak_log_top.png"@, "oak_log.png"@])
}

fn register_state(states: &mut StatesMap, block_id: u32, state_id: u32, textures: Vec<String>)
    requires
        pattern_of(textures@.len() as int).is_some(),
    ensures
        final(states)@.dom() == old(states)@.dom().insert(state_id),
        is_state(
            final(states)@[state_id],
            block_id,
            state_id,
            Seq::new(textures@.len(), |i: int| textures@[i]@),
        ),
        forall|k: u32| k != state_id && old(states)@.contains_key(k) ==> final(states)@[k] == old(states)@[k],
{
    let model = if textures.len() == 0 {
        BlockModelKind::Invisible
    } else {
        BlockModelKind::Standard
    };
    let state = BlockState { block_id, state_id, textures: BlockTextures::new(textures), model };
    states.insert(state_id, state);
}

fn grass_textures() -> (v: Vec<String>)
    ensures
        v@.len() == 3,
        v@[0]@ == "grass_block_top.png"@,
        v@[1]@ == "dirt.png"@,
        v@[2]@ == "grass_block_side.png"@,
{
    let mut v: Vec<String> = Vec::new();
    v.push("grass_block_top.png".to_owned());
    v.push("dirt.png".to_owned());
    v.push("grass_block_side.png".to_owned());
    v
}

fn log_textures() -> (v: Vec<String>)
    ensures
        v@.len() == 2,
        v@[0]@ == "oak_log_top.png"@,
        v@[1]@ == "oak_log.png"@,
{
    let mut v: Vec<String> = Vec::new();
    v.push("oak_log_top.png".to_owned());
    v.push("oak_log.png".to_owned());
    v
}

fn single_texture(name: &str) -> (v: Vec<String>)
    ensures
        v@.len() == 1,
        v@[0]@ == name@,
{
    let mut v: Vec<String> = Vec::new();
    v.push(name.to_owned());
    v
}

/// Registers the states of every block type under their identifiers,
/// replacing what those identifiers held.
pub fn create_states(states: &mut StatesMap)
    ensures
        final(states)@.dom() == old(states)@.dom().union(Set::new(|k: u32| k < STATE_COUNT)),
        forall|k: u32|
            k >= STATE_COUNT && old(states)@.contains_key(k) ==> final(states)@[k] == old(states)@[k],
        holds_states(final(states)@),
{
    register_state(states, 0, 0, Vec::new());
    register_state(states, 1, 1, single_texture("stone.png"));
    register_state(states, 2, 2, single_texture("dirt.png"));
    register_state(states, 3, 3, grass_textures());
    register_state(states, 3, 4, grass_textures());
    register_state(states, 4, 5, log_textures());
    register_state(states, 4, 6, log_textures());
    assert(states@.dom() =~= old(states)@.dom().union(Set::new(|k: u32| k < STATE_COUNT)));
}

/// The catalogue of block states.
#[derive(Debug, Clone)]
pub struct BlockStates {
    map: StatesMap,
}

impl View for BlockStates {
    type V = Map<u32, BlockState>;

    closed spec fn view(&self) -> Map<u32, BlockState> {
        self.map@
    }
}

impl BlockStates {
    /// The catalogue with every block state registered, and nothing else.
    pub fn create() -> (s: Self)
        ensures
            s@.dom() == Set::new(|k: u32| k < STATE_COUNT),
            holds_states(s@),
    {
        let mut map: StatesMap = HashMap::new();
        create_states(&mut map);
        assert(map@.dom() =~= Set::new(|k: u32| k < STATE_COUNT));
        BlockStates { map }
    }

    /// The block state with the given identifier.
    pub fn get(&self, state_id: u32) -> (r: Option<&BlockState>)
        ensures
            r matches Some(s) ==> self@.contains_key(state_id) && *s == self@[state_id],
            r is None ==> !self@.contains_key(state_id),
    {
        self.map.get(&state_id)
    }
}

/// The block types and the block states of the world.
#[derive(Debug, Clone)]
pub struct BlockData {
    pub blocks: Blocks,
    pub states: BlockStates,
}

impl BlockData {
    /// The full catalogue: every block type and every block state.
    pub fn create() -> (d: Self)
        ensures
            d.blocks@.dom() == Set::new(|k: u32| k < BLOCK_COUNT),
            holds_blocks(d.blocks@),
            d.states@.dom() == Set::new(|k: u32| k < STATE_COUNT),
            holds_states(d.states@),
    {
        let blocks = Blocks::create();
        let states = BlockStates::create();
        BlockData { blocks, states }
    }
}

} // verus!
