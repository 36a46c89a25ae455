use vstd::prelude::*;
use crate::texture::{BlockTextureType, TextureName};
use crate::mesh::RenderError;
use crate::world::World;

verus! {

/// How a block takes part in the two mesh passes.
#[derive(Clone, Copy, Debug, PartialEq, Eq, Structural)]
pub enum BlockType {
    Empty,
    Solid,
    Transparent,
}

impl BlockType {
    /// Solid blocks are drawn in the solid pass.
    pub open spec fn is_solid(self) -> bool {
        self == BlockType::Solid
    }

    /// Solid and transparent blocks are both drawn in the transparent pass.
    pub open spec fn is_transparent(self) -> bool {
        self != BlockType::Empty
    }
}

/// Per-voxel auxiliary data; it holds nothing yet.
#[derive(Debug, PartialEq)]
pub struct NbtBlock {}

impl NbtBlock {
    pub fn new() -> (r: NbtBlock)
        ensures
            r == (NbtBlock {}),
    {
        NbtBlock {}
    }
}

impl Clone for NbtBlock {
    fn clone(&self) -> (r: Self)
        ensures
            r == *self,
    {
        NbtBlock {}
    }
}

/// Per-entity auxiliary data; it holds nothing yet.
#[derive(Debug, PartialEq)]
pub struct NbtEntity {}

impl NbtEntity {
    pub fn new() -> (r: NbtEntity)
        ensures
            r == (NbtEntity {}),
    {
        NbtEntity {}
    }
}

/// The shape and texturing of a full block. Sizes are in sixteenths of a voxel.
#[derive(Debug, PartialEq)]
pub struct BlockModelType {
    pub block_size: (u32, u32, u32),
    pub texture: BlockTextureType,
}

impl BlockModelType {
    /// The texture name of one face. The blank strategy names no texture for
    /// any face: asking for one is a configuration error, returned as
    /// `Untextured`, and a mesh that needs it is not drawn.
    pub fn get_texture(&self, side: &crate::texture::Side) -> (r: Result<String, RenderError>)
        ensures
            r matches Ok(s) ==> self.texture.face_name(*side) == Some(s@),
            r is Err <==> self.texture is Blank,
            r is Err ==> r == Err::<String, RenderError>(RenderError::Untextured),
    {
        match self.texture.face_texture(side) {
            Some(s) => Ok(s),
            None => Err(RenderError::Untextured),
        }
    }
}

impl Clone for BlockModelType {
    fn clone(&self) -> (r: Self)
        ensures
            r == *self,
    {
        BlockModelType { block_size: self.block_size, texture: self.texture.clone() }
    }
}

/// How a block is drawn.
#[derive(Debug, PartialEq)]
pub enum ModelType {
    Block(BlockModelType),
    Plant(TextureName),
}

impl Clone for ModelType {
    fn clone(&self) -> (r: Self)
        ensures
            r == *self,
    {
        match self {
            ModelType::Block(m) => ModelType::Block(m.clone()),
            ModelType::Plant(t) => ModelType::Plant(t.clone()),
        }
    }
}

/// A collision box placed relative to the voxel. Lengths are in sixteenths of a voxel.
#[derive(Clone, Copy, Debug, PartialEq)]
pub struct BlockCollision {
    pub offset: (i32, i32, i32),
    pub size: (u32, u32, u32),
}

/// How a block collides; box dimensions are in sixteenths of a voxel.
#[derive(Clone, Copy, Debug, PartialEq, Eq, Structural)]
pub enum CollisionData {
    Empty,
    Interact(u32, u32, u32),
    Normal(u32, u32, u32),
}

/// The static definition of a kind of block, held by the world's registry.
#[derive(Debug, PartialEq)]
pub struct BlockData {
    pub model: ModelType,
    pub rotate: bool,
    pub collision_data: CollisionData,
    pub name: String,
    pub block_type: BlockType,
}

impl Clone for BlockData {
    fn clone(&self) -> (r: Self)
        ensures
            r == *self,
    {
        BlockData {
            model: self.model.clone(),
            rotate: self.rotate,
            collision_data: self.collision_data,
            name: self.name.clone(),
            block_type: self.block_type,
        }
    }
}

/// The definition registered first in every world: an untextured, non-colliding
/// block drawn in neither pass.
pub open spec fn is_air(d: BlockData) -> bool {
    &&& d.name@ == "air"@
    &&& d.model == ModelType::Block(BlockModelType { block_size: (16, 16, 16), texture: BlockTextureType::Blank })
    &&& !d.rotate
    &&& d.collision_data == CollisionData::Empty
    &&& d.block_type == BlockType::Empty
}

/// Builds the air definition.
pub fn air_data() -> (r: BlockData)
    ensures
        is_air(r),
{
    BlockData {
        model: ModelType::Block(BlockModelType { block_size: (16, 16, 16), texture: BlockTextureType::Blank }),
        rotate: false,
        collision_data: CollisionData::Empty,
        name: "air".to_string(),
        block_type: BlockType::Empty,
    }
}

/// The occupant of one voxel: a registry id, its auxiliary data, copies of its
/// definition's model and collision, and the cached pass flags of its definition.
#[derive(Debug, PartialEq)]
pub struct Block {
    pub nbt: NbtBlock,
    pub id: u64,
    pub model_data: ModelType,
    pub collision_data: CollisionData,
    pub solid: bool,
    pub transparent: bool,
}

impl Block {
    /// The instance that `data`, registered under `id`, gives with auxiliary data `nbt`.
    pub open spec fn instance_of(self, id: u64, nbt: NbtBlock, data: BlockData) -> bool {
        &&& self.id == id
        &&& self.nbt == nbt
        &&& self.model_data == data.model
        &&& self.collision_data == data.collision_data
        &&& self.solid == data.block_type.is_solid()
        &&& self.transparent == data.block_type.is_transparent()
    }

    /// The instance refers to a definition of `reg` and caches that definition's pass flags.
    pub open spec fn fits(self, reg: Seq<BlockData>) -> bool {
        &&& (self.id as int) < reg.len()
        &&& self.solid == reg[self.id as int].block_type.is_solid()
        &&& self.transparent == reg[self.id as int].block_type.is_transparent()
    }

    /// Builds an instance of the block registered under `id` in `world`.
    pub fn new(id: u64, nbt: NbtBlock, world: &World) -> (r: Block)
        requires
            (id as int) < world.registry().len(),
        ensures
            r.instance_of(id, nbt, world.registry()[id as int]),
    {
        let data = world.get_block_data(id);
        Block {
            nbt,
            id,
            model_data: data.model.clone(),
            collision_data: data.collision_data,
            solid: data.block_type == BlockType::Solid,
            transparent: data.block_type != BlockType::Empty,
        }
    }

    pub fn get_id(&self) -> (r: u64)
        ensures
            r == self.id,
    {
        self.id
    }

    pub fn is_solid(&self) -> (r: bool)
        ensures
            r == self.solid,
    {
        self.solid
    }

    pub fn is_transparent(&self) -> (r: bool)
        ensures
            r == self.transparent,
    {
        self.transparent
    }
}

impl Clone for Block {
    fn clone(&self) -> (r: Self)
        ensures
            r == *self,
    {
        Block {
            nbt: self.nbt.clone(),
            id: self.id,
            model_data: self.model_data.clone(),
            collision_data: self.collision_data,
            solid: self.solid,
            transparent: self.transparent,
        }
    }
}

} // verus!
