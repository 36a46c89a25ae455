use minecraft_clone::block::{Block, BlockData, BlockModelType, BlockType, CollisionData, ModelType, NbtBlock, NbtEntity};
use minecraft_clone::chunk::Chunk;
use minecraft_clone::geometry::{get_chunk, BlockPos};
use minecraft_clone::texture::{BlockTextureType, LogTextureMap, TextureName};
use minecraft_clone::world::World;

fn text(s: &str) -> TextureName {
    TextureName::Text(s.to_string())
}

fn grass() -> BlockData {
    BlockData {
        model: ModelType::Block(BlockModelType {
            block_size: (16, 16, 16),
            texture: BlockTextureType::Log(LogTextureMap { top: text("top"), side: text("side"), bottom: text("bottom") }),
        }),
        rotate: false,
        collision_data: CollisionData::Normal(16, 16, 16),
        name: "grass block".to_string(),
        block_type: BlockType::Solid,
    }
}

fn dirt() -> BlockData {
    BlockData {
        model: ModelType::Block(BlockModelType { block_size: (16, 16, 16), texture: BlockTextureType::All(text("dirt")) }),
        rotate: false,
        collision_data: CollisionData::Normal(16, 16, 16),
        name: "dirt block".to_string(),
        block_type: BlockType::Solid,
    }
}

fn glass() -> BlockData {
    BlockData {
        model: ModelType::Block(BlockModelType { block_size: (16, 16, 16), texture: BlockTextureType::All(text("glass")) }),
        rotate: false,
        collision_data: CollisionData::Normal(16, 16, 16),
        name: "glass".to_string(),
        block_type: BlockType::Transparent,
    }
}

fn at(x: i64, y: i64, z: i64) -> BlockPos {
    BlockPos::new(x, y, z)
}

#[test]
fn new_world_registers_air_first() {
    let world = World::new();
    let air = world.get_block_data(0);
    assert_eq!(air.name, "air");
    assert_eq!(air.block_type, BlockType::Empty);
    assert_eq!(air.model, ModelType::Block(BlockModelType { block_size: (16, 16, 16), texture: BlockTextureType::Blank }));
    assert_eq!(air.collision_data, CollisionData::Empty);
    assert!(!air.rotate);
}

#[test]
fn new_world_holds_air_in_its_first_column() {
    let world = World::new();
    for p in [at(0, 0, 0), at(15, 255, 15), at(7, 100, 3)] {
        let b = world.get_block(p).expect("allocated");
        assert_eq!(b.get_id(), 0);
        assert!(!b.is_solid());
        assert!(!b.is_transparent());
    }
}

#[test]
fn reg_block_returns_consecutive_ids() {
    let mut world = World::new();
    assert_eq!(world.block_count(), 1);
    assert_eq!(world.reg_block(grass()), 1);
    assert_eq!(world.reg_block(dirt()), 2);
    assert_eq!(world.reg_block(grass()), 3);
    assert_eq!(world.get_block_data(2).name, "dirt block");
    assert_eq!(world.get_block_data(3).name, "grass block");
    assert_eq!(world.block_count(), 4);
}

#[test]
fn block_new_copies_its_definition() {
    let mut world = World::new();
    let id = world.reg_block(glass());
    let b = Block::new(id, NbtBlock::new(), &world);
    assert_eq!(b.get_id(), id);
    assert!(!b.is_solid());
    assert!(b.is_transparent());
    assert_eq!(b.model_data, glass().model);
    assert_eq!(b.collision_data, CollisionData::Normal(16, 16, 16));
    let d = Block::new(world.reg_block(dirt()), NbtBlock::new(), &world);
    assert!(d.is_solid());
    assert!(d.is_transparent());
}

#[test]
fn place_then_get_round_trip() {
    let mut world = World::new();
    let id = world.reg_block(grass());
    for p in [at(0, 0, 0), at(3, 4, 5), at(15, 15, 15), at(9, 255, 2), at(0, 16, 0)] {
        let b = Block::new(id, NbtBlock::new(), &world);
        world.place_block(p, b.clone());
        assert_eq!(world.get_block(p), Some(&b));
    }
}

#[test]
fn place_overwrites_with_air() {
    let mut world = World::new();
    let id = world.reg_block(dirt());
    world.place_block(at(1, 2, 3), Block::new(id, NbtBlock::new(), &world));
    world.place_block(at(1, 2, 3), Block::new(0, NbtBlock::new(), &world));
    assert_eq!(world.get_block(at(1, 2, 3)).unwrap().get_id(), 0);
}

#[test]
fn place_leaves_neighbours_alone() {
    let mut world = World::new();
    let id = world.reg_block(dirt());
    world.place_block(at(5, 5, 5), Block::new(id, NbtBlock::new(), &world));
    for p in [at(4, 5, 5), at(6, 5, 5), at(5, 4, 5), at(5, 6, 5), at(5, 5, 4), at(5, 5, 6)] {
        assert_eq!(world.get_block(p).unwrap().get_id(), 0);
    }
}

#[test]
fn unallocated_positions_hold_nothing() {
    let world = World::new();
    for p in [at(16, 0, 0), at(0, 0, 16), at(0, 256, 0), at(-1, 0, 0), at(0, -1, 0), at(0, 0, -1), at(i64::MAX, 0, 0), at(i64::MIN, 0, 0)] {
        assert!(world.get_block(p).is_none());
    }
}

#[test]
fn place_in_unallocated_chunk_is_a_no_op() {
    let mut world = World::new();
    let id = world.reg_block(dirt());
    for p in [at(16, 0, 0), at(-1, 0, 0), at(0, 256, 0), at(0, 0, 16)] {
        world.place_block(p, Block::new(id, NbtBlock::new(), &world));
        assert!(world.get_block(p).is_none());
    }
    for p in [at(15, 0, 0), at(0, 0, 0), at(0, 255, 0), at(0, 0, 15)] {
        assert_eq!(world.get_block(p).unwrap().get_id(), 0);
    }
}

#[test]
fn coordinate_split_example() {
    assert_eq!(get_chunk(at(31, 5, 0)), (at(1, 0, 0), at(15, 5, 0)));
}

#[test]
fn coordinate_split_at_boundaries() {
    assert_eq!(get_chunk(at(0, 0, 0)), (at(0, 0, 0), at(0, 0, 0)));
    assert_eq!(get_chunk(at(15, 16, 17)), (at(0, 1, 1), at(15, 0, 1)));
    assert_eq!(get_chunk(at(-1, -16, -17)), (at(-1, -1, -2), at(15, 0, 15)));
    assert_eq!(get_chunk(at(255, 256, 4095)), (at(15, 16, 255), at(15, 0, 15)));
    assert_eq!(get_chunk(at(i64::MIN, i64::MAX, 0)), (at(i64::MIN / 16, i64::MAX / 16, 0), at(0, 15, 0)));
}

#[test]
fn add_column_extends_the_world() {
    let mut world = World::new();
    assert_eq!(world.add_column(2), None);
    assert!(world.get_block(at(0, 0, 16)).is_none());
    assert_eq!(world.add_column(0), Some(1));
    assert_eq!(world.get_block(at(3, 40, 20)).unwrap().get_id(), 0);
    assert!(world.get_block(at(16, 0, 0)).is_none());
    assert_eq!(world.add_column(1), Some(0));
    assert_eq!(world.get_block(at(16, 0, 0)).unwrap().get_id(), 0);
    assert!(world.get_block(at(16, 0, 16)).is_none());
    let id = world.reg_block(dirt());
    world.place_block(at(20, 3, 4), Block::new(id, NbtBlock::new(), &world));
    assert_eq!(world.get_block(at(20, 3, 4)).unwrap().get_id(), id);
}

#[test]
fn chunk_get_is_bounds_checked() {
    let world = World::new();
    let air = Block::new(0, NbtBlock::new(), &world);
    let chunk = Chunk::new(&air);
    assert_eq!(chunk.get(at(0, 0, 0)), Some(&air));
    assert_eq!(chunk.get(at(15, 15, 15)), Some(&air));
    assert!(chunk.get(at(16, 0, 0)).is_none());
    assert!(chunk.get(at(0, -1, 0)).is_none());
    assert!(chunk.get(at(0, 0, 16)).is_none());
    assert!(chunk.get_mesh_data(true).is_empty());
    assert!(chunk.get_mesh_data(false).is_empty());
}

fn record_positions(chunk: &Chunk, solid: bool) -> Vec<BlockPos> {
    chunk.get_mesh_data(solid).iter().map(|r| r.pos).collect()
}

#[test]
fn classification_selects_passes() {
    let mut world = World::new();
    let dirt_id = world.reg_block(dirt());
    let glass_id = world.reg_block(glass());
    let air = Block::new(0, NbtBlock::new(), &world);
    let mut chunk = Chunk::new(&air);
    chunk.add_block(at(1, 1, 1), Block::new(dirt_id, NbtBlock::new(), &world), &BlockType::Solid);
    chunk.add_block(at(2, 2, 2), Block::new(glass_id, NbtBlock::new(), &world), &BlockType::Transparent);
    chunk.add_block(at(3, 3, 3), air.clone(), &BlockType::Empty);
    assert_eq!(record_positions(&chunk, true), vec![at(1, 1, 1)]);
    assert_eq!(record_positions(&chunk, false), vec![at(1, 1, 1), at(2, 2, 2)]);
}

#[test]
fn reclassifying_a_voxel_updates_both_flags() {
    let mut world = World::new();
    let dirt_id = world.reg_block(dirt());
    let glass_id = world.reg_block(glass());
    let air = Block::new(0, NbtBlock::new(), &world);
    let mut chunk = Chunk::new(&air);
    chunk.add_block(at(4, 0, 9), Block::new(dirt_id, NbtBlock::new(), &world), &BlockType::Solid);
    chunk.add_block(at(4, 0, 9), Block::new(glass_id, NbtBlock::new(), &world), &BlockType::Transparent);
    assert!(record_positions(&chunk, true).is_empty());
    assert_eq!(record_positions(&chunk, false), vec![at(4, 0, 9)]);
    chunk.add_block(at(4, 0, 9), air.clone(), &BlockType::Empty);
    assert!(record_positions(&chunk, true).is_empty());
    assert!(record_positions(&chunk, false).is_empty());
}

#[test]
fn mesh_records_come_in_x_y_z_order_with_all_faces() {
    let mut world = World::new();
    let id = world.reg_block(dirt());
    let air = Block::new(0, NbtBlock::new(), &world);
    let mut chunk = Chunk::new(&air);
    for p in [at(2, 0, 0), at(0, 5, 1), at(0, 5, 0), at(1, 0, 15)] {
        chunk.add_block(p, Block::new(id, NbtBlock::new(), &world), &BlockType::Solid);
    }
    let records = chunk.get_mesh_data(true);
    let positions: Vec<BlockPos> = records.iter().map(|r| r.pos).collect();
    assert_eq!(positions, vec![at(0, 5, 0), at(0, 5, 1), at(1, 0, 15), at(2, 0, 0)]);
    for r in records.iter() {
        assert!(r.top && r.bottom && r.left && r.right && r.front && r.back);
        assert_eq!(r.model_data, dirt().model);
    }
}

#[test]
fn chunk_add_block_outside_is_ignored() {
    let world = World::new();
    let air = Block::new(0, NbtBlock::new(), &world);
    let mut chunk = Chunk::new(&air);
    chunk.add_block(at(16, 0, 0), air.clone(), &BlockType::Solid);
    chunk.add_block(at(-1, 0, 0), air.clone(), &BlockType::Solid);
    assert!(chunk.get_mesh_data(true).is_empty());
}

#[test]
fn world_placement_drives_the_solid_pass() {
    let mut world = World::new();
    let glass_id = world.reg_block(glass());
    let dirt_id = world.reg_block(dirt());
    world.place_block(at(0, 0, 0), Block::new(glass_id, NbtBlock::new(), &world));
    let mut out = Vec::new();
    assert_eq!(world.render(&mut out, at(0, 0, 0)), Ok(()));
    assert!(out.is_empty());
    world.place_block(at(0, 0, 0), Block::new(dirt_id, NbtBlock::new(), &world));
    assert_eq!(world.render(&mut out, at(0, 0, 0)), Ok(()));
    assert_eq!(out.len(), 12);
}

#[test]
fn nbt_values_are_empty() {
    assert_eq!(NbtBlock::new(), NbtBlock {});
    assert_eq!(NbtEntity::new(), NbtEntity {});
}
