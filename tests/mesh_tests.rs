use minecraft_clone::block::{Block, BlockData, BlockModelType, BlockType, CollisionData, ModelType, NbtBlock};
use minecraft_clone::chunk::BlockFaces;
use minecraft_clone::geometry::BlockPos;
use minecraft_clone::input::{KeyAction, Keys, MoveKey};
use minecraft_clone::mesh::{generate_face_vertices, render_block, Corner, RenderError, Triangle};
use minecraft_clone::texture::{BlockTextureType, LogTextureMap, Side, TextureMap, TextureMapping, TextureName};
use minecraft_clone::world::World;

fn text(s: &str) -> TextureName {
    TextureName::Text(s.to_string())
}

fn c(x: i64, y: i64, z: i64) -> Corner {
    Corner { x, y, z }
}

fn solid_block(name: &str, texture: BlockTextureType) -> BlockData {
    BlockData {
        model: ModelType::Block(BlockModelType { block_size: (16, 16, 16), texture }),
        rotate: false,
        collision_data: CollisionData::Normal(16, 16, 16),
        name: name.to_string(),
        block_type: BlockType::Solid,
    }
}

fn log_texture() -> BlockTextureType {
    BlockTextureType::Log(LogTextureMap { top: text("top"), side: text("side"), bottom: text("bottom") })
}

const ALL_SIDES: [Side; 6] = [Side::Top, Side::Bottom, Side::Left, Side::Right, Side::Front, Side::Back];

#[test]
fn log_strategy_resolution() {
    let t = log_texture();
    assert_eq!(t.face_texture(&Side::Top), Some("top".to_string()));
    assert_eq!(t.face_texture(&Side::Bottom), Some("bottom".to_string()));
    for side in [Side::Left, Side::Right, Side::Front, Side::Back] {
        assert_eq!(t.face_texture(&side), Some("side".to_string()));
    }
}

#[test]
fn each_strategy_resolution() {
    let t = BlockTextureType::Each(TextureMap {
        top: text("t"),
        bottom: text("b"),
        left: text("l"),
        right: text("r"),
        front: text("f"),
        back: text("k"),
    });
    let names: Vec<String> = ALL_SIDES.iter().map(|s| t.face_texture(s).unwrap()).collect();
    assert_eq!(names, vec!["t", "b", "l", "r", "f", "k"]);
}

#[test]
fn all_strategy_resolution() {
    let t = BlockTextureType::All(text("stone"));
    for side in ALL_SIDES {
        assert_eq!(t.face_texture(&side), Some("stone".to_string()));
    }
}

#[test]
fn blank_strategy_has_no_texture() {
    let t = BlockTextureType::Blank;
    for side in ALL_SIDES {
        assert_eq!(t.face_texture(&side), None);
    }
    let m = BlockModelType { block_size: (16, 16, 16), texture: BlockTextureType::Blank };
    for side in ALL_SIDES {
        assert_eq!(m.get_texture(&side), Err(RenderError::Untextured));
    }
}

#[test]
fn model_get_texture_follows_its_strategy() {
    let m = BlockModelType { block_size: (16, 16, 16), texture: log_texture() };
    assert_eq!(m.get_texture(&Side::Front), Ok("side".to_string()));
    assert_eq!(m.get_texture(&Side::Top), Ok("top".to_string()));
}

#[test]
fn texture_names_from_numbers_are_decimal() {
    assert_eq!(TextureName::Number(0).get_texture_name(), "0");
    assert_eq!(TextureName::Number(7).get_texture_name(), "7");
    assert_eq!(TextureName::Number(42).get_texture_name(), "42");
    assert_eq!(TextureName::Number(1234567890).get_texture_name(), "1234567890");
    assert_eq!(TextureName::Number(i64::MAX).get_texture_name(), i64::MAX.to_string());
    assert_eq!(TextureName::Number(-5).get_texture_name(), "-5");
    assert_eq!(TextureName::Number(-120).get_texture_name(), "-120");
    assert_eq!(TextureName::Number(i64::MIN).get_texture_name(), i64::MIN.to_string());
    assert_eq!(text("grass-block-top").get_texture_name(), "grass-block-top");
    assert_eq!(text("").get_texture_name(), "");
}

#[test]
fn face_vertices_of_the_origin() {
    let p = BlockPos::new(0, 0, 0);
    assert_eq!(generate_face_vertices(p, &Side::Top), [c(-1, 1, -1), c(1, 1, -1), c(1, 1, 1), c(-1, 1, 1)]);
    assert_eq!(generate_face_vertices(p, &Side::Bottom), [c(-1, -1, -1), c(1, -1, -1), c(1, -1, 1), c(-1, -1, 1)]);
    assert_eq!(generate_face_vertices(p, &Side::Front), [c(-1, -1, -1), c(1, -1, -1), c(1, 1, -1), c(-1, 1, -1)]);
    assert_eq!(generate_face_vertices(p, &Side::Back), [c(-1, -1, 1), c(1, -1, 1), c(1, 1, 1), c(-1, 1, 1)]);
    assert_eq!(generate_face_vertices(p, &Side::Left), [c(-1, -1, -1), c(-1, -1, 1), c(-1, 1, 1), c(-1, 1, -1)]);
    assert_eq!(generate_face_vertices(p, &Side::Right), [c(1, -1, -1), c(1, -1, 1), c(1, 1, 1), c(1, 1, -1)]);
}

#[test]
fn face_vertices_scale_with_position() {
    let p = BlockPos::new(3, -2, 10);
    assert_eq!(generate_face_vertices(p, &Side::Top), [c(5, -3, 19), c(7, -3, 19), c(7, -3, 21), c(5, -3, 21)]);
}

#[test]
fn square_emits_two_triangles() {
    let mut out = Vec::new();
    let name = "n".to_string();
    Triangle::square(&mut out, c(0, 0, 0), c(2, 0, 0), c(2, 2, 0), c(0, 2, 0), &name);
    assert_eq!(out.len(), 2);
    assert_eq!((out[0].p1, out[0].p2, out[0].p3), (c(0, 0, 0), c(2, 0, 0), c(2, 2, 0)));
    assert_eq!((out[0].t1, out[0].t2, out[0].t3), (TextureMapping::TopLeft, TextureMapping::TopRight, TextureMapping::BottomRight));
    assert_eq!((out[1].p1, out[1].p2, out[1].p3), (c(0, 0, 0), c(0, 2, 0), c(2, 2, 0)));
    assert_eq!((out[1].t1, out[1].t2, out[1].t3), (TextureMapping::TopLeft, TextureMapping::BottomLeft, TextureMapping::BottomRight));
    assert_eq!(out[0].texture, "n");
    assert_eq!(out[1].texture, "n");
}

#[test]
fn end_to_end_grass_block() {
    let mut world = World::new();
    let grass = world.reg_block(solid_block("grass block", log_texture()));
    let _dirt = world.reg_block(solid_block("dirt block", BlockTextureType::All(text("dirt"))));
    world.place_block(BlockPos::new(0, 0, 0), Block::new(grass, NbtBlock::new(), &world));
    let mut out = Vec::new();
    assert_eq!(world.render(&mut out, BlockPos::new(8, 3, 12)), Ok(()));
    assert_eq!(out.len(), 12);
    assert_eq!(out.len() * 3, 36);
    let names: Vec<&str> = out.iter().map(|t| t.texture.as_str()).collect();
    assert_eq!(
        names,
        vec!["top", "top", "bottom", "bottom", "side", "side", "side", "side", "side", "side", "side", "side"]
    );
    assert_eq!((out[0].p1, out[0].p2, out[0].p3), (c(-1, 1, -1), c(1, 1, -1), c(1, 1, 1)));
    assert_eq!((out[3].p1, out[3].p2, out[3].p3), (c(-1, -1, -1), c(-1, -1, 1), c(1, -1, 1)));
}

#[test]
fn render_appends_to_the_buffer() {
    let mut world = World::new();
    let dirt = world.reg_block(solid_block("dirt block", BlockTextureType::All(text("dirt"))));
    world.place_block(BlockPos::new(2, 17, 3), Block::new(dirt, NbtBlock::new(), &world));
    let mut out = Vec::new();
    let name = "x".to_string();
    Triangle::square(&mut out, c(0, 0, 0), c(1, 0, 0), c(1, 1, 0), c(0, 1, 0), &name);
    assert_eq!(world.render(&mut out, BlockPos::new(0, 20, 0)), Ok(()));
    assert_eq!(out.len(), 14);
    assert_eq!(out[0].texture, "x");
    assert_eq!((out[2].p1, out[2].p2, out[2].p3), (c(3, 35, 5), c(5, 35, 5), c(5, 35, 7)));
    assert!(out[2..].iter().all(|t| t.texture == "dirt"));
}

#[test]
fn render_meshes_only_the_viewer_chunk() {
    let mut world = World::new();
    let dirt = world.reg_block(solid_block("dirt block", BlockTextureType::All(text("dirt"))));
    world.place_block(BlockPos::new(1, 1, 1), Block::new(dirt, NbtBlock::new(), &world));
    world.place_block(BlockPos::new(1, 20, 1), Block::new(dirt, NbtBlock::new(), &world));
    let mut out = Vec::new();
    assert_eq!(world.render(&mut out, BlockPos::new(0, 0, 0)), Ok(()));
    assert_eq!(out.len(), 12);
    let mut none = Vec::new();
    assert_eq!(world.render(&mut none, BlockPos::new(100, 0, 0)), Ok(()));
    assert!(none.is_empty());
    assert_eq!(world.render(&mut none, BlockPos::new(0, -1, 0)), Ok(()));
    assert!(none.is_empty());
}

#[test]
fn render_fails_on_untextured_solid_block() {
    let mut world = World::new();
    let dirt = world.reg_block(solid_block("dirt block", BlockTextureType::All(text("dirt"))));
    let bad = world.reg_block(solid_block("bad", BlockTextureType::Blank));
    world.place_block(BlockPos::new(0, 0, 0), Block::new(dirt, NbtBlock::new(), &world));
    world.place_block(BlockPos::new(5, 0, 0), Block::new(bad, NbtBlock::new(), &world));
    let mut out = Vec::new();
    let name = "keep".to_string();
    Triangle::square(&mut out, c(0, 0, 0), c(1, 0, 0), c(1, 1, 0), c(0, 1, 0), &name);
    assert_eq!(world.render(&mut out, BlockPos::new(0, 0, 0)), Err(RenderError::Untextured));
    assert_eq!(out.len(), 2);
    assert_eq!(out[0].texture, "keep");
}

#[test]
fn plants_are_not_drawn() {
    let mut out = Vec::new();
    let rec = BlockFaces {
        pos: BlockPos::new(0, 0, 0),
        model_data: ModelType::Plant(text("flower")),
        top: true,
        bottom: true,
        front: true,
        back: true,
        left: true,
        right: true,
    };
    assert_eq!(render_block(&mut out, &rec, BlockPos::new(0, 0, 0)), Ok(()));
    assert!(out.is_empty());
}

#[test]
fn render_block_skips_faces_not_drawn() {
    let mut out = Vec::new();
    let rec = BlockFaces {
        pos: BlockPos::new(0, 0, 0),
        model_data: ModelType::Block(BlockModelType { block_size: (16, 16, 16), texture: log_texture() }),
        top: false,
        bottom: true,
        front: false,
        back: false,
        left: false,
        right: true,
    };
    assert_eq!(render_block(&mut out, &rec, BlockPos::new(1, 1, 1)), Ok(()));
    let names: Vec<&str> = out.iter().map(|t| t.texture.as_str()).collect();
    assert_eq!(names, vec!["bottom", "bottom", "side", "side"]);
    assert_eq!(out[2].p1, c(3, 1, 1));
}

#[test]
fn keys_start_released() {
    let k = Keys::new();
    assert_eq!(k, Keys { w: false, s: false, a: false, d: false, space: false, shift: false });
    assert_eq!(k.horizontal_direction(), (0, 0));
    assert_eq!(k.vertical_direction(), 0);
}

#[test]
fn keys_follow_press_and_release() {
    let mut k = Keys::new();
    k.apply(MoveKey::W, KeyAction::Press);
    k.apply(MoveKey::D, KeyAction::Press);
    assert_eq!(k.horizontal_direction(), (1, 1));
    k.apply(MoveKey::S, KeyAction::Press);
    k.apply(MoveKey::A, KeyAction::Press);
    assert_eq!(k.horizontal_direction(), (0, 0));
    k.apply(MoveKey::W, KeyAction::Release);
    assert_eq!(k.horizontal_direction(), (0, -1));
    k.apply(MoveKey::W, KeyAction::Repeat);
    assert!(!k.w);
    k.apply(MoveKey::Space, KeyAction::Press);
    assert_eq!(k.vertical_direction(), 1);
    k.apply(MoveKey::Shift, KeyAction::Press);
    assert_eq!(k.vertical_direction(), 0);
    k.apply(MoveKey::Space, KeyAction::Release);
    assert_eq!(k.vertical_direction(), -1);
}
