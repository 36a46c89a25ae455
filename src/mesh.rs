use vstd::prelude::*;
use crate::block::{BlockModelType, ModelType};
use crate::chunk::BlockFaces;
use crate::geometry::BlockPos;
use crate::texture::{Side, TextureMapping};

verus! {

/// Why a chunk cannot be meshed.
#[derive(Clone, Copy, Debug, PartialEq, Eq, Structural)]
pub enum RenderError {
    /// A face to draw belongs to a block model whose texture strategy names no texture.
    Untextured,
}

/// A vertex position in half-voxel units: each coordinate is twice the world
/// coordinate, so the corners of a voxel centred on an integer position are whole.
#[derive(Clone, Copy, Debug, PartialEq, Eq, Structural)]
pub struct Corner {
    pub x: i64,
    pub y: i64,
    pub z: i64,
}

/// One triangle of the mesh: three corners, the texture-rectangle corner each of
/// them samples, and the name of the texture.
#[derive(Debug, PartialEq)]
pub struct Triangle {
    pub p1: Corner,
    pub p2: Corner,
    pub p3: Corner,
    pub t1: TextureMapping,
    pub t2: TextureMapping,
    pub t3: TextureMapping,
    pub texture: String,
}

/// What a triangle holds, with its texture name as a sequence of characters.
pub struct TriangleView {
    pub p1: Corner,
    pub p2: Corner,
    pub p3: Corner,
    pub t1: TextureMapping,
    pub t2: TextureMapping,
    pub t3: TextureMapping,
    pub texture: Seq<char>,
}

impl View for Triangle {
    type V = TriangleView;

    open spec fn view(&self) -> TriangleView {
        TriangleView {
            p1: self.p1,
            p2: self.p2,
            p3: self.p3,
            t1: self.t1,
            t2: self.t2,
            t3: self.t3,
            texture: self.texture@,
        }
    }
}

/// The views of a sequence of triangles.
pub open spec fn views(s: Seq<Triangle>) -> Seq<TriangleView> {
    s.map_values(|t: Triangle| t@)
}

/// A voxel position whose corners fit in half-voxel units.
pub open spec fn meshable(p: BlockPos) -> bool {
    &&& -0x3fff_ffff_ffff_ffff <= p.x <= 0x3fff_ffff_ffff_ffff
    &&& -0x3fff_ffff_ffff_ffff <= p.y <= 0x3fff_ffff_ffff_ffff
    &&& -0x3fff_ffff_ffff_ffff <= p.z <= 0x3fff_ffff_ffff_ffff
}

/// The corner of the voxel at `p` in direction `(dx, dy, dz)`, each `-1` or `1`.
pub open spec fn corner(p: BlockPos, dx: int, dy: int, dz: int) -> Corner {
    Corner { x: (2 * p.x + dx) as i64, y: (2 * p.y + dy) as i64, z: (2 * p.z + dz) as i64 }
}

/// The four corners of one face of the voxel at `p`, in the order that makes
/// both of its triangles face the same way.
pub open spec fn face_corners(p: BlockPos, side: Side) -> Seq<Corner> {
    match side {
        Side::Top => seq![corner(p, -1, 1, -1), corner(p, 1, 1, -1), corner(p, 1, 1, 1), corner(p, -1, 1, 1)],
        Side::Bottom => seq![corner(p, -1, -1, -1), corner(p, 1, -1, -1), corner(p, 1, -1, 1), corner(p, -1, -1, 1)],
        Side::Front => seq![corner(p, -1, -1, -1), corner(p, 1, -1, -1), corner(p, 1, 1, -1), corner(p, -1, 1, -1)],
        Side::Back => seq![corner(p, -1, -1, 1), corner(p, 1, -1, 1), corner(p, 1, 1, 1), corner(p, -1, 1, 1)],
        Side::Left => seq![corner(p, -1, -1, -1), corner(p, -1, -1, 1), corner(p, -1, 1, 1), corner(p, -1, 1, -1)],
        Side::Right => seq![corner(p, 1, -1, -1), corner(p, 1, -1, 1), corner(p, 1, 1, 1), corner(p, 1, 1, -1)],
    }
}

/// The two triangles of a quad with corners `tl, tr, br, bl`.
pub open spec fn quad(tl: Corner, tr: Corner, br: Corner, bl: Corner, texture: Seq<char>) -> Seq<TriangleView> {
    seq![
        TriangleView {
            p1: tl,
            p2: tr,
            p3: br,
            t1: TextureMapping::TopLeft,
            t2: TextureMapping::TopRight,
            t3: TextureMapping::BottomRight,
            texture,
        },
        TriangleView {
            p1: tl,
            p2: bl,
            p3: br,
            t1: TextureMapping::TopLeft,
            t2: TextureMapping::BottomLeft,
            t3: TextureMapping::BottomRight,
            texture,
        },
    ]
}

/// The two triangles of one face of the voxel at `p`.
pub open spec fn face_triangles(p: BlockPos, side: Side, texture: Seq<char>) -> Seq<TriangleView> {
    let c = face_corners(p, side);
    quad(c[0], c[1], c[2], c[3], texture)
}

/// The triangles of one face if `drawn`; `None` where the face is drawn and the
/// model names no texture for it.
pub open spec fn side_mesh(m: BlockModelType, p: BlockPos, side: Side, drawn: bool) -> Option<Seq<TriangleView>> {
    if !drawn {
        Some(Seq::empty())
    } else {
        match m.texture.face_name(side) {
            Some(t) => Some(face_triangles(p, side, t)),
            None => None,
        }
    }
}

/// Concatenation that fails where either part failed.
pub open spec fn join(a: Option<Seq<TriangleView>>, b: Option<Seq<TriangleView>>) -> Option<Seq<TriangleView>> {
    match (a, b) {
        (Some(x), Some(y)) => Some(x + y),
        _ => None,
    }
}

/// The faces of a record in drawing order, top, bottom, left, right, front,
/// back, each with whether it is drawn.
pub open spec fn face_list(rec: BlockFaces) -> Seq<(Side, bool)> {
    seq![
        (Side::Top, rec.top),
        (Side::Bottom, rec.bottom),
        (Side::Left, rec.left),
        (Side::Right, rec.right),
        (Side::Front, rec.front),
        (Side::Back, rec.back),
    ]
}

/// The triangles of the listed faces of the block model `m` at `p`, in order.
pub open spec fn faces_mesh(m: BlockModelType, p: BlockPos, faces: Seq<(Side, bool)>) -> Option<Seq<TriangleView>>
    decreases faces.len(),
{
    if faces.len() == 0 {
        Some(Seq::empty())
    } else {
        join(faces_mesh(m, p, faces.drop_last()), side_mesh(m, p, faces.last().0, faces.last().1))
    }
}

/// The triangles of one voxel at world position `p`. Plants are not drawn.
pub open spec fn block_mesh(rec: BlockFaces, p: BlockPos) -> Option<Seq<TriangleView>> {
    match rec.model_data {
        ModelType::Plant(_) => Some(Seq::empty()),
        ModelType::Block(m) => faces_mesh(m, p, face_list(rec)),
    }
}

/// A voxel of a block model with a texture strategy other than blank, with all
/// six faces drawn, meshes to one quad per face in the order top, bottom,
/// left, right, front, back: twelve triangles, each quad textured with the name
/// its strategy gives that face.
pub proof fn lemma_full_block_mesh(rec: BlockFaces, p: BlockPos)
    requires
        rec.model_data is Block,
        !(rec.model_data->Block_0.texture is Blank),
        rec.top && rec.bottom && rec.left && rec.right && rec.front && rec.back,
    ensures
        ({
            let t = rec.model_data->Block_0.texture;
            block_mesh(rec, p) == Some(
                face_triangles(p, Side::Top, t.face_name(Side::Top).unwrap())
                    + face_triangles(p, Side::Bottom, t.face_name(Side::Bottom).unwrap())
                    + face_triangles(p, Side::Left, t.face_name(Side::Left).unwrap())
                    + face_triangles(p, Side::Right, t.face_name(Side::Right).unwrap())
                    + face_triangles(p, Side::Front, t.face_name(Side::Front).unwrap())
                    + face_triangles(p, Side::Back, t.face_name(Side::Back).unwrap()),
            )
        }),
        block_mesh(rec, p).unwrap().len() == 12,
{
    let m = rec.model_data->Block_0;
    let f = face_list(rec);
    reveal_with_fuel(faces_mesh, 7);
    assert(f.drop_last().drop_last().drop_last().drop_last().drop_last().drop_last() =~= Seq::<(Side, bool)>::empty());
    assert(f.drop_last().drop_last().drop_last().drop_last().drop_last() =~= seq![(Side::Top, true)]);
    assert(f.drop_last().drop_last().drop_last().drop_last() =~= seq![(Side::Top, true), (Side::Bottom, true)]);
    assert(f.drop_last().drop_last().drop_last() =~= seq![(Side::Top, true), (Side::Bottom, true), (Side::Left, true)]);
    assert(f.drop_last().drop_last() =~= seq![(Side::Top, true), (Side::Bottom, true), (Side::Left, true), (Side::Right, true)]);
    assert(f.drop_last() =~= seq![
        (Side::Top, true),
        (Side::Bottom, true),
        (Side::Left, true),
        (Side::Right, true),
        (Side::Front, true),
    ]);
    assert(Seq::<TriangleView>::empty() + face_triangles(p, Side::Top, m.texture.face_name(Side::Top).unwrap())
        =~= face_triangles(p, Side::Top, m.texture.face_name(Side::Top).unwrap()));
}

/// The world position of a voxel at offset `local` in the chunk at chunk coordinate `c`.
pub open spec fn world_pos(c: BlockPos, local: BlockPos) -> BlockPos {
    BlockPos { x: (16 * c.x + local.x) as i64, y: (16 * c.y + local.y) as i64, z: (16 * c.z + local.z) as i64 }
}

/// The triangles of a sequence of voxel records of the chunk at `c`, in order.
pub open spec fn records_mesh(recs: Seq<BlockFaces>, c: BlockPos) -> Option<Seq<TriangleView>>
    decreases recs.len(),
{
    if recs.len() == 0 {
        Some(Seq::empty())
    } else {
        join(records_mesh(recs.drop_last(), c), block_mesh(recs.last(), world_pos(c, recs.last().pos)))
    }
}

/// The four corners of one face of the voxel at `position`.
pub fn generate_face_vertices(position: BlockPos, face: &Side) -> (r: [Corner; 4])
    requires
        meshable(position),
    ensures
        r@ == face_corners(position, *face),
{
    let x = 2 * position.x;
    let y = 2 * position.y;
    let z = 2 * position.z;
    let r = match face {
        Side::Top => [
            Corner { x: x - 1, y: y + 1, z: z - 1 },
            Corner { x: x + 1, y: y + 1, z: z - 1 },
            Corner { x: x + 1, y: y + 1, z: z + 1 },
            Corner { x: x - 1, y: y + 1, z: z + 1 },
        ],
        Side::Bottom => [
            Corner { x: x - 1, y: y - 1, z: z - 1 },
            Corner { x: x + 1, y: y - 1, z: z - 1 },
            Corner { x: x + 1, y: y - 1, z: z + 1 },
            Corner { x: x - 1, y: y - 1, z: z + 1 },
        ],
        Side::Front => [
            Corner { x: x - 1, y: y - 1, z: z - 1 },
            Corner { x: x + 1, y: y - 1, z: z - 1 },
            Corner { x: x + 1, y: y + 1, z: z - 1 },
            Corner { x: x - 1, y: y + 1, z: z - 1 },
        ],
        Side::Back => [
            Corner { x: x - 1, y: y - 1, z: z + 1 },
            Corner { x: x + 1, y: y - 1, z: z + 1 },
            Corner { x: x + 1, y: y + 1, z: z + 1 },
            Corner { x: x - 1, y: y + 1, z: z + 1 },
        ],
        Side::Left => [
            Corner { x: x - 1, y: y - 1, z: z - 1 },
            Corner { x: x - 1, y: y - 1, z: z + 1 },
            Corner { x: x - 1, y: y + 1, z: z + 1 },
            Corner { x: x - 1, y: y + 1, z: z - 1 },
        ],
        Side::Right => [
            Corner { x: x + 1, y: y - 1, z: z - 1 },
            Corner { x: x + 1, y: y - 1, z: z + 1 },
            Corner { x: x + 1, y: y + 1, z: z + 1 },
            Corner { x: x + 1, y: y + 1, z: z - 1 },
        ],
    };
    assert(r@ =~= face_corners(position, *face));
    r
}

impl Triangle {
    /// Appends the two triangles of the quad `tl, tr, br, bl`, both textured with `texture`.
    pub fn square(vec: &mut Vec<Triangle>, tl: Corner, tr: Corner, br: Corner, bl: Corner, texture: &String)
        ensures
            views(final(vec)@) == views(old(vec)@) + quad(tl, tr, br, bl, texture@),
    {
        let ghost start = views(vec@);
        vec.push(
            Triangle {
                p1: tl,
                p2: tr,
                p3: br,
                t1: TextureMapping::TopLeft,
                t2: TextureMapping::TopRight,
                t3: TextureMapping::BottomRight,
                texture: texture.clone(),
            },
        );
        vec.push(
            Triangle {
                p1: tl,
                p2: bl,
                p3: br,
                t1: TextureMapping::TopLeft,
                t2: TextureMapping::BottomLeft,
                t3: TextureMapping::BottomRight,
                texture: texture.clone(),
            },
        );
        assert(views(vec@) =~= start + quad(tl, tr, br, bl, texture@));
    }
}

/// Once a prefix of the faces fails to mesh, so do all of them.
proof fn lemma_prefix_fails(m: BlockModelType, p: BlockPos, faces: Seq<(Side, bool)>, k: int)
    requires
        0 <= k <= faces.len(),
        faces_mesh(m, p, faces.take(k)) is None,
    ensures
        faces_mesh(m, p, faces) is None,
    decreases faces.len(),
{
    if k == faces.len() {
        assert(faces.take(k) =~= faces);
    } else {
        assert(faces.drop_last().take(k) =~= faces.take(k));
        lemma_prefix_fails(m, p, faces.drop_last(), k);
    }
}

/// Appends the triangles of one face of the block model `m` at `pos`, if `drawn`.
fn render_side(out: &mut Vec<Triangle>, face: Side, pos: BlockPos, m: &BlockModelType, drawn: bool) -> (r: Result<(), RenderError>)
    requires
        meshable(pos),
    ensures
        side_mesh(*m, pos, face, drawn) matches Some(t) ==> r is Ok && views(final(out)@) == views(old(out)@) + t,
        side_mesh(*m, pos, face, drawn) is None ==> r is Err,
{
    if !drawn {
        assert(views(out@) =~= views(out@) + Seq::<TriangleView>::empty());
        return Ok(());
    }
    match m.get_texture(&face) {
        Err(e) => Err(e),
        Ok(name) => {
            let c = generate_face_vertices(pos, &face);
            Triangle::square(out, c[0], c[1], c[2], c[3], &name);
            Ok(())
        },
    }
}

/// Appends the triangles of one voxel record drawn at world position `pos`.
pub fn render_block(out: &mut Vec<Triangle>, rec: &BlockFaces, pos: BlockPos) -> (r: Result<(), RenderError>)
    requires
        meshable(pos),
    ensures
        block_mesh(*rec, pos) matches Some(t) ==> r is Ok && views(final(out)@) == views(old(out)@) + t,
        block_mesh(*rec, pos) is None ==> r is Err,
{
    match &rec.model_data {
        ModelType::Plant(_) => {
            assert(views(out@) =~= views(out@) + Seq::<TriangleView>::empty());
            Ok(())
        },
        ModelType::Block(m) => {
            let faces: [(Side, bool); 6] = [
                (Side::Top, rec.top),
                (Side::Bottom, rec.bottom),
                (Side::Left, rec.left),
                (Side::Right, rec.right),
                (Side::Front, rec.front),
                (Side::Back, rec.back),
            ];
            assert(faces@ =~= face_list(*rec));
            assert(block_mesh(*rec, pos) == faces_mesh(*m, pos, faces@));
            let ghost s0 = views(out@);
            let mut i: usize = 0;
            while i < 6
                invariant
                    i <= 6,
                    faces@ == face_list(*rec),
                    block_mesh(*rec, pos) == faces_mesh(*m, pos, faces@),
                    meshable(pos),
                    faces_mesh(*m, pos, faces@.take(i as int)) matches Some(t) && views(out@) == s0 + t,
                decreases 6 - i,
            {
                let ghost prev = faces_mesh(*m, pos, faces@.take(i as int)).unwrap();
                assert(faces@.take(i + 1).drop_last() =~= faces@.take(i as int));
                if render_side(out, faces[i].0, pos, m, faces[i].1).is_err() {
                    proof {
                        assert(faces@.take(i + 1).last() == faces@[i as int]);
                        assert(faces_mesh(*m, pos, faces@.take(i + 1)) is None);
                        lemma_prefix_fails(*m, pos, faces@, i + 1);
                    }
                    return Err(RenderError::Untextured);
                }
                proof {
                    let t = side_mesh(*m, pos, faces@[i as int].0, faces@[i as int].1).unwrap();
                    assert(s0 + prev + t =~= s0 + (prev + t));
                }
                i = i + 1;
            }
            assert(faces@.take(6) =~= faces@);
            Ok(())
        },
    }
}

} // verus!
