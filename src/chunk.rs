use vstd::prelude::*;
use crate::block::{Block, BlockData, BlockType, ModelType};
use crate::geometry::{BlockPos, CHUNK_SIZE};

verus! {

/// Whether `(x, y, z)` lies inside a chunk.
pub open spec fn in_chunk(x: int, y: int, z: int) -> bool {
    0 <= x < CHUNK_SIZE as int && 0 <= y < CHUNK_SIZE as int && 0 <= z < CHUNK_SIZE as int
}

/// `after` is `before` with `block` written at `pos` and the pass flags of that
/// voxel set from `bt`; where `pos` lies outside the chunk, nothing changed.
pub open spec fn added(before: Chunk, after: Chunk, pos: BlockPos, block: Block, bt: BlockType) -> bool {
    &&& in_chunk(pos.x as int, pos.y as int, pos.z as int) ==> {
        &&& after.block(pos.x as int, pos.y as int, pos.z as int) == block
        &&& after.solid_at(pos.x as int, pos.y as int, pos.z as int) == bt.is_solid()
        &&& after.transparent_at(pos.x as int, pos.y as int, pos.z as int) == bt.is_transparent()
    }
    &&& !in_chunk(pos.x as int, pos.y as int, pos.z as int) ==> after == before
    &&& forall|x: int, y: int, z: int|
        in_chunk(x, y, z) && !(x == pos.x && y == pos.y && z == pos.z)
            ==> #[trigger] after.block(x, y, z) == before.block(x, y, z)
    &&& forall|x: int, y: int, z: int|
        in_chunk(x, y, z) && !(x == pos.x && y == pos.y && z == pos.z)
            ==> #[trigger] after.solid_at(x, y, z) == before.solid_at(x, y, z)
    &&& forall|x: int, y: int, z: int|
        in_chunk(x, y, z) && !(x == pos.x && y == pos.y && z == pos.z)
            ==> #[trigger] after.transparent_at(x, y, z) == before.transparent_at(x, y, z)
}

/// Whether some record of `recs` is at position `p`.
pub open spec fn records_hold(recs: Seq<BlockFaces>, p: BlockPos) -> bool {
    exists|i: int| 0 <= i < recs.len() && (#[trigger] recs[i]).pos == p
}

/// One voxel selected for meshing, with its position inside the chunk and the
/// faces to draw.
#[derive(Debug, PartialEq)]
pub struct BlockFaces {
    pub pos: BlockPos,
    pub model_data: ModelType,
    pub top: bool,
    pub bottom: bool,
    pub front: bool,
    pub back: bool,
    pub left: bool,
    pub right: bool,
}

/// The record of a voxel at `pos` drawn with `model`: every face is drawn.
pub open spec fn face_record(pos: BlockPos, model: ModelType) -> BlockFaces {
    BlockFaces {
        pos,
        model_data: model,
        top: true,
        bottom: true,
        front: true,
        back: true,
        left: true,
        right: true,
    }
}

/// A 16x16x16 cube of voxels with the solid and transparent flags of each voxel
/// mirrored in grids of their own.
pub struct Chunk {
    solid: Vec<Vec<Vec<bool>>>,
    transparent: Vec<Vec<Vec<bool>>>,
    blocks: Vec<Vec<Vec<Block>>>,
}

spec fn cube_shaped<T>(g: Seq<Vec<Vec<T>>>) -> bool {
    &&& g.len() == CHUNK_SIZE
    &&& forall|x: int| 0 <= x < CHUNK_SIZE ==> #[trigger] g[x]@.len() == CHUNK_SIZE
    &&& forall|x: int, y: int|
        0 <= x < CHUNK_SIZE && 0 <= y < CHUNK_SIZE ==> #[trigger] g[x]@[y]@.len() == CHUNK_SIZE
}

impl Chunk {
    /// The three grids are 16x16x16.
    pub closed spec fn wf(&self) -> bool {
        &&& cube_shaped(self.solid@)
        &&& cube_shaped(self.transparent@)
        &&& cube_shaped(self.blocks@)
    }

    pub closed spec fn block(&self, x: int, y: int, z: int) -> Block {
        self.blocks@[x]@[y]@[z]
    }

    pub closed spec fn solid_at(&self, x: int, y: int, z: int) -> bool {
        self.solid@[x]@[y]@[z]
    }

    pub closed spec fn transparent_at(&self, x: int, y: int, z: int) -> bool {
        self.transparent@[x]@[y]@[z]
    }

    /// Every voxel holds an instance of a definition of `reg`, and the pass flags
    /// of the voxel are those its instance caches.
    pub open spec fn consistent_with(&self, reg: Seq<BlockData>) -> bool {
        forall|x: int, y: int, z: int| in_chunk(x, y, z) ==> {
            &&& #[trigger] self.block(x, y, z).fits(reg)
            &&& self.solid_at(x, y, z) == self.block(x, y, z).solid
            &&& self.transparent_at(x, y, z) == self.block(x, y, z).transparent
        }
    }

    /// Every voxel holds `b` and is drawn in neither pass.
    pub open spec fn holds_only(&self, b: Block) -> bool {
        forall|x: int, y: int, z: int| in_chunk(x, y, z) ==> {
            &&& #[trigger] self.block(x, y, z) == b
            &&& !self.solid_at(x, y, z)
            &&& !self.transparent_at(x, y, z)
        }
    }

    /// Whether the voxel at `(x, y, z)` is drawn in the solid pass (`solid`) or the
    /// transparent pass (`!solid`).
    pub open spec fn in_pass(&self, solid: bool, x: int, y: int, z: int) -> bool {
        if solid {
            self.solid_at(x, y, z)
        } else {
            self.transparent_at(x, y, z)
        }
    }

    pub open spec fn cell_records(&self, solid: bool, x: int, y: int, z: int) -> Seq<BlockFaces> {
        if self.in_pass(solid, x, y, z) {
            seq![face_record(BlockPos { x: x as i64, y: y as i64, z: z as i64 }, self.block(x, y, z).model_data)]
        } else {
            Seq::empty()
        }
    }

    /// Records of the first `n` voxels of the row at `(x, y)`.
    pub open spec fn row_records(&self, solid: bool, x: int, y: int, n: int) -> Seq<BlockFaces>
        decreases n,
    {
        if n <= 0 {
            Seq::empty()
        } else {
            self.row_records(solid, x, y, n - 1) + self.cell_records(solid, x, y, n - 1)
        }
    }

    /// Records of the first `n` rows of the plane at `x`.
    pub open spec fn plane_records(&self, solid: bool, x: int, n: int) -> Seq<BlockFaces>
        decreases n,
    {
        if n <= 0 {
            Seq::empty()
        } else {
            self.plane_records(solid, x, n - 1) + self.row_records(solid, x, n - 1, CHUNK_SIZE as int)
        }
    }

    /// Records of the first `n` planes.
    pub open spec fn cube_records(&self, solid: bool, n: int) -> Seq<BlockFaces>
        decreases n,
    {
        if n <= 0 {
            Seq::empty()
        } else {
            self.cube_records(solid, n - 1) + self.plane_records(solid, n - 1, CHUNK_SIZE as int)
        }
    }

    /// The voxels of one pass, in order of x, then y, then z.
    pub open spec fn mesh_data(&self, solid: bool) -> Seq<BlockFaces> {
        self.cube_records(solid, CHUNK_SIZE as int)
    }

    /// A chunk filled with copies of `air`, with no voxel in either pass.
    pub fn new(air: &Block) -> (r: Chunk)
        ensures
            r.wf(),
            r.holds_only(*air),
            forall|reg: Seq<BlockData>| air.fits(reg) && !air.solid && !air.transparent
                ==> #[trigger] r.consistent_with(reg),
    {
        let mut blocks: Vec<Vec<Vec<Block>>> = Vec::new();
        let mut solid: Vec<Vec<Vec<bool>>> = Vec::new();
        let mut transparent: Vec<Vec<Vec<bool>>> = Vec::new();
        let mut x: usize = 0;
        while x < CHUNK_SIZE
            invariant
                x <= CHUNK_SIZE,
                blocks@.len() == x && solid@.len() == x && transparent@.len() == x,
                forall|i: int| 0 <= i < x ==> #[trigger] blocks@[i]@.len() == CHUNK_SIZE,
                forall|i: int| 0 <= i < x ==> #[trigger] solid@[i]@.len() == CHUNK_SIZE,
                forall|i: int| 0 <= i < x ==> #[trigger] transparent@[i]@.len() == CHUNK_SIZE,
                forall|i: int, j: int| 0 <= i < x && 0 <= j < CHUNK_SIZE ==>
                    #[trigger] blocks@[i]@[j]@ == Seq::new(CHUNK_SIZE as nat, |k: int| *air),
                forall|i: int, j: int| 0 <= i < x && 0 <= j < CHUNK_SIZE ==>
                    #[trigger] solid@[i]@[j]@ == Seq::new(CHUNK_SIZE as nat, |k: int| false),
                forall|i: int, j: int| 0 <= i < x && 0 <= j < CHUNK_SIZE ==>
                    #[trigger] transparent@[i]@[j]@ == Seq::new(CHUNK_SIZE as nat, |k: int| false),
            decreases CHUNK_SIZE - x,
        {
            let mut bp: Vec<Vec<Block>> = Vec::new();
            let mut sp: Vec<Vec<bool>> = Vec::new();
            let mut tp: Vec<Vec<bool>> = Vec::new();
            let mut y: usize = 0;
            while y < CHUNK_SIZE
                invariant
                    y <= CHUNK_SIZE,
                    bp@.len() == y && sp@.len() == y && tp@.len() == y,
                    forall|j: int| 0 <= j < y ==>
                        #[trigger] bp@[j]@ == Seq::new(CHUNK_SIZE as nat, |k: int| *air),
                    forall|j: int| 0 <= j < y ==>
                        #[trigger] sp@[j]@ == Seq::new(CHUNK_SIZE as nat, |k: int| false),
                    forall|j: int| 0 <= j < y ==>
                        #[trigger] tp@[j]@ == Seq::new(CHUNK_SIZE as nat, |k: int| false),
                decreases CHUNK_SIZE - y,
            {
                let mut br: Vec<Block> = Vec::new();
                let mut sr: Vec<bool> = Vec::new();
                let mut tr: Vec<bool> = Vec::new();
                let mut z: usize = 0;
                while z < CHUNK_SIZE
                    invariant
                        z <= CHUNK_SIZE,
                        br@ == Seq::new(z as nat, |k: int| *air),
                        sr@ == Seq::new(z as nat, |k: int| false),
                        tr@ == Seq::new(z as nat, |k: int| false),
                    decreases CHUNK_SIZE - z,
                {
                    br.push(air.clone());
                    sr.push(false);
                    tr.push(false);
                    z = z + 1;
                    assert(br@ =~= Seq::new(z as nat, |k: int| *air));
                    assert(sr@ =~= Seq::new(z as nat, |k: int| false));
                    assert(tr@ =~= Seq::new(z as nat, |k: int| false));
                }
                bp.push(br);
                sp.push(sr);
                tp.push(tr);
                y = y + 1;
            }
            let ghost old_x = x as int;
            let ghost pb = blocks@;
            let ghost ps = solid@;
            let ghost pt = transparent@;
            blocks.push(bp);
            solid.push(sp);
            transparent.push(tp);
            x = x + 1;
            assert forall|i: int, j: int| 0 <= i < x && 0 <= j < CHUNK_SIZE implies
                #[trigger] blocks@[i]@[j]@ == Seq::new(CHUNK_SIZE as nat, |k: int| *air) by {
                if i < old_x { assert(blocks@[i] == pb[i]); }
            }
            assert forall|i: int, j: int| 0 <= i < x && 0 <= j < CHUNK_SIZE implies
                #[trigger] solid@[i]@[j]@ == Seq::new(CHUNK_SIZE as nat, |k: int| false) by {
                if i < old_x { assert(solid@[i] == ps[i]); }
            }
            assert forall|i: int, j: int| 0 <= i < x && 0 <= j < CHUNK_SIZE implies
                #[trigger] transparent@[i]@[j]@ == Seq::new(CHUNK_SIZE as nat, |k: int| false) by {
                if i < old_x { assert(transparent@[i] == pt[i]); }
            }
        }
        let r = Chunk { solid, transparent, blocks };
        assert(cube_shaped(r.blocks@)) by {
            assert forall|x: int, y: int| 0 <= x < CHUNK_SIZE && 0 <= y < CHUNK_SIZE implies
                #[trigger] r.blocks@[x]@[y]@.len() == CHUNK_SIZE by {
                assert(r.blocks@[x]@[y]@ == Seq::new(CHUNK_SIZE as nat, |k: int| *air));
            }
        }
        assert(cube_shaped(r.solid@)) by {
            assert forall|x: int, y: int| 0 <= x < CHUNK_SIZE && 0 <= y < CHUNK_SIZE implies
                #[trigger] r.solid@[x]@[y]@.len() == CHUNK_SIZE by {
                assert(r.solid@[x]@[y]@ == Seq::new(CHUNK_SIZE as nat, |k: int| false));
            }
        }
        assert(cube_shaped(r.transparent@)) by {
            assert forall|x: int, y: int| 0 <= x < CHUNK_SIZE && 0 <= y < CHUNK_SIZE implies
                #[trigger] r.transparent@[x]@[y]@.len() == CHUNK_SIZE by {
                assert(r.transparent@[x]@[y]@ == Seq::new(CHUNK_SIZE as nat, |k: int| false));
            }
        }
        assert forall|x: int, y: int, z: int| in_chunk(x, y, z) implies {
            &&& #[trigger] r.block(x, y, z) == *air
            &&& !r.solid_at(x, y, z)
            &&& !r.transparent_at(x, y, z)
        } by {
            assert(r.blocks@[x]@[y]@ == Seq::new(CHUNK_SIZE as nat, |k: int| *air));
            assert(r.solid@[x]@[y]@ == Seq::new(CHUNK_SIZE as nat, |k: int| false));
            assert(r.transparent@[x]@[y]@ == Seq::new(CHUNK_SIZE as nat, |k: int| false));
        }
        r
    }

    /// The voxel at `pos`, or `None` outside `[0, 16)` on any axis.
    pub fn get(&self, pos: BlockPos) -> (r: Option<&Block>)
        requires
            self.wf(),
        ensures
            in_chunk(pos.x as int, pos.y as int, pos.z as int)
                ==> r == Some(&self.block(pos.x as int, pos.y as int, pos.z as int)),
            !in_chunk(pos.x as int, pos.y as int, pos.z as int) ==> r is None,
    {
        if 0 <= pos.x && pos.x < 16 && 0 <= pos.y && pos.y < 16 && 0 <= pos.z && pos.z < 16 {
            Some(&self.blocks[pos.x as usize][pos.y as usize][pos.z as usize])
        } else {
            None
        }
    }

    /// Writes `block` at `pos` and sets the voxel's pass flags from `block_type`;
    /// does nothing where `pos` lies outside the chunk.
    pub fn add_block(&mut self, pos: BlockPos, block: Block, block_type: &BlockType)
        requires
            old(self).wf(),
        ensures
            final(self).wf(),
            added(*old(self), *final(self), pos, block, *block_type),
            forall|reg: Seq<BlockData>|
                old(self).consistent_with(reg) && block.fits(reg)
                    && reg[block.id as int].block_type == *block_type
                    ==> #[trigger] final(self).consistent_with(reg),
    {
        if !(0 <= pos.x && pos.x < 16 && 0 <= pos.y && pos.y < 16 && 0 <= pos.z && pos.z < 16) {
            return;
        }
        let ghost before = *self;
        let ghost placed = block;
        let x = pos.x as usize;
        let y = pos.y as usize;
        let z = pos.z as usize;
        let (s, t) = match block_type {
            BlockType::Empty => (false, false),
            BlockType::Solid => (true, true),
            BlockType::Transparent => (false, true),
        };
        self.solid[x][y][z] = s;
        self.transparent[x][y][z] = t;
        self.blocks[x][y][z] = block;
        proof {
            let after = *self;
            assert(after.block(x as int, y as int, z as int) == placed);
            assert forall|reg: Seq<BlockData>|
                before.consistent_with(reg) && placed.fits(reg) && reg[placed.id as int].block_type == *block_type
                implies #[trigger] after.consistent_with(reg) by {
                lemma_set_cell_consistent(before, after, reg, x as int, y as int, z as int);
            }
        }
    }

    /// The voxels of the solid pass (`solid`) or of the transparent pass, each with
    /// all six faces to draw, in order of x, then y, then z.
    pub fn get_mesh_data(&self, solid: bool) -> (r: Vec<BlockFaces>)
        requires
            self.wf(),
        ensures
            r@ == self.mesh_data(solid),
    {
        let mut out: Vec<BlockFaces> = Vec::new();
        let mut x: usize = 0;
        while x < CHUNK_SIZE
            invariant
                self.wf(),
                x <= CHUNK_SIZE,
                out@ == self.cube_records(solid, x as int),
            decreases CHUNK_SIZE - x,
        {
            let mut y: usize = 0;
            while y < CHUNK_SIZE
                invariant
                    self.wf(),
                    x < CHUNK_SIZE,
                    y <= CHUNK_SIZE,
                    out@ == self.cube_records(solid, x as int) + self.plane_records(solid, x as int, y as int),
                decreases CHUNK_SIZE - y,
            {
                let mut z: usize = 0;
                while z < CHUNK_SIZE
                    invariant
                        self.wf(),
                        x < CHUNK_SIZE,
                        y < CHUNK_SIZE,
                        z <= CHUNK_SIZE,
                        out@ == self.cube_records(solid, x as int) + self.plane_records(solid, x as int, y as int)
                            + self.row_records(solid, x as int, y as int, z as int),
                    decreases CHUNK_SIZE - z,
                {
                    let ghost before = out@;
                    let flag = if solid {
                        self.solid[x][y][z]
                    } else {
                        self.transparent[x][y][z]
                    };
                    if flag {
                        out.push(
                            BlockFaces {
                                pos: BlockPos { x: x as i64, y: y as i64, z: z as i64 },
                                model_data: self.blocks[x][y][z].model_data.clone(),
                                top: true,
                                bottom: true,
                                front: true,
                                back: true,
                                left: true,
                                right: true,
                            },
                        );
                    }
                    assert(out@ =~= before + self.cell_records(solid, x as int, y as int, z as int));
                    z = z + 1;
                }
                y = y + 1;
            }
            x = x + 1;
        }
        out
    }
}

/// Every record of a pass names a position inside the chunk.
pub proof fn lemma_mesh_data_in_chunk(c: Chunk, solid: bool)
    ensures
        forall|i: int| 0 <= i < c.mesh_data(solid).len() ==> {
            let p = #[trigger] c.mesh_data(solid)[i].pos;
            in_chunk(p.x as int, p.y as int, p.z as int)
        },
{
    lemma_cube_records_in_chunk(c, solid, CHUNK_SIZE as int);
}

spec fn all_in_chunk(s: Seq<BlockFaces>) -> bool {
    forall|i: int| 0 <= i < s.len() ==> in_chunk(#[trigger] s[i].pos.x as int, s[i].pos.y as int, s[i].pos.z as int)
}

proof fn lemma_concat_in_chunk(a: Seq<BlockFaces>, b: Seq<BlockFaces>)
    requires
        all_in_chunk(a),
        all_in_chunk(b),
    ensures
        all_in_chunk(a + b),
{
    assert forall|i: int| 0 <= i < (a + b).len() implies
        in_chunk(#[trigger] (a + b)[i].pos.x as int, (a + b)[i].pos.y as int, (a + b)[i].pos.z as int) by {
        if i < a.len() {
            assert((a + b)[i] == a[i]);
        } else {
            assert((a + b)[i] == b[i - a.len()]);
        }
    }
}

proof fn lemma_row_records_in_chunk(c: Chunk, solid: bool, x: int, y: int, n: int)
    requires
        0 <= x < CHUNK_SIZE,
        0 <= y < CHUNK_SIZE,
        n <= CHUNK_SIZE,
    ensures
        all_in_chunk(c.row_records(solid, x, y, n)),
    decreases n,
{
    if n > 0 {
        lemma_row_records_in_chunk(c, solid, x, y, n - 1);
        lemma_concat_in_chunk(c.row_records(solid, x, y, n - 1), c.cell_records(solid, x, y, n - 1));
    }
}

proof fn lemma_plane_records_in_chunk(c: Chunk, solid: bool, x: int, n: int)
    requires
        0 <= x < CHUNK_SIZE,
        n <= CHUNK_SIZE,
    ensures
        all_in_chunk(c.plane_records(solid, x, n)),
    decreases n,
{
    if n > 0 {
        lemma_plane_records_in_chunk(c, solid, x, n - 1);
        lemma_row_records_in_chunk(c, solid, x, n - 1, CHUNK_SIZE as int);
        lemma_concat_in_chunk(c.plane_records(solid, x, n - 1), c.row_records(solid, x, n - 1, CHUNK_SIZE as int));
    }
}

proof fn lemma_cube_records_in_chunk(c: Chunk, solid: bool, n: int)
    requires
        n <= CHUNK_SIZE,
    ensures
        all_in_chunk(c.cube_records(solid, n)),
    decreases n,
{
    if n > 0 {
        lemma_cube_records_in_chunk(c, solid, n - 1);
        lemma_plane_records_in_chunk(c, solid, n - 1, CHUNK_SIZE as int);
        lemma_concat_in_chunk(c.cube_records(solid, n - 1), c.plane_records(solid, n - 1, CHUNK_SIZE as int));
    }
}

/// A voxel inside the chunk is among the records of a pass exactly when it is
/// drawn in that pass.
pub proof fn lemma_pass_membership(c: Chunk, solid: bool, p: BlockPos)
    requires
        in_chunk(p.x as int, p.y as int, p.z as int),
    ensures
        records_hold(c.mesh_data(solid), p) == c.in_pass(solid, p.x as int, p.y as int, p.z as int),
{
    lemma_cube_membership(c, solid, p, CHUNK_SIZE as int);
}

proof fn lemma_concat_hold(a: Seq<BlockFaces>, b: Seq<BlockFaces>, p: BlockPos)
    ensures
        records_hold(a + b, p) == (records_hold(a, p) || records_hold(b, p)),
{
    if records_hold(a + b, p) {
        let i = choose|i: int| 0 <= i < (a + b).len() && (#[trigger] (a + b)[i]).pos == p;
        if i < a.len() {
            assert(a[i] == (a + b)[i]);
        } else {
            assert(b[i - a.len()] == (a + b)[i]);
        }
    }
    if records_hold(a, p) {
        let i = choose|i: int| 0 <= i < a.len() && (#[trigger] a[i]).pos == p;
        assert((a + b)[i] == a[i]);
    }
    if records_hold(b, p) {
        let i = choose|i: int| 0 <= i < b.len() && (#[trigger] b[i]).pos == p;
        assert((a + b)[i + a.len()] == b[i]);
    }
}

proof fn lemma_row_membership(c: Chunk, solid: bool, p: BlockPos, x: int, y: int, n: int)
    requires
        in_chunk(p.x as int, p.y as int, p.z as int),
        0 <= x < CHUNK_SIZE,
        0 <= y < CHUNK_SIZE,
        n <= CHUNK_SIZE,
    ensures
        records_hold(c.row_records(solid, x, y, n), p)
            == (p.x == x && p.y == y && p.z < n && c.in_pass(solid, x, y, p.z as int)),
    decreases n,
{
    if n > 0 {
        lemma_row_membership(c, solid, p, x, y, n - 1);
        lemma_concat_hold(c.row_records(solid, x, y, n - 1), c.cell_records(solid, x, y, n - 1), p);
        let cell = c.cell_records(solid, x, y, n - 1);
        if records_hold(cell, p) {
            assert(cell[0].pos == p);
        }
        if p.x == x && p.y == y && p.z == n - 1 && c.in_pass(solid, x, y, p.z as int) {
            assert(cell[0].pos == p);
        }
    }
}

proof fn lemma_plane_membership(c: Chunk, solid: bool, p: BlockPos, x: int, n: int)
    requires
        in_chunk(p.x as int, p.y as int, p.z as int),
        0 <= x < CHUNK_SIZE,
        n <= CHUNK_SIZE,
    ensures
        records_hold(c.plane_records(solid, x, n), p)
            == (p.x == x && p.y < n && c.in_pass(solid, x, p.y as int, p.z as int)),
    decreases n,
{
    if n > 0 {
        lemma_plane_membership(c, solid, p, x, n - 1);
        lemma_row_membership(c, solid, p, x, n - 1, CHUNK_SIZE as int);
        lemma_concat_hold(c.plane_records(solid, x, n - 1), c.row_records(solid, x, n - 1, CHUNK_SIZE as int), p);
    }
}

proof fn lemma_cube_membership(c: Chunk, solid: bool, p: BlockPos, n: int)
    requires
        in_chunk(p.x as int, p.y as int, p.z as int),
        n <= CHUNK_SIZE,
    ensures
        records_hold(c.cube_records(solid, n), p) == (p.x < n && c.in_pass(solid, p.x as int, p.y as int, p.z as int)),
    decreases n,
{
    if n > 0 {
        lemma_cube_membership(c, solid, p, n - 1);
        lemma_plane_membership(c, solid, p, n - 1, CHUNK_SIZE as int);
        lemma_concat_hold(c.cube_records(solid, n - 1), c.plane_records(solid, n - 1, CHUNK_SIZE as int), p);
    }
}

/// Where `p` is the only voxel drawn in a pass, the records of that pass are the
/// one record of `p`.
pub proof fn lemma_single_voxel(c: Chunk, solid: bool, p: BlockPos)
    requires
        in_chunk(p.x as int, p.y as int, p.z as int),
        c.in_pass(solid, p.x as int, p.y as int, p.z as int),
        forall|x: int, y: int, z: int| in_chunk(x, y, z) && !(x == p.x && y == p.y && z == p.z)
            ==> !#[trigger] c.in_pass(solid, x, y, z),
    ensures
        c.mesh_data(solid) == seq![face_record(p, c.block(p.x as int, p.y as int, p.z as int).model_data)],
{
    lemma_cube_single(c, solid, p, CHUNK_SIZE as int);
}

proof fn lemma_row_single(c: Chunk, solid: bool, p: BlockPos, x: int, y: int, n: int)
    requires
        in_chunk(p.x as int, p.y as int, p.z as int),
        c.in_pass(solid, p.x as int, p.y as int, p.z as int),
        forall|x: int, y: int, z: int| in_chunk(x, y, z) && !(x == p.x && y == p.y && z == p.z)
            ==> !#[trigger] c.in_pass(solid, x, y, z),
        0 <= x < CHUNK_SIZE,
        0 <= y < CHUNK_SIZE,
        n <= CHUNK_SIZE,
    ensures
        c.row_records(solid, x, y, n) == if x == p.x && y == p.y && p.z < n {
            seq![face_record(p, c.block(p.x as int, p.y as int, p.z as int).model_data)]
        } else {
            Seq::<BlockFaces>::empty()
        },
    decreases n,
{
    if n > 0 {
        lemma_row_single(c, solid, p, x, y, n - 1);
        if x == p.x && y == p.y && n - 1 == p.z {
            assert(c.row_records(solid, x, y, n) =~= seq![face_record(p, c.block(p.x as int, p.y as int, p.z as int).model_data)]);
        } else {
            assert(!c.in_pass(solid, x, y, n - 1));
            assert(c.row_records(solid, x, y, n) =~= c.row_records(solid, x, y, n - 1));
        }
    }
}

proof fn lemma_plane_single(c: Chunk, solid: bool, p: BlockPos, x: int, n: int)
    requires
        in_chunk(p.x as int, p.y as int, p.z as int),
        c.in_pass(solid, p.x as int, p.y as int, p.z as int),
        forall|x: int, y: int, z: int| in_chunk(x, y, z) && !(x == p.x && y == p.y && z == p.z)
            ==> !#[trigger] c.in_pass(solid, x, y, z),
        0 <= x < CHUNK_SIZE,
        n <= CHUNK_SIZE,
    ensures
        c.plane_records(solid, x, n) == if x == p.x && p.y < n {
            seq![face_record(p, c.block(p.x as int, p.y as int, p.z as int).model_data)]
        } else {
            Seq::<BlockFaces>::empty()
        },
    decreases n,
{
    if n > 0 {
        lemma_plane_single(c, solid, p, x, n - 1);
        lemma_row_single(c, solid, p, x, n - 1, CHUNK_SIZE as int);
        assert(c.plane_records(solid, x, n) =~= c.plane_records(solid, x, n - 1) + c.row_records(
            solid,
            x,
            n - 1,
            CHUNK_SIZE as int,
        ));
    }
}

proof fn lemma_cube_single(c: Chunk, solid: bool, p: BlockPos, n: int)
    requires
        in_chunk(p.x as int, p.y as int, p.z as int),
        c.in_pass(solid, p.x as int, p.y as int, p.z as int),
        forall|x: int, y: int, z: int| in_chunk(x, y, z) && !(x == p.x && y == p.y && z == p.z)
            ==> !#[trigger] c.in_pass(solid, x, y, z),
        n <= CHUNK_SIZE,
    ensures
        c.cube_records(solid, n) == if p.x < n {
            seq![face_record(p, c.block(p.x as int, p.y as int, p.z as int).model_data)]
        } else {
            Seq::<BlockFaces>::empty()
        },
    decreases n,
{
    if n > 0 {
        lemma_cube_single(c, solid, p, n - 1);
        lemma_plane_single(c, solid, p, n - 1, CHUNK_SIZE as int);
        assert(c.cube_records(solid, n) =~= c.cube_records(solid, n - 1) + c.plane_records(
            solid,
            n - 1,
            CHUNK_SIZE as int,
        ));
    }
}

/// Adding a solid block puts its voxel in both passes; a transparent block, in
/// the transparent pass alone; an empty block, in neither.
pub proof fn lemma_classification(before: Chunk, after: Chunk, pos: BlockPos, block: Block, bt: BlockType)
    requires
        in_chunk(pos.x as int, pos.y as int, pos.z as int),
        added(before, after, pos, block, bt),
    ensures
        records_hold(after.mesh_data(true), pos) == bt.is_solid(),
        records_hold(after.mesh_data(false), pos) == bt.is_transparent(),
        bt == BlockType::Solid ==> records_hold(after.mesh_data(true), pos) && records_hold(after.mesh_data(false), pos),
        bt == BlockType::Transparent ==> !records_hold(after.mesh_data(true), pos) && records_hold(after.mesh_data(false), pos),
        bt == BlockType::Empty ==> !records_hold(after.mesh_data(true), pos) && !records_hold(after.mesh_data(false), pos),
{
    lemma_pass_membership(after, true, pos);
    lemma_pass_membership(after, false, pos);
}

/// Changing one voxel to an instance that fits the registry, with matching pass
/// flags, keeps a consistent chunk consistent.
proof fn lemma_set_cell_consistent(before: Chunk, after: Chunk, reg: Seq<BlockData>, x: int, y: int, z: int)
    requires
        before.consistent_with(reg),
        after.block(x, y, z).fits(reg),
        after.solid_at(x, y, z) == after.block(x, y, z).solid,
        after.transparent_at(x, y, z) == after.block(x, y, z).transparent,
        forall|i: int, j: int, k: int| in_chunk(i, j, k) && !(i == x && j == y && k == z) ==> {
            &&& #[trigger] after.block(i, j, k) == before.block(i, j, k)
            &&& after.solid_at(i, j, k) == before.solid_at(i, j, k)
            &&& after.transparent_at(i, j, k) == before.transparent_at(i, j, k)
        },
    ensures
        after.consistent_with(reg),
{
    assert forall|i: int, j: int, k: int| in_chunk(i, j, k) implies {
        &&& #[trigger] after.block(i, j, k).fits(reg)
        &&& after.solid_at(i, j, k) == after.block(i, j, k).solid
        &&& after.transparent_at(i, j, k) == after.block(i, j, k).transparent
    } by {
        if !(i == x && j == y && k == z) {
            assert(after.block(i, j, k) == before.block(i, j, k));
            assert(before.block(i, j, k).fits(reg));
        }
    }
}

} // verus!
