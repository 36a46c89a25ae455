use vstd::prelude::*;
use crate::block::{air_data, is_air, Block, BlockData, NbtBlock};
use crate::chunk::{added, in_chunk, lemma_classification, lemma_mesh_data_in_chunk, records_hold, Chunk};
use crate::mesh::{meshable, records_mesh, render_block, views, world_pos, RenderError, Triangle, TriangleView};
use crate::geometry::{chunk_of, get_chunk, offset_of, BlockPos, WORLD_HEIGHT};

verus! {

broadcast use vstd::string::group_string_axioms;

/// The most chunk indices along the x axis, and along the z axis of one x index.
pub const MAX_CHUNK_AXIS: usize = 1048576;

/// `after` is `before` with `block` at world position `pos` where the chunk of
/// `pos` exists: that chunk has `block` added at the offset of `pos`, with pass
/// flags from the block's definition, and every other chunk, the registry and
/// the allocated chunks are as they were. Where the chunk of `pos` does not
/// exist, `after` is `before`.
pub open spec fn placed(before: World, after: World, pos: BlockPos, block: Block) -> bool {
    &&& !before.allocated(chunk_of(pos)) ==> after == before
    &&& before.allocated(chunk_of(pos)) ==> added(
        before.chunk(chunk_of(pos)),
        after.chunk(chunk_of(pos)),
        offset_of(pos),
        block,
        before.registry()[block.id as int].block_type,
    )
    &&& forall|d: BlockPos| before.allocated(d) && d != chunk_of(pos) ==> #[trigger] after.chunk(d) == before.chunk(d)
    &&& after.registry() == before.registry()
    &&& after.rows() == before.rows()
    &&& forall|cx: int| 0 <= cx < before.rows() ==> #[trigger] after.columns_in(cx) == before.columns_in(cx)
    &&& forall|q: BlockPos| #[trigger] after.block_at(q) == if q == pos && before.allocated(chunk_of(pos)) {
        Some(block)
    } else {
        before.block_at(q)
    }
}

/// In a well-formed world every allocated chunk is well formed, and the pass
/// flags of each voxel are those its instance caches from its definition.
pub proof fn lemma_wf_chunks(w: World)
    requires
        w.wf(),
    ensures
        forall|c: BlockPos| #[trigger] w.allocated(c) ==> w.chunk(c).wf() && w.chunk(c).consistent_with(w.registry()),
{
    assert forall|c: BlockPos| #[trigger] w.allocated(c) implies w.chunk(c).wf() && w.chunk(c).consistent_with(
        w.registry(),
    ) by {
        assert(w.chunk(c).wf());
    }
}

/// Placing a block at a position whose chunk exists and reading that position
/// back gives the block.
pub proof fn lemma_place_then_get(before: World, after: World, pos: BlockPos, block: Block)
    requires
        before.allocated(chunk_of(pos)),
        placed(before, after, pos, block),
    ensures
        after.block_at(pos) == Some(block),
{
}

/// After a block is placed at a position whose chunk exists, that voxel is
/// meshed in the solid pass of its chunk exactly when the block's definition is
/// solid, and in the transparent pass exactly when it is solid or transparent.
pub proof fn lemma_place_classification(before: World, after: World, pos: BlockPos, block: Block)
    requires
        before.allocated(chunk_of(pos)),
        placed(before, after, pos, block),
    ensures
        records_hold(after.chunk(chunk_of(pos)).mesh_data(true), offset_of(pos))
            == before.registry()[block.id as int].block_type.is_solid(),
        records_hold(after.chunk(chunk_of(pos)).mesh_data(false), offset_of(pos))
            == before.registry()[block.id as int].block_type.is_transparent(),
{
    let o = offset_of(pos);
    assert(in_chunk(o.x as int, o.y as int, o.z as int));
    lemma_classification(
        before.chunk(chunk_of(pos)),
        after.chunk(chunk_of(pos)),
        o,
        block,
        before.registry()[block.id as int].block_type,
    );
}

/// A position whose chunk does not exist holds nothing, and placing a block
/// there changes nothing: no voxel, no pass flag, no registry entry, no chunk.
pub proof fn lemma_place_unallocated(before: World, after: World, pos: BlockPos, block: Block)
    requires
        !before.allocated(chunk_of(pos)),
        placed(before, after, pos, block),
    ensures
        before.block_at(pos) is None,
        after.block_at(pos) is None,
        forall|q: BlockPos| #[trigger] after.block_at(q) == before.block_at(q),
        after == before,
{
    assert(after.block_at(pos) == before.block_at(pos));
}

/// Chunks addressed by chunk x, then chunk z, then one of a column's fixed
/// vertical slots, together with the registry of block definitions.
pub struct World {
    chunks: Vec<Vec<Vec<Chunk>>>,
    blocks: Vec<BlockData>,
}

impl World {
    /// The block definitions, indexed by id.
    pub closed spec fn registry(&self) -> Seq<BlockData> {
        self.blocks@
    }

    /// How many chunk x indices are allocated.
    pub closed spec fn rows(&self) -> int {
        self.chunks@.len() as int
    }

    /// How many chunk z indices are allocated at chunk x index `cx`.
    pub closed spec fn columns_in(&self, cx: int) -> int {
        self.chunks@[cx]@.len() as int
    }

    /// The chunk at chunk coordinate `c`.
    pub closed spec fn chunk(&self, c: BlockPos) -> Chunk {
        self.chunks@[c.x as int]@[c.z as int]@[c.y as int]
    }

    /// Whether the chunk at chunk coordinate `c` exists.
    pub open spec fn allocated(&self, c: BlockPos) -> bool {
        &&& 0 <= c.x < self.rows()
        &&& 0 <= c.z < self.columns_in(c.x as int)
        &&& 0 <= c.y < WORLD_HEIGHT as int
    }

    /// The voxel at world position `p`, or `None` where its chunk does not exist.
    pub open spec fn block_at(&self, p: BlockPos) -> Option<Block> {
        if self.allocated(chunk_of(p)) {
            let o = offset_of(p);
            Some(self.chunk(chunk_of(p)).block(o.x as int, o.y as int, o.z as int))
        } else {
            None
        }
    }

    /// Air is registered under id 0, the allocated ranges stay within their
    /// bounds, every column has all its slots, and every chunk is well formed
    /// and holds instances consistent with the registry.
    pub closed spec fn wf(&self) -> bool {
        &&& self.blocks@.len() >= 1
        &&& is_air(self.blocks@[0])
        &&& self.chunks@.len() <= MAX_CHUNK_AXIS
        &&& forall|cx: int| 0 <= cx < self.chunks@.len() ==> #[trigger] self.chunks@[cx]@.len() <= MAX_CHUNK_AXIS
        &&& forall|cx: int, cz: int| 0 <= cx < self.chunks@.len() && 0 <= cz < self.chunks@[cx]@.len()
            ==> #[trigger] self.chunks@[cx]@[cz]@.len() == WORLD_HEIGHT
        &&& forall|c: BlockPos| #![trigger self.chunk(c)] self.allocated(c)
            ==> self.chunk(c).wf() && self.chunk(c).consistent_with(self.blocks@)
    }

    /// A world whose registry holds air alone, with one column of chunks at chunk
    /// x 0 and chunk z 0, every voxel holding air.
    pub fn new() -> (r: World)
        ensures
            r.wf(),
            r.registry().len() == 1,
            is_air(r.registry()[0]),
            r.rows() == 1,
            r.columns_in(0) == 1,
            forall|p: BlockPos| #[trigger] r.block_at(p) matches Some(b)
                ==> b.instance_of(0, NbtBlock {}, r.registry()[0]),
            forall|c: BlockPos, x: int, y: int, z: int| r.allocated(c) && in_chunk(x, y, z)
                ==> !#[trigger] r.chunk(c).solid_at(x, y, z) && !r.chunk(c).transparent_at(x, y, z),
    {
        let mut w = World { chunks: Vec::new(), blocks: Vec::new() };
        w.blocks.push(air_data());
        let air = Block::new(0, NbtBlock::new(), &w);
        assert(air.fits(w.blocks@));
        let column = empty_column(&air);
        let mut row: Vec<Vec<Chunk>> = Vec::new();
        row.push(column);
        w.chunks.push(row);
        assert forall|c: BlockPos| #![trigger w.chunk(c)] w.allocated(c)
            implies w.chunk(c).wf() && w.chunk(c).consistent_with(w.blocks@) && w.chunk(c).holds_only(air) by {
            assert(w.chunk(c) == column@[c.y as int]);
            assert(column@[c.y as int].consistent_with(w.blocks@));
        }
        assert forall|p: BlockPos| #[trigger] w.block_at(p) is Some
            implies w.block_at(p).unwrap().instance_of(0, NbtBlock {}, w.registry()[0]) by {
            if w.allocated(chunk_of(p)) {
                let o = offset_of(p);
                assert(w.chunk(chunk_of(p)).holds_only(air));
                assert(w.chunk(chunk_of(p)).block(o.x as int, o.y as int, o.z as int) == air);
            }
        }
        assert forall|c: BlockPos, x: int, y: int, z: int| w.allocated(c) && in_chunk(x, y, z)
            implies !#[trigger] w.chunk(c).solid_at(x, y, z) && !w.chunk(c).transparent_at(x, y, z) by {
            assert(w.chunk(c).holds_only(air));
            assert(w.chunk(c).block(x, y, z) == air);
        }
        w
    }

    /// Allocates a column of chunks holding air at chunk x index `x`, after the
    /// columns already there, and returns its chunk z index. A new x index may
    /// only follow the last one. Returns `None`, changing nothing, where `x` lies
    /// beyond that or an axis is at its limit.
    pub fn add_column(&mut self, x: usize) -> (r: Option<usize>)
        requires
            old(self).wf(),
        ensures
            final(self).wf(),
            final(self).registry() == old(self).registry(),
            r is Some <==> (x < old(self).rows() && old(self).columns_in(x as int) < MAX_CHUNK_AXIS) || (x
                == old(self).rows() && old(self).rows() < MAX_CHUNK_AXIS),
            r is None ==> *final(self) == *old(self),
            r matches Some(z) ==> {
                &&& z == if x < old(self).rows() { old(self).columns_in(x as int) } else { 0 }
                &&& final(self).rows() == if x < old(self).rows() { old(self).rows() } else { old(self).rows() + 1 }
                &&& final(self).columns_in(x as int) == z + 1
                &&& forall|cx: int| 0 <= cx < old(self).rows() && cx != x
                    ==> #[trigger] final(self).columns_in(cx) == old(self).columns_in(cx)
                &&& forall|q: BlockPos| old(self).allocated(chunk_of(q))
                    ==> #[trigger] final(self).block_at(q) == old(self).block_at(q)
                &&& forall|q: BlockPos| #[trigger] final(self).block_at(q) is Some && !old(self).allocated(chunk_of(q))
                    ==> final(self).block_at(q).unwrap().instance_of(0, NbtBlock {}, final(self).registry()[0])
            },
    {
        let rows = self.chunks.len();
        if x > rows || (x == rows && rows >= MAX_CHUNK_AXIS) {
            return None;
        }
        if x < rows && self.chunks[x].len() >= MAX_CHUNK_AXIS {
            return None;
        }
        let ghost before = *self;
        let air = Block::new(0, NbtBlock::new(), self);
        assert(air.fits(self.blocks@));
        let column = empty_column(&air);
        let z: usize;
        if x == rows {
            let mut row: Vec<Vec<Chunk>> = Vec::new();
            row.push(column);
            self.chunks.push(row);
            z = 0;
        } else {
            z = self.chunks[x].len();
            self.chunks[x].push(column);
        }
        assert forall|d: BlockPos| #![trigger self.chunk(d)] self.allocated(d)
            implies self.chunk(d).wf() && self.chunk(d).consistent_with(self.blocks@) by {
            if d.x == x && d.z == z {
                assert(self.chunk(d) == column@[d.y as int]);
                assert(column@[d.y as int].consistent_with(self.blocks@));
            } else {
                assert(before.allocated(d));
                assert(self.chunk(d) == before.chunk(d));
            }
        }
        assert forall|q: BlockPos| before.allocated(chunk_of(q))
            implies #[trigger] self.block_at(q) == before.block_at(q) by {
            assert(self.chunk(chunk_of(q)) == before.chunk(chunk_of(q)));
        }
        assert forall|q: BlockPos| #[trigger] self.block_at(q) is Some && !before.allocated(chunk_of(q))
            implies self.block_at(q).unwrap().instance_of(0, NbtBlock {}, self.registry()[0]) by {
            let d = chunk_of(q);
            let o = offset_of(q);
            assert(d.x == x && d.z == z);
            assert(self.chunk(d) == column@[d.y as int]);
            assert(column@[d.y as int].holds_only(air));
            assert(self.chunk(d).block(o.x as int, o.y as int, o.z as int) == air);
        }
        Some(z)
    }

    /// Writes `block` at world position `pos` and sets the voxel's pass flags from
    /// its definition; does nothing where the chunk of `pos` does not exist.
    pub fn place_block(&mut self, pos: BlockPos, block: Block)
        requires
            old(self).wf(),
            block.fits(old(self).registry()),
        ensures
            final(self).wf(),
            placed(*old(self), *final(self), pos, block),
    {
        let (c, o) = get_chunk(pos);
        if c.x < 0 || c.z < 0 || c.y < 0 || c.y >= WORLD_HEIGHT as i64 {
            return;
        }
        if c.x >= self.chunks.len() as i64 {
            return;
        }
        let cx = c.x as usize;
        if c.z >= self.chunks[cx].len() as i64 {
            return;
        }
        let cz = c.z as usize;
        let cy = c.y as usize;
        let ghost before = *self;
        let ghost placed = block;
        assert(before.allocated(c));
        assert(before.chunk(c).wf());
        let n = self.blocks.len();
        assert((block.id as int) < n);
        let block_type = self.blocks[block.id as usize].block_type;
        self.chunks[cx][cz][cy].add_block(o, block, &block_type);
        assert(self.chunk(c).consistent_with(self.blocks@));
        assert forall|d: BlockPos| #![trigger self.chunk(d)] self.allocated(d)
            implies self.chunk(d).wf() && self.chunk(d).consistent_with(self.blocks@) by {
            assert(before.allocated(d));
            if d != c {
                assert(self.chunk(d) == before.chunk(d));
            }
        }
        assert forall|q: BlockPos| #[trigger] self.block_at(q) == if q == pos && before.allocated(chunk_of(pos)) {
            Some(placed)
        } else {
            before.block_at(q)
        } by {
            if before.allocated(chunk_of(q)) {
                let d = chunk_of(q);
                let oq = offset_of(q);
                if d != c {
                    assert(self.chunk(d) == before.chunk(d));
                } else if oq != o {
                    assert(q != pos);
                } else {
                    crate::geometry::lemma_split_determines(q, pos);
                }
            }
        }
    }

    /// The voxel at world position `pos`, or `None` where its chunk does not exist.
    pub fn get_block(&self, pos: BlockPos) -> (r: Option<&Block>)
        requires
            self.wf(),
        ensures
            r matches Some(b) ==> self.block_at(pos) == Some(*b),
            r is None <==> self.block_at(pos) is None,
    {
        let (c, o) = get_chunk(pos);
        if c.x < 0 || c.z < 0 || c.y < 0 || c.y >= WORLD_HEIGHT as i64 {
            return None;
        }
        if c.x >= self.chunks.len() as i64 {
            return None;
        }
        let cx = c.x as usize;
        if c.z >= self.chunks[cx].len() as i64 {
            return None;
        }
        let cz = c.z as usize;
        let cy = c.y as usize;
        assert(self.allocated(c));
        assert(self.chunk(c).wf());
        self.chunks[cx][cz][cy].get(o)
    }

    /// Meshes the solid pass of the chunk that holds `player`, the only chunk
    /// meshed, and appends its triangles to `vert`. Where no chunk holds `player`
    /// nothing is appended. Where a face to draw has no texture, the error is
    /// returned and `vert` is left as it was.
    pub fn render(&self, vert: &mut Vec<Triangle>, player: BlockPos) -> (r: Result<(), RenderError>)
        requires
            self.wf(),
        ensures
            !self.allocated(chunk_of(player)) ==> r is Ok && final(vert)@ == old(vert)@,
            self.allocated(chunk_of(player)) ==> {
                let c = chunk_of(player);
                match records_mesh(self.chunk(c).mesh_data(true), c) {
                    Some(t) => r is Ok && views(final(vert)@) == views(old(vert)@) + t,
                    None => r is Err && final(vert)@ == old(vert)@,
                }
            },
    {
        let (c, _) = get_chunk(player);
        if c.x < 0 || c.z < 0 || c.y < 0 || c.y >= WORLD_HEIGHT as i64 {
            return Ok(());
        }
        if c.x >= self.chunks.len() as i64 {
            return Ok(());
        }
        let cx = c.x as usize;
        if c.z >= self.chunks[cx].len() as i64 {
            return Ok(());
        }
        let cz = c.z as usize;
        let cy = c.y as usize;
        assert(self.allocated(c));
        let chunk = &self.chunks[cx][cz][cy];
        assert(chunk.wf());
        let records = chunk.get_mesh_data(true);
        proof {
            lemma_mesh_data_in_chunk(*chunk, true);
        }
        let mut out: Vec<Triangle> = Vec::new();
        let mut i: usize = 0;
        while i < records.len()
            invariant
                i <= records@.len(),
                records@ == chunk.mesh_data(true),
                c == chunk_of(player),
                self.allocated(c),
                *chunk == self.chunk(c),
                vert@ == old(vert)@,
                0 <= c.x < MAX_CHUNK_AXIS && 0 <= c.z < MAX_CHUNK_AXIS && 0 <= c.y < WORLD_HEIGHT,
                forall|k: int| 0 <= k < records@.len() ==> {
                    let p = #[trigger] records@[k].pos;
                    crate::chunk::in_chunk(p.x as int, p.y as int, p.z as int)
                },
                records_mesh(records@.take(i as int), c) matches Some(t) && views(out@) == t,
            decreases records@.len() - i,
        {
            let rec = &records[i];
            assert(crate::chunk::in_chunk(rec.pos.x as int, rec.pos.y as int, rec.pos.z as int));
            let pos = BlockPos { x: 16 * c.x + rec.pos.x, y: 16 * c.y + rec.pos.y, z: 16 * c.z + rec.pos.z };
            assert(pos == world_pos(c, rec.pos));
            assert(meshable(pos));
            let ghost prev = records_mesh(records@.take(i as int), c).unwrap();
            assert(records@.take(i + 1).drop_last() =~= records@.take(i as int));
            assert(records@.take(i + 1).last() == *rec);
            if render_block(&mut out, rec, pos).is_err() {
                proof {
                    lemma_records_prefix_fails(records@, c, i + 1);
                }
                return Err(RenderError::Untextured);
            }
            i = i + 1;
        }
        assert(records@.take(records@.len() as int) =~= records@);
        let ghost start = vert@;
        let ghost added = out@;
        vert.append(&mut out);
        assert(views(vert@) =~= views(start) + views(added));
        Ok(())
    }

    /// How many definitions are registered.
    pub fn block_count(&self) -> (r: usize)
        ensures
            r == self.registry().len(),
    {
        self.blocks.len()
    }

    /// The definition registered under `id`.
    pub fn get_block_data(&self, id: u64) -> (r: &BlockData)
        requires
            (id as int) < self.registry().len(),
        ensures
            *r == self.registry()[id as int],
    {
        let n = self.blocks.len();
        assert((id as int) < n);
        &self.blocks[id as usize]
    }

    /// Appends `data` to the registry and returns its id, the former length.
    pub fn reg_block(&mut self, data: BlockData) -> (r: u64)
        requires
            old(self).wf(),
            old(self).registry().len() < u64::MAX,
        ensures
            final(self).wf(),
            r as int == old(self).registry().len(),
            final(self).registry() == old(self).registry().push(data),
            final(self).rows() == old(self).rows(),
            forall|cx: int| #[trigger] final(self).columns_in(cx) == old(self).columns_in(cx),
            forall|p: BlockPos| #[trigger] final(self).block_at(p) == old(self).block_at(p),
            forall|c: BlockPos| old(self).allocated(c) ==> #[trigger] final(self).chunk(c) == old(self).chunk(c),
    {
        let id = self.blocks.len() as u64;
        let ghost before = *self;
        self.blocks.push(data);
        assert forall|c: BlockPos| self.allocated(c)
            implies #[trigger] self.chunk(c).wf() && self.chunk(c).consistent_with(self.blocks@) by {
            assert(before.chunk(c).wf());
            assert(before.allocated(c));
            assert(self.chunk(c) == before.chunk(c));
            lemma_consistent_with_longer(self.chunk(c), before.blocks@, self.blocks@);
        }
        assert forall|p: BlockPos| #[trigger] self.block_at(p) == before.block_at(p) by {
            if before.allocated(chunk_of(p)) {
                assert(self.chunk(chunk_of(p)) == before.chunk(chunk_of(p)));
            }
        }
        id
    }
}

/// A column of chunks filled with copies of `air`.
fn empty_column(air: &Block) -> (r: Vec<Chunk>)
    ensures
        r@.len() == WORLD_HEIGHT,
        forall|j: int| 0 <= j < WORLD_HEIGHT ==> (#[trigger] r@[j]).wf() && r@[j].holds_only(*air),
        forall|j: int, reg: Seq<BlockData>| 0 <= j < WORLD_HEIGHT && air.fits(reg) && !air.solid && !air.transparent
            ==> #[trigger] r@[j].consistent_with(reg),
{
    let mut column: Vec<Chunk> = Vec::new();
    let mut i: usize = 0;
    while i < WORLD_HEIGHT
        invariant
            i <= WORLD_HEIGHT,
            column@.len() == i,
            forall|j: int| 0 <= j < i ==> (#[trigger] column@[j]).wf() && column@[j].holds_only(*air),
            forall|j: int, reg: Seq<BlockData>| 0 <= j < i && air.fits(reg) && !air.solid && !air.transparent
                ==> #[trigger] column@[j].consistent_with(reg),
        decreases WORLD_HEIGHT - i,
    {
        let c = Chunk::new(air);
        column.push(c);
        i = i + 1;
    }
    column
}

/// Once a prefix of the records fails to mesh, so do all of them.
proof fn lemma_records_prefix_fails(recs: Seq<crate::chunk::BlockFaces>, c: BlockPos, k: int)
    requires
        0 <= k <= recs.len(),
        records_mesh(recs.take(k), c) is None,
    ensures
        records_mesh(recs, c) is None,
    decreases recs.len(),
{
    if k == recs.len() {
        assert(recs.take(k) =~= recs);
    } else {
        assert(recs.drop_last().take(k) =~= recs.take(k));
        lemma_records_prefix_fails(recs.drop_last(), c, k);
    }
}

/// Consistency with a registry survives appending to the registry.
proof fn lemma_consistent_with_longer(c: Chunk, reg: Seq<BlockData>, longer: Seq<BlockData>)
    requires
        c.consistent_with(reg),
        reg.len() <= longer.len(),
        forall|i: int| 0 <= i < reg.len() ==> #[trigger] longer[i] == reg[i],
    ensures
        c.consistent_with(longer),
{
    assert forall|x: int, y: int, z: int| crate::chunk::in_chunk(x, y, z) implies {
        &&& #[trigger] c.block(x, y, z).fits(longer)
        &&& c.solid_at(x, y, z) == c.block(x, y, z).solid
        &&& c.transparent_at(x, y, z) == c.block(x, y, z).transparent
    } by {
        assert(c.block(x, y, z).fits(reg));
        assert(longer[c.block(x, y, z).id as int] == reg[c.block(x, y, z).id as int]);
    }
}

} // verus!
