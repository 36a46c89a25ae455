use vstd::prelude::*;

verus! {

/// Voxels along each edge of a chunk.
pub const CHUNK_SIZE: usize = 16;

/// Chunk slots stacked in one column of the world.
pub const WORLD_HEIGHT: usize = 16;

/// An integer position in world space, one unit per voxel. Positions are whole
/// voxels, so the offset of a position inside its chunk is exact and always in
/// `[0, 16)`.
#[derive(Clone, Copy, Debug, PartialEq, Eq, Structural)]
pub struct BlockPos {
    pub x: i64,
    pub y: i64,
    pub z: i64,
}

impl BlockPos {
    pub fn new(x: i64, y: i64, z: i64) -> (r: BlockPos)
        ensures
            r == (BlockPos { x, y, z }),
    {
        BlockPos { x, y, z }
    }
}

/// The chunk index along one axis: the floor of `a / 16`.
pub open spec fn chunk_index(a: int) -> int {
    a / CHUNK_SIZE as int
}

/// The offset inside the chunk along one axis, in `[0, 16)`.
pub open spec fn chunk_offset(a: int) -> int {
    a % CHUNK_SIZE as int
}

/// The coordinate of the chunk that holds `p`.
pub open spec fn chunk_of(p: BlockPos) -> BlockPos {
    BlockPos {
        x: chunk_index(p.x as int) as i64,
        y: chunk_index(p.y as int) as i64,
        z: chunk_index(p.z as int) as i64,
    }
}

/// The offset of `p` inside its chunk.
pub open spec fn offset_of(p: BlockPos) -> BlockPos {
    BlockPos {
        x: chunk_offset(p.x as int) as i64,
        y: chunk_offset(p.y as int) as i64,
        z: chunk_offset(p.z as int) as i64,
    }
}

/// A position is determined by its chunk and its offset inside that chunk.
pub proof fn lemma_split_determines(p: BlockPos, q: BlockPos)
    requires
        chunk_of(p) == chunk_of(q),
        offset_of(p) == offset_of(q),
    ensures
        p == q,
{
    lemma_axis_determines(p.x as int, q.x as int);
    lemma_axis_determines(p.y as int, q.y as int);
    lemma_axis_determines(p.z as int, q.z as int);
}

proof fn lemma_axis_determines(a: int, b: int)
    requires
        a >= i64::MIN && a <= i64::MAX && b >= i64::MIN && b <= i64::MAX,
        chunk_index(a) as i64 == chunk_index(b) as i64,
        chunk_offset(a) as i64 == chunk_offset(b) as i64,
    ensures
        a == b,
{
    assert(a == 16 * (a / 16) + a % 16);
    assert(b == 16 * (b / 16) + b % 16);
}

fn split_axis(a: i64) -> (r: (i64, i64))
    ensures
        r.0 == chunk_index(a as int),
        r.1 == chunk_offset(a as int),
        0 <= r.1 < 16,
{
    if a >= 0 {
        (a / 16, a % 16)
    } else {
        let b: i64 = -(a + 1);
        let q: i64 = -(b / 16) - 1;
        let rem: i64 = 15 - b % 16;
        assert(a as int == 16 * q + rem) by (nonlinear_arith)
            requires
                b == -(a + 1),
                b as int == 16 * (b / 16) + b % 16,
                q == -(b / 16) - 1,
                rem == 15 - b % 16,
        ;
        assert(chunk_index(a as int) == q && chunk_offset(a as int) == rem) by (nonlinear_arith)
            requires
                a as int == 16 * q + rem,
                0 <= rem < 16,
        ;
        (q, rem)
    }
}

/// Splits a world position into the coordinate of its chunk and its offset inside that chunk.
pub fn get_chunk(pos: BlockPos) -> (r: (BlockPos, BlockPos))
    ensures
        r.0 == chunk_of(pos),
        r.1 == offset_of(pos),
        0 <= r.1.x < 16 && 0 <= r.1.y < 16 && 0 <= r.1.z < 16,
{
    let (cx, ox) = split_axis(pos.x);
    let (cy, oy) = split_axis(pos.y);
    let (cz, oz) = split_axis(pos.z);
    (BlockPos { x: cx, y: cy, z: cz }, BlockPos { x: ox, y: oy, z: oz })
}

} // verus!
