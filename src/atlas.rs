use vstd::prelude::*;

verus! {

/// Pixels left between neighbouring textures in the atlas.
pub const ATLAS_GAP: u32 = 2;

/// Where one texture lies in the atlas, in pixels: it starts at column
/// `x_offset` of the bottom row and spans `width` by `height`.
#[derive(Clone, Copy, Debug, PartialEq, Eq, Structural)]
pub struct AtlasSlot {
    pub x_offset: u32,
    pub width: u32,
    pub height: u32,
}

/// The size of the atlas and the slot of each texture, in the order given.
#[derive(Debug, PartialEq)]
pub struct AtlasLayout {
    pub width: u32,
    pub height: u32,
    pub slots: Vec<AtlasSlot>,
}

/// The columns taken by the first `n` textures, each followed by the gap.
pub open spec fn span(sizes: Seq<(u32, u32)>, n: int) -> int
    decreases n,
{
    if n <= 0 {
        0
    } else {
        span(sizes, n - 1) + sizes[n - 1].0 + ATLAS_GAP
    }
}

/// The tallest of the first `n` textures.
pub open spec fn tallest(sizes: Seq<(u32, u32)>, n: int) -> int
    decreases n,
{
    if n <= 0 {
        0
    } else if sizes[n - 1].1 > tallest(sizes, n - 1) {
        sizes[n - 1].1 as int
    } else {
        tallest(sizes, n - 1)
    }
}

proof fn lemma_span_grows(sizes: Seq<(u32, u32)>, i: int, n: int)
    requires
        0 <= i <= n,
    ensures
        span(sizes, i) <= span(sizes, n),
    decreases n - i,
{
    if i < n {
        lemma_span_grows(sizes, i, n - 1);
    }
}

/// Lays textures of the given `(width, height)` sizes side by side in one strip,
/// in order, with a gap after each but the last. The strip is one pixel taller
/// than the tallest texture. `None` where there is no texture or the strip does
/// not fit in `u32` pixels.
pub fn atlas_layout(sizes: &Vec<(u32, u32)>) -> (r: Option<AtlasLayout>)
    ensures
        r is Some <==> sizes@.len() > 0 && span(sizes@, sizes@.len() as int) <= u32::MAX
            && tallest(sizes@, sizes@.len() as int) < u32::MAX,
        r matches Some(l) ==> {
            &&& l.width == span(sizes@, sizes@.len() as int) - ATLAS_GAP
            &&& l.height == tallest(sizes@, sizes@.len() as int) + 1
            &&& l.slots@.len() == sizes@.len()
            &&& forall|i: int| 0 <= i < sizes@.len() ==> #[trigger] l.slots@[i] == (AtlasSlot {
                x_offset: span(sizes@, i) as u32,
                width: sizes@[i].0,
                height: sizes@[i].1,
            })
        },
{
    if sizes.len() == 0 {
        return None;
    }
    let mut slots: Vec<AtlasSlot> = Vec::new();
    let mut offset: u32 = 0;
    let mut height: u32 = 0;
    let mut i: usize = 0;
    while i < sizes.len()
        invariant
            i <= sizes@.len(),
            offset == span(sizes@, i as int),
            offset >= 2 * i,
            sizes@.len() > 0,
            height == tallest(sizes@, i as int),
            slots@.len() == i,
            forall|k: int| 0 <= k < i ==> #[trigger] slots@[k] == (AtlasSlot {
                x_offset: span(sizes@, k) as u32,
                width: sizes@[k].0,
                height: sizes@[k].1,
            }),
        decreases sizes@.len() - i,
    {
        let (w, h) = sizes[i];
        if w > u32::MAX - ATLAS_GAP || offset > u32::MAX - ATLAS_GAP - w {
            proof {
                lemma_span_grows(sizes@, i as int + 1, sizes@.len() as int);
            }
            return None;
        }
        slots.push(AtlasSlot { x_offset: offset, width: w, height: h });
        offset = offset + w + ATLAS_GAP;
        if h > height {
            height = h;
        }
        i = i + 1;
    }
    if height == u32::MAX {
        return None;
    }
    Some(AtlasLayout { width: offset - ATLAS_GAP, height: height + 1, slots })
}

} // verus!
