use vstd::prelude::*;

use crate::block::BlockId;
use crate::math::IVec3;

verus! {

/// Cells along x.
pub const SIZE_X: usize = 16;

/// Cells along y (height).
pub const SIZE_Y: usize = 256;

/// Cells along z.
pub const SIZE_Z: usize = 16;

/// Cells in one chunk.
pub const VOLUME: usize = 65536;

/// Whether `p` addresses a cell of a chunk.
pub open spec fn in_bounds(p: IVec3) -> bool {
    0 <= p.x < SIZE_X && 0 <= p.y < SIZE_Y && 0 <= p.z < SIZE_Z
}

/// Row-major address of a cell: x varies fastest, then y, then z.
pub open spec fn index_of(p: IVec3) -> int {
    SIZE_X * SIZE_Y * p.z + SIZE_X * p.y + p.x
}

/// The block the flat terrain generator puts at height `y`.
pub open spec fn flat_block(y: int) -> BlockId {
    if 0 <= y <= 32 {
        BlockId::Stone
    } else if 33 <= y <= 254 {
        BlockId::Dirt
    } else if y == 255 {
        BlockId::Grass
    } else {
        BlockId::Air
    }
}

/// Height of the cell stored at address `i`.
pub open spec fn height_of_index(i: int) -> int {
    (i / SIZE_X as int) % SIZE_Y as int
}

/// A fixed-extent grid of blocks, stored densely in row-major order.
pub struct Chunk {
    blocks: Vec<BlockId>,
}

impl View for Chunk {
    type V = Seq<BlockId>;

    closed spec fn view(&self) -> Seq<BlockId> {
        self.blocks@
    }
}

impl Chunk {
    #[verifier::type_invariant]
    spec fn wf(self) -> bool {
        self.blocks@.len() == VOLUME
    }

    /// The block at `p`, or nothing where `p` lies outside the chunk.
    pub open spec fn block_at(self, p: IVec3) -> Option<BlockId> {
        if in_bounds(p) {
            Some(self@[index_of(p)])
        } else {
            None
        }
    }

    /// A chunk of the given block everywhere.
    pub fn filled(block: BlockId) -> (r: Chunk)
        ensures
            forall|p: IVec3| in_bounds(p) ==> #[trigger] r.block_at(p) == Some(block),
    {
        let blocks = vec![block; VOLUME];
        proof {
            assert forall|p: IVec3| in_bounds(p) implies 0 <= #[trigger] index_of(p) < VOLUME by {
                lemma_index_in_range(p);
            }
        }
        Chunk { blocks }
    }

    /// Flat terrain: stone up to height 32, dirt up to 254, grass on 255.
    pub fn flat() -> (r: Chunk)
        ensures
            forall|p: IVec3| in_bounds(p) ==> #[trigger] r.block_at(p) == Some(flat_block(p.y as int)),
    {
        let mut blocks: Vec<BlockId> = Vec::with_capacity(VOLUME);
        let mut i: usize = 0;
        while i < VOLUME
            invariant
                i <= VOLUME,
                blocks@.len() == i,
                forall|j: int| 0 <= j < i ==> #[trigger] blocks@[j] == flat_block(height_of_index(j)),
            decreases VOLUME - i,
        {
            let y: usize = (i / SIZE_X) % SIZE_Y;
            let block = if y <= 32 {
                BlockId::Stone
            } else if y <= 254 {
                BlockId::Dirt
            } else {
                BlockId::Grass
            };
            blocks.push(block);
            i += 1;
        }
        proof {
            assert forall|p: IVec3| in_bounds(p) implies #[trigger] blocks@[index_of(p)] == flat_block(p.y as int) by {
                lemma_index_in_range(p);
                lemma_height_of_index(p);
            }
        }
        Chunk { blocks }
    }

    /// Address of the cell at `pos`, or nothing where `pos` lies outside the chunk.
    pub fn index(pos: IVec3) -> (r: Option<usize>)
        ensures
            r == (if in_bounds(pos) { Some(index_of(pos) as usize) } else { None }),
            r matches Some(i) ==> i < VOLUME && i as int == index_of(pos),
    {
        if pos.is_any_negative() {
            return None;
        }
        let x = pos.x as usize;
        let y = pos.y as usize;
        let z = pos.z as usize;
        if x >= SIZE_X || y >= SIZE_Y || z >= SIZE_Z {
            return None;
        }
        proof {
            lemma_index_in_range(pos);
        }
        Some(SIZE_X * SIZE_Y * z + SIZE_X * y + x)
    }

    /// The block at `pos`, or nothing where `pos` lies outside the chunk.
    pub fn get(&self, pos: IVec3) -> (r: Option<BlockId>)
        ensures
            r == self.block_at(pos),
    {
        proof {
            use_type_invariant(self);
        }
        match Chunk::index(pos) {
            Some(i) => Some(self.blocks[i]),
            None => None,
        }
    }

    /// This chunk with the block at `pos` replaced; unchanged where `pos` lies
    /// outside the chunk.
    pub fn with_block(self, pos: IVec3, block: BlockId) -> (r: Chunk)
        ensures
            in_bounds(pos) ==> r@ == self@.update(index_of(pos), block),
            !in_bounds(pos) ==> r@ == self@,
    {
        proof {
            use_type_invariant(&self);
        }
        let Chunk { mut blocks } = self;
        if let Some(i) = Chunk::index(pos) {
            blocks.set(i, block);
        }
        Chunk { blocks }
    }

    /// Whether any coordinate of `pos` is negative or reaches the extent.
    pub fn out_of_bounds(pos: IVec3) -> (r: bool)
        ensures
            r == !in_bounds(pos),
    {
        pos.is_any_negative() || pos.x >= SIZE_X as i32 || pos.y >= SIZE_Y as i32 || pos.z
            >= SIZE_Z as i32
    }
}

/// Every cell of the chunk has an address inside the block array.
pub proof fn lemma_index_in_range(p: IVec3)
    requires
        in_bounds(p),
    ensures
        0 <= index_of(p) < VOLUME,
{
}

/// The address of a cell records its height.
pub proof fn lemma_height_of_index(p: IVec3)
    requires
        in_bounds(p),
    ensures
        height_of_index(index_of(p)) == p.y,
{
    let i = index_of(p);
    assert(i / 16 == 256 * p.z + p.y) by (nonlinear_arith)
        requires
            i == 4096 * p.z + 16 * p.y + p.x,
            0 <= p.x < 16,
    ;
    assert((256 * p.z + p.y) % 256 == p.y) by (nonlinear_arith)
        requires
            0 <= p.y < 256,
            0 <= p.z,
    ;
}

/// Distinct cells have distinct addresses, so `get` never mixes two cells up.
pub proof fn lemma_index_injective(p: IVec3, q: IVec3)
    requires
        in_bounds(p),
        in_bounds(q),
        index_of(p) == index_of(q),
    ensures
        p == q,
{
    lemma_height_of_index(p);
    lemma_height_of_index(q);
    assert(index_of(p) % 16 == p.x) by (nonlinear_arith)
        requires
            index_of(p) == 4096 * p.z + 16 * p.y + p.x,
            0 <= p.x < 16,
            0 <= p.y,
            0 <= p.z,
    ;
    assert(index_of(q) % 16 == q.x) by (nonlinear_arith)
        requires
            index_of(q) == 4096 * q.z + 16 * q.y + q.x,
            0 <= q.x < 16,
            0 <= q.y,
            0 <= q.z,
    ;
}

} // verus!
