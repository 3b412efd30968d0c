use vstd::prelude::*;
use crate::coords::{chunk_pos_in_range, ChunkCoord};
use crate::registry::BlockState;

verus! {

/// Number of blocks in a chunk: `CHUNK_SIZE` cubed.
pub const CHUNK_VOLUME: usize = 4096;

/// A fixed-size cube of block states, the unit of meshing and storage.
/// The view of a chunk is the sequence of its `CHUNK_VOLUME` block
/// states, indexed by `256 * y + 16 * z + x` for local coordinates
/// `(x, y, z)`.
pub struct Chunk {
    pub pos: ChunkCoord,
    pub blocks: Vec<BlockState>,
}

impl View for Chunk {
    type V = Seq<BlockState>;

    open spec fn view(&self) -> Seq<BlockState> {
        self.blocks@
    }
}

impl Chunk {
    /// A chunk always holds exactly `CHUNK_VOLUME` blocks, and its
    /// position stays within `CHUNK_POS_LIMIT`.
    pub open spec fn wf(self) -> bool {
        &&& self@.len() == CHUNK_VOLUME
        &&& chunk_pos_in_range(self.pos)
    }

    /// The block state at local coordinates `(x, y, z)`, each in `[0, 16)`.
    pub open spec fn block_at(self, x: int, y: int, z: int) -> BlockState {
        self@[256 * y + 16 * z + x]
    }

    /// A chunk at `pos` filled with the single block state `fill`.
    pub fn new(pos: ChunkCoord, fill: BlockState) -> (c: Chunk)
        requires
            chunk_pos_in_range(pos),
        ensures
            c.wf(),
            c.pos == pos,
            forall|x: int, y: int, z: int|
                0 <= x < 16 && 0 <= y < 16 && 0 <= z < 16 ==> c.block_at(x, y, z) == fill,
    {
        let mut blocks: Vec<BlockState> = Vec::new();
        let mut i: usize = 0;
        while i < CHUNK_VOLUME
            invariant
                i <= CHUNK_VOLUME,
                blocks@.len() == i,
                forall|j: int| 0 <= j < i ==> blocks@[j] == fill,
            decreases CHUNK_VOLUME - i,
        {
            blocks.push(fill);
            i = i + 1;
        }
        Chunk { pos, blocks }
    }

    /// Checked block lookup: `Some` exactly on local coordinates inside
    /// the chunk, `None` outside.
    pub fn get_block(&self, x: i64, y: i64, z: i64) -> (r: Option<BlockState>)
        requires
            self.wf(),
        ensures
            (0 <= x < 16 && 0 <= y < 16 && 0 <= z < 16) ==> r == Some(
                self.block_at(x as int, y as int, z as int),
            ),
            !(0 <= x < 16 && 0 <= y < 16 && 0 <= z < 16) ==> r is None,
    {
        if 0 <= x && x < 16 && 0 <= y && y < 16 && 0 <= z && z < 16 {
            let idx: usize = (256 * y + 16 * z + x) as usize;
            Some(self.blocks[idx])
        } else {
            None
        }
    }

    /// Unchecked block lookup. The caller guarantees that the local
    /// coordinates are in range; the bound is a verified precondition
    /// here, so no out-of-range access can happen.
    pub fn get_block_unchecked(&self, x: i64, y: i64, z: i64) -> (r: BlockState)
        requires
            self.wf(),
            0 <= x < 16,
            0 <= y < 16,
            0 <= z < 16,
        ensures
            r == self.block_at(x as int, y as int, z as int),
    {
        let idx: usize = (256 * y + 16 * z + x) as usize;
        self.blocks[idx]
    }

    /// Replaces the block at local coordinates `(x, y, z)`; every other
    /// block keeps its state.
    pub fn set_block(&mut self, x: i64, y: i64, z: i64, state: BlockState)
        requires
            old(self).wf(),
            0 <= x < 16,
            0 <= y < 16,
            0 <= z < 16,
        ensures
            final(self).wf(),
            final(self).pos == old(self).pos,
            final(self)@ == old(self)@.update(256 * y + 16 * z + x, state),
    {
        let idx: usize = (256 * y + 16 * z + x) as usize;
        self.blocks[idx] = state;
    }
}

} // verus!
