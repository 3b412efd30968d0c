use vstd::prelude::*;
use crate::bakery::{BlockModel, StaticBlockBakery};
use crate::chunk::Chunk;
use crate::coords::{chunk_contains, BlockCoord, ChunkCoord};
use crate::registry::{BlockState, Blocks};

verus! {

/// The block at world position `(x, y, z)`, found in the first chunk of
/// `s`, at or after index `i`, that contains the position.
pub open spec fn storage_lookup_from(
    s: Seq<Chunk>,
    x: int,
    y: int,
    z: int,
    i: int,
) -> Option<BlockState>
    decreases s.len() - i,
{
    if i < 0 || i >= s.len() {
        None
    } else if chunk_contains(s[i].pos, x, y, z) {
        Some(s[i].block_at(x - 16 * s[i].pos.x, y - 16 * s[i].pos.y, z - 16 * s[i].pos.z))
    } else {
        storage_lookup_from(s, x, y, z, i + 1)
    }
}

/// The index of the first chunk of `s`, at or after `i`, that contains
/// world position `(x, y, z)`; `s.len()` when no chunk does.
pub open spec fn containing_chunk_from(s: Seq<Chunk>, x: int, y: int, z: int, i: int) -> int
    decreases s.len() - i,
{
    if i < 0 || i >= s.len() {
        s.len() as int
    } else if chunk_contains(s[i].pos, x, y, z) {
        i
    } else {
        containing_chunk_from(s, x, y, z, i + 1)
    }
}

/// The first chunk of `s`, at or after `i`, standing at chunk
/// coordinate `pos`.
pub open spec fn chunk_at_from(s: Seq<Chunk>, pos: ChunkCoord, i: int) -> Option<Chunk>
    decreases s.len() - i,
{
    if i < 0 || i >= s.len() {
        None
    } else if s[i].pos == pos {
        Some(s[i])
    } else {
        chunk_at_from(s, pos, i + 1)
    }
}

/// The loaded chunks of a world, with the air state used when a block
/// is cleared.
pub struct ChunkStorage {
    pub chunks: Vec<Chunk>,
    pub air: BlockState,
}

impl ChunkStorage {
    pub open spec fn wf(self) -> bool {
        forall|i: int| 0 <= i < self.chunks@.len() ==> (#[trigger] self.chunks@[i]).wf()
    }

    /// The block at a world position, from the first loaded chunk
    /// containing it.
    pub open spec fn storage_lookup(self, x: int, y: int, z: int) -> Option<BlockState> {
        storage_lookup_from(self.chunks@, x, y, z, 0)
    }

    /// The index of the first loaded chunk containing a world position.
    pub open spec fn containing_chunk(self, x: int, y: int, z: int) -> int {
        containing_chunk_from(self.chunks@, x, y, z, 0)
    }

    /// The first loaded chunk at a chunk coordinate.
    pub open spec fn chunk_at(self, pos: ChunkCoord) -> Option<Chunk> {
        chunk_at_from(self.chunks@, pos, 0)
    }

    /// An empty world bound to a registry's air state.
    pub fn new(blocks: &Blocks) -> (r: ChunkStorage)
        requires
            blocks.wf(),
        ensures
            r.wf(),
            r.chunks@.len() == 0,
            r.air == blocks.air_state(),
    {
        proof {
            assert(blocks.name_index("air"@) == 0);
        }
        let air = blocks.get_block_by_name_unchecked("air").get_default_state();
        ChunkStorage { chunks: Vec::new(), air }
    }

    /// Loads one more chunk. The caller keeps chunk positions distinct;
    /// lookups always use the first chunk containing a position.
    pub fn insert_chunk(&mut self, chunk: Chunk)
        requires
            old(self).wf(),
            chunk.wf(),
        ensures
            final(self).wf(),
            final(self).air == old(self).air,
            final(self).chunks@ == old(self).chunks@.push(chunk),
    {
        self.chunks.push(chunk);
    }

    /// The first loaded chunk standing at `pos`, if any.
    #[verifier::loop_isolation(false)]
    pub fn find_chunk(&self, pos: &ChunkCoord) -> (r: Option<&Chunk>)
        ensures
            match r {
                Some(c) => self.chunk_at(*pos) == Some(*c),
                None => self.chunk_at(*pos) is None,
            },
    {
        let n = self.chunks.len();
        for i in 0..n
            invariant
                n == self.chunks@.len(),
                self.chunk_at(*pos) == chunk_at_from(self.chunks@, *pos, i as int),
        {
            if self.chunks[i].pos == *pos {
                return Some(&self.chunks[i]);
            }
        }
        None
    }

    /// The block at world position `pos`, or `None` when no loaded chunk
    /// contains that position.
    #[verifier::loop_isolation(false)]
    pub fn get_block(&self, pos: &BlockCoord) -> (r: Option<BlockState>)
        requires
            self.wf(),
        ensures
            r == self.storage_lookup(pos.x as int, pos.y as int, pos.z as int),
    {
        let n = self.chunks.len();
        for i in 0..n
            invariant
                n == self.chunks@.len(),
                self.storage_lookup(pos.x as int, pos.y as int, pos.z as int)
                    == storage_lookup_from(
                    self.chunks@,
                    pos.x as int,
                    pos.y as int,
                    pos.z as int,
                    i as int,
                ),
        {
            let c = &self.chunks[i];
            if 16 * c.pos.x <= pos.x && pos.x < 16 * c.pos.x + 16 && 16 * c.pos.y <= pos.y
                && pos.y < 16 * c.pos.y + 16 && 16 * c.pos.z <= pos.z && pos.z < 16 * c.pos.z
                + 16 {
                let lx = pos.x - 16 * c.pos.x;
                let ly = pos.y - 16 * c.pos.y;
                let lz = pos.z - 16 * c.pos.z;
                return c.get_block(lx, ly, lz);
            }
        }
        None
    }

    /// Replaces the block at world position `pos` in the first loaded
    /// chunk containing it. Returns whether any chunk was changed; a
    /// position outside every loaded chunk leaves the world as it was.
    #[verifier::loop_isolation(false)]
    pub fn set_block(&mut self, pos: &BlockCoord, state: BlockState) -> (r: bool)
        requires
            old(self).wf(),
        ensures
            final(self).wf(),
            final(self).air == old(self).air,
            final(self).chunks@.len() == old(self).chunks@.len(),
            r == (old(self).containing_chunk(pos.x as int, pos.y as int, pos.z as int) < old(
                self,
            ).chunks@.len()),
            !r ==> final(self).chunks@ == old(self).chunks@,
            r ==> ({
                let idx = old(self).containing_chunk(pos.x as int, pos.y as int, pos.z as int);
                let c = old(self).chunks@[idx];
                let lx = pos.x - 16 * c.pos.x;
                let ly = pos.y - 16 * c.pos.y;
                let lz = pos.z - 16 * c.pos.z;
                &&& final(self).chunks@[idx].pos == c.pos
                &&& final(self).chunks@[idx]@ == c@.update(256 * ly + 16 * lz + lx, state)
                &&& forall|j: int|
                    0 <= j < old(self).chunks@.len() && j != idx ==> final(self).chunks@[j] == old(
                        self,
                    ).chunks@[j]
            }),
    {
        let n = self.chunks.len();
        for i in 0..n
            invariant
                n == self.chunks@.len(),
                self.chunks@ == old(self).chunks@,
                self.air == old(self).air,
                old(self).containing_chunk(pos.x as int, pos.y as int, pos.z as int)
                    == containing_chunk_from(
                    self.chunks@,
                    pos.x as int,
                    pos.y as int,
                    pos.z as int,
                    i as int,
                ),
        {
            let c = &self.chunks[i];
            if 16 * c.pos.x <= pos.x && pos.x < 16 * c.pos.x + 16 && 16 * c.pos.y <= pos.y
                && pos.y < 16 * c.pos.y + 16 && 16 * c.pos.z <= pos.z && pos.z < 16 * c.pos.z
                + 16 {
                let lx = pos.x - 16 * c.pos.x;
                let ly = pos.y - 16 * c.pos.y;
                let lz = pos.z - 16 * c.pos.z;
                let chunk = &mut self.chunks[i];
                chunk.set_block(lx, ly, lz, state);
                return true;
            }
        }
        false
    }
}

/// Builds the core state of the playground: the block registry, a
/// bakery holding the baked models of the registered blocks (air bakes
/// to nothing, "adm" to a full cube), and an empty world.
pub fn setup() -> (r: (Blocks, StaticBlockBakery, ChunkStorage))
    ensures
        r.0.wf(),
        r.0.blocks@.len() == 2,
        r.0.blocks@[1].name@ == "adm"@,
        r.1.wf(),
        r.2.wf(),
        r.2.air == r.0.air_state(),
        r.2.chunks@.len() == 0,
        r.1.models@.len() == 2,
        r.1.models@[0].faces@.len() == 0,
        r.1.models@[1].faces@.len() == 6,
{
    let blocks = Blocks::new();
    let mut bakery = StaticBlockBakery::new();
    bakery.register_model(BlockModel { faces: Vec::new() });
    bakery.register_model(BlockModel::unit_cube());
    let chunks = ChunkStorage::new(&blocks);
    (blocks, bakery, chunks)
}

} // verus!

