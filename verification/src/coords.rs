use vstd::prelude::*;

verus! {

/// Edge length of a chunk, in blocks.
pub const CHUNK_SIZE: i64 = 16;

/// Chunk coordinates are kept within this bound so that every block and
/// fixed-point vertex coordinate derived from them fits in an `i64`
/// with room to spare.
pub const CHUNK_POS_LIMIT: i64 = 1_000_000_000_000;

/// Absolute position of a block in world space.
#[derive(Copy, Clone, PartialEq, Eq, Structural, Debug)]
pub struct BlockCoord {
    pub x: i64,
    pub y: i64,
    pub z: i64,
}

/// Position of a chunk in the grid of chunks. Chunk `c` owns the blocks
/// whose coordinates lie in `[16 * c, 16 * c + 16)` on each axis.
#[derive(Copy, Clone, PartialEq, Eq, Structural, Debug)]
pub struct ChunkCoord {
    pub x: i64,
    pub y: i64,
    pub z: i64,
}

/// True when the block at world position `(x, y, z)` lies inside chunk `c`.
pub open spec fn chunk_contains(c: ChunkCoord, x: int, y: int, z: int) -> bool {
    &&& 16 * c.x <= x < 16 * c.x + 16
    &&& 16 * c.y <= y < 16 * c.y + 16
    &&& 16 * c.z <= z < 16 * c.z + 16
}

/// True when each coordinate of `c` is within `CHUNK_POS_LIMIT`.
pub open spec fn chunk_pos_in_range(c: ChunkCoord) -> bool {
    &&& -CHUNK_POS_LIMIT <= c.x <= CHUNK_POS_LIMIT
    &&& -CHUNK_POS_LIMIT <= c.y <= CHUNK_POS_LIMIT
    &&& -CHUNK_POS_LIMIT <= c.z <= CHUNK_POS_LIMIT
}

/// Largest multiple of 16 at or below `v`, divided by 16.
fn floor_div_16(v: i64) -> (q: i64)
    ensures
        16 * q <= v < 16 * q + 16,
{
    if v >= 0 {
        let q: u64 = (v as u64) / 16;
        proof {
            assert(16 * ((v as int) / 16) <= v < 16 * ((v as int) / 16) + 16) by (nonlinear_arith)
                requires v >= 0;
        }
        q as i64
    } else {
        let n: u64 = (-(v + 1)) as u64;
        let q: u64 = n / 16;
        proof {
            assert(16 * ((n as int) / 16) <= n < 16 * ((n as int) / 16) + 16) by (nonlinear_arith);
        }
        -(q as i64) - 1
    }
}

impl BlockCoord {
    pub fn new(x: i64, y: i64, z: i64) -> (r: BlockCoord)
        ensures
            r == (BlockCoord { x, y, z }),
    {
        BlockCoord { x, y, z }
    }

    pub fn set(&mut self, x: i64, y: i64, z: i64)
        ensures
            *final(self) == (BlockCoord { x, y, z }),
    {
        self.x = x;
        self.y = y;
        self.z = z;
    }

    /// The position `n` blocks along the positive x axis.
    pub fn right(&self, n: i64) -> (r: BlockCoord)
        requires
            i64::MIN <= self.x + n <= i64::MAX,
        ensures
            r == (BlockCoord { x: (self.x + n) as i64, y: self.y, z: self.z }),
    {
        BlockCoord { x: self.x + n, y: self.y, z: self.z }
    }

    /// The position `n` blocks along the negative x axis.
    pub fn left(&self, n: i64) -> (r: BlockCoord)
        requires
            i64::MIN <= self.x - n <= i64::MAX,
        ensures
            r == (BlockCoord { x: (self.x - n) as i64, y: self.y, z: self.z }),
    {
        BlockCoord { x: self.x - n, y: self.y, z: self.z }
    }

    /// The position `n` blocks along the positive y axis.
    pub fn up(&self, n: i64) -> (r: BlockCoord)
        requires
            i64::MIN <= self.y + n <= i64::MAX,
        ensures
            r == (BlockCoord { x: self.x, y: (self.y + n) as i64, z: self.z }),
    {
        BlockCoord { x: self.x, y: self.y + n, z: self.z }
    }

    /// The position `n` blocks along the negative y axis.
    pub fn down(&self, n: i64) -> (r: BlockCoord)
        requires
            i64::MIN <= self.y - n <= i64::MAX,
        ensures
            r == (BlockCoord { x: self.x, y: (self.y - n) as i64, z: self.z }),
    {
        BlockCoord { x: self.x, y: self.y - n, z: self.z }
    }

    /// The position `n` blocks along the positive z axis.
    pub fn backward(&self, n: i64) -> (r: BlockCoord)
        requires
            i64::MIN <= self.z + n <= i64::MAX,
        ensures
            r == (BlockCoord { x: self.x, y: self.y, z: (self.z + n) as i64 }),
    {
        BlockCoord { x: self.x, y: self.y, z: self.z + n }
    }

    /// The position `n` blocks along the negative z axis.
    pub fn forward(&self, n: i64) -> (r: BlockCoord)
        requires
            i64::MIN <= self.z - n <= i64::MAX,
        ensures
            r == (BlockCoord { x: self.x, y: self.y, z: (self.z - n) as i64 }),
    {
        BlockCoord { x: self.x, y: self.y, z: self.z - n }
    }
}

impl ChunkCoord {
    pub fn new(x: i64, y: i64, z: i64) -> (r: ChunkCoord)
        ensures
            r == (ChunkCoord { x, y, z }),
    {
        ChunkCoord { x, y, z }
    }

    /// The coordinate of the chunk that owns block position `pos`.
    ///
    /// `chunk_contains` pins the result down: any two chunk coordinates
    /// containing the same block position are equal.
    pub fn new_from_block(pos: &BlockCoord) -> (c: ChunkCoord)
        ensures
            chunk_contains(c, pos.x as int, pos.y as int, pos.z as int),
    {
        ChunkCoord {
            x: floor_div_16(pos.x),
            y: floor_div_16(pos.y),
            z: floor_div_16(pos.z),
        }
    }
}

} // verus!
