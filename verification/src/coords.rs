//! Chunk and world-block coordinates.
//!
//! Chunks tile world space: the chunk at coordinate `c` owns the half-open
//! world-block range `[c * CHUNK_SIZE, (c + 1) * CHUNK_SIZE)` on each axis.

use vstd::prelude::*;

verus! {

/// Edge length of a cubic chunk, in blocks.
pub const CHUNK_SIZE: usize = 16;

/// Largest valid cell index within a chunk, per axis.
pub const GRID_MAX: usize = 15;

/// Bound on chunk coordinates the world will hold resident or queued.
pub const COORD_LIMIT: i32 = 0x400_0000;

/// Bound on observer world-block positions accepted by distance tests.
pub const POS_LIMIT: i64 = 0x1000_0000;

/// A chunk coordinate; one unit is one chunk width of world space.
#[derive(Clone, Copy, PartialEq, Eq, Structural, Debug)]
pub struct ChunkCoord {
    pub x: i32,
    pub y: i32,
    pub z: i32,
}

/// A world position measured in blocks.
#[derive(Clone, Copy, PartialEq, Eq, Structural, Debug)]
pub struct BlockPos {
    pub x: i64,
    pub y: i64,
    pub z: i64,
}

impl ChunkCoord {
    pub open spec fn wf(self) -> bool {
        &&& -COORD_LIMIT <= self.x <= COORD_LIMIT
        &&& -COORD_LIMIT <= self.y <= COORD_LIMIT
        &&& -COORD_LIMIT <= self.z <= COORD_LIMIT
    }

    /// One step looser than `wf`: admission accepts a coordinate one step
    /// beyond the world bound, since it can only be enqueued when its
    /// chunk center is in range of the observer, which pins it well
    /// within the bound.
    pub open spec fn step_wf(self) -> bool {
        &&& -COORD_LIMIT - 1 <= self.x <= COORD_LIMIT + 1
        &&& -COORD_LIMIT - 1 <= self.y <= COORD_LIMIT + 1
        &&& -COORD_LIMIT - 1 <= self.z <= COORD_LIMIT + 1
    }

    pub fn new(x: i32, y: i32, z: i32) -> (c: ChunkCoord)
        ensures
            c == (ChunkCoord { x, y, z }),
    {
        ChunkCoord { x, y, z }
    }
}

impl BlockPos {
    pub open spec fn wf(self) -> bool {
        &&& -POS_LIMIT <= self.x <= POS_LIMIT
        &&& -POS_LIMIT <= self.y <= POS_LIMIT
        &&& -POS_LIMIT <= self.z <= POS_LIMIT
    }

    pub fn new(x: i64, y: i64, z: i64) -> (p: BlockPos)
        ensures
            p == (BlockPos { x, y, z }),
    {
        BlockPos { x, y, z }
    }
}

/// Whether world-block position `p` lies in the range owned by chunk `c`,
/// on every axis.
pub open spec fn chunk_owns(c: ChunkCoord, p: BlockPos) -> bool {
    &&& 16 * c.x <= p.x < 16 * c.x + 16
    &&& 16 * c.y <= p.y < 16 * c.y + 16
    &&& 16 * c.z <= p.z < 16 * c.z + 16
}

/// The chunk coordinate owning a world-block value, per axis: the floor
/// of `v / 16`.
pub open spec fn owner_axis(v: int) -> int {
    v / 16
}

/// The floor quotient and the remainder characterize each other for a
/// positive divisor: the chunk edge length here.
proof fn lemma_div16_range(v: int)
    ensures
        16 * (v / 16) <= v < 16 * (v / 16) + 16,
{
    vstd::arithmetic::div_mod::lemma_fundamental_div_mod(v, 16);
    vstd::arithmetic::div_mod::lemma_mod_bound(v, 16);
}

/// Floor division of a world-block coordinate by the chunk edge length.
pub fn floor_div_chunk(v: i64) -> (q: i64)
    requires
        -POS_LIMIT <= v <= POS_LIMIT,
    ensures
        16 * q <= v < 16 * q + 16,
        q == owner_axis(v as int),
{
    let q: i64 = if v >= 0 {
        ((v as u64) / 16) as i64
    } else {
        let m = (-v) as u64;
        -(((m + 15) / 16) as i64)
    };
    proof {
        if v >= 0 {
            lemma_div16_range(v as int);
            assert(q == v as int / 16);
        } else {
            let m = (-v) as int;
            lemma_div16_range(m + 15);
            assert(16 * ((m + 15) / 16) - 16 < m <= 16 * ((m + 15) / 16));
        }
        assert(16 * q <= v < 16 * q + 16);
        lemma_owner_axis_unique(v as int, q as int);
    }
    q
}

/// On each axis the owning chunk is the one whose range holds the value:
/// ownership characterizes floor division by the chunk edge length.
pub proof fn lemma_owner_axis_unique(v: int, q: int)
    requires
        16 * q <= v < 16 * q + 16,
    ensures
        q == owner_axis(v),
{
    vstd::arithmetic::div_mod::lemma_fundamental_div_mod_converse(v, 16, q, v - 16 * q);
}

/// Chunks tile world space with no gaps: every world-block position within
/// the observer bound has an owning chunk, obtained by floor division on
/// each axis.
pub proof fn lemma_tiling_covers(p: BlockPos)
    requires
        p.wf(),
    ensures
        chunk_owns(
            ChunkCoord {
                x: owner_axis(p.x as int) as i32,
                y: owner_axis(p.y as int) as i32,
                z: owner_axis(p.z as int) as i32,
            },
            p,
        ),
{
    lemma_div16_range(p.x as int);
    lemma_div16_range(p.y as int);
    lemma_div16_range(p.z as int);
}

/// Chunks tile world space with no overlap: two chunks owning the same
/// world-block position are equal.
pub proof fn lemma_tiling_disjoint(c: ChunkCoord, d: ChunkCoord, p: BlockPos)
    requires
        chunk_owns(c, p),
        chunk_owns(d, p),
    ensures
        c == d,
{
}

/// Squared Euclidean distance, in blocks, between the center of chunk `c`
/// and observer position `p`. A chunk center sits half a chunk width past
/// the chunk's world origin on each axis.
pub open spec fn center_dist2(c: ChunkCoord, p: BlockPos) -> int {
    let dx = 16 * c.x + 8 - p.x;
    let dy = 16 * c.y + 8 - p.y;
    let dz = 16 * c.z + 8 - p.z;
    dx * dx + dy * dy + dz * dz
}

/// Computes the squared distance between the center of chunk `c` and
/// observer position `p`, in blocks.
pub fn center_dist2_exec(c: ChunkCoord, p: BlockPos) -> (d: i128)
    requires
        p.wf(),
    ensures
        d == center_dist2(c, p),
{
    let dx: i128 = (16 * (c.x as i64) + 8 - p.x) as i128;
    let dy: i128 = (16 * (c.y as i64) + 8 - p.y) as i128;
    let dz: i128 = (16 * (c.z as i64) + 8 - p.z) as i128;
    proof {
        assert(-0x40_0000_0000 <= dx <= 0x40_0000_0000);
        assert(-0x40_0000_0000 <= dy <= 0x40_0000_0000);
        assert(-0x40_0000_0000 <= dz <= 0x40_0000_0000);
        assert(dx * dx + dy * dy + dz * dz <= 3 * 0x1000_0000_0000_0000_0000)
            by (nonlinear_arith)
            requires
                -0x40_0000_0000 <= dx <= 0x40_0000_0000,
                -0x40_0000_0000 <= dy <= 0x40_0000_0000,
                -0x40_0000_0000 <= dz <= 0x40_0000_0000,
        ;
        assert(dx * dx >= 0 && dy * dy >= 0 && dz * dz >= 0) by (nonlinear_arith);
    }
    dx * dx + dy * dy + dz * dz
}

} // verus!
