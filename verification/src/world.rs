//! The world: the map of resident chunks, the pending-generation queue,
//! and the per-update streaming pipeline of admission, generation,
//! neighbor dirtying, meshing and eviction.
//!
//! Per chunk coordinate the state machine is: unloaded, queued, resident
//! (clean or needing a remesh), and back to unloaded on eviction. A
//! coordinate is never queued twice — admission checks both the resident
//! map and the queue — and never becomes resident without passing through
//! the queue and generation.

use vstd::prelude::*;

use crate::block::BlockList;
use crate::chunk::Chunk;
use crate::coords::{center_dist2, center_dist2_exec, BlockPos, ChunkCoord};
use crate::mesh::{ids_ok, mesh_indices, mesh_verts, quad_count, MeshData, Neighbors, NeighborsView};
use crate::terrain::{FieldSlab, Materials};

verus! {

/// Chunks evicted beyond the render radius plus this margin; the margin
/// prevents thrashing when the observer oscillates near the boundary.
pub const EVICT_MARGIN: u32 = 2;

/// How many queued coordinates one update generates at most, bounding the
/// work done per frame.
pub const CHUNKS_GEN_PER_UPDATE: usize = 2;

/// Whether two chunk coordinates are face-adjacent (6-connected).
pub open spec fn face_adjacent(a: ChunkCoord, b: ChunkCoord) -> bool {
    ||| (a.y == b.y && a.z == b.z && (a.x - b.x == 1 || b.x - a.x == 1))
    ||| (a.x == b.x && a.z == b.z && (a.y - b.y == 1 || b.y - a.y == 1))
    ||| (a.x == b.x && a.y == b.y && (a.z - b.z == 1 || b.z - a.z == 1))
}

/// Whether the entries of `s` carry pairwise distinct chunk coordinates.
pub open spec fn keys_unique(s: Seq<(ChunkCoord, Chunk)>) -> bool {
    forall|i: int, j: int|
        0 <= i < s.len() && 0 <= j < s.len() && i != j ==> (#[trigger] s[i]).0 != (#[trigger] s[j]).0
}

/// Whether some entry of `s` carries coordinate `c`.
pub open spec fn has_key(s: Seq<(ChunkCoord, Chunk)>, c: ChunkCoord) -> bool {
    exists|i: int| 0 <= i < s.len() && (#[trigger] s[i]).0 == c
}

/// The index of the entry carrying coordinate `c`.
pub open spec fn key_index(s: Seq<(ChunkCoord, Chunk)>, c: ChunkCoord) -> int {
    choose|i: int| 0 <= i < s.len() && (#[trigger] s[i]).0 == c
}

/// With pairwise distinct coordinates, the entry holding a coordinate is
/// unique, so `key_index` names exactly the witness.
pub proof fn lemma_key_index(s: Seq<(ChunkCoord, Chunk)>, c: ChunkCoord, i: int)
    requires
        keys_unique(s),
        0 <= i < s.len(),
        s[i].0 == c,
    ensures
        has_key(s, c),
        key_index(s, c) == i,
{
    assert(has_key(s, c));
    let j = key_index(s, c);
    if j != i {
        assert(s[i].0 != s[j].0);
    }
}

/// A well-formed queue stays well-formed when the queue is unchanged and
/// residency changes only for coordinates that were not queued.
proof fn lemma_queue_wf_transfer(w0: World, w1: World)
    requires
        w0.queue_wf(),
        w1.queue_seq() == w0.queue_seq(),
        forall|c: ChunkCoord|
            #[trigger] w1.resident(c) ==> w0.resident(c) || !w0.queued(c),
    ensures
        w1.queue_wf(),
{
    assert forall|i: int, j: int|
        0 <= i < w1.queue_seq().len() && 0 <= j < w1.queue_seq().len() && i != j implies #[trigger] w1.queue_seq()[i]
        != #[trigger] w1.queue_seq()[j] by {
        assert(w1.queue_seq()[i] == w0.queue_seq()[i]);
        assert(w1.queue_seq()[j] == w0.queue_seq()[j]);
    }
    assert forall|i: int| 0 <= i < w1.queue_seq().len() implies (#[trigger] w1.queue_seq()[i]).wf()
        && !w1.resident(w1.queue_seq()[i]) by {
        assert(w1.queue_seq()[i] == w0.queue_seq()[i]);
        assert(w0.queue_seq()[i].wf() && !w0.resident(w0.queue_seq()[i]));
        if w1.resident(w1.queue_seq()[i]) {
            assert(w0.queued(w0.queue_seq()[i]));
        }
    }
}

/// The world: every resident chunk, keyed by coordinate, plus the pending
/// queue and the immutable generation inputs.
pub struct World {
    chunks: Vec<(ChunkCoord, Chunk)>,
    queue: Vec<ChunkCoord>,
    catalog: BlockList,
    materials: Materials,
    seed: u32,
    render_distance: u32,
}

impl World {
    pub closed spec fn chunks_seq(self) -> Seq<(ChunkCoord, Chunk)> {
        self.chunks@
    }

    pub closed spec fn queue_seq(self) -> Seq<ChunkCoord> {
        self.queue@
    }

    pub closed spec fn spec_catalog(self) -> BlockList {
        self.catalog
    }

    pub closed spec fn spec_materials(self) -> Materials {
        self.materials
    }

    pub closed spec fn spec_seed(self) -> u32 {
        self.seed
    }

    pub closed spec fn spec_render_distance(self) -> u32 {
        self.render_distance
    }

    /// Whether the chunk at coordinate `c` is resident.
    pub open spec fn resident(self, c: ChunkCoord) -> bool {
        has_key(self.chunks_seq(), c)
    }

    /// The resident chunk at coordinate `c`.
    pub open spec fn chunk_at(self, c: ChunkCoord) -> Chunk {
        self.chunks_seq()[key_index(self.chunks_seq(), c)].1
    }

    /// Whether coordinate `c` awaits generation.
    pub open spec fn queued(self, c: ChunkCoord) -> bool {
        self.queue_seq().contains(c)
    }

    /// Resident chunks carry distinct coordinates, each chunk is
    /// well-formed, sits under its own coordinate, and holds only catalog
    /// ids.
    pub open spec fn chunks_wf(self) -> bool {
        &&& keys_unique(self.chunks_seq())
        &&& forall|i: int|
            0 <= i < self.chunks_seq().len() ==> {
                let e = #[trigger] self.chunks_seq()[i];
                &&& e.1.wf()
                &&& e.1.spec_coordinate() == e.0
                &&& ids_ok(e.1.spec_grid()@, self.spec_catalog()@.len() as int)
            }
    }

    /// Queued coordinates are distinct, in bounds, and not resident.
    pub open spec fn queue_wf(self) -> bool {
        &&& forall|i: int, j: int|
            0 <= i < self.queue_seq().len() && 0 <= j < self.queue_seq().len() && i != j
                ==> #[trigger] self.queue_seq()[i] != #[trigger] self.queue_seq()[j]
        &&& forall|i: int|
            0 <= i < self.queue_seq().len() ==> (#[trigger] self.queue_seq()[i]).wf()
                && !self.resident(self.queue_seq()[i])
    }

    pub open spec fn config_wf(self) -> bool {
        &&& self.spec_catalog().wf()
        &&& self.spec_materials().wf(self.spec_catalog()@.len() as int)
        &&& self.spec_render_distance() <= 100000
    }

    pub open spec fn wf(self) -> bool {
        &&& self.chunks_wf()
        &&& self.queue_wf()
        &&& self.config_wf()
    }

    /// Squared render radius, in blocks: coordinates whose chunk center
    /// lies within it are admitted to the queue.
    pub open spec fn render_r2(self) -> int {
        let r = 16 * self.spec_render_distance();
        r * r
    }

    /// Squared eviction radius, in blocks: resident chunks whose center
    /// lies beyond it are dropped.
    pub open spec fn evict_r2(self) -> int {
        let r = 16 * (self.spec_render_distance() + EVICT_MARGIN);
        r * r
    }

    pub open spec fn in_render_range(self, c: ChunkCoord, p: BlockPos) -> bool {
        center_dist2(c, p) <= self.render_r2()
    }

    pub open spec fn in_evict_range(self, c: ChunkCoord, p: BlockPos) -> bool {
        center_dist2(c, p) <= self.evict_r2()
    }

    /// Whether admission of `c` is settled for observer position `p`: the
    /// chunk is resident, or queued, or its center lies outside the render
    /// radius.
    pub open spec fn admitted(self, c: ChunkCoord, p: BlockPos) -> bool {
        self.resident(c) || self.queued(c) || !self.in_render_range(c, p)
    }

    /// An empty world around the given seed, render radius and catalog.
    pub fn new(seed: u32, render_distance: u32, catalog: BlockList, materials: Materials) -> (w:
        World)
        requires
            catalog.wf(),
            materials.wf(catalog@.len() as int),
            render_distance <= 100000,
        ensures
            w.wf(),
            w.chunks_seq().len() == 0,
            w.queue_seq().len() == 0,
            w.spec_seed() == seed,
            w.spec_render_distance() == render_distance,
            w.spec_catalog() == catalog,
            w.spec_materials() == materials,
    {
        World {
            chunks: Vec::new(),
            queue: Vec::new(),
            catalog,
            materials,
            seed,
            render_distance,
        }
    }

    pub fn seed(&self) -> (s: u32)
        ensures
            s == self.spec_seed(),
    {
        self.seed
    }

    pub fn render_distance(&self) -> (r: u32)
        ensures
            r == self.spec_render_distance(),
    {
        self.render_distance
    }

    pub fn materials(&self) -> (m: Materials)
        ensures
            m == self.spec_materials(),
    {
        self.materials
    }

    /// The index of the resident chunk at `at`, if any.
    fn find_index(&self, at: ChunkCoord) -> (r: Option<usize>)
        requires
            self.wf(),
        ensures
            match r {
                Some(i) => self.resident(at) && i < self.chunks_seq().len()
                    && self.chunks_seq()[i as int].0 == at && key_index(self.chunks_seq(), at)
                    == i,
                None => !self.resident(at),
            },
    {
        let mut i: usize = 0;
        while i < self.chunks.len()
            invariant
                self.wf(),
                i <= self.chunks_seq().len(),
                forall|j: int| 0 <= j < i ==> (#[trigger] self.chunks_seq()[j]).0 != at,
            decreases self.chunks_seq().len() - i,
        {
            if self.chunks[i].0 == at {
                proof {
                    lemma_key_index(self.chunks_seq(), at, i as int);
                }
                return Some(i);
            }
            i = i + 1;
        }
        None
    }

    /// Whether coordinate `at` is already queued.
    fn queue_contains(&self, at: ChunkCoord) -> (r: bool)
        ensures
            r == self.queued(at),
    {
        let mut i: usize = 0;
        while i < self.queue.len()
            invariant
                i <= self.queue_seq().len(),
                forall|j: int| 0 <= j < i ==> self.queue_seq()[j] != at,
            decreases self.queue_seq().len() - i,
        {
            if self.queue[i] == at {
                return true;
            }
            i = i + 1;
        }
        false
    }

    /// The resident chunk at `at`, if any.
    pub fn chunk(&self, at: ChunkCoord) -> (r: Option<&Chunk>)
        requires
            self.wf(),
        ensures
            match r {
                Some(c) => self.resident(at) && *c == self.chunk_at(at),
                None => !self.resident(at),
            },
    {
        match self.find_index(at) {
            Some(i) => Some(&self.chunks[i].1),
            None => None,
        }
    }

    /// How one admission call steps the world: the resident map never
    /// changes, and the coordinate is appended to the queue exactly when
    /// it is neither resident nor queued and its chunk center lies within
    /// the render radius of the observer. The call reports whether the
    /// coordinate is now resident or queued.
    pub open spec fn admits(pre: World, post: World, at: ChunkCoord, p: BlockPos, r: bool) -> bool {
        &&& post.chunks_seq() == pre.chunks_seq()
        &&& post.spec_render_distance() == pre.spec_render_distance()
        &&& r == (pre.resident(at) || pre.queued(at) || pre.in_render_range(at, p))
        &&& post.queue_seq() == if !pre.resident(at) && !pre.queued(at) && pre.in_render_range(
            at,
            p,
        ) {
            pre.queue_seq().push(at)
        } else {
            pre.queue_seq()
        }
    }

    /// Attempts to admit coordinate `at` for generation: reports true when
    /// `at` is already resident or queued, or was enqueued because its
    /// chunk center lies within the render radius of observer position
    /// `p`; reports false when `at` is out of range.
    pub fn generate_chunk(&mut self, at: ChunkCoord, p: BlockPos) -> (r: bool)
        requires
            old(self).wf(),
            at.step_wf(),
            p.wf(),
        ensures
            final(self).wf(),
            World::admits(*old(self), *final(self), at, p, r),
            final(self).spec_catalog() == old(self).spec_catalog(),
            final(self).spec_materials() == old(self).spec_materials(),
            final(self).spec_seed() == old(self).spec_seed(),
    {
        match self.find_index(at) {
            Some(_) => true,
            None => {
                if self.queue_contains(at) {
                    return true;
                }
                let d2: i128 = center_dist2_exec(at, p);
                let rr: i64 = 16 * (self.render_distance as i64);
                proof {
                    assert(0 <= rr <= 1600000);
                    assert(rr * rr <= 0x10_0000_0000_0000) by (nonlinear_arith)
                        requires
                            0 <= rr <= 1600000,
                    ;
                }
                let r2: i128 = (rr as i128) * (rr as i128);
                if d2 <= r2 {
                    proof {
                        let dx = 16 * (at.x as int) + 8 - p.x;
                        let dy = 16 * (at.y as int) + 8 - p.y;
                        let dz = 16 * (at.z as int) + 8 - p.z;
                        assert(dx * dx <= 1600000 * 1600000 && dy * dy <= 1600000 * 1600000
                            && dz * dz <= 1600000 * 1600000) by (nonlinear_arith)
                            requires
                                dx * dx + dy * dy + dz * dz <= rr * rr,
                                0 <= rr <= 1600000,
                        ;
                        assert(-1600000 <= dx <= 1600000) by (nonlinear_arith)
                            requires
                                dx * dx <= 1600000 * 1600000,
                        ;
                        assert(-1600000 <= dy <= 1600000) by (nonlinear_arith)
                            requires
                                dy * dy <= 1600000 * 1600000,
                        ;
                        assert(-1600000 <= dz <= 1600000) by (nonlinear_arith)
                            requires
                                dz * dz <= 1600000 * 1600000,
                        ;
                        assert(at.wf());
                    }
                    self.queue.push(at);
                    proof {
                        assert(final(self).queue_seq()[final(self).queue_seq().len() - 1] == at);
                    }
                    true
                } else {
                    false
                }
            },
        }
    }
}

impl World {
    /// Dequeues up to `max` coordinates from the front of the pending
    /// queue, first in, first out.
    pub fn next_batch(&mut self, max: usize) -> (batch: Vec<ChunkCoord>)
        requires
            old(self).wf(),
        ensures
            final(self).wf(),
            final(self).chunks_seq() == old(self).chunks_seq(),
            final(self).spec_catalog() == old(self).spec_catalog(),
            final(self).spec_materials() == old(self).spec_materials(),
            final(self).spec_seed() == old(self).spec_seed(),
            final(self).spec_render_distance() == old(self).spec_render_distance(),
            batch@.len() == if max <= old(self).queue_seq().len() {
                max as int
            } else {
                old(self).queue_seq().len() as int
            },
            batch@ == old(self).queue_seq().take(batch@.len() as int),
            final(self).queue_seq() == old(self).queue_seq().skip(batch@.len() as int),
            forall|i: int|
                0 <= i < batch@.len() ==> (#[trigger] batch@[i]).wf() && !final(self).resident(
                    batch@[i],
                ) && !final(self).queued(batch@[i]),
            forall|i: int, j: int|
                0 <= i < batch@.len() && 0 <= j < batch@.len() && i != j ==> batch@[i] != batch@[j],
    {
        let ghost old_q = self.queue@;
        let count: usize = if max < self.queue.len() {
            max
        } else {
            self.queue.len()
        };
        let mut batch: Vec<ChunkCoord> = Vec::new();
        let mut i: usize = 0;
        while i < count
            invariant
                i <= count,
                count <= old_q.len(),
                old_q == old(self).queue_seq(),
                old(self).wf(),
                self.queue@ == old_q.skip(i as int),
                batch@ == old_q.take(i as int),
                self.chunks_seq() == old(self).chunks_seq(),
                self.spec_catalog() == old(self).spec_catalog(),
                self.spec_materials() == old(self).spec_materials(),
                self.spec_seed() == old(self).spec_seed(),
                self.spec_render_distance() == old(self).spec_render_distance(),
            decreases count - i,
        {
            let c: ChunkCoord = self.queue.remove(0);
            batch.push(c);
            proof {
                assert(self.queue@ =~= old_q.skip(i as int + 1));
                assert(batch@ =~= old_q.take(i as int + 1));
            }
            i = i + 1;
        }
        proof {
            assert forall|k: int| 0 <= k < batch@.len() implies (#[trigger] batch@[k]).wf()
                && !final(self).resident(batch@[k]) && !final(self).queued(batch@[k]) by {
                assert(batch@[k] == old_q[k]);
                assert(old_q[k].wf() && !old(self).resident(old_q[k]));
                if final(self).queued(batch@[k]) {
                    let j = choose|j: int|
                        0 <= j < final(self).queue_seq().len() && final(self).queue_seq()[j]
                            == batch@[k];
                    assert(old_q[count + j] == old_q[k]);
                }
            }
        }
        batch
    }

    /// Marks the chunk at `c` dirty when it is resident; everything else
    /// is untouched.
    fn mark_dirty_if_resident(&mut self, c: ChunkCoord)
        requires
            old(self).wf(),
        ensures
            final(self).wf(),
            final(self).queue_seq() == old(self).queue_seq(),
            final(self).spec_catalog() == old(self).spec_catalog(),
            final(self).spec_materials() == old(self).spec_materials(),
            final(self).spec_seed() == old(self).spec_seed(),
            final(self).spec_render_distance() == old(self).spec_render_distance(),
            forall|d: ChunkCoord| final(self).resident(d) == old(self).resident(d),
            forall|d: ChunkCoord|
                old(self).resident(d) && d != c ==> final(self).chunk_at(d) == old(self).chunk_at(
                    d,
                ),
            old(self).resident(c) ==> {
                let oc = old(self).chunk_at(c);
                let nc = final(self).chunk_at(c);
                &&& nc.spec_coordinate() == oc.spec_coordinate()
                &&& nc.spec_grid() == oc.spec_grid()
                &&& nc.spec_mesh() == oc.spec_mesh()
                &&& nc.spec_active_neighbors() == oc.spec_active_neighbors()
                &&& nc.spec_needs_remesh()
            },
            !old(self).resident(c) ==> final(self).chunks_seq() == old(self).chunks_seq(),
    {
        let r = self.find_index(c);
        match r {
            None => {},
            Some(i) => {
                let e: &mut (ChunkCoord, Chunk) = &mut self.chunks[i];
                e.1.mark_dirty();
                proof {
                    let os = old(self).chunks_seq();
                    let ns = final(self).chunks_seq();
                    assert(ns == os.update(i as int, ns[i as int]));
                    assert(ns[i as int].0 == c);
                    assert(keys_unique(ns));
                    lemma_key_index(ns, c, i as int);
                    assert forall|d: ChunkCoord| has_key(ns, d) == has_key(os, d) by {
                        if has_key(os, d) {
                            let j = key_index(os, d);
                            assert(ns[j].0 == d);
                        }
                        if has_key(ns, d) {
                            let j = key_index(ns, d);
                            assert(os[j].0 == d);
                        }
                    }
                    assert forall|d: ChunkCoord| has_key(os, d) && d != c implies
                        final(self).chunk_at(d) == old(self).chunk_at(d) by {
                        let j = key_index(os, d);
                        assert(os[j].0 == d);
                        assert(j != i);
                        assert(ns[j] == os[j]);
                        lemma_key_index(ns, d, j);
                    }
                    lemma_queue_wf_transfer(*old(self), *self);
                }
            },
        }
    }

    /// How inserting a freshly generated chunk steps the world: the chunk
    /// generated from the field slab becomes resident at `at`, born dirty
    /// and meshless, and every already-resident face-adjacent neighbor is
    /// marked dirty; everything else is untouched.
    pub open spec fn inserts(pre: World, post: World, at: ChunkCoord, slab: Seq<u8>) -> bool {
        &&& post.queue_seq() == pre.queue_seq()
        &&& post.spec_materials() == pre.spec_materials()
        &&& post.spec_render_distance() == pre.spec_render_distance()
        &&& forall|c: ChunkCoord| post.resident(c) == (pre.resident(c) || c == at)
        &&& post.chunk_at(at).spec_coordinate() == at
        &&& post.chunk_at(at).spec_grid()@ == crate::terrain::generated_grid(
            slab,
            pre.spec_materials(),
        )
        &&& post.chunk_at(at).spec_needs_remesh()
        &&& post.chunk_at(at).spec_mesh() is None
        &&& forall|c: ChunkCoord|
            pre.resident(c) && c != at ==> {
                let oc = pre.chunk_at(c);
                let nc = post.chunk_at(c);
                &&& nc.spec_coordinate() == oc.spec_coordinate()
                &&& nc.spec_grid() == oc.spec_grid()
                &&& nc.spec_mesh() == oc.spec_mesh()
                &&& nc.spec_needs_remesh() == (oc.spec_needs_remesh() || face_adjacent(c, at))
            }
    }

    /// Generates the chunk at `at` from a sampled field slab and installs
    /// it: the new chunk is born dirty, and its already-resident
    /// face-adjacent neighbors are marked dirty, since the new chunk can
    /// open or close faces on their boundaries.
    #[verifier::rlimit(60)]
    pub fn insert_generated(&mut self, at: ChunkCoord, slab: &FieldSlab)
        requires
            old(self).wf(),
            at.wf(),
            slab.wf(),
            !old(self).resident(at),
            !old(self).queued(at),
        ensures
            final(self).wf(),
            World::inserts(*old(self), *final(self), at, slab@),
            final(self).spec_catalog() == old(self).spec_catalog(),
            final(self).spec_seed() == old(self).spec_seed(),
    {
        let grid = crate::terrain::generate(slab, self.materials);
        proof {
            let ncat = self.spec_catalog()@.len() as int;
            assert forall|i: int| 0 <= i < grid@.len() implies #[trigger] grid@[i] <= ncat by {
                assert(grid@[i] == crate::terrain::generated_grid(slab@, self.spec_materials())[i]);
            }
        }
        let chunk = Chunk::new(at, grid);
        self.chunks.push((at, chunk));
        let ghost w1 = *self;
        proof {
            let os = old(self).chunks_seq();
            let ns = w1.chunks_seq();
            assert(ns == os.push((at, chunk)));
            assert(ns[ns.len() - 1].0 == at);
            assert(keys_unique(ns));
            lemma_key_index(ns, at, ns.len() - 1);
            assert forall|c: ChunkCoord| has_key(ns, c) == (has_key(os, c) || c == at) by {
                if has_key(os, c) {
                    let j = key_index(os, c);
                    assert(ns[j].0 == c);
                }
                if has_key(ns, c) && c != at {
                    let j = key_index(ns, c);
                    assert(j < os.len() && os[j].0 == c);
                }
            }
            assert forall|c: ChunkCoord| has_key(os, c) && c != at implies w1.chunk_at(c) == old(
                self,
            ).chunk_at(c) by {
                let j = key_index(os, c);
                assert(os[j].0 == c);
                assert(ns[j] == os[j]);
                lemma_key_index(ns, c, j);
            }
            lemma_queue_wf_transfer(*old(self), w1);
            assert(w1.wf());
        }
        let n1 = ChunkCoord { x: at.x + 1, y: at.y, z: at.z };
        let n2 = ChunkCoord { x: at.x - 1, y: at.y, z: at.z };
        let n3 = ChunkCoord { x: at.x, y: at.y + 1, z: at.z };
        let n4 = ChunkCoord { x: at.x, y: at.y - 1, z: at.z };
        let n5 = ChunkCoord { x: at.x, y: at.y, z: at.z + 1 };
        let n6 = ChunkCoord { x: at.x, y: at.y, z: at.z - 1 };
        self.mark_dirty_if_resident(n1);
        let ghost w2 = *self;
        self.mark_dirty_if_resident(n2);
        let ghost w3 = *self;
        self.mark_dirty_if_resident(n3);
        let ghost w4 = *self;
        self.mark_dirty_if_resident(n4);
        let ghost w5 = *self;
        self.mark_dirty_if_resident(n5);
        let ghost w6 = *self;
        self.mark_dirty_if_resident(n6);
        proof {
            assert(at != n1 && at != n2 && at != n3 && at != n4 && at != n5 && at != n6);
            assert forall|c: ChunkCoord|
                face_adjacent(c, at) <==> (c == n1 || c == n2 || c == n3 || c == n4 || c == n5
                    || c == n6) by {}
            assert(final(self).chunk_at(at) == w1.chunk_at(at));
            assert forall|c: ChunkCoord| old(self).resident(c) && c != at implies {
                let oc = old(self).chunk_at(c);
                let nc = final(self).chunk_at(c);
                &&& nc.spec_coordinate() == oc.spec_coordinate()
                &&& nc.spec_grid() == oc.spec_grid()
                &&& nc.spec_mesh() == oc.spec_mesh()
                &&& nc.spec_needs_remesh() == (oc.spec_needs_remesh() || face_adjacent(c, at))
            } by {
                assert(w1.chunk_at(c) == old(self).chunk_at(c));
                assert(w1.resident(c));
            }
        }
    }
}

/// The coordinate one step from `c` in the given direction.
pub open spec fn coord_offset(c: ChunkCoord, dx: int, dy: int, dz: int) -> ChunkCoord {
    ChunkCoord { x: (c.x + dx) as i32, y: (c.y + dy) as i32, z: (c.z + dz) as i32 }
}

impl World {
    /// The neighbor grids around `at` as the mesh builder sees them: the
    /// grid of each resident face-adjacent neighbor, absent otherwise.
    pub open spec fn neighbor_view(self, at: ChunkCoord) -> NeighborsView {
        NeighborsView {
            left: if self.resident(coord_offset(at, -1, 0, 0)) {
                Some(self.chunk_at(coord_offset(at, -1, 0, 0)).spec_grid()@)
            } else {
                None
            },
            right: if self.resident(coord_offset(at, 1, 0, 0)) {
                Some(self.chunk_at(coord_offset(at, 1, 0, 0)).spec_grid()@)
            } else {
                None
            },
            down: if self.resident(coord_offset(at, 0, -1, 0)) {
                Some(self.chunk_at(coord_offset(at, 0, -1, 0)).spec_grid()@)
            } else {
                None
            },
            up: if self.resident(coord_offset(at, 0, 1, 0)) {
                Some(self.chunk_at(coord_offset(at, 0, 1, 0)).spec_grid()@)
            } else {
                None
            },
            front: if self.resident(coord_offset(at, 0, 0, -1)) {
                Some(self.chunk_at(coord_offset(at, 0, 0, -1)).spec_grid()@)
            } else {
                None
            },
            back: if self.resident(coord_offset(at, 0, 0, 1)) {
                Some(self.chunk_at(coord_offset(at, 0, 0, 1)).spec_grid()@)
            } else {
                None
            },
        }
    }

    /// Rebuilds the mesh of the resident chunk at `at` from its grid and
    /// the grids of its currently resident neighbors, installs it, and
    /// clears the dirty flag; an empty mesh is recorded as absent. A
    /// non-resident coordinate is left alone.
    #[verifier::rlimit(60)]
    pub fn update_chunk_mesh(&mut self, at: ChunkCoord)
        requires
            old(self).wf(),
        ensures
            final(self).wf(),
            final(self).queue_seq() == old(self).queue_seq(),
            final(self).spec_catalog() == old(self).spec_catalog(),
            final(self).spec_materials() == old(self).spec_materials(),
            final(self).spec_seed() == old(self).spec_seed(),
            final(self).spec_render_distance() == old(self).spec_render_distance(),
            forall|d: ChunkCoord| final(self).resident(d) == old(self).resident(d),
            forall|d: ChunkCoord|
                old(self).resident(d) && d != at ==> final(self).chunk_at(d) == old(self).chunk_at(
                    d,
                ),
            !old(self).resident(at) ==> final(self).chunks_seq() == old(self).chunks_seq(),
            old(self).resident(at) ==> {
                let oc = old(self).chunk_at(at);
                let nc = final(self).chunk_at(at);
                let gv = oc.spec_grid()@;
                let nv = old(self).neighbor_view(at);
                &&& nc.spec_coordinate() == oc.spec_coordinate()
                &&& nc.spec_grid() == oc.spec_grid()
                &&& nc.spec_active_neighbors() == oc.spec_active_neighbors()
                &&& !nc.spec_needs_remesh()
                &&& match nc.spec_mesh() {
                    Some(m) => quad_count(gv, nv) > 0 && m.vertices@ == mesh_verts(
                        gv,
                        nv,
                        at,
                        old(self).spec_catalog()@,
                    ) && m.indices@ == mesh_indices(quad_count(gv, nv) as int),
                    None => quad_count(gv, nv) == 0,
                }
            },
    {
        let i: usize = match self.find_index(at) {
            None => {
                return ;
            },
            Some(i) => i,
        };
        proof {
            assert(self.chunks_seq()[i as int].1.spec_coordinate() == at);
            assert(at.wf());
        }
        let cl = ChunkCoord { x: at.x - 1, y: at.y, z: at.z };
        let cr = ChunkCoord { x: at.x + 1, y: at.y, z: at.z };
        let cd = ChunkCoord { x: at.x, y: at.y - 1, z: at.z };
        let cu = ChunkCoord { x: at.x, y: at.y + 1, z: at.z };
        let cf = ChunkCoord { x: at.x, y: at.y, z: at.z - 1 };
        let cb = ChunkCoord { x: at.x, y: at.y, z: at.z + 1 };
        let li = self.find_index(cl);
        let ri = self.find_index(cr);
        let di = self.find_index(cd);
        let ui = self.find_index(cu);
        let fi = self.find_index(cf);
        let bi = self.find_index(cb);
        let mesh: MeshData = {
            let neighbors = Neighbors {
                left: match li {
                    Some(j) => Some(self.chunks[j].1.grid()),
                    None => None,
                },
                right: match ri {
                    Some(j) => Some(self.chunks[j].1.grid()),
                    None => None,
                },
                down: match di {
                    Some(j) => Some(self.chunks[j].1.grid()),
                    None => None,
                },
                up: match ui {
                    Some(j) => Some(self.chunks[j].1.grid()),
                    None => None,
                },
                front: match fi {
                    Some(j) => Some(self.chunks[j].1.grid()),
                    None => None,
                },
                back: match bi {
                    Some(j) => Some(self.chunks[j].1.grid()),
                    None => None,
                },
            };
            proof {
                assert(cl == coord_offset(at, -1, 0, 0));
                assert(cr == coord_offset(at, 1, 0, 0));
                assert(cd == coord_offset(at, 0, -1, 0));
                assert(cu == coord_offset(at, 0, 1, 0));
                assert(cf == coord_offset(at, 0, 0, -1));
                assert(cb == coord_offset(at, 0, 0, 1));
                assert(neighbors@ == self.neighbor_view(at));
                assert(neighbors.wf());
            }
            crate::mesh::build(self.chunks[i].1.grid(), at, &neighbors, &self.catalog)
        };
        let m: Option<MeshData> = if mesh.vertices.len() == 0 {
            None
        } else {
            Some(mesh)
        };
        let ghost w0 = *self;
        let e: &mut (ChunkCoord, Chunk) = &mut self.chunks[i];
        e.1.install_mesh(m);
        proof {
            let os = w0.chunks_seq();
            let ns = final(self).chunks_seq();
            assert(ns == os.update(i as int, ns[i as int]));
            assert(ns[i as int].0 == at);
            assert(keys_unique(ns));
            lemma_key_index(ns, at, i as int);
            assert forall|d: ChunkCoord| has_key(ns, d) == has_key(os, d) by {
                if has_key(os, d) {
                    let j = key_index(os, d);
                    assert(ns[j].0 == d);
                }
                if has_key(ns, d) {
                    let j = key_index(ns, d);
                    assert(os[j].0 == d);
                }
            }
            assert forall|d: ChunkCoord| has_key(os, d) && d != at implies
                final(self).chunk_at(d) == w0.chunk_at(d) by {
                let j = key_index(os, d);
                assert(os[j].0 == d);
                assert(j != i);
                assert(ns[j] == os[j]);
                lemma_key_index(ns, d, j);
            }
            lemma_key_index(os, at, i as int);
            lemma_queue_wf_transfer(w0, *self);
        }
    }

    /// The coordinates of every resident chunk, in map order.
    pub fn resident_coords(&self) -> (r: Vec<ChunkCoord>)
        requires
            self.wf(),
        ensures
            r@.len() == self.chunks_seq().len(),
            forall|i: int| 0 <= i < r@.len() ==> #[trigger] r@[i] == self.chunks_seq()[i].0,
            forall|i: int| 0 <= i < r@.len() ==> self.resident(#[trigger] r@[i]),
            forall|c: ChunkCoord| self.resident(c) ==> r@.contains(c),
    {
        let mut r: Vec<ChunkCoord> = Vec::new();
        let mut i: usize = 0;
        while i < self.chunks.len()
            invariant
                self.wf(),
                i <= self.chunks_seq().len(),
                r@.len() == i,
                forall|j: int| 0 <= j < i ==> #[trigger] r@[j] == self.chunks_seq()[j].0,
            decreases self.chunks_seq().len() - i,
        {
            r.push(self.chunks[i].0);
            i = i + 1;
        }
        proof {
            assert forall|i: int| 0 <= i < r@.len() implies self.resident(#[trigger] r@[i]) by {
                assert(self.chunks_seq()[i].0 == r@[i]);
            }
            assert forall|c: ChunkCoord| self.resident(c) implies r@.contains(c) by {
                let j = key_index(self.chunks_seq(), c);
                assert(r@[j] == c);
            }
        }
        r
    }

    /// The coordinates of every resident chunk whose cached mesh is stale.
    pub fn dirty_coords(&self) -> (r: Vec<ChunkCoord>)
        requires
            self.wf(),
        ensures
            forall|k: int|
                0 <= k < r@.len() ==> self.resident(#[trigger] r@[k]) && self.chunk_at(
                    r@[k],
                ).spec_needs_remesh(),
            forall|c: ChunkCoord|
                self.resident(c) && self.chunk_at(c).spec_needs_remesh() ==> r@.contains(c),
    {
        let mut r: Vec<ChunkCoord> = Vec::new();
        let mut i: usize = 0;
        while i < self.chunks.len()
            invariant
                self.wf(),
                i <= self.chunks_seq().len(),
                forall|k: int|
                    0 <= k < r@.len() ==> self.resident(#[trigger] r@[k]) && self.chunk_at(
                        r@[k],
                    ).spec_needs_remesh(),
                forall|j: int|
                    0 <= j < i && (#[trigger] self.chunks_seq()[j]).1.spec_needs_remesh()
                        ==> r@.contains(self.chunks_seq()[j].0),
            decreases self.chunks_seq().len() - i,
        {
            let ghost r0 = r@;
            if self.chunks[i].1.needs_remesh() {
                r.push(self.chunks[i].0);
                proof {
                    lemma_key_index(self.chunks_seq(), self.chunks_seq()[i as int].0, i as int);
                    assert(r@[r@.len() - 1] == self.chunks_seq()[i as int].0);
                    assert forall|k: int| 0 <= k < r@.len() implies self.resident(#[trigger] r@[k])
                        && self.chunk_at(r@[k]).spec_needs_remesh() by {
                        if k < r0.len() {
                            assert(r@[k] == r0[k]);
                        }
                    }
                    assert forall|j: int|
                        0 <= j < i + 1 && (#[trigger] self.chunks_seq()[j]).1.spec_needs_remesh()
                            implies r@.contains(self.chunks_seq()[j].0) by {
                        if j < i {
                            assert(r0.contains(self.chunks_seq()[j].0));
                            let k = choose|k: int|
                                0 <= k < r0.len() && r0[k] == self.chunks_seq()[j].0;
                            assert(r@[k] == self.chunks_seq()[j].0);
                        } else {
                            assert(r@[r@.len() - 1] == self.chunks_seq()[j].0);
                        }
                    }
                }
            } else {
                proof {
                    assert forall|j: int|
                        0 <= j < i + 1 && (#[trigger] self.chunks_seq()[j]).1.spec_needs_remesh()
                            implies r@.contains(self.chunks_seq()[j].0) by {}
                }
            }
            i = i + 1;
        }
        proof {
            assert forall|c: ChunkCoord|
                self.resident(c) && self.chunk_at(c).spec_needs_remesh() implies r@.contains(
                c,
            ) by {
                let j = key_index(self.chunks_seq(), c);
                assert(self.chunks_seq()[j].1.spec_needs_remesh());
            }
        }
        r
    }
}

impl World {
    /// How one eviction pass steps the world: exactly the resident chunks
    /// whose center lies within the eviction radius of the observer stay,
    /// unchanged; the queue is untouched.
    pub open spec fn evicts(pre: World, post: World, p: BlockPos) -> bool {
        &&& post.queue_seq() == pre.queue_seq()
        &&& post.spec_render_distance() == pre.spec_render_distance()
        &&& forall|c: ChunkCoord|
            #[trigger] post.resident(c) <==> (pre.resident(c) && pre.in_evict_range(c, p))
        &&& forall|c: ChunkCoord|
            #[trigger] post.resident(c) ==> post.chunk_at(c) == pre.chunk_at(c)
    }

    /// Removes every resident chunk whose center lies strictly beyond the
    /// eviction radius (the render radius plus the margin) from observer
    /// position `p`; one exactly at the radius stays.
    #[verifier::rlimit(60)]
    pub fn evict(&mut self, p: BlockPos)
        requires
            old(self).wf(),
            p.wf(),
        ensures
            final(self).wf(),
            World::evicts(*old(self), *final(self), p),
            final(self).spec_catalog() == old(self).spec_catalog(),
            final(self).spec_materials() == old(self).spec_materials(),
            final(self).spec_seed() == old(self).spec_seed(),
    {
        let rr: i64 = 16 * (self.render_distance as i64 + EVICT_MARGIN as i64);
        proof {
            assert(0 <= rr <= 1600032);
            assert(rr * rr <= 0x10_0000_0000_0000) by (nonlinear_arith)
                requires
                    0 <= rr <= 1600032,
            ;
        }
        let er2: i128 = (rr as i128) * (rr as i128);
        let ghost w0 = *old(self);
        let mut i: usize = 0;
        while i < self.chunks.len()
            invariant
                w0 == *old(self),
                w0.wf(),
                p.wf(),
                er2 == w0.evict_r2(),
                i <= self.chunks_seq().len(),
                self.queue_seq() == w0.queue_seq(),
                self.spec_catalog() == w0.spec_catalog(),
                self.spec_materials() == w0.spec_materials(),
                self.spec_seed() == w0.spec_seed(),
                self.spec_render_distance() == w0.spec_render_distance(),
                self.chunks_wf(),
                forall|j: int|
                    0 <= j < i ==> w0.in_evict_range((#[trigger] self.chunks_seq()[j]).0, p),
                forall|c: ChunkCoord|
                    #[trigger] self.resident(c) ==> w0.resident(c) && self.chunk_at(c)
                        == w0.chunk_at(c),
                forall|c: ChunkCoord|
                    #[trigger] w0.resident(c) && w0.in_evict_range(c, p) ==> self.resident(c),
            decreases self.chunks_seq().len() - i,
        {
            let ghost cur = self.chunks_seq();
            let ghost wc = *self;
            let c: ChunkCoord = self.chunks[i].0;
            let d2: i128 = center_dist2_exec(c, p);
            if d2 <= er2 {
                i = i + 1;
            } else {
                let _ = self.chunks.swap_remove(i);
                proof {
                    let ns = self.chunks_seq();
                    assert(ns == cur.update(i as int, cur.last()).drop_last());
                    assert forall|a: int, b: int|
                        0 <= a < ns.len() && 0 <= b < ns.len() && a != b implies (#[trigger] ns[a]).0
                        != (#[trigger] ns[b]).0 by {
                        let am: int = if a == i { cur.len() - 1 } else { a };
                        let bm: int = if b == i { cur.len() - 1 } else { b };
                        assert(ns[a] == cur[am] && ns[b] == cur[bm]);
                        assert(am != bm);
                    }
                    assert forall|j: int|
                        0 <= j < ns.len() implies {
                            let e = #[trigger] ns[j];
                            &&& e.1.wf()
                            &&& e.1.spec_coordinate() == e.0
                            &&& ids_ok(e.1.spec_grid()@, self.spec_catalog()@.len() as int)
                        } by {
                        let jm: int = if j == i { cur.len() - 1 } else { j };
                        assert(ns[j] == cur[jm]);
                    }
                    assert forall|j: int|
                        0 <= j < i implies w0.in_evict_range((#[trigger] ns[j]).0, p) by {
                        assert(ns[j] == cur[j]);
                    }
                    assert forall|d: ChunkCoord| #[trigger] self.resident(d) implies w0.resident(d)
                        && self.chunk_at(d) == w0.chunk_at(d) by {
                        let j = key_index(ns, d);
                        assert(ns[j].0 == d);
                        let jm: int = if j == i { cur.len() - 1 } else { j };
                        assert(ns[j] == cur[jm]);
                        lemma_key_index(cur, d, jm);
                        assert(wc.resident(d) && wc.chunk_at(d) == ns[j].1);
                    }
                    assert forall|d: ChunkCoord|
                        #[trigger] w0.resident(d) && w0.in_evict_range(d, p) implies self.resident(
                        d,
                    ) by {
                        assert(wc.resident(d));
                        assert(has_key(cur, d));
                        let k = key_index(cur, d);
                        assert(cur[k].0 == d);
                        assert(k != i);
                        if k == cur.len() - 1 {
                            assert(i < cur.len() - 1);
                            assert(ns[i as int].0 == d);
                        } else {
                            assert(ns[k].0 == d);
                        }
                    }
                }
            }
        }
        proof {
            lemma_queue_wf_transfer(w0, *self);
        }
    }
}

/// The chunk coordinate owning a world-block position: floor division by
/// the chunk edge length on each axis.
pub open spec fn owner_chunk(p: BlockPos) -> ChunkCoord {
    ChunkCoord {
        x: crate::coords::owner_axis(p.x as int) as i32,
        y: crate::coords::owner_axis(p.y as int) as i32,
        z: crate::coords::owner_axis(p.z as int) as i32,
    }
}

impl World {
    /// The block id at a world-block position: the cell of the owning
    /// chunk, found by floor division and positive modulo, or `None` when
    /// the owning chunk is not resident.
    pub fn get_block_at(&self, position: BlockPos) -> (r: Option<u8>)
        requires
            self.wf(),
            position.wf(),
        ensures
            match r {
                Some(id) => {
                    let c = owner_chunk(position);
                    &&& self.resident(c)
                    &&& id == self.chunk_at(c).spec_grid().spec_cell(
                        position.x - 16 * c.x,
                        position.y - 16 * c.y,
                        position.z - 16 * c.z,
                    )
                },
                None => !self.resident(owner_chunk(position)),
            },
    {
        let qx: i64 = crate::coords::floor_div_chunk(position.x);
        let qy: i64 = crate::coords::floor_div_chunk(position.y);
        let qz: i64 = crate::coords::floor_div_chunk(position.z);
        proof {
            assert(-0x100_0001 <= qx <= 0x100_0000);
            assert(-0x100_0001 <= qy <= 0x100_0000);
            assert(-0x100_0001 <= qz <= 0x100_0000);
        }
        let c = ChunkCoord { x: qx as i32, y: qy as i32, z: qz as i32 };
        proof {
            assert(c == owner_chunk(position));
        }
        match self.find_index(c) {
            None => None,
            Some(i) => {
                let lx: usize = (position.x - 16 * qx) as usize;
                let ly: usize = (position.y - 16 * qy) as usize;
                let lz: usize = (position.z - 16 * qz) as usize;
                Some(self.chunks[i].1.grid().cell(lx, ly, lz))
            },
        }
    }

    /// Whether coordinate `at` currently awaits generation.
    pub fn is_queued(&self, at: ChunkCoord) -> (r: bool)
        ensures
            r == self.queued(at),
    {
        self.queue_contains(at)
    }

    /// How many coordinates await generation.
    pub fn queue_len(&self) -> (n: usize)
        ensures
            n == self.queue_seq().len(),
    {
        self.queue.len()
    }

    /// Records on the resident chunk at `c` how many of its six neighbors
    /// are active; everything else is untouched.
    fn set_active_if_resident(&mut self, c: ChunkCoord, n: u8)
        requires
            old(self).wf(),
            n <= 6,
        ensures
            final(self).wf(),
            final(self).queue_seq() == old(self).queue_seq(),
            final(self).spec_catalog() == old(self).spec_catalog(),
            final(self).spec_materials() == old(self).spec_materials(),
            final(self).spec_seed() == old(self).spec_seed(),
            final(self).spec_render_distance() == old(self).spec_render_distance(),
            forall|d: ChunkCoord| final(self).resident(d) == old(self).resident(d),
            forall|d: ChunkCoord|
                old(self).resident(d) && d != c ==> final(self).chunk_at(d) == old(self).chunk_at(
                    d,
                ),
            old(self).resident(c) ==> {
                let oc = old(self).chunk_at(c);
                let nc = final(self).chunk_at(c);
                &&& nc.spec_coordinate() == oc.spec_coordinate()
                &&& nc.spec_grid() == oc.spec_grid()
                &&& nc.spec_mesh() == oc.spec_mesh()
                &&& nc.spec_needs_remesh() == oc.spec_needs_remesh()
                &&& nc.spec_active_neighbors() == n
            },
            !old(self).resident(c) ==> final(self).chunks_seq() == old(self).chunks_seq(),
    {
        let r = self.find_index(c);
        match r {
            None => {},
            Some(i) => {
                let e: &mut (ChunkCoord, Chunk) = &mut self.chunks[i];
                e.1.set_active_neighbors(n);
                proof {
                    let os = old(self).chunks_seq();
                    let ns = final(self).chunks_seq();
                    assert(ns == os.update(i as int, ns[i as int]));
                    assert(ns[i as int].0 == c);
                    assert(keys_unique(ns));
                    lemma_key_index(ns, c, i as int);
                    assert forall|d: ChunkCoord| has_key(ns, d) == has_key(os, d) by {
                        if has_key(os, d) {
                            let j = key_index(os, d);
                            assert(ns[j].0 == d);
                        }
                        if has_key(ns, d) {
                            let j = key_index(ns, d);
                            assert(os[j].0 == d);
                        }
                    }
                    assert forall|d: ChunkCoord| has_key(os, d) && d != c implies
                        final(self).chunk_at(d) == old(self).chunk_at(d) by {
                        let j = key_index(os, d);
                        assert(os[j].0 == d);
                        assert(j != i);
                        assert(ns[j] == os[j]);
                        lemma_key_index(ns, d, j);
                    }
                    lemma_queue_wf_transfer(*old(self), *self);
                }
            },
        }
    }

    /// One admission call, taken from a state whose queue extends `w0`'s
    /// only by in-range coordinates, reaches another such state.
    proof fn lemma_admit_step(
        w0: World,
        pre: World,
        post: World,
        at: ChunkCoord,
        p: BlockPos,
        r: bool,
    )
        requires
            World::admits(pre, post, at, p, r),
            pre.spec_render_distance() == w0.spec_render_distance(),
            forall|d: ChunkCoord| pre.resident(d) == w0.resident(d),
            forall|d: ChunkCoord| #[trigger] w0.queued(d) ==> pre.queued(d),
            forall|d: ChunkCoord|
                #[trigger] pre.queued(d) && !w0.queued(d) ==> !w0.resident(d)
                    && w0.in_render_range(d, p),
        ensures
            forall|d: ChunkCoord| post.resident(d) == w0.resident(d),
            forall|d: ChunkCoord| #[trigger] w0.queued(d) ==> post.queued(d),
            forall|d: ChunkCoord|
                #[trigger] post.queued(d) && !w0.queued(d) ==> !w0.resident(d)
                    && w0.in_render_range(d, p),
    {
        assert forall|d: ChunkCoord| #[trigger] w0.queued(d) implies post.queued(d) by {
            assert(pre.queued(d));
            let i = choose|i: int| 0 <= i < pre.queue_seq().len() && pre.queue_seq()[i] == d;
            assert(post.queue_seq()[i] == d);
        }
        assert forall|d: ChunkCoord| #[trigger] post.queued(d) && !w0.queued(d) implies !w0.resident(
            d,
        ) && w0.in_render_range(d, p) by {
            if !pre.queued(d) {
                let i = choose|i: int|
                    0 <= i < post.queue_seq().len() && post.queue_seq()[i] == d;
                if post.queue_seq() == pre.queue_seq() {
                    assert(pre.queue_seq()[i] == d);
                } else {
                    if i < pre.queue_seq().len() {
                        assert(pre.queue_seq()[i] == d);
                        assert(false);
                    }
                    assert(d == at);
                    assert(pre.in_render_range(at, p));
                }
            }
        }
    }

    /// One admission call settles its own coordinate and keeps every
    /// already settled coordinate settled.
    proof fn lemma_admits_admitted(pre: World, post: World, at: ChunkCoord, p: BlockPos, r: bool)
        requires
            World::admits(pre, post, at, p, r),
        ensures
            post.admitted(at, p),
            forall|d: ChunkCoord| #[trigger] pre.admitted(d, p) ==> post.admitted(d, p),
    {
        if !pre.resident(at) && !pre.queued(at) && pre.in_render_range(at, p) {
            assert(post.queue_seq()[post.queue_seq().len() - 1] == at);
            assert(post.queued(at));
        } else if pre.queued(at) {
            let i = choose|i: int| 0 <= i < pre.queue_seq().len() && pre.queue_seq()[i] == at;
            assert(post.queue_seq()[i] == at);
            assert(post.queued(at));
        }
        assert forall|d: ChunkCoord| #[trigger] pre.admitted(d, p) implies post.admitted(d, p) by {
            if pre.queued(d) {
                let i = choose|i: int| 0 <= i < pre.queue_seq().len() && pre.queue_seq()[i] == d;
                assert(post.queue_seq()[i] == d);
            }
        }
    }

    /// The accumulated admission facts survive a step that settles more.
    proof fn lemma_frontier_preserved(
        w0: World,
        pre: World,
        post: World,
        p: BlockPos,
        coords: Seq<ChunkCoord>,
        i: int,
        pcg: ChunkCoord,
    )
        requires
            forall|d: ChunkCoord| #[trigger] pre.admitted(d, p) ==> post.admitted(d, p),
            pre.admitted(pcg, p),
            forall|k: int, d: ChunkCoord|
                0 <= k < i && #[trigger] face_adjacent(d, coords[k]) && w0.chunk_at(
                    coords[k],
                ).spec_active_neighbors() != 6 ==> pre.admitted(d, p),
        ensures
            post.admitted(pcg, p),
            forall|k: int, d: ChunkCoord|
                0 <= k < i && #[trigger] face_adjacent(d, coords[k]) && w0.chunk_at(
                    coords[k],
                ).spec_active_neighbors() != 6 ==> post.admitted(d, p),
    {
        assert forall|k: int, d: ChunkCoord|
            0 <= k < i && #[trigger] face_adjacent(d, coords[k]) && w0.chunk_at(
                coords[k],
            ).spec_active_neighbors() != 6 implies post.admitted(d, p) by {
            assert(pre.admitted(d, p));
        }
    }

    /// One admission pass around observer position `p`: attempts to admit
    /// the observer's own chunk, then, for every resident chunk that does
    /// not yet have all six face-adjacent neighbors active, attempts to
    /// admit those neighbors, so the frontier of loaded chunks grows
    /// outward one shell at a time. The resident map is unchanged; the
    /// queue grows exactly by coordinates that were neither resident nor
    /// queued and lie within the render radius; afterwards the observer's
    /// own chunk is settled, and so is every face neighbor of a frontier
    /// chunk.
    #[verifier::rlimit(60)]
    pub fn admit_around(&mut self, p: BlockPos)
        requires
            old(self).wf(),
            p.wf(),
        ensures
            final(self).wf(),
            final(self).spec_catalog() == old(self).spec_catalog(),
            final(self).spec_materials() == old(self).spec_materials(),
            final(self).spec_seed() == old(self).spec_seed(),
            final(self).spec_render_distance() == old(self).spec_render_distance(),
            forall|d: ChunkCoord| final(self).resident(d) == old(self).resident(d),
            forall|d: ChunkCoord|
                old(self).resident(d) ==> {
                    let oc = old(self).chunk_at(d);
                    let nc = final(self).chunk_at(d);
                    &&& nc.spec_coordinate() == oc.spec_coordinate()
                    &&& nc.spec_grid() == oc.spec_grid()
                    &&& nc.spec_mesh() == oc.spec_mesh()
                    &&& nc.spec_needs_remesh() == oc.spec_needs_remesh()
                },
            forall|d: ChunkCoord| old(self).queued(d) ==> final(self).queued(d),
            forall|d: ChunkCoord|
                final(self).queued(d) && !old(self).queued(d) ==> !old(self).resident(d) && old(
                    self,
                ).in_render_range(d, p),
            final(self).admitted(owner_chunk(p), p),
            forall|c: ChunkCoord, d: ChunkCoord|
                old(self).resident(c) && old(self).chunk_at(c).spec_active_neighbors() != 6
                    && #[trigger] face_adjacent(d, c) ==> final(self).admitted(d, p),
    {
        let qx: i64 = crate::coords::floor_div_chunk(p.x);
        let qy: i64 = crate::coords::floor_div_chunk(p.y);
        let qz: i64 = crate::coords::floor_div_chunk(p.z);
        proof {
            assert(-0x100_0001 <= qx <= 0x100_0000);
            assert(-0x100_0001 <= qy <= 0x100_0000);
            assert(-0x100_0001 <= qz <= 0x100_0000);
        }
        let pc = ChunkCoord { x: qx as i32, y: qy as i32, z: qz as i32 };
        let ghost w0 = *old(self);
        let ghost pcg = pc;
        proof {
            assert(pcg == owner_chunk(p));
        }
        let rp = self.generate_chunk(pc, p);
        proof {
            World::lemma_admit_step(w0, w0, *self, pc, p, rp);
            World::lemma_admits_admitted(w0, *self, pc, p, rp);
        }
        let coords = self.resident_coords();
        proof {
            assert forall|k: int, l: int|
                0 <= k < coords@.len() && 0 <= l < coords@.len() && k != l implies coords@[k]
                != coords@[l] by {
                assert(coords@[k] == self.chunks_seq()[k].0);
                assert(coords@[l] == self.chunks_seq()[l].0);
            }
        }
        let mut i: usize = 0;
        while i < coords.len()
            invariant
                w0.wf(),
                p.wf(),
                self.wf(),
                self.spec_catalog() == w0.spec_catalog(),
                self.spec_materials() == w0.spec_materials(),
                self.spec_seed() == w0.spec_seed(),
                self.spec_render_distance() == w0.spec_render_distance(),
                forall|d: ChunkCoord| self.resident(d) == w0.resident(d),
                forall|d: ChunkCoord|
                    w0.resident(d) ==> {
                        let oc = w0.chunk_at(d);
                        let nc = self.chunk_at(d);
                        &&& nc.spec_coordinate() == oc.spec_coordinate()
                        &&& nc.spec_grid() == oc.spec_grid()
                        &&& nc.spec_mesh() == oc.spec_mesh()
                        &&& nc.spec_needs_remesh() == oc.spec_needs_remesh()
                    },
                forall|d: ChunkCoord| w0.queued(d) ==> self.queued(d),
                forall|d: ChunkCoord|
                    self.queued(d) && !w0.queued(d) ==> !w0.resident(d) && w0.in_render_range(d, p),
                forall|k: int| 0 <= k < coords@.len() ==> self.resident(#[trigger] coords@[k]),
                forall|k: int, l: int|
                    0 <= k < coords@.len() && 0 <= l < coords@.len() && k != l ==> #[trigger] coords@[k]
                        != #[trigger] coords@[l],
                forall|k: int|
                    i <= k < coords@.len() ==> self.chunk_at(
                        #[trigger] coords@[k],
                    ).spec_active_neighbors() == w0.chunk_at(coords@[k]).spec_active_neighbors(),
                self.admitted(pcg, p),
                forall|k: int, d: ChunkCoord|
                    0 <= k < i && #[trigger] face_adjacent(d, coords@[k]) && w0.chunk_at(
                        coords@[k],
                    ).spec_active_neighbors() != 6 ==> self.admitted(d, p),
            decreases coords@.len() - i,
        {
            let at: ChunkCoord = coords[i];
            let ci = match self.find_index(at) {
                Some(ci) => ci,
                None => {
                    proof {
                        assert(false);
                    }
                    unreached()
                },
            };
            proof {
                assert(self.chunks_seq()[ci as int].1.spec_coordinate() == at);
                assert(at.wf());
            }
            let ghost nn1 = ChunkCoord { x: (at.x + 1) as i32, y: at.y, z: at.z };
            let ghost nn2 = ChunkCoord { x: (at.x - 1) as i32, y: at.y, z: at.z };
            let ghost nn3 = ChunkCoord { x: at.x, y: (at.y + 1) as i32, z: at.z };
            let ghost nn4 = ChunkCoord { x: at.x, y: (at.y - 1) as i32, z: at.z };
            let ghost nn5 = ChunkCoord { x: at.x, y: at.y, z: (at.z + 1) as i32 };
            let ghost nn6 = ChunkCoord { x: at.x, y: at.y, z: (at.z - 1) as i32 };
            if self.chunks[ci].1.active_neighbors() != 6 {
                proof {
                    assert(self.chunk_at(at).spec_active_neighbors() != 6);
                }
                let mut n: u8 = 0;
                let ghost s1 = *self;
                let r1 = self.generate_chunk(ChunkCoord { x: at.x + 1, y: at.y, z: at.z }, p);
                proof {
                    World::lemma_admit_step(w0, s1, *self, nn1, p, r1);
                    World::lemma_admits_admitted(s1, *self, nn1, p, r1);
                    World::lemma_frontier_preserved(w0, s1, *self, p, coords@, i as int, pcg);
                }
                if r1 {
                    n = n + 1;
                }
                let ghost s2 = *self;
                let r2 = self.generate_chunk(ChunkCoord { x: at.x - 1, y: at.y, z: at.z }, p);
                proof {
                    World::lemma_admit_step(w0, s2, *self, nn2, p, r2);
                    World::lemma_admits_admitted(s2, *self, nn2, p, r2);
                    World::lemma_frontier_preserved(w0, s2, *self, p, coords@, i as int, pcg);
                }
                if r2 {
                    n = n + 1;
                }
                let ghost s3 = *self;
                let r3 = self.generate_chunk(ChunkCoord { x: at.x, y: at.y + 1, z: at.z }, p);
                proof {
                    World::lemma_admit_step(w0, s3, *self, nn3, p, r3);
                    World::lemma_admits_admitted(s3, *self, nn3, p, r3);
                    World::lemma_frontier_preserved(w0, s3, *self, p, coords@, i as int, pcg);
                }
                if r3 {
                    n = n + 1;
                }
                let ghost s4 = *self;
                let r4 = self.generate_chunk(ChunkCoord { x: at.x, y: at.y - 1, z: at.z }, p);
                proof {
                    World::lemma_admit_step(w0, s4, *self, nn4, p, r4);
                    World::lemma_admits_admitted(s4, *self, nn4, p, r4);
                    World::lemma_frontier_preserved(w0, s4, *self, p, coords@, i as int, pcg);
                }
                if r4 {
                    n = n + 1;
                }
                let ghost s5 = *self;
                let r5 = self.generate_chunk(ChunkCoord { x: at.x, y: at.y, z: at.z + 1 }, p);
                proof {
                    World::lemma_admit_step(w0, s5, *self, nn5, p, r5);
                    World::lemma_admits_admitted(s5, *self, nn5, p, r5);
                    World::lemma_frontier_preserved(w0, s5, *self, p, coords@, i as int, pcg);
                }
                if r5 {
                    n = n + 1;
                }
                let ghost s6 = *self;
                let r6 = self.generate_chunk(ChunkCoord { x: at.x, y: at.y, z: at.z - 1 }, p);
                proof {
                    World::lemma_admit_step(w0, s6, *self, nn6, p, r6);
                    World::lemma_admits_admitted(s6, *self, nn6, p, r6);
                    World::lemma_frontier_preserved(w0, s6, *self, p, coords@, i as int, pcg);
                }
                if r6 {
                    n = n + 1;
                }
                let ghost sa = *self;
                self.set_active_if_resident(at, n);
                proof {
                    assert forall|d: ChunkCoord| #[trigger] sa.admitted(d, p) implies self.admitted(
                        d,
                        p,
                    ) by {
                        assert(self.queue_seq() == sa.queue_seq());
                    }
                    World::lemma_frontier_preserved(w0, sa, *self, p, coords@, i as int, pcg);
                    assert forall|k: int|
                        i + 1 <= k < coords@.len() implies self.chunk_at(
                            #[trigger] coords@[k],
                        ).spec_active_neighbors() == w0.chunk_at(
                            coords@[k],
                        ).spec_active_neighbors() by {
                        assert(coords@[k] != at);
                        assert(sa.resident(coords@[k]));
                    }
                    assert forall|k: int, d: ChunkCoord|
                        0 <= k < i + 1 && #[trigger] face_adjacent(d, coords@[k]) && w0.chunk_at(
                            coords@[k],
                        ).spec_active_neighbors() != 6 implies self.admitted(d, p) by {
                        if k == i {
                            assert(coords@[k] == at);
                            assert(d == nn1 || d == nn2 || d == nn3 || d == nn4 || d == nn5
                                || d == nn6);
                        }
                    }
                }
            } else {
                proof {
                    assert(self.chunk_at(at).spec_active_neighbors() == 6);
                    assert(w0.chunk_at(coords@[i as int]).spec_active_neighbors() == 6);
                }
            }
            i = i + 1;
        }
        proof {
            assert forall|c: ChunkCoord, d: ChunkCoord|
                old(self).resident(c) && old(self).chunk_at(c).spec_active_neighbors() != 6
                    && #[trigger] face_adjacent(d, c) implies final(self).admitted(d, p) by {
                assert(coords@.contains(c));
                let k = choose|k: int| 0 <= k < coords@.len() && coords@[k] == c;
                assert(w0.chunk_at(coords@[k]).spec_active_neighbors() != 6);
            }
        }
    }
}

/// Eviction honors its margin, and an evicted coordinate is regenerated
/// rather than reused: a resident chunk whose center is exactly at the
/// eviction radius stays resident, one strictly beyond it is removed, and
/// a removed coordinate back within the render radius is admitted to the
/// queue again, passing through the full generation cycle.
pub proof fn lemma_eviction_margin(
    w0: World,
    w1: World,
    w2: World,
    p: BlockPos,
    p2: BlockPos,
    c: ChunkCoord,
    r: bool,
)
    requires
        w0.wf(),
        w0.resident(c),
        World::evicts(w0, w1, p),
        World::admits(w1, w2, c, p2, r),
    ensures
        center_dist2(c, p) <= w0.evict_r2() ==> w1.resident(c),
        center_dist2(c, p) > w0.evict_r2() ==> !w1.resident(c),
        center_dist2(c, p) > w0.evict_r2() && w1.in_render_range(c, p2) ==> r && w2.queued(c)
            && !w2.resident(c),
{
    if center_dist2(c, p) > w0.evict_r2() && w1.in_render_range(c, p2) {
        assert(!w1.resident(c));
        if w1.queued(c) {
            let j = choose|j: int|
                0 <= j < w1.queue_seq().len() && w1.queue_seq()[j] == c;
            assert(w0.queue_seq()[j] == c);
            assert(!w0.resident(w0.queue_seq()[j]));
        }
        assert(!w1.queued(c));
        assert(w2.queue_seq() == w1.queue_seq().push(c));
        assert(w2.queue_seq()[w2.queue_seq().len() - 1] == c);
        assert(w2.queued(c));
        if w2.resident(c) {
            assert(w1.resident(c));
        }
    }
}

/// Dirty propagation: inserting a freshly generated chunk marks every
/// already-resident face-adjacent neighbor as needing a remesh.
pub proof fn lemma_dirty_propagation(
    w0: World,
    w1: World,
    at: ChunkCoord,
    slab: Seq<u8>,
    c: ChunkCoord,
)
    requires
        World::inserts(w0, w1, at, slab),
        w0.resident(c),
        face_adjacent(c, at),
    ensures
        w1.chunk_at(c).spec_needs_remesh(),
{
    assert(c != at);
}

/// Admission is idempotent: once an in-range coordinate has been admitted,
/// admitting it again with the same observer reports true and leaves both
/// the queue and the resident map unchanged, so no coordinate is ever
/// queued twice.
pub proof fn lemma_admission_idempotent(
    w0: World,
    w1: World,
    w2: World,
    at: ChunkCoord,
    p: BlockPos,
    r1: bool,
    r2: bool,
)
    requires
        w0.in_render_range(at, p),
        World::admits(w0, w1, at, p, r1),
        World::admits(w1, w2, at, p, r2),
    ensures
        r1,
        r2,
        w2.queue_seq() == w1.queue_seq(),
        w2.chunks_seq() == w1.chunks_seq(),
{
    if !w0.resident(at) && !w0.queued(at) {
        assert(w1.queue_seq()[w1.queue_seq().len() - 1] == at);
        assert(w1.queued(at));
    } else {
        assert(w1.queued(at) || w1.resident(at));
    }
}

} // verus!
