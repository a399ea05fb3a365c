//! Terrain generation: turning a sampled density field into a chunk grid.
//!
//! The scalar density field drives everything. Each sample is coarsened to
//! a band: 0 where the density is at or below the solidity threshold (air),
//! then 1, 2 and 3 for the three ascending density tiers. A solid cell is
//! classified from its band and from whether the cell directly above is
//! solid: the deepest tier is always the deep material, the middle tier the
//! transitional material, and the lowest solid tier the surface material in
//! the open or the transitional material when covered. A field slab carries
//! one extra sample row above the chunk top, so the topmost cells are
//! classified without consulting a neighbor chunk.

use vstd::prelude::*;

use crate::chunk::{grid_index, in_chunk, lemma_grid_index_inverse, ChunkGrid};

verus! {

/// Index of field sample `(x, y, z)` in a slab's backing sequence; `y`
/// ranges one row above the chunk top.
pub open spec fn slab_index(x: int, y: int, z: int) -> int {
    (x * 17 + y) * 16 + z
}

/// Whether `(x, y, z)` is a sample position of a field slab.
pub open spec fn in_slab(x: int, y: int, z: int) -> bool {
    &&& 0 <= x < 16
    &&& 0 <= y < 17
    &&& 0 <= z < 16
}

/// Sample positions map to distinct indices within the slab's length.
pub proof fn lemma_slab_index_inverse(x: int, y: int, z: int)
    requires
        in_slab(x, y, z),
    ensures
        0 <= slab_index(x, y, z) < 4352,
        slab_index(x, y, z) / 272 == x,
        (slab_index(x, y, z) % 272) / 16 == y,
        slab_index(x, y, z) % 16 == z,
{
    let i = slab_index(x, y, z);
    vstd::arithmetic::div_mod::lemma_fundamental_div_mod_converse(i, 272, x, 16 * y + z);
    vstd::arithmetic::div_mod::lemma_fundamental_div_mod_converse(16 * y + z, 16, y, z);
    vstd::arithmetic::div_mod::lemma_fundamental_div_mod_converse(i, 16, 17 * x + y, z);
}

/// A sampled density field covering one chunk plus one extra sample above
/// each column: every sample is a band in `0 ..= 3`.
pub struct FieldSlab {
    bands: Vec<u8>,
}

impl FieldSlab {
    pub open spec fn wf(self) -> bool {
        &&& self@.len() == 4352
        &&& forall|i: int| 0 <= i < self@.len() ==> #[trigger] self@[i] <= 3
    }

    pub closed spec fn view(self) -> Seq<u8> {
        self.bands@
    }

    /// The band sampled at `(x, y, z)`.
    pub open spec fn spec_band(self, x: int, y: int, z: int) -> u8 {
        self@[slab_index(x, y, z)]
    }

    /// A slab made of the given samples, row-contiguous along z, then y
    /// (17 rows), then x; `None` if the count is wrong or a sample is not
    /// a band.
    pub fn from_bands(bands: Vec<u8>) -> (r: Option<FieldSlab>)
        ensures
            match r {
                Some(s) => s@ == bands@ && s.wf(),
                None => !(bands@.len() == 4352 && forall|i: int|
                    0 <= i < bands@.len() ==> #[trigger] bands@[i] <= 3),
            },
    {
        if bands.len() != 4352 {
            return None;
        }
        let mut i: usize = 0;
        while i < 4352
            invariant
                i <= 4352,
                bands@.len() == 4352,
                forall|j: int| 0 <= j < i ==> #[trigger] bands@[j] <= 3,
            decreases 4352 - i,
        {
            if bands[i] > 3 {
                return None;
            }
            i = i + 1;
        }
        Some(FieldSlab { bands })
    }

    /// Reads the band sampled at `(x, y, z)`.
    pub fn band(&self, x: usize, y: usize, z: usize) -> (b: u8)
        requires
            self.wf(),
            in_slab(x as int, y as int, z as int),
        ensures
            b == self.spec_band(x as int, y as int, z as int),
    {
        proof {
            lemma_slab_index_inverse(x as int, y as int, z as int);
        }
        self.bands[(x * 17 + y) * 16 + z]
    }
}

/// The three material ids terrain classification places, resolved from the
/// block catalog before generation begins.
#[derive(Clone, Copy, PartialEq, Eq, Structural, Debug)]
pub struct Materials {
    /// Placed where a cell sits in the lowest solid tier with open sky
    /// directly above.
    pub surface: u8,
    /// Placed in the middle tier, and in the lowest tier when covered.
    pub transitional: u8,
    /// Placed in the deepest tier.
    pub deep: u8,
}

impl Materials {
    /// All three ids are registered, non-air catalog ids.
    pub open spec fn wf(self, ncat: int) -> bool {
        &&& 1 <= self.surface <= ncat
        &&& 1 <= self.transitional <= ncat
        &&& 1 <= self.deep <= ncat
    }
}

/// The block id a cell gets from its density band and the band of the cell
/// directly above it. Air stays air; the deepest tier is the deep
/// material; the middle tier is the transitional material; the lowest
/// solid tier is the surface material under open sky and the transitional
/// material when the cell above is solid.
pub open spec fn classify(band: u8, band_above: u8, m: Materials) -> u8 {
    if band == 0 {
        0
    } else if band >= 3 {
        m.deep
    } else if band == 2 {
        m.transitional
    } else if band_above != 0 {
        m.transitional
    } else {
        m.surface
    }
}

/// Executable form of `classify`.
pub fn classify_cell(band: u8, band_above: u8, m: Materials) -> (id: u8)
    ensures
        id == classify(band, band_above, m),
{
    if band == 0 {
        0
    } else if band >= 3 {
        m.deep
    } else if band == 2 {
        m.transitional
    } else if band_above != 0 {
        m.transitional
    } else {
        m.surface
    }
}

/// The block id generated at cell `(x, y, z)` of a chunk: its own band
/// classified against the band of the sample directly above.
pub open spec fn generated_cell(slab: Seq<u8>, m: Materials, x: int, y: int, z: int) -> u8 {
    classify(slab[slab_index(x, y, z)], slab[slab_index(x, y + 1, z)], m)
}

/// The whole grid generated from a field slab.
pub open spec fn generated_grid(slab: Seq<u8>, m: Materials) -> Seq<u8> {
    Seq::new(4096, |i: int| generated_cell(slab, m, i / 256, (i % 256) / 16, i % 16))
}

/// Generates one chunk's grid from a sampled field slab and the resolved
/// material ids. Every cell is pinned: it holds exactly the classification
/// of its own density band against the band directly above.
pub fn generate(slab: &FieldSlab, materials: Materials) -> (g: ChunkGrid)
    requires
        slab.wf(),
    ensures
        g.wf(),
        g@ == generated_grid(slab@, materials),
        forall|x: int, y: int, z: int|
            in_chunk(x, y, z) ==> g.spec_cell(x, y, z) == generated_cell(
                slab@,
                materials,
                x,
                y,
                z,
            ),
{
    let mut cells: Vec<u8> = Vec::new();
    let mut i: usize = 0;
    while i < 4096
        invariant
            i <= 4096,
            cells@.len() == i,
            slab.wf(),
            forall|j: int| 0 <= j < i ==> cells@[j] == generated_grid(slab@, materials)[j],
        decreases 4096 - i,
    {
        let x: usize = i / 256;
        let y: usize = (i % 256) / 16;
        let z: usize = i % 16;
        proof {
            vstd::arithmetic::div_mod::lemma_fundamental_div_mod(i as int, 256);
            vstd::arithmetic::div_mod::lemma_mod_bound(i as int, 256);
            vstd::arithmetic::div_mod::lemma_fundamental_div_mod(i as int % 256, 16);
            vstd::arithmetic::div_mod::lemma_mod_bound(i as int % 256, 16);
            vstd::arithmetic::div_mod::lemma_fundamental_div_mod(i as int, 16);
            vstd::arithmetic::div_mod::lemma_mod_bound(i as int, 16);
        }
        let band: u8 = slab.band(x, y, z);
        let above: u8 = slab.band(x, y + 1, z);
        let id: u8 = classify_cell(band, above, materials);
        cells.push(id);
        i = i + 1;
    }
    let g: ChunkGrid = match ChunkGrid::from_cells(cells) {
        Some(g) => g,
        None => {
            proof {
                assert(false);
            }
            unreached()
        },
    };
    proof {
        assert(g@ =~= generated_grid(slab@, materials));
        assert forall|x: int, y: int, z: int| in_chunk(x, y, z) implies g.spec_cell(x, y, z)
            == generated_cell(slab@, materials, x, y, z) by {
            lemma_grid_index_inverse(x, y, z);
        }
    }
    g
}

/// Generation is deterministic: the generated grid is a function of the
/// field slab and the material ids alone, so two generations from
/// identical inputs yield identical grids.
pub proof fn lemma_generate_deterministic(
    g1: ChunkGrid,
    g2: ChunkGrid,
    slab: Seq<u8>,
    m: Materials,
)
    requires
        g1@ == generated_grid(slab, m),
        g2@ == generated_grid(slab, m),
    ensures
        g1@ == g2@,
{
}

} // verus!