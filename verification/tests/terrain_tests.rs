use voxel_engine::chunk::ChunkGrid;
use voxel_engine::terrain::{classify_cell, generate, FieldSlab, Materials};

fn materials() -> Materials {
    Materials { surface: 2, transitional: 1, deep: 3 }
}

fn slab_index(x: usize, y: usize, z: usize) -> usize {
    (x * 17 + y) * 16 + z
}

fn uniform_slab(band: u8) -> FieldSlab {
    FieldSlab::from_bands(vec![band; 16 * 17 * 16]).unwrap()
}

fn cells_of(g: &ChunkGrid) -> Vec<u8> {
    let mut out = Vec::new();
    for x in 0..16 {
        for y in 0..16 {
            for z in 0..16 {
                out.push(g.cell(x, y, z));
            }
        }
    }
    out
}

#[test]
fn classify_air_stays_air() {
    let m = materials();
    assert_eq!(classify_cell(0, 0, m), 0);
    assert_eq!(classify_cell(0, 3, m), 0);
}

#[test]
fn classify_deep_band_is_deep_material() {
    let m = materials();
    assert_eq!(classify_cell(3, 0, m), 3);
    assert_eq!(classify_cell(3, 3, m), 3);
}

#[test]
fn classify_middle_band_is_transitional_material() {
    let m = materials();
    assert_eq!(classify_cell(2, 0, m), 1);
    assert_eq!(classify_cell(2, 1, m), 1);
}

#[test]
fn classify_low_band_depends_on_cover() {
    let m = materials();
    // Open sky above: the surface material.
    assert_eq!(classify_cell(1, 0, m), 2);
    // Covered by any solid cell: the transitional material.
    assert_eq!(classify_cell(1, 1, m), 1);
    assert_eq!(classify_cell(1, 2, m), 1);
    assert_eq!(classify_cell(1, 3, m), 1);
}

#[test]
fn generate_classifies_every_cell_against_the_sample_above() {
    let m = materials();
    // A column: low band at y = 5 with air above, low band at y = 3
    // covered by a middle band at y = 4.
    let mut bands = vec![0u8; 16 * 17 * 16];
    bands[slab_index(7, 3, 7)] = 1;
    bands[slab_index(7, 4, 7)] = 2;
    bands[slab_index(7, 5, 7)] = 1;
    let slab = FieldSlab::from_bands(bands).unwrap();
    let g = generate(&slab, m);
    assert_eq!(g.cell(7, 3, 7), 1); // covered low band: transitional
    assert_eq!(g.cell(7, 4, 7), 1); // middle band: transitional
    assert_eq!(g.cell(7, 5, 7), 2); // open low band: surface
    assert_eq!(g.cell(7, 6, 7), 0);
    assert_eq!(g.cell(6, 3, 7), 0);
}

#[test]
fn generate_reads_the_extra_top_row() {
    let m = materials();
    // The topmost cell is covered only through the slab's extra sample
    // row above the chunk.
    let mut bands = vec![0u8; 16 * 17 * 16];
    bands[slab_index(2, 15, 2)] = 1;
    bands[slab_index(2, 16, 2)] = 1;
    bands[slab_index(9, 15, 9)] = 1;
    let slab = FieldSlab::from_bands(bands).unwrap();
    let g = generate(&slab, m);
    assert_eq!(g.cell(2, 15, 2), 1); // covered from above the chunk top
    assert_eq!(g.cell(9, 15, 9), 2); // open sky above the chunk top
}

#[test]
fn generate_uniform_slabs() {
    let m = materials();
    let g0 = generate(&uniform_slab(0), m);
    assert!(cells_of(&g0).iter().all(|&id| id == 0));
    let g3 = generate(&uniform_slab(3), m);
    assert!(cells_of(&g3).iter().all(|&id| id == 3));
    // Uniform low band: every cell is covered by the one above it.
    let g1 = generate(&uniform_slab(1), m);
    assert!(cells_of(&g1).iter().all(|&id| id == 1));
}

#[test]
fn generate_is_deterministic() {
    let m = materials();
    let mut bands = vec![0u8; 16 * 17 * 16];
    for (i, b) in bands.iter_mut().enumerate() {
        *b = ((i * 7 + 3) % 4) as u8;
    }
    let s1 = FieldSlab::from_bands(bands.clone()).unwrap();
    let s2 = FieldSlab::from_bands(bands).unwrap();
    let g1 = generate(&s1, m);
    let g2 = generate(&s2, m);
    assert_eq!(cells_of(&g1), cells_of(&g2));
}

#[test]
fn from_bands_rejects_bad_input() {
    assert!(FieldSlab::from_bands(vec![0u8; 100]).is_none());
    let mut bands = vec![0u8; 16 * 17 * 16];
    bands[1234] = 4;
    assert!(FieldSlab::from_bands(bands).is_none());
}
