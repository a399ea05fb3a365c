use noise::{NoiseFn, OpenSimplex};
use voxel_engine::block::BlockList;
use voxel_engine::coords::{BlockPos, ChunkCoord};
use voxel_engine::terrain::{generate, FieldSlab, Materials};
use voxel_engine::world::{World, CHUNKS_GEN_PER_UPDATE};

fn materials() -> Materials {
    Materials { surface: 2, transitional: 1, deep: 3 }
}

fn catalog() -> BlockList {
    let mut c = BlockList::new();
    c.register("dirt".to_string(), false);
    c.register("grass".to_string(), true);
    c.register("stone".to_string(), false);
    c
}

/// The density band of the terrain field at a world-block position: the
/// coherent-noise sample at a fixed frequency, shaped and biased so that
/// density falls off with height, coarsened to the four classification
/// bands at the solidity threshold and the two material thresholds.
fn band_at(field: &OpenSimplex, x: i64, y: i64, z: i64) -> u8 {
    let factor = 0.03;
    let p = [x as f64 * factor, y as f64 * factor, z as f64 * factor];
    let mut density = field.get(p) + 0.5;
    density = density.powf(3.0);
    density += 1.0 - ((y as f64 + 64.0) / 64.0);
    if density > 0.65 {
        3
    } else if density > 0.6 {
        2
    } else if density > 0.5 {
        1
    } else {
        0
    }
}

/// Samples the field over one chunk plus one extra row above each column.
fn slab_for(field: &OpenSimplex, c: ChunkCoord) -> FieldSlab {
    let mut bands: Vec<u8> = Vec::with_capacity(16 * 17 * 16);
    for x in 0..16i64 {
        for y in 0..17i64 {
            for z in 0..16i64 {
                bands.push(band_at(field, c.x as i64 * 16 + x, c.y as i64 * 16 + y, c.z as i64 * 16 + z));
            }
        }
    }
    FieldSlab::from_bands(bands).unwrap()
}

#[test]
fn generation_is_deterministic_for_a_fixed_seed() {
    let m = materials();
    let c = ChunkCoord::new(0, -1, 0);
    let field1 = OpenSimplex::new(42);
    let field2 = OpenSimplex::new(42);
    let g1 = generate(&slab_for(&field1, c), m);
    let g2 = generate(&slab_for(&field2, c), m);
    for x in 0..16 {
        for y in 0..16 {
            for z in 0..16 {
                assert_eq!(g1.cell(x, y, z), g2.cell(x, y, z));
            }
        }
    }
}

#[test]
fn world_reaches_a_fixed_point_with_the_expected_residents() {
    let seed: u32 = 42;
    let render_distance: u32 = 2;
    let mut world = World::new(seed, render_distance, catalog(), materials());
    let field = OpenSimplex::new(world.seed());
    // The observer stands at the center of the origin chunk.
    let observer = BlockPos::new(8, 8, 8);

    let mut rounds: u32 = 0;
    loop {
        world.admit_around(observer);
        let batch = world.next_batch(CHUNKS_GEN_PER_UPDATE);
        let made_progress = !batch.is_empty();
        for at in &batch {
            world.insert_generated(*at, &slab_for(&field, *at));
        }
        let dirty = world.dirty_coords();
        for at in &dirty {
            world.update_chunk_mesh(*at);
        }
        world.evict(observer);
        if !made_progress && world.queue_len() == 0 && world.dirty_coords().is_empty() {
            break;
        }
        rounds += 1;
        assert!(rounds < 1000, "the update loop did not reach a fixed point");
    }

    // Exactly the coordinates within Euclidean distance 2 of the origin
    // chunk's center are resident.
    let mut expected: Vec<ChunkCoord> = Vec::new();
    for x in -2i32..=2 {
        for y in -2i32..=2 {
            for z in -2i32..=2 {
                if x * x + y * y + z * z <= 4 {
                    expected.push(ChunkCoord::new(x, y, z));
                }
            }
        }
    }
    assert_eq!(expected.len(), 33);
    let resident = world.resident_coords();
    assert_eq!(resident.len(), expected.len());
    for c in &expected {
        assert!(world.chunk(*c).is_some(), "missing resident chunk at {:?}", c);
    }

    // Every resident chunk is settled, and each with at least one solid
    // cell carries a non-empty mesh.
    for c in resident {
        let chunk = world.chunk(c).unwrap();
        assert!(!chunk.needs_remesh());
        let mut has_solid = false;
        for x in 0..16 {
            for y in 0..16 {
                for z in 0..16 {
                    if chunk.grid().cell(x, y, z) != 0 {
                        has_solid = true;
                    }
                }
            }
        }
        match chunk.mesh() {
            Some(mesh) => {
                assert!(has_solid);
                assert!(!mesh.vertices.is_empty());
                assert_eq!(mesh.indices.len() % 6, 0);
                assert_eq!(mesh.vertices.len() % 4, 0);
            },
            None => assert!(!has_solid, "a solid chunk at {:?} has no mesh", c),
        }
    }
}
