use voxel_engine::block::BlockList;
use voxel_engine::coords::{BlockPos, ChunkCoord};
use voxel_engine::terrain::{FieldSlab, Materials};
use voxel_engine::world::World;

fn materials() -> Materials {
    Materials { surface: 2, transitional: 1, deep: 3 }
}

fn catalog() -> BlockList {
    let mut c = BlockList::new();
    c.register("dirt".to_string(), false);
    c.register("grass".to_string(), true);
    c.register("stone".to_string(), false);
    c
}

fn new_world(render_distance: u32) -> World {
    World::new(7, render_distance, catalog(), materials())
}

fn slab_index(x: usize, y: usize, z: usize) -> usize {
    (x * 17 + y) * 16 + z
}

fn uniform_slab(band: u8) -> FieldSlab {
    FieldSlab::from_bands(vec![band; 16 * 17 * 16]).unwrap()
}

/// A slab that is solid only in the single given cell.
fn lone_cell_slab(x: usize, y: usize, z: usize) -> FieldSlab {
    let mut bands = vec![0u8; 16 * 17 * 16];
    bands[slab_index(x, y, z)] = 3;
    FieldSlab::from_bands(bands).unwrap()
}

#[test]
fn admission_is_idempotent() {
    let mut w = new_world(8);
    let observer = BlockPos::new(8, 8, 8);
    let c = ChunkCoord::new(1, 0, 0);
    assert!(w.generate_chunk(c, observer));
    assert_eq!(w.queue_len(), 1);
    assert!(w.is_queued(c));
    // A second admission of the same coordinate reports true and does not
    // enqueue it twice.
    assert!(w.generate_chunk(c, observer));
    assert_eq!(w.queue_len(), 1);
}

#[test]
fn admission_rejects_out_of_range() {
    let mut w = new_world(2);
    let observer = BlockPos::new(8, 8, 8);
    // Center of (3, 0, 0) is 48 blocks away; the render radius is 32.
    assert!(!w.generate_chunk(ChunkCoord::new(3, 0, 0), observer));
    assert_eq!(w.queue_len(), 0);
    // Center of (2, 0, 0) is exactly 32 blocks away: admitted.
    assert!(w.generate_chunk(ChunkCoord::new(2, 0, 0), observer));
    assert_eq!(w.queue_len(), 1);
}

#[test]
fn batches_dequeue_in_admission_order() {
    let mut w = new_world(8);
    let observer = BlockPos::new(8, 8, 8);
    let a = ChunkCoord::new(0, 0, 0);
    let b = ChunkCoord::new(1, 0, 0);
    let c = ChunkCoord::new(0, 1, 0);
    assert!(w.generate_chunk(a, observer));
    assert!(w.generate_chunk(b, observer));
    assert!(w.generate_chunk(c, observer));
    let batch = w.next_batch(2);
    assert_eq!(batch, vec![a, b]);
    assert_eq!(w.queue_len(), 1);
    let rest = w.next_batch(2);
    assert_eq!(rest, vec![c]);
    assert_eq!(w.queue_len(), 0);
}

#[test]
fn admitted_coordinates_become_resident_after_generation() {
    let mut w = new_world(8);
    let observer = BlockPos::new(8, 8, 8);
    let c = ChunkCoord::new(0, 0, 0);
    assert!(w.generate_chunk(c, observer));
    assert!(w.chunk(c).is_none());
    for at in w.next_batch(8) {
        w.insert_generated(at, &uniform_slab(3));
    }
    let chunk = w.chunk(c).expect("chunk should be resident after generation");
    assert!(chunk.needs_remesh());
    assert!(chunk.mesh().is_none());
    assert_eq!(chunk.grid().cell(5, 5, 5), 3);
    // Admission now reports true without touching the queue.
    assert!(w.generate_chunk(c, observer));
    assert_eq!(w.queue_len(), 0);
}

#[test]
fn meshing_clears_the_dirty_flag_and_installs_the_mesh() {
    let mut w = new_world(8);
    let c = ChunkCoord::new(0, 0, 0);
    w.insert_generated(c, &lone_cell_slab(8, 8, 8));
    assert_eq!(w.dirty_coords(), vec![c]);
    w.update_chunk_mesh(c);
    let chunk = w.chunk(c).unwrap();
    assert!(!chunk.needs_remesh());
    let mesh = chunk.mesh().as_ref().expect("a solid chunk should have a mesh");
    assert_eq!(mesh.vertices.len(), 24);
    assert_eq!(mesh.indices.len(), 36);
    assert!(w.dirty_coords().is_empty());
}

#[test]
fn all_air_chunk_gets_no_mesh() {
    let mut w = new_world(8);
    let c = ChunkCoord::new(0, 0, 0);
    w.insert_generated(c, &uniform_slab(0));
    w.update_chunk_mesh(c);
    let chunk = w.chunk(c).unwrap();
    assert!(!chunk.needs_remesh());
    assert!(chunk.mesh().is_none());
}

#[test]
fn inserting_a_neighbor_dirties_a_meshed_chunk_and_remeshing_updates_it() {
    let mut w = new_world(8);
    let a = ChunkCoord::new(0, 0, 0);
    // A chunk solid in its +x boundary cell, meshed with no neighbor.
    let mut bands = vec![0u8; 16 * 17 * 16];
    bands[slab_index(15, 8, 8)] = 3;
    w.insert_generated(a, &FieldSlab::from_bands(bands).unwrap());
    w.update_chunk_mesh(a);
    assert_eq!(w.chunk(a).unwrap().mesh().as_ref().unwrap().vertices.len(), 24);
    assert!(!w.chunk(a).unwrap().needs_remesh());

    // A new face-adjacent neighbor, solid in the facing boundary cell,
    // marks the meshed chunk dirty.
    let b = ChunkCoord::new(1, 0, 0);
    let mut bands_b = vec![0u8; 16 * 17 * 16];
    bands_b[slab_index(0, 8, 8)] = 3;
    w.insert_generated(b, &FieldSlab::from_bands(bands_b).unwrap());
    assert!(w.chunk(a).unwrap().needs_remesh());

    // The next meshing phase clears the flag and rebuilds against the
    // neighbor grid: the seam face is now culled on both sides.
    w.update_chunk_mesh(a);
    w.update_chunk_mesh(b);
    assert!(!w.chunk(a).unwrap().needs_remesh());
    assert_eq!(w.chunk(a).unwrap().mesh().as_ref().unwrap().vertices.len(), 20);
    assert_eq!(w.chunk(b).unwrap().mesh().as_ref().unwrap().vertices.len(), 20);
}

#[test]
fn inserting_far_from_neighbors_dirties_nothing_else() {
    let mut w = new_world(8);
    let a = ChunkCoord::new(0, 0, 0);
    w.insert_generated(a, &uniform_slab(3));
    w.update_chunk_mesh(a);
    // A diagonal (not face-adjacent) chunk does not dirty it.
    w.insert_generated(ChunkCoord::new(1, 1, 0), &uniform_slab(3));
    assert!(!w.chunk(a).unwrap().needs_remesh());
}

#[test]
fn eviction_honors_the_margin_and_readmission_regenerates() {
    // Render radius 2, margin 2: eviction radius is 4 chunks = 64 blocks.
    let mut w = new_world(2);
    let observer = BlockPos::new(8, 8, 8);
    let at_radius = ChunkCoord::new(4, 0, 0); // center 64 blocks away
    let beyond = ChunkCoord::new(5, 0, 0); // center 80 blocks away
    w.insert_generated(at_radius, &uniform_slab(3));
    w.insert_generated(beyond, &uniform_slab(3));
    w.evict(observer);
    // Exactly at the eviction radius: still resident.
    assert!(w.chunk(at_radius).is_some());
    // Strictly beyond it: removed.
    assert!(w.chunk(beyond).is_none());

    // The observer moves next to the evicted coordinate: admission queues
    // it again, and it becomes resident only through regeneration.
    let observer2 = BlockPos::new(5 * 16 + 8, 8, 8);
    assert!(w.generate_chunk(beyond, observer2));
    assert!(w.is_queued(beyond));
    assert!(w.chunk(beyond).is_none());
    for at in w.next_batch(8) {
        if at == beyond {
            w.insert_generated(at, &uniform_slab(0));
        } else {
            w.insert_generated(at, &uniform_slab(3));
        }
    }
    // Regenerated from the new slab, not reused: the grid is now all air.
    assert_eq!(w.chunk(beyond).unwrap().grid().cell(0, 0, 0), 0);
}

#[test]
fn get_block_at_resolves_chunk_and_cell() {
    let mut w = new_world(8);
    // A chunk at a negative coordinate with a single solid cell.
    let c = ChunkCoord::new(-1, 0, 0);
    w.insert_generated(c, &lone_cell_slab(15, 5, 3));
    // World block (-1, 5, 3) is cell (15, 5, 3) of chunk (-1, 0, 0).
    assert_eq!(w.get_block_at(BlockPos::new(-1, 5, 3)), Some(3));
    assert_eq!(w.get_block_at(BlockPos::new(-2, 5, 3)), Some(0));
    assert_eq!(w.get_block_at(BlockPos::new(-1, 5, 4)), Some(0));
    // The owning chunk of (0, 5, 3) is (0, 0, 0), which is not resident.
    assert_eq!(w.get_block_at(BlockPos::new(0, 5, 3)), None);
}

#[test]
fn admit_around_grows_the_frontier_without_duplicates() {
    let mut w = new_world(1);
    let observer = BlockPos::new(8, 8, 8);
    w.admit_around(observer);
    // Only the observer's own chunk is queued at first.
    assert_eq!(w.queue_len(), 1);
    for at in w.next_batch(8) {
        w.insert_generated(at, &uniform_slab(0));
    }
    assert!(w.chunk(ChunkCoord::new(0, 0, 0)).is_some());
    // The next pass admits the in-range face neighbors of the resident
    // chunk, each once.
    w.admit_around(observer);
    assert_eq!(w.queue_len(), 6);
    w.admit_around(observer);
    assert_eq!(w.queue_len(), 6);
}
