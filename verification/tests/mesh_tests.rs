use voxel_engine::block::BlockList;
use voxel_engine::chunk::ChunkGrid;
use voxel_engine::coords::ChunkCoord;
use voxel_engine::mesh::{build, MeshData, Neighbors};

fn catalog() -> BlockList {
    let mut c = BlockList::new();
    c.register("dirt".to_string(), false);
    c.register("grass".to_string(), true);
    c.register("stone".to_string(), false);
    c
}

fn grid_with(cells: &[(usize, usize, usize, u8)]) -> ChunkGrid {
    let mut g = ChunkGrid::empty();
    for &(x, y, z, id) in cells {
        g.set_cell(x, y, z, id);
    }
    g
}

fn build_with_empty_neighbors(g: &ChunkGrid, c: ChunkCoord, cat: &BlockList) -> MeshData {
    let e1 = ChunkGrid::empty();
    let e2 = ChunkGrid::empty();
    let e3 = ChunkGrid::empty();
    let e4 = ChunkGrid::empty();
    let e5 = ChunkGrid::empty();
    let e6 = ChunkGrid::empty();
    let n = Neighbors {
        left: Some(&e1),
        right: Some(&e2),
        down: Some(&e3),
        up: Some(&e4),
        front: Some(&e5),
        back: Some(&e6),
    };
    build(g, c, &n, cat)
}

#[test]
fn lone_cell_emits_six_quads() {
    let cat = catalog();
    let g = grid_with(&[(8, 8, 8, 1)]);
    let mesh = build_with_empty_neighbors(&g, ChunkCoord::new(0, 0, 0), &cat);
    assert_eq!(mesh.vertices.len(), 24);
    assert_eq!(mesh.indices.len(), 36);
}

#[test]
fn lone_boundary_cell_with_loaded_empty_neighbors_emits_six_quads() {
    let cat = catalog();
    let g = grid_with(&[(0, 0, 0, 3)]);
    let mesh = build_with_empty_neighbors(&g, ChunkCoord::new(-1, 2, 5), &cat);
    assert_eq!(mesh.vertices.len(), 24);
    assert_eq!(mesh.indices.len(), 36);
}

#[test]
fn empty_chunk_yields_empty_mesh() {
    let cat = catalog();
    let g = ChunkGrid::empty();
    let mesh = build_with_empty_neighbors(&g, ChunkCoord::new(0, 0, 0), &cat);
    assert_eq!(mesh.vertices.len(), 0);
    assert_eq!(mesh.indices.len(), 0);
}

#[test]
fn seam_faces_cancel_on_both_sides() {
    let cat = catalog();
    // Chunk a holds a solid cell on its +x boundary; chunk b, its
    // face-adjacent neighbor, holds the facing cell on its -x boundary.
    let a = grid_with(&[(15, 4, 4, 1)]);
    let b = grid_with(&[(0, 4, 4, 1)]);

    let na = Neighbors { left: None, right: Some(&b), down: None, up: None, front: None, back: None };
    let mesh_a = build(&a, ChunkCoord::new(0, 0, 0), &na, &cat);
    // Five quads: the face toward b is culled.
    assert_eq!(mesh_a.vertices.len(), 20);
    assert_eq!(mesh_a.indices.len(), 30);
    // No vertex lies on the shared boundary plane x = 16 twice per quad:
    // the +x face (all four corners at x == 16) is absent.
    let plane_quads = mesh_a.vertices.chunks(4).filter(|q| q.iter().all(|v| v.position.x == 16)).count();
    assert_eq!(plane_quads, 0);

    let nb = Neighbors { left: Some(&a), right: None, down: None, up: None, front: None, back: None };
    let mesh_b = build(&b, ChunkCoord::new(1, 0, 0), &nb, &cat);
    assert_eq!(mesh_b.vertices.len(), 20);
    let plane_quads_b = mesh_b.vertices.chunks(4).filter(|q| q.iter().all(|v| v.position.x == 16)).count();
    assert_eq!(plane_quads_b, 0);
}

#[test]
fn seam_culling_holds_on_every_axis() {
    let cat = catalog();
    // +y seam.
    let a = grid_with(&[(4, 15, 4, 1)]);
    let b = grid_with(&[(4, 0, 4, 1)]);
    let na = Neighbors { left: None, right: None, down: None, up: Some(&b), front: None, back: None };
    assert_eq!(build(&a, ChunkCoord::new(0, 0, 0), &na, &cat).vertices.len(), 20);
    // +z seam.
    let c = grid_with(&[(4, 4, 15, 1)]);
    let d = grid_with(&[(4, 4, 0, 1)]);
    let nc = Neighbors { left: None, right: None, down: None, up: None, front: None, back: Some(&d) };
    assert_eq!(build(&c, ChunkCoord::new(0, 0, 0), &nc, &cat).vertices.len(), 20);
}

#[test]
fn absent_neighbor_keeps_boundary_face() {
    let cat = catalog();
    // A solid cell on the -x boundary with no neighbor chunk on that side:
    // the boundary quad is always emitted.
    let g = grid_with(&[(0, 7, 7, 1)]);
    let n = Neighbors::none();
    let mesh = build(&g, ChunkCoord::new(0, 0, 0), &n, &cat);
    assert_eq!(mesh.vertices.len(), 24);
    let boundary_quads = mesh.vertices.chunks(4).filter(|q| q.iter().all(|v| v.position.x == 0)).count();
    assert_eq!(boundary_quads, 1);
}

#[test]
fn interior_faces_are_culled() {
    let cat = catalog();
    // Two cells side by side share a hidden face each: 10 quads, not 12.
    let g = grid_with(&[(8, 8, 8, 1), (9, 8, 8, 3)]);
    let mesh = build_with_empty_neighbors(&g, ChunkCoord::new(0, 0, 0), &cat);
    assert_eq!(mesh.vertices.len(), 40);
    assert_eq!(mesh.indices.len(), 60);
}

#[test]
fn quad_geometry_is_exact() {
    let cat = catalog();
    let g = grid_with(&[(0, 0, 0, 1)]);
    let n = Neighbors::none();
    let mesh = build(&g, ChunkCoord::new(0, 0, 0), &n, &cat);
    assert_eq!(mesh.vertices.len(), 24);
    // Faces are swept left, right, down, up, front, back; the first quad
    // is the -x face of the cell at the origin.
    let q = &mesh.vertices[0..4];
    let pos: Vec<(i64, i64, i64)> = q.iter().map(|v| (v.position.x, v.position.y, v.position.z)).collect();
    assert_eq!(pos, vec![(0, 1, 1), (0, 1, 0), (0, 0, 0), (0, 0, 1)]);
    for v in q {
        assert_eq!((v.normal.x, v.normal.y, v.normal.z), (-1, 0, 0));
    }
    // Block id 1 is single-textured: atlas column 0, row 1, corners
    // ordered top-right, top-left, bottom-left, bottom-right.
    let tex: Vec<(u32, u32)> = q.iter().map(|v| (v.tex.u, v.tex.v)).collect();
    assert_eq!(tex, vec![(1, 1), (0, 1), (0, 2), (1, 2)]);
    // Two counter-clockwise triangles per quad.
    assert_eq!(&mesh.indices[0..6], &[0, 1, 2, 0, 2, 3]);
    assert_eq!(&mesh.indices[6..12], &[4, 5, 6, 4, 6, 7]);
}

#[test]
fn winding_is_counter_clockwise_around_the_outward_normal() {
    let cat = catalog();
    let g = grid_with(&[(3, 5, 7, 1)]);
    let n = Neighbors::none();
    let mesh = build(&g, ChunkCoord::new(0, 0, 0), &n, &cat);
    assert_eq!(mesh.vertices.len(), 24);
    for q in mesh.vertices.chunks(4) {
        let e1 = (
            q[1].position.x - q[0].position.x,
            q[1].position.y - q[0].position.y,
            q[1].position.z - q[0].position.z,
        );
        let e2 = (
            q[2].position.x - q[1].position.x,
            q[2].position.y - q[1].position.y,
            q[2].position.z - q[1].position.z,
        );
        let cross = (
            e1.1 * e2.2 - e1.2 * e2.1,
            e1.2 * e2.0 - e1.0 * e2.2,
            e1.0 * e2.1 - e1.1 * e2.0,
        );
        assert_eq!(cross, (q[0].normal.x, q[0].normal.y, q[0].normal.z));
    }
}
