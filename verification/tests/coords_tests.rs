use voxel_engine::block::{BlockList, Side};
use voxel_engine::coords::{floor_div_chunk, BlockPos, ChunkCoord, CHUNK_SIZE, GRID_MAX};
use voxel_engine::input::State;

#[test]
fn chunk_constants() {
    assert_eq!(CHUNK_SIZE, 16);
    assert_eq!(GRID_MAX, 15);
}

#[test]
fn floor_division_owns_each_block_once() {
    assert_eq!(floor_div_chunk(0), 0);
    assert_eq!(floor_div_chunk(15), 0);
    assert_eq!(floor_div_chunk(16), 1);
    assert_eq!(floor_div_chunk(31), 1);
    assert_eq!(floor_div_chunk(-1), -1);
    assert_eq!(floor_div_chunk(-16), -1);
    assert_eq!(floor_div_chunk(-17), -2);
    // The chunk at coordinate q owns exactly [16 q, 16 q + 16).
    for v in -40i64..40 {
        let q = floor_div_chunk(v);
        assert!(16 * q <= v && v < 16 * q + 16);
    }
}

#[test]
fn coordinate_constructors() {
    let c = ChunkCoord::new(-3, 0, 7);
    assert_eq!((c.x, c.y, c.z), (-3, 0, 7));
    let p = BlockPos::new(5, -64, 123);
    assert_eq!((p.x, p.y, p.z), (5, -64, 123));
}

#[test]
fn catalog_assigns_dense_ids_from_one() {
    let mut cat = BlockList::new();
    assert_eq!(cat.len(), 0);
    let dirt = cat.register("dirt".to_string(), false);
    let grass = cat.register("grass".to_string(), true);
    let stone = cat.register("stone".to_string(), false);
    assert_eq!((dirt, grass, stone), (1, 2, 3));
    assert_eq!(cat.len(), 3);
    assert!(cat.block_for(0).is_none());
    assert!(cat.block_for(4).is_none());
    let g = cat.block_for(2).unwrap();
    assert_eq!(g.name, "grass");
    assert!(g.sided);
    assert_eq!(g.id, 2);
}

#[test]
fn tex_coords_of_a_single_textured_block() {
    let mut cat = BlockList::new();
    cat.register("dirt".to_string(), false);
    let dirt = cat.block_for(1).unwrap();
    // Column 0, row = id, corners top-right, top-left, bottom-left,
    // bottom-right in tile units.
    let (tr, tl, bl, br) = dirt.get_tex_coords(Side::Top);
    assert_eq!((tr.u, tr.v), (1, 1));
    assert_eq!((tl.u, tl.v), (0, 1));
    assert_eq!((bl.u, bl.v), (0, 2));
    assert_eq!((br.u, br.v), (1, 2));
    let (tr2, _, _, _) = dirt.get_tex_coords(Side::Left);
    assert_eq!((tr2.u, tr2.v), (1, 1));
}

#[test]
fn tex_coords_of_a_per_face_textured_block() {
    let mut cat = BlockList::new();
    cat.register("dirt".to_string(), false);
    cat.register("grass".to_string(), true);
    let grass = cat.block_for(2).unwrap();
    // Top reads column 1, sides column 2, bottom column 3; row = id.
    let (tr, tl, _, _) = grass.get_tex_coords(Side::Top);
    assert_eq!((tl.u, tl.v), (1, 2));
    assert_eq!((tr.u, tr.v), (2, 2));
    let (_, tl_side, _, _) = grass.get_tex_coords(Side::Front);
    assert_eq!((tl_side.u, tl_side.v), (2, 2));
    let (_, tl_bottom, _, br_bottom) = grass.get_tex_coords(Side::Bottom);
    assert_eq!((tl_bottom.u, tl_bottom.v), (3, 2));
    assert_eq!((br_bottom.u, br_bottom.v), (4, 3));
}

#[test]
fn key_state_transitions() {
    let s = State::new();
    assert!(!s.held && !s.just_pressed && !s.just_released);
    let pressed = s.apply(true);
    assert!(pressed.held && pressed.just_pressed && !pressed.just_released);
    let still_held = pressed.apply(true);
    assert!(still_held.held && !still_held.just_pressed && !still_held.just_released);
    let released = still_held.apply(false);
    assert!(!released.held && !released.just_pressed && released.just_released);
    let idle = released.apply(false);
    assert!(!idle.held && !idle.just_pressed && !idle.just_released);
}
