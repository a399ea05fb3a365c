//! Face-culling mesh generation.
//!
//! Every solid cell contributes one quad (two counter-clockwise triangles)
//! for each of its six faces whose adjacent cell is not solid. The adjacent
//! cell is the same-chunk neighbor for interior faces; across a chunk
//! boundary it is the facing boundary cell of the neighbor grid when one is
//! supplied, and an absent neighbor leaves the face visible, so the edge of
//! the loaded world is always rendered closed.

use vstd::prelude::*;

use crate::block::{Block, BlockList, Side, TexCoord};
use crate::chunk::{grid_index, in_chunk, lemma_grid_index_inverse, ChunkGrid, Face};
use crate::coords::ChunkCoord;

verus! {

/// A world-space integer vector: vertex positions (block corners) and face
/// normals both have integer coordinates.
#[derive(Clone, Copy, PartialEq, Eq, Structural, Debug)]
pub struct Vec3i {
    pub x: i64,
    pub y: i64,
    pub z: i64,
}

/// One mesh vertex: a block-corner position, the outward face normal, and
/// a texture-atlas position in tile units.
#[derive(Clone, Copy, PartialEq, Eq, Structural, Debug)]
pub struct Vertex {
    pub position: Vec3i,
    pub normal: Vec3i,
    pub tex: TexCoord,
}

/// Renderable geometry for one chunk: a vertex buffer and an index buffer,
/// two counter-clockwise triangles per quad.
pub struct MeshData {
    pub vertices: Vec<Vertex>,
    pub indices: Vec<u32>,
}

/// The up-to-six neighbor grids available while meshing one chunk, by the
/// direction in which each neighbor lies.
pub struct Neighbors<'a> {
    pub left: Option<&'a ChunkGrid>,
    pub right: Option<&'a ChunkGrid>,
    pub down: Option<&'a ChunkGrid>,
    pub up: Option<&'a ChunkGrid>,
    pub front: Option<&'a ChunkGrid>,
    pub back: Option<&'a ChunkGrid>,
}

/// The cell contents of the neighbor grids, by direction.
pub struct NeighborsView {
    pub left: Option<Seq<u8>>,
    pub right: Option<Seq<u8>>,
    pub down: Option<Seq<u8>>,
    pub up: Option<Seq<u8>>,
    pub front: Option<Seq<u8>>,
    pub back: Option<Seq<u8>>,
}

impl<'a> View for Neighbors<'a> {
    type V = NeighborsView;

    open spec fn view(&self) -> NeighborsView {
        NeighborsView {
            left: match self.left {
                Some(g) => Some(g@),
                None => None,
            },
            right: match self.right {
                Some(g) => Some(g@),
                None => None,
            },
            down: match self.down {
                Some(g) => Some(g@),
                None => None,
            },
            up: match self.up {
                Some(g) => Some(g@),
                None => None,
            },
            front: match self.front {
                Some(g) => Some(g@),
                None => None,
            },
            back: match self.back {
                Some(g) => Some(g@),
                None => None,
            },
        }
    }
}

impl<'a> Neighbors<'a> {
    pub open spec fn wf(self) -> bool {
        &&& match self.left {
            Some(g) => g.wf(),
            None => true,
        }
        &&& match self.right {
            Some(g) => g.wf(),
            None => true,
        }
        &&& match self.down {
            Some(g) => g.wf(),
            None => true,
        }
        &&& match self.up {
            Some(g) => g.wf(),
            None => true,
        }
        &&& match self.front {
            Some(g) => g.wf(),
            None => true,
        }
        &&& match self.back {
            Some(g) => g.wf(),
            None => true,
        }
    }

    /// No neighbor supplied in any direction.
    pub fn none() -> (r: Neighbors<'a>)
        ensures
            r.wf(),
            r@.left is None,
            r@.right is None,
            r@.down is None,
            r@.up is None,
            r@.front is None,
            r@.back is None,
    {
        Neighbors { left: None, right: None, down: None, up: None, front: None, back: None }
    }
}

/// Whether the cell `(x, y, z)` of grid `g` holds a solid block.
pub open spec fn solid_at(g: Seq<u8>, x: int, y: int, z: int) -> bool {
    g[grid_index(x, y, z)] != 0
}

/// Whether the cell adjacent to `(x, y, z)` on face `f` is solid. For an
/// interior face this reads the chunk's own grid; at the chunk boundary it
/// reads the facing boundary cell of the neighbor grid in that direction,
/// and an absent neighbor counts as not solid.
pub open spec fn adjacent_solid(g: Seq<u8>, n: NeighborsView, x: int, y: int, z: int, f: Face) -> bool {
    match f {
        Face::Left => if x > 0 {
            solid_at(g, x - 1, y, z)
        } else {
            match n.left {
                Some(m) => solid_at(m, 15, y, z),
                None => false,
            }
        },
        Face::Right => if x < 15 {
            solid_at(g, x + 1, y, z)
        } else {
            match n.right {
                Some(m) => solid_at(m, 0, y, z),
                None => false,
            }
        },
        Face::Down => if y > 0 {
            solid_at(g, x, y - 1, z)
        } else {
            match n.down {
                Some(m) => solid_at(m, x, 15, z),
                None => false,
            }
        },
        Face::Up => if y < 15 {
            solid_at(g, x, y + 1, z)
        } else {
            match n.up {
                Some(m) => solid_at(m, x, 0, z),
                None => false,
            }
        },
        Face::Front => if z > 0 {
            solid_at(g, x, y, z - 1)
        } else {
            match n.front {
                Some(m) => solid_at(m, x, y, 15),
                None => false,
            }
        },
        Face::Back => if z < 15 {
            solid_at(g, x, y, z + 1)
        } else {
            match n.back {
                Some(m) => solid_at(m, x, y, 0),
                None => false,
            }
        },
    }
}

/// Whether the face `f` of cell `(x, y, z)` produces a quad: the cell is
/// solid and the adjacent cell on that side is not.
pub open spec fn face_visible(g: Seq<u8>, n: NeighborsView, x: int, y: int, z: int, f: Face) -> bool {
    solid_at(g, x, y, z) && !adjacent_solid(g, n, x, y, z, f)
}

/// The atlas side a face reads its texture from.
pub open spec fn side_of(f: Face) -> Side {
    match f {
        Face::Front => Side::Front,
        Face::Back => Side::Back,
        Face::Left => Side::Left,
        Face::Right => Side::Right,
        Face::Up => Side::Top,
        Face::Down => Side::Bottom,
    }
}

/// The world-space block corner at offset `(dx, dy, dz)` from cell
/// `(x, y, z)` of chunk `c`.
pub open spec fn corner(c: ChunkCoord, x: int, y: int, z: int, dx: int, dy: int, dz: int) -> Vec3i {
    Vec3i {
        x: (16 * c.x + x + dx) as i64,
        y: (16 * c.y + y + dy) as i64,
        z: (16 * c.z + z + dz) as i64,
    }
}

/// The outward normal of face `f`.
pub open spec fn normal_of(f: Face) -> Vec3i {
    Vec3i { x: f.delta_x() as i64, y: f.delta_y() as i64, z: f.delta_z() as i64 }
}

/// The four vertices of the quad on face `f` of cell `(x, y, z)` of chunk
/// `c`, for block `b`: counter-clockwise seen from outside, paired with
/// the atlas tile corners top-right, top-left, bottom-left, bottom-right.
pub open spec fn quad_verts(c: ChunkCoord, x: int, y: int, z: int, f: Face, b: Block) -> Seq<Vertex> {
    let col = b.tex_column(side_of(f));
    let row = b.tex_row();
    let t0 = TexCoord { u: (col + 1) as u32, v: row as u32 };
    let t1 = TexCoord { u: col as u32, v: row as u32 };
    let t2 = TexCoord { u: col as u32, v: (row + 1) as u32 };
    let t3 = TexCoord { u: (col + 1) as u32, v: (row + 1) as u32 };
    let n = normal_of(f);
    let p = match f {
        Face::Left => seq![
            corner(c, x, y, z, 0, 1, 1),
            corner(c, x, y, z, 0, 1, 0),
            corner(c, x, y, z, 0, 0, 0),
            corner(c, x, y, z, 0, 0, 1),
        ],
        Face::Right => seq![
            corner(c, x, y, z, 1, 1, 0),
            corner(c, x, y, z, 1, 1, 1),
            corner(c, x, y, z, 1, 0, 1),
            corner(c, x, y, z, 1, 0, 0),
        ],
        Face::Down => seq![
            corner(c, x, y, z, 1, 0, 1),
            corner(c, x, y, z, 0, 0, 1),
            corner(c, x, y, z, 0, 0, 0),
            corner(c, x, y, z, 1, 0, 0),
        ],
        Face::Up => seq![
            corner(c, x, y, z, 1, 1, 0),
            corner(c, x, y, z, 0, 1, 0),
            corner(c, x, y, z, 0, 1, 1),
            corner(c, x, y, z, 1, 1, 1),
        ],
        Face::Front => seq![
            corner(c, x, y, z, 0, 1, 0),
            corner(c, x, y, z, 1, 1, 0),
            corner(c, x, y, z, 1, 0, 0),
            corner(c, x, y, z, 0, 0, 0),
        ],
        Face::Back => seq![
            corner(c, x, y, z, 1, 1, 1),
            corner(c, x, y, z, 0, 1, 1),
            corner(c, x, y, z, 0, 0, 1),
            corner(c, x, y, z, 1, 0, 1),
        ],
    };
    seq![
        Vertex { position: p[0], normal: n, tex: t0 },
        Vertex { position: p[1], normal: n, tex: t1 },
        Vertex { position: p[2], normal: n, tex: t2 },
        Vertex { position: p[3], normal: n, tex: t3 },
    ]
}

/// The catalog entry used for a cell id: ids index the catalog densely
/// from 1.
pub open spec fn block_of(cat: Seq<Block>, id: u8) -> Block {
    cat[id - 1]
}

/// Whether every cell id of `g` is air or a registered catalog id.
pub open spec fn ids_ok(g: Seq<u8>, ncat: int) -> bool {
    forall|i: int| 0 <= i < g.len() ==> #[trigger] g[i] <= ncat
}

/// The face checked at step `k` of a cell's face sweep.
pub open spec fn face_at(k: int) -> Face {
    if k == 0 {
        Face::Left
    } else if k == 1 {
        Face::Right
    } else if k == 2 {
        Face::Down
    } else if k == 3 {
        Face::Up
    } else if k == 4 {
        Face::Front
    } else {
        Face::Back
    }
}

/// The quad vertices contributed by face `f` of cell `(x, y, z)`: four
/// vertices when the face is visible, none otherwise.
pub open spec fn face_quad(
    g: Seq<u8>,
    n: NeighborsView,
    c: ChunkCoord,
    cat: Seq<Block>,
    x: int,
    y: int,
    z: int,
    f: Face,
) -> Seq<Vertex> {
    if face_visible(g, n, x, y, z, f) {
        quad_verts(c, x, y, z, f, block_of(cat, g[grid_index(x, y, z)]))
    } else {
        Seq::empty()
    }
}

/// The vertices contributed by the first `k` faces of cell `(x, y, z)`,
/// in face-sweep order.
pub open spec fn cell_verts_upto(
    g: Seq<u8>,
    n: NeighborsView,
    c: ChunkCoord,
    cat: Seq<Block>,
    x: int,
    y: int,
    z: int,
    k: int,
) -> Seq<Vertex>
    decreases k,
{
    if k <= 0 {
        Seq::empty()
    } else {
        cell_verts_upto(g, n, c, cat, x, y, z, k - 1) + face_quad(g, n, c, cat, x, y, z, face_at(k - 1))
    }
}

/// The number of visible faces among the first `k` faces of cell
/// `(x, y, z)`.
pub open spec fn cell_quads_upto(
    g: Seq<u8>,
    n: NeighborsView,
    x: int,
    y: int,
    z: int,
    k: int,
) -> nat
    decreases k,
{
    if k <= 0 {
        0
    } else {
        cell_quads_upto(g, n, x, y, z, k - 1) + (if face_visible(g, n, x, y, z, face_at(k - 1)) {
            1nat
        } else {
            0nat
        })
    }
}

/// Cell coordinates of the `l`-th cell in mesh sweep order: x varies
/// fastest, then y, then z.
pub open spec fn sweep_x(l: int) -> int {
    l % 16
}

pub open spec fn sweep_y(l: int) -> int {
    (l / 16) % 16
}

pub open spec fn sweep_z(l: int) -> int {
    l / 256
}

/// The vertices contributed by the first `l` cells in sweep order.
pub open spec fn mesh_verts_upto(
    g: Seq<u8>,
    n: NeighborsView,
    c: ChunkCoord,
    cat: Seq<Block>,
    l: int,
) -> Seq<Vertex>
    decreases l,
{
    if l <= 0 {
        Seq::empty()
    } else {
        mesh_verts_upto(g, n, c, cat, l - 1)
            + cell_verts_upto(g, n, c, cat, sweep_x(l - 1), sweep_y(l - 1), sweep_z(l - 1), 6)
    }
}

/// The number of quads contributed by the first `l` cells in sweep order.
pub open spec fn quad_count_upto(g: Seq<u8>, n: NeighborsView, l: int) -> nat
    decreases l,
{
    if l <= 0 {
        0
    } else {
        quad_count_upto(g, n, l - 1) + cell_quads_upto(
            g,
            n,
            sweep_x(l - 1),
            sweep_y(l - 1),
            sweep_z(l - 1),
            6,
        )
    }
}

/// The vertices of the whole mesh of one chunk.
pub open spec fn mesh_verts(g: Seq<u8>, n: NeighborsView, c: ChunkCoord, cat: Seq<Block>) -> Seq<Vertex> {
    mesh_verts_upto(g, n, c, cat, 4096)
}

/// The number of quads of the whole mesh of one chunk.
pub open spec fn quad_count(g: Seq<u8>, n: NeighborsView) -> nat {
    quad_count_upto(g, n, 4096)
}

/// The index entries of quad number `q`: two counter-clockwise triangles
/// over its four vertices.
pub open spec fn quad_indices(q: int) -> Seq<u32> {
    seq![
        (4 * q) as u32,
        (4 * q + 1) as u32,
        (4 * q + 2) as u32,
        (4 * q) as u32,
        (4 * q + 2) as u32,
        (4 * q + 3) as u32,
    ]
}

/// The index buffer for `nq` quads.
pub open spec fn mesh_indices(nq: int) -> Seq<u32>
    decreases nq,
{
    if nq <= 0 {
        Seq::empty()
    } else {
        mesh_indices(nq - 1) + quad_indices(nq - 1)
    }
}

/// Appends one quad over vertices `p0..p3` (counter-clockwise, outward
/// normal `n`) with texture corners `t`, as four vertices and two
/// triangles with consistent winding.
pub fn triangulate_quad(
    p0: Vec3i,
    p1: Vec3i,
    p2: Vec3i,
    p3: Vec3i,
    vertices: &mut Vec<Vertex>,
    indices: &mut Vec<u32>,
    n: Vec3i,
    t: (TexCoord, TexCoord, TexCoord, TexCoord),
)
    requires
        old(vertices)@.len() % 4 == 0,
        old(vertices)@.len() <= 98300,
    ensures
        final(vertices)@ == old(vertices)@
            + seq![
            Vertex { position: p0, normal: n, tex: t.0 },
            Vertex { position: p1, normal: n, tex: t.1 },
            Vertex { position: p2, normal: n, tex: t.2 },
            Vertex { position: p3, normal: n, tex: t.3 },
        ],
        final(indices)@ == old(indices)@ + quad_indices(old(vertices)@.len() as int / 4),
{
    vertices.push(Vertex { position: p0, normal: n, tex: t.0 });
    vertices.push(Vertex { position: p1, normal: n, tex: t.1 });
    vertices.push(Vertex { position: p2, normal: n, tex: t.2 });
    vertices.push(Vertex { position: p3, normal: n, tex: t.3 });

    let l: usize = vertices.len();
    indices.push((l - 4) as u32);
    indices.push((l - 3) as u32);
    indices.push((l - 2) as u32);

    indices.push((l - 4) as u32);
    indices.push((l - 2) as u32);
    indices.push((l - 1) as u32);

    proof {
        let q = old(vertices)@.len() as int / 4;
        assert(4 * q == old(vertices)@.len() as int);
        assert(final(indices)@ =~= old(indices)@ + quad_indices(q));
        assert(final(vertices)@ =~= old(vertices)@
            + seq![
            Vertex { position: p0, normal: n, tex: t.0 },
            Vertex { position: p1, normal: n, tex: t.1 },
            Vertex { position: p2, normal: n, tex: t.2 },
            Vertex { position: p3, normal: n, tex: t.3 },
        ]);
    }
}

/// Appends the quad for face `f` of cell `(x, y, z)` of chunk `c`, for
/// block `b`: the four corner vertices of `quad_verts` and one quad's
/// indices.
pub fn build_face(
    c: ChunkCoord,
    x: usize,
    y: usize,
    z: usize,
    f: Face,
    b: &Block,
    vertices: &mut Vec<Vertex>,
    indices: &mut Vec<u32>,
)
    requires
        in_chunk(x as int, y as int, z as int),
        old(vertices)@.len() % 4 == 0,
        old(vertices)@.len() <= 98300,
    ensures
        final(vertices)@ == old(vertices)@ + quad_verts(c, x as int, y as int, z as int, f, *b),
        final(indices)@ == old(indices)@ + quad_indices(old(vertices)@.len() as int / 4),
{
    let ox: i64 = 16 * (c.x as i64) + (x as i64);
    let oy: i64 = 16 * (c.y as i64) + (y as i64);
    let oz: i64 = 16 * (c.z as i64) + (z as i64);

    let n: Vec3i = match f {
        Face::Left => Vec3i { x: -1, y: 0, z: 0 },
        Face::Right => Vec3i { x: 1, y: 0, z: 0 },
        Face::Down => Vec3i { x: 0, y: -1, z: 0 },
        Face::Up => Vec3i { x: 0, y: 1, z: 0 },
        Face::Front => Vec3i { x: 0, y: 0, z: -1 },
        Face::Back => Vec3i { x: 0, y: 0, z: 1 },
    };
    let side: Side = match f {
        Face::Left => Side::Left,
        Face::Right => Side::Right,
        Face::Down => Side::Bottom,
        Face::Up => Side::Top,
        Face::Front => Side::Front,
        Face::Back => Side::Back,
    };
    let t = b.get_tex_coords(side);

    let (p0, p1, p2, p3): (Vec3i, Vec3i, Vec3i, Vec3i) = match f {
        Face::Left => (
            Vec3i { x: ox, y: oy + 1, z: oz + 1 },
            Vec3i { x: ox, y: oy + 1, z: oz },
            Vec3i { x: ox, y: oy, z: oz },
            Vec3i { x: ox, y: oy, z: oz + 1 },
        ),
        Face::Right => (
            Vec3i { x: ox + 1, y: oy + 1, z: oz },
            Vec3i { x: ox + 1, y: oy + 1, z: oz + 1 },
            Vec3i { x: ox + 1, y: oy, z: oz + 1 },
            Vec3i { x: ox + 1, y: oy, z: oz },
        ),
        Face::Down => (
            Vec3i { x: ox + 1, y: oy, z: oz + 1 },
            Vec3i { x: ox, y: oy, z: oz + 1 },
            Vec3i { x: ox, y: oy, z: oz },
            Vec3i { x: ox + 1, y: oy, z: oz },
        ),
        Face::Up => (
            Vec3i { x: ox + 1, y: oy + 1, z: oz },
            Vec3i { x: ox, y: oy + 1, z: oz },
            Vec3i { x: ox, y: oy + 1, z: oz + 1 },
            Vec3i { x: ox + 1, y: oy + 1, z: oz + 1 },
        ),
        Face::Front => (
            Vec3i { x: ox, y: oy + 1, z: oz },
            Vec3i { x: ox + 1, y: oy + 1, z: oz },
            Vec3i { x: ox + 1, y: oy, z: oz },
            Vec3i { x: ox, y: oy, z: oz },
        ),
        Face::Back => (
            Vec3i { x: ox + 1, y: oy + 1, z: oz + 1 },
            Vec3i { x: ox, y: oy + 1, z: oz + 1 },
            Vec3i { x: ox, y: oy, z: oz + 1 },
            Vec3i { x: ox + 1, y: oy, z: oz + 1 },
        ),
    };

    triangulate_quad(p0, p1, p2, p3, vertices, indices, n, t);

    proof {
        assert(final(vertices)@ =~= old(vertices)@
            + quad_verts(c, x as int, y as int, z as int, f, *b));
    }
}

/// Appends the quad for face `f` of solid cell `(x, y, z)` exactly when
/// that face is visible: the adjacent cell, read from the chunk's own grid
/// or from the neighbor grid across the boundary, is not solid.
fn emit_face(
    grid: &ChunkGrid,
    neighbors: &Neighbors<'_>,
    c: ChunkCoord,
    x: usize,
    y: usize,
    z: usize,
    f: Face,
    b: &Block,
    vertices: &mut Vec<Vertex>,
    indices: &mut Vec<u32>,
    Ghost(cat): Ghost<Seq<Block>>,
    Ghost(q): Ghost<nat>,
)
    requires
        grid.wf(),
        neighbors.wf(),
        in_chunk(x as int, y as int, z as int),
        solid_at(grid@, x as int, y as int, z as int),
        *b == block_of(cat, grid@[grid_index(x as int, y as int, z as int)]),
        old(vertices)@.len() == 4 * q,
        q <= 24575,
    ensures
        final(vertices)@ == old(vertices)@
            + face_quad(grid@, neighbors@, c, cat, x as int, y as int, z as int, f),
        final(indices)@ == (if face_visible(grid@, neighbors@, x as int, y as int, z as int, f) {
            old(indices)@ + quad_indices(q as int)
        } else {
            old(indices)@
        }),
        final(vertices)@.len() == old(vertices)@.len() + (if face_visible(
            grid@,
            neighbors@,
            x as int,
            y as int,
            z as int,
            f,
        ) {
            4int
        } else {
            0int
        }),
{
    let adj: bool = match f {
        Face::Left => if x > 0 {
            grid.cell(x - 1, y, z) != 0
        } else {
            match neighbors.left {
                Some(m) => m.cell(15, y, z) != 0,
                None => false,
            }
        },
        Face::Right => if x < 15 {
            grid.cell(x + 1, y, z) != 0
        } else {
            match neighbors.right {
                Some(m) => m.cell(0, y, z) != 0,
                None => false,
            }
        },
        Face::Down => if y > 0 {
            grid.cell(x, y - 1, z) != 0
        } else {
            match neighbors.down {
                Some(m) => m.cell(x, 15, z) != 0,
                None => false,
            }
        },
        Face::Up => if y < 15 {
            grid.cell(x, y + 1, z) != 0
        } else {
            match neighbors.up {
                Some(m) => m.cell(x, 0, z) != 0,
                None => false,
            }
        },
        Face::Front => if z > 0 {
            grid.cell(x, y, z - 1) != 0
        } else {
            match neighbors.front {
                Some(m) => m.cell(x, y, 15) != 0,
                None => false,
            }
        },
        Face::Back => if z < 15 {
            grid.cell(x, y, z + 1) != 0
        } else {
            match neighbors.back {
                Some(m) => m.cell(x, y, 0) != 0,
                None => false,
            }
        },
    };
    proof {
        assert(adj == adjacent_solid(grid@, neighbors@, x as int, y as int, z as int, f));
    }
    if !adj {
        build_face(c, x, y, z, f, b, vertices, indices);
        proof {
            vstd::arithmetic::div_mod::lemma_fundamental_div_mod_converse(
                4 * (q as int),
                4,
                q as int,
                0,
            );
        }
    } else {
        proof {
            assert(final(vertices)@ =~= old(vertices)@
                + face_quad(grid@, neighbors@, c, cat, x as int, y as int, z as int, f));
        }
    }
}

/// A cell that is not solid contributes no vertices and no quads.
proof fn lemma_cell_empty(
    g: Seq<u8>,
    n: NeighborsView,
    c: ChunkCoord,
    cat: Seq<Block>,
    x: int,
    y: int,
    z: int,
    k: int,
)
    requires
        !solid_at(g, x, y, z),
        0 <= k <= 6,
    ensures
        cell_verts_upto(g, n, c, cat, x, y, z, k) == Seq::<Vertex>::empty(),
        cell_quads_upto(g, n, x, y, z, k) == 0,
    decreases k,
{
    if k > 0 {
        lemma_cell_empty(g, n, c, cat, x, y, z, k - 1);
        assert(!face_visible(g, n, x, y, z, face_at(k - 1)));
        assert(cell_verts_upto(g, n, c, cat, x, y, z, k) =~= Seq::<Vertex>::empty());
    } else {
        assert(cell_verts_upto(g, n, c, cat, x, y, z, k) =~= Seq::<Vertex>::empty());
    }
}

/// Sweep coordinates can be read back from a sweep index.
proof fn lemma_sweep_inverse(x: int, y: int, z: int)
    requires
        in_chunk(x, y, z),
    ensures
        sweep_x(256 * (z as int) + 16 * (y as int) + (x as int)) == x,
        sweep_y(256 * (z as int) + 16 * (y as int) + (x as int)) == y,
        sweep_z(256 * (z as int) + 16 * (y as int) + (x as int)) == z,
{
    let l = 256 * (z as int) + 16 * (y as int) + (x as int);
    vstd::arithmetic::div_mod::lemma_fundamental_div_mod_converse(l, 16, 16 * z + y, x);
    vstd::arithmetic::div_mod::lemma_fundamental_div_mod_converse(16 * z + y, 16, z, y);
    vstd::arithmetic::div_mod::lemma_fundamental_div_mod_converse(l, 256, z, 16 * y + x);
}

/// A cell contributes at most one quad per face checked.
proof fn lemma_cell_quads_bound(g: Seq<u8>, n: NeighborsView, x: int, y: int, z: int, k: int)
    requires
        0 <= k <= 6,
    ensures
        cell_quads_upto(g, n, x, y, z, k) <= k,
    decreases k,
{
    if k > 0 {
        lemma_cell_quads_bound(g, n, x, y, z, k - 1);
    }
}

/// One step of a cell's face sweep: appending the quad of face number
/// `k - 1` (when visible) advances the vertex and index buffers from their
/// state after `k - 1` faces to their state after `k` faces.
proof fn lemma_emit_step(
    g: Seq<u8>,
    n: NeighborsView,
    c: ChunkCoord,
    cat: Seq<Block>,
    x: int,
    y: int,
    z: int,
    k: int,
    base_v: Seq<Vertex>,
    vs: Seq<Vertex>,
    ix: Seq<u32>,
    q0: nat,
)
    requires
        1 <= k <= 6,
        base_v.len() == 4 * q0,
        vs == (base_v + cell_verts_upto(g, n, c, cat, x, y, z, k - 1)) + face_quad(
            g,
            n,
            c,
            cat,
            x,
            y,
            z,
            face_at(k - 1),
        ),
        ix == (if face_visible(g, n, x, y, z, face_at(k - 1)) {
            mesh_indices((q0 + cell_quads_upto(g, n, x, y, z, k - 1)) as int) + quad_indices(
                (q0 + cell_quads_upto(g, n, x, y, z, k - 1)) as int,
            )
        } else {
            mesh_indices((q0 + cell_quads_upto(g, n, x, y, z, k - 1)) as int)
        }),
    ensures
        vs == base_v + cell_verts_upto(g, n, c, cat, x, y, z, k),
        ix == mesh_indices((q0 + cell_quads_upto(g, n, x, y, z, k)) as int),
        cell_quads_upto(g, n, x, y, z, k) <= k,
        vs.len() == 4 * (q0 + cell_quads_upto(g, n, x, y, z, k)),
{
    vstd::seq_lib::lemma_concat_associative(
        base_v,
        cell_verts_upto(g, n, c, cat, x, y, z, k - 1),
        face_quad(g, n, c, cat, x, y, z, face_at(k - 1)),
    );
    lemma_cell_quads_bound(g, n, x, y, z, k);
    lemma_cell_verts_len(g, n, c, cat, x, y, z, k - 1);
    lemma_cell_verts_len(g, n, c, cat, x, y, z, k);
}

/// After `k` faces of a cell's sweep, four vertices stand per emitted quad.
proof fn lemma_cell_verts_len(
    g: Seq<u8>,
    n: NeighborsView,
    c: ChunkCoord,
    cat: Seq<Block>,
    x: int,
    y: int,
    z: int,
    k: int,
)
    requires
        0 <= k <= 6,
    ensures
        cell_verts_upto(g, n, c, cat, x, y, z, k).len() == 4 * cell_quads_upto(g, n, x, y, z, k),
    decreases k,
{
    if k > 0 {
        lemma_cell_verts_len(g, n, c, cat, x, y, z, k - 1);
    }
}

/// Appends the quads of every visible face of cell `(x, y, z)`, and their
/// indices, continuing an index buffer that already covers `q0` quads.
#[verifier::rlimit(60)]
fn emit_cell(
    grid: &ChunkGrid,
    neighbors: &Neighbors<'_>,
    c: ChunkCoord,
    x: usize,
    y: usize,
    z: usize,
    catalog: &BlockList,
    vertices: &mut Vec<Vertex>,
    indices: &mut Vec<u32>,
    Ghost(q0): Ghost<nat>,
)
    requires
        grid.wf(),
        neighbors.wf(),
        catalog.wf(),
        ids_ok(grid@, catalog@.len() as int),
        in_chunk(x as int, y as int, z as int),
        old(vertices)@.len() == 4 * q0,
        q0 <= 24570,
        old(indices)@ == mesh_indices(q0 as int),
    ensures
        final(vertices)@ == old(vertices)@
            + cell_verts_upto(grid@, neighbors@, c, catalog@, x as int, y as int, z as int, 6),
        final(indices)@ == mesh_indices(
            q0 + cell_quads_upto(grid@, neighbors@, x as int, y as int, z as int, 6) as int,
        ),
        final(vertices)@.len() == 4 * (q0 + cell_quads_upto(
            grid@,
            neighbors@,
            x as int,
            y as int,
            z as int,
            6,
        )),
{
    let ghost g = grid@;
    let ghost n = neighbors@;
    let ghost cat = catalog@;
    let ghost xi = x as int;
    let ghost yi = y as int;
    let ghost zi = z as int;
    let ghost base_v = vertices@;

    let id: u8 = grid.cell(x, y, z);
    proof {
        lemma_grid_index_inverse(xi, yi, zi);
    }
    if id == 0 {
        proof {
            lemma_cell_empty(g, n, c, cat, xi, yi, zi, 6);
            assert(vertices@ =~= base_v + cell_verts_upto(g, n, c, cat, xi, yi, zi, 6));
        }
        return ;
    }
    let b: &Block = match catalog.block_for(id) {
        Some(b) => b,
        None => {
            proof {
                assert(false);
            }
            unreached()
        },
    };
    proof {
        assert(*b == block_of(cat, g[grid_index(xi, yi, zi)]));
        assert(cell_verts_upto(g, n, c, cat, xi, yi, zi, 0) == Seq::<Vertex>::empty());
        assert(cell_quads_upto(g, n, xi, yi, zi, 0) == 0);
        assert(base_v + cell_verts_upto(g, n, c, cat, xi, yi, zi, 0) =~= base_v);
    }

    emit_face(grid, neighbors, c, x, y, z, Face::Left, b, vertices, indices, Ghost(cat),
        Ghost(q0 + cell_quads_upto(g, n, xi, yi, zi, 0)));
    proof {
        lemma_emit_step(g, n, c, cat, xi, yi, zi, 1, base_v, vertices@, indices@, q0);
    }
    emit_face(grid, neighbors, c, x, y, z, Face::Right, b, vertices, indices, Ghost(cat),
        Ghost(q0 + cell_quads_upto(g, n, xi, yi, zi, 1)));
    proof {
        lemma_emit_step(g, n, c, cat, xi, yi, zi, 2, base_v, vertices@, indices@, q0);
    }
    emit_face(grid, neighbors, c, x, y, z, Face::Down, b, vertices, indices, Ghost(cat),
        Ghost(q0 + cell_quads_upto(g, n, xi, yi, zi, 2)));
    proof {
        lemma_emit_step(g, n, c, cat, xi, yi, zi, 3, base_v, vertices@, indices@, q0);
    }
    emit_face(grid, neighbors, c, x, y, z, Face::Up, b, vertices, indices, Ghost(cat),
        Ghost(q0 + cell_quads_upto(g, n, xi, yi, zi, 3)));
    proof {
        lemma_emit_step(g, n, c, cat, xi, yi, zi, 4, base_v, vertices@, indices@, q0);
    }
    emit_face(grid, neighbors, c, x, y, z, Face::Front, b, vertices, indices, Ghost(cat),
        Ghost(q0 + cell_quads_upto(g, n, xi, yi, zi, 4)));
    proof {
        lemma_emit_step(g, n, c, cat, xi, yi, zi, 5, base_v, vertices@, indices@, q0);
    }
    emit_face(grid, neighbors, c, x, y, z, Face::Back, b, vertices, indices, Ghost(cat),
        Ghost(q0 + cell_quads_upto(g, n, xi, yi, zi, 5)));
    proof {
        lemma_emit_step(g, n, c, cat, xi, yi, zi, 6, base_v, vertices@, indices@, q0);
    }
}

/// A mesh holds at most six quads per cell swept.
proof fn lemma_quad_count_bound(g: Seq<u8>, n: NeighborsView, l: int)
    requires
        0 <= l <= 4096,
    ensures
        quad_count_upto(g, n, l) <= 6 * l,
    decreases l,
{
    if l > 0 {
        lemma_quad_count_bound(g, n, l - 1);
        lemma_cell_quads_bound(g, n, sweep_x(l - 1), sweep_y(l - 1), sweep_z(l - 1), 6);
    }
}

/// Builds the face-culled mesh of one chunk from its grid, its coordinate,
/// whichever of its six neighbor grids are loaded, and the block catalog.
///
/// The vertex buffer is exactly the quads of the visible faces, swept with
/// x varying fastest, then y, then z, and faces checked in the order left,
/// right, down, up, front, back; the index buffer covers each quad with two
/// counter-clockwise triangles. A chunk with no solid cell yields empty
/// buffers.
#[verifier::loop_isolation(false)]
#[verifier::rlimit(60)]
pub fn build(
    grid: &ChunkGrid,
    coordinate: ChunkCoord,
    neighbors: &Neighbors<'_>,
    catalog: &BlockList,
) -> (r: MeshData)
    requires
        grid.wf(),
        neighbors.wf(),
        catalog.wf(),
        ids_ok(grid@, catalog@.len() as int),
    ensures
        r.vertices@ == mesh_verts(grid@, neighbors@, coordinate, catalog@),
        r.indices@ == mesh_indices(quad_count(grid@, neighbors@) as int),
        r.vertices@.len() == 4 * quad_count(grid@, neighbors@),
{
    let ghost g = grid@;
    let ghost n = neighbors@;
    let ghost cat = catalog@;

    let mut vertices: Vec<Vertex> = Vec::new();
    let mut indices: Vec<u32> = Vec::new();

    let mut z: usize = 0;
    while z < 16
        invariant
            z <= 16,
            vertices@ == mesh_verts_upto(g, n, coordinate, cat, 256 * (z as int)),
            indices@ == mesh_indices(quad_count_upto(g, n, 256 * (z as int)) as int),
            vertices@.len() == 4 * quad_count_upto(g, n, 256 * (z as int)),
        decreases 16 - z,
    {
        let mut y: usize = 0;
        while y < 16
            invariant
                z < 16,
                y <= 16,
                vertices@ == mesh_verts_upto(g, n, coordinate, cat, 256 * (z as int) + 16 * (y as int)),
                indices@ == mesh_indices(quad_count_upto(g, n, 256 * (z as int) + 16 * (y as int)) as int),
                vertices@.len() == 4 * quad_count_upto(g, n, 256 * (z as int) + 16 * (y as int)),
            decreases 16 - y,
        {
            let mut x: usize = 0;
            while x < 16
                invariant
                    z < 16,
                    y < 16,
                    x <= 16,
                    vertices@ == mesh_verts_upto(g, n, coordinate, cat, 256 * (z as int) + 16 * (y as int) + (x as int)),
                    indices@ == mesh_indices(
                        quad_count_upto(g, n, 256 * (z as int) + 16 * (y as int) + (x as int)) as int,
                    ),
                    vertices@.len() == 4 * quad_count_upto(g, n, 256 * (z as int) + 16 * (y as int) + (x as int)),
                decreases 16 - x,
            {
                let ghost l = 256 * (z as int) + 16 * (y as int) + (x as int);
                let ghost q0 = quad_count_upto(g, n, l);
                proof {
                    lemma_sweep_inverse(x as int, y as int, z as int);
                    lemma_quad_count_bound(g, n, l);
                }
                emit_cell(grid, neighbors, coordinate, x, y, z, catalog, &mut vertices,
                    &mut indices, Ghost(q0));
                proof {
                    lemma_cell_quads_bound(g, n, x as int, y as int, z as int, 6);
                    assert(mesh_verts_upto(g, n, coordinate, cat, l + 1) == mesh_verts_upto(
                        g,
                        n,
                        coordinate,
                        cat,
                        l,
                    ) + cell_verts_upto(g, n, coordinate, cat, x as int, y as int, z as int, 6));
                    assert(quad_count_upto(g, n, l + 1) == q0 + cell_quads_upto(
                        g,
                        n,
                        x as int,
                        y as int,
                        z as int,
                        6,
                    ));
                }
                x = x + 1;
            }
            y = y + 1;
        }
        z = z + 1;
    }
    proof {
        assert(vertices@ == mesh_verts(g, n, coordinate, cat));
    }
    MeshData { vertices, indices }
}

/// The index buffer holds six entries (two triangles) per quad.
pub proof fn lemma_mesh_indices_len(nq: int)
    requires
        0 <= nq,
    ensures
        mesh_indices(nq).len() == 6 * nq,
    decreases nq,
{
    if nq > 0 {
        lemma_mesh_indices_len(nq - 1);
    }
}

/// A sweep index decomposes into its cell coordinates.
proof fn lemma_sweep_decompose(l: int)
    requires
        0 <= l < 4096,
    ensures
        in_chunk(sweep_x(l), sweep_y(l), sweep_z(l)),
        l == 256 * sweep_z(l) + 16 * sweep_y(l) + sweep_x(l),
{
    vstd::arithmetic::div_mod::lemma_fundamental_div_mod(l, 16);
    vstd::arithmetic::div_mod::lemma_mod_bound(l, 16);
    vstd::arithmetic::div_mod::lemma_fundamental_div_mod(l / 16, 16);
    vstd::arithmetic::div_mod::lemma_mod_bound(l / 16, 16);
    vstd::arithmetic::div_mod::lemma_div_denominator(l, 16, 16);
}

/// An open boundary is never culled: a solid cell on the chunk boundary
/// whose neighbor chunk is absent in that direction always has its
/// boundary face visible.
pub proof fn lemma_open_boundary(g: Seq<u8>, n: NeighborsView, x: int, y: int, z: int, f: Face)
    requires
        in_chunk(x, y, z),
        solid_at(g, x, y, z),
        match f {
            Face::Left => x == 0 && n.left is None,
            Face::Right => x == 15 && n.right is None,
            Face::Down => y == 0 && n.down is None,
            Face::Up => y == 15 && n.up is None,
            Face::Front => z == 0 && n.front is None,
            Face::Back => z == 15 && n.back is None,
        },
    ensures
        face_visible(g, n, x, y, z, f),
{
}

/// Seams cancel: where a chunk is solid in a boundary cell and the loaded
/// neighbor chunk across that face is solid in the facing boundary cell,
/// no quad is emitted on that face. Applied once per chunk of a
/// face-adjacent pair, this cancels both sides of the shared seam.
pub proof fn lemma_seam_culled(
    g: Seq<u8>,
    m: Seq<u8>,
    n: NeighborsView,
    x: int,
    y: int,
    z: int,
    f: Face,
)
    requires
        in_chunk(x, y, z),
        solid_at(g, x, y, z),
        match f {
            Face::Left => x == 0 && n.left == Some(m) && solid_at(m, 15, y, z),
            Face::Right => x == 15 && n.right == Some(m) && solid_at(m, 0, y, z),
            Face::Down => y == 0 && n.down == Some(m) && solid_at(m, x, 15, z),
            Face::Up => y == 15 && n.up == Some(m) && solid_at(m, x, 0, z),
            Face::Front => z == 0 && n.front == Some(m) && solid_at(m, x, y, 15),
            Face::Back => z == 15 && n.back == Some(m) && solid_at(m, x, y, 0),
        },
    ensures
        !face_visible(g, n, x, y, z, f),
{
}

/// Whether a grid is entirely air.
pub open spec fn all_air(g: Seq<u8>) -> bool {
    forall|i: int| 0 <= i < 4096 ==> g[i] == 0
}

/// Whether every neighbor grid is present and entirely air.
pub open spec fn neighbors_all_air(n: NeighborsView) -> bool {
    &&& match n.left {
        Some(m) => all_air(m),
        None => false,
    }
    &&& match n.right {
        Some(m) => all_air(m),
        None => false,
    }
    &&& match n.down {
        Some(m) => all_air(m),
        None => false,
    }
    &&& match n.up {
        Some(m) => all_air(m),
        None => false,
    }
    &&& match n.front {
        Some(m) => all_air(m),
        None => false,
    }
    &&& match n.back {
        Some(m) => all_air(m),
        None => false,
    }
}

/// Whether cell `(x0, y0, z0)` is the only solid cell of `g`.
pub open spec fn lone_solid_cell(g: Seq<u8>, x0: int, y0: int, z0: int) -> bool {
    &&& in_chunk(x0, y0, z0)
    &&& solid_at(g, x0, y0, z0)
    &&& forall|i: int| 0 <= i < 4096 && i != grid_index(x0, y0, z0) ==> g[i] == 0
}

/// Every face of the lone solid cell is visible when all six neighbor
/// chunks are loaded and empty.
proof fn lemma_lone_cell_visible(
    g: Seq<u8>,
    n: NeighborsView,
    x0: int,
    y0: int,
    z0: int,
    f: Face,
)
    requires
        lone_solid_cell(g, x0, y0, z0),
        neighbors_all_air(n),
    ensures
        face_visible(g, n, x0, y0, z0, f),
{
    lemma_grid_index_inverse(x0, y0, z0);
    match f {
        Face::Left => {
            if x0 > 0 {
                lemma_grid_index_inverse(x0 - 1, y0, z0);
            }
        },
        Face::Right => {
            if x0 < 15 {
                lemma_grid_index_inverse(x0 + 1, y0, z0);
            }
        },
        Face::Down => {
            if y0 > 0 {
                lemma_grid_index_inverse(x0, y0 - 1, z0);
            }
        },
        Face::Up => {
            if y0 < 15 {
                lemma_grid_index_inverse(x0, y0 + 1, z0);
            }
        },
        Face::Front => {
            if z0 > 0 {
                lemma_grid_index_inverse(x0, y0, z0 - 1);
            }
        },
        Face::Back => {
            if z0 < 15 {
                lemma_grid_index_inverse(x0, y0, z0 + 1);
            }
        },
    }
}

/// The lone solid cell contributes one quad per face.
proof fn lemma_lone_cell_quads(g: Seq<u8>, n: NeighborsView, x0: int, y0: int, z0: int, k: int)
    requires
        lone_solid_cell(g, x0, y0, z0),
        neighbors_all_air(n),
        0 <= k <= 6,
    ensures
        cell_quads_upto(g, n, x0, y0, z0, k) == k,
    decreases k,
{
    if k > 0 {
        lemma_lone_cell_quads(g, n, x0, y0, z0, k - 1);
        lemma_lone_cell_visible(g, n, x0, y0, z0, face_at(k - 1));
    }
}

/// Quad count of the sweep prefix for a grid whose only solid cell is
/// `(x0, y0, z0)`: six quads once the sweep has passed that cell.
proof fn lemma_lone_cell_count(
    g: Seq<u8>,
    n: NeighborsView,
    x0: int,
    y0: int,
    z0: int,
    l: int,
)
    requires
        lone_solid_cell(g, x0, y0, z0),
        neighbors_all_air(n),
        0 <= l <= 4096,
    ensures
        quad_count_upto(g, n, l) == if l > 256 * z0 + 16 * y0 + x0 {
            6nat
        } else {
            0nat
        },
    decreases l,
{
    lemma_grid_index_inverse(x0, y0, z0);
    if l > 0 {
        lemma_lone_cell_count(g, n, x0, y0, z0, l - 1);
        lemma_sweep_decompose(l - 1);
        let xs = sweep_x(l - 1);
        let ys = sweep_y(l - 1);
        let zs = sweep_z(l - 1);
        if xs == x0 && ys == y0 && zs == z0 {
            lemma_lone_cell_quads(g, n, x0, y0, z0, 6);
        } else {
            lemma_grid_index_inverse(xs, ys, zs);
            assert(grid_index(xs, ys, zs) != grid_index(x0, y0, z0));
            lemma_cell_empty(
                g,
                n,
                ChunkCoord { x: 0, y: 0, z: 0 },
                Seq::empty(),
                xs,
                ys,
                zs,
                6,
            );
        }
    }
}

/// A chunk holding a single solid cell surrounded entirely by air, with
/// all six neighbor chunks loaded and empty, meshes to exactly six quads:
/// twenty-four vertices and twelve triangles.
pub proof fn lemma_lone_cell_six_quads(
    g: Seq<u8>,
    n: NeighborsView,
    x0: int,
    y0: int,
    z0: int,
)
    requires
        lone_solid_cell(g, x0, y0, z0),
        neighbors_all_air(n),
    ensures
        quad_count(g, n) == 6,
        mesh_indices(quad_count(g, n) as int).len() == 36,
{
    lemma_lone_cell_count(g, n, x0, y0, z0, 4096);
    lemma_mesh_indices_len(6);
}

/// A chunk with no solid cell meshes to nothing.
pub proof fn lemma_all_air_empty_mesh(g: Seq<u8>, n: NeighborsView, l: int)
    requires
        all_air(g),
        0 <= l <= 4096,
    ensures
        quad_count_upto(g, n, l) == 0,
    decreases l,
{
    if l > 0 {
        lemma_all_air_empty_mesh(g, n, l - 1);
        lemma_sweep_decompose(l - 1);
        let xs = sweep_x(l - 1);
        let ys = sweep_y(l - 1);
        let zs = sweep_z(l - 1);
        lemma_grid_index_inverse(xs, ys, zs);
        lemma_cell_empty(g, n, ChunkCoord { x: 0, y: 0, z: 0 }, Seq::empty(), xs, ys, zs, 6);
    }
}

} // verus!
