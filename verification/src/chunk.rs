//! Chunks: fixed-size cubic grids of block ids, plus each chunk's cached
//! mesh and dirty flag.

use vstd::prelude::*;

use crate::coords::ChunkCoord;
use crate::mesh::MeshData;

verus! {

/// The six axis-aligned faces of a cell. `Right`/`Left` face +x/-x,
/// `Up`/`Down` face +y/-y, and `Back`/`Front` face +z/-z.
#[derive(Clone, Copy, PartialEq, Eq, Structural, Debug)]
pub enum Face {
    Front,
    Back,
    Left,
    Right,
    Up,
    Down,
}

impl Face {
    /// The outward unit offset of this face, per axis.
    pub open spec fn delta_x(self) -> int {
        match self {
            Face::Left => -1,
            Face::Right => 1,
            _ => 0,
        }
    }

    pub open spec fn delta_y(self) -> int {
        match self {
            Face::Down => -1,
            Face::Up => 1,
            _ => 0,
        }
    }

    pub open spec fn delta_z(self) -> int {
        match self {
            Face::Front => -1,
            Face::Back => 1,
            _ => 0,
        }
    }
}

/// Index of cell `(x, y, z)` in a chunk grid's backing sequence.
pub open spec fn grid_index(x: int, y: int, z: int) -> int {
    (x * 16 + y) * 16 + z
}

/// Whether `(x, y, z)` is a cell of a chunk grid.
pub open spec fn in_chunk(x: int, y: int, z: int) -> bool {
    &&& 0 <= x < 16
    &&& 0 <= y < 16
    &&& 0 <= z < 16
}

/// Cell coordinates map to distinct indices within the grid's length, and
/// the coordinates can be read back from the index.
pub proof fn lemma_grid_index_inverse(x: int, y: int, z: int)
    requires
        in_chunk(x, y, z),
    ensures
        0 <= grid_index(x, y, z) < 4096,
        grid_index(x, y, z) / 256 == x,
        (grid_index(x, y, z) % 256) / 16 == y,
        grid_index(x, y, z) % 16 == z,
{
    let i = grid_index(x, y, z);
    vstd::arithmetic::div_mod::lemma_fundamental_div_mod_converse(i, 256, x, 16 * y + z);
    vstd::arithmetic::div_mod::lemma_fundamental_div_mod_converse(16 * y + z, 16, y, z);
    vstd::arithmetic::div_mod::lemma_fundamental_div_mod_converse(i, 16, 16 * x + y, z);
}

/// A dense grid of block ids covering one chunk: 16 cells per axis, id 0
/// meaning air.
pub struct ChunkGrid {
    cells: Vec<u8>,
}

impl ChunkGrid {
    pub open spec fn wf(self) -> bool {
        self@.len() == 4096
    }

    pub closed spec fn view(self) -> Seq<u8> {
        self.cells@
    }

    /// The block id stored at cell `(x, y, z)`.
    pub open spec fn spec_cell(self, x: int, y: int, z: int) -> u8 {
        self@[grid_index(x, y, z)]
    }

    /// A grid made of the given cells, row-contiguous along z, then y,
    /// then x; `None` if the cell count is not one full chunk.
    pub fn from_cells(cells: Vec<u8>) -> (r: Option<ChunkGrid>)
        ensures
            match r {
                Some(g) => cells@.len() == 4096 && g@ == cells@,
                None => cells@.len() != 4096,
            },
    {
        if cells.len() == 4096 {
            Some(ChunkGrid { cells })
        } else {
            None
        }
    }

    /// A grid of all air.
    pub fn empty() -> (r: ChunkGrid)
        ensures
            r.wf(),
            forall|i: int| 0 <= i < 4096 ==> r@[i] == 0,
    {
        let mut cells: Vec<u8> = Vec::new();
        let mut i: usize = 0;
        while i < 4096
            invariant
                i <= 4096,
                cells@.len() == i,
                forall|j: int| 0 <= j < i ==> cells@[j] == 0,
            decreases 4096 - i,
        {
            cells.push(0);
            i = i + 1;
        }
        ChunkGrid { cells }
    }

    /// Reads the block id at cell `(x, y, z)`.
    pub fn cell(&self, x: usize, y: usize, z: usize) -> (id: u8)
        requires
            self.wf(),
            in_chunk(x as int, y as int, z as int),
        ensures
            id == self.spec_cell(x as int, y as int, z as int),
    {
        proof {
            lemma_grid_index_inverse(x as int, y as int, z as int);
        }
        self.cells[(x * 16 + y) * 16 + z]
    }

    /// Writes the block id at cell `(x, y, z)`.
    pub fn set_cell(&mut self, x: usize, y: usize, z: usize, id: u8)
        requires
            old(self).wf(),
            in_chunk(x as int, y as int, z as int),
        ensures
            final(self).wf(),
            final(self)@ == old(self)@.update(grid_index(x as int, y as int, z as int), id),
    {
        proof {
            lemma_grid_index_inverse(x as int, y as int, z as int);
        }
        let i: usize = (x * 16 + y) * 16 + z;
        self.cells[i] = id;
    }
}

/// One resident chunk: its coordinate, its block grid, its cached mesh,
/// and its dirty flag.
pub struct Chunk {
    coordinate: ChunkCoord,
    grid: ChunkGrid,
    mesh: Option<MeshData>,
    needs_remesh: bool,
    active_neighbors: u8,
}

impl Chunk {
    pub open spec fn wf(self) -> bool {
        &&& self.spec_grid().wf()
        &&& self.spec_coordinate().wf()
        &&& self.spec_active_neighbors() <= 6
    }

    pub closed spec fn spec_coordinate(self) -> ChunkCoord {
        self.coordinate
    }

    pub closed spec fn spec_grid(self) -> ChunkGrid {
        self.grid
    }

    pub closed spec fn spec_mesh(self) -> Option<MeshData> {
        self.mesh
    }

    pub closed spec fn spec_needs_remesh(self) -> bool {
        self.needs_remesh
    }

    pub closed spec fn spec_active_neighbors(self) -> u8 {
        self.active_neighbors
    }

    /// A freshly generated chunk: no mesh yet, so it is born dirty.
    pub fn new(coordinate: ChunkCoord, grid: ChunkGrid) -> (c: Chunk)
        requires
            grid.wf(),
            coordinate.wf(),
        ensures
            c.wf(),
            c.spec_coordinate() == coordinate,
            c.spec_grid() == grid,
            c.spec_mesh() is None,
            c.spec_needs_remesh(),
            c.spec_active_neighbors() == 0,
    {
        Chunk { coordinate, grid, mesh: None, needs_remesh: true, active_neighbors: 0 }
    }

    pub fn coordinate(&self) -> (c: ChunkCoord)
        ensures
            c == self.spec_coordinate(),
    {
        self.coordinate
    }

    pub fn grid(&self) -> (g: &ChunkGrid)
        ensures
            g == self.spec_grid(),
    {
        &self.grid
    }

    pub fn mesh(&self) -> (m: &Option<MeshData>)
        ensures
            m == self.spec_mesh(),
    {
        &self.mesh
    }

    pub fn needs_remesh(&self) -> (d: bool)
        ensures
            d == self.spec_needs_remesh(),
    {
        self.needs_remesh
    }

    pub fn active_neighbors(&self) -> (n: u8)
        ensures
            n == self.spec_active_neighbors(),
    {
        self.active_neighbors
    }

    /// Installs a freshly built mesh and clears the dirty flag; an empty
    /// mesh is recorded as absent.
    pub fn install_mesh(&mut self, mesh: Option<MeshData>)
        requires
            old(self).wf(),
        ensures
            final(self).wf(),
            final(self).spec_coordinate() == old(self).spec_coordinate(),
            final(self).spec_grid() == old(self).spec_grid(),
            final(self).spec_active_neighbors() == old(self).spec_active_neighbors(),
            final(self).spec_mesh() == mesh,
            !final(self).spec_needs_remesh(),
    {
        self.mesh = mesh;
        self.needs_remesh = false;
    }

    /// Marks the cached mesh stale.
    pub fn mark_dirty(&mut self)
        requires
            old(self).wf(),
        ensures
            final(self).wf(),
            final(self).spec_coordinate() == old(self).spec_coordinate(),
            final(self).spec_grid() == old(self).spec_grid(),
            final(self).spec_mesh() == old(self).spec_mesh(),
            final(self).spec_active_neighbors() == old(self).spec_active_neighbors(),
            final(self).spec_needs_remesh(),
    {
        self.needs_remesh = true;
    }

    /// Records how many of the six face-adjacent neighbors are resident
    /// or queued.
    pub fn set_active_neighbors(&mut self, n: u8)
        requires
            old(self).wf(),
            n <= 6,
        ensures
            final(self).wf(),
            final(self).spec_coordinate() == old(self).spec_coordinate(),
            final(self).spec_grid() == old(self).spec_grid(),
            final(self).spec_mesh() == old(self).spec_mesh(),
            final(self).spec_needs_remesh() == old(self).spec_needs_remesh(),
            final(self).spec_active_neighbors() == n,
    {
        self.active_neighbors = n;
    }
}

} // verus!
