//! The block catalog: a static table mapping each block id to its name,
//! its per-face texturing flag, and its texture-atlas tiles.
//!
//! Ids are dense and start at 1; id 0 is reserved for air and never appears
//! in the catalog. The shared texture atlas is a grid of fixed-size square
//! tiles: a block's tiles sit on the row given by its id, and the column
//! selects the single texture (column 0) or the top, side and bottom
//! textures (columns 1, 2, 3) of a per-face-textured block.

use vstd::prelude::*;

verus! {

/// One catalog entry: a block kind the generator and mesher can place.
pub struct Block {
    /// Dense id, starting at 1; 0 is reserved for air.
    pub id: u8,
    /// Unique display name.
    pub name: String,
    /// Whether the block has distinct top, side and bottom textures.
    pub sided: bool,
}

/// The six sides of a block, named from the block's own point of view.
#[derive(Clone, Copy, PartialEq, Eq, Structural, Debug)]
pub enum Side {
    Front,
    Back,
    Left,
    Right,
    Top,
    Bottom,
}

/// A texture-atlas position in tile units. Multiplying by the fixed tile
/// size over the atlas dimensions yields the fractional atlas coordinate.
#[derive(Clone, Copy, PartialEq, Eq, Structural, Debug)]
pub struct TexCoord {
    pub u: u32,
    pub v: u32,
}

impl Block {
    /// Atlas tile column for one side of this block: a single-textured
    /// block reads column 0; a per-face-textured block reads column 1 for
    /// the top, column 3 for the bottom and column 2 for every side.
    pub open spec fn tex_column(self, side: Side) -> int {
        if self.sided {
            match side {
                Side::Top => 1,
                Side::Bottom => 3,
                _ => 2,
            }
        } else {
            0
        }
    }

    /// Atlas tile row for this block: its id.
    pub open spec fn tex_row(self) -> int {
        self.id as int
    }

    /// The texture-atlas corners for one side of this block, in tile
    /// units, ordered top-right, top-left, bottom-left, bottom-right to
    /// match the vertex order of an emitted quad.
    pub fn get_tex_coords(&self, side: Side) -> (r: (TexCoord, TexCoord, TexCoord, TexCoord))
        ensures
            r.0 == (TexCoord { u: (self.tex_column(side) + 1) as u32, v: self.tex_row() as u32 }),
            r.1 == (TexCoord { u: self.tex_column(side) as u32, v: self.tex_row() as u32 }),
            r.2 == (TexCoord { u: self.tex_column(side) as u32, v: (self.tex_row() + 1) as u32 }),
            r.3 == (TexCoord {
                u: (self.tex_column(side) + 1) as u32,
                v: (self.tex_row() + 1) as u32,
            }),
    {
        let col: u32 = if self.sided {
            match side {
                Side::Top => 1,
                Side::Bottom => 3,
                _ => 2,
            }
        } else {
            0
        };
        let row: u32 = self.id as u32;
        (
            TexCoord { u: col + 1, v: row },
            TexCoord { u: col, v: row },
            TexCoord { u: col, v: row + 1 },
            TexCoord { u: col + 1, v: row + 1 },
        )
    }
}

/// The catalog of registered blocks, ordered by id.
pub struct BlockList {
    blocks: Vec<Block>,
}

impl BlockList {
    /// Ids are dense and start at 1: the entry at index `i` has id `i + 1`.
    pub open spec fn wf(self) -> bool {
        &&& self@.len() <= 254
        &&& forall|i: int| 0 <= i < self@.len() ==> #[trigger] self@[i].id == i + 1
    }

    pub closed spec fn view(self) -> Seq<Block> {
        self.blocks@
    }

    /// An empty catalog; blocks are registered one by one.
    pub fn new() -> (r: BlockList)
        ensures
            r.wf(),
            r@.len() == 0,
    {
        BlockList { blocks: Vec::new() }
    }

    /// Registers a block under the next dense id and returns that id.
    pub fn register(&mut self, name: String, sided: bool) -> (id: u8)
        requires
            old(self).wf(),
            old(self)@.len() < 254,
        ensures
            final(self).wf(),
            id == old(self)@.len() + 1,
            final(self)@ == old(self)@.push(Block { id, name, sided }),
    {
        let id: u8 = (self.blocks.len() + 1) as u8;
        self.blocks.push(Block { id, name, sided });
        id
    }

    pub fn len(&self) -> (n: usize)
        ensures
            n == self@.len(),
    {
        self.blocks.len()
    }

    /// The catalog entry for a block id, or `None` for air or an
    /// unregistered id.
    pub fn block_for(&self, id: u8) -> (r: Option<&Block>)
        requires
            self.wf(),
        ensures
            match r {
                Some(b) => 1 <= id <= self@.len() && b == &self@[id - 1] && b.id == id,
                None => id == 0 || id > self@.len(),
            },
    {
        if id == 0 || (id as usize) > self.blocks.len() {
            None
        } else {
            Some(&self.blocks[(id - 1) as usize])
        }
    }
}

} // verus!
