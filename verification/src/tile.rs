//! A single cell of the dungeon.

use vstd::prelude::*;

verus! {

/// A map tile and its properties.
///
/// `blocked` and `block_sight` always flip together: a tile is either a wall
/// (both set) or open floor (both clear). `explored` records whether the tile
/// has ever been seen, and is never cleared once set.
#[derive(Clone, Copy, Debug, PartialEq, Eq, Structural)]
pub struct Tile {
    pub blocked: bool,
    pub explored: bool,
    pub block_sight: bool,
}

impl Tile {
    /// The tile's passability and opacity agree: it is a wall or it is floor.
    pub open spec fn paired(self) -> bool {
        self.blocked == self.block_sight
    }

    /// This tile after carving: passable, see-through, exploration kept.
    pub open spec fn carved(self) -> Tile {
        Tile { blocked: false, explored: self.explored, block_sight: false }
    }

    /// This tile after it has been in view: exploration set, the rest kept.
    pub open spec fn seen(self) -> Tile {
        Tile { blocked: self.blocked, explored: true, block_sight: self.block_sight }
    }

    /// Unexplored open floor.
    pub fn empty() -> (t: Tile)
        ensures
            t == (Tile { blocked: false, explored: false, block_sight: false }),
    {
        Tile { blocked: false, explored: false, block_sight: false }
    }

    /// Unexplored solid wall.
    pub fn wall() -> (t: Tile)
        ensures
            t == (Tile { blocked: true, explored: false, block_sight: true }),
    {
        Tile { blocked: true, explored: false, block_sight: true }
    }
}

} // verus!
