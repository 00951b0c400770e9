//! The tile grid: a fixed-size rectangle of tiles addressed by column and row.

use vstd::prelude::*;
use crate::tile::Tile;

verus! {

/// A rectangular grid of tiles, `width` columns by `height` rows, with the
/// origin at `(0, 0)`. Its dimensions are fixed when it is built.
pub struct Grid {
    width: i32,
    height: i32,
    tiles: Vec<Vec<Tile>>,
}

impl View for Grid {
    type V = Seq<Seq<Tile>>;

    /// The grid as a sequence of columns: `self@[x][y]` is the tile in column
    /// `x`, row `y`.
    closed spec fn view(&self) -> Seq<Seq<Tile>> {
        Seq::new(self.tiles@.len(), |x: int| self.tiles@[x]@)
    }
}

impl Grid {
    /// Number of columns.
    pub closed spec fn cols(&self) -> int {
        self.width as int
    }

    /// Number of rows.
    pub closed spec fn rows(&self) -> int {
        self.height as int
    }

    /// The grid is a full rectangle of its stated dimensions.
    pub closed spec fn wf(&self) -> bool {
        &&& 0 <= self.width
        &&& 0 <= self.height
        &&& self.tiles@.len() == self.width
        &&& forall|x: int| 0 <= x < self.tiles@.len() ==> (#[trigger] self.tiles@[x])@.len() == self.height
    }

    /// The cell `(x, y)` lies on the grid.
    pub open spec fn contains(&self, x: int, y: int) -> bool {
        0 <= x < self.cols() && 0 <= y < self.rows()
    }

    /// Every tile is a wall or open floor; none is blocked yet see-through or
    /// passable yet opaque.
    pub open spec fn paired(&self) -> bool {
        forall|x: int, y: int| self.contains(x, y) ==> (#[trigger] self@[x][y]).paired()
    }

    /// No tile has been seen yet.
    pub open spec fn unexplored(&self) -> bool {
        forall|x: int, y: int| self.contains(x, y) ==> !(#[trigger] self@[x][y]).explored
    }

    /// The shape of a well-formed grid matches its dimensions.
    pub broadcast proof fn lemma_shape(&self)
        requires
            #[trigger] self.wf(),
        ensures
            0 <= self.cols() <= i32::MAX,
            0 <= self.rows() <= i32::MAX,
            self@.len() == self.cols(),
            forall|x: int| 0 <= x < self.cols() ==> (#[trigger] self@[x]).len() == self.rows(),
    {
    }

    /// A grid of the given size with every tile an unexplored wall.
    pub fn new(width: i32, height: i32) -> (g: Grid)
        requires
            0 <= width,
            0 <= height,
        ensures
            g.wf(),
            g.cols() == width,
            g.rows() == height,
            forall|x: int, y: int| g.contains(x, y) ==> #[trigger] g@[x][y] == (Tile { blocked: true, explored: false, block_sight: true }),
    {
        let mut tiles: Vec<Vec<Tile>> = Vec::new();
        let mut x: i32 = 0;
        while x < width
            invariant
                0 <= x <= width,
                0 <= height,
                tiles@.len() == x,
                forall|i: int| 0 <= i < x ==> (#[trigger] tiles@[i])@.len() == height,
                forall|i: int, j: int| 0 <= i < x && 0 <= j < height ==> #[trigger] tiles@[i]@[j] == (Tile { blocked: true, explored: false, block_sight: true }),
            decreases width - x,
        {
            let mut column: Vec<Tile> = Vec::new();
            let mut y: i32 = 0;
            while y < height
                invariant
                    0 <= y <= height,
                    column@.len() == y,
                    forall|j: int| 0 <= j < y ==> #[trigger] column@[j] == (Tile { blocked: true, explored: false, block_sight: true }),
                decreases height - y,
            {
                column.push(Tile::wall());
                y += 1;
            }
            tiles.push(column);
            x += 1;
        }
        Grid { width, height, tiles }
    }

    /// Number of columns.
    pub fn width(&self) -> (w: i32)
        ensures
            w == self.cols(),
    {
        self.width
    }

    /// Number of rows.
    pub fn height(&self) -> (h: i32)
        ensures
            h == self.rows(),
    {
        self.height
    }

    /// Whether the cell `(x, y)` lies on the grid.
    pub fn in_bounds(&self, x: i32, y: i32) -> (b: bool)
        ensures
            b == self.contains(x as int, y as int),
    {
        0 <= x && x < self.width && 0 <= y && y < self.height
    }

    /// The tile at `(x, y)`.
    pub fn tile(&self, x: i32, y: i32) -> (t: Tile)
        requires
            self.wf(),
            self.contains(x as int, y as int),
        ensures
            t == self@[x as int][y as int],
    {
        self.tiles[x as usize][y as usize]
    }

    /// Opens the tile at `(x, y)`: it becomes passable and see-through. Whether
    /// it has been explored is kept.
    pub fn carve(&mut self, x: i32, y: i32)
        requires
            old(self).wf(),
            old(self).contains(x as int, y as int),
        ensures
            final(self).wf(),
            final(self).cols() == old(self).cols(),
            final(self).rows() == old(self).rows(),
            forall|cx: int, cy: int|
                old(self).contains(cx, cy) ==> #[trigger] final(self)@[cx][cy] == (if cx == x && cy == y {
                    old(self)@[cx][cy].carved()
                } else {
                    old(self)@[cx][cy]
                }),
    {
        let t = self.tiles[x as usize][y as usize];
        self.tiles[x as usize][y as usize] = Tile { blocked: false, explored: t.explored, block_sight: false };
    }

    /// Records that the tile at `(x, y)` has been seen.
    pub fn explore(&mut self, x: i32, y: i32)
        requires
            old(self).wf(),
            old(self).contains(x as int, y as int),
        ensures
            final(self).wf(),
            final(self).cols() == old(self).cols(),
            final(self).rows() == old(self).rows(),
            forall|cx: int, cy: int|
                old(self).contains(cx, cy) ==> #[trigger] final(self)@[cx][cy] == (if cx == x && cy == y {
                    old(self)@[cx][cy].seen()
                } else {
                    old(self)@[cx][cy]
                }),
    {
        self.tiles[x as usize][y as usize].explored = true;
    }
}

} // verus!
