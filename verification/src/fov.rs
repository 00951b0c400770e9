//! The field of view: which cells are in sight, and the memory of what has
//! been seen.

use vstd::prelude::*;
use crate::grid::Grid;

verus! {

broadcast use crate::grid::Grid::lemma_shape;

/// The result of one field-of-view computation: for each cell of a rectangle
/// `width` columns by `height` rows, whether it is currently in sight.
pub struct FovMap {
    width: i32,
    height: i32,
    cells: Vec<Vec<bool>>,
}

impl View for FovMap {
    type V = Seq<Seq<bool>>;

    /// The map as a sequence of columns: `self@[x][y]` tells whether the cell
    /// in column `x`, row `y` is in sight.
    closed spec fn view(&self) -> Seq<Seq<bool>> {
        Seq::new(self.cells@.len(), |x: int| self.cells@[x]@)
    }
}

impl FovMap {
    /// Number of columns.
    pub closed spec fn cols(&self) -> int {
        self.width as int
    }

    /// Number of rows.
    pub closed spec fn rows(&self) -> int {
        self.height as int
    }

    /// The map is a full rectangle of its stated dimensions.
    pub closed spec fn wf(&self) -> bool {
        &&& 0 <= self.width
        &&& 0 <= self.height
        &&& self.cells@.len() == self.width
        &&& forall|x: int|
            0 <= x < self.cells@.len() ==> (#[trigger] self.cells@[x])@.len() == self.height
    }

    /// The cell `(x, y)` lies on the map.
    pub open spec fn contains(&self, x: int, y: int) -> bool {
        0 <= x < self.cols() && 0 <= y < self.rows()
    }

    /// The cell `(x, y)` is in sight. No cell off the map is.
    pub open spec fn visible(&self, x: int, y: int) -> bool {
        self.contains(x, y) && self@[x][y]
    }

    /// The shape of a well-formed map matches its dimensions.
    pub broadcast proof fn lemma_shape(&self)
        requires
            #[trigger] self.wf(),
        ensures
            0 <= self.cols() <= i32::MAX,
            0 <= self.rows() <= i32::MAX,
            self@.len() == self.cols(),
            forall|x: int| 0 <= x < self.cols() ==> (#[trigger] self@[x]).len() == self.rows(),
    {
    }

    /// A map of the given size with nothing in sight.
    pub fn new(width: i32, height: i32) -> (m: FovMap)
        requires
            0 <= width,
            0 <= height,
        ensures
            m.wf(),
            m.cols() == width,
            m.rows() == height,
            forall|x: int, y: int| !m.visible(x, y),
    {
        let mut cells: Vec<Vec<bool>> = Vec::new();
        let mut x: i32 = 0;
        while x < width
            invariant
                0 <= x <= width,
                0 <= height,
                cells@.len() == x,
                forall|i: int| 0 <= i < x ==> (#[trigger] cells@[i])@.len() == height,
                forall|i: int, j: int| 0 <= i < x && 0 <= j < height ==> !(#[trigger] cells@[i]@[j]),
            decreases width - x,
        {
            let mut column: Vec<bool> = Vec::new();
            let mut y: i32 = 0;
            while y < height
                invariant
                    0 <= y <= height,
                    column@.len() == y,
                    forall|j: int| 0 <= j < y ==> !(#[trigger] column@[j]),
                decreases height - y,
            {
                column.push(false);
                y += 1;
            }
            cells.push(column);
            x += 1;
        }
        FovMap { width, height, cells }
    }

    /// The size of the map: columns, then rows.
    pub fn size(&self) -> (s: (i32, i32))
        ensures
            s.0 == self.cols(),
            s.1 == self.rows(),
    {
        (self.width, self.height)
    }

    /// Whether the cell `(x, y)` lies on the map.
    pub fn in_bounds(&self, x: i32, y: i32) -> (b: bool)
        ensures
            b == self.contains(x as int, y as int),
    {
        0 <= x && x < self.width && 0 <= y && y < self.height
    }

    /// Whether the cell `(x, y)` is in sight.
    pub fn is_in_fov(&self, x: i32, y: i32) -> (b: bool)
        requires
            self.wf(),
            self.contains(x as int, y as int),
        ensures
            b == self.visible(x as int, y as int),
    {
        self.cells[x as usize][y as usize]
    }

    /// Records whether the cell `(x, y)` is in sight. No other cell changes.
    pub fn set_in_fov(&mut self, x: i32, y: i32, in_sight: bool)
        requires
            old(self).wf(),
            old(self).contains(x as int, y as int),
        ensures
            final(self).wf(),
            final(self).cols() == old(self).cols(),
            final(self).rows() == old(self).rows(),
            forall|cx: int, cy: int|
                #[trigger] final(self).visible(cx, cy) == (if cx == x && cy == y {
                    in_sight
                } else {
                    old(self).visible(cx, cy)
                }),
    {
        self.cells[x as usize][y as usize] = in_sight;
    }
}

/// `after` is `before` with exactly the cells in sight marked explored: the
/// two grids have the same dimensions, each tile in sight is the seen form of
/// what it was, and every other tile is untouched.
pub open spec fn revealed(before: &Grid, after: &Grid, fov: &FovMap) -> bool {
    &&& after.wf()
    &&& after.cols() == before.cols()
    &&& after.rows() == before.rows()
    &&& forall|x: int, y: int|
        before.contains(x, y) ==> #[trigger] after@[x][y] == (if fov.visible(x, y) {
            before@[x][y].seen()
        } else {
            before@[x][y]
        })
}

/// Marks every tile that is in sight as explored. Tiles out of sight keep
/// what they had: exploration is never taken back.
pub fn mark_explored(map: &mut Grid, fov: &FovMap)
    requires
        old(map).wf(),
        fov.wf(),
    ensures
        revealed(old(map), final(map), fov),
{
    let ghost before = *map;
    let width = map.width();
    let height = map.height();
    let mut x: i32 = 0;
    while x < width
        invariant
            0 <= x <= width,
            width == before.cols(),
            height == before.rows(),
            before.wf(),
            fov.wf(),
            map.wf(),
            map.cols() == before.cols(),
            map.rows() == before.rows(),
            forall|cx: int, cy: int|
                before.contains(cx, cy) ==> #[trigger] map@[cx][cy] == (if fov.visible(cx, cy) && cx
                    < x {
                    before@[cx][cy].seen()
                } else {
                    before@[cx][cy]
                }),
        decreases width - x,
    {
        let mut y: i32 = 0;
        while y < height
            invariant
                0 <= x < width,
                0 <= y <= height,
                width == before.cols(),
                height == before.rows(),
                before.wf(),
                fov.wf(),
                map.wf(),
                map.cols() == before.cols(),
                map.rows() == before.rows(),
                forall|cx: int, cy: int|
                    before.contains(cx, cy) ==> #[trigger] map@[cx][cy] == (if fov.visible(cx, cy)
                        && (cx < x || (cx == x && cy < y)) {
                        before@[cx][cy].seen()
                    } else {
                        before@[cx][cy]
                    }),
            decreases height - y,
        {
            if fov.in_bounds(x, y) && fov.is_in_fov(x, y) {
                map.explore(x, y);
            }
            y += 1;
        }
        x += 1;
    }
}

/// Exploration is never taken back. Take any run of field-of-view
/// recomputations, each followed by marking what is in sight: `grids[i + 1]`
/// is `grids[i]` after marking under `fovs[i]`. Then a tile that is explored
/// at some point of the run is explored at every later point, and no tile
/// ever changes whether it blocks movement or sight.
pub proof fn lemma_explored_is_monotonic(grids: Seq<Grid>, fovs: Seq<FovMap>, i: int, j: int, x: int, y: int)
    requires
        grids.len() == fovs.len() + 1,
        forall|k: int| 0 <= k < fovs.len() ==> revealed(&#[trigger] grids[k], &grids[k + 1], &fovs[k]),
        0 <= i <= j < grids.len(),
        grids[i].contains(x, y),
    ensures
        grids[j].contains(x, y),
        grids[i]@[x][y].explored ==> grids[j]@[x][y].explored,
        grids[j]@[x][y].blocked == grids[i]@[x][y].blocked,
        grids[j]@[x][y].block_sight == grids[i]@[x][y].block_sight,
    decreases j - i,
{
    if i < j {
        lemma_explored_is_monotonic(grids, fovs, i, j - 1, x, y);
        assert(revealed(&grids[j - 1], &grids[j - 1 + 1], &fovs[j - 1]));
    }
}

} // verus!
