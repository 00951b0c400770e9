//! Carving rooms and tunnels out of solid rock.

use vstd::prelude::*;
use crate::grid::Grid;
use crate::rect::Rect;

verus! {

/// The smaller of two coordinates.
pub open spec fn lower(a: int, b: int) -> int {
    if a <= b {
        a
    } else {
        b
    }
}

/// The larger of two coordinates.
pub open spec fn upper(a: int, b: int) -> int {
    if a <= b {
        b
    } else {
        a
    }
}

/// The cell `(x, y)` lies on the horizontal run in row `row` between columns
/// `x1` and `x2`, both ends included, whichever end is the larger.
pub open spec fn on_h_run(x1: int, x2: int, row: int, x: int, y: int) -> bool {
    y == row && lower(x1, x2) <= x <= upper(x1, x2)
}

/// The cell `(x, y)` lies on the vertical run in column `col` between rows
/// `y1` and `y2`, both ends included, whichever end is the larger.
pub open spec fn on_v_run(y1: int, y2: int, col: int, x: int, y: int) -> bool {
    x == col && lower(y1, y2) <= y <= upper(y1, y2)
}

/// The cell `(x, y)` lies on the L-shaped tunnel from `from` to `to`. Going
/// horizontally first, the elbow is at `(to.0, from.1)`; going vertically
/// first, it is at `(from.0, to.1)`.
pub open spec fn on_tunnel(from: (int, int), to: (int, int), horizontal_first: bool, x: int, y: int) -> bool {
    if horizontal_first {
        on_h_run(from.0, to.0, from.1, x, y) || on_v_run(from.1, to.1, to.0, x, y)
    } else {
        on_v_run(from.1, to.1, from.0, x, y) || on_h_run(from.0, to.0, to.1, x, y)
    }
}

/// `after` is `before` with exactly the cells of `region` opened: the two
/// grids have the same dimensions, each tile in the region is the carved form
/// of what it was, and every other tile is untouched.
pub open spec fn opened(before: &Grid, after: &Grid, region: spec_fn(int, int) -> bool) -> bool {
    &&& after.wf()
    &&& after.cols() == before.cols()
    &&& after.rows() == before.rows()
    &&& forall|x: int, y: int|
        before.contains(x, y) ==> #[trigger] after@[x][y] == (if region(x, y) {
            before@[x][y].carved()
        } else {
            before@[x][y]
        })
}

/// Opens every tile strictly inside the room's bounding edge.
///
/// A room whose interior is empty opens nothing. Otherwise the interior must
/// lie on the grid.
pub fn create_room(room: Rect, map: &mut Grid)
    requires
        old(map).wf(),
        room.has_interior() ==> 0 <= room.x1 + 1 && room.x2 <= old(map).cols() && 0 <= room.y1 + 1
            && room.y2 <= old(map).rows(),
    ensures
        opened(old(map), final(map), |x: int, y: int| room.interior_contains(x, y)),
{
    let ghost before = *map;
    if room.x1 >= room.x2 || room.y1 >= room.y2 {
        return ;
    }
    let mut x: i32 = room.x1 + 1;
    while x < room.x2
        invariant
            room.x1 < x <= room.x2,
            room.y1 < room.y2,
            before.wf(),
            room.has_interior() ==> 0 <= room.x1 + 1 && room.x2 <= before.cols() && 0 <= room.y1
                + 1 && room.y2 <= before.rows(),
            opened(&before, map, |cx: int, cy: int| room.interior_contains(cx, cy) && cx < x),
        decreases room.x2 - x,
    {
        let mut y: i32 = room.y1 + 1;
        while y < room.y2
            invariant
                room.x1 < x < room.x2,
                room.y1 < y <= room.y2,
                before.wf(),
                room.has_interior() ==> 0 <= room.x1 + 1 && room.x2 <= before.cols() && 0
                    <= room.y1 + 1 && room.y2 <= before.rows(),
                opened(
                    &before,
                    map,
                    |cx: int, cy: int|
                        room.interior_contains(cx, cy) && (cx < x || (cx == x && cy < y)),
                ),
            decreases room.y2 - y,
        {
            map.carve(x, y);
            y += 1;
        }
        x += 1;
    }
}

/// Opens the horizontal run of tiles in row `y` from column `x1` to column
/// `x2`, both included, in either order. The run must lie on the grid.
pub fn create_h_tunnel(x1: i32, x2: i32, y: i32, map: &mut Grid)
    requires
        old(map).wf(),
        old(map).contains(x1 as int, y as int),
        old(map).contains(x2 as int, y as int),
    ensures
        opened(old(map), final(map), |cx: int, cy: int| on_h_run(x1 as int, x2 as int, y as int, cx, cy)),
{
    let ghost before = *map;
    let start: i32 = if x1 <= x2 { x1 } else { x2 };
    let end: i32 = if x1 <= x2 { x2 } else { x1 };
    let mut x: i32 = start;
    while x <= end
        invariant
            start == lower(x1 as int, x2 as int),
            end == upper(x1 as int, x2 as int),
            start <= x <= end + 1,
            before.wf(),
            before.contains(start as int, y as int),
            before.contains(end as int, y as int),
            opened(
                &before,
                map,
                |cx: int, cy: int| on_h_run(x1 as int, x2 as int, y as int, cx, cy) && cx < x,
            ),
        decreases end + 1 - x,
    {
        proof {
            before.lemma_shape();
        }
        map.carve(x, y);
        x += 1;
    }
}

/// Opens the vertical run of tiles in column `x` from row `y1` to row `y2`,
/// both included, in either order. The run must lie on the grid.
pub fn create_v_tunnel(y1: i32, y2: i32, x: i32, map: &mut Grid)
    requires
        old(map).wf(),
        old(map).contains(x as int, y1 as int),
        old(map).contains(x as int, y2 as int),
    ensures
        opened(old(map), final(map), |cx: int, cy: int| on_v_run(y1 as int, y2 as int, x as int, cx, cy)),
{
    let ghost before = *map;
    let start: i32 = if y1 <= y2 { y1 } else { y2 };
    let end: i32 = if y1 <= y2 { y2 } else { y1 };
    let mut y: i32 = start;
    while y <= end
        invariant
            start == lower(y1 as int, y2 as int),
            end == upper(y1 as int, y2 as int),
            start <= y <= end + 1,
            before.wf(),
            before.contains(x as int, start as int),
            before.contains(x as int, end as int),
            opened(
                &before,
                map,
                |cx: int, cy: int| on_v_run(y1 as int, y2 as int, x as int, cx, cy) && cy < y,
            ),
        decreases end + 1 - y,
    {
        proof {
            before.lemma_shape();
        }
        map.carve(x, y);
        y += 1;
    }
}

/// Joins two cells with an L-shaped tunnel: one horizontal and one vertical
/// run. With `horizontal_first` the tunnel leaves `from` along its row and
/// turns at `to`'s column; otherwise it leaves along `from`'s column and turns
/// at `to`'s row.
pub fn connect(from: (i32, i32), to: (i32, i32), horizontal_first: bool, map: &mut Grid)
    requires
        old(map).wf(),
        old(map).contains(from.0 as int, from.1 as int),
        old(map).contains(to.0 as int, to.1 as int),
    ensures
        opened(
            old(map),
            final(map),
            |x: int, y: int|
                on_tunnel(
                    (from.0 as int, from.1 as int),
                    (to.0 as int, to.1 as int),
                    horizontal_first,
                    x,
                    y,
                ),
        ),
{
    if horizontal_first {
        create_h_tunnel(from.0, to.0, from.1, map);
        create_v_tunnel(from.1, to.1, to.0, map);
    } else {
        create_v_tunnel(from.1, to.1, from.0, map);
        create_h_tunnel(from.0, to.0, to.1, map);
    }
}

} // verus!
