use roguemax::carve::{connect, create_h_tunnel, create_room, create_v_tunnel};
use roguemax::grid::Grid;
use roguemax::rect::Rect;
use roguemax::tile::Tile;

fn open_cells(map: &Grid) -> Vec<(i32, i32)> {
    let mut cells = Vec::new();
    for x in 0..map.width() {
        for y in 0..map.height() {
            if !map.tile(x, y).blocked {
                cells.push((x, y));
            }
        }
    }
    cells
}

#[test]
fn tile_empty_is_open_floor() {
    let t = Tile::empty();
    assert!(!t.blocked);
    assert!(!t.block_sight);
    assert!(!t.explored);
}

#[test]
fn tile_wall_is_solid() {
    let t = Tile::wall();
    assert!(t.blocked);
    assert!(t.block_sight);
    assert!(!t.explored);
}

#[test]
fn grid_new_is_all_unexplored_walls() {
    let map = Grid::new(7, 5);
    assert_eq!(map.width(), 7);
    assert_eq!(map.height(), 5);
    for x in 0..7 {
        for y in 0..5 {
            assert_eq!(map.tile(x, y), Tile::wall());
        }
    }
}

#[test]
fn grid_in_bounds_at_the_edges() {
    let map = Grid::new(7, 5);
    assert!(map.in_bounds(0, 0));
    assert!(map.in_bounds(6, 4));
    assert!(!map.in_bounds(7, 4));
    assert!(!map.in_bounds(6, 5));
    assert!(!map.in_bounds(-1, 0));
    assert!(!map.in_bounds(0, -1));
}

#[test]
fn grid_without_cells_contains_nothing() {
    let map = Grid::new(0, 0);
    assert_eq!(map.width(), 0);
    assert!(!map.in_bounds(0, 0));
}

#[test]
fn carve_opens_one_tile_and_keeps_exploration() {
    let mut map = Grid::new(4, 4);
    map.explore(2, 1);
    map.carve(2, 1);
    map.carve(3, 3);
    assert_eq!(map.tile(2, 1), Tile { blocked: false, explored: true, block_sight: false });
    assert_eq!(map.tile(3, 3), Tile::empty());
    assert_eq!(open_cells(&map), vec![(2, 1), (3, 3)]);
}

#[test]
fn explore_sets_only_the_explored_flag() {
    let mut map = Grid::new(3, 3);
    map.explore(1, 1);
    assert_eq!(map.tile(1, 1), Tile { blocked: true, explored: true, block_sight: true });
    assert_eq!(map.tile(0, 1), Tile::wall());
    map.explore(1, 1);
    assert!(map.tile(1, 1).explored);
}

#[test]
fn rect_new_adds_width_and_height() {
    let r = Rect::new(3, 4, 6, 8);
    assert_eq!(r, Rect { x1: 3, y1: 4, x2: 9, y2: 12 });
}

#[test]
fn rect_center_is_the_middle_cell() {
    assert_eq!(Rect::new(3, 4, 6, 8).center(), (6, 8));
    assert_eq!(Rect::new(0, 0, 7, 9).center(), (3, 4));
}

#[test]
fn rect_center_rounds_toward_zero() {
    let r = Rect { x1: -3, y1: -8, x2: 0, y2: 1 };
    assert_eq!(r.center(), (-1, -3));
}

#[test]
fn rect_center_of_the_largest_rectangle() {
    let r = Rect { x1: i32::MAX - 1, y1: i32::MIN, x2: i32::MAX, y2: i32::MIN + 1 };
    assert_eq!(r.center(), (i32::MAX - 1, i32::MIN + 1));
}

#[test]
fn rects_that_overlap_intersect() {
    let a = Rect::new(0, 0, 5, 5);
    let b = Rect::new(3, 3, 5, 5);
    assert!(a.intersects_with(&b));
    assert!(b.intersects_with(&a));
}

#[test]
fn rects_that_share_an_edge_intersect() {
    let a = Rect::new(0, 0, 5, 5);
    let b = Rect::new(5, 0, 5, 5);
    let c = Rect::new(5, 5, 2, 2);
    assert!(a.intersects_with(&b));
    assert!(b.intersects_with(&a));
    assert!(a.intersects_with(&c));
}

#[test]
fn rects_apart_do_not_intersect() {
    let a = Rect::new(0, 0, 5, 5);
    let right = Rect::new(6, 0, 5, 5);
    let below = Rect::new(0, 6, 5, 5);
    assert!(!a.intersects_with(&right));
    assert!(!right.intersects_with(&a));
    assert!(!a.intersects_with(&below));
    assert!(!below.intersects_with(&a));
}

#[test]
fn create_room_opens_the_interior_only() {
    let mut map = Grid::new(10, 10);
    let room = Rect::new(2, 3, 4, 3);
    create_room(room, &mut map);
    for x in 0..10 {
        for y in 0..10 {
            let inside = 2 < x && x < 6 && 3 < y && y < 6;
            if inside {
                assert_eq!(map.tile(x, y), Tile::empty());
            } else {
                assert_eq!(map.tile(x, y), Tile::wall());
            }
        }
    }
}

#[test]
fn create_room_without_interior_opens_nothing() {
    let mut map = Grid::new(6, 6);
    create_room(Rect::new(1, 1, 1, 4), &mut map);
    create_room(Rect::new(1, 1, 4, 1), &mut map);
    create_room(Rect::new(4, 4, -2, -2), &mut map);
    create_room(Rect { x1: i32::MAX, y1: 0, x2: i32::MAX, y2: 3 }, &mut map);
    assert!(open_cells(&map).is_empty());
}

#[test]
fn create_room_may_reach_the_last_tiles() {
    let mut map = Grid::new(5, 5);
    create_room(Rect { x1: -1, y1: -1, x2: 5, y2: 5 }, &mut map);
    assert_eq!(open_cells(&map).len(), 25);
}

#[test]
fn h_tunnel_runs_between_both_ends() {
    let mut map = Grid::new(10, 5);
    create_h_tunnel(2, 6, 3, &mut map);
    assert_eq!(open_cells(&map), vec![(2, 3), (3, 3), (4, 3), (5, 3), (6, 3)]);
}

#[test]
fn h_tunnel_runs_backwards_too() {
    let mut forward = Grid::new(10, 5);
    let mut backward = Grid::new(10, 5);
    create_h_tunnel(2, 6, 1, &mut forward);
    create_h_tunnel(6, 2, 1, &mut backward);
    assert_eq!(open_cells(&forward), open_cells(&backward));
}

#[test]
fn h_tunnel_of_one_tile() {
    let mut map = Grid::new(10, 5);
    create_h_tunnel(9, 9, 4, &mut map);
    assert_eq!(open_cells(&map), vec![(9, 4)]);
}

#[test]
fn v_tunnel_runs_between_both_ends() {
    let mut map = Grid::new(5, 10);
    create_v_tunnel(7, 4, 2, &mut map);
    assert_eq!(open_cells(&map), vec![(2, 4), (2, 5), (2, 6), (2, 7)]);
}

#[test]
fn connect_horizontal_first_turns_at_the_far_column() {
    let mut map = Grid::new(8, 8);
    connect((1, 1), (4, 3), true, &mut map);
    assert_eq!(open_cells(&map), vec![(1, 1), (2, 1), (3, 1), (4, 1), (4, 2), (4, 3)]);
}

#[test]
fn connect_vertical_first_turns_at_the_far_row() {
    let mut map = Grid::new(8, 8);
    connect((1, 1), (4, 3), false, &mut map);
    assert_eq!(open_cells(&map), vec![(1, 1), (1, 2), (1, 3), (2, 3), (3, 3), (4, 3)]);
}

#[test]
fn two_rooms_are_joined_by_one_l_shaped_tunnel() {
    let mut map = Grid::new(30, 20);
    let first = Rect::new(2, 2, 6, 6);
    let second = Rect::new(15, 10, 8, 6);
    assert!(!first.intersects_with(&second));
    create_room(first, &mut map);
    create_room(second, &mut map);
    let from = first.center();
    let to = second.center();
    assert_eq!(from, (5, 5));
    assert_eq!(to, (19, 13));
    connect(from, to, true, &mut map);

    // the path along the row of the first center, then down the column of the second
    for x in 5..=19 {
        assert!(!map.tile(x, 5).blocked);
        assert!(!map.tile(x, 5).block_sight);
    }
    for y in 5..=13 {
        assert!(!map.tile(19, y).blocked);
    }
    // nothing is open but the two rooms and that one tunnel
    for x in 0..30 {
        for y in 0..20 {
            let in_first = 2 < x && x < 8 && 2 < y && y < 8;
            let in_second = 15 < x && x < 23 && 10 < y && y < 16;
            let on_tunnel = (y == 5 && 5 <= x && x <= 19) || (x == 19 && 5 <= y && y <= 13);
            assert_eq!(!map.tile(x, y).blocked, in_first || in_second || on_tunnel);
            assert_eq!(map.tile(x, y).blocked, map.tile(x, y).block_sight);
        }
    }
}
