use roguemax::entity::{Color, DeathCallback, Fighter, Object};
use roguemax::fov::{mark_explored, FovMap};
use roguemax::grid::Grid;
use roguemax::render::{draw_order, fov_needs_recompute, player_stats, tile_shade, Shade};
use roguemax::tile::Tile;

fn explored_cells(map: &Grid) -> Vec<(i32, i32)> {
    let mut cells = Vec::new();
    for x in 0..map.width() {
        for y in 0..map.height() {
            if map.tile(x, y).explored {
                cells.push((x, y));
            }
        }
    }
    cells
}

#[test]
fn fov_map_starts_with_nothing_in_sight() {
    let fov = FovMap::new(4, 3);
    assert_eq!(fov.size(), (4, 3));
    for x in 0..4 {
        for y in 0..3 {
            assert!(!fov.is_in_fov(x, y));
        }
    }
}

#[test]
fn fov_map_in_bounds_at_the_edges() {
    let fov = FovMap::new(4, 3);
    assert!(fov.in_bounds(0, 0));
    assert!(fov.in_bounds(3, 2));
    assert!(!fov.in_bounds(4, 2));
    assert!(!fov.in_bounds(3, 3));
    assert!(!fov.in_bounds(-1, 0));
}

#[test]
fn set_in_fov_changes_one_cell() {
    let mut fov = FovMap::new(4, 3);
    fov.set_in_fov(2, 1, true);
    for x in 0..4 {
        for y in 0..3 {
            assert_eq!(fov.is_in_fov(x, y), (x, y) == (2, 1));
        }
    }
    fov.set_in_fov(2, 1, false);
    assert!(!fov.is_in_fov(2, 1));
}

#[test]
fn mark_explored_marks_what_is_in_sight() {
    let mut map = Grid::new(5, 5);
    map.carve(2, 2);
    let mut fov = FovMap::new(5, 5);
    fov.set_in_fov(2, 2, true);
    fov.set_in_fov(2, 3, true);
    mark_explored(&mut map, &fov);
    assert_eq!(explored_cells(&map), vec![(2, 2), (2, 3)]);
    assert_eq!(map.tile(2, 2), Tile { blocked: false, explored: true, block_sight: false });
    assert_eq!(map.tile(2, 3), Tile { blocked: true, explored: true, block_sight: true });
    assert_eq!(map.tile(3, 3), Tile::wall());
}

#[test]
fn explored_is_never_taken_back() {
    let mut map = Grid::new(5, 5);
    let mut fov = FovMap::new(5, 5);
    fov.set_in_fov(1, 1, true);
    mark_explored(&mut map, &fov);
    // the player walks on: other cells come in sight, the first goes out of it
    fov.set_in_fov(1, 1, false);
    fov.set_in_fov(3, 3, true);
    mark_explored(&mut map, &fov);
    assert_eq!(explored_cells(&map), vec![(1, 1), (3, 3)]);
    // nothing in sight at all
    mark_explored(&mut map, &FovMap::new(5, 5));
    mark_explored(&mut map, &FovMap::new(5, 5));
    assert_eq!(explored_cells(&map), vec![(1, 1), (3, 3)]);
    // the same cell again
    mark_explored(&mut map, &fov);
    assert_eq!(explored_cells(&map), vec![(1, 1), (3, 3)]);
}

#[test]
fn mark_explored_with_maps_of_other_sizes() {
    let mut map = Grid::new(4, 4);
    let mut small = FovMap::new(2, 2);
    small.set_in_fov(1, 1, true);
    mark_explored(&mut map, &small);
    assert_eq!(explored_cells(&map), vec![(1, 1)]);
    let mut large = FovMap::new(9, 9);
    large.set_in_fov(3, 0, true);
    large.set_in_fov(8, 8, true);
    mark_explored(&mut map, &large);
    assert_eq!(explored_cells(&map), vec![(1, 1), (3, 0)]);
}

#[test]
fn tile_shade_by_sight_and_wall() {
    let wall = Tile { blocked: true, explored: true, block_sight: true };
    let floor = Tile { blocked: false, explored: true, block_sight: false };
    assert_eq!(tile_shade(false, wall), Some(Shade::DarkWall));
    assert_eq!(tile_shade(false, floor), Some(Shade::DarkGround));
    assert_eq!(tile_shade(true, wall), Some(Shade::LightWall));
    assert_eq!(tile_shade(true, floor), Some(Shade::LightGround));
}

#[test]
fn tile_shade_of_what_was_never_seen() {
    assert_eq!(tile_shade(false, Tile::wall()), None);
    assert_eq!(tile_shade(false, Tile::empty()), None);
    // in sight for the first time
    assert_eq!(tile_shade(true, Tile::wall()), Some(Shade::LightWall));
    assert_eq!(tile_shade(true, Tile::empty()), Some(Shade::LightGround));
}

#[test]
fn shades_have_their_colors() {
    assert_eq!(Shade::DarkWall.color(), Color { r: 0, g: 0, b: 100 });
    assert_eq!(Shade::LightWall.color(), Color { r: 130, g: 110, b: 50 });
    assert_eq!(Shade::DarkGround.color(), Color { r: 50, g: 50, b: 150 });
    assert_eq!(Shade::LightGround.color(), Color { r: 200, g: 180, b: 50 });
}

#[test]
fn fov_is_recomputed_only_after_a_move() {
    let objects = vec![Object::new(4, 7, '@', "player", Color::white(), true)];
    assert!(!fov_needs_recompute((4, 7), &objects));
    assert!(fov_needs_recompute((4, 6), &objects));
    assert!(fov_needs_recompute((5, 7), &objects));
    assert!(fov_needs_recompute((-1, -1), &objects));
}

#[test]
fn draw_order_puts_blocking_entities_last() {
    let mut fov = FovMap::new(6, 6);
    for x in 0..6 {
        for y in 0..5 {
            fov.set_in_fov(x, y, true);
        }
    }
    let objects = vec![
        Object::new(1, 1, '@', "player", Color::white(), true),
        Object::new(2, 2, '%', "remains", Color::dark_red(), false),
        Object::new(2, 2, 'o', "orc", Color::desaturated_green(), true),
        Object::new(3, 5, 'T', "troll", Color::darker_green(), true),
        Object::new(3, 3, '%', "remains", Color::dark_red(), false),
        Object::new(9, 9, 'o', "orc", Color::desaturated_green(), true),
        Object::new(-1, 0, '%', "remains", Color::dark_red(), false),
    ];
    assert_eq!(draw_order(&objects, &fov), vec![1, 4, 0, 2]);
    assert_eq!(draw_order(&objects, &FovMap::new(6, 6)), Vec::<usize>::new());
    assert_eq!(draw_order(&[], &fov), Vec::<usize>::new());
}

#[test]
fn player_stats_are_the_hit_points() {
    let mut player = Object::new(1, 1, '@', "player", Color::white(), true);
    assert_eq!(player_stats(&[player.clone()]), (0, 0));
    player.fighter = Some(Fighter {
        max_hp: 30,
        hp: 17,
        defence: 2,
        power: 5,
        on_death: DeathCallback::Player,
    });
    let other = Object::new(1, 2, 'o', "orc", Color::white(), true);
    assert_eq!(player_stats(&[player, other]), (17, 30));
}
