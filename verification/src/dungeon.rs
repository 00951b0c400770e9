//! The dungeon generator: rooms placed at random and kept only where they
//! overlap no earlier room, tunnels between them, and monsters inside them.

use vstd::prelude::*;
use crate::carve::{connect, create_room, on_tunnel, opened};
use crate::config::Config;
use crate::dice::{gen_range, random_bool};
use crate::entity::{Ai, Color, DeathCallback, Fighter, Object};
use crate::grid::Grid;
use crate::rect::{lemma_center_in_interior, Rect};
use crate::roster::{blocked_at, is_blocked, PLAYER};

verus! {

broadcast use crate::grid::Grid::lemma_shape;

/// Out of a hundred monsters, this many are orcs; the rest are trolls.
pub const ORC_CHANCE: i32 = 60;

/// `o` is a freshly spawned orc at `(x, y)`.
pub open spec fn is_orc(o: Object, x: int, y: int) -> bool {
    &&& o.x == x
    &&& o.y == y
    &&& o.char == 'o'
    &&& o.name@ == "orc"@
    &&& o.color == Color::desaturated_green()
    &&& o.blocks
    &&& o.alive
    &&& o.fighter == Some(
        Fighter { max_hp: 10, hp: 10, defence: 0, power: 3, on_death: DeathCallback::Monster },
    )
    &&& o.ai == Some(Ai::Basic)
}

/// `o` is a freshly spawned troll at `(x, y)`.
pub open spec fn is_troll(o: Object, x: int, y: int) -> bool {
    &&& o.x == x
    &&& o.y == y
    &&& o.char == 'T'
    &&& o.name@ == "troll"@
    &&& o.color == Color::darker_green()
    &&& o.blocks
    &&& o.alive
    &&& o.fighter == Some(
        Fighter { max_hp: 16, hp: 16, defence: 1, power: 4, on_death: DeathCallback::Monster },
    )
    &&& o.ai == Some(Ai::Basic)
}

/// `o` is the monster that the roll `roll` spawns at `(x, y)`: an orc for a
/// roll below `ORC_CHANCE`, a troll otherwise.
pub open spec fn is_spawn(o: Object, x: int, y: int, roll: int) -> bool {
    if roll < ORC_CHANCE {
        is_orc(o, x, y)
    } else {
        is_troll(o, x, y)
    }
}

/// `o` is a freshly spawned monster standing strictly inside `room`.
pub open spec fn spawned_in(o: Object, room: Rect) -> bool {
    room.interior_contains(o.x as int, o.y as int) && (is_orc(o, o.x as int, o.y as int)
        || is_troll(o, o.x as int, o.y as int))
}

/// The monster that the roll `roll` spawns at `(x, y)`.
pub fn spawn_monster(x: i32, y: i32, roll: i32) -> (monster: Object)
    ensures
        is_spawn(monster, x as int, y as int, roll as int),
{
    let mut monster = if roll < ORC_CHANCE {
        let mut orc = Object::new(x, y, 'o', "orc", Color::desaturated_green(), true);
        orc.fighter = Some(
            Fighter { max_hp: 10, hp: 10, defence: 0, power: 3, on_death: DeathCallback::Monster },
        );
        orc.ai = Some(Ai::Basic);
        orc
    } else {
        let mut troll = Object::new(x, y, 'T', "troll", Color::darker_green(), true);
        troll.fighter = Some(
            Fighter { max_hp: 16, hp: 16, defence: 1, power: 4, on_death: DeathCallback::Monster },
        );
        troll.ai = Some(Ai::Basic);
        troll
    };
    monster.alive = true;
    monster
}

/// The roster after the monster for `roll` was to be placed at `(x, y)`: it
/// is `before` with that monster added at its end if the cell was free, and
/// `before` itself if the cell was blocked by its tile or by an entity.
pub open spec fn monster_placed(
    before: Seq<Object>,
    after: Seq<Object>,
    x: int,
    y: int,
    roll: int,
    map: &Grid,
) -> bool {
    if blocked_at(map, before, x, y) {
        after == before
    } else {
        after.len() == before.len() + 1 && after.drop_last() == before && is_spawn(
            after.last(),
            x,
            y,
            roll,
        )
    }
}

/// Places the monster for `roll` at `(x, y)`: it is spawned and added to the
/// end of the roster, unless the cell is blocked by its tile or by an entity;
/// then the slot is given up and nothing changes. Returns whether a monster
/// was added.
pub fn place_monster(x: i32, y: i32, roll: i32, map: &Grid, objects: &mut Vec<Object>) -> (placed:
    bool)
    requires
        map.wf(),
        map.contains(x as int, y as int),
    ensures
        placed == !blocked_at(map, old(objects)@, x as int, y as int),
        monster_placed(old(objects)@, final(objects)@, x as int, y as int, roll as int, map),
{
    if !is_blocked(x, y, map, objects.as_slice()) {
        objects.push(spawn_monster(x, y, roll));
        assert(objects@.drop_last() =~= old(objects)@);
        true
    } else {
        false
    }
}

/// Seeds a room with monsters: a random number of them, up to `max_monsters`,
/// each at a random cell strictly inside the room and of a kind drawn at
/// random, placed as `place_monster` says. A monster whose cell is blocked is
/// given up, so fewer may come than were drawn.
///
/// Whatever the draws, the roster only grows at its end, by at most
/// `max_monsters` entities, and each one added is a fresh orc or troll
/// strictly inside the room, on a cell that was not blocked when it came.
pub fn place_objects(room: Rect, map: &Grid, objects: &mut Vec<Object>, max_monsters: i32)
    requires
        map.wf(),
        room.has_interior(),
        0 <= room.x1 + 1,
        room.x2 <= map.cols(),
        0 <= room.y1 + 1,
        room.y2 <= map.rows(),
        0 <= max_monsters < i32::MAX,
    ensures
        old(objects)@.len() <= final(objects)@.len() <= old(objects)@.len() + max_monsters,
        final(objects)@.subrange(0, old(objects)@.len() as int) == old(objects)@,
        forall|k: int|
            old(objects)@.len() <= k < final(objects)@.len() ==> spawned_in(
                #[trigger] final(objects)@[k],
                room,
            ) && !blocked_at(
                map,
                final(objects)@.subrange(0, k),
                final(objects)@[k].x as int,
                final(objects)@[k].y as int,
            ),
{
    let ghost before = objects@;
    let num_monsters = gen_range(0, max_monsters + 1);
    let mut n: i32 = 0;
    while n < num_monsters
        invariant
            0 <= n <= num_monsters <= max_monsters,
            map.wf(),
            room.has_interior(),
            0 <= room.x1 + 1,
            room.x2 <= map.cols(),
            0 <= room.y1 + 1,
            room.y2 <= map.rows(),
            before.len() <= objects@.len() <= before.len() + n,
            objects@.subrange(0, before.len() as int) == before,
            forall|k: int|
                before.len() <= k < objects@.len() ==> spawned_in(#[trigger] objects@[k], room)
                    && !blocked_at(
                    map,
                    objects@.subrange(0, k),
                    objects@[k].x as int,
                    objects@[k].y as int,
                ),
        decreases num_monsters - n,
    {
        let x = gen_range(room.x1 + 1, room.x2);
        let y = gen_range(room.y1 + 1, room.y2);
        let roll = gen_range(0, 100);
        let ghost earlier = objects@;
        let placed = place_monster(x, y, roll, map, objects);
        proof {
            if placed {
                assert(objects@.subrange(0, before.len() as int) == earlier.subrange(
                    0,
                    before.len() as int,
                ));
                assert forall|k: int| before.len() <= k < objects@.len() implies spawned_in(
                    #[trigger] objects@[k],
                    room,
                ) && !blocked_at(
                    map,
                    objects@.subrange(0, k),
                    objects@[k].x as int,
                    objects@[k].y as int,
                ) by {
                    if k < earlier.len() {
                        assert(objects@[k] == earlier[k]);
                        assert(objects@.subrange(0, k) == earlier.subrange(0, k));
                    } else {
                        assert(objects@.subrange(0, k) == earlier);
                    }
                }
            }
        }
        n += 1;
    }
}

/// A generated dungeon: the carved map, and the rooms that were accepted, in
/// the order in which they were.
pub struct Dungeon {
    pub map: Grid,
    pub rooms: Vec<Rect>,
}

/// No two of the rooms touch or overlap.
pub open spec fn rooms_disjoint(rooms: Seq<Rect>) -> bool {
    forall|i: int, j: int|
        0 <= i < j < rooms.len() ==> !(#[trigger] rooms[i]).intersects(#[trigger] rooms[j])
}

/// The room is one the generator may draw: its sides are within the
/// configured sizes, and it lies on the map with its far edge short of the
/// map's last column and row.
pub open spec fn room_allowed(room: Rect, config: &Config) -> bool {
    &&& 0 <= room.x1
    &&& 0 <= room.y1
    &&& config.room_min_size <= room.x2 - room.x1 <= config.room_max_size
    &&& config.room_min_size <= room.y2 - room.y1 <= config.room_max_size
    &&& room.x2 < config.map_width
    &&& room.y2 < config.map_height
}

/// Every tile strictly inside the room is passable.
pub open spec fn room_open(map: &Grid, room: Rect) -> bool {
    forall|x: int, y: int| room.interior_contains(x, y) ==> !(#[trigger] map@[x][y]).blocked
}

/// The cell `(x, y)` lies on the L-shaped tunnel between the centers of room
/// `r - 1` and room `r`, with the elbow that `horizontal_first` selects.
pub open spec fn tunnel_cell(rooms: Seq<Rect>, r: int, horizontal_first: bool, x: int, y: int) -> bool {
    on_tunnel(rooms[r - 1].center_point(), rooms[r].center_point(), horizontal_first, x, y)
}

/// Every tile of the L-shaped tunnel between the centers of room `r - 1` and
/// room `r`, with the elbow that `horizontal_first` selects, is passable.
pub open spec fn tunnel_open(map: &Grid, rooms: Seq<Rect>, r: int, horizontal_first: bool) -> bool {
    forall|x: int, y: int|
        tunnel_cell(rooms, r, horizontal_first, x, y) ==> !(#[trigger] map@[x][y]).blocked
}

/// The cell `(x, y)` lies strictly inside one of the rooms.
pub open spec fn in_some_room(rooms: Seq<Rect>, x: int, y: int) -> bool {
    exists|r: int| 0 <= r < rooms.len() && (#[trigger] rooms[r]).interior_contains(x, y)
}

/// The cell `(x, y)` lies on an L-shaped tunnel between the centers of two
/// rooms that were accepted one after the other.
pub open spec fn on_some_tunnel(rooms: Seq<Rect>, x: int, y: int) -> bool {
    exists|r: int, horizontal_first: bool|
        1 <= r < rooms.len() && #[trigger] tunnel_cell(rooms, r, horizontal_first, x, y)
}

/// The map is the dungeon that the rooms describe:
/// - it has the configured size, every tile is wall or floor, none explored;
/// - each room is one the generator may draw, and no two rooms overlap;
/// - the inside of every room is passable;
/// - each room after the first is joined to the one before it by one
///   L-shaped tunnel between their centers, every tile of it passable;
/// - nothing else is: a passable tile is inside a room or on such a tunnel.
pub open spec fn laid_out(map: &Grid, rooms: Seq<Rect>, config: &Config) -> bool {
    &&& map.wf()
    &&& map.cols() == config.map_width
    &&& map.rows() == config.map_height
    &&& map.paired()
    &&& map.unexplored()
    &&& forall|r: int| 0 <= r < rooms.len() ==> room_allowed(#[trigger] rooms[r], config)
    &&& rooms_disjoint(rooms)
    &&& forall|r: int| 0 <= r < rooms.len() ==> room_open(map, #[trigger] rooms[r])
    &&& forall|r: int|
        1 <= r < rooms.len() ==> #[trigger] tunnel_open(map, rooms, r, true) || tunnel_open(
            map,
            rooms,
            r,
            false,
        )
    &&& forall|x: int, y: int|
        map.contains(x, y) && !(#[trigger] map@[x][y]).blocked ==> in_some_room(rooms, x, y)
            || on_some_tunnel(rooms, x, y)
}

impl Dungeon {
    /// The dungeon is one that the generator produces under `config`.
    pub open spec fn wf(&self, config: &Config) -> bool {
        laid_out(&self.map, self.rooms@, config)
    }
}

/// Whether `room` touches or overlaps any of `rooms`.
pub fn intersects_any(room: &Rect, rooms: &Vec<Rect>) -> (b: bool)
    ensures
        b == exists|i: int| 0 <= i < rooms@.len() && room.intersects(#[trigger] rooms@[i]),
{
    let mut i: usize = 0;
    while i < rooms.len()
        invariant
            i <= rooms@.len(),
            forall|j: int| 0 <= j < i ==> !room.intersects(#[trigger] rooms@[j]),
        decreases rooms@.len() - i,
    {
        if room.intersects_with(&rooms[i]) {
            return true;
        }
        i += 1;
    }
    false
}

/// Accepting a room keeps the dungeon laid out. `carved` is the map after the
/// room's inside was opened, `after` the map after the tunnel to the room
/// before it was dug, or `carved` itself for the first room.
proof fn lemma_room_added(
    before: &Grid,
    carved: &Grid,
    after: &Grid,
    rooms: Seq<Rect>,
    room: Rect,
    horizontal_first: bool,
    config: &Config,
)
    requires
        config.valid(),
        laid_out(before, rooms, config),
        room_allowed(room, config),
        forall|i: int| 0 <= i < rooms.len() ==> !room.intersects(#[trigger] rooms[i]),
        opened(before, carved, |x: int, y: int| room.interior_contains(x, y)),
        rooms.len() == 0 ==> opened(carved, after, |x: int, y: int| false),
        rooms.len() > 0 ==> opened(
            carved,
            after,
            |x: int, y: int|
                on_tunnel(rooms.last().center_point(), room.center_point(), horizontal_first, x, y),
        ),
    ensures
        laid_out(after, rooms.push(room), config),
{
    let next = rooms.push(room);
    let n = rooms.len() as int;
    assert(next[n] == room);
    assert forall|r: int| 0 <= r < next.len() implies room_allowed(#[trigger] next[r], config) by {
        if r < n {
            assert(next[r] == rooms[r]);
        }
    }
    assert(rooms_disjoint(next)) by {
        assert forall|i: int, j: int| 0 <= i < j < next.len() implies !(#[trigger] next[i]).intersects(
            #[trigger] next[j],
        ) by {
            assert(next[i] == rooms[i]);
            if j < n {
                assert(next[j] == rooms[j]);
            }
        }
    }
    assert forall|r: int| 0 <= r < next.len() implies room_open(after, #[trigger] next[r]) by {
        if r < n {
            assert(next[r] == rooms[r]);
            assert(room_open(before, rooms[r]));
        }
        assert forall|x: int, y: int| next[r].interior_contains(x, y) implies !(
        #[trigger] after@[x][y]).blocked by {
            assert(before.contains(x, y));
            assert(!carved@[x][y].blocked);
        }
    }
    assert forall|r: int| 1 <= r < next.len() implies #[trigger] tunnel_open(after, next, r, true)
        || tunnel_open(after, next, r, false) by {
        if r < n {
            assert(next[r] == rooms[r]);
            assert(next[r - 1] == rooms[r - 1]);
            let hf = tunnel_open(before, rooms, r, true);
            assert(tunnel_open(before, rooms, r, hf));
            assert(room_allowed(rooms[r], config));
            assert(room_allowed(rooms[r - 1], config));
            lemma_center_in_interior(rooms[r]);
            lemma_center_in_interior(rooms[r - 1]);
            assert forall|x: int, y: int| tunnel_cell(next, r, hf, x, y) implies !(
            #[trigger] after@[x][y]).blocked by {
                assert(tunnel_cell(rooms, r, hf, x, y));
                assert(before.contains(x, y));
                assert(!before@[x][y].blocked);
                assert(!carved@[x][y].blocked);
            }
            assert(tunnel_open(after, next, r, hf));
        } else {
            assert(next[r - 1] == rooms.last());
            assert(room_allowed(rooms.last(), config));
            lemma_center_in_interior(room);
            lemma_center_in_interior(rooms.last());
            assert forall|x: int, y: int| tunnel_cell(next, r, horizontal_first, x, y) implies !(
            #[trigger] after@[x][y]).blocked by {
                assert(before.contains(x, y));
            }
            assert(tunnel_open(after, next, r, horizontal_first));
        }
    }
    assert forall|x: int, y: int| after.contains(x, y) && !(#[trigger] after@[x][y]).blocked implies 
        in_some_room(next, x, y) || on_some_tunnel(next, x, y) by {
        if !before@[x][y].blocked {
            if in_some_room(rooms, x, y) {
                let r = choose|r: int| 0 <= r < rooms.len() && (#[trigger] rooms[r]).interior_contains(x, y);
                assert(next[r].interior_contains(x, y));
            } else {
                let (r, hf) = choose|r: int, hf: bool| 1 <= r < rooms.len() && #[trigger] tunnel_cell(rooms, r, hf, x, y);
                assert(next[r] == rooms[r]);
                assert(next[r - 1] == rooms[r - 1]);
                assert(tunnel_cell(next, r, hf, x, y));
            }
        } else if room.interior_contains(x, y) {
            assert(next[n].interior_contains(x, y));
        } else {
            assert(carved@[x][y].blocked);
            assert(n > 0);
            assert(next[n - 1] == rooms.last());
            assert(tunnel_cell(next, n, horizontal_first, x, y));
        }
    }
    assert(after.paired()) by {
        assert forall|x: int, y: int| after.contains(x, y) implies (#[trigger] after@[x][y]).paired() by {
            assert(before@[x][y].paired());
            assert(carved@[x][y].paired());
        }
    }
    assert(after.unexplored()) by {
        assert forall|x: int, y: int| after.contains(x, y) implies !(#[trigger] after@[x][y]).explored by {
            assert(!before@[x][y].explored);
            assert(!carved@[x][y].explored);
        }
    }
}

/// Generates a dungeon, and puts the player and the monsters into it.
///
/// Up to `config.max_rooms` rooms are drawn at random. A room that touches or
/// overlaps a room accepted before it is dropped. An accepted room is carved,
/// seeded with monsters, which are added to the end of the roster, and joined
/// to the room accepted before it by an L-shaped tunnel whose elbow is chosen
/// at random. The player is moved to the center of the first room.
///
/// Whatever the draws: the first room drawn is always accepted, so there is
/// at least one room; the player stands at the center of the first room, a
/// passable tile strictly inside it; the entities that were in the roster
/// are otherwise unchanged; and what follows them are fresh monsters, each
/// strictly inside a room, no two blocking ones on the same cell.
pub fn make_map(config: &Config, objects: &mut Vec<Object>) -> (dungeon: Dungeon)
    requires
        config.valid(),
        old(objects)@.len() > PLAYER,
    ensures
        dungeon.wf(config),
        1 <= dungeon.rooms@.len() <= config.max_rooms,
        final(objects)@.len() >= old(objects)@.len(),
        final(objects)@[PLAYER as int] == (Object {
            x: dungeon.rooms@[0].center_point().0 as i32,
            y: dungeon.rooms@[0].center_point().1 as i32,
            ..old(objects)@[PLAYER as int]
        }),
        dungeon.rooms@[0].interior_contains(
            final(objects)@[PLAYER as int].x as int,
            final(objects)@[PLAYER as int].y as int,
        ),
        !dungeon.map@[final(objects)@[PLAYER as int].x as int][final(objects)@[PLAYER as int].y as int].blocked,
        forall|k: int| PLAYER < k < old(objects)@.len() ==> final(objects)@[k] == old(objects)@[k],
        forall|k: int|
            old(objects)@.len() <= k < final(objects)@.len() ==> exists|r: int|
                0 <= r < dungeon.rooms@.len() && spawned_in(
                    #[trigger] final(objects)@[k],
                    #[trigger] dungeon.rooms@[r],
                ),
        forall|j: int, k: int|
            PLAYER < j < k < final(objects)@.len() && old(objects)@.len() <= k && (
            #[trigger] final(objects)@[j]).blocks ==> !((#[trigger] final(objects)@[k]).x
                == final(objects)@[j].x && final(objects)@[k].y == final(objects)@[j].y),
{
    let ghost start = objects@;
    let mut map = Grid::new(config.map_width, config.map_height);
    let mut rooms: Vec<Rect> = Vec::new();
    let mut attempt: i32 = 0;
    while attempt < config.max_rooms
        invariant
            config.valid(),
            0 <= attempt <= config.max_rooms,
            start.len() > PLAYER,
            laid_out(&map, rooms@, config),
            rooms@.len() <= attempt,
            attempt >= 1 ==> rooms@.len() >= 1,
            objects@.len() >= start.len(),
            objects@[PLAYER as int] == (if rooms@.len() == 0 {
                start[PLAYER as int]
            } else {
                Object {
                    x: rooms@[0].center_point().0 as i32,
                    y: rooms@[0].center_point().1 as i32,
                    ..start[PLAYER as int]
                }
            }),
            forall|k: int| PLAYER < k < start.len() ==> objects@[k] == start[k],
            forall|k: int|
                start.len() <= k < objects@.len() ==> exists|r: int|
                    0 <= r < rooms@.len() && spawned_in(#[trigger] objects@[k], #[trigger] rooms@[r]),
            forall|j: int, k: int|
                PLAYER < j < k < objects@.len() && start.len() <= k && (#[trigger] objects@[j]).blocks
                    ==> !((#[trigger] objects@[k]).x == objects@[j].x && objects@[k].y
                    == objects@[j].y),
        decreases config.max_rooms - attempt,
    {
        let w = gen_range(config.room_min_size, config.room_max_size + 1);
        let h = gen_range(config.room_min_size, config.room_max_size + 1);
        let x = gen_range(0, config.map_width - w);
        let y = gen_range(0, config.map_height - h);
        let new_room = Rect::new(x, y, w, h);
        let failed = intersects_any(&new_room, &rooms);
        if !failed {
            let ghost before = map;
            let ghost earlier = objects@;
            let ghost mut horizontal: bool = true;
            create_room(new_room, &mut map);
            let ghost carved = map;
            place_objects(new_room, &map, objects, config.max_room_monsters);
            let ghost seeded = objects@;
            let (new_x, new_y) = new_room.center();
            proof {
                lemma_center_in_interior(new_room);
            }
            if rooms.len() == 0 {
                objects[PLAYER].set_pos(new_x, new_y);
            } else {
                let (prev_x, prev_y) = rooms[rooms.len() - 1].center();
                proof {
                    lemma_center_in_interior(rooms@.last());
                }
                let horizontal_first = random_bool();
                proof {
                    horizontal = horizontal_first;
                }
                connect((prev_x, prev_y), (new_x, new_y), horizontal_first, &mut map);
            }
            proof {
                lemma_room_added(&before, &carved, &map, rooms@, new_room, horizontal, config);
                let next = rooms@.push(new_room);
                assert forall|k: int| start.len() <= k < objects@.len() implies exists|r: int|
                    0 <= r < next.len() && spawned_in(#[trigger] objects@[k], #[trigger] next[r]) by {
                    assert(objects@[k] == seeded[k]);
                    if k < earlier.len() {
                        assert(seeded[k] == earlier.subrange(0, earlier.len() as int)[k]);
                        let r = choose|r: int|
                            0 <= r < rooms@.len() && spawned_in(
                                #[trigger] earlier[k],
                                #[trigger] rooms@[r],
                            );
                        assert(next[r] == rooms@[r]);
                        assert(spawned_in(objects@[k], next[r]));
                    } else {
                        assert(spawned_in(objects@[k], next[rooms@.len() as int]));
                    }
                }
                assert forall|j: int, k: int|
                    PLAYER < j < k < objects@.len() && start.len() <= k && (
                    #[trigger] objects@[j]).blocks implies !((#[trigger] objects@[k]).x
                    == objects@[j].x && objects@[k].y == objects@[j].y) by {
                    assert(objects@[k] == seeded[k]);
                    assert(objects@[j] == seeded[j]);
                    if k < earlier.len() {
                        assert(seeded[k] == seeded.subrange(0, earlier.len() as int)[k]);
                        assert(seeded[j] == seeded.subrange(0, earlier.len() as int)[j]);
                    } else {
                        assert(seeded.subrange(0, k)[j] == seeded[j]);
                    }
                }
                assert forall|k: int| PLAYER < k < start.len() implies objects@[k] == start[k] by {
                    assert(seeded[k] == seeded.subrange(0, earlier.len() as int)[k]);
                }
                assert(seeded[PLAYER as int] == seeded.subrange(0, earlier.len() as int)[PLAYER as int]);
            }
            rooms.push(new_room);
        }
        attempt += 1;
    }
    proof {
        lemma_center_in_interior(rooms@[0]);
    }
    Dungeon { map, rooms }
}

} // verus!
