//! The options of a session, fixed when it starts.

use vstd::prelude::*;

verus! {

/// Width of the map, in tiles.
pub const MAP_WIDTH: i32 = 80;

/// Height of the map, in tiles.
pub const MAP_HEIGHT: i32 = 43;

/// Largest width or height of a room.
pub const ROOM_MAX_SIZE: i32 = 10;

/// Smallest width or height of a room.
pub const ROOM_MIN_SIZE: i32 = 6;

/// How many rooms the generator tries to place.
pub const MAX_ROOMS: i32 = 30;

/// The most monsters a room is seeded with.
pub const MAX_ROOM_MONSTERS: i32 = 3;

/// Whether walls at the edge of the field of view are lit.
pub const FOV_LIGHT_WALLS: bool = true;

/// How far the player sees.
pub const TORCH_RADIUS: i32 = 10;

/// The options the generator, the field of view and the turn sequence depend
/// on. They are set once and passed by reference; nothing changes them.
#[derive(Clone, Copy, Debug, PartialEq, Eq, Structural)]
pub struct Config {
    pub map_width: i32,
    pub map_height: i32,
    pub room_max_size: i32,
    pub room_min_size: i32,
    pub max_rooms: i32,
    pub max_room_monsters: i32,
    pub fov_light_walls: bool,
    pub torch_radius: i32,
}

impl Config {
    /// The options describe a dungeon that can be generated: at least one
    /// room is asked for, every room has floor inside its walls, every room
    /// fits on the map with a tile to spare, and the number of monsters per
    /// room is not negative.
    pub open spec fn valid(&self) -> bool {
        &&& 1 <= self.max_rooms
        &&& 2 <= self.room_min_size <= self.room_max_size
        &&& self.room_max_size < self.map_width
        &&& self.room_max_size < self.map_height
        &&& 0 <= self.max_room_monsters < i32::MAX
    }

    /// Whether the options describe a dungeon that can be generated.
    pub fn is_valid(&self) -> (b: bool)
        ensures
            b == self.valid(),
    {
        1 <= self.max_rooms && 2 <= self.room_min_size && self.room_min_size <= self.room_max_size
            && self.room_max_size < self.map_width && self.room_max_size < self.map_height && 0
            <= self.max_room_monsters && self.max_room_monsters < i32::MAX
    }
}

impl Default for Config {
    /// The standard options: an 80 by 43 map, up to 30 rooms of 6 to 10 tiles
    /// a side, up to 3 monsters a room, a torch that reaches 10 tiles, and
    /// lit walls.
    fn default() -> (c: Config)
        ensures
            c == (Config {
                map_width: MAP_WIDTH,
                map_height: MAP_HEIGHT,
                room_max_size: ROOM_MAX_SIZE,
                room_min_size: ROOM_MIN_SIZE,
                max_rooms: MAX_ROOMS,
                max_room_monsters: MAX_ROOM_MONSTERS,
                fov_light_walls: FOV_LIGHT_WALLS,
                torch_radius: TORCH_RADIUS,
            }),
            c.valid(),
    {
        Config {
            map_width: MAP_WIDTH,
            map_height: MAP_HEIGHT,
            room_max_size: ROOM_MAX_SIZE,
            room_min_size: ROOM_MIN_SIZE,
            max_rooms: MAX_ROOMS,
            max_room_monsters: MAX_ROOM_MONSTERS,
            fov_light_walls: FOV_LIGHT_WALLS,
            torch_radius: TORCH_RADIUS,
        }
    }
}

} // verus!
