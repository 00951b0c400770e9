//! A turn-based, grid-world roguelike core: a dungeon generator, exploration
//! memory over a field of view, and a turn-sequenced combat simulation.
//!
//! The presentation layer reads the tile grid, the field of view and the
//! roster of entities, and hands in one intent of the player per turn. What
//! happens then is decided here.

pub mod tile;
pub mod grid;
pub mod rect;
pub mod carve;
pub mod entity;
pub mod event;
pub mod fov;
pub mod game;
pub mod roster;
pub mod dice;
pub mod config;
pub mod dungeon;
pub mod turn;
pub mod render;

pub use crate::carve::{connect, create_h_tunnel, create_room, create_v_tunnel};
pub use crate::config::Config;
pub use crate::dungeon::{make_map, place_monster, place_objects, Dungeon};
pub use crate::entity::{Ai, AttackOutcome, Color, DeathCallback, Fighter, Object};
pub use crate::event::Event;
pub use crate::fov::{mark_explored, FovMap};
pub use crate::game::Game;
pub use crate::grid::Grid;
pub use crate::rect::Rect;
pub use crate::roster::{
    is_blocked, move_by, move_towards, mut_two, player_move_or_attack, PLAYER,
};
pub use crate::tile::Tile;
pub use crate::turn::{ai_take_turn, handle_keys, take_turn, Intent, PlayerAction, TurnState};
