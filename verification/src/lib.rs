//! Grid-world game logic: tiles, the tile map, player input and the
//! terminal view window, each with a verified contract.

pub mod camera;
pub mod grid;
pub mod input;
pub mod laws;
pub mod player;
pub mod tile;

pub use camera::{ascii_view_window, terminal_position, ViewWindow};
pub use grid::{player_spawn_cell, MapError, MapTiles, UVec2};
pub use input::{
    handle_player_movement, handle_terminal_player_movement, movement_direction, IVec2, MoveOrder,
    MovementKeys, TerminalKey,
};
pub use player::{GameConfig, Player};
pub use tile::{tile_for_noise_sign, Tile};
