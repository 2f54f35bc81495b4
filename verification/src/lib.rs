//! The rules of Rock Run, verified: maps of screens and the camera, story
//! messages, enigmas, menus and states, the player, the beasts and the
//! elements of the levels.

pub mod texture;
pub mod text;
pub mod screen_map;
pub mod story;
pub mod enigma;
pub mod state;
pub mod player;
pub mod life;
pub mod camera;
pub mod messages;
pub mod vine;
pub mod gates;
pub mod level_items;
pub mod beasts;
pub mod collisions;
pub mod platforms;
pub mod levels;
pub mod hazards;
pub mod localization;
