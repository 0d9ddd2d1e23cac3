//! The rules of a small dungeon crawler: the map and how it is dug, objects and
//! how they move, fight, die and are picked up and used, what monsters do, what
//! keys do, and what the screen shows.

pub mod action;
pub mod ai;
pub mod color;
pub mod combat;
pub mod consts;
pub mod dungeon;
pub mod keys;
pub mod laws;
pub mod map;
pub mod render;
pub mod text;
pub mod types;
