//! A small tile-based game-engine core: an entity-component registry and a
//! tile map with exclusive per-cell occupancy, validated shape-aware movement
//! on top of it, and the simple character components of the example game.

pub mod body;
pub mod check;
pub mod ecs;
pub mod health;
pub mod health_system;
pub mod map;
pub mod movement;
pub mod point;
pub mod skill;
pub mod stats;
pub mod tile;
pub mod window;
