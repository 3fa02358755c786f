//! Simulation core of a terminal snake game: the game state, its tick-driven
//! update rule, and the placement and scoring of collectibles.

pub mod direction;
pub mod geometry;
pub mod snake;
pub mod board;
pub mod spawner;
pub mod rolls;
pub mod game;
pub mod dynamics;
pub mod control;
pub mod screen;
