//! A game of Pong as a verified core: an arena of entities with the gameplay
//! components, the four systems that run a frame (paddles, ball movement,
//! collisions, goals), and the pushdown stack of screens (welcome, main menu,
//! match, pause menu, credits) that events and frames drive.
use vstd::prelude::*;

pub mod arena;
pub mod components;
pub mod text;
pub mod world;
pub mod ui;

pub mod bounce;
pub mod bundle;
pub mod move_balls;
pub mod paddle;
pub mod winner;

pub mod credits;
pub mod machine;
pub mod menu;
pub mod pause;
pub mod pong;
pub mod states;
pub mod welcome;
