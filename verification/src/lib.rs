//! A predator/prey world on an integer grid.
//!
//! Agents move on the square `[0, map_size] x [0, map_size]`. Every coordinate
//! counts grid steps, and every time span counts clock steps; how fine a step
//! is, in length or in time, is the caller's choice. Working on a grid keeps
//! every distance, every comparison against a radius and every clamped
//! position exact, so that each rule of the world can be stated and proved.
//!
//! One tick of the world runs three phases in this order:
//!
//! 1. [`entities::reset_world_view`] forgets what the predators saw,
//! 2. [`interaction::interact`] decides who strikes and who sees whom,
//! 3. [`motion::nudge`] moves every agent along its velocity.
//!
//! [`interaction::perceive`] runs the first two in one call. Whatever steers
//! the agents reads the notices of the second phase and sets velocities
//! before the third. For agents steered by hand, [`input`] reads the arrow
//! keys from bevy's keyboard state.

pub mod census;
pub mod conf;
pub mod entities;
pub mod geometry;
pub mod input;
pub mod interaction;
pub mod motion;
pub mod relation;
pub mod theorems;

pub use census::{survey, Census, Group};
pub use conf::Config;
pub use entities::{reset_world_view, Agent, Predator, Prey};
pub use geometry::Vec2;
pub use input::{key_direction, keyboard_direction, Arrow};
pub use interaction::{check_scores, count_strikes, encounter, interact, perceive, Sighting};
pub use motion::nudge;
pub use relation::{classify, Relation};
