//! A deterministic brick-breaking simulation on an integer grid.
//!
//! The host starts a game from a layout, feeds a directional input, and
//! takes one tick after another. Each tick steers and moves the paddle,
//! moves the ball, resolves the ball's collisions with walls, paddle and
//! bricks, counts the destroyed bricks, and hands the collisions back as
//! events.
//!
//! Positions and velocities are fixed-point numbers held in `i32`; the host
//! chooses what one unit of length and one unit of time stand for. Nothing
//! is rounded: a tick of length `dt` moves a body by exactly its velocity
//! times `dt`, and whatever lies between two positions is computed in
//! `i64`. Every type has a mathematical view over unbounded integers, and
//! the contracts and the laws of the game are stated over these views.
pub mod geometry;
pub mod kinematics;
pub mod arena;
pub mod input;
pub mod paddle;
pub mod ball;
pub mod brick;
pub mod event;
pub mod scoreboard;
pub mod collision;
pub mod world;
pub mod layout;
pub mod session;
