//! A deterministic, fixed-point core for a Breakout-style arcade game.
//!
//! A paddle deflects bouncing balls into a field of destructible blocks while
//! the session keeps score and counts lives. Everything here is integer
//! arithmetic: lengths are counted in ticks, time in microseconds and velocity
//! components in thousandths, so that one frame of motion is an exact product
//! and every frame of the simulation is reproducible bit for bit.
//!
//! Drawing, input polling and the window belong to the host program, which
//! hands the library plain numbers and reads plain numbers back.

pub mod units;
pub mod geometry;
pub mod collision;
pub mod block;
pub mod player;
pub mod ball;
mod random;
pub mod frame;
pub mod session;
