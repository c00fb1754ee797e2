//! Simulation core of a tower-defense game, in fixed-point arithmetic.
//!
//! Enemies walk along fixed paths, towers pick the nearest enemy in range and
//! fire projectiles at the place where it will be, waves of enemies are
//! spawned on a timer, and a balance decides whether a tower may be bought.
//!
//! All quantities are integers: lengths in thousandths of a world unit, times
//! in microseconds, path progress in billionths of a path.
pub mod cursor;
pub mod easy;
pub mod enemies;
pub mod fixed;
pub mod levels;
pub mod path;
pub mod simulation;
pub mod timer;
pub mod towers;
pub mod ui;
pub mod utils;
pub mod vector;
