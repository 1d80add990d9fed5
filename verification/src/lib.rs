//! Core simulation of a small 2D arcade shoot-'em-up.
//!
//! The crate models the game world in fixed-point integer arithmetic: every
//! coordinate, velocity and radius is an `i64` counted in milli-units (one
//! thousandth of a world unit), and every duration is a `u64` counted in
//! milliseconds.  The host that renders the game drives this crate once per
//! frame and draws whatever entities it holds afterwards.

pub mod timer;
pub mod define;
pub mod support;
pub mod common;
pub mod collision;
pub mod enemy;
pub mod patterns;
pub mod player;
pub mod sim;
