//! Animation engine for an addressable RGB(W) LED strip.
//!
//! The engine advances one of eight patterns frame by frame, periodically
//! rotates to a randomly chosen different pattern (optionally mirroring the
//! strip), and divides its base frame delay by a speed multiplier that a
//! local command channel can change while the loop runs.

pub mod ipc;
pub mod modes;
pub mod pixel;
mod rng;
pub mod scheduler;
pub mod speed;
