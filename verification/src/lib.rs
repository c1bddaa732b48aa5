//! Verified core of a renderer's per-frame orchestration.
//!
//! The crate decides; its caller performs. Every function here works on plain
//! values and says in its contract what it returns, so that the code that talks
//! to the GPU, the window system and the worker pool has nothing left to decide.
//!
//! - [`instruction`]: the queued commands and what applying them asks of the
//!   resource pools.
//! - [`render`]: the render loop as a state machine that issues the steps of a
//!   frame one by one.
//! - [`frame`]: the steps of a frame, written down part by part.
//! - [`order`]: what holds of the order of every frame.
//! - [`schedule`]: which passes are recorded for which view, and the order in
//!   which the recordings are submitted.
//! - [`culling`] and [`binding`]: the culling output of a view, and the bind
//!   groups of a frame.
//! - [`acquire`]: the bounded retry of acquiring a surface image.
//! - [`output`]: the target that a frame is rendered to.
//! - [`mode`]: the mode a renderer is built in.

pub mod acquire;
pub mod binding;
pub mod culling;
pub mod frame;
pub mod instruction;
pub mod mode;
pub mod order;
pub mod output;
pub mod render;
pub mod schedule;
