//! Verified core of a deferred renderer: the sortable draw-command queue and
//! its batching, the fixed-capacity instance pools and uniform tables, the
//! generational resource tables, and the per-frame pass sequencing.
//!
//! Everything here works on plain values. Talking to the GPU, the window
//! system and the clock is left to the application around this crate.

pub mod batching;
pub mod command_queue;
pub mod deferred_pass;
pub mod error;
pub mod lights;
pub mod material;
pub mod meshes;
pub mod renderer;
pub mod resources;
pub mod shadow_passes;
pub mod utils;
