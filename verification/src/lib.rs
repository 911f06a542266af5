//! A scrollable tiling layout for desktop windows: the window strip and its
//! geometry, the event and input rules that drive it, and the movement
//! pipelines that hand window moves to a worker.

pub mod channel;
pub mod commands;
pub mod geometry;
pub mod layout_engine;
pub mod movement;
pub mod wm;
pub mod wm_input;
