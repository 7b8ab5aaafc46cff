//! Labalaba: the rules of a desktop process manager.

pub mod task;
pub mod text;
mod clock;
pub mod status;
pub mod ansi;
pub mod logs;
pub mod liveness;
pub mod process_tree;
pub mod schedule;
pub mod update;
pub mod api;
pub mod settings;
pub mod net;
pub mod store;
pub mod spawn;
pub mod gui;
pub mod token;
