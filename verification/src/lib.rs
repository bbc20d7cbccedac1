//! Runs a single Rust script as a program: analyses the script, derives its
//! build manifest, and drives the generate, build and run stages.

pub mod analyzer;
pub mod errors;
pub mod fib;
pub mod logging;
pub mod manifest;
pub mod merge;
pub mod patterns;
pub mod pipeline;
pub mod readme;
pub mod registry;
pub mod repl;
pub mod shared;
pub mod text;
pub mod tui_editor;

pub use crate::shared::BuildState;
