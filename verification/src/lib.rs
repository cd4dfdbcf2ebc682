//! Synchronization-and-diff engine for a dotfiles manager.
//!
//! Configuration trees are synchronized between a version-controlled
//! repository and the live filesystem in two directions: *deploy*
//! (repository to system, a direct overwrite sync) and *pull* (system to
//! repository, previewed as a line diff and gated by confirmation).
//!
//! This crate holds the engine itself: exclusion matching over glob
//! patterns, protected-path guarding, per-platform target resolution,
//! deploy and pull planning, line-diff computation and rendering, and
//! confirmation parsing. Filesystem traversal, prompting and copying are
//! left to the surrounding binary, which feeds the engine plain values.

pub mod config;
pub mod confirm;
pub mod diff;
pub mod errors;
pub mod exclude;
pub mod paths;
pub mod planner;
pub mod render;
