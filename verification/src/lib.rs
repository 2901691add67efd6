//! Patch-set assembly and safe-apply pipeline.
//!
//! The library normalizes revision history from two version-control systems,
//! folds an operator's revision selection into one deduplicated change set per
//! project (last write wins, a delete always wins), stages archive artifacts
//! into a clean directory, assembles timestamped output directories with a
//! manifest, and generates a target-side apply script whose protocol backs up
//! every affected file before any destructive write.

pub mod assemble;
pub mod assoc;
pub mod apply;
pub mod changeset;
pub mod files;
pub mod menu;
pub mod output;
pub mod stage;
pub mod script;
pub mod strutil;
pub mod task;
pub mod vcs;
