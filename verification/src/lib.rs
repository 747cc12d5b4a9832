//! Verified core of a btrfs snapshot restore tool.
//!
//! The library holds the logic that decides what the tool does: grouping and
//! ordering snapshot names, planning purge and cleanup operations, formatting
//! names for display, and the restore state machine with its rollback
//! guarantees. The terminal front end and the external commands live outside
//! the library and only carry values to and from it.

pub mod config;
pub mod maint;
pub mod restore;
pub mod scan;
pub mod stamp;
pub mod stream;
pub mod strkit;
pub mod ui;
