//! Identity-aware caching and line-indexed rendering of version-control
//! show output.
//!
//! The crate centres on two pieces: [`commit_show_cache::CommitShowCache`],
//! which keeps rendered output per commit identity and tolerates commits
//! being rewritten under a stable change identity, and
//! [`large_string::LargeString`], an immutable text blob with a precomputed
//! line index that serves windowed range queries in time proportional to
//! the window.

pub mod commit_show_cache;
pub mod details_panel;
pub mod env;
pub mod ids;
pub mod large_string;
