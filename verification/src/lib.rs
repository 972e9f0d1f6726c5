//! A concurrent file-copy engine with aggregate byte-level progress.
//!
//! The crate holds the decisions of the engine: how a file is cut into
//! blocks, how a list of sources becomes a list of copy tasks, and how the
//! byte counts reported by the workers add up to one progress figure. Every
//! function carries a contract that Verus proves. Opening files, spawning
//! threads and drawing the progress bar are left to the program that links
//! the crate.

pub mod chunking;
pub mod transfer;
pub mod progress;
pub mod paths;
pub mod dispatch;
