//! Core of a miller-column terminal file browser.
//!
//! Directories are shown as a horizontal row of columns, each column listing
//! the children of the entry selected in the column to its left.  This crate
//! holds the navigation and caching core: the per-path entry state machine,
//! the path-keyed entry store, the pending-task queues for background
//! enumeration and deletion, the cursor logic (move left/right, lazy open,
//! delete orchestration), and the command palette used to confirm deletions.
//! Terminal input, rendering and the filesystem calls themselves live outside
//! the crate and talk to the core through plain values.
#![verifier::loop_isolation(false)]

pub mod cli;
pub mod command;
pub mod config;
pub mod entry;
pub mod error;
pub mod events;
pub mod joiners;
pub mod palette;
pub mod path;
pub mod render;
pub mod state;
pub mod store;
