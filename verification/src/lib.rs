//! Core of an interactive incremental-search directory picker.
//!
//! The crate holds the selection engine: fuzzy ranking of candidate
//! directories, viewport math for the scrollable list, the interactive
//! state machine that couples cursor, scroll and input buffer, and the
//! helpers that build names and shell command lines.  Terminal drawing,
//! filesystem scanning and the event loop that feeds the state machine
//! live outside the crate and talk to it through plain values.

pub mod cli;
pub mod error;
pub mod model;
pub mod score;
pub mod selector;
pub mod storage;
pub mod text;
pub mod tui;
pub mod util;
