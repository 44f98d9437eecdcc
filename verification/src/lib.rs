//! Core engine of a keyboard-driven git branch browser: a navigable list
//! that keeps a stable selection under live substring filtering, a branch
//! registry that enforces the single-checked-out invariant, and the screen
//! state machine that turns key presses into state transitions and
//! version-control commands.
//!
//! All terminal rendering and process invocation lives outside this crate;
//! the functions here exchange plain values (strings, vectors, enums) with
//! that outer layer.

pub mod text;
pub mod scroll;
pub mod errors;
pub mod branch;
pub mod control;
