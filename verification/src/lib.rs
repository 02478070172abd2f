//! A verified command pipeline engine for a small interactive shell.
//!
//! The engine turns a raw input line into parsed command segments, dispatches
//! each segment to a builtin operation, composes results according to the
//! control operators (pipe, background, redirect), and maintains session
//! state (identity, privilege flag, command history) across invocations.
//! Filesystem contents are modelled as in-memory data, so every builtin's
//! effect is stated and proved exactly; interactive input, the package
//! fetcher and the archive collaborator are driven from outside the library
//! through the action values that dispatch returns.
#![allow(unused_imports)]

pub mod clock;
pub mod compose;
pub mod dispatch;
pub mod fsmodel;
pub mod laws;
pub mod outcome;
pub mod parse;
pub mod procs;
pub mod session;
pub mod strutil;
