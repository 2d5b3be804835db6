//! Text-expansion engine: trigger matching, snippet loading, placeholder
//! resolution, keystroke planning, and the decisions behind the settings
//! window, logging, crash dumps and sync.

pub mod chars;
pub mod commands;
pub mod crash;
pub mod engine;
pub mod expand;
pub mod form;
pub mod hook;
pub mod inject;
pub mod log_init;
pub mod matcher;
pub mod store;
pub mod sync;

use vstd::prelude::*;

verus! {

/// Name of the system-wide mutex that keeps a single instance running.
pub const SINGLE_INSTANCE_MUTEX: &'static str = "Global\\openmacro-singleton";

} // verus!
