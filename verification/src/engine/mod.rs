//! Expansion engine: the process-wide switches and the per-event decisions.

pub mod flags;
pub mod orchestrator;

pub use flags::{is_paused, set_paused, start_runtime, toggle_paused, EngineHandle, RuntimeFlags};
pub use orchestrator::{EngineStep, FormRequest, NoopNotifySink, Orchestrator};
