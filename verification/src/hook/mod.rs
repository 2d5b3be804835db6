//! What the keyboard hook reports, and the decisions the hook thread makes.

use vstd::prelude::*;

pub mod thread;
pub mod winevent;

pub use thread::{
    decide_keydown_event, handle_keydown_decision, is_confirm_armed, set_confirm_armed,
    should_ignore_event, EventQueue, KeydownDecision, LLKHF_INJECTED_FLAG,
};
pub use winevent::{
    apply_foreground_basename, apply_foreground_change, global_state_guard,
    handle_foreground_window_event, inject_foreground_change, inject_foreground_window_event,
    is_denylisted, is_denylisted_process, reset_foreground_tracking, set_denylisted,
    ForegroundState,
};

verus! {

/// Why the typed-character buffer has to be cleared.
#[derive(Debug, Clone, Copy, PartialEq, Eq, Structural)]
pub enum ResetCause {
    ArrowKey,
    Home,
    End,
    PageUp,
    PageDown,
    ImeOrComposition,
    CapsToggle,
    ForegroundChange,
}

/// The keys that confirm a pending expansion.
#[derive(Debug, Clone, Copy, PartialEq, Eq, Structural)]
pub enum ConfirmKey {
    Tab,
    Enter,
}

/// One event from the keyboard hook.
#[derive(Debug, Clone, Copy, PartialEq, Eq, Structural)]
pub enum HookEvent {
    Char(char),
    Confirm(ConfirmKey),
    Backspace,
    Reset(ResetCause),
}

} // verus!
