//! The switches that gate expansion: pause, denylisted foreground process,
//! injection in progress, armed confirm key, last foreground window, and
//! verbose logging of user content.

use vstd::prelude::*;

verus! {

/// The process-wide switches; the application keeps one value of this type
/// and hands it to the functions that read or change a switch.
#[derive(Debug, Clone, Copy, PartialEq, Eq, Structural)]
pub struct RuntimeFlags {
    /// Expansion paused by the user.
    pub paused: bool,
    /// The foreground process is on the denylist.
    pub denylisted: bool,
    /// Text is being injected; typed input is not ours.
    pub suspend: bool,
    /// A trigger matched and waits for Tab or Enter.
    pub confirm_armed: bool,
    /// The foreground window seen last, 0 when none.
    pub last_foreground_hwnd: isize,
    /// User content may be logged unredacted.
    pub verbose_content: bool,
}

impl RuntimeFlags {
    /// All switches off.
    pub fn new() -> (r: Self)
        ensures
            !r.paused && !r.denylisted && !r.suspend && !r.confirm_armed,
            r.last_foreground_hwnd == 0,
            !r.verbose_content,
    {
        RuntimeFlags {
            paused: false,
            denylisted: false,
            suspend: false,
            confirm_armed: false,
            last_foreground_hwnd: 0,
            verbose_content: false,
        }
    }
}

/// Handle returned when the engine runtime starts.
pub struct EngineHandle;

/// Starts the engine runtime.
pub fn start_runtime() -> (r: EngineHandle)
    ensures
        r == EngineHandle,
{
    EngineHandle
}

/// Whether expansion is paused.
pub fn is_paused(flags: &RuntimeFlags) -> (r: bool)
    ensures
        r == flags.paused,
{
    flags.paused
}

/// Sets the pause switch, leaving the others alone.
pub fn set_paused(flags: &mut RuntimeFlags, value: bool)
    ensures
        *final(flags) == (RuntimeFlags { paused: value, ..*old(flags) }),
{
    flags.paused = value;
}

/// Flips the pause switch and returns its new value.
pub fn toggle_paused(flags: &mut RuntimeFlags) -> (r: bool)
    ensures
        r == !old(flags).paused,
        *final(flags) == toggled(*old(flags)),
{
    let next = !flags.paused;
    flags.paused = next;
    next
}


/// The switches after the pause switch is flipped.
pub open spec fn toggled(flags: RuntimeFlags) -> RuntimeFlags {
    RuntimeFlags { paused: !flags.paused, ..flags }
}

/// Flipping the pause switch twice leaves every switch as it was, and a
/// flip never touches a switch other than pause.
pub proof fn lemma_toggle_twice_restores(flags: RuntimeFlags)
    ensures
        toggled(toggled(flags)) == flags,
        toggled(flags).denylisted == flags.denylisted,
        toggled(flags).suspend == flags.suspend,
        toggled(flags).confirm_armed == flags.confirm_armed,
{
}

} // verus!
