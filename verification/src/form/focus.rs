//! The window that had the focus before a form opened.

use vstd::prelude::*;

verus! {

/// A window handle.
#[derive(Debug, Clone, Copy, PartialEq, Eq, Structural)]
pub struct ForegroundWindow(pub isize);

/// Why the focus could not be given back.
#[derive(Debug, Clone, PartialEq, Eq, Structural)]
pub enum FocusError {
    Refused,
}

impl FocusError {
    /// The text shown for the error.
    pub fn message(&self) -> (r: String)
        ensures
            r@ == "foreground restore refused"@,
    {
        String::from_str("foreground restore refused")
    }
}

/// Reads and sets the foreground window. What either call answers depends
/// on the desktop at the time of the call; each answer is recorded.
pub trait FocusBackend: Send + Sync + 'static {
    /// What each capture so far answered, in order.
    closed spec fn captures(&self) -> Seq<Option<ForegroundWindow>> {
        Seq::empty()
    }

    /// Each restore so far: the window asked for and the answer, in order.
    closed spec fn restores(&self) -> Seq<(ForegroundWindow, Result<(), FocusError>)> {
        Seq::empty()
    }

    fn capture_foreground(&mut self) -> (r: Option<ForegroundWindow>)
        ensures
            final(self).captures() == old(self).captures().push(r),
            final(self).restores() == old(self).restores(),
    ;

    fn restore_foreground(&mut self, hwnd: ForegroundWindow) -> (r: Result<(), FocusError>)
        ensures
            final(self).restores() == old(self).restores().push((hwnd, r)),
            final(self).captures() == old(self).captures(),
    ;
}

/// A backend that sees no window and restores nothing.
pub struct NoopFocusBackend {
    captured: Ghost<Seq<Option<ForegroundWindow>>>,
    restored: Ghost<Seq<(ForegroundWindow, Result<(), FocusError>)>>,
}

impl NoopFocusBackend {
    /// A backend that has been asked nothing.
    pub fn new() -> (r: Self)
        ensures
            r.captures() == Seq::<Option<ForegroundWindow>>::empty(),
            r.restores() == Seq::<(ForegroundWindow, Result<(), FocusError>)>::empty(),
    {
        NoopFocusBackend { captured: Ghost(Seq::empty()), restored: Ghost(Seq::empty()) }
    }
}

impl FocusBackend for NoopFocusBackend {
    closed spec fn captures(&self) -> Seq<Option<ForegroundWindow>> {
        self.captured@
    }

    closed spec fn restores(&self) -> Seq<(ForegroundWindow, Result<(), FocusError>)> {
        self.restored@
    }

    fn capture_foreground(&mut self) -> (r: Option<ForegroundWindow>)
        ensures
            r is None,
    {
        proof {
            self.captured@ = self.captured@.push(None);
        }
        None
    }

    fn restore_foreground(&mut self, hwnd: ForegroundWindow) -> (r: Result<(), FocusError>)
        ensures
            r is Ok,
    {
        proof {
            self.restored@ = self.restored@.push((hwnd, Ok(())));
        }
        Ok(())
    }
}

/// Which input queues the second focus attempt joins: the target window's
/// thread, unless unknown (0) or this thread; and the current foreground
/// window's thread, unless unknown, this thread or the target's.
pub fn focus_attachments(target_thread: u32, foreground_thread: u32, self_thread: u32) -> (r: (bool, bool))
    ensures
        r.0 == (target_thread != 0 && target_thread != self_thread),
        r.1 == (foreground_thread != 0 && foreground_thread != self_thread && foreground_thread
            != target_thread),
{
    (
        target_thread != 0 && target_thread != self_thread,
        foreground_thread != 0 && foreground_thread != self_thread && foreground_thread != target_thread,
    )
}

/// The foreground window as `backend` reports it: one capture, whose
/// answer is returned.
pub fn capture_foreground_with<B: FocusBackend>(backend: &mut B) -> (r: Option<ForegroundWindow>)
    ensures
        final(backend).captures() == old(backend).captures().push(r),
        final(backend).restores() == old(backend).restores(),
{
    backend.capture_foreground()
}

/// Gives the focus back to `hwnd` through `backend`: one restore of `hwnd`,
/// whose answer is returned.
pub fn restore_foreground_with<B: FocusBackend>(backend: &mut B, hwnd: ForegroundWindow) -> (r: Result<(), FocusError>)
    ensures
        final(backend).restores() == old(backend).restores().push((hwnd, r)),
        final(backend).captures() == old(backend).captures(),
{
    backend.restore_foreground(hwnd)
}

} // verus!
