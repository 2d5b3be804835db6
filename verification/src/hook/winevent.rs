//! Foreground-window tracking and the denylist of processes (password
//! managers, the elevation prompt) during which nothing is expanded.

use vstd::prelude::*;

use crate::chars::{chars_of, str_eq, string_from_chars};
use crate::engine::RuntimeFlags;
use crate::matcher::{BoundaryState, MatchBuffer};

use super::{HookEvent, ResetCause};

verus! {

/// The foreground window and its process's executable name.
#[derive(Debug, Clone, PartialEq, Eq)]
pub struct ForegroundState {
    pub hwnd: isize,
    pub exe_basename: String,
}

/// `c` with `A`..`Z` turned into `a`..`z`, as `char::to_ascii_lowercase` does.
pub open spec fn ascii_lower_char(c: char) -> char {
    if 'A' <= c && c <= 'Z' {
        ((c as u32) + 32) as char
    } else {
        c
    }
}

/// `s` with ASCII capitals lowered, as `str::to_ascii_lowercase` does.
pub open spec fn ascii_lower(s: Seq<char>) -> Seq<char> {
    s.map_values(|c: char| ascii_lower_char(c))
}

/// `s` with ASCII capitals lowered.
pub fn to_ascii_lowercase(s: &str) -> (r: String)
    ensures
        r@ == ascii_lower(s@),
{
    let v = chars_of(s);
    let mut out: Vec<char> = Vec::new();
    let mut i: usize = 0;
    while i < v.len()
        invariant
            i <= v@.len(),
            v@ == s@,
            out@ == ascii_lower(v@.take(i as int)),
        decreases v.len() - i,
    {
        let c = v[i];
        let l = if 'A' <= c && c <= 'Z' {
            let u = (c as u32) + 32;
            assert(0x61 <= u <= 0x7A);
            char_from_ascii(u)
        } else {
            c
        };
        out.push(l);
        i = i + 1;
        assert(out@ =~= ascii_lower(v@.take(i as int)));
    }
    assert(v@.take(v@.len() as int) =~= v@);
    string_from_chars(&out)
}

/// The character with ASCII code `u`.
fn char_from_ascii(u: u32) -> (r: char)
    requires
        u < 0x80,
    ensures
        r == u as char,
{
    (u as u8) as char
}

/// The executables, lower-cased, during which nothing is expanded.
pub open spec fn denylisted_name(name: Seq<char>) -> bool {
    name == "1password.exe"@ || name == "keepass.exe"@ || name == "keepassxc.exe"@ || name
        == "bitwarden.exe"@ || name == "lastpass.exe"@ || name == "consent.exe"@
}

/// Whether the executable `exe_basename` is on the denylist, ignoring ASCII case.
pub fn is_denylisted_process(exe_basename: &str) -> (r: bool)
    ensures
        r == denylisted_name(ascii_lower(exe_basename@)),
{
    let lowered = to_ascii_lowercase(exe_basename);
    let l = lowered.as_str();
    str_eq(l, "1password.exe") || str_eq(l, "keepass.exe") || str_eq(l, "keepassxc.exe")
        || str_eq(l, "bitwarden.exe") || str_eq(l, "lastpass.exe") || str_eq(l, "consent.exe")
}

/// Whether the foreground process is on the denylist.
pub fn is_denylisted(flags: &RuntimeFlags) -> (r: bool)
    ensures
        r == flags.denylisted,
{
    flags.denylisted
}

/// Sets the denylist switch, leaving the others alone.
pub fn set_denylisted(flags: &mut RuntimeFlags, value: bool)
    ensures
        *final(flags) == (RuntimeFlags { denylisted: value, ..*old(flags) }),
{
    flags.denylisted = value;
}

/// Records that the foreground process is now `exe_basename`: the denylist
/// switch follows it, and the buffer must be reset.
pub fn apply_foreground_basename(flags: &mut RuntimeFlags, exe_basename: &str) -> (r: HookEvent)
    ensures
        r == HookEvent::Reset(ResetCause::ForegroundChange),
        *final(flags) == (RuntimeFlags {
            denylisted: denylisted_name(ascii_lower(exe_basename@)),
            ..*old(flags)
        }),
{
    let denylisted = is_denylisted_process(exe_basename);
    set_denylisted(flags, denylisted);
    HookEvent::Reset(ResetCause::ForegroundChange)
}

/// Clears the buffer and records the new foreground process.
pub fn apply_foreground_change(flags: &mut RuntimeFlags, buffer: &mut MatchBuffer, exe_basename: &str) -> (r: HookEvent)
    ensures
        r == HookEvent::Reset(ResetCause::ForegroundChange),
        *final(flags) == (RuntimeFlags {
            denylisted: denylisted_name(ascii_lower(exe_basename@)),
            ..*old(flags)
        }),
        final(buffer).spec_chars() == Seq::<char>::empty(),
        final(buffer).spec_capacity() == old(buffer).spec_capacity(),
        final(buffer).spec_leading() == BoundaryState::StartOfBuffer,
        final(buffer).spec_current() == BoundaryState::StartOfBuffer,
{
    buffer.reset();
    apply_foreground_basename(flags, exe_basename)
}

/// Handles a foreground-window event: nothing for window 0 or for the window
/// already in front; otherwise the window is remembered, its process looked
/// up (a failed lookup counts as no name, which is not denylisted) and
/// recorded.
pub fn handle_foreground_window_event<F: FnOnce(isize) -> Option<String>>(
    flags: &mut RuntimeFlags,
    hwnd: isize,
    basename_lookup: F,
) -> (r: Option<HookEvent>)
    requires
        basename_lookup.requires((hwnd,)),
    ensures
        hwnd == 0 ==> r is None && *final(flags) == *old(flags),
        hwnd != 0 && old(flags).last_foreground_hwnd == hwnd ==> r is None && *final(flags) == *old(
            flags,
        ),
        hwnd != 0 && old(flags).last_foreground_hwnd != hwnd ==> r == Some(
            HookEvent::Reset(ResetCause::ForegroundChange),
        ) && exists|name: Option<String>|
            #![trigger basename_lookup.ensures((hwnd,), name)]
            basename_lookup.ensures((hwnd,), name) && *final(flags) == (RuntimeFlags {
                last_foreground_hwnd: hwnd,
                denylisted: match name {
                    Some(n) => denylisted_name(ascii_lower(n@)),
                    None => denylisted_name(Seq::<char>::empty()),
                },
                ..*old(flags)
            }),
{
    if hwnd == 0 {
        return None;
    }
    let previous = flags.last_foreground_hwnd;
    flags.last_foreground_hwnd = hwnd;
    if previous == hwnd {
        return None;
    }
    let name = basename_lookup(hwnd);
    let ghost looked_up = name;
    let exe = match name {
        Some(n) => n,
        None => String::new(),
    };
    assert(ascii_lower(Seq::<char>::empty()) =~= Seq::<char>::empty());
    let event = apply_foreground_basename(flags, exe.as_str());
    assert(basename_lookup.ensures((hwnd,), looked_up));
    assert(*flags == (RuntimeFlags {
        last_foreground_hwnd: hwnd,
        denylisted: match looked_up {
            Some(n) => denylisted_name(ascii_lower(n@)),
            None => denylisted_name(Seq::<char>::empty()),
        },
        ..*old(flags)
    }));
    Some(event)
}

/// Forgets the last foreground window.
pub fn reset_foreground_tracking(flags: &mut RuntimeFlags)
    ensures
        *final(flags) == (RuntimeFlags { last_foreground_hwnd: 0, ..*old(flags) }),
{
    flags.last_foreground_hwnd = 0;
}

/// `apply_foreground_change`, for tests that simulate a foreground change.
pub fn inject_foreground_change(flags: &mut RuntimeFlags, buffer: &mut MatchBuffer, exe_basename: &str) -> (r: HookEvent)
    ensures
        r == HookEvent::Reset(ResetCause::ForegroundChange),
        *final(flags) == (RuntimeFlags {
            denylisted: denylisted_name(ascii_lower(exe_basename@)),
            ..*old(flags)
        }),
        final(buffer).spec_chars() == Seq::<char>::empty(),
        final(buffer).spec_capacity() == old(buffer).spec_capacity(),
        final(buffer).spec_leading() == BoundaryState::StartOfBuffer,
        final(buffer).spec_current() == BoundaryState::StartOfBuffer,
{
    apply_foreground_change(flags, buffer, exe_basename)
}

/// `handle_foreground_window_event`, for tests that simulate a window event.
pub fn inject_foreground_window_event<F: FnOnce(isize) -> Option<String>>(
    flags: &mut RuntimeFlags,
    hwnd: isize,
    basename_lookup: F,
) -> (r: Option<HookEvent>)
    requires
        basename_lookup.requires((hwnd,)),
    ensures
        (hwnd == 0 || old(flags).last_foreground_hwnd == hwnd) ==> r is None && *final(flags)
            == *old(flags),
        hwnd != 0 && old(flags).last_foreground_hwnd != hwnd ==> r == Some(
            HookEvent::Reset(ResetCause::ForegroundChange),
        ) && exists|name: Option<String>|
            #![trigger basename_lookup.ensures((hwnd,), name)]
            basename_lookup.ensures((hwnd,), name) && *final(flags) == (RuntimeFlags {
                last_foreground_hwnd: hwnd,
                denylisted: match name {
                    Some(n) => denylisted_name(ascii_lower(n@)),
                    None => denylisted_name(Seq::<char>::empty()),
                },
                ..*old(flags)
            }),
{
    handle_foreground_window_event(flags, hwnd, basename_lookup)
}

/// Puts the switches that tests share back to their starting values: not
/// denylisted, no foreground window, not injecting, not armed.
pub fn global_state_guard(flags: &mut RuntimeFlags)
    ensures
        *final(flags) == (RuntimeFlags {
            denylisted: false,
            last_foreground_hwnd: 0,
            suspend: false,
            confirm_armed: false,
            ..*old(flags)
        }),
{
    set_denylisted(flags, false);
    reset_foreground_tracking(flags);
    flags.suspend = false;
    flags.confirm_armed = false;
}


/// Lowering ASCII capitals twice is the same as lowering once, so the
/// denylist check gives the same answer for a name in any ASCII case.
pub proof fn lemma_denylist_ignores_ascii_case(name: Seq<char>)
    ensures
        ascii_lower(ascii_lower(name)) == ascii_lower(name),
        denylisted_name(ascii_lower(ascii_lower(name))) == denylisted_name(ascii_lower(name)),
{
    assert(ascii_lower(ascii_lower(name)) =~= ascii_lower(name));
}

} // verus!
