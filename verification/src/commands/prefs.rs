//! User preferences and their validation.

use vstd::prelude::*;

use crate::engine::{set_paused, RuntimeFlags};

verus! {

/// Smallest accepted `max_expansion_len`.
pub const MIN_EXPANSION_LEN: usize = 1;

/// Largest accepted `max_expansion_len`.
pub const MAX_EXPANSION_LEN: usize = 262_144;

/// User preferences.
#[derive(Debug, Clone, PartialEq, Eq)]
pub struct Prefs {
    pub paused: bool,
    pub autostart: bool,
    pub max_expansion_len: usize,
    pub shell_consent: bool,
    pub last_crash_check: Option<u64>,
}

impl Default for Prefs {
    fn default() -> (r: Self)
        ensures
            default_prefs(r),
    {
        Self {
            paused: false,
            autostart: false,
            max_expansion_len: 32_768,
            shell_consent: false,
            last_crash_check: None,
        }
    }
}

/// The default preferences.
pub open spec fn default_prefs(p: Prefs) -> bool {
    !p.paused && !p.autostart && p.max_expansion_len == 32_768 && !p.shell_consent
        && p.last_crash_check is None
}

/// A copy of `p`.
pub fn copy_prefs(p: &Prefs) -> (r: Prefs)
    ensures
        r == *p,
{
    Prefs {
        paused: p.paused,
        autostart: p.autostart,
        max_expansion_len: p.max_expansion_len,
        shell_consent: p.shell_consent,
        last_crash_check: p.last_crash_check,
    }
}

/// Preferences are valid when `max_expansion_len` lies in
/// `MIN_EXPANSION_LEN..=MAX_EXPANSION_LEN`.
pub open spec fn prefs_valid(p: Prefs) -> bool {
    MIN_EXPANSION_LEN <= p.max_expansion_len <= MAX_EXPANSION_LEN
}

/// The message given for invalid preferences.
pub open spec fn invalid_prefs_message() -> Seq<char> {
    "invalid max_expansion_len: must be between 1 and 262144"@
}

/// Accepts `prefs` exactly when they are valid.
pub fn validate_prefs(prefs: &Prefs) -> (r: Result<(), String>)
    ensures
        r is Ok <==> prefs_valid(*prefs),
        r matches Err(m) ==> m@ == invalid_prefs_message(),
{
    if MIN_EXPANSION_LEN <= prefs.max_expansion_len && prefs.max_expansion_len <= MAX_EXPANSION_LEN {
        Ok(())
    } else {
        Err(String::from_str("invalid max_expansion_len: must be between 1 and 262144"))
    }
}

/// Switches the application on or off at login.
pub trait AutostartController {
    /// Each switch asked for so far, with the answer it got, in order.
    closed spec fn switches(&self) -> Seq<(bool, Result<(), String>)> {
        Seq::empty()
    }

    fn set_enabled(&mut self, enabled: bool) -> (r: Result<(), String>)
        ensures
            final(self).switches() == old(self).switches().push((enabled, r)),
    ;
}

/// Autostart controller that does nothing and always succeeds.
pub struct NoopAutostartController {
    asked: Ghost<Seq<(bool, Result<(), String>)>>,
}

impl NoopAutostartController {
    /// A controller that has been asked nothing.
    pub fn new() -> (r: Self)
        ensures
            r.switches() == Seq::<(bool, Result<(), String>)>::empty(),
    {
        NoopAutostartController { asked: Ghost(Seq::empty()) }
    }
}

impl AutostartController for NoopAutostartController {
    closed spec fn switches(&self) -> Seq<(bool, Result<(), String>)> {
        self.asked@
    }

    fn set_enabled(&mut self, enabled: bool) -> (r: Result<(), String>)
        ensures
            r is Ok,
    {
        proof {
            self.asked@ = self.asked@.push((enabled, Ok(())));
        }
        Ok(())
    }
}

/// The preferences in force and the file that stores them.
pub struct PrefsState {
    path: String,
    prefs: Prefs,
}

impl PrefsState {
    /// The path of the preferences file.
    pub closed spec fn spec_path(&self) -> Seq<char> {
        self.path@
    }

    /// The preferences in force.
    pub closed spec fn spec_prefs(&self) -> Prefs {
        self.prefs
    }

    /// State for `path` holding `prefs`.
    pub fn new(path: String, prefs: Prefs) -> (r: Self)
        ensures
            r.spec_path() == path@,
            r.spec_prefs() == prefs,
    {
        Self { path, prefs }
    }

    /// The path of the preferences file.
    pub fn path(&self) -> (r: &String)
        ensures
            r@ == self.spec_path(),
    {
        &self.path
    }

    /// A copy of the preferences in force.
    pub fn prefs_handle(&self) -> (r: Prefs)
        ensures
            r == self.spec_prefs(),
    {
        copy_prefs(&self.prefs)
    }
}

/// A copy of the preferences in force.
pub fn get_prefs_inner(state: &PrefsState) -> (r: Prefs)
    ensures
        r == state.spec_prefs(),
{
    copy_prefs(&state.prefs)
}

/// Builds the state at start-up from what reading the preferences file gave:
/// `None` when there is no file (defaults are used and must be written),
/// `Some(Ok(p))` for parsed preferences, `Some(Err(e))` for a read or parse
/// failure. Parsed preferences must be valid. The pause switch follows the
/// preferences. The boolean says whether the defaults must be written out.
pub fn load_prefs_state(path: String, existing: Option<Result<Prefs, String>>, flags: &mut RuntimeFlags) -> (r: Result<(PrefsState, bool), String>)
    ensures
        match existing {
            None => (r matches Ok((s, w)) && w && default_prefs(s.spec_prefs())
                && s.spec_path() == path@),
            Some(Err(e)) => r == Err::<(PrefsState, bool), String>(e),
            Some(Ok(p)) => if prefs_valid(p) {
                (r matches Ok((s, w)) && !w && s.spec_prefs() == p && s.spec_path() == path@)
            } else {
                (r matches Err(m) && m@ == invalid_prefs_message())
            },
        },
        r matches Ok((s, _)) ==> *final(flags) == (RuntimeFlags { paused: s.spec_prefs().paused, ..*old(flags) }),
        r is Err ==> *final(flags) == *old(flags),
{
    let (prefs, write_defaults) = match existing {
        None => (Prefs::default(), true),
        Some(Err(e)) => return Err(e),
        Some(Ok(p)) => {
            validate_prefs(&p)?;
            (p, false)
        },
    };
    set_paused(flags, prefs.paused);
    Ok((PrefsState::new(path, prefs), write_defaults))
}

/// Whether saving `next` over `previous` must switch autostart, and to what.
pub fn autostart_change(previous: &Prefs, next: &Prefs) -> (r: Option<bool>)
    ensures
        r == (if previous.autostart != next.autostart {
            Some(next.autostart)
        } else {
            None
        }),
{
    if previous.autostart != next.autostart {
        Some(next.autostart)
    } else {
        None
    }
}

/// Writes the preferences file.
pub trait PrefsWriter {
    /// Each write asked for so far: the file's path, the preferences and
    /// the answer, in order.
    closed spec fn writes(&self) -> Seq<(Seq<char>, Prefs, Result<(), String>)> {
        Seq::empty()
    }

    fn write(&mut self, path: &str, prefs: &Prefs) -> (r: Result<(), String>)
        ensures
            final(self).writes() == old(self).writes().push((path@, *prefs, r)),
    ;
}

/// Saves new preferences: invalid ones are refused; when autostart
/// changes, `autostart` is asked to switch and its error is passed on; then
/// `writer` writes the preferences to the file, and its error is passed on;
/// only then are the new preferences in force, with the pause switch
/// following them. Nothing is written unless the preferences are valid and
/// the switch (when one was needed) succeeded; on an error nothing is in
/// force that was not.
pub fn set_prefs_with_autostart_inner<A: AutostartController, W: PrefsWriter>(
    state: &mut PrefsState,
    prefs: Prefs,
    autostart: &mut A,
    flags: &mut RuntimeFlags,
    writer: &mut W,
) -> (r: Result<(), String>)
    ensures
        !prefs_valid(prefs) ==> (r matches Err(m) && m@ == invalid_prefs_message())
            && final(autostart).switches() == old(autostart).switches()
            && final(writer).writes() == old(writer).writes(),
        prefs_valid(prefs) && old(state).spec_prefs().autostart == prefs.autostart ==> final(autostart).switches() == old(autostart).switches()
            && final(writer).writes() == old(writer).writes().push((old(state).spec_path(), prefs, r)),
        prefs_valid(prefs) && old(state).spec_prefs().autostart != prefs.autostart ==> exists|
            answer: Result<(), String>,
        |
            #![trigger old(autostart).switches().push((prefs.autostart, answer))]
            final(autostart).switches() == old(autostart).switches().push((prefs.autostart, answer))
                && match answer {
                Err(e) => r == Err::<(), String>(e) && final(writer).writes() == old(writer).writes(),
                Ok(_) => final(writer).writes() == old(writer).writes().push((old(state).spec_path(), prefs, r)),
            },
        r is Ok ==> final(state).spec_prefs() == prefs && *final(flags) == (RuntimeFlags {
            paused: prefs.paused,
            ..*old(flags)
        }),
        r is Err ==> final(state).spec_prefs() == old(state).spec_prefs() && *final(flags) == *old(
            flags,
        ),
        final(state).spec_path() == old(state).spec_path(),
{
    validate_prefs(&prefs)?;
    let previous = get_prefs_inner(state);
    if let Some(enabled) = autostart_change(&previous, &prefs) {
        let answer = autostart.set_enabled(enabled);
        assert(autostart.switches() == old(autostart).switches().push((prefs.autostart, answer)));
        match answer {
            Err(e) => {
                return Err(e);
            },
            Ok(()) => {},
        }
    }
    let written = writer.write(state.path.as_str(), &prefs);
    if written.is_err() {
        return written;
    }
    set_paused(flags, prefs.paused);
    state.prefs = prefs;
    written
}

/// Saves preferences without touching autostart: valid preferences are
/// written through `writer` and, when that succeeds, put in force with the
/// pause switch following them. Invalid ones are refused and nothing is
/// written.
pub fn set_prefs_inner<W: PrefsWriter>(
    state: &mut PrefsState,
    prefs: Prefs,
    flags: &mut RuntimeFlags,
    writer: &mut W,
) -> (r: Result<(), String>)
    ensures
        !prefs_valid(prefs) ==> (r matches Err(m) && m@ == invalid_prefs_message())
            && final(writer).writes() == old(writer).writes(),
        prefs_valid(prefs) ==> final(writer).writes() == old(writer).writes().push(
            (old(state).spec_path(), prefs, r),
        ),
        r is Ok ==> final(state).spec_prefs() == prefs && *final(flags) == (RuntimeFlags {
            paused: prefs.paused,
            ..*old(flags)
        }),
        r is Err ==> final(state).spec_prefs() == old(state).spec_prefs() && *final(flags) == *old(
            flags,
        ),
        final(state).spec_path() == old(state).spec_path(),
{
    validate_prefs(&prefs)?;
    let written = writer.write(state.path.as_str(), &prefs);
    if written.is_err() {
        return written;
    }
    set_paused(flags, prefs.paused);
    state.prefs = prefs;
    written
}

} // verus!
