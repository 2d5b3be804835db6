//! The expansion engine: each hook event updates the typed-character
//! buffer; a typed character that completes a trigger resolves the
//! snippet and either injects it or asks for its form.

use std::time::Duration;

use vstd::prelude::*;

use vstd::utf8::encode_utf8;

use crate::chars::{chars_of, str_eq};
use crate::commands::prefs::Prefs;
use crate::expand::{ClipboardReader, ResolveError, ResolveNotifySink};
use crate::expand::resolver::{
    resolution_recorded, resolve_snippet, resolves_to, Confirmation, NoopResolveNotifySink,
};
use crate::expand::shell::ShellRun;
use crate::expand::shell::ShellBackend;
use crate::form::{restore_on_submit, FocusBackend, FocusError, FormOutcome, ForegroundWindow};
use crate::hook::{HookEvent, ResetCause};
use crate::inject::{
    actions_view, injected_actions, repeat_action, typed_actions, ClipboardBackend, InjectError,
    InjectPlan, Injector, KeyboardActionV, KeyboardSink, UNICODE_DIRECT_THRESHOLD_CHARS,
};
use crate::matcher::automaton::{best_upto, leftmost_longest_matches, meta_of, PatternMeta};
use crate::matcher::boundary::spec_classify;
use crate::matcher::buffer::after_push;
use crate::matcher::{BoundaryState, MatchBuffer, MatchHit, Matcher, Reset};
use crate::store::model::{clone_snippet, same_snippet};
use crate::store::{Snippet, VarKind};

use super::flags::RuntimeFlags;

verus! {

/// Longest replacement, in characters, injected by default.
pub const DEFAULT_MAX_EXPANSION_LEN: usize = 32_768;

/// How many typed characters the engine keeps for matching.
pub const MATCH_BUFFER_CAPACITY: usize = 64;

/// Largest replacement, in UTF-8 bytes, pasted through the clipboard.
pub const MAX_CLIPBOARD_BYTES: usize = 4_096;

/// How long the clipboard is waited for, in milliseconds.
pub const CLIPBOARD_TIMEOUT_MS: u64 = 50;

/// A notify sink that tells no one and declines every shell command.
pub type NoopNotifySink = NoopResolveNotifySink;

/// The buffer reset that a hook reset cause stands for.
pub open spec fn reset_for(cause: ResetCause) -> Reset {
    match cause {
        ResetCause::ArrowKey => Reset::ArrowKey,
        ResetCause::Home => Reset::Home,
        ResetCause::End => Reset::End,
        ResetCause::PageUp => Reset::PageUp,
        ResetCause::PageDown => Reset::PageDown,
        ResetCause::ImeOrComposition => Reset::ImeCompositionStart,
        ResetCause::CapsToggle => Reset::CapsLockToggled,
        ResetCause::ForegroundChange => Reset::FocusChanged,
    }
}

/// The buffer reset that a hook reset cause stands for.
pub fn map_reset(cause: ResetCause) -> (r: Reset)
    ensures
        r == reset_for(cause),
{
    match cause {
        ResetCause::ArrowKey => Reset::ArrowKey,
        ResetCause::Home => Reset::Home,
        ResetCause::End => Reset::End,
        ResetCause::PageUp => Reset::PageUp,
        ResetCause::PageDown => Reset::PageDown,
        ResetCause::ImeOrComposition => Reset::ImeCompositionStart,
        ResetCause::CapsToggle => Reset::CapsLockToggled,
        ResetCause::ForegroundChange => Reset::FocusChanged,
    }
}

/// A snippet with form variables whose form the application must show
/// before the expansion can go on.
pub struct FormRequest {
    pub snippet: Snippet,
    pub hwnd: ForegroundWindow,
    pub trigger_len_chars: usize,
}

/// What handling one event did.
pub enum EngineStep {
    /// Nothing was typed.
    Ignored,
    /// A snippet was injected.
    Injected,
    /// A snippet with form variables matched; its form is to be shown.
    FormRequested(FormRequest),
}

/// Expansion is off while paused, while a denylisted process has the
/// focus, and while text is being injected.
pub open spec fn gated(flags: RuntimeFlags) -> bool {
    flags.paused || flags.denylisted || flags.suspend
}

/// Whether a snippet declares a form variable.
pub open spec fn has_form_var(s: Snippet) -> bool {
    exists|i: int| 0 <= i < s.vars@.len() && (#[trigger] s.vars@[i]).kind == VarKind::Form
}

/// The plan that injects `text` over a trigger of `backspaces` characters
/// with the caret moved back `caret_left`.
pub fn expansion_plan(backspaces: usize, text: String, caret_left: Option<usize>) -> (r: InjectPlan)
    ensures
        r.backspaces == backspaces,
        r.text == text,
        r.caret_left == match caret_left {
            Some(n) => n,
            None => 0,
        },
        r.max_clipboard_bytes == MAX_CLIPBOARD_BYTES,
{
    InjectPlan {
        backspaces,
        text,
        caret_left: match caret_left {
            Some(n) => n,
            None => 0,
        },
        max_clipboard_bytes: MAX_CLIPBOARD_BYTES,
        clipboard_timeout: Duration::from_millis(CLIPBOARD_TIMEOUT_MS),
    }
}

/// A resolved caret offset as a number, if any.
pub open spec fn caret_of(c: Option<usize>) -> Option<nat> {
    match c {
        Some(n) => Some(n as nat),
        None => None,
    }
}

/// What an expansion sends: a backspace per trigger character, the text
/// (typed, or as one paste), then a left arrow per character the caret
/// goes back.
pub open spec fn expansion_actions(
    trigger_len: nat,
    text: Seq<char>,
    caret: Option<nat>,
    pasted: bool,
) -> Seq<KeyboardActionV> {
    repeat_action(KeyboardActionV::Backspace, trigger_len) + (if pasted {
        seq![KeyboardActionV::Paste(text)]
    } else {
        typed_actions(text)
    }) + repeat_action(
        KeyboardActionV::LeftArrow,
        match caret {
            Some(n) => n,
            None => 0,
        },
    )
}

/// Whether an expansion of `text` may go through the clipboard: it is
/// longer than what is typed directly and small enough to paste.
pub open spec fn may_paste(text: Seq<char>) -> bool {
    text.len() > UNICODE_DIRECT_THRESHOLD_CHARS && encode_utf8(text).len() <= MAX_CLIPBOARD_BYTES
}

/// `after` is `before` followed by the expansion of `text` over a trigger
/// of `trigger_len` characters: typed, or pasted where that is allowed.
pub open spec fn injects(
    before: Seq<KeyboardActionV>,
    after: Seq<KeyboardActionV>,
    trigger_len: nat,
    text: Seq<char>,
    caret: Option<nat>,
) -> bool {
    ||| after == before + expansion_actions(trigger_len, text, caret, false)
    ||| may_paste(text) && after == before + expansion_actions(trigger_len, text, caret, true)
}

/// `i` is the last of `snips` whose id is `id`: the one an id names.
pub open spec fn last_with_id(snips: Seq<Snippet>, i: int, id: Seq<char>) -> bool {
    &&& 0 <= i < snips.len()
    &&& snips[i].id@ == id
    &&& forall|j: int| i < j < snips.len() ==> (#[trigger] snips[j]).id@ != id
}

/// Every resolution of `snip` that its placeholders admit, whatever the
/// clipboard held and the user and the shell answered, succeeds with a text of at most `max` characters.
pub open spec fn resolution_fits(
    snip: Snippet,
    prefs: Prefs,
    form: Option<Seq<(String, String)>>,
    max: nat,
) -> bool {
    forall|
        clips: Seq<Option<Seq<char>>>,
        confirms: Seq<Confirmation>,
        runs: Seq<ShellRun>,
        res: Result<(Seq<char>, Option<nat>), ResolveError>,
    |
        #[trigger] resolves_to(snip, prefs, form, clips, confirms, runs, res) ==> (res matches Ok((t, _))
            && t.len() <= max)
}

/// The typed-character buffer, the matcher built from the snippets, the
/// snippets themselves and the injector.
pub struct Orchestrator<S: KeyboardSink, B: ClipboardBackend> {
    matcher: Matcher,
    buffer: MatchBuffer,
    snippets: Vec<Snippet>,
    injector: Injector<S, B>,
    max_expansion_len: usize,
}

impl<S: KeyboardSink, B: ClipboardBackend> Orchestrator<S, B> {
    /// The buffer holds at most `MATCH_BUFFER_CAPACITY` characters.
    pub closed spec fn wf(&self) -> bool {
        &&& self.buffer.spec_capacity() == MATCH_BUFFER_CAPACITY
        &&& self.buffer.spec_chars().len() <= MATCH_BUFFER_CAPACITY
        &&& self.matcher.spec_metas() == self.snippets@.map_values(|s: Snippet| meta_of(s))
    }

    /// The boundary before the kept characters once `c` is typed.
    closed spec fn typed_leading(&self) -> BoundaryState {
        let chars = self.buffer.spec_chars();
        if chars.len() == self.buffer.spec_capacity() && chars.len() > 0 {
            spec_classify(chars[0])
        } else {
            self.buffer.spec_leading()
        }
    }

    /// The trigger the matcher reports once `c` is typed: the best of the
    /// automaton's leftmost-longest matches on the kept characters, as
    /// `best_upto` picks it; none without an automaton.
    pub closed spec fn spec_hit(&self, c: char) -> Option<PatternMeta> {
        let typed = after_push(self.buffer.spec_chars(), MATCH_BUFFER_CAPACITY as nat, c);
        match self.matcher.spec_automaton() {
            None => None,
            Some(pats) => best_upto(
                typed,
                self.typed_leading(),
                self.matcher.spec_metas(),
                leftmost_longest_matches(pats, typed),
                leftmost_longest_matches(pats, typed).len() as int,
            ),
        }
    }

    /// The typed characters kept for matching.
    pub closed spec fn spec_buffer(&self) -> Seq<char> {
        self.buffer.spec_chars()
    }

    /// What the injector's sink has been sent.
    pub closed spec fn spec_sent(&self) -> Seq<KeyboardActionV> {
        self.injector.spec_sink().sent()
    }

    /// The longest replacement injected.
    pub closed spec fn spec_max_expansion_len(&self) -> nat {
        self.max_expansion_len as nat
    }

    /// The snippets known to the engine.
    pub closed spec fn spec_snippets(&self) -> Seq<Snippet> {
        self.snippets@
    }

    /// An engine over `snippets`: the matcher is built from them (a build
    /// error leaves it without patterns), the buffer is empty, and
    /// replacements up to `DEFAULT_MAX_EXPANSION_LEN` characters are injected.
    pub fn new_with_state(snippets: Vec<Snippet>, injector: Injector<S, B>) -> (r: Self)
        ensures
            r.wf(),
            r.spec_buffer() == Seq::<char>::empty(),
            r.spec_max_expansion_len() == DEFAULT_MAX_EXPANSION_LEN,
            r.spec_snippets() == snippets@,
            r.spec_sent() == injector.spec_sink().sent(),
    {
        let mut matcher = Matcher::new();
        let _ = matcher.rebuild(&snippets);
        Orchestrator {
            matcher,
            buffer: MatchBuffer::new(MATCH_BUFFER_CAPACITY),
            snippets,
            injector,
            max_expansion_len: DEFAULT_MAX_EXPANSION_LEN,
        }
    }

    /// Sets the longest replacement injected.
    pub fn set_max_expansion_len(&mut self, max: usize)
        ensures
            final(self).spec_max_expansion_len() == max,
            final(self).wf() == old(self).wf(),
            final(self).spec_buffer() == old(self).spec_buffer(),
            final(self).spec_sent() == old(self).spec_sent(),
            final(self).spec_snippets() == old(self).spec_snippets(),
    {
        self.max_expansion_len = max;
    }

    /// The injector.
    pub closed spec fn spec_injector(&self) -> Injector<S, B> {
        self.injector
    }

    /// The injector.
    pub fn injector(&self) -> (r: &Injector<S, B>)
        ensures
            *r == self.spec_injector(),
            r.spec_sink().sent() == self.spec_sent(),
    {
        &self.injector
    }

    /// The last snippet whose id is `id`, if any (a later snippet with the
    /// same id replaces an earlier one).
    fn find_snippet(&self, id: &str) -> (r: Option<usize>)
        ensures
            r matches Some(i) ==> i < self.snippets@.len() && self.snippets@[i as int].id@ == id@
                && forall|j: int| i < j < self.snippets@.len() ==> (#[trigger] self.snippets@[j]).id@ != id@,
            r is None ==> forall|j: int| 0 <= j < self.snippets@.len() ==> (#[trigger] self.snippets@[j]).id@ != id@,
    {
        let mut i: usize = self.snippets.len();
        while i > 0
            invariant
                i <= self.snippets@.len(),
                forall|j: int| i <= j < self.snippets@.len() ==> (#[trigger] self.snippets@[j]).id@ != id@,
            decreases i,
        {
            i = i - 1;
            if str_eq(self.snippets[i].id.as_str(), id) {
                return Some(i);
            }
        }
        None
    }

    /// Handles one hook event. Backspace drops the last typed character; a
    /// reset clears the buffer; a confirm key does nothing here. A typed
    /// character is ignored while expansion is gated; otherwise it is added
    /// to the buffer, and when it completes a trigger the snippet is
    /// resolved: an unknown placeholder clears the buffer and is reported,
    /// other errors and over-long results are dropped; a snippet with form
    /// variables clears the buffer and asks for its form (or gives up when
    /// no foreground window is known); any other is injected in place of
    /// the trigger, with `suspend` set while it is typed.
    pub fn handle_event<N: ResolveNotifySink, Sh: ShellBackend, F: FocusBackend>(
        &mut self,
        flags: &mut RuntimeFlags,
        prefs: &Prefs,
        notifier: &mut N,
        shell: &mut Sh,
        focus: &mut F,
        event: HookEvent,
    ) -> (r: Result<EngineStep, InjectError>)
        requires
            old(self).wf(),
        ensures
            final(self).wf(),
            final(focus).restores() == old(focus).restores(),
            !(event is Char && !gated(*old(flags))) ==> final(self).spec_injector().spec_clipboard()
                == old(self).spec_injector().spec_clipboard() && (*final(notifier)).unknowns() == (*old(notifier)).unknowns() && (*final(notifier)).confirmations() == (*old(notifier)).confirmations()
                && (*final(shell)).runs() == (*old(shell)).runs(),
            (*final(notifier)).unknowns() == (*old(notifier)).unknowns() || ({
                &&& r matches Ok(EngineStep::Ignored)
                &&& event matches HookEvent::Char(c)
                &&& old(self).spec_hit(c) matches Some(h)
                &&& final(self).spec_buffer() == Seq::<char>::empty()
                &&& exists|i: int, name: String|
                    #![trigger (*old(notifier)).unknowns().push((old(self).spec_snippets()[i].id@, name@))]
                    last_with_id(old(self).spec_snippets(), i, h.snippet_id@)
                        && (*final(notifier)).unknowns() == (*old(notifier)).unknowns().push(
                        (old(self).spec_snippets()[i].id@, name@),
                    ) && resolution_recorded(
                        old(self).spec_snippets()[i],
                        *prefs,
                        None,
                        old(self).spec_injector().spec_clipboard().reads(),
                        final(self).spec_injector().spec_clipboard().reads(),
                        (*old(notifier)).confirmations(),
                        (*final(notifier)).confirmations(),
                        (*old(shell)).runs(),
                        (*final(shell)).runs(),
                        Err(ResolveError::UnknownPlaceholder { name }),
                    )
            }),
            !(event is Char && !gated(*old(flags)) && (r matches Ok(EngineStep::FormRequested(_))
                || r matches Ok(EngineStep::Ignored))) ==> final(focus).captures() == old(
                focus,
            ).captures(),
            final(self).spec_max_expansion_len() == old(self).spec_max_expansion_len(),
            final(self).spec_snippets() == old(self).spec_snippets(),
            *final(flags) == *old(flags),
            r is Ok,
            match event {
                HookEvent::Backspace => r matches Ok(EngineStep::Ignored) && final(self).spec_buffer()
                    == (if old(self).spec_buffer().len() > 0 {
                    old(self).spec_buffer().drop_last()
                } else {
                    old(self).spec_buffer()
                }) && final(self).spec_sent() == old(self).spec_sent(),
                HookEvent::Reset(_) => r matches Ok(EngineStep::Ignored) && final(self).spec_buffer()
                    == Seq::<char>::empty() && final(self).spec_sent() == old(self).spec_sent(),
                HookEvent::Confirm(_) => r matches Ok(EngineStep::Ignored) && final(self).spec_buffer()
                    == old(self).spec_buffer() && final(self).spec_sent() == old(self).spec_sent(),
                HookEvent::Char(c) => if gated(*old(flags)) {
                    r matches Ok(EngineStep::Ignored) && final(self).spec_buffer() == old(
                        self,
                    ).spec_buffer() && final(self).spec_sent() == old(self).spec_sent()
                } else {
                    &&& old(self).spec_hit(c) is None ==> (r matches Ok(EngineStep::Ignored)
                        && final(self).spec_injector().spec_clipboard() == old(
                        self,
                    ).spec_injector().spec_clipboard() && final(self).spec_buffer() == after_push(
                        old(self).spec_buffer(),
                        MATCH_BUFFER_CAPACITY as nat,
                        c,
                    ))
                    &&& (r matches Ok(EngineStep::Ignored)) ==> final(self).spec_sent() == old(
                        self,
                    ).spec_sent() && (final(self).spec_buffer() == after_push(
                        old(self).spec_buffer(),
                        MATCH_BUFFER_CAPACITY as nat,
                        c,
                    ) || final(self).spec_buffer() == Seq::<char>::empty())
                    &&& (r matches Ok(EngineStep::Injected)) ==> {
                        &&& old(self).spec_hit(c) is Some
                        &&& final(self).spec_buffer() == Seq::<char>::empty()
                        &&& exists|i: int, text: Seq<char>, caret: Option<nat>|
                            #![trigger old(self).spec_snippets()[i], injects(old(self).spec_sent(), final(self).spec_sent(), old(self).spec_hit(c)->0.trigger_len_chars as nat, text, caret)]
                            last_with_id(
                                old(self).spec_snippets(),
                                i,
                                old(self).spec_hit(c)->0.snippet_id@,
                            )
                                && !has_form_var(old(self).spec_snippets()[i])
                                && resolution_recorded(
                                old(self).spec_snippets()[i],
                                *prefs,
                                None,
                                old(self).spec_injector().spec_clipboard().reads(),
                                final(self).spec_injector().spec_clipboard().reads(),
                                (*old(notifier)).confirmations(),
                                (*final(notifier)).confirmations(),
                                (*old(shell)).runs(),
                                (*final(shell)).runs(),
                                Ok((text, caret)),
                            )
                                && text.len() <= old(self).spec_max_expansion_len()
                                && injects(
                                old(self).spec_sent(),
                                final(self).spec_sent(),
                                old(self).spec_hit(c)->0.trigger_len_chars as nat,
                                text,
                                caret,
                            )
                    }
                    &&& forall|i: int|
                        #![trigger old(self).spec_snippets()[i]]
                        old(self).spec_hit(c) is Some && last_with_id(
                            old(self).spec_snippets(),
                            i,
                            old(self).spec_hit(c)->0.snippet_id@,
                        ) && resolution_fits(
                            old(self).spec_snippets()[i],
                            *prefs,
                            None,
                            old(self).spec_max_expansion_len(),
                        ) ==> if has_form_var(old(self).spec_snippets()[i]) {
                            (final(focus).captures() == old(focus).captures().push(None) && r
                                matches Ok(EngineStep::Ignored)) || exists|w: ForegroundWindow|
                                #![trigger old(focus).captures().push(Some(w))]
                                final(focus).captures() == old(focus).captures().push(Some(w))
                                    && (r matches Ok(EngineStep::FormRequested(req)) && req.hwnd == w)
                        } else {
                            r matches Ok(EngineStep::Injected)
                        }
                    &&& (r matches Ok(EngineStep::Ignored)) ==> final(focus).captures() == old(
                        focus,
                    ).captures() || final(focus).captures() == old(focus).captures().push(None)
                    &&& r matches Ok(EngineStep::FormRequested(req)) ==> {
                        &&& final(focus).captures() == old(focus).captures().push(Some(req.hwnd))
                        &&& old(self).spec_hit(c) matches Some(h)
                        &&& req.snippet.id@ == h.snippet_id@
                        &&& req.trigger_len_chars == h.trigger_len_chars
                        &&& has_form_var(req.snippet)
                        &&& final(self).spec_buffer() == Seq::<char>::empty()
                        &&& final(self).spec_sent() == old(self).spec_sent()
                    }
                },
            },
    {
        match event {
            HookEvent::Backspace => {
                let _ = self.buffer.pop_char();
                Ok(EngineStep::Ignored)
            },
            HookEvent::Reset(cause) => {
                self.buffer.reset_with(map_reset(cause));
                Ok(EngineStep::Ignored)
            },
            HookEvent::Confirm(_) => Ok(EngineStep::Ignored),
            HookEvent::Char(ch) => {
                if flags.paused || flags.denylisted || flags.suspend {
                    return Ok(EngineStep::Ignored);
                }
                let hit = match self.matcher.on_char(&mut self.buffer, ch) {
                    None => return Ok(EngineStep::Ignored),
                    Some(hit) => hit,
                };
                assert(self.buffer.spec_chars() == after_push(
                    old(self).spec_buffer(),
                    MATCH_BUFFER_CAPACITY as nat,
                    ch,
                ));
                let ghost h = old(self).spec_hit(ch)->0;
                assert(old(self).spec_hit(ch) == Some(h));
                assert(hit.snippet_id == h.snippet_id && hit.trigger_len_chars == h.trigger_len_chars);
                let index = match self.find_snippet(hit.snippet_id.as_str()) {
                    None => return Ok(EngineStep::Ignored),
                    Some(i) => i,
                };
                let resolved = {
                    let outcome = resolve_snippet(
                        prefs,
                        &self.snippets[index],
                        self.injector.clipboard_mut(),
                        None,
                        shell,
                        notifier,
                    );
                    match outcome {
                        Ok(resolved) => resolved,
                        Err(ResolveError::UnknownPlaceholder { name }) => {
                            self.buffer.reset();
                            notifier.unknown_placeholder(
                                self.snippets[index].id.as_str(),
                                name.as_str(),
                            );
                            proof {
                                assert(old(self).spec_snippets()[index as int] == self.snippets@[index as int]);
                                assert((*notifier).unknowns() == (*old(notifier)).unknowns().push(
                                    (old(self).spec_snippets()[index as int].id@, name@),
                                ));
                            }
                            return Ok(EngineStep::Ignored);
                        },
                        Err(_) => return Ok(EngineStep::Ignored),
                    }
                };
                if chars_of(resolved.text.as_str()).len() > self.max_expansion_len {
                    return Ok(EngineStep::Ignored);
                }
                let mut has_form = false;
                let mut k: usize = 0;
                while k < self.snippets[index].vars.len()
                    invariant
                        index < self.snippets@.len(),
                        k <= self.snippets@[index as int].vars@.len(),
                        has_form == exists|i: int|
                            0 <= i < k && (#[trigger] self.snippets@[index as int].vars@[i]).kind
                                == VarKind::Form,
                    decreases self.snippets@[index as int].vars@.len() - k,
                {
                    if self.snippets[index].vars[k].kind == VarKind::Form {
                        has_form = true;
                    }
                    k = k + 1;
                }
                if has_form {
                    let hwnd = match focus.capture_foreground() {
                        None => {
                            self.buffer.reset();
                            return Ok(EngineStep::Ignored);
                        },
                        Some(hwnd) => hwnd,
                    };
                    self.buffer.reset();
                    let snippet = clone_snippet(&self.snippets[index]);
                    assert(has_form_var(snippet)) by {
                        let i = choose|i: int|
                            0 <= i < self.snippets@[index as int].vars@.len() && (#[trigger] self.snippets@[index as int].vars@[i]).kind
                                == VarKind::Form;
                        assert(crate::store::model::same_var(
                            snippet.vars@[i],
                            self.snippets@[index as int].vars@[i],
                        ));
                    }
                    return Ok(
                        EngineStep::FormRequested(
                            FormRequest { snippet, hwnd, trigger_len_chars: hit.trigger_len_chars },
                        ),
                    );
                }
                self.buffer.reset();
                let plan = expansion_plan(
                    hit.trigger_len_chars,
                    resolved.text,
                    resolved.cursor_chars_after_token,
                );
                let ghost before = old(self).spec_sent();
                let ghost text = plan.text@;
                let ghost caret = caret_of(resolved.cursor_chars_after_token);
                assert(self.spec_sent() == before);
                flags.suspend = true;
                let _ = self.injector.inject(plan);
                flags.suspend = false;
                proof {
                    assert(injected_actions(plan, false) == expansion_actions(h.trigger_len_chars as nat, text, caret, false));
                    assert(injected_actions(plan, true) == expansion_actions(h.trigger_len_chars as nat, text, caret, true));
                    assert(injects(before, self.spec_sent(), h.trigger_len_chars as nat, text, caret));
                    assert(old(self).spec_snippets()[index as int] == self.snippets@[index as int]);
                }
                Ok(EngineStep::Injected)
            },
        }
    }

    /// Finishes a form expansion: the snippet is resolved with the form's
    /// values; nothing happens for a cancelled form, a failed resolution, an
    /// over-long result, or when the focus cannot be given back. Otherwise
    /// the text is injected in place of the trigger. Answers whether it was.
    pub fn complete_form<N: ResolveNotifySink, Sh: ShellBackend, F: FocusBackend>(
        &mut self,
        flags: &mut RuntimeFlags,
        prefs: &Prefs,
        notifier: &mut N,
        shell: &mut Sh,
        focus: &mut F,
        request: &FormRequest,
        outcome: &FormOutcome,
    ) -> (r: bool)
        requires
            old(self).wf(),
        ensures
            final(self).wf(),
            final(focus).captures() == old(focus).captures(),
            final(focus).restores() == old(focus).restores() || exists|a: Result<(), FocusError>|
                #![trigger old(focus).restores().push((request.hwnd, a))]
                final(focus).restores() == old(focus).restores().push((request.hwnd, a)) && (a is Ok
                    <==> r),
            r ==> final(focus).restores() != old(focus).restores(),
            outcome matches FormOutcome::Submitted(values) && resolution_fits(
                request.snippet,
                *prefs,
                Some(values@),
                old(self).spec_max_expansion_len(),
            ) ==> final(focus).restores() != old(focus).restores(),
            final(self).spec_buffer() == old(self).spec_buffer(),
            final(self).spec_max_expansion_len() == old(self).spec_max_expansion_len(),
            final(self).spec_snippets() == old(self).spec_snippets(),
            r ==> *final(flags) == (RuntimeFlags { suspend: false, ..*old(flags) }),
            !r ==> *final(flags) == *old(flags),
            outcome is Cancelled ==> !r,
            !r ==> final(self).spec_sent() == old(self).spec_sent(),
            (*final(notifier)).unknowns() == (*old(notifier)).unknowns(),
            outcome is Cancelled ==> (*final(notifier)).confirmations() == (*old(notifier)).confirmations()
                && (*final(shell)).runs() == (*old(shell)).runs(),
            r ==> (outcome matches FormOutcome::Submitted(values) && exists|text: Seq<char>, caret: Option<nat>|
                #![trigger injects(old(self).spec_sent(), final(self).spec_sent(), request.trigger_len_chars as nat, text, caret)]
                resolution_recorded(
                    request.snippet,
                    *prefs,
                    Some(values@),
                    old(self).spec_injector().spec_clipboard().reads(),
                    final(self).spec_injector().spec_clipboard().reads(),
                    (*old(notifier)).confirmations(),
                    (*final(notifier)).confirmations(),
                    (*old(shell)).runs(),
                    (*final(shell)).runs(),
                    Ok((text, caret)),
                )
                    && text.len() <= old(self).spec_max_expansion_len()
                    && injects(
                    old(self).spec_sent(),
                    final(self).spec_sent(),
                    request.trigger_len_chars as nat,
                    text,
                    caret,
                )),
    {
        let values = match outcome {
            FormOutcome::Cancelled => return false,
            FormOutcome::Submitted(values) => values,
        };
        let resolved = {
            let outcome = resolve_snippet(
                prefs,
                &request.snippet,
                self.injector.clipboard_mut(),
                Some(values),
                shell,
                notifier,
            );
            match outcome {
                Ok(resolved) => resolved,
                Err(_) => return false,
            }
        };
        if chars_of(resolved.text.as_str()).len() > self.max_expansion_len {
            return false;
        }
        let restored = restore_on_submit(focus, request.hwnd, outcome);
        assert(focus.restores().len() == old(focus).restores().len() + 1);
        if restored.is_err() {
            return false;
        }
        let plan = expansion_plan(
            request.trigger_len_chars,
            resolved.text,
            resolved.cursor_chars_after_token,
        );
        let ghost text = plan.text@;
        let ghost caret = caret_of(resolved.cursor_chars_after_token);
        flags.suspend = true;
        let _ = self.injector.inject(plan);
        flags.suspend = false;
        proof {
            assert(injected_actions(plan, false) == expansion_actions(request.trigger_len_chars as nat, text, caret, false));
            assert(injected_actions(plan, true) == expansion_actions(request.trigger_len_chars as nat, text, caret, true));
            assert(injects(old(self).spec_sent(), self.spec_sent(), request.trigger_len_chars as nat, text, caret));
        }
        true
    }
}

} // verus!
