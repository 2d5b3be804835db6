//! Typing text back into the active application: erase the trigger, put the
//! replacement in place (typed character by character, or pasted through the
//! clipboard when it is long), then move the caret.

pub mod clipboard;
pub mod sendinput;

use std::time::Duration;

use vstd::prelude::*;

use vstd::utf8::encode_utf8;

use crate::chars::chars_of;

pub use clipboard::{
    ClipboardBackend, ClipboardFormat, ClipboardPasteResult, ClipboardSnapshot,
    MockClipboardBackend, TestClipboardBackend,
};

verus! {

/// Replacements of at most this many characters are always typed directly.
pub const UNICODE_DIRECT_THRESHOLD_CHARS: usize = 2048;

/// One keyboard action handed to a sink.
#[derive(Debug, Clone, PartialEq, Eq)]
pub enum KeyboardAction {
    Backspace,
    LeftArrow,
    Unicode(char),
    Paste(String),
}

/// The value of a `KeyboardAction`, its pasted text as characters.
pub enum KeyboardActionV {
    Backspace,
    LeftArrow,
    Unicode(char),
    Paste(Seq<char>),
}

impl View for KeyboardAction {
    type V = KeyboardActionV;

    open spec fn view(&self) -> KeyboardActionV {
        match self {
            KeyboardAction::Backspace => KeyboardActionV::Backspace,
            KeyboardAction::LeftArrow => KeyboardActionV::LeftArrow,
            KeyboardAction::Unicode(c) => KeyboardActionV::Unicode(*c),
            KeyboardAction::Paste(s) => KeyboardActionV::Paste(s@),
        }
    }
}

/// The values of a list of actions.
pub open spec fn actions_view(actions: Seq<KeyboardAction>) -> Seq<KeyboardActionV> {
    actions.map_values(|a: KeyboardAction| a@)
}

proof fn lemma_actions_view_push(s: Seq<KeyboardAction>, a: KeyboardAction)
    ensures
        actions_view(s.push(a)) =~= actions_view(s).push(a@),
{
}

/// A copy of `action`.
pub fn copy_action(action: &KeyboardAction) -> (r: KeyboardAction)
    ensures
        r@ == action@,
{
    match action {
        KeyboardAction::Backspace => KeyboardAction::Backspace,
        KeyboardAction::LeftArrow => KeyboardAction::LeftArrow,
        KeyboardAction::Unicode(c) => KeyboardAction::Unicode(*c),
        KeyboardAction::Paste(s) => KeyboardAction::Paste(s.clone()),
    }
}

/// Where keyboard actions go. `sent` is everything the sink has been handed,
/// oldest first.
pub trait KeyboardSink: Send + 'static {
    closed spec fn sent(&self) -> Seq<KeyboardActionV> {
        Seq::empty()
    }

    fn send(&mut self, action: KeyboardAction)
        ensures
            final(self).sent() == old(self).sent().push(action@),
    ;

    /// Sends each action in turn.
    fn send_batch(&mut self, actions: &[KeyboardAction])
        ensures
            final(self).sent() == old(self).sent() + actions_view(actions@),
    {
        let ghost start = self.sent();
        let mut i: usize = 0;
        while i < actions.len()
            invariant
                i <= actions@.len(),
                self.sent() == start + actions_view(actions@.take(i as int)),
            decreases actions.len() - i,
        {
            self.send(copy_action(&actions[i]));
            assert(actions_view(actions@.take(i + 1)) =~= actions_view(actions@.take(i as int)).push(
                actions@[i as int]@,
            ));
            i = i + 1;
        }
        assert(actions@.take(actions@.len() as int) =~= actions@);
    }

    /// Gives the target application a moment to take in what was typed
    /// before the trigger is erased; sends nothing.
    fn settle(&mut self)
        ensures
            final(self).sent() == old(self).sent(),
    {
    }
}

/// What to type: erase `backspaces` characters, put `text` in place, then
/// move the caret `caret_left` characters back. Text of more than
/// `UNICODE_DIRECT_THRESHOLD_CHARS` characters and at most
/// `max_clipboard_bytes` UTF-8 bytes goes through the clipboard.
#[derive(Debug)]
pub struct InjectPlan {
    pub backspaces: usize,
    pub text: String,
    pub caret_left: usize,
    pub max_clipboard_bytes: usize,
    pub clipboard_timeout: Duration,
}

/// `Duration::from_millis`, the span of `millis` milliseconds. The value is
/// only carried to the clipboard backend, so nothing is stated of it.
pub assume_specification[ std::time::Duration::from_millis ](millis: u64) -> Duration;

/// Why an injection step failed.
#[derive(Debug)]
pub struct InjectError {
    message: String,
}

impl InjectError {
    /// An error with the given message.
    pub fn new(message: &str) -> (r: Self)
        ensures
            r.spec_message() == message@,
    {
        InjectError { message: String::from_str(message) }
    }

    /// The error's message.
    pub closed spec fn spec_message(&self) -> Seq<char> {
        self.message@
    }

    /// The error's message.
    pub fn message(&self) -> (r: String)
        ensures
            r@ == self.spec_message(),
    {
        self.message.clone()
    }
}

/// `n` copies of `a`.
pub open spec fn repeat_action(a: KeyboardActionV, n: nat) -> Seq<KeyboardActionV> {
    Seq::new(n, |i: int| a)
}

/// Typing the character `c`.
pub open spec fn unicode_v(c: char) -> KeyboardActionV {
    KeyboardActionV::Unicode(c)
}

/// Typing `text` character by character.
pub open spec fn typed_actions(text: Seq<char>) -> Seq<KeyboardActionV> {
    text.map_values(|c: char| unicode_v(c))
}

/// Whether the plan sends its text through the clipboard first.
pub open spec fn uses_clipboard(plan: InjectPlan) -> bool {
    plan.text@.len() > UNICODE_DIRECT_THRESHOLD_CHARS && encode_utf8(plan.text@).len()
        <= plan.max_clipboard_bytes
}

/// What an injection sends when the text is typed, or, with `pasted`, when
/// the clipboard pasted it.
pub open spec fn injected_actions(plan: InjectPlan, pasted: bool) -> Seq<KeyboardActionV> {
    repeat_action(KeyboardActionV::Backspace, plan.backspaces as nat) + if pasted {
        seq![KeyboardActionV::Paste(plan.text@)]
    } else {
        typed_actions(plan.text@)
    } + repeat_action(KeyboardActionV::LeftArrow, plan.caret_left as nat)
}

/// `n` copies of `a`, as actions.
fn repeated(a: &KeyboardAction, n: usize) -> (r: Vec<KeyboardAction>)
    ensures
        actions_view(r@) == repeat_action(a@, n as nat),
{
    let mut r: Vec<KeyboardAction> = Vec::new();
    let mut i: usize = 0;
    while i < n
        invariant
            i <= n,
            actions_view(r@) == repeat_action(a@, i as nat),
        decreases n - i,
    {
        let ghost before = r@;
        let c = copy_action(a);
        r.push(c);
        proof {
            lemma_actions_view_push(before, c);
        }
        i = i + 1;
        assert(actions_view(r@) =~= repeat_action(a@, i as nat));
    }
    r
}

/// The actions that type `text` character by character.
pub fn unicode_actions(text: &str) -> (r: Vec<KeyboardAction>)
    ensures
        actions_view(r@) == typed_actions(text@),
{
    let v = chars_of(text);
    let mut r: Vec<KeyboardAction> = Vec::new();
    assert(actions_view(r@) =~= typed_actions(v@.take(0)));
    let mut i: usize = 0;
    while i < v.len()
        invariant
            i <= v@.len(),
            v@ == text@,
            actions_view(r@) == typed_actions(v@.take(i as int)),
        decreases v.len() - i,
    {
        let ghost before = r@;
        let c = KeyboardAction::Unicode(v[i]);
        r.push(c);
        proof {
            lemma_actions_view_push(before, c);
            assert(typed_actions(v@.take(i + 1)) =~= typed_actions(v@.take(i as int)).push(
                unicode_v(v@[i as int]),
            ));
        }
        i = i + 1;
    }
    assert(v@.take(v@.len() as int) =~= v@);
    r
}

/// Whether the plan sends its text through the clipboard first.
pub fn plan_uses_clipboard(plan: &InjectPlan) -> (r: bool)
    ensures
        r == uses_clipboard(*plan),
{
    let n = chars_of(plan.text.as_str()).len();
    n > UNICODE_DIRECT_THRESHOLD_CHARS && plan.text.as_str().as_bytes().len() <= plan.max_clipboard_bytes
}

/// Types text through a keyboard sink and a clipboard backend.
pub struct Injector<S: KeyboardSink, B: ClipboardBackend> {
    sink: S,
    clipboard: B,
}

impl<T: sendinput::KeyEventSender, B: ClipboardBackend> Injector<sendinput::WindowsKeyboardSink<T>, B> {
    /// The injector that types through `sender` (the system's input queue)
    /// and pastes through `clipboard` (the system clipboard).
    pub fn new(sender: T, clipboard: B) -> (r: Self)
        ensures
            r.spec_sink().sent() == Seq::<KeyboardActionV>::empty(),
            r.spec_sink().spec_sender() == sender,
            r.spec_clipboard() == clipboard,
    {
        Injector { sink: sendinput::WindowsKeyboardSink::new(sender), clipboard }
    }
}

impl<S: KeyboardSink> Injector<S, MockClipboardBackend> {
    /// An injector over `sink` whose clipboard only pretends to paste.
    pub fn new_with_sink(sink: S) -> (r: Self)
        ensures
            r.spec_sink() == sink,
    {
        Injector { sink, clipboard: MockClipboardBackend::new() }
    }
}

impl<S: KeyboardSink, B: ClipboardBackend> Injector<S, B> {
    /// The sink.
    pub closed spec fn spec_sink(&self) -> S {
        self.sink
    }

    /// The clipboard backend.
    pub closed spec fn spec_clipboard(&self) -> B {
        self.clipboard
    }

    /// An injector over `sink` and `clipboard`.
    pub fn new_with_parts(sink: S, clipboard: B) -> (r: Self)
        ensures
            r.spec_sink() == sink,
            r.spec_clipboard() == clipboard,
    {
        Injector { sink, clipboard }
    }

    /// The sink.
    pub fn sink(&self) -> (r: &S)
        ensures
            *r == self.spec_sink(),
    {
        &self.sink
    }

    /// The clipboard backend, to read from or replace.
    pub fn clipboard_mut(&mut self) -> (r: &mut B)
        ensures
            *r == old(self).spec_clipboard(),
            final(self).spec_sink() == old(self).spec_sink(),
            final(self).spec_clipboard() == *final(r),
    {
        &mut self.clipboard
    }

    /// Erases the trigger, puts the text in place and moves the caret. The
    /// text goes through the clipboard when the plan says so; if the
    /// clipboard fails before pasting, it is typed instead. Always `Ok`.
    pub fn inject(&mut self, plan: InjectPlan) -> (r: Result<(), InjectError>)
        ensures
            r is Ok,
            !uses_clipboard(plan) ==> final(self).spec_clipboard() == old(self).spec_clipboard()
                && final(self).spec_sink().sent() == old(self).spec_sink().sent() + injected_actions(
                plan,
                false,
            ),
            uses_clipboard(plan) ==> final(self).spec_clipboard().reads() == old(
                self,
            ).spec_clipboard().reads() && exists|pasted: bool|
                #![trigger injected_actions(plan, pasted)]
                final(self).spec_clipboard().pastes() == old(self).spec_clipboard().pastes().push(
                    (plan.text@, plan.clipboard_timeout, pasted),
                ) && final(self).spec_sink().sent() == old(self).spec_sink().sent()
                    + injected_actions(plan, pasted),
    {
        let ghost start = self.sink.sent();
        self.sink.settle();
        let backspaces = repeated(&KeyboardAction::Backspace, plan.backspaces);
        if backspaces.len() > 0 {
            self.sink.send_batch(&backspaces);
        }
        proof {
            if backspaces.len() == 0 {
                assert(actions_view(backspaces@) =~= Seq::<KeyboardActionV>::empty());
            }
            assert(self.sink.sent() =~= start + actions_view(backspaces@));
        }
        let ghost after_bs = self.sink.sent();
        let pasted = if plan_uses_clipboard(&plan) {
            match self.clipboard.paste(&mut self.sink, plan.text.as_str(), plan.clipboard_timeout) {
                ClipboardPasteResult::Pasted => true,
                ClipboardPasteResult::PastedRestoreFailed(_) => true,
                ClipboardPasteResult::Failed(_) => false,
            }
        } else {
            false
        };
        if !pasted {
            let typed = unicode_actions(plan.text.as_str());
            self.sink.send_batch(&typed);
        }
        let ghost after_text = self.sink.sent();
        let carets = repeated(&KeyboardAction::LeftArrow, plan.caret_left);
        if carets.len() > 0 {
            self.sink.send_batch(&carets);
        }
        proof {
            if carets.len() == 0 {
                assert(actions_view(carets@) =~= Seq::<KeyboardActionV>::empty());
            }
            assert(self.sink.sent() =~= after_text + actions_view(carets@));
            assert(self.sink.sent() =~= start + injected_actions(plan, pasted));
        }
        Ok(())
    }
}

} // verus!
