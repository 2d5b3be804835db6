//! Keyboard events for the Windows `SendInput` call: each action becomes key
//! presses (a key-down and a key-up), a character becomes one press per
//! UTF-16 unit, and a paste is Ctrl+V. Batches go out in calls of at most
//! `MAX_INPUTS_PER_CALL` events.

use vstd::prelude::*;

use crate::chars::{char_utf16, utf16_units};

use super::{actions_view, KeyboardAction, KeyboardActionV, KeyboardSink};

verus! {

/// The extra-information value that marks input this application injected.
pub const INJECTED_MARKER: usize = 0x4F4D_4143;

/// The most events handed to one `SendInput` call.
pub const MAX_INPUTS_PER_CALL: usize = 256;

/// Virtual key of Backspace.
pub const VK_BACK: u16 = 0x08;

/// Virtual key of Ctrl.
pub const VK_CONTROL: u16 = 0x11;

/// Virtual key of the left arrow.
pub const VK_LEFT: u16 = 0x25;

/// Virtual key of the `V` key.
pub const VK_V: u16 = 0x56;

/// One keyboard input: a virtual key, or (with `unicode`) a UTF-16 unit
/// carried as the scan code; `key_up` marks the release.
#[derive(Debug, Clone, Copy, PartialEq, Eq, Structural)]
pub struct KeyEvent {
    pub vk: u16,
    pub scan: u16,
    pub unicode: bool,
    pub key_up: bool,
}

/// Press and release of virtual key `vk`.
pub open spec fn key_press(vk: u16) -> Seq<KeyEvent> {
    seq![
        KeyEvent { vk, scan: 0, unicode: false, key_up: false },
        KeyEvent { vk, scan: 0, unicode: false, key_up: true },
    ]
}

/// Press and release of UTF-16 unit `u`.
pub open spec fn unit_press(u: u16) -> Seq<KeyEvent> {
    seq![
        KeyEvent { vk: 0, scan: u, unicode: true, key_up: false },
        KeyEvent { vk: 0, scan: u, unicode: true, key_up: true },
    ]
}

/// Presses of each unit of `units`, in order.
pub open spec fn unit_presses(units: Seq<u16>) -> Seq<KeyEvent>
    decreases units.len(),
{
    if units.len() == 0 {
        Seq::empty()
    } else {
        unit_presses(units.drop_last()) + unit_press(units.last())
    }
}

/// Ctrl down, V down, V up, Ctrl up.
pub open spec fn paste_events() -> Seq<KeyEvent> {
    seq![
        KeyEvent { vk: VK_CONTROL, scan: 0, unicode: false, key_up: false },
        KeyEvent { vk: VK_V, scan: 0, unicode: false, key_up: false },
        KeyEvent { vk: VK_V, scan: 0, unicode: false, key_up: true },
        KeyEvent { vk: VK_CONTROL, scan: 0, unicode: false, key_up: true },
    ]
}

/// The events of one action.
pub open spec fn action_events(a: KeyboardActionV) -> Seq<KeyEvent> {
    match a {
        KeyboardActionV::Backspace => key_press(VK_BACK),
        KeyboardActionV::LeftArrow => key_press(VK_LEFT),
        KeyboardActionV::Unicode(c) => unit_presses(utf16_units(c)),
        KeyboardActionV::Paste(_) => paste_events(),
    }
}

/// The events of a list of actions, in order.
pub open spec fn batch_events(actions: Seq<KeyboardActionV>) -> Seq<KeyEvent>
    decreases actions.len(),
{
    if actions.len() == 0 {
        Seq::empty()
    } else {
        batch_events(actions.drop_last()) + action_events(actions.last())
    }
}

/// `events` cut into consecutive pieces of `n` (the last one shorter).
pub open spec fn chunks(events: Seq<KeyEvent>, n: nat) -> Seq<Seq<KeyEvent>>
    decreases events.len(),
{
    if n == 0 || events.len() == 0 {
        Seq::empty()
    } else if events.len() <= n {
        seq![events]
    } else {
        seq![events.take(n as int)] + chunks(events.skip(n as int), n)
    }
}

/// The `SendInput` calls a single action makes: one per UTF-16 unit of a
/// character, one for any other action.
pub open spec fn action_calls(a: KeyboardActionV) -> Seq<Seq<KeyEvent>> {
    match a {
        KeyboardActionV::Unicode(c) => utf16_units(c).map_values(|u: u16| unit_press(u)),
        _ => seq![action_events(a)],
    }
}

fn push_press(events: &mut Vec<KeyEvent>, vk: u16)
    ensures
        final(events)@ == old(events)@ + key_press(vk),
{
    events.push(KeyEvent { vk, scan: 0, unicode: false, key_up: false });
    events.push(KeyEvent { vk, scan: 0, unicode: false, key_up: true });
    assert(events@ =~= old(events)@ + key_press(vk));
}

fn push_unit(events: &mut Vec<KeyEvent>, u: u16)
    ensures
        final(events)@ == old(events)@ + unit_press(u),
{
    events.push(KeyEvent { vk: 0, scan: u, unicode: true, key_up: false });
    events.push(KeyEvent { vk: 0, scan: u, unicode: true, key_up: true });
    assert(events@ =~= old(events)@ + unit_press(u));
}

/// Appends the events of `action`.
fn push_action_events(events: &mut Vec<KeyEvent>, action: &KeyboardAction)
    ensures
        final(events)@ == old(events)@ + action_events(action@),
{
    match action {
        KeyboardAction::Backspace => push_press(events, VK_BACK),
        KeyboardAction::LeftArrow => push_press(events, VK_LEFT),
        KeyboardAction::Unicode(c) => {
            let units = char_utf16(*c);
            let ghost start = events@;
            let mut i: usize = 0;
            while i < units.len()
                invariant
                    i <= units@.len(),
                    events@ == start + unit_presses(units@.take(i as int)),
                decreases units.len() - i,
            {
                push_unit(events, units[i]);
                assert(units@.take(i + 1).drop_last() =~= units@.take(i as int));
                i = i + 1;
                assert(events@ =~= start + unit_presses(units@.take(i as int)));
            }
            assert(units@.take(units@.len() as int) =~= units@);
        },
        KeyboardAction::Paste(_) => {
            events.push(KeyEvent { vk: VK_CONTROL, scan: 0, unicode: false, key_up: false });
            events.push(KeyEvent { vk: VK_V, scan: 0, unicode: false, key_up: false });
            events.push(KeyEvent { vk: VK_V, scan: 0, unicode: false, key_up: true });
            events.push(KeyEvent { vk: VK_CONTROL, scan: 0, unicode: false, key_up: true });
            assert(events@ =~= old(events)@ + paste_events());
        },
    }
}

/// The events of `actions`, in order.
pub fn events_for_actions(actions: &[KeyboardAction]) -> (r: Vec<KeyEvent>)
    ensures
        r@ == batch_events(actions_view(actions@)),
{
    let mut events: Vec<KeyEvent> = Vec::new();
    let mut i: usize = 0;
    while i < actions.len()
        invariant
            i <= actions@.len(),
            events@ == batch_events(actions_view(actions@.take(i as int))),
        decreases actions.len() - i,
    {
        push_action_events(&mut events, &actions[i]);
        assert(actions_view(actions@.take(i + 1)).drop_last() =~= actions_view(
            actions@.take(i as int),
        ));
        i = i + 1;
    }
    assert(actions@.take(actions@.len() as int) =~= actions@);
    events
}

/// Performs `SendInput` calls. `calls` is every call made so far with the
/// events handed to it.
pub trait KeyEventSender: Send + 'static {
    closed spec fn calls(&self) -> Seq<Seq<KeyEvent>> {
        Seq::empty()
    }

    /// The waits asked for so far, in milliseconds, in order.
    closed spec fn pauses(&self) -> Seq<u64> {
        Seq::empty()
    }

    fn send_inputs(&mut self, events: &[KeyEvent])
        ensures
            final(self).calls() == old(self).calls().push(events@),
            final(self).pauses() == old(self).pauses(),
    ;

    /// Waits `millis` milliseconds; makes no call.
    fn pause(&mut self, millis: u64)
        ensures
            final(self).calls() == old(self).calls(),
            final(self).pauses() == old(self).pauses().push(millis),
    ;
}

/// How long the target application is given before the trigger is erased.
pub const PRE_INJECT_DELAY_MS: u64 = 5;

/// A keyboard sink that turns actions into key events for a sender.
pub struct WindowsKeyboardSink<T: KeyEventSender> {
    sender: T,
    sent: Ghost<Seq<KeyboardActionV>>,
}

impl<T: KeyEventSender> WindowsKeyboardSink<T> {
    /// A sink that has sent nothing yet.
    pub fn new(sender: T) -> (r: Self)
        ensures
            r.sent() == Seq::<KeyboardActionV>::empty(),
            r.spec_sender() == sender,
    {
        WindowsKeyboardSink { sender, sent: Ghost(Seq::empty()) }
    }

    /// The sender.
    pub closed spec fn spec_sender(&self) -> T {
        self.sender
    }

    /// The sender.
    pub fn sender(&self) -> (r: &T)
        ensures
            *r == self.spec_sender(),
    {
        &self.sender
    }

    fn send_chunked(&mut self, events: &Vec<KeyEvent>)
        ensures
            final(self).sender.calls() == old(self).sender.calls() + chunks(
                events@,
                MAX_INPUTS_PER_CALL as nat,
            ),
            final(self).sent == old(self).sent,
    {
        let ghost start = self.sender.calls();
        let n = events.len();
        let mut pos: usize = 0;
        assert(events@.skip(0) =~= events@);
        while pos < n
            invariant
                n == events@.len(),
                pos <= n,
                self.sender.calls() + chunks(events@.skip(pos as int), MAX_INPUTS_PER_CALL as nat)
                    == start + chunks(events@, MAX_INPUTS_PER_CALL as nat),
                self.sent == old(self).sent,
            decreases n - pos,
        {
            let end = if n - pos > MAX_INPUTS_PER_CALL {
                pos + MAX_INPUTS_PER_CALL
            } else {
                n
            };
            let mut chunk: Vec<KeyEvent> = Vec::new();
            let mut k: usize = pos;
            while k < end
                invariant
                    pos <= k <= end,
                    end <= n,
                    n == events@.len(),
                    chunk@ == events@.subrange(pos as int, k as int),
                decreases end - k,
            {
                chunk.push(events[k]);
                k = k + 1;
                assert(chunk@ =~= events@.subrange(pos as int, k as int));
            }
            let ghost rest = events@.skip(pos as int);
            let ghost before = self.sender.calls();
            self.sender.send_inputs(chunk.as_slice());
            proof {
                if rest.len() <= MAX_INPUTS_PER_CALL {
                    assert(chunk@ =~= rest);
                    assert(events@.skip(end as int) =~= Seq::<KeyEvent>::empty());
                    assert(chunks(events@.skip(end as int), MAX_INPUTS_PER_CALL as nat)
                        =~= Seq::<Seq<KeyEvent>>::empty());
                } else {
                    assert(chunk@ =~= rest.take(MAX_INPUTS_PER_CALL as int));
                    assert(rest.skip(MAX_INPUTS_PER_CALL as int) =~= events@.skip(end as int));
                }
                assert(self.sender.calls() + chunks(events@.skip(end as int), MAX_INPUTS_PER_CALL as nat)
                    =~= before + chunks(rest, MAX_INPUTS_PER_CALL as nat));
            }
            pos = end;
        }
        assert(events@.skip(n as int) =~= Seq::<KeyEvent>::empty());
        assert(self.sender.calls() =~= start + chunks(events@, MAX_INPUTS_PER_CALL as nat));
    }
}

impl<T: KeyEventSender> KeyboardSink for WindowsKeyboardSink<T> {
    closed spec fn sent(&self) -> Seq<KeyboardActionV> {
        self.sent@
    }

    /// One call per UTF-16 unit of a character, one for any other action.
    fn send(&mut self, action: KeyboardAction)
        ensures
            final(self).spec_sender().calls() == old(self).spec_sender().calls() + action_calls(
                action@,
            ),
    {
        let ghost start = self.sender.calls();
        match &action {
            KeyboardAction::Unicode(c) => {
                let units = char_utf16(*c);
                let mut i: usize = 0;
                while i < units.len()
                    invariant
                        i <= units@.len(),
                        self.sender.calls() == start + units@.take(i as int).map_values(
                            |u: u16| unit_press(u),
                        ),
                        self.sent == old(self).sent,
                    decreases units.len() - i,
                {
                    let mut pair: Vec<KeyEvent> = Vec::new();
                    push_unit(&mut pair, units[i]);
                    self.sender.send_inputs(pair.as_slice());
                    assert(units@.take(i + 1).map_values(|u: u16| unit_press(u)) =~= units@.take(
                        i as int,
                    ).map_values(|u: u16| unit_press(u)).push(unit_press(units@[i as int])));
                    i = i + 1;
                }
                assert(units@.take(units@.len() as int) =~= units@);
            },
            _ => {
                let mut events: Vec<KeyEvent> = Vec::new();
                push_action_events(&mut events, &action);
                assert(events@ =~= action_events(action@));
                self.sender.send_inputs(events.as_slice());
                assert(self.sender.calls() =~= start + action_calls(action@));
            },
        }
        proof {
            self.sent@ = self.sent@.push(action@);
        }
    }

    /// All events of the batch, in calls of at most `MAX_INPUTS_PER_CALL`.
    fn send_batch(&mut self, actions: &[KeyboardAction])
        ensures
            final(self).spec_sender().calls() == old(self).spec_sender().calls() + chunks(
                batch_events(actions_view(actions@)),
                MAX_INPUTS_PER_CALL as nat,
            ),
    {
        let events = events_for_actions(actions);
        self.send_chunked(&events);
        proof {
            self.sent@ = self.sent@ + actions_view(actions@);
        }
    }

    /// Pauses `PRE_INJECT_DELAY_MS` before the trigger is erased.
    fn settle(&mut self)
        ensures
            final(self).spec_sender().calls() == old(self).spec_sender().calls(),
            final(self).spec_sender().pauses() == old(self).spec_sender().pauses().push(
                PRE_INJECT_DELAY_MS,
            ),
    {
        self.sender.pause(PRE_INJECT_DELAY_MS);
    }
}


/// The concatenation of a list of event lists.
pub open spec fn flatten_calls(calls: Seq<Seq<KeyEvent>>) -> Seq<KeyEvent>
    decreases calls.len(),
{
    if calls.len() == 0 {
        Seq::empty()
    } else {
        calls[0] + flatten_calls(calls.drop_first())
    }
}

/// Cutting a batch into calls loses, adds and reorders nothing, and no call
/// is empty or longer than the limit.
pub proof fn lemma_chunks_cover_batch(events: Seq<KeyEvent>, n: nat)
    requires
        n > 0,
    ensures
        flatten_calls(chunks(events, n)) == events,
        forall|k: int|
            0 <= k < chunks(events, n).len() ==> 0 < (#[trigger] chunks(events, n)[k]).len() <= n,
    decreases events.len(),
{
    if events.len() == 0 {
    } else if events.len() <= n {
        assert(flatten_calls(seq![events]) =~= events + flatten_calls(seq![events].drop_first()));
        assert(seq![events].drop_first() =~= Seq::<Seq<KeyEvent>>::empty());
        assert(flatten_calls(chunks(events, n)) =~= events);
    } else {
        let rest = events.skip(n as int);
        lemma_chunks_cover_batch(rest, n);
        let c = chunks(events, n);
        assert(c == seq![events.take(n as int)] + chunks(rest, n));
        assert(c.drop_first() =~= chunks(rest, n));
        assert(flatten_calls(c) == c[0] + flatten_calls(c.drop_first()));
        assert(events.take(n as int) + rest =~= events);
        assert forall|k: int| 0 <= k < c.len() implies 0 < (#[trigger] c[k]).len() <= n by {
            if k > 0 {
                assert(c[k] == chunks(rest, n)[k - 1]);
            }
        }
    }
}


/// The name of an action kind, for logs.
pub fn keyboard_action_label(action: &KeyboardAction) -> (r: &'static str)
    ensures
        r@ == match action@ {
            KeyboardActionV::Backspace => "backspace"@,
            KeyboardActionV::LeftArrow => "left_arrow"@,
            KeyboardActionV::Unicode(_) => "unicode"@,
            KeyboardActionV::Paste(_) => "paste"@,
        },
{
    match action {
        KeyboardAction::Backspace => "backspace",
        KeyboardAction::LeftArrow => "left_arrow",
        KeyboardAction::Unicode(_) => "unicode",
        KeyboardAction::Paste(_) => "paste",
    }
}

} // verus!
