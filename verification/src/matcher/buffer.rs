//! Rolling character buffer used by the matcher.

use std::collections::VecDeque;

use vstd::prelude::*;

use super::boundary::{classify_boundary_char, spec_classify, BoundaryState};

verus! {

broadcast use vstd::std_specs::vecdeque::group_vec_dequeue_axioms;

/// Why the buffer was cleared.
#[derive(Debug, Clone, Copy, PartialEq, Eq, Structural)]
pub enum Reset {
    ArrowKey,
    Home,
    End,
    PageUp,
    PageDown,
    ImeCompositionStart,
    CapsLockToggled,
    FocusChanged,
}

/// The most recent typed characters, at most `capacity` of them once the
/// capacity is positive, together with the boundary class of what preceded
/// the oldest kept character and of what preceded the newest one.
#[derive(Debug, Clone)]
pub struct MatchBuffer {
    capacity: usize,
    chars: VecDeque<char>,
    leading_boundary_state: BoundaryState,
    current_boundary_state: BoundaryState,
}

impl MatchBuffer {
    /// The capacity given at construction.
    pub closed spec fn spec_capacity(&self) -> nat {
        self.capacity as nat
    }

    /// The kept characters, oldest first.
    pub closed spec fn spec_chars(&self) -> Seq<char> {
        self.chars@
    }

    /// The boundary class of the character that was evicted last, or
    /// `StartOfBuffer` when none was.
    pub closed spec fn spec_leading(&self) -> BoundaryState {
        self.leading_boundary_state
    }

    /// The boundary class of what preceded the newest character when it was pushed.
    pub closed spec fn spec_current(&self) -> BoundaryState {
        self.current_boundary_state
    }

    /// An empty buffer with the given capacity.
    pub fn new(capacity: usize) -> (r: Self)
        ensures
            r.spec_capacity() == capacity,
            r.spec_chars() == Seq::<char>::empty(),
            r.spec_leading() == BoundaryState::StartOfBuffer,
            r.spec_current() == BoundaryState::StartOfBuffer,
    {
        Self {
            capacity,
            chars: VecDeque::with_capacity(capacity),
            leading_boundary_state: BoundaryState::StartOfBuffer,
            current_boundary_state: BoundaryState::StartOfBuffer,
        }
    }

    /// Appends `ch`; when the buffer already holds `capacity` characters the
    /// oldest one is evicted first and its class becomes the leading state.
    pub fn push_char(&mut self, ch: char)
        requires
            old(self).spec_chars().len() < usize::MAX,
        ensures
            final(self).spec_capacity() == old(self).spec_capacity(),
            final(self).spec_chars() == after_push(old(self).spec_chars(), old(self).spec_capacity(), ch),
            final(self).spec_current() == (if old(self).spec_chars().len() > 0 {
                spec_classify(old(self).spec_chars().last())
            } else {
                old(self).spec_leading()
            }),
            old(self).spec_chars().len() == old(self).spec_capacity() && old(self).spec_chars().len()
                > 0 ==> {
                &&& final(self).spec_chars() == old(self).spec_chars().drop_first().push(ch)
                &&& final(self).spec_leading() == spec_classify(old(self).spec_chars()[0])
            },
            !(old(self).spec_chars().len() == old(self).spec_capacity() && old(self).spec_chars().len()
                > 0) ==> {
                &&& final(self).spec_chars() == old(self).spec_chars().push(ch)
                &&& final(self).spec_leading() == old(self).spec_leading()
            },
    {
        let len = self.chars.len();
        self.current_boundary_state = if len > 0 {
            classify_boundary_char(self.chars[len - 1])
        } else {
            self.leading_boundary_state
        };
        if len == self.capacity {
            if let Some(removed) = self.chars.pop_front() {
                self.leading_boundary_state = classify_boundary_char(removed);
            }
        }
        self.chars.push_back(ch);
    }

    /// Removes and returns the newest character.
    pub fn pop_char(&mut self) -> (r: Option<char>)
        ensures
            final(self).spec_capacity() == old(self).spec_capacity(),
            final(self).spec_leading() == old(self).spec_leading(),
            final(self).spec_current() == old(self).spec_current(),
            old(self).spec_chars().len() == 0 ==> r is None && final(self).spec_chars()
                == old(self).spec_chars(),
            old(self).spec_chars().len() > 0 ==> r == Some(old(self).spec_chars().last())
                && final(self).spec_chars() == old(self).spec_chars().drop_last(),
    {
        self.chars.pop_back()
    }

    /// Empties the buffer and forgets both boundary states.
    pub fn reset(&mut self)
        ensures
            final(self).spec_capacity() == old(self).spec_capacity(),
            final(self).spec_chars() == Seq::<char>::empty(),
            final(self).spec_leading() == BoundaryState::StartOfBuffer,
            final(self).spec_current() == BoundaryState::StartOfBuffer,
    {
        self.chars.clear();
        self.leading_boundary_state = BoundaryState::StartOfBuffer;
        self.current_boundary_state = BoundaryState::StartOfBuffer;
    }

    /// Same as `reset`, whatever the reason.
    pub fn reset_with(&mut self, _reason: Reset)
        ensures
            final(self).spec_capacity() == old(self).spec_capacity(),
            final(self).spec_chars() == Seq::<char>::empty(),
            final(self).spec_leading() == BoundaryState::StartOfBuffer,
            final(self).spec_current() == BoundaryState::StartOfBuffer,
    {
        self.reset();
    }

    /// The kept characters as a string.
    pub fn as_str(&self) -> (r: String)
        ensures
            r@ == self.spec_chars(),
    {
        let mut s = String::new();
        let mut i: usize = 0;
        let n = self.chars.len();
        while i < n
            invariant
                n == self.chars@.len(),
                i <= n,
                s@ == self.chars@.take(i as int),
            decreases n - i,
        {
            crate::chars::push_char(&mut s, self.chars[i]);
            i = i + 1;
            assert(s@ =~= self.chars@.take(i as int));
        }
        assert(self.chars@.take(n as int) =~= self.chars@);
        s
    }

    /// The boundary class that preceded the newest character.
    pub fn boundary_state(&self) -> (r: BoundaryState)
        ensures
            r == self.spec_current(),
    {
        self.current_boundary_state
    }

    /// The boundary class preceding the character at `start_index`.
    pub fn boundary_char_state(&self, start_index: usize) -> (r: BoundaryState)
        ensures
            r == (if start_index == 0 {
                self.spec_current()
            } else if start_index - 1 < self.spec_chars().len() {
                spec_classify(self.spec_chars()[start_index - 1])
            } else {
                self.spec_leading()
            }),
    {
        if start_index == 0 {
            self.current_boundary_state
        } else if start_index - 1 < self.chars.len() {
            classify_boundary_char(self.chars[start_index - 1])
        } else {
            self.leading_boundary_state
        }
    }

    /// Number of kept characters.
    pub fn len(&self) -> (r: usize)
        ensures
            r == self.spec_chars().len(),
    {
        self.chars.len()
    }

    /// The kept character at `index`, if any.
    pub fn char_at(&self, index: usize) -> (r: Option<char>)
        ensures
            index < self.spec_chars().len() ==> r == Some(self.spec_chars()[index as int]),
            index >= self.spec_chars().len() ==> r is None,
    {
        if index < self.chars.len() {
            Some(self.chars[index])
        } else {
            None
        }
    }

    /// The boundary class of the character that was evicted last.
    pub fn leading_boundary_state(&self) -> (r: BoundaryState)
        ensures
            r == self.spec_leading(),
    {
        self.leading_boundary_state
    }
}


/// The kept characters after `ch` is typed into a buffer of capacity `cap`
/// holding `chars`: the oldest is evicted when the buffer is full.
pub open spec fn after_push(chars: Seq<char>, cap: nat, ch: char) -> Seq<char> {
    if chars.len() == cap && chars.len() > 0 {
        chars.drop_first().push(ch)
    } else {
        chars.push(ch)
    }
}

/// A buffer with a positive capacity never holds more characters than its
/// capacity, however many are typed.
pub proof fn lemma_push_stays_within_capacity(chars: Seq<char>, cap: nat, ch: char)
    requires
        cap > 0,
        chars.len() <= cap,
    ensures
        after_push(chars, cap, ch).len() <= cap,
        after_push(chars, cap, ch).last() == ch,
{
}

/// Typing a character into a buffer that is not full and then deleting it
/// (backspace) gives back the buffer's characters.
pub proof fn lemma_push_then_pop_restores(chars: Seq<char>, cap: nat, ch: char)
    requires
        chars.len() < cap,
    ensures
        after_push(chars, cap, ch).drop_last() == chars,
{
    assert(chars.push(ch).drop_last() =~= chars);
}


/// The boundary before the kept characters after `ch` is typed into a
/// buffer of capacity `cap` holding `chars` with leading state `leading`.
pub open spec fn leading_after_push(chars: Seq<char>, cap: nat, leading: BoundaryState, ch: char) -> BoundaryState {
    if chars.len() == cap && chars.len() > 0 {
        spec_classify(chars[0])
    } else {
        leading
    }
}

/// The kept characters after each of `typed` is typed in turn.
pub open spec fn after_typing(chars: Seq<char>, cap: nat, typed: Seq<char>) -> Seq<char>
    decreases typed.len(),
{
    if typed.len() == 0 {
        chars
    } else {
        after_push(after_typing(chars, cap, typed.drop_last()), cap, typed.last())
    }
}

/// The leading boundary after each of `typed` is typed in turn.
pub open spec fn leading_after_typing(
    chars: Seq<char>,
    cap: nat,
    leading: BoundaryState,
    typed: Seq<char>,
) -> BoundaryState
    decreases typed.len(),
{
    if typed.len() == 0 {
        leading
    } else {
        leading_after_push(
            after_typing(chars, cap, typed.drop_last()),
            cap,
            leading_after_typing(chars, cap, leading, typed.drop_last()),
            typed.last(),
        )
    }
}

/// However many characters are typed, a buffer of positive capacity keeps
/// exactly the last `cap` of all it was given, and its leading boundary is
/// the class of the character just before them (or the starting boundary
/// when nothing was evicted).
pub proof fn lemma_typing_keeps_the_last_characters(
    chars: Seq<char>,
    cap: nat,
    leading: BoundaryState,
    typed: Seq<char>,
)
    requires
        cap > 0,
        chars.len() <= cap,
    ensures
        ({
            let all = chars + typed;
            let evicted = if all.len() > cap { all.len() - cap } else { 0int };
            &&& after_typing(chars, cap, typed) == all.skip(evicted)
            &&& leading_after_typing(chars, cap, leading, typed) == if evicted > 0 {
                spec_classify(all[evicted - 1])
            } else {
                leading
            }
        }),
    decreases typed.len(),
{
    if typed.len() > 0 {
        let prev = typed.drop_last();
        lemma_typing_keeps_the_last_characters(chars, cap, leading, prev);
        let all0 = chars + prev;
        let all = chars + typed;
        assert(all =~= all0.push(typed.last()));
        let e0 = if all0.len() > cap { all0.len() - cap } else { 0int };
        let kept = all0.skip(e0);
        if kept.len() == cap && kept.len() > 0 {
            assert(kept.drop_first().push(typed.last()) =~= all.skip(e0 + 1));
            assert(kept[0] == all[e0]);
        } else {
            assert(kept.push(typed.last()) =~= all.skip(e0));
        }
    }
}

/// The boundary before the newest character after each of `typed` is typed
/// in turn into a buffer holding `chars` with leading state `leading` and
/// current state `current`.
pub open spec fn current_after_typing(
    chars: Seq<char>,
    cap: nat,
    leading: BoundaryState,
    current: BoundaryState,
    typed: Seq<char>,
) -> BoundaryState {
    if typed.len() == 0 {
        current
    } else {
        let before = after_typing(chars, cap, typed.drop_last());
        if before.len() > 0 {
            spec_classify(before.last())
        } else {
            leading_after_typing(chars, cap, leading, typed.drop_last())
        }
    }
}

/// After characters are typed into a fresh buffer of positive capacity, the
/// boundary before the newest one is start-of-buffer when it is the first
/// character typed, and otherwise the class of the character typed just
/// before it, however many characters were evicted.
pub proof fn lemma_current_boundary_after_typing(cap: nat, typed: Seq<char>)
    requires
        cap > 0,
        typed.len() > 0,
    ensures
        current_after_typing(
            Seq::<char>::empty(),
            cap,
            BoundaryState::StartOfBuffer,
            BoundaryState::StartOfBuffer,
            typed,
        ) == if typed.len() == 1 {
            BoundaryState::StartOfBuffer
        } else {
            spec_classify(typed[typed.len() - 2])
        },
{
    let prev = typed.drop_last();
    let empty = Seq::<char>::empty();
    lemma_typing_keeps_the_last_characters(empty, cap, BoundaryState::StartOfBuffer, prev);
    assert(empty + prev =~= prev);
    if typed.len() == 1 {
        assert(prev.len() == 0);
    } else {
        let evicted = if prev.len() > cap { prev.len() - cap } else { 0int };
        let kept = prev.skip(evicted);
        assert(kept.len() > 0);
        assert(kept.last() == prev.last());
    }
}

} // verus!
