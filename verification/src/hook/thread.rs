//! The decisions of the keyboard-hook thread: which key-downs to ignore,
//! which become events, and which are swallowed.

use vstd::prelude::*;

use crate::engine::RuntimeFlags;
use crate::inject::sendinput::INJECTED_MARKER;

use super::{ConfirmKey, HookEvent, ResetCause};

verus! {

/// The `KBDLLHOOKSTRUCT` flag of injected input.
pub const LLKHF_INJECTED_FLAG: u32 = 0x10;

/// Virtual key codes the hook reacts to.
pub const VK_BACK: u32 = 0x08;
pub const VK_TAB: u32 = 0x09;
pub const VK_RETURN: u32 = 0x0D;
pub const VK_CAPITAL: u32 = 0x14;
pub const VK_PRIOR: u32 = 0x21;
pub const VK_NEXT: u32 = 0x22;
pub const VK_END: u32 = 0x23;
pub const VK_HOME: u32 = 0x24;
pub const VK_LEFT: u32 = 0x25;
pub const VK_UP: u32 = 0x26;
pub const VK_RIGHT: u32 = 0x27;
pub const VK_DOWN: u32 = 0x28;

/// Sets the armed-confirm switch, leaving the others alone.
pub fn set_confirm_armed(flags: &mut RuntimeFlags, value: bool)
    ensures
        *final(flags) == (RuntimeFlags { confirm_armed: value, ..*old(flags) }),
{
    flags.confirm_armed = value;
}

/// Whether a matched trigger waits for Tab or Enter.
pub fn is_confirm_armed(flags: &RuntimeFlags) -> (r: bool)
    ensures
        r == flags.confirm_armed,
{
    flags.confirm_armed
}

/// Input this application injected itself (flagged injected and carrying
/// the marker) is ignored, whatever the suspend switch says.
pub fn should_ignore_event(suspend: bool, flags: u32, dw_extra_info: usize) -> (r: bool)
    ensures
        r == ((flags & LLKHF_INJECTED_FLAG) != 0 && dw_extra_info == INJECTED_MARKER),
{
    (flags & LLKHF_INJECTED_FLAG) != 0 && dw_extra_info == INJECTED_MARKER
}

/// What to do with a key-down.
#[derive(Debug, Clone, Copy, PartialEq, Eq, Structural)]
pub enum KeydownDecision {
    /// Pass the key on, report nothing.
    ForwardOnly,
    /// Pass the key on and report the character it types, if any.
    ForwardToTranslate,
    /// Pass the key on and report the event.
    Emit(HookEvent),
    /// Report the event and, if it was queued, keep the key from the application.
    SwallowAndEmit(HookEvent),
}

/// The decision for virtual key `vk_code`; `armed` says whether a trigger
/// waits for Tab or Enter.
pub open spec fn keydown_decision(vk_code: u32, armed: bool) -> KeydownDecision {
    if vk_code == VK_BACK {
        KeydownDecision::Emit(HookEvent::Backspace)
    } else if vk_code == VK_CAPITAL {
        KeydownDecision::Emit(HookEvent::Reset(ResetCause::CapsToggle))
    } else if vk_code == VK_LEFT || vk_code == VK_RIGHT || vk_code == VK_UP || vk_code == VK_DOWN {
        KeydownDecision::Emit(HookEvent::Reset(ResetCause::ArrowKey))
    } else if vk_code == VK_HOME {
        KeydownDecision::Emit(HookEvent::Reset(ResetCause::Home))
    } else if vk_code == VK_END {
        KeydownDecision::Emit(HookEvent::Reset(ResetCause::End))
    } else if vk_code == VK_PRIOR {
        KeydownDecision::Emit(HookEvent::Reset(ResetCause::PageUp))
    } else if vk_code == VK_NEXT {
        KeydownDecision::Emit(HookEvent::Reset(ResetCause::PageDown))
    } else if armed && vk_code == VK_TAB {
        KeydownDecision::SwallowAndEmit(HookEvent::Confirm(ConfirmKey::Tab))
    } else if armed && vk_code == VK_RETURN {
        KeydownDecision::SwallowAndEmit(HookEvent::Confirm(ConfirmKey::Enter))
    } else if vk_code == VK_TAB {
        KeydownDecision::ForwardOnly
    } else {
        KeydownDecision::ForwardToTranslate
    }
}

/// What a key-down must lead to, by key code: Backspace (0x08) reports a
/// backspace; Caps Lock (0x14) and the arrows (0x25 to 0x28), Home (0x24),
/// End (0x23), Page Up (0x21) and Page Down (0x22) clear the buffer, each
/// with its cause; Tab (0x09) and Enter (0x0D) confirm, and are kept from
/// the application, only when a trigger is armed; an unarmed Tab is passed
/// on without a character; any other key is passed on and translated.
pub open spec fn key_decision_law(vk_code: u32, armed: bool, d: KeydownDecision) -> bool {
    &&& vk_code == 0x08 ==> d == KeydownDecision::Emit(HookEvent::Backspace)
    &&& vk_code == 0x14 ==> d == KeydownDecision::Emit(HookEvent::Reset(ResetCause::CapsToggle))
    &&& (vk_code == 0x25 || vk_code == 0x26 || vk_code == 0x27 || vk_code == 0x28) ==> d
        == KeydownDecision::Emit(HookEvent::Reset(ResetCause::ArrowKey))
    &&& vk_code == 0x24 ==> d == KeydownDecision::Emit(HookEvent::Reset(ResetCause::Home))
    &&& vk_code == 0x23 ==> d == KeydownDecision::Emit(HookEvent::Reset(ResetCause::End))
    &&& vk_code == 0x21 ==> d == KeydownDecision::Emit(HookEvent::Reset(ResetCause::PageUp))
    &&& vk_code == 0x22 ==> d == KeydownDecision::Emit(HookEvent::Reset(ResetCause::PageDown))
    &&& vk_code == 0x09 ==> d == if armed {
        KeydownDecision::SwallowAndEmit(HookEvent::Confirm(ConfirmKey::Tab))
    } else {
        KeydownDecision::ForwardOnly
    }
    &&& vk_code == 0x0D ==> d == if armed {
        KeydownDecision::SwallowAndEmit(HookEvent::Confirm(ConfirmKey::Enter))
    } else {
        KeydownDecision::ForwardToTranslate
    }
    &&& !(vk_code == 0x08 || vk_code == 0x09 || vk_code == 0x0D || vk_code == 0x14 || (0x21 <= vk_code
        <= 0x28)) ==> d == KeydownDecision::ForwardToTranslate
}

/// Every key-down is decided as `key_decision_law` says: navigation keys
/// clear the buffer, confirm keys confirm only when armed, and everything
/// else is translated.
pub proof fn lemma_keydown_decisions(vk_code: u32, armed: bool)
    ensures
        key_decision_law(vk_code, armed, keydown_decision(vk_code, armed)),
{
}

/// Decides what to do with a key-down.
pub fn decide_keydown_event(vk_code: u32, armed: bool) -> (r: KeydownDecision)
    ensures
        r == keydown_decision(vk_code, armed),
        key_decision_law(vk_code, armed, r),
{
    proof {
        lemma_keydown_decisions(vk_code, armed);
    }
    if vk_code == VK_BACK {
        KeydownDecision::Emit(HookEvent::Backspace)
    } else if vk_code == VK_CAPITAL {
        KeydownDecision::Emit(HookEvent::Reset(ResetCause::CapsToggle))
    } else if vk_code == VK_LEFT || vk_code == VK_RIGHT || vk_code == VK_UP || vk_code == VK_DOWN {
        KeydownDecision::Emit(HookEvent::Reset(ResetCause::ArrowKey))
    } else if vk_code == VK_HOME {
        KeydownDecision::Emit(HookEvent::Reset(ResetCause::Home))
    } else if vk_code == VK_END {
        KeydownDecision::Emit(HookEvent::Reset(ResetCause::End))
    } else if vk_code == VK_PRIOR {
        KeydownDecision::Emit(HookEvent::Reset(ResetCause::PageUp))
    } else if vk_code == VK_NEXT {
        KeydownDecision::Emit(HookEvent::Reset(ResetCause::PageDown))
    } else if armed && vk_code == VK_TAB {
        KeydownDecision::SwallowAndEmit(HookEvent::Confirm(ConfirmKey::Tab))
    } else if armed && vk_code == VK_RETURN {
        KeydownDecision::SwallowAndEmit(HookEvent::Confirm(ConfirmKey::Enter))
    } else if vk_code == VK_TAB {
        KeydownDecision::ForwardOnly
    } else {
        KeydownDecision::ForwardToTranslate
    }
}

/// Where the hook thread queues events. `offered` is every event handed to
/// `push`, oldest first, and `answers` what `push` answered for each:
/// whether the queue took it.
pub trait EventQueue {
    closed spec fn offered(&self) -> Seq<HookEvent> {
        Seq::empty()
    }

    closed spec fn answers(&self) -> Seq<bool> {
        Seq::empty()
    }

    fn push(&mut self, event: HookEvent) -> (r: bool)
        ensures
            final(self).offered() == old(self).offered().push(event),
            final(self).answers() == old(self).answers().push(r),
    ;
}

/// The event a decision reports, given the character a translated key typed.
pub open spec fn decision_event(decision: KeydownDecision, translated_char: Option<char>) -> Option<HookEvent> {
    match decision {
        KeydownDecision::ForwardOnly => None,
        KeydownDecision::Emit(e) => Some(e),
        KeydownDecision::SwallowAndEmit(e) => Some(e),
        KeydownDecision::ForwardToTranslate => match translated_char {
            Some(c) => Some(HookEvent::Char(c)),
            None => None,
        },
    }
}

/// What carrying out `decision` does: with no event to report nothing
/// changes and the key is passed on; otherwise the event is offered to the
/// queue, the confirm key is disarmed, and the key is swallowed exactly when
/// it is a confirm key and the queue took the event.
pub open spec fn decision_handled(
    decision: KeydownDecision,
    translated_char: Option<char>,
    flags_before: RuntimeFlags,
    flags_after: RuntimeFlags,
    offered_before: Seq<HookEvent>,
    offered_after: Seq<HookEvent>,
    answers_before: Seq<bool>,
    answers_after: Seq<bool>,
    r: bool,
) -> bool {
    match decision_event(decision, translated_char) {
        None => offered_after == offered_before && answers_after == answers_before && flags_after
            == flags_before && !r,
        Some(e) => offered_after == offered_before.push(e) && answers_after.len() == answers_before.len()
            + 1 && answers_after.drop_last() =~= answers_before && flags_after == (RuntimeFlags {
            confirm_armed: false,
            ..flags_before
        }) && r == (decision is SwallowAndEmit && answers_after.last()),
    }
}

/// Carries out a decision: the reported event, if any, is offered to the
/// queue and disarms the confirm key. Answers whether the key is swallowed:
/// exactly for a confirm key that the queue took.
pub fn handle_keydown_decision<Q: EventQueue>(
    flags: &mut RuntimeFlags,
    producer: &mut Q,
    decision: KeydownDecision,
    translated_char: Option<char>,
) -> (r: bool)
    ensures
        decision_handled(
            decision,
            translated_char,
            *old(flags),
            *final(flags),
            old(producer).offered(),
            final(producer).offered(),
            old(producer).answers(),
            final(producer).answers(),
            r,
        ),
{
    match decision {
        KeydownDecision::ForwardOnly => false,
        KeydownDecision::Emit(event) => {
            let _ = emit_hook_event(flags, producer, event);
            false
        },
        KeydownDecision::SwallowAndEmit(event) => emit_hook_event(flags, producer, event),
        KeydownDecision::ForwardToTranslate => {
            if let Some(ch) = translated_char {
                let _ = emit_hook_event(flags, producer, HookEvent::Char(ch));
            }
            false
        },
    }
}

/// Every event disarms the confirm key.
fn emit_hook_event<Q: EventQueue>(flags: &mut RuntimeFlags, producer: &mut Q, event: HookEvent) -> (r: bool)
    ensures
        final(producer).offered() == old(producer).offered().push(event),
        final(producer).answers() == old(producer).answers().push(r),
        *final(flags) == (RuntimeFlags { confirm_armed: false, ..*old(flags) }),
{
    set_confirm_armed(flags, false);
    producer.push(event)
}


/// Tab and Enter are only swallowed while a trigger waits for them: no key
/// is swallowed when nothing is armed, and only Tab and Enter ever are.
pub proof fn lemma_swallow_only_when_armed(vk_code: u32, armed: bool)
    ensures
        keydown_decision(vk_code, armed) is SwallowAndEmit ==> armed && (vk_code == VK_TAB
            || vk_code == VK_RETURN),
{
}


/// Whether reporting `event` disarms the confirm key: every event does.
pub fn disarms_confirm_armed(event: HookEvent) -> (r: bool)
    ensures
        r,
{
    match event {
        HookEvent::Char(_) | HookEvent::Confirm(_) | HookEvent::Backspace | HookEvent::Reset(_) => true,
    }
}

/// What translating a key with the keyboard layout gave.
#[derive(Debug, Clone, Copy, PartialEq, Eq, Structural)]
pub enum TranslateOutcome {
    Char(char),
    DeadKey,
    NoChar,
}

/// Calls `char::from_u32`, which gives the character with code `u` when `u`
/// is a Unicode scalar value (not a surrogate, at most U+10FFFF) and
/// `None` otherwise.
#[verifier::external_body]
fn char_from_u32(u: u32) -> (r: Option<char>)
    ensures
        match r {
            Some(c) => c as u32 == u && (u < 0xD800 || (0xE000 <= u && u <= 0x10FFFF)),
            None => !(u < 0xD800 || (0xE000 <= u && u <= 0x10FFFF)),
        },
{
    char::from_u32(u)
}

/// The outcome of `ToUnicodeEx`: one unit written gives that character
/// (none for a lone surrogate), `-1` a dead key, anything else nothing.
pub fn translation_outcome(translated: i32, first_unit: u16) -> (r: TranslateOutcome)
    ensures
        translated == 1 && !(0xD800 <= first_unit && first_unit <= 0xDFFF) ==> (r matches TranslateOutcome::Char(c)
            && c as u32 == first_unit as u32),
        translated == 1 && 0xD800 <= first_unit && first_unit <= 0xDFFF ==> r == TranslateOutcome::NoChar,
        translated == -1 ==> r == TranslateOutcome::DeadKey,
        translated != 1 && translated != -1 ==> r == TranslateOutcome::NoChar,
{
    if translated == 1 {
        match char_from_u32(first_unit as u32) {
            Some(c) => TranslateOutcome::Char(c),
            None => TranslateOutcome::NoChar,
        }
    } else if translated == -1 {
        TranslateOutcome::DeadKey
    } else {
        TranslateOutcome::NoChar
    }
}


/// The character a key typed, given what translating it gave (the count
/// `ToUnicodeEx` returned and its first UTF-16 unit): one unit that is not a
/// surrogate types that character; anything else types none.
pub open spec fn typed_char(count: i32, unit: u16, c: Option<char>) -> bool {
    if count == 1 && !(0xD800 <= unit && unit <= 0xDFFF) {
        c matches Some(x) && x as u32 == unit as u32
    } else {
        c is None
    }
}

/// Handles one key-down in the hook: an event this program injected is
/// passed on untouched; otherwise the key is decided on, translated with
/// `translate` (only when the decision asks for it, once), and the decision
/// carried out. Answers whether the key is swallowed.
pub fn process_keydown<Q: EventQueue, F: FnOnce() -> (i32, u16)>(
    flags: &mut RuntimeFlags,
    producer: &mut Q,
    vk_code: u32,
    key_flags: u32,
    extra_info: usize,
    translate: F,
) -> (r: bool)
    requires
        translate.requires(()),
    ensures
        (key_flags & LLKHF_INJECTED_FLAG) != 0 && extra_info == INJECTED_MARKER ==> !r && *final(flags)
            == *old(flags) && final(producer).offered() == old(producer).offered()
            && final(producer).answers() == old(producer).answers(),
        !((key_flags & LLKHF_INJECTED_FLAG) != 0 && extra_info == INJECTED_MARKER) ==> {
            let decision = keydown_decision(vk_code, old(flags).confirm_armed);
            if decision is ForwardToTranslate {
                exists|out: (i32, u16), c: Option<char>|
                    #![trigger translate.ensures((), out), typed_char(out.0, out.1, c)]
                    translate.ensures((), out) && typed_char(out.0, out.1, c) && decision_handled(
                        decision,
                        c,
                        *old(flags),
                        *final(flags),
                        old(producer).offered(),
                        final(producer).offered(),
                        old(producer).answers(),
                        final(producer).answers(),
                        r,
                    )
            } else {
                decision_handled(
                    decision,
                    None,
                    *old(flags),
                    *final(flags),
                    old(producer).offered(),
                    final(producer).offered(),
                    old(producer).answers(),
                    final(producer).answers(),
                    r,
                )
            }
        },
{
    if should_ignore_event(flags.suspend, key_flags, extra_info) {
        return false;
    }
    let decision = decide_keydown_event(vk_code, flags.confirm_armed);
    match decision {
        KeydownDecision::ForwardToTranslate => {
            let out = translate();
            let translated = match translation_outcome(out.0, out.1) {
                TranslateOutcome::Char(c) => Some(c),
                _ => None,
            };
            assert(typed_char(out.0, out.1, translated));
            handle_keydown_decision(flags, producer, decision, translated)
        },
        _ => handle_keydown_decision(flags, producer, decision, None),
    }
}

} // verus!
