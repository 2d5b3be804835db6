use openmacro_lib::engine::RuntimeFlags;
use openmacro_lib::hook::{
    decide_keydown_event, global_state_guard, handle_keydown_decision, inject_foreground_change,
    inject_foreground_window_event, is_confirm_armed, is_denylisted, is_denylisted_process,
    set_confirm_armed, should_ignore_event, ConfirmKey, EventQueue, HookEvent, KeydownDecision,
    ResetCause, LLKHF_INJECTED_FLAG,
};
use openmacro_lib::hook::thread::process_keydown;
use openmacro_lib::inject::sendinput::INJECTED_MARKER;
use openmacro_lib::matcher::{classify_boundary_char, BoundaryState, MatchBuffer};

const VK_BACK: u32 = 0x08;
const VK_TAB: u32 = 0x09;
const VK_RETURN: u32 = 0x0D;
const VK_SHIFT: u32 = 0x10;
const VK_CAPITAL: u32 = 0x14;
const VK_PRIOR: u32 = 0x21;
const VK_NEXT: u32 = 0x22;
const VK_END: u32 = 0x23;
const VK_HOME: u32 = 0x24;
const VK_LEFT: u32 = 0x25;

/// A bounded queue standing in for the hook's event ring.
struct BoundedQueue {
    capacity: usize,
    items: Vec<HookEvent>,
}

impl BoundedQueue {
    fn new(capacity: usize) -> Self {
        BoundedQueue { capacity, items: Vec::new() }
    }

    fn pop(&mut self) -> Option<HookEvent> {
        if self.items.is_empty() {
            None
        } else {
            Some(self.items.remove(0))
        }
    }
}

impl EventQueue for BoundedQueue {
    fn push(&mut self, event: HookEvent) -> bool {
        if self.items.len() < self.capacity {
            self.items.push(event);
            true
        } else {
            false
        }
    }
}

fn fresh_flags() -> RuntimeFlags {
    let mut flags = RuntimeFlags::new();
    global_state_guard(&mut flags);
    flags
}

#[test]
fn winevent_foreground_change_to_denylisted_process_clears_buffer_and_sets_gate() {
    let mut flags = fresh_flags();
    let mut buffer = MatchBuffer::new(64);
    buffer.push_char(';');
    buffer.push_char('s');

    let event = inject_foreground_change(&mut flags, &mut buffer, "ConSent.exe");

    assert_eq!(event, HookEvent::Reset(ResetCause::ForegroundChange));
    assert_eq!(buffer.as_str(), "");
    assert!(is_denylisted(&flags));
}

#[test]
fn winevent_non_denylisted_foreground_change_clears_buffer_without_gate() {
    let mut flags = fresh_flags();
    let mut buffer = MatchBuffer::new(64);
    buffer.push_char(';');
    buffer.push_char('x');

    let event = inject_foreground_change(&mut flags, &mut buffer, "notepad.exe");

    assert_eq!(event, HookEvent::Reset(ResetCause::ForegroundChange));
    assert_eq!(buffer.as_str(), "");
    assert!(!is_denylisted(&flags));
}

#[test]
fn global_state_guard_resets_suspend_flag() {
    let mut flags = RuntimeFlags::new();
    flags.suspend = true;

    global_state_guard(&mut flags);

    assert!(!flags.suspend);
}

#[test]
fn repeated_foreground_event_for_same_window_is_ignored() {
    let mut flags = fresh_flags();

    let first = inject_foreground_window_event(&mut flags, 42, |_| Some("keepassxc.exe".to_string()));
    let second = inject_foreground_window_event(&mut flags, 42, |_| Some("notepad.exe".to_string()));

    assert_eq!(first, Some(HookEvent::Reset(ResetCause::ForegroundChange)));
    assert!(second.is_none());
    assert!(is_denylisted(&flags));
}

#[test]
fn missing_process_name_fails_closed_without_panicking() {
    let mut flags = fresh_flags();

    let event = inject_foreground_window_event(&mut flags, 7, |_| None);

    assert_eq!(event, Some(HookEvent::Reset(ResetCause::ForegroundChange)));
    assert!(!is_denylisted(&flags));
}

#[test]
fn zero_window_handle_is_ignored() {
    let mut flags = fresh_flags();

    let event = inject_foreground_window_event(&mut flags, 0, |_| Some("consent.exe".to_string()));

    assert!(event.is_none());
    assert!(!is_denylisted(&flags));
    assert_eq!(flags.last_foreground_hwnd, 0);
}

#[test]
fn denylist_ignores_ascii_case_only() {
    assert!(is_denylisted_process("KeePass.EXE"));
    assert!(is_denylisted_process("1Password.exe"));
    assert!(!is_denylisted_process("keepass"));
    assert!(!is_denylisted_process(""));
}

#[test]
fn should_ignore_event_logic() {
    assert!(
        should_ignore_event(false, LLKHF_INJECTED_FLAG, INJECTED_MARKER),
        "marked injected events should be ignored when suspend is false"
    );
    assert!(
        should_ignore_event(true, LLKHF_INJECTED_FLAG, INJECTED_MARKER),
        "marked injected events should be ignored when suspend is true"
    );
    assert!(
        !should_ignore_event(false, LLKHF_INJECTED_FLAG, 0),
        "unmarked injected events should not be ignored when suspend is false"
    );
    assert!(
        !should_ignore_event(true, LLKHF_INJECTED_FLAG, 0),
        "unmarked injected events should not be ignored when suspend is true"
    );
    assert!(
        !should_ignore_event(false, 0, INJECTED_MARKER),
        "non-injected events with marker should not be ignored"
    );
    assert!(
        !should_ignore_event(false, 0, 0),
        "non-injected events without marker should not be ignored"
    );
}

#[test]
fn confirm_keys_are_swallowed_only_when_armed() {
    assert_eq!(
        decide_keydown_event(VK_TAB, true),
        KeydownDecision::SwallowAndEmit(HookEvent::Confirm(ConfirmKey::Tab))
    );
    assert_eq!(
        decide_keydown_event(VK_RETURN, true),
        KeydownDecision::SwallowAndEmit(HookEvent::Confirm(ConfirmKey::Enter))
    );
    assert_eq!(decide_keydown_event(VK_TAB, false), KeydownDecision::ForwardOnly);
    assert_eq!(decide_keydown_event(VK_RETURN, false), KeydownDecision::ForwardToTranslate);
}

#[test]
fn modifier_only_keys_do_not_emit_or_disarm() {
    assert_eq!(decide_keydown_event(VK_SHIFT, false), KeydownDecision::ForwardToTranslate);
    assert_eq!(decide_keydown_event(VK_SHIFT, true), KeydownDecision::ForwardToTranslate);
}

#[test]
fn navigation_keys_emit_reset_events() {
    assert_eq!(
        decide_keydown_event(VK_LEFT, false),
        KeydownDecision::Emit(HookEvent::Reset(ResetCause::ArrowKey))
    );
    assert_eq!(
        decide_keydown_event(VK_HOME, false),
        KeydownDecision::Emit(HookEvent::Reset(ResetCause::Home))
    );
    assert_eq!(
        decide_keydown_event(VK_END, false),
        KeydownDecision::Emit(HookEvent::Reset(ResetCause::End))
    );
    assert_eq!(
        decide_keydown_event(VK_PRIOR, false),
        KeydownDecision::Emit(HookEvent::Reset(ResetCause::PageUp))
    );
    assert_eq!(
        decide_keydown_event(VK_NEXT, false),
        KeydownDecision::Emit(HookEvent::Reset(ResetCause::PageDown))
    );
}

#[test]
fn backspace_and_caps_emit_their_events() {
    assert_eq!(decide_keydown_event(VK_BACK, true), KeydownDecision::Emit(HookEvent::Backspace));
    assert_eq!(
        decide_keydown_event(VK_CAPITAL, false),
        KeydownDecision::Emit(HookEvent::Reset(ResetCause::CapsToggle))
    );
}

#[test]
fn translated_char_disarms_before_later_tab_decision() {
    let mut flags = fresh_flags();
    let mut queue = BoundedQueue::new(4);
    set_confirm_armed(&mut flags, true);

    let swallowed = handle_keydown_decision(
        &mut flags,
        &mut queue,
        KeydownDecision::ForwardToTranslate,
        Some('x'),
    );

    assert!(!swallowed);
    assert!(!is_confirm_armed(&flags));
    assert_eq!(queue.pop(), Some(HookEvent::Char('x')));
    assert_eq!(decide_keydown_event(VK_TAB, is_confirm_armed(&flags)), KeydownDecision::ForwardOnly);
}

#[test]
fn backspace_and_navigation_disarm_before_later_tab_decision() {
    let mut flags = fresh_flags();
    for (decision, expected) in [
        (KeydownDecision::Emit(HookEvent::Backspace), HookEvent::Backspace),
        (
            KeydownDecision::Emit(HookEvent::Reset(ResetCause::ArrowKey)),
            HookEvent::Reset(ResetCause::ArrowKey),
        ),
    ] {
        let mut queue = BoundedQueue::new(4);
        set_confirm_armed(&mut flags, true);

        let swallowed = handle_keydown_decision(&mut flags, &mut queue, decision, None);

        assert!(!swallowed);
        assert!(!is_confirm_armed(&flags));
        assert_eq!(queue.pop(), Some(expected));
        assert_eq!(decide_keydown_event(VK_TAB, is_confirm_armed(&flags)), KeydownDecision::ForwardOnly);
    }
}

#[test]
fn modifier_only_forwarding_does_not_disarm() {
    let mut flags = fresh_flags();
    let mut queue = BoundedQueue::new(4);
    set_confirm_armed(&mut flags, true);

    let swallowed =
        handle_keydown_decision(&mut flags, &mut queue, KeydownDecision::ForwardToTranslate, None);

    assert!(!swallowed);
    assert!(is_confirm_armed(&flags));
    assert_eq!(queue.pop(), None);
    assert_eq!(
        decide_keydown_event(VK_TAB, is_confirm_armed(&flags)),
        KeydownDecision::SwallowAndEmit(HookEvent::Confirm(ConfirmKey::Tab))
    );
}

#[test]
fn confirm_is_swallowed_only_when_queue_accepts_event() {
    let mut flags = fresh_flags();

    let mut queue = BoundedQueue::new(1);
    set_confirm_armed(&mut flags, true);
    assert!(handle_keydown_decision(
        &mut flags,
        &mut queue,
        KeydownDecision::SwallowAndEmit(HookEvent::Confirm(ConfirmKey::Tab)),
        None,
    ));
    assert_eq!(queue.pop(), Some(HookEvent::Confirm(ConfirmKey::Tab)));

    let mut queue = BoundedQueue::new(1);
    assert!(queue.push(HookEvent::Char('a')));
    set_confirm_armed(&mut flags, true);
    assert!(!handle_keydown_decision(
        &mut flags,
        &mut queue,
        KeydownDecision::SwallowAndEmit(HookEvent::Confirm(ConfirmKey::Enter)),
        None,
    ));
    assert_eq!(queue.pop(), Some(HookEvent::Char('a')));
    assert_eq!(queue.pop(), None);
}

#[test]
fn successful_confirm_queue_clears_armed_immediately() {
    let mut flags = fresh_flags();
    let mut queue = BoundedQueue::new(2);
    set_confirm_armed(&mut flags, true);

    let swallowed = handle_keydown_decision(
        &mut flags,
        &mut queue,
        KeydownDecision::SwallowAndEmit(HookEvent::Confirm(ConfirmKey::Tab)),
        None,
    );

    assert!(swallowed);
    assert!(!is_confirm_armed(&flags));
    assert_eq!(queue.pop(), Some(HookEvent::Confirm(ConfirmKey::Tab)));
}

#[test]
fn failed_confirm_queue_clears_armed_and_does_not_swallow() {
    let mut flags = fresh_flags();
    let mut queue = BoundedQueue::new(1);
    assert!(queue.push(HookEvent::Char('a')));
    set_confirm_armed(&mut flags, true);

    let swallowed = handle_keydown_decision(
        &mut flags,
        &mut queue,
        KeydownDecision::SwallowAndEmit(HookEvent::Confirm(ConfirmKey::Enter)),
        None,
    );

    assert!(!swallowed);
    assert!(!is_confirm_armed(&flags));
    assert_eq!(queue.pop(), Some(HookEvent::Char('a')));
    assert_eq!(queue.pop(), None);
}

#[test]
fn later_tab_decision_sees_unarmed_after_successful_confirm() {
    let mut flags = fresh_flags();
    let mut queue = BoundedQueue::new(2);
    set_confirm_armed(&mut flags, true);

    assert!(handle_keydown_decision(
        &mut flags,
        &mut queue,
        KeydownDecision::SwallowAndEmit(HookEvent::Confirm(ConfirmKey::Enter)),
        None,
    ));

    assert!(!is_confirm_armed(&flags));
    assert_eq!(queue.pop(), Some(HookEvent::Confirm(ConfirmKey::Enter)));
    assert_eq!(decide_keydown_event(VK_TAB, is_confirm_armed(&flags)), KeydownDecision::ForwardOnly);
}

#[test]
fn keydown_translates_only_when_asked_and_swallows_only_taken_confirms() {
    let mut flags = fresh_flags();
    let mut queue = BoundedQueue::new(1);
    // A letter is translated once and its character reported, never swallowed.
    let mut calls = 0;
    let swallowed = process_keydown(&mut flags, &mut queue, 0x41, 0, 0, || {
        calls += 1;
        (1, 'a' as u16)
    });
    assert!(!swallowed);
    assert_eq!(calls, 1);
    assert_eq!(queue.pop(), Some(HookEvent::Char('a')));

    // An armed Tab is swallowed while the queue takes it...
    set_confirm_armed(&mut flags, true);
    assert!(process_keydown(&mut flags, &mut queue, VK_TAB, 0, 0, || panic!("not translated")));
    // ...and passed on when the queue is full.
    set_confirm_armed(&mut flags, true);
    assert!(!process_keydown(&mut flags, &mut queue, VK_TAB, 0, 0, || panic!("not translated")));

    // Our own injected keys are passed on untouched.
    let mut empty = BoundedQueue::new(4);
    assert!(!process_keydown(&mut flags, &mut empty, 0x41, LLKHF_INJECTED_FLAG, INJECTED_MARKER, || panic!("not translated")));
    assert!(empty.pop().is_none());
}

#[test]
fn foreground_change_returns_both_boundaries_to_start_of_buffer() {
    let mut flags = fresh_flags();
    let mut buffer = MatchBuffer::new(2);
    buffer.push_char('a');
    buffer.push_char(' ');
    buffer.push_char('b');
    assert_eq!(buffer.boundary_state(), BoundaryState::Whitespace);
    assert_eq!(buffer.leading_boundary_state(), BoundaryState::Other);

    inject_foreground_change(&mut flags, &mut buffer, "notepad.exe");

    assert_eq!(buffer.boundary_state(), BoundaryState::StartOfBuffer);
    assert_eq!(buffer.leading_boundary_state(), BoundaryState::StartOfBuffer);
}

#[test]
fn boundary_before_newest_char_is_the_class_of_the_char_typed_before_it() {
    let mut buffer = MatchBuffer::new(3);
    buffer.push_char('x');
    assert_eq!(buffer.boundary_state(), BoundaryState::StartOfBuffer);
    buffer.push_char(',');
    assert_eq!(buffer.boundary_state(), BoundaryState::Other);
    buffer.push_char('y');
    assert_eq!(buffer.boundary_state(), BoundaryState::Punctuation);
    buffer.push_char(' ');
    assert_eq!(buffer.boundary_state(), BoundaryState::Other);
    buffer.push_char('q');
    assert_eq!(buffer.boundary_state(), BoundaryState::Whitespace);
    assert_eq!(buffer.as_str(), "y q");
    assert_eq!(buffer.leading_boundary_state(), BoundaryState::Punctuation);
}

#[test]
fn unicode_spaces_are_whitespace_boundaries_and_zero_width_space_is_not() {
    assert_eq!(classify_boundary_char('\u{3000}'), BoundaryState::Whitespace);
    assert_eq!(classify_boundary_char('\u{85}'), BoundaryState::Whitespace);
    assert_eq!(classify_boundary_char('\u{202F}'), BoundaryState::Whitespace);
    assert_eq!(classify_boundary_char('\u{200B}'), BoundaryState::Other);
    assert_eq!(classify_boundary_char('\u{2014}'), BoundaryState::Punctuation);
}
