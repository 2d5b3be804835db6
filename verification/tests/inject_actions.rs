use std::sync::{Arc, Mutex};
use std::time::Duration;

use openmacro_lib::expand::ClipboardReader;
use openmacro_lib::inject::clipboard::{clipboard_text_formats, decode_utf16_bytes};
use openmacro_lib::inject::sendinput::{
    events_for_actions, KeyEvent, KeyEventSender, WindowsKeyboardSink, MAX_INPUTS_PER_CALL,
};
use openmacro_lib::inject::{
    ClipboardBackend, ClipboardFormat, ClipboardPasteResult,
    ClipboardSnapshot, InjectError, InjectPlan, Injector, KeyboardAction, KeyboardSink,
};

#[derive(Default)]
struct MockSink {
    actions: Vec<KeyboardAction>,
}

impl KeyboardSink for MockSink {
    fn send(&mut self, action: KeyboardAction) {
        self.actions.push(action);
    }
}

#[derive(Clone)]
struct RecordingClipboardBackend {
    log: Arc<Mutex<Vec<String>>>,
}

impl ClipboardReader for RecordingClipboardBackend {
    fn read_text(&mut self) -> Option<String> {
        None
    }
}

impl ClipboardBackend for RecordingClipboardBackend {
    fn paste<K: KeyboardSink>(&mut self, sink: &mut K, text: &str, _timeout: Duration) -> ClipboardPasteResult {
        self.log.lock().unwrap().push(format!("set:{text}"));
        sink.send(KeyboardAction::Paste(text.to_string()));
        self.log.lock().unwrap().push("restore".to_string());
        ClipboardPasteResult::Pasted
    }
}

struct RestoreFailingClipboardBackend;

impl ClipboardReader for RestoreFailingClipboardBackend {
    fn read_text(&mut self) -> Option<String> {
        None
    }
}

impl ClipboardBackend for RestoreFailingClipboardBackend {
    fn paste<K: KeyboardSink>(&mut self, sink: &mut K, text: &str, _timeout: Duration) -> ClipboardPasteResult {
        sink.send(KeyboardAction::Paste(text.to_string()));
        ClipboardPasteResult::PastedRestoreFailed(InjectError::new("restore failed"))
    }
}

struct FailingClipboardBackend;

impl ClipboardReader for FailingClipboardBackend {
    fn read_text(&mut self) -> Option<String> {
        None
    }
}

impl ClipboardBackend for FailingClipboardBackend {
    fn paste<K: KeyboardSink>(&mut self, _sink: &mut K, _text: &str, _timeout: Duration) -> ClipboardPasteResult {
        ClipboardPasteResult::Failed(InjectError::new("timed out acquiring clipboard"))
    }
}

#[test]
fn mod_injector_sends_backspace_then_text_with_mocked_sink() {
    let sink = MockSink::default();
    let mut injector = Injector::new_with_sink(sink);
    injector
        .inject(InjectPlan {
            backspaces: 3,
            text: "ok".to_string(),
            caret_left: 2,
            max_clipboard_bytes: 4_096,
            clipboard_timeout: Duration::from_millis(50),
        })
        .unwrap();

    let actions = &injector.sink().actions;
    assert_eq!(
        actions,
        &[
            KeyboardAction::Backspace,
            KeyboardAction::Backspace,
            KeyboardAction::Backspace,
            KeyboardAction::Unicode('o'),
            KeyboardAction::Unicode('k'),
            KeyboardAction::LeftArrow,
            KeyboardAction::LeftArrow,
        ]
    );
}

#[test]
fn injector_uses_unicode_for_500_ascii_chars() {
    let sink = MockSink::default();
    let mut injector = Injector::new_with_sink(sink);
    let text = "a".repeat(500);
    injector
        .inject(InjectPlan {
            backspaces: 0,
            text,
            caret_left: 0,
            max_clipboard_bytes: 4_096,
            clipboard_timeout: Duration::from_millis(50),
        })
        .unwrap();

    let actions = &injector.sink().actions;
    assert_eq!(actions.len(), 500);
    assert!(actions.iter().all(|action| matches!(action, KeyboardAction::Unicode('a'))));
}

#[test]
fn injector_sends_backspaces_before_clipboard_paste_and_restores_afterward() {
    let log = Arc::new(Mutex::new(Vec::new()));
    let sink = MockSink::default();
    let clipboard = RecordingClipboardBackend { log: Arc::clone(&log) };
    let mut injector = Injector::new_with_parts(sink, clipboard);
    let text = "a".repeat(3000);

    injector
        .inject(InjectPlan {
            backspaces: 2,
            text: text.clone(),
            caret_left: 1,
            max_clipboard_bytes: 4_096,
            clipboard_timeout: Duration::from_millis(50),
        })
        .unwrap();

    assert_eq!(
        injector.sink().actions,
        vec![
            KeyboardAction::Backspace,
            KeyboardAction::Backspace,
            KeyboardAction::Paste(text),
            KeyboardAction::LeftArrow,
        ]
    );
    assert_eq!(
        log.lock().unwrap().as_slice(),
        &[format!("set:{}", "a".repeat(3000)), "restore".to_string()]
    );
}

#[test]
fn injector_does_not_fallback_to_unicode_after_post_paste_restore_failure() {
    let sink = MockSink::default();
    let clipboard = RestoreFailingClipboardBackend;
    let mut injector = Injector::new_with_parts(sink, clipboard);
    let text = "a".repeat(3000);

    injector
        .inject(InjectPlan {
            backspaces: 1,
            text: text.clone(),
            caret_left: 0,
            max_clipboard_bytes: 4_096,
            clipboard_timeout: Duration::from_millis(50),
        })
        .unwrap();

    assert_eq!(injector.sink().actions, vec![KeyboardAction::Backspace, KeyboardAction::Paste(text)]);
}

#[test]
fn injector_types_text_when_clipboard_fails_before_pasting() {
    let sink = MockSink::default();
    let mut injector = Injector::new_with_parts(sink, FailingClipboardBackend);
    let text = "b".repeat(2049);

    injector
        .inject(InjectPlan {
            backspaces: 0,
            text: text.clone(),
            caret_left: 0,
            max_clipboard_bytes: 4_096,
            clipboard_timeout: Duration::from_millis(50),
        })
        .unwrap();

    assert_eq!(injector.sink().actions.len(), 2049);
    assert!(injector.sink().actions.iter().all(|a| *a == KeyboardAction::Unicode('b')));
}

#[test]
fn injector_types_text_over_the_byte_limit() {
    let log = Arc::new(Mutex::new(Vec::new()));
    let clipboard = RecordingClipboardBackend { log: Arc::clone(&log) };
    let mut injector = Injector::new_with_parts(MockSink::default(), clipboard);
    // 2100 characters of two bytes each: past the threshold and past 4096 bytes.
    let text = "é".repeat(2100);

    injector
        .inject(InjectPlan {
            backspaces: 0,
            text,
            caret_left: 0,
            max_clipboard_bytes: 4_096,
            clipboard_timeout: Duration::from_millis(50),
        })
        .unwrap();

    assert_eq!(injector.sink().actions.len(), 2100);
    assert!(log.lock().unwrap().is_empty());
}

#[derive(Default)]
struct RecordingSender {
    calls: Vec<Vec<KeyEvent>>,
    pauses: Vec<u64>,
}

impl KeyEventSender for RecordingSender {
    fn send_inputs(&mut self, events: &[KeyEvent]) {
        self.calls.push(events.to_vec());
    }

    fn pause(&mut self, millis: u64) {
        self.pauses.push(millis);
    }
}

fn press(vk: u16) -> [KeyEvent; 2] {
    [
        KeyEvent { vk, scan: 0, unicode: false, key_up: false },
        KeyEvent { vk, scan: 0, unicode: false, key_up: true },
    ]
}

#[test]
fn key_events_for_each_action_kind() {
    let events = events_for_actions(&[
        KeyboardAction::Backspace,
        KeyboardAction::Unicode('\u{1F600}'),
        KeyboardAction::Paste("x".to_string()),
    ]);
    let mut expected = press(0x08).to_vec();
    for unit in [0xD83Du16, 0xDE00u16] {
        expected.push(KeyEvent { vk: 0, scan: unit, unicode: true, key_up: false });
        expected.push(KeyEvent { vk: 0, scan: unit, unicode: true, key_up: true });
    }
    expected.push(KeyEvent { vk: 0x11, scan: 0, unicode: false, key_up: false });
    expected.push(KeyEvent { vk: 0x56, scan: 0, unicode: false, key_up: false });
    expected.push(KeyEvent { vk: 0x56, scan: 0, unicode: false, key_up: true });
    expected.push(KeyEvent { vk: 0x11, scan: 0, unicode: false, key_up: true });
    assert_eq!(events, expected);
}

#[test]
fn windows_sink_chunks_batches() {
    let mut sink = WindowsKeyboardSink::new(RecordingSender::default());
    let actions = vec![KeyboardAction::LeftArrow; 200];
    sink.send_batch(&actions);

    let calls = &sink.sender().calls;
    assert_eq!(calls.len(), 2);
    assert_eq!(calls[0].len(), MAX_INPUTS_PER_CALL);
    assert_eq!(calls[1].len(), 400 - MAX_INPUTS_PER_CALL);
    assert_eq!(calls[0][0], press(0x25)[0]);
}

#[test]
fn windows_sink_sends_one_call_per_utf16_unit() {
    let mut sink = WindowsKeyboardSink::new(RecordingSender::default());
    sink.send(KeyboardAction::Unicode('\u{1F600}'));
    sink.send(KeyboardAction::Backspace);
    sink.settle();

    let sender = sink.sender();
    assert_eq!(sender.calls.len(), 3);
    assert_eq!(sender.calls[0][0].scan, 0xD83D);
    assert_eq!(sender.calls[1][0].scan, 0xDE00);
    assert_eq!(sender.calls[2], press(0x08).to_vec());
    assert_eq!(sender.pauses, vec![5]);
}

#[test]
fn clipboard_text_formats_hold_utf16_then_ansi() {
    let formats = clipboard_text_formats("hé");
    assert_eq!(formats.len(), 2);
    assert_eq!(formats[0].format, 13);
    assert_eq!(formats[0].bytes, vec![0x68, 0x00, 0xE9, 0x00, 0x00, 0x00]);
    assert_eq!(formats[1].format, 1);
    assert_eq!(formats[1].bytes, vec![0x68, 0xC3, 0xA9, 0x00]);
}

#[test]
fn snapshot_text_reads_first_unicode_entry() {
    let snapshot = ClipboardSnapshot {
        formats: vec![
            ClipboardFormat { format: 1, bytes: vec![0x41, 0x00] },
            ClipboardFormat { format: 13, bytes: vec![0x68, 0x00, 0x69, 0x00, 0x00, 0x00, 0x7A, 0x00] },
        ],
    };
    assert_eq!(snapshot.text_content().as_deref(), Some("hi"));

    let unpaired = ClipboardSnapshot {
        formats: vec![ClipboardFormat { format: 13, bytes: vec![0x3D, 0xD8] }],
    };
    assert_eq!(unpaired.text_content(), None);

    let none = ClipboardSnapshot { formats: vec![] };
    assert_eq!(none.text_content(), None);
}

#[test]
fn clipboard_text_decodes_surrogate_pairs_and_stops_at_the_first_nul() {
    let bytes: Vec<u8> = vec![0x61, 0x00, 0x3D, 0xD8, 0x00, 0xDE, 0x00, 0x00, 0x62, 0x00];
    assert_eq!(decode_utf16_bytes(&bytes).as_deref(), Some("a\u{1F600}"));
    let reversed: Vec<u8> = vec![0x00, 0xDE, 0x3D, 0xD8];
    assert_eq!(decode_utf16_bytes(&reversed), None);
}
