use std::sync::{Arc, Mutex};

use openmacro_lib::commands::prefs::Prefs;
use openmacro_lib::expand::{ClipboardReader, Resolver};
use openmacro_lib::form::{
    capture_foreground_with, center_in_work_area, focus_attachments, form_route, restore_foreground_with,
    restore_on_submit, FocusBackend, FocusError,
    ForegroundWindow, FormOutcome, NoopFocusBackend, FORM_HEIGHT, FORM_WIDTH,
};
use openmacro_lib::store::{Snippet, VarDecl, VarKind};

#[derive(Default)]
struct StubClipboard;

impl ClipboardReader for StubClipboard {
    fn read_text(&mut self) -> Option<String> {
        None
    }
}

#[derive(Default, Clone)]
struct MockFocusBackend {
    captured: Arc<Mutex<Option<ForegroundWindow>>>,
    restored: Arc<Mutex<Vec<ForegroundWindow>>>,
}

impl MockFocusBackend {
    fn with_capture(hwnd: ForegroundWindow) -> Self {
        Self { captured: Arc::new(Mutex::new(Some(hwnd))), restored: Arc::default() }
    }

    fn restored(&self) -> Vec<ForegroundWindow> {
        self.restored.lock().unwrap().clone()
    }
}

impl FocusBackend for MockFocusBackend {
    fn capture_foreground(&mut self) -> Option<ForegroundWindow> {
        *self.captured.lock().unwrap()
    }

    fn restore_foreground(&mut self, hwnd: ForegroundWindow) -> Result<(), FocusError> {
        self.restored.lock().unwrap().push(hwnd);
        Ok(())
    }
}

fn snippet(replace: &str, vars: Vec<VarDecl>) -> Snippet {
    Snippet {
        id: "test::snippet".to_string(),
        trigger: ";sig".to_string(),
        raw_trigger: ";sig".to_string(),
        trigger_literal: false,
        replace: replace.to_string(),
        vars,
        source_file: "test.yaml".to_string(),
    }
}

#[test]
fn capture_foreground_returns_registered_value() {
    let mut focus = MockFocusBackend::with_capture(ForegroundWindow(42));

    let captured = capture_foreground_with(&mut focus);

    assert_eq!(captured, Some(ForegroundWindow(42)));
}

#[test]
fn form_values_overlay_produces_resolved_text() {
    let snippet = snippet(
        "Hello {{name}}",
        vec![VarDecl {
            name: "name".to_string(),
            kind: VarKind::Form,
            label: Some("Name".to_string()),
            default: Some("default".to_string()),
            required: true,
            options: Vec::new(),
            format: None,
            cmd: Vec::new(),
            timeout_ms: None,
            confirm: false,
        }],
    );
    let mut clipboard = StubClipboard;
    let values = vec![("name".to_string(), "Ada".to_string())];
    let prefs = Prefs::default();

    let resolved = Resolver::new(&prefs).resolve(&snippet, &mut clipboard, Some(&values)).unwrap();

    assert_eq!(resolved.text, "Hello Ada");
}

#[test]
fn form_route_percent_encodes_snippet_ids() {
    assert_eq!(
        form_route("folder/snippet:hi snowman \u{2603}"),
        "/form/folder%2Fsnippet%3Ahi%20snowman%20%E2%98%83"
    );
}

#[test]
fn restore_happens_only_after_submit() {
    let mut focus = MockFocusBackend::with_capture(ForegroundWindow(77));

    restore_on_submit(&mut focus, ForegroundWindow(11), &FormOutcome::Cancelled).unwrap();
    assert!(focus.restored().is_empty());

    let submitted = FormOutcome::Submitted(vec![("name".to_string(), "Ada".to_string())]);
    restore_on_submit(&mut focus, ForegroundWindow(77), &submitted).unwrap();
    assert_eq!(focus.restored(), vec![ForegroundWindow(77)]);
}

#[test]
fn noop_focus_backend_sees_no_window() {
    assert_eq!(capture_foreground_with(&mut NoopFocusBackend::new()), None);
}

#[test]
fn form_window_is_centred_in_the_work_area() {
    assert_eq!(center_in_work_area(0, 0, 1920, 1040, FORM_WIDTH, FORM_HEIGHT), (760, 400));
    assert_eq!(center_in_work_area(-1920, 0, 0, 1080, 400, 240), (-1160, 420));
    // A window wider than the area starts before its left edge, rounded toward zero.
    assert_eq!(center_in_work_area(0, 0, 301, 100, 400, 100), (-49, 0));
}

#[test]
fn focus_retry_joins_only_other_known_threads() {
    assert_eq!(focus_attachments(7, 9, 1), (true, true));
    assert_eq!(focus_attachments(0, 9, 1), (false, true));
    assert_eq!(focus_attachments(7, 7, 1), (true, false));
    assert_eq!(focus_attachments(1, 1, 1), (false, false));
    assert_eq!(focus_attachments(7, 0, 1), (true, false));
}

#[test]
fn restore_foreground_with_asks_the_backend_once_for_that_window() {
    let mut focus = MockFocusBackend::with_capture(ForegroundWindow(5));
    assert_eq!(restore_foreground_with(&mut focus, ForegroundWindow(9)), Ok(()));
    assert_eq!(focus.restored(), vec![ForegroundWindow(9)]);
}
