use openmacro_lib::commands::prefs::Prefs;
use openmacro_lib::engine::orchestrator::map_reset;
use openmacro_lib::engine::{
    is_paused, set_paused, toggle_paused, EngineStep, NoopNotifySink, Orchestrator, RuntimeFlags,
};
use std::cell::RefCell;
use std::sync::Mutex;

use openmacro_lib::expand::shell::{NoopShellBackend, ShellBackend, ShellError};
use openmacro_lib::expand::ResolveNotifySink;
use openmacro_lib::form::runner::{outcome_of, FormRunner};
use openmacro_lib::form::{
    FocusBackend, FocusError, FormError, FormOutcome, FormState, ForegroundWindow, NoopFocusBackend,
    NoopWindowSink,
};
use openmacro_lib::hook::{HookEvent, ResetCause};
use openmacro_lib::inject::{Injector, KeyboardAction, KeyboardSink};
use openmacro_lib::matcher::Reset;
use openmacro_lib::store::{Snippet, VarDecl, VarKind};

#[derive(Default)]
struct MockSink {
    actions: Vec<KeyboardAction>,
}

impl KeyboardSink for MockSink {
    fn send(&mut self, action: KeyboardAction) {
        self.actions.push(action);
    }
}

fn snippet(trigger: &str, replace: &str) -> Snippet {
    Snippet {
        id: format!("test::{trigger}"),
        trigger: trigger.to_string(),
        raw_trigger: trigger.to_string(),
        trigger_literal: false,
        replace: replace.to_string(),
        vars: Vec::new(),
        source_file: "test.yaml".to_string(),
    }
}

fn type_text(
    engine: &mut Orchestrator<MockSink, openmacro_lib::inject::MockClipboardBackend>,
    flags: &mut RuntimeFlags,
    text: &str,
) -> Vec<bool> {
    let prefs = Prefs::default();
    let mut focus = NoopFocusBackend::new();
    text.chars()
        .map(|c| {
            let step = engine
                .handle_event(flags, &prefs, &mut NoopNotifySink::new(), &mut NoopShellBackend::new(), &mut focus, HookEvent::Char(c))
                .ok()
                .unwrap();
            matches!(step, EngineStep::Injected)
        })
        .collect()
}

#[test]
fn pause_toggle_flips_state() {
    let mut flags = RuntimeFlags::new();
    assert!(!is_paused(&flags));
    assert!(toggle_paused(&mut flags));
    assert!(is_paused(&flags));
    assert!(!toggle_paused(&mut flags));
    set_paused(&mut flags, true);
    assert!(is_paused(&flags));
}

#[test]
fn typed_trigger_is_replaced() {
    let mut flags = RuntimeFlags::new();
    let mut engine = Orchestrator::new_with_state(vec![snippet(";sig", "hello")], Injector::new_with_sink(MockSink::default()));
    let injected = type_text(&mut engine, &mut flags, ";sig");
    assert_eq!(injected, vec![false, false, false, true]);
    let actions = &engine.injector().sink().actions;
    assert_eq!(actions[..4], vec![KeyboardAction::Backspace; 4][..]);
    assert_eq!(actions[4..], [KeyboardAction::Unicode('h'), KeyboardAction::Unicode('e'), KeyboardAction::Unicode('l'), KeyboardAction::Unicode('l'), KeyboardAction::Unicode('o')]);
    assert!(!flags.suspend);
}

#[test]
fn paused_orchestrator_drops_char_input() {
    let mut flags = RuntimeFlags::new();
    set_paused(&mut flags, true);
    let mut engine = Orchestrator::new_with_state(vec![snippet(";sig", "hello")], Injector::new_with_sink(MockSink::default()));
    assert_eq!(type_text(&mut engine, &mut flags, ";sig"), vec![false; 4]);
    assert!(engine.injector().sink().actions.is_empty());
}

#[test]
fn denylisted_gate_blocks_char_input() {
    let mut flags = RuntimeFlags::new();
    flags.denylisted = true;
    let mut engine = Orchestrator::new_with_state(vec![snippet(";sig", "hello")], Injector::new_with_sink(MockSink::default()));
    assert_eq!(type_text(&mut engine, &mut flags, ";sig"), vec![false; 4]);
    assert!(engine.injector().sink().actions.is_empty());
}

#[test]
fn max_expansion_len_cap_blocks_injection() {
    let mut flags = RuntimeFlags::new();
    let mut engine = Orchestrator::new_with_state(vec![snippet(";sig", "too long replacement")], Injector::new_with_sink(MockSink::default()));
    engine.set_max_expansion_len(5);
    assert_eq!(type_text(&mut engine, &mut flags, ";sig"), vec![false; 4]);
    assert!(engine.injector().sink().actions.is_empty());
}

#[test]
fn foreground_reset_clears_partial_match() {
    let mut flags = RuntimeFlags::new();
    let prefs = Prefs::default();
    let mut engine = Orchestrator::new_with_state(vec![snippet(";sig", "hello")], Injector::new_with_sink(MockSink::default()));
    type_text(&mut engine, &mut flags, ";s");
    engine
        .handle_event(&mut flags, &prefs, &mut NoopNotifySink::new(), &mut NoopShellBackend::new(), &mut NoopFocusBackend::new(), HookEvent::Reset(ResetCause::ForegroundChange))
        .ok()
        .unwrap();
    assert_eq!(type_text(&mut engine, &mut flags, "ig"), vec![false, false]);
    assert!(engine.injector().sink().actions.is_empty());
}

#[test]
fn unknown_placeholder_skips_injection() {
    let mut flags = RuntimeFlags::new();
    let mut engine = Orchestrator::new_with_state(vec![snippet(";oops", "{{missing}}")], Injector::new_with_sink(MockSink::default()));
    assert_eq!(type_text(&mut engine, &mut flags, ";oops"), vec![false; 5]);
    assert!(engine.injector().sink().actions.is_empty());
}

#[test]
fn form_snippet_without_window_is_dropped() {
    let mut flags = RuntimeFlags::new();
    let mut s = snippet(";form", "Hello {{name}}");
    s.vars.push(VarDecl {
        name: "name".to_string(),
        kind: VarKind::Form,
        label: Some("Name".to_string()),
        default: None,
        required: true,
        options: Vec::new(),
        format: None,
        cmd: Vec::new(),
        timeout_ms: None,
        confirm: false,
    });
    let mut engine = Orchestrator::new_with_state(vec![s], Injector::new_with_sink(MockSink::default()));
    assert_eq!(type_text(&mut engine, &mut flags, ";form"), vec![false; 5]);
    assert!(engine.injector().sink().actions.is_empty());
}

#[test]
fn reset_causes_map_to_buffer_resets() {
    assert_eq!(map_reset(ResetCause::CapsToggle), Reset::CapsLockToggled);
    assert_eq!(map_reset(ResetCause::ForegroundChange), Reset::FocusChanged);
    assert_eq!(map_reset(ResetCause::ImeOrComposition), Reset::ImeCompositionStart);
}

#[test]
fn form_runner_allows_one_form_and_matches_ids() {
    let mut runner = FormRunner::new_with_sink(NoopWindowSink::new());
    runner.begin("a", ForegroundWindow(1)).unwrap();
    assert_eq!(runner.begin("b", ForegroundWindow(2)), Err(FormError::AlreadyOpen));
    assert_eq!(runner.submit("b", vec![]), None);
    let state = runner.submit("a", vec![("name".to_string(), "Ada".to_string())]).unwrap();
    assert_eq!(
        outcome_of(state),
        FormOutcome::Submitted(vec![("name".to_string(), "Ada".to_string())])
    );
    assert_eq!(runner.cancel("a"), None);
    runner.begin("c", ForegroundWindow(3)).unwrap();
    assert_eq!(runner.cancel("c"), Some(FormState::Cancelled));
    assert_eq!(outcome_of(FormState::Cancelled), FormOutcome::Cancelled);
}

#[derive(Default)]
struct RecordingNotifier {
    messages: RefCell<Vec<(String, String)>>,
}

impl ResolveNotifySink for RecordingNotifier {
    fn unknown_placeholder(&mut self, snippet_id: &str, name: &str) {
        self.messages.borrow_mut().push((snippet_id.to_string(), name.to_string()));
    }

    fn confirm_shell(&mut self, _snippet_id: &str, _name: &str, _args: &[String]) -> bool {
        false
    }
}

struct RecordingShell {
    output: String,
    calls: RefCell<Vec<Vec<String>>>,
}

impl ShellBackend for RecordingShell {
    fn run(&mut self, args: &[String], _cwd: &str, _timeout_ms: u64) -> Result<String, ShellError> {
        self.calls.borrow_mut().push(args.to_vec());
        Ok(self.output.clone())
    }
}

#[derive(Default)]
struct RecordingFocus {
    captured: Option<ForegroundWindow>,
    restored: Mutex<Vec<ForegroundWindow>>,
}

impl FocusBackend for RecordingFocus {
    fn capture_foreground(&mut self) -> Option<ForegroundWindow> {
        self.captured
    }

    fn restore_foreground(&mut self, hwnd: ForegroundWindow) -> Result<(), FocusError> {
        self.restored.lock().unwrap().push(hwnd);
        Ok(())
    }
}

fn shell_snippet() -> Snippet {
    let mut s = snippet(";sh", "{{out}}");
    s.vars.push(VarDecl {
        name: "out".to_string(),
        kind: VarKind::Shell,
        label: None,
        default: None,
        required: false,
        options: Vec::new(),
        format: None,
        cmd: vec!["cmd".to_string(), "/c".to_string(), "echo hello".to_string()],
        timeout_ms: Some(200),
        confirm: false,
    });
    s
}

fn type_with<N: ResolveNotifySink, Sh: ShellBackend, F: FocusBackend>(
    engine: &mut Orchestrator<MockSink, openmacro_lib::inject::MockClipboardBackend>,
    flags: &mut RuntimeFlags,
    prefs: &Prefs,
    notifier: &mut N,
    shell: &mut Sh,
    focus: &mut F,
    text: &str,
) -> Vec<EngineStep> {
    text.chars()
        .map(|c| engine.handle_event(flags, prefs, notifier, shell, focus, HookEvent::Char(c)).ok().unwrap())
        .collect()
}

#[test]
fn unknown_placeholder_is_reported_with_snippet_and_name() {
    let mut flags = RuntimeFlags::new();
    let mut notifier = RecordingNotifier::default();
    let mut engine = Orchestrator::new_with_state(vec![snippet(";oops", "{{missing}}")], Injector::new_with_sink(MockSink::default()));
    type_with(&mut engine, &mut flags, &Prefs::default(), &mut notifier, &mut NoopShellBackend::new(), &mut NoopFocusBackend::new(), ";oops");
    assert!(engine.injector().sink().actions.is_empty());
    assert_eq!(notifier.messages.into_inner(), vec![("test::;oops".to_string(), "missing".to_string())]);
}

#[test]
fn shell_snippet_without_consent_runs_nothing() {
    let mut flags = RuntimeFlags::new();
    let mut shell = RecordingShell { output: "hello".to_string(), calls: RefCell::new(Vec::new()) };
    let mut engine = Orchestrator::new_with_state(vec![shell_snippet()], Injector::new_with_sink(MockSink::default()));
    type_with(&mut engine, &mut flags, &Prefs::default(), &mut NoopNotifySink::new(), &mut shell, &mut NoopFocusBackend::new(), ";sh");
    assert!(engine.injector().sink().actions.is_empty());
    assert!(shell.calls.borrow().is_empty());
}

#[test]
fn shell_snippet_with_consent_types_the_output() {
    let mut flags = RuntimeFlags::new();
    let prefs = Prefs { shell_consent: true, ..Prefs::default() };
    let mut shell = RecordingShell { output: "hello".to_string(), calls: RefCell::new(Vec::new()) };
    let mut engine = Orchestrator::new_with_state(vec![shell_snippet()], Injector::new_with_sink(MockSink::default()));
    type_with(&mut engine, &mut flags, &prefs, &mut NoopNotifySink::new(), &mut shell, &mut NoopFocusBackend::new(), ";sh");
    let mut expected = vec![KeyboardAction::Backspace; 3];
    expected.extend("hello".chars().map(KeyboardAction::Unicode));
    assert_eq!(engine.injector().sink().actions, expected);
    assert_eq!(shell.calls.into_inner(), vec![vec!["cmd".to_string(), "/c".to_string(), "echo hello".to_string()]]);
}

#[test]
fn form_snippet_asks_for_its_form_and_cancel_injects_nothing() {
    let mut flags = RuntimeFlags::new();
    let prefs = Prefs::default();
    let mut s = snippet(";form", "Hello {{name}}");
    s.vars.push(VarDecl {
        name: "name".to_string(),
        kind: VarKind::Form,
        label: Some("Name".to_string()),
        default: None,
        required: true,
        options: Vec::new(),
        format: None,
        cmd: Vec::new(),
        timeout_ms: None,
        confirm: false,
    });
    let mut focus = RecordingFocus { captured: Some(ForegroundWindow(55)), restored: Mutex::new(Vec::new()) };
    let mut engine = Orchestrator::new_with_state(vec![s], Injector::new_with_sink(MockSink::default()));
    let steps = type_with(&mut engine, &mut flags, &prefs, &mut NoopNotifySink::new(), &mut NoopShellBackend::new(), &mut focus, ";form");
    let request = match steps.into_iter().last() {
        Some(EngineStep::FormRequested(request)) => request,
        _ => panic!("the form was not requested"),
    };
    assert_eq!(request.hwnd, ForegroundWindow(55));
    assert_eq!(request.trigger_len_chars, 5);
    assert!(!engine.complete_form(&mut flags, &prefs, &mut NoopNotifySink::new(), &mut NoopShellBackend::new(), &mut focus, &request, &FormOutcome::Cancelled));
    assert!(engine.injector().sink().actions.is_empty());
    assert!(focus.restored.lock().unwrap().is_empty());

    let submitted = FormOutcome::Submitted(vec![("name".to_string(), "Ada".to_string())]);
    assert!(engine.complete_form(&mut flags, &prefs, &mut NoopNotifySink::new(), &mut NoopShellBackend::new(), &mut focus, &request, &submitted));
    let mut expected = vec![KeyboardAction::Backspace; 5];
    expected.extend("Hello Ada".chars().map(KeyboardAction::Unicode));
    assert_eq!(engine.injector().sink().actions, expected);
    assert_eq!(focus.restored.into_inner().unwrap(), vec![ForegroundWindow(55)]);
}

#[test]
fn a_later_snippet_with_the_same_id_wins() {
    let mut flags = RuntimeFlags::new();
    let first = snippet(";sig", "first");
    let mut second = snippet(";zz", "second");
    second.id = first.id.clone();
    let mut engine = Orchestrator::new_with_state(vec![first, second], Injector::new_with_sink(MockSink::default()));
    assert_eq!(type_text(&mut engine, &mut flags, ";sig"), vec![false, false, false, true]);
    let actions = &engine.injector().sink().actions;
    assert_eq!(actions[4..], "second".chars().map(KeyboardAction::Unicode).collect::<Vec<_>>()[..]);
}
