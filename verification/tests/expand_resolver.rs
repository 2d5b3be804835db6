use chrono::Local;
use openmacro_lib::commands::prefs::Prefs;
use openmacro_lib::expand::shell::{ShellBackend, ShellError};
use openmacro_lib::expand::{
    clipboard_value, resolve_datetime, ClipboardReader, ResolveError, ResolveNotifySink, Resolver,
};
use openmacro_lib::store::{Snippet, VarDecl, VarKind};

#[derive(Default)]
struct StubClipboard {
    text: Option<String>,
}

impl ClipboardReader for StubClipboard {
    fn read_text(&mut self) -> Option<String> {
        self.text.clone()
    }
}

fn snippet(replace: &str, vars: Vec<VarDecl>) -> Snippet {
    Snippet {
        id: "test::snippet".to_string(),
        trigger: ";test".to_string(),
        raw_trigger: ";test".to_string(),
        trigger_literal: false,
        replace: replace.to_string(),
        vars,
        source_file: "test.yaml".to_string(),
    }
}

fn var(name: &str, kind: VarKind, format: Option<&str>) -> VarDecl {
    VarDecl {
        name: name.to_string(),
        kind,
        label: None,
        default: None,
        required: false,
        options: Vec::new(),
        format: format.map(str::to_string),
        cmd: Vec::new(),
        timeout_ms: None,
        confirm: false,
    }
}

#[test]
fn resolves_builtin_datetime_placeholders() {
    let snippet = snippet("{{date}}|{{time}}|{{datetime}}", Vec::new());
    let mut clipboard = StubClipboard::default();
    let prefs = Prefs::default();

    let resolved = Resolver::new(&prefs).resolve(&snippet, &mut clipboard, None).unwrap();
    let now = Local::now();

    assert_eq!(
        resolved.text,
        format!(
            "{}|{}|{}",
            now.format("%Y-%m-%d"),
            now.format("%H:%M:%S"),
            now.format("%Y-%m-%d %H:%M:%S")
        )
    );
    assert_eq!(resolved.cursor_chars_after_token, None);
}

#[test]
fn resolves_declared_var_kinds_before_builtin_fallbacks() {
    let mut name = var("name", VarKind::Text, None);
    name.default = Some("alpha".to_string());
    let snippet = snippet(
        "{{name}}|{{stamp}}|{{clip}}|{{cursor_here}}",
        vec![
            name,
            var("stamp", VarKind::Datetime, Some("%Y")),
            var("clip", VarKind::Clipboard, None),
            var("cursor_here", VarKind::Cursor, None),
        ],
    );
    let mut clipboard = StubClipboard { text: Some("copied".to_string()) };
    let prefs = Prefs::default();

    let resolved = Resolver::new(&prefs).resolve(&snippet, &mut clipboard, None).unwrap();

    assert_eq!(resolved.text, format!("alpha|{}|copied|", Local::now().format("%Y")));
    assert_eq!(resolved.cursor_chars_after_token, Some(0));
}

#[test]
fn resolves_strftime_arg_and_clipboard_text() {
    let snippet = snippet("{{date:%Y}} {{clipboard}}", Vec::new());
    let mut clipboard = StubClipboard { text: Some("copied".to_string()) };
    let prefs = Prefs::default();

    let resolved = Resolver::new(&prefs).resolve(&snippet, &mut clipboard, None).unwrap();

    assert_eq!(resolved.text, format!("{} copied", Local::now().format("%Y")));
}

#[test]
fn missing_clipboard_text_resolves_as_empty_string() {
    let snippet = snippet("({{clipboard}})", Vec::new());
    let mut clipboard = StubClipboard::default();
    let prefs = Prefs::default();

    let resolved = Resolver::new(&prefs).resolve(&snippet, &mut clipboard, None).unwrap();

    assert_eq!(resolved.text, "()");
}

#[test]
fn unknown_placeholder_is_an_error() {
    let snippet = snippet("{{missing}}", Vec::new());
    let mut clipboard = StubClipboard::default();
    let prefs = Prefs::default();

    let error = Resolver::new(&prefs).resolve(&snippet, &mut clipboard, None).unwrap_err();

    assert_eq!(error, ResolveError::UnknownPlaceholder { name: "missing".to_string() });
}

#[test]
fn cursor_marker_reports_utf16_units_after_it() {
    let snippet = snippet("a$|$b\u{1F600}", Vec::new());
    let mut clipboard = StubClipboard::default();
    let prefs = Prefs::default();

    let resolved = Resolver::new(&prefs).resolve(&snippet, &mut clipboard, None).unwrap();

    assert_eq!(resolved.text, "ab\u{1F600}");
    assert_eq!(resolved.cursor_chars_after_token, Some(3));
}

#[test]
fn shell_placeholder_is_refused_without_consent() {
    let mut sh = var("out", VarKind::Shell, None);
    sh.cmd = vec!["echo".to_string(), "hello".to_string()];
    sh.timeout_ms = Some(200);
    let snippet = snippet("{{out}}", vec![sh]);
    let mut clipboard = StubClipboard::default();
    let prefs = Prefs::default();

    let error = Resolver::new(&prefs).resolve(&snippet, &mut clipboard, None).unwrap_err();

    assert_eq!(error, ResolveError::ShellDisabled { name: "out".to_string() });
}

#[test]
fn clipboard_placeholder_value_is_text_or_empty() {
    assert_eq!(clipboard_value(Some("copied".to_string())), "copied");
    assert_eq!(clipboard_value(None), "");
}

#[test]
fn datetime_format_without_specifiers_is_literal() {
    assert_eq!(resolve_datetime(Some("plain text"), "%Y"), Some("plain text".to_string()));
    assert_eq!(resolve_datetime(None, "fixed"), Some("fixed".to_string()));
    assert_eq!(resolve_datetime(Some("%Q"), ""), None);
}

#[derive(Default)]
struct RecordingShell {
    runs: Vec<(Vec<String>, String, u64)>,
}

impl ShellBackend for RecordingShell {
    fn run(&mut self, args: &[String], cwd: &str, timeout_ms: u64) -> Result<String, ShellError> {
        self.runs.push((args.to_vec(), cwd.to_string(), timeout_ms));
        Ok("out".to_string())
    }
}

struct AnsweringNotify {
    answer: bool,
    asked: Vec<(String, String, Vec<String>)>,
    unknown: Vec<(String, String)>,
}

impl ResolveNotifySink for AnsweringNotify {
    fn unknown_placeholder(&mut self, snippet_id: &str, name: &str) {
        self.unknown.push((snippet_id.to_string(), name.to_string()));
    }

    fn confirm_shell(&mut self, snippet_id: &str, name: &str, args: &[String]) -> bool {
        self.asked.push((snippet_id.to_string(), name.to_string(), args.to_vec()));
        self.answer
    }
}

fn shell_var(confirm: bool) -> VarDecl {
    VarDecl {
        cmd: vec!["echo".to_string(), "hi".to_string()],
        timeout_ms: Some(300),
        confirm,
        ..var("out", VarKind::Shell, None)
    }
}

fn shell_snippet(confirm: bool) -> Snippet {
    Snippet { source_file: "dir/test.yaml".to_string(), ..snippet("[{{out}}]", vec![shell_var(confirm)]) }
}

#[test]
fn shell_runs_once_in_the_snippet_directory_with_its_timeout() {
    let prefs = Prefs { shell_consent: true, ..Prefs::default() };
    let mut shell = RecordingShell::default();
    let mut notify = AnsweringNotify { answer: true, asked: Vec::new(), unknown: Vec::new() };
    let resolved = Resolver::new(&prefs)
        .with_shell_backend(&mut shell)
        .with_notify_sink(&mut notify)
        .resolve(&shell_snippet(false), &mut StubClipboard::default(), None)
        .unwrap();
    assert_eq!(resolved.text, "[out]");
    let dir = std::path::Path::new("dir/test.yaml").parent().unwrap().to_string_lossy().into_owned();
    assert_eq!(shell.runs, vec![(vec!["echo".to_string(), "hi".to_string()], dir, 300)]);
    assert!(notify.asked.is_empty());
    assert!(notify.unknown.is_empty());
}

#[test]
fn a_declined_confirmation_runs_nothing() {
    let prefs = Prefs { shell_consent: true, ..Prefs::default() };
    let mut shell = RecordingShell::default();
    let mut notify = AnsweringNotify { answer: false, asked: Vec::new(), unknown: Vec::new() };
    let error = Resolver::new(&prefs)
        .with_shell_backend(&mut shell)
        .with_notify_sink(&mut notify)
        .resolve(&shell_snippet(true), &mut StubClipboard::default(), None)
        .unwrap_err();
    assert_eq!(error, ResolveError::ShellDeclined { name: "out".to_string() });
    assert!(shell.runs.is_empty());
    assert_eq!(
        notify.asked,
        vec![("test::snippet".to_string(), "out".to_string(), vec!["echo".to_string(), "hi".to_string()])]
    );
}

#[test]
fn the_default_resolver_declines_or_disables_shell_placeholders() {
    let no_consent = Prefs::default();
    let error = Resolver::new(&no_consent).resolve(&shell_snippet(false), &mut StubClipboard::default(), None).unwrap_err();
    assert_eq!(error, ResolveError::ShellDisabled { name: "out".to_string() });
    let consent = Prefs { shell_consent: true, ..Prefs::default() };
    let error = Resolver::new(&consent).resolve(&shell_snippet(true), &mut StubClipboard::default(), None).unwrap_err();
    assert_eq!(error, ResolveError::ShellDeclined { name: "out".to_string() });
    let error = Resolver::new(&consent).resolve(&shell_snippet(false), &mut StubClipboard::default(), None).unwrap_err();
    assert_eq!(error, ResolveError::ShellFailed { name: "out".to_string(), error: ShellError::Disabled });
}
