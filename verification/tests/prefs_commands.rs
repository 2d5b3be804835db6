use openmacro_lib::commands::prefs::{
    get_prefs_inner, set_prefs_inner, set_prefs_with_autostart_inner, AutostartController,
    NoopAutostartController, Prefs, PrefsState, PrefsWriter,
};
use openmacro_lib::engine::{is_paused, RuntimeFlags};

struct RecordingAutostart {
    answer: Result<(), String>,
    asked: Vec<bool>,
}

impl AutostartController for RecordingAutostart {
    fn set_enabled(&mut self, enabled: bool) -> Result<(), String> {
        self.asked.push(enabled);
        self.answer.clone()
    }
}

struct RecordingWriter {
    answer: Result<(), String>,
    written: Vec<(String, Prefs)>,
}

impl RecordingWriter {
    fn answering(answer: Result<(), String>) -> Self {
        RecordingWriter { answer, written: Vec::new() }
    }
}

impl PrefsWriter for RecordingWriter {
    fn write(&mut self, path: &str, prefs: &Prefs) -> Result<(), String> {
        self.written.push((path.to_string(), prefs.clone()));
        self.answer.clone()
    }
}

fn wanted() -> Prefs {
    Prefs { paused: true, autostart: true, max_expansion_len: 2048, shell_consent: true, last_crash_check: None }
}

#[test]
fn saved_prefs_are_in_force_and_pause_follows() {
    let mut state = PrefsState::new("prefs.json".to_string(), Prefs::default());
    let mut flags = RuntimeFlags::new();
    let mut writer = RecordingWriter::answering(Ok(()));
    let r = set_prefs_inner(&mut state, wanted(), &mut flags, &mut writer);
    assert_eq!(r, Ok(()));
    assert_eq!(get_prefs_inner(&state), wanted());
    assert!(is_paused(&flags));
    assert_eq!(writer.written, vec![("prefs.json".to_string(), wanted())]);
}

#[test]
fn failed_write_keeps_the_old_prefs() {
    let mut state = PrefsState::new("prefs.json".to_string(), Prefs::default());
    let mut flags = RuntimeFlags::new();
    let mut writer = RecordingWriter::answering(Err("disk full".to_string()));
    let r = set_prefs_inner(&mut state, wanted(), &mut flags, &mut writer);
    assert_eq!(r, Err("disk full".to_string()));
    assert_eq!(writer.written.len(), 1);
    assert_eq!(get_prefs_inner(&state), Prefs::default());
    assert!(!is_paused(&flags));
}

#[test]
fn invalid_prefs_are_refused_before_anything_else() {
    let mut state = PrefsState::new("prefs.json".to_string(), Prefs::default());
    let mut flags = RuntimeFlags::new();
    let mut autostart = RecordingAutostart { answer: Ok(()), asked: Vec::new() };
    let bad = Prefs { max_expansion_len: 0, ..wanted() };
    let mut writer = RecordingWriter::answering(Ok(()));
    let r = set_prefs_with_autostart_inner(&mut state, bad, &mut autostart, &mut flags, &mut writer);
    assert_eq!(r, Err("invalid max_expansion_len: must be between 1 and 262144".to_string()));
    assert!(autostart.asked.is_empty());
    assert!(writer.written.is_empty());
    assert_eq!(get_prefs_inner(&state), Prefs::default());
    assert!(!is_paused(&flags));
}

#[test]
fn autostart_switch_error_is_passed_on() {
    let mut state = PrefsState::new("prefs.json".to_string(), Prefs::default());
    let mut flags = RuntimeFlags::new();
    let mut autostart = RecordingAutostart { answer: Err("registry locked".to_string()), asked: Vec::new() };
    let mut writer = RecordingWriter::answering(Ok(()));
    let r = set_prefs_with_autostart_inner(&mut state, wanted(), &mut autostart, &mut flags, &mut writer);
    assert_eq!(r, Err("registry locked".to_string()));
    assert_eq!(autostart.asked, vec![true]);
    assert!(writer.written.is_empty());
    assert_eq!(get_prefs_inner(&state), Prefs::default());
}

#[test]
fn unchanged_autostart_is_not_asked() {
    let mut state = PrefsState::new("prefs.json".to_string(), Prefs::default());
    let mut flags = RuntimeFlags::new();
    let mut autostart = NoopAutostartController::new();
    let same = Prefs { paused: true, ..Prefs::default() };
    let mut writer = RecordingWriter::answering(Ok(()));
    let r = set_prefs_with_autostart_inner(&mut state, same.clone(), &mut autostart, &mut flags, &mut writer);
    assert_eq!(r, Ok(()));
    assert_eq!(writer.written, vec![("prefs.json".to_string(), same.clone())]);
    assert_eq!(get_prefs_inner(&state), same);
    assert!(is_paused(&flags));
}

#[test]
fn autostart_is_switched_before_the_file_is_written() {
    let mut state = PrefsState::new("prefs.json".to_string(), Prefs::default());
    let mut flags = RuntimeFlags::new();
    let mut autostart = RecordingAutostart { answer: Ok(()), asked: Vec::new() };
    let mut writer = RecordingWriter::answering(Ok(()));
    let r = set_prefs_with_autostart_inner(&mut state, wanted(), &mut autostart, &mut flags, &mut writer);
    assert_eq!(r, Ok(()));
    assert_eq!(autostart.asked, vec![true]);
    assert_eq!(writer.written, vec![("prefs.json".to_string(), wanted())]);
    assert_eq!(get_prefs_inner(&state), wanted());
}
