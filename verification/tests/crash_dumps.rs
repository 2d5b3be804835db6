use std::path::PathBuf;

use openmacro_lib::crash::{
    crash_check_outcome, crash_checkpoint, crashes_root, dump_path, format_report,
    newest_crash_timestamp_after, parse_u64, CrashCheck, PanicDumpReport,
};

fn report() -> PanicDumpReport {
    PanicDumpReport {
        timestamp_secs: 1_700_000_000,
        thread_name: None,
        location: Some("src/lib.rs:1:2".to_string()),
        payload: "boom".to_string(),
        backtrace: "bt".to_string(),
        context: Some("panic hook".to_string()),
    }
}

#[test]
fn report_text_layout() {
    assert_eq!(
        format_report(&report()),
        "timestamp: 1700000000\nthread: <unnamed>\ncontext: panic hook\nlocation: src/lib.rs:1:2\npayload: boom\nbacktrace:\nbt\n"
    );
}

#[test]
fn dump_file_is_named_by_timestamp() {
    assert_eq!(
        dump_path("/crashes", &report()),
        PathBuf::from("/crashes").join("1700000000.log").to_string_lossy()
    );
}

#[test]
fn newest_crash_after_checkpoint() {
    let stems = vec![
        Some("100".to_string()),
        Some("300".to_string()),
        Some("abc".to_string()),
        None,
        Some("200".to_string()),
    ];
    assert_eq!(newest_crash_timestamp_after(&stems, 150), Some(300));
    assert_eq!(newest_crash_timestamp_after(&stems, 300), None);
    assert_eq!(newest_crash_timestamp_after(&vec![], 0), None);
}

#[test]
fn parse_matches_std() {
    for s in ["0", "42", "+7", "18446744073709551615", "18446744073709551616", "", "+", "-1", "1a", " 1"] {
        assert_eq!(parse_u64(s), s.parse::<u64>().ok(), "{s}");
    }
}

#[test]
fn crash_root_choice() {
    assert_eq!(crashes_root(Some("/x".to_string()), None), Ok("/x".to_string()));
    assert_eq!(crashes_root(None, None), Err("config directory unavailable".to_string()));
    assert_eq!(
        crashes_root(None, Some("/cfg".to_string())),
        Ok(PathBuf::from("/cfg").join("openmacro").join("crashes").to_string_lossy().into_owned())
    );
}

#[test]
fn crash_checkpoint_prefers_the_recorded_check() {
    assert_eq!(crash_checkpoint(Some(50), Some(70)), 50);
    assert_eq!(crash_checkpoint(None, Some(70)), 70);
    assert_eq!(crash_checkpoint(None, None), 0);
}

#[test]
fn crash_check_reports_new_crashes_and_records_first_checks() {
    assert_eq!(
        crash_check_outcome(Some(10), Some(42), 99),
        CrashCheck { notify: true, record: Some(42) }
    );
    assert_eq!(
        crash_check_outcome(None, None, 99),
        CrashCheck { notify: false, record: Some(99) }
    );
    assert_eq!(
        crash_check_outcome(Some(10), None, 99),
        CrashCheck { notify: false, record: None }
    );
}
