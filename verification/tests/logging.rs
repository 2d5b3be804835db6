use openmacro_lib::commands::logging::{get_log_ring_inner, get_logging_frontend_cfg_inner};
use openmacro_lib::engine::RuntimeFlags;
use openmacro_lib::log_init::redact::{is_sensitive, set_verbose_content};
use openmacro_lib::log_init::ring::strip_debug_quotes;
use openmacro_lib::log_init::rotation::{is_rotated_log_name, logs_to_prune, str_less};
use openmacro_lib::log_init::{
    build_env_filter_directive, redact_str, FieldKind, LogEntry, LogLevel, RingBuffer,
};
use openmacro_lib::store::{LoggingConfig, LoggingFrontendConfig};

fn entry(message: &str) -> LogEntry {
    LogEntry {
        seq: 0,
        ts_unix_ms: 1,
        level: LogLevel::Info,
        target: "openmacro".to_string(),
        message: message.to_string(),
        fields: "{}".to_string(),
        span_path: vec!["outer".to_string()],
    }
}

#[test]
fn ring_numbers_entries_and_drops_oldest() {
    let mut ring = RingBuffer::new(2);
    assert!(ring.is_empty());
    assert_eq!(ring.push(entry("a")), 1);
    assert_eq!(ring.push(entry("b")), 2);
    assert_eq!(ring.push(entry("c")), 3);
    assert_eq!(ring.len(), 2);

    let all = ring.slice_since(0);
    assert_eq!(all.iter().map(|e| e.message.as_str()).collect::<Vec<_>>(), vec!["b", "c"]);
    assert_eq!(all.iter().map(|e| e.seq).collect::<Vec<_>>(), vec![2, 3]);

    let newer = get_log_ring_inner(&ring, 2);
    assert_eq!(newer.len(), 1);
    assert_eq!(newer[0].message, "c");
    assert_eq!(newer[0].span_path, vec!["outer".to_string()]);
}

#[test]
fn redaction_by_kind() {
    assert_eq!(redact_str(false, "héllo", FieldKind::SnippetBody), "<redacted len=5>");
    assert_eq!(redact_str(false, "pat", FieldKind::Token), "<redacted>");
    assert_eq!(redact_str(false, "id", FieldKind::SnippetId), "id");
    assert_eq!(redact_str(true, "héllo", FieldKind::FormValue), "héllo");
    assert_eq!(redact_str(true, "pat", FieldKind::Credential), "pat");
    assert!(is_sensitive(FieldKind::ClipboardText));
    assert!(!is_sensitive(FieldKind::Path));
}

#[test]
fn verbose_switch_prefers_environment() {
    let mut flags = RuntimeFlags::new();
    set_verbose_content(&mut flags, false, Some("1".to_string()));
    assert!(flags.verbose_content);
    set_verbose_content(&mut flags, true, Some("yes".to_string()));
    assert!(!flags.verbose_content);
    set_verbose_content(&mut flags, true, None);
    assert!(flags.verbose_content);
}

#[test]
fn prune_keeps_the_newest_rotated_logs() {
    let names: Vec<String> = [
        "openmacro.log.2024-01-01",
        "openmacro.log.2024-01-03",
        "other.txt",
        "openmacro.log.2024-01-02",
        "openmacro.log",
    ]
    .iter()
    .map(|s| s.to_string())
    .collect();

    assert_eq!(logs_to_prune(&names, 2), vec!["openmacro.log.2024-01-01".to_string()]);
    assert_eq!(
        logs_to_prune(&names, 0),
        vec![
            "openmacro.log.2024-01-01".to_string(),
            "openmacro.log.2024-01-03".to_string(),
            "openmacro.log.2024-01-02".to_string(),
        ]
    );
    assert!(logs_to_prune(&names, 3).is_empty());
    assert!(is_rotated_log_name("openmacro.log.x"));
    assert!(!is_rotated_log_name("openmacro.log"));
    assert!(str_less("a", "b") && str_less("a", "ab") && !str_less("b", "ab"));
}

#[test]
fn filter_directive_sorts_modules_and_honours_rust_log() {
    let cfg = LoggingConfig {
        level: "info".to_string(),
        modules: vec![
            ("openmacro::sync".to_string(), "debug".to_string()),
            ("openmacro::hook".to_string(), "trace".to_string()),
        ],
        ..LoggingConfig::default()
    };
    assert_eq!(
        build_env_filter_directive(&cfg, None),
        "info,openmacro::hook=trace,openmacro::sync=debug"
    );
    assert_eq!(build_env_filter_directive(&cfg, Some(String::new())), "info,openmacro::hook=trace,openmacro::sync=debug");
    assert_eq!(build_env_filter_directive(&cfg, Some("warn".to_string())), "warn");
    assert_eq!(build_env_filter_directive(&LoggingConfig::default(), None), "info");
}

#[test]
fn frontend_config_is_copied() {
    let cfg = LoggingConfig {
        frontend: LoggingFrontendConfig {
            level: "debug".to_string(),
            modules: vec![("ui".to_string(), "trace".to_string())],
        },
        ..LoggingConfig::default()
    };
    assert_eq!(get_logging_frontend_cfg_inner(&cfg), cfg.frontend);
}

#[test]
fn debug_quotes_are_stripped() {
    assert_eq!(strip_debug_quotes("\"text\""), "text");
    assert_eq!(strip_debug_quotes("42"), "42");
    assert_eq!(strip_debug_quotes("\""), "\"");
}
