use std::collections::HashMap;
use std::path::PathBuf;
use std::sync::Mutex;

use openmacro_lib::commands::sync::{SyncStatusDto, TickReportDto};
use openmacro_lib::sync::creds::maybe_store_pat;
use openmacro_lib::sync::{
    choose_credential, credential_key, driver_step, tick_report, AuthMode, CredentialChoice,
    CredentialStore, DriverAction, DriverEvent, GitBackend, NoopNotifySink, Secret, SyncCredential,
    SyncStatus, TickReport, DRIVER_SETTLE_MS,
};

#[derive(Default)]
struct MockStore {
    entries: Mutex<HashMap<String, SyncCredential>>,
}

impl CredentialStore for MockStore {
    fn read(&self, key: &str) -> Result<Option<SyncCredential>, String> {
        Ok(self.entries.lock().unwrap().get(key).cloned())
    }

    fn write(&self, key: &str, credential: &SyncCredential) -> Result<(), String> {
        self.entries.lock().unwrap().insert(key.to_string(), credential.clone());
        Ok(())
    }

    fn delete(&self, key: &str) -> Result<(), String> {
        self.entries.lock().unwrap().remove(key);
        Ok(())
    }
}

#[test]
fn secret_debug_is_redacted() {
    let secret = Secret::new("super-secret".to_string());

    assert_eq!(secret.debug_text(), "<redacted>");
}

#[test]
fn mock_store_roundtrip_and_delete() {
    let store = MockStore::default();
    let key = credential_key("github.com");
    let credential = SyncCredential {
        username: "alice".to_string(),
        secret: Secret::new("pat-123".to_string()),
    };

    store.write(&key, &credential).unwrap();
    let loaded = store.read(&key).unwrap().unwrap();
    store.delete(&key).unwrap();

    assert_eq!(loaded.username, "alice");
    assert_eq!(loaded.secret.expose(), "pat-123");
    assert!(store.read(&key).unwrap().is_none());
}

#[test]
fn credential_key_names_the_host() {
    assert_eq!(credential_key("github.com"), "openmacro/sync/github.com");
}

#[test]
fn conflict_dir_segment_is_unix_timestamp_sortable() {
    let mut backend = GitBackend::new(MockStore::default(), NoopNotifySink);
    backend.record_init("/tmp/sync-local".to_string(), "remote".to_string(), AuthMode::Ssh);
    let ts = 1_700_000_123u64;

    let dir = backend.conflict_dir_for(ts);
    let dir = PathBuf::from(dir);

    assert_eq!(dir.file_name().unwrap().to_string_lossy(), ts.to_string());
    assert_eq!(dir, PathBuf::from("/tmp/sync-local").join(".conflicts").join(ts.to_string()));
}

#[test]
fn uninitialized_backend_reports_missing_state() {
    let backend = GitBackend::new(MockStore::default(), NoopNotifySink);
    assert_eq!(backend.local_dir(), Err("sync backend not initialized".to_string()));
    assert_eq!(backend.auth(), Err("missing sync auth mode".to_string()));
    assert_eq!(backend.status(), SyncStatus::default());
}

#[test]
fn tick_report_follows_conflict_commit_and_divergence() {
    let clean = SyncStatus::default();
    let ahead = SyncStatus { ahead: 1, ..SyncStatus::default() };
    assert_eq!(tick_report(None, false, &clean), TickReport::NoChanges);
    assert_eq!(tick_report(None, true, &clean), TickReport::Synced { committed: true });
    assert_eq!(tick_report(None, false, &ahead), TickReport::Synced { committed: false });
    assert_eq!(
        tick_report(Some("c".to_string()), true, &ahead),
        TickReport::Conflict { dir: "c".to_string() }
    );
}

#[test]
fn tick_dto_names_each_kind() {
    let dto = TickReportDto::from_report(TickReport::Conflict { dir: "d".to_string() });
    assert_eq!(dto, TickReportDto { kind: "conflict".to_string(), dir: Some("d".to_string()), committed: false });
    let dto = TickReportDto::from_report(TickReport::Synced { committed: true });
    assert_eq!(dto, TickReportDto { kind: "synced".to_string(), dir: None, committed: true });
    let status = SyncStatusDto::from_status(SyncStatus { branch: Some("master".to_string()), ahead: 2, behind: 3, last_tick_unix: Some(9) });
    assert_eq!(status.branch.as_deref(), Some("master"));
    assert_eq!((status.ahead, status.behind, status.last_tick_unix), (2, 3, Some(9)));
}

#[test]
fn https_credential_prefers_stored_user_name() {
    let auth = AuthMode::HttpsPat { host: "github.com".to_string(), username: "cfg".to_string() };
    let stored = SyncCredential { username: String::new(), secret: Secret::new("pat".to_string()) };

    let choice = choose_credential(&auth, Some("url".to_string()), true, false, Ok(Some(stored))).unwrap();
    assert_eq!(choice, CredentialChoice::UserPass { username: "url".to_string(), password: "pat".to_string() });

    let missing = choose_credential(&auth, None, true, false, Ok(None));
    assert_eq!(missing, Err("missing https credential".to_string()));

    let refused = choose_credential(&AuthMode::Ssh, None, true, false, Ok(None));
    assert_eq!(refused, Err("ssh credentials not allowed".to_string()));

    let ssh = choose_credential(&AuthMode::Ssh, None, false, true, Ok(None)).unwrap();
    assert_eq!(ssh, CredentialChoice::SshAgent { username: "git".to_string() });
}

#[test]
fn token_is_stored_only_for_token_remotes() {
    let store = MockStore::default();
    maybe_store_pat(&store, &AuthMode::Ssh, Some("pat".to_string())).unwrap();
    assert!(store.entries.lock().unwrap().is_empty());

    let auth = AuthMode::HttpsPat { host: "h".to_string(), username: "u".to_string() };
    maybe_store_pat(&store, &auth, Some("pat".to_string())).unwrap();
    let saved = store.read("openmacro/sync/h").unwrap().unwrap();
    assert_eq!(saved.username, "u");
    assert_eq!(saved.secret.expose(), "pat");
}

#[test]
fn driver_decides_each_event() {
    assert_eq!(driver_step(DriverEvent::IntervalTick), DriverAction::Tick);
    assert_eq!(driver_step(DriverEvent::ManualTrigger), DriverAction::Tick);
    assert_eq!(driver_step(DriverEvent::StoreChanged), DriverAction::SettleThenTick(500));
    assert_eq!(DRIVER_SETTLE_MS, 500);
    assert_eq!(driver_step(DriverEvent::StoreClosed), DriverAction::Stop);
    assert_eq!(driver_step(DriverEvent::TriggerClosed), DriverAction::Stop);
}
