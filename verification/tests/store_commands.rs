use openmacro_lib::commands::snippets::{
    apply_snippet_save, get_store_settings_inner, list_load_errors_inner, list_snippets_inner,
    relative_path, reload_snippets_inner, save_snippet_inner, set_store_settings_inner,
    SaveSnippetDto, SnippetFile, SnippetStoreState,
};
use openmacro_lib::store::paths::{is_settings_file_name, is_yaml_file_name, path_is_within_root};
use openmacro_lib::store::{
    load_snapshot, ExpandMode, LoadError, LoadResult, Snippet, SnippetDocument, StoreSettings,
    WatchAction, WatchEvent, WatcherState,
};

fn entry(trigger: &str, replace: &str) -> SnippetDocument {
    SnippetDocument {
        trigger: trigger.to_string(),
        trigger_literal: false,
        replace: replace.to_string(),
        vars: Vec::new(),
    }
}

fn save(trigger: &str, original: Option<&str>) -> SaveSnippetDto {
    SaveSnippetDto {
        source_file: "/store/alpha.yaml".to_string(),
        original_trigger: original.map(str::to_string),
        original_trigger_literal: None,
        trigger: trigger.to_string(),
        trigger_literal: false,
        replace: "new".to_string(),
        vars: Vec::new(),
    }
}

fn file() -> SnippetFile {
    SnippetFile { version: 1, snippets: vec![entry(";sig", "hello")] }
}

#[test]
fn save_snippet_rejects_same_file_trigger_collision() {
    let error = apply_snippet_save(file(), &StoreSettings::default(), save(";sig", None)).unwrap_err();
    assert_eq!(error, "trigger collision: ;sig");
}

#[test]
fn save_replaces_the_targeted_entry_or_appends() {
    let settings = StoreSettings::default();
    let replaced = apply_snippet_save(file(), &settings, save(";log", Some(";sig"))).unwrap();
    assert_eq!(replaced.snippets.len(), 1);
    assert_eq!(replaced.snippets[0].trigger, ";log");
    assert_eq!(replaced.snippets[0].replace, "new");

    let appended = apply_snippet_save(file(), &settings, save(";log", None)).unwrap();
    assert_eq!(appended.snippets.len(), 2);
    assert_eq!(appended.snippets[1].trigger, ";log");
    assert_eq!(appended.version, 1);

    let unprefixed = apply_snippet_save(file(), &settings, save("sig", None)).unwrap_err();
    assert_eq!(unprefixed, "trigger collision: ;sig");
}

#[test]
fn save_passes_on_read_and_settings_errors() {
    assert_eq!(
        save_snippet_inner(Err("no file".to_string()), Ok(StoreSettings::default()), save(";x", None)),
        Err("no file".to_string())
    );
    assert_eq!(
        save_snippet_inner(Ok(file()), Err("bad settings".to_string()), save(";x", None)),
        Err("bad settings".to_string())
    );
}

fn snippet(id: &str, source: &str) -> Snippet {
    Snippet {
        id: id.to_string(),
        trigger: ";sig".to_string(),
        raw_trigger: "sig".to_string(),
        trigger_literal: false,
        replace: "hello".to_string(),
        vars: Vec::new(),
        source_file: source.to_string(),
    }
}

#[test]
fn listing_and_reloading_the_store() {
    let loaded = LoadResult {
        settings: StoreSettings::default(),
        snippets: vec![snippet("a.yaml::;sig", "/store/sub/a.yaml")],
        errors: Vec::new(),
    };
    let mut state = SnippetStoreState::load("/store".to_string(), Ok(loaded)).ok().unwrap();
    assert_eq!(state.root(), "/store");
    assert_eq!(state.snapshot().revision, 0);

    let listed = list_snippets_inner(&state);
    assert_eq!(listed.len(), 1);
    assert_eq!(listed[0].trigger, "sig");
    assert_eq!(listed[0].effective_trigger, ";sig");
    assert_eq!(listed[0].file_relative, "sub/a.yaml");

    let reload = LoadResult {
        settings: StoreSettings::default(),
        snippets: Vec::new(),
        errors: vec![LoadError::MissingVersion { path: "/store/b.yaml".to_string() }],
    };
    let result = reload_snippets_inner(&mut state, Ok(reload)).unwrap();
    assert_eq!(result.loaded, 0);
    assert_eq!(result.errors.len(), 1);
    assert_eq!(result.errors[0].message, "missing required version: 1");
    assert_eq!(state.snapshot().revision, 1);
    assert_eq!(list_load_errors_inner(&state)[0].path, "/store/b.yaml");
    assert!(reload_snippets_inner(&mut state, Err("io".to_string())).is_err());
    assert_eq!(state.snapshot().revision, 1);
}

#[test]
fn relative_paths_use_forward_slashes() {
    assert_eq!(relative_path("/store/a/b.yaml", "/store"), "a/b.yaml");
    assert_eq!(relative_path("/elsewhere/c.yaml", "/store"), "/elsewhere/c.yaml");
}

#[test]
fn store_settings_commands() {
    assert_eq!(get_store_settings_inner("/store", None).unwrap().trigger_prefix, ";");
    let bad = StoreSettings { trigger_prefix: "x".to_string(), expand_mode: ExpandMode::Auto };
    assert!(get_store_settings_inner("/store", Some(Ok(bad.clone()))).unwrap_err().starts_with("invalid trigger_prefix"));
    assert!(set_store_settings_inner("/store", &bad).is_err());
    let good = StoreSettings { trigger_prefix: "!!".to_string(), expand_mode: ExpandMode::Auto };
    assert!(set_store_settings_inner("/store", &good).is_ok());
}

#[test]
fn snippet_file_names() {
    assert!(is_yaml_file_name("a.yaml"));
    assert!(is_yaml_file_name("a.b.yml"));
    assert!(!is_yaml_file_name(".yaml"));
    assert!(!is_yaml_file_name("yaml"));
    assert!(!is_yaml_file_name("a.yaml.bak"));
    assert!(is_settings_file_name("_settings.yaml"));
    assert!(!is_settings_file_name("settings.yaml"));
}

#[test]
fn root_containment_compares_windows_paths() {
    assert!(path_is_within_root(r"C:\Snippets\a.yaml", r"c:\snippets"));
    assert!(path_is_within_root(r"C:\Snippets\", r"c:/snippets"));
    assert!(!path_is_within_root(r"C:\SnippetsOther\a.yaml", r"c:\snippets"));
    assert!(!path_is_within_root(r"C:\other", r"c:\snippets"));
}

#[test]
fn watcher_debounces_and_publishes() {
    let mut state = WatcherState::new();
    assert_eq!(state.step(WatchEvent::Timeout), WatchAction::Wait);
    assert_eq!(state.step(WatchEvent::Filesystem), WatchAction::Wait);
    assert_eq!(state.step(WatchEvent::ReloadNow), WatchAction::Wait);
    assert_eq!(state.step(WatchEvent::Timeout), WatchAction::Reload(1));
    assert_eq!(state.step(WatchEvent::Timeout), WatchAction::Wait);
    assert_eq!(state.step(WatchEvent::Shutdown), WatchAction::Stop);

    let snapshot = load_snapshot("/store", 4, Err("denied".to_string()));
    assert_eq!(snapshot.revision, 4);
    assert!(snapshot.snippets.is_empty());
    assert_eq!(snapshot.errors, vec![LoadError::Io { path: "/store".to_string(), message: "denied".to_string() }]);
}
