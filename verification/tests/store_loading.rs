use std::path::PathBuf;

use openmacro_lib::store::{
    load_from_root, LoadError, LoadResult, RootDocument, SnippetDocument, StoreSettings, VarDecl,
    VarKind,
};
use openmacro_lib::store::loader::{effective_trigger, load_file, validate_trigger_prefix};
use openmacro_lib::store::paths::{check_within_root, classify_entry, symlink_escape, EntryClass};

fn root() -> String {
    PathBuf::from("/store").to_string_lossy().into_owned()
}

fn path(rel: &str) -> String {
    PathBuf::from("/store").join(rel).to_string_lossy().into_owned()
}

fn doc(version: Option<u32>, entries: &[(&str, &str)]) -> RootDocument {
    RootDocument {
        version,
        snippets: entries
            .iter()
            .map(|(trigger, replace)| SnippetDocument {
                trigger: trigger.to_string(),
                trigger_literal: false,
                replace: replace.to_string(),
                vars: Vec::new(),
            })
            .collect(),
    }
}

fn load(files: Vec<(String, Result<RootDocument, LoadError>)>) -> LoadResult {
    load_from_root(&root(), None, Vec::new(), files)
}

#[test]
fn loads_valid_yaml_file() {
    let result = load(vec![(path("snippets/alpha.yaml"), Ok(doc(Some(1), &[(";sig", "hello")])))]);

    assert!(result.errors.is_empty());
    assert_eq!(result.snippets.len(), 1);
    assert_eq!(result.snippets[0].trigger, ";sig");
    assert_eq!(result.snippets[0].replace, "hello");
    assert_eq!(result.snippets[0].id, "snippets/alpha.yaml::;sig");
    assert_eq!(result.snippets[0].source_file, path("snippets/alpha.yaml"));
}

#[test]
fn missing_version_is_captured_as_error() {
    let result = load(vec![(path("missing-version.yaml"), Ok(doc(None, &[(";sig", "hello")])))]);

    assert!(result.snippets.is_empty());
    assert_eq!(result.errors.len(), 1);
    assert!(result.errors[0].message().contains("version"), "{}", result.errors[0].message());
}

#[test]
fn unknown_version_is_captured_as_error() {
    let result = load(vec![(path("unknown-version.yaml"), Ok(doc(Some(2), &[(";sig", "hello")])))]);

    assert!(result.snippets.is_empty());
    assert_eq!(result.errors.len(), 1);
    assert!(result.errors[0].message().contains("version"), "{}", result.errors[0].message());
    assert_eq!(result.errors[0].message(), "unsupported version: 2");
}

#[test]
fn malformed_yaml_is_isolated_to_its_file() {
    let broken = LoadError::Parse { path: path("broken.yaml"), message: "found unexpected end of stream".to_string() };
    let result = load(vec![
        (path("broken.yaml"), Err(broken)),
        (path("good.yaml"), Ok(doc(Some(1), &[(";sig", "hello")]))),
    ]);

    assert_eq!(result.snippets.len(), 1);
    assert_eq!(result.snippets[0].trigger, ";sig");
    assert_eq!(result.errors.len(), 1);
    assert_eq!(result.errors[0].path(), &path("broken.yaml"));
}

#[test]
fn duplicate_trigger_within_file_is_captured_as_error() {
    let result = load(vec![(path("dupe.yaml"), Ok(doc(Some(1), &[(";sig", "first"), (";sig", "second")])))]);

    assert!(result.snippets.is_empty());
    assert_eq!(result.errors.len(), 1);
    assert!(result.errors[0].message().contains("duplicate"), "{}", result.errors[0].message());
}

#[test]
fn duplicate_trigger_across_files_drops_every_copy() {
    let result = load(vec![
        (path("a.yaml"), Ok(doc(Some(1), &[(";sig", "one"), (";keep", "kept")]))),
        (path("b.yaml"), Ok(doc(Some(1), &[("sig", "two")]))),
    ]);

    assert_eq!(result.snippets.len(), 1);
    assert_eq!(result.snippets[0].trigger, ";keep");
    assert_eq!(
        result.errors,
        vec![LoadError::DuplicateTrigger { path: path("b.yaml"), trigger: ";sig".to_string() }]
    );
}

#[test]
fn walk_errors_come_first_and_settings_errors_stop_the_load() {
    let escape = LoadError::RootEscape { path: path("link"), message: "invalid snippet path: symlink or junction escapes snippets root".to_string() };
    let result = load_from_root(
        &root(),
        None,
        vec![escape.clone()],
        vec![(path("a.yaml"), Ok(doc(None, &[])))],
    );
    assert_eq!(result.errors.len(), 2);
    assert_eq!(result.errors[0], escape);

    let bad = StoreSettings { trigger_prefix: "ab".to_string(), expand_mode: openmacro_lib::store::ExpandMode::Auto };
    let stopped = load_from_root(&root(), Some(Ok(bad)), vec![escape], vec![(path("a.yaml"), Ok(doc(Some(1), &[(";x", "y")])))]);
    assert!(stopped.snippets.is_empty());
    assert_eq!(stopped.errors.len(), 1);
    assert_eq!(stopped.settings.trigger_prefix, ";");
    assert!(stopped.errors[0].message().starts_with("invalid trigger_prefix"));
}

#[test]
fn prefix_is_applied_unless_literal_or_present() {
    let settings = StoreSettings::default();
    assert_eq!(effective_trigger("sig", false, &settings), ";sig");
    assert_eq!(effective_trigger(";sig", false, &settings), ";sig");
    assert_eq!(effective_trigger("sig", true, &settings), "sig");
}

#[test]
fn trigger_prefix_rules() {
    assert!(validate_trigger_prefix("s", ";").is_ok());
    assert!(validate_trigger_prefix("s", "::!").is_ok());
    assert!(validate_trigger_prefix("s", "").is_err());
    assert!(validate_trigger_prefix("s", ";;;;").is_err());
    assert!(validate_trigger_prefix("s", ";a").is_err());
    assert!(validate_trigger_prefix("s", "; ").is_err());
}

#[test]
fn shell_vars_need_command_and_bounded_timeout() {
    let settings = StoreSettings::default();
    let shell = |cmd: Vec<&str>, timeout: Option<u64>| VarDecl {
        name: "out".to_string(),
        kind: VarKind::Shell,
        label: None,
        default: None,
        required: false,
        options: Vec::new(),
        format: None,
        cmd: cmd.into_iter().map(str::to_string).collect(),
        timeout_ms: timeout,
        confirm: false,
    };
    let with_var = |v: VarDecl| RootDocument {
        version: Some(1),
        snippets: vec![SnippetDocument { trigger: ";sh".to_string(), trigger_literal: false, replace: "{{out}}".to_string(), vars: vec![v] }],
    };

    let no_cmd = load_file(&root(), &path("s.yaml"), with_var(shell(vec![], Some(100))), &settings).unwrap_err();
    assert_eq!(no_cmd.message(), "shell var `out` in snippet `;sh` must declare a non-empty cmd array");
    let slow = load_file(&root(), &path("s.yaml"), with_var(shell(vec!["echo"], Some(10_001))), &settings).unwrap_err();
    assert_eq!(slow.message(), "shell var `out` in snippet `;sh` must declare timeout_ms <= 10000");
    assert!(load_file(&root(), &path("s.yaml"), with_var(shell(vec!["echo"], Some(10_000))), &settings).is_ok());
}

#[test]
fn two_cursor_markers_are_refused() {
    let settings = StoreSettings::default();
    let d = doc(Some(1), &[(";c", "a$|$b$|$")]);
    let error = load_file(&root(), &path("c.yaml"), d, &settings).unwrap_err();
    assert_eq!(error.message(), "too many cursor tokens in snippet: ;c");
}

#[test]
fn files_are_loaded_in_path_order_whatever_order_they_are_given_in() {
    let result = load(vec![
        (path("b.yaml"), Ok(doc(Some(1), &[(";b", "from b")]))),
        (path("a/z.yaml"), Ok(doc(Some(1), &[(";az", "from a/z")]))),
        (path("a.yaml"), Ok(doc(Some(1), &[(";a", "from a")]))),
    ]);

    assert!(result.errors.is_empty());
    let triggers: Vec<&str> = result.snippets.iter().map(|s| s.trigger.as_str()).collect();
    assert_eq!(triggers, vec![";az", ";a", ";b"]);
}

#[test]
fn walk_entries_are_classified_by_kind_and_name() {
    assert_eq!(classify_entry(true, false, "a.yaml"), EntryClass::Symlink);
    assert_eq!(classify_entry(true, true, "dir"), EntryClass::Symlink);
    assert_eq!(classify_entry(false, true, "dir.yaml"), EntryClass::Directory);
    assert_eq!(classify_entry(false, false, "a.yaml"), EntryClass::SnippetFile);
    assert_eq!(classify_entry(false, false, "b.yml"), EntryClass::SnippetFile);
    assert_eq!(classify_entry(false, false, "_settings.yaml"), EntryClass::Ignored);
    assert_eq!(classify_entry(false, false, "notes.txt"), EntryClass::Ignored);
}

#[test]
fn entries_outside_the_root_are_refused() {
    assert_eq!(check_within_root("x".to_string(), "C:\\Store\\a.yaml", "c:/store"), Ok("x".to_string()));
    assert_eq!(
        check_within_root("y".to_string(), "C:/Other/a.yaml", "C:/Store"),
        Err(LoadError::RootEscape {
            path: "y".to_string(),
            message: "invalid snippet path: path escapes snippets root".to_string(),
        })
    );
    assert_eq!(
        symlink_escape("z".to_string()),
        LoadError::RootEscape {
            path: "z".to_string(),
            message: "invalid snippet path: symlink or junction escapes snippets root".to_string(),
        }
    );
}
