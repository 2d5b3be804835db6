use openmacro_lib::chars::join_windows_path;
use openmacro_lib::commands::snippets::snippets_root;
use openmacro_lib::SINGLE_INSTANCE_MUTEX;

#[test]
fn lib_single_instance_mutex_name_matches_spec() {
    assert_eq!(SINGLE_INSTANCE_MUTEX, "Global\\openmacro-singleton");
}

#[test]
fn lib_snippets_dir_path_matches_spec() {
    assert_eq!(
        join_windows_path(&join_windows_path(r"C:\Users\me\AppData\Roaming", "openmacro"), "snippets"),
        r"C:\Users\me\AppData\Roaming\openmacro\snippets",
    );
}

#[test]
fn snippets_root_prefers_env_override() {
    let root = snippets_root(Some(r"C:\temp\openmacro-snippets".to_string()), Some("/appdata".to_string()));
    assert_eq!(root, Ok(r"C:\temp\openmacro-snippets".to_string()));
}

#[test]
fn snippets_root_needs_appdata() {
    assert_eq!(snippets_root(None, None), Err("APPDATA is not set".to_string()));
    assert_eq!(
        snippets_root(None, Some(r"C:\Users\me\AppData\Roaming".to_string())),
        Ok(r"C:\Users\me\AppData\Roaming\openmacro\snippets".to_string())
    );
}
