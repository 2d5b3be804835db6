//! Snippet storage: data model, loading rules and the file watcher's decisions.

pub mod loader;
pub mod model;
pub mod paths;
pub mod watcher;

pub use loader::{
    effective_trigger, load_from_root, load_settings, settings_path, validate_trigger_prefix,
    LoadError, LoadResult, RootDocument, SnippetDocument,
};
pub use model::{
    ExpandMode, LoggingConfig, LoggingFileConfig, LoggingFrontendConfig, Snippet, StoreSettings,
    VarDecl, VarKind,
};
pub use watcher::{load_snapshot, SnapshotInner, WatchAction, WatchEvent, WatcherState};
