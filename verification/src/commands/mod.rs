//! Command handlers behind the settings window.

pub mod logging;
pub mod prefs;
pub mod snippets;
pub mod sync;
