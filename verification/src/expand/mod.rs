//! Snippet expansion: cursor marker, placeholder resolution.

pub mod clipboard_var;
pub mod cursor;
pub mod datetime;
pub mod shell;
pub mod template;

pub use clipboard_var::{clipboard_value, resolve_clipboard, ClipboardReader};
pub use cursor::{strip_cursor_token, CursorTokenError};
pub use datetime::resolve_datetime;
pub mod resolver;

pub use resolver::{ResolveError, ResolveNotifySink, Resolved, Resolver};
