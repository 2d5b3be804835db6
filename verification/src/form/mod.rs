//! The form flow for snippets with form variables: which window to return
//! to, the route of the form window, and what a finished form yields.

pub mod focus;
pub mod runner;

pub use focus::{
    capture_foreground_with, focus_attachments, restore_foreground_with, FocusBackend, FocusError,
    ForegroundWindow, NoopFocusBackend,
};
pub use runner::{
    center_in_work_area, encode_path_segment, form_route, restore_on_submit, FormError, FormOutcome, FormState,
    NoopWindowSink, WindowSink, FORM_HEIGHT, FORM_WIDTH,
};
