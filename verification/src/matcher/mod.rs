//! Trigger matching against typed input.

pub mod boundary;

pub use boundary::{classify_boundary_char, BoundaryState};
pub mod buffer;

pub use buffer::{MatchBuffer, Reset};
pub mod automaton;

pub use automaton::{MatchHit, Matcher};
