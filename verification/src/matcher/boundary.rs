//! Boundary classification helpers for trigger matching.

use vstd::prelude::*;

use crate::chars::{ascii_punct, char_is_whitespace, is_ascii_punct, unicode_white_space};

verus! {

/// What precedes a candidate trigger: the start of the buffer, whitespace,
/// punctuation, or anything else.
#[derive(Debug, Clone, Copy, PartialEq, Eq, Structural)]
pub enum BoundaryState {
    StartOfBuffer,
    Whitespace,
    Punctuation,
    Other,
}

/// The typographic punctuation marks that count as boundaries beyond ASCII.
pub open spec fn is_unicode_punct(c: char) -> bool {
    c == '\u{201C}' || c == '\u{201D}' || c == '\u{2018}' || c == '\u{2019}' || c == '\u{AB}'
        || c == '\u{BB}' || c == '\u{2026}' || c == '\u{2013}' || c == '\u{2014}' || c
        == '\u{2022}' || c == '\u{B7}'
}

/// The boundary class of one character.
pub open spec fn spec_classify(c: char) -> BoundaryState {
    if unicode_white_space(c) {
        BoundaryState::Whitespace
    } else if is_ascii_punct(c) || is_unicode_punct(c) {
        BoundaryState::Punctuation
    } else {
        BoundaryState::Other
    }
}

/// Classifies `ch` as whitespace, punctuation or other.
pub fn classify_boundary_char(ch: char) -> (r: BoundaryState)
    ensures
        r == spec_classify(ch),
{
    if char_is_whitespace(ch) {
        BoundaryState::Whitespace
    } else if ascii_punct(ch) || is_unicode_punctuation(ch) {
        BoundaryState::Punctuation
    } else {
        BoundaryState::Other
    }
}

fn is_unicode_punctuation(ch: char) -> (r: bool)
    ensures
        r == is_unicode_punct(ch),
{
    ch == '\u{201C}' || ch == '\u{201D}' || ch == '\u{2018}' || ch == '\u{2019}' || ch == '\u{AB}'
        || ch == '\u{BB}' || ch == '\u{2026}' || ch == '\u{2013}' || ch == '\u{2014}' || ch
        == '\u{2022}' || ch == '\u{B7}'
}

} // verus!
