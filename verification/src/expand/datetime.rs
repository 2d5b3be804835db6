//! Date and time placeholders.

use std::fmt::Write;

use vstd::prelude::*;

verus! {

/// Calls chrono's `Local::now().format(format)` and renders it; `None`
/// when chrono reports the format string as invalid. A format without `%`
/// holds only literal text and spaces, which chrono writes out as they are.
/// Otherwise the text depends on the clock and the local time zone, and
/// whether it is accepted can depend on the date, so nothing more is stated.
#[verifier::external_body]
fn format_local_now(format: &str) -> (r: Option<String>)
    ensures
        r is Some || format@.contains('%'),
        r matches Some(s) ==> s@ == format@ || format@.contains('%'),
{
    let mut out = String::new();
    match write!(out, "{}", chrono::Local::now().format(format)) {
        Ok(()) => Some(out),
        Err(_) => None,
    }
}

/// The format `resolve_datetime` renders with: the given one, else the
/// fallback.
pub open spec fn effective_format(format: Option<Seq<char>>, fallback: Seq<char>) -> Seq<char> {
    match format {
        Some(f) => f,
        None => fallback,
    }
}

/// The current local time rendered with `format`, or with `fallback` when
/// no format is given; `None` when the format is not a valid strftime string.
/// A format without `%` comes back as it is.
pub fn resolve_datetime(format: Option<&str>, fallback: &str) -> (r: Option<String>)
    ensures
        ({
            let f = effective_format(
                match format {
                    Some(x) => Some(x@),
                    None => None,
                },
                fallback@,
            );
            !f.contains('%') ==> (r matches Some(s) && s@ == f)
        }),
{
    match format {
        Some(f) => format_local_now(f),
        None => format_local_now(fallback),
    }
}

} // verus!
