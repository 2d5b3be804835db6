//! Redaction of user content in log output.

use vstd::prelude::*;

use crate::chars::{chars_of, concat_str, decimal, str_eq, u64_to_decimal};
use crate::engine::RuntimeFlags;

verus! {

/// What a logged value is.
#[derive(Debug, Clone, Copy, PartialEq, Eq, Structural)]
pub enum FieldKind {
    SnippetBody,
    ClipboardText,
    FormValue,
    Credential,
    Token,
    TriggerName,
    SnippetId,
    Path,
}

/// Kinds that carry user content or secrets.
pub open spec fn sensitive(kind: FieldKind) -> bool {
    kind == FieldKind::SnippetBody || kind == FieldKind::ClipboardText || kind
        == FieldKind::FormValue || kind == FieldKind::Credential || kind == FieldKind::Token
}

/// Whether `kind` carries user content or secrets.
pub fn is_sensitive(kind: FieldKind) -> (r: bool)
    ensures
        r == sensitive(kind),
{
    match kind {
        FieldKind::SnippetBody | FieldKind::ClipboardText | FieldKind::FormValue
        | FieldKind::Credential | FieldKind::Token => true,
        _ => false,
    }
}

/// Verbose logging of user content follows the `OPENMACRO_LOG_VERBOSE`
/// environment value when it is set (on exactly for `"1"`), otherwise the
/// configuration.
pub fn set_verbose_content(flags: &mut RuntimeFlags, config_verbose: bool, env_value: Option<String>)
    ensures
        *final(flags) == (RuntimeFlags {
            verbose_content: match env_value {
                Some(v) => v@ == "1"@,
                None => config_verbose,
            },
            ..*old(flags)
        }),
{
    let verbose = match env_value {
        Some(v) => str_eq(v.as_str(), "1"),
        None => config_verbose,
    };
    flags.verbose_content = verbose;
}

/// Whether user content may be logged as it is.
pub fn verbose_content(flags: &RuntimeFlags) -> (r: bool)
    ensures
        r == flags.verbose_content,
{
    flags.verbose_content
}

/// How `s` of kind `kind` appears in the log: as it is when verbose logging
/// is on and the kind is sensitive; otherwise bodies, clipboard text and
/// form values show only their length in characters, credentials and tokens
/// nothing, and names, ids and paths as they are.
pub open spec fn redacted(verbose: bool, s: Seq<char>, kind: FieldKind) -> Seq<char> {
    if verbose && sensitive(kind) {
        s
    } else if kind == FieldKind::SnippetBody || kind == FieldKind::ClipboardText || kind
        == FieldKind::FormValue {
        "<redacted len="@ + decimal(s.len()) + ">"@
    } else if kind == FieldKind::Credential || kind == FieldKind::Token {
        "<redacted>"@
    } else {
        s
    }
}

/// Redacts `s` for the log.
pub fn redact_str(verbose: bool, s: &str, kind: FieldKind) -> (r: String)
    ensures
        r@ == redacted(verbose, s@, kind),
{
    if verbose && is_sensitive(kind) {
        return String::from_str(s);
    }
    match kind {
        FieldKind::SnippetBody | FieldKind::ClipboardText | FieldKind::FormValue => {
            let n = chars_of(s).len();
            let digits = u64_to_decimal(n as u64);
            let head = concat_str("<redacted len=", digits.as_str());
            concat_str(head.as_str(), ">")
        },
        FieldKind::Credential | FieldKind::Token => String::from_str("<redacted>"),
        _ => String::from_str(s),
    }
}


/// Without verbose logging, a body, clipboard text or form value shows
/// nothing but its length, and a credential or token shows nothing at all:
/// two values of the same length are logged alike.
pub proof fn lemma_redaction_reveals_only_length(a: Seq<char>, b: Seq<char>, kind: FieldKind)
    requires
        sensitive(kind),
        a.len() == b.len(),
    ensures
        redacted(false, a, kind) == redacted(false, b, kind),
        kind == FieldKind::Credential || kind == FieldKind::Token ==> redacted(false, a, kind)
            == "<redacted>"@,
{
}

/// Names, ids and paths are logged as they are, verbose or not.
pub proof fn lemma_non_sensitive_kept(verbose: bool, s: Seq<char>, kind: FieldKind)
    requires
        !sensitive(kind),
    ensures
        redacted(verbose, s, kind) == s,
{
}

} // verus!
