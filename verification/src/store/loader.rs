//! Snippet-file loading rules: settings, per-file validation and
//! cross-file duplicate handling. Reading the directory and parsing YAML
//! happen outside; these functions decide what the parsed files yield.

use vstd::prelude::*;

use crate::chars::{
    char_is_alphanumeric, char_is_whitespace, chars_of, concat_str, decimal, forward_slashes,
    path_join, path_lt, path_strip_prefix, std_path_join, std_path_lt, std_strip_prefix, str_eq,
    to_forward_slashes,
    u64_to_decimal, unicode_alphanumeric, unicode_white_space,
};
use crate::expand::cursor::{spec_strip, strip_cursor_token};

use super::model::{ExpandMode, Snippet, StoreSettings, VarDecl, VarKind};

verus! {

/// Name of the store settings file.
pub const SETTINGS_FILE_NAME: &'static str = "_settings.yaml";

/// Why a snippet file (or the settings file) did not load.
#[derive(Debug, Clone, PartialEq, Eq)]
pub enum LoadError {
    Io { path: String, message: String },
    Parse { path: String, message: String },
    MissingVersion { path: String },
    UnsupportedVersion { path: String, version: u32 },
    RelativePath { path: String },
    DuplicateTrigger { path: String, trigger: String },
    InvalidSettings { path: String, message: String },
    TooManyCursorTokens { path: String, trigger: String },
    ShellCmdNotArray { path: String, trigger: String, name: String },
    ShellTimeoutInvalid { path: String, trigger: String, name: String },
    RootEscape { path: String, message: String },
}

/// Text form of `LoadError`.
pub enum LoadErrorV {
    Io { path: Seq<char>, message: Seq<char> },
    Parse { path: Seq<char>, message: Seq<char> },
    MissingVersion { path: Seq<char> },
    UnsupportedVersion { path: Seq<char>, version: u32 },
    RelativePath { path: Seq<char> },
    DuplicateTrigger { path: Seq<char>, trigger: Seq<char> },
    InvalidSettings { path: Seq<char>, message: Seq<char> },
    TooManyCursorTokens { path: Seq<char>, trigger: Seq<char> },
    ShellCmdNotArray { path: Seq<char>, trigger: Seq<char>, name: Seq<char> },
    ShellTimeoutInvalid { path: Seq<char>, trigger: Seq<char>, name: Seq<char> },
    RootEscape { path: Seq<char>, message: Seq<char> },
}

/// The text form of an error.
pub open spec fn err_view(e: LoadError) -> LoadErrorV {
    match e {
        LoadError::Io { path, message } => LoadErrorV::Io { path: path@, message: message@ },
        LoadError::Parse { path, message } => LoadErrorV::Parse { path: path@, message: message@ },
        LoadError::MissingVersion { path } => LoadErrorV::MissingVersion { path: path@ },
        LoadError::UnsupportedVersion { path, version } => LoadErrorV::UnsupportedVersion {
            path: path@,
            version,
        },
        LoadError::RelativePath { path } => LoadErrorV::RelativePath { path: path@ },
        LoadError::DuplicateTrigger { path, trigger } => LoadErrorV::DuplicateTrigger {
            path: path@,
            trigger: trigger@,
        },
        LoadError::InvalidSettings { path, message } => LoadErrorV::InvalidSettings {
            path: path@,
            message: message@,
        },
        LoadError::TooManyCursorTokens { path, trigger } => LoadErrorV::TooManyCursorTokens {
            path: path@,
            trigger: trigger@,
        },
        LoadError::ShellCmdNotArray { path, trigger, name } => LoadErrorV::ShellCmdNotArray {
            path: path@,
            trigger: trigger@,
            name: name@,
        },
        LoadError::ShellTimeoutInvalid { path, trigger, name } => LoadErrorV::ShellTimeoutInvalid {
            path: path@,
            trigger: trigger@,
            name: name@,
        },
        LoadError::RootEscape { path, message } => LoadErrorV::RootEscape {
            path: path@,
            message: message@,
        },
    }
}

/// The path an error is about.
pub open spec fn err_path(e: LoadErrorV) -> Seq<char> {
    match e {
        LoadErrorV::Io { path, .. } => path,
        LoadErrorV::Parse { path, .. } => path,
        LoadErrorV::MissingVersion { path } => path,
        LoadErrorV::UnsupportedVersion { path, .. } => path,
        LoadErrorV::RelativePath { path } => path,
        LoadErrorV::DuplicateTrigger { path, .. } => path,
        LoadErrorV::InvalidSettings { path, .. } => path,
        LoadErrorV::TooManyCursorTokens { path, .. } => path,
        LoadErrorV::ShellCmdNotArray { path, .. } => path,
        LoadErrorV::ShellTimeoutInvalid { path, .. } => path,
        LoadErrorV::RootEscape { path, .. } => path,
    }
}

/// The message shown for an error.
pub open spec fn err_message(e: LoadErrorV) -> Seq<char> {
    match e {
        LoadErrorV::Io { message, .. } => message,
        LoadErrorV::Parse { message, .. } => message,
        LoadErrorV::MissingVersion { .. } => "missing required version: 1"@,
        LoadErrorV::UnsupportedVersion { version, .. } => "unsupported version: "@ + decimal(
            version as nat,
        ),
        LoadErrorV::RelativePath { .. } => "failed to derive relative path"@,
        LoadErrorV::DuplicateTrigger { trigger, .. } => "duplicate trigger in file: "@ + trigger,
        LoadErrorV::InvalidSettings { message, .. } => message,
        LoadErrorV::TooManyCursorTokens { trigger, .. } => "too many cursor tokens in snippet: "@
            + trigger,
        LoadErrorV::ShellCmdNotArray { trigger, name, .. } => "shell var `"@ + name
            + "` in snippet `"@ + trigger + "` must declare a non-empty cmd array"@,
        LoadErrorV::ShellTimeoutInvalid { trigger, name, .. } => "shell var `"@ + name
            + "` in snippet `"@ + trigger + "` must declare timeout_ms <= 10000"@,
        LoadErrorV::RootEscape { message, .. } => message,
    }
}

impl LoadError {
    /// The path the error is about.
    pub fn path(&self) -> (r: &String)
        ensures
            r@ == err_path(err_view(*self)),
    {
        match self {
            LoadError::Io { path, .. } => path,
            LoadError::Parse { path, .. } => path,
            LoadError::MissingVersion { path } => path,
            LoadError::UnsupportedVersion { path, .. } => path,
            LoadError::RelativePath { path } => path,
            LoadError::DuplicateTrigger { path, .. } => path,
            LoadError::InvalidSettings { path, .. } => path,
            LoadError::TooManyCursorTokens { path, .. } => path,
            LoadError::ShellCmdNotArray { path, .. } => path,
            LoadError::ShellTimeoutInvalid { path, .. } => path,
            LoadError::RootEscape { path, .. } => path,
        }
    }

    /// The message shown for the error.
    pub fn message(&self) -> (r: String)
        ensures
            r@ == err_message(err_view(*self)),
    {
        match self {
            LoadError::Io { message, .. } => message.clone(),
            LoadError::Parse { message, .. } => message.clone(),
            LoadError::MissingVersion { .. } => String::from_str("missing required version: 1"),
            LoadError::UnsupportedVersion { version, .. } => {
                let digits = u64_to_decimal(*version as u64);
                concat_str("unsupported version: ", digits.as_str())
            },
            LoadError::RelativePath { .. } => String::from_str("failed to derive relative path"),
            LoadError::DuplicateTrigger { trigger, .. } => concat_str(
                "duplicate trigger in file: ",
                trigger.as_str(),
            ),
            LoadError::InvalidSettings { message, .. } => message.clone(),
            LoadError::TooManyCursorTokens { trigger, .. } => concat_str(
                "too many cursor tokens in snippet: ",
                trigger.as_str(),
            ),
            LoadError::ShellCmdNotArray { trigger, name, .. } => {
                let a = concat_str("shell var `", name.as_str());
                let b = concat_str(a.as_str(), "` in snippet `");
                let c = concat_str(b.as_str(), trigger.as_str());
                concat_str(c.as_str(), "` must declare a non-empty cmd array")
            },
            LoadError::ShellTimeoutInvalid { trigger, name, .. } => {
                let a = concat_str("shell var `", name.as_str());
                let b = concat_str(a.as_str(), "` in snippet `");
                let c = concat_str(b.as_str(), trigger.as_str());
                concat_str(c.as_str(), "` must declare timeout_ms <= 10000")
            },
            LoadError::RootEscape { message, .. } => message.clone(),
        }
    }
}

/// What a load yields: the settings in force, the snippets that loaded, and
/// every error met.
#[derive(Debug, Clone, PartialEq, Eq)]
pub struct LoadResult {
    pub settings: StoreSettings,
    pub snippets: Vec<Snippet>,
    pub errors: Vec<LoadError>,
}

/// One snippet entry of a parsed file.
#[derive(Debug, Clone, PartialEq, Eq)]
pub struct SnippetDocument {
    pub trigger: String,
    pub trigger_literal: bool,
    pub replace: String,
    pub vars: Vec<VarDecl>,
}

/// A parsed snippet file.
#[derive(Debug, Clone, PartialEq, Eq)]
pub struct RootDocument {
    pub version: Option<u32>,
    pub snippets: Vec<SnippetDocument>,
}

/// A trigger prefix is 1 to 3 characters, none alphanumeric or whitespace.
pub open spec fn prefix_valid(p: Seq<char>) -> bool {
    1 <= p.len() <= 3 && forall|i: int|
        0 <= i < p.len() ==> !unicode_alphanumeric(#[trigger] p[i]) && !unicode_white_space(p[i])
}

/// The message given for an invalid trigger prefix.
pub open spec fn invalid_prefix_message() -> Seq<char> {
    "invalid trigger_prefix: must be 1-3 punctuation/symbol characters with no letters, digits, or whitespace"@
}

/// Accepts `trigger_prefix` exactly when it is valid; otherwise an
/// `InvalidSettings` error about `path`.
pub fn validate_trigger_prefix(path: &str, trigger_prefix: &str) -> (r: Result<(), LoadError>)
    ensures
        r is Ok <==> prefix_valid(trigger_prefix@),
        r matches Err(e) ==> err_view(e) == (LoadErrorV::InvalidSettings {
            path: path@,
            message: invalid_prefix_message(),
        }),
{
    let v = chars_of(trigger_prefix);
    let mut valid = 1 <= v.len() && v.len() <= 3;
    let mut i: usize = 0;
    while i < v.len()
        invariant
            i <= v@.len(),
            v@ == trigger_prefix@,
            valid == (1 <= v@.len() <= 3 && forall|j: int|
                0 <= j < i ==> !unicode_alphanumeric(#[trigger] v@[j]) && !unicode_white_space(v@[j])),
        decreases v.len() - i,
    {
        let c = v[i];
        if char_is_alphanumeric(c) || char_is_whitespace(c) {
            valid = false;
        }
        i = i + 1;
    }
    if valid {
        Ok(())
    } else {
        Err(
            LoadError::InvalidSettings {
                path: String::from_str(path),
                message: String::from_str(
                    "invalid trigger_prefix: must be 1-3 punctuation/symbol characters with no letters, digits, or whitespace",
                ),
            },
        )
    }
}

/// The effective trigger: the written trigger when it is literal or already
/// starts with the prefix, otherwise the prefix followed by it.
pub open spec fn spec_effective_trigger(trigger: Seq<char>, literal: bool, prefix: Seq<char>) -> Seq<char> {
    if literal || prefix.is_prefix_of(trigger) {
        trigger
    } else {
        prefix + trigger
    }
}

fn starts_with(s: &str, prefix: &str) -> (r: bool)
    ensures
        r == prefix@.is_prefix_of(s@),
{
    let vs = chars_of(s);
    let vp = chars_of(prefix);
    if vp.len() > vs.len() {
        return false;
    }
    let mut i: usize = 0;
    while i < vp.len()
        invariant
            vp@.len() <= vs@.len(),
            vs@ == s@,
            vp@ == prefix@,
            i <= vp@.len(),
            forall|j: int| 0 <= j < i ==> vp@[j] == vs@[j],
        decreases vp.len() - i,
    {
        if vp[i] != vs[i] {
            return false;
        }
        i = i + 1;
    }
    true
}

/// The trigger a snippet answers to under `settings`.
pub fn effective_trigger(trigger: &str, trigger_literal: bool, settings: &StoreSettings) -> (r: String)
    ensures
        r@ == spec_effective_trigger(trigger@, trigger_literal, settings.trigger_prefix@),
{
    if trigger_literal || starts_with(trigger, settings.trigger_prefix.as_str()) {
        String::from_str(trigger)
    } else {
        concat_str(settings.trigger_prefix.as_str(), trigger)
    }
}

/// The path of the settings file under `root`.
pub fn settings_path(root: &str) -> (r: String)
    ensures
        r@ == std_path_join(root@, SETTINGS_FILE_NAME@),
{
    path_join(root, SETTINGS_FILE_NAME)
}

/// The settings in force given what reading the settings file at `path`
/// gave: `None` when there is no such file (defaults), a read or parse error
/// as is, or the parsed settings once their prefix is checked.
pub fn load_settings(path: &str, read: Option<Result<StoreSettings, LoadError>>) -> (r: Result<StoreSettings, LoadError>)
    ensures
        match read {
            None => (r matches Ok(s) && s.trigger_prefix@ == seq![';'] && s.expand_mode
                == ExpandMode::Manual),
            Some(Err(e)) => r == Err::<StoreSettings, LoadError>(e),
            Some(Ok(s)) => if prefix_valid(s.trigger_prefix@) {
                r == Ok::<StoreSettings, LoadError>(s)
            } else {
                (r matches Err(e) && err_view(e) == (LoadErrorV::InvalidSettings {
                    path: path@,
                    message: invalid_prefix_message(),
                }))
            },
        },
{
    match read {
        None => Ok(StoreSettings::default()),
        Some(Err(e)) => Err(e),
        Some(Ok(settings)) => {
            validate_trigger_prefix(path, settings.trigger_prefix.as_str())?;
            Ok(settings)
        },
    }
}

/// The first problem among shell declarations `i..`: a shell variable needs
/// a non-empty command and a timeout of at most 10000 ms.
pub open spec fn shell_problem_from(path: Seq<char>, trigger: Seq<char>, vars: Seq<VarDecl>, i: int) -> Option<LoadErrorV>
    decreases vars.len() - i,
{
    if i < 0 || i >= vars.len() {
        None
    } else if vars[i].kind == VarKind::Shell && vars[i].cmd@.len() == 0 {
        Some(LoadErrorV::ShellCmdNotArray { path, trigger, name: vars[i].name@ })
    } else if vars[i].kind == VarKind::Shell && (vars[i].timeout_ms is None
        || vars[i].timeout_ms->0 > 10_000) {
        Some(LoadErrorV::ShellTimeoutInvalid { path, trigger, name: vars[i].name@ })
    } else {
        shell_problem_from(path, trigger, vars, i + 1)
    }
}

/// What is wrong with one snippet entry, if anything: more than one cursor
/// marker, then the first bad shell declaration.
pub open spec fn snippet_problem(path: Seq<char>, doc: SnippetDocument) -> Option<LoadErrorV> {
    if spec_strip(doc.replace@) is Err {
        Some(LoadErrorV::TooManyCursorTokens { path, trigger: doc.trigger@ })
    } else {
        shell_problem_from(path, doc.trigger@, doc.vars@, 0)
    }
}

/// Checks one snippet entry of the file at `path`.
pub fn validate_snippet(path: &str, snippet: &SnippetDocument) -> (r: Result<(), LoadError>)
    ensures
        match snippet_problem(path@, *snippet) {
            None => r is Ok,
            Some(p) => (r matches Err(e) && err_view(e) == p),
        },
{
    if strip_cursor_token(snippet.replace.as_str()).is_err() {
        return Err(
            LoadError::TooManyCursorTokens {
                path: String::from_str(path),
                trigger: snippet.trigger.clone(),
            },
        );
    }
    let ghost trig = snippet.trigger@;
    let mut i: usize = 0;
    while i < snippet.vars.len()
        invariant
            i <= snippet.vars@.len(),
            spec_strip(snippet.replace@) is Ok,
            trig == snippet.trigger@,
            shell_problem_from(path@, snippet.trigger@, snippet.vars@, 0) == shell_problem_from(
                path@,
                snippet.trigger@,
                snippet.vars@,
                i as int,
            ),
        decreases snippet.vars.len() - i,
    {
        let var = &snippet.vars[i];
        proof {
            assert(shell_problem_from(path@, trig, snippet.vars@, i as int) == if snippet.vars@[i as int].kind
                == VarKind::Shell && snippet.vars@[i as int].cmd@.len() == 0 {
                Some(LoadErrorV::ShellCmdNotArray { path: path@, trigger: trig, name: snippet.vars@[i as int].name@ })
            } else if snippet.vars@[i as int].kind == VarKind::Shell && (snippet.vars@[i as int].timeout_ms is None
                || snippet.vars@[i as int].timeout_ms->0 > 10_000) {
                Some(LoadErrorV::ShellTimeoutInvalid { path: path@, trigger: trig, name: snippet.vars@[i as int].name@ })
            } else {
                shell_problem_from(path@, trig, snippet.vars@, i + 1)
            });
        }
        if var.kind == VarKind::Shell {
            if var.cmd.len() == 0 {
                return Err(
                    LoadError::ShellCmdNotArray {
                        path: String::from_str(path),
                        trigger: snippet.trigger.clone(),
                        name: var.name.clone(),
                    },
                );
            }
            let bad_timeout = match var.timeout_ms {
                None => true,
                Some(t) => t > 10_000,
            };
            if bad_timeout {
                return Err(
                    LoadError::ShellTimeoutInvalid {
                        path: String::from_str(path),
                        trigger: snippet.trigger.clone(),
                        name: var.name.clone(),
                    },
                );
            }
        }
        i = i + 1;
    }
    Ok(())
}

/// The effective triggers of a file's entries.
pub open spec fn doc_effs(docs: Seq<SnippetDocument>, prefix: Seq<char>) -> Seq<Seq<char>> {
    docs.map_values(
        |d: SnippetDocument| spec_effective_trigger(d.trigger@, d.trigger_literal, prefix),
    )
}

/// The problem of entry `k`: its effective trigger repeats an earlier one of
/// the same file, or the entry itself is invalid.
pub open spec fn entry_problem(path: Seq<char>, docs: Seq<SnippetDocument>, prefix: Seq<char>, k: int) -> Option<LoadErrorV> {
    let effs = doc_effs(docs, prefix);
    if exists|j: int| 0 <= j < k && effs[j] == effs[k] {
        Some(LoadErrorV::DuplicateTrigger { path, trigger: effs[k] })
    } else {
        snippet_problem(path, docs[k])
    }
}

/// The first entry problem among entries `k..`.
pub open spec fn first_entry_problem(path: Seq<char>, docs: Seq<SnippetDocument>, prefix: Seq<char>, k: int) -> Option<LoadErrorV>
    decreases docs.len() - k,
{
    if k < 0 || k >= docs.len() {
        None
    } else if entry_problem(path, docs, prefix, k) is Some {
        entry_problem(path, docs, prefix, k)
    } else {
        first_entry_problem(path, docs, prefix, k + 1)
    }
}

/// `s` is the snippet built from entry `doc` of the file at `path` whose
/// relative name is `rel`, under effective trigger `eff`.
pub open spec fn snippet_from(s: Snippet, doc: SnippetDocument, rel: Seq<char>, eff: Seq<char>, path: Seq<char>) -> bool {
    &&& s.id@ == rel + "::"@ + eff
    &&& s.trigger@ == eff
    &&& s.raw_trigger == doc.trigger
    &&& s.trigger_literal == doc.trigger_literal
    &&& s.replace == doc.replace
    &&& s.vars == doc.vars
    &&& s.source_file@ == path
}

/// What loading the parsed file at `path` under `root` yields: a missing or
/// unsupported version, a path outside `root`, or the first entry problem
/// are errors; otherwise one snippet per entry, identified by the file's
/// path relative to `root` (with forward slashes) and its effective trigger.
pub open spec fn file_result_ok(
    root: Seq<char>,
    path: Seq<char>,
    doc: RootDocument,
    prefix: Seq<char>,
    r: Result<Vec<Snippet>, LoadError>,
) -> bool {
    if doc.version is None {
        r matches Err(e) && err_view(e) == (LoadErrorV::MissingVersion { path })
    } else if doc.version->0 != 1 {
        r matches Err(e) && err_view(e) == (LoadErrorV::UnsupportedVersion {
            path,
            version: doc.version->0,
        })
    } else if std_strip_prefix(path, root) is None {
        r matches Err(e) && err_view(e) == (LoadErrorV::RelativePath { path })
    } else {
        let rel = forward_slashes(std_strip_prefix(path, root)->0);
        let docs = doc.snippets@;
        match first_entry_problem(path, docs, prefix, 0) {
            Some(p) => (r matches Err(e) && err_view(e) == p),
            None => (r matches Ok(v) && v@.len() == docs.len() && forall|k: int|
                0 <= k < docs.len() ==> #[trigger] snippet_from(
                    v@[k],
                    docs[k],
                    rel,
                    doc_effs(docs, prefix)[k],
                    path,
                )),
        }
    }
}

fn contains_str(v: &Vec<String>, s: &str) -> (r: bool)
    ensures
        r == exists|j: int| 0 <= j < v@.len() && (#[trigger] v@[j])@ == s@,
{
    let mut i: usize = 0;
    while i < v.len()
        invariant
            i <= v@.len(),
            forall|j: int| 0 <= j < i ==> (#[trigger] v@[j])@ != s@,
        decreases v.len() - i,
    {
        if str_eq(v[i].as_str(), s) {
            return true;
        }
        i = i + 1;
    }
    false
}

/// Loads the parsed file at `path` under `root` with `settings` in force.
pub fn load_file(root: &str, path: &str, document: RootDocument, settings: &StoreSettings) -> (r: Result<Vec<Snippet>, LoadError>)
    ensures
        file_result_ok(root@, path@, document, settings.trigger_prefix@, r),
{
    let version = match document.version {
        None => return Err(LoadError::MissingVersion { path: String::from_str(path) }),
        Some(v) => v,
    };
    if version != 1 {
        return Err(LoadError::UnsupportedVersion { path: String::from_str(path), version });
    }
    let rel = match path_strip_prefix(path, root) {
        None => return Err(LoadError::RelativePath { path: String::from_str(path) }),
        Some(rel) => to_forward_slashes(rel.as_str()),
    };
    let ghost docs = document.snippets@;
    let ghost prefix = settings.trigger_prefix@;
    let ghost effs = doc_effs(docs, prefix);
    let mut remaining = document.snippets;
    let mut seen: Vec<String> = Vec::new();
    let mut snippets: Vec<Snippet> = Vec::new();
    let n = remaining.len();
    let mut k: usize = 0;
    while k < n
        invariant
            n == docs.len(),
            k <= n,
            docs == document.snippets@,
            document.version == Some(1u32),
            std_strip_prefix(path@, root@) is Some,
            remaining@ == docs.skip(k as int),
            effs == doc_effs(docs, prefix),
            prefix == settings.trigger_prefix@,
            seen@.len() == k,
            forall|j: int| 0 <= j < k ==> (#[trigger] seen@[j])@ == effs[j],
            first_entry_problem(path@, docs, prefix, 0) == first_entry_problem(path@, docs, prefix, k as int),
            snippets@.len() == k,
            forall|j: int|
                0 <= j < k ==> #[trigger] snippet_from(snippets@[j], docs[j], rel@, effs[j], path@),
        decreases n - k,
    {
        let doc = remaining.remove(0);
        assert(doc == docs[k as int]);
        let eff = effective_trigger(doc.trigger.as_str(), doc.trigger_literal, settings);
        assert(eff@ == effs[k as int]);
        if contains_str(&seen, eff.as_str()) {
            proof {
                let j = choose|j: int| 0 <= j < seen@.len() && (#[trigger] seen@[j])@ == eff@;
                assert(0 <= j < k && effs[j] == effs[k as int]);
                assert(entry_problem(path@, docs, prefix, k as int) == Some(
                    LoadErrorV::DuplicateTrigger { path: path@, trigger: effs[k as int] },
                ));
                assert(first_entry_problem(path@, docs, prefix, 0) == Some(
                    LoadErrorV::DuplicateTrigger { path: path@, trigger: effs[k as int] },
                ));
            }
            return Err(LoadError::DuplicateTrigger { path: String::from_str(path), trigger: eff });
        }
        proof {
            assert(!exists|j: int| 0 <= j < k && effs[j] == effs[k as int]) by {
                if exists|j: int| 0 <= j < k && effs[j] == effs[k as int] {
                    let j = choose|j: int| 0 <= j < k && effs[j] == effs[k as int];
                    assert(seen@[j]@ == eff@);
                }
            }
        }
        assert(entry_problem(path@, docs, prefix, k as int) == snippet_problem(path@, doc));
        match validate_snippet(path, &doc) {
            Ok(()) => {},
            Err(e) => {
                assert(first_entry_problem(path@, docs, prefix, 0) == Some(err_view(e)));
                return Err(e);
            },
        }
        assert(first_entry_problem(path@, docs, prefix, k as int) == first_entry_problem(
            path@,
            docs,
            prefix,
            k + 1,
        ));
        let id = concat_str(concat_str(rel.as_str(), "::").as_str(), eff.as_str());
        seen.push(eff.clone());
        snippets.push(
            Snippet {
                id,
                trigger: eff,
                raw_trigger: doc.trigger,
                trigger_literal: doc.trigger_literal,
                replace: doc.replace,
                vars: doc.vars,
                source_file: String::from_str(path),
            },
        );
        proof {
            assert(remaining@ =~= docs.skip(k + 1));
        }
        k = k + 1;
    }
    Ok(snippets)
}


/// The text forms of a list of errors.
pub open spec fn errs_view(v: Seq<LoadError>) -> Seq<LoadErrorV> {
    v.map_values(|e: LoadError| err_view(e))
}

/// The snippets of every file that loaded, in file order.
pub open spec fn loaded_snippets(outs: Seq<Result<Vec<Snippet>, LoadError>>) -> Seq<Snippet>
    decreases outs.len(),
{
    if outs.len() == 0 {
        Seq::empty()
    } else {
        loaded_snippets(outs.drop_last()) + match outs.last() {
            Ok(v) => v@,
            Err(_) => Seq::empty(),
        }
    }
}

/// The snippet at position `p` has the trigger of an earlier one.
pub open spec fn repeats_earlier(all: Seq<Snippet>, p: int) -> bool {
    exists|j: int| 0 <= j < p && (#[trigger] all[j]).trigger@ == all[p].trigger@
}

/// One duplicate-trigger error for each snippet at positions `lo..hi` that
/// repeats an earlier trigger, reported against that snippet's file.
pub open spec fn duplicate_errors(all: Seq<Snippet>, lo: int, hi: int) -> Seq<LoadErrorV>
    decreases hi - lo,
{
    if hi <= lo {
        Seq::empty()
    } else {
        duplicate_errors(all, lo, hi - 1) + if repeats_earlier(all, hi - 1) {
            seq![
                LoadErrorV::DuplicateTrigger {
                    path: all[hi - 1].source_file@,
                    trigger: all[hi - 1].trigger@,
                },
            ]
        } else {
            Seq::empty()
        }
    }
}

/// The errors met while merging per-file outcomes: a file's own error, or
/// one error per snippet of it whose trigger was already taken.
pub open spec fn merge_errors(outs: Seq<Result<Vec<Snippet>, LoadError>>) -> Seq<LoadErrorV>
    decreases outs.len(),
{
    if outs.len() == 0 {
        Seq::empty()
    } else {
        merge_errors(outs.drop_last()) + match outs.last() {
            Err(e) => seq![err_view(e)],
            Ok(_) => duplicate_errors(
                loaded_snippets(outs),
                loaded_snippets(outs.drop_last()).len() as int,
                loaded_snippets(outs).len() as int,
            ),
        }
    }
}

/// No other snippet of `all` has the trigger of the one at `p`.
pub open spec fn trigger_unique(all: Seq<Snippet>, p: int) -> bool {
    forall|j: int| 0 <= j < all.len() && j != p ==> (#[trigger] all[j]).trigger@ != all[p].trigger@
}

/// The snippets among the first `n` of `all` whose trigger no other snippet
/// of `all` shares, in order.
pub open spec fn unique_snippets(all: Seq<Snippet>, n: int) -> Seq<Snippet>
    decreases n,
{
    if n <= 0 {
        Seq::empty()
    } else {
        unique_snippets(all, n - 1) + if trigger_unique(all, n - 1) {
            seq![all[n - 1]]
        } else {
            Seq::empty()
        }
    }
}

/// `out` is what loading `file` (its path and what reading and parsing it
/// gave) yields under trigger prefix `prefix`.
pub open spec fn file_outcome(
    root: Seq<char>,
    file: (String, Result<RootDocument, LoadError>),
    prefix: Seq<char>,
    out: Result<Vec<Snippet>, LoadError>,
) -> bool {
    match file.1 {
        Err(e) => out == Err::<Vec<Snippet>, LoadError>(e),
        Ok(doc) => file_result_ok(root, file.0@, doc, prefix, out),
    }
}

/// `r` is the merge of the per-file outcomes `outs` of `files`, after the
/// walk's own errors.
pub open spec fn merged_from(
    root: Seq<char>,
    files: Seq<(String, Result<RootDocument, LoadError>)>,
    walk_errors: Seq<LoadError>,
    outs: Seq<Result<Vec<Snippet>, LoadError>>,
    r: LoadResult,
) -> bool {
    &&& outs.len() == files.len()
    &&& forall|k: int|
        0 <= k < files.len() ==> #[trigger] file_outcome(
            root,
            files[k],
            r.settings.trigger_prefix@,
            outs[k],
        )
    &&& errs_view(r.errors@) == errs_view(walk_errors) + merge_errors(outs)
    &&& r.snippets@ == unique_snippets(loaded_snippets(outs), loaded_snippets(outs).len() as int)
}

proof fn lemma_duplicate_errors_prefix(a: Seq<Snippet>, b: Seq<Snippet>, lo: int, hi: int)
    requires
        hi <= a.len(),
        hi <= b.len(),
        forall|j: int| 0 <= j < hi ==> a[j] == b[j],
    ensures
        duplicate_errors(a, lo, hi) == duplicate_errors(b, lo, hi),
    decreases hi - lo,
{
    if hi > lo {
        lemma_duplicate_errors_prefix(a, b, lo, hi - 1);
        if hi - 1 >= 0 {
            assert(repeats_earlier(a, hi - 1) == repeats_earlier(b, hi - 1)) by {
                if repeats_earlier(a, hi - 1) {
                    let j = choose|j: int| 0 <= j < hi - 1 && (#[trigger] a[j]).trigger@ == a[hi
                        - 1].trigger@;
                    assert(b[j].trigger@ == b[hi - 1].trigger@);
                }
                if repeats_earlier(b, hi - 1) {
                    let j = choose|j: int| 0 <= j < hi - 1 && (#[trigger] b[j]).trigger@ == b[hi
                        - 1].trigger@;
                    assert(a[j].trigger@ == a[hi - 1].trigger@);
                }
            }
        }
    }
}

fn trigger_taken(all: &Vec<Snippet>, trigger: &str) -> (r: bool)
    ensures
        r == exists|j: int| 0 <= j < all@.len() && (#[trigger] all@[j]).trigger@ == trigger@,
{
    let mut i: usize = 0;
    while i < all.len()
        invariant
            i <= all@.len(),
            forall|j: int| 0 <= j < i ==> (#[trigger] all@[j]).trigger@ != trigger@,
        decreases all.len() - i,
    {
        if str_eq(all[i].trigger.as_str(), trigger) {
            return true;
        }
        i = i + 1;
    }
    false
}

/// Moves the snippets of one loaded file onto `all`, reporting each whose
/// trigger was already taken.
fn append_loaded(all: &mut Vec<Snippet>, errors: &mut Vec<LoadError>, loaded: Vec<Snippet>)
    ensures
        final(all)@ == old(all)@ + loaded@,
        errs_view(final(errors)@) == errs_view(old(errors)@) + duplicate_errors(
            final(all)@,
            old(all)@.len() as int,
            final(all)@.len() as int,
        ),
{
    let ghost all0 = all@;
    let ghost errs0 = errs_view(errors@);
    let ghost lv = loaded@;
    let mut remaining = loaded;
    let n = remaining.len();
    let mut k: usize = 0;
    while k < n
        invariant
            n == lv.len(),
            k <= n,
            remaining@ == lv.skip(k as int),
            all@ == all0 + lv.take(k as int),
            errs_view(errors@) == errs0 + duplicate_errors(all@, all0.len() as int, all@.len() as int),
        decreases n - k,
    {
        let s = remaining.remove(0);
        assert(s == lv[k as int]);
        let taken = trigger_taken(all, s.trigger.as_str());
        let ghost before = all@;
        let ghost errs_b = errors@;
        if taken {
            errors.push(
                LoadError::DuplicateTrigger { path: s.source_file.clone(), trigger: s.trigger.clone() },
            );
        }
        all.push(s);
        proof {
            let p = before.len() as int;
            assert(all@[p] == s);
            assert(repeats_earlier(all@, p) == taken) by {
                if taken {
                    let j = choose|j: int| 0 <= j < before.len() && (#[trigger] before[j]).trigger@ == s.trigger@;
                    assert(all@[j] == before[j]);
                }
                if repeats_earlier(all@, p) {
                    let j = choose|j: int| 0 <= j < p && (#[trigger] all@[j]).trigger@ == all@[p].trigger@;
                    assert(before[j] == all@[j]);
                }
            }
            lemma_duplicate_errors_prefix(before, all@, all0.len() as int, p);
            assert(lv.take(k + 1) =~= lv.take(k as int).push(s));
            assert(remaining@ =~= lv.skip(k + 1));
            assert(duplicate_errors(all@, all0.len() as int, p + 1) == duplicate_errors(
                all@,
                all0.len() as int,
                p,
            ) + if repeats_earlier(all@, p) {
                seq![LoadErrorV::DuplicateTrigger { path: s.source_file@, trigger: s.trigger@ }]
            } else {
                Seq::empty()
            });
            if taken {
                assert(errs_view(errors@) =~= errs_view(errs_b).push(
                    LoadErrorV::DuplicateTrigger { path: s.source_file@, trigger: s.trigger@ },
                ));
            } else {
                assert(errors@ == errs_b);
            }
        }
        k = k + 1;
    }
    assert(lv.take(n as int) =~= lv);
}

fn unique_at(all: &Vec<Snippet>, p: usize) -> (r: bool)
    requires
        p < all@.len(),
    ensures
        r == trigger_unique(all@, p as int),
{
    let mut j: usize = 0;
    while j < all.len()
        invariant
            p < all@.len(),
            j <= all@.len(),
            forall|i: int| 0 <= i < j && i != p ==> (#[trigger] all@[i]).trigger@ != all@[p as int].trigger@,
        decreases all.len() - j,
    {
        if j != p && str_eq(all[j].trigger.as_str(), all[p].trigger.as_str()) {
            return false;
        }
        j = j + 1;
    }
    true
}

/// Keeps the snippets whose trigger no other snippet shares.
fn keep_unique(all: Vec<Snippet>) -> (r: Vec<Snippet>)
    ensures
        r@ == unique_snippets(all@, all@.len() as int),
{
    let ghost av = all@;
    let mut keep: Vec<bool> = Vec::new();
    let mut p: usize = 0;
    while p < all.len()
        invariant
            av == all@,
            p <= all@.len(),
            keep@.len() == p,
            forall|i: int| 0 <= i < p ==> keep@[i] == trigger_unique(av, i),
        decreases all.len() - p,
    {
        let u = unique_at(&all, p);
        keep.push(u);
        p = p + 1;
    }
    let n = all.len();
    let mut remaining = all;
    let mut out: Vec<Snippet> = Vec::new();
    let mut k: usize = 0;
    while k < n
        invariant
            n == av.len(),
            k <= n,
            keep@.len() == n,
            forall|i: int| 0 <= i < n ==> keep@[i] == trigger_unique(av, i),
            remaining@ == av.skip(k as int),
            out@ == unique_snippets(av, k as int),
        decreases n - k,
    {
        let s = remaining.remove(0);
        assert(s == av[k as int]);
        if keep[k] {
            out.push(s);
        }
        proof {
            assert(remaining@ =~= av.skip(k + 1));
        }
        k = k + 1;
    }
    out
}

/// `sorted` holds the entries of `files`, each as often, in path order: no
/// entry's path comes before the path of the entry just ahead of it.
pub open spec fn sorted_by_path<T>(files: Seq<(String, T)>, sorted: Seq<(String, T)>) -> bool {
    &&& sorted.to_multiset() == files.to_multiset()
    &&& forall|k: int|
        0 <= k < sorted.len() - 1 ==> !std_path_lt(#[trigger] sorted[k + 1].0@, sorted[k].0@)
}

/// Where an entry with path `key` goes among `out`, which is in path order:
/// after every entry whose path `key` does not come before.
fn insertion_point<T>(out: &Vec<(String, T)>, key: &str) -> (j: usize)
    ensures
        j <= out@.len(),
        forall|m: int|
            j <= m < out@.len() ==> std_path_lt(key@, (#[trigger] out@[m]).0@) && !std_path_lt(
                out@[m].0@,
                key@,
            ),
        j > 0 ==> !std_path_lt(key@, out@[j - 1].0@),
{
    let mut j: usize = out.len();
    while j > 0
        invariant
            j <= out@.len(),
            forall|m: int|
                j <= m < out@.len() ==> std_path_lt(key@, (#[trigger] out@[m]).0@) && !std_path_lt(
                    out@[m].0@,
                    key@,
                ),
        decreases j,
    {
        if !path_lt(key, out[j - 1].0.as_str()) {
            return j;
        }
        j = j - 1;
    }
    j
}

/// Sorts `files` by path, keeping entries with equal paths in their order.
pub fn sort_by_path<T>(files: Vec<(String, T)>) -> (r: Vec<(String, T)>)
    ensures
        sorted_by_path(files@, r@),
{
    broadcast use vstd::seq_lib::group_to_multiset_ensures, vstd::multiset::group_multiset_axioms;

    let ghost all = files@;
    let mut rest = files;
    let mut out: Vec<(String, T)> = Vec::new();
    proof {
        assert(out@.to_multiset() =~= vstd::multiset::Multiset::empty());
    }
    while rest.len() > 0
        invariant
            out@.to_multiset().add(rest@.to_multiset()) == all.to_multiset(),
            forall|k: int|
                0 <= k < out@.len() - 1 ==> !std_path_lt(#[trigger] out@[k + 1].0@, out@[k].0@),
        decreases rest.len(),
    {
        let ghost rest0 = rest@;
        let x = rest.remove(0);
        proof {
            vstd::seq_lib::to_multiset_remove(rest0, 0);
        }
        let j = insertion_point(&out, x.0.as_str());
        let ghost out0 = out@;
        out.insert(j, x);
        proof {
            vstd::seq_lib::to_multiset_insert(out0, j as int, x);
            assert(rest0[0] == x);
            vstd::seq_lib::to_multiset_contains(rest0, x);
            assert(rest0.contains(x));
            assert(rest0.to_multiset().count(x) > 0);
            assert(out@.to_multiset().add(rest@.to_multiset()) =~= all.to_multiset());
            assert forall|k: int| 0 <= k < out@.len() - 1 implies !std_path_lt(
                #[trigger] out@[k + 1].0@,
                out@[k].0@,
            ) by {
                if k + 1 < j {
                    assert(out@[k + 1] == out0[k + 1] && out@[k] == out0[k]);
                    assert(!std_path_lt(out0[k + 1].0@, out0[k].0@));
                } else if k + 1 == j {
                    assert(out@[k + 1] == x && out@[k] == out0[k]);
                } else if k == j {
                    assert(out@[k + 1] == out0[k] && out@[k] == x);
                    assert(!std_path_lt(out0[k].0@, x.0@));
                } else {
                    assert(out@[k + 1] == out0[k] && out@[k] == out0[k - 1]);
                    let k1 = k - 1;
                    assert(!std_path_lt(out0[k1 + 1].0@, out0[k1].0@));
                }
            }
        }
    }
    proof {
        assert(rest@.to_multiset() =~= vstd::multiset::Multiset::empty());
        assert(out@.to_multiset() =~= all.to_multiset());
    }
    out
}

/// Loads a snippet store: `settings_read` is what reading the settings file
/// gave (`None` when there is none), `walk_errors` what walking the root
/// reported, and `files` each snippet file found with what reading and
/// parsing it gave. A settings error ends the load with that one error;
/// otherwise the files are loaded in path order, every snippet repeating a
/// trigger already taken is reported, and only snippets whose trigger is
/// unique stay.
pub fn load_from_root(
    root: &str,
    settings_read: Option<Result<StoreSettings, LoadError>>,
    walk_errors: Vec<LoadError>,
    files: Vec<(String, Result<RootDocument, LoadError>)>,
) -> (r: LoadResult)
    ensures
        ({
            let spath = std_path_join(root@, SETTINGS_FILE_NAME@);
            match settings_read {
                Some(Err(e)) => {
                    &&& r.settings.trigger_prefix@ == seq![';']
                    &&& r.settings.expand_mode == ExpandMode::Manual
                    &&& r.snippets@.len() == 0
                    &&& r.errors@ == seq![e]
                },
                Some(Ok(s)) => if prefix_valid(s.trigger_prefix@) {
                    &&& r.settings == s
                    &&& exists|sorted: Seq<(String, Result<RootDocument, LoadError>)>, outs: Seq<Result<Vec<Snippet>, LoadError>>|
                        sorted_by_path(files@, sorted) && #[trigger] merged_from(root@, sorted, walk_errors@, outs, r)
                } else {
                    &&& r.settings.trigger_prefix@ == seq![';']
                    &&& r.settings.expand_mode == ExpandMode::Manual
                    &&& r.snippets@.len() == 0
                    &&& errs_view(r.errors@) == seq![
                        LoadErrorV::InvalidSettings { path: spath, message: invalid_prefix_message() },
                    ]
                },
                None => {
                    &&& r.settings.trigger_prefix@ == seq![';']
                    &&& r.settings.expand_mode == ExpandMode::Manual
                    &&& exists|sorted: Seq<(String, Result<RootDocument, LoadError>)>, outs: Seq<Result<Vec<Snippet>, LoadError>>|
                        sorted_by_path(files@, sorted) && #[trigger] merged_from(root@, sorted, walk_errors@, outs, r)
                },
            }
        }),
{
    let spath = settings_path(root);
    let settings = match load_settings(spath.as_str(), settings_read) {
        Ok(s) => s,
        Err(e) => {
            let mut errors: Vec<LoadError> = Vec::new();
            errors.push(e);
            proof {
                assert(errs_view(errors@) =~= seq![err_view(e)]);
            }
            return LoadResult { settings: StoreSettings::default(), snippets: Vec::new(), errors };
        },
    };
    let files = sort_by_path(files);
    let ghost fv = files@;
    let ghost wv = walk_errors@;
    let ghost prefix = settings.trigger_prefix@;
    let mut errors = walk_errors;
    let mut all: Vec<Snippet> = Vec::new();
    let ghost mut outs: Seq<Result<Vec<Snippet>, LoadError>> = Seq::empty();
    let mut remaining = files;
    let n = remaining.len();
    let mut i: usize = 0;
    while i < n
        invariant
            n == fv.len(),
            i <= n,
            prefix == settings.trigger_prefix@,
            remaining@ == fv.skip(i as int),
            outs.len() == i,
            forall|k: int| 0 <= k < i ==> #[trigger] file_outcome(root@, fv[k], prefix, outs[k]),
            all@ == loaded_snippets(outs),
            errs_view(errors@) == errs_view(wv) + merge_errors(outs),
        decreases n - i,
    {
        let entry = remaining.remove(0);
        assert(entry == fv[i as int]);
        let (path, read) = entry;
        let res = match read {
            Err(e) => Err(e),
            Ok(doc) => load_file(root, path.as_str(), doc, &settings),
        };
        let ghost out = res;
        let ghost all_before = all@;
        let ghost errs_before = errs_view(errors@);
        match res {
            Err(e) => {
                errors.push(e);
                proof {
                    assert(errs_view(errors@) =~= errs_before.push(err_view(e)));
                }
            },
            Ok(loaded) => {
                append_loaded(&mut all, &mut errors, loaded);
            },
        }
        proof {
            let outs2 = outs.push(out);
            assert(outs2.drop_last() =~= outs);
            assert(outs2.last() == out);
            assert(all@ =~= loaded_snippets(outs2));
            assert(errs_view(errors@) =~= errs_view(wv) + merge_errors(outs2));
            assert forall|k: int| 0 <= k < i + 1 implies #[trigger] file_outcome(
                root@,
                fv[k],
                prefix,
                outs2[k],
            ) by {
                if k < i {
                    assert(outs2[k] == outs[k]);
                }
            }
            outs = outs2;
            assert(remaining@ =~= fv.skip(i + 1));
        }
        i = i + 1;
    }
    let snippets = keep_unique(all);
    let r = LoadResult { settings, snippets, errors };
    assert(merged_from(root@, fv, wv, outs, r));
    r
}


/// No two snippets that stay after a load share a trigger.
pub proof fn lemma_kept_snippets_have_unique_triggers(all: Seq<Snippet>, n: int)
    requires
        0 <= n <= all.len(),
    ensures
        forall|i: int, j: int|
            0 <= i < j < unique_snippets(all, n).len() ==> (#[trigger] unique_snippets(all, n)[i]).trigger@
                != (#[trigger] unique_snippets(all, n)[j]).trigger@,
        forall|i: int|
            0 <= i < unique_snippets(all, n).len() ==> all.contains(#[trigger] unique_snippets(all, n)[i]),
    decreases n,
{
    if n > 0 {
        lemma_kept_snippets_have_unique_triggers(all, n - 1);
        let prev = unique_snippets(all, n - 1);
        if trigger_unique(all, n - 1) {
            assert(unique_snippets(all, n) == prev.push(all[n - 1]));
            assert forall|i: int| 0 <= i < prev.len() implies (#[trigger] prev[i]).trigger@ != all[n
                - 1].trigger@ by {
                assert(all.contains(prev[i]));
                let k = choose|k: int| 0 <= k < all.len() && all[k] == prev[i];
                lemma_unique_snippets_from_prefix(all, n - 1, i);
            }
            assert(all.contains(all[n - 1]));
        } else {
            assert(unique_snippets(all, n) =~= prev);
        }
    }
}

/// Each kept snippet among the first `n` is a snippet at a position below
/// `n` whose trigger is unique.
proof fn lemma_unique_snippets_from_prefix(all: Seq<Snippet>, n: int, i: int)
    requires
        0 <= n <= all.len(),
        0 <= i < unique_snippets(all, n).len(),
    ensures
        exists|k: int|
            0 <= k < n && trigger_unique(all, k) && #[trigger] all[k] == unique_snippets(all, n)[i],
    decreases n,
{
    if n > 0 {
        let prev = unique_snippets(all, n - 1);
        if i < prev.len() {
            if trigger_unique(all, n - 1) {
                assert(unique_snippets(all, n)[i] == prev[i]);
            } else {
                assert(unique_snippets(all, n) =~= prev);
            }
            lemma_unique_snippets_from_prefix(all, n - 1, i);
        } else {
            assert(unique_snippets(all, n)[i] == all[n - 1]);
        }
    }
}

/// The effective trigger of a snippet that is not literal always starts
/// with the trigger prefix; a literal trigger is kept as written.
pub proof fn lemma_effective_trigger_has_prefix(trigger: Seq<char>, literal: bool, prefix: Seq<char>)
    ensures
        !literal ==> prefix.is_prefix_of(spec_effective_trigger(trigger, literal, prefix)),
        literal ==> spec_effective_trigger(trigger, literal, prefix) == trigger,
        prefix.is_prefix_of(trigger) ==> spec_effective_trigger(trigger, literal, prefix) == trigger,
{
    if !literal && !prefix.is_prefix_of(trigger) {
        assert((prefix + trigger).subrange(0, prefix.len() as int) =~= prefix);
    }
}

} // verus!
