//! Snippet-store commands: listing, saving into a file, store settings,
//! reloading and load errors. Reading and writing files happens outside;
//! these functions decide what is shown, what is written and what is refused.

use vstd::prelude::*;

use crate::chars::{
    concat_str, forward_slashes, join_windows_path, windows_join, path_join, path_strip_prefix, std_path_join, std_strip_prefix,
    to_forward_slashes,
};
use crate::store::loader::{
    doc_effs, err_path, err_message, err_view, errs_view, invalid_prefix_message, load_settings,
    prefix_valid, settings_path, spec_effective_trigger, validate_trigger_prefix,
    LoadError, LoadErrorV, LoadResult, SnippetDocument, SETTINGS_FILE_NAME,
};
use crate::store::loader::effective_trigger;
use crate::store::model::{clone_snippet, clone_vars, same_snippet, same_vars};
use crate::store::{ExpandMode, Snippet, StoreSettings, VarDecl};
use crate::store::watcher::SnapshotInner;

verus! {

/// A snippet as the settings window shows it.
#[derive(Debug, Clone, PartialEq, Eq)]
pub struct SnippetDto {
    pub id: String,
    pub trigger: String,
    pub effective_trigger: String,
    pub trigger_literal: bool,
    pub replace: String,
    pub vars: Vec<VarDecl>,
    pub source_file: String,
    pub file_relative: String,
}

/// A snippet to save into `source_file`, replacing the entry written with
/// `original_trigger` (and `original_trigger_literal`, when given).
#[derive(Debug, Clone, PartialEq, Eq)]
pub struct SaveSnippetDto {
    pub source_file: String,
    pub original_trigger: Option<String>,
    pub original_trigger_literal: Option<bool>,
    pub trigger: String,
    pub trigger_literal: bool,
    pub replace: String,
    pub vars: Vec<VarDecl>,
}

/// A load error as the settings window shows it.
#[derive(Debug, Clone, PartialEq, Eq)]
pub struct LoadErrorDto {
    pub path: String,
    pub message: String,
}

/// What a reload found.
#[derive(Debug, Clone, PartialEq, Eq)]
pub struct ReloadResult {
    pub loaded: usize,
    pub errors: Vec<LoadErrorDto>,
}

/// The loaded snippets and errors, with a revision counting replacements.
#[derive(Debug, Clone)]
pub struct SnippetStoreSnapshot {
    pub revision: u64,
    pub snippets: Vec<Snippet>,
    pub errors: Vec<LoadError>,
}

/// A snippet file as the save command reads and writes it.
#[derive(Debug, Clone, PartialEq, Eq)]
pub struct SnippetFile {
    pub version: u32,
    pub snippets: Vec<SnippetDocument>,
}

/// The snippet store: its root directory and current snapshot.
pub struct SnippetStoreState {
    root: String,
    snapshot: SnippetStoreSnapshot,
}

/// Two lists of snippets hold the same snippets in order.
pub open spec fn same_snippets(a: Seq<Snippet>, b: Seq<Snippet>) -> bool {
    a.len() == b.len() && forall|i: int| 0 <= i < a.len() ==> #[trigger] same_snippet(a[i], b[i])
}

/// Copies of `v`.
pub fn copy_snippets(v: &Vec<Snippet>) -> (r: Vec<Snippet>)
    ensures
        same_snippets(r@, v@),
{
    let mut r: Vec<Snippet> = Vec::new();
    let mut i: usize = 0;
    while i < v.len()
        invariant
            i <= v@.len(),
            r@.len() == i,
            forall|j: int| 0 <= j < i ==> #[trigger] same_snippet(r@[j], v@[j]),
        decreases v.len() - i,
    {
        r.push(clone_snippet(&v[i]));
        i = i + 1;
    }
    r
}

/// A copy of `e`.
pub fn copy_load_error(e: &LoadError) -> (r: LoadError)
    ensures
        r == *e,
{
    match e {
        LoadError::Io { path, message } => LoadError::Io { path: path.clone(), message: message.clone() },
        LoadError::Parse { path, message } => LoadError::Parse {
            path: path.clone(),
            message: message.clone(),
        },
        LoadError::MissingVersion { path } => LoadError::MissingVersion { path: path.clone() },
        LoadError::UnsupportedVersion { path, version } => LoadError::UnsupportedVersion {
            path: path.clone(),
            version: *version,
        },
        LoadError::RelativePath { path } => LoadError::RelativePath { path: path.clone() },
        LoadError::DuplicateTrigger { path, trigger } => LoadError::DuplicateTrigger {
            path: path.clone(),
            trigger: trigger.clone(),
        },
        LoadError::InvalidSettings { path, message } => LoadError::InvalidSettings {
            path: path.clone(),
            message: message.clone(),
        },
        LoadError::TooManyCursorTokens { path, trigger } => LoadError::TooManyCursorTokens {
            path: path.clone(),
            trigger: trigger.clone(),
        },
        LoadError::ShellCmdNotArray { path, trigger, name } => LoadError::ShellCmdNotArray {
            path: path.clone(),
            trigger: trigger.clone(),
            name: name.clone(),
        },
        LoadError::ShellTimeoutInvalid { path, trigger, name } => LoadError::ShellTimeoutInvalid {
            path: path.clone(),
            trigger: trigger.clone(),
            name: name.clone(),
        },
        LoadError::RootEscape { path, message } => LoadError::RootEscape {
            path: path.clone(),
            message: message.clone(),
        },
    }
}

/// Copies of `v`.
pub fn copy_load_errors(v: &Vec<LoadError>) -> (r: Vec<LoadError>)
    ensures
        r@ == v@,
{
    let mut r: Vec<LoadError> = Vec::new();
    let mut i: usize = 0;
    while i < v.len()
        invariant
            i <= v@.len(),
            r@ == v@.take(i as int),
        decreases v.len() - i,
    {
        r.push(copy_load_error(&v[i]));
        i = i + 1;
        assert(r@ =~= v@.take(i as int));
    }
    assert(v@.take(v@.len() as int) =~= v@);
    r
}

impl SnippetStoreState {
    /// The root directory.
    pub closed spec fn spec_root(&self) -> Seq<char> {
        self.root@
    }

    /// The current snapshot.
    pub closed spec fn spec_snapshot(&self) -> SnippetStoreSnapshot {
        self.snapshot
    }

    /// The store over `root` with what loading it gave, at revision 0; a
    /// failed load is passed on.
    pub fn load(root: String, loaded: Result<LoadResult, String>) -> (r: Result<Self, String>)
        ensures
            match loaded {
                Err(e) => r == Err::<Self, String>(e),
                Ok(l) => r matches Ok(s) && s.spec_root() == root@ && s.spec_snapshot()
                    == (SnippetStoreSnapshot { revision: 0, snippets: l.snippets, errors: l.errors }),
            },
    {
        match loaded {
            Err(e) => Err(e),
            Ok(l) => Ok(
                SnippetStoreState {
                    root,
                    snapshot: SnippetStoreSnapshot { revision: 0, snippets: l.snippets, errors: l.errors },
                },
            ),
        }
    }

    /// The root directory.
    pub fn root(&self) -> (r: &String)
        ensures
            r@ == self.spec_root(),
    {
        &self.root
    }

    /// A copy of the current snapshot.
    pub fn snapshot(&self) -> (r: SnippetStoreSnapshot)
        ensures
            r.revision == self.spec_snapshot().revision,
            same_snippets(r.snippets@, self.spec_snapshot().snippets@),
            r.errors@ == self.spec_snapshot().errors@,
    {
        SnippetStoreSnapshot {
            revision: self.snapshot.revision,
            snippets: copy_snippets(&self.snapshot.snippets),
            errors: copy_load_errors(&self.snapshot.errors),
        }
    }

    /// Replaces the snippets and errors and counts one more revision.
    pub fn replace_snapshot(&mut self, snippets: Vec<Snippet>, errors: Vec<LoadError>)
        requires
            old(self).spec_snapshot().revision < u64::MAX,
        ensures
            final(self).spec_root() == old(self).spec_root(),
            final(self).spec_snapshot() == (SnippetStoreSnapshot {
                revision: (old(self).spec_snapshot().revision + 1) as u64,
                snippets,
                errors,
            }),
    {
        self.snapshot.revision = self.snapshot.revision + 1;
        self.snapshot.snippets = snippets;
        self.snapshot.errors = errors;
    }

    /// Takes over what the file watcher published.
    pub fn apply_watcher_snapshot(&mut self, snapshot: &SnapshotInner)
        ensures
            final(self).spec_root() == old(self).spec_root(),
            final(self).spec_snapshot().revision == snapshot.revision,
            same_snippets(final(self).spec_snapshot().snippets@, snapshot.snippets@),
            final(self).spec_snapshot().errors@ == snapshot.errors@,
    {
        self.snapshot.revision = snapshot.revision;
        self.snapshot.snippets = copy_snippets(&snapshot.snippets);
        self.snapshot.errors = copy_load_errors(&snapshot.errors);
    }
}

/// `path` relative to `root` with forward slashes, or all of `path` when it
/// is not under `root`.
pub open spec fn relative_to(path: Seq<char>, root: Seq<char>) -> Seq<char> {
    match std_strip_prefix(path, root) {
        Some(rel) => forward_slashes(rel),
        None => forward_slashes(path),
    }
}

/// `path` relative to `root`, with forward slashes.
pub fn relative_path(path: &str, root: &str) -> (r: String)
    ensures
        r@ == relative_to(path@, root@),
{
    match path_strip_prefix(path, root) {
        Some(rel) => to_forward_slashes(rel.as_str()),
        None => to_forward_slashes(path),
    }
}

/// `d` shows snippet `s` of the store under `root`.
pub open spec fn dto_of(d: SnippetDto, s: Snippet, root: Seq<char>) -> bool {
    &&& d.id == s.id
    &&& d.trigger == s.raw_trigger
    &&& d.effective_trigger == s.trigger
    &&& d.trigger_literal == s.trigger_literal
    &&& d.replace == s.replace
    &&& same_vars(d.vars@, s.vars@)
    &&& d.source_file == s.source_file
    &&& d.file_relative@ == relative_to(s.source_file@, root)
}

/// The snippets of the current snapshot as the settings window shows them.
pub fn list_snippets_inner(state: &SnippetStoreState) -> (r: Vec<SnippetDto>)
    ensures
        r@.len() == state.spec_snapshot().snippets@.len(),
        forall|k: int|
            0 <= k < r@.len() ==> #[trigger] dto_of(
                r@[k],
                state.spec_snapshot().snippets@[k],
                state.spec_root(),
            ),
{
    let snippets = &state.snapshot.snippets;
    let mut out: Vec<SnippetDto> = Vec::new();
    let mut i: usize = 0;
    while i < snippets.len()
        invariant
            i <= snippets@.len(),
            *snippets == state.snapshot.snippets,
            out@.len() == i,
            forall|k: int| 0 <= k < i ==> #[trigger] dto_of(out@[k], snippets@[k], state.root@),
        decreases snippets.len() - i,
    {
        let s = &snippets[i];
        out.push(
            SnippetDto {
                file_relative: relative_path(s.source_file.as_str(), state.root.as_str()),
                source_file: s.source_file.clone(),
                id: s.id.clone(),
                trigger: s.raw_trigger.clone(),
                effective_trigger: s.trigger.clone(),
                trigger_literal: s.trigger_literal,
                replace: s.replace.clone(),
                vars: clone_vars(&s.vars),
            },
        );
        i = i + 1;
    }
    out
}

/// Entry `d` is the one a save with `original_trigger` and
/// `original_trigger_literal` replaces.
pub open spec fn save_target(d: SnippetDocument, original_trigger: Option<String>, original_trigger_literal: Option<bool>) -> bool {
    &&& original_trigger matches Some(t) && d.trigger@ == t@
    &&& match original_trigger_literal {
        Some(l) => d.trigger_literal == l,
        None => true,
    }
}

/// The first entry at or after `i` that a save replaces.
pub open spec fn first_target_from(docs: Seq<SnippetDocument>, original_trigger: Option<String>, original_trigger_literal: Option<bool>, i: int) -> Option<int>
    decreases docs.len() - i,
{
    if i < 0 || i >= docs.len() {
        None
    } else if save_target(docs[i], original_trigger, original_trigger_literal) {
        Some(i)
    } else {
        first_target_from(docs, original_trigger, original_trigger_literal, i + 1)
    }
}

/// The entry a save writes.
pub open spec fn saved_entry(p: SaveSnippetDto) -> SnippetDocument {
    SnippetDocument { trigger: p.trigger, trigger_literal: p.trigger_literal, replace: p.replace, vars: p.vars }
}

/// The entries after a save: the first targeted entry replaced, or the new
/// entry appended when none is targeted.
pub open spec fn entries_after_save(docs: Seq<SnippetDocument>, p: SaveSnippetDto) -> Seq<SnippetDocument> {
    match first_target_from(docs, p.original_trigger, p.original_trigger_literal, 0) {
        Some(i) => docs.update(i, saved_entry(p)),
        None => docs.push(saved_entry(p)),
    }
}

/// The first position at or after `k` whose effective trigger repeats an earlier one.
pub open spec fn first_repeat_from(effs: Seq<Seq<char>>, k: int) -> Option<int>
    decreases effs.len() - k,
{
    if k < 0 || k >= effs.len() {
        None
    } else if exists|j: int| 0 <= j < k && effs[j] == effs[k] {
        Some(k)
    } else {
        first_repeat_from(effs, k + 1)
    }
}

/// What saving `p` into `file` gives under trigger prefix `prefix`: the
/// edited file, or `trigger collision: <trigger>` for the first effective
/// trigger of the edited entries that repeats an earlier one.
pub open spec fn save_outcome(file: SnippetFile, p: SaveSnippetDto, prefix: Seq<char>, r: Result<SnippetFile, String>) -> bool {
    let docs = entries_after_save(file.snippets@, p);
    let effs = doc_effs(docs, prefix);
    match first_repeat_from(effs, 0) {
        Some(k) => r matches Err(m) && m@ == "trigger collision: "@ + effs[k],
        None => r matches Ok(f) && f.version == file.version && f.snippets@ == docs,
    }
}

fn contains_text(v: &Vec<String>, s: &str) -> (r: bool)
    ensures
        r == exists|j: int| 0 <= j < v@.len() && (#[trigger] v@[j])@ == s@,
{
    let mut i: usize = 0;
    while i < v.len()
        invariant
            i <= v@.len(),
            forall|j: int| 0 <= j < i ==> (#[trigger] v@[j])@ != s@,
        decreases v.len() - i,
    {
        if crate::chars::str_eq(v[i].as_str(), s) {
            return true;
        }
        i = i + 1;
    }
    false
}

/// The collision message for the first entry whose effective trigger
/// repeats an earlier one, if any.
fn first_collision(docs: &Vec<SnippetDocument>, settings: &StoreSettings) -> (r: Option<String>)
    ensures
        match first_repeat_from(doc_effs(docs@, settings.trigger_prefix@), 0) {
            Some(k) => r matches Some(m) && m@ == "trigger collision: "@ + doc_effs(
                docs@,
                settings.trigger_prefix@,
            )[k],
            None => r is None,
        },
{
    let ghost effs = doc_effs(docs@, settings.trigger_prefix@);
    let mut seen: Vec<String> = Vec::new();
    let mut k: usize = 0;
    while k < docs.len()
        invariant
            k <= docs@.len(),
            effs == doc_effs(docs@, settings.trigger_prefix@),
            seen@.len() == k,
            forall|j: int| 0 <= j < k ==> (#[trigger] seen@[j])@ == effs[j],
            first_repeat_from(effs, 0) == first_repeat_from(effs, k as int),
        decreases docs.len() - k,
    {
        let eff = effective_trigger(docs[k].trigger.as_str(), docs[k].trigger_literal, settings);
        assert(eff@ == effs[k as int]);
        if contains_text(&seen, eff.as_str()) {
            proof {
                let j = choose|j: int| 0 <= j < seen@.len() && (#[trigger] seen@[j])@ == eff@;
                assert(0 <= j < k && effs[j] == effs[k as int]);
                assert(first_repeat_from(effs, k as int) == Some(k as int));
            }
            return Some(concat_str("trigger collision: ", eff.as_str()));
        }
        proof {
            assert(!exists|j: int| 0 <= j < k && effs[j] == effs[k as int]) by {
                if exists|j: int| 0 <= j < k && effs[j] == effs[k as int] {
                    let j = choose|j: int| 0 <= j < k && effs[j] == effs[k as int];
                    assert(seen@[j]@ == eff@);
                }
            }
        }
        seen.push(eff);
        k = k + 1;
    }
    None
}

/// Saves `payload` into the parsed `file` under `settings`.
pub fn apply_snippet_save(file: SnippetFile, settings: &StoreSettings, payload: SaveSnippetDto) -> (r: Result<SnippetFile, String>)
    ensures
        save_outcome(file, payload, settings.trigger_prefix@, r),
{
    let ghost p = payload;
    let ghost docs0 = file.snippets@;
    let version = file.version;
    let mut docs = file.snippets;
    let replacement = SnippetDocument {
        trigger: payload.trigger,
        trigger_literal: payload.trigger_literal,
        replace: payload.replace,
        vars: payload.vars,
    };
    assert(replacement == saved_entry(p));
    let mut target: Option<usize> = None;
    let mut i: usize = 0;
    while i < docs.len()
        invariant_except_break
            target is None,
        invariant
            docs@ == docs0,
            i <= docs@.len(),
            first_target_from(docs0, p.original_trigger, p.original_trigger_literal, 0)
                == first_target_from(docs0, p.original_trigger, p.original_trigger_literal, i as int),
            payload.original_trigger == p.original_trigger,
            payload.original_trigger_literal == p.original_trigger_literal,
        ensures
            match target {
                Some(k) => k < docs@.len() && first_target_from(
                    docs0,
                    p.original_trigger,
                    p.original_trigger_literal,
                    0,
                ) == Some(k as int),
                None => first_target_from(docs0, p.original_trigger, p.original_trigger_literal, 0)
                    is None,
            },
        decreases docs.len() - i,
    {
        let trigger_matches = match &payload.original_trigger {
            Some(t) => crate::chars::str_eq(docs[i].trigger.as_str(), t.as_str()),
            None => false,
        };
        let literal_matches = match payload.original_trigger_literal {
            Some(l) => docs[i].trigger_literal == l,
            None => true,
        };
        if trigger_matches && literal_matches {
            assert(save_target(docs0[i as int], p.original_trigger, p.original_trigger_literal));
            target = Some(i);
            break;
        }
        assert(!save_target(docs0[i as int], p.original_trigger, p.original_trigger_literal));
        i = i + 1;
    }
    match target {
        Some(k) => {
            docs.set(k, replacement);
        },
        None => {
            docs.push(replacement);
        },
    }
    assert(docs@ == entries_after_save(docs0, p));
    match first_collision(&docs, settings) {
        Some(m) => Err(m),
        None => Ok(SnippetFile { version, snippets: docs }),
    }
}

/// Saves `payload`: the file's read or parse error, then the settings'
/// error, are passed on; otherwise as `apply_snippet_save`.
pub fn save_snippet_inner(
    document: Result<SnippetFile, String>,
    settings: Result<StoreSettings, String>,
    payload: SaveSnippetDto,
) -> (r: Result<SnippetFile, String>)
    ensures
        match (document, settings) {
            (Err(e), _) => r == Err::<SnippetFile, String>(e),
            (Ok(_), Err(e)) => r == Err::<SnippetFile, String>(e),
            (Ok(f), Ok(s)) => save_outcome(f, payload, s.trigger_prefix@, r),
        },
{
    let file = match document {
        Err(e) => return Err(e),
        Ok(f) => f,
    };
    let settings = match settings {
        Err(e) => return Err(e),
        Ok(s) => s,
    };
    apply_snippet_save(file, &settings, payload)
}

/// The store settings under `root`, given what reading the settings file
/// gave (`None` when there is none); an error becomes its message.
pub fn get_store_settings_inner(root: &str, read: Option<Result<StoreSettings, LoadError>>) -> (r: Result<StoreSettings, String>)
    ensures
        match read {
            None => r matches Ok(s) && s.trigger_prefix@ == seq![';'] && s.expand_mode
                == ExpandMode::Manual,
            Some(Err(e)) => r matches Err(m) && m@ == err_message(err_view(e)),
            Some(Ok(s)) => if prefix_valid(s.trigger_prefix@) {
                r == Ok::<StoreSettings, String>(s)
            } else {
                r matches Err(m) && m@ == invalid_prefix_message()
            },
        },
{
    let path = settings_path(root);
    match load_settings(path.as_str(), read) {
        Ok(s) => Ok(s),
        Err(e) => Err(e.message()),
    }
}

/// Checks new store settings before they are written: an invalid trigger
/// prefix is refused with its message.
pub fn set_store_settings_inner(root: &str, settings: &StoreSettings) -> (r: Result<(), String>)
    ensures
        r is Ok <==> prefix_valid(settings.trigger_prefix@),
        r matches Err(m) ==> m@ == invalid_prefix_message(),
{
    let path = settings_path(root);
    match validate_trigger_prefix(path.as_str(), settings.trigger_prefix.as_str()) {
        Ok(()) => Ok(()),
        Err(e) => Err(e.message()),
    }
}

/// The path and message of an error.
pub fn load_error_dto(error: &LoadError) -> (r: LoadErrorDto)
    ensures
        r.path@ == err_path(err_view(*error)),
        r.message@ == err_message(err_view(*error)),
{
    LoadErrorDto { path: error.path().clone(), message: error.message() }
}

/// `d` shows error `e`.
pub open spec fn error_dto_of(d: LoadErrorDto, e: LoadError) -> bool {
    d.path@ == err_path(err_view(e)) && d.message@ == err_message(err_view(e))
}

fn error_dtos(errors: &Vec<LoadError>) -> (r: Vec<LoadErrorDto>)
    ensures
        r@.len() == errors@.len(),
        forall|k: int| 0 <= k < r@.len() ==> #[trigger] error_dto_of(r@[k], errors@[k]),
{
    let mut out: Vec<LoadErrorDto> = Vec::new();
    let mut i: usize = 0;
    while i < errors.len()
        invariant
            i <= errors@.len(),
            out@.len() == i,
            forall|k: int| 0 <= k < i ==> #[trigger] error_dto_of(out@[k], errors@[k]),
        decreases errors.len() - i,
    {
        out.push(load_error_dto(&errors[i]));
        i = i + 1;
    }
    out
}

/// Takes over a fresh load: the snapshot moves to the next revision with
/// the loaded snippets and errors; the result counts the snippets and shows
/// the errors. A failed load is passed on and changes nothing.
pub fn reload_snippets_inner(state: &mut SnippetStoreState, loaded: Result<LoadResult, String>) -> (r: Result<ReloadResult, String>)
    requires
        old(state).spec_snapshot().revision < u64::MAX,
    ensures
        match loaded {
            Err(e) => r == Err::<ReloadResult, String>(e) && *final(state) == *old(state),
            Ok(l) => r matches Ok(res) && res.loaded == l.snippets@.len() && res.errors@.len()
                == l.errors@.len() && (forall|k: int|
                0 <= k < res.errors@.len() ==> #[trigger] error_dto_of(res.errors@[k], l.errors@[k]))
                && final(state).spec_root() == old(state).spec_root() && final(state).spec_snapshot()
                == (SnippetStoreSnapshot {
                revision: (old(state).spec_snapshot().revision + 1) as u64,
                snippets: l.snippets,
                errors: l.errors,
            }),
        },
{
    let loaded = match loaded {
        Err(e) => return Err(e),
        Ok(l) => l,
    };
    let errors = error_dtos(&loaded.errors);
    let count = loaded.snippets.len();
    state.replace_snapshot(loaded.snippets, loaded.errors);
    Ok(ReloadResult { loaded: count, errors })
}

/// The errors of the current snapshot as the settings window shows them.
pub fn list_load_errors_inner(state: &SnippetStoreState) -> (r: Vec<LoadErrorDto>)
    ensures
        r@.len() == state.spec_snapshot().errors@.len(),
        forall|k: int|
            0 <= k < r@.len() ==> #[trigger] error_dto_of(r@[k], state.spec_snapshot().errors@[k]),
{
    error_dtos(&state.snapshot.errors)
}

/// Where snippets live: `OPENMACRO_SNIPPETS_ROOT` when set, otherwise
/// `openmacro\\snippets` under the Windows `APPDATA` directory; an error
/// when neither is set.
pub fn snippets_root(env_root: Option<String>, appdata: Option<String>) -> (r: Result<String, String>)
    ensures
        match (env_root, appdata) {
            (Some(root), _) => r == Ok::<String, String>(root),
            (None, None) => r matches Err(m) && m@ == "APPDATA is not set"@,
            (None, Some(dir)) => r matches Ok(p) && p@ == windows_join(
                windows_join(dir@, "openmacro"@),
                "snippets"@,
            ),
        },
{
    if let Some(root) = env_root {
        return Ok(root);
    }
    match appdata {
        None => Err(String::from_str("APPDATA is not set")),
        Some(dir) => {
            let base = join_windows_path(dir.as_str(), "openmacro");
            Ok(join_windows_path(base.as_str(), "snippets"))
        },
    }
}


/// With no repeat from `k` on, no effective trigger at or after `k`
/// repeats an earlier one.
proof fn lemma_no_repeat_from(effs: Seq<Seq<char>>, k: int)
    requires
        0 <= k,
        first_repeat_from(effs, k) is None,
    ensures
        forall|i: int, j: int| 0 <= i < j < effs.len() && k <= j ==> effs[i] != effs[j],
    decreases effs.len() - k,
{
    if k < effs.len() {
        lemma_no_repeat_from(effs, k + 1);
        assert forall|i: int, j: int| 0 <= i < j < effs.len() && k <= j implies effs[i] != effs[j] by {
            if j == k {
                if effs[i] == effs[j] {
                    assert(exists|m: int| 0 <= m < k && effs[m] == effs[k]);
                }
            }
        }
    }
}

/// A save that succeeds leaves a file whose entries all have different
/// effective triggers and which holds the saved entry.
pub proof fn lemma_saved_file_is_consistent(
    file: SnippetFile,
    p: SaveSnippetDto,
    prefix: Seq<char>,
    r: Result<SnippetFile, String>,
)
    requires
        save_outcome(file, p, prefix, r),
        r is Ok,
    ensures
        forall|i: int, j: int|
            0 <= i < j < r->Ok_0.snippets@.len() ==> (#[trigger] doc_effs(r->Ok_0.snippets@, prefix)[i])
                != (#[trigger] doc_effs(r->Ok_0.snippets@, prefix)[j]),
        r->Ok_0.snippets@.contains(saved_entry(p)),
{
    let docs = entries_after_save(file.snippets@, p);
    let effs = doc_effs(docs, prefix);
    lemma_no_repeat_from(effs, 0);
    match first_target_from(file.snippets@, p.original_trigger, p.original_trigger_literal, 0) {
        Some(i) => {
            lemma_first_target_in_range(file.snippets@, p.original_trigger, p.original_trigger_literal, 0);
            assert(docs[i] == saved_entry(p));
        },
        None => {
            assert(docs[docs.len() - 1] == saved_entry(p));
        },
    }
}

proof fn lemma_first_target_in_range(docs: Seq<SnippetDocument>, t: Option<String>, l: Option<bool>, from: int)
    ensures
        first_target_from(docs, t, l, from) matches Some(i) ==> from <= i < docs.len(),
    decreases docs.len() - from,
{
    if !(from < 0 || from >= docs.len()) && !save_target(docs[from], t, l) {
        lemma_first_target_in_range(docs, t, l, from + 1);
    }
}

} // verus!
