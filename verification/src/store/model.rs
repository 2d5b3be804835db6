//! Data model for loaded snippets.

use vstd::prelude::*;

verus! {

/// A loaded snippet: `trigger` is the effective trigger (prefix applied),
/// `raw_trigger` the one written in the file, `id` is
/// `"<relative file>::<effective trigger>"`.
#[derive(Debug, Clone, PartialEq, Eq)]
pub struct Snippet {
    pub id: String,
    pub trigger: String,
    pub raw_trigger: String,
    pub trigger_literal: bool,
    pub replace: String,
    pub vars: Vec<VarDecl>,
    pub source_file: String,
}

/// Whether a matched trigger expands at once or waits for a confirm key.
#[derive(Debug, Clone, Copy, PartialEq, Eq, Structural)]
pub enum ExpandMode {
    Auto,
    Manual,
}

/// Per-store settings kept in `_settings.yaml`.
#[derive(Debug, Clone, PartialEq, Eq)]
pub struct StoreSettings {
    pub trigger_prefix: String,
    pub expand_mode: ExpandMode,
}

impl Default for StoreSettings {
    fn default() -> (r: Self)
        ensures
            r.trigger_prefix@ == seq![';'],
            r.expand_mode == ExpandMode::Manual,
    {
        Self { trigger_prefix: default_trigger_prefix(), expand_mode: ExpandMode::Manual }
    }
}

/// The default trigger prefix, `";"`.
pub fn default_trigger_prefix() -> (r: String)
    ensures
        r@ == seq![';'],
{
    let mut s = String::new();
    crate::chars::push_char(&mut s, ';');
    s
}

/// A variable declared by a snippet.
#[derive(Debug, Clone, PartialEq, Eq)]
pub struct VarDecl {
    pub name: String,
    pub kind: VarKind,
    pub label: Option<String>,
    pub default: Option<String>,
    pub required: bool,
    pub options: Vec<String>,
    pub format: Option<String>,
    pub cmd: Vec<String>,
    pub timeout_ms: Option<u64>,
    pub confirm: bool,
}

/// The kinds of snippet variables.
#[derive(Debug, Clone, Copy, PartialEq, Eq, Structural)]
pub enum VarKind {
    Text,
    Textarea,
    Choice,
    Number,
    Datetime,
    Clipboard,
    Cursor,
    Shell,
    Form,
}

/// Logging configuration: a default level and per-target levels.
#[derive(Debug, Clone, PartialEq, Eq)]
pub struct LoggingConfig {
    pub level: String,
    pub modules: Vec<(String, String)>,
    pub file: LoggingFileConfig,
    pub verbose_content: bool,
    pub frontend: LoggingFrontendConfig,
}

/// No two of `modules` name the same target: each target has one level.
pub open spec fn distinct_targets(modules: Seq<(String, String)>) -> bool {
    forall|i: int, j: int|
        0 <= i < j < modules.len() ==> (#[trigger] modules[i]).0@ != (#[trigger] modules[j]).0@
}

/// File-logging settings.
#[derive(Debug, Clone, PartialEq, Eq)]
pub struct LoggingFileConfig {
    pub enabled: bool,
    pub max_files: usize,
}

/// Logging settings handed to the frontend.
#[derive(Debug, Clone, PartialEq, Eq)]
pub struct LoggingFrontendConfig {
    pub level: String,
    pub modules: Vec<(String, String)>,
}

/// The default log level, `"info"`.
pub fn default_log_level() -> (r: String)
    ensures
        r@ == seq!['i', 'n', 'f', 'o'],
{
    let mut s = String::new();
    crate::chars::push_char(&mut s, 'i');
    crate::chars::push_char(&mut s, 'n');
    crate::chars::push_char(&mut s, 'f');
    crate::chars::push_char(&mut s, 'o');
    s
}

/// The default number of rotated log files kept, 7.
pub fn default_log_max_files() -> (r: usize)
    ensures
        r == 7,
{
    7
}

impl Default for LoggingFileConfig {
    fn default() -> (r: Self)
        ensures
            r.enabled,
            r.max_files == 7,
    {
        Self { enabled: true, max_files: default_log_max_files() }
    }
}

impl Default for LoggingFrontendConfig {
    fn default() -> (r: Self)
        ensures
            r.level@ == seq!['i', 'n', 'f', 'o'],
            r.modules@.len() == 0,
    {
        Self { level: default_log_level(), modules: Vec::new() }
    }
}

impl Default for LoggingConfig {
    fn default() -> (r: Self)
        ensures
            r.level@ == seq!['i', 'n', 'f', 'o'],
            r.modules@.len() == 0,
            r.file.enabled,
            r.file.max_files == 7,
            !r.verbose_content,
            r.frontend.level@ == seq!['i', 'n', 'f', 'o'],
            r.frontend.modules@.len() == 0,
    {
        Self {
            level: default_log_level(),
            modules: Vec::new(),
            file: LoggingFileConfig::default(),
            verbose_content: false,
            frontend: LoggingFrontendConfig::default(),
        }
    }
}

/// A copy of `v`, element for element.
pub fn clone_strings(v: &Vec<String>) -> (r: Vec<String>)
    ensures
        r@ == v@,
{
    let mut r: Vec<String> = Vec::new();
    let mut i: usize = 0;
    while i < v.len()
        invariant
            i <= v.len(),
            r@ == v@.take(i as int),
        decreases v.len() - i,
    {
        r.push(v[i].clone());
        i = i + 1;
        assert(r@ =~= v@.take(i as int));
    }
    assert(v@.take(v.len() as int) =~= v@);
    r
}

/// A copy of an optional string.
pub fn clone_opt_string(v: &Option<String>) -> (r: Option<String>)
    ensures
        r == *v,
{
    match v {
        Some(s) => Some(s.clone()),
        None => None,
    }
}

/// Two declarations hold the same field values.
pub open spec fn same_var(a: VarDecl, b: VarDecl) -> bool {
    &&& a.name == b.name
    &&& a.kind == b.kind
    &&& a.label == b.label
    &&& a.default == b.default
    &&& a.required == b.required
    &&& a.options@ == b.options@
    &&& a.format == b.format
    &&& a.cmd@ == b.cmd@
    &&& a.timeout_ms == b.timeout_ms
    &&& a.confirm == b.confirm
}

/// Two lists of declarations hold the same declarations in the same order.
pub open spec fn same_vars(a: Seq<VarDecl>, b: Seq<VarDecl>) -> bool {
    a.len() == b.len() && forall|i: int| 0 <= i < a.len() ==> #[trigger] same_var(a[i], b[i])
}

/// Two snippets hold the same field values.
pub open spec fn same_snippet(a: Snippet, b: Snippet) -> bool {
    &&& a.id == b.id
    &&& a.trigger == b.trigger
    &&& a.raw_trigger == b.raw_trigger
    &&& a.trigger_literal == b.trigger_literal
    &&& a.replace == b.replace
    &&& same_vars(a.vars@, b.vars@)
    &&& a.source_file == b.source_file
}

/// A copy of a variable declaration, field for field.
pub fn clone_var(v: &VarDecl) -> (r: VarDecl)
    ensures
        same_var(r, *v),
{
    VarDecl {
        name: v.name.clone(),
        kind: v.kind,
        label: clone_opt_string(&v.label),
        default: clone_opt_string(&v.default),
        required: v.required,
        options: clone_strings(&v.options),
        format: clone_opt_string(&v.format),
        cmd: clone_strings(&v.cmd),
        timeout_ms: v.timeout_ms,
        confirm: v.confirm,
    }
}

/// A copy of a list of variable declarations.
pub fn clone_vars(v: &Vec<VarDecl>) -> (r: Vec<VarDecl>)
    ensures
        same_vars(r@, v@),
{
    let mut r: Vec<VarDecl> = Vec::new();
    let mut i: usize = 0;
    while i < v.len()
        invariant
            i <= v.len(),
            r@.len() == i,
            forall|j: int| 0 <= j < i ==> #[trigger] same_var(r@[j], v@[j]),
        decreases v.len() - i,
    {
        r.push(clone_var(&v[i]));
        i = i + 1;
    }
    r
}

/// A copy of a snippet, field for field.
pub fn clone_snippet(s: &Snippet) -> (r: Snippet)
    ensures
        same_snippet(r, *s),
{
    Snippet {
        id: s.id.clone(),
        trigger: s.trigger.clone(),
        raw_trigger: s.raw_trigger.clone(),
        trigger_literal: s.trigger_literal,
        replace: s.replace.clone(),
        vars: clone_vars(&s.vars),
        source_file: s.source_file.clone(),
    }
}

} // verus!
