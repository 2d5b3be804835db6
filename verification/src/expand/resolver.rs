//! Placeholder resolution: from a snippet body to the text to inject.

use vstd::prelude::*;

use crate::chars::{path_parent, std_path_parent, str_eq};
use crate::commands::prefs::Prefs;
use crate::store::{Snippet, VarDecl, VarKind};

use super::clipboard_var::{clipboard_text, resolve_clipboard, ClipboardReader};
use super::cursor::{spec_strip, strip_cursor_token};
use super::datetime::resolve_datetime;
use super::shell::{NoopShellBackend, ShellBackend, ShellError, ShellRun};
use super::template::{parse_from, parse_template, part_view, parts_view, SpecPart, TemplatePart};

verus! {

/// The resolved text and, when the body held the cursor marker, how many
/// UTF-16 units follow the cursor.
#[derive(Debug, Clone, PartialEq, Eq)]
pub struct Resolved {
    pub text: String,
    pub cursor_chars_after_token: Option<usize>,
}

/// Why a snippet could not be resolved.
#[derive(Debug, Clone, PartialEq, Eq)]
pub enum ResolveError {
    UnknownPlaceholder { name: String },
    UnterminatedPlaceholder,
    ShellDisabled { name: String },
    ShellDeclined { name: String },
    ShellFailed { name: String, error: ShellError },
    /// The resolved text held more than one cursor marker.
    TooManyCursorTokens,
    /// A date/time placeholder carried a format that chrono rejects.
    InvalidDatetimeFormat { name: String },
}

/// One confirmation asked for: the snippet id, the placeholder name, the
/// command line, and the answer.
pub type Confirmation = (Seq<char>, Seq<char>, Seq<String>, bool);

/// Told about unknown placeholders, and asked before a shell command runs.
/// What the user answers is recorded.
pub trait ResolveNotifySink {
    /// The (snippet id, placeholder name) of each report so far, in order.
    closed spec fn unknowns(&self) -> Seq<(Seq<char>, Seq<char>)> {
        Seq::empty()
    }

    /// Each confirmation asked for so far, in order.
    closed spec fn confirmations(&self) -> Seq<Confirmation> {
        Seq::empty()
    }

    fn unknown_placeholder(&mut self, snippet_id: &str, name: &str)
        ensures
            final(self).unknowns() == old(self).unknowns().push((snippet_id@, name@)),
            final(self).confirmations() == old(self).confirmations(),
    ;

    /// Whether the shell command `args` of placeholder `name` may run.
    fn confirm_shell(&mut self, snippet_id: &str, name: &str, args: &[String]) -> (r: bool)
        ensures
            final(self).confirmations() == old(self).confirmations().push((snippet_id@, name@, args@, r)),
            final(self).unknowns() == old(self).unknowns(),
    ;
}

impl<'a, T: ResolveNotifySink> ResolveNotifySink for &'a mut T {
    open spec fn unknowns(&self) -> Seq<(Seq<char>, Seq<char>)> {
        (**self).unknowns()
    }

    open spec fn confirmations(&self) -> Seq<Confirmation> {
        (**self).confirmations()
    }

    fn unknown_placeholder(&mut self, snippet_id: &str, name: &str) {
        (**self).unknown_placeholder(snippet_id, name)
    }

    fn confirm_shell(&mut self, snippet_id: &str, name: &str, args: &[String]) -> (r: bool) {
        (**self).confirm_shell(snippet_id, name, args)
    }
}

/// A sink that ignores notifications and declines shell commands: every
/// confirmation it records was declined.
pub struct NoopResolveNotifySink {
    reported: Ghost<Seq<(Seq<char>, Seq<char>)>>,
    asked: Ghost<Seq<(Seq<char>, Seq<char>, Seq<String>)>>,
}

/// The records of confirmations that were all declined.
pub open spec fn declined_all(asked: Seq<(Seq<char>, Seq<char>, Seq<String>)>) -> Seq<Confirmation> {
    asked.map_values(|q: (Seq<char>, Seq<char>, Seq<String>)| (q.0, q.1, q.2, false))
}

impl NoopResolveNotifySink {
    /// A sink that has been told and asked nothing.
    pub fn new() -> (r: Self)
        ensures
            r.unknowns() == Seq::<(Seq<char>, Seq<char>)>::empty(),
            r.confirmations() == Seq::<Confirmation>::empty(),
    {
        let r = NoopResolveNotifySink { reported: Ghost(Seq::empty()), asked: Ghost(Seq::empty()) };
        assert(r.confirmations() =~= Seq::<Confirmation>::empty());
        r
    }

    /// Every confirmation recorded by this sink was declined.
    pub proof fn lemma_every_confirmation_declined(self)
        ensures
            forall|k: int| 0 <= k < self.confirmations().len() ==> !(#[trigger] self.confirmations()[k]).3,
    {
    }
}

impl ResolveNotifySink for NoopResolveNotifySink {
    closed spec fn unknowns(&self) -> Seq<(Seq<char>, Seq<char>)> {
        self.reported@
    }

    closed spec fn confirmations(&self) -> Seq<Confirmation> {
        declined_all(self.asked@)
    }

    fn unknown_placeholder(&mut self, snippet_id: &str, name: &str) {
        proof {
            self.reported@ = self.reported@.push((snippet_id@, name@));
        }
    }

    fn confirm_shell(&mut self, snippet_id: &str, name: &str, args: &[String]) -> (r: bool)
        ensures
            !r,
    {
        let ghost before = self.asked@;
        proof {
            self.asked@ = self.asked@.push((snippet_id@, name@, args@));
        }
        assert(declined_all(self.asked@) =~= declined_all(before).push((snippet_id@, name@, args@, false)));
        false
    }
}

/// Where the value of one placeholder comes from.
#[derive(Debug, Clone, PartialEq, Eq)]
pub enum PlaceholderSource {
    /// A fixed text: a form value, a declared default, or the cursor marker.
    Value(String),
    /// The current local time in this strftime format.
    Datetime(String),
    /// The clipboard text.
    Clipboard,
    /// The shell variable at this index of the snippet's declarations.
    Shell(usize),
    /// Nothing: the name is neither declared nor built in.
    Unknown,
}

/// Text form of `PlaceholderSource`.
pub enum SpecSource {
    Value(Seq<char>),
    Datetime(Seq<char>),
    Clipboard,
    Shell(int),
    Unknown,
}

/// The text form of a source.
pub open spec fn source_view(s: PlaceholderSource) -> SpecSource {
    match s {
        PlaceholderSource::Value(v) => SpecSource::Value(v@),
        PlaceholderSource::Datetime(f) => SpecSource::Datetime(f@),
        PlaceholderSource::Clipboard => SpecSource::Clipboard,
        PlaceholderSource::Shell(k) => SpecSource::Shell(k as int),
        PlaceholderSource::Unknown => SpecSource::Unknown,
    }
}

/// The value of the first form entry named `name` at or after `i`.
pub open spec fn lookup_from(vals: Seq<(String, String)>, name: Seq<char>, i: int) -> Option<Seq<char>>
    decreases vals.len() - i,
{
    if i < 0 || i >= vals.len() {
        None
    } else if vals[i].0@ == name {
        Some(vals[i].1@)
    } else {
        lookup_from(vals, name, i + 1)
    }
}

/// The index of the first declaration named `name` at or after `i`.
pub open spec fn find_var_from(vars: Seq<VarDecl>, name: Seq<char>, i: int) -> Option<int>
    decreases vars.len() - i,
{
    if i < 0 || i >= vars.len() {
        None
    } else if vars[i].name@ == name {
        Some(i)
    } else {
        find_var_from(vars, name, i + 1)
    }
}

/// Text of an optional string.
pub open spec fn opt_view(o: Option<String>) -> Option<Seq<char>> {
    match o {
        Some(s) => Some(s@),
        None => None,
    }
}

/// The source of placeholder `name` (with argument `arg`): a form value of
/// that name first, then the first declaration of that name by its kind,
/// then the built-in names `date`, `time`, `datetime`, `clipboard`, `cursor`.
pub open spec fn spec_source(
    snippet: Snippet,
    name: Seq<char>,
    arg: Option<Seq<char>>,
    form: Option<Seq<(String, String)>>,
) -> SpecSource {
    let form_value = match form {
        Some(vals) => lookup_from(vals, name, 0),
        None => None,
    };
    if form_value is Some {
        SpecSource::Value(form_value->0)
    } else if find_var_from(snippet.vars@, name, 0) is Some {
        let k = find_var_from(snippet.vars@, name, 0)->0;
        let var = snippet.vars@[k];
        match var.kind {
            VarKind::Datetime => SpecSource::Datetime(
                if arg is Some {
                    arg->0
                } else if var.format is Some {
                    var.format->0@
                } else {
                    "%Y-%m-%d %H:%M:%S"@
                },
            ),
            VarKind::Clipboard => SpecSource::Clipboard,
            VarKind::Cursor => SpecSource::Value("$|$"@),
            VarKind::Shell => SpecSource::Shell(k),
            _ => SpecSource::Value(
                if var.default is Some {
                    var.default->0@
                } else {
                    Seq::empty()
                },
            ),
        }
    } else if name == "date"@ {
        SpecSource::Datetime(if arg is Some { arg->0 } else { "%Y-%m-%d"@ })
    } else if name == "time"@ {
        SpecSource::Datetime(if arg is Some { arg->0 } else { "%H:%M:%S"@ })
    } else if name == "datetime"@ {
        SpecSource::Datetime(if arg is Some { arg->0 } else { "%Y-%m-%d %H:%M:%S"@ })
    } else if name == "clipboard"@ {
        SpecSource::Clipboard
    } else if name == "cursor"@ {
        SpecSource::Value("$|$"@)
    } else {
        SpecSource::Unknown
    }
}

/// The form values as text pairs, when there are any.
pub open spec fn opt_form(form_values: Option<&Vec<(String, String)>>) -> Option<Seq<(String, String)>> {
    match form_values {
        Some(v) => Some(v@),
        None => None,
    }
}

/// No form value is given for `name`.
pub open spec fn no_form_value(form: Option<Seq<(String, String)>>, name: Seq<char>) -> bool {
    match form {
        Some(vals) => forall|i: int| 0 <= i < vals.len() ==> (#[trigger] vals[i]).0@ != name,
        None => true,
    }
}

/// A form lookup that finds nothing from `i` on finds nothing.
proof fn lemma_no_form_value_lookup(vals: Seq<(String, String)>, name: Seq<char>, i: int)
    requires
        forall|j: int| 0 <= j < vals.len() ==> (#[trigger] vals[j]).0@ != name,
    ensures
        lookup_from(vals, name, i) is None,
    decreases vals.len() - i,
{
    if 0 <= i < vals.len() {
        lemma_no_form_value_lookup(vals, name, i + 1);
    }
}

/// A declaration search that finds nothing when no declaration has the name.
proof fn lemma_undeclared_not_found(vars: Seq<VarDecl>, name: Seq<char>, i: int)
    requires
        forall|j: int| 0 <= j < vars.len() ==> (#[trigger] vars[j]).name@ != name,
    ensures
        find_var_from(vars, name, i) is None,
    decreases vars.len() - i,
{
    if 0 <= i < vars.len() {
        lemma_undeclared_not_found(vars, name, i + 1);
    }
}

/// A declaration search finds the first declaration with the name.
proof fn lemma_first_declaration_found(vars: Seq<VarDecl>, name: Seq<char>, k: int, i: int)
    requires
        0 <= i <= k < vars.len(),
        vars[k].name@ == name,
        forall|j: int| i <= j < k ==> (#[trigger] vars[j]).name@ != name,
    ensures
        find_var_from(vars, name, i) == Some(k),
    decreases k - i,
{
    if i < k {
        lemma_first_declaration_found(vars, name, k, i + 1);
    }
}

/// The built-in `cursor` placeholder, when no form value and no declaration
/// has that name, stands for the cursor marker `$|$`, whatever its argument.
pub proof fn lemma_builtin_cursor_is_the_marker(
    snippet: Snippet,
    arg: Option<Seq<char>>,
    form: Option<Seq<(String, String)>>,
)
    requires
        no_form_value(form, "cursor"@),
        forall|j: int| 0 <= j < snippet.vars@.len() ==> (#[trigger] snippet.vars@[j]).name@ != "cursor"@,
    ensures
        spec_source(snippet, "cursor"@, arg, form) == SpecSource::Value(seq!['$', '|', '$']),
{
    reveal_strlit("cursor");
    reveal_strlit("date");
    reveal_strlit("time");
    reveal_strlit("datetime");
    reveal_strlit("clipboard");
    reveal_strlit("$|$");
    if let Some(vals) = form {
        lemma_no_form_value_lookup(vals, "cursor"@, 0);
    }
    lemma_undeclared_not_found(snippet.vars@, "cursor"@, 0);
    assert("$|$"@ =~= seq!['$', '|', '$']);
    assert("cursor"@ != "date"@) by {
        assert("cursor"@[0] != "date"@[0]);
    }
    assert("cursor"@ != "time"@) by {
        assert("cursor"@[0] != "time"@[0]);
    }
    assert("cursor"@ != "datetime"@) by {
        assert("cursor"@[0] != "datetime"@[0]);
    }
    assert("cursor"@ != "clipboard"@) by {
        assert("cursor"@.len() != "clipboard"@.len());
    }
}

/// A placeholder naming a date/time declaration (the first declaration of
/// that name, with no form value given for it) is formatted with the
/// placeholder's own argument when there is one, else with the declared
/// format, else with `%Y-%m-%d %H:%M:%S`.
pub proof fn lemma_datetime_argument_wins(
    snippet: Snippet,
    name: Seq<char>,
    arg: Option<Seq<char>>,
    form: Option<Seq<(String, String)>>,
    k: int,
)
    requires
        no_form_value(form, name),
        0 <= k < snippet.vars@.len(),
        snippet.vars@[k].name@ == name,
        snippet.vars@[k].kind == VarKind::Datetime,
        forall|j: int| 0 <= j < k ==> (#[trigger] snippet.vars@[j]).name@ != name,
    ensures
        arg matches Some(a) ==> spec_source(snippet, name, arg, form) == SpecSource::Datetime(a),
        arg is None && snippet.vars@[k].format is Some ==> spec_source(snippet, name, arg, form)
            == SpecSource::Datetime(snippet.vars@[k].format->0@),
        arg is None && snippet.vars@[k].format is None ==> spec_source(snippet, name, arg, form)
            == SpecSource::Datetime(seq!['%', 'Y', '-', '%', 'm', '-', '%', 'd', ' ', '%', 'H', ':', '%', 'M', ':', '%', 'S']),
{
    reveal_strlit("%Y-%m-%d %H:%M:%S");
    if let Some(vals) = form {
        lemma_no_form_value_lookup(vals, name, 0);
    }
    lemma_first_declaration_found(snippet.vars@, name, k, 0);
    assert("%Y-%m-%d %H:%M:%S"@ =~= seq!['%', 'Y', '-', '%', 'm', '-', '%', 'd', ' ', '%', 'H', ':', '%', 'M', ':', '%', 'S']);
}

fn lookup_form(vals: &Vec<(String, String)>, name: &str) -> (r: Option<String>)
    ensures
        opt_view(r) == lookup_from(vals@, name@, 0),
{
    let mut i: usize = 0;
    while i < vals.len()
        invariant
            i <= vals@.len(),
            lookup_from(vals@, name@, 0) == lookup_from(vals@, name@, i as int),
        decreases vals.len() - i,
    {
        if str_eq(vals[i].0.as_str(), name) {
            return Some(vals[i].1.clone());
        }
        i = i + 1;
    }
    None
}

fn find_var(vars: &Vec<VarDecl>, name: &str) -> (r: Option<usize>)
    ensures
        r matches Some(k) ==> find_var_from(vars@, name@, 0) == Some(k as int) && k < vars@.len(),
        r is None ==> find_var_from(vars@, name@, 0) is None,
{
    let mut i: usize = 0;
    while i < vars.len()
        invariant
            i <= vars@.len(),
            find_var_from(vars@, name@, 0) == find_var_from(vars@, name@, i as int),
        decreases vars.len() - i,
    {
        if str_eq(vars[i].name.as_str(), name) {
            return Some(i);
        }
        i = i + 1;
    }
    None
}

/// Decides where the value of placeholder `name` comes from.
pub fn placeholder_source(
    snippet: &Snippet,
    name: &str,
    arg: &Option<String>,
    form_values: Option<&Vec<(String, String)>>,
) -> (r: PlaceholderSource)
    ensures
        source_view(r) == spec_source(
            *snippet,
            name@,
            opt_view(*arg),
            match form_values {
                Some(v) => Some(v@),
                None => None,
            },
        ),
        r matches PlaceholderSource::Shell(k) ==> k < snippet.vars@.len(),
        name@ == "cursor"@ && no_form_value(opt_form(form_values), name@) && (forall|j: int|
            0 <= j < snippet.vars@.len() ==> (#[trigger] snippet.vars@[j]).name@ != name@)
            ==> source_view(r) == SpecSource::Value(seq!['$', '|', '$']),
        forall|k: int|
            0 <= k < snippet.vars@.len() && (#[trigger] snippet.vars@[k]).name@ == name@
                && snippet.vars@[k].kind == VarKind::Datetime && (forall|j: int|
                0 <= j < k ==> (#[trigger] snippet.vars@[j]).name@ != name@) && no_form_value(
                opt_form(form_values),
                name@,
            ) && arg is Some ==> source_view(r) == SpecSource::Datetime(arg->0@),
{
    proof {
        let form = opt_form(form_values);
        if name@ == "cursor"@ && no_form_value(form, name@) && (forall|j: int|
            0 <= j < snippet.vars@.len() ==> (#[trigger] snippet.vars@[j]).name@ != name@) {
            lemma_builtin_cursor_is_the_marker(*snippet, opt_view(*arg), form);
        }
        assert forall|k: int|
            0 <= k < snippet.vars@.len() && (#[trigger] snippet.vars@[k]).name@ == name@
                && snippet.vars@[k].kind == VarKind::Datetime && (forall|j: int|
                0 <= j < k ==> (#[trigger] snippet.vars@[j]).name@ != name@) && no_form_value(form, name@)
                && arg is Some implies spec_source(*snippet, name@, opt_view(*arg), form)
            == SpecSource::Datetime(arg->0@) by {
            lemma_datetime_argument_wins(*snippet, name@, opt_view(*arg), form, k);
        }
    }
    if let Some(values) = form_values {
        if let Some(value) = lookup_form(values, name) {
            return PlaceholderSource::Value(value);
        }
    }
    if let Some(k) = find_var(&snippet.vars, name) {
        let var = &snippet.vars[k];
        return match var.kind {
            VarKind::Datetime => PlaceholderSource::Datetime(
                match arg {
                    Some(a) => a.clone(),
                    None => match &var.format {
                        Some(f) => f.clone(),
                        None => String::from_str("%Y-%m-%d %H:%M:%S"),
                    },
                },
            ),
            VarKind::Clipboard => PlaceholderSource::Clipboard,
            VarKind::Cursor => PlaceholderSource::Value(String::from_str("$|$")),
            VarKind::Shell => PlaceholderSource::Shell(k),
            _ => PlaceholderSource::Value(
                match &var.default {
                    Some(d) => d.clone(),
                    None => String::new(),
                },
            ),
        };
    }
    if str_eq(name, "date") {
        PlaceholderSource::Datetime(
            match arg {
                Some(a) => a.clone(),
                None => String::from_str("%Y-%m-%d"),
            },
        )
    } else if str_eq(name, "time") {
        PlaceholderSource::Datetime(
            match arg {
                Some(a) => a.clone(),
                None => String::from_str("%H:%M:%S"),
            },
        )
    } else if str_eq(name, "datetime") {
        PlaceholderSource::Datetime(
            match arg {
                Some(a) => a.clone(),
                None => String::from_str("%Y-%m-%d %H:%M:%S"),
            },
        )
    } else if str_eq(name, "clipboard") {
        PlaceholderSource::Clipboard
    } else if str_eq(name, "cursor") {
        PlaceholderSource::Value(String::from_str("$|$"))
    } else {
        PlaceholderSource::Unknown
    }
}

/// The directory a shell variable of a snippet in file `source` runs in.
pub open spec fn shell_cwd_spec(source: Seq<char>) -> Seq<char> {
    match std_path_parent(source) {
        Some(p) => p,
        None => "."@,
    }
}

/// The timeout a shell variable runs with.
pub open spec fn shell_timeout_spec(var: VarDecl) -> u64 {
    match var.timeout_ms {
        Some(t) => t,
        None => 0,
    }
}

/// The value of shell variable `name` given what its run gave.
pub open spec fn shell_result(name: String, ran: Result<String, ShellError>) -> Result<Seq<char>, ResolveError> {
    match ran {
        Ok(out) => Ok(out@),
        Err(error) => Err(ResolveError::ShellFailed { name, error }),
    }
}

/// What can come of resolving one placeholder whose source is `src`:
/// fixed texts and unknown names are decided; clipboard text is the text of
/// clipboard read `ci` among `clips` (empty when there was none); a shell
/// variable is refused without consent; otherwise, when it asks for
/// confirmation, confirmation `fi` among `confirms` is for it and a refusal
/// declines it; otherwise run `ri` among `runs` is its command line, in the
/// snippet file's directory, with its timeout, and its value is what the
/// run gave; a date/time is a text or a format error, and a format without
/// `%` is its own text.
pub open spec fn out_allowed(
    snippet: Snippet,
    prefs: Prefs,
    name: Seq<char>,
    src: SpecSource,
    clips: Seq<Option<Seq<char>>>,
    ci: int,
    confirms: Seq<Confirmation>,
    fi: int,
    runs: Seq<ShellRun>,
    ri: int,
    out: Result<Seq<char>, ResolveError>,
) -> bool {
    match src {
        SpecSource::Value(v) => out == Ok::<Seq<char>, ResolveError>(v),
        SpecSource::Unknown => out matches Err(ResolveError::UnknownPlaceholder { name: n })
            && n@ == name,
        SpecSource::Clipboard => 0 <= ci < clips.len() && out == Ok::<Seq<char>, ResolveError>(
            clipboard_text(clips[ci]),
        ),
        SpecSource::Datetime(f) => {
            &&& out is Ok || (out matches Err(ResolveError::InvalidDatetimeFormat { name: n })
                && n@ == name)
            &&& !f.contains('%') ==> out == Ok::<Seq<char>, ResolveError>(f)
        },
        SpecSource::Shell(k) => {
            let var = snippet.vars@[k];
            if !prefs.shell_consent {
                out matches Err(ResolveError::ShellDisabled { name: n }) && n == var.name
            } else {
                &&& var.confirm ==> 0 <= fi < confirms.len() && confirms[fi].0 == snippet.id@
                    && confirms[fi].1 == var.name@ && confirms[fi].2 == var.cmd@
                &&& if var.confirm && !confirms[fi].3 {
                    out matches Err(ResolveError::ShellDeclined { name: n }) && n == var.name
                } else {
                    &&& 0 <= ri < runs.len()
                    &&& runs[ri].0 == var.cmd@
                    &&& runs[ri].1 == shell_cwd_spec(snippet.source_file@)
                    &&& runs[ri].2 == shell_timeout_spec(var)
                    &&& out == shell_result(var.name, runs[ri].3)
                }
            }
        },
    }
}

/// Whether piece `p` is a placeholder whose value is the clipboard text.
pub open spec fn is_clip_piece(snippet: Snippet, form: Option<Seq<(String, String)>>, p: SpecPart) -> bool {
    match p {
        SpecPart::Lit(_) => false,
        SpecPart::Ph(name, arg) => spec_source(snippet, name, arg, form) is Clipboard,
    }
}

/// How many of the first `i` pieces take the clipboard text: each of them
/// reads the clipboard once, in order.
pub open spec fn clip_count(
    snippet: Snippet,
    form: Option<Seq<(String, String)>>,
    parts: Seq<SpecPart>,
    i: int,
) -> int
    decreases i,
{
    if i <= 0 || i > parts.len() {
        0
    } else {
        clip_count(snippet, form, parts, i - 1) + if is_clip_piece(snippet, form, parts[i - 1]) {
            1int
        } else {
            0int
        }
    }
}

/// Whether piece `p` is a shell variable that asks for confirmation before
/// it runs (which it only does with shell consent).
pub open spec fn is_confirm_piece(
    snippet: Snippet,
    prefs: Prefs,
    form: Option<Seq<(String, String)>>,
    p: SpecPart,
) -> bool {
    match p {
        SpecPart::Lit(_) => false,
        SpecPart::Ph(name, arg) => match spec_source(snippet, name, arg, form) {
            SpecSource::Shell(k) => prefs.shell_consent && snippet.vars@[k].confirm,
            _ => false,
        },
    }
}

/// Whether piece `p`, whose outcome was `out`, ran its command: a shell
/// variable with consent that was not declined.
pub open spec fn is_run_piece(
    snippet: Snippet,
    prefs: Prefs,
    form: Option<Seq<(String, String)>>,
    p: SpecPart,
    out: Result<Seq<char>, ResolveError>,
) -> bool {
    match p {
        SpecPart::Lit(_) => false,
        SpecPart::Ph(name, arg) => match spec_source(snippet, name, arg, form) {
            SpecSource::Shell(_) => prefs.shell_consent && !(out is Err && out->Err_0 is ShellDeclined),
            _ => false,
        },
    }
}

/// How many of the first `i` pieces asked for a confirmation.
pub open spec fn confirm_count(
    snippet: Snippet,
    prefs: Prefs,
    form: Option<Seq<(String, String)>>,
    parts: Seq<SpecPart>,
    i: int,
) -> int
    decreases i,
{
    if i <= 0 || i > parts.len() {
        0
    } else {
        confirm_count(snippet, prefs, form, parts, i - 1) + if is_confirm_piece(
            snippet,
            prefs,
            form,
            parts[i - 1],
        ) {
            1int
        } else {
            0int
        }
    }
}

/// How many of the first `i` pieces, given their outcomes, ran a command.
pub open spec fn run_count(
    snippet: Snippet,
    prefs: Prefs,
    form: Option<Seq<(String, String)>>,
    parts: Seq<SpecPart>,
    outs: Seq<Result<Seq<char>, ResolveError>>,
    i: int,
) -> int
    decreases i,
{
    if i <= 0 || i > parts.len() || i > outs.len() {
        0
    } else {
        run_count(snippet, prefs, form, parts, outs, i - 1) + if is_run_piece(
            snippet,
            prefs,
            form,
            parts[i - 1],
            outs[i - 1],
        ) {
            1int
        } else {
            0int
        }
    }
}

/// The run count over the first `i` pieces depends only on their outcomes.
proof fn lemma_run_count_prefix(
    snippet: Snippet,
    prefs: Prefs,
    form: Option<Seq<(String, String)>>,
    parts: Seq<SpecPart>,
    a: Seq<Result<Seq<char>, ResolveError>>,
    b: Seq<Result<Seq<char>, ResolveError>>,
    i: int,
)
    requires
        0 <= i <= a.len(),
        i <= b.len(),
        forall|j: int| 0 <= j < i ==> a[j] == b[j],
    ensures
        run_count(snippet, prefs, form, parts, a, i) == run_count(snippet, prefs, form, parts, b, i),
    decreases i,
{
    if i > 0 {
        lemma_run_count_prefix(snippet, prefs, form, parts, a, b, i - 1);
    }
}

/// Outcomes for the pieces resolved before resolution stopped: one per
/// piece up to the first failed placeholder (all of them when none failed);
/// literals take no outcome and each placeholder's outcome is allowed for
/// its source, the clipboard pieces taking the clipboard reads `clips` in
/// order, one each, and the shell pieces the confirmations `confirms` and
/// the runs `runs` in order, one each where they ask or run.
pub open spec fn outs_allowed(
    snippet: Snippet,
    prefs: Prefs,
    form: Option<Seq<(String, String)>>,
    parts: Seq<SpecPart>,
    clips: Seq<Option<Seq<char>>>,
    confirms: Seq<Confirmation>,
    runs: Seq<ShellRun>,
    outs: Seq<Result<Seq<char>, ResolveError>>,
) -> bool {
    &&& outs.len() <= parts.len()
    &&& outs.len() < parts.len() ==> outs.len() > 0 && outs.last() is Err && parts[outs.len()
        - 1] is Ph
    &&& clips.len() == clip_count(snippet, form, parts, outs.len() as int)
    &&& confirms.len() == confirm_count(snippet, prefs, form, parts, outs.len() as int)
    &&& runs.len() == run_count(snippet, prefs, form, parts, outs, outs.len() as int)
    &&& forall|i: int|
        0 <= i < outs.len() ==> match #[trigger] parts[i] {
            SpecPart::Lit(_) => true,
            SpecPart::Ph(name, arg) => out_allowed(
                snippet,
                prefs,
                name,
                spec_source(snippet, name, arg, form),
                clips,
                clip_count(snippet, form, parts, i),
                confirms,
                confirm_count(snippet, prefs, form, parts, i),
                runs,
                run_count(snippet, prefs, form, parts, outs, i),
                outs[i],
            ),
        }
}

/// The text of pieces `i..` given the placeholder outcomes, or the first
/// failed outcome among them.
pub open spec fn fold_render(
    parts: Seq<SpecPart>,
    outs: Seq<Result<Seq<char>, ResolveError>>,
    i: int,
) -> Result<Seq<char>, ResolveError>
    decreases parts.len() - i,
{
    if i < 0 || i >= parts.len() {
        Ok(Seq::empty())
    } else {
        let head: Result<Seq<char>, ResolveError> = match parts[i] {
            SpecPart::Lit(l) => Ok(l),
            SpecPart::Ph(_, _) => if i < outs.len() {
                outs[i]
            } else {
                Ok(Seq::empty())
            },
        };
        match head {
            Err(e) => Err(e),
            Ok(h) => match fold_render(parts, outs, i + 1) {
                Ok(t) => Ok(h + t),
                Err(e) => Err(e),
            },
        }
    }
}

/// The resolution result once all pieces are rendered: an unterminated
/// placeholder is an error, then the cursor marker is stripped.
pub open spec fn finish_render(
    rendered: Result<Seq<char>, ResolveError>,
    unterminated: bool,
) -> Result<(Seq<char>, Option<nat>), ResolveError> {
    match rendered {
        Err(e) => Err(e),
        Ok(t) => if unterminated {
            Err(ResolveError::UnterminatedPlaceholder)
        } else {
            match spec_strip(t) {
                Ok(x) => Ok(x),
                Err(_) => Err(ResolveError::TooManyCursorTokens),
            }
        },
    }
}

/// Resolving `snippet`, with the clipboard reads giving `clips`, the
/// confirmations `confirms` and the command runs `runs`, may give `res`: for some outcomes of its placeholders that their sources admit,
/// the rendered body, once finished, is `res`.
pub open spec fn resolves_to(
    snippet: Snippet,
    prefs: Prefs,
    form: Option<Seq<(String, String)>>,
    clips: Seq<Option<Seq<char>>>,
    confirms: Seq<Confirmation>,
    runs: Seq<ShellRun>,
    res: Result<(Seq<char>, Option<nat>), ResolveError>,
) -> bool {
    exists|outs: Seq<Result<Seq<char>, ResolveError>>|
        #![trigger fold_render(parse_from(snippet.replace@, 0).0, outs, 0)]
        outs_allowed(snippet, prefs, form, parse_from(snippet.replace@, 0).0, clips, confirms, runs, outs)
            && finish_render(
            fold_render(parse_from(snippet.replace@, 0).0, outs, 0),
            parse_from(snippet.replace@, 0).1,
        ) == res
}

/// A resolution result by value: the text's characters and the caret
/// offset as a number, or the error.
pub open spec fn resolved_view(r: Result<Resolved, ResolveError>) -> Result<(Seq<char>, Option<nat>), ResolveError> {
    match r {
        Ok(x) => Ok((
            x.text@,
            match x.cursor_chars_after_token {
                Some(a) => Some(a as nat),
                None => None,
            },
        )),
        Err(e) => Err(e),
    }
}

/// The concatenated text of pieces `..i`, failed outcomes counting as empty.
pub open spec fn prefix_text(
    parts: Seq<SpecPart>,
    outs: Seq<Result<Seq<char>, ResolveError>>,
    i: int,
) -> Seq<char>
    decreases i,
{
    if i <= 0 || i > parts.len() {
        Seq::empty()
    } else {
        prefix_text(parts, outs, i - 1) + match parts[i - 1] {
            SpecPart::Lit(l) => l,
            SpecPart::Ph(_, _) => match outs[i - 1] {
                Ok(v) => v,
                Err(_) => Seq::empty(),
            },
        }
    }
}

proof fn lemma_fold_prefix(
    parts: Seq<SpecPart>,
    outs: Seq<Result<Seq<char>, ResolveError>>,
    i: int,
)
    requires
        0 <= i <= outs.len(),
        outs.len() <= parts.len(),
        forall|j: int| 0 <= j < i ==> (parts[j] is Ph ==> outs[j] is Ok),
    ensures
        fold_render(parts, outs, 0) == match fold_render(parts, outs, i) {
            Ok(t) => Ok::<Seq<char>, ResolveError>(prefix_text(parts, outs, i) + t),
            Err(e) => Err(e),
        },
    decreases i,
{
    if i > 0 {
        lemma_fold_prefix(parts, outs, i - 1);
        let h = match parts[i - 1] {
            SpecPart::Lit(l) => l,
            SpecPart::Ph(_, _) => outs[i - 1]->Ok_0,
        };
        match fold_render(parts, outs, i) {
            Ok(t) => {
                assert(prefix_text(parts, outs, i - 1) + (h + t) =~= prefix_text(parts, outs, i)
                    + t);
            },
            Err(e) => {},
        }
    } else {
        assert(prefix_text(parts, outs, 0) + Seq::<char>::empty() =~= Seq::<char>::empty());
        match fold_render(parts, outs, 0) {
            Ok(t) => {
                assert(Seq::<char>::empty() + t =~= t);
            },
            Err(e) => {},
        }
    }
}

/// The directory a shell variable runs in: the directory of the snippet's
/// file, or `.` when the path has none.
pub fn shell_cwd(source_file: &str) -> (r: String)
    ensures
        r@ == shell_cwd_spec(source_file@),
{
    match path_parent(source_file) {
        Some(p) => p,
        None => String::from_str("."),
    }
}

/// The timeout a shell variable runs with, in milliseconds: the declared
/// one, or 0 when none is declared.
pub fn shell_timeout_ms(var: &VarDecl) -> (r: u64)
    ensures
        r == shell_timeout_spec(*var),
{
    match var.timeout_ms {
        Some(t) => t,
        None => 0,
    }
}

/// The value of a shell variable given what running its command gave: the
/// output, or the failure named after the variable.
pub fn shell_outcome(var: &VarDecl, ran: Result<String, ShellError>) -> (r: Result<String, ResolveError>)
    ensures
        outcome_view(r) == shell_result(var.name, ran),
{
    match ran {
        Ok(out) => Ok(out),
        Err(error) => Err(ResolveError::ShellFailed { name: var.name.clone(), error }),
    }
}

/// A placeholder value by its characters.
pub open spec fn outcome_view(r: Result<String, ResolveError>) -> Result<Seq<char>, ResolveError> {
    match r {
        Ok(s) => Ok(s@),
        Err(e) => Err(e),
    }
}

/// Resolves placeholders of a snippet body against declared variables,
/// form values, the clipboard, the clock and shell commands.
pub struct Resolver<'a, S: ShellBackend, N: ResolveNotifySink> {
    prefs: &'a Prefs,
    shell_backend: S,
    notify: N,
}

impl<'a> Resolver<'a, NoopShellBackend, NoopResolveNotifySink> {
    /// A resolver that runs no shell command and declines every confirmation.
    pub fn new(prefs: &'a Prefs) -> (r: Self)
        ensures
            r.spec_prefs() == *prefs,
            r.spec_shell().runs() == Seq::<ShellRun>::empty(),
            r.spec_notify().confirmations() == Seq::<Confirmation>::empty(),
            r.spec_notify().unknowns() == Seq::<(Seq<char>, Seq<char>)>::empty(),
    {
        Resolver { prefs, shell_backend: NoopShellBackend::new(), notify: NoopResolveNotifySink::new() }
    }
}

impl<'a, S: ShellBackend, N: ResolveNotifySink> Resolver<'a, S, N> {
    /// The preferences consulted for shell consent.
    pub closed spec fn spec_prefs(&self) -> Prefs {
        *self.prefs
    }

    /// The shell backend.
    pub closed spec fn spec_shell(&self) -> S {
        self.shell_backend
    }

    /// The notify sink.
    pub closed spec fn spec_notify(&self) -> N {
        self.notify
    }

    /// The same resolver running shell commands through `shell_backend`.
    pub fn with_shell_backend<S2: ShellBackend>(self, shell_backend: S2) -> (r: Resolver<'a, S2, N>)
        ensures
            r.spec_prefs() == self.spec_prefs(),
            r.spec_shell() == shell_backend,
            r.spec_notify() == self.spec_notify(),
    {
        Resolver { prefs: self.prefs, shell_backend, notify: self.notify }
    }

    /// The same resolver asking `notify` for confirmations.
    pub fn with_notify_sink<N2: ResolveNotifySink>(self, notify: N2) -> (r: Resolver<'a, S, N2>)
        ensures
            r.spec_prefs() == self.spec_prefs(),
            r.spec_shell() == self.spec_shell(),
            r.spec_notify() == notify,
    {
        Resolver { prefs: self.prefs, shell_backend: self.shell_backend, notify }
    }

    /// Resolves `snippet` with this resolver's preferences, shell backend and
    /// notify sink: see `resolve_snippet`.
    pub fn resolve<C: ClipboardReader>(
        &mut self,
        snippet: &Snippet,
        clipboard_reader: &mut C,
        form_values: Option<&Vec<(String, String)>>,
    ) -> (r: Result<Resolved, ResolveError>)
        ensures
            final(self).spec_prefs() == old(self).spec_prefs(),
            resolution_recorded(
                *snippet,
                old(self).spec_prefs(),
                match form_values {
                    Some(v) => Some(v@),
                    None => None,
                },
                old(clipboard_reader).reads(),
                final(clipboard_reader).reads(),
                old(self).spec_notify().confirmations(),
                final(self).spec_notify().confirmations(),
                old(self).spec_shell().runs(),
                final(self).spec_shell().runs(),
                resolved_view(r),
            ),
            final(self).spec_notify().unknowns() == old(self).spec_notify().unknowns(),
    {
        resolve_snippet(self.prefs, snippet, clipboard_reader, form_values, &mut self.shell_backend, &mut self.notify)
    }
}

/// `res` is a result resolving `snippet` may give, where the clipboard reads,
/// confirmations and command runs made on the way are what the records
/// gained between `before` and `after` (which keep what they held).
pub open spec fn resolution_recorded(
    snippet: Snippet,
    prefs: Prefs,
    form: Option<Seq<(String, String)>>,
    reads_before: Seq<Option<Seq<char>>>,
    reads_after: Seq<Option<Seq<char>>>,
    confirms_before: Seq<Confirmation>,
    confirms_after: Seq<Confirmation>,
    runs_before: Seq<ShellRun>,
    runs_after: Seq<ShellRun>,
    res: Result<(Seq<char>, Option<nat>), ResolveError>,
) -> bool {
    &&& reads_after.len() >= reads_before.len()
    &&& reads_after.take(reads_before.len() as int) == reads_before
    &&& confirms_after.len() >= confirms_before.len()
    &&& confirms_after.take(confirms_before.len() as int) == confirms_before
    &&& runs_after.len() >= runs_before.len()
    &&& runs_after.take(runs_before.len() as int) == runs_before
    &&& resolves_to(
        snippet,
        prefs,
        form,
        reads_after.skip(reads_before.len() as int),
        confirms_after.skip(confirms_before.len() as int),
        runs_after.skip(runs_before.len() as int),
        res,
    )
}

/// Runs shell variable `var` of `snippet`: refused without shell consent;
/// when it asks for confirmation, `notify` is asked once and a refusal
/// declines it; otherwise its command is run once, in the directory of the
/// snippet file (`.` when it has none), with the declared timeout.
fn resolve_shell_var<S: ShellBackend, N: ResolveNotifySink>(
    prefs: &Prefs,
    snippet: &Snippet,
    var: &VarDecl,
    shell: &mut S,
    notify: &mut N,
) -> (r: Result<String, ResolveError>)
    ensures
        (*final(notify)).unknowns() == (*old(notify)).unknowns(),
        !prefs.shell_consent ==> (r matches Err(ResolveError::ShellDisabled { name: n })
            && n == var.name) && (*final(notify)).confirmations() == (*old(notify)).confirmations()
            && (*final(shell)).runs() == (*old(shell)).runs(),
        prefs.shell_consent ==> {
            let asked = if var.confirm { 1int } else { 0int };
            let declined = var.confirm && !(*final(notify)).confirmations().last().3;
            &&& (*final(notify)).confirmations().len() == (*old(notify)).confirmations().len() + asked
            &&& (*final(notify)).confirmations().take((*old(notify)).confirmations().len() as int) == (*old(notify)).confirmations()
            &&& var.confirm ==> (*final(notify)).confirmations().last().0 == snippet.id@
                && (*final(notify)).confirmations().last().1 == var.name@
                && (*final(notify)).confirmations().last().2 == var.cmd@
            &&& declined ==> (r matches Err(ResolveError::ShellDeclined { name: n }) && n == var.name)
                && (*final(shell)).runs() == (*old(shell)).runs()
            &&& !declined ==> (*final(shell)).runs().len() == (*old(shell)).runs().len() + 1
                && (*final(shell)).runs().drop_last() == (*old(shell)).runs()
                && (*final(shell)).runs().last().0 == var.cmd@
                && (*final(shell)).runs().last().1 == shell_cwd_spec(snippet.source_file@)
                && (*final(shell)).runs().last().2 == shell_timeout_spec(*var)
                && outcome_view(r) == shell_result(var.name, (*final(shell)).runs().last().3)
        },
{
    if !prefs.shell_consent {
        return Err(ResolveError::ShellDisabled { name: var.name.clone() });
    }
    if var.confirm {
        let allowed = notify.confirm_shell(snippet.id.as_str(), var.name.as_str(), var.cmd.as_slice());
        assert(notify.confirmations().take((*old(notify)).confirmations().len() as int) =~= (*old(notify)).confirmations());
        if !allowed {
            return Err(ResolveError::ShellDeclined { name: var.name.clone() });
        }
    } else {
        assert(notify.confirmations().take((*old(notify)).confirmations().len() as int) =~= (*old(notify)).confirmations());
    }
    let cwd = shell_cwd(snippet.source_file.as_str());
    let timeout_ms = shell_timeout_ms(var);
    let ran = shell.run(var.cmd.as_slice(), cwd.as_str(), timeout_ms);
    assert(shell.runs().drop_last() =~= (*old(shell)).runs());
    shell_outcome(var, ran)
}

/// Resolves one placeholder: what its source gives, with the records of
/// the clipboard, the notify sink and the shell backend gaining exactly
/// what resolving it asked of them.
fn resolve_placeholder<C: ClipboardReader, S: ShellBackend, N: ResolveNotifySink>(
    prefs: &Prefs,
    snippet: &Snippet,
    name: &String,
    arg: &Option<String>,
    clipboard_reader: &mut C,
    form_values: Option<&Vec<(String, String)>>,
    shell: &mut S,
    notify: &mut N,
) -> (r: Result<String, ResolveError>)
    ensures
        ({
            let form = match form_values {
                Some(v) => Some(v@),
                None => None,
            };
            let src = spec_source(*snippet, name@, opt_view(*arg), form);
            let part = SpecPart::Ph(name@, opt_view(*arg));
            let clips = final(clipboard_reader).reads().skip(old(clipboard_reader).reads().len() as int);
            let confirms = (*final(notify)).confirmations().skip((*old(notify)).confirmations().len() as int);
            let runs = (*final(shell)).runs().skip((*old(shell)).runs().len() as int);
            &&& out_allowed(*snippet, *prefs, name@, src, clips, 0, confirms, 0, runs, 0, outcome_view(r))
            &&& final(clipboard_reader).reads().len() >= old(clipboard_reader).reads().len()
            &&& final(clipboard_reader).reads().take(old(clipboard_reader).reads().len() as int) == old(
                clipboard_reader,
            ).reads()
            &&& clips.len() == if is_clip_piece(*snippet, form, part) { 1int } else { 0int }
            &&& (*final(notify)).confirmations().len() >= (*old(notify)).confirmations().len()
            &&& (*final(notify)).confirmations().take((*old(notify)).confirmations().len() as int) == (*old(notify)).confirmations()
            &&& confirms.len() == if is_confirm_piece(*snippet, *prefs, form, part) { 1int } else { 0int }
            &&& (*final(shell)).runs().len() >= (*old(shell)).runs().len()
            &&& (*final(shell)).runs().take((*old(shell)).runs().len() as int) == (*old(shell)).runs()
            &&& runs.len() == if is_run_piece(*snippet, *prefs, form, part, outcome_view(r)) {
                1int
            } else {
                0int
            }
            &&& (*final(notify)).unknowns() == (*old(notify)).unknowns()
        }),
{
    let src = placeholder_source(snippet, name.as_str(), arg, form_values);
    let ghost reads0 = clipboard_reader.reads();
    let ghost confirms0 = notify.confirmations();
    let ghost runs0 = shell.runs();
    let r = match src {
        PlaceholderSource::Value(v) => Ok(v),
        PlaceholderSource::Datetime(fmt) => match resolve_datetime(Some(fmt.as_str()), "") {
            Some(text) => Ok(text),
            None => Err(ResolveError::InvalidDatetimeFormat { name: name.clone() }),
        },
        PlaceholderSource::Clipboard => {
            let text = resolve_clipboard(clipboard_reader);
            Ok(text)
        },
        PlaceholderSource::Shell(k) => resolve_shell_var(prefs, snippet, &snippet.vars[k], shell, notify),
        PlaceholderSource::Unknown => Err(ResolveError::UnknownPlaceholder { name: name.clone() }),
    };
    proof {
        assert(clipboard_reader.reads().take(reads0.len() as int) =~= reads0);
        assert(notify.confirmations().take(confirms0.len() as int) =~= confirms0);
        assert(shell.runs().take(runs0.len() as int) =~= runs0);
        if src is Clipboard {
            assert(clipboard_reader.reads().skip(reads0.len() as int) =~= seq![clipboard_reader.reads().last()]);
        }
        if notify.confirmations().len() > confirms0.len() {
            assert(notify.confirmations().skip(confirms0.len() as int) =~= seq![notify.confirmations().last()]);
        }
        if shell.runs().len() > runs0.len() {
            assert(shell.runs().skip(runs0.len() as int) =~= seq![shell.runs().last()]);
        }
    }
    r
}

/// Resolves `snippet`: its body is cut into literal text and placeholders,
/// each placeholder is resolved in order (form values first when given),
/// the first failure is returned, an unterminated `{{` is an error, and the
/// cursor marker is stripped from the result. The clipboard reads, the
/// confirmations and the command runs made on the way are the ones the
/// placeholders ask for, in order, and no placeholder is reported unknown.
pub fn resolve_snippet<C: ClipboardReader, S: ShellBackend, N: ResolveNotifySink>(
    prefs: &Prefs,
    snippet: &Snippet,
    clipboard_reader: &mut C,
    form_values: Option<&Vec<(String, String)>>,
    shell: &mut S,
    notify: &mut N,
) -> (r: Result<Resolved, ResolveError>)
    ensures
        resolution_recorded(
            *snippet,
            *prefs,
            match form_values {
                Some(v) => Some(v@),
                None => None,
            },
            old(clipboard_reader).reads(),
            final(clipboard_reader).reads(),
            (*old(notify)).confirmations(),
            (*final(notify)).confirmations(),
            (*old(shell)).runs(),
            (*final(shell)).runs(),
            resolved_view(r),
        ),
        (*final(notify)).unknowns() == (*old(notify)).unknowns(),
{
    let template = parse_template(snippet.replace.as_str());
    let ghost parts = parts_view(template.parts@);
    let ghost form = match form_values {
        Some(v) => Some(v@),
        None => None,
    };
    let ghost mut outs: Seq<Result<Seq<char>, ResolveError>> = Seq::empty();
    let ghost reads0 = clipboard_reader.reads();
    let ghost confirms0 = notify.confirmations();
    let ghost runs0 = shell.runs();
    let mut rendered = String::new();
    let n = template.parts.len();
    let mut i: usize = 0;
    assert(clipboard_reader.reads().take(reads0.len() as int) =~= reads0);
    assert(notify.confirmations().take(confirms0.len() as int) =~= confirms0);
    assert(shell.runs().take(runs0.len() as int) =~= runs0);
    while i < n
        invariant
            n == template.parts@.len() == parts.len(),
            parts == parts_view(template.parts@),
            parts == parse_from(snippet.replace@, 0).0,
            i <= n,
            outs.len() == i,
            reads0 == old(clipboard_reader).reads(),
            confirms0 == (*old(notify)).confirmations(),
            runs0 == (*old(shell)).runs(),
            notify.unknowns() == (*old(notify)).unknowns(),
            clipboard_reader.reads().len() >= reads0.len(),
            clipboard_reader.reads().take(reads0.len() as int) == reads0,
            clipboard_reader.reads().skip(reads0.len() as int).len() == clip_count(*snippet, form, parts, i as int),
            notify.confirmations().len() >= confirms0.len(),
            notify.confirmations().take(confirms0.len() as int) == confirms0,
            notify.confirmations().skip(confirms0.len() as int).len() == confirm_count(
                *snippet,
                *prefs,
                form,
                parts,
                i as int,
            ),
            shell.runs().len() >= runs0.len(),
            shell.runs().take(runs0.len() as int) == runs0,
            shell.runs().skip(runs0.len() as int).len() == run_count(*snippet, *prefs, form, parts, outs, i as int),
            forall|j: int|
                0 <= j < i ==> match #[trigger] parts[j] {
                    SpecPart::Lit(_) => true,
                    SpecPart::Ph(name, arg) => out_allowed(
                        *snippet,
                        *prefs,
                        name,
                        spec_source(*snippet, name, arg, form),
                        clipboard_reader.reads().skip(reads0.len() as int),
                        clip_count(*snippet, form, parts, j),
                        notify.confirmations().skip(confirms0.len() as int),
                        confirm_count(*snippet, *prefs, form, parts, j),
                        shell.runs().skip(runs0.len() as int),
                        run_count(*snippet, *prefs, form, parts, outs, j),
                        outs[j],
                    ) && outs[j] is Ok,
                },
            rendered@ == prefix_text(parts, outs, i as int),
            form == match form_values {
                Some(v) => Some(v@),
                None => None,
            },
        decreases n - i,
    {
        let ghost old_outs = outs;
        let ghost reads_i = clipboard_reader.reads();
        let ghost confirms_i = notify.confirmations();
        let ghost runs_i = shell.runs();
        match &template.parts[i] {
            TemplatePart::Literal(text) => {
                proof {
                    outs = outs.push(Ok(Seq::empty()));
                    lemma_run_count_prefix(*snippet, *prefs, form, parts, old_outs, outs, i as int);
                    assert forall|j: int| 0 <= j < i implies run_count(*snippet, *prefs, form, parts, outs, j)
                        == run_count(*snippet, *prefs, form, parts, old_outs, j) by {
                        lemma_run_count_prefix(*snippet, *prefs, form, parts, old_outs, outs, j);
                    }
                }
                rendered.append(text.as_str());
                assert(prefix_text(parts, old_outs, i as int) == prefix_text(parts, outs, i as int)) by {
                    lemma_prefix_text_ext(parts, old_outs, outs, i as int);
                }
            },
            TemplatePart::Placeholder { name, arg } => {
                let value = resolve_placeholder(prefs, snippet, name, arg, clipboard_reader, form_values, shell, notify);
                proof {
                    outs = outs.push(outcome_view(value));
                    lemma_run_count_prefix(*snippet, *prefs, form, parts, old_outs, outs, i as int);
                    assert forall|j: int| 0 <= j < i implies run_count(*snippet, *prefs, form, parts, outs, j)
                        == run_count(*snippet, *prefs, form, parts, old_outs, j) by {
                        lemma_run_count_prefix(*snippet, *prefs, form, parts, old_outs, outs, j);
                    }
                    lemma_records_extend(reads0, reads_i, clipboard_reader.reads());
                    lemma_records_extend(confirms0, confirms_i, notify.confirmations());
                    lemma_records_extend(runs0, runs_i, shell.runs());
                }
                match value {
                    Ok(v) => {
                        proof {
                            lemma_prefix_text_ext(parts, old_outs, outs, i as int);
                        }
                        rendered.append(v.as_str());
                    },
                    Err(e) => {
                        proof {
                            lemma_fold_prefix(parts, outs, i as int);
                            assert(fold_render(parts, outs, 0) == Err::<Seq<char>, ResolveError>(e));
                            assert(outs_allowed(
                                *snippet,
                                *prefs,
                                form,
                                parts,
                                clipboard_reader.reads().skip(reads0.len() as int),
                                notify.confirmations().skip(confirms0.len() as int),
                                shell.runs().skip(runs0.len() as int),
                                outs,
                            ));
                        }
                        return Err(e);
                    },
                }
            },
        }
        i = i + 1;
    }
    proof {
        lemma_fold_prefix(parts, outs, n as int);
        assert(outs_allowed(
            *snippet,
            *prefs,
            form,
            parts,
            clipboard_reader.reads().skip(reads0.len() as int),
            notify.confirmations().skip(confirms0.len() as int),
            shell.runs().skip(runs0.len() as int),
            outs,
        ));
        assert(prefix_text(parts, outs, n as int) + Seq::<char>::empty() =~= prefix_text(parts, outs, n as int));
    }
    if template.unterminated {
        return Err(ResolveError::UnterminatedPlaceholder);
    }
    match strip_cursor_token(rendered.as_str()) {
        Ok((text, cursor_chars_after_token)) => Ok(Resolved { text, cursor_chars_after_token }),
        Err(_) => Err(ResolveError::TooManyCursorTokens),
    }
}

/// A record that kept `base` as a prefix up to `mid` and then kept `mid`
/// keeps `base`, and what it gained since `base` extends what it had gained
/// by `mid`.
proof fn lemma_records_extend<T>(base: Seq<T>, mid: Seq<T>, now: Seq<T>)
    requires
        mid.len() >= base.len(),
        mid.take(base.len() as int) == base,
        now.len() >= mid.len(),
        now.take(mid.len() as int) == mid,
    ensures
        now.take(base.len() as int) == base,
        now.skip(base.len() as int).len() == mid.skip(base.len() as int).len() + now.skip(
            mid.len() as int,
        ).len(),
        forall|k: int|
            0 <= k < mid.skip(base.len() as int).len() ==> #[trigger] now.skip(base.len() as int)[k]
                == mid.skip(base.len() as int)[k],
        forall|k: int|
            0 <= k < now.skip(mid.len() as int).len() ==> now.skip(base.len() as int)[mid.len() - base.len()
                + k] == #[trigger] now.skip(mid.len() as int)[k],
{
    assert(now.take(base.len() as int) =~= mid.take(base.len() as int));
}

proof fn lemma_prefix_text_ext(
    parts: Seq<SpecPart>,
    a: Seq<Result<Seq<char>, ResolveError>>,
    b: Seq<Result<Seq<char>, ResolveError>>,
    i: int,
)
    requires
        0 <= i,
        i <= a.len(),
        i <= b.len(),
        forall|j: int| 0 <= j < i ==> a[j] == b[j],
    ensures
        prefix_text(parts, a, i) == prefix_text(parts, b, i),
        i < parts.len() && i < b.len() ==> prefix_text(parts, b, i + 1) == prefix_text(parts, b, i)
            + match parts[i] {
            SpecPart::Lit(l) => l,
            SpecPart::Ph(_, _) => match b[i] {
                Ok(v) => v,
                Err(_) => Seq::<char>::empty(),
            },
        },
    decreases i,
{
    if i > 0 {
        lemma_prefix_text_ext(parts, a, b, i - 1);
    }
}

} // verus!
