//! Shell-command placeholders: the backend interface and output decoding.

use vstd::prelude::*;
use vstd::utf8::{decode_utf8, valid_utf8};

use crate::chars::{char_is_whitespace, unicode_white_space};

verus! {

/// Why running a shell command produced no value.
#[derive(Debug, Clone, PartialEq, Eq)]
pub enum ShellError {
    Disabled,
    Timeout,
    NonUtf8,
    Spawn(String),
    Exit(Option<i32>),
}

/// One command run: the command line, the directory, the timeout in
/// milliseconds, and what running it gave.
pub type ShellRun = (Seq<String>, Seq<char>, u64, Result<String, ShellError>);

/// Runs a command line (`args[0]` with the rest as arguments) in `cwd`,
/// giving up after `timeout_ms` milliseconds, and returns its output. What a
/// run gives depends on the system; each run is recorded.
pub trait ShellBackend {
    /// Each run so far, in order.
    closed spec fn runs(&self) -> Seq<ShellRun> {
        Seq::empty()
    }

    fn run(&mut self, args: &[String], cwd: &str, timeout_ms: u64) -> (r: Result<String, ShellError>)
        ensures
            final(self).runs() == old(self).runs().push((args@, cwd@, timeout_ms, r)),
    ;
}

impl<'a, T: ShellBackend> ShellBackend for &'a mut T {
    open spec fn runs(&self) -> Seq<ShellRun> {
        (**self).runs()
    }

    fn run(&mut self, args: &[String], cwd: &str, timeout_ms: u64) -> (r: Result<String, ShellError>) {
        (**self).run(args, cwd, timeout_ms)
    }
}

/// A backend that never runs anything: every run it records failed with
/// `Disabled`.
pub struct NoopShellBackend {
    asked: Ghost<Seq<(Seq<String>, Seq<char>, u64)>>,
}

impl NoopShellBackend {
    /// A backend that has been asked nothing.
    pub fn new() -> (r: Self)
        ensures
            r.runs() == Seq::<ShellRun>::empty(),
    {
        let r = NoopShellBackend { asked: Ghost(Seq::empty()) };
        assert(r.runs() =~= Seq::<ShellRun>::empty());
        r
    }

    /// Every run recorded by this backend failed with `Disabled`.
    pub proof fn lemma_every_run_disabled(self)
        ensures
            forall|k: int|
                0 <= k < self.runs().len() ==> (#[trigger] self.runs()[k]).3 == Err::<
                    String,
                    ShellError,
                >(ShellError::Disabled),
    {
    }
}

/// The records of runs that were all refused.
pub open spec fn refused_runs(asked: Seq<(Seq<String>, Seq<char>, u64)>) -> Seq<ShellRun> {
    asked.map_values(|q: (Seq<String>, Seq<char>, u64)| (q.0, q.1, q.2, Err(ShellError::Disabled)))
}

impl ShellBackend for NoopShellBackend {
    closed spec fn runs(&self) -> Seq<ShellRun> {
        refused_runs(self.asked@)
    }

    fn run(&mut self, args: &[String], cwd: &str, timeout_ms: u64) -> (r: Result<String, ShellError>)
        ensures
            r == Err::<String, ShellError>(ShellError::Disabled),
    {
        let r = Err(ShellError::Disabled);
        let ghost before = self.asked@;
        proof {
            self.asked@ = self.asked@.push((args@, cwd@, timeout_ms));
        }
        assert(refused_runs(self.asked@) =~= refused_runs(before).push((args@, cwd@, timeout_ms, r)));
        r
    }
}

/// Calls `String::from_utf8`: it succeeds exactly on valid UTF-8 and then
/// holds the decoded characters.
#[verifier::external_body]
fn string_from_utf8(bytes: Vec<u8>) -> (r: Option<String>)
    ensures
        r is Some <==> valid_utf8(bytes@),
        r matches Some(s) ==> s@ == decode_utf8(bytes@),
{
    String::from_utf8(bytes).ok()
}

/// `s` without its trailing Unicode whitespace.
pub open spec fn trim_end_spec(s: Seq<char>) -> Seq<char>
    decreases s.len(),
{
    if s.len() > 0 && unicode_white_space(s.last()) {
        trim_end_spec(s.drop_last())
    } else {
        s
    }
}

/// `s` without its trailing whitespace, as `str::trim_end` gives it.
pub fn trim_end(s: &str) -> (r: String)
    ensures
        r@ == trim_end_spec(s@),
{
    let v = crate::chars::chars_of(s);
    let mut n = v.len();
    assert(v@.take(n as int) =~= v@);
    while n > 0 && char_is_whitespace(v[n - 1])
        invariant
            n <= v@.len(),
            trim_end_spec(v@) == trim_end_spec(v@.take(n as int)),
        decreases n,
    {
        assert(v@.take(n as int).drop_last() =~= v@.take(n - 1));
        n = n - 1;
    }
    assert(trim_end_spec(v@.take(n as int)) == v@.take(n as int));
    let mut out: Vec<char> = Vec::new();
    let mut i: usize = 0;
    while i < n
        invariant
            i <= n <= v@.len(),
            out@ == v@.take(i as int),
        decreases n - i,
    {
        out.push(v[i]);
        i = i + 1;
        assert(out@ =~= v@.take(i as int));
    }
    crate::chars::string_from_chars(&out)
}

/// Decodes command output: invalid UTF-8 is `NonUtf8`, otherwise the text
/// without trailing whitespace.
pub fn decode_stdout(stdout: Vec<u8>) -> (r: Result<String, ShellError>)
    ensures
        !valid_utf8(stdout@) ==> r == Err::<String, ShellError>(ShellError::NonUtf8),
        valid_utf8(stdout@) ==> (r matches Ok(s) && s@ == trim_end_spec(decode_utf8(stdout@))),
{
    match string_from_utf8(stdout) {
        None => Err(ShellError::NonUtf8),
        Some(text) => Ok(trim_end(text.as_str())),
    }
}

} // verus!
