//! Which files under the snippet root are snippet files, and whether a
//! resolved path stays inside the root (compared the way Windows compares
//! paths: case-insensitively, with either slash).

use vstd::prelude::*;

use crate::chars::{chars_of, str_eq, string_from_chars};

use super::loader::{LoadError, SETTINGS_FILE_NAME};

verus! {

/// The extension of file name `name` as `Path::extension` reads it: what
/// follows the last `.`, unless there is none or the only `.` starts the name.
pub open spec fn extension_of(name: Seq<char>) -> Option<Seq<char>> {
    if exists|i: int| 0 < i < name.len() && name[i] == '.' {
        let i = choose|i: int|
            0 < i < name.len() && name[i] == '.' && forall|j: int| i < j < name.len() ==> name[j] != '.';
        Some(name.skip(i + 1))
    } else {
        None
    }
}

/// The position of the last `.` of `name`, when there is one after its
/// first character.
fn last_dot(v: &Vec<char>) -> (r: Option<usize>)
    ensures
        match r {
            Some(i) => 0 < i < v@.len() && v@[i as int] == '.' && forall|j: int|
                i < j < v@.len() ==> v@[j] != '.',
            None => !exists|i: int| 0 < i < v@.len() && v@[i] == '.',
        },
{
    let mut k: usize = v.len();
    while k > 1
        invariant
            k <= v@.len(),
            forall|j: int| k <= j < v@.len() ==> v@[j] != '.',
        decreases k,
    {
        if v[k - 1] == '.' {
            return Some(k - 1);
        }
        k = k - 1;
    }
    None
}

/// Whether the file name ends in `.yaml` or `.yml`.
pub fn is_yaml_file_name(name: &str) -> (r: bool)
    ensures
        r == (extension_of(name@) == Some("yaml"@) || extension_of(name@) == Some("yml"@)),
{
    let v = chars_of(name);
    match last_dot(&v) {
        None => false,
        Some(i) => {
            let mut ext: Vec<char> = Vec::new();
            let n = v.len();
            assert(i < n);
            let mut k: usize = i + 1;
            while k < v.len()
                invariant
                    i < k <= v@.len(),
                    ext@ == v@.subrange(i + 1, k as int),
                decreases v.len() - k,
            {
                ext.push(v[k]);
                k = k + 1;
                assert(ext@ =~= v@.subrange(i + 1, k as int));
            }
            let e = string_from_chars(&ext);
            proof {
                let c = choose|c: int|
                    0 < c < name@.len() && name@[c] == '.' && forall|j: int|
                        c < j < name@.len() ==> name@[j] != '.';
                assert(c == i) by {
                    if c < i {
                        assert(name@[i as int] == '.');
                    }
                    if c > i {
                        assert(v@[c] == '.');
                    }
                }
                assert(v@.skip(i + 1) =~= v@.subrange(i + 1, v@.len() as int));
            }
            str_eq(e.as_str(), "yaml") || str_eq(e.as_str(), "yml")
        },
    }
}

/// Whether the file name is that of the store settings file.
pub fn is_settings_file_name(name: &str) -> (r: bool)
    ensures
        r == (name@ == SETTINGS_FILE_NAME@),
{
    str_eq(name, SETTINGS_FILE_NAME)
}

/// `c` with ASCII capitals lowered.
pub open spec fn lower_char(c: char) -> char {
    if 'A' <= c && c <= 'Z' {
        ((c as u32) + 32) as char
    } else {
        c
    }
}

/// `p` as Windows compares paths: backslashes as slashes, ASCII lowered,
/// trailing slashes dropped.
pub open spec fn normalized_windows(p: Seq<char>) -> Seq<char> {
    trim_slashes(p.map_values(|c: char| if c == '\\' { '/' } else { lower_char(c) }))
}

/// `s` without its trailing slashes.
pub open spec fn trim_slashes(s: Seq<char>) -> Seq<char>
    decreases s.len(),
{
    if s.len() > 0 && s.last() == '/' {
        trim_slashes(s.drop_last())
    } else {
        s
    }
}

/// The character with ASCII code `u`.
fn ascii_char(u: u32) -> (r: char)
    requires
        u < 0x80,
    ensures
        r == u as char,
{
    (u as u8) as char
}

/// `path` normalized for comparison.
pub fn normalized_windows_path(path: &str) -> (r: Vec<char>)
    ensures
        r@ == normalized_windows(path@),
{
    let v = chars_of(path);
    let mut out: Vec<char> = Vec::new();
    let mut i: usize = 0;
    while i < v.len()
        invariant
            i <= v@.len(),
            v@ == path@,
            out@ == v@.take(i as int).map_values(|c: char| if c == '\\' { '/' } else { lower_char(c) }),
        decreases v.len() - i,
    {
        let c = v[i];
        let d = if c == '\\' {
            '/'
        } else if 'A' <= c && c <= 'Z' {
            ascii_char(c as u32 + 32)
        } else {
            c
        };
        out.push(d);
        i = i + 1;
        assert(out@ =~= v@.take(i as int).map_values(|c: char| if c == '\\' { '/' } else { lower_char(c) }));
    }
    assert(v@.take(v@.len() as int) =~= v@);
    while out.len() > 0 && out[out.len() - 1] == '/'
        invariant
            trim_slashes(out@) == normalized_windows(path@),
        decreases out.len(),
    {
        out.pop();
    }
    out
}

/// Whether `path` is `root` or lies under it, compared as Windows paths.
pub open spec fn within_root(path: Seq<char>, root: Seq<char>) -> bool {
    let p = normalized_windows(path);
    let r = normalized_windows(root);
    p == r || (r + seq!['/']).is_prefix_of(p)
}

/// Whether `path` is `root` or lies under it.
pub fn path_is_within_root(path: &str, root: &str) -> (r: bool)
    ensures
        r == within_root(path@, root@),
{
    let p = normalized_windows_path(path);
    let mut r = normalized_windows_path(root);
    let same = vec_eq(&p, &r);
    r.push('/');
    same || vec_prefix(&r, &p)
}

fn vec_eq(a: &Vec<char>, b: &Vec<char>) -> (r: bool)
    ensures
        r == (a@ == b@),
{
    if a.len() != b.len() {
        return false;
    }
    let mut i: usize = 0;
    while i < a.len()
        invariant
            a@.len() == b@.len(),
            i <= a@.len(),
            forall|j: int| 0 <= j < i ==> a@[j] == b@[j],
        decreases a.len() - i,
    {
        if a[i] != b[i] {
            return false;
        }
        i = i + 1;
    }
    assert(a@ =~= b@);
    true
}

fn vec_prefix(pre: &Vec<char>, s: &Vec<char>) -> (r: bool)
    ensures
        r == pre@.is_prefix_of(s@),
{
    if pre.len() > s.len() {
        return false;
    }
    let mut i: usize = 0;
    while i < pre.len()
        invariant
            pre@.len() <= s@.len(),
            i <= pre@.len(),
            forall|j: int| 0 <= j < i ==> pre@[j] == s@[j],
        decreases pre.len() - i,
    {
        if pre[i] != s[i] {
            return false;
        }
        i = i + 1;
    }
    true
}


/// What walking the snippet root does with one directory entry: a symlink
/// (or junction) is refused, a directory is walked into, a snippet file is
/// collected, anything else is left alone.
#[derive(Debug, Clone, Copy, PartialEq, Eq, Structural)]
pub enum EntryClass {
    Symlink,
    Directory,
    SnippetFile,
    Ignored,
}

/// Whether the file name `name` is that of a snippet file: a `.yaml` or
/// `.yml` file other than the settings file.
pub open spec fn snippet_file_name(name: Seq<char>) -> bool {
    &&& (extension_of(name) == Some("yaml"@) || extension_of(name) == Some("yml"@))
    &&& name != SETTINGS_FILE_NAME@
}

/// Classifies a directory entry by whether it is a symlink, whether it is a
/// directory, and its file name.
pub fn classify_entry(is_symlink: bool, is_dir: bool, name: &str) -> (r: EntryClass)
    ensures
        r == (if is_symlink {
            EntryClass::Symlink
        } else if is_dir {
            EntryClass::Directory
        } else if snippet_file_name(name@) {
            EntryClass::SnippetFile
        } else {
            EntryClass::Ignored
        }),
{
    if is_symlink {
        EntryClass::Symlink
    } else if is_dir {
        EntryClass::Directory
    } else if is_yaml_file_name(name) && !is_settings_file_name(name) {
        EntryClass::SnippetFile
    } else {
        EntryClass::Ignored
    }
}

/// The error for a symlink or junction met while walking the root.
pub fn symlink_escape(path: String) -> (r: LoadError)
    ensures
        r matches LoadError::RootEscape { path: p, message: m } && p == path
            && m@ == "invalid snippet path: symlink or junction escapes snippets root"@,
{
    LoadError::RootEscape {
        path,
        message: String::from_str("invalid snippet path: symlink or junction escapes snippets root"),
    }
}

/// Keeps the entry at `path`, whose resolved path is `canonical`, when that
/// lies within the resolved root `canonical_root`; otherwise reports that
/// the entry escapes the root.
pub fn check_within_root(path: String, canonical: &str, canonical_root: &str) -> (r: Result<String, LoadError>)
    ensures
        within_root(canonical@, canonical_root@) ==> r == Ok::<String, LoadError>(path),
        !within_root(canonical@, canonical_root@) ==> (r matches Err(LoadError::RootEscape { path: p, message: m })
            && p == path && m@ == "invalid snippet path: path escapes snippets root"@),
{
    if path_is_within_root(canonical, canonical_root) {
        Ok(path)
    } else {
        Err(LoadError::RootEscape {
            path,
            message: String::from_str("invalid snippet path: path escapes snippets root"),
        })
    }
}

} // verus!
