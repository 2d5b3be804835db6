//! The `$|$` cursor marker in snippet bodies.

use vstd::prelude::*;

use crate::chars::{chars_of, string_from_chars};

verus! {

/// The cursor marker: `$|$`.
pub open spec fn cursor_token() -> Seq<char> {
    seq!['$', '|', '$']
}

/// The marker occurs in `s` at index `i`.
pub open spec fn token_at(s: Seq<char>, i: int) -> bool {
    0 <= i && i + 3 <= s.len() && s[i] == '$' && s[i + 1] == '|' && s[i + 2] == '$'
}

/// The leftmost occurrence of the marker at or after `from`.
pub open spec fn find_token_from(s: Seq<char>, from: int) -> Option<int>
    decreases s.len() - from,
{
    if from < 0 || from + 3 > s.len() {
        None
    } else if token_at(s, from) {
        Some(from)
    } else {
        find_token_from(s, from + 1)
    }
}

/// Number of UTF-16 code units that encode `s`.
pub open spec fn utf16_len(s: Seq<char>) -> nat
    decreases s.len(),
{
    if s.len() == 0 {
        0
    } else {
        utf16_len(s.drop_last()) + (if (s.last() as u32) >= 0x10000 {
            2nat
        } else {
            1nat
        })
    }
}

/// `n` capped at `usize::MAX`.
pub open spec fn cap_usize(n: nat) -> nat {
    if n > usize::MAX {
        usize::MAX as nat
    } else {
        n
    }
}

/// More than one cursor marker was found.
#[derive(Debug, Clone, PartialEq, Eq, Structural)]
pub enum CursorTokenError {
    TooManyTokens,
}

/// What `strip_cursor_token` gives back for `s`: with no marker the text
/// unchanged; with one marker (looking left to right, past each one found)
/// the text without it and the UTF-16 length of what followed it; otherwise
/// an error.
pub open spec fn spec_strip(s: Seq<char>) -> Result<(Seq<char>, Option<nat>), CursorTokenError> {
    match find_token_from(s, 0) {
        None => Ok((s, None)),
        Some(i) => if find_token_from(s, i + 3) is Some {
            Err(CursorTokenError::TooManyTokens)
        } else {
            Ok((s.take(i) + s.skip(i + 3), Some(cap_usize(utf16_len(s.skip(i + 3))))))
        },
    }
}

fn find_token(v: &Vec<char>, from: usize) -> (r: Option<usize>)
    ensures
        r matches Some(i) ==> find_token_from(v@, from as int) == Some(i as int) && token_at(
            v@,
            i as int,
        ),
        r is None ==> find_token_from(v@, from as int) is None,
{
    let mut k = from;
    while k < v.len() && v.len() - k >= 3
        invariant
            find_token_from(v@, from as int) == find_token_from(v@, k as int),
        decreases v.len() - k,
    {
        if v[k] == '$' && v[k + 1] == '|' && v[k + 2] == '$' {
            return Some(k);
        }
        k = k + 1;
    }
    None
}

/// `v` without the three characters starting at `i`.
fn splice_out(v: &Vec<char>, i: usize) -> (out: Vec<char>)
    requires
        i + 3 <= v@.len(),
    ensures
        out@ == v@.take(i as int) + v@.skip(i + 3),
{
    let mut out: Vec<char> = Vec::new();
    let mut k: usize = 0;
    while k < i
        invariant
            k <= i,
            i + 3 <= v@.len(),
            out@ == v@.take(k as int),
        decreases i - k,
    {
        out.push(v[k]);
        k = k + 1;
        assert(out@ =~= v@.take(k as int));
    }
    let n = v.len();
    let mut k: usize = i + 3;
    while k < n
        invariant
            i + 3 <= k <= v@.len(),
            n == v@.len(),
            out@ == v@.take(i as int) + v@.subrange(i + 3, k as int),
        decreases n - k,
    {
        out.push(v[k]);
        k = k + 1;
        assert(out@ =~= v@.take(i as int) + v@.subrange(i + 3, k as int));
    }
    assert(v@.subrange(i + 3, v@.len() as int) =~= v@.skip(i + 3));
    out
}

fn utf16_count(v: &Vec<char>, from: usize) -> (r: usize)
    requires
        from <= v@.len(),
    ensures
        r == cap_usize(utf16_len(v@.skip(from as int))),
{
    let mut n: usize = 0;
    let mut k = from;
    while k < v.len()
        invariant
            from <= k <= v@.len(),
            n == cap_usize(utf16_len(v@.subrange(from as int, k as int))),
        decreases v.len() - k,
    {
        let w: usize = if (v[k] as u32) >= 0x10000 {
            2
        } else {
            1
        };
        assert(v@.subrange(from as int, k + 1).drop_last() =~= v@.subrange(from as int, k as int));
        n = n.saturating_add(w);
        k = k + 1;
    }
    assert(v@.subrange(from as int, v@.len() as int) =~= v@.skip(from as int));
    n
}

/// Removes the single `$|$` marker from `input`, reporting how many UTF-16
/// units followed it; fails when a second marker follows the first.
pub fn strip_cursor_token(input: &str) -> (r: Result<(String, Option<usize>), CursorTokenError>)
    ensures
        match (r, spec_strip(input@)) {
            (Ok((text, n)), Ok((t, m))) => text@ == t && match (n, m) {
                (Some(a), Some(b)) => a as nat == b,
                (None, None) => true,
                _ => false,
            },
            (Err(e), Err(f)) => e == f,
            _ => false,
        },
{
    let v = chars_of(input);
    match find_token(&v, 0) {
        None => Ok((string_from_chars(&v), None)),
        Some(i) => {
            if find_token(&v, i + 3).is_some() {
                Err(CursorTokenError::TooManyTokens)
            } else {
                let out = splice_out(&v, i);
                let n = utf16_count(&v, i + 3);
                Ok((string_from_chars(&out), Some(n)))
            }
        },
    }
}


/// The cursor count is the number of UTF-16 units that typing the text
/// after the marker sends: one per character below U+10000, two above.
pub proof fn lemma_cursor_count_is_utf16_units(s: Seq<char>)
    ensures
        utf16_len(s) == crate::chars::utf16_of(s).len(),
    decreases s.len(),
{
    if s.len() > 0 {
        lemma_cursor_count_is_utf16_units(s.drop_last());
    }
}

/// A body without the marker comes back unchanged and without a cursor
/// position; a body with exactly one marker comes back with the marker cut
/// out and three characters shorter.
pub proof fn lemma_strip_removes_only_the_marker(s: Seq<char>)
    ensures
        find_token_from(s, 0) is None ==> spec_strip(s) == Ok::<(Seq<char>, Option<nat>), CursorTokenError>((s, None)),
        spec_strip(s) matches Ok((t, Some(_))) ==> t.len() + 3 == s.len(),
{
    if let Some(i) = find_token_from(s, 0) {
        lemma_find_token_in_range(s, 0);
    }
}

proof fn lemma_find_token_in_range(s: Seq<char>, from: int)
    ensures
        find_token_from(s, from) matches Some(i) ==> from <= i && token_at(s, i),
    decreases s.len() - from,
{
    if !(from < 0 || from + 3 > s.len()) && !token_at(s, from) {
        lemma_find_token_in_range(s, from + 1);
    }
}

} // verus!
