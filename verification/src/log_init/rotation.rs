//! Which rotated log files to delete: all but the `max_files` newest.
//! Rotated files are named `openmacro.log.<date>`, so the newest have the
//! greatest names.

use vstd::prelude::*;

use crate::chars::chars_of;

verus! {

/// Prefix of rotated log file names.
pub open spec fn rotated_prefix() -> Seq<char> {
    "openmacro.log."@
}

/// Whether `name` is a rotated log file name.
pub open spec fn is_rotated_name(name: Seq<char>) -> bool {
    rotated_prefix().is_prefix_of(name)
}

/// `a` sorts before `b`, character by character (the order of their UTF-8 bytes).
pub open spec fn name_less(a: Seq<char>, b: Seq<char>) -> bool
    decreases a.len(),
{
    if a.len() == 0 {
        b.len() > 0
    } else if b.len() == 0 {
        false
    } else if a[0] != b[0] {
        (a[0] as u32) < (b[0] as u32)
    } else {
        name_less(a.drop_first(), b.drop_first())
    }
}

/// How many rotated names among the first `k` of `names` sort after `n`.
pub open spec fn newer_count(names: Seq<String>, n: Seq<char>, k: int) -> nat
    decreases k,
{
    if k <= 0 {
        0
    } else {
        newer_count(names, n, k - 1) + if is_rotated_name(names[k - 1]@) && name_less(
            n,
            names[k - 1]@,
        ) {
            1nat
        } else {
            0nat
        }
    }
}

/// The rotated names among the first `k` of `names` that have at least
/// `max_files` rotated names after them, in their order in `names`.
pub open spec fn pruned_names(names: Seq<String>, max_files: nat, k: int) -> Seq<Seq<char>>
    decreases k,
{
    if k <= 0 {
        Seq::empty()
    } else {
        pruned_names(names, max_files, k - 1) + if is_rotated_name(names[k - 1]@) && newer_count(
            names,
            names[k - 1]@,
            names.len() as int,
        ) >= max_files {
            seq![names[k - 1]@]
        } else {
            Seq::empty()
        }
    }
}

/// Whether `name` starts with `prefix`.
fn starts_with(name: &str, prefix: &str) -> (r: bool)
    ensures
        r == prefix@.is_prefix_of(name@),
{
    let vn = chars_of(name);
    let vp = chars_of(prefix);
    if vp.len() > vn.len() {
        return false;
    }
    let mut i: usize = 0;
    while i < vp.len()
        invariant
            vp@.len() <= vn@.len(),
            vn@ == name@,
            vp@ == prefix@,
            i <= vp@.len(),
            forall|j: int| 0 <= j < i ==> vp@[j] == vn@[j],
        decreases vp.len() - i,
    {
        if vp[i] != vn[i] {
            return false;
        }
        i = i + 1;
    }
    true
}

/// Whether `name` is a rotated log file name.
pub fn is_rotated_log_name(name: &str) -> (r: bool)
    ensures
        r == is_rotated_name(name@),
{
    starts_with(name, "openmacro.log.")
}

/// Whether `a` sorts before `b`.
pub fn str_less(a: &str, b: &str) -> (r: bool)
    ensures
        r == name_less(a@, b@),
{
    let va = chars_of(a);
    let vb = chars_of(b);
    let mut i: usize = 0;
    assert(va@.skip(0) =~= va@);
    assert(vb@.skip(0) =~= vb@);
    while i < va.len() && i < vb.len() && va[i] == vb[i]
        invariant
            i <= va@.len(),
            i <= vb@.len(),
            va@ == a@,
            vb@ == b@,
            name_less(a@, b@) == name_less(va@.skip(i as int), vb@.skip(i as int)),
        decreases va.len() - i,
    {
        assert(va@.skip(i as int).drop_first() =~= va@.skip(i + 1));
        assert(vb@.skip(i as int).drop_first() =~= vb@.skip(i + 1));
        i = i + 1;
    }
    if i == va.len() {
        i < vb.len()
    } else if i == vb.len() {
        false
    } else {
        (va[i] as u32) < (vb[i] as u32)
    }
}

/// The rotated log files to delete, given the names of the files in the log
/// directory: every rotated one with at least `max_files` rotated ones newer
/// than it, in the order given.
pub fn logs_to_prune(names: &Vec<String>, max_files: usize) -> (r: Vec<String>)
    ensures
        r@.map_values(|s: String| s@) == pruned_names(names@, max_files as nat, names@.len() as int),
{
    let mut out: Vec<String> = Vec::new();
    let mut i: usize = 0;
    while i < names.len()
        invariant
            i <= names@.len(),
            out@.map_values(|s: String| s@) == pruned_names(names@, max_files as nat, i as int),
        decreases names.len() - i,
    {
        let name = names[i].as_str();
        if is_rotated_log_name(name) {
            let mut newer: usize = 0;
            let mut j: usize = 0;
            while j < names.len()
                invariant
                    j <= names@.len(),
                    i < names@.len(),
                    name@ == names@[i as int]@,
                    newer == newer_count(names@, name@, j as int),
                    newer <= j,
                decreases names.len() - j,
            {
                if is_rotated_log_name(names[j].as_str()) && str_less(name, names[j].as_str()) {
                    newer = newer + 1;
                }
                j = j + 1;
            }
            if newer >= max_files {
                let ghost before = out@;
                out.push(names[i].clone());
                assert(out@.map_values(|s: String| s@) =~= before.map_values(|s: String| s@).push(
                    names@[i as int]@,
                ));
            }
        }
        i = i + 1;
    }
    out
}

} // verus!
