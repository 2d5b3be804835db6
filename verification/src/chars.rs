//! Character and string helpers shared by the matcher, the loader and the
//! redaction code.

use vstd::prelude::*;

verus! {

/// What `char::is_whitespace` reports: the Unicode `White_Space` property,
/// held by the controls U+0009 to U+000D and U+0085, the space U+0020, the
/// no-break space U+00A0, the Ogham space mark U+1680, the spaces U+2000 to
/// U+200A, the line and paragraph separators U+2028 and U+2029, the narrow
/// no-break space U+202F, the medium mathematical space U+205F and the
/// ideographic space U+3000.
pub open spec fn unicode_white_space(c: char) -> bool {
    let u = c as u32;
    ||| 0x9 <= u <= 0xD
    ||| u == 0x20
    ||| u == 0x85
    ||| u == 0xA0
    ||| u == 0x1680
    ||| 0x2000 <= u <= 0x200A
    ||| u == 0x2028
    ||| u == 0x2029
    ||| u == 0x202F
    ||| u == 0x205F
    ||| u == 0x3000
}

/// What `char::is_alphanumeric` reports: the Unicode `Alphabetic` or `Numeric` property.
pub uninterp spec fn unicode_alphanumeric(c: char) -> bool;

/// Calls `char::is_whitespace`, which reports the Unicode `White_Space`
/// property of `c`.
#[verifier::external_body]
pub(crate) fn char_is_whitespace(c: char) -> (r: bool)
    ensures
        r == unicode_white_space(c),
{
    c.is_whitespace()
}

/// Calls `char::is_alphanumeric`; its result is the Unicode alphabetic/numeric
/// property of `c`, which is named here and not written out.
#[verifier::external_body]
pub(crate) fn char_is_alphanumeric(c: char) -> (r: bool)
    ensures
        r == unicode_alphanumeric(c),
{
    c.is_alphanumeric()
}

/// Calls `String::push`, which appends one character.
#[verifier::external_body]
pub(crate) fn push_char(s: &mut String, c: char)
    ensures
        final(s)@ == old(s)@.push(c),
{
    s.push(c)
}

/// ASCII punctuation as `char::is_ascii_punctuation` documents it:
/// `!`..`/`, `:`..`@`, `[`..`` ` `` and `{`..`~`.
pub open spec fn is_ascii_punct(c: char) -> bool {
    let u = c as u32;
    (0x21 <= u && u <= 0x2F) || (0x3A <= u && u <= 0x40) || (0x5B <= u && u <= 0x60) || (
    0x7B <= u && u <= 0x7E)
}

/// Exec form of `is_ascii_punct`.
pub fn ascii_punct(c: char) -> (r: bool)
    ensures
        r == is_ascii_punct(c),
{
    let u = c as u32;
    (0x21 <= u && u <= 0x2F) || (0x3A <= u && u <= 0x40) || (0x5B <= u && u <= 0x60) || (0x7B
        <= u && u <= 0x7E)
}

/// The string made of the characters of `v`.
pub fn string_from_chars(v: &Vec<char>) -> (s: String)
    ensures
        s@ == v@,
{
    let mut s = String::new();
    let mut i: usize = 0;
    while i < v.len()
        invariant
            i <= v.len(),
            s@ == v@.take(i as int),
        decreases v.len() - i,
    {
        push_char(&mut s, v[i]);
        i = i + 1;
        assert(s@ =~= v@.take(i as int));
    }
    assert(v@.take(v.len() as int) =~= v@);
    s
}

/// The characters of `s`, in order.
pub fn chars_of(s: &str) -> (v: Vec<char>)
    ensures
        v@ == s@,
{
    let mut v: Vec<char> = Vec::new();
    for c in it: s.chars()
        invariant
            v@ == it.seq().take(it.index() as int),
            it.seq() == s@,
    {
        v.push(c);
        assert(v@ =~= it.seq().take(it.index() + 1));
    }
    assert(v@ =~= s@);
    v
}

} // verus!

verus! {

/// Whether two strings hold the same characters.
pub fn str_eq(a: &str, b: &str) -> (r: bool)
    ensures
        r == (a@ == b@),
{
    let va = chars_of(a);
    let vb = chars_of(b);
    if va.len() != vb.len() {
        return false;
    }
    let mut i: usize = 0;
    while i < va.len()
        invariant
            va@.len() == vb@.len(),
            va@ == a@,
            vb@ == b@,
            i <= va@.len(),
            va@.take(i as int) == vb@.take(i as int),
        decreases va.len() - i,
    {
        if va[i] != vb[i] {
            assert(va@[i as int] != vb@[i as int]);
            return false;
        }
        i = i + 1;
        assert(va@.take(i as int) =~= vb@.take(i as int));
    }
    assert(va@ =~= va@.take(i as int));
    assert(vb@ =~= vb@.take(i as int));
    true
}

/// What `std::path::Path::parent` gives for the path written `p`, under
/// the path rules of the platform the library is built for.
pub uninterp spec fn std_path_parent(p: Seq<char>) -> Option<Seq<char>>;

/// Calls `Path::parent` on the path written `p` and renders the parent as
/// text; the result is named by `std_path_parent`.
#[verifier::external_body]
pub(crate) fn path_parent(p: &str) -> (r: Option<String>)
    ensures
        r matches Some(s) ==> std_path_parent(p@) == Some(s@),
        r is None ==> std_path_parent(p@) is None,
{
    match std::path::Path::new(p).parent() {
        Some(q) => Some(q.to_string_lossy().into_owned()),
        None => None,
    }
}

} // verus!

verus! {

/// The decimal digits of `n`, most significant first, without leading zeros
/// (`"0"` for zero).
pub open spec fn decimal(n: nat) -> Seq<char>
    decreases n,
{
    if n < 10 {
        seq![digit_char(n)]
    } else {
        decimal(n / 10).push(digit_char(n % 10))
    }
}

/// The ASCII digit for `d < 10`.
pub open spec fn digit_char(d: nat) -> char {
    if d == 0 {
        '0'
    } else if d == 1 {
        '1'
    } else if d == 2 {
        '2'
    } else if d == 3 {
        '3'
    } else if d == 4 {
        '4'
    } else if d == 5 {
        '5'
    } else if d == 6 {
        '6'
    } else if d == 7 {
        '7'
    } else if d == 8 {
        '8'
    } else {
        '9'
    }
}

fn digit(d: u64) -> (c: char)
    requires
        d < 10,
    ensures
        c == digit_char(d as nat),
{
    if d == 0 {
        '0'
    } else if d == 1 {
        '1'
    } else if d == 2 {
        '2'
    } else if d == 3 {
        '3'
    } else if d == 4 {
        '4'
    } else if d == 5 {
        '5'
    } else if d == 6 {
        '6'
    } else if d == 7 {
        '7'
    } else if d == 8 {
        '8'
    } else {
        '9'
    }
}

/// `n` written in decimal, as `u64::to_string` gives it.
pub fn u64_to_decimal(n: u64) -> (s: String)
    ensures
        s@ == decimal(n as nat),
    decreases n,
{
    if n < 10 {
        let mut s = String::new();
        push_char(&mut s, digit(n));
        s
    } else {
        let mut s = u64_to_decimal(n / 10);
        push_char(&mut s, digit(n % 10));
        s
    }
}

/// `a` followed by `b`.
pub fn concat_str(a: &str, b: &str) -> (r: String)
    ensures
        r@ == a@ + b@,
{
    let mut r = String::from_str(a);
    r.append(b);
    r
}

} // verus!

verus! {

/// What `Path::join` gives for `base` and `segment`, rendered as text,
/// under the path rules of the platform the library is built for.
pub uninterp spec fn std_path_join(base: Seq<char>, segment: Seq<char>) -> Seq<char>;

/// Calls `Path::join`; the result is named by `std_path_join`.
#[verifier::external_body]
pub(crate) fn path_join(base: &str, segment: &str) -> (r: String)
    ensures
        r@ == std_path_join(base@, segment@),
{
    std::path::Path::new(base).join(segment).to_string_lossy().into_owned()
}

/// Whether the path written `a` comes before the path written `b` in the
/// order of `std::path::Path` (component by component), under the path
/// rules of the platform the library is built for.
pub uninterp spec fn std_path_lt(a: Seq<char>, b: Seq<char>) -> bool;

/// Compares two paths with `<` on `Path`; the result is named by
/// `std_path_lt`. `Path`'s order is total (it implements `Ord`), so when `a`
/// comes before `b`, `b` does not come before `a`.
#[verifier::external_body]
pub(crate) fn path_lt(a: &str, b: &str) -> (r: bool)
    ensures
        r == std_path_lt(a@, b@),
        r ==> !std_path_lt(b@, a@),
{
    std::path::Path::new(a) < std::path::Path::new(b)
}

/// What `Path::strip_prefix` gives for `path` and `base`, rendered as text,
/// under the path rules of the platform the library is built for; `None`
/// when `base` is not a prefix of `path`.
pub uninterp spec fn std_strip_prefix(path: Seq<char>, base: Seq<char>) -> Option<Seq<char>>;

/// Calls `Path::strip_prefix`; the result is named by `std_strip_prefix`.
#[verifier::external_body]
pub(crate) fn path_strip_prefix(path: &str, base: &str) -> (r: Option<String>)
    ensures
        r matches Some(s) ==> std_strip_prefix(path@, base@) == Some(s@),
        r is None ==> std_strip_prefix(path@, base@) is None,
{
    match std::path::Path::new(path).strip_prefix(base) {
        Ok(rel) => Some(rel.to_string_lossy().into_owned()),
        Err(_) => None,
    }
}

/// `s` with every backslash turned into a slash.
pub open spec fn forward_slashes(s: Seq<char>) -> Seq<char> {
    s.map_values(|c: char| if c == '\\' { '/' } else { c })
}

/// Replaces every backslash of `s` with a slash.
pub fn to_forward_slashes(s: &str) -> (r: String)
    ensures
        r@ == forward_slashes(s@),
{
    let v = chars_of(s);
    let mut out: Vec<char> = Vec::new();
    let mut i: usize = 0;
    while i < v.len()
        invariant
            i <= v@.len(),
            out@ == forward_slashes(v@.take(i as int)),
        decreases v.len() - i,
    {
        let c = v[i];
        out.push(if c == '\\' { '/' } else { c });
        i = i + 1;
        assert(out@ =~= forward_slashes(v@.take(i as int)));
    }
    assert(v@.take(i as int) =~= v@);
    string_from_chars(&out)
}


/// The UTF-16 code units of `c`, as `char::encode_utf16` documents them: one
/// unit below U+10000, otherwise a high and a low surrogate.
pub open spec fn utf16_units(c: char) -> Seq<u16> {
    let u = c as u32;
    if u < 0x10000 {
        seq![u as u16]
    } else {
        let v = u - 0x10000;
        seq![(0xD800 + v / 0x400) as u16, (0xDC00 + v % 0x400) as u16]
    }
}

/// The UTF-16 encoding of `s`.
pub open spec fn utf16_of(s: Seq<char>) -> Seq<u16>
    decreases s.len(),
{
    if s.len() == 0 {
        Seq::empty()
    } else {
        utf16_of(s.drop_last()) + utf16_units(s.last())
    }
}

/// The UTF-16 code units of `c`.
pub fn char_utf16(c: char) -> (r: Vec<u16>)
    ensures
        r@ == utf16_units(c),
{
    let u = c as u32;
    let mut r: Vec<u16> = Vec::new();
    if u < 0x10000 {
        r.push(u as u16);
    } else {
        assert(u <= 0x10FFFF);
        let v = u - 0x10000;
        r.push((0xD800 + v / 0x400) as u16);
        r.push((0xDC00 + v % 0x400) as u16);
    }
    r
}

/// The UTF-16 encoding of `s`.
pub fn str_utf16(s: &str) -> (r: Vec<u16>)
    ensures
        r@ == utf16_of(s@),
{
    let v = chars_of(s);
    let mut r: Vec<u16> = Vec::new();
    let mut i: usize = 0;
    while i < v.len()
        invariant
            i <= v@.len(),
            v@ == s@,
            r@ == utf16_of(v@.take(i as int)),
        decreases v.len() - i,
    {
        let units = char_utf16(v[i]);
        let mut k: usize = 0;
        let ghost before = r@;
        while k < units.len()
            invariant
                k <= units@.len(),
                r@ == before + units@.take(k as int),
            decreases units.len() - k,
        {
            r.push(units[k]);
            k = k + 1;
            assert(r@ =~= before + units@.take(k as int));
        }
        assert(units@.take(units@.len() as int) =~= units@);
        assert(v@.take(i + 1).drop_last() =~= v@.take(i as int));
        i = i + 1;
    }
    assert(v@.take(v@.len() as int) =~= v@);
    r
}


/// `segment` appended to the Windows path `base`, with a backslash between
/// them unless `base` is empty or already ends in a separator.
pub open spec fn windows_join(base: Seq<char>, segment: Seq<char>) -> Seq<char> {
    if base.len() == 0 || base.last() == '\\' || base.last() == '/' {
        base + segment
    } else {
        base + seq!['\\'] + segment
    }
}

/// Joins a relative segment onto a Windows path.
pub fn join_windows_path(base: &str, segment: &str) -> (r: String)
    ensures
        r@ == windows_join(base@, segment@),
{
    let v = chars_of(base);
    let mut out = String::from_str(base);
    if v.len() > 0 && v[v.len() - 1] != '\\' && v[v.len() - 1] != '/' {
        push_char(&mut out, '\\');
    }
    concat_str(out.as_str(), segment)
}

} // verus!
