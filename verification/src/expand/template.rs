//! Splitting a snippet body into literal text and `{{name}}` /
//! `{{name:arg}}` placeholders.

use vstd::prelude::*;

use crate::chars::{chars_of, string_from_chars};

verus! {

/// A piece of a snippet body, as text.
pub enum SpecPart {
    Lit(Seq<char>),
    Ph(Seq<char>, Option<Seq<char>>),
}

/// A piece of a snippet body.
#[derive(Debug, Clone, PartialEq, Eq)]
pub enum TemplatePart {
    Literal(String),
    Placeholder { name: String, arg: Option<String> },
}

/// The text form of a piece.
pub open spec fn part_view(p: TemplatePart) -> SpecPart {
    match p {
        TemplatePart::Literal(s) => SpecPart::Lit(s@),
        TemplatePart::Placeholder { name, arg } => SpecPart::Ph(
            name@,
            match arg {
                Some(a) => Some(a@),
                None => None,
            },
        ),
    }
}

/// A snippet body cut into pieces; `unterminated` says that a `{{` had no
/// closing `}}`, which ended the cutting.
#[derive(Debug, Clone, PartialEq, Eq)]
pub struct Template {
    pub parts: Vec<TemplatePart>,
    pub unterminated: bool,
}

/// The text form of the pieces of `t`.
pub open spec fn parts_view(t: Seq<TemplatePart>) -> Seq<SpecPart> {
    t.map_values(|p: TemplatePart| part_view(p))
}

/// The first index `i >= from` where `c` occurs twice in a row.
pub open spec fn find_pair(s: Seq<char>, from: int, c: char) -> Option<int>
    decreases s.len() - from,
{
    if from < 0 || from + 2 > s.len() {
        None
    } else if s[from] == c && s[from + 1] == c {
        Some(from)
    } else {
        find_pair(s, from + 1, c)
    }
}

/// A found pair lies at or after `from` and inside `s`.
pub proof fn lemma_find_pair_bounds(s: Seq<char>, from: int, c: char)
    ensures
        find_pair(s, from, c) matches Some(i) ==> from <= i && i + 2 <= s.len() && s[i] == c
            && s[i + 1] == c,
    decreases s.len() - from,
{
    if from < 0 || from + 2 > s.len() {
    } else if s[from] == c && s[from + 1] == c {
    } else {
        lemma_find_pair_bounds(s, from + 1, c);
    }
}

/// The first index of `c` in `s`, if any.
pub open spec fn find_char(s: Seq<char>, c: char) -> Option<int>
    decreases s.len(),
{
    if s.len() == 0 {
        None
    } else if s.last() == c && find_char(s.drop_last(), c) is None {
        Some(s.len() - 1)
    } else {
        find_char(s.drop_last(), c)
    }
}

/// A placeholder token split at its first `:` into name and argument.
pub open spec fn split_token(tok: Seq<char>) -> (Seq<char>, Option<Seq<char>>) {
    match find_char(tok, ':') {
        Some(c) => (tok.take(c), Some(tok.skip(c + 1))),
        None => (tok, None),
    }
}

/// The pieces of `s` from index `pos` on: the text up to the next `{{`,
/// then the placeholder up to the following `}}`, and so on.
pub open spec fn parse_from(s: Seq<char>, pos: int) -> (Seq<SpecPart>, bool)
    decreases s.len() - pos,
{
    if pos < 0 || pos > s.len() {
        (Seq::empty(), false)
    } else {
        match find_pair(s, pos, '{') {
            None => (seq![SpecPart::Lit(s.subrange(pos, s.len() as int))], false),
            Some(i) => match find_pair(s, i + 2, '}') {
                None => (seq![SpecPart::Lit(s.subrange(pos, i))], true),
                Some(j) => {
                    proof {
                        lemma_find_pair_bounds(s, pos, '{');
                        lemma_find_pair_bounds(s, i + 2, '}');
                    }
                    let (name, arg) = split_token(s.subrange(i + 2, j));
                    let rest = parse_from(s, j + 2);
                    (seq![SpecPart::Lit(s.subrange(pos, i)), SpecPart::Ph(name, arg)] + rest.0, rest.1)
                },
            },
        }
    }
}

fn find_pair_exec(v: &Vec<char>, from: usize, c: char) -> (r: Option<usize>)
    ensures
        r matches Some(i) ==> find_pair(v@, from as int, c) == Some(i as int),
        r is None ==> find_pair(v@, from as int, c) is None,
{
    let n = v.len();
    let mut k = from;
    while k < n && n - k >= 2
        invariant
            n == v@.len(),
            find_pair(v@, from as int, c) == find_pair(v@, k as int, c),
        decreases n - k,
    {
        if v[k] == c && v[k + 1] == c {
            return Some(k);
        }
        k = k + 1;
    }
    None
}

fn sub_chars(v: &Vec<char>, from: usize, to: usize) -> (r: Vec<char>)
    requires
        from <= to <= v@.len(),
    ensures
        r@ == v@.subrange(from as int, to as int),
{
    let mut r: Vec<char> = Vec::new();
    let mut k = from;
    while k < to
        invariant
            from <= k <= to <= v@.len(),
            r@ == v@.subrange(from as int, k as int),
        decreases to - k,
    {
        r.push(v[k]);
        k = k + 1;
        assert(r@ =~= v@.subrange(from as int, k as int));
    }
    r
}

fn find_char_exec(v: &Vec<char>, c: char) -> (r: Option<usize>)
    ensures
        r matches Some(i) ==> find_char(v@, c) == Some(i as int),
        r is None ==> find_char(v@, c) is None,
{
    let n = v.len();
    let mut k: usize = 0;
    while k < n
        invariant
            k <= n == v@.len(),
            find_char(v@.take(k as int), c) is None,
        decreases n - k,
    {
        assert(v@.take(k + 1).drop_last() =~= v@.take(k as int));
        if v[k] == c {
            proof {
                lemma_find_char_prefix(v@, c, k as int);
            }
            return Some(k);
        }
        k = k + 1;
    }
    proof {
        lemma_find_char_none_extend(v@, c, n as int);
    }
    None
}

proof fn lemma_find_char_prefix(s: Seq<char>, c: char, k: int)
    requires
        0 <= k < s.len(),
        s[k] == c,
        find_char(s.take(k), c) is None,
    ensures
        find_char(s, c) == Some(k),
    decreases s.len(),
{
    if s.len() == k + 1 {
        assert(s.drop_last() =~= s.take(k));
    } else {
        assert(s.drop_last().take(k) =~= s.take(k));
        lemma_find_char_prefix(s.drop_last(), c, k);
    }
}

proof fn lemma_find_char_none_extend(s: Seq<char>, c: char, n: int)
    requires
        n == s.len(),
        find_char(s.take(n), c) is None,
    ensures
        find_char(s, c) is None,
{
    assert(s.take(n) =~= s);
}

/// Splits a placeholder token at its first `:`.
pub fn split_placeholder(token: &Vec<char>) -> (r: (String, Option<String>))
    ensures
        r.0@ == split_token(token@).0,
        match (r.1, split_token(token@).1) {
            (Some(a), Some(b)) => a@ == b,
            (None, None) => true,
            _ => false,
        },
{
    let tl = token.len();
    match find_char_exec(token, ':') {
        Some(c) => {
            proof {
                lemma_find_char_in_bounds(token@, ':');
            }
            let name = sub_chars(token, 0, c);
            let arg = sub_chars(token, c + 1, tl);
            assert(name@ =~= token@.take(c as int));
            assert(arg@ =~= token@.skip(c + 1));
            (string_from_chars(&name), Some(string_from_chars(&arg)))
        },
        None => (string_from_chars(token), None),
    }
}

proof fn lemma_find_char_in_bounds(s: Seq<char>, c: char)
    ensures
        find_char(s, c) matches Some(i) ==> 0 <= i < s.len(),
    decreases s.len(),
{
    if s.len() > 0 {
        lemma_find_char_in_bounds(s.drop_last(), c);
    }
}

/// Cuts a snippet body into literal text and placeholders.
pub fn parse_template(replace: &str) -> (t: Template)
    ensures
        parts_view(t.parts@) == parse_from(replace@, 0).0,
        t.unterminated == parse_from(replace@, 0).1,
{
    let v = chars_of(replace);
    let n = v.len();
    let mut parts: Vec<TemplatePart> = Vec::new();
    let mut pos: usize = 0;
    while pos <= n
        invariant
            pos <= n == v@.len(),
            v@ == replace@,
            parse_from(v@, 0).0 == parts_view(parts@) + parse_from(v@, pos as int).0,
            parse_from(v@, 0).1 == parse_from(v@, pos as int).1,
        decreases n - pos,
    {
        match find_pair_exec(&v, pos, '{') {
            None => {
                let lit = sub_chars(&v, pos, n);
                let ghost old_parts = parts@;
                parts.push(TemplatePart::Literal(string_from_chars(&lit)));
                assert(parts_view(parts@) =~= parts_view(old_parts) + seq![SpecPart::Lit(lit@)]);
                assert(parse_from(v@, pos as int).0 =~= seq![SpecPart::Lit(lit@)]);
                assert(!parse_from(v@, pos as int).1);
                return Template { parts, unterminated: false };
            },
            Some(i) => {
                proof {
                    lemma_find_pair_bounds(v@, pos as int, '{');
                }
                let lit = sub_chars(&v, pos, i);
                match find_pair_exec(&v, i + 2, '}') {
                    None => {
                        let ghost old_parts = parts@;
                        parts.push(TemplatePart::Literal(string_from_chars(&lit)));
                        assert(parts_view(parts@) =~= parts_view(old_parts) + seq![SpecPart::Lit(lit@)]);
                        assert(parse_from(v@, pos as int).0 =~= seq![SpecPart::Lit(lit@)]);
                        assert(parse_from(v@, pos as int).1);
                        return Template { parts, unterminated: true };
                    },
                    Some(j) => {
                        proof {
                            lemma_find_pair_bounds(v@, i + 2, '}');
                        }
                        let tok = sub_chars(&v, i + 2, j);
                        let (name, arg) = split_placeholder(&tok);
                        let ghost old_parts = parts@;
                        parts.push(TemplatePart::Literal(string_from_chars(&lit)));
                        parts.push(TemplatePart::Placeholder { name, arg });
                        let ghost sa = split_token(tok@);
                        assert(part_view(parts@[parts@.len() - 1]) == SpecPart::Ph(sa.0, sa.1));
                        assert(parts_view(parts@) =~= parts_view(old_parts) + seq![
                            SpecPart::Lit(lit@),
                            SpecPart::Ph(sa.0, sa.1),
                        ]);
                        pos = j + 2;
                    },
                }
            },
        }
    }
    Template { parts, unterminated: false }
}

} // verus!
