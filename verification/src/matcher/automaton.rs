//! Trigger matching with an Aho-Corasick automaton (leftmost-longest).

use aho_corasick::{AhoCorasick, AhoCorasickBuilder, BuildError, MatchKind};
use vstd::prelude::*;
use vstd::utf8::{encode_scalar, encode_utf8};

use crate::chars::{chars_of, push_char};
use crate::store::Snippet;

use super::boundary::{classify_boundary_char, spec_classify, BoundaryState};
use super::buffer::MatchBuffer;

verus! {

#[verifier::external_type_specification]
#[verifier::external_body]
pub struct ExAhoCorasick(AhoCorasick);

#[verifier::external_type_specification]
#[verifier::external_body]
pub struct ExBuildError(BuildError);

/// The patterns an automaton was built from, in order.
pub uninterp spec fn ac_patterns(ac: AhoCorasick) -> Seq<Seq<char>>;

/// What `find_iter` reports for these patterns under leftmost-longest
/// semantics on `haystack`: for each match, in order, the index of the
/// pattern and the byte range of the match.
pub uninterp spec fn leftmost_longest_matches(patterns: Seq<Seq<char>>, haystack: Seq<char>) -> Seq<(usize, usize, usize)>;

/// Calls `AhoCorasickBuilder::new().match_kind(LeftmostLongest).build` on
/// `patterns`; a built automaton holds exactly those patterns in order.
#[verifier::external_body]
fn build_leftmost_longest(patterns: &Vec<String>) -> (r: Result<AhoCorasick, BuildError>)
    ensures
        r matches Ok(ac) ==> ac_patterns(ac) == patterns@.map_values(|p: String| p@),
{
    AhoCorasickBuilder::new().match_kind(MatchKind::LeftmostLongest).build(patterns)
}

/// Calls `AhoCorasick::find_iter` on `haystack` and lists each match as
/// (pattern index, start byte, end byte); every pattern index names one of
/// the automaton's patterns, and the bytes of the haystack between start and
/// end are that pattern's bytes.
#[verifier::external_body]
fn find_matches(ac: &AhoCorasick, haystack: &str) -> (r: Vec<(usize, usize, usize)>)
    ensures
        r@ == leftmost_longest_matches(ac_patterns(*ac), haystack@),
        forall|k: int| 0 <= k < r@.len() ==> (#[trigger] r@[k]).0 < ac_patterns(*ac).len(),
        forall|k: int|
            0 <= k < r@.len() ==> spans_pattern(haystack@, ac_patterns(*ac), #[trigger] r@[k]),
{
    let mut out = Vec::new();
    for m in ac.find_iter(haystack) {
        out.push((m.pattern().as_usize(), m.start(), m.end()));
    }
    out
}

/// A matched trigger: the snippet it belongs to and its length in characters.
#[derive(Debug, Clone, PartialEq, Eq)]
pub struct MatchHit {
    pub snippet_id: String,
    pub trigger_len_chars: usize,
}

/// What the matcher keeps of each pattern.
#[derive(Debug, Clone)]
pub struct PatternMeta {
    pub snippet_id: String,
    pub trigger_len_chars: usize,
}

/// Matches the typed-character buffer against the triggers of the loaded
/// snippets.
pub struct Matcher {
    automaton: Option<AhoCorasick>,
    patterns: Vec<PatternMeta>,
}

/// The UTF-8 byte offset of character `i` of `chars`, as `str::len` reports it.
pub open spec fn byte_off(chars: Seq<char>, i: int) -> usize {
    encode_utf8(chars.take(i)).len() as usize
}

/// Match `m` covers, in the UTF-8 bytes of `haystack`, exactly the bytes of
/// pattern `m.0`.
pub open spec fn spans_pattern(haystack: Seq<char>, pats: Seq<Seq<char>>, m: (usize, usize, usize)) -> bool {
    &&& m.0 < pats.len()
    &&& m.1 <= m.2 <= encode_utf8(haystack).len()
    &&& encode_utf8(haystack).subrange(m.1 as int, m.2 as int) == encode_utf8(pats[m.0 as int])
}

/// The UTF-8 encoding of a concatenation is the concatenation of the
/// encodings.
proof fn lemma_encode_utf8_concat(a: Seq<char>, b: Seq<char>)
    ensures
        encode_utf8(a + b) == encode_utf8(a) + encode_utf8(b),
    decreases a.len(),
{
    if a.len() > 0 {
        assert((a + b).drop_first() =~= a.drop_first() + b);
        lemma_encode_utf8_concat(a.drop_first(), b);
        assert((a + b)[0] == a[0]);
        assert(encode_utf8(a + b) =~= encode_scalar(a[0] as u32) + encode_utf8(a.drop_first() + b));
        assert(encode_utf8(a) + encode_utf8(b) =~= encode_scalar(a[0] as u32) + (encode_utf8(a.drop_first())
            + encode_utf8(b)));
    } else {
        assert(a + b =~= b);
        assert(encode_utf8(a) + encode_utf8(b) =~= encode_utf8(b));
    }
}

/// The first character index `>= i` whose byte offset is `start`.
pub open spec fn char_index_of_byte(chars: Seq<char>, start: usize, i: int) -> Option<int>
    decreases chars.len() - i,
{
    if i < 0 || i >= chars.len() {
        None
    } else if byte_off(chars, i) == start {
        Some(i)
    } else {
        char_index_of_byte(chars, start, i + 1)
    }
}

/// Only the start of the buffer, whitespace and punctuation may precede a trigger.
pub open spec fn boundary_allows(s: BoundaryState) -> bool {
    s == BoundaryState::StartOfBuffer || s == BoundaryState::Whitespace || s
        == BoundaryState::Punctuation
}

/// The hit a reported match stands for: it must end at the end of the
/// typed text, start on a character, follow an allowed boundary, and name a
/// known pattern.
pub open spec fn candidate(
    chars: Seq<char>,
    leading: BoundaryState,
    metas: Seq<PatternMeta>,
    m: (usize, usize, usize),
) -> Option<PatternMeta> {
    if m.2 != byte_off(chars, chars.len() as int) {
        None
    } else {
        match char_index_of_byte(chars, m.1, 0) {
            None => None,
            Some(ci) => {
                let b = if ci == 0 {
                    leading
                } else {
                    spec_classify(chars[ci - 1])
                };
                if !boundary_allows(b) || m.0 >= metas.len() {
                    None
                } else {
                    Some(metas[m.0 as int])
                }
            },
        }
    }
}

/// The best hit among the first `n` reported matches: the first candidate
/// with the longest trigger.
pub open spec fn best_upto(
    chars: Seq<char>,
    leading: BoundaryState,
    metas: Seq<PatternMeta>,
    matches: Seq<(usize, usize, usize)>,
    n: int,
) -> Option<PatternMeta>
    decreases n,
{
    if n <= 0 || n > matches.len() {
        None
    } else {
        let prev = best_upto(chars, leading, metas, matches, n - 1);
        match candidate(chars, leading, metas, matches[n - 1]) {
            None => prev,
            Some(c) => if prev is None || c.trigger_len_chars > prev->0.trigger_len_chars {
                Some(c)
            } else {
                prev
            },
        }
    }
}

/// A character takes at most four bytes in UTF-8.
proof fn lemma_encode_utf8_len(s: Seq<char>)
    ensures
        encode_utf8(s).len() <= 4 * s.len(),
    decreases s.len(),
{
    if s.len() > 0 {
        lemma_encode_utf8_len(s.drop_first());
    }
}

/// A found character index lies in the text and starts at the byte asked for.
proof fn lemma_char_index_of_byte(chars: Seq<char>, start: usize, i: int)
    ensures
        char_index_of_byte(chars, start, i) matches Some(c) ==> 0 <= c < chars.len() && byte_off(
            chars,
            c,
        ) == start,
    decreases chars.len() - i,
{
    if !(i < 0 || i >= chars.len()) && byte_off(chars, i) != start {
        lemma_char_index_of_byte(chars, start, i + 1);
    }
}

/// A hit that `best_upto` picks is the candidate of one of the matches it
/// looked at.
proof fn lemma_best_is_a_candidate(
    chars: Seq<char>,
    leading: BoundaryState,
    metas: Seq<PatternMeta>,
    matches: Seq<(usize, usize, usize)>,
    n: int,
)
    ensures
        best_upto(chars, leading, metas, matches, n) matches Some(x) ==> exists|k: int|
            0 <= k < n && k < matches.len() && #[trigger] candidate(chars, leading, metas, matches[k])
                == Some(x),
    decreases n,
{
    if n > 0 && n <= matches.len() {
        lemma_best_is_a_candidate(chars, leading, metas, matches, n - 1);
    }
}

/// A match that is a candidate covers a pattern that the typed text ends
/// with, right after an allowed boundary.
proof fn lemma_candidate_is_a_suffix(
    chars: Seq<char>,
    leading: BoundaryState,
    metas: Seq<PatternMeta>,
    pats: Seq<Seq<char>>,
    m: (usize, usize, usize),
)
    requires
        spans_pattern(chars, pats, m),
        candidate(chars, leading, metas, m) is Some,
        encode_utf8(chars).len() <= usize::MAX,
    ensures
        pats[m.0 as int].len() <= chars.len(),
        chars.skip(chars.len() - pats[m.0 as int].len()) == pats[m.0 as int],
        boundary_allows(boundary_before(chars, leading, chars.len() - pats[m.0 as int].len())),
{
    let ci = char_index_of_byte(chars, m.1, 0)->0;
    lemma_char_index_of_byte(chars, m.1, 0);
    lemma_encode_utf8_concat(chars.take(ci), chars.skip(ci));
    assert(chars.take(ci) + chars.skip(ci) =~= chars);
    assert(chars.take(chars.len() as int) =~= chars);
    let whole = encode_utf8(chars);
    assert(m.1 as int == encode_utf8(chars.take(ci)).len());
    assert(m.2 as int == whole.len());
    assert(whole.subrange(m.1 as int, m.2 as int) =~= encode_utf8(chars.skip(ci)));
    vstd::utf8::encode_utf8_decode_utf8(chars.skip(ci));
    vstd::utf8::encode_utf8_decode_utf8(pats[m.0 as int]);
    assert(chars.len() - pats[m.0 as int].len() == ci);
}

/// The trigger the matcher reports is a suffix of the typed text: when
/// every reported match covers its pattern, the pick of `best_upto` is the
/// metadata of a pattern that the text ends with.
pub proof fn lemma_hit_is_a_suffix(
    chars: Seq<char>,
    leading: BoundaryState,
    metas: Seq<PatternMeta>,
    pats: Seq<Seq<char>>,
    matches: Seq<(usize, usize, usize)>,
)
    requires
        forall|k: int| 0 <= k < matches.len() ==> spans_pattern(chars, pats, #[trigger] matches[k]),
        encode_utf8(chars).len() <= usize::MAX,
    ensures
        best_upto(chars, leading, metas, matches, matches.len() as int) matches Some(x) ==> exists|i: int|
            0 <= i < pats.len() && i < metas.len() && #[trigger] metas[i] == x && pats[i].len()
                <= chars.len() && chars.skip(chars.len() - pats[i].len()) == pats[i] && boundary_allows(
                boundary_before(chars, leading, chars.len() - pats[i].len()),
            ) && boundary_before(chars, leading, chars.len() - pats[i].len()) != BoundaryState::Other,
{
    lemma_best_is_a_candidate(chars, leading, metas, matches, matches.len() as int);
    if best_upto(chars, leading, metas, matches, matches.len() as int) is Some {
        let x = best_upto(chars, leading, metas, matches, matches.len() as int)->0;
        let k = choose|k: int|
            0 <= k < matches.len() && #[trigger] candidate(chars, leading, metas, matches[k]) == Some(x);
        lemma_candidate_is_a_suffix(chars, leading, metas, pats, matches[k]);
        let i = matches[k].0 as int;
        assert(metas[i] == x);
    }
}

/// The boundary before position `start` of the typed text: the leading
/// state at the start, else the class of the character before it.
pub open spec fn boundary_before(chars: Seq<char>, leading: BoundaryState, start: int) -> BoundaryState {
    if start == 0 {
        leading
    } else {
        spec_classify(chars[start - 1])
    }
}

/// `hit` reports `meta`.
pub open spec fn hit_is(hit: Option<MatchHit>, meta: Option<PatternMeta>) -> bool {
    match (hit, meta) {
        (None, None) => true,
        (Some(h), Some(m)) => h.snippet_id == m.snippet_id && h.trigger_len_chars
            == m.trigger_len_chars,
        _ => false,
    }
}

/// What the matcher keeps of `s`.
pub open spec fn meta_of(s: Snippet) -> PatternMeta {
    PatternMeta { snippet_id: s.id, trigger_len_chars: s.trigger@.len() as usize }
}

/// A pattern's recorded trigger length counts the characters of the
/// trigger, not its bytes: that many backspaces erase exactly the trigger.
pub proof fn lemma_trigger_length_counts_characters(s: Snippet)
    requires
        s.trigger@.len() <= usize::MAX,
    ensures
        meta_of(s).trigger_len_chars == s.trigger@.len(),
        meta_of(s).snippet_id == s.id,
{
}

impl Matcher {
    /// The patterns' metadata, in order.
    pub closed spec fn spec_metas(&self) -> Seq<PatternMeta> {
        self.patterns@
    }

    /// The patterns the automaton was built from, or `None` when there is no automaton.
    pub closed spec fn spec_automaton(&self) -> Option<Seq<Seq<char>>> {
        match self.automaton {
            Some(ac) => Some(ac_patterns(ac)),
            None => None,
        }
    }

    /// A matcher with no patterns.
    pub fn new() -> (r: Self)
        ensures
            r.spec_metas().len() == 0,
            r.spec_automaton() is None,
    {
        Matcher { automaton: None, patterns: Vec::new() }
    }

    /// Rebuilds from `snippets`: one pattern per snippet trigger. With no
    /// snippets there is no automaton. When building fails the old automaton
    /// stays and the error is returned.
    pub fn rebuild(&mut self, snippets: &Vec<Snippet>) -> (r: Result<(), BuildError>)
        ensures
            final(self).spec_metas() == snippets@.map_values(|s: Snippet| meta_of(s)),
            final(self).spec_metas().len() == snippets@.len(),
            forall|i: int|
                0 <= i < snippets@.len() ==> (#[trigger] final(self).spec_metas()[i]).trigger_len_chars
                    == snippets@[i].trigger@.len() && final(self).spec_metas()[i].snippet_id
                    == snippets@[i].id,
            snippets@.len() == 0 ==> r is Ok && final(self).spec_automaton() is None,
            snippets@.len() > 0 && r is Ok ==> final(self).spec_automaton() == Some(
                snippets@.map_values(|s: Snippet| s.trigger@),
            ),
            r is Err ==> final(self).spec_automaton() == old(self).spec_automaton(),
    {
        self.patterns = Vec::new();
        if snippets.len() == 0 {
            self.automaton = None;
            return Ok(());
        }
        let mut triggers: Vec<String> = Vec::new();
        let mut metas: Vec<PatternMeta> = Vec::new();
        let mut i: usize = 0;
        while i < snippets.len()
            invariant
                i <= snippets@.len(),
                triggers@.len() == i,
                metas@.len() == i,
                forall|j: int| 0 <= j < i ==> (#[trigger] triggers@[j])@ == snippets@[j].trigger@,
                forall|j: int| 0 <= j < i ==> #[trigger] metas@[j] == meta_of(snippets@[j]),
                forall|j: int| 0 <= j < i ==> (#[trigger] metas@[j]).trigger_len_chars == snippets@[j].trigger@.len(),
            decreases snippets.len() - i,
        {
            let s = &snippets[i];
            let len = chars_of(s.trigger.as_str()).len();
            assert(len == s.trigger@.len());
            triggers.push(s.trigger.clone());
            metas.push(PatternMeta { snippet_id: s.id.clone(), trigger_len_chars: len });
            i = i + 1;
        }
        assert(triggers@.map_values(|p: String| p@) =~= snippets@.map_values(|s: Snippet| s.trigger@));
        assert(metas@ =~= snippets@.map_values(|s: Snippet| meta_of(s)));
        self.patterns = metas;
        let ac = build_leftmost_longest(&triggers)?;
        self.automaton = Some(ac);
        Ok(())
    }

    /// The best hit among `matches` (reported on the buffer's text): the
    /// first with the longest trigger among those that end at the end of
    /// the text, start on a character after an allowed boundary, and name a
    /// known pattern.
    pub fn best_hit(&self, buffer: &MatchBuffer, matches: &Vec<(usize, usize, usize)>) -> (r: Option<MatchHit>)
        ensures
            hit_is(
                r,
                best_upto(
                    buffer.spec_chars(),
                    buffer.spec_leading(),
                    self.spec_metas(),
                    matches@,
                    matches@.len() as int,
                ),
            ),
    {
        let ghost chars = buffer.spec_chars();
        let n = buffer.len();
        let mut haystack = String::new();
        let mut offsets: Vec<usize> = Vec::new();
        let mut k: usize = 0;
        while k < n
            invariant
                n == chars.len(),
                chars == buffer.spec_chars(),
                k <= n,
                haystack@ == chars.take(k as int),
                offsets@.len() == k,
                forall|j: int| 0 <= j < k ==> #[trigger] offsets@[j] == byte_off(chars, j),
            decreases n - k,
        {
            let off = haystack.as_str().len();
            offsets.push(off);
            match buffer.char_at(k) {
                Some(c) => push_char(&mut haystack, c),
                None => {},
            }
            k = k + 1;
            assert(haystack@ =~= chars.take(k as int));
        }
        assert(chars.take(n as int) =~= chars);
        let total = haystack.as_str().len();
        let leading = buffer.leading_boundary_state();
        let mut best: Option<MatchHit> = None;
        let mut i: usize = 0;
        while i < matches.len()
            invariant
                n == chars.len(),
                chars == buffer.spec_chars(),
                leading == buffer.spec_leading(),
                total == byte_off(chars, n as int),
                offsets@.len() == n,
                forall|j: int| 0 <= j < n ==> #[trigger] offsets@[j] == byte_off(chars, j),
                i <= matches@.len(),
                hit_is(best, best_upto(chars, leading, self.patterns@, matches@, i as int)),
            decreases matches.len() - i,
        {
            let m = matches[i];
            let cand = self.candidate_exec(buffer, &offsets, total, leading, m);
            match cand {
                None => {},
                Some(c) => {
                    let better = match &best {
                        None => true,
                        Some(b) => c.trigger_len_chars > b.trigger_len_chars,
                    };
                    if better {
                        best = Some(c);
                    }
                },
            }
            i = i + 1;
        }
        best
    }

    fn candidate_exec(
        &self,
        buffer: &MatchBuffer,
        offsets: &Vec<usize>,
        total: usize,
        leading: BoundaryState,
        m: (usize, usize, usize),
    ) -> (r: Option<MatchHit>)
        requires
            offsets@.len() == buffer.spec_chars().len(),
            forall|j: int|
                0 <= j < offsets@.len() ==> #[trigger] offsets@[j] == byte_off(buffer.spec_chars(), j),
            total == byte_off(buffer.spec_chars(), buffer.spec_chars().len() as int),
            leading == buffer.spec_leading(),
        ensures
            hit_is(r, candidate(buffer.spec_chars(), leading, self.patterns@, m)),
    {
        let ghost chars = buffer.spec_chars();
        if m.2 != total {
            return None;
        }
        let n = offsets.len();
        let mut ci: usize = 0;
        while ci < n && offsets[ci] != m.1
            invariant
                n == offsets@.len() == chars.len(),
                ci <= n,
                forall|j: int| 0 <= j < n ==> #[trigger] offsets@[j] == byte_off(chars, j),
                char_index_of_byte(chars, m.1, 0) == char_index_of_byte(chars, m.1, ci as int),
            decreases n - ci,
        {
            ci = ci + 1;
        }
        if ci == n {
            return None;
        }
        let b = if ci == 0 {
            leading
        } else {
            match buffer.char_at(ci - 1) {
                Some(c) => classify_boundary_char(c),
                None => leading,
            }
        };
        let allowed = match b {
            BoundaryState::StartOfBuffer | BoundaryState::Whitespace | BoundaryState::Punctuation => true,
            BoundaryState::Other => false,
        };
        if !allowed || m.0 >= self.patterns.len() {
            return None;
        }
        let meta = &self.patterns[m.0];
        Some(MatchHit { snippet_id: meta.snippet_id.clone(), trigger_len_chars: meta.trigger_len_chars })
    }

    /// Pushes `ch` into `buffer` and reports the best trigger that now ends
    /// the typed text, if any.
    pub fn on_char(&mut self, buffer: &mut MatchBuffer, ch: char) -> (r: Option<MatchHit>)
        requires
            old(buffer).spec_chars().len() < usize::MAX / 4,
        ensures
            final(self).spec_metas() == old(self).spec_metas(),
            final(self).spec_automaton() == old(self).spec_automaton(),
            final(buffer).spec_capacity() == old(buffer).spec_capacity(),
            old(buffer).spec_chars().len() == old(buffer).spec_capacity() && old(buffer).spec_chars().len()
                > 0 ==> final(buffer).spec_chars() == old(buffer).spec_chars().drop_first().push(ch)
                && final(buffer).spec_leading() == spec_classify(old(buffer).spec_chars()[0]),
            !(old(buffer).spec_chars().len() == old(buffer).spec_capacity()
                && old(buffer).spec_chars().len() > 0) ==> final(buffer).spec_chars() == old(
                buffer,
            ).spec_chars().push(ch) && final(buffer).spec_leading() == old(buffer).spec_leading(),
            final(buffer).spec_current() == (if old(buffer).spec_chars().len() > 0 {
                spec_classify(old(buffer).spec_chars().last())
            } else {
                old(buffer).spec_leading()
            }),
            old(self).spec_automaton() is None ==> r is None,
            r matches Some(h) ==> old(self).spec_automaton() matches Some(pats) && exists|i: int|
                0 <= i < pats.len() && i < old(self).spec_metas().len() && #[trigger] old(
                    self,
                ).spec_metas()[i].snippet_id == h.snippet_id && old(self).spec_metas()[i].trigger_len_chars
                    == h.trigger_len_chars && pats[i].len() <= final(buffer).spec_chars().len()
                    && final(buffer).spec_chars().skip(final(buffer).spec_chars().len() - pats[i].len())
                    == pats[i] && boundary_allows(
                    boundary_before(
                        final(buffer).spec_chars(),
                        final(buffer).spec_leading(),
                        final(buffer).spec_chars().len() - pats[i].len(),
                    ),
                ) && boundary_before(
                    final(buffer).spec_chars(),
                    final(buffer).spec_leading(),
                    final(buffer).spec_chars().len() - pats[i].len(),
                ) != BoundaryState::Other,
            old(self).spec_automaton() matches Some(pats) ==> forall|k: int|
                0 <= k < leftmost_longest_matches(pats, final(buffer).spec_chars()).len() ==> spans_pattern(
                    final(buffer).spec_chars(),
                    pats,
                    #[trigger] leftmost_longest_matches(pats, final(buffer).spec_chars())[k],
                ),
            old(self).spec_automaton() matches Some(pats) ==> hit_is(
                r,
                best_upto(
                    final(buffer).spec_chars(),
                    final(buffer).spec_leading(),
                    old(self).spec_metas(),
                    leftmost_longest_matches(pats, final(buffer).spec_chars()),
                    leftmost_longest_matches(pats, final(buffer).spec_chars()).len() as int,
                ),
            ),
    {
        buffer.push_char(ch);
        let matches = match &self.automaton {
            None => return None,
            Some(ac) => {
                let text = buffer.as_str();
                find_matches(ac, text.as_str())
            },
        };
        let r = self.best_hit(buffer, &matches);
        proof {
            lemma_encode_utf8_len(buffer.spec_chars());
            let pats = ac_patterns(self.automaton->0);
            let chars = buffer.spec_chars();
            assert(forall|k: int| 0 <= k < matches@.len() ==> spans_pattern(chars, pats, #[trigger] matches@[k]));
            lemma_hit_is_a_suffix(chars, buffer.spec_leading(), self.patterns@, pats, matches@);
            if r is Some {
                let x = best_upto(chars, buffer.spec_leading(), self.patterns@, matches@, matches@.len() as int)->0;
                let i = choose|i: int|
                    0 <= i < pats.len() && i < self.patterns@.len() && #[trigger] self.patterns@[i] == x
                        && pats[i].len() <= chars.len() && chars.skip(chars.len() - pats[i].len()) == pats[i]
                        && boundary_allows(boundary_before(chars, buffer.spec_leading(), chars.len() - pats[i].len()));
                assert(old(self).spec_metas()[i].snippet_id == r->0.snippet_id);
                assert(old(self).spec_metas()[i].trigger_len_chars == r->0.trigger_len_chars);
                assert(buffer.spec_chars().skip(buffer.spec_chars().len() - pats[i].len()) == pats[i]);
            }
        }
        r
    }
}

} // verus!
