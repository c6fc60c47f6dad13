//! Fuzzy matching for file path filtering. The scores are nucleo's; which
//! candidates are kept and in what order is decided here.

use vstd::prelude::*;

verus! {

#[verifier::external_type_specification]
#[verifier::external_body]
pub struct ExMatcher(nucleo_matcher::Matcher);

/// The score nucleo gives `haystack` for the fuzzy pattern `pattern`
/// (smart case, smart normalization), `None` when it does not match.
pub uninterp spec fn fuzzy_score(pattern: Seq<char>, haystack: Seq<char>) -> Option<u32>;

/// `Pattern::new(pattern, CaseMatching::Smart, Normalization::Smart,
/// AtomKind::Fuzzy)` scored with `Pattern::score` on `haystack`. The
/// matcher holds only scratch space, so the score depends on the two texts.
#[verifier::external_body]
fn score_candidate(matcher: &mut nucleo_matcher::Matcher, pattern: &str, haystack: &str) -> (r: Option<u32>)
    requires
        haystack@.len() <= u32::MAX,
    ensures
        r == fuzzy_score(pattern@, haystack@),
{
    let pat = nucleo_matcher::pattern::Pattern::new(
        pattern,
        nucleo_matcher::pattern::CaseMatching::Smart,
        nucleo_matcher::pattern::Normalization::Smart,
        nucleo_matcher::pattern::AtomKind::Fuzzy,
    );
    let mut buf = Vec::new();
    pat.score(nucleo_matcher::Utf32Str::new(haystack, &mut buf), matcher)
}

/// `Matcher::new(Config::DEFAULT)`.
#[verifier::external_body]
fn new_matcher() -> nucleo_matcher::Matcher {
    nucleo_matcher::Matcher::new(nucleo_matcher::Config::DEFAULT)
}

/// The (index, score) of each matching candidate, in candidate order.
pub open spec fn scored(pattern: Seq<char>, cands: Seq<(usize, Seq<char>)>) -> Seq<(usize, u32)>
    decreases cands.len(),
{
    if cands.len() == 0 {
        Seq::empty()
    } else {
        let p = scored(pattern, cands.drop_last());
        match fuzzy_score(pattern, cands.last().1) {
            Some(s) => p.push((cands.last().0, s)),
            None => p,
        }
    }
}

/// Where an entry with score `s` goes in a list sorted by descending
/// score: before the first entry scoring less (after equal ones).
pub open spec fn desc_pos(v: Seq<(usize, u32)>, s: u32) -> int
    decreases v.len(),
{
    if v.len() == 0 {
        0
    } else if v[0].1 < s {
        0
    } else {
        1 + desc_pos(v.drop_first(), s)
    }
}

/// Stable sort by descending score.
pub open spec fn sorted_desc(v: Seq<(usize, u32)>) -> Seq<(usize, u32)>
    decreases v.len(),
{
    if v.len() == 0 {
        Seq::empty()
    } else {
        let p = sorted_desc(v.drop_last());
        p.insert(desc_pos(p, v.last().1), v.last())
    }
}

proof fn lemma_desc_pos_bounds(v: Seq<(usize, u32)>, s: u32)
    ensures
        0 <= desc_pos(v, s) <= v.len(),
    decreases v.len(),
{
    if v.len() > 0 && v[0].1 >= s {
        lemma_desc_pos_bounds(v.drop_first(), s);
    }
}

proof fn lemma_sorted_desc_len(v: Seq<(usize, u32)>)
    ensures
        sorted_desc(v).len() == v.len(),
    decreases v.len(),
{
    if v.len() > 0 {
        lemma_sorted_desc_len(v.drop_last());
        lemma_desc_pos_bounds(sorted_desc(v.drop_last()), v.last().1);
    }
}

/// Sorting by descending score puts higher scores first.
pub proof fn lemma_sorted_desc_ordered(v: Seq<(usize, u32)>)
    ensures
        forall|a: int, b: int|
            0 <= a < b < sorted_desc(v).len() ==> sorted_desc(v)[a].1 >= sorted_desc(v)[b].1,
    decreases v.len(),
{
    if v.len() > 0 {
        let p = sorted_desc(v.drop_last());
        let x = v.last();
        lemma_sorted_desc_ordered(v.drop_last());
        lemma_desc_pos_bounds(p, x.1);
        lemma_desc_pos_split(p, x.1);
        let k = desc_pos(p, x.1);
        let r = p.insert(k, x);
        assert forall|a: int, b: int| 0 <= a < b < r.len() implies r[a].1 >= r[b].1 by {
            if b < k {
            } else if b == k {
                assert(r[a] == p[a]);
            } else if a < k {
                assert(r[b] == p[b - 1]);
            } else if a == k {
                assert(r[b] == p[b - 1]);
            } else {
                assert(r[a] == p[a - 1]);
                assert(r[b] == p[b - 1]);
            }
        }
    }
}

/// Entries before the insertion point score at least `s`; the one at it
/// scores less.
proof fn lemma_desc_pos_split(v: Seq<(usize, u32)>, s: u32)
    ensures
        forall|j: int| 0 <= j < desc_pos(v, s) ==> v[j].1 >= s,
        desc_pos(v, s) < v.len() ==> v[desc_pos(v, s)].1 < s,
    decreases v.len(),
{
    lemma_desc_pos_bounds(v, s);
    if v.len() > 0 && v[0].1 >= s {
        lemma_desc_pos_split(v.drop_first(), s);
        lemma_desc_pos_bounds(v.drop_first(), s);
        assert forall|j: int| 0 <= j < desc_pos(v, s) implies v[j].1 >= s by {
            if j > 0 {
                assert(v[j] == v.drop_first()[j - 1]);
            }
        }
        let d = desc_pos(v.drop_first(), s);
        if d < v.drop_first().len() {
            assert(v[d + 1] == v.drop_first()[d]);
        }
    }
}

/// Fuzzy matcher wrapping nucleo-matcher.
pub struct FuzzyMatcher {
    matcher: nucleo_matcher::Matcher,
}

impl Default for FuzzyMatcher {
    fn default() -> (r: Self) {
        Self::new()
    }
}

/// Views of candidates.
pub open spec fn cands_view(v: Seq<(usize, &str)>) -> Seq<(usize, Seq<char>)> {
    v.map_values(|c: (usize, &str)| (c.0, c.1@))
}

impl FuzzyMatcher {
    /// Create a new fuzzy matcher with sensible defaults for path matching.
    pub fn new() -> (r: Self) {
        FuzzyMatcher { matcher: new_matcher() }
    }

    /// Filter and sort candidates by match score: the indices of the
    /// matching candidates, highest score first (equal scores keep their
    /// order); none for an empty pattern.
    pub fn filter_sorted(&mut self, pattern: &str, candidates: &[(usize, &str)]) -> (r: Vec<usize>)
        requires
            forall|k: int| 0 <= k < candidates@.len() ==> (#[trigger] candidates@[k]).1@.len() <= u32::MAX,
        ensures
            pattern@.len() == 0 ==> r@.len() == 0,
            pattern@.len() > 0 ==> r@ == sorted_desc(scored(pattern@, cands_view(candidates@))).map_values(
                |p: (usize, u32)| p.0,
            ),
    {
        if pattern.is_empty() {
            return Vec::new();
        }
        let ghost cv = cands_view(candidates@);
        let mut results: Vec<(usize, u32)> = Vec::new();
        let mut i: usize = 0;
        assert(cv.subrange(0, 0) =~= Seq::<(usize, Seq<char>)>::empty());
        while i < candidates.len()
            invariant
                cv == cands_view(candidates@),
                i <= cv.len(),
                forall|k: int| 0 <= k < candidates@.len() ==> (#[trigger] candidates@[k]).1@.len() <= u32::MAX,
                sorted_desc(results@) == sorted_desc(scored(pattern@, cv.subrange(0, i as int))),
                results@.len() <= i,
            decreases cv.len() - i,
        {
            let (idx, s) = candidates[i];
            proof {
                assert(cv.subrange(0, i + 1).drop_last() =~= cv.subrange(0, i as int));
                assert(cv.subrange(0, i + 1).last() == (idx, s@));
            }
            let ghost before = results@;
            match score_candidate(&mut self.matcher, pattern, s) {
                Some(sc) => {
                    results.push((idx, sc));
                    assert(results@.drop_last() =~= before);
                    proof {
                        lemma_sorted_desc_prefix_eq(before, scored(pattern@, cv.subrange(0, i as int)), (idx, sc));
                    }
                },
                None => {},
            }
            i = i + 1;
        }
        assert(cv.subrange(0, i as int) =~= cv);
        let sorted = sort_desc(&results);
        let mut out: Vec<usize> = Vec::new();
        let mut j: usize = 0;
        while j < sorted.len()
            invariant
                j <= sorted@.len(),
                out@ == sorted@.subrange(0, j as int).map_values(|p: (usize, u32)| p.0),
            decreases sorted@.len() - j,
        {
            out.push(sorted[j].0);
            j = j + 1;
            assert(out@ =~= sorted@.subrange(0, j as int).map_values(|p: (usize, u32)| p.0));
        }
        assert(sorted@.subrange(0, j as int) =~= sorted@);
        out
    }
}

proof fn lemma_sorted_desc_prefix_eq(a: Seq<(usize, u32)>, b: Seq<(usize, u32)>, x: (usize, u32))
    requires
        sorted_desc(a) == sorted_desc(b),
    ensures
        sorted_desc(a.push(x)) == sorted_desc(b.push(x)),
{
    assert(a.push(x).drop_last() =~= a);
    assert(b.push(x).drop_last() =~= b);
}

/// Stable sort of (index, score) pairs by descending score.
fn sort_desc(v: &Vec<(usize, u32)>) -> (r: Vec<(usize, u32)>)
    ensures
        r@ == sorted_desc(v@),
{
    let mut out: Vec<(usize, u32)> = Vec::new();
    let mut i: usize = 0;
    assert(v@.subrange(0, 0) =~= Seq::<(usize, u32)>::empty());
    while i < v.len()
        invariant
            i <= v@.len(),
            out@ == sorted_desc(v@.subrange(0, i as int)),
        decreases v@.len() - i,
    {
        let x = v[i];
        proof {
            assert(v@.subrange(0, i + 1).drop_last() =~= v@.subrange(0, i as int));
            lemma_sorted_desc_len(v@.subrange(0, i as int));
        }
        let mut k: usize = 0;
        assert(out@.subrange(0, out@.len() as int) =~= out@);
        while k < out.len() && out[k].1 >= x.1
            invariant
                k <= out@.len(),
                desc_pos(out@, x.1) == k + desc_pos(out@.subrange(k as int, out@.len() as int), x.1),
            decreases out@.len() - k,
        {
            assert(out@.subrange(k as int, out@.len() as int).drop_first() =~= out@.subrange(
                k + 1,
                out@.len() as int,
            ));
            k = k + 1;
        }
        proof {
            if k == out@.len() {
                assert(out@.subrange(k as int, out@.len() as int) =~= Seq::<(usize, u32)>::empty());
            }
        }
        out.insert(k, x);
        i = i + 1;
    }
    assert(v@.subrange(0, i as int) =~= v@);
    out
}

} // verus!
