//! Stable sorting of keyed items by lexicographic order of their string keys.

use vstd::prelude::*;

verus! {

/// `a` sorts strictly before `b`: lexicographic order of code points, which
/// is also the byte order of their UTF-8 encodings (the order of `str`).
pub open spec fn chars_lt(a: Seq<char>, b: Seq<char>) -> bool
    decreases a.len(),
{
    if a.len() == 0 {
        b.len() > 0
    } else if b.len() == 0 {
        false
    } else if a[0] != b[0] {
        (a[0] as u32) < (b[0] as u32)
    } else {
        chars_lt(a.drop_first(), b.drop_first())
    }
}

/// Index at which `key` is inserted into `s`: before the first entry whose
/// key sorts strictly after `key` (so after all entries with equal keys).
pub open spec fn insert_pos<T>(s: Seq<(Seq<char>, T)>, key: Seq<char>) -> int
    decreases s.len(),
{
    if s.len() == 0 {
        0
    } else if chars_lt(key, s[0].0) {
        0
    } else {
        1 + insert_pos(s.drop_first(), key)
    }
}

/// Stable sort by key: each entry, in order, is inserted after every entry
/// already placed whose key does not sort after it.
pub open spec fn stable_sorted<T>(s: Seq<(Seq<char>, T)>) -> Seq<(Seq<char>, T)>
    decreases s.len(),
{
    if s.len() == 0 {
        Seq::empty()
    } else {
        let prev = stable_sorted(s.drop_last());
        prev.insert(insert_pos(prev, s.last().0), s.last())
    }
}

/// Whether `a` sorts strictly before `b`.
pub fn chars_less(a: &[char], b: &[char]) -> (r: bool)
    ensures
        r == chars_lt(a@, b@),
{
    let mut i: usize = 0;
    assert(a@.subrange(0, a@.len() as int) =~= a@);
    assert(b@.subrange(0, b@.len() as int) =~= b@);
    while i < a.len() && i < b.len() && a[i] == b[i]
        invariant
            i <= a@.len(),
            i <= b@.len(),
            chars_lt(a@, b@) == chars_lt(a@.subrange(i as int, a@.len() as int), b@.subrange(i as int, b@.len() as int)),
        decreases a@.len() - i,
    {
        let ghost sa = a@.subrange(i as int, a@.len() as int);
        let ghost sb = b@.subrange(i as int, b@.len() as int);
        assert(sa.drop_first() =~= a@.subrange(i + 1, a@.len() as int));
        assert(sb.drop_first() =~= b@.subrange(i + 1, b@.len() as int));
        i = i + 1;
    }
    if i == a.len() {
        i < b.len()
    } else if i == b.len() {
        false
    } else {
        (a[i] as u32) < (b[i] as u32)
    }
}

/// `insert_pos` is within bounds.
pub proof fn lemma_insert_pos_bounds<T>(s: Seq<(Seq<char>, T)>, key: Seq<char>)
    ensures
        0 <= insert_pos(s, key) <= s.len(),
    decreases s.len(),
{
    if s.len() > 0 && !chars_lt(key, s[0].0) {
        lemma_insert_pos_bounds(s.drop_first(), key);
    }
}

/// `chars_lt` is asymmetric.
pub proof fn lemma_chars_lt_asym(a: Seq<char>, b: Seq<char>)
    ensures
        chars_lt(a, b) ==> !chars_lt(b, a),
    decreases a.len(),
{
    if a.len() > 0 && b.len() > 0 && a[0] == b[0] {
        lemma_chars_lt_asym(a.drop_first(), b.drop_first());
    }
}

/// `chars_lt` is transitive.
pub proof fn lemma_chars_lt_trans(a: Seq<char>, b: Seq<char>, c: Seq<char>)
    ensures
        chars_lt(a, b) && chars_lt(b, c) ==> chars_lt(a, c),
    decreases a.len(),
{
    if a.len() > 0 && b.len() > 0 && c.len() > 0 && a[0] == b[0] && b[0] == c[0] {
        lemma_chars_lt_trans(a.drop_first(), b.drop_first(), c.drop_first());
    }
}

/// Keys in order: no entry's key sorts before an earlier entry's key.
pub open spec fn keys_in_order<T>(s: Seq<(Seq<char>, T)>) -> bool {
    forall|i: int, j: int| 0 <= i < j < s.len() ==> !chars_lt(#[trigger] s[j].0, #[trigger] s[i].0)
}

proof fn lemma_insert_pos_split<T>(s: Seq<(Seq<char>, T)>, key: Seq<char>)
    ensures
        forall|k: int| 0 <= k < insert_pos(s, key) ==> !chars_lt(key, #[trigger] s[k].0),
        insert_pos(s, key) < s.len() ==> chars_lt(key, s[insert_pos(s, key)].0),
    decreases s.len(),
{
    if s.len() > 0 && !chars_lt(key, s[0].0) {
        lemma_insert_pos_split(s.drop_first(), key);
        let t = s.drop_first();
        lemma_insert_pos_bounds(t, key);
        assert forall|k: int| 0 <= k < insert_pos(s, key) implies !chars_lt(key, #[trigger] s[k].0) by {
            if k > 0 {
                assert(s[k] == t[k - 1]);
            }
        }
        if insert_pos(s, key) < s.len() {
            assert(s[insert_pos(s, key)] == t[insert_pos(t, key)]);
        }
    }
}

/// Law: a stable sort puts the keys in order.
pub proof fn lemma_stable_sorted_in_order<T>(s: Seq<(Seq<char>, T)>)
    ensures
        keys_in_order(stable_sorted(s)),
    decreases s.len(),
{
    if s.len() > 0 {
        let prev = stable_sorted(s.drop_last());
        let x = s.last();
        lemma_stable_sorted_in_order(s.drop_last());
        lemma_insert_pos_bounds(prev, x.0);
        lemma_insert_pos_split(prev, x.0);
        let p = insert_pos(prev, x.0);
        let r = prev.insert(p, x);
        assert forall|i: int, j: int| 0 <= i < j < r.len() implies !chars_lt(#[trigger] r[j].0, #[trigger] r[i].0) by {
            if j < p {
                assert(r[i] == prev[i] && r[j] == prev[j]);
            } else if j == p {
                assert(r[i] == prev[i]);
            } else if i < p {
                assert(r[i] == prev[i] && r[j] == prev[j - 1]);
                if p < prev.len() {
                    assert(chars_lt(x.0, prev[p].0));
                    if p < j - 1 {
                        assert(!chars_lt(prev[j - 1].0, prev[p].0));
                    }
                    lemma_chars_lt_asym(prev[i].0, x.0);
                    if chars_lt(prev[j - 1].0, prev[i].0) {
                        lemma_chars_lt_trans(prev[j - 1].0, prev[i].0, x.0);
                        if chars_lt(prev[j - 1].0, x.0) {
                            lemma_chars_lt_trans(prev[j - 1].0, x.0, prev[p].0);
                            lemma_chars_lt_asym(prev[p].0, prev[j - 1].0);
                        }
                    }
                }
            } else if i == p {
                assert(r[i] == x && r[j] == prev[j - 1]);
                assert(chars_lt(x.0, prev[p].0));
                if p < j - 1 {
                    assert(!chars_lt(prev[j - 1].0, prev[p].0));
                }
                if chars_lt(prev[j - 1].0, x.0) {
                    lemma_chars_lt_trans(prev[j - 1].0, x.0, prev[p].0);
                    if p == j - 1 {
                        lemma_chars_lt_asym(prev[p].0, prev[p].0);
                    }
                }
            } else {
                assert(r[i] == prev[i - 1] && r[j] == prev[j - 1]);
            }
        }
    }
}

/// Sorting preserves the number of entries.
pub proof fn lemma_stable_sorted_len<T>(s: Seq<(Seq<char>, T)>)
    ensures
        stable_sorted(s).len() == s.len(),
    decreases s.len(),
{
    if s.len() > 0 {
        lemma_stable_sorted_len(s.drop_last());
        lemma_insert_pos_bounds(stable_sorted(s.drop_last()), s.last().0);
    }
}

/// Find `insert_pos` by scanning.
fn find_insert_pos<T>(v: &Vec<(Vec<char>, T)>, key: &Vec<char>) -> (r: usize)
    ensures
        r as int == insert_pos(keyed_view(v@), key@),
        r <= v@.len(),
{
    let mut i: usize = 0;
    assert(keyed_view(v@).subrange(0, v@.len() as int) =~= keyed_view(v@));
    while i < v.len()
        invariant
            i <= v@.len(),
            insert_pos(keyed_view(v@), key@) == i + insert_pos(keyed_view(v@).subrange(i as int, v@.len() as int), key@),
        decreases v@.len() - i,
    {
        let ghost rest = keyed_view(v@).subrange(i as int, v@.len() as int);
        assert(rest[0].0 == v@[i as int].0@);
        if chars_less(key.as_slice(), v[i].0.as_slice()) {
            return i;
        }
        assert(rest.drop_first() =~= keyed_view(v@).subrange(i + 1, v@.len() as int));
        i = i + 1;
    }
    assert(keyed_view(v@).subrange(i as int, v@.len() as int) =~= Seq::<(Seq<char>, T)>::empty());
    i
}

/// View of keyed entries: keys as character sequences.
pub open spec fn keyed_view<T>(v: Seq<(Vec<char>, T)>) -> Seq<(Seq<char>, T)> {
    v.map_values(|p: (Vec<char>, T)| (p.0@, p.1))
}

/// Stable insertion sort by key.
pub fn sort_by_key_stable<T>(items: Vec<(Vec<char>, T)>) -> (r: Vec<(Vec<char>, T)>)
    ensures
        keyed_view(r@) == stable_sorted(keyed_view(items@)),
{
    let ghost kv = keyed_view(items@);
    let mut items = items;
    let mut out: Vec<(Vec<char>, T)> = Vec::new();
    let mut taken: usize = 0;
    // Move entries out in order (from the front) by reversing first.
    let mut rev: Vec<(Vec<char>, T)> = Vec::new();
    while items.len() > 0
        invariant
            keyed_view(rev@) + reversed(keyed_view(items@)) == reversed(kv),
        decreases items@.len(),
    {
        let ghost before = keyed_view(items@);
        let x = items.pop().unwrap();
        proof {
            assert(keyed_view(items@) =~= before.drop_last());
            assert(reversed(before) =~= seq![before.last()] + reversed(before.drop_last()));
        }
        let ghost r0 = keyed_view(rev@);
        rev.push(x);
        assert(keyed_view(rev@) =~= r0.push(before.last()));
    }
    assert(keyed_view(rev@) =~= reversed(kv)) by {
        assert(reversed(keyed_view(items@)) =~= Seq::<(Seq<char>, T)>::empty());
    }
    // rev holds the entries reversed; popping yields them in original order.
    let ghost n = kv.len();
    assert(kv.take(0) =~= Seq::<(Seq<char>, T)>::empty());
    let rev_len = rev.len();
    assert(rev_len == n);
    assert(reversed(kv).take(n as int) =~= reversed(kv));
    while rev.len() > 0
        invariant
            n == kv.len(),
            n <= usize::MAX,
            taken + rev@.len() == n,
            keyed_view(rev@) == reversed(kv).take(rev@.len() as int),
            keyed_view(out@) == stable_sorted(kv.take(taken as int)),
        decreases rev@.len(),
    {
        let ghost before = keyed_view(rev@);
        let x = rev.pop().unwrap();
        proof {
            assert(keyed_view(rev@) =~= before.drop_last());
            assert(before.last() == reversed(kv)[rev@.len() as int]);
            assert(reversed(kv)[rev@.len() as int] == kv[taken as int]);
            assert(kv.take(taken + 1).drop_last() =~= kv.take(taken as int));
            assert(kv.take(taken + 1).last() == kv[taken as int]);
            assert(reversed(kv).take(rev@.len() as int) =~= before.drop_last());
        }
        let pos = find_insert_pos(&out, &x.0);
        let ghost o0 = keyed_view(out@);
        proof {
            assert(x.0@ == kv[taken as int].0);
        }
        out.insert(pos, x);
        assert(keyed_view(out@) =~= o0.insert(pos as int, kv[taken as int]));
        taken = taken + 1;
    }
    assert(kv.take(taken as int) =~= kv);
    out
}

/// `s` with each payload mapped through `f`, keys unchanged.
pub open spec fn map_payload<T, U>(s: Seq<(Seq<char>, T)>, f: spec_fn(T) -> U) -> Seq<(Seq<char>, U)> {
    s.map_values(|p: (Seq<char>, T)| (p.0, f(p.1)))
}

proof fn lemma_insert_pos_map<T, U>(s: Seq<(Seq<char>, T)>, key: Seq<char>, f: spec_fn(T) -> U)
    ensures
        insert_pos(map_payload(s, f), key) == insert_pos(s, key),
    decreases s.len(),
{
    if s.len() > 0 {
        assert(map_payload(s, f).drop_first() =~= map_payload(s.drop_first(), f));
        lemma_insert_pos_map(s.drop_first(), key, f);
    }
}

/// The sort only looks at keys: mapping the payloads commutes with sorting.
pub proof fn lemma_stable_sorted_map<T, U>(s: Seq<(Seq<char>, T)>, f: spec_fn(T) -> U)
    ensures
        stable_sorted(map_payload(s, f)) == map_payload(stable_sorted(s), f),
    decreases s.len(),
{
    if s.len() > 0 {
        let prev = stable_sorted(s.drop_last());
        assert(map_payload(s, f).drop_last() =~= map_payload(s.drop_last(), f));
        lemma_stable_sorted_map(s.drop_last(), f);
        lemma_insert_pos_map(prev, s.last().0, f);
        lemma_insert_pos_bounds(prev, s.last().0);
        let p = insert_pos(prev, s.last().0);
        assert(map_payload(prev.insert(p, s.last()), f) =~= map_payload(prev, f).insert(
            p,
            (s.last().0, f(s.last().1)),
        ));
    }
}

/// Sorting rearranges the entries: the same entries, each as often.
pub proof fn lemma_stable_sorted_multiset<T>(s: Seq<(Seq<char>, T)>)
    ensures
        stable_sorted(s).to_multiset() == s.to_multiset(),
    decreases s.len(),
{
    if s.len() > 0 {
        let prev = stable_sorted(s.drop_last());
        lemma_stable_sorted_multiset(s.drop_last());
        lemma_insert_pos_bounds(prev, s.last().0);
        vstd::seq_lib::to_multiset_insert(prev, insert_pos(prev, s.last().0), s.last());
        vstd::seq_lib::to_multiset_build(s.drop_last(), s.last());
        assert(s.drop_last().push(s.last()) =~= s);
    } else {
        assert(s =~= Seq::<(Seq<char>, T)>::empty());
    }
}

/// Sorting keeps exactly the entries it was given.
pub proof fn lemma_stable_sorted_contains<T>(s: Seq<(Seq<char>, T)>, x: (Seq<char>, T))
    ensures
        stable_sorted(s).contains(x) <==> s.contains(x),
{
    lemma_stable_sorted_multiset(s);
    vstd::seq_lib::to_multiset_contains(s, x);
    vstd::seq_lib::to_multiset_contains(stable_sorted(s), x);
}

/// No two entries share a key.
pub open spec fn distinct_keys<T>(s: Seq<(Seq<char>, T)>) -> bool {
    forall|a: int, b: int| 0 <= a < b < s.len() ==> s[a].0 != s[b].0
}

/// Sorting keeps keys distinct.
pub proof fn lemma_stable_sorted_distinct<T>(s: Seq<(Seq<char>, T)>)
    requires
        distinct_keys(s),
    ensures
        distinct_keys(stable_sorted(s)),
    decreases s.len(),
{
    if s.len() > 0 {
        let prev = stable_sorted(s.drop_last());
        let x = s.last();
        lemma_stable_sorted_distinct(s.drop_last());
        lemma_insert_pos_bounds(prev, x.0);
        lemma_stable_sorted_len(s.drop_last());
        assert forall|m: int| 0 <= m < prev.len() implies prev[m].0 != x.0 by {
            lemma_stable_sorted_contains(s.drop_last(), prev[m]);
            assert(prev.contains(prev[m]));
            let a = choose|a: int| 0 <= a < s.drop_last().len() && s.drop_last()[a] == prev[m];
            assert(s[a].0 != s[s.len() - 1].0);
        }
        let p = insert_pos(prev, x.0);
        let r = prev.insert(p, x);
        assert forall|a: int, b: int| 0 <= a < b < r.len() implies r[a].0 != r[b].0 by {
            if a < p && b < p {
            } else if a < p && b == p {
            } else if a < p {
                assert(r[b] == prev[b - 1]);
            } else if a == p {
                assert(r[b] == prev[b - 1]);
            } else {
                assert(r[a] == prev[a - 1]);
                assert(r[b] == prev[b - 1]);
            }
        }
    }
}

/// `s` in reverse order.
pub open spec fn reversed<T>(s: Seq<T>) -> Seq<T> {
    Seq::new(s.len(), |i: int| s[s.len() - 1 - i])
}

} // verus!
