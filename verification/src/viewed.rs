//! Viewed state: which files of a repository were marked as viewed.
//!
//! The set itself and its operations are here; reading and writing the
//! state file happens outside this module.

use vstd::prelude::*;
use crate::repo::RelPath;

verus! {

/// Views of a list of strings.
pub open spec fn texts(v: Seq<String>) -> Seq<Seq<char>> {
    v.map_values(|s: String| s@)
}

/// A set of path strings, kept as a list without repetitions.
#[derive(Debug)]
pub struct PathSet {
    items: Vec<String>,
}

impl PathSet {
    #[verifier::type_invariant]
    spec fn wf(&self) -> bool {
        texts(self.items@).no_duplicates()
    }

    /// The paths in the set.
    pub closed spec fn spec_set(&self) -> Set<Seq<char>> {
        texts(self.items@).to_set()
    }

    /// The paths, in the order they were added.
    pub closed spec fn spec_items(&self) -> Seq<Seq<char>> {
        texts(self.items@)
    }

    /// The empty set.
    pub fn new() -> (r: Self)
        ensures
            r.spec_set() == Set::<Seq<char>>::empty(),
            r.spec_items() == Seq::<Seq<char>>::empty(),
    {
        let r = PathSet { items: Vec::new() };
        assert(texts(r.items@) =~= Seq::<Seq<char>>::empty());
        assert(texts(r.items@).to_set() =~= Set::<Seq<char>>::empty());
        r
    }

    /// The set of the given paths (repetitions are kept once).
    pub fn from_vec(paths: &Vec<String>) -> (r: Self)
        ensures
            r.spec_set() == texts(paths@).to_set(),
    {
        let mut s = PathSet::new();
        let mut i: usize = 0;
        while i < paths.len()
            invariant
                i <= paths@.len(),
                s.spec_set() == texts(paths@.subrange(0, i as int)).to_set(),
            decreases paths@.len() - i,
        {
            s.insert(paths[i].as_str());
            proof {
                assert(texts(paths@.subrange(0, i + 1)) =~= texts(paths@.subrange(0, i as int)).push(
                    paths@[i as int]@,
                ));
                texts(paths@.subrange(0, i as int)).lemma_push_to_set_commute(paths@[i as int]@);
            }
            i = i + 1;
        }
        assert(paths@.subrange(0, i as int) =~= paths@);
        s
    }

    fn position(&self, p: &str) -> (r: Option<usize>)
        ensures
            r matches Some(k) ==> k < self.items@.len() && self.items@[k as int]@ == p@,
            r is None ==> !self.spec_set().contains(p@),
    {
        let ps = p.to_owned();
        let mut i: usize = 0;
        while i < self.items.len()
            invariant
                ps@ == p@,
                i <= self.items@.len(),
                forall|k: int| 0 <= k < i ==> self.items@[k]@ != p@,
            decreases self.items@.len() - i,
        {
            if self.items[i] == ps {
                return Some(i);
            }
            i = i + 1;
        }
        proof {
            if self.spec_set().contains(p@) {
                let k = choose|k: int| 0 <= k < texts(self.items@).len() && texts(self.items@)[k]
                    == p@;
                assert(self.items@[k]@ == p@);
            }
        }
        None
    }

    /// Whether `p` is in the set.
    pub fn contains(&self, p: &str) -> (r: bool)
        ensures
            r == self.spec_set().contains(p@),
    {
        match self.position(p) {
            Some(k) => {
                assert(texts(self.items@)[k as int] == p@);
                true
            },
            None => false,
        }
    }

    /// Add `p` to the set.
    pub fn insert(&mut self, p: &str)
        ensures
            final(self).spec_set() == old(self).spec_set().insert(p@),
    {
        proof {
            use_type_invariant(&*self);
        }
        let pos = self.position(p);
        if pos.is_none() {
            let ghost t0 = texts(self.items@);
            let mut items: Vec<String> = Vec::new();
            std::mem::swap(&mut items, &mut self.items);
            items.push(p.to_owned());
            assert(texts(items@) =~= t0.push(p@));
            proof {
                t0.lemma_push_to_set_commute(p@);
                assert forall|a: int, b: int|
                    0 <= a < texts(items@).len() && 0 <= b < texts(items@).len() && a != b implies texts(
                    items@,
                )[a] != texts(items@)[b] by {
                    if a < t0.len() && b < t0.len() {
                        assert(t0[a] != t0[b]);
                    }
                }
            }
            self.items = items;
        } else {
            proof {
                let k = pos->0;
                assert(texts(self.items@)[k as int] == p@);
                assert(texts(self.items@).contains(p@));
            }
            assert(old(self).spec_set().insert(p@) =~= old(self).spec_set());
        }
    }

    /// Remove `p` from the set.
    pub fn remove(&mut self, p: &str)
        ensures
            final(self).spec_set() == old(self).spec_set().remove(p@),
    {
        proof {
            use_type_invariant(&*self);
        }
        match self.position(p) {
            Some(k) => {
                let ghost t0 = texts(self.items@);
                assert(t0[k as int] == p@);
                assert(t0.no_duplicates());
                let mut items: Vec<String> = Vec::new();
            std::mem::swap(&mut items, &mut self.items);
                items.remove(k);
                assert(texts(items@) =~= t0.remove(k as int));
                assert(texts(items@).to_set() =~= t0.to_set().remove(p@)) by {
                    assert forall|x: Seq<char>| texts(items@).to_set().contains(x) <==> t0.to_set().remove(
                        p@,
                    ).contains(x) by {
                        if texts(items@).to_set().contains(x) {
                            let j = choose|j: int| 0 <= j < texts(items@).len() && texts(items@)[j]
                                == x;
                            if j < k {
                                assert(t0[j] == x);
                                assert(t0[j] != t0[k as int]);
                            } else {
                                assert(t0[j + 1] == x);
                                assert(t0[j + 1] != t0[k as int]);
                            }
                        }
                        if t0.to_set().remove(p@).contains(x) {
                            let j = choose|j: int| 0 <= j < t0.len() && t0[j] == x;
                            assert(j != k);
                            if j < k {
                                assert(texts(items@)[j] == x);
                            } else {
                                assert(texts(items@)[j - 1] == x);
                            }
                        }
                    }
                }
                self.items = items;
            },
            None => {
                assert(old(self).spec_set().remove(p@) =~= old(self).spec_set());
            },
        }
    }

    /// Number of paths in the set.
    pub fn len(&self) -> (r: usize)
        ensures
            r == self.spec_set().len(),
            self.spec_set().finite(),
    {
        proof {
            use_type_invariant(self);
            texts(self.items@).unique_seq_to_set();
            vstd::seq_lib::seq_to_set_is_finite(texts(self.items@));
        }
        self.items.len()
    }

    /// The paths, in the order they were added.
    pub fn to_vec(&self) -> (r: Vec<String>)
        ensures
            texts(r@) == self.spec_items(),
            texts(r@).to_set() == self.spec_set(),
    {
        let r = self.items.clone();
        assert(texts(r@) =~= texts(self.items@)) by {
            assert forall|k: int| 0 <= k < r@.len() implies r@[k]@ == self.items@[k]@ by {
                assert(cloned::<String>(self.items@[k], r@[k]));
            }
        }
        r
    }
}

impl Clone for PathSet {
    fn clone(&self) -> (r: Self)
        ensures
            r.spec_set() == self.spec_set(),
            r.spec_items() == self.spec_items(),
    {
        proof {
            use_type_invariant(self);
        }
        let items = self.to_vec();
        PathSet { items }
    }
}

/// The set after toggling `p`: removed when present, added when absent.
pub open spec fn toggled(s: Set<Seq<char>>, p: Seq<char>) -> Set<Seq<char>> {
    if s.contains(p) {
        s.remove(p)
    } else {
        s.insert(p)
    }
}

/// Toggling twice restores the set.
pub proof fn lemma_toggle_twice(s: Set<Seq<char>>, p: Seq<char>)
    ensures
        toggled(toggled(s, p), p) == s,
{
    if s.contains(p) {
        assert(s.remove(p).insert(p) =~= s);
    } else {
        assert(s.insert(p).remove(p) =~= s);
    }
}

/// After a toggle, `p` is viewed exactly when it was not before.
pub proof fn lemma_toggle_flips(s: Set<Seq<char>>, p: Seq<char>)
    ensures
        toggled(s, p).contains(p) == !s.contains(p),
{
}

/// Trait for viewed state storage.
pub trait ViewedStore {
    /// The set of viewed paths.
    spec fn viewed_set(&self) -> Set<Seq<char>>;

    /// Check if a file is marked as viewed.
    fn is_viewed(&self, path: &RelPath) -> (r: bool)
        ensures
            r == self.viewed_set().contains(path@),
    ;

    /// Mark a file as viewed.
    fn mark_viewed(&mut self, path: RelPath)
        ensures
            final(self).viewed_set() == old(self).viewed_set().insert(path@),
    ;

    /// Unmark a file as viewed.
    fn unmark_viewed(&mut self, path: &RelPath)
        ensures
            final(self).viewed_set() == old(self).viewed_set().remove(path@),
    ;

    /// Toggle viewed state, returns new state.
    fn toggle_viewed(&mut self, path: RelPath) -> (r: bool)
        ensures
            r == !old(self).viewed_set().contains(path@),
            final(self).viewed_set() == toggled(old(self).viewed_set(), path@),
    {
        if self.is_viewed(&path) {
            self.unmark_viewed(&path);
            false
        } else {
            self.mark_viewed(path);
            true
        }
    }

    /// Get count of viewed files.
    fn viewed_count(&self) -> (r: usize)
        ensures
            r == self.viewed_set().len(),
    ;
}

/// In-memory viewed state (no persistence).
#[derive(Debug)]
pub struct MemoryViewedStore {
    viewed: PathSet,
}

impl MemoryViewedStore {
    /// Create a new empty in-memory store.
    pub fn new() -> (r: Self)
        ensures
            r.viewed_set() == Set::<Seq<char>>::empty(),
    {
        MemoryViewedStore { viewed: PathSet::new() }
    }
}

impl Default for MemoryViewedStore {
    fn default() -> (r: Self)
        ensures
            r.viewed_set() == Set::<Seq<char>>::empty(),
    {
        Self::new()
    }
}

impl Clone for MemoryViewedStore {
    fn clone(&self) -> (r: Self)
        ensures
            r.viewed_set() == self.viewed_set(),
    {
        MemoryViewedStore { viewed: self.viewed.clone() }
    }
}

impl ViewedStore for FileViewedStore {
    closed spec fn viewed_set(&self) -> Set<Seq<char>> {
        self.viewed.spec_set()
    }

    fn is_viewed(&self, path: &RelPath) -> (r: bool) {
        self.viewed.contains(path.as_str())
    }

    fn mark_viewed(&mut self, path: RelPath)
        ensures
            final(self).spec_repo_key() == old(self).spec_repo_key(),
            final(self).spec_state_path() == old(self).spec_state_path(),
            final(self).spec_last_selected() == old(self).spec_last_selected(),
    {
        self.viewed.insert(path.as_str());
    }

    fn unmark_viewed(&mut self, path: &RelPath)
        ensures
            final(self).spec_repo_key() == old(self).spec_repo_key(),
            final(self).spec_state_path() == old(self).spec_state_path(),
            final(self).spec_last_selected() == old(self).spec_last_selected(),
    {
        self.viewed.remove(path.as_str());
    }

    fn toggle_viewed(&mut self, path: RelPath) -> (r: bool)
        ensures
            final(self).spec_repo_key() == old(self).spec_repo_key(),
            final(self).spec_state_path() == old(self).spec_state_path(),
            final(self).spec_last_selected() == old(self).spec_last_selected(),
    {
        if self.is_viewed(&path) {
            self.unmark_viewed(&path);
            false
        } else {
            self.mark_viewed(path);
            true
        }
    }

    fn viewed_count(&self) -> (r: usize) {
        self.viewed.len()
    }
}

/// Per-repository viewed state.
#[derive(Debug)]
pub struct RepoState {
    /// List of viewed file paths.
    pub viewed: Vec<String>,
    /// Last selected file path.
    pub last_selected: Option<String>,
}

impl Default for RepoState {
    fn default() -> (r: Self)
        ensures
            r.viewed@.len() == 0,
            r.last_selected is None,
    {
        RepoState { viewed: Vec::new(), last_selected: None }
    }
}

/// Persisted state schema: the state of each repository, by repo path.
#[derive(Debug)]
pub struct PersistedState {
    /// Schema version for migration.
    pub version: u32,
    /// Per-repository state, as (repo path, state) entries; `set_repo`
    /// replaces the entry of a path that is already present.
    pub repos: Vec<(String, RepoState)>,
}

/// The repo paths of the entries.
pub open spec fn repo_keys(v: Seq<(String, RepoState)>) -> Seq<Seq<char>> {
    v.map_values(|e: (String, RepoState)| e.0@)
}

/// The entries with their repo paths as text.
pub open spec fn entries_view(v: Seq<(String, RepoState)>) -> Seq<(Seq<char>, RepoState)> {
    v.map_values(|e: (String, RepoState)| (e.0@, e.1))
}

/// Index of the first entry at or after `i` whose key is `key`; -1 when none.
pub open spec fn key_pos_from(es: Seq<(Seq<char>, RepoState)>, key: Seq<char>, i: int) -> int
    decreases es.len() - i,
{
    if i < 0 || i >= es.len() {
        -1
    } else if es[i].0 == key {
        i
    } else {
        key_pos_from(es, key, i + 1)
    }
}

/// Index of the first entry whose key is `key`; -1 when none.
pub open spec fn key_pos(es: Seq<(Seq<char>, RepoState)>, key: Seq<char>) -> int {
    key_pos_from(es, key, 0)
}

/// The state recorded for `key`: that of its first entry.
pub open spec fn entry_of(es: Seq<(Seq<char>, RepoState)>, key: Seq<char>) -> Option<RepoState> {
    let k = key_pos(es, key);
    if k >= 0 {
        Some(es[k].1)
    } else {
        None
    }
}

/// The entries with the state of `key` set to `st`: its first entry
/// replaced, or a new entry added at the end.
pub open spec fn with_entry(es: Seq<(Seq<char>, RepoState)>, key: Seq<char>, st: RepoState) -> Seq<
    (Seq<char>, RepoState),
> {
    let k = key_pos(es, key);
    if k >= 0 {
        es.update(k, (key, st))
    } else {
        es.push((key, st))
    }
}

/// What `key_pos_from` finds: an entry with the key, none before it from `i`.
proof fn lemma_key_pos_from(es: Seq<(Seq<char>, RepoState)>, key: Seq<char>, i: int)
    requires
        0 <= i,
    ensures
        key_pos_from(es, key, i) == -1 || (i <= key_pos_from(es, key, i) < es.len() && es[key_pos_from(
            es,
            key,
            i,
        )].0 == key),
        forall|j: int| i <= j < es.len() && (key_pos_from(es, key, i) == -1 || j < key_pos_from(es, key, i))
            ==> (#[trigger] es[j]).0 != key,
    decreases es.len() - i,
{
    if i < es.len() && es[i].0 != key {
        lemma_key_pos_from(es, key, i + 1);
    }
}

/// An entry with the key, with none before it, is where `key_pos` points.
proof fn lemma_key_pos_is(es: Seq<(Seq<char>, RepoState)>, key: Seq<char>, k: int)
    requires
        -1 <= k < es.len(),
        k >= 0 ==> es[k].0 == key,
        forall|j: int| 0 <= j < es.len() && (k == -1 || j < k) ==> (#[trigger] es[j]).0 != key,
    ensures
        key_pos(es, key) == k,
{
    lemma_key_pos_from(es, key, 0);
    let p = key_pos(es, key);
    if p != k {
        if p == -1 {
            assert(es[k].0 != key);
        } else if k == -1 || p < k {
            assert(es[p].0 != key);
        } else {
            assert(es[k].0 != key);
        }
    }
}

/// Law: after the state of `key` is set to `st`, `key` holds `st`, and every
/// other key holds what it held before.
pub proof fn lemma_entry_after_set(es: Seq<(Seq<char>, RepoState)>, key: Seq<char>, st: RepoState, other: Seq<char>)
    requires
        other != key,
    ensures
        entry_of(with_entry(es, key, st), key) == Some(st),
        entry_of(with_entry(es, key, st), other) == entry_of(es, other),
{
    let k = key_pos(es, key);
    let w = with_entry(es, key, st);
    lemma_key_pos_from(es, key, 0);
    lemma_key_pos_from(es, other, 0);
    let o = key_pos(es, other);
    if k >= 0 {
        assert forall|j: int| 0 <= j < w.len() && j < k implies (#[trigger] w[j]).0 != key by {
            assert(w[j] == es[j]);
        }
        lemma_key_pos_is(w, key, k);
        if o >= 0 {
            assert(o != k);
            assert(w[o] == es[o]);
            assert forall|j: int| 0 <= j < w.len() && j < o implies (#[trigger] w[j]).0 != other by {
                if j != k {
                    assert(w[j] == es[j]);
                }
            }
            lemma_key_pos_is(w, other, o);
        } else {
            assert forall|j: int| 0 <= j < w.len() implies (#[trigger] w[j]).0 != other by {
                if j != k {
                    assert(w[j] == es[j]);
                }
            }
            lemma_key_pos_is(w, other, -1);
        }
    } else {
        let n = es.len() as int;
        assert forall|j: int| 0 <= j < w.len() && j < n implies (#[trigger] w[j]).0 != key by {
            assert(w[j] == es[j]);
        }
        lemma_key_pos_is(w, key, n);
        if o >= 0 {
            assert(w[o] == es[o]);
            assert forall|j: int| 0 <= j < w.len() && j < o implies (#[trigger] w[j]).0 != other by {
                assert(w[j] == es[j]);
            }
            lemma_key_pos_is(w, other, o);
        } else {
            assert forall|j: int| 0 <= j < w.len() implies (#[trigger] w[j]).0 != other by {
                if j < n {
                    assert(w[j] == es[j]);
                }
            }
            lemma_key_pos_is(w, other, -1);
        }
    }
}

/// Setting a key's state keeps the keys distinct.
pub proof fn lemma_set_keeps_distinct(es: Seq<(Seq<char>, RepoState)>, key: Seq<char>, st: RepoState)
    requires
        es.map_values(|e: (Seq<char>, RepoState)| e.0).no_duplicates(),
    ensures
        with_entry(es, key, st).map_values(|e: (Seq<char>, RepoState)| e.0).no_duplicates(),
{
    let k = key_pos(es, key);
    let w = with_entry(es, key, st);
    lemma_key_pos_from(es, key, 0);
    let ks = es.map_values(|e: (Seq<char>, RepoState)| e.0);
    let kw = w.map_values(|e: (Seq<char>, RepoState)| e.0);
    assert forall|a: int, b: int| 0 <= a < kw.len() && 0 <= b < kw.len() && a != b implies kw[a] != kw[b] by {
        if k >= 0 {
            assert(kw[a] == ks[a] && kw[b] == ks[b]);
        } else {
            let n = es.len() as int;
            if a < n && b < n {
                assert(kw[a] == ks[a] && kw[b] == ks[b]);
            } else if a == n {
                assert(kw[b] == es[b].0);
            } else {
                assert(kw[a] == es[a].0);
            }
        }
    }
}

impl PersistedState {
    /// Current schema version.
    pub const VERSION: u32 = 1;

    /// Create a new empty persisted state.
    pub fn new() -> (r: Self)
        ensures
            r.version == Self::VERSION,
            r.repos@.len() == 0,
    {
        PersistedState { version: Self::VERSION, repos: Vec::new() }
    }

    /// Index of the entry for `repo`.
    pub fn find_repo(&self, repo: &str) -> (r: Option<usize>)
        ensures
            r matches Some(k) ==> k < self.repos@.len() && repo_keys(self.repos@)[k as int]
                == repo@ && key_pos(entries_view(self.repos@), repo@) == k,
            r is None ==> !repo_keys(self.repos@).contains(repo@) && key_pos(entries_view(self.repos@), repo@) == -1,
    {
        let rs = repo.to_owned();
        let mut i: usize = 0;
        while i < self.repos.len()
            invariant
                rs@ == repo@,
                i <= self.repos@.len(),
                forall|k: int| 0 <= k < i ==> self.repos@[k].0@ != repo@,
            decreases self.repos@.len() - i,
        {
            if self.repos[i].0 == rs {
                proof {
                    let es = entries_view(self.repos@);
                    assert forall|j: int| 0 <= j < es.len() && (i == -1 || j < i) implies (#[trigger] es[j]).0 != repo@ by {
                        assert(es[j].0 == self.repos@[j].0@);
                    }
                    lemma_key_pos_is(es, repo@, i as int);
                }
                return Some(i);
            }
            i = i + 1;
        }
        proof {
            if repo_keys(self.repos@).contains(repo@) {
                let k = choose|k: int| 0 <= k < repo_keys(self.repos@).len() && repo_keys(
                    self.repos@,
                )[k] == repo@;
                assert(self.repos@[k].0@ == repo@);
            }
            let es = entries_view(self.repos@);
            assert forall|j: int| 0 <= j < es.len() implies (#[trigger] es[j]).0 != repo@ by {
                assert(es[j].0 == self.repos@[j].0@);
            }
            lemma_key_pos_is(es, repo@, -1);
        }
        None
    }

    /// Set the state of `repo`, replacing its entry or adding one; the
    /// entries of other repositories are kept.
    pub fn set_repo(&mut self, repo: &str, state: RepoState)
        ensures
            final(self).version == old(self).version,
            entries_view(final(self).repos@) == with_entry(entries_view(old(self).repos@), repo@, state),
    {
        let ghost es0 = entries_view(self.repos@);
        match self.find_repo(repo) {
            Some(k) => {
                let mut repos: Vec<(String, RepoState)> = Vec::new();
                std::mem::swap(&mut repos, &mut self.repos);
                let ghost st = state;
                repos.set(k, (repo.to_owned(), state));
                self.repos = repos;
                assert(entries_view(self.repos@) =~= es0.update(k as int, (repo@, st)));
            },
            None => {
                let mut repos: Vec<(String, RepoState)> = Vec::new();
                std::mem::swap(&mut repos, &mut self.repos);
                let ghost st = state;
                repos.push((repo.to_owned(), state));
                self.repos = repos;
                assert(entries_view(self.repos@) =~= es0.push((repo@, st)));
            },
        }
    }
}

/// Persistent viewed store: the viewed set and last selection of one
/// repository, and where they are stored.
#[derive(Debug)]
pub struct FileViewedStore {
    /// Path to the state file.
    state_path: String,
    /// Repository root key.
    repo_key: String,
    /// In-memory state.
    viewed: PathSet,
    /// Last selected file.
    last_selected: Option<String>,
}

impl FileViewedStore {
    /// The stored last selection.
    pub closed spec fn spec_last_selected(&self) -> Option<Seq<char>> {
        crate::config::opt_string(self.last_selected)
    }

    /// The repository key.
    pub closed spec fn spec_repo_key(&self) -> Seq<char> {
        self.repo_key@
    }

    /// The state file path.
    pub closed spec fn spec_state_path(&self) -> Seq<char> {
        self.state_path@
    }

    /// A store for `repo_root` kept at `state_path`, holding the repo's
    /// state as read from there (`None` when there was none).
    pub fn with_path(repo_root: &str, state_path: String, loaded: Option<&RepoState>) -> (r: Self)
        ensures
            r.spec_repo_key() == repo_root@,
            r.spec_state_path() == state_path@,
            loaded matches Some(s) ==> r.viewed_set() == texts(s.viewed@).to_set()
                && r.spec_last_selected() == crate::config::opt_string(s.last_selected),
            loaded is None ==> r.viewed_set() == Set::<Seq<char>>::empty()
                && r.spec_last_selected() is None,
    {
        match loaded {
            Some(s) => FileViewedStore {
                state_path,
                repo_key: repo_root.to_owned(),
                viewed: PathSet::from_vec(&s.viewed),
                last_selected: match &s.last_selected {
                    Some(l) => Some(l.clone()),
                    None => None,
                },
            },
            None => FileViewedStore {
                state_path,
                repo_key: repo_root.to_owned(),
                viewed: PathSet::new(),
                last_selected: None,
            },
        }
    }

    /// The store for `repo_root` kept at `state_path`, holding the state
    /// that `state` records for that repository.
    pub fn load_from(repo_root: &str, state_path: String, state: &PersistedState) -> (r: Self)
        ensures
            r.spec_repo_key() == repo_root@,
            r.spec_state_path() == state_path@,
            entry_of(entries_view(state.repos@), repo_root@) matches Some(s) ==> r.viewed_set() == texts(
                s.viewed@,
            ).to_set() && r.spec_last_selected() == crate::config::opt_string(s.last_selected),
            entry_of(entries_view(state.repos@), repo_root@) is None ==> r.viewed_set() == Set::<
                Seq<char>,
            >::empty() && r.spec_last_selected() is None,
    {
        match state.find_repo(repo_root) {
            Some(k) => {
                assert(entries_view(state.repos@)[k as int].1 == state.repos@[k as int].1);
                Self::with_path(repo_root, state_path, Some(&state.repos[k].1))
            },
            None => Self::with_path(repo_root, state_path, None),
        }
    }

    /// Record this repository's state in `state`; the other repositories'
    /// entries are kept.
    pub fn save_into(&self, state: &mut PersistedState)
        ensures
            final(state).version == old(state).version,
            entry_of(entries_view(final(state).repos@), self.spec_repo_key()) matches Some(s) && texts(
                s.viewed@,
            ).to_set() == self.viewed_set() && crate::config::opt_string(s.last_selected)
                == self.spec_last_selected(),
            forall|other: Seq<char>|
                other != self.spec_repo_key() ==> #[trigger] entry_of(entries_view(final(state).repos@), other)
                    == entry_of(entries_view(old(state).repos@), other),
    {
        let st = self.repo_state();
        let ghost es0 = entries_view(state.repos@);
        let ghost g = st;
        state.set_repo(self.repo_key(), st);
        proof {
            assert forall|other: Seq<char>| other != self.spec_repo_key() implies #[trigger] entry_of(
                entries_view(state.repos@),
                other,
            ) == entry_of(es0, other) by {
                lemma_entry_after_set(es0, self.spec_repo_key(), g, other);
            }
            let some_other = self.spec_repo_key().push('x');
            assert(some_other != self.spec_repo_key()) by {
                assert(some_other.len() != self.spec_repo_key().len());
            }
            lemma_entry_after_set(es0, self.spec_repo_key(), g, some_other);
        }
    }

    /// The repository key.
    pub fn repo_key(&self) -> (r: &str)
        ensures
            r@ == self.spec_repo_key(),
    {
        self.repo_key.as_str()
    }

    /// The state file path.
    pub fn state_path(&self) -> (r: &str)
        ensures
            r@ == self.spec_state_path(),
    {
        self.state_path.as_str()
    }

    /// This repository's state as it is persisted.
    pub fn repo_state(&self) -> (r: RepoState)
        ensures
            texts(r.viewed@).to_set() == self.viewed_set(),
            crate::config::opt_string(r.last_selected) == self.spec_last_selected(),
    {
        RepoState {
            viewed: self.viewed.to_vec(),
            last_selected: match &self.last_selected {
                Some(l) => Some(l.clone()),
                None => None,
            },
        }
    }

    /// Get last selected file.
    pub fn last_selected(&self) -> (r: Option<&str>)
        ensures
            crate::repo::opt_text(r) == self.spec_last_selected(),
    {
        match &self.last_selected {
            Some(s) => Some(s.as_str()),
            None => None,
        }
    }

    /// Set last selected file.
    pub fn set_last_selected(&mut self, path: Option<String>)
        ensures
            final(self).spec_last_selected() == crate::config::opt_string(path),
            final(self).viewed_set() == old(self).viewed_set(),
            final(self).spec_repo_key() == old(self).spec_repo_key(),
            final(self).spec_state_path() == old(self).spec_state_path(),
    {
        self.last_selected = path;
    }
}

impl ViewedStore for MemoryViewedStore {
    closed spec fn viewed_set(&self) -> Set<Seq<char>> {
        self.viewed.spec_set()
    }

    fn is_viewed(&self, path: &RelPath) -> (r: bool) {
        self.viewed.contains(path.as_str())
    }

    fn mark_viewed(&mut self, path: RelPath) {
        self.viewed.insert(path.as_str());
    }

    fn unmark_viewed(&mut self, path: &RelPath) {
        self.viewed.remove(path.as_str());
    }

    fn viewed_count(&self) -> (r: usize) {
        self.viewed.len()
    }
}

} // verus!
