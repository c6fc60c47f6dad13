//! Comment storage: the stored state, its operations, an in-memory store,
//! and the file-backed store (whose file the caller reads and writes).

use vstd::prelude::*;
use crate::comments::{Anchor, Comment, CommentContext, CommentId, CommentStatus, CommentV};
use crate::repo::RelPath;

verus! {

/// Persisted state schema.
#[derive(Debug)]
pub struct CommentsState {
    /// Schema version for migration.
    pub version: u32,
    /// Next available comment ID.
    pub next_id: CommentId,
    /// All stored comments.
    pub comments: Vec<Comment>,
}

/// Mathematical view of the stored state.
pub struct StateV {
    pub version: u32,
    pub next_id: u64,
    pub comments: Seq<CommentV>,
}

/// Views of a list of comments.
pub open spec fn comments_view(v: Seq<Comment>) -> Seq<CommentV> {
    v.map_values(|c: Comment| c@)
}

/// Views of a list of borrowed comments.
pub open spec fn refs_view(v: Seq<&Comment>) -> Seq<CommentV> {
    v.map_values(|c: &Comment| c@)
}

impl View for CommentsState {
    type V = StateV;

    open spec fn view(&self) -> StateV {
        StateV {
            version: self.version,
            next_id: self.next_id,
            comments: comments_view(self.comments@),
        }
    }
}

impl Default for CommentsState {
    fn default() -> (r: Self)
        ensures
            r@ == (StateV { version: 1, next_id: 1, comments: Seq::empty() }),
    {
        let r = CommentsState { version: 1, next_id: 1, comments: Vec::new() };
        assert(comments_view(r.comments@) =~= Seq::<CommentV>::empty());
        r
    }
}

impl Clone for CommentsState {
    fn clone(&self) -> (r: Self)
        ensures
            r@ == self@,
    {
        let mut v: Vec<Comment> = Vec::new();
        let mut i: usize = 0;
        while i < self.comments.len()
            invariant
                i <= self.comments@.len(),
                v@.len() == i,
                forall|k: int| 0 <= k < i ==> (#[trigger] v@[k])@ == self.comments@[k]@,
            decreases self.comments@.len() - i,
        {
            v.push(self.comments[i].clone());
            i = i + 1;
        }
        assert(comments_view(v@) =~= comments_view(self.comments@));
        CommentsState { version: self.version, next_id: self.next_id, comments: v }
    }
}

// ---------------------------------------------------------------------------
// The operations, as functions of the state
// ---------------------------------------------------------------------------

/// A comment is listed: all are when resolved ones are included, else the open ones.
pub open spec fn listed(c: CommentV, include_resolved: bool) -> bool {
    include_resolved || c.status == CommentStatus::Open
}

/// The listed comments, in stored order.
pub open spec fn list_spec(cs: Seq<CommentV>, include_resolved: bool) -> Seq<CommentV>
    decreases cs.len(),
{
    if cs.len() == 0 {
        Seq::empty()
    } else {
        let p = list_spec(cs.drop_last(), include_resolved);
        if listed(cs.last(), include_resolved) {
            p.push(cs.last())
        } else {
            p
        }
    }
}

/// The listed comments on `path`, in stored order.
pub open spec fn list_for_path_spec(cs: Seq<CommentV>, path: Seq<char>, include_resolved: bool) -> Seq<
    CommentV,
>
    decreases cs.len(),
{
    if cs.len() == 0 {
        Seq::empty()
    } else {
        let p = list_for_path_spec(cs.drop_last(), path, include_resolved);
        if cs.last().path == path && listed(cs.last(), include_resolved) {
            p.push(cs.last())
        } else {
            p
        }
    }
}

/// Index of the first comment with `id`.
pub open spec fn find_id(cs: Seq<CommentV>, id: u64) -> Option<int>
    decreases cs.len(),
{
    if cs.len() == 0 {
        None
    } else {
        match find_id(cs.drop_last(), id) {
            Some(k) => Some(k),
            None => if cs.last().id == id {
                Some(cs.len() - 1)
            } else {
                None
            },
        }
    }
}

/// The comment a store adds.
pub open spec fn new_comment(
    id: u64,
    path: Seq<char>,
    context: crate::comments::ContextV,
    message: Seq<char>,
    anchor: Seq<crate::comments::SelectorV>,
    created_at_ms: Option<u64>,
) -> CommentV {
    CommentV {
        id,
        path,
        context,
        message,
        status: CommentStatus::Open,
        anchor,
        created_at_ms,
        resolved_at_ms: None,
    }
}

/// The state after adding `c`, whose id is the next id.
pub open spec fn add_spec(st: StateV, c: CommentV) -> StateV {
    StateV { version: st.version, next_id: (st.next_id + 1) as u64, comments: st.comments.push(c) }
}

/// A comment marked resolved (at `at`, when a time is recorded).
pub open spec fn resolved_comment(c: CommentV, at: Option<u64>) -> CommentV {
    CommentV {
        status: CommentStatus::Resolved,
        resolved_at_ms: match at {
            Some(t) => Some(t),
            None => c.resolved_at_ms,
        },
        ..c
    }
}

/// The state after resolving the first comment with `id`, if there is one.
pub open spec fn resolve_spec(st: StateV, id: u64, at: Option<u64>) -> StateV {
    match find_id(st.comments, id) {
        Some(k) => StateV {
            comments: st.comments.update(k, resolved_comment(st.comments[k], at)),
            ..st
        },
        None => st,
    }
}

/// The first comment with `id`.
pub open spec fn get_spec(cs: Seq<CommentV>, id: u64) -> Option<CommentV> {
    match find_id(cs, id) {
        Some(k) => Some(cs[k]),
        None => None,
    }
}

/// Every stored id is below the next id.
pub open spec fn ids_below_next(st: StateV) -> bool {
    forall|k: int| 0 <= k < st.comments.len() ==> #[trigger] st.comments[k].id < st.next_id
}

proof fn lemma_find_id_bounds(cs: Seq<CommentV>, id: u64)
    ensures
        find_id(cs, id) matches Some(k) ==> 0 <= k < cs.len() && cs[k].id == id && forall|j: int|
            0 <= j < k ==> cs[j].id != id,
        find_id(cs, id) is None ==> forall|j: int| 0 <= j < cs.len() ==> cs[j].id != id,
    decreases cs.len(),
{
    if cs.len() > 0 {
        lemma_find_id_bounds(cs.drop_last(), id);
        assert forall|j: int| 0 <= j < cs.len() - 1 implies cs.drop_last()[j] == cs[j] by {}
    }
}

// ---------------------------------------------------------------------------
// Laws of the store
// ---------------------------------------------------------------------------

/// After an add, looking up the new id gives the added comment, and every
/// id stays below the next id.
pub proof fn lemma_add_then_get(st: StateV, c: CommentV)
    requires
        ids_below_next(st),
        c.id == st.next_id,
        st.next_id < u64::MAX,
    ensures
        get_spec(add_spec(st, c).comments, c.id) == Some(c),
        ids_below_next(add_spec(st, c)),
{
    let cs = add_spec(st, c).comments;
    assert(cs.drop_last() =~= st.comments);
    lemma_find_id_bounds(st.comments, c.id);
    if find_id(st.comments, c.id) is Some {
        let k = find_id(st.comments, c.id)->0;
        assert(st.comments[k].id < st.next_id);
    }
}

/// An add lists the new comment after the ones listed before (a new
/// comment is open).
pub proof fn lemma_add_lists_new(st: StateV, c: CommentV, include_resolved: bool)
    requires
        c.status == CommentStatus::Open,
    ensures
        list_spec(add_spec(st, c).comments, include_resolved) == list_spec(
            st.comments,
            include_resolved,
        ).push(c),
{
    assert(add_spec(st, c).comments.drop_last() =~= st.comments);
}

proof fn lemma_list_update(cs: Seq<CommentV>, k: int, c: CommentV)
    requires
        0 <= k < cs.len(),
        c.status == CommentStatus::Resolved,
    ensures
        list_spec(cs.update(k, c), false).len() + 1 == list_spec(cs, false).len() || cs[k].status
            == CommentStatus::Resolved,
        list_spec(cs.update(k, c), true).len() == list_spec(cs, true).len(),
    decreases cs.len(),
{
    lemma_list_true_len(cs);
    lemma_list_true_len(cs.update(k, c));
    if k == cs.len() - 1 {
        assert(cs.update(k, c).drop_last() =~= cs.drop_last());
    } else {
        assert(cs.update(k, c).drop_last() =~= cs.drop_last().update(k, c));
        lemma_list_update(cs.drop_last(), k, c);
    }
}

proof fn lemma_list_true_len(cs: Seq<CommentV>)
    ensures
        list_spec(cs, true).len() == cs.len(),
    decreases cs.len(),
{
    if cs.len() > 0 {
        lemma_list_true_len(cs.drop_last());
    }
}

/// Resolving an open comment removes it from the open list and keeps it
/// in the full list.
pub proof fn lemma_resolve_hides(st: StateV, id: u64, at: Option<u64>)
    requires
        get_spec(st.comments, id) matches Some(c) && c.status == CommentStatus::Open,
    ensures
        list_spec(resolve_spec(st, id, at).comments, false).len() + 1 == list_spec(
            st.comments,
            false,
        ).len(),
        list_spec(resolve_spec(st, id, at).comments, true).len() == list_spec(
            st.comments,
            true,
        ).len(),
{
    lemma_find_id_bounds(st.comments, id);
    let k = find_id(st.comments, id)->0;
    lemma_list_update(st.comments, k, resolved_comment(st.comments[k], at));
}

/// Resolving an id that no comment has changes nothing.
pub proof fn lemma_resolve_absent(st: StateV, id: u64, at: Option<u64>)
    requires
        get_spec(st.comments, id) is None,
    ensures
        resolve_spec(st, id, at) == st,
{
}

/// Law: listing keeps, in stored order, exactly the comments that are open
/// or, when resolved ones are asked for, all of them; listing for a path is
/// that listing restricted to the path; so without `include_resolved` every
/// comment listed for a path is open and on that path.
pub proof fn lemma_listing(cs: Seq<CommentV>, path: Seq<char>, include_resolved: bool)
    ensures
        list_spec(cs, include_resolved) == cs.filter(
            |c: CommentV| include_resolved || c.status == CommentStatus::Open,
        ),
        list_for_path_spec(cs, path, include_resolved) == cs.filter(
            |c: CommentV| c.path == path && (include_resolved || c.status == CommentStatus::Open),
        ),
        list_for_path_spec(cs, path, include_resolved) == list_spec(cs, include_resolved).filter(
            |c: CommentV| c.path == path,
        ),
        forall|k: int|
            0 <= k < list_for_path_spec(cs, path, include_resolved).len() ==> (#[trigger] list_for_path_spec(
                cs,
                path,
                include_resolved,
            )[k]).path == path && (include_resolved || list_for_path_spec(cs, path, include_resolved)[k].status
                == CommentStatus::Open),
    decreases cs.len(),
{
    reveal(Seq::filter);
    let f1 = |c: CommentV| include_resolved || c.status == CommentStatus::Open;
    let f2 = |c: CommentV| c.path == path && (include_resolved || c.status == CommentStatus::Open);
    let f3 = |c: CommentV| c.path == path;
    if cs.len() > 0 {
        lemma_listing(cs.drop_last(), path, include_resolved);
        let l = list_spec(cs, include_resolved);
        let lp = list_spec(cs.drop_last(), include_resolved);
        if f1(cs.last()) {
            assert(l == lp.push(cs.last()));
            assert(l.drop_last() =~= lp);
            assert(l.last() == cs.last());
        } else {
            assert(l == lp);
        }
        let r = list_for_path_spec(cs, path, include_resolved);
        let rp = list_for_path_spec(cs.drop_last(), path, include_resolved);
        assert forall|k: int| 0 <= k < r.len() implies (#[trigger] r[k]).path == path && (include_resolved
            || r[k].status == CommentStatus::Open) by {
            if k < rp.len() {
                assert(r[k] == rp[k]);
            }
        }
    } else {
        assert(list_spec(cs, include_resolved).filter(f3) =~= Seq::<CommentV>::empty());
    }
}

// ---------------------------------------------------------------------------
// Executable operations on the state
// ---------------------------------------------------------------------------

impl CommentsState {
    /// All comments, or only the open ones.
    pub fn list_comments(&self, include_resolved: bool) -> (r: Vec<&Comment>)
        ensures
            refs_view(r@) == list_spec(self@.comments, include_resolved),
    {
        let mut out: Vec<&Comment> = Vec::new();
        let mut i: usize = 0;
        let ghost cs = self@.comments;
        assert(cs.subrange(0, 0) =~= Seq::<CommentV>::empty());
        while i < self.comments.len()
            invariant
                cs == self@.comments,
                i <= cs.len(),
                refs_view(out@) == list_spec(cs.subrange(0, i as int), include_resolved),
            decreases cs.len() - i,
        {
            let c = &self.comments[i];
            proof {
                assert(cs.subrange(0, i + 1).drop_last() =~= cs.subrange(0, i as int));
                assert(cs[i as int] == c@);
            }
            if include_resolved || c.status == CommentStatus::Open {
                out.push(c);
            }
            assert(refs_view(out@) =~= list_spec(cs.subrange(0, i + 1), include_resolved));
            i = i + 1;
        }
        assert(cs.subrange(0, i as int) =~= cs);
        out
    }

    /// Comments on `path`: all, or only the open ones.
    pub fn list_comments_for_path(&self, path: &RelPath, include_resolved: bool) -> (r: Vec<&Comment>)
        ensures
            refs_view(r@) == list_for_path_spec(self@.comments, path@, include_resolved),
    {
        let mut out: Vec<&Comment> = Vec::new();
        let mut i: usize = 0;
        let ghost cs = self@.comments;
        let pc = crate::strings::chars_of(path.as_str());
        assert(cs.subrange(0, 0) =~= Seq::<CommentV>::empty());
        while i < self.comments.len()
            invariant
                cs == self@.comments,
                pc@ == path@,
                i <= cs.len(),
                refs_view(out@) == list_for_path_spec(
                    cs.subrange(0, i as int),
                    path@,
                    include_resolved,
                ),
            decreases cs.len() - i,
        {
            let c = &self.comments[i];
            proof {
                assert(cs.subrange(0, i + 1).drop_last() =~= cs.subrange(0, i as int));
                assert(cs[i as int] == c@);
            }
            let cc = crate::strings::chars_of(c.path.as_str());
            if crate::strings::chars_eq(cc.as_slice(), pc.as_slice()) && (include_resolved
                || c.status == CommentStatus::Open) {
                out.push(c);
            }
            assert(refs_view(out@) =~= list_for_path_spec(
                cs.subrange(0, i + 1),
                path@,
                include_resolved,
            ));
            i = i + 1;
        }
        assert(cs.subrange(0, i as int) =~= cs);
        out
    }

    /// Index of the first comment with `id`.
    fn position_of(&self, id: CommentId) -> (r: Option<usize>)
        ensures
            r matches Some(k) ==> find_id(self@.comments, id) == Some(k as int) && k
                < self.comments@.len(),
            r is None ==> find_id(self@.comments, id) is None,
    {
        let ghost cs = self@.comments;
        let mut i: usize = 0;
        assert(cs.subrange(0, 0) =~= Seq::<CommentV>::empty());
        while i < self.comments.len()
            invariant
                cs == self@.comments,
                i <= cs.len(),
                find_id(cs.subrange(0, i as int), id) is None,
            decreases cs.len() - i,
        {
            proof {
                assert(cs.subrange(0, i + 1).drop_last() =~= cs.subrange(0, i as int));
                assert(cs[i as int] == self.comments@[i as int]@);
            }
            if self.comments[i].id == id {
                proof {
                    lemma_find_id_bounds(cs.subrange(0, i as int), id);
                    lemma_find_id_prefix(cs, i as int, id);
                }
                return Some(i);
            }
            i = i + 1;
        }
        assert(cs.subrange(0, i as int) =~= cs);
        None
    }

    /// The first comment with `id`.
    pub fn get_comment(&self, id: CommentId) -> (r: Option<&Comment>)
        ensures
            r matches Some(c) ==> get_spec(self@.comments, id) == Some(c@),
            r is None ==> get_spec(self@.comments, id) is None,
    {
        match self.position_of(id) {
            Some(k) => Some(&self.comments[k]),
            None => None,
        }
    }

    /// Append a new open comment with the next id; returns that id.
    pub fn add_comment(
        &mut self,
        path: RelPath,
        context: CommentContext,
        message: String,
        anchor: Anchor,
        created_at_ms: Option<u64>,
    ) -> (r: CommentId)
        requires
            old(self)@.next_id < u64::MAX,
        ensures
            r == old(self)@.next_id,
            final(self)@ == add_spec(
                old(self)@,
                new_comment(r, path@, context@, message@, anchor@, created_at_ms),
            ),
    {
        let id = self.next_id;
        self.next_id = self.next_id + 1;
        let comment = Comment {
            id,
            path,
            context,
            message,
            status: CommentStatus::Open,
            anchor,
            created_at_ms,
            resolved_at_ms: None,
        };
        let ghost c0 = comments_view(self.comments@);
        self.comments.push(comment);
        assert(comments_view(self.comments@) =~= c0.push(comment@));
        id
    }

    /// Mark the first comment with `id` resolved (recording `resolved_at_ms`
    /// when given); returns whether there was one.
    pub fn resolve_comment(&mut self, id: CommentId, resolved_at_ms: Option<u64>) -> (r: bool)
        ensures
            r == (find_id(old(self)@.comments, id) is Some),
            final(self)@ == resolve_spec(old(self)@, id, resolved_at_ms),
    {
        match self.position_of(id) {
            Some(k) => {
                let ghost c0 = comments_view(self.comments@);
                let mut c = self.comments[k].clone();
                c.status = CommentStatus::Resolved;
                match resolved_at_ms {
                    Some(t) => {
                        c.resolved_at_ms = Some(t);
                    },
                    None => {},
                }
                self.comments.set(k, c);
                assert(comments_view(self.comments@) =~= c0.update(
                    k as int,
                    resolved_comment(c0[k as int], resolved_at_ms),
                ));
                true
            },
            None => false,
        }
    }
}

proof fn lemma_find_id_prefix(cs: Seq<CommentV>, i: int, id: u64)
    requires
        0 <= i < cs.len(),
        find_id(cs.subrange(0, i), id) is None,
        cs[i].id == id,
    ensures
        find_id(cs, id) == Some(i),
    decreases cs.len(),
{
    if i < cs.len() - 1 {
        assert(cs.drop_last().subrange(0, i) =~= cs.subrange(0, i));
        lemma_find_id_prefix(cs.drop_last(), i, id);
    } else {
        assert(cs.drop_last() =~= cs.subrange(0, i));
    }
}

// ---------------------------------------------------------------------------
// The store interface and the in-memory store
// ---------------------------------------------------------------------------

/// Trait for comment storage operations.
pub trait CommentStore {
    /// List all comments, optionally filtering by status.
    fn list(&self, include_resolved: bool) -> Vec<&Comment>;

    /// List comments for a specific file.
    fn list_for_path(&self, path: &RelPath, include_resolved: bool) -> Vec<&Comment>;

    /// Add a new comment, returns the assigned ID.
    fn add(&mut self, path: RelPath, context: CommentContext, message: String, anchor: Anchor) -> Result<
        CommentId,
        std::io::Error,
    >;

    /// Resolve a comment by ID.
    fn resolve(&mut self, id: CommentId) -> Result<bool, std::io::Error>;

    /// Get a comment by ID.
    fn get(&self, id: CommentId) -> Option<&Comment>;
}

/// `std::io::Error::other`: an I/O error of kind `Other` with message `msg`.
#[verifier::external_body]
fn io_error_other(msg: &str) -> std::io::Error {
    std::io::Error::other(msg.to_owned())
}

/// In-memory comment store (for testing).
#[derive(Debug)]
pub struct MemoryCommentStore {
    state: CommentsState,
}

impl MemoryCommentStore {
    /// The stored state.
    pub closed spec fn spec_state(&self) -> StateV {
        self.state@
    }

    /// Create a new empty in-memory store.
    pub fn new() -> (r: Self)
        ensures
            r.spec_state() == (StateV { version: 1, next_id: 1, comments: Seq::empty() }),
    {
        MemoryCommentStore { state: CommentsState::default() }
    }
}

impl Default for MemoryCommentStore {
    fn default() -> (r: Self)
        ensures
            r.spec_state() == (StateV { version: 1, next_id: 1, comments: Seq::empty() }),
    {
        Self::new()
    }
}

impl CommentStore for MemoryCommentStore {
    fn list(&self, include_resolved: bool) -> (r: Vec<&Comment>)
        ensures
            refs_view(r@) == list_spec(self.spec_state().comments, include_resolved),
    {
        self.state.list_comments(include_resolved)
    }

    fn list_for_path(&self, path: &RelPath, include_resolved: bool) -> (r: Vec<&Comment>)
        ensures
            refs_view(r@) == list_for_path_spec(self.spec_state().comments, path@, include_resolved),
    {
        self.state.list_comments_for_path(path, include_resolved)
    }

    /// Adds an open comment with the next id (no timestamp is recorded).
    /// When the id counter cannot advance, nothing is added and an error
    /// is returned.
    fn add(&mut self, path: RelPath, context: CommentContext, message: String, anchor: Anchor) -> (r: Result<
        CommentId,
        std::io::Error,
    >)
        ensures
            old(self).spec_state().next_id < u64::MAX ==> (r matches Ok(id) && id == old(
                self,
            ).spec_state().next_id && final(self).spec_state() == add_spec(
                old(self).spec_state(),
                new_comment(id, path@, context@, message@, anchor@, None),
            )),
            old(self).spec_state().next_id == u64::MAX ==> (r is Err && final(self).spec_state()
                == old(self).spec_state()),
    {
        if self.state.next_id == u64::MAX {
            return Err(io_error_other("comment ids exhausted"));
        }
        let id = self.state.add_comment(path, context, message, anchor, None);
        Ok(id)
    }

    fn resolve(&mut self, id: CommentId) -> (r: Result<bool, std::io::Error>)
        ensures
            r matches Ok(b) && b == (find_id(old(self).spec_state().comments, id) is Some),
            final(self).spec_state() == resolve_spec(old(self).spec_state(), id, None),
    {
        Ok(self.state.resolve_comment(id, None))
    }

    fn get(&self, id: CommentId) -> (r: Option<&Comment>)
        ensures
            r matches Some(c) ==> get_spec(self.spec_state().comments, id) == Some(c@),
            r is None ==> get_spec(self.spec_state().comments, id) is None,
    {
        self.state.get_comment(id)
    }
}

// ---------------------------------------------------------------------------
// The file-backed store
// ---------------------------------------------------------------------------

/// Where a repository keeps its comments: `.quickdiff/comments.json`
/// under its root.
pub fn comments_state_path(repo_root: &str) -> (r: String)
    ensures
        r@ == crate::repo::path_joined(
            crate::repo::path_joined(repo_root@, ".quickdiff"@),
            "comments.json"@,
        ),
{
    let dir = crate::repo::std_path_join(repo_root, ".quickdiff");
    crate::repo::std_path_join(dir.as_str(), "comments.json")
}

/// File-backed comment store: the state read from its file and the file's
/// path. Reading the file, writing it back after each change and reading
/// the clock are the caller's part.
#[derive(Debug)]
pub struct FileCommentStore {
    state_path: String,
    state: CommentsState,
}

impl FileCommentStore {
    /// The stored state.
    pub closed spec fn spec_state(&self) -> StateV {
        self.state@
    }

    /// The path of the file that holds the state.
    pub closed spec fn spec_state_path(&self) -> Seq<char> {
        self.state_path@
    }

    /// The store kept at `state_path`, holding `state` as read from there.
    pub fn with_state(state_path: String, state: CommentsState) -> (r: Self)
        ensures
            r.spec_state() == state@,
            r.spec_state_path() == state_path@,
    {
        FileCommentStore { state_path, state }
    }

    /// The path of the file that holds the state.
    pub fn state_path(&self) -> (r: &str)
        ensures
            r@ == self.spec_state_path(),
    {
        self.state_path.as_str()
    }

    /// The state, as it is to be written back.
    pub fn state(&self) -> (r: &CommentsState)
        ensures
            r@ == self.spec_state(),
    {
        &self.state
    }

    /// All comments, or only the open ones.
    pub fn list(&self, include_resolved: bool) -> (r: Vec<&Comment>)
        ensures
            refs_view(r@) == list_spec(self.spec_state().comments, include_resolved),
    {
        self.state.list_comments(include_resolved)
    }

    /// Comments on `path`: all, or only the open ones.
    pub fn list_for_path(&self, path: &RelPath, include_resolved: bool) -> (r: Vec<&Comment>)
        ensures
            refs_view(r@) == list_for_path_spec(self.spec_state().comments, path@, include_resolved),
    {
        self.state.list_comments_for_path(path, include_resolved)
    }

    /// The first comment with `id`.
    pub fn get(&self, id: CommentId) -> (r: Option<&Comment>)
        ensures
            r matches Some(c) ==> get_spec(self.spec_state().comments, id) == Some(c@),
            r is None ==> get_spec(self.spec_state().comments, id) is None,
    {
        self.state.get_comment(id)
    }

    /// Add an open comment with the next id, created at `now_ms`. When the
    /// id counter cannot advance, nothing is added and an error is returned.
    pub fn add(
        &mut self,
        path: RelPath,
        context: CommentContext,
        message: String,
        anchor: Anchor,
        now_ms: u64,
    ) -> (r: Result<CommentId, std::io::Error>)
        ensures
            final(self).spec_state_path() == old(self).spec_state_path(),
            old(self).spec_state().next_id < u64::MAX ==> (r matches Ok(id) && id == old(
                self,
            ).spec_state().next_id && final(self).spec_state() == add_spec(
                old(self).spec_state(),
                new_comment(id, path@, context@, message@, anchor@, Some(now_ms)),
            )),
            old(self).spec_state().next_id == u64::MAX ==> (r is Err && final(self).spec_state()
                == old(self).spec_state()),
    {
        if self.state.next_id == u64::MAX {
            return Err(io_error_other("comment ids exhausted"));
        }
        let id = self.state.add_comment(path, context, message, anchor, Some(now_ms));
        Ok(id)
    }

    /// Mark the first comment with `id` resolved at `now_ms`; returns
    /// whether there was one (the state changes only then).
    pub fn resolve(&mut self, id: CommentId, now_ms: u64) -> (r: bool)
        ensures
            final(self).spec_state_path() == old(self).spec_state_path(),
            r == (find_id(old(self).spec_state().comments, id) is Some),
            final(self).spec_state() == resolve_spec(old(self).spec_state(), id, Some(now_ms)),
    {
        self.state.resolve_comment(id, Some(now_ms))
    }
}

} // verus!
