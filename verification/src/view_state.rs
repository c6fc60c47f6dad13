//! State of the review UI and the decisions made on it: which diff rows
//! are shown, which comment context a diff source has, what a patch's two
//! sides read, which hunks carry open comments.

use vstd::prelude::*;
use crate::comments::{Comment, CommentContext, CommentId, CommentStatus, ContextV};
use crate::diff::{DiffResult, Hunk};
use crate::gh::{PRFilter, PullRequest};
use crate::pr_diff::PRChangedFile;
use crate::repo::{DiffSource, DiffSourceV};
use crate::strings::{chars_of, has_prefix, join, lines_of, push_all, push_str, slice_to_vec,
    split_lines, starts_with_str, string_of};

verus! {

/// Focus state for the UI.
#[derive(Debug, Clone, Copy, PartialEq, Eq, Structural)]
pub enum Focus {
    /// Sidebar focus (file list navigation).
    Sidebar,
    /// Diff pane focus.
    Diff,
}

/// UI mode (normal vs input modes).
#[derive(Debug, Clone, Copy, PartialEq, Eq, Structural)]
pub enum Mode {
    /// Normal navigation mode.
    Normal,
    /// Adding a comment.
    AddComment,
    /// Viewing comments overlay.
    ViewComments,
    /// Filtering files in sidebar.
    FilterFiles,
    /// Selecting a theme.
    SelectTheme,
    /// Viewing help overlay.
    Help,
    /// Browsing PR list.
    PRPicker,
    /// Composing PR review action.
    PRAction,
}

impl Default for Mode {
    fn default() -> (r: Self)
        ensures
            r == Mode::Normal,
    {
        Mode::Normal
    }
}

/// Type of PR review action.
#[derive(Debug, Clone, Copy, PartialEq, Eq, Structural)]
pub enum PRActionType {
    /// Approve the PR.
    Approve,
    /// Comment on the PR.
    Comment,
    /// Request changes on the PR.
    RequestChanges,
}

/// Layout mode for diff panes.
#[derive(Debug, Clone, Copy, PartialEq, Eq, Structural)]
pub enum DiffPaneMode {
    /// Show both old and new panes.
    Both,
    /// Show only the old (left) pane full-width.
    OldOnly,
    /// Show only the new (right) pane full-width.
    NewOnly,
}

impl Default for DiffPaneMode {
    fn default() -> (r: Self)
        ensures
            r == DiffPaneMode::Both,
    {
        DiffPaneMode::Both
    }
}

/// View mode for diffs (hunks-only vs full file).
#[derive(Debug, Clone, Copy, PartialEq, Eq, Structural)]
pub enum DiffViewMode {
    /// Only render hunks with context lines.
    HunksOnly,
    /// Render the full file.
    FullFile,
}

impl Default for DiffViewMode {
    fn default() -> (r: Self)
        ensures
            r == DiffViewMode::HunksOnly,
    {
        DiffViewMode::HunksOnly
    }
}

/// A comment as listed in the comments overlay.
#[derive(Debug, Clone)]
pub struct CommentViewItem {
    pub id: CommentId,
    pub status: CommentStatus,
    pub message: String,
    pub anchor_summary: String,
    pub hunk_start_row: Option<usize>,
    pub stale: bool,
}

/// Per-file projection of comments onto current diff hunks.
#[derive(Debug)]
pub struct CommentIndex {
    /// Open comment IDs by hunk index (first entry for an index counts).
    pub by_hunk: Vec<(usize, Vec<CommentId>)>,
    /// Current hunk index by hunk digest (first entry for a digest counts).
    pub by_digest: Vec<(String, usize)>,
}

impl Default for CommentIndex {
    fn default() -> (r: Self)
        ensures
            r.by_hunk@.len() == 0,
            r.by_digest@.len() == 0,
    {
        CommentIndex { by_hunk: Vec::new(), by_digest: Vec::new() }
    }
}

/// The comments recorded for hunk `k`: those of the first entry for it.
pub open spec fn comments_of_hunk(entries: Seq<(usize, Vec<CommentId>)>, k: usize) -> Option<
    Seq<CommentId>,
>
    decreases entries.len(),
{
    if entries.len() == 0 {
        None
    } else if entries[0].0 == k {
        Some(entries[0].1@)
    } else {
        comments_of_hunk(entries.drop_first(), k)
    }
}

impl CommentIndex {
    /// Whether a hunk has at least one open comment.
    pub fn has_open_comment(&self, hunk_idx: usize) -> (r: bool)
        ensures
            r == (comments_of_hunk(self.by_hunk@, hunk_idx) matches Some(c) && c.len() > 0),
    {
        let mut i: usize = 0;
        assert(self.by_hunk@.subrange(0, self.by_hunk@.len() as int) =~= self.by_hunk@);
        while i < self.by_hunk.len()
            invariant
                i <= self.by_hunk@.len(),
                comments_of_hunk(self.by_hunk@, hunk_idx) == comments_of_hunk(
                    self.by_hunk@.subrange(i as int, self.by_hunk@.len() as int),
                    hunk_idx,
                ),
            decreases self.by_hunk@.len() - i,
        {
            let ghost rest = self.by_hunk@.subrange(i as int, self.by_hunk@.len() as int);
            assert(rest[0] == self.by_hunk@[i as int]);
            if self.by_hunk[i].0 == hunk_idx {
                return self.by_hunk[i].1.len() > 0;
            }
            assert(rest.drop_first() =~= self.by_hunk@.subrange(i + 1, self.by_hunk@.len() as int));
            i = i + 1;
        }
        false
    }
}

/// Sidebar navigation and filter state.
#[derive(Debug)]
pub struct SidebarState {
    /// Whether the sidebar is visible.
    pub visible: bool,
    /// Currently selected file index.
    pub selected_idx: usize,
    /// Scroll offset (first visible file).
    pub scroll: usize,
    /// Filter query string.
    pub filter: String,
    /// Filtered file indices (empty = show all).
    pub filtered_indices: Vec<usize>,
    /// Cached truncated paths for sidebar display.
    pub path_cache: Vec<String>,
}

impl Default for SidebarState {
    fn default() -> (r: Self)
        ensures
            !r.visible,
            r.selected_idx == 0,
            r.scroll == 0,
            r.filter@.len() == 0,
            r.filtered_indices@.len() == 0,
            r.path_cache@.len() == 0,
    {
        SidebarState {
            visible: false,
            selected_idx: 0,
            scroll: 0,
            filter: String::new(),
            filtered_indices: Vec::new(),
            path_cache: Vec::new(),
        }
    }
}

/// Diff viewer viewport state.
#[derive(Debug)]
pub struct ViewerState {
    /// Vertical scroll offset.
    pub scroll_y: usize,
    /// Horizontal scroll offset.
    pub scroll_x: usize,
    /// View mode (hunks-only vs full file).
    pub view_mode: DiffViewMode,
    /// Pane layout mode.
    pub pane_mode: DiffPaneMode,
    /// Whether long lines should wrap.
    pub wrap_lines: bool,
    /// Whether line numbers should be shown.
    pub show_line_numbers: bool,
    /// Precomputed hunk view rows.
    pub hunk_view_rows: Vec<usize>,
}

impl Default for ViewerState {
    fn default() -> (r: Self)
        ensures
            r.scroll_y == 0,
            r.scroll_x == 0,
            r.view_mode == DiffViewMode::HunksOnly,
            r.pane_mode == DiffPaneMode::Both,
            !r.wrap_lines,
            !r.show_line_numbers,
            r.hunk_view_rows@.len() == 0,
    {
        ViewerState {
            scroll_y: 0,
            scroll_x: 0,
            view_mode: DiffViewMode::HunksOnly,
            pane_mode: DiffPaneMode::Both,
            wrap_lines: false,
            show_line_numbers: false,
            hunk_view_rows: Vec::new(),
        }
    }
}

/// Comment viewing/editing state.
#[derive(Debug)]
pub struct CommentsState {
    /// Draft comment text.
    pub draft: String,
    /// Cursor byte position within the draft.
    pub draft_cursor: usize,
    /// Comments being viewed.
    pub viewing: Vec<CommentViewItem>,
    /// Selected index in view.
    pub selected: usize,
    /// Scroll offset in view.
    pub scroll: usize,
    /// Include resolved comments.
    pub include_resolved: bool,
}

impl Default for CommentsState {
    fn default() -> (r: Self)
        ensures
            r.draft@.len() == 0,
            r.draft_cursor == 0,
            r.viewing@.len() == 0,
            r.selected == 0,
            r.scroll == 0,
            !r.include_resolved,
    {
        CommentsState {
            draft: String::new(),
            draft_cursor: 0,
            viewing: Vec::new(),
            selected: 0,
            scroll: 0,
            include_resolved: false,
        }
    }
}

/// UI mode and message state.
#[derive(Debug)]
pub struct UiState {
    /// Current mode.
    pub mode: Mode,
    /// Error message.
    pub error: Option<String>,
    /// Status message.
    pub status: Option<String>,
    /// Dirty flag for redraw.
    pub dirty: bool,
}

impl Default for UiState {
    fn default() -> (r: Self)
        ensures
            r.mode == Mode::Normal,
            r.error is None,
            r.status is None,
            !r.dirty,
    {
        UiState { mode: Mode::Normal, error: None, status: None, dirty: false }
    }
}

/// Pull request mode state.
#[derive(Debug)]
pub struct PrState {
    /// Whether in PR mode.
    pub active: bool,
    /// Current PR.
    pub current: Option<PullRequest>,
    /// PR file list.
    pub files: Vec<PRChangedFile>,
    /// Available PRs.
    pub list: Vec<PullRequest>,
    /// Loading state.
    pub loading: bool,
    /// Filter for PR list.
    pub filter: PRFilter,
    /// Picker selection.
    pub picker_selected: usize,
    /// Picker scroll.
    pub picker_scroll: usize,
    /// Action text.
    pub action_text: String,
    /// Action type.
    pub action_type: Option<PRActionType>,
}

impl Default for PrState {
    fn default() -> (r: Self)
        ensures
            !r.active,
            r.current is None,
            r.files@.len() == 0,
            r.list@.len() == 0,
            !r.loading,
            r.filter == PRFilter::All,
            r.picker_selected == 0,
            r.picker_scroll == 0,
            r.action_text@.len() == 0,
            r.action_type is None,
    {
        PrState {
            active: false,
            current: None,
            files: Vec::new(),
            list: Vec::new(),
            loading: false,
            filter: PRFilter::All,
            picker_selected: 0,
            picker_scroll: 0,
            action_text: String::new(),
            action_type: None,
        }
    }
}

/// Patch mode state (stdin or external patch input).
#[derive(Debug)]
pub struct PatchState {
    /// Whether patch mode is active.
    pub active: bool,
    /// Patch-derived files.
    pub files: Vec<PRChangedFile>,
    /// Display label (e.g., "stdin").
    pub label: String,
}

impl Default for PatchState {
    fn default() -> (r: Self)
        ensures
            !r.active,
            r.files@.len() == 0,
            r.label@.len() == 0,
    {
        PatchState { active: false, files: Vec::new(), label: String::new() }
    }
}

// ---------------------------------------------------------------------------
// Rows shown in hunks-only mode
// ---------------------------------------------------------------------------

/// The diff rows of the hunks, in order.
pub open spec fn hunk_rows(hs: Seq<Hunk>) -> Seq<usize>
    decreases hs.len(),
{
    if hs.len() == 0 {
        Seq::empty()
    } else {
        hunk_rows(hs.drop_last()) + Seq::new(
            hs.last().row_count as nat,
            |j: int| (hs.last().start_row + j) as usize,
        )
    }
}

/// The rows shown for `mode`: the hunks' rows in hunks-only mode, none
/// (the whole file is shown) otherwise.
pub fn build_view_rows(diff: &DiffResult, mode: DiffViewMode) -> (r: Vec<usize>)
    ensures
        mode == DiffViewMode::HunksOnly ==> r@ == hunk_rows(diff.spec_hunks()),
        mode != DiffViewMode::HunksOnly ==> r@.len() == 0,
{
    if mode != DiffViewMode::HunksOnly {
        return Vec::new();
    }
    let hunks = diff.hunks();
    let n = diff.row_count();
    let mut rows: Vec<usize> = Vec::new();
    let mut i: usize = 0;
    assert(hunks@.subrange(0, 0) =~= Seq::<Hunk>::empty());
    while i < hunks.len()
        invariant
            hunks@ == diff.spec_hunks(),
            crate::diff::hunks_well_placed(hunks@, n as nat),
            i <= hunks@.len(),
            rows@ == hunk_rows(hunks@.subrange(0, i as int)),
        decreases hunks@.len() - i,
    {
        let h = hunks[i];
        assert(h.start_row + h.row_count <= n);
        let ghost r0 = rows@;
        let mut r = h.start_row;
        while r < h.start_row + h.row_count
            invariant
                h.start_row <= r <= h.start_row + h.row_count,
                h.start_row + h.row_count <= n,
                rows@ == r0 + Seq::new((r - h.start_row) as nat, |j: int| (h.start_row + j) as usize),
            decreases h.start_row + h.row_count - r,
        {
            rows.push(r);
            r = r + 1;
            assert(rows@ =~= r0 + Seq::new(
                (r - h.start_row) as nat,
                |j: int| (h.start_row + j) as usize,
            ));
        }
        proof {
            assert(hunks@.subrange(0, i + 1).drop_last() =~= hunks@.subrange(0, i as int));
        }
        i = i + 1;
    }
    assert(hunks@.subrange(0, i as int) =~= hunks@);
    rows
}

/// The number of rows of hunks in hunks-only mode is the sum of their
/// row counts.
pub open spec fn rows_total(hs: Seq<Hunk>) -> nat
    decreases hs.len(),
{
    if hs.len() == 0 {
        0
    } else {
        (rows_total(hs.drop_last()) + hs.last().row_count) as nat
    }
}

/// The hunk rows are as many as the hunks' row counts add up to.
pub proof fn lemma_hunk_rows_len(hs: Seq<Hunk>)
    ensures
        hunk_rows(hs).len() == rows_total(hs),
    decreases hs.len(),
{
    if hs.len() > 0 {
        lemma_hunk_rows_len(hs.drop_last());
    }
}

/// `v` is in non-decreasing order.
pub open spec fn sorted_rows(v: Seq<usize>) -> bool {
    forall|a: int, b: int| 0 <= a <= b < v.len() ==> v[a] <= v[b]
}

/// Map a diff row to the view row showing it or the first one after it
/// (the last view row when the diff row is past them all). For rows in
/// order this is the first position not below `diff_row`.
pub fn map_diff_row_to_view_row(view_rows: &[usize], diff_row: usize) -> (r: Option<usize>)
    ensures
        view_rows@.len() == 0 ==> r is None,
        view_rows@.len() > 0 ==> (r matches Some(k) && k < view_rows@.len()),
        view_rows@.len() > 0 && sorted_rows(view_rows@) ==> ({
            let k = r->0 as int;
            &&& forall|j: int| 0 <= j < k ==> view_rows@[j] < diff_row
            &&& (view_rows@[k] >= diff_row || k == view_rows@.len() - 1)
        }),
{
    if view_rows.len() == 0 {
        return None;
    }
    let mut lo: usize = 0;
    let mut hi: usize = view_rows.len();
    while lo < hi
        invariant
            0 <= lo <= hi <= view_rows@.len(),
            sorted_rows(view_rows@) ==> forall|j: int| 0 <= j < lo ==> view_rows@[j] < diff_row,
            sorted_rows(view_rows@) ==> forall|j: int| hi <= j < view_rows@.len() ==> view_rows@[j]
                >= diff_row,
        decreases hi - lo,
    {
        let mid = lo + (hi - lo) / 2;
        if view_rows[mid] < diff_row {
            lo = mid + 1;
        } else {
            hi = mid;
        }
    }
    if lo < view_rows.len() {
        Some(lo)
    } else {
        Some(view_rows.len() - 1)
    }
}

// ---------------------------------------------------------------------------
// Comment context of a diff source
// ---------------------------------------------------------------------------

/// The comment context of a diff source (a pull request counts as the
/// pseudo-commit `pr-<number>`).
pub open spec fn context_for(source: DiffSourceV) -> ContextV {
    match source {
        DiffSourceV::WorkingTree => ContextV::Worktree,
        DiffSourceV::Base(b) => ContextV::Base { base: b },
        DiffSourceV::Commit(c) => ContextV::Commit { commit: c },
        DiffSourceV::Range { from, to } => ContextV::Range { from, to },
        DiffSourceV::PullRequest { number, .. } => ContextV::Commit {
            commit: "pr-"@ + crate::strings::dec(number as nat),
        },
    }
}

/// The comment context for comments made on a diff of `source`.
pub fn comment_context_for_source(source: &DiffSource) -> (r: CommentContext)
    ensures
        r@ == context_for(source@),
{
    match source {
        DiffSource::WorkingTree => CommentContext::Worktree,
        DiffSource::Base(base) => CommentContext::Base { base: base.clone() },
        DiffSource::Commit(commit) => CommentContext::Commit { commit: commit.clone() },
        DiffSource::Range { from, to } => CommentContext::Range { from: from.clone(), to: to.clone() },
        DiffSource::PullRequest { number, .. } => {
            let mut c: Vec<char> = Vec::new();
            push_str(&mut c, "pr-");
            push_all(&mut c, crate::strings::fmt_dec(*number as usize).as_slice());
            CommentContext::Commit { commit: string_of(c.as_slice()) }
        },
    }
}

/// Open comments per path, for the comments whose context matches `context`.
pub open spec fn count_for(cs: Seq<crate::comments::CommentV>, context: ContextV, path: Seq<char>) -> nat
    decreases cs.len(),
{
    if cs.len() == 0 {
        0
    } else {
        count_for(cs.drop_last(), context, path) + if cs.last().path == path
            && crate::comments::context_matches(cs.last().context, context) {
            1nat
        } else {
            0nat
        }
    }
}

proof fn lemma_count_for_bound(cs: Seq<crate::comments::CommentV>, context: ContextV, path: Seq<char>)
    ensures
        count_for(cs, context, path) <= cs.len(),
    decreases cs.len(),
{
    if cs.len() > 0 {
        lemma_count_for_bound(cs.drop_last(), context, path);
    }
}

fn find_path_entry(out: &Vec<(String, usize)>, path: &String) -> (r: Option<usize>)
    ensures
        r matches Some(k) ==> k < out@.len() && out@[k as int].0@ == path@,
        r is None ==> forall|j: int| 0 <= j < out@.len() ==> out@[j].0@ != path@,
{
    let mut k: usize = 0;
    while k < out.len()
        invariant
            k <= out@.len(),
            forall|j: int| 0 <= j < k ==> out@[j].0@ != path@,
        decreases out@.len() - k,
    {
        if out[k].0 == *path {
            return Some(k);
        }
        k = k + 1;
    }
    None
}

/// The number of listed comments on each path whose context matches
/// `context`, as (path, count) entries with distinct paths, one for each
/// path that has such a comment.
pub fn open_comment_counts(comments: &Vec<&Comment>, context: &CommentContext) -> (r: Vec<(String, usize)>)
    ensures
        forall|k: int|
            0 <= k < r@.len() ==> (#[trigger] r@[k]).1 as nat == count_for(
                crate::comments_store::refs_view(comments@),
                context@,
                r@[k].0@,
            ),
        forall|k: int| 0 <= k < r@.len() ==> (#[trigger] r@[k]).1 > 0,
        forall|a: int, b: int| 0 <= a < b < r@.len() ==> r@[a].0@ != r@[b].0@,
        forall|p: Seq<char>|
            count_for(crate::comments_store::refs_view(comments@), context@, p) > 0 ==> exists|k: int|
                0 <= k < r@.len() && (#[trigger] r@[k]).0@ == p,
{
    let ghost cs = crate::comments_store::refs_view(comments@);
    let mut out: Vec<(String, usize)> = Vec::new();
    let mut i: usize = 0;
    assert(cs.subrange(0, 0) =~= Seq::<crate::comments::CommentV>::empty());
    while i < comments.len()
        invariant
            cs == crate::comments_store::refs_view(comments@),
            i <= cs.len(),
            out@.len() <= i,
            forall|k: int|
                0 <= k < out@.len() ==> (#[trigger] out@[k]).1 as nat == count_for(
                    cs.subrange(0, i as int),
                    context@,
                    out@[k].0@,
                ),
            forall|k: int| 0 <= k < out@.len() ==> (#[trigger] out@[k]).1 > 0,
            forall|a: int, b: int| 0 <= a < b < out@.len() ==> out@[a].0@ != out@[b].0@,
            forall|p: Seq<char>|
                count_for(cs.subrange(0, i as int), context@, p) > 0 ==> exists|k: int|
                    0 <= k < out@.len() && (#[trigger] out@[k]).0@ == p,
        decreases cs.len() - i,
    {
        let c = comments[i];
        let ghost pre = cs.subrange(0, i as int);
        proof {
            assert(cs.subrange(0, i + 1).drop_last() =~= pre);
            assert(cs[i as int] == c@);
        }
        if c.context.matches(context) {
            let path = c.path.as_str().to_owned();
            let pos = find_path_entry(&out, &path);
            let found = pos.is_some();
            let k: usize = match pos {
                Some(j) => j,
                None => 0,
            };
            if found {
                let ghost o0 = out@;
                let cnt = out[k].1;
                assert(cnt as nat == count_for(pre, context@, path@));
                proof {
                    lemma_count_for_bound(pre, context@, path@);
                }
                assert(cnt <= i);
                let p2 = out[k].0.clone();
                out.set(k, (p2, cnt + 1));
                proof {
                    assert forall|j: int| 0 <= j < out@.len() implies (#[trigger] out@[j]).1 as nat
                        == count_for(cs.subrange(0, i + 1), context@, out@[j].0@) by {
                        if j != k {
                            assert(out@[j] == o0[j]);
                            assert(o0[j].0@ != path@);
                        }
                    }
                    assert forall|p: Seq<char>|
                        #[trigger] count_for(cs.subrange(0, i + 1), context@, p) > 0 implies exists|j: int|
                        0 <= j < out@.len() && (#[trigger] out@[j]).0@ == p by {
                        if p == path@ {
                            assert(out@[k as int].0@ == p);
                        } else {
                            assert(count_for(pre, context@, p) > 0);
                            let j = choose|j: int| 0 <= j < o0.len() && (#[trigger] o0[j]).0@ == p;
                            assert(out@[j] == o0[j]);
                            assert(out@[j].0@ == p);
                        }
                    }
                }
            } else {
                let ghost o0 = out@;
                proof {
                    assert(count_for(pre, context@, path@) == 0) by {
                        if count_for(pre, context@, path@) > 0 {
                            let j = choose|j: int| 0 <= j < o0.len() && (#[trigger] o0[j]).0@
                                == path@;
                        }
                    }
                }
                out.push((path, 1));
                proof {
                    assert forall|j: int| 0 <= j < out@.len() implies (#[trigger] out@[j]).1 as nat
                        == count_for(cs.subrange(0, i + 1), context@, out@[j].0@) by {
                        if j < o0.len() {
                            assert(out@[j] == o0[j]);
                            assert(o0[j].0@ != c.path@);
                        }
                    }
                    assert forall|p: Seq<char>|
                        #[trigger] count_for(cs.subrange(0, i + 1), context@, p) > 0 implies exists|j: int|
                        0 <= j < out@.len() && (#[trigger] out@[j]).0@ == p by {
                        if p == c.path@ {
                            assert(out@[o0.len() as int].0@ == p);
                        } else {
                            assert(count_for(pre, context@, p) > 0);
                            let j = choose|j: int| 0 <= j < o0.len() && (#[trigger] o0[j]).0@ == p;
                            assert(out@[j] == o0[j]);
                            assert(out@[j].0@ == p);
                        }
                    }
                }
            }
        } else {
            proof {
                assert forall|p: Seq<char>| #[trigger]
                    count_for(cs.subrange(0, i + 1), context@, p) == count_for(pre, context@, p) by {}
            }
        }
        i = i + 1;
    }
    assert(cs.subrange(0, i as int) =~= cs);
    out
}

// ---------------------------------------------------------------------------
// The two sides of a patch
// ---------------------------------------------------------------------------

/// (inside a hunk, old lines, new lines) after the patch lines `ls`.
pub open spec fn patch_sides(ls: Seq<Seq<char>>) -> (bool, Seq<Seq<char>>, Seq<Seq<char>>)
    decreases ls.len(),
{
    if ls.len() == 0 {
        (false, Seq::empty(), Seq::empty())
    } else {
        let st = patch_sides(ls.drop_last());
        let line = ls.last();
        if has_prefix(line, "@@"@) {
            (true, st.1, st.2)
        } else if !st.0 {
            st
        } else if has_prefix(line, "-"@) && !has_prefix(line, "---"@) {
            (st.0, st.1.push(line.subrange(1, line.len() as int)), st.2)
        } else if has_prefix(line, "+"@) && !has_prefix(line, "+++"@) {
            (st.0, st.1, st.2.push(line.subrange(1, line.len() as int)))
        } else if has_prefix(line, " "@) || line.len() == 0 {
            let content = if line.len() > 0 {
                line.subrange(1, line.len() as int)
            } else {
                line
            };
            (st.0, st.1.push(content), st.2.push(content))
        } else {
            st
        }
    }
}

/// The old and new text a patch shows: the lines of its hunks, each side
/// joined with newlines.
pub open spec fn patch_contents(patch: Seq<char>) -> (Seq<char>, Seq<char>) {
    let st = patch_sides(lines_of(patch));
    (join(st.1, "\n"@), join(st.2, "\n"@))
}

fn join_lines(ls: &Vec<Vec<char>>) -> (r: String)
    ensures
        r@ == join(crate::pr_diff::lines_view(ls@), "\n"@),
{
    let ghost parts = crate::pr_diff::lines_view(ls@);
    let mut out: Vec<char> = Vec::new();
    let mut i: usize = 0;
    assert(parts.subrange(0, 0) =~= Seq::<Seq<char>>::empty());
    while i < ls.len()
        invariant
            parts == crate::pr_diff::lines_view(ls@),
            i <= parts.len(),
            out@ == join(parts.subrange(0, i as int), "\n"@),
        decreases parts.len() - i,
    {
        proof {
            let p1 = parts.subrange(0, i + 1);
            assert(p1.drop_last() =~= parts.subrange(0, i as int));
            assert(p1.last() == ls@[i as int]@);
            if i == 0 {
                assert(p1 =~= seq![ls@[0]@]);
            }
        }
        if i > 0 {
            push_str(&mut out, "\n");
        }
        push_all(&mut out, ls[i].as_slice());
        i = i + 1;
    }
    assert(parts.subrange(0, i as int) =~= parts);
    string_of(out.as_slice())
}

/// Extract old and new content from a unified diff patch.
///
/// This is a simplified extraction that reconstructs file content from
/// the patch hunks. Not perfect but good enough for diff display.
pub fn extract_content_from_patch(patch: &str) -> (r: (String, String))
    ensures
        (r.0@, r.1@) == patch_contents(patch@),
{
    let chars = chars_of(patch);
    let lines = split_lines(chars.as_slice());
    let ghost ls = lines_of(patch@);
    assert(crate::pr_diff::lines_view(lines@) =~= ls);
    let mut old_lines: Vec<Vec<char>> = Vec::new();
    let mut new_lines: Vec<Vec<char>> = Vec::new();
    let mut in_hunk = false;
    let mut i: usize = 0;
    assert(ls.subrange(0, 0) =~= Seq::<Seq<char>>::empty());
    while i < lines.len()
        invariant
            ls == crate::pr_diff::lines_view(lines@),
            i <= ls.len(),
            patch_sides(ls.subrange(0, i as int)) == (
                in_hunk,
                crate::pr_diff::lines_view(old_lines@),
                crate::pr_diff::lines_view(new_lines@),
            ),
        decreases ls.len() - i,
    {
        let line = lines[i].as_slice();
        proof {
            assert(ls.subrange(0, i + 1).drop_last() =~= ls.subrange(0, i as int));
            assert(ls.subrange(0, i + 1).last() == line@);
        }
        let ghost o0 = crate::pr_diff::lines_view(old_lines@);
        let ghost n0 = crate::pr_diff::lines_view(new_lines@);
        if starts_with_str(line, "@@") {
            in_hunk = true;
        } else if in_hunk {
            if starts_with_str(line, "-") && !starts_with_str(line, "---") {
                proof {
                    reveal_strlit("-");
                }
                old_lines.push(slice_to_vec(line, 1, line.len()));
                assert(crate::pr_diff::lines_view(old_lines@) =~= o0.push(
                    line@.subrange(1, line@.len() as int),
                ));
            } else if starts_with_str(line, "+") && !starts_with_str(line, "+++") {
                proof {
                    reveal_strlit("+");
                }
                new_lines.push(slice_to_vec(line, 1, line.len()));
                assert(crate::pr_diff::lines_view(new_lines@) =~= n0.push(
                    line@.subrange(1, line@.len() as int),
                ));
            } else if starts_with_str(line, " ") || line.len() == 0 {
                proof {
                    reveal_strlit(" ");
                }
                let content = if line.len() > 0 {
                    slice_to_vec(line, 1, line.len())
                } else {
                    slice_to_vec(line, 0, 0)
                };
                assert(line@.len() == 0 ==> content@ =~= line@);
                let ghost cv = content@;
                let copy = slice_to_vec(content.as_slice(), 0, content.len());
                assert(copy@ =~= cv);
                old_lines.push(copy);
                new_lines.push(content);
                assert(crate::pr_diff::lines_view(old_lines@) =~= o0.push(cv));
                assert(crate::pr_diff::lines_view(new_lines@) =~= n0.push(cv));
            }
        }
        i = i + 1;
    }
    assert(ls.subrange(0, i as int) =~= ls);
    (join_lines(&old_lines), join_lines(&new_lines))
}

} // verus!
