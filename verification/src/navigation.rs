//! What the viewer's keys do: moving through the file list and its filter,
//! picking a theme, scrolling the diff and jumping between hunks. Each is a
//! step from the view state (and what it shows) to the next view state.

use vstd::prelude::*;
use crate::comments::{anchor_summary, context_matches, digest_hunk_changed_rows, format_anchor_summary, hunk_digest,
    Comment, CommentContext, CommentStatus, CommentV, ContextV, Selector};
use crate::comments_store::refs_view;
use crate::diff::DiffResult;
use crate::strings::hex_digits;
use crate::fuzzy::{cands_view, scored, sorted_desc, FuzzyMatcher};
use crate::repo::ChangedFile;
use crate::strings::{chars_of, string_of, trim, trim_chars};
use crate::gh::{PRFilter, PullRequest};
use crate::view_state::{
    build_view_rows, hunk_rows, map_diff_row_to_view_row, CommentViewItem, CommentsState, DiffPaneMode, DiffViewMode,
    PrState, SidebarState, ViewerState,
};

verus! {

// ---------------------------------------------------------------------------
// Positions in index lists
// ---------------------------------------------------------------------------

/// `p` is the first position of `x` in `s`.
pub open spec fn first_pos(s: Seq<usize>, x: usize, p: int) -> bool {
    0 <= p < s.len() && s[p] == x && forall|j: int| 0 <= j < p ==> s[j] != x
}

pub proof fn lemma_first_pos_unique(s: Seq<usize>, x: usize, p: int, q: int)
    requires
        first_pos(s, x, p),
        first_pos(s, x, q),
    ensures
        p == q,
{
    if p < q {
        assert(s[p] != x);
    } else if q < p {
        assert(s[q] != x);
    }
}

/// The first position of `x` in `s`.
pub fn position_of(s: &[usize], x: usize) -> (r: Option<usize>)
    ensures
        r matches Some(p) ==> first_pos(s@, x, p as int),
        r is None ==> forall|j: int| 0 <= j < s@.len() ==> s@[j] != x,
{
    let mut i: usize = 0;
    while i < s.len()
        invariant
            i <= s@.len(),
            forall|j: int| 0 <= j < i ==> s@[j] != x,
        decreases s@.len() - i,
    {
        if s[i] == x {
            return Some(i);
        }
        i = i + 1;
    }
    None
}

// ---------------------------------------------------------------------------
// The file list
// ---------------------------------------------------------------------------

/// The file selected after moving up from `sel`: in the whole list the one
/// before it; in a filtered list the filtered entry before it. `None` when
/// the selection stays.
pub open spec fn prev_selection(sel: usize, filtered: Seq<usize>) -> Option<usize> {
    if filtered.len() == 0 {
        if sel > 0 {
            Some((sel - 1) as usize)
        } else {
            None
        }
    } else if exists|p: int| first_pos(filtered, sel, p) {
        let p = choose|p: int| first_pos(filtered, sel, p);
        if p > 0 {
            Some(filtered[p - 1])
        } else {
            None
        }
    } else {
        None
    }
}

/// The file selected after moving down from `sel` among `n` files.
pub open spec fn next_selection(sel: usize, filtered: Seq<usize>, n: nat) -> Option<usize> {
    if filtered.len() == 0 {
        if sel + 1 < n {
            Some((sel + 1) as usize)
        } else {
            None
        }
    } else if exists|p: int| first_pos(filtered, sel, p) {
        let p = choose|p: int| first_pos(filtered, sel, p);
        if p + 1 < filtered.len() {
            Some(filtered[p + 1])
        } else {
            None
        }
    } else {
        None
    }
}

/// The entries of `s` below `n`, in order.
pub open spec fn indices_below(s: Seq<usize>, n: nat) -> Seq<usize>
    decreases s.len(),
{
    if s.len() == 0 {
        s
    } else {
        let p = indices_below(s.drop_last(), n);
        if s.last() < n {
            p.push(s.last())
        } else {
            p
        }
    }
}

/// The indices of the files shown: all of them without a filter, else the
/// filter's entries that name a file, in the filter's order.
pub open spec fn visible_idx(filtered: Seq<usize>, n: nat) -> Seq<usize> {
    if filtered.len() == 0 {
        Seq::new(n, |i: int| i as usize)
    } else {
        indices_below(filtered, n)
    }
}

/// The sidebar keeps everything but its selection.
pub open spec fn same_list(a: SidebarState, b: SidebarState) -> bool {
    &&& a.visible == b.visible
    &&& a.scroll == b.scroll
    &&& a.filter@ == b.filter@
    &&& a.filtered_indices@ == b.filtered_indices@
}

impl SidebarState {
    /// Move selection up in the list; returns whether it moved.
    pub fn select_prev(&mut self) -> (moved: bool)
        ensures
            match prev_selection(old(self).selected_idx, old(self).filtered_indices@) {
                Some(n) => moved && final(self).selected_idx == n,
                None => !moved && final(self).selected_idx == old(self).selected_idx,
            },
            same_list(*final(self), *old(self)),
    {
        if self.filtered_indices.len() == 0 {
            if self.selected_idx > 0 {
                self.selected_idx = self.selected_idx - 1;
                return true;
            }
            return false;
        }
        match position_of(self.filtered_indices.as_slice(), self.selected_idx) {
            Some(p) => {
                proof {
                    let q = choose|q: int| first_pos(self.filtered_indices@, self.selected_idx, q);
                    lemma_first_pos_unique(self.filtered_indices@, self.selected_idx, p as int, q);
                }
                if p > 0 {
                    self.selected_idx = self.filtered_indices[p - 1];
                    true
                } else {
                    false
                }
            },
            None => false,
        }
    }

    /// Move selection down in a list of `file_count` files; returns whether
    /// it moved.
    pub fn select_next(&mut self, file_count: usize) -> (moved: bool)
        requires
            old(self).selected_idx < usize::MAX,
        ensures
            match next_selection(old(self).selected_idx, old(self).filtered_indices@, file_count as nat) {
                Some(n) => moved && final(self).selected_idx == n,
                None => !moved && final(self).selected_idx == old(self).selected_idx,
            },
            same_list(*final(self), *old(self)),
    {
        if self.filtered_indices.len() == 0 {
            if self.selected_idx + 1 < file_count {
                self.selected_idx = self.selected_idx + 1;
                return true;
            }
            return false;
        }
        match position_of(self.filtered_indices.as_slice(), self.selected_idx) {
            Some(p) => {
                proof {
                    let q = choose|q: int| first_pos(self.filtered_indices@, self.selected_idx, q);
                    lemma_first_pos_unique(self.filtered_indices@, self.selected_idx, p as int, q);
                }
                if p + 1 < self.filtered_indices.len() {
                    self.selected_idx = self.filtered_indices[p + 1];
                    true
                } else {
                    false
                }
            },
            None => false,
        }
    }

    /// The visible files (filtered or all), with their indices.
    pub fn visible_files<'a>(&self, files: &'a [ChangedFile]) -> (r: Vec<(usize, &'a ChangedFile)>)
        ensures
            r@.map_values(|p: (usize, &ChangedFile)| p.0) == visible_idx(
                self.filtered_indices@,
                files@.len(),
            ),
            forall|k: int| 0 <= k < r@.len() ==> r@[k].0 < files@.len() && *r@[k].1 == files@[r@[k].0 as int],
    {
        let mut out: Vec<(usize, &'a ChangedFile)> = Vec::new();
        if self.filtered_indices.len() == 0 {
            let mut i: usize = 0;
            while i < files.len()
                invariant
                    i <= files@.len(),
                    out@.map_values(|p: (usize, &ChangedFile)| p.0) == Seq::new(i as nat, |j: int| j as usize),
                    forall|k: int| 0 <= k < out@.len() ==> out@[k].0 < files@.len() && *out@[k].1 == files@[out@[k].0 as int],
                decreases files@.len() - i,
            {
                let ghost before = out@;
                out.push((i, &files[i]));
                assert(out@ =~= before.push((i, &files@[i as int])));
                assert(out@.map_values(|p: (usize, &ChangedFile)| p.0) =~= before.map_values(
                    |p: (usize, &ChangedFile)| p.0,
                ).push(i));
                assert(Seq::new((i + 1) as nat, |j: int| j as usize) =~= Seq::new(i as nat, |j: int| j as usize).push(i));
                i = i + 1;
            }
            return out;
        }
        let ghost f = self.filtered_indices@;
        let mut i: usize = 0;
        while i < self.filtered_indices.len()
            invariant
                f == self.filtered_indices@,
                i <= f.len(),
                out@.map_values(|p: (usize, &ChangedFile)| p.0) == indices_below(f.take(i as int), files@.len()),
                forall|k: int| 0 <= k < out@.len() ==> out@[k].0 < files@.len() && *out@[k].1 == files@[out@[k].0 as int],
            decreases f.len() - i,
        {
            let idx = self.filtered_indices[i];
            proof {
                assert(f.take(i + 1).drop_last() =~= f.take(i as int));
                assert(f.take(i + 1).last() == idx);
            }
            let ghost before = out@;
            if idx < files.len() {
                out.push((idx, &files[idx]));
                assert(out@.map_values(|p: (usize, &ChangedFile)| p.0) =~= before.map_values(
                    |p: (usize, &ChangedFile)| p.0,
                ).push(idx));
            }
            i = i + 1;
        }
        assert(f.take(i as int) =~= f);
        out
    }

    /// Whether the file at `idx` passes the filter.
    pub fn is_file_visible(&self, idx: usize) -> (r: bool)
        ensures
            r == (self.filtered_indices@.len() == 0 || self.filtered_indices@.contains(idx)),
    {
        if self.filtered_indices.len() == 0 {
            return true;
        }
        match position_of(self.filtered_indices.as_slice(), idx) {
            Some(p) => {
                assert(self.filtered_indices@[p as int] == idx);
                true
            },
            None => false,
        }
    }

    /// Start typing a filter: the query is emptied.
    pub fn start_filter(&mut self)
        ensures
            final(self).filter@.len() == 0,
            final(self).filtered_indices@ == old(self).filtered_indices@,
            final(self).selected_idx == old(self).selected_idx,
            final(self).visible == old(self).visible,
            final(self).scroll == old(self).scroll,
    {
        self.filter = String::new();
    }

    /// Cancel the filter: query and matches are emptied.
    pub fn cancel_filter(&mut self)
        ensures
            final(self).filter@.len() == 0,
            final(self).filtered_indices@.len() == 0,
            final(self).selected_idx == old(self).selected_idx,
    {
        self.filter = String::new();
        self.filtered_indices = Vec::new();
    }

    /// Clear an applied filter; returns whether there was one.
    pub fn clear_filter(&mut self) -> (r: bool)
        ensures
            r == (old(self).filtered_indices@.len() > 0),
            r ==> final(self).filter@.len() == 0 && final(self).filtered_indices@.len() == 0,
            !r ==> final(self).filter@ == old(self).filter@ && final(self).filtered_indices@.len() == 0,
            final(self).selected_idx == old(self).selected_idx,
    {
        if self.filtered_indices.len() > 0 {
            self.filtered_indices = Vec::new();
            self.filter = String::new();
            true
        } else {
            false
        }
    }

    /// Match the filter query against the candidates (index and path of
    /// each file); when the selection falls outside a non-empty result it
    /// moves to the best match. Returns whether the selection moved.
    pub fn recompute_filter(&mut self, matcher: &mut FuzzyMatcher, candidates: &[(usize, &str)]) -> (moved: bool)
        requires
            forall|k: int| 0 <= k < candidates@.len() ==> (#[trigger] candidates@[k]).1@.len() <= u32::MAX,
        ensures
            trim(old(self).filter@).len() == 0 ==> final(self).filtered_indices@.len() == 0,
            trim(old(self).filter@).len() > 0 ==> final(self).filtered_indices@ == sorted_desc(
                scored(trim(old(self).filter@), cands_view(candidates@)),
            ).map_values(|p: (usize, u32)| p.0),
            moved == (final(self).filtered_indices@.len() > 0 && !final(self).filtered_indices@.contains(
                old(self).selected_idx,
            )),
            moved ==> final(self).selected_idx == final(self).filtered_indices@[0],
            !moved ==> final(self).selected_idx == old(self).selected_idx,
            final(self).filter@ == old(self).filter@,
    {
        let q = trim_chars(chars_of(self.filter.as_str()).as_slice());
        if q.len() == 0 {
            self.filtered_indices = Vec::new();
            return false;
        }
        let query = string_of(q.as_slice());
        self.filtered_indices = matcher.filter_sorted(query.as_str(), candidates);
        if self.filtered_indices.len() > 0 && !self.is_file_visible(self.selected_idx) {
            self.selected_idx = self.filtered_indices[0];
            return true;
        }
        false
    }
}

/// The next file not yet viewed after position `cur` of `visible`, going
/// round: the smallest step `1..=len` whose file is not viewed (position
/// `cur + step`, less the length once it passes the end).
pub open spec fn next_unviewed_from(visible: Seq<usize>, viewed: Seq<bool>, cur: int, step: int) -> Option<usize>
    decreases visible.len() + 1 - step,
{
    if step < 1 || step > visible.len() {
        None
    } else {
        let j = cur + step;
        let idx = visible[if j < visible.len() { j } else { j - visible.len() }];
        if !viewed[idx as int] {
            Some(idx)
        } else {
            next_unviewed_from(visible, viewed, cur, step + 1)
        }
    }
}

/// Where to go after marking the selection viewed: the first unviewed file
/// after it among the visible ones (going round); `None` when all are viewed.
pub open spec fn next_unviewed_spec(visible: Seq<usize>, selected: usize, viewed: Seq<bool>) -> Option<usize> {
    let cur = if exists|p: int| first_pos(visible, selected, p) {
        choose|p: int| first_pos(visible, selected, p)
    } else {
        0
    };
    next_unviewed_from(visible, viewed, cur, 1)
}

/// The next unviewed file after `selected` among `visible` (whose viewed
/// flags, by file index, are `viewed`).
pub fn next_unviewed(visible: &[usize], selected: usize, viewed: &[bool]) -> (r: Option<usize>)
    requires
        forall|k: int| 0 <= k < visible@.len() ==> (#[trigger] visible@[k]) < viewed@.len(),
    ensures
        r == next_unviewed_spec(visible@, selected, viewed@),
{
    let cur = match position_of(visible, selected) {
        Some(p) => {
            proof {
                let q = choose|q: int| first_pos(visible@, selected, q);
                lemma_first_pos_unique(visible@, selected, p as int, q);
            }
            p
        },
        None => 0,
    };
    let n = visible.len();
    let mut k: usize = 0;
    while k < n
        invariant
            n == visible@.len(),
            k <= n,
            cur < n || n == 0,
            forall|m: int| 0 <= m < visible@.len() ==> (#[trigger] visible@[m]) < viewed@.len(),
            next_unviewed_spec(visible@, selected, viewed@) == next_unviewed_from(
                visible@,
                viewed@,
                cur as int,
                k + 1,
            ),
        decreases n - k,
    {
        let step = k + 1;
        let rest = n - cur;
        let pos = if step < rest {
            cur + step
        } else {
            step - rest
        };
        let idx = visible[pos];
        if !viewed[idx] {
            return Some(idx);
        }
        k = k + 1;
    }
    None
}

// ---------------------------------------------------------------------------
// The theme picker
// ---------------------------------------------------------------------------

/// The theme picker: the names listed and the one highlighted.
#[derive(Debug)]
pub struct ThemeSelector {
    /// Theme names offered.
    pub list: Vec<String>,
    /// Index of the highlighted name.
    pub idx: usize,
}

impl ThemeSelector {
    /// Open the picker on `list` with the current theme `current`
    /// highlighted (the first name when it is not listed).
    pub fn open(list: Vec<String>, current: &str) -> (r: Self)
        ensures
            r.list@ == list@,
            (exists|k: int| 0 <= k < list@.len() && list@[k]@ == current@) ==> r.list@[r.idx as int]@ == current@
                && forall|j: int| 0 <= j < r.idx ==> list@[j]@ != current@,
            !(exists|k: int| 0 <= k < list@.len() && list@[k]@ == current@) ==> r.idx == 0,
    {
        let mut i: usize = 0;
        while i < list.len()
            invariant
                i <= list@.len(),
                forall|j: int| 0 <= j < i ==> list@[j]@ != current@,
            decreases list@.len() - i,
        {
            if list[i].as_str().to_owned() == current.to_owned() {
                return ThemeSelector { list, idx: i };
            }
            i = i + 1;
        }
        ThemeSelector { list, idx: 0 }
    }

    /// Highlight the previous name; returns whether it moved.
    pub fn select_prev(&mut self) -> (moved: bool)
        ensures
            moved == (old(self).idx > 0),
            final(self).idx == (if moved { (old(self).idx - 1) as usize } else { old(self).idx }),
            final(self).list@ == old(self).list@,
    {
        if self.idx > 0 {
            self.idx = self.idx - 1;
            true
        } else {
            false
        }
    }

    /// Highlight the next name; returns whether it moved.
    pub fn select_next(&mut self) -> (moved: bool)
        ensures
            moved == (old(self).idx + 1 < old(self).list@.len()),
            final(self).idx == (if moved { (old(self).idx + 1) as usize } else { old(self).idx }),
            final(self).list@ == old(self).list@,
    {
        if self.idx < self.list.len() && self.list.len() - self.idx > 1 {
            self.idx = self.idx + 1;
            true
        } else {
            false
        }
    }

    /// The highlighted name.
    pub fn current(&self) -> (r: Option<&String>)
        ensures
            self.idx < self.list@.len() ==> r == Some(&self.list@[self.idx as int]),
            self.idx >= self.list@.len() ==> r is None,
    {
        if self.idx < self.list.len() {
            Some(&self.list[self.idx])
        } else {
            None
        }
    }
}

// ---------------------------------------------------------------------------
// The diff view
// ---------------------------------------------------------------------------

/// The first position in `rows` whose row is not below `d` (the length when
/// there is none).
pub open spec fn first_not_below(rows: Seq<usize>, d: usize) -> nat
    decreases rows.len(),
{
    if rows.len() == 0 {
        0
    } else if rows[0] >= d {
        0
    } else {
        1 + first_not_below(rows.drop_first(), d)
    }
}

proof fn lemma_first_not_below(rows: Seq<usize>, d: usize, k: int)
    requires
        0 <= k < rows.len(),
        forall|j: int| 0 <= j < k ==> rows[j] < d,
        rows[k] >= d || k == rows.len() - 1,
    ensures
        rows[k] >= d ==> first_not_below(rows, d) == k,
        rows[k] < d ==> first_not_below(rows, d) == rows.len(),
    decreases k,
{
    if k > 0 {
        assert forall|j: int| 0 <= j < k - 1 implies rows.drop_first()[j] < d by {
            assert(rows.drop_first()[j] == rows[j + 1]);
        }
        lemma_first_not_below(rows.drop_first(), d, k - 1);
    } else if rows[0] < d {
        assert(first_not_below(rows.drop_first(), d) == 0);
    }
}

/// The view row showing `diff_row` in hunks-only mode, for rows in order:
/// the first view row not below it, the last one when all are below.
pub open spec fn hunk_view_row(rows: Seq<usize>, d: usize) -> Option<usize> {
    if rows.len() == 0 {
        None
    } else {
        let k = first_not_below(rows, d);
        Some((if k < rows.len() { k } else { (rows.len() - 1) as nat }) as usize)
    }
}

/// Number of view rows in a mode.
pub open spec fn view_rows_of(v: ViewerState, diff: Option<&DiffResult>) -> nat {
    match diff {
        None => 0,
        Some(d) => match v.view_mode {
            DiffViewMode::FullFile => d.spec_rows().len(),
            DiffViewMode::HunksOnly => v.hunk_view_rows@.len(),
        },
    }
}

/// The diff row shown at a view row.
pub open spec fn diff_row_at(v: ViewerState, diff: Option<&DiffResult>, view_row: usize) -> Option<usize> {
    match diff {
        None => None,
        Some(d) => match v.view_mode {
            DiffViewMode::FullFile => if view_row < d.spec_rows().len() {
                Some(view_row)
            } else {
                None
            },
            DiffViewMode::HunksOnly => if view_row < v.hunk_view_rows@.len() {
                Some(v.hunk_view_rows@[view_row as int])
            } else {
                None
            },
        },
    }
}

/// Hunk `k` is the first one that starts after diff row `cur`.
pub open spec fn is_next_hunk(hs: Seq<crate::diff::Hunk>, cur: usize, k: int) -> bool {
    &&& 0 <= k < hs.len()
    &&& hs[k].start_row > cur
    &&& forall|j: int| 0 <= j < k ==> #[trigger] hs[j].start_row <= cur
}

/// Hunk `k` is the last one that starts before diff row `cur`.
pub open spec fn is_prev_hunk(hs: Seq<crate::diff::Hunk>, cur: usize, k: int) -> bool {
    &&& 0 <= k < hs.len()
    &&& hs[k].start_row < cur
    &&& forall|j: int| k < j < hs.len() ==> #[trigger] hs[j].start_row >= cur
}

/// The start row of the first hunk after `cur` (`forward`) or of the last
/// hunk before it, if there is one.
pub open spec fn hunk_start_from(hs: Seq<crate::diff::Hunk>, cur: usize, forward: bool) -> Option<usize> {
    if forward {
        if exists|k: int| is_next_hunk(hs, cur, k) {
            Some(hs[choose|k: int| is_next_hunk(hs, cur, k)].start_row)
        } else {
            None
        }
    } else {
        if exists|k: int| is_prev_hunk(hs, cur, k) {
            Some(hs[choose|k: int| is_prev_hunk(hs, cur, k)].start_row)
        } else {
            None
        }
    }
}

/// At most one hunk is the first after a row, and at most one the last
/// before it.
proof fn lemma_hunk_from_unique(hs: Seq<crate::diff::Hunk>, cur: usize, k1: int, k2: int)
    ensures
        is_next_hunk(hs, cur, k1) && is_next_hunk(hs, cur, k2) ==> k1 == k2,
        is_prev_hunk(hs, cur, k1) && is_prev_hunk(hs, cur, k2) ==> k1 == k2,
{
    if is_next_hunk(hs, cur, k1) && is_next_hunk(hs, cur, k2) {
        if k1 < k2 {
            assert(hs[k1].start_row <= cur);
        } else if k2 < k1 {
            assert(hs[k2].start_row <= cur);
        }
    }
    if is_prev_hunk(hs, cur, k1) && is_prev_hunk(hs, cur, k2) {
        if k1 < k2 {
            assert(hs[k2].start_row >= cur);
        } else if k2 < k1 {
            assert(hs[k1].start_row >= cur);
        }
    }
}

/// The view row that shows diff row `row` (in hunks-only mode, the first
/// view row not above it, the last when it is past them all).
pub open spec fn view_row_for(v: ViewerState, d: &DiffResult, row: usize) -> Option<usize> {
    match v.view_mode {
        DiffViewMode::FullFile => if row < d.spec_rows().len() {
            Some(row)
        } else {
            None
        },
        DiffViewMode::HunksOnly => hunk_view_row(v.hunk_view_rows@, row),
    }
}

/// The view rows are laid out in diff order (always so in full-file mode).
pub open spec fn rows_in_order(v: ViewerState) -> bool {
    v.view_mode == DiffViewMode::FullFile || crate::view_state::sorted_rows(v.hunk_view_rows@)
}

/// Where a jump to the next (`forward`) or previous hunk from the top row
/// lands: the view row of that hunk's start, if there is such a hunk.
pub open spec fn hunk_jump(v: ViewerState, d: &DiffResult, forward: bool) -> Option<usize> {
    match diff_row_at(v, Some(d), v.scroll_y) {
        None => None,
        Some(cur) => match hunk_start_from(d.spec_hunks(), cur, forward) {
            None => None,
            Some(row) => view_row_for(v, d, row),
        },
    }
}

impl ViewerState {
    /// Number of view rows.
    pub fn view_row_count(&self, diff: Option<&DiffResult>) -> (r: usize)
        ensures
            r == view_rows_of(*self, diff),
    {
        match diff {
            None => 0,
            Some(d) => match self.view_mode {
                DiffViewMode::FullFile => d.row_count(),
                DiffViewMode::HunksOnly => self.hunk_view_rows.len(),
            },
        }
    }

    /// The diff row shown at `view_row`.
    pub fn view_row_to_diff_row(&self, diff: Option<&DiffResult>, view_row: usize) -> (r: Option<usize>)
        ensures
            r == diff_row_at(*self, diff, view_row),
    {
        match diff {
            None => None,
            Some(d) => match self.view_mode {
                DiffViewMode::FullFile => if view_row < d.row_count() {
                    Some(view_row)
                } else {
                    None
                },
                DiffViewMode::HunksOnly => if view_row < self.hunk_view_rows.len() {
                    Some(self.hunk_view_rows[view_row])
                } else {
                    None
                },
            },
        }
    }

    /// The view row showing `diff_row` (in hunks-only mode the nearest one
    /// at or after it, the last when it is past them all).
    pub fn diff_row_to_view_row(&self, diff: Option<&DiffResult>, diff_row: usize) -> (r: Option<usize>)
        ensures
            self.view_mode == DiffViewMode::FullFile ==> r == (match diff {
                Some(d) => if diff_row < d.spec_rows().len() {
                    Some(diff_row)
                } else {
                    None
                },
                None => None,
            }),
            self.view_mode == DiffViewMode::HunksOnly && crate::view_state::sorted_rows(self.hunk_view_rows@)
                ==> r == hunk_view_row(self.hunk_view_rows@, diff_row),
            self.view_mode == DiffViewMode::HunksOnly ==> (r is None <==> self.hunk_view_rows@.len() == 0),
            self.view_mode == DiffViewMode::HunksOnly ==> (r matches Some(k) ==> k < self.hunk_view_rows@.len()),
    {
        match self.view_mode {
            DiffViewMode::FullFile => match diff {
                Some(d) => if diff_row < d.row_count() {
                    Some(diff_row)
                } else {
                    None
                },
                None => None,
            },
            DiffViewMode::HunksOnly => {
                let r = map_diff_row_to_view_row(self.hunk_view_rows.as_slice(), diff_row);
                proof {
                    if self.hunk_view_rows@.len() > 0 && crate::view_state::sorted_rows(self.hunk_view_rows@) {
                        lemma_first_not_below(self.hunk_view_rows@, diff_row, r->0 as int);
                    }
                }
                r
            },
        }
    }

    /// Scroll by `delta_y` rows and `delta_x` columns (vertical scrolling
    /// stops at the last view row); returns whether anything moved.
    pub fn scroll(&mut self, diff: Option<&DiffResult>, delta_y: isize, delta_x: isize) -> (changed: bool)
        requires
            delta_y >= 0 ==> old(self).scroll_y + delta_y <= usize::MAX,
            delta_x >= 0 ==> old(self).scroll_x + delta_x <= usize::MAX,
            delta_y > isize::MIN,
            delta_x > isize::MIN,
        ensures
            final(self).scroll_y == (if delta_y < 0 {
                if old(self).scroll_y >= -delta_y { old(self).scroll_y + delta_y } else { 0 }
            } else if view_rows_of(*old(self), diff) == 0 {
                0
            } else if old(self).scroll_y + delta_y < view_rows_of(*old(self), diff) - 1 {
                old(self).scroll_y + delta_y
            } else {
                view_rows_of(*old(self), diff) - 1
            }),
            final(self).scroll_x == (if delta_x < 0 {
                if old(self).scroll_x >= -delta_x { old(self).scroll_x + delta_x } else { 0 }
            } else {
                old(self).scroll_x + delta_x
            }),
            changed == (final(self).scroll_y != old(self).scroll_y || final(self).scroll_x != old(self).scroll_x),
            final(self).view_mode == old(self).view_mode,
            final(self).hunk_view_rows@ == old(self).hunk_view_rows@,
    {
        let old_y = self.scroll_y;
        let old_x = self.scroll_x;
        if delta_y < 0 {
            let up = (-delta_y) as usize;
            self.scroll_y = self.scroll_y.saturating_sub(up);
        } else {
            let max_scroll = self.view_row_count(diff);
            if max_scroll == 0 {
                self.scroll_y = 0;
            } else {
                let target = self.scroll_y + delta_y as usize;
                self.scroll_y = if target < max_scroll - 1 {
                    target
                } else {
                    max_scroll - 1
                };
            }
        }
        if delta_x < 0 {
            let left = (-delta_x) as usize;
            self.scroll_x = self.scroll_x.saturating_sub(left);
        } else {
            self.scroll_x = self.scroll_x + delta_x as usize;
        }
        self.scroll_y != old_y || self.scroll_x != old_x
    }

    /// Switch between hunks-only and full-file views, keeping the diff row
    /// at the top in view where it can be.
    pub fn toggle_view_mode(&mut self, diff: Option<&DiffResult>)
        ensures
            final(self).view_mode == (match old(self).view_mode {
                DiffViewMode::HunksOnly => DiffViewMode::FullFile,
                DiffViewMode::FullFile => DiffViewMode::HunksOnly,
            }),
            final(self).hunk_view_rows@ == (match diff {
                Some(d) => if final(self).view_mode == DiffViewMode::HunksOnly {
                    hunk_rows(d.spec_hunks())
                } else {
                    Seq::<usize>::empty()
                },
                None => Seq::<usize>::empty(),
            }),
            final(self).view_mode == DiffViewMode::FullFile ==> final(self).scroll_y == (match diff_row_at(
                *old(self),
                diff,
                old(self).scroll_y,
            ) {
                Some(row) => match diff {
                    Some(d) => if row < d.spec_rows().len() { row } else { 0 },
                    None => 0,
                },
                None => 0,
            }),
    {
        let current_row = self.view_row_to_diff_row(diff, self.scroll_y);
        self.view_mode = match self.view_mode {
            DiffViewMode::HunksOnly => DiffViewMode::FullFile,
            DiffViewMode::FullFile => DiffViewMode::HunksOnly,
        };
        self.hunk_view_rows = match diff {
            Some(d) => build_view_rows(d, self.view_mode),
            None => Vec::new(),
        };
        self.scroll_y = match current_row {
            Some(row) => match self.diff_row_to_view_row(diff, row) {
                Some(v) => v,
                None => 0,
            },
            None => 0,
        };
    }

    /// Jump to the next hunk below the top row; returns whether it moved.
    pub fn next_hunk(&mut self, diff: &DiffResult) -> (moved: bool)
        ensures
            moved == hunk_jump(*old(self), diff, true) is Some,
            *final(self) == (ViewerState { scroll_y: final(self).scroll_y, ..*old(self) }),
            !moved ==> final(self).scroll_y == old(self).scroll_y,
            moved ==> final(self).scroll_y < view_rows_of(*old(self), Some(diff)),
            moved && rows_in_order(*old(self)) ==> final(self).scroll_y == hunk_jump(*old(self), diff, true)->0,
    {
        let current = match self.view_row_to_diff_row(Some(diff), self.scroll_y) {
            Some(r) => r,
            None => {
                return false;
            },
        };
        let target = diff.next_hunk_row(current);
        proof {
            let hs = diff.spec_hunks();
            match target {
                Some(x) => {
                    let k = choose|k: int| 0 <= k < hs.len() && hs[k].start_row == x && x > current && forall|j: int| 0 <= j < k ==> #[trigger] hs[j].start_row <= current;
                    assert(is_next_hunk(hs, current, k));
                    let c = choose|k: int| is_next_hunk(hs, current, k);
                    lemma_hunk_from_unique(hs, current, k, c);
                    assert(hunk_start_from(hs, current, true) == Some(x));
                },
                None => {
                    assert forall|k: int| !is_next_hunk(hs, current, k) by {
                        if 0 <= k < hs.len() {
                            assert(hs[k].start_row == hs[k].start_row);
                        }
                    }
                },
            }
        }
        match target {
            Some(row) => match self.diff_row_to_view_row(Some(diff), row) {
                Some(v) => {
                    self.scroll_y = v;
                    true
                },
                None => false,
            },
            None => false,
        }
    }

    /// Jump to the previous hunk above the top row; returns whether it moved.
    pub fn prev_hunk(&mut self, diff: &DiffResult) -> (moved: bool)
        ensures
            moved == hunk_jump(*old(self), diff, false) is Some,
            *final(self) == (ViewerState { scroll_y: final(self).scroll_y, ..*old(self) }),
            !moved ==> final(self).scroll_y == old(self).scroll_y,
            moved ==> final(self).scroll_y < view_rows_of(*old(self), Some(diff)),
            moved && rows_in_order(*old(self)) ==> final(self).scroll_y == hunk_jump(*old(self), diff, false)->0,
    {
        let current = match self.view_row_to_diff_row(Some(diff), self.scroll_y) {
            Some(r) => r,
            None => {
                return false;
            },
        };
        let target = diff.prev_hunk_row(current);
        proof {
            let hs = diff.spec_hunks();
            match target {
                Some(x) => {
                    let k = choose|k: int| 0 <= k < hs.len() && hs[k].start_row == x && x < current && forall|j: int| k < j < hs.len() ==> #[trigger] hs[j].start_row >= current;
                    assert(is_prev_hunk(hs, current, k));
                    let c = choose|k: int| is_prev_hunk(hs, current, k);
                    lemma_hunk_from_unique(hs, current, k, c);
                    assert(hunk_start_from(hs, current, false) == Some(x));
                },
                None => {
                    assert forall|k: int| !is_prev_hunk(hs, current, k) by {
                        if 0 <= k < hs.len() {
                            assert(hs[k].start_row == hs[k].start_row);
                        }
                    }
                },
            }
        }
        match target {
            Some(row) => match self.diff_row_to_view_row(Some(diff), row) {
                Some(v) => {
                    self.scroll_y = v;
                    true
                },
                None => false,
            },
            None => false,
        }
    }

    /// The hunk at the top row as (1-based index, number of hunks).
    pub fn current_hunk_info(&self, diff: Option<&DiffResult>) -> (r: Option<(usize, usize)>)
        ensures
            r matches Some((i, n)) ==> (diff matches Some(d) && n == d.spec_hunks().len() && 1 <= i <= n
                && (diff_row_at(*self, diff, self.scroll_y) matches Some(row) && d.spec_hunks()[i - 1].start_row
                <= row < d.spec_hunks()[i - 1].start_row + d.spec_hunks()[i - 1].row_count)),
            r is None ==> (diff is None || diff->0.spec_hunks().len() == 0 || diff_row_at(*self, diff, self.scroll_y) is None
                || forall|k: int| 0 <= k < diff->0.spec_hunks().len() ==> !(#[trigger] diff->0.spec_hunks()[k].start_row
                    <= diff_row_at(*self, diff, self.scroll_y)->0 < diff->0.spec_hunks()[k].start_row
                    + diff->0.spec_hunks()[k].row_count)),
    {
        let d = match diff {
            Some(d) => d,
            None => {
                return None;
            },
        };
        let n = d.hunks().len();
        if n == 0 {
            return None;
        }
        let row = match self.view_row_to_diff_row(diff, self.scroll_y) {
            Some(r) => r,
            None => {
                return None;
            },
        };
        match d.hunk_at_row(row) {
            Some(k) => Some((k + 1, n)),
            None => None,
        }
    }

    /// Show the old pane alone, or both again.
    pub fn toggle_old_fullscreen(&mut self)
        ensures
            final(self).pane_mode == (if old(self).pane_mode == DiffPaneMode::OldOnly {
                DiffPaneMode::Both
            } else {
                DiffPaneMode::OldOnly
            }),
    {
        self.pane_mode = match self.pane_mode {
            DiffPaneMode::OldOnly => DiffPaneMode::Both,
            _ => DiffPaneMode::OldOnly,
        };
    }

    /// Show the new pane alone, or both again.
    pub fn toggle_new_fullscreen(&mut self)
        ensures
            final(self).pane_mode == (if old(self).pane_mode == DiffPaneMode::NewOnly {
                DiffPaneMode::Both
            } else {
                DiffPaneMode::NewOnly
            }),
    {
        self.pane_mode = match self.pane_mode {
            DiffPaneMode::NewOnly => DiffPaneMode::Both,
            _ => DiffPaneMode::NewOnly,
        };
    }
}

// ---------------------------------------------------------------------------
// The comment list and the pull request picker
// ---------------------------------------------------------------------------

impl CommentsState {
    /// Select the next comment in the list (staying on the last).
    pub fn select_next(&mut self)
        ensures
            old(self).viewing@.len() == 0 ==> final(self).selected == old(self).selected,
            old(self).viewing@.len() > 0 ==> final(self).selected == (if old(self).selected + 1
                < old(self).viewing@.len() {
                old(self).selected + 1
            } else {
                old(self).viewing@.len() - 1
            }),
            final(self).viewing@ == old(self).viewing@,
    {
        if self.viewing.len() == 0 {
            return;
        }
        let last = self.viewing.len() - 1;
        self.selected = if self.selected < last {
            self.selected + 1
        } else {
            last
        };
    }

    /// Select the previous comment in the list (staying on the first).
    pub fn select_prev(&mut self)
        ensures
            final(self).selected == (if old(self).selected > 0 {
                old(self).selected - 1
            } else {
                0
            }),
            final(self).viewing@ == old(self).viewing@,
    {
        self.selected = self.selected.saturating_sub(1);
    }
}

/// The filter after `f` in the picker's cycle: all, mine, review requested.
pub open spec fn next_filter(f: PRFilter) -> PRFilter {
    match f {
        PRFilter::All => PRFilter::Mine,
        PRFilter::Mine => PRFilter::ReviewRequested,
        PRFilter::ReviewRequested => PRFilter::All,
    }
}

/// The filter before `f` in the picker's cycle.
pub open spec fn prev_filter(f: PRFilter) -> PRFilter {
    match f {
        PRFilter::All => PRFilter::ReviewRequested,
        PRFilter::Mine => PRFilter::All,
        PRFilter::ReviewRequested => PRFilter::Mine,
    }
}

/// Going forward then back through the filters returns to the start.
pub proof fn lemma_filter_cycle(f: PRFilter)
    ensures
        prev_filter(next_filter(f)) == f,
        next_filter(prev_filter(f)) == f,
        next_filter(next_filter(next_filter(f))) == f,
{
}

impl PrState {
    /// Highlight the next pull request (staying on the last).
    pub fn picker_next(&mut self)
        ensures
            old(self).list@.len() == 0 ==> final(self).picker_selected == old(self).picker_selected,
            old(self).list@.len() > 0 ==> final(self).picker_selected == (if old(self).picker_selected + 1
                < old(self).list@.len() {
                old(self).picker_selected + 1
            } else {
                old(self).list@.len() - 1
            }),
            final(self).filter == old(self).filter,
    {
        if self.list.len() == 0 {
            return;
        }
        let last = self.list.len() - 1;
        self.picker_selected = if self.picker_selected < last {
            self.picker_selected + 1
        } else {
            last
        };
    }

    /// Highlight the previous pull request (staying on the first).
    pub fn picker_prev(&mut self)
        ensures
            final(self).picker_selected == (if old(self).picker_selected > 0 {
                old(self).picker_selected - 1
            } else {
                0
            }),
            final(self).filter == old(self).filter,
    {
        self.picker_selected = self.picker_selected.saturating_sub(1);
    }

    /// Switch to the next filter; the highlight goes back to the top.
    pub fn picker_next_filter(&mut self)
        ensures
            final(self).filter == next_filter(old(self).filter),
            final(self).picker_selected == 0,
    {
        self.filter = match self.filter {
            PRFilter::All => PRFilter::Mine,
            PRFilter::Mine => PRFilter::ReviewRequested,
            PRFilter::ReviewRequested => PRFilter::All,
        };
        self.picker_selected = 0;
    }

    /// Switch to the previous filter; the highlight goes back to the top.
    pub fn picker_prev_filter(&mut self)
        ensures
            final(self).filter == prev_filter(old(self).filter),
            final(self).picker_selected == 0,
    {
        self.filter = match self.filter {
            PRFilter::All => PRFilter::ReviewRequested,
            PRFilter::Mine => PRFilter::All,
            PRFilter::ReviewRequested => PRFilter::Mine,
        };
        self.picker_selected = 0;
    }

    /// The highlighted pull request, if the list has one there.
    pub fn picker_choice(&self) -> (r: Option<&PullRequest>)
        ensures
            self.picker_selected < self.list@.len() ==> r == Some(&self.list@[self.picker_selected as int]),
            self.picker_selected >= self.list@.len() ==> r is None,
    {
        if self.picker_selected < self.list.len() {
            Some(&self.list[self.picker_selected])
        } else {
            None
        }
    }
}

// ---------------------------------------------------------------------------
// Comments on the shown diff
// ---------------------------------------------------------------------------

/// Each hunk's digest with its index and start row, in hunk order.
pub open spec fn hunk_digest_entries(rows: Seq<crate::diff::RowV>, hs: Seq<crate::diff::Hunk>) -> Seq<(Seq<char>, usize, usize)> {
    Seq::new(
        hs.len(),
        |k: int| (hex_digits(hunk_digest(rows, hs[k]) as nat, 16), k as usize, hs[k].start_row),
    )
}

/// The digest of each hunk of `diff`, with the hunk's index and start row.
pub fn hunk_digests(diff: &DiffResult) -> (r: Vec<(String, usize, usize)>)
    ensures
        digest_entries(r@) == hunk_digest_entries(diff.spec_rows(), diff.spec_hunks()),
{
    let hunks = diff.hunks();
    let total = diff.row_count();
    let ghost n = diff.spec_rows().len();
    let mut out: Vec<(String, usize, usize)> = Vec::new();
    let mut k: usize = 0;
    while k < hunks.len()
        invariant
            total == n,
            hunks@ == diff.spec_hunks(),
            crate::diff::hunks_well_placed(hunks@, n),
            n == diff.spec_rows().len(),
            k <= hunks@.len(),
            digest_entries(out@) == hunk_digest_entries(diff.spec_rows(), diff.spec_hunks()).take(k as int),
        decreases hunks@.len() - k,
    {
        let h = &hunks[k];
        assert(hunks@[k as int].start_row + hunks@[k as int].row_count <= n);
        let d = digest_hunk_changed_rows(diff, h);
        let ghost before = digest_entries(out@);
        out.push((d, k, h.start_row));
        assert(digest_entries(out@) =~= before.push((d@, k, h.start_row)));
        assert(hunk_digest_entries(diff.spec_rows(), diff.spec_hunks()).take(k + 1) =~= hunk_digest_entries(
            diff.spec_rows(),
            diff.spec_hunks(),
        ).take(k as int).push((d@, k, h.start_row)));
        k = k + 1;
    }
    assert(hunk_digest_entries(diff.spec_rows(), diff.spec_hunks()).take(k as int) =~= hunk_digest_entries(
        diff.spec_rows(),
        diff.spec_hunks(),
    ));
    out
}

/// Views of digest entries.
pub open spec fn digest_entries(v: Seq<(String, usize, usize)>) -> Seq<(Seq<char>, usize, usize)> {
    v.map_values(|e: (String, usize, usize)| (e.0@, e.1, e.2))
}

/// The entry of the last hunk with digest `d` (a later hunk with the same
/// digest takes the place of an earlier one).
pub open spec fn hunk_for_digest(es: Seq<(Seq<char>, usize, usize)>, d: Seq<char>) -> Option<(usize, usize)>
    decreases es.len(),
{
    if es.len() == 0 {
        None
    } else if es.last().0 == d {
        Some((es.last().1, es.last().2))
    } else {
        hunk_for_digest(es.drop_last(), d)
    }
}

fn find_hunk(es: &Vec<(String, usize, usize)>, d: &String) -> (r: Option<(usize, usize)>)
    ensures
        r == hunk_for_digest(digest_entries(es@), d@),
{
    let mut k: usize = es.len();
    assert(digest_entries(es@).take(k as int) =~= digest_entries(es@));
    while k > 0
        invariant
            k <= es@.len(),
            hunk_for_digest(digest_entries(es@), d@) == hunk_for_digest(digest_entries(es@).take(k as int), d@),
        decreases k,
    {
        let ghost pre = digest_entries(es@).take(k as int);
        assert(pre.drop_last() =~= digest_entries(es@).take(k - 1));
        assert(pre.last() == (es@[k - 1].0@, es@[k - 1].1, es@[k - 1].2));
        if es[k - 1].0 == *d {
            return Some((es[k - 1].1, es[k - 1].2));
        }
        k = k - 1;
    }
    None
}

/// Selector `s` of comment `c` names the hunk at index `k`.
pub open spec fn anchors_hunk(es: Seq<(Seq<char>, usize, usize)>, c: CommentV, s: int, k: usize) -> bool {
    0 <= s < c.anchor.len() && (hunk_for_digest(es, c.anchor[s].digest) matches Some(h) && h.0 == k)
}

/// The hunks (by index) that some comment of context `ctx` is anchored to.
pub open spec fn commented(es: Seq<(Seq<char>, usize, usize)>, cs: Seq<CommentV>, ctx: ContextV) -> Set<usize> {
    Set::new(
        |k: usize|
            exists|c: int, s: int|
                0 <= c < cs.len() && context_matches(cs[c].context, ctx) && #[trigger] anchors_hunk(es, cs[c], s, k),
    )
}

/// The hunks the comments of context `ctx` are anchored to, each once.
pub fn commented_hunks(digests: &Vec<(String, usize, usize)>, comments: &Vec<&Comment>, ctx: &CommentContext) -> (r: Vec<usize>)
    ensures
        r@.to_set() == commented(digest_entries(digests@), refs_view(comments@), ctx@),
        r@.no_duplicates(),
{
    let ghost es = digest_entries(digests@);
    let ghost cs = refs_view(comments@);
    let mut out: Vec<usize> = Vec::new();
    let mut c: usize = 0;
    while c < comments.len()
        invariant
            es == digest_entries(digests@),
            cs == refs_view(comments@),
            c <= cs.len(),
            out@.no_duplicates(),
            forall|k: usize| #[trigger] out@.contains(k) <==> exists|c2: int, s: int|
                0 <= c2 < c && context_matches(cs[c2].context, ctx@) && #[trigger] anchors_hunk(es, cs[c2], s, k),
        decreases cs.len() - c,
    {
        let cm = comments[c];
        assert(cs[c as int] == cm@);
        if cm.context.matches(ctx) {
            let mut s: usize = 0;
            while s < cm.anchor.selectors.len()
                invariant
                    es == digest_entries(digests@),
                    cs == refs_view(comments@),
                    c < cs.len(),
                    cs[c as int] == cm@,
                    context_matches(cm@.context, ctx@),
                    s <= cm@.anchor.len(),
                    cm@.anchor.len() == cm.anchor.selectors@.len(),
                    out@.no_duplicates(),
                    forall|k: usize| #[trigger] out@.contains(k) <==> (exists|c2: int, s2: int|
                        0 <= c2 < c && context_matches(cs[c2].context, ctx@) && #[trigger] anchors_hunk(es, cs[c2], s2, k))
                        || (exists|s2: int| 0 <= s2 < s && #[trigger] anchors_hunk(es, cm@, s2, k)),
                decreases cm@.anchor.len() - s,
            {
                let sel = &cm.anchor.selectors[s];
                assert(cm@.anchor[s as int] == sel@);
                let d = match sel {
                    Selector::DiffHunkV1(h) => &h.digest_hex,
                };
                let found = find_hunk(digests, d);
                let ghost before = out@;
                proof {
                    assert(d@ == cm@.anchor[s as int].digest);
                }
                match found {
                    Some((idx, _)) => {
                        if !vec_contains(&out, idx) {
                            out.push(idx);
                            proof {
                                assert forall|k: usize| out@.contains(k) <==> (before.contains(k) || k == idx) by {
                                    if out@.contains(k) {
                                        let j = choose|j: int| 0 <= j < out@.len() && out@[j] == k;
                                        if j < before.len() {
                                            assert(before[j] == k);
                                        }
                                    }
                                    if before.contains(k) {
                                        let j = choose|j: int| 0 <= j < before.len() && before[j] == k;
                                        assert(out@[j] == k);
                                    }
                                    if k == idx {
                                        assert(out@[before.len() as int] == k);
                                    }
                                }
                                assert forall|a: int, b: int| 0 <= a < b < out@.len() implies out@[a] != out@[b] by {
                                    if b == before.len() {
                                        assert(before[a] == out@[a]);
                                    }
                                }
                            }
                        }
                    },
                    None => {},
                }
                proof {
                    assert forall|k: usize| #[trigger] out@.contains(k) <==> (exists|c2: int, s2: int|
                        0 <= c2 < c && context_matches(cs[c2].context, ctx@) && #[trigger] anchors_hunk(es, cs[c2], s2, k))
                        || (exists|s2: int| 0 <= s2 < s + 1 && #[trigger] anchors_hunk(es, cm@, s2, k)) by {
                        let here = anchors_hunk(es, cm@, s as int, k);
                        assert(here <==> (found matches Some(p) && p.0 == k));
                        assert(out@.contains(k) <==> (before.contains(k) || here));
                        if exists|s2: int| 0 <= s2 < s + 1 && #[trigger] anchors_hunk(es, cm@, s2, k) {
                            let s2 = choose|s2: int| 0 <= s2 < s + 1 && #[trigger] anchors_hunk(es, cm@, s2, k);
                            if s2 < s {
                                assert(before.contains(k));
                            }
                        }
                        if here {
                            assert(0 <= s < s + 1 && anchors_hunk(es, cm@, s as int, k));
                        }
                    }
                }
                s = s + 1;
            }
            proof {
                assert forall|k: usize| #[trigger] out@.contains(k) <==> exists|c2: int, s2: int|
                    0 <= c2 < c + 1 && context_matches(cs[c2].context, ctx@) && #[trigger] anchors_hunk(es, cs[c2], s2, k) by {
                    if exists|s2: int| 0 <= s2 < s && #[trigger] anchors_hunk(es, cm@, s2, k) {
                        let s2 = choose|s2: int| 0 <= s2 < s && #[trigger] anchors_hunk(es, cm@, s2, k);
                        assert(anchors_hunk(es, cs[c as int], s2, k));
                    }
                    if exists|c2: int, s2: int|
                        0 <= c2 < c + 1 && context_matches(cs[c2].context, ctx@) && #[trigger] anchors_hunk(es, cs[c2], s2, k) {
                        let (c2, s2) = choose|c2: int, s2: int|
                            0 <= c2 < c + 1 && context_matches(cs[c2].context, ctx@) && #[trigger] anchors_hunk(es, cs[c2], s2, k);
                        if c2 == c {
                            assert(anchors_hunk(es, cm@, s2, k));
                        }
                    }
                }
            }
        } else {
            proof {
                assert forall|k: usize| #[trigger] out@.contains(k) <==> exists|c2: int, s2: int|
                    0 <= c2 < c + 1 && context_matches(cs[c2].context, ctx@) && #[trigger] anchors_hunk(es, cs[c2], s2, k) by {
                    if exists|c2: int, s2: int|
                        0 <= c2 < c + 1 && context_matches(cs[c2].context, ctx@) && #[trigger] anchors_hunk(es, cs[c2], s2, k) {
                        let (c2, s2) = choose|c2: int, s2: int|
                            0 <= c2 < c + 1 && context_matches(cs[c2].context, ctx@) && #[trigger] anchors_hunk(es, cs[c2], s2, k);
                        assert(c2 != c);
                    }
                }
            }
        }
        c = c + 1;
    }
    proof {
        assert forall|k: usize| out@.to_set().contains(k) <==> commented(es, cs, ctx@).contains(k) by {
            assert(out@.to_set().contains(k) == out@.contains(k));
        }
        assert(out@.to_set() =~= commented(es, cs, ctx@));
    }
    out
}

fn vec_contains(v: &Vec<usize>, x: usize) -> (r: bool)
    ensures
        r == v@.contains(x),
{
    let mut i: usize = 0;
    while i < v.len()
        invariant
            i <= v@.len(),
            forall|j: int| 0 <= j < i ==> v@[j] != x,
        decreases v@.len() - i,
    {
        if v[i] == x {
            assert(v@[i as int] == x);
            return true;
        }
        i = i + 1;
    }
    false
}

// ---------------------------------------------------------------------------
// The comments overlay
// ---------------------------------------------------------------------------

/// A listed comment as values: id, status, message, anchor summary, start
/// row of its hunk, and whether its anchor no longer matches a hunk.
pub open spec fn item_view(i: CommentViewItem) -> (u64, CommentStatus, Seq<char>, Seq<char>, Option<usize>, bool) {
    (i.id, i.status, i.message@, i.anchor_summary@, i.hunk_start_row, i.stale)
}

/// Views of listed comments.
pub open spec fn items_view(v: Seq<CommentViewItem>) -> Seq<(u64, CommentStatus, Seq<char>, Seq<char>, Option<usize>, bool)> {
    v.map_values(|i: CommentViewItem| item_view(i))
}

/// Where a comment's first selector lands: the start row of the hunk with
/// its digest; stale when the diff has hunks and none has that digest.
pub open spec fn anchor_place(es: Seq<(Seq<char>, usize, usize)>, c: CommentV) -> (Option<usize>, bool) {
    if c.anchor.len() == 0 {
        (None, false)
    } else {
        match hunk_for_digest(es, c.anchor[0].digest) {
            Some(h) => (Some(h.1), false),
            None => (None, es.len() > 0),
        }
    }
}

/// The listed form of a comment.
pub open spec fn comment_item(es: Seq<(Seq<char>, usize, usize)>, c: CommentV) -> (u64, CommentStatus, Seq<char>, Seq<char>, Option<usize>, bool) {
    let place = anchor_place(es, c);
    (c.id, c.status, c.message, anchor_summary(c.anchor), place.0, place.1)
}

/// Open comments come first, then by id.
pub open spec fn item_before(a: (u64, CommentStatus, Seq<char>, Seq<char>, Option<usize>, bool), b: (u64, CommentStatus, Seq<char>, Seq<char>, Option<usize>, bool)) -> bool {
    let ra = a.1 != CommentStatus::Open;
    let rb = b.1 != CommentStatus::Open;
    (!ra && rb) || (ra == rb && a.0 < b.0)
}

/// Where an item is inserted: before the first entry it sorts before.
pub open spec fn item_insert_pos(s: Seq<(u64, CommentStatus, Seq<char>, Seq<char>, Option<usize>, bool)>, x: (u64, CommentStatus, Seq<char>, Seq<char>, Option<usize>, bool)) -> int
    decreases s.len(),
{
    if s.len() == 0 {
        0
    } else if item_before(x, s[0]) {
        0
    } else {
        1 + item_insert_pos(s.drop_first(), x)
    }
}

proof fn lemma_item_insert_pos_bounds(s: Seq<(u64, CommentStatus, Seq<char>, Seq<char>, Option<usize>, bool)>, x: (u64, CommentStatus, Seq<char>, Seq<char>, Option<usize>, bool))
    ensures
        0 <= item_insert_pos(s, x) <= s.len(),
        forall|j: int| 0 <= j < item_insert_pos(s, x) ==> !item_before(x, #[trigger] s[j]),
        item_insert_pos(s, x) < s.len() ==> item_before(x, s[item_insert_pos(s, x)]),
    decreases s.len(),
{
    if s.len() > 0 && !item_before(x, s[0]) {
        lemma_item_insert_pos_bounds(s.drop_first(), x);
        assert forall|j: int| 0 <= j < item_insert_pos(s, x) implies !item_before(x, #[trigger] s[j]) by {
            if j > 0 {
                assert(s[j] == s.drop_first()[j - 1]);
            }
        }
    }
}

/// The comments of context `ctx` as listed: open ones first, then by id
/// (equal keys in the order given).
pub open spec fn listed_items(es: Seq<(Seq<char>, usize, usize)>, cs: Seq<CommentV>, ctx: ContextV) -> Seq<(u64, CommentStatus, Seq<char>, Seq<char>, Option<usize>, bool)>
    decreases cs.len(),
{
    if cs.len() == 0 {
        Seq::empty()
    } else {
        let prev = listed_items(es, cs.drop_last(), ctx);
        if context_matches(cs.last().context, ctx) {
            let x = comment_item(es, cs.last());
            prev.insert(item_insert_pos(prev, x), x)
        } else {
            prev
        }
    }
}

/// The anchors of the comments can be summarized.
pub open spec fn anchors_summarizable(cs: Seq<CommentV>) -> bool {
    forall|c: int, k: int| 0 <= c < cs.len() && 0 <= k < cs[c].anchor.len() ==> crate::comments::summarizable(#[trigger] cs[c].anchor[k])
}

/// List the comments of context `ctx` for the overlay, placed on the hunks
/// whose digests are `digests` (see `hunk_digests`).
pub fn comment_view_items(digests: &Vec<(String, usize, usize)>, comments: &Vec<&Comment>, ctx: &CommentContext) -> (r: Vec<CommentViewItem>)
    requires
        anchors_summarizable(refs_view(comments@)),
    ensures
        items_view(r@) == listed_items(digest_entries(digests@), refs_view(comments@), ctx@),
{
    let ghost es = digest_entries(digests@);
    let ghost cs = refs_view(comments@);
    let mut out: Vec<CommentViewItem> = Vec::new();
    let mut i: usize = 0;
    while i < comments.len()
        invariant
            es == digest_entries(digests@),
            cs == refs_view(comments@),
            anchors_summarizable(cs),
            i <= cs.len(),
            items_view(out@) == listed_items(es, cs.take(i as int), ctx@),
        decreases cs.len() - i,
    {
        assert(cs.take(i + 1).drop_last() =~= cs.take(i as int));
        assert(cs.take(i + 1).last() == cs[i as int]);
        let c = comments[i];
        assert(cs[i as int] == c@);
        if c.context.matches(ctx) {
            let (hunk_start_row, stale) = if c.anchor.selectors.len() == 0 {
                (None, false)
            } else {
                let d = match &c.anchor.selectors[0] {
                    Selector::DiffHunkV1(h) => &h.digest_hex,
                };
                assert(d@ == c@.anchor[0].digest);
                match find_hunk(digests, d) {
                    Some((_, row)) => (Some(row), false),
                    None => (None, digests.len() > 0),
                }
            };
            proof {
                assert forall|k: int| 0 <= k < c@.anchor.len() implies crate::comments::summarizable(#[trigger] c@.anchor[k]) by {
                    assert(cs[i as int].anchor[k] == c@.anchor[k]);
                }
            }
            let x = CommentViewItem {
                id: c.id,
                status: c.status,
                message: c.message.clone(),
                anchor_summary: format_anchor_summary(&c.anchor),
                hunk_start_row,
                stale,
            };
            let ghost prev = items_view(out@);
            let mut pos: usize = 0;
            while pos < out.len() && !(
            (x.status == CommentStatus::Open && out[pos].status != CommentStatus::Open) || ((x.status
                != CommentStatus::Open) == (out[pos].status != CommentStatus::Open) && x.id < out[pos].id))
                invariant
                    prev == items_view(out@),
                    pos <= out@.len(),
                    forall|j: int| 0 <= j < pos ==> !item_before(item_view(x), #[trigger] prev[j]),
                decreases out@.len() - pos,
            {
                pos = pos + 1;
            }
            proof {
                lemma_item_insert_pos_bounds(prev, item_view(x));
                let p = item_insert_pos(prev, item_view(x));
                if p < pos {
                    assert(!item_before(item_view(x), prev[p]));
                } else if p > pos {
                    assert(item_before(item_view(x), prev[pos as int]));
                }
                assert(item_view(x) == comment_item(es, c@));
            }
            let ghost xv = item_view(x);
            out.insert(pos, x);
            assert(items_view(out@) =~= prev.insert(pos as int, xv));
        }
        i = i + 1;
    }
    assert(cs.take(i as int) =~= cs);
    out
}

/// The selection kept after the list is rebuilt: the comment that was
/// selected (by id) if it is still listed, else the first; both selection
/// and scroll within the list (zero for an empty list).
pub open spec fn reselected(ids: Seq<u64>, prev_id: Option<u64>, scroll: usize) -> (usize, usize) {
    if ids.len() == 0 {
        (0, 0)
    } else {
        let sel: int = match prev_id {
            Some(id) => if exists|p: int| 0 <= p < ids.len() && ids[p] == id {
                choose|p: int| 0 <= p < ids.len() && ids[p] == id && forall|j: int| 0 <= j < p ==> ids[j] != id
            } else {
                0
            },
            None => 0,
        };
        let last = ids.len() - 1;
        ((if sel < last { sel } else { last }) as usize, (if scroll < last { scroll as int } else { last }) as usize)
    }
}

/// The ids of listed comments.
pub open spec fn item_ids(v: Seq<CommentViewItem>) -> Seq<u64> {
    v.map_values(|i: CommentViewItem| i.id)
}

fn first_with_id(items: &Vec<CommentViewItem>, id: u64) -> (r: Option<usize>)
    ensures
        r matches Some(p) ==> p < items@.len() && item_ids(items@)[p as int] == id && forall|j: int|
            0 <= j < p ==> item_ids(items@)[j] != id,
        r is None ==> forall|j: int| 0 <= j < items@.len() ==> item_ids(items@)[j] != id,
{
    let mut p: usize = 0;
    while p < items.len()
        invariant
            p <= items@.len(),
            forall|j: int| 0 <= j < p ==> item_ids(items@)[j] != id,
        decreases items@.len() - p,
    {
        if items[p].id == id {
            return Some(p);
        }
        p = p + 1;
    }
    None
}

impl CommentsState {
    /// Replace the listed comments, keeping the selected comment selected
    /// where it is still listed.
    pub fn set_viewing(&mut self, items: Vec<CommentViewItem>)
        ensures
            final(self).viewing@ == items@,
            (final(self).selected, final(self).scroll) == reselected(
                item_ids(items@),
                if old(self).selected < old(self).viewing@.len() {
                    Some(old(self).viewing@[old(self).selected as int].id)
                } else {
                    None
                },
                old(self).scroll,
            ),
    {
        let prev_id = if self.selected < self.viewing.len() {
            Some(self.viewing[self.selected].id)
        } else {
            None
        };
        let ghost ids = item_ids(items@);
        let sel: usize = match prev_id {
            Some(id) => match first_with_id(&items, id) {
                Some(p) => {
                    proof {
                        let q = choose|q: int| 0 <= q < ids.len() && ids[q] == id && forall|j: int| 0 <= j < q ==> ids[j] != id;
                        assert(q == p) by {
                            if q < p {
                            } else if q > p {
                            }
                        }
                    }
                    p
                },
                None => 0,
            },
            None => 0,
        };
        self.viewing = items;
        if self.viewing.len() == 0 {
            self.selected = 0;
            self.scroll = 0;
        } else {
            let last = self.viewing.len() - 1;
            self.selected = if sel < last {
                sel
            } else {
                last
            };
            self.scroll = if self.scroll < last {
                self.scroll
            } else {
                last
            };
        }
    }
}

} // verus!
