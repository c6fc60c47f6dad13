//! The viewer's state and what each user action does to it. Loading a diff,
//! reading themes, and talking to `gh` are the host's part: an action that
//! needs one says so in its result, and the host performs it.

use vstd::prelude::*;
use crate::diff::DiffResult;
use crate::fuzzy::FuzzyMatcher;
use crate::gh::{contains_exec, contains_text, PRFilter};
use crate::navigation::{diff_row_at, hunk_jump, rows_in_order, next_filter, next_selection, next_unviewed, next_unviewed_spec, prev_filter, prev_selection, same_list, view_rows_of, ThemeSelector};
use crate::strings::trim;
use crate::repo::{ChangedFile, DiffSource, diff_source_display, source_label, opt_text};
use crate::strings::{chars_of, dec, fmt_dec, push_all, push_str, string_of};
use crate::view_state::{
    CommentViewItem, CommentsState, DiffPaneMode, DiffViewMode, Focus, Mode, PRActionType, PatchState, PrState, SidebarState, UiState,
    ViewerState,
};
use crate::viewed::{FileViewedStore, ViewedStore, toggled};

verus! {

/// The viewer's state.
pub struct App {
    /// What is being compared.
    pub source: DiffSource,
    /// The changed files.
    pub files: Vec<ChangedFile>,
    /// File list state.
    pub sidebar: SidebarState,
    /// Which pane has the keyboard.
    pub focus: Focus,
    /// Viewed marks.
    pub viewed: FileViewedStore,
    /// How many listed files are marked viewed.
    pub viewed_in_changeset: usize,
    /// Set when the user asked to quit.
    pub should_quit: bool,
    /// The selected file's diff, once loaded.
    pub diff: Option<DiffResult>,
    /// The selected file is binary.
    pub is_binary: bool,
    /// Diff viewport.
    pub viewer: ViewerState,
    /// Mode and messages.
    pub ui: UiState,
    /// Comment overlay and draft.
    pub comments: CommentsState,
    /// Theme selector.
    pub themes: ThemeSelector,
    /// The theme in use (restored when the selector is cancelled).
    pub theme_original: String,
    /// Pull request mode.
    pub pr: PrState,
    /// Patch mode.
    pub patch: PatchState,
    /// Matcher for the file filter.
    pub fuzzy_matcher: FuzzyMatcher,
}

/// `b` equals `a` in every part not named as free to change.
pub open spec fn same_except(
    a: App,
    b: App,
    ui: bool,
    focus: bool,
    sidebar: bool,
    viewer: bool,
    comments: bool,
    themes: bool,
    pr: bool,
    viewed: bool,
) -> bool {
    &&& a.source == b.source
    &&& a.files == b.files
    &&& a.should_quit == b.should_quit
    &&& a.diff == b.diff
    &&& a.is_binary == b.is_binary
    &&& a.patch == b.patch
    &&& a.theme_original == b.theme_original
    &&& a.fuzzy_matcher == b.fuzzy_matcher
    &&& (!ui ==> a.ui == b.ui)
    &&& (!focus ==> a.focus == b.focus)
    &&& (!sidebar ==> a.sidebar == b.sidebar)
    &&& (!viewer ==> a.viewer == b.viewer)
    &&& (!comments ==> a.comments == b.comments)
    &&& (!themes ==> a.themes == b.themes)
    &&& (!pr ==> a.pr == b.pr)
    &&& (!viewed ==> a.viewed == b.viewed && a.viewed_in_changeset == b.viewed_in_changeset)
}

/// The same messages, another mode and redraw flag.
pub open spec fn ui_now(old_ui: UiState, new_ui: UiState, mode: Mode, dirty: bool) -> bool {
    &&& new_ui.mode == mode
    &&& new_ui.dirty == dirty
    &&& new_ui.error == old_ui.error
    &&& new_ui.status == old_ui.status
}

/// The other focus.
pub open spec fn other_focus(f: Focus) -> Focus {
    match f {
        Focus::Sidebar => Focus::Diff,
        Focus::Diff => Focus::Sidebar,
    }
}

/// Switching the focus twice gives it back.
pub proof fn lemma_toggle_focus_twice(f: Focus)
    ensures
        other_focus(other_focus(f)) == f,
{
}

/// The loaded diff, by reference.
pub open spec fn opt_ref(o: &Option<DiffResult>) -> Option<&DiffResult> {
    match o {
        Some(d) => Some(d),
        None => None,
    }
}

/// The text of a viewed count: viewed files over listed files.
pub open spec fn viewed_status_text(viewed: nat, total: nat) -> Seq<char> {
    dec(viewed) + "/"@ + dec(total)
}

impl App {
    /// The selected file, if the selection is in the list.
    pub fn selected_file(&self) -> (r: Option<&ChangedFile>)
        ensures
            self.sidebar.selected_idx < self.files@.len() ==> r == Some(&self.files@[self.sidebar.selected_idx as int]),
            self.sidebar.selected_idx >= self.files@.len() ==> r is None,
    {
        if self.sidebar.selected_idx < self.files.len() {
            Some(&self.files[self.sidebar.selected_idx])
        } else {
            None
        }
    }

    /// Whether the selected file is marked viewed.
    pub fn is_current_viewed(&self) -> (r: bool)
        ensures
            r == (self.sidebar.selected_idx < self.files@.len() && self.viewed.viewed_set().contains(
                self.files@[self.sidebar.selected_idx as int].path@,
            )),
    {
        match self.selected_file() {
            Some(f) => self.viewed.is_viewed(&f.path),
            None => false,
        }
    }

    /// The viewed count of the list, as `viewed/total`.
    pub fn viewed_status(&self) -> (r: String)
        ensures
            r@ == viewed_status_text(self.viewed_in_changeset as nat, self.files@.len()),
    {
        let mut v: Vec<char> = Vec::new();
        let a = fmt_dec(self.viewed_in_changeset);
        push_all(&mut v, a.as_slice());
        push_str(&mut v, "/");
        let b = fmt_dec(self.files.len());
        push_all(&mut v, b.as_slice());
        assert(v@ =~= viewed_status_text(self.viewed_in_changeset as nat, self.files@.len()));
        string_of(v.as_slice())
    }

    /// Comments are taken only on the working tree, outside patch mode.
    pub fn is_worktree_mode(&self) -> (r: bool)
        ensures
            r == (self.source is WorkingTree && !self.patch.active),
    {
        match self.source {
            DiffSource::WorkingTree => !self.patch.active,
            _ => false,
        }
    }

    /// The label of what is being compared: the patch's label in patch
    /// mode, else the source's, with `commit_label` for a commit.
    pub fn source_display(&self, commit_label: Option<&str>) -> (r: String)
        ensures
            self.patch.active ==> r@ == "Patch ("@ + self.patch.label@ + ")"@,
            !self.patch.active ==> r@ == source_label(self.source@, opt_text(commit_label)),
    {
        if self.patch.active {
            let mut v: Vec<char> = Vec::new();
            push_str(&mut v, "Patch (");
            push_str(&mut v, self.patch.label.as_str());
            push_str(&mut v, ")");
            assert(v@ =~= "Patch ("@ + self.patch.label@ + ")"@);
            return string_of(v.as_slice());
        }
        diff_source_display(&self.source, commit_label)
    }

    /// Ask for a redraw.
    pub fn mark_dirty(&mut self)
        ensures
            same_except(*old(self), *final(self), true, false, false, false, false, false, false, false),
            ui_now(old(self).ui, final(self).ui, old(self).ui.mode, true),
    {
        self.ui.dirty = true;
    }

    /// The screen was drawn.
    pub fn clear_dirty(&mut self)
        ensures
            same_except(*old(self), *final(self), true, false, false, false, false, false, false, false),
            ui_now(old(self).ui, final(self).ui, old(self).ui.mode, false),
    {
        self.ui.dirty = false;
    }

    /// Open the key help.
    pub fn open_help(&mut self)
        ensures
            same_except(*old(self), *final(self), true, false, false, false, false, false, false, false),
            ui_now(old(self).ui, final(self).ui, Mode::Help, true),
    {
        self.ui.mode = Mode::Help;
        self.ui.dirty = true;
    }

    /// Close the key help, if open.
    pub fn close_help(&mut self)
        ensures
            old(self).ui.mode == Mode::Help ==> same_except(*old(self), *final(self), true, false, false, false, false, false, false, false)
                && ui_now(old(self).ui, final(self).ui, Mode::Normal, true),
            old(self).ui.mode != Mode::Help ==> *final(self) == *old(self),
    {
        if self.ui.mode == Mode::Help {
            self.ui.mode = Mode::Normal;
            self.ui.dirty = true;
        }
    }

    /// Switch the keyboard between the file list and the diff.
    pub fn toggle_focus(&mut self)
        ensures
            same_except(*old(self), *final(self), true, true, false, false, false, false, false, false),
            final(self).focus == other_focus(old(self).focus),
            ui_now(old(self).ui, final(self).ui, old(self).ui.mode, true),
    {
        self.focus = match self.focus {
            Focus::Sidebar => Focus::Diff,
            Focus::Diff => Focus::Sidebar,
        };
        self.ui.dirty = true;
    }

    /// Give the keyboard to `focus`.
    pub fn set_focus(&mut self, focus: Focus)
        ensures
            old(self).focus != focus ==> same_except(*old(self), *final(self), true, true, false, false, false, false, false, false)
                && final(self).focus == focus && ui_now(old(self).ui, final(self).ui, old(self).ui.mode, true),
            old(self).focus == focus ==> *final(self) == *old(self),
    {
        if self.focus != focus {
            self.focus = focus;
            self.ui.dirty = true;
        }
    }
}

/// The files the viewed-file search walks: the filtered ones, or all.
pub open spec fn walk_list(filtered: Seq<usize>, n: nat) -> Seq<usize> {
    if filtered.len() == 0 {
        Seq::new(n, |i: int| i as usize)
    } else {
        filtered
    }
}

/// Viewed flags of `files` in the set `viewed`.
pub open spec fn viewed_flags(files: Seq<ChangedFile>, viewed: Set<Seq<char>>) -> Seq<bool> {
    Seq::new(files.len(), |i: int| viewed.contains(files[i].path@))
}

impl App {
    /// Move the selection up the file list; returns whether it moved (the
    /// new selection's diff is then requested).
    pub fn select_prev(&mut self) -> (moved: bool)
        ensures
            same_except(*old(self), *final(self), true, false, true, false, false, false, false, false),
            same_list(final(self).sidebar, old(self).sidebar),
            match prev_selection(old(self).sidebar.selected_idx, old(self).sidebar.filtered_indices@) {
                Some(n) => moved && final(self).sidebar.selected_idx == n && ui_now(old(self).ui, final(self).ui, old(self).ui.mode, true),
                None => !moved && final(self).sidebar.selected_idx == old(self).sidebar.selected_idx && final(self).ui == old(self).ui,
            },
    {
        let moved = self.sidebar.select_prev();
        if moved {
            self.ui.dirty = true;
        }
        moved
    }

    /// Move the selection down the file list; returns whether it moved.
    pub fn select_next(&mut self) -> (moved: bool)
        requires
            old(self).sidebar.selected_idx < usize::MAX,
        ensures
            same_except(*old(self), *final(self), true, false, true, false, false, false, false, false),
            same_list(final(self).sidebar, old(self).sidebar),
            match next_selection(old(self).sidebar.selected_idx, old(self).sidebar.filtered_indices@, old(self).files@.len()) {
                Some(n) => moved && final(self).sidebar.selected_idx == n && ui_now(old(self).ui, final(self).ui, old(self).ui.mode, true),
                None => !moved && final(self).sidebar.selected_idx == old(self).sidebar.selected_idx && final(self).ui == old(self).ui,
            },
    {
        let n = self.files.len();
        let moved = self.sidebar.select_next(n);
        if moved {
            self.ui.dirty = true;
        }
        moved
    }

    /// Toggle the selected file's viewed mark. Marking it viewed moves the
    /// selection on to the next unviewed file (wrapping), if there is one;
    /// returns whether the selection moved.
    pub fn toggle_viewed(&mut self) -> (moved: bool)
        requires
            old(self).viewed_in_changeset < usize::MAX,
            forall|k: int| 0 <= k < old(self).sidebar.filtered_indices@.len() ==> #[trigger] old(self).sidebar.filtered_indices@[k]
                < old(self).files@.len(),
        ensures
            old(self).sidebar.selected_idx >= old(self).files@.len() ==> *final(self) == *old(self) && !moved,
            old(self).sidebar.selected_idx < old(self).files@.len() ==> ({
                let path = old(self).files@[old(self).sidebar.selected_idx as int].path@;
                let was = old(self).viewed.viewed_set().contains(path);
                let set = toggled(old(self).viewed.viewed_set(), path);
                let next = next_unviewed_spec(
                    walk_list(old(self).sidebar.filtered_indices@, old(self).files@.len()),
                    old(self).sidebar.selected_idx,
                    viewed_flags(old(self).files@, set),
                );
                &&& same_except(*old(self), *final(self), true, false, true, false, false, false, false, true)
                &&& final(self).viewed.viewed_set() == set
                &&& final(self).viewed_in_changeset == (if was {
                    if old(self).viewed_in_changeset > 0 { old(self).viewed_in_changeset - 1 } else { 0 }
                } else {
                    old(self).viewed_in_changeset + 1
                })
                &&& same_list(final(self).sidebar, old(self).sidebar)
                &&& moved == (!was && next is Some)
                &&& final(self).sidebar.selected_idx == (if moved { next->0 } else { old(self).sidebar.selected_idx })
                &&& ui_now(old(self).ui, final(self).ui, old(self).ui.mode, true)
            }),
    {
        if self.sidebar.selected_idx >= self.files.len() {
            return false;
        }
        let idx = self.sidebar.selected_idx;
        let path = self.files[idx].path.clone();
        let now_viewed = self.viewed.toggle_viewed(path);
        let mut moved = false;
        if now_viewed {
            self.viewed_in_changeset = self.viewed_in_changeset + 1;
            moved = self.advance_to_next_unviewed();
        } else {
            self.viewed_in_changeset = if self.viewed_in_changeset > 0 {
                self.viewed_in_changeset - 1
            } else {
                0
            };
        }
        self.ui.dirty = true;
        moved
    }

    /// Select the next unviewed file after the selection, wrapping.
    fn advance_to_next_unviewed(&mut self) -> (moved: bool)
        requires
            forall|k: int| 0 <= k < old(self).sidebar.filtered_indices@.len() ==> #[trigger] old(self).sidebar.filtered_indices@[k]
                < old(self).files@.len(),
        ensures
            same_except(*old(self), *final(self), false, false, true, false, false, false, false, false),
            same_list(final(self).sidebar, old(self).sidebar),
            ({
                let next = next_unviewed_spec(
                    walk_list(old(self).sidebar.filtered_indices@, old(self).files@.len()),
                    old(self).sidebar.selected_idx,
                    viewed_flags(old(self).files@, old(self).viewed.viewed_set()),
                );
                &&& moved == next is Some
                &&& final(self).sidebar.selected_idx == (if moved { next->0 } else { old(self).sidebar.selected_idx })
            }),
    {
        let mut visible: Vec<usize> = Vec::new();
        if self.sidebar.filtered_indices.len() == 0 {
            let mut i: usize = 0;
            while i < self.files.len()
                invariant
                    i <= self.files@.len(),
                    visible@ == Seq::new(i as nat, |k: int| k as usize),
                decreases self.files@.len() - i,
            {
                visible.push(i);
                i = i + 1;
                assert(visible@ =~= Seq::new(i as nat, |k: int| k as usize));
            }
        } else {
            visible = self.sidebar.filtered_indices.clone();
        }
        let ghost wl = walk_list(self.sidebar.filtered_indices@, self.files@.len());
        assert(visible@ =~= wl);
        let mut flags: Vec<bool> = Vec::new();
        let mut j: usize = 0;
        while j < self.files.len()
            invariant
                j <= self.files@.len(),
                flags@ == Seq::new(j as nat, |k: int| self.viewed.viewed_set().contains(self.files@[k].path@)),
            decreases self.files@.len() - j,
        {
            let v = self.viewed.is_viewed(&self.files[j].path);
            flags.push(v);
            j = j + 1;
            assert(flags@ =~= Seq::new(j as nat, |k: int| self.viewed.viewed_set().contains(self.files@[k].path@)));
        }
        assert(flags@ =~= viewed_flags(self.files@, self.viewed.viewed_set()));
        match next_unviewed(visible.as_slice(), self.sidebar.selected_idx, flags.as_slice()) {
            Some(idx) => {
                self.sidebar.selected_idx = idx;
                true
            },
            None => false,
        }
    }

    /// Start typing a file filter.
    pub fn start_filter(&mut self)
        ensures
            same_except(*old(self), *final(self), true, false, true, false, false, false, false, false),
            ui_now(old(self).ui, final(self).ui, Mode::FilterFiles, true),
            final(self).sidebar.filter@.len() == 0,
            final(self).sidebar.filtered_indices@ == old(self).sidebar.filtered_indices@,
            final(self).sidebar.selected_idx == old(self).sidebar.selected_idx,
            final(self).sidebar.visible == old(self).sidebar.visible,
            final(self).sidebar.scroll == old(self).sidebar.scroll,
    {
        self.ui.mode = Mode::FilterFiles;
        self.sidebar.start_filter();
        self.ui.dirty = true;
    }

    /// Recompute the filter result from the query.
    fn recompute_filter(&mut self) -> (moved: bool)
        requires
            forall|k: int| 0 <= k < old(self).files@.len() ==> (#[trigger] old(self).files@[k]).path@.len() <= u32::MAX,
        ensures
            final(self).source == old(self).source,
            final(self).files == old(self).files,
            final(self).ui == old(self).ui,
            trim(old(self).sidebar.filter@).len() == 0 ==> final(self).sidebar.filtered_indices@.len() == 0,
            moved == (final(self).sidebar.filtered_indices@.len() > 0 && !final(self).sidebar.filtered_indices@.contains(
                old(self).sidebar.selected_idx,
            )),
            moved ==> final(self).sidebar.selected_idx == final(self).sidebar.filtered_indices@[0],
            !moved ==> final(self).sidebar.selected_idx == old(self).sidebar.selected_idx,
    {
        let mut cands: Vec<(usize, &str)> = Vec::new();
        let mut i: usize = 0;
        while i < self.files.len()
            invariant
                i <= self.files@.len(),
                cands@.len() == i,
                forall|k: int| 0 <= k < i ==> (#[trigger] cands@[k]).0 == k && cands@[k].1@ == self.files@[k].path@,
            decreases self.files@.len() - i,
        {
            cands.push((i, self.files[i].path.as_str()));
            i = i + 1;
        }
        let moved = self.sidebar.recompute_filter(&mut self.fuzzy_matcher, cands.as_slice());
        moved
    }

    /// Apply the filter and leave filter mode; returns whether the
    /// selection moved to the first match.
    pub fn apply_filter(&mut self) -> (moved: bool)
        requires
            forall|k: int| 0 <= k < old(self).files@.len() ==> (#[trigger] old(self).files@[k]).path@.len() <= u32::MAX,
        ensures
            final(self).files == old(self).files,
            ui_now(old(self).ui, final(self).ui, Mode::Normal, true),
            trim(old(self).sidebar.filter@).len() == 0 ==> final(self).sidebar.filtered_indices@.len() == 0,
            moved == (final(self).sidebar.filtered_indices@.len() > 0 && !final(self).sidebar.filtered_indices@.contains(
                old(self).sidebar.selected_idx,
            )),
            moved ==> final(self).sidebar.selected_idx == final(self).sidebar.filtered_indices@[0],
            !moved ==> final(self).sidebar.selected_idx == old(self).sidebar.selected_idx,
    {
        let moved = self.recompute_filter();
        self.ui.mode = Mode::Normal;
        self.ui.dirty = true;
        moved
    }

    /// Refilter as the query changes; returns whether the selection moved.
    pub fn update_filter_live(&mut self) -> (moved: bool)
        requires
            forall|k: int| 0 <= k < old(self).files@.len() ==> (#[trigger] old(self).files@[k]).path@.len() <= u32::MAX,
        ensures
            final(self).files == old(self).files,
            ui_now(old(self).ui, final(self).ui, old(self).ui.mode, true),
            trim(old(self).sidebar.filter@).len() == 0 ==> final(self).sidebar.filtered_indices@.len() == 0,
            moved == (final(self).sidebar.filtered_indices@.len() > 0 && !final(self).sidebar.filtered_indices@.contains(
                old(self).sidebar.selected_idx,
            )),
            moved ==> final(self).sidebar.selected_idx == final(self).sidebar.filtered_indices@[0],
            !moved ==> final(self).sidebar.selected_idx == old(self).sidebar.selected_idx,
    {
        let moved = self.recompute_filter();
        self.ui.dirty = true;
        moved
    }

    /// Leave filter mode and show every file again.
    pub fn cancel_filter(&mut self)
        ensures
            same_except(*old(self), *final(self), true, false, true, false, false, false, false, false),
            ui_now(old(self).ui, final(self).ui, Mode::Normal, true),
            final(self).sidebar.filter@.len() == 0,
            final(self).sidebar.filtered_indices@.len() == 0,
            final(self).sidebar.selected_idx == old(self).sidebar.selected_idx,
    {
        self.ui.mode = Mode::Normal;
        self.sidebar.cancel_filter();
        self.ui.dirty = true;
    }

    /// Drop an applied filter, if any.
    pub fn clear_filter(&mut self)
        ensures
            same_except(*old(self), *final(self), true, false, true, false, false, false, false, false),
            final(self).sidebar.filtered_indices@.len() == 0,
            final(self).sidebar.selected_idx == old(self).sidebar.selected_idx,
            old(self).sidebar.filtered_indices@.len() > 0 ==> final(self).sidebar.filter@.len() == 0 && ui_now(
                old(self).ui,
                final(self).ui,
                old(self).ui.mode,
                true,
            ),
            old(self).sidebar.filtered_indices@.len() == 0 ==> final(self).ui == old(self).ui
                && final(self).sidebar.filter@ == old(self).sidebar.filter@,
    {
        if self.sidebar.clear_filter() {
            self.ui.dirty = true;
        }
    }
}

/// What a manual reload asks of the host.
#[derive(Debug, Clone, Copy, PartialEq, Eq, Structural)]
pub enum ReloadAction {
    /// Re-read the file list (and the selected diff).
    RefreshFileList,
    /// Request the selected file's diff again.
    ReloadDiff,
    /// Nothing to reload.
    Nothing,
}

impl App {
    // -----------------------------------------------------------------
    // Themes
    // -----------------------------------------------------------------

    /// Open the theme selector over `list` (the themes on offer), at the
    /// theme in use.
    pub fn open_theme_selector(&mut self, list: Vec<String>)
        ensures
            same_except(*old(self), *final(self), true, false, false, false, false, true, false, false),
            ui_now(old(self).ui, final(self).ui, Mode::SelectTheme, true),
            final(self).themes.list@ == list@,
            (exists|k: int| 0 <= k < list@.len() && list@[k]@ == old(self).theme_original@) ==> final(self).themes.list@[final(self).themes.idx as int]@ == old(self).theme_original@ && forall|j: int|
                0 <= j < final(self).themes.idx ==> list@[j]@ != old(self).theme_original@,
            !(exists|k: int| 0 <= k < list@.len() && list@[k]@ == old(self).theme_original@) ==> final(self).themes.idx == 0,
    {
        self.themes = ThemeSelector::open(list, self.theme_original.as_str());
        self.ui.mode = Mode::SelectTheme;
        self.ui.dirty = true;
    }

    /// Close the theme selector without a change; returns the theme in use,
    /// for the host to load back.
    pub fn close_theme_selector(&mut self) -> (r: String)
        ensures
            same_except(*old(self), *final(self), true, false, false, false, false, false, false, false),
            ui_now(old(self).ui, final(self).ui, Mode::Normal, true),
            r@ == old(self).theme_original@,
    {
        self.ui.mode = Mode::Normal;
        self.ui.dirty = true;
        self.theme_original.as_str().to_owned()
    }

    /// Highlight the previous theme; returns its name for a preview when
    /// the highlight moved.
    pub fn theme_select_prev(&mut self) -> (r: Option<String>)
        ensures
            same_except(*old(self), *final(self), true, false, false, false, false, true, false, false),
            final(self).themes.list@ == old(self).themes.list@,
            old(self).themes.idx > 0 ==> final(self).themes.idx == old(self).themes.idx - 1 && ui_now(old(self).ui, final(self).ui, old(self).ui.mode, true)
                && (final(self).themes.idx < final(self).themes.list@.len() ==> r is Some && r->0@ == final(self).themes.list@[final(self).themes.idx as int]@),
            old(self).themes.idx == 0 ==> r is None && final(self).themes.idx == 0 && final(self).ui == old(self).ui,
    {
        if self.themes.select_prev() {
            self.ui.dirty = true;
            match self.themes.current() {
                Some(n) => Some(n.as_str().to_owned()),
                None => None,
            }
        } else {
            None
        }
    }

    /// Highlight the next theme; returns its name for a preview when the
    /// highlight moved.
    pub fn theme_select_next(&mut self) -> (r: Option<String>)
        ensures
            same_except(*old(self), *final(self), true, false, false, false, false, true, false, false),
            final(self).themes.list@ == old(self).themes.list@,
            old(self).themes.idx + 1 < old(self).themes.list@.len() ==> final(self).themes.idx == old(self).themes.idx + 1,
            old(self).themes.idx + 1 < old(self).themes.list@.len() ==> ui_now(old(self).ui, final(self).ui, old(self).ui.mode, true),
            old(self).themes.idx + 1 < old(self).themes.list@.len() ==> r is Some,
            old(self).themes.idx + 1 < old(self).themes.list@.len() ==> r->0@ == final(self).themes.list@[final(self).themes.idx as int]@,
            !(old(self).themes.idx + 1 < old(self).themes.list@.len()) ==> r is None && final(self).themes.idx == old(self).themes.idx && final(self).ui == old(self).ui,
    {
        let ghost i0 = self.themes.idx;
        let n0 = self.themes.list.len();
        if self.themes.select_next() {
            assert(i0 + 1 < n0);
            assert(self.themes.idx == i0 + 1);
            self.ui.dirty = true;
            let name = self.themes.list[self.themes.idx].as_str().to_owned();
            Some(name)
        } else {
            None
        }
    }

    /// Keep the highlighted theme.
    pub fn theme_apply(&mut self)
        requires
            old(self).themes.idx < old(self).themes.list@.len(),
        ensures
            final(self).theme_original@ == old(self).themes.list@[old(self).themes.idx as int]@,
            ui_now(old(self).ui, final(self).ui, Mode::Normal, true),
            final(self).themes == old(self).themes,
            final(self).files == old(self).files,
            final(self).sidebar == old(self).sidebar,
            final(self).viewer == old(self).viewer,
    {
        let name = self.themes.list[self.themes.idx].as_str().to_owned();
        self.theme_original = name;
        self.ui.mode = Mode::Normal;
        self.ui.dirty = true;
    }

    // -----------------------------------------------------------------
    // The diff viewport
    // -----------------------------------------------------------------

    /// Switch between hunks-only and full-file views.
    pub fn toggle_diff_view_mode(&mut self)
        ensures
            same_except(*old(self), *final(self), true, false, false, true, false, false, false, false),
            ui_now(old(self).ui, final(self).ui, old(self).ui.mode, true),
            final(self).viewer.view_mode == (match old(self).viewer.view_mode {
                DiffViewMode::HunksOnly => DiffViewMode::FullFile,
                DiffViewMode::FullFile => DiffViewMode::HunksOnly,
            }),
    {
        self.viewer.toggle_view_mode(self.diff.as_ref());
        self.ui.dirty = true;
    }

    /// Scroll the diff by rows and columns (rows stop at the last one).
    pub fn scroll_diff(&mut self, delta_y: isize, delta_x: isize)
        requires
            delta_y >= 0 ==> old(self).viewer.scroll_y + delta_y <= usize::MAX,
            delta_x >= 0 ==> old(self).viewer.scroll_x + delta_x <= usize::MAX,
            delta_y > isize::MIN,
            delta_x > isize::MIN,
        ensures
            same_except(*old(self), *final(self), true, false, false, true, false, false, false, false),
            final(self).viewer.scroll_y == (if delta_y < 0 {
                if old(self).viewer.scroll_y >= -delta_y { old(self).viewer.scroll_y + delta_y } else { 0 }
            } else if view_rows_of(old(self).viewer, opt_ref(&old(self).diff)) == 0 {
                0
            } else if old(self).viewer.scroll_y + delta_y < view_rows_of(old(self).viewer, opt_ref(&old(self).diff)) - 1 {
                old(self).viewer.scroll_y + delta_y
            } else {
                view_rows_of(old(self).viewer, opt_ref(&old(self).diff)) - 1
            }),
            final(self).viewer.scroll_x == (if delta_x < 0 {
                if old(self).viewer.scroll_x >= -delta_x { old(self).viewer.scroll_x + delta_x } else { 0 }
            } else {
                old(self).viewer.scroll_x + delta_x
            }),
            final(self).viewer.view_mode == old(self).viewer.view_mode,
            (final(self).viewer.scroll_y != old(self).viewer.scroll_y || final(self).viewer.scroll_x != old(self).viewer.scroll_x)
                ==> ui_now(old(self).ui, final(self).ui, old(self).ui.mode, true),
            !(final(self).viewer.scroll_y != old(self).viewer.scroll_y || final(self).viewer.scroll_x != old(self).viewer.scroll_x)
                ==> final(self).ui == old(self).ui,
    {
        if self.viewer.scroll(self.diff.as_ref(), delta_y, delta_x) {
            self.ui.dirty = true;
        }
    }

    /// Jump to the next hunk below the top row.
    pub fn next_hunk(&mut self)
        ensures
            same_except(*old(self), *final(self), true, false, false, true, false, false, false, false),
            old(self).diff is None ==> *final(self) == *old(self),
            old(self).diff matches Some(d) ==> (hunk_jump(old(self).viewer, &d, true) is None ==> *final(self)
                == *old(self)),
            old(self).diff matches Some(d) ==> (hunk_jump(old(self).viewer, &d, true) is Some ==> {
                &&& final(self).viewer == (ViewerState { scroll_y: final(self).viewer.scroll_y, ..old(self).viewer })
                &&& final(self).viewer.scroll_y < view_rows_of(old(self).viewer, Some(&d))
                &&& ui_now(old(self).ui, final(self).ui, old(self).ui.mode, true)
                &&& rows_in_order(old(self).viewer) ==> final(self).viewer.scroll_y == hunk_jump(
                    old(self).viewer,
                    &d,
                    true,
                )->0
            }),
    {
        match &self.diff {
            None => {},
            Some(d) => {
                if self.viewer.next_hunk(d) {
                    self.ui.dirty = true;
                }
            },
        }
    }

    /// Jump to the previous hunk above the top row.
    pub fn prev_hunk(&mut self)
        ensures
            same_except(*old(self), *final(self), true, false, false, true, false, false, false, false),
            old(self).diff is None ==> *final(self) == *old(self),
            old(self).diff matches Some(d) ==> (hunk_jump(old(self).viewer, &d, false) is None ==> *final(self)
                == *old(self)),
            old(self).diff matches Some(d) ==> (hunk_jump(old(self).viewer, &d, false) is Some ==> {
                &&& final(self).viewer == (ViewerState { scroll_y: final(self).viewer.scroll_y, ..old(self).viewer })
                &&& final(self).viewer.scroll_y < view_rows_of(old(self).viewer, Some(&d))
                &&& ui_now(old(self).ui, final(self).ui, old(self).ui.mode, true)
                &&& rows_in_order(old(self).viewer) ==> final(self).viewer.scroll_y == hunk_jump(
                    old(self).viewer,
                    &d,
                    false,
                )->0
            }),
    {
        match &self.diff {
            None => {},
            Some(d) => {
                if self.viewer.prev_hunk(d) {
                    self.ui.dirty = true;
                }
            },
        }
    }

    /// Show the old pane alone, or both again.
    pub fn toggle_old_fullscreen(&mut self)
        ensures
            same_except(*old(self), *final(self), true, false, false, true, false, false, false, false),
            final(self).viewer.pane_mode == (if old(self).viewer.pane_mode == DiffPaneMode::OldOnly {
                DiffPaneMode::Both
            } else {
                DiffPaneMode::OldOnly
            }),
            ui_now(old(self).ui, final(self).ui, old(self).ui.mode, true),
    {
        self.viewer.toggle_old_fullscreen();
        self.ui.dirty = true;
    }

    /// Show the new pane alone, or both again.
    pub fn toggle_new_fullscreen(&mut self)
        ensures
            same_except(*old(self), *final(self), true, false, false, true, false, false, false, false),
            final(self).viewer.pane_mode == (if old(self).viewer.pane_mode == DiffPaneMode::NewOnly {
                DiffPaneMode::Both
            } else {
                DiffPaneMode::NewOnly
            }),
            ui_now(old(self).ui, final(self).ui, old(self).ui.mode, true),
    {
        self.viewer.toggle_new_fullscreen();
        self.ui.dirty = true;
    }

    // -----------------------------------------------------------------
    // Comments
    // -----------------------------------------------------------------

    /// Begin writing a comment on the hunk at the top of the diff; refused
    /// with a message when there is no diff, no hunk, or the top row is
    /// not in a hunk.
    pub fn start_add_comment(&mut self)
        ensures
            same_except(*old(self), *final(self), true, false, false, false, true, false, false, false),
            ({
                let row = diff_row_at(old(self).viewer, opt_ref(&old(self).diff), old(self).viewer.scroll_y);
                match old(self).diff {
                    None => final(self).ui.error is Some && final(self).ui.error->0@ == "No diff available"@ && final(self).ui.mode
                        == old(self).ui.mode && final(self).comments == old(self).comments,
                    Some(d) => if d.spec_hunks().len() == 0 {
                        final(self).ui.error is Some && final(self).ui.error->0@ == "No hunks to comment on"@ && final(self).ui.mode
                            == old(self).ui.mode && final(self).comments == old(self).comments
                    } else if row is None || forall|k: int| 0 <= k < d.spec_hunks().len() ==> !(#[trigger] d.spec_hunks()[k].start_row
                        <= row->0 < d.spec_hunks()[k].start_row + d.spec_hunks()[k].row_count) {
                        final(self).ui.error is Some && final(self).ui.error->0@ == "Not on a hunk - navigate to a hunk first"@
                            && final(self).ui.mode == old(self).ui.mode && final(self).comments == old(self).comments
                    } else {
                        &&& final(self).ui.mode == Mode::AddComment
                        &&& final(self).ui.error is None
                        &&& final(self).ui.status is None
                        &&& final(self).comments.draft@.len() == 0
                        &&& final(self).comments.viewing == old(self).comments.viewing
                    },
                }
            }),
            final(self).ui.dirty,
    {
        let d = match &self.diff {
            None => {
                self.ui.error = Some("No diff available".to_owned());
                self.ui.dirty = true;
                return;
            },
            Some(d) => d,
        };
        if d.hunks().len() == 0 {
            self.ui.error = Some("No hunks to comment on".to_owned());
            self.ui.dirty = true;
            return;
        }
        let on_hunk = match self.viewer.view_row_to_diff_row(self.diff.as_ref(), self.viewer.scroll_y) {
            None => false,
            Some(row) => d.hunk_at_row(row).is_some(),
        };
        if !on_hunk {
            self.ui.error = Some("Not on a hunk - navigate to a hunk first".to_owned());
            self.ui.dirty = true;
            return;
        }
        self.ui.mode = Mode::AddComment;
        self.comments.draft = String::new();
        self.ui.error = None;
        self.ui.status = None;
        self.ui.dirty = true;
    }

    /// Drop the draft comment.
    pub fn cancel_add_comment(&mut self)
        ensures
            same_except(*old(self), *final(self), true, false, false, false, true, false, false, false),
            ui_now(old(self).ui, final(self).ui, Mode::Normal, true),
            final(self).comments.draft@.len() == 0,
            final(self).comments.viewing == old(self).comments.viewing,
            final(self).comments.selected == old(self).comments.selected,
    {
        self.ui.mode = Mode::Normal;
        self.comments.draft = String::new();
        self.ui.dirty = true;
    }

    /// Close the comment list.
    pub fn close_comments(&mut self)
        ensures
            same_except(*old(self), *final(self), true, false, false, false, true, false, false, false),
            ui_now(old(self).ui, final(self).ui, Mode::Normal, true),
            final(self).comments.viewing@.len() == 0,
            final(self).comments.selected == 0,
            final(self).comments.scroll == 0,
            final(self).comments.draft == old(self).comments.draft,
            final(self).comments.include_resolved == old(self).comments.include_resolved,
    {
        self.ui.mode = Mode::Normal;
        self.comments.viewing = Vec::new();
        self.comments.selected = 0;
        self.comments.scroll = 0;
        self.ui.dirty = true;
    }

    /// Select the next listed comment (stopping at the last).
    pub fn comments_select_next(&mut self)
        ensures
            same_except(*old(self), *final(self), true, false, false, false, true, false, false, false),
            old(self).comments.viewing@.len() == 0 ==> *final(self) == *old(self),
            old(self).comments.viewing@.len() > 0 ==> final(self).comments.selected == (if old(self).comments.selected + 1
                < old(self).comments.viewing@.len() {
                old(self).comments.selected + 1
            } else {
                old(self).comments.viewing@.len() - 1
            }) && ui_now(old(self).ui, final(self).ui, old(self).ui.mode, true),
            final(self).comments.viewing@ == old(self).comments.viewing@,
    {
        if self.comments.viewing.len() == 0 {
            return;
        }
        self.comments.select_next();
        self.ui.dirty = true;
    }

    /// Select the previous listed comment (stopping at the first).
    pub fn comments_select_prev(&mut self)
        ensures
            same_except(*old(self), *final(self), true, false, false, false, true, false, false, false),
            final(self).comments.selected == (if old(self).comments.selected > 0 {
                old(self).comments.selected - 1
            } else {
                0
            }),
            final(self).comments.viewing@ == old(self).comments.viewing@,
            ui_now(old(self).ui, final(self).ui, old(self).ui.mode, true),
    {
        self.comments.select_prev();
        self.ui.dirty = true;
    }

    // -----------------------------------------------------------------
    // Pull requests
    // -----------------------------------------------------------------

    /// Open the pull request picker when `gh` is available (the host then
    /// fetches the list); returns whether it opened.
    pub fn open_pr_picker(&mut self, gh_available: bool) -> (opened: bool)
        ensures
            opened == gh_available,
            same_except(*old(self), *final(self), true, false, false, false, false, false, true, false),
            !gh_available ==> final(self).ui.error is Some && final(self).ui.error->0@ == "GitHub CLI not available. Run 'gh auth login'"@
                && final(self).ui.mode == old(self).ui.mode && final(self).pr == old(self).pr,
            gh_available ==> final(self).ui.mode == Mode::PRPicker && final(self).pr.picker_selected == 0
                && final(self).pr.picker_scroll == 0 && final(self).pr.loading && final(self).ui.error is None,
            final(self).ui.dirty,
    {
        if !gh_available {
            self.ui.error = Some("GitHub CLI not available. Run 'gh auth login'".to_owned());
            self.ui.dirty = true;
            return false;
        }
        self.ui.mode = Mode::PRPicker;
        self.pr.picker_selected = 0;
        self.pr.picker_scroll = 0;
        self.pr.loading = true;
        self.ui.error = None;
        self.ui.dirty = true;
        true
    }

    /// Close the picker and forget its list.
    pub fn close_pr_picker(&mut self)
        ensures
            same_except(*old(self), *final(self), true, false, false, false, false, false, true, false),
            ui_now(old(self).ui, final(self).ui, Mode::Normal, true),
            final(self).pr.list@.len() == 0,
            final(self).pr.picker_selected == 0,
            final(self).pr.picker_scroll == 0,
            !final(self).pr.loading,
            final(self).pr.filter == old(self).pr.filter,
            final(self).pr.active == old(self).pr.active,
    {
        self.ui.mode = Mode::Normal;
        self.pr.list = Vec::new();
        self.pr.picker_selected = 0;
        self.pr.picker_scroll = 0;
        self.pr.loading = false;
        self.ui.dirty = true;
    }

    /// Highlight the next pull request (stopping at the last).
    pub fn pr_picker_next(&mut self)
        ensures
            same_except(*old(self), *final(self), true, false, false, false, false, false, true, false),
            old(self).pr.list@.len() == 0 ==> *final(self) == *old(self),
            old(self).pr.list@.len() > 0 ==> final(self).pr.picker_selected == (if old(self).pr.picker_selected + 1
                < old(self).pr.list@.len() {
                old(self).pr.picker_selected + 1
            } else {
                old(self).pr.list@.len() - 1
            }) && ui_now(old(self).ui, final(self).ui, old(self).ui.mode, true),
            final(self).pr.filter == old(self).pr.filter,
    {
        if self.pr.list.len() == 0 {
            return;
        }
        self.pr.picker_next();
        self.ui.dirty = true;
    }

    /// Highlight the previous pull request (stopping at the first).
    pub fn pr_picker_prev(&mut self)
        ensures
            same_except(*old(self), *final(self), true, false, false, false, false, false, true, false),
            final(self).pr.picker_selected == (if old(self).pr.picker_selected > 0 {
                old(self).pr.picker_selected - 1
            } else {
                0
            }),
            final(self).pr.filter == old(self).pr.filter,
            ui_now(old(self).ui, final(self).ui, old(self).ui.mode, true),
    {
        self.pr.picker_prev();
        self.ui.dirty = true;
    }

    /// Cycle to the next list filter (the host then fetches the list).
    pub fn pr_picker_next_filter(&mut self)
        ensures
            same_except(*old(self), *final(self), true, false, false, false, false, false, true, false),
            final(self).pr.filter == next_filter(old(self).pr.filter),
            final(self).pr.picker_selected == 0,
            final(self).pr.loading,
            final(self).ui.error is None,
            final(self).ui.dirty,
    {
        self.pr.picker_next_filter();
        self.pr.loading = true;
        self.ui.error = None;
        self.ui.dirty = true;
    }

    /// Cycle to the previous list filter (the host then fetches the list).
    pub fn pr_picker_prev_filter(&mut self)
        ensures
            same_except(*old(self), *final(self), true, false, false, false, false, false, true, false),
            final(self).pr.filter == prev_filter(old(self).pr.filter),
            final(self).pr.picker_selected == 0,
            final(self).pr.loading,
            final(self).ui.error is None,
            final(self).ui.dirty,
    {
        self.pr.picker_prev_filter();
        self.pr.loading = true;
        self.ui.error = None;
        self.ui.dirty = true;
    }

    /// Begin a review action on the current pull request; refused outside
    /// pull request mode.
    fn start_pr_action(&mut self, kind: PRActionType)
        ensures
            same_except(*old(self), *final(self), true, false, false, false, false, false, true, false),
            !(old(self).pr.active && old(self).pr.current is Some) ==> final(self).ui.error is Some && final(self).ui.error->0@
                == "Not in PR mode"@ && final(self).ui.mode == old(self).ui.mode && final(self).pr == old(self).pr,
            (old(self).pr.active && old(self).pr.current is Some) ==> final(self).pr.action_type == Some(kind)
                && final(self).pr.action_text@.len() == 0 && ui_now(old(self).ui, final(self).ui, Mode::PRAction, true)
                && final(self).pr.active == old(self).pr.active && final(self).pr.current == old(self).pr.current,
            final(self).ui.dirty,
    {
        if !self.pr.active || self.pr.current.is_none() {
            self.ui.error = Some("Not in PR mode".to_owned());
            self.ui.dirty = true;
            return;
        }
        self.pr.action_type = Some(kind);
        self.pr.action_text = String::new();
        self.ui.mode = Mode::PRAction;
        self.ui.dirty = true;
    }

    /// Begin approving the current pull request.
    pub fn start_pr_approve(&mut self)
        ensures
            same_except(*old(self), *final(self), true, false, false, false, false, false, true, false),
            !(old(self).pr.active && old(self).pr.current is Some) ==> final(self).ui.error is Some && final(self).ui.error->0@
                == "Not in PR mode"@ && final(self).pr == old(self).pr,
            (old(self).pr.active && old(self).pr.current is Some) ==> final(self).pr.action_type == Some(PRActionType::Approve)
                && final(self).pr.action_text@.len() == 0 && ui_now(old(self).ui, final(self).ui, Mode::PRAction, true),
    {
        self.start_pr_action(PRActionType::Approve);
    }

    /// Begin commenting on the current pull request.
    pub fn start_pr_comment(&mut self)
        ensures
            same_except(*old(self), *final(self), true, false, false, false, false, false, true, false),
            !(old(self).pr.active && old(self).pr.current is Some) ==> final(self).ui.error is Some && final(self).ui.error->0@
                == "Not in PR mode"@ && final(self).pr == old(self).pr,
            (old(self).pr.active && old(self).pr.current is Some) ==> final(self).pr.action_type == Some(PRActionType::Comment)
                && final(self).pr.action_text@.len() == 0 && ui_now(old(self).ui, final(self).ui, Mode::PRAction, true),
    {
        self.start_pr_action(PRActionType::Comment);
    }

    /// Begin requesting changes on the current pull request.
    pub fn start_pr_request_changes(&mut self)
        ensures
            same_except(*old(self), *final(self), true, false, false, false, false, false, true, false),
            !(old(self).pr.active && old(self).pr.current is Some) ==> final(self).ui.error is Some && final(self).ui.error->0@
                == "Not in PR mode"@ && final(self).pr == old(self).pr,
            (old(self).pr.active && old(self).pr.current is Some) ==> final(self).pr.action_type == Some(
                PRActionType::RequestChanges,
            ) && final(self).pr.action_text@.len() == 0 && ui_now(old(self).ui, final(self).ui, Mode::PRAction, true),
    {
        self.start_pr_action(PRActionType::RequestChanges);
    }

    /// Drop the review action being composed.
    pub fn cancel_pr_action(&mut self)
        ensures
            same_except(*old(self), *final(self), true, false, false, false, false, false, true, false),
            ui_now(old(self).ui, final(self).ui, Mode::Normal, true),
            final(self).pr.action_type is None,
            final(self).pr.action_text@.len() == 0,
            final(self).pr.active == old(self).pr.active,
            final(self).pr.current == old(self).pr.current,
    {
        self.ui.mode = Mode::Normal;
        self.pr.action_type = None;
        self.pr.action_text = String::new();
        self.ui.dirty = true;
    }

    // -----------------------------------------------------------------
    // Reloading
    // -----------------------------------------------------------------

    /// A manual reload: the file list for live sources, the selected diff
    /// for fixed ones (with a message), and the pull request diff in pull
    /// request mode.
    pub fn manual_reload(&mut self) -> (r: ReloadAction)
        ensures
            same_except(*old(self), *final(self), true, false, false, false, false, false, false, false),
            (old(self).source is WorkingTree || old(self).source is Base) ==> r == ReloadAction::RefreshFileList
                && *final(self) == *old(self),
            (old(self).source is Commit || old(self).source is Range) ==> final(self).ui.dirty && final(self).ui.mode
                == old(self).ui.mode && final(self).ui.error == old(self).ui.error && (if old(self).files@.len() == 0 {
                r == ReloadAction::Nothing && final(self).ui.status is Some && final(self).ui.status->0@ == "No files to reload"@
            } else {
                r == ReloadAction::ReloadDiff && final(self).ui.status is Some && final(self).ui.status->0@ == "Reloaded current diff"@
            }),
            old(self).source is PullRequest ==> r == ReloadAction::ReloadDiff && final(self).ui.dirty && final(self).ui.status is Some && final(self).ui.status->0@ == "Reloaded PR diff"@,
    {
        match self.source {
            DiffSource::WorkingTree | DiffSource::Base(_) => ReloadAction::RefreshFileList,
            DiffSource::Commit(_) | DiffSource::Range { .. } => {
                let r = if self.files.len() == 0 {
                    self.ui.status = Some("No files to reload".to_owned());
                    ReloadAction::Nothing
                } else {
                    self.ui.status = Some("Reloaded current diff".to_owned());
                    ReloadAction::ReloadDiff
                };
                self.ui.dirty = true;
                r
            },
            DiffSource::PullRequest { .. } => {
                self.ui.status = Some("Reloaded PR diff".to_owned());
                self.ui.dirty = true;
                ReloadAction::ReloadDiff
            },
        }
    }
}

/// The files kept by a file filter: those whose path contains it.
pub open spec fn files_matching(files: Seq<ChangedFile>, filter: Option<Seq<char>>) -> Seq<ChangedFile>
    decreases files.len(),
{
    if files.len() == 0 {
        files
    } else {
        let rest = files_matching(files.drop_last(), filter);
        if filter is None || contains_text(files.last().path@, filter->0) {
            rest.push(files.last())
        } else {
            rest
        }
    }
}

/// How many of `files` are in `viewed`.
pub open spec fn count_viewed(files: Seq<ChangedFile>, viewed: Set<Seq<char>>) -> nat
    decreases files.len(),
{
    if files.len() == 0 {
        0
    } else {
        count_viewed(files.drop_last(), viewed) + (if viewed.contains(files.last().path@) { 1nat } else { 0 })
    }
}

/// The first file whose path is `p`.
pub open spec fn first_path(files: Seq<ChangedFile>, p: Seq<char>, k: int) -> bool {
    0 <= k < files.len() && files[k].path@ == p && forall|j: int| 0 <= j < k ==> files[j].path@ != p
}

impl App {
    /// The viewer for `files` of `source`, kept to those whose path
    /// contains `file_filter`, with the viewed marks of `viewed` and the
    /// theme `theme_name` ("default" when none). On the working tree the
    /// last selected file is selected again when listed. The host then
    /// requests the selected diff when there are files.
    pub fn new(
        source: DiffSource,
        files: Vec<ChangedFile>,
        file_filter: Option<&str>,
        viewed: FileViewedStore,
        theme_name: Option<&str>,
    ) -> (r: App)
        ensures
            r.source == source,
            r.files@ == files_matching(files@, crate::repo::opt_text(file_filter)),
            r.viewed == viewed,
            r.viewed_in_changeset == count_viewed(r.files@, viewed.viewed_set()),
            r.focus == Focus::Sidebar,
            r.ui.mode == Mode::Normal && r.ui.dirty && r.ui.error is None && r.ui.status is None,
            r.theme_original@ == (match theme_name {
                Some(t) => t@,
                None => "default"@,
            }),
            !r.should_quit && r.diff is None && !r.is_binary,
            r.sidebar.filtered_indices@.len() == 0 && r.sidebar.filter@.len() == 0,
            ({
                let last = viewed.spec_last_selected();
                if source is WorkingTree && last is Some && exists|k: int| first_path(r.files@, last->0, k) {
                    first_path(r.files@, last->0, r.sidebar.selected_idx as int)
                } else {
                    r.sidebar.selected_idx == 0
                }
            }),
            r.viewer.view_mode == DiffViewMode::HunksOnly && r.viewer.pane_mode == DiffPaneMode::Both,
            r.viewer.scroll_y == 0 && r.viewer.scroll_x == 0,
            !r.pr.active && !r.patch.active,
    {
        let ghost ft = crate::repo::opt_text(file_filter);
        let mut kept: Vec<ChangedFile> = Vec::new();
        let mut rest = files;
        let ghost all = rest@;
        let mut i: usize = 0;
        let n = rest.len();
        while i < n
            invariant
                i <= n,
                n == all.len(),
                rest@ == all.subrange(i as int, n as int),
                kept@ == files_matching(all.take(i as int), ft),
                ft == crate::repo::opt_text(file_filter),
            decreases n - i,
        {
            let f = rest.remove(0);
            proof {
                assert(all.subrange(i + 1, n as int) =~= all.subrange(i as int, n as int).remove(0));
                assert(all.take(i + 1).drop_last() =~= all.take(i as int));
                assert(all.take(i + 1).last() == all[i as int]);
            }
            let keep = match file_filter {
                None => true,
                Some(flt) => {
                    let cs = chars_of(f.path.as_str());
                    contains_exec(cs.as_slice(), flt)
                },
            };
            if keep {
                kept.push(f);
            }
            i = i + 1;
        }
        assert(all.take(n as int) =~= all);
        let mut count: usize = 0;
        let mut j: usize = 0;
        while j < kept.len()
            invariant
                j <= kept@.len(),
                count == count_viewed(kept@.take(j as int), viewed.viewed_set()),
                count <= j,
            decreases kept@.len() - j,
        {
            proof {
                assert(kept@.take(j + 1).drop_last() =~= kept@.take(j as int));
                assert(kept@.take(j + 1).last() == kept@[j as int]);
            }
            if viewed.is_viewed(&kept[j].path) {
                count = count + 1;
            }
            j = j + 1;
        }
        assert(kept@.take(kept@.len() as int) =~= kept@);
        let mut selected: usize = 0;
        let working = match source {
            DiffSource::WorkingTree => true,
            _ => false,
        };
        if working {
            match viewed.last_selected() {
                Some(last) => {
                    let mut k: usize = 0;
                    let mut found = false;
                    let lc = chars_of(last);
                    while k < kept.len() && !found
                        invariant
                            k <= kept@.len(),
                            lc@ == last@,
                            forall|q: int| 0 <= q < k ==> kept@[q].path@ != last@,
                            found ==> k < kept@.len() && kept@[k as int].path@ == last@,
                        decreases kept@.len() - k + (if found { 0int } else { 1int }),
                    {
                        if crate::strings::chars_eq(chars_of(kept[k].path.as_str()).as_slice(), lc.as_slice()) {
                            found = true;
                        } else {
                            k = k + 1;
                        }
                    }
                    proof {
                        if !found {
                            assert forall|q: int| !first_path(kept@, last@, q) by {
                                if 0 <= q < kept@.len() {
                                    assert(kept@[q].path@ != last@);
                                }
                            }
                        } else {
                            assert(first_path(kept@, last@, k as int));
                        }
                    }
                    if found {
                        selected = k;
                    }
                },
                None => {},
            }
        }
        let theme_original = match theme_name {
            Some(t) => t.to_owned(),
            None => "default".to_owned(),
        };
        let mut ui = UiState::default();
        ui.dirty = true;
        App {
            source,
            files: kept,
            sidebar: SidebarState { selected_idx: selected, ..SidebarState::default() },
            focus: Focus::Sidebar,
            viewed,
            viewed_in_changeset: count,
            should_quit: false,
            diff: None,
            is_binary: false,
            viewer: ViewerState::default(),
            ui,
            comments: CommentsState::default(),
            themes: ThemeSelector { list: Vec::new(), idx: 0 },
            theme_original,
            pr: PrState::default(),
            patch: PatchState::default(),
            fuzzy_matcher: FuzzyMatcher::new(),
        }
    }

    /// Begin loading the selected file's diff: clears the messages, the
    /// old diff and the binary mark and rewinds the view; returns the file
    /// to load (`None` when nothing is selected). In patch and pull request
    /// mode the host computes the diff from the patch text instead and
    /// nothing changes here.
    pub fn request_current_diff(&mut self) -> (r: Option<usize>)
        ensures
            (old(self).patch.active || old(self).pr.active) ==> *final(self) == *old(self) && r is None,
            !(old(self).patch.active || old(self).pr.active) ==> ({
                &&& final(self).ui.error is None
                &&& final(self).ui.status is None
                &&& final(self).ui.mode == old(self).ui.mode
                &&& !final(self).is_binary
                &&& final(self).diff is None
                &&& final(self).viewer.hunk_view_rows@.len() == 0
                &&& final(self).files == old(self).files
                &&& final(self).sidebar == old(self).sidebar
                &&& final(self).source == old(self).source
                &&& final(self).focus == old(self).focus
                &&& final(self).viewer.view_mode == old(self).viewer.view_mode
                &&& final(self).viewer.pane_mode == old(self).viewer.pane_mode
                &&& if old(self).sidebar.selected_idx < old(self).files@.len() {
                    &&& r == Some(old(self).sidebar.selected_idx)
                    &&& final(self).viewer.scroll_y == 0 && final(self).viewer.scroll_x == 0
                    &&& final(self).ui.dirty
                } else {
                    r is None && final(self).ui.dirty == old(self).ui.dirty
                }
            }),
    {
        if self.patch.active || self.pr.active {
            return None;
        }
        self.ui.error = None;
        self.ui.status = None;
        self.is_binary = false;
        self.diff = None;
        self.viewer.hunk_view_rows = Vec::new();
        if self.sidebar.selected_idx >= self.files.len() {
            return None;
        }
        self.viewer.scroll_y = 0;
        self.viewer.scroll_x = 0;
        self.ui.dirty = true;
        Some(self.sidebar.selected_idx)
    }

    /// The hunk at the top of the diff, 1-based, and the number of hunks.
    pub fn current_hunk_info(&self) -> (r: Option<(usize, usize)>)
        ensures
            r matches Some((i, n)) ==> (self.diff matches Some(d) && n == d.spec_hunks().len() && 1 <= i <= n
                && (diff_row_at(self.viewer, opt_ref(&self.diff), self.viewer.scroll_y) matches Some(row)
                && d.spec_hunks()[i - 1].start_row <= row < d.spec_hunks()[i - 1].start_row + d.spec_hunks()[i - 1].row_count)),
            r is None ==> (self.diff is None || self.diff->0.spec_hunks().len() == 0 || diff_row_at(self.viewer, opt_ref(&self.diff), self.viewer.scroll_y)
                is None || forall|k: int| 0 <= k < self.diff->0.spec_hunks().len() ==> !(#[trigger] self.diff->0.spec_hunks()[k].start_row
                <= diff_row_at(self.viewer, opt_ref(&self.diff), self.viewer.scroll_y)->0 < self.diff->0.spec_hunks()[k].start_row
                + self.diff->0.spec_hunks()[k].row_count)),
    {
        self.viewer.current_hunk_info(self.diff.as_ref())
    }

    /// Open the comment list on `items` (the selected file's comments in
    /// this context); with none, only a message says so.
    pub fn show_comments(&mut self, items: Vec<CommentViewItem>)
        ensures
            same_except(*old(self), *final(self), true, false, false, false, true, false, false, false),
            !final(self).comments.include_resolved,
            final(self).comments.viewing@ == items@,
            final(self).comments.selected == 0,
            final(self).comments.scroll == 0,
            final(self).comments.draft == old(self).comments.draft,
            final(self).ui.dirty,
            final(self).ui.error == old(self).ui.error,
            items@.len() == 0 ==> final(self).ui.mode == old(self).ui.mode && final(self).ui.status is Some
                && final(self).ui.status->0@ == "No comments on this file"@,
            items@.len() > 0 ==> final(self).ui.mode == Mode::ViewComments && final(self).ui.status == old(self).ui.status,
    {
        let empty = items.len() == 0;
        self.comments.include_resolved = false;
        self.comments.viewing = items;
        self.comments.selected = 0;
        self.comments.scroll = 0;
        if empty {
            self.ui.status = Some("No comments on this file".to_owned());
            self.ui.dirty = true;
            return;
        }
        self.ui.mode = Mode::ViewComments;
        self.ui.dirty = true;
    }

    /// Jump to the selected comment's hunk and close the list; a stale
    /// comment only gets a message.
    pub fn comments_jump_to_selected(&mut self)
        ensures
            old(self).comments.viewing@.len() == 0 || old(self).comments.selected >= old(self).comments.viewing@.len()
                ==> *final(self) == *old(self),
            old(self).comments.selected < old(self).comments.viewing@.len() ==> ({
                let item = old(self).comments.viewing@[old(self).comments.selected as int];
                match item.hunk_start_row {
                    None => same_except(*old(self), *final(self), true, false, false, false, false, false, false, false)
                        && final(self).ui.status is Some && final(self).ui.status->0@ == "Comment anchor is stale (hunk not found)"@
                        && final(self).ui.dirty && final(self).ui.mode == old(self).ui.mode,
                    Some(row) => {
                        &&& final(self).focus == Focus::Diff
                        &&& final(self).ui.mode == Mode::Normal
                        &&& final(self).ui.dirty
                        &&& final(self).comments.viewing@.len() == 0
                        &&& final(self).comments.selected == 0
                        &&& final(self).viewer.view_mode == old(self).viewer.view_mode
                        &&& final(self).files == old(self).files
                    },
                }
            }),
    {
        if self.comments.viewing.len() == 0 || self.comments.selected >= self.comments.viewing.len() {
            return;
        }
        let row = self.comments.viewing[self.comments.selected].hunk_start_row;
        match row {
            None => {
                self.ui.status = Some("Comment anchor is stale (hunk not found)".to_owned());
                self.ui.dirty = true;
            },
            Some(row) => {
                let target = match self.viewer.diff_row_to_view_row(self.diff.as_ref(), row) {
                    Some(v) => v,
                    None => 0,
                };
                self.viewer.scroll_y = target;
                self.focus = Focus::Diff;
                self.close_comments();
            },
        }
    }
}

} // verus!
