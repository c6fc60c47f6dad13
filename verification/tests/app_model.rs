use quickdiff::app_state::{App, ReloadAction};
use quickdiff::comments::CommentStatus;
use quickdiff::diff::DiffResult;
use quickdiff::repo::{ChangedFile, DiffSource, FileChangeKind, RelPath};
use quickdiff::text::TextBuffer;
use quickdiff::view_state::{CommentViewItem, Focus, Mode};
use quickdiff::viewed::{FileViewedStore, RepoState, ViewedStore};

fn files(paths: &[&str]) -> Vec<ChangedFile> {
    paths.iter().map(|p| ChangedFile::new(RelPath::new(p), FileChangeKind::Modified)).collect()
}

fn store(viewed: &[&str], last: Option<&str>) -> FileViewedStore {
    let state = RepoState {
        viewed: viewed.iter().map(|s| s.to_string()).collect(),
        last_selected: last.map(|s| s.to_string()),
    };
    FileViewedStore::with_path("/repo", "/tmp/state.json".to_string(), Some(&state))
}

fn app(paths: &[&str]) -> App {
    App::new(DiffSource::WorkingTree, files(paths), None, store(&[], None), None)
}

#[test]
fn new_filters_counts_and_restores_selection() {
    let a = App::new(
        DiffSource::WorkingTree,
        files(&["src/a.rs", "README.md", "src/b.rs"]),
        Some("src"),
        store(&["src/b.rs", "README.md"], Some("src/b.rs")),
        Some("nord"),
    );
    assert_eq!(a.files.len(), 2);
    assert_eq!(a.viewed_in_changeset, 1);
    assert_eq!(a.sidebar.selected_idx, 1);
    assert_eq!(a.theme_original, "nord");
    assert_eq!(a.viewed_status(), "1/2");
    assert!(a.is_current_viewed());
    assert!(a.is_worktree_mode());
    let commit = App::new(DiffSource::Commit("abc".to_string()), files(&["x", "y"]), None, store(&[], Some("y")), None);
    assert_eq!(commit.sidebar.selected_idx, 0);
    assert_eq!(commit.theme_original, "default");
    assert!(!commit.is_worktree_mode());
}

#[test]
fn selection_moves_within_list() {
    let mut a = app(&["a", "b", "c"]);
    assert!(!a.select_prev());
    assert!(a.select_next());
    assert!(a.select_next());
    assert!(!a.select_next());
    assert_eq!(a.sidebar.selected_idx, 2);
    assert_eq!(a.request_current_diff(), Some(2));
}

#[test]
fn viewing_a_file_moves_to_the_next_unviewed() {
    let mut a = App::new(DiffSource::WorkingTree, files(&["a", "b", "c"]), None, store(&["b"], None), None);
    assert!(a.toggle_viewed());
    assert_eq!(a.sidebar.selected_idx, 2);
    assert_eq!(a.viewed_in_changeset, 2);
    assert!(!a.toggle_viewed());
    assert_eq!(a.viewed_in_changeset, 3);
    // Unmarking does not move.
    let mut b = App::new(DiffSource::WorkingTree, files(&["a", "b"]), None, store(&["a"], None), None);
    assert!(!b.toggle_viewed());
    assert_eq!(b.sidebar.selected_idx, 0);
    assert_eq!(b.viewed_in_changeset, 0);
    assert!(!b.viewed.is_viewed(&RelPath::new("a")));
}

#[test]
fn focus_and_help() {
    let mut a = app(&["a"]);
    a.toggle_focus();
    assert_eq!(a.focus, Focus::Diff);
    a.toggle_focus();
    assert_eq!(a.focus, Focus::Sidebar);
    a.open_help();
    assert_eq!(a.ui.mode, Mode::Help);
    a.close_help();
    assert_eq!(a.ui.mode, Mode::Normal);
    a.clear_dirty();
    a.set_focus(Focus::Sidebar);
    assert!(!a.ui.dirty);
}

#[test]
fn filter_flow() {
    let mut a = app(&["src/main.rs", "docs/guide.md", "src/lib.rs"]);
    a.start_filter();
    assert_eq!(a.ui.mode, Mode::FilterFiles);
    a.sidebar.filter = "guide".to_string();
    let moved = a.update_filter_live();
    assert!(moved);
    assert_eq!(a.sidebar.filtered_indices, vec![1]);
    assert_eq!(a.sidebar.selected_idx, 1);
    a.apply_filter();
    assert_eq!(a.ui.mode, Mode::Normal);
    a.clear_filter();
    assert!(a.sidebar.filtered_indices.is_empty());
}

#[test]
fn theme_selector_flow() {
    let mut a = app(&["a"]);
    a.open_theme_selector(vec!["default".to_string(), "dracula".to_string(), "nord".to_string()]);
    assert_eq!(a.ui.mode, Mode::SelectTheme);
    assert_eq!(a.themes.idx, 0);
    assert_eq!(a.theme_select_next(), Some("dracula".to_string()));
    assert_eq!(a.theme_select_prev(), Some("default".to_string()));
    assert_eq!(a.theme_select_prev(), None);
    a.theme_select_next();
    a.theme_select_next();
    assert_eq!(a.theme_select_next(), None);
    a.theme_apply();
    assert_eq!(a.theme_original, "nord");
    a.open_theme_selector(vec!["default".to_string(), "nord".to_string()]);
    assert_eq!(a.themes.idx, 1);
    assert_eq!(a.close_theme_selector(), "nord");
    assert_eq!(a.ui.mode, Mode::Normal);
}

#[test]
fn diff_navigation_and_comment_start() {
    let mut a = app(&["a"]);
    a.start_add_comment();
    assert_eq!(a.ui.error.as_deref(), Some("No diff available"));
    let old = TextBuffer::new(b"1\n2\n3\n4\n5\n6\n7\n8\n9\n10\n11\n12\n");
    let new = TextBuffer::new(b"1\nx\n3\n4\n5\n6\n7\n8\n9\n10\ny\n12\n");
    a.diff = Some(DiffResult::compute(&old, &new));
    a.toggle_diff_view_mode();
    a.toggle_diff_view_mode();
    a.scroll_diff(0, 0);
    a.start_add_comment();
    assert_eq!(a.ui.mode, Mode::AddComment);
    a.cancel_add_comment();
    assert_eq!(a.ui.mode, Mode::Normal);
    let (first, total) = a.current_hunk_info().expect("on a hunk");
    assert_eq!(total, a.diff.as_ref().unwrap().hunks().len());
    assert_eq!(first, 1);
    a.scroll_diff(-5, 3);
    assert_eq!(a.viewer.scroll_x, 3);
    a.toggle_old_fullscreen();
    a.toggle_old_fullscreen();
}

#[test]
fn comments_list_flow() {
    let mut a = app(&["a"]);
    a.show_comments(Vec::new());
    assert_eq!(a.ui.status.as_deref(), Some("No comments on this file"));
    let item = |id, row| CommentViewItem {
        id,
        status: CommentStatus::Open,
        message: "m".to_string(),
        anchor_summary: "a".to_string(),
        hunk_start_row: row,
        stale: row.is_none(),
    };
    a.show_comments(vec![item(1, None), item(2, Some(0))]);
    assert_eq!(a.ui.mode, Mode::ViewComments);
    a.comments_jump_to_selected();
    assert_eq!(a.ui.status.as_deref(), Some("Comment anchor is stale (hunk not found)"));
    a.comments_select_next();
    a.comments_select_next();
    assert_eq!(a.comments.selected, 1);
    a.comments_jump_to_selected();
    assert_eq!(a.focus, Focus::Diff);
    assert_eq!(a.ui.mode, Mode::Normal);
    assert!(a.comments.viewing.is_empty());
}

#[test]
fn pr_picker_and_actions() {
    let mut a = app(&["a"]);
    assert!(!a.open_pr_picker(false));
    assert_eq!(a.ui.error.as_deref(), Some("GitHub CLI not available. Run 'gh auth login'"));
    assert!(a.open_pr_picker(true));
    assert_eq!(a.ui.mode, Mode::PRPicker);
    assert!(a.pr.loading);
    a.pr_picker_next_filter();
    a.pr_picker_prev_filter();
    a.close_pr_picker();
    assert_eq!(a.ui.mode, Mode::Normal);
    a.start_pr_approve();
    assert_eq!(a.ui.error.as_deref(), Some("Not in PR mode"));
    a.cancel_pr_action();
    assert!(a.pr.action_type.is_none());
}

#[test]
fn reload_depends_on_source() {
    let mut a = app(&["a"]);
    assert_eq!(a.manual_reload(), ReloadAction::RefreshFileList);
    let mut c = App::new(DiffSource::Commit("abc".to_string()), Vec::new(), None, store(&[], None), None);
    assert_eq!(c.manual_reload(), ReloadAction::Nothing);
    assert_eq!(c.ui.status.as_deref(), Some("No files to reload"));
    let mut d = App::new(DiffSource::Commit("abc".to_string()), files(&["x"]), None, store(&[], None), None);
    assert_eq!(d.manual_reload(), ReloadAction::ReloadDiff);
    assert_eq!(d.source_display(Some("abc1234")), "abc1234".to_string());
}
