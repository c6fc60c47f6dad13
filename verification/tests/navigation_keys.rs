use quickdiff::diff::DiffResult;
use quickdiff::fuzzy::FuzzyMatcher;
use quickdiff::gh::PRFilter;
use quickdiff::comments::{selector_from_hunk, Anchor, CommentContext, CommentStatus, DiffHunkSelectorV1, Selector};
use quickdiff::comments_store::CommentsState as StoredComments;
use quickdiff::navigation::{comment_view_items, commented_hunks, hunk_digests, next_unviewed, position_of, ThemeSelector};
use quickdiff::repo::{ChangedFile, FileChangeKind, RelPath};
use quickdiff::text::TextBuffer;
use quickdiff::view_state::{
    build_view_rows, CommentsState, DiffPaneMode, DiffViewMode, PrState, SidebarState, ViewerState,
};

fn files(names: &[&str]) -> Vec<ChangedFile> {
    names.iter().map(|n| ChangedFile::new(RelPath::new(n), FileChangeKind::Modified)).collect()
}

#[test]
fn select_moves_through_whole_list() {
    let mut s = SidebarState::default();
    assert!(!s.select_prev());
    assert!(s.select_next(3));
    assert!(s.select_next(3));
    assert_eq!(s.selected_idx, 2);
    assert!(!s.select_next(3));
    assert!(s.select_prev());
    assert_eq!(s.selected_idx, 1);
}

#[test]
fn select_follows_filter_order() {
    let mut s = SidebarState::default();
    s.filtered_indices = vec![4, 1, 3];
    s.selected_idx = 1;
    assert!(s.select_next(10));
    assert_eq!(s.selected_idx, 3);
    assert!(!s.select_next(10));
    assert!(s.select_prev());
    assert!(s.select_prev());
    assert_eq!(s.selected_idx, 4);
    assert!(!s.select_prev());
    s.selected_idx = 7;
    assert!(!s.select_next(10));
    assert_eq!(s.selected_idx, 7);
}

#[test]
fn visible_files_respect_filter() {
    let fs = files(&["a", "b", "c"]);
    let mut s = SidebarState::default();
    let all: Vec<usize> = s.visible_files(&fs).iter().map(|p| p.0).collect();
    assert_eq!(all, vec![0, 1, 2]);
    s.filtered_indices = vec![2, 9, 0];
    let some: Vec<usize> = s.visible_files(&fs).iter().map(|p| p.0).collect();
    assert_eq!(some, vec![2, 0]);
    assert_eq!(s.visible_files(&fs)[0].1.path.as_str(), "c");
    assert!(s.is_file_visible(2));
    assert!(!s.is_file_visible(1));
}

#[test]
fn filter_selects_best_match() {
    let mut s = SidebarState::default();
    s.filter = "  main ".to_string();
    s.selected_idx = 0;
    let mut m = FuzzyMatcher::new();
    let cands = vec![(0, "lib.rs"), (1, "main.rs")];
    assert!(s.recompute_filter(&mut m, &cands));
    assert_eq!(s.filtered_indices, vec![1]);
    assert_eq!(s.selected_idx, 1);
    s.filter = "   ".to_string();
    assert!(!s.recompute_filter(&mut m, &cands));
    assert!(s.filtered_indices.is_empty());
    assert!(!s.clear_filter());
    s.filtered_indices = vec![1];
    assert!(s.clear_filter());
    assert!(s.filter.is_empty());
}

#[test]
fn next_unviewed_wraps_around() {
    let viewed = vec![true, false, true, false];
    assert_eq!(next_unviewed(&[0, 1, 2, 3], 1, &viewed), Some(3));
    assert_eq!(next_unviewed(&[0, 1, 2, 3], 3, &viewed), Some(1));
    assert_eq!(next_unviewed(&[0, 2], 0, &viewed), None);
    assert_eq!(next_unviewed(&[], 0, &viewed), None);
    assert_eq!(position_of(&[5, 6, 5], 5), Some(0));
}

#[test]
fn theme_selector_moves_and_stops() {
    let list = vec!["a".to_string(), "b".to_string(), "c".to_string()];
    let mut t = ThemeSelector::open(list.clone(), "b");
    assert_eq!(t.idx, 1);
    assert!(t.select_next());
    assert!(!t.select_next());
    assert_eq!(t.current().map(|s| s.as_str()), Some("c"));
    assert!(t.select_prev());
    assert!(t.select_prev());
    assert!(!t.select_prev());
    let u = ThemeSelector::open(list, "zzz");
    assert_eq!(u.idx, 0);
}

fn sample_diff() -> DiffResult {
    let old = TextBuffer::new(b"l1\nl2\nl3\nl4\nl5\nl6\nl7\nl8\nl9\nl10\n");
    let new = TextBuffer::new(b"l1\nx\nl3\nl4\nl5\nl6\nl7\ny\nl9\nl10\n");
    DiffResult::compute_with_context(&old, &new, 1)
}

#[test]
fn viewer_scrolls_within_rows() {
    let diff = sample_diff();
    let mut v = ViewerState::default();
    v.view_mode = DiffViewMode::FullFile;
    assert!(v.scroll(Some(&diff), 3, 2));
    assert_eq!((v.scroll_y, v.scroll_x), (3, 2));
    assert!(v.scroll(Some(&diff), 100, 0));
    assert_eq!(v.scroll_y, diff.row_count() - 1);
    assert!(v.scroll(Some(&diff), -100, -100));
    assert_eq!((v.scroll_y, v.scroll_x), (0, 0));
    assert!(!v.scroll(None, 0, 0));
}

#[test]
fn viewer_jumps_between_hunks() {
    let diff = sample_diff();
    let mut v = ViewerState::default();
    v.view_mode = DiffViewMode::FullFile;
    assert!(v.next_hunk(&diff));
    let first = diff.hunks()[0].start_row;
    assert!(first > 0 || v.scroll_y == diff.hunks()[1].start_row);
    let info = v.current_hunk_info(Some(&diff)).unwrap();
    assert_eq!(info.1, 2);
    while v.next_hunk(&diff) {}
    assert_eq!(v.scroll_y, diff.hunks()[1].start_row);
    assert!(v.prev_hunk(&diff));
    assert_eq!(v.scroll_y, diff.hunks()[0].start_row);
}

#[test]
fn viewer_toggles_modes() {
    let diff = sample_diff();
    let mut v = ViewerState::default();
    v.hunk_view_rows = build_view_rows(&diff, DiffViewMode::HunksOnly);
    v.toggle_view_mode(Some(&diff));
    assert_eq!(v.view_mode, DiffViewMode::FullFile);
    assert!(v.hunk_view_rows.is_empty());
    assert_eq!(v.scroll_y, diff.hunks()[0].start_row);
    v.toggle_view_mode(Some(&diff));
    assert_eq!(v.view_mode, DiffViewMode::HunksOnly);
    assert_eq!(v.view_row_count(Some(&diff)), v.hunk_view_rows.len());
    v.toggle_old_fullscreen();
    assert_eq!(v.pane_mode, DiffPaneMode::OldOnly);
    v.toggle_new_fullscreen();
    assert_eq!(v.pane_mode, DiffPaneMode::NewOnly);
    v.toggle_new_fullscreen();
    assert_eq!(v.pane_mode, DiffPaneMode::Both);
}

#[test]
fn picker_and_comment_lists_clamp() {
    let mut c = CommentsState::default();
    c.select_next();
    assert_eq!(c.selected, 0);
    c.select_prev();
    assert_eq!(c.selected, 0);
    let mut p = PrState::default();
    p.picker_next();
    assert_eq!(p.picker_selected, 0);
    p.picker_next_filter();
    assert_eq!(p.filter, PRFilter::Mine);
    p.picker_prev_filter();
    p.picker_prev_filter();
    assert_eq!(p.filter, PRFilter::ReviewRequested);
    assert!(p.picker_choice().is_none());
}

fn anchor_on(diff: &DiffResult, hunk: usize) -> Anchor {
    Anchor { selectors: vec![Selector::DiffHunkV1(selector_from_hunk(diff, hunk).unwrap())] }
}

#[test]
fn comments_land_on_their_hunks() {
    let diff = sample_diff();
    let digests = hunk_digests(&diff);
    assert_eq!(digests.len(), 2);
    assert_eq!(digests[1].1, 1);
    assert_eq!(digests[1].2, diff.hunks()[1].start_row);
    let mut stored = StoredComments::default();
    stored.add_comment(RelPath::new("f"), CommentContext::Worktree, "on second".to_string(), anchor_on(&diff, 1), None);
    stored.add_comment(RelPath::new("f"), CommentContext::Base { base: "x".to_string() }, "other".to_string(), anchor_on(&diff, 0), None);
    let stale = Anchor {
        selectors: vec![Selector::DiffHunkV1(DiffHunkSelectorV1 {
            old_range: (0, 1),
            new_range: (0, 1),
            digest_hex: "0000000000000000".to_string(),
        })],
    };
    stored.add_comment(RelPath::new("f"), CommentContext::Unscoped, "stale".to_string(), stale, None);
    stored.resolve_comment(1, None);
    let comments = stored.list_comments(true);
    let hunks = commented_hunks(&digests, &comments, &CommentContext::Worktree);
    assert_eq!(hunks, vec![1]);

    let items = comment_view_items(&digests, &comments, &CommentContext::Worktree);
    let ids: Vec<u64> = items.iter().map(|i| i.id).collect();
    assert_eq!(ids, vec![3, 1]);
    assert!(items[0].stale);
    assert_eq!(items[1].status, CommentStatus::Resolved);
    assert_eq!(items[1].hunk_start_row, Some(diff.hunks()[1].start_row));

    let mut view = CommentsState::default();
    view.set_viewing(items.clone());
    assert_eq!(view.selected, 0);
    view.select_next();
    assert_eq!(view.selected, 1);
    view.scroll = 5;
    let kept: Vec<_> = items.iter().rev().cloned().collect();
    view.set_viewing(kept);
    assert_eq!(view.selected, 0);
    assert_eq!(view.scroll, 1);
    view.set_viewing(Vec::new());
    assert_eq!((view.selected, view.scroll), (0, 0));
}
