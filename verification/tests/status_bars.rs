use quickdiff::bars::diff_header_segments;
use quickdiff::view_state::{DiffPaneMode, DiffViewMode};
use quickdiff::bars::{bottom_bar_segments, top_bar_segments, BarRole, BarSegment};
use quickdiff::repo::FileChangeKind;
use quickdiff::view_state::{Focus, Mode};

fn joined(segs: &[BarSegment]) -> String {
    segs.iter().map(|s| s.text.as_str()).collect()
}

#[test]
fn top_bar_fills_width_with_hunk_counter_right() {
    let segs = top_bar_segments(
        Some(("src/main.rs", FileChangeKind::Modified)),
        None,
        true,
        false,
        Some(2),
        true,
        Some((1, 3)),
        60,
    );
    let text = joined(&segs);
    assert!(text.starts_with("  M  src/main.rs  \u{2713} viewed  2 comments"));
    assert!(text.ends_with("hunk 1/3  "));
    assert_eq!(text.chars().count(), 60);
    assert_eq!(segs[1].role, BarRole::Kind(FileChangeKind::Modified));
    assert_eq!(segs.last().unwrap().role, BarRole::Accent);
}

#[test]
fn top_bar_pr_badge_and_no_file() {
    let segs = top_bar_segments(None, Some(42), false, true, Some(5), true, None, 10);
    let text = joined(&segs);
    assert_eq!(text, "   PR #42  No files  [binary]");
    assert_eq!(segs[1].role, BarRole::PrBadge);
    // Narrower than its text: no padding, no counter.
    assert_eq!(segs.last().unwrap().text, "");
}

#[test]
fn top_bar_comments_only_in_worktree_mode() {
    let segs = top_bar_segments(Some(("a", FileChangeKind::Added)), None, false, false, Some(2), false, None, 0);
    assert_eq!(joined(&segs), "  A  a");
    let zero = top_bar_segments(Some(("a", FileChangeKind::Added)), None, false, false, Some(0), true, None, 0);
    assert_eq!(joined(&zero), "  A  a");
}

#[test]
fn bottom_bar_comment_input() {
    let segs = bottom_bar_segments(Mode::AddComment, "hello", "", 0, 0, false, None, None, Focus::Diff, false);
    assert_eq!(joined(&segs), " Comment: hello\u{2588}  Enter: save  Esc: cancel");
    assert_eq!(segs[1].role, BarRole::Bright);
}

#[test]
fn bottom_bar_filter_counts() {
    let all = bottom_bar_segments(Mode::FilterFiles, "", "", 3, 7, false, None, None, Focus::Sidebar, false);
    assert_eq!(joined(&all), " Filter: \u{2588} (7/7)  Enter: apply  Esc: cancel");
    let some = bottom_bar_segments(Mode::FilterFiles, "", "rs", 3, 7, false, None, None, Focus::Sidebar, false);
    assert_eq!(joined(&some), " Filter: rs\u{2588} (3/7)  Enter: apply  Esc: cancel");
}

#[test]
fn bottom_bar_overlays_and_messages() {
    let comments = bottom_bar_segments(Mode::ViewComments, "", "", 0, 0, true, None, None, Focus::Diff, false);
    assert!(joined(&comments).starts_with(" Comments (all) "));
    let theme = bottom_bar_segments(Mode::SelectTheme, "", "", 0, 0, false, Some("ignored"), None, Focus::Diff, false);
    assert_eq!(joined(&theme), " Theme  j/k: move  Enter: apply  Esc: cancel");
    let err = bottom_bar_segments(Mode::Normal, "", "", 0, 0, false, Some("boom"), Some("ok"), Focus::Diff, false);
    assert_eq!(joined(&err), " \u{2717} boom");
    assert_eq!(err[1].role, BarRole::Error);
    let ok = bottom_bar_segments(Mode::Normal, "", "", 0, 0, false, None, Some("saved"), Focus::Diff, false);
    assert_eq!(joined(&ok), " \u{2713} saved");
}

#[test]
fn bottom_bar_key_hints() {
    let segs = bottom_bar_segments(Mode::Normal, "", "", 0, 0, false, None, None, Focus::Sidebar, false);
    assert_eq!(
        joined(&segs),
        " j/k navigate  \u{21b5} open  / filter  \u{2423} view+next  \u{21e5} switch  P PRs  q quit"
    );
    let pr = bottom_bar_segments(Mode::Normal, "", "", 0, 0, false, None, None, Focus::Diff, true);
    let text = joined(&pr);
    assert!(text.contains("A approve  R req-chg  O open  P exit PR  q quit"));
    assert!(text.starts_with(" j/k scroll  {/} hunks"));
    assert_eq!(pr[1].role, BarRole::Key);
    assert_eq!(pr[2].role, BarRole::Desc);
}

#[test]
fn diff_header_layout() {
    let segs = diff_header_segments(
        Some(("src/lib.rs", FileChangeKind::Added)),
        Some((2, 5)),
        DiffViewMode::HunksOnly,
        DiffPaneMode::Both,
        DiffPaneMode::NewOnly,
        false,
        true,
        80,
    );
    let text = joined(&segs);
    assert!(text.starts_with("  A  src/lib.rs"));
    assert!(text.ends_with("hunk 2/5  hunks  auto new  nowrap  nums "));
    assert_eq!(text.chars().count(), 80);
    assert_eq!(segs[1].role, BarRole::KindBadge(FileChangeKind::Added));

    let narrow = diff_header_segments(
        Some(("a/very/long/path/name.rs", FileChangeKind::Modified)),
        None,
        DiffViewMode::FullFile,
        DiffPaneMode::OldOnly,
        DiffPaneMode::OldOnly,
        true,
        false,
        40,
    );
    let t = joined(&narrow);
    assert!(t.ends_with("full  old  wrap  nonums "));
    assert!(t.contains('\u{2026}'));
    let none = diff_header_segments(None, None, DiffViewMode::FullFile, DiffPaneMode::Both, DiffPaneMode::Both, false, false, 60);
    assert!(joined(&none).starts_with(" No file selected"));
}
