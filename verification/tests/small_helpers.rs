use quickdiff::gh::{
    command_failure, diff_too_large, drop_drafts, list_failure, pr_list_args, review_args, GhError, PRAuthor,
    PRFilter, PullRequest, ReviewKind, MAX_DIFF_SIZE,
};
use quickdiff::stdin_input::looks_like_unified_diff;
use quickdiff::watcher::is_ignored_path;
use quickdiff::windowing::{overscanned_range, visible_range};

#[test]
fn pr_filter_default_is_all() {
    assert_eq!(PRFilter::default(), PRFilter::All);
}

#[test]
fn pr_list_args_per_filter() {
    let all = pr_list_args(PRFilter::All);
    assert_eq!(all[..4], ["pr", "list", "--state", "open"]);
    assert_eq!(all.len(), 6);
    let mine = pr_list_args(PRFilter::Mine);
    assert_eq!(mine[6..], ["--author", "@me"]);
    let rr = pr_list_args(PRFilter::ReviewRequested);
    assert_eq!(rr[6..], ["--search", "review-requested:@me"]);
}

#[test]
fn gh_failures_map_to_errors() {
    assert!(matches!(list_failure("error: gh auth login required"), GhError::NotAvailable));
    match list_failure("  boom \n") {
        GhError::ApiError(m) => assert_eq!(m, "boom"),
        other => panic!("unexpected {:?}", other),
    }
    match command_failure("\tbad\n") {
        GhError::ApiError(m) => assert_eq!(m, "bad"),
        other => panic!("unexpected {:?}", other),
    }
    assert!(diff_too_large(MAX_DIFF_SIZE).is_none());
    assert!(matches!(diff_too_large(MAX_DIFF_SIZE + 1), Some(GhError::DiffTooLarge { max }) if max == MAX_DIFF_SIZE));
}

fn pr(number: u32, draft: bool) -> PullRequest {
    PullRequest {
        number,
        title: format!("t{}", number),
        head_ref_name: "h".to_string(),
        base_ref_name: "main".to_string(),
        author: PRAuthor { login: "me".to_string() },
        additions: 1,
        deletions: 2,
        changed_files: 3,
        is_draft: draft,
    }
}

#[test]
fn drop_drafts_keeps_order() {
    let out = drop_drafts(vec![pr(1, false), pr(2, true), pr(3, false)]);
    let nums: Vec<u32> = out.iter().map(|p| p.number).collect();
    assert_eq!(nums, vec![1, 3]);
}

#[test]
fn review_args_per_kind() {
    assert_eq!(review_args(12, ReviewKind::Approve, None), vec!["pr", "review", "12", "--approve"]);
    assert_eq!(review_args(12, ReviewKind::Approve, Some("ok")), vec!["pr", "review", "12", "--approve", "-b", "ok"]);
    assert_eq!(review_args(7, ReviewKind::Comment, None), vec!["pr", "review", "7", "--comment", "-b", ""]);
    assert_eq!(
        review_args(7, ReviewKind::RequestChanges, Some("fix")),
        vec!["pr", "review", "7", "--request-changes", "-b", "fix"]
    );
}

#[test]
fn detects_unified_diff() {
    let diff = "diff --git a/src/lib.rs b/src/lib.rs\n--- a/src/lib.rs\n+++ b/src/lib.rs\n@@ -1,1 +1,1 @@\n-old\n+new\n";
    assert!(looks_like_unified_diff(diff));
}

#[test]
fn rejects_plain_text() {
    assert!(!looks_like_unified_diff("hello\nworld\n"));
}

#[test]
fn detects_hunk_header_alone() {
    assert!(!looks_like_unified_diff("@@ -1 +1 @@\n"));
    assert!(looks_like_unified_diff("--- a\n@@ -1 +1 @@\n"));
    assert!(!looks_like_unified_diff(""));
}

#[test]
fn test_is_ignored_path() {
    let root = "/repo";
    assert!(is_ignored_path("/repo/.git/objects/abc", root));
    assert!(is_ignored_path("/repo/.git/HEAD", root));
    assert!(is_ignored_path("/repo/.jj/store/abc", root));
    assert!(is_ignored_path("/repo/.quickdiff/state.json", root));

    assert!(!is_ignored_path("/repo/src/main.rs", root));
    assert!(!is_ignored_path("/repo/file.txt", root));
    assert!(!is_ignored_path("/repo/some/.gitignore", root));
}

#[test]
fn visible_range_clamps_scroll() {
    assert_eq!(visible_range(10, 50, 4), 9..10);
    assert_eq!(visible_range(10, 3, 4), 3..7);
}

#[test]
fn overscan_expands_visible_range() {
    assert_eq!(overscanned_range(20, 5, 4, 2), 3..11);
}

#[test]
fn empty_windows() {
    assert_eq!(visible_range(0, 5, 4), 0..0);
    assert_eq!(visible_range(5, 0, 0), 0..0);
    assert_eq!(overscanned_range(0, 0, 3, 2), 0..0);
    assert_eq!(overscanned_range(5, 0, 2, 10), 0..5);
}
