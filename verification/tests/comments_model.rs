use quickdiff::comments::{
    digest_hunk_changed_rows, format_anchor_summary, selector_from_hunk, Anchor, CommentContext,
    DiffHunkSelectorV1, Selector,
};
use quickdiff::comments_store::{comments_state_path, CommentStore, CommentsState, FileCommentStore, MemoryCommentStore};
use quickdiff::diff::DiffResult;
use quickdiff::repo::RelPath;
use quickdiff::text::TextBuffer;

fn test_anchor() -> Anchor {
    Anchor {
        selectors: vec![Selector::DiffHunkV1(DiffHunkSelectorV1 {
            old_range: (1, 5),
            new_range: (1, 6),
            digest_hex: "deadbeef00000000".to_string(),
        })],
    }
}

#[test]
fn digest_determinism() {
    let old = TextBuffer::new(b"a\nb\nc\n");
    let new = TextBuffer::new(b"a\nB\nc\n");
    let diff1 = DiffResult::compute(&old, &new);
    let diff2 = DiffResult::compute(&old, &new);

    assert!(!diff1.hunks().is_empty());
    let d1 = digest_hunk_changed_rows(&diff1, &diff1.hunks()[0]);
    let d2 = digest_hunk_changed_rows(&diff2, &diff2.hunks()[0]);
    assert_eq!(d1, d2);
    assert_eq!(d1.len(), 16);
}

#[test]
fn digest_differs_for_different_changes() {
    let old = TextBuffer::new(b"a\nb\nc\n");
    let d1 = DiffResult::compute(&old, &TextBuffer::new(b"a\nB\nc\n"));
    let d2 = DiffResult::compute(&old, &TextBuffer::new(b"a\nX\nc\n"));
    let h1 = digest_hunk_changed_rows(&d1, &d1.hunks()[0]);
    let h2 = digest_hunk_changed_rows(&d2, &d2.hunks()[0]);
    assert_ne!(h1, h2);
    assert!(h1.chars().all(|c| c.is_ascii_hexdigit() && !c.is_ascii_uppercase()));
}

#[test]
fn selector_from_valid_hunk() {
    let old = TextBuffer::new(b"line1\nold\nline3\n");
    let new = TextBuffer::new(b"line1\nnew\nline3\n");
    let diff = DiffResult::compute(&old, &new);

    let sel = selector_from_hunk(&diff, 0);
    assert!(sel.is_some());
    let sel = sel.unwrap();
    assert!(!sel.digest_hex.is_empty());
}

#[test]
fn selector_copies_hunk_ranges() {
    let old = TextBuffer::new(b"line1\nold\nline3\n");
    let new = TextBuffer::new(b"line1\nnew\nline3\n");
    let diff = DiffResult::compute(&old, &new);
    let sel = selector_from_hunk(&diff, 0).unwrap();
    assert_eq!(sel.old_range, diff.hunks()[0].old_range);
    assert_eq!(sel.new_range, diff.hunks()[0].new_range);
    assert_eq!(sel.old_range.0, 0);
    assert_eq!(sel.digest_hex, digest_hunk_changed_rows(&diff, &diff.hunks()[0]));
}

#[test]
fn selector_from_invalid_hunk() {
    let old = TextBuffer::new(b"same\n");
    let new = TextBuffer::new(b"same\n");
    let diff = DiffResult::compute(&old, &new);

    assert!(selector_from_hunk(&diff, 0).is_none());
}

#[test]
fn context_unscoped_matches_all() {
    assert!(CommentContext::Unscoped.matches(&CommentContext::Worktree));
    assert!(CommentContext::Unscoped.matches(&CommentContext::Base { base: "origin/main".to_string() }));
}

#[test]
fn context_scoped_matches_exact() {
    assert!(CommentContext::Worktree.matches(&CommentContext::Worktree));
    assert!(!CommentContext::Worktree.matches(&CommentContext::Base { base: "origin/main".to_string() }));
}

#[test]
fn context_commit_matches_same_sha_only() {
    let a = CommentContext::Commit { commit: "abc".to_string() };
    assert!(a.matches(&CommentContext::Commit { commit: "abc".to_string() }));
    assert!(!a.matches(&CommentContext::Commit { commit: "abd".to_string() }));
    assert!(!a.matches(&CommentContext::Unscoped));
}

#[test]
fn anchor_summary_lists_ranges() {
    let s = format_anchor_summary(&test_anchor());
    assert_eq!(s, "@@ -2,5 +2,6 @@ [deadbeef]");
    let two = Anchor {
        selectors: vec![
            Selector::DiffHunkV1(DiffHunkSelectorV1 {
                old_range: (0, 1),
                new_range: (0, 2),
                digest_hex: "0123456789abcdef".to_string(),
            }),
            Selector::DiffHunkV1(DiffHunkSelectorV1 {
                old_range: (9, 0),
                new_range: (9, 3),
                digest_hex: "fedcba9876543210".to_string(),
            }),
        ],
    };
    assert_eq!(format_anchor_summary(&two), "@@ -1,1 +1,2 @@ [01234567]; @@ -10,0 +10,3 @@ [fedcba98]");
}

#[test]
fn memory_store_add_and_list() {
    let mut store = MemoryCommentStore::new();

    let id = store
        .add(RelPath::new("src/main.rs"), CommentContext::Worktree, "Fix this".to_string(), test_anchor())
        .unwrap();

    assert_eq!(id, 1);
    assert_eq!(store.list(false).len(), 1);
    assert_eq!(store.list(false)[0].message, "Fix this");
    assert!(store.list(false)[0].context.matches(&CommentContext::Worktree));
}

#[test]
fn memory_store_resolve() {
    let mut store = MemoryCommentStore::new();

    let id = store.add(RelPath::new("test.rs"), CommentContext::Worktree, "TODO".to_string(), test_anchor()).unwrap();

    assert_eq!(store.list(false).len(), 1);

    let resolved = store.resolve(id).unwrap();
    assert!(resolved);

    assert_eq!(store.list(false).len(), 0);
    assert_eq!(store.list(true).len(), 1);
}

#[test]
fn memory_store_resolve_nonexistent() {
    let mut store = MemoryCommentStore::new();
    let resolved = store.resolve(999).unwrap();
    assert!(!resolved);
}

#[test]
fn add_then_get_returns_comment() {
    let mut store = MemoryCommentStore::new();
    let a = store.add(RelPath::new("a.rs"), CommentContext::Worktree, "one".to_string(), test_anchor()).unwrap();
    let b = store.add(RelPath::new("b.rs"), CommentContext::Worktree, "two".to_string(), test_anchor()).unwrap();
    assert_eq!(a, 1);
    assert_eq!(b, 2);
    assert_eq!(store.get(b).unwrap().message, "two");
    assert!(store.get(3).is_none());
    assert_eq!(store.list_for_path(&RelPath::new("a.rs"), false).len(), 1);
    assert_eq!(store.list_for_path(&RelPath::new("c.rs"), true).len(), 0);
}

#[test]
fn state_add_and_resolve_records_times() {
    let mut state = CommentsState::default();
    let id = state.add_comment(RelPath::new("x.rs"), CommentContext::Unscoped, "m".to_string(), test_anchor(), Some(5));
    assert_eq!(id, 1);
    assert_eq!(state.get_comment(id).unwrap().created_at_ms, Some(5));
    assert!(state.resolve_comment(id, Some(9)));
    assert_eq!(state.get_comment(id).unwrap().resolved_at_ms, Some(9));
    assert!(!state.resolve_comment(7, None));
    assert_eq!(state.list_comments(false).len(), 0);
    assert_eq!(state.list_comments(true).len(), 1);
}

#[test]
fn file_store_adds_and_resolves_with_timestamps() {
    let path = comments_state_path("/repo");
    assert_eq!(path, "/repo/.quickdiff/comments.json");
    let mut store = FileCommentStore::with_state(path.clone(), CommentsState::default());
    let id = store
        .add(RelPath::new("src/lib.rs"), CommentContext::Worktree, "Check".to_string(), test_anchor(), 1234)
        .unwrap();
    assert_eq!(id, 1);
    assert_eq!(store.get(1).unwrap().created_at_ms, Some(1234));
    assert_eq!(store.list_for_path(&RelPath::new("src/lib.rs"), false).len(), 1);
    assert!(store.resolve(1, 5678));
    assert!(!store.resolve(2, 5678));
    assert_eq!(store.get(1).unwrap().resolved_at_ms, Some(5678));
    assert_eq!(store.list(false).len(), 0);
    assert_eq!(store.list(true).len(), 1);
    assert_eq!(store.state().next_id, 2);
    assert_eq!(store.state_path(), path);
}
