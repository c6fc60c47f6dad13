use quickdiff::cli_args::{find_subcommand, parse_diff_source, scan_web_args, source_for_revision};
use quickdiff::cli_comments::{
    comment_line, context_request, context_summary, parse_range, parse_u64, require_add_flags, retain_matching,
    scan_add_flags, scan_context_flags, scan_list_flags, select_hunk, takes_value, ContextRequest, HunkSelectorArg,
};
use quickdiff::comments::{Anchor, CommentContext};
use quickdiff::comments_store::{CommentStore, MemoryCommentStore};
use quickdiff::diff::DiffResult;
use quickdiff::repo::{
    files_from_deltas, files_from_status, DeltaEntry, DeltaStatus, DiffSource, FileChangeKind, RelPath, StatusEntry,
    StatusFlags,
};
use quickdiff::text::TextBuffer;

fn strings(v: &[&str]) -> Vec<String> {
    v.iter().map(|s| s.to_string()).collect()
}

#[test]
fn value_flags_are_known() {
    assert!(takes_value("--base"));
    assert!(takes_value("-m"));
    assert!(!takes_value("--all"));
}

#[test]
fn range_splits_on_dots() {
    assert_eq!(parse_range("a..b").unwrap(), ("a".to_string(), "b".to_string()));
    assert_eq!(parse_range("a...b").unwrap(), ("a".to_string(), "b".to_string()));
    assert_eq!(parse_range("..b").unwrap(), ("".to_string(), "b".to_string()));
    assert_eq!(parse_range("ab").unwrap_err(), "--range must contain '..' (e.g. a..b)");
}

#[test]
fn context_flags_and_request() {
    let f = scan_context_flags(&strings(&["--path", "--base", "--range", "x..", "--message", "m"])).unwrap();
    assert!(f.base.is_none());
    assert_eq!(f.range.as_deref(), Some("x.."));
    match context_request(f, "HEAD").unwrap() {
        Some(ContextRequest::Range { from, to }) => {
            assert_eq!(from, "x");
            assert_eq!(to, "HEAD");
        }
        other => panic!("unexpected {:?}", other),
    }
    let both = scan_context_flags(&strings(&["--worktree", "--commit", "abc"])).unwrap();
    assert_eq!(
        context_request(both, "HEAD").unwrap_err(),
        "Only one of --worktree/--base/--commit/--range may be specified"
    );
    assert_eq!(scan_context_flags(&strings(&["--base"])).unwrap_err(), "--base requires a value");
    let none = scan_context_flags(&strings(&[])).unwrap();
    assert!(context_request(none, "HEAD").unwrap().is_none());
}

#[test]
fn context_summaries_shorten_ids() {
    assert_eq!(context_summary(&CommentContext::Unscoped), "any");
    assert_eq!(context_summary(&CommentContext::Base { base: "origin/main".to_string() }), "base:origin/main");
    assert_eq!(context_summary(&CommentContext::Commit { commit: "0123456789".to_string() }), "commit:0123456");
    assert_eq!(
        context_summary(&CommentContext::Range { from: "aaaaaaaaa".to_string(), to: "bbbbbbbbb".to_string() }),
        "range:aaaaaaa..bbbbbbb"
    );
}

#[test]
fn numbers_parse_like_from_str() {
    assert_eq!(parse_u64("42"), Some(42));
    assert_eq!(parse_u64("+7"), Some(7));
    assert_eq!(parse_u64("+"), None);
    assert_eq!(parse_u64(""), None);
    assert_eq!(parse_u64("-1"), None);
    assert_eq!(parse_u64("1x"), None);
    assert_eq!(parse_u64("18446744073709551615"), Some(u64::MAX));
    assert_eq!(parse_u64("18446744073709551616"), None);
}

#[test]
fn add_flags_are_read_and_required() {
    let f = scan_add_flags(&strings(&["--base", "main", "--path", "a.rs", "--hunk", "2", "-m", "hi"])).unwrap();
    let (p, s, m) = require_add_flags(f).unwrap();
    assert_eq!(p, "a.rs");
    assert_eq!(s, HunkSelectorArg::Index(1));
    assert_eq!(m, "hi");
    assert_eq!(scan_add_flags(&strings(&["--hunk", "0"])).unwrap_err(), "--hunk must be a positive integer");
    assert_eq!(scan_add_flags(&strings(&["--old-line"])).unwrap_err(), "--old-line requires a value");
    let f = scan_add_flags(&strings(&["--new-line", "5"])).unwrap();
    assert_eq!(f.selector, Some(HunkSelectorArg::NewLine(4)));
    assert_eq!(require_add_flags(f).unwrap_err(), "--path is required");
    let f = scan_add_flags(&strings(&["--path", "x"])).unwrap();
    assert_eq!(require_add_flags(f).unwrap_err(), "One of --hunk/--old-line/--new-line is required");
    let f = scan_add_flags(&strings(&["--path", "x", "--hunk", "1"])).unwrap();
    assert_eq!(require_add_flags(f).unwrap_err(), "--message is required");
}

#[test]
fn list_flags_are_read() {
    let f = scan_list_flags(&strings(&["--all", "--json", "--commit", "abc", "--path", "p"])).unwrap();
    assert!(f.include_resolved && f.json);
    assert_eq!(f.path.as_deref(), Some("p"));
    assert_eq!(scan_list_flags(&strings(&["--path"])).unwrap_err(), "--path requires a value");
}

#[test]
fn hunk_selection_by_index_and_line() {
    let old = TextBuffer::new(b"a\nb\nc\nd\ne\nf\ng\nh\ni\nj\n");
    let new = TextBuffer::new(b"a\nB\nc\nd\ne\nf\ng\nh\nI\nj\n");
    let diff = DiffResult::compute_with_context(&old, &new, 1);
    let hunks = diff.hunks();
    assert_eq!(hunks.len(), 2);
    assert_eq!(select_hunk(hunks, HunkSelectorArg::Index(1)).unwrap(), 1);
    assert_eq!(select_hunk(hunks, HunkSelectorArg::Index(5)).unwrap_err(), "Hunk 6 does not exist (file has 2 hunks)");
    assert_eq!(select_hunk(hunks, HunkSelectorArg::NewLine(8)).unwrap(), 1);
    assert_eq!(select_hunk(hunks, HunkSelectorArg::OldLine(5)).unwrap_err(), "No hunk matches --old-line 6");
}

#[test]
fn listing_lines_and_context_filter() {
    let mut store = MemoryCommentStore::new();
    store.add(RelPath::new("a.rs"), CommentContext::Worktree, "first".to_string(), Anchor { selectors: vec![] }).unwrap();
    store
        .add(RelPath::new("b.rs"), CommentContext::Base { base: "main".to_string() }, "second".to_string(), Anchor {
            selectors: vec![],
        })
        .unwrap();
    let all = store.list(true);
    assert_eq!(comment_line(all[0]), "[1] a.rs (OPEN, worktree) - first");
    let kept = retain_matching(store.list(true), &CommentContext::Worktree);
    assert_eq!(kept.len(), 1);
    assert_eq!(kept[0].message, "first");
    store.resolve(2).unwrap();
    assert_eq!(comment_line(store.get(2).unwrap()), "[2] b.rs (RESOLVED, base:main) - second");
}

#[test]
fn subcommands_are_found_past_flags() {
    assert_eq!(find_subcommand(&strings(&["qd", "-t", "nord", "comments", "list"])), Some((3, "comments".to_string())));
    assert_eq!(find_subcommand(&strings(&["qd", "--stdin", "web"])), Some((2, "web".to_string())));
    assert_eq!(find_subcommand(&strings(&["qd", "HEAD~1", "web"])), None);
    assert_eq!(find_subcommand(&strings(&["qd", "--base"])), None);
}

#[test]
fn revisions_become_sources() {
    assert!(matches!(source_for_revision("a..b"), DiffSource::Range { ref from, ref to } if from == "a" && to == "b"));
    assert!(matches!(source_for_revision("origin/main"), DiffSource::Base(ref b) if b == "origin/main"));
    assert!(matches!(source_for_revision("HEAD~3"), DiffSource::Commit(ref c) if c == "HEAD~3"));
    assert!(matches!(source_for_revision("a/b:c"), DiffSource::Commit(_)));
    assert!(matches!(parse_diff_source(Some("c1"), Some("b"), Some("x..y")), DiffSource::Commit(ref c) if c == "c1"));
    assert!(matches!(parse_diff_source(None, Some("b"), None), DiffSource::Base(ref c) if c == "b"));
    assert!(matches!(parse_diff_source(None, None, None), DiffSource::WorkingTree));
}

#[test]
fn web_flags_are_read() {
    let w = scan_web_args(&strings(&["--stdin", "-o", "--output", "x.html", "-f", "src/", "main..dev"])).unwrap();
    assert!(w.stdin && w.open);
    assert_eq!(w.output.as_deref(), Some("x.html"));
    assert_eq!(w.file_filter.as_deref(), Some("src/"));
    assert_eq!(w.diffspec.as_deref(), Some("main..dev"));
    assert_eq!(scan_web_args(&strings(&["--bogus"])).unwrap_err(), "Unknown option: --bogus");
    let w = scan_web_args(&strings(&["--output"])).unwrap();
    assert!(w.output.is_none());
}

fn flags() -> StatusFlags {
    StatusFlags {
        index_new: false,
        wt_new: false,
        index_deleted: false,
        wt_deleted: false,
        index_renamed: false,
        wt_renamed: false,
    }
}

#[test]
fn status_entries_become_sorted_files() {
    let mut added = flags();
    added.index_new = true;
    let mut renamed = flags();
    renamed.index_renamed = true;
    let entries = vec![
        StatusEntry { path: Some("z.rs".to_string()), flags: flags(), head_to_index: None },
        StatusEntry { path: Some(".quickdiff/comments.json".to_string()), flags: flags(), head_to_index: None },
        StatusEntry { path: None, flags: flags(), head_to_index: None },
        StatusEntry { path: Some("a.rs".to_string()), flags: added, head_to_index: None },
        StatusEntry {
            path: Some("new.rs".to_string()),
            flags: renamed,
            head_to_index: Some(("old.rs".to_string(), "new.rs".to_string())),
        },
    ];
    let files = files_from_status(&entries);
    let paths: Vec<&str> = files.iter().map(|f| f.path.as_str()).collect();
    assert_eq!(paths, vec!["a.rs", "new.rs", "z.rs"]);
    assert_eq!(files[0].kind, FileChangeKind::Added);
    assert_eq!(files[1].kind, FileChangeKind::Renamed);
    assert_eq!(files[1].old_path.as_ref().map(|p| p.as_str()), Some("old.rs"));
    assert_eq!(files[2].kind, FileChangeKind::Modified);
}

#[test]
fn deltas_become_sorted_files() {
    let deltas = vec![
        DeltaEntry { new_path: "b.rs".to_string(), old_path: Some("b.rs".to_string()), status: DeltaStatus::Copied },
        DeltaEntry { new_path: "".to_string(), old_path: None, status: DeltaStatus::Added },
        DeltaEntry { new_path: "n.rs".to_string(), old_path: Some("o.rs".to_string()), status: DeltaStatus::Renamed },
        DeltaEntry { new_path: "a.rs".to_string(), old_path: None, status: DeltaStatus::Deleted },
        DeltaEntry { new_path: "c.rs".to_string(), old_path: None, status: DeltaStatus::Other },
    ];
    let files = files_from_deltas(&deltas);
    let kinds: Vec<(&str, FileChangeKind)> = files.iter().map(|f| (f.path.as_str(), f.kind)).collect();
    assert_eq!(
        kinds,
        vec![
            ("a.rs", FileChangeKind::Deleted),
            ("b.rs", FileChangeKind::Modified),
            ("c.rs", FileChangeKind::Modified),
            ("n.rs", FileChangeKind::Renamed),
        ]
    );
}
