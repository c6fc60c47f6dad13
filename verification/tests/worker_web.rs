use quickdiff::repo::{ChangedFile, DiffSource, FileChangeKind, RelPath};
use quickdiff::web::{append_untracked_diff, apply_file_filter, build_review_data, review_summary};
use quickdiff::worker::{diff_payload, drain_latest_request, latest_of, DiffLoadRequest, DiffLoadResponse};
use std::sync::mpsc;

fn make_request(id: u64) -> DiffLoadRequest {
    DiffLoadRequest {
        id,
        source: DiffSource::WorkingTree,
        cached_merge_base: None,
        file: ChangedFile::new(RelPath::new("src/main.rs"), FileChangeKind::Modified),
    }
}

#[test]
fn drain_latest_request_coalesces() {
    let (tx, rx) = mpsc::channel();

    tx.send(make_request(1)).unwrap();
    tx.send(make_request(2)).unwrap();
    tx.send(make_request(3)).unwrap();

    let first = rx.recv().unwrap();
    let latest = drain_latest_request(first, &rx);

    assert_eq!(latest.id, 3);
}

#[test]
fn drain_with_empty_queue_keeps_request() {
    let (_tx, rx) = mpsc::channel::<DiffLoadRequest>();
    assert_eq!(drain_latest_request(make_request(4), &rx).id, 4);
    assert_eq!(latest_of(make_request(1), vec![make_request(2), make_request(5)]).id, 5);
}

#[test]
fn payload_skips_diff_for_binary() {
    match diff_payload(9, b"a\n", b"b\n") {
        DiffLoadResponse::Loaded { id, diff, is_binary, .. } => {
            assert_eq!(id, 9);
            assert!(!is_binary);
            assert!(diff.unwrap().has_changes());
        }
        _ => panic!("expected loaded"),
    }
    match diff_payload(2, b"a\0b", b"b\n") {
        DiffLoadResponse::Loaded { diff, is_binary, .. } => {
            assert!(is_binary);
            assert!(diff.is_none());
        }
        _ => panic!("expected loaded"),
    }
}

#[test]
fn apply_file_filter_keeps_matching_files() {
    let patch = r#"diff --git a/src/main.rs b/src/main.rs
--- a/src/main.rs
+++ b/src/main.rs
@@ -1 +1 @@
-old
+new
diff --git a/tests/test.rs b/tests/test.rs
--- a/tests/test.rs
+++ b/tests/test.rs
@@ -1 +1 @@
-test old
+test new
"#;
    let filtered = apply_file_filter(patch.to_string(), Some("src/"));
    assert!(filtered.contains("src/main.rs"));
    assert!(!filtered.contains("tests/test.rs"));
}

#[test]
fn apply_file_filter_none_returns_all() {
    let patch = "diff --git a/file.rs b/file.rs\n";
    let result = apply_file_filter(patch.to_string(), None);
    assert_eq!(result, patch);
}

#[test]
fn review_data_lists_files() {
    let patch = "diff --git a/a.rs b/a.rs\n--- a/a.rs\n+++ b/a.rs\n@@ -1 +1,2 @@\n-x\n+y\n+z\n".to_string();
    let data = build_review_data(patch.clone(), "Working tree".to_string(), None, Some("abc".to_string()));
    assert_eq!(data.branch, "Working tree");
    assert_eq!(data.commit, "abc");
    assert_eq!(data.files.len(), 1);
    assert_eq!(data.files[0].path, "a.rs");
    assert_eq!((data.files[0].additions, data.files[0].deletions), (2, 1));
    assert_eq!(data.patch, patch);
}

#[test]
fn review_summary_and_untracked() {
    assert_eq!(review_summary(String::new(), "HEAD".to_string()), "HEAD");
    assert_eq!(review_summary("mine".to_string(), "HEAD".to_string()), "mine");
    assert_eq!(append_untracked_diff("p".to_string(), "  \n"), "p");
    assert_eq!(append_untracked_diff("p".to_string(), "x"), "p\nx");
}

#[test]
fn script_safe_escapes_closing_tags() {
    assert_eq!(quickdiff::web::script_safe("{\"a\":\"</script>\"}"), "{\"a\":\"<\\/script>\"}");
    assert_eq!(quickdiff::web::script_safe("a<b/c"), "a<b/c");
}
