use quickdiff::diff::DiffResult;
use quickdiff::text::TextBuffer;
use quickdiff::view_state::{build_view_rows, extract_content_from_patch, map_diff_row_to_view_row, DiffViewMode};

#[test]
fn app_test_extract_content_from_patch_simple() {
    let patch = r#"@@ -1,3 +1,3 @@
 line1
-line2
+modified2
 line3"#;

    let (old, new) = extract_content_from_patch(patch);
    assert_eq!(old, "line1\nline2\nline3");
    assert_eq!(new, "line1\nmodified2\nline3");
}

#[test]
fn app_test_extract_content_from_patch_multi_hunk() {
    let patch = r#"@@ -1,2 +1,2 @@
 header
-old_first
+new_first
@@ -10,2 +10,2 @@
 middle
-old_second
+new_second"#;

    let (old, new) = extract_content_from_patch(patch);
    assert_eq!(old, "header\nold_first\nmiddle\nold_second");
    assert_eq!(new, "header\nnew_first\nmiddle\nnew_second");
}

#[test]
fn app_test_extract_content_from_patch_with_rename_header() {
    let patch = r#"diff --git a/old.rs b/new.rs
similarity index 95%
rename from old.rs
rename to new.rs
--- a/old.rs
+++ b/new.rs
@@ -1,2 +1,2 @@
 content
-old
+new"#;

    let (old, new) = extract_content_from_patch(patch);
    assert_eq!(old, "content\nold");
    assert_eq!(new, "content\nnew");
}

#[test]
fn app_test_extract_content_from_patch_empty() {
    let patch = r#"diff --git a/file.rs b/file.rs
--- a/file.rs
+++ b/file.rs"#;

    let (old, new) = extract_content_from_patch(patch);
    assert_eq!(old, "");
    assert_eq!(new, "");
}

#[test]
fn app_test_extract_content_from_patch_add_only() {
    let patch = r#"@@ -0,0 +1,2 @@
+new line 1
+new line 2"#;

    let (old, new) = extract_content_from_patch(patch);
    assert_eq!(old, "");
    assert_eq!(new, "new line 1\nnew line 2");
}

#[test]
fn app_test_extract_content_from_patch_delete_only() {
    let patch = r#"@@ -1,2 +0,0 @@
-deleted line 1
-deleted line 2"#;

    let (old, new) = extract_content_from_patch(patch);
    assert_eq!(old, "deleted line 1\ndeleted line 2");
    assert_eq!(new, "");
}

#[test]
fn app_view_rows_use_hunks_only() {
    let old = TextBuffer::new(b"l1\nl2\nl3\nl4\nl5\nl6\nl7\nl8\nl9\nl10\n");
    let new = TextBuffer::new(b"l1\nx\nl3\nl4\nl5\nl6\nl7\ny\nl9\nl10\n");
    let diff = DiffResult::compute_with_context(&old, &new, 1);

    assert_eq!(diff.hunks().len(), 2);

    let view_rows = build_view_rows(&diff, DiffViewMode::HunksOnly);
    let total_rows: usize = diff.hunks().iter().map(|h| h.row_count).sum();
    assert_eq!(view_rows.len(), total_rows);

    let first = diff.hunks().first().unwrap();
    let second = diff.hunks().last().unwrap();
    let gap_row = first.start_row + first.row_count;
    let mapped = map_diff_row_to_view_row(&view_rows, gap_row).unwrap();
    assert_eq!(view_rows[mapped], second.start_row);

    let after_last = second.start_row + second.row_count + 5;
    let mapped_last = map_diff_row_to_view_row(&view_rows, after_last).unwrap();
    assert_eq!(view_rows[mapped_last], second.start_row + second.row_count - 1);
}

#[test]
fn mod_test_extract_content_from_patch_simple() {
    let patch = r#"@@ -1,3 +1,3 @@
 line1
-line2
+modified2
 line3"#;

    let (old, new) = extract_content_from_patch(patch);
    assert_eq!(old, "line1\nline2\nline3");
    assert_eq!(new, "line1\nmodified2\nline3");
}

#[test]
fn mod_test_extract_content_from_patch_multi_hunk() {
    let patch = r#"@@ -1,2 +1,2 @@
 header
-old_first
+new_first
@@ -10,2 +10,2 @@
 middle
-old_second
+new_second"#;

    let (old, new) = extract_content_from_patch(patch);
    assert_eq!(old, "header\nold_first\nmiddle\nold_second");
    assert_eq!(new, "header\nnew_first\nmiddle\nnew_second");
}

#[test]
fn mod_test_extract_content_from_patch_with_rename_header() {
    let patch = r#"diff --git a/old.rs b/new.rs
similarity index 95%
rename from old.rs
rename to new.rs
--- a/old.rs
+++ b/new.rs
@@ -1,2 +1,2 @@
 content
-old
+new"#;

    let (old, new) = extract_content_from_patch(patch);
    assert_eq!(old, "content\nold");
    assert_eq!(new, "content\nnew");
}

#[test]
fn mod_test_extract_content_from_patch_empty() {
    let patch = r#"diff --git a/file.rs b/file.rs
--- a/file.rs
+++ b/file.rs"#;

    let (old, new) = extract_content_from_patch(patch);
    assert_eq!(old, "");
    assert_eq!(new, "");
}

#[test]
fn mod_test_extract_content_from_patch_add_only() {
    let patch = r#"@@ -0,0 +1,2 @@
+new line 1
+new line 2"#;

    let (old, new) = extract_content_from_patch(patch);
    assert_eq!(old, "");
    assert_eq!(new, "new line 1\nnew line 2");
}

#[test]
fn mod_test_extract_content_from_patch_delete_only() {
    let patch = r#"@@ -1,2 +0,0 @@
-deleted line 1
-deleted line 2"#;

    let (old, new) = extract_content_from_patch(patch);
    assert_eq!(old, "deleted line 1\ndeleted line 2");
    assert_eq!(new, "");
}

#[test]
fn mod_view_rows_use_hunks_only() {
    let old = TextBuffer::new(b"l1\nl2\nl3\nl4\nl5\nl6\nl7\nl8\nl9\nl10\n");
    let new = TextBuffer::new(b"l1\nx\nl3\nl4\nl5\nl6\nl7\ny\nl9\nl10\n");
    let diff = DiffResult::compute_with_context(&old, &new, 1);

    assert_eq!(diff.hunks().len(), 2);

    let view_rows = build_view_rows(&diff, DiffViewMode::HunksOnly);
    let total_rows: usize = diff.hunks().iter().map(|h| h.row_count).sum();
    assert_eq!(view_rows.len(), total_rows);

    let first = diff.hunks().first().unwrap();
    let second = diff.hunks().last().unwrap();
    let gap_row = first.start_row + first.row_count;
    let mapped = map_diff_row_to_view_row(&view_rows, gap_row).unwrap();
    assert_eq!(view_rows[mapped], second.start_row);

    let after_last = second.start_row + second.row_count + 5;
    let mapped_last = map_diff_row_to_view_row(&view_rows, after_last).unwrap();
    assert_eq!(view_rows[mapped_last], second.start_row + second.row_count - 1);
}

#[test]
fn full_file_view_has_no_row_map() {
    let old = TextBuffer::new(b"a\nb\n");
    let new = TextBuffer::new(b"a\nc\n");
    let diff = DiffResult::compute(&old, &new);
    let rows = build_view_rows(&diff, DiffViewMode::FullFile);
    assert!(rows.is_empty());
    assert_eq!(map_diff_row_to_view_row(&[], 3), None);
}
