use quickdiff::pr_diff::{find_closing_quote, parse_diff_header, parse_unified_diff, unquote_path};
use quickdiff::repo::FileChangeKind;

#[test]
fn parse_simple_diff() {
    let diff = r#"diff --git a/src/main.rs b/src/main.rs
index abc123..def456 100644
--- a/src/main.rs
+++ b/src/main.rs
@@ -1,3 +1,4 @@
 fn main() {
+    println!("Hello");
     println!("World");
 }
"#;
    let files = parse_unified_diff(diff);
    assert_eq!(files.len(), 1);
    assert_eq!(files[0].path.as_str(), "src/main.rs");
    assert_eq!(files[0].kind, FileChangeKind::Modified);
    assert_eq!(files[0].additions, 1);
    assert_eq!(files[0].deletions, 0);
}

#[test]
fn parse_new_file() {
    let diff = r#"diff --git a/new.txt b/new.txt
new file mode 100644
index 0000000..abc123
--- /dev/null
+++ b/new.txt
@@ -0,0 +1,2 @@
+line 1
+line 2
"#;
    let files = parse_unified_diff(diff);
    assert_eq!(files.len(), 1);
    assert_eq!(files[0].path.as_str(), "new.txt");
    assert_eq!(files[0].kind, FileChangeKind::Added);
    assert_eq!(files[0].additions, 2);
}

#[test]
fn parse_deleted_file() {
    let diff = r#"diff --git a/old.txt b/old.txt
deleted file mode 100644
index abc123..0000000
--- a/old.txt
+++ /dev/null
@@ -1,2 +0,0 @@
-line 1
-line 2
"#;
    let files = parse_unified_diff(diff);
    assert_eq!(files.len(), 1);
    assert_eq!(files[0].path.as_str(), "old.txt");
    assert_eq!(files[0].kind, FileChangeKind::Deleted);
    assert_eq!(files[0].deletions, 2);
}

#[test]
fn parse_rename() {
    let diff = r#"diff --git a/old_name.rs b/new_name.rs
similarity index 95%
rename from old_name.rs
rename to new_name.rs
index abc123..def456 100644
--- a/old_name.rs
+++ b/new_name.rs
@@ -1,3 +1,3 @@
 fn main() {
-    old();
+    new();
 }
"#;
    let files = parse_unified_diff(diff);
    assert_eq!(files.len(), 1);
    assert_eq!(files[0].path.as_str(), "new_name.rs");
    assert_eq!(files[0].kind, FileChangeKind::Renamed);
    assert_eq!(files[0].old_path.as_ref().map(|p| p.as_str()), Some("old_name.rs"));
}

#[test]
fn parse_multiple_files() {
    let diff = r#"diff --git a/a.rs b/a.rs
index 111..222 100644
--- a/a.rs
+++ b/a.rs
@@ -1 +1 @@
-old
+new
diff --git a/b.rs b/b.rs
index 333..444 100644
--- a/b.rs
+++ b/b.rs
@@ -1 +1,2 @@
 existing
+added
"#;
    let files = parse_unified_diff(diff);
    assert_eq!(files.len(), 2);
    assert_eq!(files[0].path.as_str(), "a.rs");
    assert_eq!(files[1].path.as_str(), "b.rs");
}

#[test]
fn parse_multiple_files_sorted_by_path() {
    let diff = "diff --git a/z.rs b/z.rs\n--- a/z.rs\n+++ b/z.rs\n@@ -1 +1 @@\n-a\n+b\ndiff --git a/m.rs b/m.rs\n--- a/m.rs\n+++ b/m.rs\n@@ -1 +1 @@\n-a\n+b\n";
    let files = parse_unified_diff(diff);
    assert_eq!(files.len(), 2);
    assert_eq!(files[0].path.as_str(), "m.rs");
    assert_eq!(files[1].path.as_str(), "z.rs");
    assert!(files[0].patch.starts_with("diff --git a/m.rs b/m.rs"));
}

#[test]
fn parse_empty_input_has_no_files() {
    assert!(parse_unified_diff("").is_empty());
    assert!(parse_unified_diff("just some text\n").is_empty());
}

#[test]
fn parse_diff_header_simple() {
    let header = "diff --git a/src/main.rs b/src/main.rs";
    let (old, new) = parse_diff_header(header).unwrap();
    assert_eq!(old, "src/main.rs");
    assert_eq!(new, "src/main.rs");
}

#[test]
fn parse_diff_header_rename() {
    let header = "diff --git a/old/path.rs b/new/path.rs";
    let (old, new) = parse_diff_header(header).unwrap();
    assert_eq!(old, "old/path.rs");
    assert_eq!(new, "new/path.rs");
}

#[test]
fn parse_diff_header_rejects_other_lines() {
    assert!(parse_diff_header("index abc..def").is_none());
}

#[test]
fn parse_file_content_with_diff_git_line() {
    let diff = r#"diff --git a/test.md b/test.md
index abc123..def456 100644
--- a/test.md
+++ b/test.md
@@ -1,3 +1,5 @@
 # Example
+This line shows: diff --git a/fake b/fake
+Another line with diff --git in content
 End of file
"#;
    let files = parse_unified_diff(diff);
    assert_eq!(files.len(), 1);
    assert_eq!(files[0].path.as_str(), "test.md");
    assert_eq!(files[0].additions, 2);
}

#[test]
fn parse_quoted_path() {
    let diff = r#"diff --git "a/path with spaces.txt" "b/path with spaces.txt"
new file mode 100644
index 0000000..abc123
--- /dev/null
+++ "b/path with spaces.txt"
@@ -0,0 +1 @@
+content
"#;
    let files = parse_unified_diff(diff);
    assert_eq!(files.len(), 1);
    assert_eq!(files[0].path.as_str(), "path with spaces.txt");
    assert_eq!(files[0].kind, FileChangeKind::Added);
}

#[test]
fn unquote_path_escapes() {
    assert_eq!(unquote_path(r#""simple""#), "simple");
    assert_eq!(unquote_path(r#""with\\backslash""#), "with\\backslash");
    assert_eq!(unquote_path(r#""with\ttab""#), "with\ttab");
    assert_eq!(unquote_path(r#""with\"quote""#), "with\"quote");
    assert_eq!(unquote_path("unquoted"), "unquoted");
}

#[test]
fn unquote_path_keeps_unknown_escape_and_newline() {
    assert_eq!(unquote_path(r#""a\qb""#), "a\\qb");
    assert_eq!(unquote_path(r#""a\nb""#), "a\nb");
    assert_eq!(unquote_path("\""), "\"");
}

#[test]
fn closing_quote_skips_escapes() {
    let s: Vec<char> = r#""a\"b" rest"#.chars().collect();
    assert_eq!(find_closing_quote(&s, 0), Some(5));
    let t: Vec<char> = "\"open".chars().collect();
    assert_eq!(find_closing_quote(&t, 0), None);
}
