use quickdiff::repo::{ChangedFile, FileChangeKind, RelPath};
use quickdiff::sidebar::sidebar_view;

fn files(paths: &[&str]) -> Vec<ChangedFile> {
    paths.iter().map(|p| ChangedFile::new(RelPath::new(p), FileChangeKind::Modified)).collect()
}

#[test]
fn sidebar_title_counts_viewed_or_matches() {
    let fs = files(&["a.rs", "b.rs", "c.rs"]);
    let v = sidebar_view(&fs, &[], "", 0, 0, 5, &[true, false, false], &[0, 0, 0], 1, false);
    assert_eq!(v.title, " Files (1/3) ");
    let f = sidebar_view(&fs, &[2, 0], "rs", 0, 0, 5, &[true, false, false], &[0, 0, 0], 1, false);
    assert_eq!(f.title, " Files (2) [filter: rs] ");
    assert_eq!(f.rows.len(), 2);
    assert_eq!(f.rows[0].path, "c.rs");
    assert!(f.rows[1].selected);
    assert_eq!(f.rows[1].indicator, '\u{258c}');
    assert_eq!(f.blank_rows, 3);
}

#[test]
fn sidebar_row_marks() {
    let fs = vec![ChangedFile::new(RelPath::new("new.txt"), FileChangeKind::Added)];
    let v = sidebar_view(&fs, &[], "", 5, 0, 1, &[true], &[3], 1, true);
    let row = &v.rows[0];
    assert!(!row.selected);
    assert_eq!(row.indicator, ' ');
    assert_eq!(row.kind_char, 'A');
    assert_eq!(row.viewed_char, '\u{2713}');
    assert_eq!(row.badge, " 3");
    assert!(row.badge_accent);
    let many = sidebar_view(&fs, &[], "", 0, 0, 1, &[false], &[12], 0, true);
    assert_eq!(many.rows[0].badge, "9+");
    assert_eq!(many.rows[0].viewed_char, '\u{b7}');
    let outside = sidebar_view(&fs, &[], "", 0, 0, 1, &[false], &[12], 0, false);
    assert_eq!(outside.rows[0].badge, "  ");
    assert!(!outside.rows[0].badge_accent);
}

#[test]
fn sidebar_long_paths_keep_their_end() {
    let long = "src/some/deeply/nested/module/file.rs";
    let fs = files(&[long]);
    let v = sidebar_view(&fs, &[], "", 0, 0, 1, &[false], &[0], 0, false);
    let shown = &v.rows[0].path;
    assert_eq!(shown.chars().count(), 22);
    assert!(shown.starts_with('\u{2026}'));
    assert!(long.ends_with(&shown[shown.char_indices().nth(1).unwrap().0..]));
}

#[test]
fn sidebar_scrolls_to_selection() {
    let fs = files(&["0", "1", "2", "3", "4", "5", "6", "7", "8", "9"]);
    let flags = vec![false; 10];
    let counts = vec![0; 10];
    let down = sidebar_view(&fs, &[], "", 7, 0, 3, &flags, &counts, 0, false);
    assert_eq!(down.scroll, 5);
    assert_eq!(down.rows.iter().map(|r| r.path.clone()).collect::<Vec<_>>(), vec!["5", "6", "7"]);
    let up = sidebar_view(&fs, &[], "", 2, 6, 3, &flags, &counts, 0, false);
    assert_eq!(up.scroll, 2);
    let clamped = sidebar_view(&fs, &[], "", 9, 50, 3, &flags, &counts, 0, false);
    assert_eq!(clamped.scroll, 7);
    assert_eq!(clamped.blank_rows, 0);
}

#[test]
fn sidebar_empty_lists() {
    let none: Vec<ChangedFile> = Vec::new();
    let v = sidebar_view(&none, &[], "", 0, 0, 4, &[], &[], 0, false);
    assert_eq!(v.note.as_deref(), Some("No files"));
    assert!(v.rows.is_empty());
    let zero = sidebar_view(&files(&["a"]), &[], "", 0, 3, 0, &[false], &[0], 0, false);
    assert_eq!(zero.scroll, 3);
    assert!(zero.note.is_none());
}
