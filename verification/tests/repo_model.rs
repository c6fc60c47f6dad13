use quickdiff::repo::{
    base_comparison, diff_content_plan, diff_source_display, merge_changed_files, parse_diff_name_status,
    parse_porcelain_status, take_chars, truncate_chars, validate_git_ref_format, ChangedFile, ContentSpec,
    DiffSource, FileChangeKind, RelPath, RepoError, RepoRoot, VcsType,
};

#[test]
fn relpath_basics() {
    let p = RelPath::new("src/main.rs");
    assert_eq!(p.as_str(), "src/main.rs");
    assert_eq!(p.extension(), Some("rs"));
    assert_eq!(p.file_name(), "main.rs");
}

#[test]
fn relpath_try_new_rejects_absolute() {
    assert!(RelPath::try_new("/absolute/path").is_err());
    assert!(RelPath::try_new("relative/path").is_ok());
}

#[test]
fn parse_porcelain_modified() {
    let output = b" M src/lib.rs\0";
    let files = parse_porcelain_status(output).unwrap();
    assert_eq!(files.len(), 1);
    assert_eq!(files[0].path.as_str(), "src/lib.rs");
    assert_eq!(files[0].kind, FileChangeKind::Modified);
}

#[test]
fn parse_porcelain_untracked() {
    let output = b"?? newfile.txt\0";
    let files = parse_porcelain_status(output).unwrap();
    assert_eq!(files.len(), 1);
    assert_eq!(files[0].kind, FileChangeKind::Untracked);
}

#[test]
fn parse_porcelain_multiple() {
    let output = b" M file1.rs\0?? file2.txt\0A  file3.rs\0";
    let files = parse_porcelain_status(output).unwrap();
    assert_eq!(files.len(), 3);
}

#[test]
fn parse_porcelain_ignores_quickdiff_state() {
    let output = b"?? .quickdiff/comments.json\0 M src/lib.rs\0";
    let files = parse_porcelain_status(output).unwrap();
    assert_eq!(files.len(), 1);
    assert_eq!(files[0].path.as_str(), "src/lib.rs");
}

#[test]
fn parse_porcelain_empty() {
    let output = b"";
    let files = parse_porcelain_status(output).unwrap();
    assert!(files.is_empty());
}

#[test]
fn parse_porcelain_rename() {
    let output = b"R  new_name.rs\0old_name.rs\0";
    let files = parse_porcelain_status(output).unwrap();
    assert_eq!(files.len(), 1);
    assert_eq!(files[0].kind, FileChangeKind::Renamed);
    assert_eq!(files[0].path.as_str(), "new_name.rs");
    assert_eq!(files[0].old_path.as_ref().map(|p| p.as_str()), Some("old_name.rs"));
}

#[test]
fn parse_porcelain_copy() {
    let output = b"C  copied.rs\0original.rs\0";
    let files = parse_porcelain_status(output).unwrap();
    assert_eq!(files.len(), 1);
    assert_eq!(files[0].kind, FileChangeKind::Renamed);
    assert_eq!(files[0].path.as_str(), "copied.rs");
    assert_eq!(files[0].old_path.as_ref().map(|p| p.as_str()), Some("original.rs"));
}

#[test]
fn truncate_chars_ascii() {
    assert_eq!(truncate_chars("short", 10), "short");
    assert_eq!(truncate_chars("exactly ten", 11), "exactly ten");
    assert_eq!(truncate_chars("this is way too long", 10), "this is wa...");
}

#[test]
fn truncate_chars_unicode() {
    let jp = "日本語テスト";
    assert_eq!(truncate_chars(jp, 10), jp);
    assert_eq!(truncate_chars(jp, 4), "日本語テ...");

    let emoji = "🎉🎊🎁🎂🎈";
    assert_eq!(truncate_chars(emoji, 3), "🎉🎊🎁...");
}

#[test]
fn take_chars_unicode() {
    assert_eq!(take_chars("abc", 2), "ab");
    assert_eq!(take_chars("日本語", 2), "日本");
    assert_eq!(take_chars("🎉🎊🎁", 2), "🎉🎊");
    assert_eq!(take_chars("short", 100), "short");
}

#[test]
fn porcelain_is_sorted_and_rejects_bad_utf8() {
    let output = b" M zeta.rs\0 D alpha.rs\0A  mid.rs\0";
    let files = parse_porcelain_status(output).unwrap();
    let paths: Vec<&str> = files.iter().map(|f| f.path.as_str()).collect();
    assert_eq!(paths, vec!["alpha.rs", "mid.rs", "zeta.rs"]);
    assert_eq!(files[0].kind, FileChangeKind::Deleted);
    assert_eq!(files[1].kind, FileChangeKind::Added);
    assert!(matches!(parse_porcelain_status(b" M \xff\xfe.rs\0"), Err(RepoError::InvalidUtf8)));
    assert!(matches!(parse_diff_name_status(b"M\0\xff\0"), Err(RepoError::InvalidUtf8)));
}

#[test]
fn porcelain_rename_into_jj_store_is_skipped() {
    let files = parse_porcelain_status(b"R  .jj/x\0old.rs\0 M a.rs\0").unwrap();
    assert_eq!(files.len(), 1);
    assert_eq!(files[0].path.as_str(), "a.rs");
}

#[test]
fn name_status_parsing() {
    let out = b"M\0src/a.rs\0R100\0old.rs\0new.rs\0D\0gone.rs\0A\0added.rs\0";
    let files = parse_diff_name_status(out).unwrap();
    let paths: Vec<&str> = files.iter().map(|f| f.path.as_str()).collect();
    assert_eq!(paths, vec!["added.rs", "gone.rs", "new.rs", "src/a.rs"]);
    assert_eq!(files[0].kind, FileChangeKind::Added);
    assert_eq!(files[1].kind, FileChangeKind::Deleted);
    assert_eq!(files[2].kind, FileChangeKind::Renamed);
    assert_eq!(files[2].old_path.as_ref().map(|p| p.as_str()), Some("old.rs"));
    assert_eq!(files[3].kind, FileChangeKind::Modified);
}

#[test]
fn working_tree_changes_take_precedence() {
    let committed = vec![
        ChangedFile::new(RelPath::new("b.rs"), FileChangeKind::Modified),
        ChangedFile::new(RelPath::new("a.rs"), FileChangeKind::Added),
    ];
    let working = vec![ChangedFile::new(RelPath::new("a.rs"), FileChangeKind::Deleted)];
    let merged = merge_changed_files(&committed, &working);
    assert_eq!(merged.len(), 2);
    assert_eq!(merged[0].path.as_str(), "a.rs");
    assert_eq!(merged[0].kind, FileChangeKind::Deleted);
    assert_eq!(merged[1].path.as_str(), "b.rs");
    let cmp = base_comparison("abc123".to_string(), &committed, &working);
    assert_eq!(cmp.merge_base, "abc123");
    assert_eq!(cmp.files.len(), 2);
}

#[test]
fn flag_like_references_are_refused() {
    assert!(validate_git_ref_format("main").is_ok());
    match validate_git_ref_format("  -rf ") {
        Err(RepoError::InvalidRevision(m)) => assert_eq!(m, "references cannot start with '-': -rf"),
        other => panic!("unexpected: {:?}", other),
    }
}

#[test]
fn apply_defaults_fills_open_range_ends() {
    let mut s = DiffSource::Range { from: String::new(), to: "v2".to_string() };
    s.apply_defaults("HEAD");
    match &s {
        DiffSource::Range { from, to } => {
            assert_eq!(from, "HEAD");
            assert_eq!(to, "v2");
        }
        _ => panic!("not a range"),
    }
    s.apply_defaults("other");
    match &s {
        DiffSource::Range { from, .. } => assert_eq!(from, "HEAD"),
        _ => panic!("not a range"),
    }
    let mut w = DiffSource::WorkingTree;
    w.apply_defaults("HEAD");
    assert!(matches!(w, DiffSource::WorkingTree));
}

#[test]
fn repo_root_refs() {
    let git = RepoRoot::from_parts("/r".to_string(), VcsType::Git);
    let jj = RepoRoot::from_parts("/r".to_string(), VcsType::Jj);
    assert_eq!(git.working_copy_parent_ref(), "HEAD");
    assert_eq!(jj.working_copy_parent_ref(), "@-");
    assert_eq!(jj.working_copy_ref(), "@");
    assert!(git.is_git() && !git.is_jj());
    assert_eq!(git.as_str(), "/r");
    assert_eq!(RelPath::new("a/b.rs").to_absolute(&git), "/r/a/b.rs");
}

#[test]
fn content_plans() {
    let f = ChangedFile::renamed(RelPath::new("old.rs"), RelPath::new("new.rs"));
    match diff_content_plan(&DiffSource::WorkingTree, &f, "").unwrap() {
        (ContentSpec::Head(o), ContentSpec::Working(n)) => {
            assert_eq!(o.as_str(), "old.rs");
            assert_eq!(n.as_str(), "new.rs");
        }
        other => panic!("unexpected: {:?}", other),
    }
    let added = ChangedFile::new(RelPath::new("x.rs"), FileChangeKind::Added);
    match diff_content_plan(&DiffSource::Commit("c1".to_string()), &added, "p0").unwrap() {
        (ContentSpec::Empty, ContentSpec::Revision(r, p)) => {
            assert_eq!(r, "c1");
            assert_eq!(p.as_str(), "x.rs");
        }
        other => panic!("unexpected: {:?}", other),
    }
    let pr = DiffSource::PullRequest { number: 3, head: "h".to_string(), base: "b".to_string() };
    assert!(matches!(diff_content_plan(&pr, &added, ""), Err(RepoError::UnsupportedForPR)));
}

#[test]
fn source_labels() {
    assert_eq!(diff_source_display(&DiffSource::WorkingTree, None), "Working Tree");
    assert_eq!(diff_source_display(&DiffSource::Commit("0123456789".to_string()), None), "Commit 0123456");
    assert_eq!(
        diff_source_display(&DiffSource::Range { from: "aaaaaaaaa".to_string(), to: "bb".to_string() }, None),
        "aaaaaaa..bb"
    );
    assert_eq!(diff_source_display(&DiffSource::Base("origin/main".to_string()), None), "vs origin/main");
    let pr = DiffSource::PullRequest { number: 42, head: "feat".to_string(), base: "main".to_string() };
    assert_eq!(diff_source_display(&pr, None), "PR #42 (feat \u{2192} main)");
    assert_eq!(quickdiff::repo::commit_summary_label("abcdef0123", 7, "Fix it"), "abcdef0 Fix it");
}

#[test]
fn find_changed_file_by_path() {
    let files = vec![
        ChangedFile::new(RelPath::new("a.rs"), FileChangeKind::Added),
        ChangedFile::new(RelPath::new("b.rs"), FileChangeKind::Modified),
    ];
    assert_eq!(quickdiff::repo::find_changed_file(&files, &RelPath::new("b.rs")), Some(1));
    assert_eq!(quickdiff::repo::find_changed_file(&files, &RelPath::new("c.rs")), None);
}
