use quickdiff::diff::{has_meaningful_content, merge_adjacent_spans, pair_changes, Change, ChangeKind, DiffResult, InlineSpan};
use quickdiff::text::TextBuffer;

#[test]
fn empty_diff() {
    let old = TextBuffer::new(b"");
    let new = TextBuffer::new(b"");
    let result = DiffResult::compute(&old, &new);
    assert_eq!(result.row_count(), 0);
    assert!(result.hunks().is_empty());
    assert!(!result.has_changes());
}

#[test]
fn identical_files() {
    let old = TextBuffer::new(b"line1\nline2\nline3\n");
    let new = TextBuffer::new(b"line1\nline2\nline3\n");
    let result = DiffResult::compute(&old, &new);
    assert!(!result.has_changes());
    assert!(result.hunks().is_empty());
}

#[test]
fn simple_insert() {
    let old = TextBuffer::new(b"line1\nline3\n");
    let new = TextBuffer::new(b"line1\nline2\nline3\n");
    let result = DiffResult::compute(&old, &new);
    assert!(result.has_changes());
    assert_eq!(result.hunks().len(), 1);

    let insert = result.rows().iter().find(|r| r.kind == ChangeKind::Insert).unwrap();
    assert_eq!(insert.new.as_ref().unwrap().content, "line2");
    assert!(insert.old.is_none());
}

#[test]
fn simple_delete() {
    let old = TextBuffer::new(b"line1\nline2\nline3\n");
    let new = TextBuffer::new(b"line1\nline3\n");
    let result = DiffResult::compute(&old, &new);
    assert!(result.has_changes());

    let delete = result.rows().iter().find(|r| r.kind == ChangeKind::Delete).unwrap();
    assert_eq!(delete.old.as_ref().unwrap().content, "line2");
    assert!(delete.new.is_none());
}

#[test]
fn replace_pairing() {
    let old = TextBuffer::new(b"line1\nold content\nline3\n");
    let new = TextBuffer::new(b"line1\nnew content\nline3\n");
    let result = DiffResult::compute(&old, &new);
    assert!(result.has_changes());

    let replace = result.rows().iter().find(|r| r.kind == ChangeKind::Replace).unwrap();
    assert_eq!(replace.old.as_ref().unwrap().content, "old content");
    assert_eq!(replace.new.as_ref().unwrap().content, "new content");
}

#[test]
fn multi_line_replace() {
    let old = TextBuffer::new(b"a\nb\nc\n");
    let new = TextBuffer::new(b"x\ny\nz\n");
    let result = DiffResult::compute(&old, &new);

    let replaces: Vec<_> = result.rows().iter().filter(|r| r.kind == ChangeKind::Replace).collect();
    assert_eq!(replaces.len(), 3);
    assert_eq!(replaces[0].old.as_ref().unwrap().content, "a");
    assert_eq!(replaces[0].new.as_ref().unwrap().content, "x");
}

#[test]
fn unbalanced_changes() {
    let old = TextBuffer::new(b"a\nb\nc\n");
    let new = TextBuffer::new(b"x\n");
    let result = DiffResult::compute(&old, &new);

    let replaces: Vec<_> = result.rows().iter().filter(|r| r.kind == ChangeKind::Replace).collect();
    let deletes: Vec<_> = result.rows().iter().filter(|r| r.kind == ChangeKind::Delete).collect();
    assert_eq!(replaces.len(), 1);
    assert_eq!(deletes.len(), 2);
}

#[test]
fn inline_diff_similarity_gate() {
    let old = TextBuffer::new(b"alpha beta gamma\n");
    let new = TextBuffer::new(b"delta epsilon zeta\n");
    let result = DiffResult::compute(&old, &new);

    let replace = result.rows().iter().find(|r| r.kind == ChangeKind::Replace).unwrap();
    assert!(replace.old.as_ref().unwrap().inline_spans.is_none());
    assert!(replace.new.as_ref().unwrap().inline_spans.is_none());
}

#[test]
fn inline_diff_similarity_kept() {
    let old = TextBuffer::new(b"let value = 1\n");
    let new = TextBuffer::new(b"let value = 2\n");
    let result = DiffResult::compute(&old, &new);

    let replace = result.rows().iter().find(|r| r.kind == ChangeKind::Replace).unwrap();
    let old_spans = replace.old.as_ref().unwrap().inline_spans.as_ref().unwrap();
    let new_spans = replace.new.as_ref().unwrap().inline_spans.as_ref().unwrap();
    assert!(old_spans.iter().any(|s| s.changed));
    assert!(new_spans.iter().any(|s| s.changed));
}

#[test]
fn inline_diff_unicode_words() {
    let old = TextBuffer::new("let cafe = \"naive\"\n".as_bytes());
    let new = TextBuffer::new("let caf\u{00E9} = \"naive\"\n".as_bytes());
    let result = DiffResult::compute(&old, &new);

    let replace = result.rows().iter().find(|r| r.kind == ChangeKind::Replace).unwrap();
    let new_spans = replace.new.as_ref().unwrap().inline_spans.as_ref().unwrap();
    assert!(new_spans.iter().any(|s| s.changed));
}

#[test]
fn next_hunk_navigation() {
    let old = TextBuffer::new(b"a\nb\nc\nd\ne\nf\ng\nh\ni\nj\nk\nl\nm\nn\no\np\nq\nr\ns\nt\n");
    let new = TextBuffer::new(b"a\nB\nc\nd\ne\nf\ng\nh\ni\nj\nk\nl\nm\nN\no\np\nq\nr\ns\nt\n");
    let result = DiffResult::compute_with_context(&old, &new, 2);

    assert!(!result.hunks().is_empty());

    if let Some(next) = result.next_hunk_row(0) {
        assert!(next > 0 || result.hunks()[0].start_row == 0);
    }
}

#[test]
fn prev_hunk_navigation() {
    let old = TextBuffer::new(b"a\nb\nc\nd\n");
    let new = TextBuffer::new(b"A\nb\nc\nD\n");
    let result = DiffResult::compute_with_context(&old, &new, 1);

    let last_row = result.row_count().saturating_sub(1);
    if let Some(prev) = result.prev_hunk_row(last_row) {
        assert!(prev < last_row);
    }
}

#[test]
fn render_rows_viewport() {
    let old = TextBuffer::new(b"a\nb\nc\nd\ne\n");
    let new = TextBuffer::new(b"a\nB\nc\nd\ne\n");
    let result = DiffResult::compute(&old, &new);

    let viewport: Vec<_> = result.render_rows(0, 3).iter().collect();
    assert!(viewport.len() <= 3);
}

#[test]
fn hunk_at_row_basic() {
    let old = TextBuffer::new(b"line1\nold\nline3\n");
    let new = TextBuffer::new(b"line1\nnew\nline3\n");
    let result = DiffResult::compute(&old, &new);

    assert!(!result.hunks().is_empty());
    let hunk = &result.hunks()[0];

    assert_eq!(result.hunk_at_row(hunk.start_row), Some(0));
    assert_eq!(result.hunk_at_row(hunk.start_row + hunk.row_count - 1), Some(0));
}

#[test]
fn hunk_at_row_outside() {
    let old = TextBuffer::new(b"same\n");
    let new = TextBuffer::new(b"same\n");
    let result = DiffResult::compute(&old, &new);
    assert!(result.hunk_at_row(0).is_none());
}

#[test]
fn rows_give_back_both_sides() {
    let old = TextBuffer::new(b"a\nb\nc\nd\n");
    let new = TextBuffer::new(b"a\nx\nc\ny\nz\n");
    let result = DiffResult::compute(&old, &new);
    let olds: Vec<String> = result.rows().iter().filter_map(|r| r.old.as_ref().map(|l| l.content.clone())).collect();
    let news: Vec<String> = result.rows().iter().filter_map(|r| r.new.as_ref().map(|l| l.content.clone())).collect();
    assert_eq!(olds, vec!["a", "b", "c", "d"]);
    assert_eq!(news, vec!["a", "x", "c", "y", "z"]);
    assert!(result.row_count() <= 4 + 5);
}

#[test]
fn single_hunk_ranges() {
    let old = TextBuffer::new(b"line1\nold\nline3\n");
    let new = TextBuffer::new(b"line1\nnew\nline3\n");
    let result = DiffResult::compute(&old, &new);
    assert_eq!(result.hunks().len(), 1);
    let h = result.hunks()[0];
    assert_eq!(h.start_row, 0);
    assert_eq!(h.row_count, 3);
    assert_eq!(h.old_range, (0, 3));
    assert_eq!(h.new_range, (0, 3));
    assert_eq!(result.next_hunk_row(0), None);
    assert_eq!(result.prev_hunk_row(2), Some(0));
}

#[test]
fn hunks_are_ordered_and_disjoint() {
    let old = TextBuffer::new(b"1\n2\n3\n4\n5\n6\n7\n8\n9\n10\n11\n12\n13\n14\n15\n");
    let new = TextBuffer::new(b"1\nX\n3\n4\n5\n6\n7\n8\n9\n10\n11\n12\n13\nY\n15\n");
    let result = DiffResult::compute_with_context(&old, &new, 1);
    let hs = result.hunks();
    assert_eq!(hs.len(), 2);
    assert!(hs[0].start_row + hs[0].row_count <= hs[1].start_row);
    assert!(hs[1].start_row + hs[1].row_count <= result.row_count());
    assert_eq!(result.next_hunk_row(0), Some(hs[1].start_row));
}

#[test]
fn meaningful_content_and_span_merging() {
    assert!(!has_meaningful_content("  \t "));
    assert!(has_meaningful_content(" x "));
    let merged = merge_adjacent_spans(vec![
        InlineSpan { start: 0, end: 2, changed: false },
        InlineSpan { start: 2, end: 4, changed: false },
        InlineSpan { start: 4, end: 5, changed: true },
    ]);
    assert_eq!(merged, vec![
        InlineSpan { start: 0, end: 4, changed: false },
        InlineSpan { start: 4, end: 5, changed: true },
    ]);
}

#[test]
fn cloned_result_has_same_rows() {
    let old = TextBuffer::new(b"a\n");
    let new = TextBuffer::new(b"b\n");
    let result = DiffResult::compute(&old, &new);
    let copy = result.clone();
    assert_eq!(copy.row_count(), result.row_count());
    assert_eq!(copy.hunks(), result.hunks());
    assert_eq!(copy.rows()[0].kind, ChangeKind::Replace);
}

#[test]
fn pair_changes_pairs_runs_positionally() {
    let changes = vec![
        Change::Equal { old_line: 0, new_line: 0, content: "keep".to_string() },
        Change::Delete { old_line: 1, content: "a".to_string() },
        Change::Delete { old_line: 2, content: "b".to_string() },
        Change::Delete { old_line: 3, content: "c".to_string() },
        Change::Insert { new_line: 1, content: "x".to_string() },
    ];
    let rows = pair_changes(changes);
    assert_eq!(rows.len(), 4);
    assert_eq!(rows[0].kind, ChangeKind::Equal);
    assert_eq!(rows[1].kind, ChangeKind::Replace);
    assert_eq!(rows[1].old.as_ref().unwrap().content, "a");
    assert_eq!(rows[1].new.as_ref().unwrap().content, "x");
    assert_eq!(rows[2].kind, ChangeKind::Delete);
    assert_eq!(rows[2].old.as_ref().unwrap().line_num, 2);
    assert!(rows[2].new.is_none());
    assert_eq!(rows[3].kind, ChangeKind::Delete);
    assert!(rows[3].old.as_ref().unwrap().inline_spans.is_none());
}

#[test]
fn rows_have_the_sides_of_their_kind_and_hunks_hold_changes() {
    let old = TextBuffer::new(b"a\nb\nc\nd\ne\nf\ng\nh\ni\nj\n");
    let new = TextBuffer::new(b"a\nB\nc\nd\ne\nf\ng\nh\ni\nj\nk\n");
    let d = DiffResult::compute_with_context(&old, &new, 1);
    assert!(d.rows().len() <= old.line_count() + new.line_count());
    for r in d.rows() {
        match r.kind {
            ChangeKind::Equal => assert_eq!(r.old.as_ref().unwrap().content, r.new.as_ref().unwrap().content),
            ChangeKind::Delete => assert!(r.old.is_some() && r.new.is_none()),
            ChangeKind::Insert => assert!(r.old.is_none() && r.new.is_some()),
            ChangeKind::Replace => assert!(r.old.is_some() && r.new.is_some()),
        }
    }
    assert_eq!(d.hunks().len(), 2);
    for h in d.hunks() {
        assert!(d.rows()[h.start_row..h.start_row + h.row_count].iter().any(|r| r.kind != ChangeKind::Equal));
    }
    for (p, r) in d.rows().iter().enumerate() {
        if r.kind != ChangeKind::Equal {
            assert!(d.hunks().iter().any(|h| h.start_row <= p && p < h.start_row + h.row_count));
        }
    }
    assert!(d.has_changes());
    let same = DiffResult::compute(&old, &TextBuffer::new(b"a\nb\nc\nd\ne\nf\ng\nh\ni\nj\n"));
    assert!(!same.has_changes() && same.hunks().is_empty());
}
