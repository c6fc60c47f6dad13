use quickdiff::pane::{diff_state_card, diff_title, effective_pane_mode};
use quickdiff::repo::FileChangeKind;
use quickdiff::view_state::DiffPaneMode;
use quickdiff::diff::{ChangeKind, DiffResult, InlineSpan, LineRef, RenderRow};
use quickdiff::highlight::{FileHighlightCache, ScopeInfo, StyleId, StyledSpan};
use quickdiff::pane::{code_items, layout_cells, layout_pane, side_line, sticky_scope, Cell, RowTone, PANE_GUTTER};
use quickdiff::text::TextBuffer;

fn text_of(cells: &[Cell]) -> String {
    cells.iter().map(|c| c.ch).collect()
}

#[test]
fn pane_tab_expands_to_next_stop() {
    let items = code_items("\tfoo", None, None);
    let (cells, used) = layout_cells(&items, 0, 20);
    assert_eq!(text_of(&cells), "        foo");
    assert_eq!(used, 11);
}

#[test]
fn pane_tab_respects_scroll() {
    let items = code_items("\tfoo", None, None);
    let (cells, used) = layout_cells(&items, 4, 20);
    assert_eq!(text_of(&cells), "    foo");
    assert_eq!(used, 7);
}

#[test]
fn pane_width_cuts_the_line() {
    let items = code_items("abcdefgh", None, None);
    let (cells, used) = layout_cells(&items, 2, 3);
    assert_eq!(text_of(&cells), "cde");
    assert_eq!(used, 3);
    let (none, zero) = layout_cells(&items, 0, 0);
    assert!(none.is_empty());
    assert_eq!(zero, 0);
}

#[test]
fn control_characters_are_replaced() {
    let items = code_items("a\u{7}b", None, None);
    let (cells, _) = layout_cells(&items, 0, 10);
    assert_eq!(text_of(&cells), "a\u{FFFD}b");
}

#[test]
fn items_follow_highlight_spans_and_inline_changes() {
    let spans = [
        StyledSpan { start: 0, end: 2, style_id: StyleId::Keyword },
        StyledSpan { start: 2, end: 3, style_id: StyleId::Default },
        StyledSpan { start: 3, end: 6, style_id: StyleId::Function },
    ];
    let inline = [
        InlineSpan { start: 0, end: 3, changed: false },
        InlineSpan { start: 3, end: 6, changed: true },
    ];
    let items = code_items("fn foo", Some(&spans[..]), Some(&inline[..]));
    assert_eq!(text_of(&items), "fn foo");
    assert_eq!(items[0].style, StyleId::Keyword);
    assert_eq!(items[2].style, StyleId::Default);
    assert_eq!(items[3].style, StyleId::Function);
    assert!(!items[1].changed);
    assert!(items[3].changed && items[5].changed);
}

#[test]
fn spans_off_character_boundaries_draw_nothing() {
    // "é" takes two bytes: a span starting inside it is dropped.
    let spans = [
        StyledSpan { start: 1, end: 3, style_id: StyleId::String },
        StyledSpan { start: 2, end: 3, style_id: StyleId::Number },
    ];
    let items = code_items("éx", Some(&spans[..]), None);
    assert_eq!(text_of(&items), "x");
    assert_eq!(items[0].style, StyleId::Number);
}

#[test]
fn empty_span_list_uses_default_style() {
    let items = code_items("ab", Some(&[][..]), None);
    assert_eq!(text_of(&items), "ab");
    assert!(items.iter().all(|c| c.style == StyleId::Default && !c.changed));
}

#[test]
fn sides_and_backgrounds() {
    let row = RenderRow {
        old: Some(LineRef { line_num: 0, content: "a".to_string(), inline_spans: None }),
        new: None,
        kind: ChangeKind::Delete,
    };
    let (old_line, old_tone) = side_line(&row, true);
    let (new_line, new_tone) = side_line(&row, false);
    assert_eq!(old_line.map(|l| l.line_num), Some(0));
    assert_eq!(old_tone, RowTone::Delete);
    assert!(new_line.is_none());
    assert_eq!(new_tone, RowTone::Empty);
}

#[test]
fn pane_lines_fill_the_width() {
    let old = TextBuffer::new(b"keep\nold line\n");
    let new = TextBuffer::new(b"keep\nnew\n");
    let diff = DiffResult::compute(&old, &new);
    let highlights = FileHighlightCache::new();
    let width = 20;
    let pane = layout_pane(&diff, &highlights, None, &[0], true, 0, 0, width, 10, true);
    assert!(pane.sticky.is_none());
    assert_eq!(pane.lines.len(), diff.row_count());
    let widest = pane.lines.iter().map(|l| l.cells.len()).max().unwrap();
    assert_eq!(widest, "old line".len());
    for line in &pane.lines {
        assert_eq!(line.left_pad + line.cells.len() + line.trailing, width - PANE_GUTTER);
        assert_eq!(line.left_pad, width - PANE_GUTTER - widest);
        assert!(line.marker);
    }
    assert_eq!(pane.lines[0].label, "   1");
    assert_eq!(text_of(&pane.lines[0].cells), "keep");

    let right = layout_pane(&diff, &highlights, None, &[], true, 0, 0, width, 10, false);
    for line in &right.lines {
        assert_eq!(line.left_pad, 0);
        assert!(!line.marker);
    }
}

#[test]
fn pane_shows_only_its_viewport() {
    let old = TextBuffer::new(b"1\n2\n3\n4\n");
    let new = TextBuffer::new(b"1\n2\n3\n4\n");
    let diff = DiffResult::compute(&old, &new);
    let highlights = FileHighlightCache::new();
    let pane = layout_pane(&diff, &highlights, None, &[], false, 1, 0, 30, 2, false);
    assert_eq!(pane.lines.len(), 2);
    assert_eq!(pane.lines[0].label, "   2");
    assert_eq!(pane.lines[1].label, "   3");
    let past = layout_pane(&diff, &highlights, None, &[], false, 9, 0, 30, 2, false);
    assert!(past.lines.is_empty());
}

#[test]
fn sticky_scope_after_the_definition_line() {
    let old = TextBuffer::new(b"fn main() {\n    let x = 1;\n    x\n}\n");
    let diff = DiffResult::compute(&old, &old);
    let scopes = vec![ScopeInfo { name: "main".to_string(), kind: "fn", start_line: 0, end_line: 3 }];
    assert!(sticky_scope(&diff, &scopes, 0, false).is_none());
    let s = sticky_scope(&diff, &scopes, 1, false).expect("scope");
    assert_eq!(s.name, "main");

    let highlights = FileHighlightCache::new();
    let pane = layout_pane(&diff, &highlights, Some(s), &[], false, 1, 0, 26, 3, true);
    let sticky = pane.sticky.expect("sticky line");
    assert_eq!(sticky.text, "fn main");
    assert_eq!(sticky.left_pad, 20 - 7);
    assert_eq!(sticky.trailing, 0);
    assert_eq!(pane.lines.len(), 2);
}

#[test]
fn narrow_views_pick_one_pane() {
    assert_eq!(effective_pane_mode(DiffPaneMode::Both, 100, Some(FileChangeKind::Deleted)), DiffPaneMode::Both);
    assert_eq!(effective_pane_mode(DiffPaneMode::Both, 60, Some(FileChangeKind::Deleted)), DiffPaneMode::OldOnly);
    assert_eq!(effective_pane_mode(DiffPaneMode::Both, 60, None), DiffPaneMode::NewOnly);
    assert_eq!(effective_pane_mode(DiffPaneMode::OldOnly, 10, None), DiffPaneMode::OldOnly);
    assert_eq!(diff_title(DiffPaneMode::NewOnly), " Diff (new only) ");
}

#[test]
fn state_cards() {
    assert_eq!(diff_state_card(true, true, None).map(|c| c.0), Some("Loading diff\u{2026}"));
    assert_eq!(diff_state_card(false, true, None).map(|c| c.0), Some("Binary file"));
    assert_eq!(diff_state_card(false, false, None).map(|c| c.0), Some("No diff selected"));
    let same = TextBuffer::new(b"x\n");
    let d = DiffResult::compute(&same, &same);
    assert_eq!(diff_state_card(false, false, Some(&d)).map(|c| c.0), Some("Files are identical"));
    let other = TextBuffer::new(b"y\n");
    let changed = DiffResult::compute(&same, &other);
    assert!(diff_state_card(false, false, Some(&changed)).is_none());
}
