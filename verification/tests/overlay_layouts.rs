use quickdiff::comments::CommentStatus;
use quickdiff::gh::{PRAuthor, PRFilter, PullRequest};
use quickdiff::overlays::{
    comments_overlay, help_overlay, pr_action_overlay, pr_picker_overlay, theme_overlay, HelpRole,
};
use quickdiff::view_state::{CommentViewItem, PRActionType};

fn item(id: u64, resolved: bool, stale: bool) -> CommentViewItem {
    CommentViewItem {
        id,
        status: if resolved { CommentStatus::Resolved } else { CommentStatus::Open },
        message: format!("message {}", id),
        anchor_summary: "src/a.rs:10".to_string(),
        hunk_start_row: None,
        stale,
    }
}

fn pr(number: u32, title: &str) -> PullRequest {
    PullRequest {
        number,
        title: title.to_string(),
        head_ref_name: "feature/some-very-long-branch".to_string(),
        base_ref_name: "main".to_string(),
        author: PRAuthor { login: "me".to_string() },
        additions: 10,
        deletions: 5,
        changed_files: 2,
        is_draft: false,
    }
}

#[test]
fn comments_overlay_size_and_lines() {
    let items = vec![item(1, false, false), item(2, true, true)];
    let o = comments_overlay(100, 40, &items, 1, false);
    assert_eq!((o.area.width, o.area.height), (70, 6));
    assert_eq!((o.area.x, o.area.y), (15, 17));
    assert_eq!(o.title, " Comments (open) ");
    assert_eq!(o.lines.len(), 2);
    assert_eq!(o.lines[0].label, "#1 ");
    assert!(!o.lines[0].selected && o.lines[1].selected);
    assert!(o.lines[1].resolved && o.lines[1].stale);
    assert_eq!(o.lines[1].message, "message 2");
    assert_eq!(o.blank_rows, 2);
}

#[test]
fn comments_overlay_scrolls_to_selection() {
    let items: Vec<CommentViewItem> = (1..=20).map(|i| item(i, false, false)).collect();
    let o = comments_overlay(60, 10, &items, 15, true);
    // Height is capped at 6 rows: 4 lines inside the border.
    assert_eq!(o.area.height, 6);
    assert_eq!(o.area.width, 45);
    assert_eq!(o.lines.len(), 4);
    assert_eq!(o.lines[0].label, "#13 ");
    assert!(o.lines[3].selected);
    let past = comments_overlay(60, 10, &items, 99, true);
    assert!(past.lines[3].selected);
    assert_eq!(past.lines[3].label, "#20 ");
}

#[test]
fn comments_overlay_empty() {
    let o = comments_overlay(80, 30, &[], 0, true);
    assert_eq!(o.title, " Comments (all) ");
    assert_eq!(o.note.as_deref(), Some("No comments"));
    assert_eq!(o.blank_rows, 3);
}

#[test]
fn theme_overlay_keeps_selection_visible() {
    let names: Vec<String> = ["default", "dracula", "gruvbox", "nord", "solarized"].iter().map(|s| s.to_string()).collect();
    let o = theme_overlay(80, 8, &names, 4);
    assert_eq!((o.area.width, o.area.height), (30, 4));
    assert_eq!(o.lines.len(), 2);
    assert_eq!(o.lines[0].1, " nord");
    assert!(o.lines[1].0);
    assert_eq!(o.blank_rows, 0);
    let roomy = theme_overlay(80, 40, &names, 0);
    assert_eq!(roomy.lines.len(), 5);
    assert!(roomy.lines[0].0);
}

#[test]
fn help_overlay_lists_bindings() {
    let o = help_overlay(100, 50);
    assert_eq!((o.area.width, o.area.height), (70, 27));
    assert_eq!(o.lines.len(), 25);
    assert_eq!(o.lines[0].role, HelpRole::Heading);
    assert_eq!(o.lines[0].text, "Common keybindings");
    assert_eq!(o.lines[3].key, format!("{:<16}", "j/k or \u{2191}/\u{2193}"));
    assert_eq!(o.lines[23].key, "q or Ctrl+C     ");
    assert_eq!(o.lines[24].key, "Mouse");
    assert_eq!(o.blank_rows, 0);
    let tiny = help_overlay(10, 2);
    assert!(tiny.lines.is_empty());
}

#[test]
fn pr_picker_lines_and_tabs() {
    let prs = vec![pr(7, "Fix the thing"), pr(12345, "A title that is definitely longer than thirty chars")];
    let o = pr_picker_overlay(120, 40, &prs, 1, 0, PRFilter::Mine, false);
    assert_eq!((o.area.width, o.area.height), (80, 30));
    assert_eq!(o.tabs[0].0, " All ");
    assert_eq!(o.tabs[1].0, "[Mine]");
    assert!(o.tabs[1].1);
    assert_eq!(o.lines.len(), 2);
    assert_eq!(o.lines[0].1, " #7    Fix the thing (feature/some-v\u{2026} \u{2192} main) +10/-5");
    assert!(o.lines[1].0);
    assert!(o.lines[1].1.starts_with(" #12345 A title that is definitely lo\u{2026} ("));
    let loading = pr_picker_overlay(120, 40, &prs, 1, 3, PRFilter::All, true);
    assert_eq!(loading.note.as_deref(), Some("Loading..."));
    assert_eq!(loading.scroll, 3);
    let empty = pr_picker_overlay(120, 40, &[], 0, 0, PRFilter::All, false);
    assert_eq!(empty.note.as_deref(), Some("No PRs found"));
}

#[test]
fn pr_action_prompt() {
    let c = pr_action_overlay(100, 30, Some(PRActionType::Comment), "looks good").expect("fits");
    assert_eq!(c.title, " Comment on PR ");
    assert_eq!(c.input.as_deref(), Some("looks good_"));
    assert_eq!((c.area.width, c.area.height), (60, 10));
    let a = pr_action_overlay(100, 30, Some(PRActionType::Approve), "").expect("fits");
    assert!(a.input.is_none());
    assert!(pr_action_overlay(22, 30, None, "").is_none());
}
