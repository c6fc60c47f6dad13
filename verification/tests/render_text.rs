use quickdiff::render_helpers::{render_plain_text, sanitize_char, tab_width_at, truncate_str};

#[test]
fn render_tab_expands_to_next_stop() {
    let (text, _, _) = render_plain_text("\tfoo", 0, 20, 0, 0);
    assert_eq!(text, "        foo");
}

#[test]
fn render_tab_respects_scroll() {
    let (text, _, _) = render_plain_text("\tfoo", 4, 20, 0, 0);
    assert_eq!(text, "    foo");
}

#[test]
fn diff_tab_expands_to_next_stop() {
    let (text, col, len) = render_plain_text("\tfoo", 0, 20, 0, 0);
    assert_eq!(text, "        foo");
    assert_eq!(col, 11);
    assert_eq!(len, 11);
}

#[test]
fn diff_tab_respects_scroll() {
    let (text, col, len) = render_plain_text("\tfoo", 4, 20, 0, 0);
    assert_eq!(text, "    foo");
    assert_eq!(col, 11);
    assert_eq!(len, 7);
}

#[test]
fn render_stops_at_max_content() {
    let (text, _, len) = render_plain_text("abcdef", 0, 3, 0, 0);
    assert_eq!(text, "abc");
    assert_eq!(len, 3);
}

#[test]
fn tab_stops_are_eight_wide() {
    assert_eq!(tab_width_at(0), 8);
    assert_eq!(tab_width_at(3), 5);
    assert_eq!(tab_width_at(8), 8);
}

#[test]
fn control_chars_are_sanitized() {
    assert_eq!(sanitize_char('a'), 'a');
    assert_ne!(sanitize_char('\u{1b}'), '\u{1b}');
}

#[test]
fn truncate_adds_ellipsis() {
    assert_eq!(truncate_str("hello", 10), "hello");
    assert_eq!(truncate_str("hello world", 5).chars().count(), 5);
}
