//! Modal overlays: where each box sits on the screen and what its lines
//! say (the comment list, the theme selector, the key help, the pull
//! request picker and the review action prompt).

use vstd::prelude::*;
use crate::comments::CommentStatus;
use crate::gh::{PRFilter, PullRequest};
use crate::render_helpers::{truncate_str, truncated_display};
use crate::strings::{dec, fmt_dec, fmt_dec_u64, push_all, push_str, string_of};
use crate::sidebar::sidebar_scroll;
use crate::view_state::{CommentViewItem, PRActionType};

verus! {

/// A rectangle on the screen.
#[derive(Debug, Clone, Copy, PartialEq, Eq, Structural)]
pub struct OverlayBox {
    pub x: u16,
    pub y: u16,
    pub width: u16,
    pub height: u16,
}

/// `a - b`, or zero.
pub open spec fn sat(a: nat, b: nat) -> nat {
    if a >= b {
        (a - b) as nat
    } else {
        0
    }
}

/// The smaller of two numbers.
pub open spec fn min_n(a: nat, b: nat) -> nat {
    if a <= b {
        a
    } else {
        b
    }
}

/// The larger of two numbers.
pub open spec fn max_n(a: nat, b: nat) -> nat {
    if a >= b {
        a
    } else {
        b
    }
}

/// `v` kept within `lo..=hi`.
pub open spec fn clamp_n(v: nat, lo: nat, hi: nat) -> nat {
    if v < lo {
        lo
    } else if v > hi {
        hi
    } else {
        v
    }
}

/// A box of `w` by `h` centered in an area of `aw` by `ah`.
pub open spec fn centered(aw: nat, ah: nat, w: nat, h: nat) -> (nat, nat, nat, nat) {
    (sat(aw, w) / 2, sat(ah, h) / 2, w, h)
}

/// View of a box.
pub open spec fn box_view(b: OverlayBox) -> (nat, nat, nat, nat) {
    (b.x as nat, b.y as nat, b.width as nat, b.height as nat)
}

fn min16(a: u16, b: u16) -> (r: u16)
    ensures
        r as nat == min_n(a as nat, b as nat),
{
    if a <= b {
        a
    } else {
        b
    }
}

fn sat16(a: u16, b: u16) -> (r: u16)
    ensures
        r as nat == sat(a as nat, b as nat),
{
    if a >= b {
        a - b
    } else {
        0
    }
}

fn centered_box(aw: u16, ah: u16, w: u16, h: u16) -> (r: OverlayBox)
    ensures
        box_view(r) == centered(aw as nat, ah as nat, w as nat, h as nat),
{
    OverlayBox { x: sat16(aw, w) / 2, y: sat16(ah, h) / 2, width: w, height: h }
}

// ---------------------------------------------------------------------------
// Comments
// ---------------------------------------------------------------------------

/// The comments box for `n` comments in an area `aw` by `ah`: three
/// quarters of the width within 40..70 columns, tall enough for the list
/// within 6 rows and the area, and centered.
pub open spec fn comments_box(aw: nat, ah: nat, n: nat) -> (nat, nat, nat, nat) {
    let max_w = max_n(sat(aw, 4), 1);
    let w = clamp_n(aw * 3 / 4, min_n(40, max_w), min_n(70, max_w));
    let max_h = max_n(sat(ah, 4), 1);
    let h = clamp_n(n + 4, min_n(6, max_h), max_h);
    centered(aw, ah, w, h)
}

/// A listed comment.
pub struct CommentLine {
    /// The comment is the selected one.
    pub selected: bool,
    /// Its number, as `#id `.
    pub label: String,
    /// It is resolved (shows a check mark).
    pub resolved: bool,
    /// Where it is anchored.
    pub summary: String,
    /// Its anchor no longer matches the diff.
    pub stale: bool,
    /// Its text.
    pub message: String,
}

/// What the comments overlay draws.
pub struct CommentsOverlay {
    pub area: OverlayBox,
    pub title: String,
    /// Shown instead of the list when there are no comments.
    pub note: Option<String>,
    pub lines: Vec<CommentLine>,
    /// Blank lines below.
    pub blank_rows: usize,
}

/// The comment label `#id `.
pub open spec fn comment_label(id: u64) -> Seq<char> {
    "#"@ + dec(id as nat) + " "@
}

/// The first listed comment, keeping the selection on the last visible line
/// at most.
pub open spec fn comments_scroll(selected: nat, total: nat, visible: nat) -> nat {
    let sel = min_n(selected, (total - 1) as nat);
    sat(sel + 1, visible)
}

/// The comments box.
fn comments_area(area_w: u16, area_h: u16, n: usize) -> (r: OverlayBox)
    requires
        area_w as int * 3 <= u16::MAX,
        n + 4 <= u16::MAX,
    ensures
        box_view(r) == comments_box(area_w as nat, area_h as nat, n as nat),
{
    let max_w: u16 = if area_w >= 5 {
        area_w - 4
    } else {
        1
    };
    let lo_w = min16(40, max_w);
    let hi_w = min16(70, max_w);
    let want_w = area_w * 3 / 4;
    let w = if want_w < lo_w {
        lo_w
    } else if want_w > hi_w {
        hi_w
    } else {
        want_w
    };
    let max_h: u16 = if area_h >= 5 {
        area_h - 4
    } else {
        1
    };
    let lo_h = min16(6, max_h);
    let want_h = n as u16 + 4;
    let h = if want_h < lo_h {
        lo_h
    } else if want_h > max_h {
        max_h
    } else {
        want_h
    };
    centered_box(area_w, area_h, w, h)
}

/// The listed comments from `s` to `e`, `sel` the selected one.
fn comment_lines(items: &[CommentViewItem], s: usize, e: usize, sel: usize) -> (lines: Vec<CommentLine>)
    requires
        s <= e <= items@.len(),
    ensures
        lines@.len() == e - s,
        forall|k: int| 0 <= k < lines@.len() ==> {
            let it = items@[s + k];
            let l = #[trigger] lines@[k];
            &&& l.selected == (s + k == sel)
            &&& l.label@ == comment_label(it.id)
            &&& l.resolved == (it.status == CommentStatus::Resolved)
            &&& l.summary@ == it.anchor_summary@
            &&& l.stale == it.stale
            &&& l.message@ == it.message@
        },
{
    let mut lines: Vec<CommentLine> = Vec::new();
    let mut i: usize = s;
    while i < e
        invariant
            s <= i <= e <= items@.len(),
            lines@.len() == i - s,
            forall|k: int| 0 <= k < lines@.len() ==> {
                let it = items@[s + k];
                let l = #[trigger] lines@[k];
                &&& l.selected == (s + k == sel)
                &&& l.label@ == comment_label(it.id)
                &&& l.resolved == (it.status == CommentStatus::Resolved)
                &&& l.summary@ == it.anchor_summary@
                &&& l.stale == it.stale
                &&& l.message@ == it.message@
            },
        decreases e - i,
    {
        let it = &items[i];
        let mut label: Vec<char> = Vec::new();
        push_str(&mut label, "#");
        let d = fmt_dec_u64(it.id);
        push_all(&mut label, d.as_slice());
        push_str(&mut label, " ");
        assert(label@ =~= comment_label(it.id));
        let line = CommentLine {
            selected: i == sel,
            label: string_of(label.as_slice()),
            resolved: it.status == CommentStatus::Resolved,
            summary: it.anchor_summary.as_str().to_owned(),
            stale: it.stale,
            message: it.message.as_str().to_owned(),
        };
        lines.push(line);
        i = i + 1;
    }
    lines
}

/// The comments overlay for `items`, with `selected` the selected one.
pub fn comments_overlay(area_w: u16, area_h: u16, items: &[CommentViewItem], selected: usize, include_resolved: bool) -> (r: CommentsOverlay)
    requires
        area_w as int * 3 <= u16::MAX,
        items@.len() + 4 <= u16::MAX,
    ensures
        box_view(r.area) == comments_box(area_w as nat, area_h as nat, items@.len()),
        r.title@ == (if include_resolved { " Comments (all) "@ } else { " Comments (open) "@ }),
        ({
            let inner = sat(r.area.height as nat, 2);
            if inner == 0 {
                r.note is None && r.lines@.len() == 0 && r.blank_rows == 0
            } else if items@.len() == 0 {
                r.note matches Some(n) && n@ == "No comments"@ && r.lines@.len() == 0 && r.blank_rows == inner - 1
            } else {
                let total = items@.len();
                let s = comments_scroll(selected as nat, total, inner);
                let e = min_n(s + inner, total);
                let sel = min_n(selected as nat, (total - 1) as nat);
                &&& r.note is None
                &&& r.lines@.len() == e - s
                &&& forall|i: int| 0 <= i < r.lines@.len() ==> {
                    let it = items@[s + i];
                    let l = #[trigger] r.lines@[i];
                    &&& l.selected == (s + i == sel)
                    &&& l.label@ == comment_label(it.id)
                    &&& l.resolved == (it.status == CommentStatus::Resolved)
                    &&& l.summary@ == it.anchor_summary@
                    &&& l.stale == it.stale
                    &&& l.message@ == it.message@
                }
                &&& r.blank_rows == inner - r.lines@.len()
            }
        }),
{
    let area = comments_area(area_w, area_h, items.len());
    let h = area.height;
    let title = if include_resolved {
        " Comments (all) ".to_owned()
    } else {
        " Comments (open) ".to_owned()
    };
    let inner = sat16(h, 2) as usize;
    if inner == 0 {
        return CommentsOverlay { area, title, note: None, lines: Vec::new(), blank_rows: 0 };
    }
    if items.len() == 0 {
        return CommentsOverlay { area, title, note: Some("No comments".to_owned()), lines: Vec::new(), blank_rows: inner - 1 };
    }
    let total = items.len();
    let sel = if selected <= total - 1 {
        selected
    } else {
        total - 1
    };
    let s = if sel + 1 >= inner {
        sel + 1 - inner
    } else {
        0
    };
    let e = if inner <= total - s {
        s + inner
    } else {
        total
    };
    let lines = comment_lines(items, s, e, sel);
    let blank = inner - lines.len();
    CommentsOverlay { area, title, note: None, lines, blank_rows: blank }
}

// ---------------------------------------------------------------------------
// Theme selector
// ---------------------------------------------------------------------------

/// The theme selector box: 30 columns, one row per theme plus borders,
/// within the area less a margin, centered.
pub open spec fn theme_box(aw: nat, ah: nat, n: nat) -> (nat, nat, nat, nat) {
    centered(aw, ah, min_n(30, sat(aw, 4)), min_n(n + 2, sat(ah, 4)))
}

/// What the theme selector draws.
pub struct ThemeOverlay {
    pub area: OverlayBox,
    /// Each shown theme: whether selected, and its text.
    pub lines: Vec<(bool, String)>,
    pub blank_rows: usize,
}

/// The theme selector for `names`, with `idx` selected.
pub fn theme_overlay(area_w: u16, area_h: u16, names: &[String], idx: usize) -> (r: ThemeOverlay)
    requires
        names@.len() + 2 <= u16::MAX,
    ensures
        box_view(r.area) == theme_box(area_w as nat, area_h as nat, names@.len()),
        ({
            let visible = sat(r.area.height as nat, 2);
            let s = sat(idx as nat, sat(visible, 1));
            let e = min_n(s + visible, names@.len());
            let shown: nat = if s <= e { (e - s) as nat } else { 0 };
            &&& r.lines@.len() == shown
            &&& forall|i: int| 0 <= i < r.lines@.len() ==> {
                let l = #[trigger] r.lines@[i];
                l.0 == (s + i == idx) && l.1@ == seq![' '] + names@[s + i]@
            }
            &&& r.blank_rows == visible - shown
        }),
{
    let w = min16(30, sat16(area_w, 4));
    let h = min16(names.len() as u16 + 2, sat16(area_h, 4));
    let area = centered_box(area_w, area_h, w, h);
    let visible = sat16(h, 2) as usize;
    let back = if visible >= 1 {
        visible - 1
    } else {
        0
    };
    let s = if idx >= back {
        idx - back
    } else {
        0
    };
    let n = names.len();
    let e = if s <= n && visible <= n - s {
        s + visible
    } else {
        n
    };
    let mut lines: Vec<(bool, String)> = Vec::new();
    let mut i: usize = s;
    while i < e
        invariant
            s <= i <= e || (e < s && i == s),
            e <= names@.len(),
            lines@.len() == (if i >= s { i - s } else { 0 }),
            forall|k: int| 0 <= k < lines@.len() ==> {
                let l = #[trigger] lines@[k];
                l.0 == (s + k == idx) && l.1@ == seq![' '] + names@[s + k]@
            },
        decreases e - i,
    {
        let mut v: Vec<char> = Vec::new();
        v.push(' ');
        push_str(&mut v, names[i].as_str());
        lines.push((i == idx, string_of(v.as_slice())));
        i = i + 1;
    }
    let blank = visible - lines.len();
    ThemeOverlay { area, lines, blank_rows: blank }
}

// ---------------------------------------------------------------------------
// Key help
// ---------------------------------------------------------------------------

/// The key bindings the help lists, in order.
pub open spec fn help_entries() -> Seq<(Seq<char>, Seq<char>)> {
    seq![
        ("j/k or \u{2191}/\u{2193}"@, "Navigate files / scroll vertically"@),
        ("h/l or \u{2190}/\u{2192}"@, "Scroll horizontally in diff"@),
        ("g / G"@, "Jump to start / end of file"@),
        ("Tab, 1, 2"@, "Switch focus between sidebar/diff"@),
        ("Space"@, "Toggle viewed & jump to next file"@),
        ("{ / }"@, "Previous / next hunk"@),
        ("z"@, "Toggle hunks-only / full file view"@),
        ("/"@, "Open sidebar fuzzy filter"@),
        ("T"@, "Theme selector"@),
        ("c / C"@, "Add or view comments"@),
        ("["@, "Toggle old pane fullscreen"@),
        ("]"@, "Toggle new pane fullscreen"@),
        ("r"@, "Manual reload of file list/diff"@),
        ("y"@, "Copy current path to clipboard"@),
        ("o"@, "Open file in $EDITOR"@),
        ("P"@, "Open PR picker / exit PR mode"@),
        ("A"@, "Approve PR (in PR mode)"@),
        ("R"@, "Request changes (in PR mode)"@),
        ("O"@, "Open PR in browser (in PR mode)"@),
        ("?"@, "Close this help overlay"@),
        ("q or Ctrl+C"@, "Quit quickdiff"@),
    ]
}

/// `s` padded with blanks on the right to `w` characters.
pub open spec fn pad_right(s: Seq<char>, w: nat) -> Seq<char> {
    if s.len() < w {
        s + Seq::new((w - s.len()) as nat, |i: int| ' ')
    } else {
        s
    }
}

/// The kind of a help line.
#[derive(Debug, Clone, Copy, PartialEq, Eq, Structural)]
pub enum HelpRole {
    Heading,
    Hint,
    Blank,
    Binding,
}

/// A line of the help: its kind, the key column and the text.
pub struct HelpLine {
    pub role: HelpRole,
    pub key: String,
    pub text: String,
}

/// The help's lines: a heading, how to close it, a blank line, each key
/// binding with its key padded to 16 columns, and the mouse note.
pub open spec fn help_lines() -> Seq<(HelpRole, Seq<char>, Seq<char>)> {
    seq![
        (HelpRole::Heading, Seq::<char>::empty(), "Common keybindings"@),
        (HelpRole::Hint, Seq::<char>::empty(), "Press ? again, Esc, or q to close."@),
        (HelpRole::Blank, Seq::<char>::empty(), Seq::<char>::empty()),
    ] + help_entries().map_values(|e: (Seq<char>, Seq<char>)| (HelpRole::Binding, pad_right(e.0, 16), e.1))
        + seq![(HelpRole::Binding, "Mouse"@, " Click to focus, scroll wheel to move."@)]
}

/// The help box: 70 columns and the lines' height, within the area less a
/// margin, centered.
pub open spec fn help_box(aw: nat, ah: nat) -> (nat, nat, nat, nat) {
    let w = min_n(70, max_n(sat(aw, 2), 1));
    let h = min_n(max_n(help_entries().len() + 6, 10), max_n(sat(ah, 2), 1));
    centered(aw, ah, w, h)
}

/// What the help overlay draws.
pub struct HelpOverlay {
    pub area: OverlayBox,
    pub lines: Vec<HelpLine>,
    pub blank_rows: usize,
}

/// A help line from its parts.
fn help_line(role: HelpRole, key: Vec<char>, text: &str) -> (r: HelpLine)
    ensures
        r.role == role,
        r.key@ == key@,
        r.text@ == text@,
{
    HelpLine { role, key: string_of(key.as_slice()), text: text.to_owned() }
}

/// `key` padded on the right to 16 characters.
fn padded_key(key: &str) -> (r: Vec<char>)
    ensures
        r@ == pad_right(key@, 16),
{
    let mut v: Vec<char> = Vec::new();
    push_str(&mut v, key);
    let n = v.len();
    let mut k = n;
    while k < 16
        invariant
            n <= k,
            k <= 16 || k == n,
            n == key@.len(),
            v@ == key@ + Seq::new((k - n) as nat, |i: int| ' '),
        decreases 16 - k,
    {
        v.push(' ');
        k = k + 1;
        assert(v@ =~= key@ + Seq::new((k - n) as nat, |i: int| ' '));
    }
    proof {
        if n >= 16 {
            assert(v@ =~= key@);
        }
    }
    v
}

/// The key bindings as pairs of literals.
fn help_entry_list() -> (r: Vec<(&'static str, &'static str)>)
    ensures
        r@.map_values(|p: (&'static str, &'static str)| (p.0@, p.1@)) == help_entries(),
{
    let mut v: Vec<(&'static str, &'static str)> = Vec::new();
    v.push(("j/k or \u{2191}/\u{2193}", "Navigate files / scroll vertically"));
    v.push(("h/l or \u{2190}/\u{2192}", "Scroll horizontally in diff"));
    v.push(("g / G", "Jump to start / end of file"));
    v.push(("Tab, 1, 2", "Switch focus between sidebar/diff"));
    v.push(("Space", "Toggle viewed & jump to next file"));
    v.push(("{ / }", "Previous / next hunk"));
    v.push(("z", "Toggle hunks-only / full file view"));
    v.push(("/", "Open sidebar fuzzy filter"));
    v.push(("T", "Theme selector"));
    v.push(("c / C", "Add or view comments"));
    v.push(("[", "Toggle old pane fullscreen"));
    v.push(("]", "Toggle new pane fullscreen"));
    v.push(("r", "Manual reload of file list/diff"));
    v.push(("y", "Copy current path to clipboard"));
    v.push(("o", "Open file in $EDITOR"));
    v.push(("P", "Open PR picker / exit PR mode"));
    v.push(("A", "Approve PR (in PR mode)"));
    v.push(("R", "Request changes (in PR mode)"));
    v.push(("O", "Open PR in browser (in PR mode)"));
    v.push(("?", "Close this help overlay"));
    v.push(("q or Ctrl+C", "Quit quickdiff"));
    assert(v@.map_values(|p: (&'static str, &'static str)| (p.0@, p.1@)) =~= help_entries());
    v
}

/// View of help lines.
pub open spec fn help_view(v: Seq<HelpLine>) -> Seq<(HelpRole, Seq<char>, Seq<char>)> {
    v.map_values(|l: HelpLine| (l.role, l.key@, l.text@))
}

/// The help overlay.
pub fn help_overlay(area_w: u16, area_h: u16) -> (r: HelpOverlay)
    ensures
        box_view(r.area) == help_box(area_w as nat, area_h as nat),
        ({
            let inner = sat(r.area.height as nat, 2);
            if inner == 0 {
                r.lines@.len() == 0 && r.blank_rows == 0
            } else {
                help_view(r.lines@) == help_lines() && r.blank_rows == sat(inner, help_lines().len())
            }
        }),
{
    let w = min16(70, if area_w >= 3 {
        area_w - 2
    } else {
        1
    });
    let entries = help_entry_list();
    let ghost ev = entries@.map_values(|p: (&'static str, &'static str)| (p.0@, p.1@));
    assert(ev.len() == 21);
    let needed: u16 = 27;
    let h = min16(needed, if area_h >= 3 {
        area_h - 2
    } else {
        1
    });
    let area = centered_box(area_w, area_h, w, h);
    let inner = sat16(h, 2) as usize;
    if inner == 0 {
        return HelpOverlay { area, lines: Vec::new(), blank_rows: 0 };
    }
    let mut lines: Vec<HelpLine> = Vec::new();
    lines.push(help_line(HelpRole::Heading, Vec::new(), "Common keybindings"));
    lines.push(help_line(HelpRole::Hint, Vec::new(), "Press ? again, Esc, or q to close."));
    lines.push(help_line(HelpRole::Blank, Vec::new(), ""));
    proof {
        reveal_strlit("");
        assert(lines@[2].text@ =~= Seq::<char>::empty());
        assert(help_view(lines@)[0] == (HelpRole::Heading, Seq::<char>::empty(), "Common keybindings"@));
        assert(help_view(lines@)[1] == (HelpRole::Hint, Seq::<char>::empty(), "Press ? again, Esc, or q to close."@));
        assert(help_view(lines@)[2] == (HelpRole::Blank, Seq::<char>::empty(), Seq::<char>::empty()));
    }
    let ghost head = help_view(lines@);
    assert(head =~= seq![
        (HelpRole::Heading, Seq::<char>::empty(), "Common keybindings"@),
        (HelpRole::Hint, Seq::<char>::empty(), "Press ? again, Esc, or q to close."@),
        (HelpRole::Blank, Seq::<char>::empty(), Seq::<char>::empty()),
    ]);
    let mut i: usize = 0;
    while i < entries.len()
        invariant
            i <= entries@.len(),
            ev == entries@.map_values(|p: (&'static str, &'static str)| (p.0@, p.1@)),
            help_view(lines@) == head + ev.take(i as int).map_values(
                |e: (Seq<char>, Seq<char>)| (HelpRole::Binding, pad_right(e.0, 16), e.1),
            ),
        decreases entries@.len() - i,
    {
        let ghost before = help_view(lines@);
        let (key, desc) = entries[i];
        let k = padded_key(key);
        lines.push(help_line(HelpRole::Binding, k, desc));
        proof {
            assert(ev.take(i + 1) =~= ev.take(i as int).push((key@, desc@)));
            assert(help_view(lines@) =~= before.push((HelpRole::Binding, pad_right(key@, 16), desc@)));
            assert(help_view(lines@) =~= head + ev.take(i + 1).map_values(
                |e: (Seq<char>, Seq<char>)| (HelpRole::Binding, pad_right(e.0, 16), e.1),
            ));
        }
        i = i + 1;
    }
    let mut mouse: Vec<char> = Vec::new();
    push_str(&mut mouse, "Mouse");
    let ghost before = help_view(lines@);
    lines.push(help_line(HelpRole::Binding, mouse, " Click to focus, scroll wheel to move."));
    proof {
        assert(ev.take(ev.len() as int) =~= ev);
        assert(help_view(lines@) =~= before.push((HelpRole::Binding, "Mouse"@, " Click to focus, scroll wheel to move."@)));
        assert(help_view(lines@) =~= help_lines());
    }
    let n = lines.len();
    let blank = if inner >= n {
        inner - n
    } else {
        0
    };
    HelpOverlay { area, lines, blank_rows: blank }
}

// ---------------------------------------------------------------------------
// Pull request picker
// ---------------------------------------------------------------------------

/// The picker box: three quarters of the area, at most 80 by 30, centered.
pub open spec fn picker_box(aw: nat, ah: nat) -> (nat, nat, nat, nat) {
    centered(aw, ah, min_n(aw * 3 / 4, 80), min_n(ah * 3 / 4, 30))
}

/// A filter tab: bracketed when active.
pub open spec fn filter_tab(label: Seq<char>, active: bool) -> Seq<char> {
    if active {
        "["@ + label + "]"@
    } else {
        " "@ + label + " "@
    }
}

/// A pull request's line: number, title, branches and line counts.
pub open spec fn pr_line(pr: PullRequest) -> Seq<char> {
    " #"@ + pad_right(dec(pr.number as nat), 4) + " "@ + truncated_display(pr.title@, 30) + " ("@
        + truncated_display(pr.head_ref_name@, 15) + " \u{2192} "@ + truncated_display(pr.base_ref_name@, 15)
        + ") +"@ + dec(pr.additions as nat) + "/-"@ + dec(pr.deletions as nat)
}

/// What the pull request picker draws.
pub struct PickerOverlay {
    pub area: OverlayBox,
    /// The three filter tabs, with whether each is active.
    pub tabs: Vec<(String, bool)>,
    /// Shown instead of the list while loading or when it is empty.
    pub note: Option<String>,
    /// The scroll offset to keep.
    pub scroll: usize,
    /// The shown pull requests: whether selected, and their line.
    pub lines: Vec<(bool, String)>,
}

/// The text of a filter tab.
fn tab_text(label: &str, active: bool) -> (r: String)
    ensures
        r@ == filter_tab(label@, active),
{
    let mut v: Vec<char> = Vec::new();
    if active {
        push_str(&mut v, "[");
        push_str(&mut v, label);
        push_str(&mut v, "]");
    } else {
        push_str(&mut v, " ");
        push_str(&mut v, label);
        push_str(&mut v, " ");
    }
    assert(v@ =~= filter_tab(label@, active));
    string_of(v.as_slice())
}

/// The line of a pull request.
fn pr_line_text(pr: &PullRequest) -> (r: String)
    ensures
        r@ == pr_line(*pr),
{
    let mut v: Vec<char> = Vec::new();
    push_str(&mut v, " #");
    let num = fmt_dec(pr.number as usize);
    let n = num.len();
    push_all(&mut v, num.as_slice());
    let mut k = n;
    while k < 4
        invariant
            n <= k,
            k <= 4 || k == n,
            n == dec(pr.number as nat).len(),
            v@ == " #"@ + dec(pr.number as nat) + Seq::new((k - n) as nat, |i: int| ' '),
        decreases 4 - k,
    {
        v.push(' ');
        k = k + 1;
        assert(v@ =~= " #"@ + dec(pr.number as nat) + Seq::new((k - n) as nat, |i: int| ' '));
    }
    assert(v@ =~= " #"@ + pad_right(dec(pr.number as nat), 4));
    push_str(&mut v, " ");
    let t = truncate_str(pr.title.as_str(), 30);
    push_str(&mut v, t.as_str());
    push_str(&mut v, " (");
    let hd = truncate_str(pr.head_ref_name.as_str(), 15);
    push_str(&mut v, hd.as_str());
    push_str(&mut v, " \u{2192} ");
    let bs = truncate_str(pr.base_ref_name.as_str(), 15);
    push_str(&mut v, bs.as_str());
    push_str(&mut v, ") +");
    let a = fmt_dec(pr.additions as usize);
    push_all(&mut v, a.as_slice());
    push_str(&mut v, "/-");
    let d = fmt_dec(pr.deletions as usize);
    push_all(&mut v, d.as_slice());
    assert(v@ =~= pr_line(*pr));
    string_of(v.as_slice())
}

/// The picker box.
fn picker_area(area_w: u16, area_h: u16) -> (r: OverlayBox)
    requires
        area_w as int * 3 <= u16::MAX,
        area_h as int * 3 <= u16::MAX,
    ensures
        box_view(r) == picker_box(area_w as nat, area_h as nat),
{
    let w = min16(area_w * 3 / 4, 80);
    let h = min16(area_h * 3 / 4, 30);
    centered_box(area_w, area_h, w, h)
}

/// The pull request picker over `prs`, with the selected entry, the
/// previous scroll offset, the active filter, and whether the list is
/// loading.
pub fn pr_picker_overlay(
    area_w: u16,
    area_h: u16,
    prs: &[PullRequest],
    selected: usize,
    scroll: usize,
    filter: PRFilter,
    loading: bool,
) -> (r: PickerOverlay)
    requires
        area_w as int * 3 <= u16::MAX,
        area_h as int * 3 <= u16::MAX,
        !loading && prs@.len() > 0 ==> selected < prs@.len(),
    ensures
        box_view(r.area) == picker_box(area_w as nat, area_h as nat),
        r.tabs@.len() == 3,
        r.tabs@[0].0@ == filter_tab("All"@, filter == PRFilter::All) && r.tabs@[0].1 == (filter == PRFilter::All),
        r.tabs@[1].0@ == filter_tab("Mine"@, filter == PRFilter::Mine) && r.tabs@[1].1 == (filter == PRFilter::Mine),
        r.tabs@[2].0@ == filter_tab("Review Requested"@, filter == PRFilter::ReviewRequested) && r.tabs@[2].1 == (filter
            == PRFilter::ReviewRequested),
        ({
            let list_h = sat(sat(r.area.height as nat, 2), 4);
            if loading {
                r.note matches Some(n) && n@ == "Loading..."@ && r.scroll == scroll && r.lines@.len() == 0
            } else if prs@.len() == 0 {
                r.note matches Some(n) && n@ == "No PRs found"@ && r.scroll == scroll && r.lines@.len() == 0
            } else {
                let s = sidebar_scroll(prs@.len(), selected as nat, scroll as nat, list_h);
                let e = min_n(s + list_h, prs@.len());
                &&& r.note is None
                &&& r.scroll == s
                &&& r.lines@.len() == e - s
                &&& forall|i: int| 0 <= i < r.lines@.len() ==> {
                    let l = #[trigger] r.lines@[i];
                    l.0 == (s + i == selected) && l.1@ == pr_line(prs@[s + i])
                }
            }
        }),
{
    let area = picker_area(area_w, area_h);
    let mut tabs: Vec<(String, bool)> = Vec::new();
    let all = filter == PRFilter::All;
    let mine = filter == PRFilter::Mine;
    let review = filter == PRFilter::ReviewRequested;
    tabs.push((tab_text("All", all), all));
    tabs.push((tab_text("Mine", mine), mine));
    tabs.push((tab_text("Review Requested", review), review));
    let list_h = sat16(sat16(area.height, 2), 4) as usize;
    if loading {
        return PickerOverlay { area, tabs, note: Some("Loading...".to_owned()), scroll, lines: Vec::new() };
    }
    if prs.len() == 0 {
        return PickerOverlay { area, tabs, note: Some("No PRs found".to_owned()), scroll, lines: Vec::new() };
    }
    let len = prs.len();
    let max_scroll = if len >= list_h {
        len - list_h
    } else {
        0
    };
    let s1 = if scroll <= max_scroll {
        scroll
    } else {
        max_scroll
    };
    let s = if selected < s1 {
        selected
    } else if selected - s1 >= list_h {
        selected + 1 - list_h
    } else {
        s1
    };
    assert(s as nat == sidebar_scroll(len as nat, selected as nat, scroll as nat, list_h as nat));
    let e = if s <= len && list_h <= len - s {
        s + list_h
    } else {
        len
    };
    let mut lines: Vec<(bool, String)> = Vec::new();
    let mut i: usize = s;
    while i < e
        invariant
            s <= i <= e <= prs@.len(),
            lines@.len() == i - s,
            forall|k: int| 0 <= k < lines@.len() ==> {
                let l = #[trigger] lines@[k];
                l.0 == (s + k == selected) && l.1@ == pr_line(prs@[s + k])
            },
        decreases e - i,
    {
        lines.push((i == selected, pr_line_text(&prs[i])));
        i = i + 1;
    }
    PickerOverlay { area, tabs, note: None, scroll: s, lines }
}

// ---------------------------------------------------------------------------
// Review action prompt
// ---------------------------------------------------------------------------

/// The title of the review action prompt.
pub open spec fn action_title(action: Option<PRActionType>) -> Seq<char> {
    match action {
        Some(PRActionType::Approve) => " Approve PR "@,
        Some(PRActionType::Comment) => " Comment on PR "@,
        Some(PRActionType::RequestChanges) => " Request Changes "@,
        None => " PR Action "@,
    }
}

/// What the review action prompt draws.
pub struct ActionOverlay {
    pub area: OverlayBox,
    pub title: String,
    /// The message being typed with a cursor, for actions that need one;
    /// `None` for an approval, which asks for confirmation.
    pub input: Option<String>,
}

/// The review action prompt, or `None` when the area is too small for it.
pub fn pr_action_overlay(area_w: u16, area_h: u16, action: Option<PRActionType>, text: &str) -> (r: Option<ActionOverlay>)
    ensures
        ({
            let w = min_n(60, sat(area_w as nat, 4));
            let h = min_n(10, sat(area_h as nat, 2));
            if w < 20 || h < 5 {
                r is None
            } else {
                &&& r matches Some(o)
                &&& box_view(r->0.area) == centered(area_w as nat, area_h as nat, w, h)
                &&& r->0.title@ == action_title(action)
                &&& (action == Some(PRActionType::Comment) || action == Some(PRActionType::RequestChanges)) ==> (
                r->0.input matches Some(t) && t@ == text@ + "_"@)
                &&& !(action == Some(PRActionType::Comment) || action == Some(PRActionType::RequestChanges))
                    ==> r->0.input is None
            }
        }),
{
    let w = min16(60, sat16(area_w, 4));
    let h = min16(10, sat16(area_h, 2));
    if w < 20 || h < 5 {
        return None;
    }
    let area = centered_box(area_w, area_h, w, h);
    let title = match action {
        Some(PRActionType::Approve) => " Approve PR ".to_owned(),
        Some(PRActionType::Comment) => " Comment on PR ".to_owned(),
        Some(PRActionType::RequestChanges) => " Request Changes ".to_owned(),
        None => " PR Action ".to_owned(),
    };
    let needs_text = match action {
        Some(PRActionType::Comment) => true,
        Some(PRActionType::RequestChanges) => true,
        _ => false,
    };
    let input = if needs_text {
        let mut v: Vec<char> = Vec::new();
        push_str(&mut v, text);
        push_str(&mut v, "_");
        Some(string_of(v.as_slice()))
    } else {
        None
    };
    Some(ActionOverlay { area, title, input })
}

} // verus!
