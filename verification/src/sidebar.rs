//! The sidebar: its title, the window of files it shows (keeping the
//! selection in view), and what each file's line shows.

use vstd::prelude::*;
use crate::navigation::{first_pos, lemma_first_pos_unique, position_of};
use crate::repo::{ChangedFile, FileChangeKind};
use crate::strings::{chars_of, dec, fmt_dec, push_all, push_str, string_of};

verus! {

/// Widest path shown in the sidebar, in characters.
pub const SIDEBAR_PATH_WIDTH: usize = 22;

/// The letter of a change kind.
pub open spec fn kind_char(k: FileChangeKind) -> char {
    match k {
        FileChangeKind::Added => 'A',
        FileChangeKind::Modified => 'M',
        FileChangeKind::Deleted => 'D',
        FileChangeKind::Untracked => '?',
        FileChangeKind::Renamed => 'R',
    }
}

/// `s` cut from the left to `w` characters, an ellipsis first when cut.
pub open spec fn ellipsize_left(s: Seq<char>, w: nat) -> Seq<char> {
    if s.len() > w && w >= 1 {
        seq!['\u{2026}'] + s.subrange(s.len() - w + 1, s.len() as int)
    } else {
        s
    }
}

/// The comment badge of a file: two columns, and whether it is accented.
pub open spec fn comment_badge(worktree: bool, count: nat) -> (Seq<char>, bool) {
    if !worktree || count == 0 {
        ("  "@, false)
    } else if count < 10 {
        (seq![' '] + dec(count), true)
    } else {
        ("9+"@, true)
    }
}

/// What a file's line in the sidebar shows.
pub struct SidebarRow {
    /// The file is the selected one.
    pub selected: bool,
    /// Selection bar, or a blank.
    pub indicator: char,
    /// The kind of change.
    pub kind: FileChangeKind,
    /// Its letter.
    pub kind_char: char,
    /// The file is marked viewed.
    pub viewed: bool,
    /// Check mark, or a dot.
    pub viewed_char: char,
    /// Open comment count badge.
    pub badge: String,
    /// Whether the badge is accented.
    pub badge_accent: bool,
    /// The path, cut from the left to fit.
    pub path: String,
}

/// A sidebar line as values.
pub struct SidebarRowV {
    pub selected: bool,
    pub indicator: char,
    pub kind: FileChangeKind,
    pub kind_char: char,
    pub viewed: bool,
    pub viewed_char: char,
    pub badge: Seq<char>,
    pub badge_accent: bool,
    pub path: Seq<char>,
}

impl SidebarRow {
    pub open spec fn view(&self) -> SidebarRowV {
        SidebarRowV {
            selected: self.selected,
            indicator: self.indicator,
            kind: self.kind,
            kind_char: self.kind_char,
            viewed: self.viewed,
            viewed_char: self.viewed_char,
            badge: self.badge@,
            badge_accent: self.badge_accent,
            path: self.path@,
        }
    }
}

/// The line of a file with path `path` and change `kind`.
pub open spec fn sidebar_row(path: Seq<char>, kind: FileChangeKind, selected: bool, viewed: bool, worktree: bool, count: nat) -> SidebarRowV {
    SidebarRowV {
        selected,
        indicator: if selected { '\u{258c}' } else { ' ' },
        kind,
        kind_char: kind_char(kind),
        viewed,
        viewed_char: if viewed { '\u{2713}' } else { '\u{b7}' },
        badge: comment_badge(worktree, count).0,
        badge_accent: comment_badge(worktree, count).1,
        path: ellipsize_left(path, SIDEBAR_PATH_WIDTH as nat),
    }
}

/// The files the sidebar lists: the filtered ones, or all when no filter
/// result is stored.
pub open spec fn visible_list(filtered: Seq<usize>, n: nat) -> Seq<usize> {
    if filtered.len() == 0 {
        Seq::new(n, |i: int| i as usize)
    } else {
        filtered
    }
}

/// Position of the selected file in the list: its first occurrence, or 0.
pub open spec fn selected_pos(vis: Seq<usize>, sel: usize) -> nat {
    if exists|p: int| first_pos(vis, sel, p) {
        (choose|p: int| first_pos(vis, sel, p)) as nat
    } else {
        0
    }
}

/// The scroll offset after bringing the selection into view: clamped so
/// the window is full, then moved just enough to show position `pos`.
pub open spec fn sidebar_scroll(len: nat, pos: nat, scroll: nat, height: nat) -> nat {
    let max_scroll: nat = if len >= height { (len - height) as nat } else { 0 };
    let s1 = if scroll <= max_scroll { scroll } else { max_scroll };
    if pos < s1 {
        pos
    } else if pos >= s1 + height {
        (pos + 1 - height) as nat
    } else {
        s1
    }
}

/// The sidebar title: the viewed count, or the filter and its match count.
pub open spec fn sidebar_title(filtered_len: nat, filter: Seq<char>, viewed: nat, total: nat) -> Seq<char> {
    if filtered_len == 0 {
        " Files ("@ + dec(viewed) + "/"@ + dec(total) + ") "@
    } else {
        " Files ("@ + dec(filtered_len) + ") [filter: "@ + filter + "] "@
    }
}

/// What the sidebar draws.
pub struct SidebarView {
    /// The title on the border.
    pub title: String,
    /// The scroll offset to keep.
    pub scroll: usize,
    /// The lines of the files in view.
    pub rows: Vec<SidebarRow>,
    /// Blank lines below them.
    pub blank_rows: usize,
    /// A note shown in place of an empty list.
    pub note: Option<String>,
}

/// The title text.
fn title_text(filtered_len: usize, filter: &str, viewed: usize, total: usize) -> (r: String)
    ensures
        r@ == sidebar_title(filtered_len as nat, filter@, viewed as nat, total as nat),
{
    let mut v: Vec<char> = Vec::new();
    push_str(&mut v, " Files (");
    if filtered_len == 0 {
        let a = fmt_dec(viewed);
        push_all(&mut v, a.as_slice());
        push_str(&mut v, "/");
        let b = fmt_dec(total);
        push_all(&mut v, b.as_slice());
        push_str(&mut v, ") ");
        assert(v@ =~= " Files ("@ + dec(viewed as nat) + "/"@ + dec(total as nat) + ") "@);
    } else {
        let a = fmt_dec(filtered_len);
        push_all(&mut v, a.as_slice());
        push_str(&mut v, ") [filter: ");
        push_str(&mut v, filter);
        push_str(&mut v, "] ");
        assert(v@ =~= " Files ("@ + dec(filtered_len as nat) + ") [filter: "@ + filter@ + "] "@);
    }
    string_of(v.as_slice())
}

/// The path cut from the left to the sidebar width.
fn ellipsize_path(path: &str) -> (r: String)
    ensures
        r@ == ellipsize_left(path@, SIDEBAR_PATH_WIDTH as nat),
{
    let cs = chars_of(path);
    let n = cs.len();
    if n > SIDEBAR_PATH_WIDTH {
        let mut v: Vec<char> = Vec::new();
        v.push('\u{2026}');
        let mut i: usize = n - SIDEBAR_PATH_WIDTH + 1;
        let ghost start = i;
        while i < n
            invariant
                start == n - SIDEBAR_PATH_WIDTH + 1,
                start <= i <= n,
                n == cs@.len(),
                v@ == seq!['\u{2026}'] + cs@.subrange(start as int, i as int),
            decreases n - i,
        {
            v.push(cs[i]);
            i = i + 1;
            assert(v@ =~= seq!['\u{2026}'] + cs@.subrange(start as int, i as int));
        }
        string_of(v.as_slice())
    } else {
        path.to_owned()
    }
}

/// The badge text and accent.
fn badge_of(worktree: bool, count: usize) -> (r: (String, bool))
    ensures
        (r.0@, r.1) == comment_badge(worktree, count as nat),
{
    if !worktree || count == 0 {
        ("  ".to_owned(), false)
    } else if count < 10 {
        let mut v: Vec<char> = Vec::new();
        v.push(' ');
        let d = fmt_dec(count);
        push_all(&mut v, d.as_slice());
        assert(v@ =~= seq![' '] + dec(count as nat));
        (string_of(v.as_slice()), true)
    } else {
        ("9+".to_owned(), true)
    }
}

/// The line of one file.
fn row_of(file: &ChangedFile, selected: bool, viewed: bool, worktree: bool, count: usize) -> (r: SidebarRow)
    ensures
        r.view() == sidebar_row(file.path@, file.kind, selected, viewed, worktree, count as nat),
{
    let (badge, badge_accent) = badge_of(worktree, count);
    let kc = match file.kind {
        FileChangeKind::Added => 'A',
        FileChangeKind::Modified => 'M',
        FileChangeKind::Deleted => 'D',
        FileChangeKind::Untracked => '?',
        FileChangeKind::Renamed => 'R',
    };
    SidebarRow {
        selected,
        indicator: if selected {
            '\u{258c}'
        } else {
            ' '
        },
        kind: file.kind,
        kind_char: kc,
        viewed,
        viewed_char: if viewed {
            '\u{2713}'
        } else {
            '\u{b7}'
        },
        badge,
        badge_accent,
        path: ellipsize_path(file.path.as_str()),
    }
}

/// The sidebar for `files`, `height` lines tall, with the filter result
/// `filtered` (empty when not filtering), the selected file, the previous
/// scroll offset, each file's viewed mark and open comment count, and the
/// number of viewed files. An empty list shows a note instead of lines.
pub fn sidebar_view(
    files: &[ChangedFile],
    filtered: &[usize],
    filter: &str,
    selected_idx: usize,
    scroll: usize,
    height: usize,
    viewed: &[bool],
    counts: &[usize],
    viewed_count: usize,
    worktree: bool,
) -> (r: SidebarView)
    requires
        viewed@.len() == files@.len(),
        counts@.len() == files@.len(),
        forall|k: int| 0 <= k < filtered@.len() ==> #[trigger] filtered@[k] < files@.len(),
    ensures
        r.title@ == sidebar_title(filtered@.len(), filter@, viewed_count as nat, files@.len()),
        ({
            let vis = visible_list(filtered@, files@.len());
            if height == 0 {
                r.scroll == scroll && r.rows@.len() == 0 && r.blank_rows == 0 && r.note is None
            } else if vis.len() == 0 {
                &&& r.scroll == scroll
                &&& r.rows@.len() == 0
                &&& r.blank_rows == 0
                &&& r.note matches Some(n) && n@ == (if files@.len() == 0 { "No files"@ } else { "No matches"@ })
            } else {
                let s = sidebar_scroll(vis.len(), selected_pos(vis, selected_idx), scroll as nat, height as nat);
                let e: nat = if s + height <= vis.len() { (s + height) as nat } else { vis.len() };
                &&& r.scroll == s
                &&& r.note is None
                &&& r.rows@.len() == e - s
                &&& forall|i: int| 0 <= i < r.rows@.len() ==> {
                    let idx = vis[s + i];
                    #[trigger] r.rows@[i].view() == sidebar_row(
                        files@[idx as int].path@,
                        files@[idx as int].kind,
                        idx == selected_idx,
                        viewed@[idx as int],
                        worktree,
                        counts@[idx as int] as nat,
                    )
                }
                &&& r.blank_rows == height - r.rows@.len()
            }
        }),
{
    let title = title_text(filtered.len(), filter, viewed_count, files.len());
    if height == 0 {
        return SidebarView { title, scroll, rows: Vec::new(), blank_rows: 0, note: None };
    }
    let mut vis: Vec<usize> = Vec::new();
    if filtered.len() == 0 {
        let mut i: usize = 0;
        while i < files.len()
            invariant
                i <= files@.len(),
                vis@ == Seq::new(i as nat, |k: int| k as usize),
            decreases files@.len() - i,
        {
            vis.push(i);
            i = i + 1;
            assert(vis@ =~= Seq::new(i as nat, |k: int| k as usize));
        }
    } else {
        let mut i: usize = 0;
        while i < filtered.len()
            invariant
                i <= filtered@.len(),
                vis@ == filtered@.take(i as int),
            decreases filtered@.len() - i,
        {
            vis.push(filtered[i]);
            i = i + 1;
            assert(vis@ =~= filtered@.take(i as int));
        }
        assert(filtered@.take(filtered@.len() as int) =~= filtered@);
    }
    let ghost vl = visible_list(filtered@, files@.len());
    assert(vis@ =~= vl);
    assert(forall|k: int| 0 <= k < vis@.len() ==> #[trigger] vis@[k] < files@.len());
    if vis.len() == 0 {
        let note = if files.len() == 0 {
            "No files".to_owned()
        } else {
            "No matches".to_owned()
        };
        return SidebarView { title, scroll, rows: Vec::new(), blank_rows: 0, note: Some(note) };
    }
    let pos = match position_of(vis.as_slice(), selected_idx) {
        Some(p) => {
            proof {
                assert(exists|q: int| first_pos(vl, selected_idx, q));
                let c = choose|q: int| first_pos(vl, selected_idx, q);
                lemma_first_pos_unique(vl, selected_idx, p as int, c);
            }
            p
        },
        None => {
            proof {
                assert forall|q: int| !first_pos(vl, selected_idx, q) by {
                    if 0 <= q < vl.len() {
                        assert(vl[q] != selected_idx);
                    }
                }
            }
            0
        },
    };
    assert(pos as nat == selected_pos(vl, selected_idx));
    let len = vis.len();
    let max_scroll = if len >= height {
        len - height
    } else {
        0
    };
    let s1 = if scroll <= max_scroll {
        scroll
    } else {
        max_scroll
    };
    let s = if pos < s1 {
        pos
    } else if pos - s1 >= height {
        pos + 1 - height
    } else {
        s1
    };
    assert(s as nat == sidebar_scroll(len as nat, pos as nat, scroll as nat, height as nat));
    let e = if height <= len - s {
        s + height
    } else {
        len
    };
    let mut rows: Vec<SidebarRow> = Vec::new();
    let mut j: usize = s;
    while j < e
        invariant
            s <= j <= e <= vis@.len(),
            vis@ == vl,
            viewed@.len() == files@.len(),
            counts@.len() == files@.len(),
            forall|k: int| 0 <= k < vis@.len() ==> #[trigger] vis@[k] < files@.len(),
            rows@.len() == j - s,
            forall|i: int| 0 <= i < rows@.len() ==> {
                let idx = vl[s + i];
                #[trigger] rows@[i].view() == sidebar_row(
                    files@[idx as int].path@,
                    files@[idx as int].kind,
                    idx == selected_idx,
                    viewed@[idx as int],
                    worktree,
                    counts@[idx as int] as nat,
                )
            },
        decreases e - j,
    {
        let idx = vis[j];
        assert(vis@[j as int] < files@.len());
        let row = row_of(&files[idx], idx == selected_idx, viewed[idx], worktree, counts[idx]);
        rows.push(row);
        j = j + 1;
    }
    let blank = height - rows.len();
    SidebarView { title, scroll: s, rows, blank_rows: blank, note: None }
}

/// The selection stays in view: after scrolling, the window of `height`
/// lines holds position `pos`, and it never scrolls past the point where it
/// would show blank lines below a list that could fill it.
pub proof fn lemma_selection_in_view(len: nat, pos: nat, scroll: nat, height: nat)
    requires
        pos < len,
        height > 0,
    ensures
        ({
            let s = sidebar_scroll(len, pos, scroll, height);
            &&& s <= pos < s + height
            &&& (len >= height ==> s + height <= len)
            &&& (len < height ==> s == 0)
        }),
{
}

} // verus!
