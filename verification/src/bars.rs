//! The top and bottom bars: what they say, as a sequence of text segments
//! each with the role that picks its colors.

use vstd::prelude::*;
use crate::repo::FileChangeKind;
use crate::strings::{chars_of, dec, fmt_dec, fmt_dec_u64, push_all, push_str, string_of};
use crate::render_helpers::{truncate_str, truncated_display};
use crate::view_state::{DiffPaneMode, DiffViewMode, Focus, Mode};

verus! {

/// What a bar segment is, which decides its colors.
#[derive(Debug, Clone, Copy, PartialEq, Eq, Structural)]
pub enum BarRole {
    /// Blank space on the top bar's background.
    Fill,
    /// The pull-request badge.
    PrBadge,
    /// The change-kind letter of the current file.
    Kind(FileChangeKind),
    /// The change kind as a badge on its color.
    KindBadge(FileChangeKind),
    /// The current file's name.
    Title,
    /// Good news (viewed mark, status message).
    Success,
    /// Secondary text.
    Muted,
    /// Accented text (labels, counters, cursor).
    Accent,
    /// Text the user is typing.
    Bright,
    /// An error message.
    Error,
    /// Blank space on the key-hint background.
    HintFill,
    /// A key in the key hints.
    Key,
    /// What a key does.
    Desc,
}

/// A piece of bar text with its role.
pub struct BarSegment {
    pub text: String,
    pub role: BarRole,
}

/// The segments as values.
pub open spec fn segs_view(v: Seq<BarSegment>) -> Seq<(Seq<char>, BarRole)> {
    v.map_values(|s: BarSegment| (s.text@, s.role))
}

/// Total number of characters of the segments.
pub open spec fn seg_chars(s: Seq<(Seq<char>, BarRole)>) -> nat
    decreases s.len(),
{
    if s.len() == 0 {
        0
    } else {
        seg_chars(s.drop_last()) + s.last().0.len()
    }
}

/// `n` blanks.
pub open spec fn blanks(n: nat) -> Seq<char> {
    Seq::new(n, |i: int| ' ')
}

/// `a - b`, or zero.
pub open spec fn sat_sub(a: nat, b: nat) -> nat {
    if a >= b {
        (a - b) as nat
    } else {
        0
    }
}

/// The letter that marks a kind of change.
pub open spec fn kind_letter(k: FileChangeKind) -> Seq<char> {
    match k {
        FileChangeKind::Added => "A"@,
        FileChangeKind::Modified => "M"@,
        FileChangeKind::Deleted => "D"@,
        FileChangeKind::Untracked => "?"@,
        FileChangeKind::Renamed => "R"@,
    }
}

/// The pull-request badge, when reviewing one.
pub open spec fn pr_part(pr: Option<u64>) -> Seq<(Seq<char>, BarRole)> {
    match pr {
        Some(n) => seq![(" PR #"@ + dec(n as nat) + " "@, BarRole::PrBadge), (" "@, BarRole::Fill)],
        None => Seq::empty(),
    }
}

/// The change-kind letter of the current file.
pub open spec fn kind_part(file: Option<(Seq<char>, FileChangeKind)>) -> Seq<(Seq<char>, BarRole)> {
    match file {
        Some(f) => seq![(kind_letter(f.1), BarRole::Kind(f.1)), ("  "@, BarRole::Fill)],
        None => Seq::empty(),
    }
}

/// The current file's name, or a note that there is none.
pub open spec fn name_part(file: Option<(Seq<char>, FileChangeKind)>) -> Seq<(Seq<char>, BarRole)> {
    match file {
        Some(f) => seq![(f.0, BarRole::Title)],
        None => seq![("No files"@, BarRole::Title)],
    }
}

/// The viewed and binary marks and the open comment count.
pub open spec fn marks_part(
    file: Option<(Seq<char>, FileChangeKind)>,
    viewed: bool,
    binary: bool,
    comments: Option<usize>,
    worktree: bool,
) -> Seq<(Seq<char>, BarRole)> {
    let viewed_part = if viewed {
        seq![("  \u{2713} viewed"@, BarRole::Success)]
    } else {
        Seq::empty()
    };
    let binary_part = if binary {
        seq![("  [binary]"@, BarRole::Muted)]
    } else {
        Seq::empty()
    };
    let comments_part = if worktree && file is Some && comments is Some && comments->0 > 0 {
        seq![("  "@ + dec(comments->0 as nat) + " comments"@, BarRole::Accent)]
    } else {
        Seq::empty()
    };
    viewed_part + binary_part + comments_part
}

/// The left part of the top bar: pull-request badge, change kind, file name,
/// viewed and binary marks, and the file's open comment count (worktree
/// mode only).
pub open spec fn top_left(
    file: Option<(Seq<char>, FileChangeKind)>,
    pr: Option<u64>,
    viewed: bool,
    binary: bool,
    comments: Option<usize>,
    worktree: bool,
) -> Seq<(Seq<char>, BarRole)> {
    seq![("  "@, BarRole::Fill)] + pr_part(pr) + kind_part(file) + name_part(file) + marks_part(
        file,
        viewed,
        binary,
        comments,
        worktree,
    )
}

/// The hunk counter shown on the right of the top bar.
pub open spec fn hunk_text(hunk: Option<(usize, usize)>) -> Seq<char> {
    match hunk {
        Some(h) => "hunk "@ + dec(h.0 as nat) + "/"@ + dec(h.1 as nat) + "  "@,
        None => Seq::empty(),
    }
}

/// The top bar `width` columns wide: the left part, blanks, and the hunk
/// counter flush right.
pub open spec fn top_bar(
    file: Option<(Seq<char>, FileChangeKind)>,
    pr: Option<u64>,
    viewed: bool,
    binary: bool,
    comments: Option<usize>,
    worktree: bool,
    hunk: Option<(usize, usize)>,
    width: nat,
) -> Seq<(Seq<char>, BarRole)> {
    let left = top_left(file, pr, viewed, binary, comments, worktree);
    let right = hunk_text(hunk);
    let pad = sat_sub(sat_sub(width, seg_chars(left)), right.len());
    left + seq![(blanks(pad), BarRole::Fill)] + (if hunk is Some {
        seq![(right, BarRole::Accent)]
    } else {
        Seq::empty()
    })
}

/// A segment with text `text`.
fn seg_of(text: Vec<char>, role: BarRole) -> (r: BarSegment)
    ensures
        r.text@ == text@,
        r.role == role,
{
    BarSegment { text: string_of(text.as_slice()), role }
}

/// A segment with literal text.
fn seg_str(text: &str, role: BarRole) -> (r: BarSegment)
    ensures
        r.text@ == text@,
        r.role == role,
{
    BarSegment { text: text.to_owned(), role }
}

/// `seg_chars` grows by the length of a pushed segment.
proof fn lemma_seg_chars_push(s: Seq<(Seq<char>, BarRole)>, x: (Seq<char>, BarRole))
    ensures
        seg_chars(s.push(x)) == seg_chars(s) + x.0.len(),
{
    assert(s.push(x).drop_last() =~= s);
}

/// Push a segment, keeping count of the characters pushed.
fn push_seg(segs: &mut Vec<BarSegment>, used: u128, seg: BarSegment) -> (u: u128)
    requires
        used == seg_chars(segs_view(old(segs)@)),
        used <= 0x1_0000_0000_0000_0000_0000,
    ensures
        segs_view(final(segs)@) == segs_view(old(segs)@).push((seg.text@, seg.role)),
        u == seg_chars(segs_view(final(segs)@)),
        u <= used + 0x1_0000_0000_0000_0000,
{
    proof {
        lemma_seg_chars_push(segs_view(segs@), (seg.text@, seg.role));
    }
    let ghost x = (seg.text@, seg.role);
    let n = seg_len(&seg);
    segs.push(seg);
    assert(segs_view(segs@) =~= segs_view(old(segs)@).push(x));
    used + n as u128
}

/// Number of characters of a segment's text.
fn seg_len(seg: &BarSegment) -> (r: usize)
    ensures
        r == seg.text@.len(),
{
    chars_of(seg.text.as_str()).len()
}

/// Push the pull-request badge.
fn push_pr_part(segs: &mut Vec<BarSegment>, used: u128, pr: Option<u64>) -> (u: u128)
    requires
        used == seg_chars(segs_view(old(segs)@)),
        used <= 0x1_0000_0000_0000_0000 * 2,
    ensures
        segs_view(final(segs)@) == segs_view(old(segs)@) + pr_part(pr),
        u == seg_chars(segs_view(final(segs)@)),
        u <= used + 0x1_0000_0000_0000_0000 * 2,
{
    let ghost s0 = segs_view(segs@);
    if let Some(n) = pr {
        let mut v: Vec<char> = Vec::new();
        push_str(&mut v, " PR #");
        let d = fmt_dec_u64(n);
        push_all(&mut v, d.as_slice());
        push_str(&mut v, " ");
        assert(v@ =~= " PR #"@ + dec(n as nat) + " "@);
        let u1 = push_seg(segs, used, seg_of(v, BarRole::PrBadge));
        let u2 = push_seg(segs, u1, seg_str(" ", BarRole::Fill));
        assert(segs_view(segs@) =~= s0 + pr_part(pr));
        u2
    } else {
        assert(segs_view(segs@) =~= s0 + pr_part(pr));
        used
    }
}

/// Push the change-kind letter.
fn push_kind_part(segs: &mut Vec<BarSegment>, used: u128, file: Option<(&str, FileChangeKind)>) -> (u: u128)
    requires
        used == seg_chars(segs_view(old(segs)@)),
        used <= 0x1_0000_0000_0000_0000 * 4,
    ensures
        segs_view(final(segs)@) == segs_view(old(segs)@) + kind_part(match file {
            Some(f) => Some((f.0@, f.1)),
            None => None,
        }),
        u == seg_chars(segs_view(final(segs)@)),
        u <= used + 0x1_0000_0000_0000_0000 * 2,
{
    let ghost s0 = segs_view(segs@);
    if let Some((_, kind)) = file {
        let letter = match kind {
            FileChangeKind::Added => "A",
            FileChangeKind::Modified => "M",
            FileChangeKind::Deleted => "D",
            FileChangeKind::Untracked => "?",
            FileChangeKind::Renamed => "R",
        };
        assert(letter@ == kind_letter(kind));
        let u1 = push_seg(segs, used, seg_str(letter, BarRole::Kind(kind)));
        let u2 = push_seg(segs, u1, seg_str("  ", BarRole::Fill));
        assert(segs_view(segs@) =~= s0 + seq![(kind_letter(kind), BarRole::Kind(kind)), ("  "@, BarRole::Fill)]);
        u2
    } else {
        assert(segs_view(segs@) =~= s0);
        used
    }
}

/// Push the viewed and binary marks and the comment count.
fn push_marks_part(
    segs: &mut Vec<BarSegment>,
    used: u128,
    has_file: bool,
    viewed: bool,
    binary: bool,
    comments: Option<usize>,
    worktree: bool,
) -> (u: u128)
    requires
        used == seg_chars(segs_view(old(segs)@)),
        used <= 0x1_0000_0000_0000_0000 * 8,
    ensures
        forall|f: Option<(Seq<char>, FileChangeKind)>| (f is Some == has_file) ==> #[trigger] marks_part(f, viewed, binary, comments, worktree)
            == segs_view(final(segs)@).subrange(segs_view(old(segs)@).len() as int, segs_view(final(segs)@).len() as int),
        segs_view(final(segs)@).len() >= segs_view(old(segs)@).len(),
        segs_view(final(segs)@).subrange(0, segs_view(old(segs)@).len() as int) == segs_view(old(segs)@),
        u == seg_chars(segs_view(final(segs)@)),
        u <= used + 0x1_0000_0000_0000_0000 * 3,
{
    let ghost s0 = segs_view(segs@);
    let mut u = used;
    if viewed {
        u = push_seg(segs, u, seg_str("  \u{2713} viewed", BarRole::Success));
    }
    let ghost s1 = segs_view(segs@);
    if binary {
        u = push_seg(segs, u, seg_str("  [binary]", BarRole::Muted));
    }
    let ghost s2 = segs_view(segs@);
    let mut shown = false;
    if worktree && has_file {
        if let Some(count) = comments {
            if count > 0 {
                let mut v: Vec<char> = Vec::new();
                push_str(&mut v, "  ");
                let d = fmt_dec(count);
                push_all(&mut v, d.as_slice());
                push_str(&mut v, " comments");
                assert(v@ =~= "  "@ + dec(count as nat) + " comments"@);
                u = push_seg(segs, u, seg_of(v, BarRole::Accent));
                shown = true;
            }
        }
    }
    proof {
        let fin = segs_view(segs@);
        assert(fin.subrange(0, s0.len() as int) =~= s0);
        assert forall|f: Option<(Seq<char>, FileChangeKind)>| (f is Some == has_file) implies #[trigger] marks_part(f, viewed, binary, comments, worktree)
            == fin.subrange(s0.len() as int, fin.len() as int) by {
            assert(marks_part(f, viewed, binary, comments, worktree) =~= fin.subrange(s0.len() as int, fin.len() as int));
        }
    }
    u
}

/// The left part of the top bar, and its number of characters.
fn top_left_segments(
    file: Option<(&str, FileChangeKind)>,
    pr: Option<u64>,
    viewed: bool,
    binary: bool,
    comments: Option<usize>,
    worktree: bool,
) -> (r: (Vec<BarSegment>, u128))
    ensures
        segs_view(r.0@) == top_left(
            match file {
                Some(f) => Some((f.0@, f.1)),
                None => None,
            },
            pr,
            viewed,
            binary,
            comments,
            worktree,
        ),
        r.1 == seg_chars(segs_view(r.0@)),
        r.1 <= 0x1_0000_0000_0000_0000 * 16,
{
    let ghost fv = match file {
        Some(f) => Some((f.0@, f.1)),
        None => None::<(Seq<char>, FileChangeKind)>,
    };
    let mut segs: Vec<BarSegment> = Vec::new();
    assert(segs_view(segs@) =~= Seq::<(Seq<char>, BarRole)>::empty());
    let u0 = push_seg(&mut segs, 0, seg_str("  ", BarRole::Fill));
    let ghost s0 = segs_view(segs@);
    assert(s0 =~= seq![("  "@, BarRole::Fill)]);
    let u1 = push_pr_part(&mut segs, u0, pr);
    let u2 = push_kind_part(&mut segs, u1, file);
    let ghost s2 = segs_view(segs@);
    let name = match file {
        Some((p, _)) => p,
        None => "No files",
    };
    let u3 = push_seg(&mut segs, u2, seg_str(name, BarRole::Title));
    let ghost s3 = segs_view(segs@);
    assert(s3 =~= s2 + name_part(fv));
    let u4 = push_marks_part(&mut segs, u3, file.is_some(), viewed, binary, comments, worktree);
    proof {
        let fin = segs_view(segs@);
        assert(marks_part(fv, viewed, binary, comments, worktree) == fin.subrange(s3.len() as int, fin.len() as int));
        assert(fin =~= s3 + marks_part(fv, viewed, binary, comments, worktree));
    }
    (segs, u4)
}

/// The hunk counter text.
fn hunk_counter(hunk: Option<(usize, usize)>) -> (r: Vec<char>)
    ensures
        r@ == hunk_text(hunk),
{
    let mut right: Vec<char> = Vec::new();
    if let Some((cur, tot)) = hunk {
        push_str(&mut right, "hunk ");
        let a = fmt_dec(cur);
        push_all(&mut right, a.as_slice());
        push_str(&mut right, "/");
        let b = fmt_dec(tot);
        push_all(&mut right, b.as_slice());
        push_str(&mut right, "  ");
        assert(right@ =~= "hunk "@ + dec(cur as nat) + "/"@ + dec(tot as nat) + "  "@);
    } else {
        assert(right@ =~= Seq::<char>::empty());
    }
    right
}

/// The top bar: see `top_bar`.
pub fn top_bar_segments(
    file: Option<(&str, FileChangeKind)>,
    pr: Option<u64>,
    viewed: bool,
    binary: bool,
    comments: Option<usize>,
    worktree: bool,
    hunk: Option<(usize, usize)>,
    width: usize,
) -> (r: Vec<BarSegment>)
    ensures
        segs_view(r@) == top_bar(
            match file {
                Some(f) => Some((f.0@, f.1)),
                None => None,
            },
            pr,
            viewed,
            binary,
            comments,
            worktree,
            hunk,
            width as nat,
        ),
{
    let (mut segs, used) = top_left_segments(file, pr, viewed, binary, comments, worktree);
    let ghost left = segs_view(segs@);
    let right = hunk_counter(hunk);
    let rlen = right.len();
    let after_left: u128 = if (width as u128) >= used {
        width as u128 - used
    } else {
        0
    };
    let pad: usize = if after_left >= rlen as u128 {
        (after_left - rlen as u128) as usize
    } else {
        0
    };
    let mut fill: Vec<char> = Vec::new();
    let mut k: usize = 0;
    while k < pad
        invariant
            k <= pad,
            fill@ == blanks(k as nat),
        decreases pad - k,
    {
        fill.push(' ');
        k = k + 1;
        assert(fill@ =~= blanks(k as nat));
    }
    let ghost fill_v = fill@;
    let u = push_seg(&mut segs, used, seg_of(fill, BarRole::Fill));
    if hunk.is_some() {
        let _ = push_seg(&mut segs, u, seg_of(right, BarRole::Accent));
    }
    assert(segs_view(segs@) =~= left + seq![(fill_v, BarRole::Fill)] + (if hunk is Some {
        seq![(hunk_text(hunk), BarRole::Accent)]
    } else {
        Seq::<(Seq<char>, BarRole)>::empty()
    }));
    segs
}

// ---------------------------------------------------------------------------
// Bottom bar
// ---------------------------------------------------------------------------

/// The key hints of the bottom bar for a focus and mode, in order.
pub open spec fn key_hints(focus: Focus, pr_mode: bool) -> Seq<(Seq<char>, Seq<char>)> {
    let base = match focus {
        Focus::Sidebar => seq![
            ("j/k"@, "navigate"@),
            ("\u{21b5}"@, "open"@),
            ("/"@, "filter"@),
            ("\u{2423}"@, "view+next"@),
            ("\u{21e5}"@, "switch"@),
        ],
        Focus::Diff => seq![
            ("j/k"@, "scroll"@),
            ("{/}"@, "hunks"@),
            ("z"@, "fold"@),
            ("c"@, "comment"@),
            ("C"@, "view"@),
            ("\u{2423}"@, "view+next"@),
            ("\u{21e5}"@, "switch"@),
        ],
    };
    let pr = if pr_mode {
        seq![("A"@, "approve"@), ("R"@, "req-chg"@), ("O"@, "open"@), ("P"@, "exit PR"@)]
    } else {
        seq![("P"@, "PRs"@)]
    };
    base + pr + seq![("q"@, "quit"@)]
}

/// Segments of a list of key hints: each key and its description, two
/// blanks between hints.
pub open spec fn hint_segs(h: Seq<(Seq<char>, Seq<char>)>) -> Seq<(Seq<char>, BarRole)>
    decreases h.len(),
{
    if h.len() == 0 {
        Seq::empty()
    } else {
        let sep = if h.len() > 1 {
            seq![("  "@, BarRole::HintFill)]
        } else {
            Seq::empty()
        };
        hint_segs(h.drop_last()) + sep + seq![(h.last().0, BarRole::Key), (" "@ + h.last().1, BarRole::Desc)]
    }
}

/// The bottom bar: the input line of the comment and filter modes, the
/// hints of the theme and comment overlays, else an error or status
/// message, else the key hints.
pub open spec fn bottom_bar(
    mode: Mode,
    draft: Seq<char>,
    filter: Seq<char>,
    filtered: nat,
    total: nat,
    include_resolved: bool,
    error: Option<Seq<char>>,
    status: Option<Seq<char>>,
    focus: Focus,
    pr_mode: bool,
) -> Seq<(Seq<char>, BarRole)> {
    if mode == Mode::AddComment {
        seq![
            (" Comment: "@, BarRole::Accent),
            (draft, BarRole::Bright),
            ("\u{2588}"@, BarRole::Accent),
            ("  Enter: save  Esc: cancel"@, BarRole::Muted),
        ]
    } else if mode == Mode::FilterFiles {
        let shown = if filter.len() == 0 {
            total
        } else {
            filtered
        };
        seq![
            (" Filter: "@, BarRole::Accent),
            (filter, BarRole::Bright),
            ("\u{2588}"@, BarRole::Accent),
            (" ("@ + dec(shown) + "/"@ + dec(total) + ")"@, BarRole::Muted),
            ("  Enter: apply  Esc: cancel"@, BarRole::Muted),
        ]
    } else if mode == Mode::SelectTheme {
        seq![(" Theme "@, BarRole::Accent), (" j/k: move  Enter: apply  Esc: cancel"@, BarRole::Muted)]
    } else if mode == Mode::ViewComments {
        let scope = if include_resolved {
            "all"@
        } else {
            "open"@
        };
        seq![
            (" Comments ("@ + scope + ") "@, BarRole::Accent),
            (" j/k: move  Enter: jump  r: resolve  a: all/open  Esc: close"@, BarRole::Muted),
        ]
    } else if error is Some {
        seq![(" \u{2717} "@, BarRole::Error), (error->0, BarRole::Error)]
    } else if status is Some {
        seq![(" \u{2713} "@, BarRole::Success), (status->0, BarRole::Success)]
    } else {
        seq![(" "@, BarRole::HintFill)] + hint_segs(key_hints(focus, pr_mode))
    }
}

/// The key hints for a focus and mode.
fn key_hint_list(focus: Focus, pr_mode: bool) -> (r: Vec<(&'static str, &'static str)>)
    ensures
        r@.map_values(|p: (&'static str, &'static str)| (p.0@, p.1@)) == key_hints(focus, pr_mode),
{
    let mut v: Vec<(&'static str, &'static str)> = Vec::new();
    match focus {
        Focus::Sidebar => {
            v.push(("j/k", "navigate"));
            v.push(("\u{21b5}", "open"));
            v.push(("/", "filter"));
            v.push(("\u{2423}", "view+next"));
            v.push(("\u{21e5}", "switch"));
        },
        Focus::Diff => {
            v.push(("j/k", "scroll"));
            v.push(("{/}", "hunks"));
            v.push(("z", "fold"));
            v.push(("c", "comment"));
            v.push(("C", "view"));
            v.push(("\u{2423}", "view+next"));
            v.push(("\u{21e5}", "switch"));
        },
    }
    if pr_mode {
        v.push(("A", "approve"));
        v.push(("R", "req-chg"));
        v.push(("O", "open"));
        v.push(("P", "exit PR"));
    } else {
        v.push(("P", "PRs"));
    }
    v.push(("q", "quit"));
    assert(v@.map_values(|p: (&'static str, &'static str)| (p.0@, p.1@)) =~= key_hints(focus, pr_mode));
    v
}

/// The bottom bar: see `bottom_bar`.
pub fn bottom_bar_segments(
    mode: Mode,
    draft: &str,
    filter: &str,
    filtered: usize,
    total: usize,
    include_resolved: bool,
    error: Option<&str>,
    status: Option<&str>,
    focus: Focus,
    pr_mode: bool,
) -> (r: Vec<BarSegment>)
    ensures
        segs_view(r@) == bottom_bar(
            mode,
            draft@,
            filter@,
            filtered as nat,
            total as nat,
            include_resolved,
            match error {
                Some(e) => Some(e@),
                None => None,
            },
            match status {
                Some(s) => Some(s@),
                None => None,
            },
            focus,
            pr_mode,
        ),
{
    let ghost ev = match error {
        Some(e) => Some(e@),
        None => None::<Seq<char>>,
    };
    let ghost sv = match status {
        Some(s) => Some(s@),
        None => None::<Seq<char>>,
    };
    let ghost target = bottom_bar(mode, draft@, filter@, filtered as nat, total as nat, include_resolved, ev, sv, focus, pr_mode);
    let mut segs: Vec<BarSegment> = Vec::new();
    if mode == Mode::AddComment {
        segs.push(seg_str(" Comment: ", BarRole::Accent));
        segs.push(seg_str(draft, BarRole::Bright));
        segs.push(seg_str("\u{2588}", BarRole::Accent));
        segs.push(seg_str("  Enter: save  Esc: cancel", BarRole::Muted));
        assert(segs_view(segs@) =~= target);
        return segs;
    }
    if mode == Mode::FilterFiles {
        let shown = if filter.is_empty() {
            total
        } else {
            filtered
        };
        let mut v: Vec<char> = Vec::new();
        push_str(&mut v, " (");
        let a = fmt_dec(shown);
        push_all(&mut v, a.as_slice());
        push_str(&mut v, "/");
        let b = fmt_dec(total);
        push_all(&mut v, b.as_slice());
        push_str(&mut v, ")");
        assert(v@ =~= " ("@ + dec(shown as nat) + "/"@ + dec(total as nat) + ")"@);
        segs.push(seg_str(" Filter: ", BarRole::Accent));
        segs.push(seg_str(filter, BarRole::Bright));
        segs.push(seg_str("\u{2588}", BarRole::Accent));
        segs.push(seg_of(v, BarRole::Muted));
        segs.push(seg_str("  Enter: apply  Esc: cancel", BarRole::Muted));
        assert(segs_view(segs@) =~= target);
        return segs;
    }
    if mode == Mode::SelectTheme {
        segs.push(seg_str(" Theme ", BarRole::Accent));
        segs.push(seg_str(" j/k: move  Enter: apply  Esc: cancel", BarRole::Muted));
        assert(segs_view(segs@) =~= target);
        return segs;
    }
    if mode == Mode::ViewComments {
        let mut v: Vec<char> = Vec::new();
        push_str(&mut v, " Comments (");
        if include_resolved {
            push_str(&mut v, "all");
        } else {
            push_str(&mut v, "open");
        }
        push_str(&mut v, ") ");
        proof {
            if include_resolved {
                assert(v@ =~= " Comments ("@ + "all"@ + ") "@);
            } else {
                assert(v@ =~= " Comments ("@ + "open"@ + ") "@);
            }
        }
        segs.push(seg_of(v, BarRole::Accent));
        segs.push(seg_str(" j/k: move  Enter: jump  r: resolve  a: all/open  Esc: close", BarRole::Muted));
        assert(segs_view(segs@) =~= target);
        return segs;
    }
    if let Some(e) = error {
        segs.push(seg_str(" \u{2717} ", BarRole::Error));
        segs.push(seg_str(e, BarRole::Error));
        assert(segs_view(segs@) =~= target);
        return segs;
    }
    if let Some(m) = status {
        segs.push(seg_str(" \u{2713} ", BarRole::Success));
        segs.push(seg_str(m, BarRole::Success));
        assert(segs_view(segs@) =~= target);
        return segs;
    }
    segs.push(seg_str(" ", BarRole::HintFill));
    let hints = key_hint_list(focus, pr_mode);
    let ghost hv = hints@.map_values(|p: (&'static str, &'static str)| (p.0@, p.1@));
    let mut i: usize = 0;
    assert(hv.take(0) =~= Seq::<(Seq<char>, Seq<char>)>::empty());
    assert(segs_view(segs@) =~= seq![(" "@, BarRole::HintFill)] + hint_segs(hv.take(0)));
    while i < hints.len()
        invariant
            i <= hints@.len(),
            hv == hints@.map_values(|p: (&'static str, &'static str)| (p.0@, p.1@)),
            segs_view(segs@) == seq![(" "@, BarRole::HintFill)] + hint_segs(hv.take(i as int)),
        decreases hints@.len() - i,
    {
        let ghost before = segs_view(segs@);
        let (key, desc) = hints[i];
        if i > 0 {
            segs.push(seg_str("  ", BarRole::HintFill));
        }
        segs.push(seg_str(key, BarRole::Key));
        let mut d: Vec<char> = Vec::new();
        d.push(' ');
        push_str(&mut d, desc);
        proof {
            reveal_strlit(" ");
            assert(d@ =~= " "@ + desc@);
        }
        segs.push(seg_of(d, BarRole::Desc));
        proof {
            let t = hv.take(i + 1);
            assert(t.drop_last() =~= hv.take(i as int));
            assert(t.last() == (key@, desc@));
            if i > 0 {
                assert(segs_view(segs@) =~= before + seq![("  "@, BarRole::HintFill)] + seq![(key@, BarRole::Key), (" "@ + desc@, BarRole::Desc)]);
            } else {
                assert(segs_view(segs@) =~= before + Seq::<(Seq<char>, BarRole)>::empty() + seq![(key@, BarRole::Key), (" "@ + desc@, BarRole::Desc)]);
            }
            assert(segs_view(segs@) =~= seq![(" "@, BarRole::HintFill)] + hint_segs(t));
        }
        i = i + 1;
    }
    assert(hv.take(hints@.len() as int) =~= hv);
    segs
}

/// `seg_chars` adds up over concatenation.
pub proof fn lemma_seg_chars_concat(a: Seq<(Seq<char>, BarRole)>, b: Seq<(Seq<char>, BarRole)>)
    ensures
        seg_chars(a + b) == seg_chars(a) + seg_chars(b),
    decreases b.len(),
{
    if b.len() == 0 {
        assert(a + b =~= a);
    } else {
        lemma_seg_chars_concat(a, b.drop_last());
        assert((a + b).drop_last() =~= a + b.drop_last());
    }
}

/// The top bar spans the whole width when its text fits, the hunk counter
/// ending at the right edge; otherwise it is exactly its text.
pub proof fn lemma_top_bar_width(
    file: Option<(Seq<char>, FileChangeKind)>,
    pr: Option<u64>,
    viewed: bool,
    binary: bool,
    comments: Option<usize>,
    worktree: bool,
    hunk: Option<(usize, usize)>,
    width: nat,
)
    ensures
        ({
            let text = seg_chars(top_left(file, pr, viewed, binary, comments, worktree)) + hunk_text(hunk).len();
            seg_chars(top_bar(file, pr, viewed, binary, comments, worktree, hunk, width)) == if text <= width {
                width
            } else {
                text
            }
        }),
{
    let left = top_left(file, pr, viewed, binary, comments, worktree);
    let right = hunk_text(hunk);
    let pad = sat_sub(sat_sub(width, seg_chars(left)), right.len());
    let tail: Seq<(Seq<char>, BarRole)> = if hunk is Some {
        seq![(right, BarRole::Accent)]
    } else {
        Seq::empty()
    };
    lemma_seg_chars_concat(left + seq![(blanks(pad), BarRole::Fill)], tail);
    lemma_seg_chars_concat(left, seq![(blanks(pad), BarRole::Fill)]);
    assert(seq![(blanks(pad), BarRole::Fill)].drop_last() =~= Seq::<(Seq<char>, BarRole)>::empty());
    assert(seg_chars(Seq::<(Seq<char>, BarRole)>::empty()) == 0);
    assert(seg_chars(seq![(blanks(pad), BarRole::Fill)]) == pad);
    if hunk is Some {
        assert(seq![(right, BarRole::Accent)].drop_last() =~= Seq::<(Seq<char>, BarRole)>::empty());
        assert(seg_chars(tail) == right.len());
    } else {
        assert(right =~= Seq::<char>::empty());
        assert(seg_chars(tail) == 0);
    }
}

// ---------------------------------------------------------------------------
// Diff header
// ---------------------------------------------------------------------------

/// How the pane layout is described: as configured, or chosen automatically
/// for a narrow view.
pub open spec fn mode_text(configured: DiffPaneMode, effective: DiffPaneMode) -> Seq<char> {
    if configured == DiffPaneMode::Both && effective == DiffPaneMode::OldOnly {
        "auto old"@
    } else if configured == DiffPaneMode::Both && effective == DiffPaneMode::NewOnly {
        "auto new"@
    } else {
        match effective {
            DiffPaneMode::Both => "split"@,
            DiffPaneMode::OldOnly => "old"@,
            DiffPaneMode::NewOnly => "new"@,
        }
    }
}

/// The right part of the diff header: hunk counter, view mode, layout,
/// wrapping and line numbers, two blanks apart.
pub open spec fn header_right(
    hunk: Option<(usize, usize)>,
    view: DiffViewMode,
    configured: DiffPaneMode,
    effective: DiffPaneMode,
    wrap: bool,
    nums: bool,
) -> Seq<char> {
    let hunk_part = match hunk {
        Some(h) => "hunk "@ + dec(h.0 as nat) + "/"@ + dec(h.1 as nat) + "  "@,
        None => Seq::empty(),
    };
    let view_part = match view {
        DiffViewMode::HunksOnly => "hunks"@,
        DiffViewMode::FullFile => "full"@,
    };
    hunk_part + view_part + "  "@ + mode_text(configured, effective) + "  "@ + (if wrap {
        "wrap"@
    } else {
        "nowrap"@
    }) + "  "@ + (if nums {
        "nums"@
    } else {
        "nonums"@
    })
}

/// The badge part of the diff header.
pub open spec fn header_fixed(file: Option<(Seq<char>, FileChangeKind)>) -> Seq<(Seq<char>, BarRole)> {
    seq![(" "@, BarRole::Fill)] + match file {
        Some(f) => seq![(" "@ + kind_letter(f.1) + " "@, BarRole::KindBadge(f.1)), (" "@, BarRole::Fill)],
        None => Seq::empty(),
    }
}

/// The diff header `width` columns wide: the change badge, the file name
/// cut to the room the right part leaves, blanks, and the right part.
pub open spec fn diff_header(
    file: Option<(Seq<char>, FileChangeKind)>,
    hunk: Option<(usize, usize)>,
    view: DiffViewMode,
    configured: DiffPaneMode,
    effective: DiffPaneMode,
    wrap: bool,
    nums: bool,
    width: nat,
) -> Seq<(Seq<char>, BarRole)> {
    let fixed = header_fixed(file);
    let right = header_right(hunk, view, configured, effective, wrap, nums);
    let room = sat_sub(width, right.len() + seg_chars(fixed) + 3);
    let name_width: nat = if room >= 1 {
        room
    } else {
        1
    };
    let name = match file {
        Some(f) => f.0,
        None => "No file selected"@,
    };
    let left = fixed.push((truncated_display(name, name_width), BarRole::Title));
    let pad = sat_sub(width, seg_chars(left) + right.len() + 1);
    left + seq![(blanks(pad), BarRole::Fill), (right, BarRole::Muted), (" "@, BarRole::Fill)]
}

/// The right part of the header.
fn header_right_text(
    hunk: Option<(usize, usize)>,
    view: DiffViewMode,
    configured: DiffPaneMode,
    effective: DiffPaneMode,
    wrap: bool,
    nums: bool,
) -> (r: Vec<char>)
    ensures
        r@ == header_right(hunk, view, configured, effective, wrap, nums),
{
    let mut v = hunk_counter(hunk);
    let ghost h = v@;
    match view {
        DiffViewMode::HunksOnly => push_str(&mut v, "hunks"),
        DiffViewMode::FullFile => push_str(&mut v, "full"),
    }
    push_str(&mut v, "  ");
    let ghost before_mode = v@;
    let m = if configured == DiffPaneMode::Both && effective == DiffPaneMode::OldOnly {
        "auto old"
    } else if configured == DiffPaneMode::Both && effective == DiffPaneMode::NewOnly {
        "auto new"
    } else {
        match effective {
            DiffPaneMode::Both => "split",
            DiffPaneMode::OldOnly => "old",
            DiffPaneMode::NewOnly => "new",
        }
    };
    assert(m@ == mode_text(configured, effective));
    push_str(&mut v, m);
    push_str(&mut v, "  ");
    if wrap {
        push_str(&mut v, "wrap");
    } else {
        push_str(&mut v, "nowrap");
    }
    push_str(&mut v, "  ");
    if nums {
        push_str(&mut v, "nums");
    } else {
        push_str(&mut v, "nonums");
    }
    proof {
        let view_part = match view {
            DiffViewMode::HunksOnly => "hunks"@,
            DiffViewMode::FullFile => "full"@,
        };
        let w = if wrap { "wrap"@ } else { "nowrap"@ };
        let n = if nums { "nums"@ } else { "nonums"@ };
        assert(v@ =~= h + view_part + "  "@ + m@ + "  "@ + w + "  "@ + n);
    }
    v
}

/// The diff header: see `diff_header`.
pub fn diff_header_segments(
    file: Option<(&str, FileChangeKind)>,
    hunk: Option<(usize, usize)>,
    view: DiffViewMode,
    configured: DiffPaneMode,
    effective: DiffPaneMode,
    wrap: bool,
    nums: bool,
    width: usize,
) -> (r: Vec<BarSegment>)
    ensures
        segs_view(r@) == diff_header(
            match file {
                Some(f) => Some((f.0@, f.1)),
                None => None,
            },
            hunk,
            view,
            configured,
            effective,
            wrap,
            nums,
            width as nat,
        ),
{
    let ghost fv = match file {
        Some(f) => Some((f.0@, f.1)),
        None => None::<(Seq<char>, FileChangeKind)>,
    };
    let right = header_right_text(hunk, view, configured, effective, wrap, nums);
    let rlen = right.len();
    let mut segs: Vec<BarSegment> = Vec::new();
    assert(segs_view(segs@) =~= Seq::<(Seq<char>, BarRole)>::empty());
    let mut used = push_seg(&mut segs, 0, seg_str(" ", BarRole::Fill));
    if let Some((_, kind)) = file {
        let letter = match kind {
            FileChangeKind::Added => "A",
            FileChangeKind::Modified => "M",
            FileChangeKind::Deleted => "D",
            FileChangeKind::Untracked => "?",
            FileChangeKind::Renamed => "R",
        };
        assert(letter@ == kind_letter(kind));
        let mut b: Vec<char> = Vec::new();
        push_str(&mut b, " ");
        push_str(&mut b, letter);
        push_str(&mut b, " ");
        used = push_seg(&mut segs, used, seg_of(b, BarRole::KindBadge(kind)));
        used = push_seg(&mut segs, used, seg_str(" ", BarRole::Fill));
    }
    assert(segs_view(segs@) =~= header_fixed(fv));
    let reserved: u128 = rlen as u128 + used + 3;
    let room: u128 = if width as u128 >= reserved {
        width as u128 - reserved
    } else {
        0
    };
    let name_width: usize = if room >= 1 {
        room as usize
    } else {
        1
    };
    let name = match file {
        Some((p, _)) => p,
        None => "No file selected",
    };
    let shown = truncate_str(name, name_width);
    used = push_seg(&mut segs, used, BarSegment { text: shown, role: BarRole::Title });
    let ghost left = segs_view(segs@);
    let taken: u128 = used + rlen as u128 + 1;
    let pad: usize = if width as u128 >= taken {
        (width as u128 - taken) as usize
    } else {
        0
    };
    let mut fill: Vec<char> = Vec::new();
    let mut k: usize = 0;
    while k < pad
        invariant
            k <= pad,
            fill@ == blanks(k as nat),
        decreases pad - k,
    {
        fill.push(' ');
        k = k + 1;
        assert(fill@ =~= blanks(k as nat));
    }
    let ghost fill_v = fill@;
    let ghost right_v = right@;
    used = push_seg(&mut segs, used, seg_of(fill, BarRole::Fill));
    used = push_seg(&mut segs, used, seg_of(right, BarRole::Muted));
    let _ = push_seg(&mut segs, used, seg_str(" ", BarRole::Fill));
    assert(segs_view(segs@) =~= left + seq![(fill_v, BarRole::Fill), (right_v, BarRole::Muted), (" "@, BarRole::Fill)]);
    segs
}

} // verus!
