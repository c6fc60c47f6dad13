//! Layout of one diff pane: the rows it shows, their line labels and
//! backgrounds, the code cells of each line (syntax style, inline change,
//! tab stops, horizontal scroll, control characters), the padding that
//! aligns the old pane to its right-hand gutter, and the sticky scope line.

use vstd::prelude::*;
use crate::diff::{ChangeKind, DiffResult, Hunk, InlineSpan, LineRef, LineV, RenderRow, RowV, line_ok, rows_lines_bounded, rows_view};
use crate::highlight::{FileHighlightCache, ScopeInfo, ScopeV, StyleId, StyledSpan, find_enclosing_scope, scope_contains};
use crate::render_helpers::{sanitize_char, sanitized, tab_width, visible_tab};
use crate::strings::{byte_len, char_utf8_width, chars_of, dec, fmt_dec, push_all, push_str, string_of, utf8_width, lemma_byte_len_concat};
use vstd::utf8::encode_utf8;
use crate::repo::FileChangeKind;
use crate::view_state::DiffPaneMode;

verus! {

/// Background of a row in a pane.
#[derive(Debug, Clone, Copy, PartialEq, Eq, Structural)]
pub enum RowTone {
    /// Unchanged line, or nothing to show on this side.
    Equal,
    /// Removed or replaced line (old pane).
    Delete,
    /// Added or replacing line (new pane).
    Insert,
    /// The other side has a line and this one has none.
    Empty,
}

/// One drawn column of code: its character, its syntax style, and whether
/// it lies in a changed inline region.
#[derive(Debug, Clone, Copy, PartialEq, Eq, Structural)]
pub struct Cell {
    pub ch: char,
    pub style: StyleId,
    pub changed: bool,
}

/// The line a pane shows for a row, and the row's background there.
pub open spec fn pane_side(row: RowV, is_old: bool) -> (Option<LineV>, RowTone) {
    if is_old {
        match row.old {
            Some(l) => match row.kind {
                ChangeKind::Equal => (Some(l), RowTone::Equal),
                ChangeKind::Delete => (Some(l), RowTone::Delete),
                ChangeKind::Replace => (Some(l), RowTone::Delete),
                ChangeKind::Insert => (None, RowTone::Equal),
            },
            None => match row.kind {
                ChangeKind::Insert => (None, RowTone::Empty),
                _ => (None, RowTone::Equal),
            },
        }
    } else {
        match row.new {
            Some(l) => match row.kind {
                ChangeKind::Equal => (Some(l), RowTone::Equal),
                ChangeKind::Insert => (Some(l), RowTone::Insert),
                ChangeKind::Replace => (Some(l), RowTone::Insert),
                ChangeKind::Delete => (None, RowTone::Equal),
            },
            None => match row.kind {
                ChangeKind::Delete => (None, RowTone::Empty),
                _ => (None, RowTone::Equal),
            },
        }
    }
}

/// View of an optional line reference.
pub open spec fn opt_line(l: Option<&LineRef>) -> Option<LineV> {
    match l {
        Some(l) => Some(l.view()),
        None => None,
    }
}

/// The line a pane shows for `row`, and the row's background there.
pub fn side_line(row: &RenderRow, is_old: bool) -> (r: (Option<&LineRef>, RowTone))
    ensures
        (opt_line(r.0), r.1) == pane_side(row.view(), is_old),
{
    if is_old {
        match &row.old {
            Some(line) => match row.kind {
                ChangeKind::Equal => (Some(line), RowTone::Equal),
                ChangeKind::Delete => (Some(line), RowTone::Delete),
                ChangeKind::Replace => (Some(line), RowTone::Delete),
                ChangeKind::Insert => (None, RowTone::Equal),
            },
            None => match row.kind {
                ChangeKind::Insert => (None, RowTone::Empty),
                _ => (None, RowTone::Equal),
            },
        }
    } else {
        match &row.new {
            Some(line) => match row.kind {
                ChangeKind::Equal => (Some(line), RowTone::Equal),
                ChangeKind::Insert => (Some(line), RowTone::Insert),
                ChangeKind::Replace => (Some(line), RowTone::Insert),
                ChangeKind::Delete => (None, RowTone::Equal),
            },
            None => match row.kind {
                ChangeKind::Delete => (None, RowTone::Empty),
                _ => (None, RowTone::Equal),
            },
        }
    }
}

// ---------------------------------------------------------------------------
// Byte offsets of characters
// ---------------------------------------------------------------------------

/// UTF-8 byte offset of character `i` of `cs`.
pub open spec fn byte_offset(cs: Seq<char>, i: int) -> nat {
    byte_len(cs.take(i))
}

/// `b` is the byte offset of a character of `cs`, or its byte length.
pub open spec fn is_boundary(cs: Seq<char>, b: nat) -> bool {
    exists|i: int| 0 <= i <= cs.len() && #[trigger] byte_offset(cs, i) == b
}

/// The character index at byte boundary `b`.
pub open spec fn index_at_byte(cs: Seq<char>, b: nat) -> int {
    choose|i: int| 0 <= i <= cs.len() && #[trigger] byte_offset(cs, i) == b
}

/// The encoded length of a character sequence is its `byte_len`.
pub proof fn lemma_encode_len(cs: Seq<char>)
    ensures
        encode_utf8(cs).len() == byte_len(cs),
    decreases cs.len(),
{
    if cs.len() > 0 {
        lemma_encode_len(cs.drop_first());
        lemma_byte_len_concat(seq![cs[0]], cs.drop_first());
        assert(seq![cs[0]] + cs.drop_first() =~= cs);
        assert(seq![cs[0]].drop_last() =~= Seq::<char>::empty());
        assert(seq![cs[0]].last() == cs[0]);
        assert(byte_len(Seq::<char>::empty()) == 0);
        vstd::utf8::char_is_scalar(cs[0]);
        assert(vstd::utf8::encode_scalar(cs[0] as u32).len() == utf8_width(cs[0]));
        assert(encode_utf8(cs) == vstd::utf8::encode_scalar(cs[0] as u32) + encode_utf8(cs.drop_first()));
    }
}

/// Byte offsets grow strictly with the character index.
pub proof fn lemma_offsets_increase(cs: Seq<char>, i: int, j: int)
    requires
        0 <= i < j <= cs.len(),
    ensures
        byte_offset(cs, i) < byte_offset(cs, j),
        byte_offset(cs, j) <= byte_len(cs),
    decreases j - i,
{
    assert(cs.take(j) =~= cs.take(j - 1).push(cs[j - 1]));
    assert(cs.take(j).drop_last() =~= cs.take(j - 1));
    if i < j - 1 {
        lemma_offsets_increase(cs, i, j - 1);
    }
    lemma_byte_len_concat(cs.take(j), cs.skip(j));
    assert(cs.take(j) + cs.skip(j) =~= cs);
}

/// A boundary has exactly one character index.
pub proof fn lemma_index_at_byte(cs: Seq<char>, i: int)
    requires
        0 <= i <= cs.len(),
    ensures
        is_boundary(cs, byte_offset(cs, i)),
        index_at_byte(cs, byte_offset(cs, i)) == i,
{
    let b = byte_offset(cs, i);
    assert(is_boundary(cs, b));
    let k = index_at_byte(cs, b);
    if k < i {
        lemma_offsets_increase(cs, k, i);
    } else if k > i {
        lemma_offsets_increase(cs, i, k);
    }
}

// ---------------------------------------------------------------------------
// Code items of a line
// ---------------------------------------------------------------------------

/// The byte at `off` lies in one of the changed spans `s`.
pub open spec fn in_changed_spans(s: Seq<InlineSpan>, off: nat) -> bool {
    exists|k: int| 0 <= k < s.len() && #[trigger] s[k].changed && s[k].start <= off && off < s[k].end
}

/// The byte at `off` lies in a changed inline span.
pub open spec fn in_changed(inline: Option<Seq<InlineSpan>>, off: nat) -> bool {
    inline is Some && in_changed_spans(inline->0, off)
}

/// The code item for character `i` of `cs` in style `style`.
pub open spec fn item_at(cs: Seq<char>, i: int, style: StyleId, inline: Option<Seq<InlineSpan>>) -> Cell {
    Cell { ch: cs[i], style, changed: in_changed(inline, byte_offset(cs, i)) }
}

/// The characters of a highlight span with its style: none when the span's
/// byte range does not fall on character boundaries of the line.
pub open spec fn span_items(cs: Seq<char>, hl: StyledSpan, inline: Option<Seq<InlineSpan>>) -> Seq<Cell> {
    if hl.start <= hl.end && is_boundary(cs, hl.start as nat) && is_boundary(cs, hl.end as nat) {
        let a = index_at_byte(cs, hl.start as nat);
        let e = index_at_byte(cs, hl.end as nat);
        Seq::new((e - a) as nat, |k: int| item_at(cs, a + k, hl.style_id, inline))
    } else {
        Seq::empty()
    }
}

/// The items of a sequence of highlight spans, in order.
pub open spec fn spans_items(cs: Seq<char>, spans: Seq<StyledSpan>, inline: Option<Seq<InlineSpan>>) -> Seq<Cell>
    decreases spans.len(),
{
    if spans.len() == 0 {
        Seq::empty()
    } else {
        spans_items(cs, spans.drop_last(), inline) + span_items(cs, spans.last(), inline)
    }
}

/// The code items of a line: its highlight spans' characters, or every
/// character in the default style when it has no spans.
pub open spec fn line_items(cs: Seq<char>, cached: Option<Seq<StyledSpan>>, inline: Option<Seq<InlineSpan>>) -> Seq<Cell> {
    if cached is Some && cached->0.len() > 0 {
        spans_items(cs, cached->0, inline)
    } else {
        Seq::new(cs.len(), |i: int| item_at(cs, i, StyleId::Default, inline))
    }
}

/// Byte offsets of every character of `cs`, and its byte length last.
fn char_offsets(cs: &Vec<char>, total: usize) -> (r: Vec<usize>)
    requires
        byte_len(cs@) == total,
    ensures
        r@.len() == cs@.len() + 1,
        forall|i: int| 0 <= i <= cs@.len() ==> r@[i] == byte_offset(cs@, i),
{
    let mut r: Vec<usize> = Vec::new();
    let mut off: usize = 0;
    let mut i: usize = 0;
    assert(cs@.take(0) =~= Seq::<char>::empty());
    while i < cs.len()
        invariant
            i <= cs@.len(),
            byte_len(cs@) == total,
            off == byte_offset(cs@, i as int),
            r@.len() == i,
            forall|k: int| 0 <= k < i ==> r@[k] == byte_offset(cs@, k),
        decreases cs@.len() - i,
    {
        r.push(off);
        proof {
            assert(cs@.take(i + 1).drop_last() =~= cs@.take(i as int));
            assert(cs@.take(i + 1).last() == cs@[i as int]);
            lemma_offsets_increase(cs@, i as int, i + 1);
            assert(cs@.take(cs@.len() as int) =~= cs@);
            if i + 1 < cs@.len() {
                lemma_offsets_increase(cs@, i + 1, cs@.len() as int);
            }
        }
        off = off + char_utf8_width(cs[i]);
        i = i + 1;
    }
    r.push(off);
    r
}

/// Whether the byte at `off` lies in a changed inline span.
fn changed_at(inline: Option<&[InlineSpan]>, off: usize) -> (r: bool)
    ensures
        r == in_changed(match inline { Some(s) => Some(s@), None => None }, off as nat),
{
    match inline {
        None => false,
        Some(spans) => {
            let mut i: usize = 0;
            while i < spans.len()
                invariant
                    i <= spans@.len(),
                    inline == Some(spans),
                    forall|k: int| 0 <= k < i ==> !(#[trigger] spans@[k].changed && spans@[k].start <= off < spans@[k].end),
                decreases spans@.len() - i,
            {
                if spans[i].changed && spans[i].start <= off && off < spans[i].end {
                    assert(spans@[i as int].changed && spans@[i as int].start <= off < spans@[i as int].end);
                    assert(in_changed_spans(spans@, off as nat));
                    return true;
                }
                i = i + 1;
            }
            false
        },
    }
}

/// Index of byte offset `b` among the offsets, if it is one.
fn find_offset(offs: &Vec<usize>, b: usize) -> (r: Option<usize>)
    ensures
        r matches Some(i) ==> i < offs@.len() && offs@[i as int] == b,
        r is None ==> forall|i: int| 0 <= i < offs@.len() ==> offs@[i] != b,
{
    let mut i: usize = 0;
    while i < offs.len()
        invariant
            i <= offs@.len(),
            forall|k: int| 0 <= k < i ==> offs@[k] != b,
        decreases offs@.len() - i,
    {
        if offs[i] == b {
            return Some(i);
        }
        i = i + 1;
    }
    None
}

/// The code items of a line (see `line_items`).
pub fn code_items(content: &str, cached: Option<&[StyledSpan]>, inline: Option<&[InlineSpan]>) -> (r: Vec<Cell>)
    ensures
        r@ == line_items(
            content@,
            match cached { Some(s) => Some(s@), None => None },
            match inline { Some(s) => Some(s@), None => None },
        ),
{
    let ghost iv = match inline { Some(s) => Some(s@), None => None };
    let cs = chars_of(content);
    let total = content.as_bytes().len();
    proof {
        lemma_encode_len(content@);
    }
    let offs = char_offsets(&cs, total);
    let mut out: Vec<Cell> = Vec::new();
    let use_spans = match cached {
        Some(s) => s.len() > 0,
        None => false,
    };
    if !use_spans {
        let mut i: usize = 0;
        while i < cs.len()
            invariant
                i <= cs@.len(),
                cs@ == content@,
                offs@.len() == cs@.len() + 1,
                forall|k: int| 0 <= k <= cs@.len() ==> offs@[k] == byte_offset(cs@, k),
                iv == (match inline { Some(s) => Some(s@), None => None }),
                out@ == Seq::new(i as nat, |k: int| item_at(content@, k, StyleId::Default, iv)),
            decreases cs@.len() - i,
        {
            let changed = changed_at(inline, offs[i]);
            assert(offs@[i as int] == byte_offset(content@, i as int));
            assert(changed == in_changed(iv, byte_offset(content@, i as int)));
            out.push(Cell { ch: cs[i], style: StyleId::Default, changed });
            assert(out@.last() == item_at(content@, i as int, StyleId::Default, iv));
            assert(out@ =~= Seq::new((i + 1) as nat, |k: int| item_at(content@, k, StyleId::Default, iv)));
            i = i + 1;
        }
        return out;
    }
    let spans = cached.unwrap();
    let mut j: usize = 0;
    while j < spans.len()
        invariant
            j <= spans@.len(),
            cs@ == content@,
            offs@.len() == cs@.len() + 1,
            forall|k: int| 0 <= k <= cs@.len() ==> offs@[k] == byte_offset(cs@, k),
            iv == (match inline { Some(s) => Some(s@), None => None }),
            out@ == spans_items(content@, spans@.take(j as int), iv),
        decreases spans@.len() - j,
    {
        let ghost before = out@;
        let hl = spans[j];
        let a = find_offset(&offs, hl.start);
        let e = find_offset(&offs, hl.end);
        let ghost target = span_items(content@, hl, iv);
        match (a, e) {
            (Some(a), Some(e)) => {
                proof {
                    lemma_index_at_byte(content@, a as int);
                    lemma_index_at_byte(content@, e as int);
                }
                if hl.start <= hl.end {
                    proof {
                        if e < a {
                            lemma_offsets_increase(content@, e as int, a as int);
                        }
                    }
                    let mut k: usize = a;
                    while k < e
                        invariant
                            a <= k <= e <= cs@.len(),
                            cs@ == content@,
                            offs@.len() == cs@.len() + 1,
                            forall|q: int| 0 <= q <= cs@.len() ==> offs@[q] == byte_offset(cs@, q),
                            iv == (match inline { Some(s) => Some(s@), None => None }),
                            out@ == before + Seq::new((k - a) as nat, |q: int| item_at(content@, a + q, hl.style_id, iv)),
                        decreases e - k,
                    {
                        let changed = changed_at(inline, offs[k]);
                        assert(offs@[k as int] == byte_offset(content@, k as int));
                        assert(changed == in_changed(iv, byte_offset(content@, k as int)));
                        out.push(Cell { ch: cs[k], style: hl.style_id, changed });
                        assert(out@.last() == item_at(content@, a + (k - a), hl.style_id, iv));
                        assert(out@ =~= before + Seq::new((k + 1 - a) as nat, |q: int| item_at(content@, a + q, hl.style_id, iv)));
                        k = k + 1;
                    }
                    assert(out@ =~= before + target);
                } else {
                    assert(target =~= Seq::<Cell>::empty());
                    assert(out@ =~= before + target);
                }
            },
            _ => {
                proof {
                    if is_boundary(content@, hl.start as nat) && is_boundary(content@, hl.end as nat) {
                        let ia = index_at_byte(content@, hl.start as nat);
                        let ie = index_at_byte(content@, hl.end as nat);
                        assert(offs@[ia] == hl.start);
                        assert(offs@[ie] == hl.end);
                        assert(false);
                    }
                }
                assert(target =~= Seq::<Cell>::empty());
                assert(out@ =~= before + target);
            },
        }
        proof {
            assert(spans@.take(j + 1).drop_last() =~= spans@.take(j as int));
            assert(spans@.take(j + 1).last() == hl);
        }
        j = j + 1;
    }
    assert(spans@.take(spans@.len() as int) =~= spans@);
    out
}

// ---------------------------------------------------------------------------
// Laying out code items into columns
// ---------------------------------------------------------------------------

/// One layout step: the state after drawing item `it`.
pub open spec fn cell_step(st: (Seq<Cell>, nat, nat, bool), it: Cell, sx: nat, mc: nat) -> (Seq<Cell>, nat, nat, bool) {
    if st.3 || st.2 >= mc {
        (st.0, st.1, st.2, true)
    } else if it.ch == '\t' {
        let t = visible_tab(st.1, sx, (mc - st.2) as nat);
        (
            st.0 + Seq::new(t.0, |k: int| Cell { ch: ' ', style: it.style, changed: it.changed }),
            st.1 + t.1,
            st.2 + t.0,
            false,
        )
    } else if st.1 >= sx {
        (st.0.push(Cell { ch: sanitized(it.ch), style: it.style, changed: it.changed }), st.1 + 1, st.2 + 1, false)
    } else {
        (st.0, st.1 + 1, st.2, false)
    }
}

/// Layout of code items from column 0: (drawn cells, column, visible width,
/// stopped). A tab draws the visible part of its stop in its item's style,
/// columns left of `sx` are scrolled away, control characters show as
/// U+FFFD, and drawing stops once `mc` columns are used.
pub open spec fn cell_layout(items: Seq<Cell>, sx: nat, mc: nat) -> (Seq<Cell>, nat, nat, bool)
    decreases items.len(),
{
    if items.len() == 0 {
        (Seq::empty(), 0, 0, false)
    } else {
        cell_step(cell_layout(items.drop_last(), sx, mc), items.last(), sx, mc)
    }
}

/// Draw one item onto `out`, from column `col` with `vis` columns used.
fn step_cell(out: &mut Vec<Cell>, col: u128, vis: usize, it: Cell, scroll_x: usize, max_content: usize) -> (r: (u128, usize))
    requires
        vis < max_content,
        old(out)@.len() == vis,
        col <= 0x1_0000_0000_0000_0000_0000,
    ensures
        cell_step((old(out)@, col as nat, vis as nat, false), it, scroll_x as nat, max_content as nat)
            == (final(out)@, r.0 as nat, r.1 as nat, false),
        r.0 <= col + 8,
        final(out)@.len() == r.1,
        r.1 <= max_content,
{
    if it.ch == '\t' {
        let remaining = max_content - vis;
        let rem = (col % 8) as usize;
        let width: usize = if rem == 0 {
            8
        } else {
            8 - rem
        };
        let skip: u128 = if (scroll_x as u128) > col {
            scroll_x as u128 - col
        } else {
            0
        };
        let emit: usize = if skip >= width as u128 {
            0
        } else {
            let avail = width - skip as usize;
            if avail < remaining {
                avail
            } else {
                remaining
            }
        };
        assert(width as nat == tab_width(col as nat));
        assert((emit as nat, width as nat) == visible_tab(col as nat, scroll_x as nat, (max_content - vis) as nat));
        let ghost o0 = out@;
        let mut k: usize = 0;
        while k < emit
            invariant
                k <= emit,
                out@ == o0 + Seq::new(k as nat, |q: int| Cell { ch: ' ', style: it.style, changed: it.changed }),
            decreases emit - k,
        {
            out.push(Cell { ch: ' ', style: it.style, changed: it.changed });
            k = k + 1;
            assert(out@ =~= o0 + Seq::new(k as nat, |q: int| Cell { ch: ' ', style: it.style, changed: it.changed }));
        }
        (col + width as u128, vis + emit)
    } else if col >= scroll_x as u128 {
        out.push(Cell { ch: sanitize_char(it.ch), style: it.style, changed: it.changed });
        (col + 1, vis + 1)
    } else {
        (col + 1, vis)
    }
}

/// Once the width is used up, later items change nothing.
proof fn lemma_cells_rest(items: Seq<Cell>, i: int, j: int, sx: nat, mc: nat)
    requires
        0 <= i <= j <= items.len(),
        cell_layout(items.take(i), sx, mc).2 >= mc || cell_layout(items.take(i), sx, mc).3,
    ensures
        ({
            let a = cell_layout(items.take(j), sx, mc);
            let b = cell_layout(items.take(i), sx, mc);
            a.0 == b.0 && a.1 == b.1 && a.2 == b.2 && (a.2 >= mc || a.3)
        }),
    decreases j - i,
{
    if j > i {
        lemma_cells_rest(items, i, j - 1, sx, mc);
        assert(items.take(j).drop_last() =~= items.take(j - 1));
    }
}

/// Lay out code items into at most `max_content` columns scrolled by
/// `scroll_x`; returns the drawn cells and their count.
pub fn layout_cells(items: &Vec<Cell>, scroll_x: usize, max_content: usize) -> (r: (Vec<Cell>, usize))
    ensures
        r.0@ == cell_layout(items@, scroll_x as nat, max_content as nat).0,
        r.1 == cell_layout(items@, scroll_x as nat, max_content as nat).2,
        r.1 == r.0@.len(),
        r.1 <= max_content,
{
    let ghost sx = scroll_x as nat;
    let ghost mc = max_content as nat;
    let mut out: Vec<Cell> = Vec::new();
    let mut col: u128 = 0;
    let mut vis: usize = 0;
    let mut i: usize = 0;
    assert(items@.take(0) =~= Seq::<Cell>::empty());
    assert(items@.take(items@.len() as int) =~= items@);
    while i < items.len()
        invariant
            i <= items@.len(),
            items@.take(items@.len() as int) == items@,
            sx == scroll_x as nat,
            mc == max_content as nat,
            col <= 8 * i,
            vis <= max_content,
            out@.len() == vis,
            cell_layout(items@.take(i as int), sx, mc) == (out@, col as nat, vis as nat, false),
        ensures
            cell_layout(items@, sx, mc).0 == out@,
            cell_layout(items@, sx, mc).2 == vis,
            out@.len() == vis,
            vis <= max_content,
        decreases items@.len() - i,
    {
        proof {
            assert(items@.take(i + 1).drop_last() =~= items@.take(i as int));
            assert(items@.take(i + 1).last() == items@[i as int]);
        }
        if vis >= max_content {
            proof {
                lemma_cells_rest(items@, i as int, items@.len() as int, sx, mc);
                assert(items@.take(items@.len() as int) =~= items@);
            }
            break;
        }
        let (c2, v2) = step_cell(&mut out, col, vis, items[i], scroll_x, max_content);
        col = c2;
        vis = v2;
        i = i + 1;
    }
    proof {
        if i == items@.len() {
            assert(items@.take(i as int) =~= items@);
        }
    }
    (out, vis)
}

// ---------------------------------------------------------------------------
// Rows of a pane
// ---------------------------------------------------------------------------

/// Columns of the gutter: marker, separator and a four-column line number.
pub const PANE_GUTTER: usize = 6;

/// `s` right-aligned in `w` columns (unchanged when longer).
pub open spec fn pad_left(s: Seq<char>, w: nat) -> Seq<char> {
    if s.len() < w {
        Seq::new((w - s.len()) as nat, |i: int| ' ') + s
    } else {
        s
    }
}

/// The line-number label of a pane line: the 1-based number right-aligned
/// in four columns, or four blanks.
pub open spec fn line_label(l: Option<LineV>) -> Seq<char> {
    match l {
        Some(l) => pad_left(dec(l.line_num + 1), 4),
        None => Seq::new(4, |i: int| ' '),
    }
}

/// Cached highlight spans of line `n`, when the cache has that line.
pub open spec fn cached_line(lines: Seq<Seq<StyledSpan>>, n: nat) -> Option<Seq<StyledSpan>> {
    if n < lines.len() {
        Some(lines[n as int])
    } else {
        None
    }
}

/// The drawn code cells of a row in a pane `mc` columns wide.
pub open spec fn row_code(row: RowV, is_old: bool, lines: Seq<Seq<StyledSpan>>, sx: nat, mc: nat) -> Seq<Cell> {
    match pane_side(row, is_old).0 {
        Some(l) => if l.content.len() == 0 || mc == 0 {
            Seq::empty()
        } else {
            cell_layout(line_items(l.content, cached_line(lines, l.line_num), l.spans), sx, mc).0
        },
        None => Seq::empty(),
    }
}

/// The line-number label of a line.
fn line_label_text(line: Option<&LineRef>) -> (r: String)
    requires
        line matches Some(l) ==> l.line_num < usize::MAX,
    ensures
        r@ == line_label(opt_line(line)),
{
    let mut v: Vec<char> = Vec::new();
    match line {
        None => {
            v.push(' ');
            v.push(' ');
            v.push(' ');
            v.push(' ');
            assert(v@ =~= Seq::new(4, |i: int| ' '));
        },
        Some(l) => {
            let digits = fmt_dec(l.line_num + 1);
            let mut k: usize = digits.len();
            while k < 4
                invariant
                    digits@.len() <= k <= 4 || (k == digits@.len() && k >= 4),
                    v@ == Seq::new((k - digits@.len()) as nat, |i: int| ' '),
                decreases 4 - k,
            {
                v.push(' ');
                k = k + 1;
                assert(v@ =~= Seq::new((k - digits@.len()) as nat, |i: int| ' '));
            }
            push_all(&mut v, digits.as_slice());
            proof {
                if digits@.len() >= 4 {
                    assert(v@ =~= digits@);
                } else {
                    assert(k == 4);
                }
            }
        },
    }
    string_of(v.as_slice())
}

/// The label, background and code cells of a row in a pane `max_content`
/// columns wide.
fn render_row(row: &RenderRow, is_old: bool, highlights: &FileHighlightCache, scroll_x: usize, max_content: usize) -> (r: (String, RowTone, Vec<Cell>))
    requires
        line_ok(row.view().old),
        line_ok(row.view().new),
    ensures
        r.0@ == line_label(pane_side(row.view(), is_old).0),
        r.1 == pane_side(row.view(), is_old).1,
        r.2@ == row_code(row.view(), is_old, highlights.spec_lines(), scroll_x as nat, max_content as nat),
        r.2@.len() <= max_content,
{
    let (line, tone) = side_line(row, is_old);
    let label = line_label_text(line);
    let cells = match line {
        None => Vec::new(),
        Some(l) => {
            if l.content.as_str().is_empty() || max_content == 0 {
                Vec::new()
            } else {
                let cached = highlights.line_spans(l.line_num);
                let inline = match &l.inline_spans {
                    Some(v) => Some(v.as_slice()),
                    None => None,
                };
                let items = code_items(l.content.as_str(), cached, inline);
                let (cells, _) = layout_cells(&items, scroll_x, max_content);
                cells
            }
        },
    };
    (label, tone, cells)
}

/// A row is marked when a commented hunk contains it (in worktree mode).
pub open spec fn row_marked(hunks: Seq<Hunk>, commented: Seq<usize>, worktree: bool, row: int) -> bool {
    worktree && exists|k: int|
        0 <= k < hunks.len() && #[trigger] hunks[k].start_row <= row < hunks[k].start_row + hunks[k].row_count
            && commented.contains(k as usize)
}

/// Whether `x` occurs in `v`.
fn contains_index(v: &[usize], x: usize) -> (r: bool)
    ensures
        r == v@.contains(x),
{
    let mut i: usize = 0;
    while i < v.len()
        invariant
            i <= v@.len(),
            forall|k: int| 0 <= k < i ==> v@[k] != x,
        decreases v@.len() - i,
    {
        if v[i] == x {
            assert(v@[i as int] == x);
            return true;
        }
        i = i + 1;
    }
    false
}

/// Whether row `row` shows a comment marker.
fn row_marker(diff: &DiffResult, commented: &[usize], worktree: bool, row: usize) -> (r: bool)
    ensures
        r == row_marked(diff.spec_hunks(), commented@, worktree, row as int),
{
    if !worktree {
        return false;
    }
    let hs = diff.hunks();
    match diff.hunk_at_row(row) {
        Some(h) => {
            let c = contains_index(commented, h);
            proof {
                let hv = diff.spec_hunks();
                assert(hv[h as int].start_row <= row < hv[h as int].start_row + hv[h as int].row_count);
                if !c {
                    assert forall|k: int|
                        0 <= k < hv.len() && #[trigger] hv[k].start_row <= row < hv[k].start_row + hv[k].row_count
                            implies !commented@.contains(k as usize) by {
                        if k < h {
                            assert(hv[k].start_row + hv[k].row_count <= hv[h as int].start_row);
                        } else if k > h {
                            assert(hv[h as int].start_row + hv[h as int].row_count <= hv[k].start_row);
                        }
                    }
                }
            }
            c
        },
        None => false,
    }
}

/// One line of a pane, as drawn left to right: for the old pane
/// `[left_pad][cells][trailing][marker][separator][label]`, for the new
/// pane `[label][separator][marker][cells][trailing]`.
pub struct PaneLine {
    /// Blank columns before the code (old pane only).
    pub left_pad: usize,
    /// The code cells.
    pub cells: Vec<Cell>,
    /// Blank columns after the code.
    pub trailing: usize,
    /// Background of the line.
    pub tone: RowTone,
    /// Line-number label (four columns).
    pub label: String,
    /// Whether the comment marker shows.
    pub marker: bool,
}

/// A pane line as values.
pub struct PaneLineV {
    pub left_pad: nat,
    pub cells: Seq<Cell>,
    pub trailing: nat,
    pub tone: RowTone,
    pub label: Seq<char>,
    pub marker: bool,
}

impl PaneLine {
    pub open spec fn view(&self) -> PaneLineV {
        PaneLineV {
            left_pad: self.left_pad as nat,
            cells: self.cells@,
            trailing: self.trailing as nat,
            tone: self.tone,
            label: self.label@,
            marker: self.marker,
        }
    }
}

/// View of a list of pane lines.
pub open spec fn lines_view(v: Seq<PaneLine>) -> Seq<PaneLineV> {
    v.map_values(|l: PaneLine| l.view())
}

/// `a - b`, or zero.
pub open spec fn sat_sub(a: nat, b: nat) -> nat {
    if a >= b {
        (a - b) as nat
    } else {
        0
    }
}

/// The widest drawn code among `rows`.
pub open spec fn max_code_width(rows: Seq<RowV>, is_old: bool, lines: Seq<Seq<StyledSpan>>, sx: nat, mc: nat) -> nat
    decreases rows.len(),
{
    if rows.len() == 0 {
        0
    } else {
        let m = max_code_width(rows.drop_last(), is_old, lines, sx, mc);
        let w = row_code(rows.last(), is_old, lines, sx, mc).len();
        if w > m {
            w
        } else {
            m
        }
    }
}

/// The rows a viewport of `height` rows from `start` shows.
pub open spec fn visible_rows(rows: Seq<RowV>, start: nat, height: nat) -> Seq<RowV> {
    let n = rows.len();
    let s = if start <= n { start } else { n };
    let e = if start + height <= n { start + height } else { n };
    rows.subrange(s as int, e as int)
}

/// The code lines of a pane showing `rows`, the first of them at row index
/// `first`. The old pane shifts every line right by the same amount, so
/// that its widest line meets the gutter on the right.
pub open spec fn pane_lines(
    rows: Seq<RowV>,
    first: int,
    hunks: Seq<Hunk>,
    commented: Seq<usize>,
    worktree: bool,
    is_old: bool,
    lines: Seq<Seq<StyledSpan>>,
    sx: nat,
    mc: nat,
) -> Seq<PaneLineV> {
    let pad: nat = if is_old {
        sat_sub(mc, max_code_width(rows, is_old, lines, sx, mc))
    } else {
        0
    };
    Seq::new(
        rows.len(),
        |i: int|
            PaneLineV {
                left_pad: pad,
                cells: row_code(rows[i], is_old, lines, sx, mc),
                trailing: sat_sub(sat_sub(mc, pad), row_code(rows[i], is_old, lines, sx, mc).len()),
                tone: pane_side(rows[i], is_old).1,
                label: line_label(pane_side(rows[i], is_old).0),
                marker: row_marked(hunks, commented, worktree, first + i),
            },
    )
}

/// The sticky line's text: the scope's kind and name.
pub open spec fn sticky_text(s: ScopeV) -> Seq<char> {
    if s.name.len() == 0 {
        s.kind
    } else {
        s.kind + seq![' '] + s.name
    }
}

/// The sticky scope line at the top of a pane.
pub struct StickyLine {
    /// The scope's kind and name.
    pub text: String,
    /// Blank columns before the text (old pane: right-aligned text).
    pub left_pad: usize,
    /// Blank columns after the text (new pane).
    pub trailing: usize,
}

/// What a diff pane draws: an optional sticky scope line, then one line per
/// visible row.
pub struct PaneView {
    pub sticky: Option<StickyLine>,
    pub lines: Vec<PaneLine>,
}

/// The text of the sticky line for a scope.
fn sticky_label(s: &ScopeInfo) -> (r: (String, usize))
    ensures
        r.0@ == sticky_text(s@),
        r.1 == r.0@.len(),
{
    let mut v: Vec<char> = Vec::new();
    push_str(&mut v, s.kind);
    if !s.name.as_str().is_empty() {
        v.push(' ');
        push_str(&mut v, s.name.as_str());
    }
    proof {
        if s.name@.len() == 0 {
            assert(v@ =~= s.kind@);
        } else {
            assert(v@ =~= s.kind@ + seq![' '] + s.name@);
        }
    }
    let len = v.len();
    (string_of(v.as_slice()), len)
}

/// Lay out a diff pane `width` columns wide and `height` rows high, scrolled
/// to row `scroll_y` and column `scroll_x`: the sticky line for `sticky`
/// (when given; it takes one row), and the lines of the visible rows, their
/// code highlighted from `highlights` and marked where a hunk listed in
/// `commented_hunks` contains them (in worktree mode).
pub fn layout_pane(
    diff: &DiffResult,
    highlights: &FileHighlightCache,
    sticky: Option<&ScopeInfo>,
    commented_hunks: &[usize],
    worktree: bool,
    scroll_y: usize,
    scroll_x: usize,
    width: usize,
    height: usize,
    is_old: bool,
) -> (r: PaneView)
    ensures
        ({
            let content_height: nat = if sticky is Some { sat_sub(height as nat, 1) } else { height as nat };
            let mc = sat_sub(width as nat, PANE_GUTTER as nat);
            lines_view(r.lines@) == pane_lines(
                visible_rows(diff.spec_rows(), scroll_y as nat, content_height),
                scroll_y as int,
                diff.spec_hunks(),
                commented_hunks@,
                worktree,
                is_old,
                highlights.spec_lines(),
                scroll_x as nat,
                mc,
            )
        }),
        r.sticky is Some <==> sticky is Some,
        sticky matches Some(s) ==> ({
            let mc = sat_sub(width as nat, PANE_GUTTER as nat);
            let len = sticky_text(s@).len();
            &&& r.sticky->0.text@ == sticky_text(s@)
            &&& r.sticky->0.left_pad == (if is_old { sat_sub(mc, len) } else { 0 })
            &&& r.sticky->0.trailing == (if is_old { 0 } else { sat_sub(mc, len) })
        }),
{
    let content_height: usize = if sticky.is_some() {
        if height >= 1 {
            height - 1
        } else {
            0
        }
    } else {
        height
    };
    let mc: usize = if width >= PANE_GUTTER {
        width - PANE_GUTTER
    } else {
        0
    };
    let ghost lines = highlights.spec_lines();
    let total = diff.row_count();
    let rows = diff.render_rows(scroll_y, content_height);
    let ghost rv = rows_view(rows@);
    assert(rv == visible_rows(diff.spec_rows(), scroll_y as nat, content_height as nat));
    let mut drafts: Vec<PaneLine> = Vec::new();
    let mut max_w: usize = 0;
    let mut i: usize = 0;
    while i < rows.len()
        invariant
            i <= rows@.len(),
            rv == rows_view(rows@),
            rows_lines_bounded(rv),
            lines == highlights.spec_lines(),
            total == diff.spec_rows().len(),
            rows@.len() > 0 ==> scroll_y + rows@.len() <= total,
            drafts@.len() == i,
            max_w == max_code_width(rv.take(i as int), is_old, lines, scroll_x as nat, mc as nat),
            max_w <= mc,
            forall|k: int| 0 <= k < i ==> {
                let d = #[trigger] drafts@[k];
                &&& d.cells@ == row_code(rv[k], is_old, lines, scroll_x as nat, mc as nat)
                &&& d.tone == pane_side(rv[k], is_old).1
                &&& d.label@ == line_label(pane_side(rv[k], is_old).0)
                &&& d.marker == row_marked(diff.spec_hunks(), commented_hunks@, worktree, scroll_y + k)
            },
        decreases rows@.len() - i,
    {
        assert(rv[i as int] == rows@[i as int].view());
        assert(line_ok(rv[i as int].old) && line_ok(rv[i as int].new));
        let (label, tone, cells) = render_row(&rows[i], is_old, highlights, scroll_x, mc);
        let marker = row_marker(diff, commented_hunks, worktree, scroll_y + i);
        let w = cells.len();
        proof {
            assert(rv.take(i + 1).drop_last() =~= rv.take(i as int));
            assert(rv.take(i + 1).last() == rv[i as int]);
        }
        if w > max_w {
            max_w = w;
        }
        drafts.push(PaneLine { left_pad: 0, cells, trailing: 0, tone, label, marker });
        i = i + 1;
    }
    assert(rv.take(rv.len() as int) =~= rv);
    let pad: usize = if is_old {
        mc - max_w
    } else {
        0
    };
    let ghost target = pane_lines(rv, scroll_y as int, diff.spec_hunks(), commented_hunks@, worktree, is_old, lines, scroll_x as nat, mc as nat);
    let mut out: Vec<PaneLine> = Vec::new();
    let mut j: usize = 0;
    let n = drafts.len();
    while j < n
        invariant
            j <= n,
            n == rv.len(),
            drafts@.len() == n - j,
            target == pane_lines(rv, scroll_y as int, diff.spec_hunks(), commented_hunks@, worktree, is_old, lines, scroll_x as nat, mc as nat),
            pad == (if is_old { sat_sub(mc as nat, max_code_width(rv, is_old, lines, scroll_x as nat, mc as nat)) } else { 0 }),
            pad <= mc,
            forall|k: int| 0 <= k < n - j ==> {
                let d = #[trigger] drafts@[k];
                &&& d.cells@ == row_code(rv[j + k], is_old, lines, scroll_x as nat, mc as nat)
                &&& d.tone == pane_side(rv[j + k], is_old).1
                &&& d.label@ == line_label(pane_side(rv[j + k], is_old).0)
                &&& d.marker == row_marked(diff.spec_hunks(), commented_hunks@, worktree, scroll_y + j + k)
            },
            lines_view(out@) == target.take(j as int),
        decreases n - j,
    {
        let ghost d0 = drafts@;
        let mut line = drafts.remove(0);
        assert(line == d0[0]);
        let w = line.cells.len();
        let after_pad = mc - pad;
        line.left_pad = pad;
        line.trailing = if after_pad >= w {
            after_pad - w
        } else {
            0
        };
        proof {
            assert forall|k: int| 0 <= k < n - (j + 1) implies #[trigger] drafts@[k] == d0[k + 1] by {}
            assert(line.view() == target[j as int]);
            assert(target.take(j + 1) =~= target.take(j as int).push(target[j as int]));
        }
        out.push(line);
        assert(lines_view(out@) =~= target.take(j + 1));
        j = j + 1;
    }
    assert(target.take(n as int) =~= target);
    let sticky_line = match sticky {
        None => None,
        Some(s) => {
            let (text, len) = sticky_label(s);
            let room: usize = if mc >= len {
                mc - len
            } else {
                0
            };
            if is_old {
                Some(StickyLine { text, left_pad: room, trailing: 0 })
            } else {
                Some(StickyLine { text, left_pad: 0, trailing: room })
            }
        },
    };
    PaneView { sticky: sticky_line, lines: out }
}

/// Scope `s` spans line `line`.
pub open spec fn spans_line(s: ScopeInfo, line: nat) -> bool {
    s.start_line <= line <= s.end_line
}

/// Scope `k` is the innermost scope containing `line`: among those
/// containing it, the first spanning the fewest lines.
pub open spec fn is_innermost(scopes: Seq<ScopeInfo>, line: nat, k: int) -> bool {
    &&& 0 <= k < scopes.len()
    &&& spans_line(scopes[k], line)
    &&& forall|j: int|
        0 <= j < scopes.len() && #[trigger] spans_line(scopes[j], line) ==> scopes[k].end_line
            - scopes[k].start_line <= scopes[j].end_line - scopes[j].start_line
    &&& forall|j: int|
        0 <= j < k && #[trigger] spans_line(scopes[j], line) ==> scopes[k].end_line - scopes[k].start_line
            < scopes[j].end_line - scopes[j].start_line
}

/// At most one scope is innermost.
pub proof fn lemma_innermost_unique(scopes: Seq<ScopeInfo>, line: nat, a: int, b: int)
    requires
        is_innermost(scopes, line, a),
        is_innermost(scopes, line, b),
    ensures
        a == b,
{
    if a < b {
        assert(spans_line(scopes[a], line));
    } else if b < a {
        assert(spans_line(scopes[b], line));
    }
}

/// The line number a pane shows in row `row`, when it shows one there.
pub open spec fn side_line_num(rows: Seq<RowV>, row: nat, is_old: bool) -> Option<nat> {
    if row < rows.len() {
        let l = if is_old {
            rows[row as int].old
        } else {
            rows[row as int].new
        };
        match l {
            Some(l) => Some(l.line_num),
            None => None,
        }
    } else {
        None
    }
}

/// The scope to pin at the top of a pane scrolled to row `scroll_y`: the
/// innermost scope around the first shown line of this side, once that line
/// is past the scope's first line.
pub fn sticky_scope<'a>(diff: &DiffResult, scopes: &'a [ScopeInfo], scroll_y: usize, is_old: bool) -> (r: Option<&'a ScopeInfo>)
    ensures
        r matches Some(s) ==> ({
            let line = side_line_num(diff.spec_rows(), scroll_y as nat, is_old);
            &&& line is Some
            &&& exists|k: int| is_innermost(scopes@, line->0, k) && scopes@[k] == *s
            &&& line->0 > s.start_line
        }),
        r is None <==> ({
            let line = side_line_num(diff.spec_rows(), scroll_y as nat, is_old);
            ||| line is None
            ||| forall|k: int| #[trigger] is_innermost(scopes@, line->0, k) ==> line->0 <= scopes@[k].start_line
        }),
{
    let first = diff.render_rows(scroll_y, 1);
    assert(rows_view(first@).len() == first@.len());
    if first.len() == 0 {
        assert(side_line_num(diff.spec_rows(), scroll_y as nat, is_old) is None);
        return None;
    }
    assert(rows_view(first@)[0] == first@[0].view());
    assert(diff.spec_rows()[scroll_y as int] == rows_view(first@)[0]);
    let side = if is_old {
        &first[0].old
    } else {
        &first[0].new
    };
    let line_num = match side {
        Some(l) => l.line_num,
        None => {
            return None;
        },
    };
    let ghost line = side_line_num(diff.spec_rows(), scroll_y as nat, is_old);
    assert(line == Some(line_num as nat));
    match find_enclosing_scope(scopes, line_num) {
        None => {
            assert forall|k: int| #[trigger] is_innermost(scopes@, line_num as nat, k) implies line_num <= scopes@[k].start_line by {
                assert(!scope_contains(scopes@[k], line_num));
            }
            None
        },
        Some(scope) => {
            let ghost k0 = choose|k: int|
                0 <= k < scopes@.len() && scopes@[k] == *scope && scope_contains(*scope, line_num) && (forall|j: int|
                    0 <= j < scopes@.len() && scope_contains(scopes@[j], line_num) ==> scope.end_line
                        - scope.start_line <= scopes@[j].end_line - scopes@[j].start_line) && (forall|j: int|
                    0 <= j < k && scope_contains(scopes@[j], line_num) ==> scope.end_line - scope.start_line
                        < scopes@[j].end_line - scopes@[j].start_line);
            assert forall|j: int| 0 <= j < scopes@.len() && #[trigger] spans_line(scopes@[j], line_num as nat) implies scope_contains(scopes@[j], line_num) by {}
            assert(is_innermost(scopes@, line_num as nat, k0));
            if line_num > scope.start_line {
                Some(scope)
            } else {
                assert forall|k: int| #[trigger] is_innermost(scopes@, line_num as nat, k) implies line_num <= scopes@[k].start_line by {
                    lemma_innermost_unique(scopes@, line_num as nat, k, k0);
                }
                None
            }
        },
    }
}

/// A layout draws one cell per used column, never more than the width.
pub proof fn lemma_cell_layout_width(items: Seq<Cell>, sx: nat, mc: nat)
    ensures
        cell_layout(items, sx, mc).0.len() == cell_layout(items, sx, mc).2,
        cell_layout(items, sx, mc).2 <= mc,
    decreases items.len(),
{
    if items.len() > 0 {
        lemma_cell_layout_width(items.drop_last(), sx, mc);
    }
}

/// No row's code is wider than the pane.
pub proof fn lemma_row_code_width(row: RowV, is_old: bool, lines: Seq<Seq<StyledSpan>>, sx: nat, mc: nat)
    ensures
        row_code(row, is_old, lines, sx, mc).len() <= mc,
{
    match pane_side(row, is_old).0 {
        Some(l) => {
            lemma_cell_layout_width(line_items(l.content, cached_line(lines, l.line_num), l.spans), sx, mc);
        },
        None => {},
    }
}

/// The widest code bounds every row's code and fits the pane.
pub proof fn lemma_max_code_width(rows: Seq<RowV>, is_old: bool, lines: Seq<Seq<StyledSpan>>, sx: nat, mc: nat)
    ensures
        max_code_width(rows, is_old, lines, sx, mc) <= mc,
        forall|i: int| 0 <= i < rows.len() ==> #[trigger] row_code(rows[i], is_old, lines, sx, mc).len()
            <= max_code_width(rows, is_old, lines, sx, mc),
    decreases rows.len(),
{
    if rows.len() > 0 {
        lemma_max_code_width(rows.drop_last(), is_old, lines, sx, mc);
        lemma_row_code_width(rows.last(), is_old, lines, sx, mc);
        assert forall|i: int| 0 <= i < rows.len() implies #[trigger] row_code(rows[i], is_old, lines, sx, mc).len()
            <= max_code_width(rows, is_old, lines, sx, mc) by {
            if i < rows.len() - 1 {
                assert(rows[i] == rows.drop_last()[i]);
            }
        }
    }
}

/// Every line of a pane fills exactly the pane's code width: its padding,
/// code and trailing blanks add up to `mc` columns; and the old pane shifts
/// all its lines by the same amount.
pub proof fn lemma_pane_lines_fill_width(
    rows: Seq<RowV>,
    first: int,
    hunks: Seq<Hunk>,
    commented: Seq<usize>,
    worktree: bool,
    is_old: bool,
    lines: Seq<Seq<StyledSpan>>,
    sx: nat,
    mc: nat,
)
    ensures
        ({
            let p = pane_lines(rows, first, hunks, commented, worktree, is_old, lines, sx, mc);
            &&& p.len() == rows.len()
            &&& forall|i: int| 0 <= i < p.len() ==> #[trigger] p[i].left_pad + p[i].cells.len() + p[i].trailing == mc
            &&& forall|i: int, j: int| 0 <= i < p.len() && 0 <= j < p.len() ==> #[trigger] p[i].left_pad == #[trigger] p[j].left_pad
            &&& !is_old ==> forall|i: int| 0 <= i < p.len() ==> #[trigger] p[i].left_pad == 0
        }),
{
    lemma_max_code_width(rows, is_old, lines, sx, mc);
    let p = pane_lines(rows, first, hunks, commented, worktree, is_old, lines, sx, mc);
    assert forall|i: int| 0 <= i < p.len() implies #[trigger] p[i].left_pad + p[i].cells.len() + p[i].trailing == mc by {
        assert(row_code(rows[i], is_old, lines, sx, mc).len() <= max_code_width(rows, is_old, lines, sx, mc));
    }
}

// ---------------------------------------------------------------------------
// The diff area
// ---------------------------------------------------------------------------

/// Narrowest diff area that shows both panes side by side.
pub const MIN_SPLIT_DIFF_WIDTH: u16 = 72;

/// The pane layout used at a width: side by side needs room, else the pane
/// that has content (the old one for a deleted file, the new one otherwise).
pub open spec fn effective_mode(mode: DiffPaneMode, width: u16, kind: Option<FileChangeKind>) -> DiffPaneMode {
    if mode != DiffPaneMode::Both || width >= MIN_SPLIT_DIFF_WIDTH {
        mode
    } else if kind == Some(FileChangeKind::Deleted) {
        DiffPaneMode::OldOnly
    } else {
        DiffPaneMode::NewOnly
    }
}

/// The pane layout used for the selected file's `kind` at `width`.
pub fn effective_pane_mode(mode: DiffPaneMode, width: u16, kind: Option<FileChangeKind>) -> (r: DiffPaneMode)
    ensures
        r == effective_mode(mode, width, kind),
{
    if mode != DiffPaneMode::Both || width >= MIN_SPLIT_DIFF_WIDTH {
        return mode;
    }
    match kind {
        Some(FileChangeKind::Deleted) => DiffPaneMode::OldOnly,
        _ => DiffPaneMode::NewOnly,
    }
}

/// The title of the diff area for a layout.
pub open spec fn diff_title_text(mode: DiffPaneMode) -> Seq<char> {
    match mode {
        DiffPaneMode::Both => " Diff "@,
        DiffPaneMode::OldOnly => " Diff (old only) "@,
        DiffPaneMode::NewOnly => " Diff (new only) "@,
    }
}

/// The title of the diff area.
pub fn diff_title(mode: DiffPaneMode) -> (r: &'static str)
    ensures
        r@ == diff_title_text(mode),
{
    match mode {
        DiffPaneMode::Both => " Diff ",
        DiffPaneMode::OldOnly => " Diff (old only) ",
        DiffPaneMode::NewOnly => " Diff (new only) ",
    }
}

/// What the diff area says instead of showing panes, if anything: while
/// loading, for a binary file, with no diff, or when nothing changed.
pub open spec fn state_card(loading: bool, binary: bool, diff: Option<Seq<RowV>>) -> Option<(Seq<char>, Seq<char>)> {
    if loading {
        Some(("Loading diff\u{2026}"@, "Preparing file contents"@))
    } else if binary {
        Some(("Binary file"@, "quickdiff cannot display binary contents"@))
    } else if diff is None {
        Some(("No diff selected"@, "Choose a file from the sidebar"@))
    } else if diff->0.len() == 0 || forall|i: int| 0 <= i < diff->0.len() ==> #[trigger] diff->0[i].kind == ChangeKind::Equal {
        Some(("Files are identical"@, "No changed rows to display"@))
    } else {
        None
    }
}

/// The card the diff area shows instead of panes, as title and hint.
pub fn diff_state_card(loading: bool, binary: bool, diff: Option<&DiffResult>) -> (r: Option<(&'static str, &'static str)>)
    ensures
        match r {
            Some(c) => state_card(loading, binary, match diff {
                Some(d) => Some(d.spec_rows()),
                None => None,
            }) == Some((c.0@, c.1@)),
            None => state_card(loading, binary, match diff {
                Some(d) => Some(d.spec_rows()),
                None => None,
            }) is None,
        },
{
    if loading {
        return Some(("Loading diff\u{2026}", "Preparing file contents"));
    }
    if binary {
        return Some(("Binary file", "quickdiff cannot display binary contents"));
    }
    match diff {
        None => Some(("No diff selected", "Choose a file from the sidebar")),
        Some(d) => {
            if d.row_count() == 0 || !d.has_changes() {
                Some(("Files are identical", "No changed rows to display"))
            } else {
                None
            }
        },
    }
}

} // verus!
