//! Diff model and hunk navigation.
//!
//! The line-level and word-level diff algorithms come from `similar`; this
//! module turns their change lists into paired render rows, inline spans and
//! hunks, and answers navigation queries over them.

use vstd::prelude::*;

use crate::strings::{
    byte_len, byte_len_capped, chars_of, is_whitespace_char, is_ws, lemma_byte_len_bounds,
    lemma_byte_len_concat, lemma_byte_len_push, trim, trim_chars, trim_end, trim_start,
};
use crate::text::{line_count_of, line_of, utf8_lossy, TextBuffer};

verus! {

// ===========================================================================
// Public data types
// ===========================================================================

/// A span within a line indicating changed/unchanged regions.
#[derive(Debug, Clone, Copy, PartialEq, Eq)]
pub struct InlineSpan {
    /// Byte start offset in the line.
    pub start: usize,
    /// Byte end offset in the line.
    pub end: usize,
    /// Whether this span represents changed content.
    pub changed: bool,
}

/// A single line reference in the diff.
#[derive(Debug, PartialEq, Eq)]
pub struct LineRef {
    /// Original line number (0-indexed).
    pub line_num: usize,
    /// The line content (without trailing newline).
    pub content: String,
    /// Inline diff spans for word-level highlighting (only for Replace rows).
    pub inline_spans: Option<Vec<InlineSpan>>,
}

/// Kind of change for a render row.
#[derive(Debug, Clone, Copy, PartialEq, Eq, Structural)]
pub enum ChangeKind {
    /// Both sides are equal.
    Equal,
    /// Line was deleted from old (no corresponding new line).
    Delete,
    /// Line was inserted in new (no corresponding old line).
    Insert,
    /// Line was replaced (both old and new present, but different).
    Replace,
}

/// A single row in the rendered diff view.
/// Maps to 0..1 old line + 0..1 new line.
#[derive(Debug, PartialEq, Eq)]
pub struct RenderRow {
    /// Line from the old file (if any).
    pub old: Option<LineRef>,
    /// Line from the new file (if any).
    pub new: Option<LineRef>,
    /// The kind of change.
    pub kind: ChangeKind,
}

/// A hunk is a contiguous block of changes with context.
#[derive(Debug, Clone, Copy, PartialEq, Eq)]
pub struct Hunk {
    /// Start row index in the render rows.
    pub start_row: usize,
    /// Number of rows in this hunk (including context).
    pub row_count: usize,
    /// Old file line range (start, count).
    pub old_range: (usize, usize),
    /// New file line range (start, count).
    pub new_range: (usize, usize),
}

/// Tag of one element of a change list between two sequences.
#[derive(Debug, Clone, Copy, PartialEq, Eq, Structural)]
pub enum DiffTag {
    /// Present in both sequences.
    Equal,
    /// Present only in the old sequence.
    Delete,
    /// Present only in the new sequence.
    Insert,
}

// ===========================================================================
// Mathematical model
// ===========================================================================

/// A line of one side of a row, as a mathematical value.
pub struct LineV {
    pub line_num: nat,
    pub content: Seq<char>,
    pub spans: Option<Seq<InlineSpan>>,
}

/// A render row as a mathematical value.
pub struct RowV {
    pub old: Option<LineV>,
    pub new: Option<LineV>,
    pub kind: ChangeKind,
}

/// One element of the line-level change list, numbered.
pub enum ChangeV {
    Equal { old_line: nat, new_line: nat, content: Seq<char> },
    Delete { old_line: nat, content: Seq<char> },
    Insert { new_line: nat, content: Seq<char> },
}

impl LineRef {
    pub open spec fn view(&self) -> LineV {
        LineV {
            line_num: self.line_num as nat,
            content: self.content@,
            spans: match self.inline_spans {
                Some(v) => Some(v@),
                None => None,
            },
        }
    }
}

impl RenderRow {
    pub open spec fn view(&self) -> RowV {
        RowV {
            old: match self.old {
                Some(l) => Some(l.view()),
                None => None,
            },
            new: match self.new {
                Some(l) => Some(l.view()),
                None => None,
            },
            kind: self.kind,
        }
    }
}

/// Views of a sequence of render rows.
pub open spec fn rows_view(rows: Seq<RenderRow>) -> Seq<RowV> {
    rows.map_values(|r: RenderRow| r.view())
}

/// Views of a change list whose values are `String`s.
pub open spec fn ops_view(ops: Seq<(DiffTag, String)>) -> Seq<(DiffTag, Seq<char>)> {
    ops.map_values(|p: (DiffTag, String)| (p.0, p.1@))
}

/// Views of a sequence of `String`s.
pub open spec fn strs_view(v: Seq<String>) -> Seq<Seq<char>> {
    v.map_values(|s: String| s@)
}

/// The old side of a change list: values of `Equal` and `Delete` entries, in order.
pub open spec fn old_side(ops: Seq<(DiffTag, Seq<char>)>) -> Seq<Seq<char>>
    decreases ops.len(),
{
    if ops.len() == 0 {
        Seq::empty()
    } else if ops.last().0 != DiffTag::Insert {
        old_side(ops.drop_last()).push(ops.last().1)
    } else {
        old_side(ops.drop_last())
    }
}

/// The new side of a change list: values of `Equal` and `Insert` entries, in order.
pub open spec fn new_side(ops: Seq<(DiffTag, Seq<char>)>) -> Seq<Seq<char>>
    decreases ops.len(),
{
    if ops.len() == 0 {
        Seq::empty()
    } else if ops.last().0 != DiffTag::Delete {
        new_side(ops.drop_last()).push(ops.last().1)
    } else {
        new_side(ops.drop_last())
    }
}

/// Concatenation of the old-side values of a change list.
pub open spec fn old_text(ops: Seq<(DiffTag, Seq<char>)>) -> Seq<char>
    decreases ops.len(),
{
    if ops.len() == 0 {
        Seq::empty()
    } else if ops.last().0 != DiffTag::Insert {
        old_text(ops.drop_last()) + ops.last().1
    } else {
        old_text(ops.drop_last())
    }
}

/// Concatenation of the new-side values of a change list.
pub open spec fn new_text(ops: Seq<(DiffTag, Seq<char>)>) -> Seq<char>
    decreases ops.len(),
{
    if ops.len() == 0 {
        Seq::empty()
    } else if ops.last().0 != DiffTag::Delete {
        new_text(ops.drop_last()) + ops.last().1
    } else {
        new_text(ops.drop_last())
    }
}

/// Result of `similar`'s line diff (Myers, no deadline) over two line lists.
pub uninterp spec fn line_diff(old: Seq<Seq<char>>, new: Seq<Seq<char>>) -> Seq<(DiffTag, Seq<char>)>;

/// Result of `similar`'s Unicode word diff (Myers, no deadline) over two lines.
pub uninterp spec fn word_diff(old: Seq<char>, new: Seq<char>) -> Seq<(DiffTag, Seq<char>)>;

/// `similar::TextDiff::from_slices(old, new).iter_all_changes()`, as
/// (tag, value) pairs. The contract names the result and states what
/// `iter_all_changes` documents for every diff: the `Equal`/`Delete`
/// values are the old lines in order, the `Equal`/`Insert` values are the
/// new lines in order, and equal inputs (stripped as a common prefix by the
/// algorithm) give only `Equal` entries.
#[verifier::external_body]
fn similar_line_changes(old: &Vec<String>, new: &Vec<String>) -> (r: Vec<(DiffTag, String)>)
    ensures
        ops_view(r@) == line_diff(strs_view(old@), strs_view(new@)),
        old_side(ops_view(r@)) == strs_view(old@),
        new_side(ops_view(r@)) == strs_view(new@),
        strs_view(old@) == strs_view(new@) ==> forall|k: int|
            0 <= k < r@.len() ==> (#[trigger] r@[k]).0 == DiffTag::Equal,
{
    let old_refs: Vec<&str> = old.iter().map(|s| s.as_str()).collect();
    let new_refs: Vec<&str> = new.iter().map(|s| s.as_str()).collect();
    let diff = similar::TextDiff::from_slices(&old_refs, &new_refs);
    diff.iter_all_changes().map(|c| (match c.tag() {
        similar::ChangeTag::Equal => DiffTag::Equal,
        similar::ChangeTag::Delete => DiffTag::Delete,
        similar::ChangeTag::Insert => DiffTag::Insert,
    }, c.value().to_string())).collect()
}

/// `similar::TextDiff::configure().diff_unicode_words(old, new).iter_all_changes()`,
/// as (tag, value) pairs. The contract names the result and states that the
/// old-side values concatenate to `old` and the new-side values to `new`.
#[verifier::external_body]
fn similar_word_changes(old: &str, new: &str) -> (r: Vec<(DiffTag, String)>)
    ensures
        ops_view(r@) == word_diff(old@, new@),
        old_text(ops_view(r@)) == old@,
        new_text(ops_view(r@)) == new@,
{
    let diff = similar::TextDiff::configure().diff_unicode_words(old, new);
    diff.iter_all_changes().map(|c| (match c.tag() {
        similar::ChangeTag::Equal => DiffTag::Equal,
        similar::ChangeTag::Delete => DiffTag::Delete,
        similar::ChangeTag::Insert => DiffTag::Insert,
    }, c.value().to_string())).collect()
}

// ---------------------------------------------------------------------------
// Numbering and pairing
// ---------------------------------------------------------------------------

/// Number the entries of a change list: old/new line counters start at
/// `o`/`n` and advance on the sides an entry belongs to.
pub open spec fn changes_from(ops: Seq<(DiffTag, Seq<char>)>, o: nat, n: nat) -> Seq<ChangeV>
    decreases ops.len(),
{
    if ops.len() == 0 {
        Seq::empty()
    } else {
        let (tag, c) = ops[0];
        let rest = ops.drop_first();
        match tag {
            DiffTag::Equal => seq![ChangeV::Equal { old_line: o, new_line: n, content: c }]
                + changes_from(rest, o + 1, n + 1),
            DiffTag::Delete => seq![ChangeV::Delete { old_line: o, content: c }] + changes_from(rest, o + 1, n),
            DiffTag::Insert => seq![ChangeV::Insert { new_line: n, content: c }] + changes_from(rest, o, n + 1),
        }
    }
}

/// Index of the first `Equal` change at or after `i` (or the length).
pub open spec fn run_end(cs: Seq<ChangeV>, i: int) -> int
    decreases cs.len() - i,
{
    if i >= cs.len() {
        cs.len() as int
    } else if cs[i] is Equal {
        i
    } else {
        run_end(cs, i + 1)
    }
}

/// The deletions among `cs[i..j]`, as (old line, content), in order.
pub open spec fn deletes_in(cs: Seq<ChangeV>, i: int, j: int) -> Seq<(nat, Seq<char>)>
    decreases j - i,
{
    if j <= i {
        Seq::empty()
    } else {
        match cs[j - 1] {
            ChangeV::Delete { old_line, content } => deletes_in(cs, i, j - 1).push((old_line, content)),
            _ => deletes_in(cs, i, j - 1),
        }
    }
}

/// The insertions among `cs[i..j]`, as (new line, content), in order.
pub open spec fn inserts_in(cs: Seq<ChangeV>, i: int, j: int) -> Seq<(nat, Seq<char>)>
    decreases j - i,
{
    if j <= i {
        Seq::empty()
    } else {
        match cs[j - 1] {
            ChangeV::Insert { new_line, content } => inserts_in(cs, i, j - 1).push((new_line, content)),
            _ => inserts_in(cs, i, j - 1),
        }
    }
}

/// A plain line with no inline spans.
pub open spec fn plain_line(n: nat, c: Seq<char>) -> LineV {
    LineV { line_num: n, content: c, spans: None }
}

/// Row `k` of a paired run: the `k`-th deletion beside the `k`-th insertion.
pub open spec fn paired_row(ds: Seq<(nat, Seq<char>)>, is: Seq<(nat, Seq<char>)>, k: int) -> RowV {
    if k < ds.len() && k < is.len() {
        let sp = inline_spans_spec(ds[k].1, is[k].1);
        RowV {
            old: Some(LineV { line_num: ds[k].0, content: ds[k].1, spans: sp.0 }),
            new: Some(LineV { line_num: is[k].0, content: is[k].1, spans: sp.1 }),
            kind: ChangeKind::Replace,
        }
    } else if k < ds.len() {
        RowV { old: Some(plain_line(ds[k].0, ds[k].1)), new: None, kind: ChangeKind::Delete }
    } else {
        RowV { old: None, new: Some(plain_line(is[k].0, is[k].1)), kind: ChangeKind::Insert }
    }
}

/// Rows for one run of deletions and insertions: positional pairing.
pub open spec fn paired_rows(ds: Seq<(nat, Seq<char>)>, is: Seq<(nat, Seq<char>)>) -> Seq<RowV> {
    let m = if ds.len() >= is.len() { ds.len() } else { is.len() };
    Seq::new(m, |k: int| paired_row(ds, is, k))
}

/// Render rows for `cs[i..]`: an `Equal` change gives an `Equal` row; a
/// maximal run of deletions and insertions gives its paired rows.
pub open spec fn rows_from(cs: Seq<ChangeV>, i: int) -> Seq<RowV>
    decreases cs.len() - i,
{
    if i < 0 || i >= cs.len() {
        Seq::empty()
    } else {
        match cs[i] {
            ChangeV::Equal { old_line, new_line, content } => seq![RowV {
                old: Some(plain_line(old_line, content)),
                new: Some(plain_line(new_line, content)),
                kind: ChangeKind::Equal,
            }] + rows_from(cs, i + 1),
            _ => {
                let j = run_end(cs, i + 1);
                if j <= i || j > cs.len() {
                    Seq::empty()
                } else {
                    paired_rows(deletes_in(cs, i, j), inserts_in(cs, i, j)) + rows_from(cs, j)
                }
            },
        }
    }
}

/// The render rows of a diff between two line lists.
pub open spec fn diff_rows(old: Seq<Seq<char>>, new: Seq<Seq<char>>) -> Seq<RowV> {
    rows_from(changes_from(line_diff(old, new), 0, 0), 0)
}

// ---------------------------------------------------------------------------
// Inline (word-level) spans
// ---------------------------------------------------------------------------

/// Max line length (bytes) for computing an inline diff.
pub const MAX_INLINE_DIFF_LEN: usize = 500;

/// Some character of `s` is not white space.
pub open spec fn meaningful(s: Seq<char>) -> bool {
    exists|i: int| 0 <= i < s.len() && !is_ws(s[i])
}

/// Spans of the old side of a word change list, at byte offsets.
pub open spec fn old_spans(ops: Seq<(DiffTag, Seq<char>)>) -> Seq<InlineSpan>
    decreases ops.len(),
{
    if ops.len() == 0 {
        Seq::empty()
    } else {
        let pos = byte_len(old_text(ops.drop_last()));
        let (tag, v) = ops.last();
        let sp = InlineSpan {
            start: pos as usize,
            end: (pos + byte_len(v)) as usize,
            changed: tag == DiffTag::Delete,
        };
        if tag != DiffTag::Insert {
            old_spans(ops.drop_last()).push(sp)
        } else {
            old_spans(ops.drop_last())
        }
    }
}

/// Spans of the new side of a word change list, at byte offsets.
pub open spec fn new_spans(ops: Seq<(DiffTag, Seq<char>)>) -> Seq<InlineSpan>
    decreases ops.len(),
{
    if ops.len() == 0 {
        Seq::empty()
    } else {
        let pos = byte_len(new_text(ops.drop_last()));
        let (tag, v) = ops.last();
        let sp = InlineSpan {
            start: pos as usize,
            end: (pos + byte_len(v)) as usize,
            changed: tag == DiffTag::Insert,
        };
        if tag != DiffTag::Delete {
            new_spans(ops.drop_last()).push(sp)
        } else {
            new_spans(ops.drop_last())
        }
    }
}

/// Bytes of unchanged, non-blank content: the trimmed byte length of each
/// `Equal` entry that holds a non-white-space character.
pub open spec fn unchanged_len(ops: Seq<(DiffTag, Seq<char>)>) -> nat
    decreases ops.len(),
{
    if ops.len() == 0 {
        0
    } else {
        let (tag, v) = ops.last();
        unchanged_len(ops.drop_last()) + if tag == DiffTag::Equal && meaningful(v) {
            byte_len(trim(v))
        } else {
            0
        }
    }
}

/// Merge `spans[i..]` into the open span `cur`: a span that continues `cur`
/// (same `changed`, starting where `cur` ends) extends it.
pub open spec fn merge_from(spans: Seq<InlineSpan>, i: int, cur: InlineSpan) -> Seq<InlineSpan>
    decreases spans.len() - i,
{
    if i >= spans.len() {
        seq![cur]
    } else if spans[i].changed == cur.changed && spans[i].start == cur.end {
        merge_from(spans, i + 1, InlineSpan { start: cur.start, end: spans[i].end, changed: cur.changed })
    } else {
        seq![cur] + merge_from(spans, i + 1, spans[i])
    }
}

/// Adjacent spans with the same `changed` status merged.
pub open spec fn merged(spans: Seq<InlineSpan>) -> Seq<InlineSpan> {
    if spans.len() == 0 {
        Seq::empty()
    } else {
        merge_from(spans, 1, spans[0])
    }
}

/// `sp` tiles the bytes `0..len` in order: each span starts where the one
/// before it ends, the first at 0 and the last at `len` (no spans only for
/// an empty line).
pub open spec fn tiles(sp: Seq<InlineSpan>, len: nat) -> bool {
    &&& sp.len() == 0 ==> len == 0
    &&& sp.len() > 0 ==> sp[0].start == 0 && sp.last().end == len
    &&& forall|k: int| 0 <= k < sp.len() ==> (#[trigger] sp[k]).start <= sp[k].end
    &&& forall|k: int| 0 <= k < sp.len() - 1 ==> (#[trigger] sp[k]).end == sp[k + 1].start
}

/// Neighbouring spans differ in whether they are changed.
pub open spec fn alternating(sp: Seq<InlineSpan>) -> bool {
    forall|k: int| 0 <= k < sp.len() - 1 ==> (#[trigger] sp[k]).changed != sp[k + 1].changed
}

/// The old-side spans of a change list tile its old text.
proof fn lemma_old_spans_tile(ops: Seq<(DiffTag, Seq<char>)>)
    requires
        byte_len(old_text(ops)) <= usize::MAX,
    ensures
        tiles(old_spans(ops), byte_len(old_text(ops))),
    decreases ops.len(),
{
    if ops.len() > 0 {
        let pre = ops.drop_last();
        let v = ops.last().1;
        if ops.last().0 != DiffTag::Insert {
            lemma_byte_len_concat(old_text(pre), v);
        }
        lemma_old_spans_tile(pre);
        let a = old_spans(pre);
        let r = old_spans(ops);
        if ops.last().0 != DiffTag::Insert {
            assert forall|k: int| 0 <= k < r.len() - 1 implies (#[trigger] r[k]).end == r[k + 1].start by {
                if k < a.len() - 1 {
                    assert(r[k] == a[k] && r[k + 1] == a[k + 1]);
                }
            }
            assert forall|k: int| 0 <= k < r.len() implies (#[trigger] r[k]).start <= r[k].end by {
                if k < a.len() {
                    assert(r[k] == a[k]);
                }
            }
        }
    }
}

/// The new-side spans of a change list tile its new text.
proof fn lemma_new_spans_tile(ops: Seq<(DiffTag, Seq<char>)>)
    requires
        byte_len(new_text(ops)) <= usize::MAX,
    ensures
        tiles(new_spans(ops), byte_len(new_text(ops))),
    decreases ops.len(),
{
    if ops.len() > 0 {
        let pre = ops.drop_last();
        let v = ops.last().1;
        if ops.last().0 != DiffTag::Delete {
            lemma_byte_len_concat(new_text(pre), v);
        }
        lemma_new_spans_tile(pre);
        let a = new_spans(pre);
        let r = new_spans(ops);
        if ops.last().0 != DiffTag::Delete {
            assert forall|k: int| 0 <= k < r.len() - 1 implies (#[trigger] r[k]).end == r[k + 1].start by {
                if k < a.len() - 1 {
                    assert(r[k] == a[k] && r[k + 1] == a[k + 1]);
                }
            }
            assert forall|k: int| 0 <= k < r.len() implies (#[trigger] r[k]).start <= r[k].end by {
                if k < a.len() {
                    assert(r[k] == a[k]);
                }
            }
        }
    }
}

/// Merging spans that continue each other keeps the tiling, and leaves
/// neighbours that differ in `changed`.
proof fn lemma_merge_from_tiles(spans: Seq<InlineSpan>, i: int, cur: InlineSpan)
    requires
        1 <= i <= spans.len(),
        cur.start <= cur.end,
        i < spans.len() ==> spans[i].start == cur.end,
        forall|k: int| i <= k < spans.len() ==> (#[trigger] spans[k]).start <= spans[k].end,
        forall|k: int| i <= k < spans.len() - 1 ==> (#[trigger] spans[k]).end == spans[k + 1].start,
    ensures
        ({
            let m = merge_from(spans, i, cur);
            &&& m.len() > 0
            &&& m[0].start == cur.start
            &&& m[0].changed == cur.changed
            &&& m.last().end == (if i < spans.len() { spans.last().end } else { cur.end })
            &&& forall|k: int| 0 <= k < m.len() ==> (#[trigger] m[k]).start <= m[k].end
            &&& forall|k: int| 0 <= k < m.len() - 1 ==> (#[trigger] m[k]).end == m[k + 1].start
            &&& alternating(m)
        }),
    decreases spans.len() - i,
{
    if i < spans.len() {
        if spans[i].changed == cur.changed && spans[i].start == cur.end {
            let c2 = InlineSpan { start: cur.start, end: spans[i].end, changed: cur.changed };
            lemma_merge_from_tiles(spans, i + 1, c2);
        } else {
            lemma_merge_from_tiles(spans, i + 1, spans[i]);
            let rest = merge_from(spans, i + 1, spans[i]);
            let m = merge_from(spans, i, cur);
            assert(m == seq![cur] + rest);
            assert forall|k: int| 0 <= k < m.len() implies (#[trigger] m[k]).start <= m[k].end by {
                if k > 0 {
                    assert(m[k] == rest[k - 1]);
                }
            }
            assert forall|k: int| 0 <= k < m.len() - 1 implies (#[trigger] m[k]).end == m[k + 1].start by {
                assert(m[k + 1] == rest[k]);
                if k > 0 {
                    assert(m[k] == rest[k - 1]);
                }
            }
            assert forall|k: int| 0 <= k < m.len() - 1 implies (#[trigger] m[k]).changed != m[k + 1].changed by {
                assert(m[k + 1] == rest[k]);
                if k > 0 {
                    assert(m[k] == rest[k - 1]);
                }
            }
        }
    }
}

/// Merging tiled spans gives tiled, alternating spans.
proof fn lemma_merged_tiles(spans: Seq<InlineSpan>, len: nat)
    requires
        tiles(spans, len),
    ensures
        tiles(merged(spans), len),
        alternating(merged(spans)),
{
    if spans.len() > 0 {
        lemma_merge_from_tiles(spans, 1, spans[0]);
    }
}

/// The text a change list keeps (`Equal` entries), deletes or inserts, in
/// order.
pub open spec fn tagged_text(ops: Seq<(DiffTag, Seq<char>)>, tag: DiffTag) -> Seq<char>
    decreases ops.len(),
{
    if ops.len() == 0 {
        Seq::empty()
    } else if ops.last().0 == tag {
        tagged_text(ops.drop_last(), tag) + ops.last().1
    } else {
        tagged_text(ops.drop_last(), tag)
    }
}

/// Bytes covered by one span, counted when its `changed` flag is `changed`.
pub open spec fn span_len(x: InlineSpan, changed: bool) -> int {
    if x.changed == changed {
        x.end - x.start
    } else {
        0
    }
}

/// Bytes covered by the spans whose `changed` flag is `changed`.
pub open spec fn span_bytes(sp: Seq<InlineSpan>, changed: bool) -> int
    decreases sp.len(),
{
    if sp.len() == 0 {
        0
    } else {
        span_bytes(sp.drop_last(), changed) + span_len(sp.last(), changed)
    }
}

proof fn lemma_span_bytes_concat(a: Seq<InlineSpan>, b: Seq<InlineSpan>, c: bool)
    ensures
        span_bytes(a + b, c) == span_bytes(a, c) + span_bytes(b, c),
    decreases b.len(),
{
    if b.len() == 0 {
        assert(a + b =~= a);
    } else {
        lemma_span_bytes_concat(a, b.drop_last(), c);
        assert((a + b).drop_last() =~= a + b.drop_last());
        assert((a + b).last() == b.last());
    }
}

proof fn lemma_span_bytes_one(x: InlineSpan, c: bool)
    ensures
        span_bytes(seq![x], c) == span_len(x, c),
        span_bytes(Seq::<InlineSpan>::empty(), c) == 0,
{
    let one = seq![x];
    assert(one.len() == 1);
    assert(one.drop_last() =~= Seq::<InlineSpan>::empty());
    assert(one.last() == x);
    assert(span_bytes(one.drop_last(), c) == 0);
    assert(span_bytes(one, c) == span_bytes(one.drop_last(), c) + span_len(one.last(), c));
}

/// Old-side spans cover the kept text unchanged and the deleted text changed.
proof fn lemma_old_span_bytes(ops: Seq<(DiffTag, Seq<char>)>)
    requires
        byte_len(old_text(ops)) <= usize::MAX,
    ensures
        span_bytes(old_spans(ops), false) == byte_len(tagged_text(ops, DiffTag::Equal)),
        span_bytes(old_spans(ops), true) == byte_len(tagged_text(ops, DiffTag::Delete)),
    decreases ops.len(),
{
    if ops.len() > 0 {
        let pre = ops.drop_last();
        let (tag, v) = ops.last();
        if tag != DiffTag::Insert {
            lemma_byte_len_concat(old_text(pre), v);
        }
        lemma_old_span_bytes(pre);
        lemma_byte_len_concat(tagged_text(pre, DiffTag::Equal), v);
        lemma_byte_len_concat(tagged_text(pre, DiffTag::Delete), v);
        if tag != DiffTag::Insert {
            assert(old_spans(ops).drop_last() =~= old_spans(pre));
        }
    }
}

/// New-side spans cover the kept text unchanged and the inserted text changed.
proof fn lemma_new_span_bytes(ops: Seq<(DiffTag, Seq<char>)>)
    requires
        byte_len(new_text(ops)) <= usize::MAX,
    ensures
        span_bytes(new_spans(ops), false) == byte_len(tagged_text(ops, DiffTag::Equal)),
        span_bytes(new_spans(ops), true) == byte_len(tagged_text(ops, DiffTag::Insert)),
    decreases ops.len(),
{
    if ops.len() > 0 {
        let pre = ops.drop_last();
        let (tag, v) = ops.last();
        if tag != DiffTag::Delete {
            lemma_byte_len_concat(new_text(pre), v);
        }
        lemma_new_span_bytes(pre);
        lemma_byte_len_concat(tagged_text(pre, DiffTag::Equal), v);
        lemma_byte_len_concat(tagged_text(pre, DiffTag::Insert), v);
        if tag != DiffTag::Delete {
            assert(new_spans(ops).drop_last() =~= new_spans(pre));
        }
    }
}

/// Merging spans that continue each other covers the same bytes.
proof fn lemma_merge_from_bytes(spans: Seq<InlineSpan>, i: int, cur: InlineSpan, c: bool)
    requires
        1 <= i <= spans.len(),
        i < spans.len() ==> spans[i].start == cur.end,
        forall|k: int| i <= k < spans.len() - 1 ==> (#[trigger] spans[k]).end == spans[k + 1].start,
    ensures
        span_bytes(merge_from(spans, i, cur), c) == span_len(cur, c) + span_bytes(spans.subrange(i, spans.len() as int), c),
    decreases spans.len() - i,
{
    let n = spans.len() as int;
    if i >= n {
        assert(spans.subrange(i, n) =~= Seq::<InlineSpan>::empty());
        lemma_span_bytes_one(cur, c);
    } else {
        let rest = spans.subrange(i + 1, n);
        assert(spans.subrange(i, n) =~= seq![spans[i]] + rest);
        lemma_span_bytes_concat(seq![spans[i]], rest, c);
        lemma_span_bytes_one(spans[i], c);
        if spans[i].changed == cur.changed && spans[i].start == cur.end {
            let c2 = InlineSpan { start: cur.start, end: spans[i].end, changed: cur.changed };
            lemma_merge_from_bytes(spans, i + 1, c2, c);
        } else {
            lemma_merge_from_bytes(spans, i + 1, spans[i], c);
            lemma_span_bytes_concat(seq![cur], merge_from(spans, i + 1, spans[i]), c);
            lemma_span_bytes_one(cur, c);
            assert(merge_from(spans, i, cur) == seq![cur] + merge_from(spans, i + 1, spans[i]));
        }
    }
}

/// Merging tiled spans covers the same changed and unchanged bytes.
proof fn lemma_merged_bytes(spans: Seq<InlineSpan>, len: nat, c: bool)
    requires
        tiles(spans, len),
    ensures
        span_bytes(merged(spans), c) == span_bytes(spans, c),
{
    if spans.len() > 0 {
        lemma_merge_from_bytes(spans, 1, spans[0], c);
        let n = spans.len() as int;
        assert(spans =~= seq![spans[0]] + spans.subrange(1, n));
        lemma_span_bytes_concat(seq![spans[0]], spans.subrange(1, n), c);
        lemma_span_bytes_one(spans[0], c);
    }
}

/// Law: the inline spans of a change list, once merged, mark as unchanged
/// exactly as many bytes on each side as the kept text holds; the old side
/// marks the deleted text's bytes changed, and the new side the inserted
/// text's.
pub proof fn lemma_inline_span_bytes(ops: Seq<(DiffTag, Seq<char>)>)
    requires
        byte_len(old_text(ops)) <= usize::MAX,
        byte_len(new_text(ops)) <= usize::MAX,
    ensures
        span_bytes(merged(old_spans(ops)), false) == byte_len(tagged_text(ops, DiffTag::Equal)),
        span_bytes(merged(new_spans(ops)), false) == byte_len(tagged_text(ops, DiffTag::Equal)),
        span_bytes(merged(old_spans(ops)), true) == byte_len(tagged_text(ops, DiffTag::Delete)),
        span_bytes(merged(new_spans(ops)), true) == byte_len(tagged_text(ops, DiffTag::Insert)),
{
    lemma_old_span_bytes(ops);
    lemma_new_span_bytes(ops);
    lemma_old_spans_tile(ops);
    lemma_new_spans_tile(ops);
    lemma_merged_bytes(old_spans(ops), byte_len(old_text(ops)), false);
    lemma_merged_bytes(old_spans(ops), byte_len(old_text(ops)), true);
    lemma_merged_bytes(new_spans(ops), byte_len(new_text(ops)), false);
    lemma_merged_bytes(new_spans(ops), byte_len(new_text(ops)), true);
}

/// Word-level spans for a replaced line pair, or none when either line is
/// longer than 500 bytes, the lines are equal, both are blank, or less than
/// a fifth of the longer trimmed line is unchanged content.
pub open spec fn inline_spans_spec(old: Seq<char>, new: Seq<char>) -> (Option<Seq<InlineSpan>>, Option<Seq<InlineSpan>>) {
    let total = if byte_len(trim(old)) >= byte_len(trim(new)) {
        byte_len(trim(old))
    } else {
        byte_len(trim(new))
    };
    let ops = word_diff(old, new);
    if byte_len(old) > MAX_INLINE_DIFF_LEN || byte_len(new) > MAX_INLINE_DIFF_LEN {
        (None, None)
    } else if old == new {
        (None, None)
    } else if total == 0 || 5 * unchanged_len(ops) < total {
        (None, None)
    } else {
        (Some(merged(old_spans(ops))), Some(merged(new_spans(ops))))
    }
}

// ---------------------------------------------------------------------------
// Hunks
// ---------------------------------------------------------------------------

/// Whether each row is a change (not `Equal`).
pub open spec fn change_flags(rows: Seq<RowV>) -> Seq<bool> {
    rows.map_values(|r: RowV| r.kind != ChangeKind::Equal)
}

/// Scan rows `i..` for hunk boundaries. `open` is the current hunk's
/// (start, last change). A hunk starts `ctx` rows before its first change
/// (at 0 at the latest), stays open while the gap since the last change is
/// below `2 * ctx`, and ends `ctx` rows after its last change (clamped to
/// the row count).
pub open spec fn hunk_scan(ch: Seq<bool>, ctx: nat, i: int, open: Option<(nat, nat)>) -> Seq<(nat, nat)>
    decreases ch.len() - i,
{
    if i < 0 || i >= ch.len() {
        match open {
            None => Seq::empty(),
            Some((s, l)) => seq![(s, if l + ctx + 1 <= ch.len() { (l + ctx + 1) as nat } else { ch.len() })],
        }
    } else if ch[i] {
        let s = match open {
            None => if i >= ctx { (i - ctx) as nat } else { 0nat },
            Some((s, _)) => s,
        };
        hunk_scan(ch, ctx, i + 1, Some((s, i as nat)))
    } else {
        match open {
            Some((s, l)) => if i - l >= 2 * ctx {
                seq![(s, (l + ctx + 1) as nat)] + hunk_scan(ch, ctx, i + 1, None)
            } else {
                hunk_scan(ch, ctx, i + 1, open)
            },
            None => hunk_scan(ch, ctx, i + 1, None),
        }
    }
}

/// Smallest and largest old line numbers among `rows[s..e]`, if any.
pub open spec fn old_extent(rows: Seq<RowV>, s: int, e: int) -> Option<(nat, nat)>
    decreases e - s,
{
    if e <= s {
        None
    } else {
        let prev = old_extent(rows, s, e - 1);
        match rows[e - 1].old {
            None => prev,
            Some(l) => match prev {
                None => Some((l.line_num, l.line_num)),
                Some((lo, hi)) => Some((
                    if l.line_num < lo { l.line_num } else { lo },
                    if l.line_num > hi { l.line_num } else { hi },
                )),
            },
        }
    }
}

/// Smallest and largest new line numbers among `rows[s..e]`, if any.
pub open spec fn new_extent(rows: Seq<RowV>, s: int, e: int) -> Option<(nat, nat)>
    decreases e - s,
{
    if e <= s {
        None
    } else {
        let prev = new_extent(rows, s, e - 1);
        match rows[e - 1].new {
            None => prev,
            Some(l) => match prev {
                None => Some((l.line_num, l.line_num)),
                Some((lo, hi)) => Some((
                    if l.line_num < lo { l.line_num } else { lo },
                    if l.line_num > hi { l.line_num } else { hi },
                )),
            },
        }
    }
}

/// A line range (start, count) from an extent.
pub open spec fn range_of(ext: Option<(nat, nat)>) -> (usize, usize) {
    match ext {
        None => (0, 0),
        Some((lo, hi)) => (lo as usize, (hi - lo + 1) as usize),
    }
}

/// The hunk covering `rows[s..e]`.
pub open spec fn hunk_spec(rows: Seq<RowV>, s: nat, e: nat) -> Hunk {
    Hunk {
        start_row: s as usize,
        row_count: (e - s) as usize,
        old_range: range_of(old_extent(rows, s as int, e as int)),
        new_range: range_of(new_extent(rows, s as int, e as int)),
    }
}

/// The hunks of a row list with `ctx` lines of context.
pub open spec fn hunks_of(rows: Seq<RowV>, ctx: nat) -> Seq<Hunk> {
    let b = hunk_scan(change_flags(rows), ctx, 0, None);
    Seq::new(b.len(), |k: int| hunk_spec(rows, b[k].0, b[k].1))
}

/// Hunks are in order, non-empty, do not overlap, and lie within `n` rows.
pub open spec fn hunks_well_placed(hs: Seq<Hunk>, n: nat) -> bool {
    &&& forall|k: int| 0 <= k < hs.len() ==> #[trigger] hs[k].row_count >= 1
    &&& forall|k: int| 0 <= k < hs.len() ==> #[trigger] hs[k].start_row + hs[k].row_count <= n
    &&& forall|j: int, k: int| 0 <= j < k < hs.len() ==> #[trigger] hs[j].start_row + hs[j].row_count
        <= #[trigger] hs[k].start_row
}


// ===========================================================================
// Lemmas about the model
// ===========================================================================

/// `old_text` of a longer prefix extends the shorter one.
pub proof fn lemma_old_text_prefix_len(ops: Seq<(DiffTag, Seq<char>)>, k: int)
    requires
        0 <= k <= ops.len(),
    ensures
        byte_len(old_text(ops.take(k))) <= byte_len(old_text(ops)),
    decreases ops.len() - k,
{
    if k < ops.len() {
        lemma_old_text_prefix_len(ops, k + 1);
        assert(ops.take(k + 1).drop_last() =~= ops.take(k));
        if ops[k].0 != DiffTag::Insert {
            lemma_byte_len_concat(old_text(ops.take(k)), ops[k].1);
        }
    } else {
        assert(ops.take(k) =~= ops);
    }
}

/// `new_text` of a longer prefix extends the shorter one.
pub proof fn lemma_new_text_prefix_len(ops: Seq<(DiffTag, Seq<char>)>, k: int)
    requires
        0 <= k <= ops.len(),
    ensures
        byte_len(new_text(ops.take(k))) <= byte_len(new_text(ops)),
    decreases ops.len() - k,
{
    if k < ops.len() {
        lemma_new_text_prefix_len(ops, k + 1);
        assert(ops.take(k + 1).drop_last() =~= ops.take(k));
        if ops[k].0 != DiffTag::Delete {
            lemma_byte_len_concat(new_text(ops.take(k)), ops[k].1);
        }
    } else {
        assert(ops.take(k) =~= ops);
    }
}

/// Trimming never adds bytes.
pub proof fn lemma_trim_byte_len(s: Seq<char>)
    ensures
        byte_len(trim(s)) <= byte_len(s),
{
    lemma_trim_start_byte_len(s);
    lemma_trim_end_byte_len(trim_start(s));
}

proof fn lemma_trim_start_byte_len(s: Seq<char>)
    ensures
        byte_len(trim_start(s)) <= byte_len(s),
    decreases s.len(),
{
    if s.len() > 0 && is_ws(s[0]) {
        lemma_trim_start_byte_len(s.drop_first());
        lemma_byte_len_concat(seq![s[0]], s.drop_first());
        assert(seq![s[0]] + s.drop_first() =~= s);
    }
}

proof fn lemma_trim_end_byte_len(s: Seq<char>)
    ensures
        byte_len(trim_end(s)) <= byte_len(s),
    decreases s.len(),
{
    if s.len() > 0 && is_ws(s.last()) {
        lemma_trim_end_byte_len(s.drop_last());
    }
}

/// Unchanged content never exceeds the old text it is part of.
pub proof fn lemma_unchanged_le_old(ops: Seq<(DiffTag, Seq<char>)>)
    ensures
        unchanged_len(ops) <= byte_len(old_text(ops)),
    decreases ops.len(),
{
    if ops.len() > 0 {
        lemma_unchanged_le_old(ops.drop_last());
        let (tag, v) = ops.last();
        if tag != DiffTag::Insert {
            lemma_byte_len_concat(old_text(ops.drop_last()), v);
        }
        if tag == DiffTag::Equal && meaningful(v) {
            lemma_trim_byte_len(v);
        }
    }
}

/// The old side of a prefix is no longer than the whole old side.
pub proof fn lemma_old_side_prefix_len(ops: Seq<(DiffTag, Seq<char>)>, k: int)
    requires
        0 <= k <= ops.len(),
    ensures
        old_side(ops.take(k)).len() <= old_side(ops).len(),
        new_side(ops.take(k)).len() <= new_side(ops).len(),
    decreases ops.len() - k,
{
    if k < ops.len() {
        lemma_old_side_prefix_len(ops, k + 1);
        assert(ops.take(k + 1).drop_last() =~= ops.take(k));
    } else {
        assert(ops.take(k) =~= ops);
    }
}

/// `deletes_in`/`inserts_in` split at any middle point.
pub proof fn lemma_runs_split(cs: Seq<ChangeV>, i: int, m: int, j: int)
    requires
        i <= m <= j,
    ensures
        deletes_in(cs, i, j) == deletes_in(cs, i, m) + deletes_in(cs, m, j),
        inserts_in(cs, i, j) == inserts_in(cs, i, m) + inserts_in(cs, m, j),
    decreases j - m,
{
    if j > m {
        lemma_runs_split(cs, i, m, j - 1);
        assert(deletes_in(cs, i, j) =~= deletes_in(cs, i, m) + deletes_in(cs, m, j));
        assert(inserts_in(cs, i, j) =~= inserts_in(cs, i, m) + inserts_in(cs, m, j));
    } else {
        assert(deletes_in(cs, m, j) =~= Seq::<(nat, Seq<char>)>::empty());
        assert(inserts_in(cs, m, j) =~= Seq::<(nat, Seq<char>)>::empty());
        assert(deletes_in(cs, i, j) =~= deletes_in(cs, i, m) + deletes_in(cs, m, j));
        assert(inserts_in(cs, i, j) =~= inserts_in(cs, i, m) + inserts_in(cs, m, j));
    }
}

/// `run_end` from `i` is at or after `i` and at most the length.
pub proof fn lemma_run_end_bounds(cs: Seq<ChangeV>, i: int)
    requires
        0 <= i <= cs.len(),
    ensures
        i <= run_end(cs, i) <= cs.len(),
        run_end(cs, i) < cs.len() ==> cs[run_end(cs, i)] is Equal,
        forall|k: int| i <= k < run_end(cs, i) ==> !(cs[k] is Equal),
    decreases cs.len() - i,
{
    if i < cs.len() && !(cs[i] is Equal) {
        lemma_run_end_bounds(cs, i + 1);
    }
}


// ===========================================================================
// Inline diff (executable)
// ===========================================================================

/// View of a pair of optional span lists.
pub open spec fn spans_pair_view(
    p: (Option<Vec<InlineSpan>>, Option<Vec<InlineSpan>>),
) -> (Option<Seq<InlineSpan>>, Option<Seq<InlineSpan>>) {
    (
        match p.0 {
            Some(v) => Some(v@),
            None => None,
        },
        match p.1 {
            Some(v) => Some(v@),
            None => None,
        },
    )
}

/// Check if a string contains meaningful (non-whitespace) content.
pub fn has_meaningful_content(s: &str) -> (r: bool)
    ensures
        r == meaningful(s@),
{
    let cs = chars_of(s);
    let mut i: usize = 0;
    while i < cs.len()
        invariant
            i <= cs@.len(),
            cs@ == s@,
            forall|k: int| 0 <= k < i ==> is_ws(cs@[k]),
        decreases cs@.len() - i,
    {
        if !is_whitespace_char(cs[i]) {
            return true;
        }
        i = i + 1;
    }
    false
}

/// Merge adjacent spans with the same `changed` status.
pub fn merge_adjacent_spans(spans: Vec<InlineSpan>) -> (r: Vec<InlineSpan>)
    ensures
        r@ == merged(spans@),
{
    if spans.len() == 0 {
        return spans;
    }
    let mut out: Vec<InlineSpan> = Vec::new();
    let mut current = spans[0];
    let mut i: usize = 1;
    while i < spans.len()
        invariant
            1 <= i <= spans@.len(),
            out@ + merge_from(spans@, i as int, current) == merged(spans@),
        decreases spans@.len() - i,
    {
        let span = spans[i];
        if span.changed == current.changed && span.start == current.end {
            current = InlineSpan { start: current.start, end: span.end, changed: current.changed };
        } else {
            let ghost out0 = out@;
            out.push(current);
            assert(out0 + merge_from(spans@, i as int, old_current(current)) =~= out@ + merge_from(spans@, i + 1, span)) by {
                assert(out0 + (seq![current] + merge_from(spans@, i + 1, span)) =~= out0.push(current) + merge_from(spans@, i + 1, span));
            }
            current = span;
        }
        i = i + 1;
    }
    out.push(current);
    out
}

spec fn old_current(c: InlineSpan) -> InlineSpan {
    c
}

/// Word-level inline diff between two lines; `(None, None)` when the lines
/// are too long, equal, blank, or too dissimilar (see `inline_spans_spec`).
fn compute_inline_diff(old: &String, new: &String) -> (r: (Option<Vec<InlineSpan>>, Option<Vec<InlineSpan>>))
    ensures
        spans_pair_view(r) == inline_spans_spec(old@, new@),
        r.0 is Some <==> r.1 is Some,
        byte_len(old@) > MAX_INLINE_DIFF_LEN || byte_len(new@) > MAX_INLINE_DIFF_LEN || old@ == new@
            ==> r.0 is None,
        r.0 matches Some(o) ==> tiles(o@, byte_len(old@)) && alternating(o@),
        r.1 matches Some(n) ==> tiles(n@, byte_len(new@)) && alternating(n@),
        r.0 matches Some(o) ==> span_bytes(o@, false) == byte_len(tagged_text(word_diff(old@, new@), DiffTag::Equal))
            && span_bytes(o@, true) == byte_len(tagged_text(word_diff(old@, new@), DiffTag::Delete)),
        r.1 matches Some(n) ==> span_bytes(n@, false) == byte_len(tagged_text(word_diff(old@, new@), DiffTag::Equal))
            && span_bytes(n@, true) == byte_len(tagged_text(word_diff(old@, new@), DiffTag::Insert)),
{
    let oc = chars_of(old.as_str());
    let nc = chars_of(new.as_str());
    let ob = byte_len_capped(oc.as_slice(), MAX_INLINE_DIFF_LEN);
    let nb = byte_len_capped(nc.as_slice(), MAX_INLINE_DIFF_LEN);
    if ob.is_none() || nb.is_none() {
        return (None, None);
    }
    if *old == *new {
        return (None, None);
    }
    let ops = similar_word_changes(old.as_str(), new.as_str());
    let ghost opsv = ops_view(ops@);
    let mut old_sp: Vec<InlineSpan> = Vec::new();
    let mut new_sp: Vec<InlineSpan> = Vec::new();
    let mut old_pos: usize = 0;
    let mut new_pos: usize = 0;
    let mut unchanged: usize = 0;
    let mut k: usize = 0;
    assert(opsv.take(0) =~= Seq::<(DiffTag, Seq<char>)>::empty());
    while k < ops.len()
        invariant
            k <= ops@.len(),
            opsv == ops_view(ops@),
            opsv == word_diff(old@, new@),
            old_text(opsv) == old@,
            new_text(opsv) == new@,
            byte_len(old@) <= MAX_INLINE_DIFF_LEN,
            byte_len(new@) <= MAX_INLINE_DIFF_LEN,
            old_sp@ == old_spans(opsv.take(k as int)),
            new_sp@ == new_spans(opsv.take(k as int)),
            old_pos == byte_len(old_text(opsv.take(k as int))),
            new_pos == byte_len(new_text(opsv.take(k as int))),
            unchanged == unchanged_len(opsv.take(k as int)),
        decreases ops@.len() - k,
    {
        let ghost pre = opsv.take(k as int);
        let ghost next = opsv.take(k + 1);
        proof {
            assert(next.drop_last() =~= pre);
            assert(next.last() == opsv[k as int]);
            lemma_old_text_prefix_len(opsv, k + 1);
            lemma_new_text_prefix_len(opsv, k + 1);
            lemma_unchanged_le_old(next);
            lemma_byte_len_concat(old_text(pre), opsv[k as int].1);
            lemma_byte_len_concat(new_text(pre), opsv[k as int].1);
        }
        let tag = ops[k].0;
        let vc = chars_of(ops[k].1.as_str());
        let len_opt = byte_len_capped(vc.as_slice(), MAX_INLINE_DIFF_LEN);
        let len = match len_opt {
            Some(l) => l,
            None => {
                proof {
                    if tag != DiffTag::Insert {
                        assert(false);
                    } else {
                        assert(false);
                    }
                }
                0
            },
        };
        match tag {
            DiffTag::Equal => {
                let vs = ops[k].1.as_str();
                if has_meaningful_content(vs) {
                    let t = trim_chars(vc.as_slice());
                    let tl = byte_len_capped(t.as_slice(), MAX_INLINE_DIFF_LEN);
                    proof {
                        lemma_trim_byte_len(vc@);
                    }
                    match tl {
                        Some(tl) => {
                            unchanged = unchanged + tl;
                        },
                        None => {},
                    }
                }
                old_sp.push(InlineSpan { start: old_pos, end: old_pos + len, changed: false });
                new_sp.push(InlineSpan { start: new_pos, end: new_pos + len, changed: false });
                old_pos = old_pos + len;
                new_pos = new_pos + len;
            },
            DiffTag::Delete => {
                old_sp.push(InlineSpan { start: old_pos, end: old_pos + len, changed: true });
                old_pos = old_pos + len;
            },
            DiffTag::Insert => {
                new_sp.push(InlineSpan { start: new_pos, end: new_pos + len, changed: true });
                new_pos = new_pos + len;
            },
        }
        k = k + 1;
    }
    assert(opsv.take(ops@.len() as int) =~= opsv);
    proof {
        lemma_unchanged_le_old(opsv);
    }
    let ot = trim_chars(oc.as_slice());
    let nt = trim_chars(nc.as_slice());
    proof {
        lemma_trim_byte_len(old@);
        lemma_trim_byte_len(new@);
    }
    let otl = match byte_len_capped(ot.as_slice(), MAX_INLINE_DIFF_LEN) {
        Some(l) => l,
        None => 0,
    };
    let ntl = match byte_len_capped(nt.as_slice(), MAX_INLINE_DIFF_LEN) {
        Some(l) => l,
        None => 0,
    };
    let total_len = if otl >= ntl {
        otl
    } else {
        ntl
    };
    if total_len == 0 {
        return (None, None);
    }
    if 5 * unchanged < total_len {
        return (None, None);
    }
    proof {
        lemma_old_spans_tile(opsv);
        lemma_new_spans_tile(opsv);
        lemma_merged_tiles(old_spans(opsv), byte_len(old@));
        lemma_merged_tiles(new_spans(opsv), byte_len(new@));
        lemma_inline_span_bytes(opsv);
    }
    let old_spans_m = merge_adjacent_spans(old_sp);
    let new_spans_m = merge_adjacent_spans(new_sp);
    (Some(old_spans_m), Some(new_spans_m))
}


// ===========================================================================
// Pairing (executable)
// ===========================================================================

/// Intermediate change representation before pairing: one line of the
/// line diff, with its 0-indexed line number(s).
#[derive(Debug)]
pub enum Change {
    Equal { old_line: usize, new_line: usize, content: String },
    Delete { old_line: usize, content: String },
    Insert { new_line: usize, content: String },
}

impl Change {
    /// The change as a mathematical value.
    pub open spec fn view(&self) -> ChangeV {
        match self {
            Change::Equal { old_line, new_line, content } => ChangeV::Equal {
                old_line: *old_line as nat,
                new_line: *new_line as nat,
                content: content@,
            },
            Change::Delete { old_line, content } => ChangeV::Delete {
                old_line: *old_line as nat,
                content: content@,
            },
            Change::Insert { new_line, content } => ChangeV::Insert {
                new_line: *new_line as nat,
                content: content@,
            },
        }
    }
}

/// Views of a list of changes.
pub open spec fn changes_view(cs: Seq<Change>) -> Seq<ChangeV> {
    cs.map_values(|c: Change| c.view())
}

/// Every line number in the change list is below `usize::MAX`.
/// Every line number in the changes is below `usize::MAX`.
pub open spec fn changes_bounded(cs: Seq<Change>) -> bool {
    forall|k: int| 0 <= k < cs.len() ==> match #[trigger] cs[k] {
        Change::Equal { old_line, new_line, .. } => old_line < usize::MAX && new_line < usize::MAX,
        Change::Delete { old_line, .. } => old_line < usize::MAX,
        Change::Insert { new_line, .. } => new_line < usize::MAX,
    }
}

/// Every line number in the list is below `usize::MAX`.
pub open spec fn numbered_bounded(v: Seq<(usize, String)>) -> bool {
    forall|k: int| 0 <= k < v.len() ==> (#[trigger] v[k]).0 < usize::MAX
}

/// A present line has a number below `usize::MAX`.
pub open spec fn line_ok(l: Option<LineV>) -> bool {
    match l {
        Some(l) => l.line_num < usize::MAX,
        None => true,
    }
}

/// Every line number in the rows is below `usize::MAX`.
pub open spec fn rows_lines_bounded(rows: Seq<RowV>) -> bool {
    forall|k: int| 0 <= k < rows.len() ==> line_ok(#[trigger] rows[k].old) && line_ok(rows[k].new)
}

/// View of a list of numbered lines.
pub open spec fn numbered_view(v: Seq<(usize, String)>) -> Seq<(nat, Seq<char>)> {
    v.map_values(|p: (usize, String)| (p.0 as nat, p.1@))
}

/// Collect the run of deletions/insertions starting at `start` onto the
/// given lists; returns the index of the first `Equal` change (or the
/// length) with the extended lists.
fn collect_change_run(
    changes: &Vec<Change>,
    start: usize,
    deletes_before: Vec<(usize, String)>,
    inserts_before: Vec<(usize, String)>,
) -> (r: (usize, Vec<(usize, String)>, Vec<(usize, String)>))
    requires
        start <= changes@.len(),
        changes_bounded(changes@),
        numbered_bounded(deletes_before@),
        numbered_bounded(inserts_before@),
    ensures
        numbered_bounded(r.1@),
        numbered_bounded(r.2@),
        r.0 == run_end(changes_view(changes@), start as int),
        numbered_view(r.1@) == numbered_view(deletes_before@) + deletes_in(
            changes_view(changes@),
            start as int,
            r.0 as int,
        ),
        numbered_view(r.2@) == numbered_view(inserts_before@) + inserts_in(
            changes_view(changes@),
            start as int,
            r.0 as int,
        ),
{
    let ghost cv = changes_view(changes@);
    let ghost d0 = numbered_view(deletes_before@);
    let ghost i0 = numbered_view(inserts_before@);
    let mut deletes = deletes_before;
    let mut inserts = inserts_before;
    let mut k = start;
    assert(deletes_in(cv, start as int, start as int) =~= Seq::<(nat, Seq<char>)>::empty());
    assert(inserts_in(cv, start as int, start as int) =~= Seq::<(nat, Seq<char>)>::empty());
    assert(numbered_view(deletes@) =~= d0 + deletes_in(cv, start as int, start as int));
    assert(numbered_view(inserts@) =~= i0 + inserts_in(cv, start as int, start as int));
    while k < changes.len()
        invariant
            start <= k <= changes@.len(),
            cv == changes_view(changes@),
            d0 == numbered_view(deletes_before@),
            i0 == numbered_view(inserts_before@),
            changes_bounded(changes@),
            numbered_bounded(deletes@),
            numbered_bounded(inserts@),
            run_end(cv, start as int) == run_end(cv, k as int),
            numbered_view(deletes@) == d0 + deletes_in(cv, start as int, k as int),
            numbered_view(inserts@) == i0 + inserts_in(cv, start as int, k as int),
        decreases changes@.len() - k,
    {
        assert(cv[k as int] == changes@[k as int].view());
        let ghost ck = changes@[k as int];
        match &changes[k] {
            Change::Equal { .. } => {
                assert(cv[k as int] is Equal);
                assert(run_end(cv, k as int) == k);
                return (k, deletes, inserts);
            },
            Change::Delete { old_line, content } => {
                let ghost dprev = numbered_view(deletes@);
                assert(inserts_in(cv, start as int, k + 1) == inserts_in(cv, start as int, k as int));
                deletes.push((*old_line, content.clone()));
                assert(numbered_view(deletes@) =~= dprev.push((*old_line as nat, content@)));
                assert(numbered_view(deletes@) =~= d0 + deletes_in(cv, start as int, k + 1));
            },
            Change::Insert { new_line, content } => {
                let ghost iprev = numbered_view(inserts@);
                assert(deletes_in(cv, start as int, k + 1) == deletes_in(cv, start as int, k as int));
                inserts.push((*new_line, content.clone()));
                assert(numbered_view(inserts@) =~= iprev.push((*new_line as nat, content@)));
                assert(numbered_view(inserts@) =~= i0 + inserts_in(cv, start as int, k + 1));
            },
        }
        k = k + 1;
    }
    (k, deletes, inserts)
}

/// Emit rows for one run: the `k`-th deletion paired with the `k`-th
/// insertion (with inline spans), leftovers as pure deletes or inserts.
pub fn emit_paired_changes(
    deletes: Vec<(usize, String)>,
    inserts: Vec<(usize, String)>,
    rows: &mut Vec<RenderRow>,
)
    requires
        numbered_bounded(deletes@),
        numbered_bounded(inserts@),
        rows_lines_bounded(rows_view(old(rows)@)),
    ensures
        rows_lines_bounded(rows_view(final(rows)@)),
        rows_view(final(rows)@) == rows_view(old(rows)@) + paired_rows(
            numbered_view(deletes@),
            numbered_view(inserts@),
        ),
{
    let ghost dv = numbered_view(deletes@);
    let ghost iv = numbered_view(inserts@);
    let ghost r0 = rows_view(rows@);
    let max_len = if deletes.len() >= inserts.len() {
        deletes.len()
    } else {
        inserts.len()
    };
    let mut k: usize = 0;
    while k < max_len
        invariant
            k <= max_len,
            max_len == if deletes@.len() >= inserts@.len() { deletes@.len() } else { inserts@.len() },
            dv == numbered_view(deletes@),
            iv == numbered_view(inserts@),
            numbered_bounded(deletes@),
            numbered_bounded(inserts@),
            rows_lines_bounded(rows_view(rows@)),
            rows_view(rows@) == r0 + paired_rows(dv, iv).take(k as int),
        decreases max_len - k,
    {
        let ghost r1 = rows_view(rows@);
        proof {
            if k < deletes@.len() {
                assert(dv[k as int] == (deletes@[k as int].0 as nat, deletes@[k as int].1@));
            }
            if k < inserts@.len() {
                assert(iv[k as int] == (inserts@[k as int].0 as nat, inserts@[k as int].1@));
            }
        }
        if k < deletes.len() && k < inserts.len() {
            let sp = compute_inline_diff(&deletes[k].1, &inserts[k].1);
            let (old_spans_k, new_spans_k) = sp;
            let row = RenderRow {
                old: Some(LineRef { line_num: deletes[k].0, content: deletes[k].1.clone(), inline_spans: old_spans_k }),
                new: Some(LineRef { line_num: inserts[k].0, content: inserts[k].1.clone(), inline_spans: new_spans_k }),
                kind: ChangeKind::Replace,
            };
            rows.push(row);
        } else if k < deletes.len() {
            let row = RenderRow {
                old: Some(LineRef { line_num: deletes[k].0, content: deletes[k].1.clone(), inline_spans: None }),
                new: None,
                kind: ChangeKind::Delete,
            };
            rows.push(row);
        } else {
            let row = RenderRow {
                old: None,
                new: Some(LineRef { line_num: inserts[k].0, content: inserts[k].1.clone(), inline_spans: None }),
                kind: ChangeKind::Insert,
            };
            rows.push(row);
        }
        assert(rows_view(rows@).last() == paired_rows(dv, iv)[k as int]);
        assert(rows_view(rows@) =~= r1.push(paired_rows(dv, iv)[k as int]));
        assert(rows_view(rows@) =~= r0 + paired_rows(dv, iv).take(k + 1));
        k = k + 1;
    }
    assert(paired_rows(dv, iv).take(max_len as int) =~= paired_rows(dv, iv));
}

/// Convert changes to render rows.
///
/// - Consecutive deletes and inserts are paired positionally (1st delete with 1st insert, etc.)
/// - Paired lines get word-level inline diff highlighting
/// - Unpaired lines show as pure Delete/Insert
#[verifier::spinoff_prover]
#[verifier::rlimit(50)]
pub fn pair_changes(changes: Vec<Change>) -> (rows: Vec<RenderRow>)
    requires
        changes_bounded(changes@),
    ensures
        rows_view(rows@) == rows_from(changes_view(changes@), 0),
        rows_lines_bounded(rows_view(rows@)),
{
    let ghost cv = changes_view(changes@);
    let mut rows: Vec<RenderRow> = Vec::new();
    let mut i: usize = 0;
    while i < changes.len()
        invariant
            i <= changes@.len(),
            cv == changes_view(changes@),
            changes_bounded(changes@),
            rows_lines_bounded(rows_view(rows@)),
            rows_view(rows@) + rows_from(cv, i as int) == rows_from(cv, 0),
        decreases changes@.len() - i,
    {
        let ghost r0 = rows_view(rows@);
        assert(cv[i as int] == changes@[i as int].view());
        let ghost ci = changes@[i as int];
        match &changes[i] {
            Change::Equal { old_line, new_line, content } => {
                let row = RenderRow {
                    old: Some(LineRef { line_num: *old_line, content: content.clone(), inline_spans: None }),
                    new: Some(LineRef { line_num: *new_line, content: content.clone(), inline_spans: None }),
                    kind: ChangeKind::Equal,
                };
                rows.push(row);
                assert(rows_from(cv, i as int) == seq![rows_view(rows@).last()] + rows_from(cv, i + 1));
                assert(rows_view(rows@) =~= r0.push(rows_view(rows@).last()));
                assert(rows_view(rows@) + rows_from(cv, i + 1) =~= r0 + rows_from(cv, i as int));
                i = i + 1;
            },
            Change::Delete { old_line, content } => {
                let mut deletes: Vec<(usize, String)> = Vec::new();
                let inserts: Vec<(usize, String)> = Vec::new();
                deletes.push((*old_line, content.clone()));
                let ghost d1 = numbered_view(deletes@);
                assert(numbered_view(inserts@) =~= Seq::<(nat, Seq<char>)>::empty());
                let (j, deletes, inserts) = collect_change_run(&changes, i + 1, deletes, inserts);
                proof {
                    lemma_run_end_bounds(cv, i + 1);
                    lemma_runs_split(cv, i as int, i + 1, j as int);
                    assert(deletes_in(cv, i as int, i as int) =~= Seq::<(nat, Seq<char>)>::empty());
                    assert(inserts_in(cv, i as int, i as int) =~= Seq::<(nat, Seq<char>)>::empty());
                    assert(deletes_in(cv, i as int, i + 1) =~= d1);
                    assert(inserts_in(cv, i as int, i + 1) =~= Seq::<(nat, Seq<char>)>::empty());
                    assert(numbered_view(inserts@) =~= inserts_in(cv, i as int, j as int));
                }
                emit_paired_changes(deletes, inserts, &mut rows);
                assert(rows_view(rows@) + rows_from(cv, j as int) =~= r0 + rows_from(cv, i as int));
                i = j;
            },
            Change::Insert { new_line, content } => {
                let deletes: Vec<(usize, String)> = Vec::new();
                let mut inserts: Vec<(usize, String)> = Vec::new();
                inserts.push((*new_line, content.clone()));
                let ghost i1 = numbered_view(inserts@);
                assert(numbered_view(deletes@) =~= Seq::<(nat, Seq<char>)>::empty());
                let (j, deletes, inserts) = collect_change_run(&changes, i + 1, deletes, inserts);
                proof {
                    lemma_run_end_bounds(cv, i + 1);
                    lemma_runs_split(cv, i as int, i + 1, j as int);
                    assert(deletes_in(cv, i as int, i as int) =~= Seq::<(nat, Seq<char>)>::empty());
                    assert(inserts_in(cv, i as int, i as int) =~= Seq::<(nat, Seq<char>)>::empty());
                    assert(inserts_in(cv, i as int, i + 1) =~= i1);
                    assert(deletes_in(cv, i as int, i + 1) =~= Seq::<(nat, Seq<char>)>::empty());
                    assert(numbered_view(deletes@) =~= deletes_in(cv, i as int, j as int));
                }
                emit_paired_changes(deletes, inserts, &mut rows);
                assert(rows_view(rows@) + rows_from(cv, j as int) =~= r0 + rows_from(cv, i as int));
                i = j;
            },
        }
    }
    assert(rows_from(cv, i as int) =~= Seq::<RowV>::empty());
    assert(rows_view(rows@) =~= rows_view(rows@) + rows_from(cv, i as int));
    rows
}


// ===========================================================================
// Hunks (executable)
// ===========================================================================

/// View of an extent.
spec fn ext_view(e: Option<(usize, usize)>) -> Option<(nat, nat)> {
    match e {
        None => None,
        Some((lo, hi)) => Some((lo as nat, hi as nat)),
    }
}

/// Create a Hunk from a row range.
fn make_hunk(rows: &Vec<RenderRow>, start: usize, end: usize) -> (h: Hunk)
    requires
        start < end <= rows@.len(),
        rows_lines_bounded(rows_view(rows@)),
    ensures
        h == hunk_spec(rows_view(rows@), start as nat, end as nat),
{
    let ghost rv = rows_view(rows@);
    let mut old_ext: Option<(usize, usize)> = None;
    let mut new_ext: Option<(usize, usize)> = None;
    let mut k = start;
    while k < end
        invariant
            start <= k <= end <= rows@.len(),
            rv == rows_view(rows@),
            rows_lines_bounded(rv),
            ext_view(old_ext) == old_extent(rv, start as int, k as int),
            ext_view(new_ext) == new_extent(rv, start as int, k as int),
            old_ext matches Some((lo, hi)) ==> lo <= hi < usize::MAX,
            new_ext matches Some((lo, hi)) ==> lo <= hi < usize::MAX,
        decreases end - k,
    {
        let row = &rows[k];
        assert(rv[k as int] == rows@[k as int].view());
        match &row.old {
            Some(l) => {
                let n = l.line_num;
                old_ext = match old_ext {
                    None => Some((n, n)),
                    Some((lo, hi)) => Some((if n < lo { n } else { lo }, if n > hi { n } else { hi })),
                };
            },
            None => {},
        }
        match &row.new {
            Some(l) => {
                let n = l.line_num;
                new_ext = match new_ext {
                    None => Some((n, n)),
                    Some((lo, hi)) => Some((if n < lo { n } else { lo }, if n > hi { n } else { hi })),
                };
            },
            None => {},
        }
        k = k + 1;
    }
    let old_range = match old_ext {
        Some((lo, hi)) => (lo, hi - lo + 1),
        None => (0, 0),
    };
    let new_range = match new_ext {
        Some((lo, hi)) => (lo, hi - lo + 1),
        None => (0, 0),
    };
    Hunk { start_row: start, row_count: end - start, old_range, new_range }
}

proof fn lemma_half_ge(gap: nat, c: nat)
    ensures
        (gap / 2 >= c) <==> (gap >= 2 * c),
{
    assert((gap / 2 >= c) <==> (gap >= 2 * c)) by (nonlinear_arith);
}

/// Build hunks from rows with `context` rows of context around changes.
fn build_hunks(rows: &Vec<RenderRow>, context: usize) -> (r: Vec<Hunk>)
    requires
        rows_lines_bounded(rows_view(rows@)),
    ensures
        r@ == hunks_of(rows_view(rows@), context as nat),
        hunks_well_placed(r@, rows@.len()),
{
    let ghost rv = rows_view(rows@);
    let ghost ch = change_flags(rv);
    let ghost ctx = context as nat;
    let ghost whole = hunk_scan(ch, ctx, 0, None);
    let n = rows.len();
    let mut hunks: Vec<Hunk> = Vec::new();
    let mut in_hunk = false;
    let mut hunk_start: usize = 0;
    let mut last_change: usize = 0;
    let ghost mut done: Seq<(nat, nat)> = Seq::empty();
    let mut i: usize = 0;
    while i < n
        invariant
            n == rows@.len(),
            i <= n,
            rv == rows_view(rows@),
            ch == change_flags(rv),
            ctx == context as nat,
            rows_lines_bounded(rv),
            whole == hunk_scan(ch, ctx, 0, None),
            done + hunk_scan(ch, ctx, i as int, if in_hunk { Some((hunk_start as nat, last_change as nat)) } else { None }) == whole,
            hunks@.len() == done.len(),
            forall|k: int| 0 <= k < done.len() ==> #[trigger] hunks@[k] == hunk_spec(rv, done[k].0, done[k].1),
            forall|k: int| 0 <= k < done.len() ==> (#[trigger] done[k]).0 < done[k].1 <= n,
            forall|j: int, k: int| 0 <= j < k < done.len() ==> (#[trigger] done[j]).1 <= (#[trigger] done[k]).0,
            in_hunk ==> hunk_start <= last_change < i,
            in_hunk ==> forall|k: int| 0 <= k < done.len() ==> (#[trigger] done[k]).1 <= hunk_start,
            !in_hunk ==> forall|k: int| 0 <= k < done.len() ==> (#[trigger] done[k]).1 + ctx <= i,
        decreases n - i,
    {
        assert(rv[i as int] == rows@[i as int].view());
        let is_change = match rows[i].kind {
            ChangeKind::Equal => false,
            _ => true,
        };
        assert(ch[i as int] == is_change);
        if is_change {
            if !in_hunk {
                hunk_start = if i >= context {
                    i - context
                } else {
                    0
                };
                in_hunk = true;
            }
            last_change = i;
        } else if in_hunk {
            let gap = i - last_change;
            proof {
                lemma_half_ge(gap as nat, ctx);
            }
            if gap / 2 >= context {
                let hunk_end = last_change + context + 1;
                let h = make_hunk(rows, hunk_start, hunk_end);
                hunks.push(h);
                proof {
                    let item = (hunk_start as nat, hunk_end as nat);
                    let d0 = done;
                    done = done.push(item);
                    assert(hunk_scan(ch, ctx, i as int, Some((hunk_start as nat, last_change as nat))) == seq![item] + hunk_scan(ch, ctx, i + 1, None));
                    assert(d0 + (seq![item] + hunk_scan(ch, ctx, i + 1, None)) =~= done + hunk_scan(ch, ctx, i + 1, None));
                    assert forall|k: int| 0 <= k < done.len() implies #[trigger] hunks@[k] == hunk_spec(rv, done[k].0, done[k].1) by {
                        if k < d0.len() {
                            assert(done[k] == d0[k]);
                        }
                    }
                }
                in_hunk = false;
            }
        }
        i = i + 1;
    }
    if in_hunk {
        let hunk_end = if context < n - last_change {
            last_change + context + 1
        } else {
            n
        };
        let h = make_hunk(rows, hunk_start, hunk_end);
        hunks.push(h);
        proof {
            let item = (hunk_start as nat, hunk_end as nat);
            let d0 = done;
            done = done.push(item);
            assert(hunk_scan(ch, ctx, i as int, Some((hunk_start as nat, last_change as nat))) == seq![item]);
            assert(d0 + seq![item] =~= done);
            assert forall|k: int| 0 <= k < done.len() implies #[trigger] hunks@[k] == hunk_spec(rv, done[k].0, done[k].1) by {
                if k < d0.len() {
                    assert(done[k] == d0[k]);
                }
            }
        }
    } else {
        assert(hunk_scan(ch, ctx, i as int, None) =~= Seq::<(nat, nat)>::empty());
        assert(done + Seq::<(nat, nat)>::empty() =~= done);
    }
    proof {
        assert(done =~= whole);
        assert(hunks@ =~= hunks_of(rv, ctx));
    }
    hunks
}


// ===========================================================================
// Clones
// ===========================================================================

fn clone_spans(v: &Option<Vec<InlineSpan>>) -> (r: Option<Vec<InlineSpan>>)
    ensures
        match (r, *v) {
            (Some(a), Some(b)) => a@ == b@,
            (None, None) => true,
            _ => false,
        },
{
    match v {
        Some(v) => {
            let c = v.clone();
            assert(c@ =~= v@);
            Some(c)
        },
        None => None,
    }
}

impl Clone for LineRef {
    fn clone(&self) -> (r: Self)
        ensures
            r.view() == self.view(),
    {
        LineRef {
            line_num: self.line_num,
            content: self.content.clone(),
            inline_spans: clone_spans(&self.inline_spans),
        }
    }
}

fn clone_line(l: &Option<LineRef>) -> (r: Option<LineRef>)
    ensures
        match (r, *l) {
            (Some(a), Some(b)) => a.view() == b.view(),
            (None, None) => true,
            _ => false,
        },
{
    match l {
        Some(x) => Some(x.clone()),
        None => None,
    }
}

impl Clone for RenderRow {
    fn clone(&self) -> (r: Self)
        ensures
            r.view() == self.view(),
    {
        RenderRow { old: clone_line(&self.old), new: clone_line(&self.new), kind: self.kind }
    }
}

// ===========================================================================
// DiffResult
// ===========================================================================

/// The lines of a buffer, each decoded lossily (what `TextBuffer::lines` returns).
pub open spec fn text_lines(b: Seq<u8>) -> Seq<Seq<char>> {
    Seq::new(line_count_of(b), |i: int| utf8_lossy(line_of(b, i)))
}

/// Complete diff result between two text buffers.
#[derive(Debug)]
pub struct DiffResult {
    /// All render rows.
    rows: Vec<RenderRow>,
    /// Hunk index for navigation (sorted by start_row).
    hunks: Vec<Hunk>,
}

impl Clone for DiffResult {
    fn clone(&self) -> (r: Self)
        ensures
            r.spec_rows() == self.spec_rows(),
            r.spec_hunks() == self.spec_hunks(),
    {
        proof {
            use_type_invariant(self);
        }
        let rows = self.rows.clone();
        let hunks = self.hunks.clone();
        assert(rows_view(rows@) =~= rows_view(self.rows@)) by {
            assert forall|k: int| 0 <= k < rows@.len() implies #[trigger] rows@[k].view() == self.rows@[k].view() by {
                assert(cloned::<RenderRow>(self.rows[k], rows[k]));
            }
        }
        assert(hunks@ =~= self.hunks@);
        DiffResult { rows, hunks }
    }
}

impl DiffResult {
    #[verifier::type_invariant]
    spec fn wf(&self) -> bool {
        &&& hunks_well_placed(self.hunks@, self.rows@.len())
        &&& rows_lines_bounded(rows_view(self.rows@))
    }

    /// The render rows, as mathematical values.
    pub closed spec fn spec_rows(&self) -> Seq<RowV> {
        rows_view(self.rows@)
    }

    /// The hunks.
    pub closed spec fn spec_hunks(&self) -> Seq<Hunk> {
        self.hunks@
    }

    /// Compute diff between old and new text buffers, with 3 lines of context.
    pub fn compute(old: &TextBuffer, new: &TextBuffer) -> (r: Self)
        ensures
            r.spec_rows() == diff_rows(text_lines(old@), text_lines(new@)),
            r.spec_hunks() == hunks_of(r.spec_rows(), 3),
            hunks_well_placed(r.spec_hunks(), r.spec_rows().len()),
            crate::diff_laws::old_lines(r.spec_rows()) == crate::diff_laws::numbered(text_lines(old@), 0),
            crate::diff_laws::new_lines(r.spec_rows()) == crate::diff_laws::numbered(text_lines(new@), 0),
        crate::diff_laws::all_equal(r.spec_rows()) <==> text_lines(old@) == text_lines(new@),
    {
        compute_diff(old, new, 3)
    }

    /// Compute diff with custom context lines.
    pub fn compute_with_context(old: &TextBuffer, new: &TextBuffer, context: usize) -> (r: Self)
        ensures
            r.spec_rows() == diff_rows(text_lines(old@), text_lines(new@)),
            r.spec_hunks() == hunks_of(r.spec_rows(), context as nat),
            hunks_well_placed(r.spec_hunks(), r.spec_rows().len()),
            crate::diff_laws::old_lines(r.spec_rows()) == crate::diff_laws::numbered(text_lines(old@), 0),
            crate::diff_laws::new_lines(r.spec_rows()) == crate::diff_laws::numbered(text_lines(new@), 0),
        crate::diff_laws::all_equal(r.spec_rows()) <==> text_lines(old@) == text_lines(new@),
    {
        compute_diff(old, new, context)
    }

    /// Get all render rows.
    pub fn rows(&self) -> (r: &[RenderRow])
        ensures
            rows_view(r@) == self.spec_rows(),
    {
        self.rows.as_slice()
    }

    /// Get all hunks.
    pub fn hunks(&self) -> (r: &[Hunk])
        ensures
            r@ == self.spec_hunks(),
            hunks_well_placed(r@, self.spec_rows().len()),
    {
        proof {
            use_type_invariant(self);
        }
        self.hunks.as_slice()
    }

    /// Total number of render rows.
    pub fn row_count(&self) -> (r: usize)
        ensures
            r == self.spec_rows().len(),
    {
        self.rows.len()
    }

    /// Render rows for a viewport: at most `height` rows starting at `start_row`.
    pub fn render_rows(&self, start_row: usize, height: usize) -> (r: &[RenderRow])
        ensures
            ({
                let n = self.spec_rows().len();
                let s = if start_row <= n { start_row as int } else { n as int };
                let e = if start_row + height <= n { (start_row + height) as int } else { n as int };
                rows_view(r@) == self.spec_rows().subrange(s, e)
            }),
            rows_lines_bounded(rows_view(r@)),
    {
        proof {
            use_type_invariant(self);
        }
        let n = self.rows.len();
        let s = if start_row <= n {
            start_row
        } else {
            n
        };
        let e = if height <= n - s {
            s + height
        } else {
            n
        };
        let r = &self.rows.as_slice()[s..e];
        assert(rows_view(r@) =~= rows_view(self.rows@).subrange(s as int, e as int));
        r
    }

    /// Find the next hunk after the given row (for `}` navigation):
    /// the start row of the first hunk starting after `current_row`.
    pub fn next_hunk_row(&self, current_row: usize) -> (r: Option<usize>)
        ensures
            r matches Some(x) ==> exists|k: int|
                0 <= k < self.spec_hunks().len() && self.spec_hunks()[k].start_row == x && x > current_row
                    && forall|j: int| 0 <= j < k ==> #[trigger] self.spec_hunks()[j].start_row <= current_row,
            r is None ==> forall|k: int|
                0 <= k < self.spec_hunks().len() ==> #[trigger] self.spec_hunks()[k].start_row <= current_row,
    {
        proof {
            use_type_invariant(self);
        }
        let idx = partition_point_start(self.hunks.as_slice(), current_row, false);
        if idx < self.hunks.len() {
            assert(self.spec_hunks()[idx as int].start_row == self.hunks@[idx as int].start_row);
            Some(self.hunks[idx].start_row)
        } else {
            None
        }
    }

    /// Find the previous hunk before the given row (for `{` navigation):
    /// the start row of the last hunk starting before `current_row`.
    pub fn prev_hunk_row(&self, current_row: usize) -> (r: Option<usize>)
        ensures
            r matches Some(x) ==> exists|k: int|
                0 <= k < self.spec_hunks().len() && self.spec_hunks()[k].start_row == x && x < current_row
                    && forall|j: int| k < j < self.spec_hunks().len() ==> #[trigger] self.spec_hunks()[j].start_row >= current_row,
            r is None ==> forall|k: int|
                0 <= k < self.spec_hunks().len() ==> #[trigger] self.spec_hunks()[k].start_row >= current_row,
    {
        proof {
            use_type_invariant(self);
        }
        let idx = partition_point_start(self.hunks.as_slice(), current_row, true);
        if idx > 0 {
            assert(self.spec_hunks()[idx - 1].start_row == self.hunks@[idx - 1].start_row);
            Some(self.hunks[idx - 1].start_row)
        } else {
            None
        }
    }

    /// Check if there are any changes.
    pub fn has_changes(&self) -> (r: bool)
        ensures
            r == exists|i: int| 0 <= i < self.spec_rows().len() && #[trigger] self.spec_rows()[i].kind != ChangeKind::Equal,
    {
        let mut i: usize = 0;
        while i < self.rows.len()
            invariant
                i <= self.rows@.len(),
                forall|k: int| 0 <= k < i ==> #[trigger] rows_view(self.rows@)[k].kind == ChangeKind::Equal,
            decreases self.rows@.len() - i,
        {
            assert(rows_view(self.rows@)[i as int] == self.rows@[i as int].view());
            match self.rows[i].kind {
                ChangeKind::Equal => {},
                _ => {
                    assert(self.spec_rows()[i as int].kind != ChangeKind::Equal);
                    return true;
                },
            }
            i = i + 1;
        }
        false
    }

    /// Find the hunk containing a given row: its index, or `None` if the row
    /// is not within any hunk.
    pub fn hunk_at_row(&self, row: usize) -> (r: Option<usize>)
        ensures
            r matches Some(k) ==> k < self.spec_hunks().len() && self.spec_hunks()[k as int].start_row <= row
                < self.spec_hunks()[k as int].start_row + self.spec_hunks()[k as int].row_count,
            r is None ==> forall|k: int| 0 <= k < self.spec_hunks().len() ==> !(#[trigger] self.spec_hunks()[k].start_row <= row
                < self.spec_hunks()[k].start_row + self.spec_hunks()[k].row_count),
    {
        proof {
            use_type_invariant(self);
        }
        let idx = partition_point_start(self.hunks.as_slice(), row, false);
        if idx == 0 {
            return None;
        }
        let candidate_idx = idx - 1;
        let h = self.hunks[candidate_idx];
        if row - h.start_row < h.row_count {
            Some(candidate_idx)
        } else {
            None
        }
    }
}

/// Index of the first hunk whose start is above `x` (or at/above `x` when
/// `strict`): all earlier hunks start at or below (below, when `strict`) `x`.
fn partition_point_start(hs: &[Hunk], x: usize, strict: bool) -> (idx: usize)
    requires
        forall|j: int, k: int| 0 <= j < k < hs@.len() ==> #[trigger] hs@[j].start_row + hs@[j].row_count <= #[trigger] hs@[k].start_row,
        forall|k: int| 0 <= k < hs@.len() ==> #[trigger] hs@[k].row_count >= 1,
    ensures
        idx <= hs@.len(),
        forall|j: int| 0 <= j < idx ==> if strict { #[trigger] hs@[j].start_row < x } else { hs@[j].start_row <= x },
        forall|j: int| idx <= j < hs@.len() ==> if strict { #[trigger] hs@[j].start_row >= x } else { hs@[j].start_row > x },
{
    let mut lo: usize = 0;
    let mut hi: usize = hs.len();
    while lo < hi
        invariant
            lo <= hi <= hs@.len(),
            forall|j: int, k: int| 0 <= j < k < hs@.len() ==> #[trigger] hs@[j].start_row + hs@[j].row_count <= #[trigger] hs@[k].start_row,
            forall|k: int| 0 <= k < hs@.len() ==> #[trigger] hs@[k].row_count >= 1,
            forall|j: int| 0 <= j < lo ==> if strict { #[trigger] hs@[j].start_row < x } else { hs@[j].start_row <= x },
            forall|j: int| hi <= j < hs@.len() ==> if strict { #[trigger] hs@[j].start_row >= x } else { hs@[j].start_row > x },
        decreases hi - lo,
    {
        let mid = lo + (hi - lo) / 2;
        let below = if strict {
            hs[mid].start_row < x
        } else {
            hs[mid].start_row <= x
        };
        if below {
            assert forall|j: int| 0 <= j <= mid implies if strict { #[trigger] hs@[j].start_row < x } else { hs@[j].start_row <= x } by {
                if j < mid {
                    assert(hs@[j].start_row + hs@[j].row_count <= hs@[mid as int].start_row);
                }
            }
            lo = mid + 1;
        } else {
            assert forall|j: int| mid <= j < hs@.len() implies if strict { #[trigger] hs@[j].start_row >= x } else { hs@[j].start_row > x } by {
                if j > mid {
                    assert(hs@[mid as int].start_row + hs@[mid as int].row_count <= hs@[j].start_row);
                }
            }
            hi = mid;
        }
    }
    lo
}

/// Compute the diff with context lines.
/// Groups consecutive delete+insert runs into paired Replace rows.
fn compute_diff(old: &TextBuffer, new: &TextBuffer, context: usize) -> (r: DiffResult)
    ensures
        r.spec_rows() == diff_rows(text_lines(old@), text_lines(new@)),
        r.spec_hunks() == hunks_of(r.spec_rows(), context as nat),
        hunks_well_placed(r.spec_hunks(), r.spec_rows().len()),
        crate::diff_laws::old_lines(r.spec_rows()) == crate::diff_laws::numbered(text_lines(old@), 0),
        crate::diff_laws::new_lines(r.spec_rows()) == crate::diff_laws::numbered(text_lines(new@), 0),
        crate::diff_laws::all_equal(r.spec_rows()) <==> text_lines(old@) == text_lines(new@),
{
    let old_lines = old.lines();
    let new_lines = new.lines();
    assert(strs_view(old_lines@) =~= text_lines(old@));
    assert(strs_view(new_lines@) =~= text_lines(new@));
    let ops = similar_line_changes(&old_lines, &new_lines);
    let ghost opsv = ops_view(ops@);
    let mut changes: Vec<Change> = Vec::new();
    let mut old_line: usize = 0;
    let mut new_line: usize = 0;
    let mut k: usize = 0;
    assert(opsv.skip(0) =~= opsv);
    while k < ops.len()
        invariant
            k <= ops@.len(),
            opsv == ops_view(ops@),
            old_side(opsv) == strs_view(old_lines@),
            new_side(opsv) == strs_view(new_lines@),
            old_line == old_side(opsv.take(k as int)).len(),
            new_line == new_side(opsv.take(k as int)).len(),
            changes_bounded(changes@),
            changes_view(changes@) + changes_from(opsv.skip(k as int), old_line as nat, new_line as nat)
                == changes_from(opsv, 0, 0),
        decreases ops@.len() - k,
    {
        let ghost c0 = changes_view(changes@);
        proof {
            assert(opsv.take(k + 1).drop_last() =~= opsv.take(k as int));
            assert(opsv.take(k + 1).last() == opsv[k as int]);
            lemma_old_side_prefix_len(opsv, k + 1);
            assert(opsv.skip(k as int).drop_first() =~= opsv.skip(k + 1));
            assert(opsv.skip(k as int)[0] == opsv[k as int]);
            assert(old_lines@.len() == strs_view(old_lines@).len());
            assert(new_lines@.len() == strs_view(new_lines@).len());
            assert(old_lines.len() == old_lines@.len());
            assert(new_lines.len() == new_lines@.len());
            assert(opsv[k as int].0 == ops@[k as int].0);
            if opsv[k as int].0 != DiffTag::Insert {
                assert(old_side(opsv.take(k + 1)).len() == old_line + 1);
            }
            if opsv[k as int].0 != DiffTag::Delete {
                assert(new_side(opsv.take(k + 1)).len() == new_line + 1);
            }
        }
        let tag = ops[k].0;
        match tag {
            DiffTag::Equal => {
                changes.push(Change::Equal { old_line, new_line, content: ops[k].1.clone() });
                old_line = old_line + 1;
                new_line = new_line + 1;
            },
            DiffTag::Delete => {
                changes.push(Change::Delete { old_line, content: ops[k].1.clone() });
                old_line = old_line + 1;
            },
            DiffTag::Insert => {
                changes.push(Change::Insert { new_line, content: ops[k].1.clone() });
                new_line = new_line + 1;
            },
        }
        proof {
            assert(changes_view(changes@) =~= c0.push(changes@.last().view()));
            assert(changes_view(changes@) + changes_from(opsv.skip(k + 1), old_line as nat, new_line as nat)
                =~= c0 + changes_from(opsv.skip(k as int), (old_line - if tag != DiffTag::Insert { 1int } else { 0 }) as nat, (new_line - if tag != DiffTag::Delete { 1int } else { 0 }) as nat));
        }
        k = k + 1;
    }
    assert(opsv.skip(k as int) =~= Seq::<(DiffTag, Seq<char>)>::empty());
    assert(changes_view(changes@) =~= changes_from(opsv, 0, 0));
    let rows = pair_changes(changes);
    let hunks = build_hunks(&rows, context);
    proof {
        crate::diff_laws::lemma_rows_keep_sides(opsv);
        let ov = text_lines(old@);
        let nv = text_lines(new@);
        let rv = rows_from(changes_from(opsv, 0, 0), 0);
        if ov == nv {
            assert forall|k: int| 0 <= k < opsv.len() implies (#[trigger] opsv[k]).0 == DiffTag::Equal by {
                assert(opsv[k].0 == ops@[k].0);
            }
            crate::diff_laws::lemma_equal_ops_equal_rows(opsv);
        }
        if crate::diff_laws::all_equal(rv) {
            crate::diff_laws::lemma_diff_rows_shape(ov, nv);
            crate::diff_laws::lemma_equal_rows_same_sides(rv);
            assert(crate::diff_laws::contents(crate::diff_laws::numbered(ov, 0)) =~= ov);
            assert(crate::diff_laws::contents(crate::diff_laws::numbered(nv, 0)) =~= nv);
        }
    }
    DiffResult { rows, hunks }
}

} // verus!
