//! What the rows of a diff keep of the two texts: read down the old side
//! they are the old text's lines, numbered from zero, and down the new side
//! the new text's lines.

use vstd::prelude::*;
use crate::diff::{
    change_flags, changes_from, deletes_in, diff_rows, hunk_scan, hunks_of, new_extent, old_extent, inserts_in, lemma_run_end_bounds,
    new_side, old_side, paired_row, paired_rows, rows_from, run_end, ChangeKind, ChangeV, DiffTag, LineV, RowV,
};

verus! {

/// The old-side lines of rows, as (line number, content), in row order.
pub open spec fn old_lines(rows: Seq<RowV>) -> Seq<(nat, Seq<char>)>
    decreases rows.len(),
{
    if rows.len() == 0 {
        Seq::empty()
    } else {
        let rest = old_lines(rows.drop_first());
        match rows[0].old {
            Some(l) => seq![(l.line_num, l.content)] + rest,
            None => rest,
        }
    }
}

/// The new-side lines of rows, as (line number, content), in row order.
pub open spec fn new_lines(rows: Seq<RowV>) -> Seq<(nat, Seq<char>)>
    decreases rows.len(),
{
    if rows.len() == 0 {
        Seq::empty()
    } else {
        let rest = new_lines(rows.drop_first());
        match rows[0].new {
            Some(l) => seq![(l.line_num, l.content)] + rest,
            None => rest,
        }
    }
}

/// The lines `s`, numbered from `o`.
pub open spec fn numbered(s: Seq<Seq<char>>, o: nat) -> Seq<(nat, Seq<char>)> {
    Seq::new(s.len(), |k: int| ((o + k) as nat, s[k]))
}

/// The old-side entries of `cs[i..]`: equal and deleted lines, in order.
pub open spec fn old_entries(cs: Seq<ChangeV>, i: int) -> Seq<(nat, Seq<char>)>
    decreases cs.len() - i,
{
    if i < 0 || i >= cs.len() {
        Seq::empty()
    } else {
        match cs[i] {
            ChangeV::Equal { old_line, content, .. } => seq![(old_line, content)] + old_entries(cs, i + 1),
            ChangeV::Delete { old_line, content } => seq![(old_line, content)] + old_entries(cs, i + 1),
            ChangeV::Insert { .. } => old_entries(cs, i + 1),
        }
    }
}

/// The new-side entries of `cs[i..]`: equal and inserted lines, in order.
pub open spec fn new_entries(cs: Seq<ChangeV>, i: int) -> Seq<(nat, Seq<char>)>
    decreases cs.len() - i,
{
    if i < 0 || i >= cs.len() {
        Seq::empty()
    } else {
        match cs[i] {
            ChangeV::Equal { new_line, content, .. } => seq![(new_line, content)] + new_entries(cs, i + 1),
            ChangeV::Insert { new_line, content } => seq![(new_line, content)] + new_entries(cs, i + 1),
            ChangeV::Delete { .. } => new_entries(cs, i + 1),
        }
    }
}

proof fn lemma_lines_concat(a: Seq<RowV>, b: Seq<RowV>)
    ensures
        old_lines(a + b) == old_lines(a) + old_lines(b),
        new_lines(a + b) == new_lines(a) + new_lines(b),
    decreases a.len(),
{
    if a.len() == 0 {
        assert(a + b =~= b);
        assert(old_lines(a) =~= Seq::<(nat, Seq<char>)>::empty());
        assert(old_lines(a + b) =~= old_lines(a) + old_lines(b));
        assert(new_lines(a + b) =~= new_lines(a) + new_lines(b));
    } else {
        assert((a + b).drop_first() =~= a.drop_first() + b);
        assert((a + b)[0] == a[0]);
        lemma_lines_concat(a.drop_first(), b);
        assert(old_lines(a + b) =~= old_lines(a) + old_lines(b));
        assert(new_lines(a + b) =~= new_lines(a) + new_lines(b));
    }
}

/// Rows whose old sides are `ds`, in order, then none.
spec fn old_sides_are(rows: Seq<RowV>, ds: Seq<(nat, Seq<char>)>) -> bool {
    &&& ds.len() <= rows.len()
    &&& forall|k: int|
        0 <= k < rows.len() ==> (if k < ds.len() {
            (#[trigger] rows[k]).old matches Some(l) && l.line_num == ds[k].0 && l.content == ds[k].1
        } else {
            rows[k].old is None
        })
}

/// Rows whose new sides are `is`, in order, then none.
spec fn new_sides_are(rows: Seq<RowV>, is: Seq<(nat, Seq<char>)>) -> bool {
    &&& is.len() <= rows.len()
    &&& forall|k: int|
        0 <= k < rows.len() ==> (if k < is.len() {
            (#[trigger] rows[k]).new matches Some(l) && l.line_num == is[k].0 && l.content == is[k].1
        } else {
            rows[k].new is None
        })
}

proof fn lemma_old_sides(rows: Seq<RowV>, ds: Seq<(nat, Seq<char>)>)
    requires
        old_sides_are(rows, ds),
    ensures
        old_lines(rows) == ds,
    decreases rows.len(),
{
    if rows.len() == 0 {
        assert(ds =~= Seq::<(nat, Seq<char>)>::empty());
    } else {
        let rest = rows.drop_first();
        if ds.len() > 0 {
            let dr = ds.drop_first();
            assert forall|k: int| 0 <= k < rest.len() implies (if k < dr.len() {
                (#[trigger] rest[k]).old matches Some(l) && l.line_num == dr[k].0 && l.content == dr[k].1
            } else {
                rest[k].old is None
            }) by {
                assert(rest[k] == rows[k + 1]);
            }
            lemma_old_sides(rest, dr);
            assert(rows[0].old matches Some(l) && l.line_num == ds[0].0 && l.content == ds[0].1);
            assert(old_lines(rows) =~= ds);
        } else {
            assert forall|k: int| 0 <= k < rest.len() implies (if k < ds.len() {
                (#[trigger] rest[k]).old matches Some(l) && l.line_num == ds[k].0 && l.content == ds[k].1
            } else {
                rest[k].old is None
            }) by {
                assert(rest[k] == rows[k + 1]);
            }
            lemma_old_sides(rest, ds);
            assert(rows[0].old is None);
        }
    }
}

proof fn lemma_new_sides(rows: Seq<RowV>, is: Seq<(nat, Seq<char>)>)
    requires
        new_sides_are(rows, is),
    ensures
        new_lines(rows) == is,
    decreases rows.len(),
{
    if rows.len() == 0 {
        assert(is =~= Seq::<(nat, Seq<char>)>::empty());
    } else {
        let rest = rows.drop_first();
        if is.len() > 0 {
            let ir = is.drop_first();
            assert forall|k: int| 0 <= k < rest.len() implies (if k < ir.len() {
                (#[trigger] rest[k]).new matches Some(l) && l.line_num == ir[k].0 && l.content == ir[k].1
            } else {
                rest[k].new is None
            }) by {
                assert(rest[k] == rows[k + 1]);
            }
            lemma_new_sides(rest, ir);
            assert(rows[0].new matches Some(l) && l.line_num == is[0].0 && l.content == is[0].1);
            assert(new_lines(rows) =~= is);
        } else {
            assert forall|k: int| 0 <= k < rest.len() implies (if k < is.len() {
                (#[trigger] rest[k]).new matches Some(l) && l.line_num == is[k].0 && l.content == is[k].1
            } else {
                rest[k].new is None
            }) by {
                assert(rest[k] == rows[k + 1]);
            }
            lemma_new_sides(rest, is);
            assert(rows[0].new is None);
        }
    }
}

proof fn lemma_paired_sides(ds: Seq<(nat, Seq<char>)>, is: Seq<(nat, Seq<char>)>)
    ensures
        old_lines(paired_rows(ds, is)) == ds,
        new_lines(paired_rows(ds, is)) == is,
{
    let rows = paired_rows(ds, is);
    assert forall|k: int| 0 <= k < rows.len() implies (if k < ds.len() {
        (#[trigger] rows[k]).old matches Some(l) && l.line_num == ds[k].0 && l.content == ds[k].1
    } else {
        rows[k].old is None
    }) by {
        assert(rows[k] == paired_row(ds, is, k));
    }
    assert forall|k: int| 0 <= k < rows.len() implies (if k < is.len() {
        (#[trigger] rows[k]).new matches Some(l) && l.line_num == is[k].0 && l.content == is[k].1
    } else {
        rows[k].new is None
    }) by {
        assert(rows[k] == paired_row(ds, is, k));
    }
    lemma_old_sides(rows, ds);
    lemma_new_sides(rows, is);
}

proof fn lemma_entries_run(cs: Seq<ChangeV>, i: int, j: int)
    requires
        0 <= i <= j <= cs.len(),
        forall|k: int| i <= k < j ==> !(cs[k] is Equal),
    ensures
        old_entries(cs, i) == deletes_in(cs, i, j) + old_entries(cs, j),
        new_entries(cs, i) == inserts_in(cs, i, j) + new_entries(cs, j),
    decreases j - i,
{
    if j == i {
        assert(deletes_in(cs, i, j) =~= Seq::<(nat, Seq<char>)>::empty());
        assert(inserts_in(cs, i, j) =~= Seq::<(nat, Seq<char>)>::empty());
        assert(old_entries(cs, i) =~= deletes_in(cs, i, j) + old_entries(cs, j));
        assert(new_entries(cs, i) =~= inserts_in(cs, i, j) + new_entries(cs, j));
    } else {
        lemma_entries_run(cs, i, j - 1);
        match cs[j - 1] {
            ChangeV::Delete { old_line, content } => {
                assert(old_entries(cs, j - 1) == seq![(old_line, content)] + old_entries(cs, j));
                assert(new_entries(cs, j - 1) == new_entries(cs, j));
            },
            ChangeV::Insert { new_line, content } => {
                assert(old_entries(cs, j - 1) == old_entries(cs, j));
                assert(new_entries(cs, j - 1) == seq![(new_line, content)] + new_entries(cs, j));
            },
            ChangeV::Equal { .. } => {
                assert(false);
            },
        }
        assert(old_entries(cs, i) =~= deletes_in(cs, i, j) + old_entries(cs, j));
        assert(new_entries(cs, i) =~= inserts_in(cs, i, j) + new_entries(cs, j));
    }
}

proof fn lemma_rows_entries(cs: Seq<ChangeV>, i: int)
    requires
        0 <= i,
    ensures
        old_lines(rows_from(cs, i)) == old_entries(cs, i),
        new_lines(rows_from(cs, i)) == new_entries(cs, i),
    decreases cs.len() - i,
{
    if i >= cs.len() {
        assert(old_lines(rows_from(cs, i)) =~= old_entries(cs, i));
        assert(new_lines(rows_from(cs, i)) =~= new_entries(cs, i));
    } else {
        match cs[i] {
            ChangeV::Equal { old_line, new_line, content } => {
                let row = RowV {
                    old: Some(LineV { line_num: old_line, content, spans: None }),
                    new: Some(LineV { line_num: new_line, content, spans: None }),
                    kind: crate::diff::ChangeKind::Equal,
                };
                assert(rows_from(cs, i) == seq![row] + rows_from(cs, i + 1));
                lemma_lines_concat(seq![row], rows_from(cs, i + 1));
                lemma_rows_entries(cs, i + 1);
                assert(seq![row].drop_first() =~= Seq::<RowV>::empty());
                assert(old_lines(Seq::<RowV>::empty()) =~= Seq::<(nat, Seq<char>)>::empty());
                assert(new_lines(Seq::<RowV>::empty()) =~= Seq::<(nat, Seq<char>)>::empty());
                assert(old_lines(seq![row]) =~= seq![(old_line, content)]);
                assert(new_lines(seq![row]) =~= seq![(new_line, content)]);
            },
            _ => {
                let j = run_end(cs, i + 1);
                lemma_run_end_bounds(cs, i + 1);
                let ds = deletes_in(cs, i, j);
                let is = inserts_in(cs, i, j);
                assert(rows_from(cs, i) == paired_rows(ds, is) + rows_from(cs, j));
                lemma_lines_concat(paired_rows(ds, is), rows_from(cs, j));
                lemma_paired_sides(ds, is);
                lemma_rows_entries(cs, j);
                lemma_entries_run(cs, i, j);
            },
        }
    }
}

proof fn lemma_entries_shift(x: ChangeV, t: Seq<ChangeV>, i: int)
    requires
        0 <= i,
    ensures
        old_entries(seq![x] + t, i + 1) == old_entries(t, i),
        new_entries(seq![x] + t, i + 1) == new_entries(t, i),
    decreases t.len() - i,
{
    if i < t.len() {
        assert((seq![x] + t)[i + 1] == t[i]);
        lemma_entries_shift(x, t, i + 1);
    }
}

proof fn lemma_sides_cons(x: (DiffTag, Seq<char>), rest: Seq<(DiffTag, Seq<char>)>)
    ensures
        old_side(seq![x] + rest) == (if x.0 != DiffTag::Insert {
            seq![x.1]
        } else {
            Seq::empty()
        }) + old_side(rest),
        new_side(seq![x] + rest) == (if x.0 != DiffTag::Delete {
            seq![x.1]
        } else {
            Seq::empty()
        }) + new_side(rest),
    decreases rest.len(),
{
    if rest.len() == 0 {
        assert(seq![x] + rest =~= seq![x]);
        assert(seq![x].drop_last() =~= Seq::<(DiffTag, Seq<char>)>::empty());
        assert(old_side(Seq::<(DiffTag, Seq<char>)>::empty()) =~= Seq::<Seq<char>>::empty());
        assert(new_side(Seq::<(DiffTag, Seq<char>)>::empty()) =~= Seq::<Seq<char>>::empty());
        assert(rest =~= Seq::<(DiffTag, Seq<char>)>::empty());
        assert(old_side(seq![x] + rest) =~= (if x.0 != DiffTag::Insert {
            seq![x.1]
        } else {
            Seq::empty()
        }) + old_side(rest));
        assert(new_side(seq![x] + rest) =~= (if x.0 != DiffTag::Delete {
            seq![x.1]
        } else {
            Seq::empty()
        }) + new_side(rest));
    } else {
        assert((seq![x] + rest).drop_last() =~= seq![x] + rest.drop_last());
        assert((seq![x] + rest).last() == rest.last());
        lemma_sides_cons(x, rest.drop_last());
        assert(old_side(seq![x] + rest) =~= (if x.0 != DiffTag::Insert {
            seq![x.1]
        } else {
            Seq::empty()
        }) + old_side(rest));
        assert(new_side(seq![x] + rest) =~= (if x.0 != DiffTag::Delete {
            seq![x.1]
        } else {
            Seq::empty()
        }) + new_side(rest));
    }
}

proof fn lemma_changes_entries(ops: Seq<(DiffTag, Seq<char>)>, o: nat, n: nat)
    ensures
        old_entries(changes_from(ops, o, n), 0) == numbered(old_side(ops), o),
        new_entries(changes_from(ops, o, n), 0) == numbered(new_side(ops), n),
    decreases ops.len(),
{
    if ops.len() == 0 {
        assert(old_entries(changes_from(ops, o, n), 0) =~= numbered(old_side(ops), o));
        assert(new_entries(changes_from(ops, o, n), 0) =~= numbered(new_side(ops), n));
    } else {
        let x = ops[0];
        let rest = ops.drop_first();
        assert(ops =~= seq![x] + rest);
        lemma_sides_cons(x, rest);
        let (o2, n2): (nat, nat) = match x.0 {
            DiffTag::Equal => (o + 1, n + 1),
            DiffTag::Delete => (o + 1, n),
            DiffTag::Insert => (o, n + 1),
        };
        let c0 = match x.0 {
            DiffTag::Equal => ChangeV::Equal { old_line: o, new_line: n, content: x.1 },
            DiffTag::Delete => ChangeV::Delete { old_line: o, content: x.1 },
            DiffTag::Insert => ChangeV::Insert { new_line: n, content: x.1 },
        };
        let tail = changes_from(rest, o2, n2);
        assert(changes_from(ops, o, n) == seq![c0] + tail);
        lemma_entries_shift(c0, tail, 0);
        lemma_changes_entries(rest, o2, n2);
        assert(old_entries(changes_from(ops, o, n), 0) =~= numbered(old_side(ops), o));
        assert(new_entries(changes_from(ops, o, n), 0) =~= numbered(new_side(ops), n));
    }
}

/// Read down either side, the rows built from a change list give that
/// side's lines of the change list, numbered from zero.
pub proof fn lemma_rows_keep_sides(ops: Seq<(DiffTag, Seq<char>)>)
    ensures
        old_lines(rows_from(changes_from(ops, 0, 0), 0)) == numbered(old_side(ops), 0),
        new_lines(rows_from(changes_from(ops, 0, 0), 0)) == numbered(new_side(ops), 0),
{
    lemma_rows_entries(changes_from(ops, 0, 0), 0);
    lemma_changes_entries(ops, 0, 0);
}


// ---------------------------------------------------------------------------
// The shape of each row, and how many there are
// ---------------------------------------------------------------------------

/// A row has the sides its kind calls for: an equal row both, with the same
/// content; a deletion only the old side; an insertion only the new side; a
/// replacement both.
pub open spec fn row_shape_ok(r: RowV) -> bool {
    match r.kind {
        ChangeKind::Equal => r.old is Some && r.new is Some && r.old->0.content == r.new->0.content,
        ChangeKind::Delete => r.old is Some && r.new is None,
        ChangeKind::Insert => r.old is None && r.new is Some,
        ChangeKind::Replace => r.old is Some && r.new is Some,
    }
}

/// Every row has the sides its kind calls for.
pub open spec fn rows_shaped(rows: Seq<RowV>) -> bool {
    forall|k: int| 0 <= k < rows.len() ==> row_shape_ok(#[trigger] rows[k])
}

proof fn lemma_shaped_concat(a: Seq<RowV>, b: Seq<RowV>)
    requires
        rows_shaped(a),
        rows_shaped(b),
    ensures
        rows_shaped(a + b),
{
    assert forall|k: int| 0 <= k < (a + b).len() implies row_shape_ok(#[trigger] (a + b)[k]) by {
        if k < a.len() {
            assert((a + b)[k] == a[k]);
        } else {
            assert((a + b)[k] == b[k - a.len()]);
        }
    }
}

proof fn lemma_rows_from_shaped(cs: Seq<ChangeV>, i: int)
    requires
        0 <= i,
    ensures
        rows_shaped(rows_from(cs, i)),
    decreases cs.len() - i,
{
    if i < cs.len() {
        match cs[i] {
            ChangeV::Equal { old_line, new_line, content } => {
                let row = RowV {
                    old: Some(LineV { line_num: old_line, content, spans: None }),
                    new: Some(LineV { line_num: new_line, content, spans: None }),
                    kind: ChangeKind::Equal,
                };
                lemma_rows_from_shaped(cs, i + 1);
                assert(row_shape_ok(seq![row][0]));
                lemma_shaped_concat(seq![row], rows_from(cs, i + 1));
            },
            _ => {
                let j = run_end(cs, i + 1);
                lemma_run_end_bounds(cs, i + 1);
                let ds = deletes_in(cs, i, j);
                let is = inserts_in(cs, i, j);
                let p = paired_rows(ds, is);
                assert forall|k: int| 0 <= k < p.len() implies row_shape_ok(#[trigger] p[k]) by {
                    assert(p[k] == paired_row(ds, is, k));
                }
                lemma_rows_from_shaped(cs, j);
                lemma_shaped_concat(p, rows_from(cs, j));
            },
        }
    }
}

proof fn lemma_count_by_sides(rows: Seq<RowV>)
    requires
        rows_shaped(rows),
    ensures
        rows.len() <= old_lines(rows).len() + new_lines(rows).len(),
    decreases rows.len(),
{
    if rows.len() > 0 {
        assert(row_shape_ok(rows[0]));
        assert forall|k: int| 0 <= k < rows.drop_first().len() implies row_shape_ok(
            #[trigger] rows.drop_first()[k],
        ) by {
            assert(rows.drop_first()[k] == rows[k + 1]);
        }
        lemma_count_by_sides(rows.drop_first());
    }
}

/// Law: every row of a line diff has the sides its kind calls for (equal
/// rows show the same line on both sides), and there are no more rows than
/// old-side and new-side lines together.
pub proof fn lemma_diff_rows_shape(old: Seq<Seq<char>>, new: Seq<Seq<char>>)
    ensures
        rows_shaped(diff_rows(old, new)),
        diff_rows(old, new).len() <= old_lines(diff_rows(old, new)).len() + new_lines(diff_rows(old, new)).len(),
{
    lemma_rows_from_shaped(changes_from(crate::diff::line_diff(old, new), 0, 0), 0);
    lemma_count_by_sides(diff_rows(old, new));
}

// ---------------------------------------------------------------------------
// When a diff has changes
// ---------------------------------------------------------------------------

/// The contents of numbered lines.
pub open spec fn contents(v: Seq<(nat, Seq<char>)>) -> Seq<Seq<char>> {
    v.map_values(|p: (nat, Seq<char>)| p.1)
}

/// No row is a change.
pub open spec fn all_equal(rows: Seq<RowV>) -> bool {
    forall|k: int| 0 <= k < rows.len() ==> (#[trigger] rows[k]).kind == ChangeKind::Equal
}

/// Rows that are all equal show the same contents on both sides.
pub proof fn lemma_equal_rows_same_sides(rows: Seq<RowV>)
    requires
        rows_shaped(rows),
        all_equal(rows),
    ensures
        contents(old_lines(rows)) == contents(new_lines(rows)),
    decreases rows.len(),
{
    if rows.len() == 0 {
        assert(contents(old_lines(rows)) =~= contents(new_lines(rows)));
    } else {
        let t = rows.drop_first();
        assert(row_shape_ok(rows[0]) && rows[0].kind == ChangeKind::Equal);
        assert forall|k: int| 0 <= k < t.len() implies row_shape_ok(#[trigger] t[k]) by {
            assert(t[k] == rows[k + 1]);
        }
        assert forall|k: int| 0 <= k < t.len() implies (#[trigger] t[k]).kind == ChangeKind::Equal by {
            assert(t[k] == rows[k + 1]);
        }
        lemma_equal_rows_same_sides(t);
        let o = rows[0].old->0;
        let n = rows[0].new->0;
        assert(old_lines(rows) == seq![(o.line_num, o.content)] + old_lines(t));
        assert(new_lines(rows) == seq![(n.line_num, n.content)] + new_lines(t));
        assert(contents(old_lines(rows)) =~= seq![o.content] + contents(old_lines(t)));
        assert(contents(new_lines(rows)) =~= seq![n.content] + contents(new_lines(t)));
    }
}

proof fn lemma_changes_all_equal(ops: Seq<(DiffTag, Seq<char>)>, o: nat, n: nat)
    requires
        forall|k: int| 0 <= k < ops.len() ==> (#[trigger] ops[k]).0 == DiffTag::Equal,
    ensures
        forall|k: int| 0 <= k < changes_from(ops, o, n).len() ==> (#[trigger] changes_from(ops, o, n)[k]) is Equal,
        changes_from(ops, o, n).len() == ops.len(),
    decreases ops.len(),
{
    if ops.len() > 0 {
        let rest = ops.drop_first();
        assert forall|k: int| 0 <= k < rest.len() implies (#[trigger] rest[k]).0 == DiffTag::Equal by {
            assert(rest[k] == ops[k + 1]);
        }
        lemma_changes_all_equal(rest, o + 1, n + 1);
        assert(ops[0].0 == DiffTag::Equal);
        let c = changes_from(ops, o, n);
        let t = changes_from(rest, o + 1, n + 1);
        assert forall|k: int| 0 <= k < c.len() implies (#[trigger] c[k]) is Equal by {
            if k > 0 {
                assert(c[k] == t[k - 1]);
            }
        }
    }
}

proof fn lemma_rows_all_equal(cs: Seq<ChangeV>, i: int)
    requires
        0 <= i,
        forall|k: int| i <= k < cs.len() ==> (#[trigger] cs[k]) is Equal,
    ensures
        all_equal(rows_from(cs, i)),
    decreases cs.len() - i,
{
    if i < cs.len() {
        lemma_rows_all_equal(cs, i + 1);
        let r = rows_from(cs, i);
        let t = rows_from(cs, i + 1);
        assert(cs[i] is Equal);
        assert forall|k: int| 0 <= k < r.len() implies (#[trigger] r[k]).kind == ChangeKind::Equal by {
            if k > 0 {
                assert(r[k] == t[k - 1]);
            }
        }
    }
}

/// A change list of equal entries only gives rows of equal lines only.
pub proof fn lemma_equal_ops_equal_rows(ops: Seq<(DiffTag, Seq<char>)>)
    requires
        forall|k: int| 0 <= k < ops.len() ==> (#[trigger] ops[k]).0 == DiffTag::Equal,
    ensures
        all_equal(rows_from(changes_from(ops, 0, 0), 0)),
{
    lemma_changes_all_equal(ops, 0, 0);
    lemma_rows_all_equal(changes_from(ops, 0, 0), 0);
}

/// Scanning for hunks finds one exactly when a hunk is open or a change
/// lies ahead.
proof fn lemma_scan_nonempty(ch: Seq<bool>, ctx: nat, i: int, open: Option<(nat, nat)>)
    requires
        0 <= i <= ch.len(),
    ensures
        hunk_scan(ch, ctx, i, open).len() > 0 <==> (open is Some || exists|j: int| i <= j < ch.len() && ch[j]),
    decreases ch.len() - i,
{
    if i < ch.len() {
        if ch[i] {
            let s = match open {
                None => if i >= ctx { (i - ctx) as nat } else { 0nat },
                Some((s, _)) => s,
            };
            lemma_scan_nonempty(ch, ctx, i + 1, Some((s, i as nat)));
        } else {
            match open {
                Some((s, l)) => {
                    if i - l >= 2 * ctx {
                    } else {
                        lemma_scan_nonempty(ch, ctx, i + 1, open);
                    }
                },
                None => {
                    lemma_scan_nonempty(ch, ctx, i + 1, None);
                    if exists|j: int| i <= j < ch.len() && ch[j] {
                        let j = choose|j: int| i <= j < ch.len() && ch[j];
                        assert(j != i);
                    }
                },
            }
        }
    }
}

/// Law: rows have hunks exactly when some row is a change.
pub proof fn lemma_hunks_iff_changes(rows: Seq<RowV>, ctx: nat)
    ensures
        hunks_of(rows, ctx).len() > 0 <==> exists|k: int| 0 <= k < rows.len() && (#[trigger] rows[k]).kind != ChangeKind::Equal,
{
    let ch = change_flags(rows);
    lemma_scan_nonempty(ch, ctx, 0, None);
    if exists|k: int| 0 <= k < rows.len() && (#[trigger] rows[k]).kind != ChangeKind::Equal {
        let k = choose|k: int| 0 <= k < rows.len() && (#[trigger] rows[k]).kind != ChangeKind::Equal;
        assert(ch[k]);
    }
    if exists|j: int| 0 <= j < ch.len() && ch[j] {
        let j = choose|j: int| 0 <= j < ch.len() && ch[j];
        assert(rows[j].kind != ChangeKind::Equal);
    }
}


/// What a scan for hunks finds: each segment lies within the rows and
/// holds a change; every change from `i` on lies in a segment; and an open
/// hunk is the first segment, holding its last change.
#[verifier::spinoff_prover]
proof fn lemma_scan_cover(ch: Seq<bool>, ctx: nat, i: int, open: Option<(nat, nat)>)
    requires
        0 <= i <= ch.len(),
        open matches Some((s, l)) ==> s <= l < i && ch[l as int],
    ensures
        ({
            let h = hunk_scan(ch, ctx, i, open);
            &&& forall|k: int| 0 <= k < h.len() ==> (#[trigger] h[k]).1 <= ch.len()
            &&& forall|k: int| 0 <= k < h.len() ==> exists|p: int| (#[trigger] h[k]).0 <= p < h[k].1 && #[trigger] ch[p]
            &&& forall|j: int| i <= j < ch.len() && ch[j] ==> exists|k: int| 0 <= k < h.len() && (#[trigger] h[k]).0 <= j < h[k].1
            &&& open matches Some((s, l)) ==> h.len() > 0 && h[0].0 == s && h[0].1 > l
        }),
    decreases ch.len() - i,
{
    let h = hunk_scan(ch, ctx, i, open);
    if i >= ch.len() {
        match open {
            None => {},
            Some((s, l)) => {
                assert(h.len() == 1);
                assert(h[0].1 <= ch.len());
                assert(exists|p: int| h[0].0 <= p < h[0].1 && #[trigger] ch[p]) by {
                    assert(h[0].0 <= l as int && (l as int) < h[0].1 && ch[l as int]);
                }
            },
        }
    } else if ch[i] {
        let s = match open {
            None => if i >= ctx { (i - ctx) as nat } else { 0nat },
            Some((s, _)) => s,
        };
        lemma_scan_cover(ch, ctx, i + 1, Some((s, i as nat)));
        assert(h == hunk_scan(ch, ctx, i + 1, Some((s, i as nat))));
        assert forall|j: int| i <= j < ch.len() && ch[j] implies exists|k: int|
            0 <= k < h.len() && (#[trigger] h[k]).0 <= j < h[k].1 by {
            if j == i {
                assert(h[0].0 <= j < h[0].1);
            }
        }
    } else {
        match open {
            Some((s, l)) => {
                if i - l >= 2 * ctx {
                    let first = (s, (l + ctx + 1) as nat);
                    let rest = hunk_scan(ch, ctx, i + 1, None);
                    lemma_scan_cover(ch, ctx, i + 1, None);
                    assert(h == seq![first] + rest);
                    assert forall|k: int| 0 <= k < h.len() implies (#[trigger] h[k]).1 <= ch.len() by {
                        if k > 0 {
                            assert(h[k] == rest[k - 1]);
                        }
                    }
                    assert forall|k: int| 0 <= k < h.len() implies exists|p: int| (#[trigger] h[k]).0 <= p < h[k].1
                        && #[trigger] ch[p] by {
                        if k > 0 {
                            assert(h[k] == rest[k - 1]);
                        } else {
                            assert(h[0].0 <= l as int && (l as int) < h[0].1 && ch[l as int]);
                        }
                    }
                    assert forall|j: int| i <= j < ch.len() && ch[j] implies exists|k: int|
                        0 <= k < h.len() && (#[trigger] h[k]).0 <= j < h[k].1 by {
                        assert(j != i);
                        let k = choose|k: int| 0 <= k < rest.len() && (#[trigger] rest[k]).0 <= j < rest[k].1;
                        assert(h[k + 1] == rest[k]);
                    }
                } else {
                    lemma_scan_cover(ch, ctx, i + 1, open);
                    assert(h == hunk_scan(ch, ctx, i + 1, open));
                    assert forall|j: int| i <= j < ch.len() && ch[j] implies exists|k: int|
                        0 <= k < h.len() && (#[trigger] h[k]).0 <= j < h[k].1 by {
                        assert(j != i);
                    }
                }
            },
            None => {
                lemma_scan_cover(ch, ctx, i + 1, None);
                assert(h == hunk_scan(ch, ctx, i + 1, None));
                assert forall|j: int| i <= j < ch.len() && ch[j] implies exists|k: int|
                    0 <= k < h.len() && (#[trigger] h[k]).0 <= j < h[k].1 by {
                    assert(j != i);
                }
            },
        }
    }
}

/// Some row of hunk `h` is a change.
pub open spec fn hunk_has_change(rows: Seq<RowV>, h: crate::diff::Hunk) -> bool {
    exists|p: int| h.start_row <= p < h.start_row + h.row_count && (#[trigger] rows[p]).kind != ChangeKind::Equal
}

/// Row `p` lies in one of the hunks `hs`.
pub open spec fn row_in_hunks(hs: Seq<crate::diff::Hunk>, p: int) -> bool {
    exists|k: int| 0 <= k < hs.len() && (#[trigger] hs[k]).start_row <= p < hs[k].start_row + hs[k].row_count
}

/// Law: every hunk holds a change, and every change lies in a hunk.
pub proof fn lemma_hunks_cover_changes(rows: Seq<RowV>, ctx: nat)
    requires
        rows.len() <= usize::MAX,
    ensures
        forall|k: int| 0 <= k < hunks_of(rows, ctx).len() ==> hunk_has_change(rows, #[trigger] hunks_of(rows, ctx)[k]),
        forall|p: int| 0 <= p < rows.len() && (#[trigger] rows[p]).kind != ChangeKind::Equal ==> row_in_hunks(
            hunks_of(rows, ctx),
            p,
        ),
{
    let ch = change_flags(rows);
    let b = hunk_scan(ch, ctx, 0, None);
    let hs = hunks_of(rows, ctx);
    lemma_scan_cover(ch, ctx, 0, None);
    assert(ch.len() == rows.len());
    assert forall|k: int| 0 <= k < hs.len() implies hunk_has_change(rows, #[trigger] hs[k]) by {
        assert(b[k].1 <= ch.len());
        let p = choose|p: int| b[k].0 <= p < b[k].1 && #[trigger] ch[p];
        assert(hs[k] == crate::diff::hunk_spec(rows, b[k].0, b[k].1));
        assert(rows[p].kind != ChangeKind::Equal);
        assert(hs[k].start_row <= p && p < hs[k].start_row + hs[k].row_count);
    }
    assert forall|p: int| 0 <= p < rows.len() && (#[trigger] rows[p]).kind != ChangeKind::Equal implies row_in_hunks(
        hs,
        p,
    ) by {
        assert(ch[p]);
        let k = choose|k: int| 0 <= k < b.len() && (#[trigger] b[k]).0 <= p < b[k].1;
        assert(b[k].1 <= ch.len());
        assert(hs[k] == crate::diff::hunk_spec(rows, b[k].0, b[k].1));
        assert(hs[k].start_row == b[k].0 && hs[k].row_count == b[k].1 - b[k].0);
    }
}


/// Law: a side's extent over rows `s..e` is none exactly when no row there
/// has that side, and otherwise the smallest and largest line numbers of
/// that side there; a hunk's range of a side is that extent as (start,
/// count), or (0, 0).
pub proof fn lemma_extents(rows: Seq<RowV>, s: int, e: int)
    requires
        0 <= s <= e <= rows.len(),
    ensures
        old_extent(rows, s, e) is None <==> forall|k: int| s <= k < e ==> (#[trigger] rows[k]).old is None,
        old_extent(rows, s, e) matches Some((lo, hi)) ==> {
            &&& exists|k: int| s <= k < e && (#[trigger] rows[k]).old is Some && rows[k].old->0.line_num == lo
            &&& exists|k: int| s <= k < e && (#[trigger] rows[k]).old is Some && rows[k].old->0.line_num == hi
            &&& forall|k: int| s <= k < e && (#[trigger] rows[k]).old is Some ==> lo <= rows[k].old->0.line_num <= hi
        },
        new_extent(rows, s, e) is None <==> forall|k: int| s <= k < e ==> (#[trigger] rows[k]).new is None,
        new_extent(rows, s, e) matches Some((lo, hi)) ==> {
            &&& exists|k: int| s <= k < e && (#[trigger] rows[k]).new is Some && rows[k].new->0.line_num == lo
            &&& exists|k: int| s <= k < e && (#[trigger] rows[k]).new is Some && rows[k].new->0.line_num == hi
            &&& forall|k: int| s <= k < e && (#[trigger] rows[k]).new is Some ==> lo <= rows[k].new->0.line_num <= hi
        },
    decreases e - s,
{
    if e > s {
        lemma_extents(rows, s, e - 1);
        let r = rows[e - 1];
        match old_extent(rows, s, e - 1) {
            None => {},
            Some((lo, hi)) => {
                if r.old is Some {
                    let w1 = choose|k: int| s <= k < e - 1 && (#[trigger] rows[k]).old is Some && rows[k].old->0.line_num == lo;
                    let w2 = choose|k: int| s <= k < e - 1 && (#[trigger] rows[k]).old is Some && rows[k].old->0.line_num == hi;
                    assert(rows[w1].old is Some && rows[w2].old is Some);
                }
            },
        }
        match new_extent(rows, s, e - 1) {
            None => {},
            Some((lo, hi)) => {
                if r.new is Some {
                    let w1 = choose|k: int| s <= k < e - 1 && (#[trigger] rows[k]).new is Some && rows[k].new->0.line_num == lo;
                    let w2 = choose|k: int| s <= k < e - 1 && (#[trigger] rows[k]).new is Some && rows[k].new->0.line_num == hi;
                    assert(rows[w1].new is Some && rows[w2].new is Some);
                }
            },
        }
    }
}


/// Where a scan's first segment can start at the earliest.
pub open spec fn scan_floor(ctx: nat, i: int, open: Option<(nat, nat)>) -> int {
    match open {
        Some((s, _)) => s as int,
        None => if i >= ctx { i - ctx } else { 0 },
    }
}

/// A scan's segments are non-empty, in order and apart, and none starts
/// before the scan's floor.
#[verifier::spinoff_prover]
#[verifier::rlimit(40)]
proof fn lemma_scan_ordered(ch: Seq<bool>, ctx: nat, i: int, open: Option<(nat, nat)>)
    requires
        0 <= i <= ch.len(),
        open matches Some((s, l)) ==> s <= l < i && ch[l as int],
    ensures
        ({
            let h = hunk_scan(ch, ctx, i, open);
            &&& forall|k: int| 0 <= k < h.len() ==> (#[trigger] h[k]).0 < h[k].1
            &&& forall|k: int| 0 <= k < h.len() ==> (#[trigger] h[k]).0 >= scan_floor(ctx, i, open)
            &&& forall|a: int, b: int| 0 <= a < b < h.len() ==> (#[trigger] h[a]).1 <= (#[trigger] h[b]).0
        }),
    decreases ch.len() - i,
{
    let h = hunk_scan(ch, ctx, i, open);
    if i >= ch.len() {
    } else if ch[i] {
        let s = match open {
            None => if i >= ctx { (i - ctx) as nat } else { 0nat },
            Some((s, _)) => s,
        };
        lemma_scan_ordered(ch, ctx, i + 1, Some((s, i as nat)));
        assert(h == hunk_scan(ch, ctx, i + 1, Some((s, i as nat))));
    } else {
        match open {
            Some((s, l)) => {
                if i - l >= 2 * ctx {
                    let first = (s, (l + ctx + 1) as nat);
                    let rest = hunk_scan(ch, ctx, i + 1, None);
                    lemma_scan_ordered(ch, ctx, i + 1, None);
                    assert(h == seq![first] + rest);
                    assert(l + ctx + 1 <= scan_floor(ctx, i + 1, None));
                    assert forall|k: int| 0 <= k < h.len() implies (#[trigger] h[k]).0 < h[k].1 by {
                        if k > 0 {
                            assert(h[k] == rest[k - 1]);
                        }
                    }
                    assert forall|k: int| 0 <= k < h.len() implies (#[trigger] h[k]).0 >= scan_floor(ctx, i, open) by {
                        if k > 0 {
                            assert(h[k] == rest[k - 1]);
                        }
                    }
                    assert forall|a: int, b: int| 0 <= a < b < h.len() implies (#[trigger] h[a]).1 <= (
                    #[trigger] h[b]).0 by {
                        assert(h[b] == rest[b - 1]);
                        if a > 0 {
                            assert(h[a] == rest[a - 1]);
                        }
                    }
                } else {
                    lemma_scan_ordered(ch, ctx, i + 1, open);
                    assert(h == hunk_scan(ch, ctx, i + 1, open));
                }
            },
            None => {
                lemma_scan_ordered(ch, ctx, i + 1, None);
                assert(h == hunk_scan(ch, ctx, i + 1, None));
            },
        }
    }
}

/// The hunks of rows are non-empty, lie within the rows, come in order and
/// do not overlap.
#[verifier::spinoff_prover]
pub proof fn lemma_hunks_well_placed(rows: Seq<RowV>, ctx: nat)
    requires
        rows.len() <= usize::MAX,
    ensures
        crate::diff::hunks_well_placed(hunks_of(rows, ctx), rows.len()),
{
    let ch = change_flags(rows);
    let b = hunk_scan(ch, ctx, 0, None);
    let hs = hunks_of(rows, ctx);
    lemma_scan_cover(ch, ctx, 0, None);
    lemma_scan_ordered(ch, ctx, 0, None);
    assert(ch.len() == rows.len());
    assert forall|k: int| 0 <= k < hs.len() implies hs[k].start_row == b[k].0 && hs[k].row_count == b[k].1 - b[k].0
        && b[k].0 < b[k].1 && b[k].1 <= rows.len() by {
        assert(hs[k] == crate::diff::hunk_spec(rows, b[k].0, b[k].1));
    }
    assert forall|j: int, k: int| 0 <= j < k < hs.len() implies #[trigger] hs[j].start_row + hs[j].row_count
        <= #[trigger] hs[k].start_row by {
        assert(b[j].1 <= b[k].0);
    }
}

/// Each hunk's ranges are those of the extents of its rows' sides.
pub proof fn lemma_hunk_ranges(rows: Seq<RowV>, ctx: nat)
    requires
        rows.len() <= usize::MAX,
    ensures
        forall|k: int| 0 <= k < hunks_of(rows, ctx).len() ==> {
            let h = #[trigger] hunks_of(rows, ctx)[k];
            &&& h.old_range == crate::diff::range_of(old_extent(rows, h.start_row as int, h.start_row + h.row_count))
            &&& h.new_range == crate::diff::range_of(new_extent(rows, h.start_row as int, h.start_row + h.row_count))
        },
{
    let ch = change_flags(rows);
    let b = hunk_scan(ch, ctx, 0, None);
    let hs = hunks_of(rows, ctx);
    lemma_scan_cover(ch, ctx, 0, None);
    lemma_scan_ordered(ch, ctx, 0, None);
    assert(ch.len() == rows.len());
    assert forall|k: int| 0 <= k < hs.len() implies {
        let h = #[trigger] hs[k];
        &&& h.old_range == crate::diff::range_of(old_extent(rows, h.start_row as int, h.start_row + h.row_count))
        &&& h.new_range == crate::diff::range_of(new_extent(rows, h.start_row as int, h.start_row + h.row_count))
    } by {
        assert(hs[k] == crate::diff::hunk_spec(rows, b[k].0, b[k].1));
    }
}

/// Law: the hunks of rows are non-empty, lie within the rows, come in order
/// and do not overlap; each holds a change and every change lies in one;
/// and each hunk's ranges are those of the extents of its rows' sides
/// (`lemma_extents` says what an extent is).
pub proof fn lemma_hunk_law(rows: Seq<RowV>, ctx: nat)
    requires
        rows.len() <= usize::MAX,
    ensures
        crate::diff::hunks_well_placed(hunks_of(rows, ctx), rows.len()),
        forall|k: int| 0 <= k < hunks_of(rows, ctx).len() ==> hunk_has_change(rows, #[trigger] hunks_of(rows, ctx)[k]),
        forall|p: int| 0 <= p < rows.len() && (#[trigger] rows[p]).kind != ChangeKind::Equal ==> row_in_hunks(
            hunks_of(rows, ctx),
            p,
        ),
        forall|k: int| 0 <= k < hunks_of(rows, ctx).len() ==> {
            let h = #[trigger] hunks_of(rows, ctx)[k];
            &&& h.old_range == crate::diff::range_of(old_extent(rows, h.start_row as int, h.start_row + h.row_count))
            &&& h.new_range == crate::diff::range_of(new_extent(rows, h.start_row as int, h.start_row + h.row_count))
        },
{
    lemma_hunks_well_placed(rows, ctx);
    lemma_hunks_cover_changes(rows, ctx);
    lemma_hunk_ranges(rows, ctx);
}
} // verus!
