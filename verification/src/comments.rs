//! Comment model and anchor types.

use vstd::prelude::*;
use crate::diff::{ChangeKind, DiffResult, Hunk, RowV};
use crate::repo::RelPath;
use crate::strings::{byte_len, fmt_dec, fmt_hex16, hex_digits, push_all, push_str, string_of,
    chars_of, dec};

verus! {

/// Comment identifier.
pub type CommentId = u64;

/// Context in which a comment was created (which diff it refers to).
#[derive(Debug, PartialEq, Eq)]
pub enum CommentContext {
    /// Legacy comments created before context scoping existed.
    Unscoped,
    /// HEAD vs working tree.
    Worktree,
    /// Merge-base(base, HEAD) vs working tree.
    Base {
        /// The base ref (e.g., "origin/main").
        base: String,
    },
    /// Parent(commit) vs commit.
    Commit {
        /// The commit SHA.
        commit: String,
    },
    /// from..to comparison.
    Range {
        /// Starting commit.
        from: String,
        /// Ending commit.
        to: String,
    },
}

/// Mathematical view of a [`CommentContext`].
pub enum ContextV {
    Unscoped,
    Worktree,
    Base { base: Seq<char> },
    Commit { commit: Seq<char> },
    Range { from: Seq<char>, to: Seq<char> },
}

impl View for CommentContext {
    type V = ContextV;

    open spec fn view(&self) -> ContextV {
        match self {
            CommentContext::Unscoped => ContextV::Unscoped,
            CommentContext::Worktree => ContextV::Worktree,
            CommentContext::Base { base } => ContextV::Base { base: base@ },
            CommentContext::Commit { commit } => ContextV::Commit { commit: commit@ },
            CommentContext::Range { from, to } => ContextV::Range { from: from@, to: to@ },
        }
    }
}

impl Clone for CommentContext {
    fn clone(&self) -> (r: Self)
        ensures
            r@ == self@,
    {
        match self {
            CommentContext::Unscoped => CommentContext::Unscoped,
            CommentContext::Worktree => CommentContext::Worktree,
            CommentContext::Base { base } => CommentContext::Base { base: base.clone() },
            CommentContext::Commit { commit } => CommentContext::Commit { commit: commit.clone() },
            CommentContext::Range { from, to } => CommentContext::Range {
                from: from.clone(),
                to: to.clone(),
            },
        }
    }
}

impl Default for CommentContext {
    fn default() -> (r: Self)
        ensures
            r@ == ContextV::Unscoped,
    {
        CommentContext::Unscoped
    }
}

/// A stored context is relevant for the current view: it is the same
/// context, or it is `Unscoped` (kept for backward compatibility).
pub open spec fn context_matches(stored: ContextV, current: ContextV) -> bool {
    stored is Unscoped || stored == current
}

/// Whether two contexts are the same.
pub fn context_eq(a: &CommentContext, b: &CommentContext) -> (r: bool)
    ensures
        r == (a@ == b@),
{
    match a {
        CommentContext::Unscoped => match b {
            CommentContext::Unscoped => true,
            _ => false,
        },
        CommentContext::Worktree => match b {
            CommentContext::Worktree => true,
            _ => false,
        },
        CommentContext::Base { base: x } => match b {
            CommentContext::Base { base: y } => *x == *y,
            _ => false,
        },
        CommentContext::Commit { commit: x } => match b {
            CommentContext::Commit { commit: y } => *x == *y,
            _ => false,
        },
        CommentContext::Range { from: f1, to: t1 } => match b {
            CommentContext::Range { from: f2, to: t2 } => {
                let same_from = *f1 == *f2;
                let same_to = *t1 == *t2;
                same_from && same_to
            },
            _ => false,
        },
    }
}

impl CommentContext {
    /// Whether this stored context should be considered relevant for the current view.
    ///
    /// `Unscoped` is treated as matching all contexts for backward compatibility.
    pub fn matches(&self, current: &CommentContext) -> (r: bool)
        ensures
            r == context_matches(self@, current@),
    {
        Self::is_unscoped(self) || context_eq(self, current)
    }

    /// Whether `ctx` is the legacy unscoped context.
    pub fn is_unscoped(ctx: &CommentContext) -> (r: bool)
        ensures
            r == (ctx@ is Unscoped),
    {
        match ctx {
            CommentContext::Unscoped => true,
            _ => false,
        }
    }
}

/// Every context matches itself.
pub proof fn lemma_context_matches_reflexive(c: ContextV)
    ensures
        context_matches(c, c),
{
}

/// An unscoped comment is relevant in every context.
pub proof fn lemma_unscoped_matches_all(current: ContextV)
    ensures
        context_matches(ContextV::Unscoped, current),
{
}

/// A scoped comment is relevant only in its own context.
pub proof fn lemma_scoped_matches_only_itself(stored: ContextV, current: ContextV)
    requires
        !(stored is Unscoped),
    ensures
        context_matches(stored, current) <==> stored == current,
{
}

/// Status of a comment.
#[derive(Debug, Clone, Copy, PartialEq, Eq, Structural)]
pub enum CommentStatus {
    /// Comment is unresolved.
    Open,
    /// Comment has been resolved.
    Resolved,
}

/// V1 selector: line ranges + content digest.
#[derive(Debug)]
pub struct DiffHunkSelectorV1 {
    /// Old file line range (start, count).
    pub old_range: (usize, usize),
    /// New file line range (start, count).
    pub new_range: (usize, usize),
    /// FNV-1a 64-bit hash of changed rows, lowercase hex.
    pub digest_hex: String,
}

/// Selector type for locating a comment target.
#[derive(Debug)]
pub enum Selector {
    /// V1 hunk-based selector using line ranges and content digest.
    DiffHunkV1(DiffHunkSelectorV1),
}

/// Mathematical view of a selector.
pub struct SelectorV {
    pub old_range: (usize, usize),
    pub new_range: (usize, usize),
    pub digest: Seq<char>,
}

impl View for DiffHunkSelectorV1 {
    type V = SelectorV;

    open spec fn view(&self) -> SelectorV {
        SelectorV { old_range: self.old_range, new_range: self.new_range, digest: self.digest_hex@ }
    }
}

impl View for Selector {
    type V = SelectorV;

    open spec fn view(&self) -> SelectorV {
        match self {
            Selector::DiffHunkV1(h) => h@,
        }
    }
}

impl Clone for DiffHunkSelectorV1 {
    fn clone(&self) -> (r: Self)
        ensures
            r@ == self@,
    {
        DiffHunkSelectorV1 {
            old_range: self.old_range,
            new_range: self.new_range,
            digest_hex: self.digest_hex.clone(),
        }
    }
}

impl Clone for Selector {
    fn clone(&self) -> (r: Self)
        ensures
            r@ == self@,
    {
        match self {
            Selector::DiffHunkV1(h) => Selector::DiffHunkV1(h.clone()),
        }
    }
}

/// Anchor describing where a comment is attached.
#[derive(Debug)]
pub struct Anchor {
    /// Selectors for locating the comment (tried in order).
    pub selectors: Vec<Selector>,
}

/// Views of a list of selectors.
pub open spec fn selectors_view(v: Seq<Selector>) -> Seq<SelectorV> {
    v.map_values(|s: Selector| s@)
}

impl View for Anchor {
    type V = Seq<SelectorV>;

    open spec fn view(&self) -> Seq<SelectorV> {
        selectors_view(self.selectors@)
    }
}

impl Clone for Anchor {
    fn clone(&self) -> (r: Self)
        ensures
            r@ == self@,
    {
        let mut v: Vec<Selector> = Vec::new();
        let mut i: usize = 0;
        while i < self.selectors.len()
            invariant
                i <= self.selectors@.len(),
                v@.len() == i,
                forall|k: int| 0 <= k < i ==> (#[trigger] v@[k])@ == self.selectors@[k]@,
            decreases self.selectors@.len() - i,
        {
            v.push(self.selectors[i].clone());
            i = i + 1;
        }
        assert(selectors_view(v@) =~= selectors_view(self.selectors@));
        Anchor { selectors: v }
    }
}

/// A hunk-level comment.
#[derive(Debug)]
pub struct Comment {
    /// Unique identifier.
    pub id: CommentId,
    /// Path to the file.
    pub path: RelPath,
    /// Context in which the comment was created.
    pub context: CommentContext,
    /// Comment text.
    pub message: String,
    /// Current status.
    pub status: CommentStatus,
    /// Location anchor.
    pub anchor: Anchor,
    /// Creation timestamp (milliseconds since epoch).
    pub created_at_ms: Option<u64>,
    /// Resolution timestamp (milliseconds since epoch).
    pub resolved_at_ms: Option<u64>,
}

/// Mathematical view of a [`Comment`].
pub struct CommentV {
    pub id: u64,
    pub path: Seq<char>,
    pub context: ContextV,
    pub message: Seq<char>,
    pub status: CommentStatus,
    pub anchor: Seq<SelectorV>,
    pub created_at_ms: Option<u64>,
    pub resolved_at_ms: Option<u64>,
}

impl View for Comment {
    type V = CommentV;

    open spec fn view(&self) -> CommentV {
        CommentV {
            id: self.id,
            path: self.path@,
            context: self.context@,
            message: self.message@,
            status: self.status,
            anchor: self.anchor@,
            created_at_ms: self.created_at_ms,
            resolved_at_ms: self.resolved_at_ms,
        }
    }
}

impl Clone for Comment {
    fn clone(&self) -> (r: Self)
        ensures
            r@ == self@,
    {
        Comment {
            id: self.id,
            path: self.path.clone(),
            context: self.context.clone(),
            message: self.message.clone(),
            status: self.status,
            anchor: self.anchor.clone(),
            created_at_ms: self.created_at_ms,
            resolved_at_ms: self.resolved_at_ms,
        }
    }
}

// ---------------------------------------------------------------------------
// Digest of a hunk's changed rows (FNV-1a, 64 bit)
// ---------------------------------------------------------------------------

/// FNV-1a offset basis.
pub const FNV_OFFSET: u64 = 0xcbf29ce484222325;

/// FNV-1a prime.
pub const FNV_PRIME: u64 = 0x100000001b3;

/// One FNV-1a step: xor in the byte, multiply by the prime (mod 2^64).
pub open spec fn fnv_step(h: u64, b: u8) -> u64 {
    (h ^ (b as u64)).wrapping_mul(FNV_PRIME)
}

/// FNV-1a state after feeding `bs` to state `h`.
pub open spec fn fnv_feed(h: u64, bs: Seq<u8>) -> u64
    decreases bs.len(),
{
    if bs.len() == 0 {
        h
    } else {
        fnv_step(fnv_feed(h, bs.drop_last()), bs.last())
    }
}

/// Feeding a concatenation is feeding its parts in turn.
pub proof fn lemma_fnv_concat(h: u64, a: Seq<u8>, b: Seq<u8>)
    ensures
        fnv_feed(h, a + b) == fnv_feed(fnv_feed(h, a), b),
    decreases b.len(),
{
    if b.len() == 0 {
        assert(a + b =~= a);
    } else {
        assert((a + b).drop_last() =~= a + b.drop_last());
        lemma_fnv_concat(h, a, b.drop_last());
    }
}

/// The bytes `mark`, the UTF-8 of `content`, then a newline.
pub open spec fn side_bytes(mark: u8, content: Seq<char>) -> Seq<u8> {
    seq![mark] + vstd::utf8::encode_utf8(content) + seq![10u8]
}

/// The bytes a row contributes: `-old\n` for a deletion or replacement,
/// then `+new\n` for an insertion or replacement.
pub open spec fn row_bytes(r: RowV) -> Seq<u8> {
    let old_part = match (r.kind, r.old) {
        (ChangeKind::Delete, Some(l)) => side_bytes(45, l.content),
        (ChangeKind::Replace, Some(l)) => side_bytes(45, l.content),
        _ => Seq::empty(),
    };
    let new_part = match (r.kind, r.new) {
        (ChangeKind::Insert, Some(l)) => side_bytes(43, l.content),
        (ChangeKind::Replace, Some(l)) => side_bytes(43, l.content),
        _ => Seq::empty(),
    };
    old_part + new_part
}

/// The bytes of rows `s..e`.
pub open spec fn rows_bytes(rows: Seq<RowV>, s: int, e: int) -> Seq<u8>
    decreases e - s,
{
    if e <= s {
        Seq::empty()
    } else {
        rows_bytes(rows, s, e - 1) + row_bytes(rows[e - 1])
    }
}

/// The digest value of the changed rows of `hunk` (rows past the end of
/// the diff are not there to feed).
pub open spec fn hunk_digest(rows: Seq<RowV>, hunk: Hunk) -> u64 {
    let end = hunk.start_row + hunk.row_count;
    let stop = if end < rows.len() {
        end
    } else {
        rows.len() as int
    };
    fnv_feed(FNV_OFFSET, rows_bytes(rows, hunk.start_row as int, stop))
}

fn feed_bytes(h: u64, bytes: &[u8]) -> (r: u64)
    ensures
        r == fnv_feed(h, bytes@),
{
    let mut hash = h;
    let mut i: usize = 0;
    assert(bytes@.subrange(0, 0) =~= Seq::<u8>::empty());
    while i < bytes.len()
        invariant
            i <= bytes@.len(),
            hash == fnv_feed(h, bytes@.subrange(0, i as int)),
        decreases bytes@.len() - i,
    {
        assert(bytes@.subrange(0, i + 1).drop_last() =~= bytes@.subrange(0, i as int));
        hash = (hash ^ (bytes[i] as u64)).wrapping_mul(FNV_PRIME);
        i = i + 1;
    }
    assert(bytes@.subrange(0, i as int) =~= bytes@);
    hash
}

fn feed_side(h: u64, mark: u8, content: &String) -> (r: u64)
    ensures
        r == fnv_feed(h, side_bytes(mark, content@)),
{
    let b = content.as_str().as_bytes();
    let h1 = (h ^ (mark as u64)).wrapping_mul(FNV_PRIME);
    let h2 = feed_bytes(h1, b);
    let h3 = (h2 ^ 10u64).wrapping_mul(FNV_PRIME);
    proof {
        assert(seq![mark].drop_last() =~= Seq::<u8>::empty());
        assert(seq![mark].last() == mark);
        assert(fnv_feed(h, Seq::<u8>::empty()) == h);
        assert(fnv_feed(h, seq![mark]) == h1);
        assert(seq![10u8].drop_last() =~= Seq::<u8>::empty());
        assert(seq![10u8].last() == 10u8);
        assert(fnv_feed(h2, Seq::<u8>::empty()) == h2);
        assert(fnv_feed(h2, seq![10u8]) == h3);
        lemma_fnv_concat(h, seq![mark], b@);
        lemma_fnv_concat(h, seq![mark] + b@, seq![10u8]);
    }
    h3
}

/// Compute FNV-1a 64-bit digest of changed rows in a hunk.
/// Feeds `-<old_line>\n` for deletions/replaces (old side)
/// and `+<new_line>\n` for insertions/replaces (new side).
pub fn digest_hunk_changed_rows(diff: &DiffResult, hunk: &Hunk) -> (r: String)
    requires
        hunk.start_row + hunk.row_count <= usize::MAX,
    ensures
        r@ == hex_digits(hunk_digest(diff.spec_rows(), *hunk) as nat, 16),
        r@.len() == 16,
{
    let rows = diff.rows();
    let ghost rv = diff.spec_rows();
    let mut hash: u64 = FNV_OFFSET;
    let start = hunk.start_row;
    let end = start + hunk.row_count;
    let stop = if end < rows.len() {
        end
    } else {
        rows.len()
    };
    let mut i = start;
    while i < stop
        invariant
            crate::diff::rows_view(rows@) == rv,
            stop <= rows@.len(),
            start <= i,
            i <= stop || i == start,
            hash == fnv_feed(FNV_OFFSET, rows_bytes(rv, start as int, i as int)),
        decreases stop - i,
    {
        let row = &rows[i];
        let ghost before = rows_bytes(rv, start as int, i as int);
        let ghost rview = rv[i as int];
        assert(rview == row.view());
        let mut h = hash;
        let ghost mut fed: Seq<u8> = Seq::empty();
        match row.kind {
            ChangeKind::Delete | ChangeKind::Replace => {
                match &row.old {
                    Some(old) => {
                        h = feed_side(h, 45, &old.content);
                        proof {
                            fed = side_bytes(45, old.content@);
                        }
                    },
                    None => {},
                }
            },
            _ => {},
        }
        let ghost h_mid = h;
        let ghost fed_old = fed;
        let mut fed_new_len: usize = 0;
        match row.kind {
            ChangeKind::Insert | ChangeKind::Replace => {
                match &row.new {
                    Some(new) => {
                        h = feed_side(h, 43, &new.content);
                        proof {
                            fed = fed + side_bytes(43, new.content@);
                            lemma_fnv_concat(hash, fed_old, side_bytes(43, new.content@));
                        }
                    },
                    None => {},
                }
            },
            _ => {},
        }
        proof {
            assert(fed_old + Seq::<u8>::empty() =~= fed_old);
            assert(Seq::<u8>::empty() + fed =~= fed);
            assert(fed == row_bytes(rview));
            assert(h == fnv_feed(hash, fed));
            lemma_fnv_concat(FNV_OFFSET, before, fed);
        }
        hash = h;
        i = i + 1;
    }
    let ghost e = if end < rows@.len() {
        end as int
    } else {
        rows@.len() as int
    };
    assert(hash == fnv_feed(FNV_OFFSET, rows_bytes(rv, start as int, e)));
    let d = fmt_hex16(hash);
    string_of(d.as_slice())
}

/// Build a selector from a hunk in a diff.
pub fn selector_from_hunk(diff: &DiffResult, hunk_idx: usize) -> (r: Option<DiffHunkSelectorV1>)
    ensures
        r is Some <==> hunk_idx < diff.spec_hunks().len(),
        r matches Some(s) ==> ({
            let h = diff.spec_hunks()[hunk_idx as int];
            &&& s.old_range == h.old_range
            &&& s.new_range == h.new_range
            &&& s.digest_hex@ == hex_digits(hunk_digest(diff.spec_rows(), h) as nat, 16)
        }),
{
    let hunks = diff.hunks();
    if hunk_idx >= hunks.len() {
        return None;
    }
    let hunk = &hunks[hunk_idx];
    let n = diff.row_count();
    assert(hunk.start_row + hunk.row_count <= n);
    let digest = digest_hunk_changed_rows(diff, hunk);
    Some(
        DiffHunkSelectorV1 { old_range: hunk.old_range, new_range: hunk.new_range, digest_hex: digest },
    )
}

// ---------------------------------------------------------------------------
// Anchor summary
// ---------------------------------------------------------------------------

/// The number of leading chars of `s` whose UTF-8 takes exactly `n` bytes,
/// if a char boundary lies at byte `n`.
pub open spec fn chars_for_bytes(s: Seq<char>, n: nat) -> Option<nat>
    decreases s.len(),
{
    if n == 0 {
        Some(0)
    } else if s.len() == 0 {
        None
    } else {
        let w = crate::strings::utf8_width(s[0]);
        if w > n {
            None
        } else {
            match chars_for_bytes(s.drop_first(), (n - w) as nat) {
                Some(k) => Some(k + 1),
                None => None,
            }
        }
    }
}

/// A selector can be summarized: its line starts can be shown one-based
/// and its digest has a char boundary at byte 8.
pub open spec fn summarizable(sel: SelectorV) -> bool {
    &&& sel.old_range.0 + 1 <= usize::MAX
    &&& sel.new_range.0 + 1 <= usize::MAX
    &&& chars_for_bytes(sel.digest, 8) is Some
}

/// `@@ -<old start>,<old count> +<new start>,<new count> @@ [<digest[..8]>]`
/// with one-based starts.
pub open spec fn selector_summary(sel: SelectorV) -> Seq<char> {
    "@@ -"@ + dec((sel.old_range.0 + 1) as nat) + ","@ + dec(sel.old_range.1 as nat) + " +"@ + dec(
        (sel.new_range.0 + 1) as nat,
    ) + ","@ + dec(sel.new_range.1 as nat) + " @@ ["@ + sel.digest.subrange(
        0,
        chars_for_bytes(sel.digest, 8)->0 as int,
    ) + "]"@
}

/// The summaries of the selectors, joined by "; ".
pub open spec fn anchor_summary(sels: Seq<SelectorV>) -> Seq<char> {
    crate::strings::join(sels.map_values(|s: SelectorV| selector_summary(s)), "; "@)
}

proof fn lemma_chars_for_bytes_bound(s: Seq<char>, n: nat)
    ensures
        chars_for_bytes(s, n) matches Some(k) ==> k <= s.len(),
    decreases s.len(),
{
    if n > 0 && s.len() > 0 {
        let w = crate::strings::utf8_width(s[0]);
        if w <= n {
            lemma_chars_for_bytes_bound(s.drop_first(), (n - w) as nat);
        }
    }
}

fn count_chars_for_bytes(s: &[char], n: usize) -> (r: usize)
    requires
        chars_for_bytes(s@, n as nat) is Some,
    ensures
        chars_for_bytes(s@, n as nat) == Some(r as nat),
        r <= s@.len(),
{
    let mut k: usize = 0;
    let mut rem: usize = n;
    assert(s@.subrange(0, s@.len() as int) =~= s@);
    while rem > 0
        invariant
            k <= s@.len(),
            rem <= n,
            chars_for_bytes(s@.subrange(k as int, s@.len() as int), rem as nat) is Some,
            chars_for_bytes(s@, n as nat) == (match chars_for_bytes(
                s@.subrange(k as int, s@.len() as int),
                rem as nat,
            ) {
                Some(j) => Some((j + k) as nat),
                None => None,
            }),
        decreases rem,
    {
        let ghost t = s@.subrange(k as int, s@.len() as int);
        let w = crate::strings::char_utf8_width(s[k]);
        assert(t.drop_first() =~= s@.subrange(k + 1, s@.len() as int));
        rem = rem - w;
        k = k + 1;
    }
    proof {
        lemma_chars_for_bytes_bound(s@, n as nat);
    }
    k
}

fn selector_summary_chars(sel: &Selector) -> (r: Vec<char>)
    requires
        summarizable(sel@),
    ensures
        r@ == selector_summary(sel@),
{
    let h = match sel {
        Selector::DiffHunkV1(h) => h,
    };
    let mut out: Vec<char> = Vec::new();
    push_str(&mut out, "@@ -");
    push_all(&mut out, fmt_dec(h.old_range.0 + 1).as_slice());
    push_str(&mut out, ",");
    push_all(&mut out, fmt_dec(h.old_range.1).as_slice());
    push_str(&mut out, " +");
    push_all(&mut out, fmt_dec(h.new_range.0 + 1).as_slice());
    push_str(&mut out, ",");
    push_all(&mut out, fmt_dec(h.new_range.1).as_slice());
    push_str(&mut out, " @@ [");
    let d = chars_of(h.digest_hex.as_str());
    let k = count_chars_for_bytes(d.as_slice(), 8);
    push_all(&mut out, crate::strings::slice_to_vec(d.as_slice(), 0, k).as_slice());
    push_str(&mut out, "]");
    out
}

/// Format an anchor into a human-friendly single-line summary.
pub fn format_anchor_summary(anchor: &Anchor) -> (r: String)
    requires
        forall|k: int| 0 <= k < anchor@.len() ==> summarizable(#[trigger] anchor@[k]),
    ensures
        r@ == anchor_summary(anchor@),
{
    let ghost parts = anchor@.map_values(|s: SelectorV| selector_summary(s));
    let mut out: Vec<char> = Vec::new();
    let mut i: usize = 0;
    assert(parts.subrange(0, 0) =~= Seq::<Seq<char>>::empty());
    while i < anchor.selectors.len()
        invariant
            i <= anchor@.len(),
            anchor@.len() == anchor.selectors@.len(),
            parts == anchor@.map_values(|s: SelectorV| selector_summary(s)),
            forall|k: int| 0 <= k < anchor@.len() ==> summarizable(#[trigger] anchor@[k]),
            out@ == crate::strings::join(parts.subrange(0, i as int), "; "@),
        decreases anchor@.len() - i,
    {
        assert(anchor@[i as int] == anchor.selectors@[i as int]@);
        let piece = selector_summary_chars(&anchor.selectors[i]);
        proof {
            let p1 = parts.subrange(0, i + 1);
            assert(p1.drop_last() =~= parts.subrange(0, i as int));
            assert(p1.last() == piece@);
            if i == 0 {
                assert(p1 =~= seq![piece@]);
            }
        }
        if i > 0 {
            push_str(&mut out, "; ");
        }
        push_all(&mut out, piece.as_slice());
        i = i + 1;
    }
    assert(parts.subrange(0, i as int) =~= parts);
    string_of(out.as_slice())
}

} // verus!
