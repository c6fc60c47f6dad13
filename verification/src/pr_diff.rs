//! Parser for unified diff output (as `gh pr diff` prints it).

use vstd::prelude::*;
use crate::repo::{RelPath, FileChangeKind};
use crate::sorting::{keyed_view, map_payload, sort_by_key_stable, stable_sorted,
    lemma_stable_sorted_map, lemma_stable_sorted_len};
use crate::strings::{chars_of, string_of, has_prefix, lines_of, split_lines, starts_with_str,
    push_all, slice_to_vec, utf8_width};

verus! {

/// A file changed in a PR with its patch content.
#[derive(Debug)]
pub struct PRChangedFile {
    /// Path to the file.
    pub path: RelPath,
    /// Original path (for renames).
    pub old_path: Option<RelPath>,
    /// Type of change.
    pub kind: FileChangeKind,
    /// Number of lines added.
    pub additions: usize,
    /// Number of lines deleted.
    pub deletions: usize,
    /// Raw unified diff patch for this file.
    pub patch: String,
}

/// Mathematical view of a [`PRChangedFile`].
pub struct PrFileV {
    pub path: Seq<char>,
    pub old_path: Option<Seq<char>>,
    pub kind: FileChangeKind,
    pub additions: nat,
    pub deletions: nat,
    pub patch: Seq<char>,
}

impl View for PRChangedFile {
    type V = PrFileV;

    open spec fn view(&self) -> PrFileV {
        PrFileV {
            path: self.path@,
            old_path: crate::repo::opt_path(self.old_path),
            kind: self.kind,
            additions: self.additions as nat,
            deletions: self.deletions as nat,
            patch: self.patch@,
        }
    }
}

fn clone_opt_rel(o: &Option<RelPath>) -> (r: Option<RelPath>)
    ensures
        crate::repo::opt_path(r) == crate::repo::opt_path(*o),
{
    match o {
        Some(p) => Some(p.clone()),
        None => None,
    }
}

impl Clone for PRChangedFile {
    fn clone(&self) -> (r: Self)
        ensures
            r@ == self@,
    {
        PRChangedFile {
            path: self.path.clone(),
            old_path: clone_opt_rel(&self.old_path),
            kind: self.kind,
            additions: self.additions,
            deletions: self.deletions,
            patch: self.patch.clone(),
        }
    }
}

// ---------------------------------------------------------------------------
// Quoted paths
// ---------------------------------------------------------------------------

/// What a backslash followed by `c` stands for.
pub open spec fn escaped(c: char) -> Seq<char> {
    if c == 'n' {
        seq!['\n']
    } else if c == 't' {
        seq!['\t']
    } else if c == '\\' {
        seq!['\\']
    } else if c == '"' {
        seq!['"']
    } else {
        seq!['\\', c]
    }
}

/// `s` with its C-style escapes resolved (a lone final backslash stays).
pub open spec fn unescape(s: Seq<char>) -> Seq<char>
    decreases s.len(),
{
    if s.len() == 0 {
        Seq::empty()
    } else if s[0] == '\\' {
        if s.len() == 1 {
            seq!['\\']
        } else {
            escaped(s[1]) + unescape(s.subrange(2, s.len() as int))
        }
    } else {
        seq![s[0]] + unescape(s.subrange(1, s.len() as int))
    }
}

/// `s` unquoted when it is wrapped in double quotes, else as is.
pub open spec fn unquoted(s: Seq<char>) -> Seq<char> {
    if s.len() >= 2 && s[0] == '"' && s.last() == '"' {
        unescape(s.subrange(1, s.len() - 1))
    } else {
        s
    }
}

fn unquote_chars(s: &[char]) -> (r: Vec<char>)
    ensures
        r@ == unquoted(s@),
{
    let n = s.len();
    if !(n >= 2 && s[0] == '"' && s[n - 1] == '"') {
        return slice_to_vec(s, 0, n);
    }
    let inner = slice_to_vec(s, 1, n - 1);
    let m = inner.len();
    let mut out: Vec<char> = Vec::new();
    let mut i: usize = 0;
    assert(inner@.subrange(0, m as int) =~= inner@);
    while i < m
        invariant
            m == inner@.len(),
            i <= m,
            out@ + unescape(inner@.subrange(i as int, m as int)) == unescape(inner@),
        decreases m - i,
    {
        let ghost rest = inner@.subrange(i as int, m as int);
        let c = inner[i];
        if c == '\\' {
            if i + 1 < m {
                let e = inner[i + 1];
                let ghost o0 = out@;
                if e == 'n' {
                    out.push('\n');
                } else if e == 't' {
                    out.push('\t');
                } else if e == '\\' {
                    out.push('\\');
                } else if e == '"' {
                    out.push('"');
                } else {
                    out.push('\\');
                    out.push(e);
                }
                assert(out@ =~= o0 + escaped(e));
                assert(rest.subrange(2, rest.len() as int) =~= inner@.subrange(i + 2, m as int));
                i = i + 2;
            } else {
                out.push('\\');
                i = i + 1;
                assert(inner@.subrange(i as int, m as int) =~= Seq::<char>::empty());
            }
        } else {
            out.push(c);
            assert(rest.subrange(1, rest.len() as int) =~= inner@.subrange(i + 1, m as int));
            i = i + 1;
        }
    }
    assert(out@ + unescape(Seq::<char>::empty()) =~= out@);
    out
}

/// Unquote a C-style quoted string if present.
/// Git uses C-style quoting for paths with special chars.
pub fn unquote_path(s: &str) -> (r: String)
    ensures
        r@ == unquoted(s@),
{
    let c = chars_of(s);
    let u = unquote_chars(c.as_slice());
    string_of(u.as_slice())
}

/// Index of the quote that closes a quoted string, scanning from `i`
/// (a backslash skips the character after it).
pub open spec fn closing_quote_from(s: Seq<char>, i: int) -> Option<int>
    decreases s.len() + 1 - i,
{
    if i < 0 || i >= s.len() {
        None
    } else if s[i] == '\\' {
        closing_quote_from(s, i + 2)
    } else if s[i] == '"' {
        Some(i)
    } else {
        closing_quote_from(s, i + 1)
    }
}

/// Index of the quote closing the quoted string that opens at `start`.
pub open spec fn closing_quote(s: Seq<char>, start: int) -> Option<int> {
    if 0 <= start < s.len() && s[start] == '"' {
        closing_quote_from(s, start + 1)
    } else {
        None
    }
}

proof fn lemma_closing_quote_from(s: Seq<char>, i: int)
    requires
        0 <= i,
    ensures
        closing_quote_from(s, i) matches Some(k) ==> i <= k < s.len() && s[k] == '"',
    decreases s.len() + 1 - i,
{
    if 0 <= i < s.len() {
        if s[i] == '\\' {
            lemma_closing_quote_from(s, i + 2);
        } else if s[i] != '"' {
            lemma_closing_quote_from(s, i + 1);
        }
    }
}

/// Find the index of the closing quote, accounting for escapes.
pub fn find_closing_quote(s: &[char], start: usize) -> (r: Option<usize>)
    ensures
        r matches Some(k) ==> closing_quote(s@, start as int) == Some(k as int),
        r is None ==> closing_quote(s@, start as int) is None,
{
    if start >= s.len() || s[start] != '"' {
        return None;
    }
    let mut i = start + 1;
    while i < s.len()
        invariant
            start < s@.len(),
            s@[start as int] == '"',
            start < i,
            closing_quote(s@, start as int) == closing_quote_from(s@, i as int),
        decreases s@.len() - i,
    {
        if s[i] == '\\' {
            if i + 1 >= s.len() {
                assert(closing_quote_from(s@, i + 2) is None);
                return None;
            }
            i = i + 2;
        } else if s[i] == '"' {
            return Some(i);
        } else {
            i = i + 1;
        }
    }
    None
}

// ---------------------------------------------------------------------------
// The `diff --git` header
// ---------------------------------------------------------------------------

/// `s` without the prefix `p` when it has it.
pub open spec fn strip_prefix(s: Seq<char>, p: Seq<char>) -> Seq<char> {
    if has_prefix(s, p) {
        s.subrange(p.len() as int, s.len() as int)
    } else {
        s
    }
}

/// `p` occurs in `s` at index `k`.
pub open spec fn occurs_at(s: Seq<char>, p: Seq<char>, k: int) -> bool {
    0 <= k && k + p.len() <= s.len() && s.subrange(k, k + p.len()) == p
}

/// The last index at or below `k` where `p` occurs in `s`.
pub open spec fn rfind_at_or_below(s: Seq<char>, p: Seq<char>, k: int) -> Option<int>
    decreases k + 1,
{
    if k < 0 {
        None
    } else if occurs_at(s, p, k) {
        Some(k)
    } else {
        rfind_at_or_below(s, p, k - 1)
    }
}

/// The last index where `p` occurs in `s` (`str::rfind`).
pub open spec fn rfind(s: Seq<char>, p: Seq<char>) -> Option<int> {
    rfind_at_or_below(s, p, s.len() - p.len())
}

fn strip_prefix_chars(s: &[char], p: &str) -> (r: Vec<char>)
    ensures
        r@ == strip_prefix(s@, p@),
{
    let pc = chars_of(p);
    if crate::strings::starts_with(s, pc.as_slice()) {
        slice_to_vec(s, pc.len(), s.len())
    } else {
        slice_to_vec(s, 0, s.len())
    }
}

pub(crate) fn occurs_at_exec(s: &[char], p: &[char], k: usize) -> (r: bool)
    ensures
        r == occurs_at(s@, p@, k as int),
{
    if k > s.len() || p.len() > s.len() - k {
        return false;
    }
    let mut i: usize = 0;
    while i < p.len()
        invariant
            k + p@.len() <= s@.len(),
            i <= p@.len(),
            forall|m: int| 0 <= m < i ==> s@[k + m] == p@[m],
        decreases p@.len() - i,
    {
        assert(k + i < s.len());
        if s[k + i] != p[i] {
            assert(s@.subrange(k as int, k + p@.len())[i as int] != p@[i as int]);
            return false;
        }
        i = i + 1;
    }
    assert(s@.subrange(k as int, k + p@.len()) =~= p@);
    true
}

fn rfind_chars(s: &[char], p: &[char]) -> (r: Option<usize>)
    ensures
        r matches Some(k) ==> rfind(s@, p@) == Some(k as int),
        r is None ==> rfind(s@, p@) is None,
{
    if p.len() > s.len() {
        return None;
    }
    let mut k: usize = s.len() - p.len();
    loop
        invariant
            k + p@.len() <= s@.len(),
            rfind(s@, p@) == rfind_at_or_below(s@, p@, k as int),
        decreases k,
    {
        if occurs_at_exec(s, p, k) {
            return Some(k);
        }
        if k == 0 {
            assert(rfind_at_or_below(s@, p@, -1) is None);
            return None;
        }
        k = k - 1;
    }
}

/// The paths of a header split at its last " b/" (unquoted form).
pub open spec fn plain_header_paths(rest: Seq<char>) -> Option<(Seq<char>, Seq<char>)> {
    match rfind(rest, " b/"@) {
        None => None,
        Some(b) => Some(
            (
                strip_prefix(rest.subrange(0, b), "a/"@),
                strip_prefix(rest.subrange(b + 1, rest.len() as int), "b/"@),
            ),
        ),
    }
}

/// The (old, new) paths of a `diff --git a/old b/new` line, without their
/// `a/` and `b/` prefixes; both paths may be C-quoted.
pub open spec fn diff_header(line: Seq<char>) -> Option<(Seq<char>, Seq<char>)> {
    if !has_prefix(line, "diff --git "@) {
        None
    } else {
        let rest = line.subrange(11, line.len() as int);
        if rest.len() > 0 && rest[0] == '"' {
            match closing_quote(rest, 0) {
                None => None,
                Some(fe) => if fe + 1 >= rest.len() || utf8_width(rest[fe + 1]) != 1 {
                    // the byte after the separator is not a char boundary
                    None
                } else {
                    let rem = rest.subrange(fe + 2, rest.len() as int);
                    if rem.len() > 0 && rem[0] == '"' {
                        match closing_quote(rem, 0) {
                            None => None,
                            Some(se) => Some(
                                (
                                    strip_prefix(unquoted(rest.subrange(0, fe + 1)), "a/"@),
                                    strip_prefix(unquoted(rem.subrange(0, se + 1)), "b/"@),
                                ),
                            ),
                        }
                    } else {
                        plain_header_paths(rest)
                    }
                },
            }
        } else {
            plain_header_paths(rest)
        }
    }
}

proof fn lemma_rfind(s: Seq<char>, p: Seq<char>, k: int)
    ensures
        rfind_at_or_below(s, p, k) matches Some(j) ==> occurs_at(s, p, j),
    decreases k + 1,
{
    if k >= 0 && !occurs_at(s, p, k) {
        lemma_rfind(s, p, k - 1);
    }
}

fn plain_header_paths_exec(rest: &[char]) -> (r: Option<(Vec<char>, Vec<char>)>)
    ensures
        r matches Some(p) ==> plain_header_paths(rest@) == Some((p.0@, p.1@)),
        r is None ==> plain_header_paths(rest@) is None,
{
    let pat = chars_of(" b/");
    match rfind_chars(rest, pat.as_slice()) {
        None => None,
        Some(b) => {
            proof {
                lemma_rfind(rest@, pat@, rest@.len() - pat@.len());
                reveal_strlit(" b/");
            }
            assert(b + 1 < rest.len());
            let a_part = slice_to_vec(rest, 0, b);
            let b_part = slice_to_vec(rest, b + 1, rest.len());
            Some(
                (
                    strip_prefix_chars(a_part.as_slice(), "a/"),
                    strip_prefix_chars(b_part.as_slice(), "b/"),
                ),
            )
        },
    }
}

fn header_chars(line: &[char]) -> (r: Option<(Vec<char>, Vec<char>)>)
    ensures
        r matches Some(p) ==> diff_header(line@) == Some((p.0@, p.1@)),
        r is None ==> diff_header(line@) is None,
{
    if !starts_with_str(line, "diff --git ") {
        return None;
    }
    proof {
        reveal_strlit("diff --git ");
    }
    let rest = slice_to_vec(line, 11, line.len());
    if rest.len() > 0 && rest[0] == '"' {
        let fe = match find_closing_quote(rest.as_slice(), 0) {
            None => {
                return None;
            },
            Some(k) => k,
        };
        proof {
            lemma_closing_quote_from(rest@, 1);
        }
        if fe + 1 >= rest.len() || crate::strings::char_utf8_width(rest[fe + 1]) != 1 {
            return None;
        }
        let rem = slice_to_vec(rest.as_slice(), fe + 2, rest.len());
        if rem.len() > 0 && rem[0] == '"' {
            let se = match find_closing_quote(rem.as_slice(), 0) {
                None => {
                    return None;
                },
                Some(k) => k,
            };
            proof {
                lemma_closing_quote_from(rem@, 1);
            }
            let first = slice_to_vec(rest.as_slice(), 0, fe + 1);
            let second = slice_to_vec(rem.as_slice(), 0, se + 1);
            let old_u = unquote_chars(first.as_slice());
            let new_u = unquote_chars(second.as_slice());
            return Some(
                (
                    strip_prefix_chars(old_u.as_slice(), "a/"),
                    strip_prefix_chars(new_u.as_slice(), "b/"),
                ),
            );
        }
    }
    plain_header_paths_exec(rest.as_slice())
}

/// Parse "diff --git a/path b/path" header.
/// Returns (old_path, new_path) without a/ b/ prefixes.
/// Handles quoted paths for special characters.
pub fn parse_diff_header(line: &str) -> (r: Option<(String, String)>)
    ensures
        r matches Some(p) ==> diff_header(line@) == Some((p.0@, p.1@)),
        r is None ==> diff_header(line@) is None,
{
    let c = chars_of(line);
    match header_chars(c.as_slice()) {
        None => None,
        Some(p) => Some((string_of(p.0.as_slice()), string_of(p.1.as_slice()))),
    }
}


// ---------------------------------------------------------------------------
// One file's chunk
// ---------------------------------------------------------------------------

/// Effect of one metadata line on (kind, old path).
pub open spec fn meta_step(m: (FileChangeKind, Option<Seq<char>>), line: Seq<char>) -> (
    FileChangeKind,
    Option<Seq<char>>,
) {
    if has_prefix(line, "new file mode"@) {
        (FileChangeKind::Added, m.1)
    } else if has_prefix(line, "deleted file mode"@) {
        (FileChangeKind::Deleted, m.1)
    } else if has_prefix(line, "rename from "@) {
        (FileChangeKind::Renamed, Some(line.subrange(12, line.len() as int)))
    } else {
        m
    }
}

/// (kind, old path) after reading the metadata lines `ls` in order.
pub open spec fn meta_of(ls: Seq<Seq<char>>) -> (FileChangeKind, Option<Seq<char>>)
    decreases ls.len(),
{
    if ls.len() == 0 {
        (FileChangeKind::Modified, None)
    } else {
        meta_step(meta_of(ls.drop_last()), ls.last())
    }
}

/// The lines read for metadata: the first ten.
pub open spec fn head_lines(ls: Seq<Seq<char>>) -> Seq<Seq<char>> {
    if ls.len() <= 10 {
        ls
    } else {
        ls.subrange(0, 10)
    }
}

/// Effect of one line on (inside a hunk, additions, deletions).
pub open spec fn count_step(st: (bool, nat, nat), line: Seq<char>) -> (bool, nat, nat) {
    if has_prefix(line, "@@"@) {
        (true, st.1, st.2)
    } else if st.0 && has_prefix(line, "+"@) && !has_prefix(line, "+++"@) {
        (st.0, st.1 + 1, st.2)
    } else if st.0 && has_prefix(line, "-"@) && !has_prefix(line, "---"@) {
        (st.0, st.1, st.2 + 1)
    } else {
        st
    }
}

/// (inside a hunk, additions, deletions) after the lines `ls`.
pub open spec fn counts_of(ls: Seq<Seq<char>>) -> (bool, nat, nat)
    decreases ls.len(),
{
    if ls.len() == 0 {
        (false, 0, 0)
    } else {
        count_step(counts_of(ls.drop_last()), ls.last())
    }
}

/// The file described by one chunk of a unified diff, if its first line is
/// a `diff --git` header.
pub open spec fn file_chunk(ch: Seq<char>) -> Option<PrFileV> {
    let ls = lines_of(ch);
    if ls.len() == 0 {
        None
    } else {
        match diff_header(ls[0]) {
            None => None,
            Some(paths) => {
                let m = meta_of(head_lines(ls));
                let old = if m.0 == FileChangeKind::Renamed && m.1 is None && paths.0 != paths.1 {
                    Some(paths.0)
                } else {
                    m.1
                };
                let c = counts_of(ls);
                Some(
                    PrFileV {
                        path: paths.1,
                        old_path: old,
                        kind: m.0,
                        additions: c.1,
                        deletions: c.2,
                        patch: ch,
                    },
                )
            },
        }
    }
}

/// Views of a list of lines.
pub open spec fn lines_view(v: Seq<Vec<char>>) -> Seq<Seq<char>> {
    v.map_values(|l: Vec<char>| l@)
}

fn parse_file_chunk(chunk: &[char]) -> (r: Option<PRChangedFile>)
    ensures
        r matches Some(f) ==> file_chunk(chunk@) == Some(f@),
        r is None ==> file_chunk(chunk@) is None,
{
    let lines = split_lines(chunk);
    let ghost ls = lines_of(chunk@);
    assert(lines_view(lines@) =~= ls);
    if lines.len() == 0 {
        return None;
    }
    let (old_str, new_str) = match header_chars(lines[0].as_slice()) {
        None => {
            return None;
        },
        Some(p) => p,
    };
    let mut kind = FileChangeKind::Modified;
    let mut old_path: Option<RelPath> = None;
    let lim: usize = if lines.len() <= 10 {
        lines.len()
    } else {
        10
    };
    let mut i: usize = 0;
    assert(ls.subrange(0, 0) =~= Seq::<Seq<char>>::empty());
    while i < lim
        invariant
            lim <= lines@.len(),
            lim == head_lines(ls).len(),
            ls == lines_view(lines@),
            i <= lim,
            meta_of(ls.subrange(0, i as int)) == (kind, crate::repo::opt_path(old_path)),
        decreases lim - i,
    {
        let line = lines[i].as_slice();
        proof {
            assert(ls.subrange(0, i + 1).drop_last() =~= ls.subrange(0, i as int));
            reveal_strlit("rename from ");
        }
        if starts_with_str(line, "new file mode") {
            kind = FileChangeKind::Added;
        } else if starts_with_str(line, "deleted file mode") {
            kind = FileChangeKind::Deleted;
        } else if starts_with_str(line, "rename from ") {
            kind = FileChangeKind::Renamed;
            let from = slice_to_vec(line, 12, line.len());
            old_path = Some(RelPath::from_string(string_of(from.as_slice())));
        }
        i = i + 1;
    }
    assert(ls.subrange(0, lim as int) =~= head_lines(ls));
    if kind == FileChangeKind::Renamed && old_path.is_none() && !crate::strings::chars_eq(
        old_str.as_slice(),
        new_str.as_slice(),
    ) {
        old_path = Some(RelPath::from_string(string_of(old_str.as_slice())));
    }
    let mut additions: usize = 0;
    let mut deletions: usize = 0;
    let mut in_hunk = false;
    let mut j: usize = 0;
    while j < lines.len()
        invariant
            ls == lines_view(lines@),
            j <= lines@.len(),
            additions + deletions <= j,
            counts_of(ls.subrange(0, j as int)) == (in_hunk, additions as nat, deletions as nat),
        decreases lines@.len() - j,
    {
        let line = lines[j].as_slice();
        proof {
            assert(ls.subrange(0, j + 1).drop_last() =~= ls.subrange(0, j as int));
        }
        if starts_with_str(line, "@@") {
            in_hunk = true;
        } else if in_hunk {
            if starts_with_str(line, "+") && !starts_with_str(line, "+++") {
                additions = additions + 1;
            } else if starts_with_str(line, "-") && !starts_with_str(line, "---") {
                deletions = deletions + 1;
            }
        }
        j = j + 1;
    }
    assert(ls.subrange(0, j as int) =~= ls);
    Some(
        PRChangedFile {
            path: RelPath::from_string(string_of(new_str.as_slice())),
            old_path,
            kind,
            additions,
            deletions,
            patch: string_of(chunk),
        },
    )
}

// ---------------------------------------------------------------------------
// The whole diff
// ---------------------------------------------------------------------------

/// The text of a chunk: each of its lines followed by a newline.
pub open spec fn chunk_text(ls: Seq<Seq<char>>) -> Seq<char>
    decreases ls.len(),
{
    if ls.len() == 0 {
        Seq::empty()
    } else {
        chunk_text(ls.drop_last()) + ls.last() + seq!['\n']
    }
}

/// A line that starts a file's chunk.
pub open spec fn is_file_start(l: Seq<char>) -> bool {
    has_prefix(l, "diff --git "@)
}

/// (finished chunks, lines of the open chunk) after the lines `ls`: a
/// `diff --git` line closes the open chunk (when it has lines) and opens
/// a new one; any other line joins the open chunk.
pub open spec fn chunk_state(ls: Seq<Seq<char>>) -> (Seq<Seq<Seq<char>>>, Seq<Seq<char>>)
    decreases ls.len(),
{
    if ls.len() == 0 {
        (Seq::empty(), Seq::empty())
    } else {
        let st = chunk_state(ls.drop_last());
        let l = ls.last();
        if is_file_start(l) {
            (
                if st.1.len() > 0 {
                    st.0.push(st.1)
                } else {
                    st.0
                },
                seq![l],
            )
        } else {
            (st.0, st.1.push(l))
        }
    }
}

/// The chunks of a diff given by its lines.
pub open spec fn diff_chunks(ls: Seq<Seq<char>>) -> Seq<Seq<Seq<char>>> {
    let st = chunk_state(ls);
    if st.1.len() > 0 {
        st.0.push(st.1)
    } else {
        st.0
    }
}

/// The files described by the chunks that parse, in chunk order.
pub open spec fn parsed_chunks(cs: Seq<Seq<Seq<char>>>) -> Seq<PrFileV>
    decreases cs.len(),
{
    if cs.len() == 0 {
        Seq::empty()
    } else {
        let p = parsed_chunks(cs.drop_last());
        match file_chunk(chunk_text(cs.last())) {
            Some(f) => p.push(f),
            None => p,
        }
    }
}

/// Views of a list of PR files.
pub open spec fn pr_files_view(v: Seq<PRChangedFile>) -> Seq<PrFileV> {
    v.map_values(|f: PRChangedFile| f@)
}

/// Files keyed by their path.
pub open spec fn keyed_pr(fs: Seq<PrFileV>) -> Seq<(Seq<char>, PrFileV)> {
    fs.map_values(|f: PrFileV| (f.path, f))
}

/// The files in path order; files with equal paths keep their order.
pub open spec fn sorted_pr(fs: Seq<PrFileV>) -> Seq<PrFileV> {
    stable_sorted(keyed_pr(fs)).map_values(|p: (Seq<char>, PrFileV)| p.1)
}

/// The files of a unified diff, in path order.
pub open spec fn unified_diff_files(raw: Seq<char>) -> Seq<PrFileV> {
    sorted_pr(parsed_chunks(diff_chunks(lines_of(raw))))
}

fn sort_pr_files(files: &Vec<PRChangedFile>) -> (r: Vec<PRChangedFile>)
    ensures
        pr_files_view(r@) == sorted_pr(pr_files_view(files@)),
{
    let mut keyed: Vec<(Vec<char>, PRChangedFile)> = Vec::new();
    let mut i: usize = 0;
    while i < files.len()
        invariant
            i <= files@.len(),
            keyed@.len() == i,
            forall|k: int|
                0 <= k < i ==> (#[trigger] keyed@[k]).0@ == files@[k].path@ && keyed@[k].1@
                    == files@[k]@,
        decreases files@.len() - i,
    {
        let key = chars_of(files[i].path.as_str());
        keyed.push((key, files[i].clone()));
        i = i + 1;
    }
    let ghost view_fn = |c: PRChangedFile| c@;
    assert(map_payload(keyed_view(keyed@), view_fn) =~= keyed_pr(pr_files_view(files@)));
    let sorted = sort_by_key_stable(keyed);
    proof {
        lemma_stable_sorted_map(keyed_view(keyed@), view_fn);
        lemma_stable_sorted_len(keyed_view(keyed@));
    }
    let ghost target = stable_sorted(keyed_pr(pr_files_view(files@)));
    assert(target == map_payload(keyed_view(sorted@), view_fn));
    let mut out: Vec<PRChangedFile> = Vec::new();
    let mut j: usize = 0;
    while j < sorted.len()
        invariant
            j <= sorted@.len(),
            target == map_payload(keyed_view(sorted@), view_fn),
            out@.len() == j,
            forall|k: int| 0 <= k < j ==> (#[trigger] out@[k])@ == sorted@[k].1@,
        decreases sorted@.len() - j,
    {
        out.push(sorted[j].1.clone());
        j = j + 1;
    }
    assert(pr_files_view(out@) =~= sorted_pr(pr_files_view(files@)));
    out
}

/// Parse unified diff output into a list of changed files.
///
/// Parses line-by-line to avoid false splits on file content containing
/// "diff --git" strings.
pub fn parse_unified_diff(raw_diff: &str) -> (r: Vec<PRChangedFile>)
    ensures
        pr_files_view(r@) == unified_diff_files(raw_diff@),
{
    let raw = chars_of(raw_diff);
    let lines = split_lines(raw.as_slice());
    let ghost ls = lines_of(raw_diff@);
    assert(lines_view(lines@) =~= ls);
    let mut files: Vec<PRChangedFile> = Vec::new();
    let mut cur: Vec<char> = Vec::new();
    let ghost mut done: Seq<Seq<Seq<char>>> = Seq::empty();
    let ghost mut cur_lines: Seq<Seq<char>> = Seq::empty();
    let mut i: usize = 0;
    assert(ls.subrange(0, 0) =~= Seq::<Seq<char>>::empty());
    while i < lines.len()
        invariant
            ls == lines_view(lines@),
            i <= lines@.len(),
            chunk_state(ls.subrange(0, i as int)) == (done, cur_lines),
            cur@ == chunk_text(cur_lines),
            cur_lines.len() == 0 <==> cur@.len() == 0,
            pr_files_view(files@) == parsed_chunks(done),
        decreases lines@.len() - i,
    {
        let line = lines[i].as_slice();
        proof {
            assert(ls.subrange(0, i + 1).drop_last() =~= ls.subrange(0, i as int));
            assert(ls.subrange(0, i + 1).last() == line@);
        }
        if starts_with_str(line, "diff --git ") {
            if cur.len() > 0 {
                let ghost f0 = pr_files_view(files@);
                match parse_file_chunk(cur.as_slice()) {
                    Some(f) => {
                        files.push(f);
                    },
                    None => {},
                }
                proof {
                    assert(done.push(cur_lines).drop_last() =~= done);
                    assert(pr_files_view(files@) =~= parsed_chunks(done.push(cur_lines)));
                    done = done.push(cur_lines);
                }
            }
            let mut next: Vec<char> = slice_to_vec(line, 0, line.len());
            next.push('\n');
            cur = next;
            proof {
                cur_lines = seq![line@];
                assert(cur_lines.drop_last() =~= Seq::<Seq<char>>::empty());
                assert(chunk_text(cur_lines.drop_last()) =~= Seq::<char>::empty());
                assert(cur_lines.last() == line@);
                assert(cur@ =~= chunk_text(cur_lines));
            }
        } else {
            let ghost c0 = cur@;
            push_all(&mut cur, line);
            cur.push('\n');
            proof {
                assert(cur_lines.push(line@).drop_last() =~= cur_lines);
                cur_lines = cur_lines.push(line@);
                assert(cur@ =~= chunk_text(cur_lines));
            }
        }
        i = i + 1;
    }
    assert(ls.subrange(0, i as int) =~= ls);
    if cur.len() > 0 {
        match parse_file_chunk(cur.as_slice()) {
            Some(f) => {
                files.push(f);
            },
            None => {},
        }
        proof {
            assert(done.push(cur_lines).drop_last() =~= done);
            assert(pr_files_view(files@) =~= parsed_chunks(done.push(cur_lines)));
        }
    }
    sort_pr_files(&files)
}


/// Law: the files of a unified diff come in path order.
pub proof fn lemma_unified_diff_in_path_order(raw: Seq<char>)
    ensures
        forall|i: int, j: int|
            0 <= i < j < unified_diff_files(raw).len() ==> !crate::sorting::chars_lt(
                #[trigger] unified_diff_files(raw)[j].path,
                #[trigger] unified_diff_files(raw)[i].path,
            ),
{
    let fs = parsed_chunks(diff_chunks(lines_of(raw)));
    let k = keyed_pr(fs);
    let ss = crate::sorting::stable_sorted(k);
    let out = unified_diff_files(raw);
    crate::sorting::lemma_stable_sorted_in_order(k);
    crate::sorting::lemma_stable_sorted_len(k);
    assert forall|m: int| 0 <= m < ss.len() implies (#[trigger] ss[m]).0 == ss[m].1.path by {
        crate::sorting::lemma_stable_sorted_contains(k, ss[m]);
        assert(ss.contains(ss[m]));
        let q = choose|q: int| 0 <= q < k.len() && k[q] == ss[m];
        assert(k[q] == (fs[q].path, fs[q]));
    }
    assert forall|i: int, j: int| 0 <= i < j < out.len() implies !crate::sorting::chars_lt(
        #[trigger] out[j].path,
        #[trigger] out[i].path,
    ) by {
        assert(out[i] == ss[i].1 && out[j] == ss[j].1);
        assert(ss[i].0 == ss[i].1.path && ss[j].0 == ss[j].1.path);
    }
}


// ---------------------------------------------------------------------------
// What the line counts of a file count
// ---------------------------------------------------------------------------

/// Some line of `ls` is a hunk header (starts with `@@`).
pub open spec fn hunk_started(ls: Seq<Seq<char>>) -> bool {
    exists|j: int| 0 <= j < ls.len() && has_prefix(#[trigger] ls[j], "@@"@)
}

/// An added line: it starts with `+` but not `+++`.
pub open spec fn is_added_line(l: Seq<char>) -> bool {
    has_prefix(l, "+"@) && !has_prefix(l, "+++"@)
}

/// A deleted line: it starts with `-` but not `---`.
pub open spec fn is_deleted_line(l: Seq<char>) -> bool {
    has_prefix(l, "-"@) && !has_prefix(l, "---"@)
}

/// The number of lines `ls[i]` such that a hunk header comes before `i`
/// and `pick(ls[i])` holds.
pub open spec fn count_in_hunks(ls: Seq<Seq<char>>, pick: spec_fn(Seq<char>) -> bool) -> nat
    decreases ls.len(),
{
    if ls.len() == 0 {
        0
    } else {
        count_in_hunks(ls.drop_last(), pick) + if hunk_started(ls.drop_last()) && pick(ls.last()) {
            1nat
        } else {
            0nat
        }
    }
}

/// No line is both a hunk header and an added or deleted line.
proof fn lemma_header_not_counted(l: Seq<char>)
    ensures
        has_prefix(l, "@@"@) ==> !is_added_line(l) && !is_deleted_line(l),
        is_added_line(l) ==> !is_deleted_line(l),
{
    reveal_strlit("@@");
    reveal_strlit("+");
    reveal_strlit("-");
    if has_prefix(l, "@@"@) {
        assert(l[0] == '@') by {
            assert(l.subrange(0, 2)[0] == ("@@"@)[0]);
        }
        if has_prefix(l, "+"@) {
            assert(l.subrange(0, 1)[0] == ("+"@)[0]);
        }
        if has_prefix(l, "-"@) {
            assert(l.subrange(0, 1)[0] == ("-"@)[0]);
        }
    }
    if has_prefix(l, "+"@) && has_prefix(l, "-"@) {
        assert(l.subrange(0, 1)[0] == ("+"@)[0]);
        assert(l.subrange(0, 1)[0] == ("-"@)[0]);
    }
}

/// The running counts: inside a hunk exactly when a header has been seen,
/// and every added (deleted) line after the first header counted.
proof fn lemma_counts_of(ls: Seq<Seq<char>>)
    ensures
        counts_of(ls).0 == hunk_started(ls),
        counts_of(ls).1 == count_in_hunks(ls, |l: Seq<char>| is_added_line(l)),
        counts_of(ls).2 == count_in_hunks(ls, |l: Seq<char>| is_deleted_line(l)),
    decreases ls.len(),
{
    reveal_strlit("@@");
    reveal_strlit("+");
    reveal_strlit("-");
    if ls.len() > 0 {
        let pre = ls.drop_last();
        lemma_counts_of(pre);
        lemma_header_not_counted(ls.last());
        if has_prefix(ls.last(), "@@"@) {
            assert(ls[ls.len() - 1] == ls.last());
        }
        assert(hunk_started(ls) == (hunk_started(pre) || has_prefix(ls.last(), "@@"@))) by {
            if hunk_started(pre) {
                let j = choose|j: int| 0 <= j < pre.len() && has_prefix(#[trigger] pre[j], "@@"@);
                assert(ls[j] == pre[j]);
            }
            if hunk_started(ls) && !has_prefix(ls.last(), "@@"@) {
                let j = choose|j: int| 0 <= j < ls.len() && has_prefix(#[trigger] ls[j], "@@"@);
                assert(j < ls.len() - 1);
                assert(pre[j] == ls[j]);
            }
        }
    }
}

/// Law: the additions (deletions) of a file of a unified diff are the
/// number of its lines after its first hunk header that start with `+`
/// (`-`) but not `+++` (`---`), counted over all of its hunks.
pub proof fn lemma_file_counts(ch: Seq<char>)
    ensures
        file_chunk(ch) matches Some(f) ==> f.additions == count_in_hunks(lines_of(ch), |l: Seq<char>| is_added_line(l))
            && f.deletions == count_in_hunks(lines_of(ch), |l: Seq<char>| is_deleted_line(l)),
{
    lemma_counts_of(lines_of(ch));
}

/// Law: appending lines to lines that already hold a hunk header adds the
/// appended lines' own counts; the counts never go down.
pub proof fn lemma_counts_append(a: Seq<Seq<char>>, b: Seq<Seq<char>>, pick: spec_fn(Seq<char>) -> bool)
    requires
        hunk_started(a),
    ensures
        count_in_hunks(a + b, pick) == count_in_hunks(a, pick) + count_in_hunks(seq!["@@"@] + b, pick),
        count_in_hunks(a + b, pick) >= count_in_hunks(a, pick),
    decreases b.len(),
{
    reveal_strlit("@@");
    if b.len() == 0 {
        assert(a + b =~= a);
        assert(count_in_hunks(seq!["@@"@] + b, pick) == 0) by {
            let one = seq!["@@"@] + b;
            assert(one =~= seq!["@@"@]);
            assert(one.len() == 1);
            assert(one.drop_last() =~= Seq::<Seq<char>>::empty());
            assert(count_in_hunks(one.drop_last(), pick) == 0);
            assert(!hunk_started(one.drop_last()));
            assert(!hunk_started(Seq::<Seq<char>>::empty()));
        }
    } else {
        lemma_counts_append(a, b.drop_last(), pick);
        assert((a + b).drop_last() =~= a + b.drop_last());
        assert((seq!["@@"@] + b).drop_last() =~= seq!["@@"@] + b.drop_last());
        let j = choose|j: int| 0 <= j < a.len() && has_prefix(#[trigger] a[j], "@@"@);
        assert((a + b.drop_last())[j] == a[j]);
        assert(hunk_started(a + b.drop_last()));
        let h = seq!["@@"@] + b.drop_last();
        assert(h[0] == "@@"@);
        assert(has_prefix(h[0], "@@"@)) by {
            assert(h[0].subrange(0, 2) =~= "@@"@);
        }
        assert(hunk_started(h));
    }
}

} // verus!
