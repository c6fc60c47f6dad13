//! Recognizing a unified diff in piped input.

use vstd::prelude::*;
use crate::strings::{chars_of, has_prefix, lines_of, split_lines, starts_with_str};

verus! {

/// A line of a file header: `diff --git `, `--- ` or `+++ `.
pub open spec fn is_file_header_line(l: Seq<char>) -> bool {
    has_prefix(l, "diff --git "@) || has_prefix(l, "--- "@) || has_prefix(l, "+++ "@)
}

/// A hunk line (`@@`, with or without a following space or dash).
pub open spec fn is_hunk_line(l: Seq<char>) -> bool {
    has_prefix(l, "@@ "@) || has_prefix(l, "@@-"@) || has_prefix(l, "@@"@)
}

/// Among the first 200 lines there is a file header line and a hunk line.
pub open spec fn diff_like(ls: Seq<Seq<char>>) -> bool {
    let n = if ls.len() < 200 {
        ls.len() as int
    } else {
        200
    };
    (exists|h: int| 0 <= h < n && is_file_header_line(#[trigger] ls[h])) && (exists|k: int|
        0 <= k < n && is_hunk_line(#[trigger] ls[k]))
}

/// Heuristic unified-diff detector.
pub fn looks_like_unified_diff(text: &str) -> (r: bool)
    ensures
        r == diff_like(lines_of(text@)),
{
    let chars = chars_of(text);
    let lines = split_lines(chars.as_slice());
    let ghost ls = lines_of(text@);
    let n: usize = if lines.len() < 200 {
        lines.len()
    } else {
        200
    };
    let mut saw_file_header = false;
    let mut saw_hunk = false;
    let mut i: usize = 0;
    while i < n
        invariant
            ls == lines_of(text@),
            n <= lines@.len(),
            lines@.len() == ls.len(),
            forall|k: int| 0 <= k < lines@.len() ==> #[trigger] lines@[k]@ == ls[k],
            n == (if ls.len() < 200 {
                ls.len() as int
            } else {
                200
            }),
            i <= n,
            saw_file_header == (exists|h: int| 0 <= h < i && is_file_header_line(#[trigger] ls[h])),
            saw_hunk == (exists|k: int| 0 <= k < i && is_hunk_line(#[trigger] ls[k])),
            !(saw_file_header && saw_hunk),
        decreases n - i,
    {
        let line = lines[i].as_slice();
        assert(line@ == ls[i as int]);
        if starts_with_str(line, "diff --git ") || starts_with_str(line, "--- ") || starts_with_str(
            line,
            "+++ ",
        ) {
            saw_file_header = true;
        }
        if starts_with_str(line, "@@ ") || starts_with_str(line, "@@-") || starts_with_str(
            line,
            "@@",
        ) {
            saw_hunk = true;
        }
        proof {
            if saw_file_header {
                if is_file_header_line(ls[i as int]) {
                    assert(0 <= i < n && is_file_header_line(ls[i as int]));
                }
            }
            if saw_hunk {
                if is_hunk_line(ls[i as int]) {
                    assert(0 <= i < n && is_hunk_line(ls[i as int]));
                }
            }
        }
        if saw_file_header && saw_hunk {
            return true;
        }
        i = i + 1;
    }
    false
}

} // verus!
