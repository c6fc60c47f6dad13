//! Review data for the web preview: which patch is shown, which files it
//! lists, how it is labelled. Running git/jj and writing the page happen
//! outside this module.

use vstd::prelude::*;
use crate::gh::contains_text;
use crate::pr_diff::{parse_unified_diff, pr_files_view, unified_diff_files, PrFileV};
use crate::strings::{chars_of, join, push_all, push_str, string_of, trim};

verus! {

/// Review data for web template rendering.
#[derive(Debug)]
pub struct ReviewData {
    /// Branch name.
    pub branch: String,
    /// Short commit hash.
    pub commit: String,
    /// Summary/title.
    pub summary: String,
    /// Full unified diff patch.
    pub patch: String,
    /// List of changed files with stats.
    pub files: Vec<ReviewFile>,
    /// Aggregate statistics.
    pub stats: ReviewStats,
}

/// A file in the review with its statistics.
#[derive(Debug)]
pub struct ReviewFile {
    /// File path.
    pub path: String,
    /// File summary (empty for now).
    pub summary: String,
    /// Lines added.
    pub additions: usize,
    /// Lines deleted.
    pub deletions: usize,
    /// Comments on this file.
    pub comments: Vec<ReviewComment>,
}

/// A comment on a file.
#[derive(Debug)]
pub struct ReviewComment {
    /// Start line number.
    pub start_line: usize,
    /// End line number.
    pub end_line: usize,
    /// Comment type (bug, warning, suggestion, good).
    pub kind: String,
    /// Comment text.
    pub text: String,
}

/// Aggregate review statistics.
#[derive(Debug)]
pub struct ReviewStats {
    /// Number of bugs found.
    pub bugs: usize,
    /// Number of warnings.
    pub warnings: usize,
    /// Number of suggestions.
    pub suggestions: usize,
    /// Number of positive notes.
    pub good: usize,
}

impl Default for ReviewStats {
    fn default() -> (r: Self)
        ensures
            r.bugs == 0 && r.warnings == 0 && r.suggestions == 0 && r.good == 0,
    {
        ReviewStats { bugs: 0, warnings: 0, suggestions: 0, good: 0 }
    }
}

/// Input configuration for web preview generation.
#[derive(Debug)]
pub struct WebInput {
    /// Diff source specification.
    pub source: crate::repo::DiffSource,
    /// Pre-loaded patch from stdin (if any).
    pub stdin_patch: Option<String>,
    /// File path filter.
    pub file_filter: Option<String>,
    /// Display label for the diff.
    pub label: String,
}

/// The patches of the files whose path contains `filter`, in path order.
pub open spec fn filtered_patches(fs: Seq<PrFileV>, filter: Seq<char>) -> Seq<Seq<char>>
    decreases fs.len(),
{
    if fs.len() == 0 {
        Seq::empty()
    } else {
        let p = filtered_patches(fs.drop_last(), filter);
        if contains_text(fs.last().path, filter) {
            p.push(fs.last().patch)
        } else {
            p
        }
    }
}

/// The patch restricted to the files whose path contains `filter`: their
/// patches (as parsed) joined with newlines; the patch as is without a filter.
pub open spec fn filtered_patch(patch: Seq<char>, filter: Option<Seq<char>>) -> Seq<char> {
    match filter {
        None => patch,
        Some(f) => join(filtered_patches(unified_diff_files(patch), f), "\n"@),
    }
}

/// Keep only the files of a patch whose path contains `filter`.
pub fn apply_file_filter(patch: String, filter: Option<&str>) -> (r: String)
    ensures
        r@ == filtered_patch(patch@, crate::repo::opt_text(filter)),
{
    let f = match filter {
        None => {
            return patch;
        },
        Some(f) => f,
    };
    let files = parse_unified_diff(patch.as_str());
    let ghost fs = pr_files_view(files@);
    let ghost parts = filtered_patches(fs, f@);
    let mut out: Vec<char> = Vec::new();
    let mut count: usize = 0;
    let mut i: usize = 0;
    assert(fs.subrange(0, 0) =~= Seq::<PrFileV>::empty());
    while i < files.len()
        invariant
            fs == pr_files_view(files@),
            i <= fs.len(),
            count == filtered_patches(fs.subrange(0, i as int), f@).len(),
            count <= i,
            out@ == join(filtered_patches(fs.subrange(0, i as int), f@), "\n"@),
        decreases fs.len() - i,
    {
        proof {
            assert(fs.subrange(0, i + 1).drop_last() =~= fs.subrange(0, i as int));
            assert(fs.subrange(0, i + 1).last() == files@[i as int]@);
        }
        let pc = chars_of(files[i].path.as_str());
        if crate::gh::contains_exec(pc.as_slice(), f) {
            let ghost prev = filtered_patches(fs.subrange(0, i as int), f@);
            let ghost next = prev.push(files@[i as int].patch@);
            proof {
                assert(next.drop_last() =~= prev);
                if prev.len() == 0 {
                    assert(next =~= seq![files@[i as int].patch@]);
                }
            }
            if count > 0 {
                push_str(&mut out, "\n");
            }
            let pchars = chars_of(files[i].patch.as_str());
            push_all(&mut out, pchars.as_slice());
            count = count + 1;
        }
        i = i + 1;
    }
    assert(fs.subrange(0, i as int) =~= fs);
    string_of(out.as_slice())
}

/// The files listed in a review: path and line counts of each patch file.
pub fn review_files(files: &Vec<crate::pr_diff::PRChangedFile>) -> (r: Vec<ReviewFile>)
    ensures
        r@.len() == files@.len(),
        forall|k: int|
            0 <= k < r@.len() ==> (#[trigger] r@[k]).path@ == files@[k].path@ && r@[k].additions
                == files@[k].additions && r@[k].deletions == files@[k].deletions
                && r@[k].summary@.len() == 0 && r@[k].comments@.len() == 0,
{
    let mut out: Vec<ReviewFile> = Vec::new();
    let mut i: usize = 0;
    while i < files.len()
        invariant
            i <= files@.len(),
            out@.len() == i,
            forall|k: int|
                0 <= k < i ==> (#[trigger] out@[k]).path@ == files@[k].path@ && out@[k].additions
                    == files@[k].additions && out@[k].deletions == files@[k].deletions
                    && out@[k].summary@.len() == 0 && out@[k].comments@.len() == 0,
        decreases files@.len() - i,
    {
        let f = &files[i];
        out.push(
            ReviewFile {
                path: f.path.as_str().to_owned(),
                summary: String::new(),
                additions: f.additions,
                deletions: f.deletions,
                comments: Vec::new(),
            },
        );
        i = i + 1;
    }
    out
}

/// Review data for `patch` under the title `summary`; `branch` and
/// `commit` are what the repository reports, if anything (the summary
/// stands for a missing branch, an empty text for a missing commit).
pub fn build_review_data(patch: String, summary: String, branch: Option<String>, commit: Option<String>) -> (r:
    ReviewData)
    ensures
        r.patch@ == patch@,
        r.summary@ == summary@,
        r.branch@ == (match branch {
            Some(b) => b@,
            None => summary@,
        }),
        r.commit@ == (match commit {
            Some(c) => c@,
            None => Seq::<char>::empty(),
        }),
        pr_files_view_of_review(r.files@) == files_summary(unified_diff_files(patch@)),
        r.stats.bugs == 0 && r.stats.warnings == 0 && r.stats.suggestions == 0 && r.stats.good == 0,
{
    let files = parse_unified_diff(patch.as_str());
    let rf = review_files(&files);
    assert(pr_files_view_of_review(rf@) =~= files_summary(pr_files_view(files@)));
    let branch = match branch {
        Some(b) => b,
        None => summary.clone(),
    };
    let commit = match commit {
        Some(c) => c,
        None => String::new(),
    };
    ReviewData { branch, commit, summary, patch, files: rf, stats: ReviewStats::default() }
}

/// (path, additions, deletions) of each listed file.
pub open spec fn pr_files_view_of_review(v: Seq<ReviewFile>) -> Seq<(Seq<char>, nat, nat)> {
    v.map_values(|f: ReviewFile| (f.path@, f.additions as nat, f.deletions as nat))
}

/// (path, additions, deletions) of each patch file.
pub open spec fn files_summary(fs: Seq<PrFileV>) -> Seq<(Seq<char>, nat, nat)> {
    fs.map_values(|f: PrFileV| (f.path, f.additions, f.deletions))
}

/// The title of a review: its label, or the source's display name when the
/// label is empty.
pub fn review_summary(label: String, source_display: String) -> (r: String)
    ensures
        label@.len() == 0 ==> r@ == source_display@,
        label@.len() > 0 ==> r@ == label@,
{
    if label.as_str().is_empty() {
        source_display
    } else {
        label
    }
}

/// A patch with the diff of an untracked file appended (after a newline)
/// when that diff has more than white space.
pub fn append_untracked_diff(patch: String, extra: &str) -> (r: String)
    ensures
        trim(extra@).len() == 0 ==> r@ == patch@,
        trim(extra@).len() > 0 ==> r@ == patch@ + "\n"@ + extra@,
{
    let ec = chars_of(extra);
    let t = crate::strings::trim_chars(ec.as_slice());
    if t.len() == 0 {
        return patch;
    }
    let mut out = chars_of(patch.as_str());
    push_str(&mut out, "\n");
    push_all(&mut out, ec.as_slice());
    string_of(out.as_slice())
}


/// `s` with each `</` written as `<\/`, so that JSON text can stand inside
/// an HTML script element without closing it.
pub open spec fn script_safe_spec(s: Seq<char>) -> Seq<char>
    decreases s.len(),
{
    if s.len() == 0 {
        Seq::empty()
    } else if s.len() >= 2 && s[0] == '<' && s[1] == '/' {
        seq!['<', '\\', '/'] + script_safe_spec(s.subrange(2, s.len() as int))
    } else {
        seq![s[0]] + script_safe_spec(s.subrange(1, s.len() as int))
    }
}

/// Escape every `</` in `json` as `<\/`.
pub fn script_safe(json: &str) -> (r: String)
    ensures
        r@ == script_safe_spec(json@),
{
    let cs = chars_of(json);
    let mut out: Vec<char> = Vec::new();
    let mut i: usize = 0;
    assert(cs@.subrange(0, cs@.len() as int) =~= cs@);
    assert(out@ + script_safe_spec(cs@) =~= script_safe_spec(cs@));
    while i < cs.len()
        invariant
            i <= cs@.len(),
            cs@ == json@,
            out@ + script_safe_spec(cs@.subrange(i as int, cs@.len() as int)) == script_safe_spec(cs@),
        decreases cs@.len() - i,
    {
        let ghost rest = cs@.subrange(i as int, cs@.len() as int);
        if i + 1 < cs.len() && cs[i] == '<' && cs[i + 1] == '/' {
            out.push('<');
            out.push('\\');
            out.push('/');
            assert(rest.subrange(2, rest.len() as int) =~= cs@.subrange(i + 2, cs@.len() as int));
            i = i + 2;
        } else {
            out.push(cs[i]);
            assert(rest.subrange(1, rest.len() as int) =~= cs@.subrange(i + 1, cs@.len() as int));
            i = i + 1;
        }
    }
    assert(cs@.subrange(i as int, cs@.len() as int) =~= Seq::<char>::empty());
    assert(cs@.subrange(0, cs@.len() as int) =~= cs@);
    string_of(out.as_slice())
}

} // verus!
