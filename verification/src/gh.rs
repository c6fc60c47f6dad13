//! GitHub pull requests: the types read from the `gh` CLI, and the
//! decisions made around its calls (which arguments, which error, which
//! pull requests are kept). Running `gh` happens outside this module.

use vstd::prelude::*;
use crate::pr_diff::occurs_at;
use crate::strings::{chars_of, string_of, trim, trim_chars};

verus! {

/// Maximum diff size to load (50 MiB). Matches repo::MAX_FILE_SIZE.
pub const MAX_DIFF_SIZE: usize = 52428800;

/// Errors from GitHub CLI operations.
#[derive(Debug)]
#[non_exhaustive]
pub enum GhError {
    /// `gh` CLI not found or not authenticated.
    NotAvailable,
    /// GitHub API/CLI error.
    ApiError(String),
    /// Failed to parse CLI output.
    ParseError(String),
    /// I/O error running command.
    Io(std::io::Error),
    /// Diff exceeds maximum allowed size.
    DiffTooLarge {
        /// Maximum allowed size.
        max: usize,
    },
}

/// Filter for PR listing.
#[derive(Debug, Clone, Copy, PartialEq, Eq, Structural)]
pub enum PRFilter {
    /// All open PRs.
    All,
    /// PRs authored by current user.
    Mine,
    /// PRs where review is requested from current user.
    ReviewRequested,
}

impl Default for PRFilter {
    fn default() -> (r: Self)
        ensures
            r == PRFilter::All,
    {
        PRFilter::All
    }
}

/// PR author info.
#[derive(Debug, Clone)]
pub struct PRAuthor {
    /// GitHub username.
    pub login: String,
}

/// A pull request summary (from list).
#[derive(Debug, Clone)]
pub struct PullRequest {
    /// PR number.
    pub number: u32,
    /// PR title.
    pub title: String,
    /// Head branch name.
    pub head_ref_name: String,
    /// Base branch name.
    pub base_ref_name: String,
    /// PR author.
    pub author: PRAuthor,
    /// Lines added.
    pub additions: u32,
    /// Lines deleted.
    pub deletions: u32,
    /// Number of files changed.
    pub changed_files: u32,
    /// Whether this is a draft PR.
    pub is_draft: bool,
}

/// The arguments of `gh` that list the open pull requests for `filter`.
pub open spec fn list_args(filter: PRFilter) -> Seq<Seq<char>> {
    let base = seq![
        "pr"@,
        "list"@,
        "--state"@,
        "open"@,
        "--json"@,
        "number,title,headRefName,baseRefName,author,additions,deletions,changedFiles,isDraft"@,
    ];
    match filter {
        PRFilter::All => base,
        PRFilter::Mine => base + seq!["--author"@, "@me"@],
        PRFilter::ReviewRequested => base + seq!["--search"@, "review-requested:@me"@],
    }
}

/// Views of a list of string slices.
pub open spec fn strs(v: Seq<&str>) -> Seq<Seq<char>> {
    v.map_values(|s: &str| s@)
}

/// The `gh` arguments that list open pull requests for `filter`.
pub fn pr_list_args(filter: PRFilter) -> (r: Vec<&'static str>)
    ensures
        strs(r@) == list_args(filter),
{
    let mut args: Vec<&'static str> = Vec::new();
    args.push("pr");
    args.push("list");
    args.push("--state");
    args.push("open");
    args.push("--json");
    args.push("number,title,headRefName,baseRefName,author,additions,deletions,changedFiles,isDraft");
    match filter {
        PRFilter::All => {},
        PRFilter::Mine => {
            args.push("--author");
            args.push("@me");
        },
        PRFilter::ReviewRequested => {
            args.push("--search");
            args.push("review-requested:@me");
        },
    }
    assert(strs(args@) =~= list_args(filter));
    args
}

/// `s` contains `p`.
pub open spec fn contains_text(s: Seq<char>, p: Seq<char>) -> bool {
    exists|k: int| occurs_at(s, p, k)
}

pub(crate) fn contains_exec(s: &[char], p: &str) -> (r: bool)
    ensures
        r == contains_text(s@, p@),
{
    let pc = chars_of(p);
    if pc.len() > s.len() {
        proof {
            assert forall|k: int| !occurs_at(s@, p@, k) by {}
        }
        return false;
    }
    let last = s.len() - pc.len();
    let mut k: usize = 0;
    loop
        invariant
            pc@ == p@,
            pc@.len() <= s@.len(),
            last == s@.len() - pc@.len(),
            k <= last,
            forall|j: int| 0 <= j < k ==> !occurs_at(s@, p@, j),
        ensures
            forall|j: int| 0 <= j <= last ==> !occurs_at(s@, p@, j),
        decreases last - k,
    {
        if crate::pr_diff::occurs_at_exec(s, pc.as_slice(), k) {
            return true;
        }
        if k == last {
            break;
        }
        k = k + 1;
    }
    proof {
        assert forall|j: int| !occurs_at(s@, p@, j) by {
            if 0 <= j <= last {
            }
        }
    }
    false
}

/// The error for a failed `gh pr list`: not available when the message
/// mentions authentication or login, else the trimmed message.
pub fn list_failure(stderr: &str) -> (r: GhError)
    ensures
        (contains_text(stderr@, "auth"@) || contains_text(stderr@, "login"@)) ==> r is NotAvailable,
        !(contains_text(stderr@, "auth"@) || contains_text(stderr@, "login"@)) ==> (r matches GhError::ApiError(m)
            && m@ == trim(stderr@)),
{
    let c = chars_of(stderr);
    if contains_exec(c.as_slice(), "auth") || contains_exec(c.as_slice(), "login") {
        return GhError::NotAvailable;
    }
    let t = trim_chars(c.as_slice());
    GhError::ApiError(string_of(t.as_slice()))
}

/// The error for another failed `gh` command: its trimmed message.
pub fn command_failure(stderr: &str) -> (r: GhError)
    ensures
        r matches GhError::ApiError(m) && m@ == trim(stderr@),
{
    let c = chars_of(stderr);
    let t = trim_chars(c.as_slice());
    GhError::ApiError(string_of(t.as_slice()))
}

/// The pull requests that are not drafts.
pub open spec fn non_drafts(prs: Seq<PullRequest>) -> Seq<PullRequest>
    decreases prs.len(),
{
    if prs.len() == 0 {
        Seq::empty()
    } else {
        let p = non_drafts(prs.drop_last());
        if prs.last().is_draft {
            p
        } else {
            p.push(prs.last())
        }
    }
}

/// Drop the draft pull requests, keeping the order of the others.
pub fn drop_drafts(prs: Vec<PullRequest>) -> (r: Vec<PullRequest>)
    ensures
        r@ == non_drafts(prs@),
{
    let ghost all = prs@;
    let mut prs = prs;
    let mut rev: Vec<PullRequest> = Vec::new();
    while prs.len() > 0
        invariant
            all == prs@ + rev@.reverse(),
        decreases prs@.len(),
    {
        let p = prs.pop().unwrap();
        let ghost r0 = rev@;
        rev.push(p);
        assert(rev@.reverse() =~= seq![p] + r0.reverse());
        assert(all =~= prs@ + rev@.reverse());
    }
    let mut out: Vec<PullRequest> = Vec::new();
    let ghost mut done: Seq<PullRequest> = Seq::empty();
    assert(all =~= rev@.reverse());
    while rev.len() > 0
        invariant
            all == done + rev@.reverse(),
            out@ == non_drafts(done),
        decreases rev@.len(),
    {
        let p = rev.pop().unwrap();
        proof {
            assert(rev@.push(p).reverse() =~= seq![p] + rev@.reverse());
            assert(done.push(p).drop_last() =~= done);
        }
        if !p.is_draft {
            out.push(p);
        }
        proof {
            done = done.push(p);
        }
        assert(all =~= done + rev@.reverse());
    }
    assert(done =~= all);
    out
}

/// Whether `total` bytes of diff exceed the cap.
pub fn diff_too_large(total: usize) -> (r: Option<GhError>)
    ensures
        total > MAX_DIFF_SIZE ==> (r matches Some(GhError::DiffTooLarge { max }) && max
            == MAX_DIFF_SIZE),
        total <= MAX_DIFF_SIZE ==> r is None,
{
    if total > MAX_DIFF_SIZE {
        Some(GhError::DiffTooLarge { max: MAX_DIFF_SIZE })
    } else {
        None
    }
}

/// The kind of review submitted for a pull request.
#[derive(Debug, Clone, Copy, PartialEq, Eq, Structural)]
pub enum ReviewKind {
    /// Approve, with an optional body.
    Approve,
    /// A comment review.
    Comment,
    /// Request changes.
    RequestChanges,
}

/// The `gh` arguments submitting a review of PR `number` (given as text).
pub open spec fn review_args_spec(number: Seq<char>, kind: ReviewKind, body: Option<Seq<char>>) -> Seq<
    Seq<char>,
> {
    let head = seq!["pr"@, "review"@, number];
    match kind {
        ReviewKind::Approve => match body {
            Some(b) => head + seq!["--approve"@, "-b"@, b],
            None => head + seq!["--approve"@],
        },
        ReviewKind::Comment => head + seq!["--comment"@, "-b"@, set_or_empty(body)],
        ReviewKind::RequestChanges => head + seq!["--request-changes"@, "-b"@, set_or_empty(body)],
    }
}

/// The text of an optional body, empty when absent.
pub open spec fn set_or_empty(b: Option<Seq<char>>) -> Seq<char> {
    match b {
        Some(x) => x,
        None => Seq::empty(),
    }
}

/// The `gh` arguments submitting a review of PR `pr_number`.
pub fn review_args(pr_number: u32, kind: ReviewKind, body: Option<&str>) -> (r: Vec<String>)
    ensures
        crate::viewed::texts(r@) == review_args_spec(
            crate::strings::dec(pr_number as nat),
            kind,
            crate::repo::opt_text(body),
        ),
{
    let n = string_of(crate::strings::fmt_dec(pr_number as usize).as_slice());
    let mut args: Vec<String> = Vec::new();
    args.push("pr".to_owned());
    args.push("review".to_owned());
    args.push(n);
    match kind {
        ReviewKind::Approve => {
            args.push("--approve".to_owned());
            match body {
                Some(b) => {
                    args.push("-b".to_owned());
                    args.push(b.to_owned());
                },
                None => {},
            }
        },
        ReviewKind::Comment => {
            args.push("--comment".to_owned());
            args.push("-b".to_owned());
            args.push(
                match body {
                    Some(b) => b.to_owned(),
                    None => String::new(),
                },
            );
        },
        ReviewKind::RequestChanges => {
            args.push("--request-changes".to_owned());
            args.push("-b".to_owned());
            args.push(
                match body {
                    Some(b) => b.to_owned(),
                    None => String::new(),
                },
            );
        },
    }
    assert(crate::viewed::texts(args@) =~= review_args_spec(
        crate::strings::dec(pr_number as nat),
        kind,
        crate::repo::opt_text(body),
    ));
    args
}

} // verus!
