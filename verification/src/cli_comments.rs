//! The `comments` command line: reading its flags, choosing a context,
//! picking a hunk, and the texts it prints. Running the command (the
//! store on disk, the repository) happens outside this module.

use vstd::prelude::*;
use crate::comments::{context_matches, Comment, CommentContext, CommentStatus, CommentV, ContextV};
use crate::comments_store::refs_view;
use crate::diff::Hunk;
use crate::strings::{chars_of, dec, fmt_dec, fmt_dec_u64, push_all, push_str, slice_to_vec, string_of,
    take_chars_spec, take_chars_vec};

verus! {

/// The flags that take a value.
pub open spec fn value_flags() -> Seq<Seq<char>> {
    seq![
        "--base"@,
        "--commit"@,
        "--range"@,
        "--path"@,
        "--hunk"@,
        "--old-line"@,
        "--new-line"@,
        "--message"@,
        "-m"@,
    ]
}

fn is(s: &str, lit: &str) -> (r: bool)
    ensures
        r == (s@ == lit@),
{
    s.to_owned() == lit.to_owned()
}

/// Check if arg is a known flag that takes a value.
pub fn takes_value(arg: &str) -> (r: bool)
    ensures
        r == value_flags().contains(arg@),
{
    let r = is(arg, "--base") || is(arg, "--commit") || is(arg, "--range") || is(arg, "--path")
        || is(arg, "--hunk") || is(arg, "--old-line") || is(arg, "--new-line") || is(
        arg,
        "--message",
    ) || is(arg, "-m");
    proof {
        if value_flags().contains(arg@) {
            let k = choose|k: int| 0 <= k < value_flags().len() && value_flags()[k] == arg@;
            assert(0 <= k < 9);
        }
        if r {
            if arg@ == "--base"@ {
                assert(value_flags()[0] == arg@);
            } else if arg@ == "--commit"@ {
                assert(value_flags()[1] == arg@);
            } else if arg@ == "--range"@ {
                assert(value_flags()[2] == arg@);
            } else if arg@ == "--path"@ {
                assert(value_flags()[3] == arg@);
            } else if arg@ == "--hunk"@ {
                assert(value_flags()[4] == arg@);
            } else if arg@ == "--old-line"@ {
                assert(value_flags()[5] == arg@);
            } else if arg@ == "--new-line"@ {
                assert(value_flags()[6] == arg@);
            } else if arg@ == "--message"@ {
                assert(value_flags()[7] == arg@);
            } else {
                assert(value_flags()[8] == arg@);
            }
        }
    }
    r
}

/// ".." occurs in `s` at `k`.
pub open spec fn dots_at(s: Seq<char>, k: int) -> bool {
    0 <= k && k + 1 < s.len() && s[k] == '.' && s[k + 1] == '.'
}

/// Index of the first ".." in `s`.
pub open spec fn find_dots(s: Seq<char>) -> Option<int> {
    if exists|k: int| #[trigger] dots_at(s, k) {
        Some(choose|k: int| #[trigger] dots_at(s, k) && forall|j: int| 0 <= j < k ==> !dots_at(s, j))
    } else {
        None
    }
}

/// The two ends of a `from..to` range (a third dot, as in `a...b`, is
/// dropped); an error when there is no "..".
pub open spec fn range_parts(s: Seq<char>) -> Option<(Seq<char>, Seq<char>)> {
    match find_dots(s) {
        None => None,
        Some(k) => {
            let to = s.subrange(k + 2, s.len() as int);
            Some(
                (
                    s.subrange(0, k),
                    if to.len() > 0 && to[0] == '.' {
                        to.subrange(1, to.len() as int)
                    } else {
                        to
                    },
                ),
            )
        },
    }
}

/// Split a `from..to` range.
pub fn parse_range(s: &str) -> (r: Result<(String, String), String>)
    ensures
        range_parts(s@) matches Some(p) ==> (r matches Ok(q) && q.0@ == p.0 && q.1@ == p.1),
        range_parts(s@) is None ==> (r matches Err(m) && m@
            == "--range must contain '..' (e.g. a..b)"@),
{
    let c = chars_of(s);
    let n = c.len();
    let mut k: usize = 0;
    while k < n && k + 1 < n
        invariant
            n == c@.len(),
            c@ == s@,
            forall|j: int| 0 <= j < k ==> !dots_at(c@, j),
        decreases n - k,
    {
        if c[k] == '.' && c[k + 1] == '.' {
            proof {
                assert(dots_at(s@, k as int));
                let w = choose|w: int| #[trigger] dots_at(s@, w) && forall|j: int| 0 <= j < w ==> !dots_at(s@, j);
                assert(w == k) by {
                    if w < k {
                    } else if w > k {
                    }
                }
            }
            let from = slice_to_vec(c.as_slice(), 0, k);
            let to0 = slice_to_vec(c.as_slice(), k + 2, n);
            let to = if to0.len() > 0 && to0[0] == '.' {
                slice_to_vec(to0.as_slice(), 1, to0.len())
            } else {
                to0
            };
            return Ok((string_of(from.as_slice()), string_of(to.as_slice())));
        }
        k = k + 1;
    }
    proof {
        assert forall|w: int| !#[trigger] dots_at(s@, w) by {
            if 0 <= w && w + 1 < s@.len() {
                assert(w < k);
            }
        }
    }
    Err("--range must contain '..' (e.g. a..b)".to_owned())
}

/// The context flags given on a command line.
#[derive(Debug)]
pub struct ContextFlags {
    pub worktree: bool,
    pub base: Option<String>,
    pub commit: Option<String>,
    pub range: Option<String>,
}

/// The value flags of `args` from position `i`: (worktree, base, commit,
/// range, missing value of this flag), the last occurrence of a flag
/// winning; another value flag's value is skipped.
pub open spec fn scan_flags(args: Seq<Seq<char>>, i: int, acc: (bool, Option<Seq<char>>, Option<Seq<char>>, Option<Seq<char>>)) -> Result<
    (bool, Option<Seq<char>>, Option<Seq<char>>, Option<Seq<char>>),
    Seq<char>,
>
    decreases args.len() + 1 - i,
{
    if i < 0 || i >= args.len() {
        Ok(acc)
    } else {
        let a = args[i];
        if a == "--worktree"@ {
            scan_flags(args, i + 1, (true, acc.1, acc.2, acc.3))
        } else if a == "--base"@ {
            if i + 1 >= args.len() {
                Err("--base requires a value"@)
            } else {
                scan_flags(args, i + 2, (acc.0, Some(args[i + 1]), acc.2, acc.3))
            }
        } else if a == "--commit"@ {
            if i + 1 >= args.len() {
                Err("--commit requires a value"@)
            } else {
                scan_flags(args, i + 2, (acc.0, acc.1, Some(args[i + 1]), acc.3))
            }
        } else if a == "--range"@ {
            if i + 1 >= args.len() {
                Err("--range requires a value"@)
            } else {
                scan_flags(args, i + 2, (acc.0, acc.1, acc.2, Some(args[i + 1])))
            }
        } else if value_flags().contains(a) {
            scan_flags(args, i + 2, acc)
        } else {
            scan_flags(args, i + 1, acc)
        }
    }
}

/// Read the context flags of a command line.
pub fn scan_context_flags(args: &[String]) -> (r: Result<ContextFlags, String>)
    ensures
        scan_flags(crate::viewed::texts(args@), 0, (false, None, None, None)) matches Ok(f) ==> (
        r matches Ok(g) && g.worktree == f.0 && crate::config::opt_string(g.base) == f.1
            && crate::config::opt_string(g.commit) == f.2 && crate::config::opt_string(g.range)
            == f.3),
        scan_flags(crate::viewed::texts(args@), 0, (false, None, None, None)) matches Err(m) ==> (
        r matches Err(e) && e@ == m),
{
    let ghost a = crate::viewed::texts(args@);
    let mut worktree = false;
    let mut base: Option<String> = None;
    let mut commit: Option<String> = None;
    let mut range: Option<String> = None;
    let mut i: usize = 0;
    while i < args.len()
        invariant
            a == crate::viewed::texts(args@),
            i <= args@.len(),
            scan_flags(a, 0, (false, None, None, None)) == scan_flags(
                a,
                i as int,
                (
                    worktree,
                    crate::config::opt_string(base),
                    crate::config::opt_string(commit),
                    crate::config::opt_string(range),
                ),
            ),
        decreases args@.len() + 1 - i,
    {
        let arg = args[i].as_str();
        assert(arg@ == a[i as int]);
        if is(arg, "--worktree") {
            worktree = true;
            i = i + 1;
        } else if is(arg, "--base") || is(arg, "--commit") || is(arg, "--range") {
            if i + 1 >= args.len() {
                if is(arg, "--base") {
                    return Err("--base requires a value".to_owned());
                } else if is(arg, "--commit") {
                    return Err("--commit requires a value".to_owned());
                } else {
                    return Err("--range requires a value".to_owned());
                }
            }
            let v = args[i + 1].clone();
            assert(v@ == a[i + 1]);
            if is(arg, "--base") {
                base = Some(v);
            } else if is(arg, "--commit") {
                commit = Some(v);
            } else {
                range = Some(v);
            }
            i = i + 2;
        } else if takes_value(arg) {
            if i + 1 >= args.len() {
                let ghost st = (
                    worktree,
                    crate::config::opt_string(base),
                    crate::config::opt_string(commit),
                    crate::config::opt_string(range),
                );
                assert(scan_flags(a, i + 2, st) == Ok::<_, Seq<char>>(st));
                assert(scan_flags(a, args@.len() as int, st) == Ok::<_, Seq<char>>(st));
                i = args.len();
            } else {
                i = i + 2;
            }
        } else {
            i = i + 1;
        }
    }
    Ok(ContextFlags { worktree, base, commit, range })
}

/// What the context flags ask for.
#[derive(Debug)]
pub enum ContextRequest {
    /// HEAD vs working tree.
    Worktree,
    /// Against a base ref.
    Base(String),
    /// A commit (to be resolved to its id).
    Commit(String),
    /// A range, ends defaulted (to be resolved to ids).
    Range { from: String, to: String },
}

/// The number of context flags given.
pub open spec fn flag_count(w: bool, b: bool, c: bool, r: bool) -> int {
    (if w {
        1int
    } else {
        0
    }) + (if b {
        1int
    } else {
        0
    }) + (if c {
        1int
    } else {
        0
    }) + (if r {
        1int
    } else {
        0
    })
}

/// `s`, or `d` when empty.
pub open spec fn or_default_ref(s: Seq<char>, d: Seq<char>) -> Seq<char> {
    if s.len() == 0 {
        d
    } else {
        s
    }
}

/// The context requested: none without flags, an error with more than
/// one; a range's empty ends are the default ref.
pub fn context_request(flags: ContextFlags, default_ref: &str) -> (r: Result<Option<ContextRequest>, String>)
    ensures
        ({
            let n = flag_count(flags.worktree, flags.base is Some, flags.commit is Some, flags.range is Some);
            &&& n == 0 ==> (r matches Ok(None))
            &&& n > 1 ==> (r matches Err(m) && m@
                == "Only one of --worktree/--base/--commit/--range may be specified"@)
            &&& n == 1 && flags.worktree ==> (r matches Ok(Some(ContextRequest::Worktree)))
            &&& n == 1 && flags.base is Some ==> (r matches Ok(Some(ContextRequest::Base(b))) && b@
                == flags.base->0@)
            &&& n == 1 && flags.commit is Some ==> (r matches Ok(Some(ContextRequest::Commit(c)))
                && c@ == flags.commit->0@)
            &&& n == 1 && flags.range is Some ==> (match range_parts(flags.range->0@) {
                None => (r matches Err(m) && m@ == "--range must contain '..' (e.g. a..b)"@),
                Some(p) => (r matches Ok(Some(ContextRequest::Range { from, to })) && from@
                    == or_default_ref(p.0, default_ref@) && to@ == or_default_ref(p.1, default_ref@)),
            })
        }),
{
    let n: u8 = (if flags.worktree {
        1u8
    } else {
        0
    }) + (if flags.base.is_some() {
        1u8
    } else {
        0
    }) + (if flags.commit.is_some() {
        1u8
    } else {
        0
    }) + (if flags.range.is_some() {
        1u8
    } else {
        0
    });
    if n == 0 {
        return Ok(None);
    }
    if n > 1 {
        return Err("Only one of --worktree/--base/--commit/--range may be specified".to_owned());
    }
    if flags.worktree {
        return Ok(Some(ContextRequest::Worktree));
    }
    match flags.base {
        Some(b) => {
            return Ok(Some(ContextRequest::Base(b)));
        },
        None => {},
    }
    match flags.commit {
        Some(c) => {
            return Ok(Some(ContextRequest::Commit(c)));
        },
        None => {},
    }
    match flags.range {
        Some(range) => {
            let (from, to) = match parse_range(range.as_str()) {
                Ok(p) => p,
                Err(e) => {
                    return Err(e);
                },
            };
            let from = if from.as_str().is_empty() {
                default_ref.to_owned()
            } else {
                from
            };
            let to = if to.as_str().is_empty() {
                default_ref.to_owned()
            } else {
                to
            };
            Ok(Some(ContextRequest::Range { from, to }))
        },
        None => Ok(None),
    }
}

/// A context as the command line shows it.
pub open spec fn context_text(c: ContextV) -> Seq<char> {
    match c {
        ContextV::Unscoped => "any"@,
        ContextV::Worktree => "worktree"@,
        ContextV::Base { base } => "base:"@ + base,
        ContextV::Commit { commit } => "commit:"@ + take_chars_spec(commit, 7),
        ContextV::Range { from, to } => "range:"@ + take_chars_spec(from, 7) + ".."@
            + take_chars_spec(to, 7),
    }
}

/// A short text naming a comment context.
pub fn context_summary(ctx: &CommentContext) -> (r: String)
    ensures
        r@ == context_text(ctx@),
{
    let mut out: Vec<char> = Vec::new();
    match ctx {
        CommentContext::Unscoped => push_str(&mut out, "any"),
        CommentContext::Worktree => push_str(&mut out, "worktree"),
        CommentContext::Base { base } => {
            push_str(&mut out, "base:");
            push_str(&mut out, base.as_str());
        },
        CommentContext::Commit { commit } => {
            push_str(&mut out, "commit:");
            let c = chars_of(commit.as_str());
            push_all(&mut out, take_chars_vec(c.as_slice(), 7).as_slice());
        },
        CommentContext::Range { from, to } => {
            push_str(&mut out, "range:");
            let f = chars_of(from.as_str());
            push_all(&mut out, take_chars_vec(f.as_slice(), 7).as_slice());
            push_str(&mut out, "..");
            let t = chars_of(to.as_str());
            push_all(&mut out, take_chars_vec(t.as_slice(), 7).as_slice());
        },
    }
    string_of(out.as_slice())
}

/// How the hunk to comment on is chosen (zero-based).
#[derive(Debug, Clone, Copy, PartialEq, Eq, Structural)]
pub enum HunkSelectorArg {
    /// The hunk at an index.
    Index(usize),
    /// The first hunk whose old range holds the line.
    OldLine(usize),
    /// The first hunk whose new range holds the line.
    NewLine(usize),
}

/// Line `l` lies in range `(start, count)`.
pub open spec fn in_range(l: usize, r: (usize, usize)) -> bool {
    r.0 <= l < r.0 + r.1
}

/// The hunk chosen by `sel` among `hs`, or the message when none is.
pub open spec fn chosen_hunk(hs: Seq<Hunk>, sel: HunkSelectorArg) -> Result<int, Seq<char>> {
    match sel {
        HunkSelectorArg::Index(i) => if i < hs.len() {
            Ok(i as int)
        } else {
            Err("Hunk "@ + dec((i + 1) as nat) + " does not exist (file has "@ + dec(hs.len())
                + " hunks)"@)
        },
        HunkSelectorArg::OldLine(l) => if exists|k: int| 0 <= k < hs.len() && in_range(l, hs[k].old_range) {
            Ok(choose|k: int| 0 <= k < hs.len() && in_range(l, hs[k].old_range) && forall|j: int|
                0 <= j < k ==> !in_range(l, hs[j].old_range))
        } else {
            Err("No hunk matches --old-line "@ + dec((l + 1) as nat))
        },
        HunkSelectorArg::NewLine(l) => if exists|k: int| 0 <= k < hs.len() && in_range(l, hs[k].new_range) {
            Ok(choose|k: int| 0 <= k < hs.len() && in_range(l, hs[k].new_range) && forall|j: int|
                0 <= j < k ==> !in_range(l, hs[j].new_range))
        } else {
            Err("No hunk matches --new-line "@ + dec((l + 1) as nat))
        },
    }
}

fn first_in_range(hs: &[Hunk], l: usize, old: bool) -> (r: Option<usize>)
    requires
        forall|k: int| 0 <= k < hs@.len() ==> (#[trigger] hs@[k]).old_range.0 + hs@[k].old_range.1 <= usize::MAX
            && hs@[k].new_range.0 + hs@[k].new_range.1 <= usize::MAX,
    ensures
        r matches Some(k) ==> k < hs@.len() && in_range(
            l,
            if old {
                hs@[k as int].old_range
            } else {
                hs@[k as int].new_range
            },
        ) && forall|j: int|
            0 <= j < k ==> !in_range(
                l,
                if old {
                    hs@[j].old_range
                } else {
                    hs@[j].new_range
                },
            ),
        r is None ==> forall|j: int|
            0 <= j < hs@.len() ==> !in_range(
                l,
                if old {
                    hs@[j].old_range
                } else {
                    hs@[j].new_range
                },
            ),
{
    let mut k: usize = 0;
    while k < hs.len()
        invariant
            k <= hs@.len(),
            forall|j: int| 0 <= j < hs@.len() ==> (#[trigger] hs@[j]).old_range.0 + hs@[j].old_range.1 <= usize::MAX
                && hs@[j].new_range.0 + hs@[j].new_range.1 <= usize::MAX,
            forall|j: int|
                0 <= j < k ==> !in_range(
                    l,
                    if old {
                        hs@[j].old_range
                    } else {
                        hs@[j].new_range
                    },
                ),
        decreases hs@.len() - k,
    {
        let h = hs[k];
        assert(h == hs@[k as int]);
        let r = if old {
            h.old_range
        } else {
            h.new_range
        };
        if l >= r.0 && l < r.0 + r.1 {
            return Some(k);
        }
        k = k + 1;
    }
    None
}

/// Pick the hunk to comment on.
pub fn select_hunk(hunks: &[Hunk], sel: HunkSelectorArg) -> (r: Result<usize, String>)
    requires
        forall|k: int| 0 <= k < hunks@.len() ==> (#[trigger] hunks@[k]).old_range.0 + hunks@[k].old_range.1
            <= usize::MAX && hunks@[k].new_range.0 + hunks@[k].new_range.1 <= usize::MAX,
        sel matches HunkSelectorArg::Index(i) ==> i + 1 <= usize::MAX,
        sel matches HunkSelectorArg::OldLine(l) ==> l + 1 <= usize::MAX,
        sel matches HunkSelectorArg::NewLine(l) ==> l + 1 <= usize::MAX,
    ensures
        chosen_hunk(hunks@, sel) matches Ok(k) ==> r == Ok::<usize, String>(k as usize),
        chosen_hunk(hunks@, sel) matches Err(m) ==> (r matches Err(e) && e@ == m),
{
    match sel {
        HunkSelectorArg::Index(i) => {
            if i < hunks.len() {
                Ok(i)
            } else {
                let mut m: Vec<char> = Vec::new();
                push_str(&mut m, "Hunk ");
                push_all(&mut m, fmt_dec(i + 1).as_slice());
                push_str(&mut m, " does not exist (file has ");
                push_all(&mut m, fmt_dec(hunks.len()).as_slice());
                push_str(&mut m, " hunks)");
                Err(string_of(m.as_slice()))
            }
        },
        HunkSelectorArg::OldLine(l) => match first_in_range(hunks, l, true) {
            Some(k) => {
                proof {
                    let c = choose|c: int| 0 <= c < hunks@.len() && in_range(l, hunks@[c].old_range) && forall|j: int|
                        0 <= j < c ==> !in_range(l, hunks@[j].old_range);
                    assert(c == k) by {
                        if c < k {
                        } else if c > k {
                        }
                    }
                }
                Ok(k)
            },
            None => {
                let mut m: Vec<char> = Vec::new();
                push_str(&mut m, "No hunk matches --old-line ");
                push_all(&mut m, fmt_dec(l + 1).as_slice());
                Err(string_of(m.as_slice()))
            },
        },
        HunkSelectorArg::NewLine(l) => match first_in_range(hunks, l, false) {
            Some(k) => {
                proof {
                    let c = choose|c: int| 0 <= c < hunks@.len() && in_range(l, hunks@[c].new_range) && forall|j: int|
                        0 <= j < c ==> !in_range(l, hunks@[j].new_range);
                    assert(c == k) by {
                        if c < k {
                        } else if c > k {
                        }
                    }
                }
                Ok(k)
            },
            None => {
                let mut m: Vec<char> = Vec::new();
                push_str(&mut m, "No hunk matches --new-line ");
                push_all(&mut m, fmt_dec(l + 1).as_slice());
                Err(string_of(m.as_slice()))
            },
        },
    }
}

// ---------------------------------------------------------------------------
// Numbers given on the command line
// ---------------------------------------------------------------------------

/// The value of a string of decimal digits; `None` when a character is not
/// a digit.
pub open spec fn digits_value(d: Seq<char>) -> Option<nat>
    decreases d.len(),
{
    if d.len() == 0 {
        Some(0)
    } else {
        match digits_value(d.drop_last()) {
            Some(v) => if '0' <= d.last() && d.last() <= '9' {
                Some((v * 10 + (d.last() as int - '0' as int)) as nat)
            } else {
                None
            },
            None => None,
        }
    }
}

/// The number an unsigned integer's `FromStr` reads in `s`: an optional `+`
/// and at least one decimal digit.
pub open spec fn parsed_nat(s: Seq<char>) -> Option<nat> {
    let d = if s.len() > 0 && s[0] == '+' {
        s.drop_first()
    } else {
        s
    };
    if d.len() == 0 {
        None
    } else {
        digits_value(d)
    }
}

/// `s.parse::<u64>()`, as an option.
pub open spec fn parsed_u64(s: Seq<char>) -> Option<u64> {
    match parsed_nat(s) {
        Some(n) => if n <= u64::MAX {
            Some(n as u64)
        } else {
            None
        },
        None => None,
    }
}

proof fn lemma_digits_value_grows(d: Seq<char>, k: int)
    requires
        0 <= k <= d.len(),
        digits_value(d) is Some,
    ensures
        digits_value(d.subrange(0, k)) is Some,
        digits_value(d.subrange(0, k))->0 <= digits_value(d)->0,
    decreases d.len() - k,
{
    if k == d.len() {
        assert(d.subrange(0, k) =~= d);
    } else {
        assert(d.subrange(0, k + 1).drop_last() =~= d.subrange(0, k));
        lemma_digits_value_grows(d, k + 1);
    }
}

/// Parse an unsigned decimal number as `u64::from_str` does.
pub fn parse_u64(s: &str) -> (r: Option<u64>)
    ensures
        r == parsed_u64(s@),
{
    let c = chars_of(s);
    let start: usize = if c.len() > 0 && c[0] == '+' {
        1
    } else {
        0
    };
    let ghost d = if s@.len() > 0 && s@[0] == '+' {
        s@.drop_first()
    } else {
        s@
    };
    assert(d =~= c@.subrange(start as int, c@.len() as int));
    if start == c.len() {
        return None;
    }
    let mut v: u64 = 0;
    let mut i: usize = start;
    assert(d.subrange(0, 0) =~= Seq::<char>::empty());
    while i < c.len()
        invariant
            c@ == s@,
            start <= i <= c@.len(),
            d == c@.subrange(start as int, c@.len() as int),
            d == (if s@.len() > 0 && s@[0] == '+' {
                s@.drop_first()
            } else {
                s@
            }),
            d.len() > 0,
            digits_value(d.subrange(0, i - start)) == Some(v as nat),
        decreases c@.len() - i,
    {
        let ch = c[i];
        proof {
            assert(d.subrange(0, i - start + 1).drop_last() =~= d.subrange(0, i - start));
            assert(d.subrange(0, i - start + 1).last() == ch);
        }
        if !('0' <= ch && ch <= '9') {
            proof {
                let k = i - start + 1;
                assert(digits_value(d.subrange(0, k)) is None);
                if digits_value(d) is Some {
                    lemma_digits_value_grows(d, k);
                }
                assert(digits_value(d) is None);
                assert(parsed_nat(s@) is None);
            }
            return None;
        }
        let digit: u64 = (ch as u32 - '0' as u32) as u64;
        if v > (u64::MAX - digit) / 10 {
            proof {
                assert(v * 10 + digit > u64::MAX) by (nonlinear_arith)
                    requires
                        v > (u64::MAX - digit) / 10,
                        digit <= 9,
                ;
                let k = i - start + 1;
                assert(digits_value(d.subrange(0, k)) == Some((v * 10 + digit) as nat));
                if digits_value(d) is Some {
                    lemma_digits_value_grows(d, k);
                }
                assert(parsed_nat(s@) is None || parsed_nat(s@)->0 > u64::MAX);
            }
            return None;
        }
        proof {
            assert(v * 10 + digit <= u64::MAX) by (nonlinear_arith)
                requires
                    v <= (u64::MAX - digit) / 10,
                    digit <= 9,
            ;
        }
        v = v * 10 + digit;
        i = i + 1;
    }
    assert(d.subrange(0, i - start) =~= d);
    Some(v)
}

/// A positive number given for a one-based line or hunk, made zero-based.
pub open spec fn pos_index(v: Seq<char>) -> Option<usize> {
    match parsed_u64(v) {
        Some(n) => if 1 <= n && n <= usize::MAX {
            Some((n - 1) as usize)
        } else {
            None
        },
        None => None,
    }
}

fn parse_pos_index(v: &str) -> (r: Option<usize>)
    ensures
        r == pos_index(v@),
{
    match parse_u64(v) {
        Some(n) => if 1 <= n && n <= usize::MAX as u64 {
            Some((n - 1) as usize)
        } else {
            None
        },
        None => None,
    }
}

// ---------------------------------------------------------------------------
// `comments add` and `comments list` flags
// ---------------------------------------------------------------------------

/// The flags of `comments add`: path, hunk selector and message, each the
/// last one given.
#[derive(Debug)]
pub struct AddFlags {
    pub path: Option<String>,
    pub selector: Option<HunkSelectorArg>,
    pub message: Option<String>,
}

/// The flags of `comments add` from position `i` of `args`; the context
/// flags' values are skipped.
pub open spec fn scan_add(
    args: Seq<Seq<char>>,
    i: int,
    acc: (Option<Seq<char>>, Option<HunkSelectorArg>, Option<Seq<char>>),
) -> Result<(Option<Seq<char>>, Option<HunkSelectorArg>, Option<Seq<char>>), Seq<char>>
    decreases args.len() + 1 - i,
{
    if i < 0 || i >= args.len() {
        Ok(acc)
    } else {
        let a = args[i];
        if a == "--path"@ {
            if i + 1 >= args.len() {
                Err("--path requires a value"@)
            } else {
                scan_add(args, i + 2, (Some(args[i + 1]), acc.1, acc.2))
            }
        } else if a == "--hunk"@ {
            if i + 1 >= args.len() {
                Err("--hunk requires a value"@)
            } else {
                match pos_index(args[i + 1]) {
                    Some(k) => scan_add(args, i + 2, (acc.0, Some(HunkSelectorArg::Index(k)), acc.2)),
                    None => Err("--hunk must be a positive integer"@),
                }
            }
        } else if a == "--old-line"@ {
            if i + 1 >= args.len() {
                Err("--old-line requires a value"@)
            } else {
                match pos_index(args[i + 1]) {
                    Some(k) => scan_add(args, i + 2, (acc.0, Some(HunkSelectorArg::OldLine(k)), acc.2)),
                    None => Err("--old-line must be a positive integer"@),
                }
            }
        } else if a == "--new-line"@ {
            if i + 1 >= args.len() {
                Err("--new-line requires a value"@)
            } else {
                match pos_index(args[i + 1]) {
                    Some(k) => scan_add(args, i + 2, (acc.0, Some(HunkSelectorArg::NewLine(k)), acc.2)),
                    None => Err("--new-line must be a positive integer"@),
                }
            }
        } else if a == "--message"@ || a == "-m"@ {
            if i + 1 >= args.len() {
                Err("--message requires a value"@)
            } else {
                scan_add(args, i + 2, (acc.0, acc.1, Some(args[i + 1])))
            }
        } else if value_flags().contains(a) {
            scan_add(args, i + 2, acc)
        } else {
            scan_add(args, i + 1, acc)
        }
    }
}

/// Read the flags of `comments add`.
pub fn scan_add_flags(args: &[String]) -> (r: Result<AddFlags, String>)
    ensures
        scan_add(crate::viewed::texts(args@), 0, (None, None, None)) matches Ok(f) ==> (r matches Ok(
            g,
        ) && crate::config::opt_string(g.path) == f.0 && g.selector == f.1
            && crate::config::opt_string(g.message) == f.2),
        scan_add(crate::viewed::texts(args@), 0, (None, None, None)) matches Err(m) ==> (r matches Err(
            e,
        ) && e@ == m),
{
    let ghost a = crate::viewed::texts(args@);
    let mut path: Option<String> = None;
    let mut selector: Option<HunkSelectorArg> = None;
    let mut message: Option<String> = None;
    let mut i: usize = 0;
    while i < args.len()
        invariant
            a == crate::viewed::texts(args@),
            i <= args@.len(),
            scan_add(a, 0, (None, None, None)) == scan_add(
                a,
                i as int,
                (crate::config::opt_string(path), selector, crate::config::opt_string(message)),
            ),
        decreases args@.len() + 1 - i,
    {
        let arg = args[i].as_str();
        assert(arg@ == a[i as int]);
        if is(arg, "--path") {
            if i + 1 >= args.len() {
                return Err("--path requires a value".to_owned());
            }
            path = Some(args[i + 1].clone());
            i = i + 2;
        } else if is(arg, "--hunk") || is(arg, "--old-line") || is(arg, "--new-line") {
            if i + 1 >= args.len() {
                if is(arg, "--hunk") {
                    return Err("--hunk requires a value".to_owned());
                } else if is(arg, "--old-line") {
                    return Err("--old-line requires a value".to_owned());
                } else {
                    return Err("--new-line requires a value".to_owned());
                }
            }
            assert(args@[i + 1]@ == a[i + 1]);
            let k = match parse_pos_index(args[i + 1].as_str()) {
                Some(k) => k,
                None => {
                    if is(arg, "--hunk") {
                        return Err("--hunk must be a positive integer".to_owned());
                    } else if is(arg, "--old-line") {
                        return Err("--old-line must be a positive integer".to_owned());
                    } else {
                        return Err("--new-line must be a positive integer".to_owned());
                    }
                },
            };
            if is(arg, "--hunk") {
                selector = Some(HunkSelectorArg::Index(k));
            } else if is(arg, "--old-line") {
                selector = Some(HunkSelectorArg::OldLine(k));
            } else {
                selector = Some(HunkSelectorArg::NewLine(k));
            }
            i = i + 2;
        } else if is(arg, "--message") || is(arg, "-m") {
            if i + 1 >= args.len() {
                return Err("--message requires a value".to_owned());
            }
            message = Some(args[i + 1].clone());
            i = i + 2;
        } else if takes_value(arg) {
            if i + 1 >= args.len() {
                let ghost st = (crate::config::opt_string(path), selector, crate::config::opt_string(message));
                assert(scan_add(a, i + 2, st) == Ok::<_, Seq<char>>(st));
                assert(scan_add(a, args@.len() as int, st) == Ok::<_, Seq<char>>(st));
                i = args.len();
            } else {
                i = i + 2;
            }
        } else {
            i = i + 1;
        }
    }
    Ok(AddFlags { path, selector, message })
}

/// What `comments add` needs, or the message for what is missing.
pub open spec fn add_request(f: (Option<Seq<char>>, Option<HunkSelectorArg>, Option<Seq<char>>)) -> Result<
    (Seq<char>, HunkSelectorArg, Seq<char>),
    Seq<char>,
> {
    match f.0 {
        None => Err("--path is required"@),
        Some(p) => match f.1 {
            None => Err("One of --hunk/--old-line/--new-line is required"@),
            Some(s) => match f.2 {
                None => Err("--message is required"@),
                Some(m) => Ok((p, s, m)),
            },
        },
    }
}

/// The path, hunk selector and message of `comments add`, each required.
pub fn require_add_flags(flags: AddFlags) -> (r: Result<(String, HunkSelectorArg, String), String>)
    ensures
        match add_request(
            (crate::config::opt_string(flags.path), flags.selector, crate::config::opt_string(flags.message)),
        ) {
            Ok((p, s, m)) => r matches Ok((rp, rs, rm)) && rp@ == p && rs == s && rm@ == m,
            Err(e) => r matches Err(re) && re@ == e,
        },
{
    let path = match flags.path {
        Some(p) => p,
        None => {
            return Err("--path is required".to_owned());
        },
    };
    let selector = match flags.selector {
        Some(s) => s,
        None => {
            return Err("One of --hunk/--old-line/--new-line is required".to_owned());
        },
    };
    let message = match flags.message {
        Some(m) => m,
        None => {
            return Err("--message is required".to_owned());
        },
    };
    Ok((path, selector, message))
}

/// The flags of `comments list`: all comments or open ones, JSON output,
/// and a path filter.
#[derive(Debug)]
pub struct ListFlags {
    pub include_resolved: bool,
    pub json: bool,
    pub path: Option<String>,
}

/// The flags of `comments list` from position `i` of `args`.
pub open spec fn scan_list(args: Seq<Seq<char>>, i: int, acc: (bool, bool, Option<Seq<char>>)) -> Result<
    (bool, bool, Option<Seq<char>>),
    Seq<char>,
>
    decreases args.len() + 1 - i,
{
    if i < 0 || i >= args.len() {
        Ok(acc)
    } else {
        let a = args[i];
        if a == "--all"@ {
            scan_list(args, i + 1, (true, acc.1, acc.2))
        } else if a == "--json"@ {
            scan_list(args, i + 1, (acc.0, true, acc.2))
        } else if a == "--path"@ {
            if i + 1 >= args.len() {
                Err("--path requires a value"@)
            } else {
                scan_list(args, i + 2, (acc.0, acc.1, Some(args[i + 1])))
            }
        } else if value_flags().contains(a) {
            scan_list(args, i + 2, acc)
        } else {
            scan_list(args, i + 1, acc)
        }
    }
}

/// Read the flags of `comments list`.
pub fn scan_list_flags(args: &[String]) -> (r: Result<ListFlags, String>)
    ensures
        scan_list(crate::viewed::texts(args@), 0, (false, false, None)) matches Ok(f) ==> (r matches Ok(
            g,
        ) && g.include_resolved == f.0 && g.json == f.1 && crate::config::opt_string(g.path) == f.2),
        scan_list(crate::viewed::texts(args@), 0, (false, false, None)) matches Err(m) ==> (r matches Err(
            e,
        ) && e@ == m),
{
    let ghost a = crate::viewed::texts(args@);
    let mut include_resolved = false;
    let mut json = false;
    let mut path: Option<String> = None;
    let mut i: usize = 0;
    while i < args.len()
        invariant
            a == crate::viewed::texts(args@),
            i <= args@.len(),
            scan_list(a, 0, (false, false, None)) == scan_list(
                a,
                i as int,
                (include_resolved, json, crate::config::opt_string(path)),
            ),
        decreases args@.len() + 1 - i,
    {
        let arg = args[i].as_str();
        assert(arg@ == a[i as int]);
        if is(arg, "--all") {
            include_resolved = true;
            i = i + 1;
        } else if is(arg, "--json") {
            json = true;
            i = i + 1;
        } else if is(arg, "--path") {
            if i + 1 >= args.len() {
                return Err("--path requires a value".to_owned());
            }
            path = Some(args[i + 1].clone());
            i = i + 2;
        } else if takes_value(arg) {
            if i + 1 >= args.len() {
                let ghost st = (include_resolved, json, crate::config::opt_string(path));
                assert(scan_list(a, i + 2, st) == Ok::<_, Seq<char>>(st));
                assert(scan_list(a, args@.len() as int, st) == Ok::<_, Seq<char>>(st));
                i = args.len();
            } else {
                i = i + 2;
            }
        } else {
            i = i + 1;
        }
    }
    Ok(ListFlags { include_resolved, json, path })
}

// ---------------------------------------------------------------------------
// Listing comments
// ---------------------------------------------------------------------------

/// The comments whose context matches `ctx`, in order.
pub open spec fn matching_context(cs: Seq<CommentV>, ctx: ContextV) -> Seq<CommentV>
    decreases cs.len(),
{
    if cs.len() == 0 {
        Seq::empty()
    } else {
        let prev = matching_context(cs.drop_last(), ctx);
        if context_matches(cs.last().context, ctx) {
            prev.push(cs.last())
        } else {
            prev
        }
    }
}

/// Keep the comments whose context matches `ctx`.
pub fn retain_matching<'a>(comments: Vec<&'a Comment>, ctx: &CommentContext) -> (r: Vec<&'a Comment>)
    ensures
        refs_view(r@) == matching_context(refs_view(comments@), ctx@),
{
    let mut out: Vec<&'a Comment> = Vec::new();
    let mut i: usize = 0;
    while i < comments.len()
        invariant
            i <= comments@.len(),
            refs_view(out@) == matching_context(refs_view(comments@).take(i as int), ctx@),
        decreases comments@.len() - i,
    {
        let ghost before = refs_view(out@);
        assert(refs_view(comments@).take(i + 1).drop_last() =~= refs_view(comments@).take(i as int));
        assert(refs_view(comments@).take(i + 1).last() == comments@[i as int]@);
        let c = comments[i];
        if c.context.matches(ctx) {
            out.push(c);
            assert(refs_view(out@) =~= before.push(c@));
        }
        i = i + 1;
    }
    assert(refs_view(comments@).take(i as int) =~= refs_view(comments@));
    out
}

/// The text of a comment's status.
pub open spec fn status_text(s: CommentStatus) -> Seq<char> {
    match s {
        CommentStatus::Open => "OPEN"@,
        CommentStatus::Resolved => "RESOLVED"@,
    }
}

/// The line listing a comment: `[id] path (STATUS, context) - message`.
pub open spec fn comment_line_text(c: CommentV) -> Seq<char> {
    "["@ + dec(c.id as nat) + "] "@ + c.path + " ("@ + status_text(c.status) + ", "@ + context_text(
        c.context,
    ) + ") - "@ + c.message
}

/// The line that lists a comment.
pub fn comment_line(c: &Comment) -> (r: String)
    ensures
        r@ == comment_line_text(c@),
{
    let mut out: Vec<char> = Vec::new();
    push_str(&mut out, "[");
    push_all(&mut out, fmt_dec_u64(c.id).as_slice());
    push_str(&mut out, "] ");
    push_str(&mut out, c.path.as_str());
    push_str(&mut out, " (");
    match c.status {
        CommentStatus::Open => push_str(&mut out, "OPEN"),
        CommentStatus::Resolved => push_str(&mut out, "RESOLVED"),
    }
    push_str(&mut out, ", ");
    let ctx = context_summary(&c.context);
    push_str(&mut out, ctx.as_str());
    push_str(&mut out, ") - ");
    push_str(&mut out, c.message.as_str());
    assert(out@ =~= comment_line_text(c@));
    string_of(out.as_slice())
}

} // verus!
