//! The program's command line: finding a subcommand, turning a revision
//! argument into a diff source, and the flags of the `web` command.

use vstd::prelude::*;
use crate::cli_comments::{parse_range, range_parts};
use crate::repo::{DiffSource, DiffSourceV};
use crate::strings::{chars_of, has_prefix};
use crate::viewed::texts;

verus! {

/// The subcommands recognized before other arguments.
pub open spec fn subcommands() -> Seq<Seq<char>> {
    seq!["comments"@, "web"@, "pager"@, "difftool"@]
}

/// The top-level flags that take a value.
pub open spec fn top_value_flags() -> Seq<Seq<char>> {
    seq!["-c"@, "--commit"@, "-b"@, "--base"@, "-f"@, "--file"@, "-t"@, "--theme"@, "--pr"@, "--vcs"@]
}

/// The subcommand found scanning from position `i`: flags are skipped (with
/// their value when they take one); the first other argument ends the
/// scan, and is the answer when it names a subcommand.
pub open spec fn find_subcommand_from(args: Seq<Seq<char>>, i: int) -> Option<(int, Seq<char>)>
    decreases args.len() + 1 - i,
{
    if i < 0 || i >= args.len() {
        None
    } else if has_prefix(args[i], "-"@) {
        if top_value_flags().contains(args[i]) {
            find_subcommand_from(args, i + 2)
        } else {
            find_subcommand_from(args, i + 1)
        }
    } else if subcommands().contains(args[i]) {
        Some((i, args[i]))
    } else {
        None
    }
}

fn is(s: &str, lit: &str) -> (r: bool)
    ensures
        r == (s@ == lit@),
{
    s.to_owned() == lit.to_owned()
}

fn is_subcommand(a: &str) -> (r: bool)
    ensures
        r == subcommands().contains(a@),
{
    let r = is(a, "comments") || is(a, "web") || is(a, "pager") || is(a, "difftool");
    proof {
        if subcommands().contains(a@) {
            let k = choose|k: int| 0 <= k < subcommands().len() && subcommands()[k] == a@;
            assert(0 <= k < 4);
        }
        if r {
            if a@ == "comments"@ {
                assert(subcommands()[0] == a@);
            } else if a@ == "web"@ {
                assert(subcommands()[1] == a@);
            } else if a@ == "pager"@ {
                assert(subcommands()[2] == a@);
            } else {
                assert(subcommands()[3] == a@);
            }
        }
    }
    r
}

fn is_top_value_flag(a: &str) -> (r: bool)
    ensures
        r == top_value_flags().contains(a@),
{
    let flags: [&str; 10] = ["-c", "--commit", "-b", "--base", "-f", "--file", "-t", "--theme", "--pr", "--vcs"];
    let mut k: usize = 0;
    while k < 10
        invariant
            k <= 10,
            forall|j: int| 0 <= j < 10 ==> (#[trigger] flags@[j])@ == top_value_flags()[j],
            forall|j: int| 0 <= j < k ==> top_value_flags()[j] != a@,
        decreases 10 - k,
    {
        if is(a, flags[k]) {
            assert(top_value_flags()[k as int] == a@);
            return true;
        }
        k = k + 1;
    }
    proof {
        if top_value_flags().contains(a@) {
            let j = choose|j: int| 0 <= j < top_value_flags().len() && top_value_flags()[j] == a@;
            assert(0 <= j < 10);
        }
    }
    false
}

/// Find a subcommand in the program's arguments (the first is the
/// program's name): its position and name.
pub fn find_subcommand(args: &[String]) -> (r: Option<(usize, String)>)
    ensures
        match find_subcommand_from(texts(args@), 1) {
            Some((i, name)) => r matches Some((j, n)) && j == i && n@ == name,
            None => r is None,
        },
{
    let ghost a = texts(args@);
    let mut i: usize = 1;
    while i < args.len()
        invariant
            a == texts(args@),
            1 <= i,
            find_subcommand_from(a, 1) == find_subcommand_from(a, i as int),
        decreases args@.len() + 1 - i,
    {
        let arg = args[i].as_str();
        assert(arg@ == a[i as int]);
        let c = chars_of(arg);
        if crate::strings::starts_with_str(c.as_slice(), "-") {
            if is_top_value_flag(arg) {
                if i + 1 >= args.len() {
                    assert(find_subcommand_from(a, i + 2) is None);
                    return None;
                }
                i = i + 2;
            } else {
                i = i + 1;
            }
        } else if is_subcommand(arg) {
            return Some((i, args[i].clone()));
        } else {
            return None;
        }
    }
    None
}

/// The diff source a revision argument names: a range `from..to`, a base
/// ref when it holds a `/` and no `:`, else a commit.
pub open spec fn source_of_revision(rev: Seq<char>) -> DiffSourceV {
    match range_parts(rev) {
        Some((from, to)) => DiffSourceV::Range { from, to },
        None => if rev.contains('/') && !rev.contains(':') {
            DiffSourceV::Base(rev)
        } else {
            DiffSourceV::Commit(rev)
        },
    }
}

fn contains_char(s: &str, ch: char) -> (r: bool)
    ensures
        r == s@.contains(ch),
{
    let c = chars_of(s);
    let mut i: usize = 0;
    while i < c.len()
        invariant
            c@ == s@,
            i <= c@.len(),
            forall|j: int| 0 <= j < i ==> c@[j] != ch,
        decreases c@.len() - i,
    {
        if c[i] == ch {
            assert(s@[i as int] == ch);
            return true;
        }
        i = i + 1;
    }
    false
}

/// The diff source of a revision argument.
pub fn source_for_revision(rev: &str) -> (r: DiffSource)
    ensures
        r@ == source_of_revision(rev@),
{
    let parts = parse_range(rev);
    let ghost rp = range_parts(rev@);
    match parts {
        Ok((from, to)) => {
            assert(rp is Some);
            DiffSource::Range { from, to }
        },
        Err(_) => {
            assert(rp is None);
            let slash = contains_char(rev, '/');
            let colon = contains_char(rev, ':');
            if slash && !colon {
                DiffSource::Base(rev.to_owned())
            } else {
                DiffSource::Commit(rev.to_owned())
            }
        },
    }
}

/// The diff source of the command line: `--commit`, then `--base`, then the
/// revision argument; the working tree when none is given.
pub open spec fn source_of_args(
    commit: Option<Seq<char>>,
    base: Option<Seq<char>>,
    revision: Option<Seq<char>>,
) -> DiffSourceV {
    match commit {
        Some(c) => DiffSourceV::Commit(c),
        None => match base {
            Some(b) => DiffSourceV::Base(b),
            None => match revision {
                Some(r) => source_of_revision(r),
                None => DiffSourceV::WorkingTree,
            },
        },
    }
}

/// Parse the command line's choice of what to compare into a diff source.
pub fn parse_diff_source(commit: Option<&str>, base: Option<&str>, revision: Option<&str>) -> (r: DiffSource)
    ensures
        r@ == source_of_args(
            crate::repo::opt_text(commit),
            crate::repo::opt_text(base),
            crate::repo::opt_text(revision),
        ),
{
    match commit {
        Some(c) => DiffSource::Commit(c.to_owned()),
        None => match base {
            Some(b) => DiffSource::Base(b.to_owned()),
            None => match revision {
                Some(r) => source_for_revision(r),
                None => DiffSource::WorkingTree,
            },
        },
    }
}

/// The flags of the `web` command.
#[derive(Debug)]
pub struct WebArgs {
    /// Read the patch from standard input.
    pub stdin: bool,
    /// Open the page in a browser.
    pub open: bool,
    /// Where to write the page.
    pub output: Option<String>,
    /// Keep only files whose path contains this text.
    pub file_filter: Option<String>,
    /// The revision or range to show.
    pub diffspec: Option<String>,
}

/// The `web` flags from position `i`: (stdin, open, output, filter,
/// diffspec), or the unknown option met. `--output` and `--file` take the
/// next argument when there is one (and are unset when there is none).
pub open spec fn scan_web(
    args: Seq<Seq<char>>,
    i: int,
    acc: (bool, bool, Option<Seq<char>>, Option<Seq<char>>, Option<Seq<char>>),
) -> Result<(bool, bool, Option<Seq<char>>, Option<Seq<char>>, Option<Seq<char>>), Seq<char>>
    decreases args.len() + 1 - i,
{
    if i < 0 || i >= args.len() {
        Ok(acc)
    } else {
        let a = args[i];
        if a == "--stdin"@ {
            scan_web(args, i + 1, (true, acc.1, acc.2, acc.3, acc.4))
        } else if a == "--open"@ || a == "-o"@ {
            scan_web(args, i + 1, (acc.0, true, acc.2, acc.3, acc.4))
        } else if a == "--output"@ {
            let v = if i + 1 < args.len() { Some(args[i + 1]) } else { None };
            scan_web(args, i + 2, (acc.0, acc.1, v, acc.3, acc.4))
        } else if a == "--file"@ || a == "-f"@ {
            let v = if i + 1 < args.len() { Some(args[i + 1]) } else { None };
            scan_web(args, i + 2, (acc.0, acc.1, acc.2, v, acc.4))
        } else if !has_prefix(a, "-"@) {
            scan_web(args, i + 1, (acc.0, acc.1, acc.2, acc.3, Some(a)))
        } else {
            Err("Unknown option: "@ + a)
        }
    }
}

/// Read the flags of the `web` command.
pub fn scan_web_args(args: &[String]) -> (r: Result<WebArgs, String>)
    ensures
        scan_web(texts(args@), 0, (false, false, None, None, None)) matches Ok(f) ==> (r matches Ok(w)
            && w.stdin == f.0 && w.open == f.1 && crate::config::opt_string(w.output) == f.2
            && crate::config::opt_string(w.file_filter) == f.3 && crate::config::opt_string(w.diffspec)
            == f.4),
        scan_web(texts(args@), 0, (false, false, None, None, None)) matches Err(m) ==> (r matches Err(e)
            && e@ == m),
{
    let ghost a = texts(args@);
    let mut stdin = false;
    let mut open = false;
    let mut output: Option<String> = None;
    let mut file_filter: Option<String> = None;
    let mut diffspec: Option<String> = None;
    let mut i: usize = 0;
    while i < args.len()
        invariant
            a == texts(args@),
            i <= args@.len(),
            scan_web(a, 0, (false, false, None, None, None)) == scan_web(
                a,
                i as int,
                (
                    stdin,
                    open,
                    crate::config::opt_string(output),
                    crate::config::opt_string(file_filter),
                    crate::config::opt_string(diffspec),
                ),
            ),
        decreases args@.len() + 1 - i,
    {
        let arg = args[i].as_str();
        assert(arg@ == a[i as int]);
        if is(arg, "--stdin") {
            stdin = true;
            i = i + 1;
        } else if is(arg, "--open") || is(arg, "-o") {
            open = true;
            i = i + 1;
        } else if is(arg, "--output") || is(arg, "--file") || is(arg, "-f") {
            let v = if i + 1 < args.len() {
                Some(args[i + 1].clone())
            } else {
                None
            };
            if is(arg, "--output") {
                output = v;
            } else {
                file_filter = v;
            }
            if i + 1 >= args.len() {
                let ghost st = (
                    stdin,
                    open,
                    crate::config::opt_string(output),
                    crate::config::opt_string(file_filter),
                    crate::config::opt_string(diffspec),
                );
                assert(scan_web(a, i + 2, st) == Ok::<_, Seq<char>>(st));
                assert(scan_web(a, args@.len() as int, st) == Ok::<_, Seq<char>>(st));
                i = args.len();
            } else {
                i = i + 2;
            }
        } else {
            let c = chars_of(arg);
            if !crate::strings::starts_with_str(c.as_slice(), "-") {
                diffspec = Some(args[i].clone());
                i = i + 1;
            } else {
                let mut m: Vec<char> = Vec::new();
                crate::strings::push_str(&mut m, "Unknown option: ");
                crate::strings::push_str(&mut m, arg);
                return Err(crate::strings::string_of(m.as_slice()));
            }
        }
    }
    Ok(WebArgs { stdin, open, output, file_filter, diffspec })
}

} // verus!
