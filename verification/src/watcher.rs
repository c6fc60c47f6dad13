//! Which file-system changes are relevant to a repository view.
//!
//! The watching itself (notify, a debouncer, a channel) happens outside
//! this module.

use vstd::prelude::*;

verus! {

/// Events emitted by the repo watcher.
#[derive(Debug, Clone, Copy, PartialEq, Eq, Structural)]
pub enum WatchEvent {
    /// Files changed, refresh needed.
    Changed,
}

/// The components of the path spelled by `p` (`Path::components`), each as
/// text: `/` for the root, `.` and `..` for the current and parent
/// directory, the name for a normal component.
pub uninterp spec fn path_components(p: Seq<char>) -> Seq<Seq<char>>;

/// `std::path::Path::components` of a UTF-8 path, each as text.
#[verifier::external_body]
fn std_path_components(p: &str) -> (r: Vec<String>)
    ensures
        r@.map_values(|s: String| s@) == path_components(p@),
{
    let mut out = Vec::new();
    for c in std::path::Path::new(p).components() {
        out.push(c.as_os_str().to_string_lossy().into_owned());
    }
    out
}

/// A component name that marks VCS or tool state.
pub open spec fn is_state_dir(name: Seq<char>) -> bool {
    name == ".git"@ || name == ".jj"@ || name == ".quickdiff"@
}

/// `path` lies under `root` (its components start with the root's) and one
/// of the components after the root's names a state directory.
pub open spec fn ignored(path: Seq<Seq<char>>, root: Seq<Seq<char>>) -> bool {
    &&& root.len() <= path.len()
    &&& path.subrange(0, root.len() as int) == root
    &&& exists|k: int| root.len() <= k < path.len() && is_state_dir(#[trigger] path[k])
}

fn is_state_dir_exec(name: &String) -> (r: bool)
    ensures
        r == is_state_dir(name@),
{
    let a = ".git".to_owned();
    let b = ".jj".to_owned();
    let c = ".quickdiff".to_owned();
    *name == a || *name == b || *name == c
}

/// Check if a path should be ignored for watching: it is inside the
/// repository and inside its `.git`, `.jj` or `.quickdiff` directory.
pub fn is_ignored_path(path: &str, repo_root: &str) -> (r: bool)
    ensures
        r == ignored(path_components(path@), path_components(repo_root@)),
{
    let pc = std_path_components(path);
    let rc = std_path_components(repo_root);
    let ghost p = path_components(path@);
    let ghost q = path_components(repo_root@);
    assert(pc@.len() == p.len());
    assert(rc@.len() == q.len());
    if rc.len() > pc.len() {
        return false;
    }
    let mut i: usize = 0;
    while i < rc.len()
        invariant
            p == path_components(path@),
            q == path_components(repo_root@),
            p == pc@.map_values(|s: String| s@),
            q == rc@.map_values(|s: String| s@),
            rc@.len() <= pc@.len(),
            i <= rc@.len(),
            forall|k: int| 0 <= k < i ==> p[k] == q[k],
        decreases rc@.len() - i,
    {
        if !(pc[i] == rc[i]) {
            assert(p.subrange(0, q.len() as int)[i as int] != q[i as int]);
            return false;
        }
        i = i + 1;
    }
    assert(p.subrange(0, q.len() as int) =~= q);
    let mut k: usize = rc.len();
    while k < pc.len()
        invariant
            p == path_components(path@),
            q == path_components(repo_root@),
            p == pc@.map_values(|s: String| s@),
            q == rc@.map_values(|s: String| s@),
            q.len() <= k <= p.len(),
            p.subrange(0, q.len() as int) == q,
            forall|j: int| q.len() <= j < k ==> !is_state_dir(#[trigger] p[j]),
        decreases pc@.len() - k,
    {
        if is_state_dir_exec(&pc[k]) {
            assert(is_state_dir(p[k as int]));
            return true;
        }
        k = k + 1;
    }
    false
}

} // verus!
