//! Repository model: relative paths, diff sources, changed-file lists and
//! the parsers for git's machine-readable status listings.
//!
//! Reading the repository itself (libgit2, the file system) happens outside
//! this module; what is decided from what was read is here.

use vstd::prelude::*;
use crate::sorting::{keyed_view, map_payload, sort_by_key_stable, stable_sorted,
    lemma_stable_sorted_map, lemma_stable_sorted_len, lemma_stable_sorted_distinct,
    lemma_stable_sorted_contains};
use crate::strings::{chars_of, string_of, push_str, push_all, trim_chars, take_chars_vec,
    take_chars_spec, trim, has_prefix};

verus! {

/// Maximum file size to load (50 MiB). Prevents OOM on huge files.
pub const MAX_FILE_SIZE: u64 = 52428800;

#[verifier::external_type_specification]
#[verifier::external_body]
pub struct ExIoError(std::io::Error);

/// Errors from repository operations.
#[derive(Debug)]
#[non_exhaustive]
pub enum RepoError {
    /// Path is not inside a git or jj repository.
    NotARepo,
    /// Git command failed with an error message.
    GitError(String),
    /// Jujutsu operation failed with an error message.
    JjError(String),
    /// I/O error during a repository operation.
    Io(std::io::Error),
    /// Git output contained invalid UTF-8.
    InvalidUtf8,
    /// Invalid revision specified.
    InvalidRevision(String),
    /// File exceeds maximum allowed size.
    FileTooLarge {
        /// Actual file size.
        size: u64,
        /// Maximum allowed size.
        max: u64,
    },
    /// Operation not supported for PR diff sources.
    UnsupportedForPR,
}

/// Error when constructing a RelPath with an absolute path.
#[derive(Debug, Clone)]
pub struct InvalidRelPath(pub String);

// ---------------------------------------------------------------------------
// Diff sources
// ---------------------------------------------------------------------------

/// Source specification for diff comparison.
#[derive(Debug, Clone)]
pub enum DiffSource {
    /// Working tree changes vs parent (HEAD/@-).
    WorkingTree,
    /// Single commit (show changes introduced by that commit).
    Commit(String),
    /// Range of commits (from..to).
    Range {
        /// Starting commit.
        from: String,
        /// Ending commit.
        to: String,
    },
    /// Compare against a base ref (e.g., origin/main).
    Base(String),
    /// GitHub Pull Request.
    PullRequest {
        /// PR number.
        number: u32,
        /// Head branch name.
        head: String,
        /// Base branch name.
        base: String,
    },
}

/// Mathematical view of a [`DiffSource`].
pub enum DiffSourceV {
    WorkingTree,
    Commit(Seq<char>),
    Range { from: Seq<char>, to: Seq<char> },
    Base(Seq<char>),
    PullRequest { number: u32, head: Seq<char>, base: Seq<char> },
}

impl View for DiffSource {
    type V = DiffSourceV;

    open spec fn view(&self) -> DiffSourceV {
        match self {
            DiffSource::WorkingTree => DiffSourceV::WorkingTree,
            DiffSource::Commit(c) => DiffSourceV::Commit(c@),
            DiffSource::Range { from, to } => DiffSourceV::Range { from: from@, to: to@ },
            DiffSource::Base(b) => DiffSourceV::Base(b@),
            DiffSource::PullRequest { number, head, base } => DiffSourceV::PullRequest {
                number: *number,
                head: head@,
                base: base@,
            },
        }
    }
}

/// `r` if it is non-empty, else `d`.
pub open spec fn or_default(r: Seq<char>, d: Seq<char>) -> Seq<char> {
    if r.len() == 0 {
        d
    } else {
        r
    }
}

/// A source with the empty ends of a range replaced by `d`.
pub open spec fn with_defaults(s: DiffSourceV, d: Seq<char>) -> DiffSourceV {
    match s {
        DiffSourceV::Range { from, to } => DiffSourceV::Range {
            from: or_default(from, d),
            to: or_default(to, d),
        },
        _ => s,
    }
}

impl Default for DiffSource {
    fn default() -> (r: Self)
        ensures
            r@ == DiffSourceV::WorkingTree,
    {
        DiffSource::WorkingTree
    }
}

impl DiffSource {
    /// Apply default refs for open-ended ranges.
    pub fn apply_defaults(&mut self, default_ref: &str)
        ensures
            final(self)@ == with_defaults(old(self)@, default_ref@),
    {
        match self {
            DiffSource::Range { from, to } => {
                if from.as_str().is_empty() {
                    *from = default_ref.to_owned();
                }
                if to.as_str().is_empty() {
                    *to = default_ref.to_owned();
                }
            },
            _ => {},
        }
    }
}

/// Applying the defaults twice gives what applying them once gives.
pub proof fn lemma_apply_defaults_idempotent(s: DiffSourceV, d: Seq<char>)
    ensures
        with_defaults(with_defaults(s, d), d) == with_defaults(s, d),
{
}

/// With a non-empty default, a range has both ends set after the defaults.
pub proof fn lemma_apply_defaults_fills_range(s: DiffSourceV, d: Seq<char>)
    requires
        d.len() > 0,
        s is Range,
    ensures
        with_defaults(s, d)->from.len() > 0,
        with_defaults(s, d)->to.len() > 0,
{
}

// ---------------------------------------------------------------------------
// Repository root
// ---------------------------------------------------------------------------

/// Detected VCS type.
#[derive(Debug, Clone, Copy, PartialEq, Eq, Hash, Structural)]
pub enum VcsType {
    /// Git repository (.git).
    Git,
    /// Jujutsu repository (.jj).
    Jj,
}

/// Canonicalized path to a VCS repository root.
#[derive(Debug, Clone, PartialEq, Eq, Hash)]
pub struct RepoRoot {
    root: String,
    vcs: VcsType,
}

impl RepoRoot {
    /// The root path as text.
    pub closed spec fn spec_root(&self) -> Seq<char> {
        self.root@
    }

    /// The detected VCS.
    pub closed spec fn spec_vcs(&self) -> VcsType {
        self.vcs
    }

    /// A repository root at the (already canonical) path `root`.
    pub fn from_parts(root: String, vcs: VcsType) -> (r: Self)
        ensures
            r.spec_root() == root@,
            r.spec_vcs() == vcs,
    {
        RepoRoot { root, vcs }
    }

    /// Get the repository root path.
    pub fn path(&self) -> (r: &str)
        ensures
            r@ == self.spec_root(),
    {
        self.root.as_str()
    }

    /// Get the repository root as a string (for persistence keys).
    pub fn as_str(&self) -> (r: &str)
        ensures
            r@ == self.spec_root(),
    {
        self.root.as_str()
    }

    /// Get the detected VCS type.
    pub fn vcs(&self) -> (r: VcsType)
        ensures
            r == self.spec_vcs(),
    {
        self.vcs
    }

    /// Returns true when the repository is Git-backed.
    pub fn is_git(&self) -> (r: bool)
        ensures
            r == (self.spec_vcs() == VcsType::Git),
    {
        match self.vcs {
            VcsType::Git => true,
            VcsType::Jj => false,
        }
    }

    /// Returns true when the repository is Jujutsu-backed.
    pub fn is_jj(&self) -> (r: bool)
        ensures
            r == (self.spec_vcs() == VcsType::Jj),
    {
        match self.vcs {
            VcsType::Git => false,
            VcsType::Jj => true,
        }
    }

    /// Default parent reference for working copy comparisons.
    pub fn working_copy_parent_ref(&self) -> (r: &'static str)
        ensures
            self.spec_vcs() == VcsType::Git ==> r@ == "HEAD"@,
            self.spec_vcs() == VcsType::Jj ==> r@ == "@-"@,
    {
        match self.vcs {
            VcsType::Git => "HEAD",
            VcsType::Jj => "@-",
        }
    }

    /// Default reference for the current working copy commit.
    pub fn working_copy_ref(&self) -> (r: &'static str)
        ensures
            self.spec_vcs() == VcsType::Git ==> r@ == "HEAD"@,
            self.spec_vcs() == VcsType::Jj ==> r@ == "@"@,
    {
        match self.vcs {
            VcsType::Git => "HEAD",
            VcsType::Jj => "@",
        }
    }
}


// ---------------------------------------------------------------------------
// Relative paths
// ---------------------------------------------------------------------------

/// Result of `Path::file_name` on the path spelled by `p`, as text.
pub uninterp spec fn path_file_name(p: Seq<char>) -> Option<Seq<char>>;

/// Result of `Path::extension` on the path spelled by `p`, as text.
pub uninterp spec fn path_extension(p: Seq<char>) -> Option<Seq<char>>;

/// Result of `Path::join` of `rel` onto `root`, as text.
pub uninterp spec fn path_joined(root: Seq<char>, rel: Seq<char>) -> Seq<char>;

/// The text of an optional string slice.
pub open spec fn opt_text(o: Option<&str>) -> Option<Seq<char>> {
    match o {
        Some(s) => Some(s@),
        None => None,
    }
}

/// `std::path::Path::file_name` on a UTF-8 path (its last normal component).
#[verifier::external_body]
fn std_path_file_name<'a>(p: &'a str) -> (r: Option<&'a str>)
    ensures
        opt_text(r) == path_file_name(p@),
{
    match std::path::Path::new(p).file_name() {
        Some(s) => s.to_str(),
        None => None,
    }
}

/// `std::path::Path::extension` on a UTF-8 path (the part of the file name
/// after its last dot, when the name has one that is not its first char).
#[verifier::external_body]
fn std_path_extension<'a>(p: &'a str) -> (r: Option<&'a str>)
    ensures
        opt_text(r) == path_extension(p@),
{
    match std::path::Path::new(p).extension() {
        Some(s) => s.to_str(),
        None => None,
    }
}

/// `std::path::Path::join` of `rel` onto `root`, as text.
#[verifier::external_body]
pub(crate) fn std_path_join(root: &str, rel: &str) -> (r: String)
    ensures
        r@ == path_joined(root@, rel@),
{
    std::path::Path::new(root).join(rel).to_string_lossy().into_owned()
}

/// A repository-relative path. Never absolute.
#[derive(Debug, PartialEq, Eq, Hash, PartialOrd, Ord)]
pub struct RelPath(String);

impl View for RelPath {
    type V = Seq<char>;

    closed spec fn view(&self) -> Seq<char> {
        self.0@
    }
}

impl Clone for RelPath {
    fn clone(&self) -> (r: Self)
        ensures
            r@ == self@,
    {
        RelPath(self.0.clone())
    }
}

impl RelPath {
    /// Create a new RelPath from a string.
    ///
    /// Returns an error if the path is absolute (starts with `/`).
    pub fn try_new(path: &str) -> (r: Result<Self, InvalidRelPath>)
        ensures
            r is Ok <==> !has_prefix(path@, seq!['/']),
            r matches Ok(p) ==> p@ == path@,
            r matches Err(e) ==> e.0@ == path@,
    {
        let s = path.to_owned();
        let c = chars_of(path);
        if c.len() > 0 && c[0] == '/' {
            assert(path@.subrange(0, 1) =~= seq!['/']);
            return Err(InvalidRelPath(s));
        }
        proof {
            if has_prefix(path@, seq!['/']) {
                assert(path@.subrange(0, 1)[0] == '/');
            }
        }
        Ok(RelPath(s))
    }

    /// Create a new RelPath without validation.
    ///
    /// The caller vouches that `path` is relative; it is taken as given.
    /// Used for trusted input from git commands.
    pub fn new_unchecked(path: &str) -> (r: Self)
        ensures
            r@ == path@,
    {
        RelPath(path.to_owned())
    }

    /// Convenience alias for `new_unchecked` — use when path is from git output.
    pub fn new(path: &str) -> (r: Self)
        ensures
            r@ == path@,
    {
        Self::new_unchecked(path)
    }

    /// A RelPath holding `path` as given (see `new_unchecked`).
    pub fn from_string(path: String) -> (r: Self)
        ensures
            r@ == path@,
    {
        RelPath(path)
    }

    /// Get the path as a string slice.
    pub fn as_str(&self) -> (r: &str)
        ensures
            r@ == self@,
    {
        self.0.as_str()
    }

    /// Convert to an absolute path given a repo root.
    pub fn to_absolute(&self, root: &RepoRoot) -> (r: String)
        ensures
            r@ == path_joined(root.spec_root(), self@),
    {
        std_path_join(root.path(), self.0.as_str())
    }

    /// Get the file extension, if any.
    pub fn extension(&self) -> (r: Option<&str>)
        ensures
            opt_text(r) == path_extension(self@),
    {
        std_path_extension(self.0.as_str())
    }

    /// Get the file name.
    pub fn file_name(&self) -> (r: &str)
        ensures
            r@ == (match path_file_name(self@) {
                Some(n) => n,
                None => self@,
            }),
    {
        match std_path_file_name(self.0.as_str()) {
            Some(n) => n,
            None => self.0.as_str(),
        }
    }
}

// ---------------------------------------------------------------------------
// Changed files
// ---------------------------------------------------------------------------

/// Kind of file change detected.
#[derive(Debug, Clone, Copy, PartialEq, Eq, Structural)]
pub enum FileChangeKind {
    /// File was newly added.
    Added,
    /// File was modified.
    Modified,
    /// File was deleted.
    Deleted,
    /// File is untracked.
    Untracked,
    /// File was renamed (best-effort; may show as delete+add).
    Renamed,
}

/// A changed file in the repository.
#[derive(Debug, PartialEq, Eq)]
pub struct ChangedFile {
    /// Path to the file.
    pub path: RelPath,
    /// Type of change.
    pub kind: FileChangeKind,
    /// For renames, the original path.
    pub old_path: Option<RelPath>,
}

/// Mathematical view of a [`ChangedFile`].
pub struct FileV {
    pub path: Seq<char>,
    pub kind: FileChangeKind,
    pub old_path: Option<Seq<char>>,
}

/// The text of an optional path.
pub open spec fn opt_path(o: Option<RelPath>) -> Option<Seq<char>> {
    match o {
        Some(p) => Some(p@),
        None => None,
    }
}

impl View for ChangedFile {
    type V = FileV;

    open spec fn view(&self) -> FileV {
        FileV { path: self.path@, kind: self.kind, old_path: opt_path(self.old_path) }
    }
}

/// A plain entry.
pub open spec fn file_v(path: Seq<char>, kind: FileChangeKind) -> FileV {
    FileV { path, kind, old_path: None }
}

/// A rename entry.
pub open spec fn renamed_v(old_path: Seq<char>, new_path: Seq<char>) -> FileV {
    FileV { path: new_path, kind: FileChangeKind::Renamed, old_path: Some(old_path) }
}

fn clone_opt_path(o: &Option<RelPath>) -> (r: Option<RelPath>)
    ensures
        opt_path(r) == opt_path(*o),
{
    match o {
        Some(p) => Some(p.clone()),
        None => None,
    }
}

impl Clone for ChangedFile {
    fn clone(&self) -> (r: Self)
        ensures
            r@ == self@,
    {
        ChangedFile {
            path: self.path.clone(),
            kind: self.kind,
            old_path: clone_opt_path(&self.old_path),
        }
    }
}

impl ChangedFile {
    /// Create a new changed file entry.
    pub fn new(path: RelPath, kind: FileChangeKind) -> (r: Self)
        ensures
            r@ == file_v(path@, kind),
    {
        ChangedFile { path, kind, old_path: None }
    }

    /// Create a renamed file entry.
    pub fn renamed(old_path: RelPath, new_path: RelPath) -> (r: Self)
        ensures
            r@ == renamed_v(old_path@, new_path@),
    {
        ChangedFile { path: new_path, kind: FileChangeKind::Renamed, old_path: Some(old_path) }
    }
}

/// The status flags of one libgit2 status entry that decide its kind.
#[derive(Debug, Clone, Copy)]
pub struct StatusFlags {
    pub index_new: bool,
    pub wt_new: bool,
    pub index_deleted: bool,
    pub wt_deleted: bool,
    pub index_renamed: bool,
    pub wt_renamed: bool,
}

/// Kind of change for a status entry.
pub open spec fn kind_of_status(s: StatusFlags) -> FileChangeKind {
    if s.wt_new || s.index_new {
        if s.index_new {
            FileChangeKind::Added
        } else {
            FileChangeKind::Untracked
        }
    } else if s.wt_deleted || s.index_deleted {
        FileChangeKind::Deleted
    } else if s.wt_renamed || s.index_renamed {
        FileChangeKind::Renamed
    } else {
        FileChangeKind::Modified
    }
}

/// Convert status flags to a FileChangeKind.
pub fn status_to_change_kind(status: StatusFlags) -> (r: FileChangeKind)
    ensures
        r == kind_of_status(status),
{
    if status.wt_new || status.index_new {
        if status.index_new {
            FileChangeKind::Added
        } else {
            FileChangeKind::Untracked
        }
    } else if status.wt_deleted || status.index_deleted {
        FileChangeKind::Deleted
    } else if status.wt_renamed || status.index_renamed {
        FileChangeKind::Renamed
    } else {
        FileChangeKind::Modified
    }
}

/// Paths of the tool's own state and of jj's store, never listed as changes.
pub open spec fn is_internal(p: Seq<char>) -> bool {
    has_prefix(p, ".quickdiff/"@) || has_prefix(p, ".jj/"@)
}

/// Whether a repository path is internal state that is never listed.
pub fn is_internal_path(p: &str) -> (r: bool)
    ensures
        r == is_internal(p@),
{
    let c = chars_of(p);
    crate::strings::starts_with_str(c.as_slice(), ".quickdiff/")
        || crate::strings::starts_with_str(c.as_slice(), ".jj/")
}


// ---------------------------------------------------------------------------
// Ordering of change lists
// ---------------------------------------------------------------------------

/// Views of a list of changed files.
pub open spec fn files_view(v: Seq<ChangedFile>) -> Seq<FileV> {
    v.map_values(|f: ChangedFile| f@)
}

/// Entries keyed by their path.
pub open spec fn keyed_files(fs: Seq<FileV>) -> Seq<(Seq<char>, FileV)> {
    fs.map_values(|f: FileV| (f.path, f))
}

/// The entries in path order; entries with equal paths keep their order.
pub open spec fn sorted_files(fs: Seq<FileV>) -> Seq<FileV> {
    stable_sorted(keyed_files(fs)).map_values(|p: (Seq<char>, FileV)| p.1)
}

/// Sort changed files by path (stable).
pub fn sort_changed_files(files: &Vec<ChangedFile>) -> (r: Vec<ChangedFile>)
    ensures
        files_view(r@) == sorted_files(files_view(files@)),
{
    let mut keyed: Vec<(Vec<char>, ChangedFile)> = Vec::new();
    let mut i: usize = 0;
    while i < files.len()
        invariant
            i <= files@.len(),
            keyed@.len() == i,
            forall|k: int|
                0 <= k < i ==> (#[trigger] keyed@[k]).0@ == files@[k].path@ && keyed@[k].1@
                    == files@[k]@,
        decreases files@.len() - i,
    {
        let key = chars_of(files[i].path.as_str());
        keyed.push((key, files[i].clone()));
        i = i + 1;
    }
    let ghost view_fn = |c: ChangedFile| c@;
    assert(map_payload(keyed_view(keyed@), view_fn) =~= keyed_files(files_view(files@)));
    let sorted = sort_by_key_stable(keyed);
    proof {
        lemma_stable_sorted_map(keyed_view(keyed@), view_fn);
        lemma_stable_sorted_len(keyed_view(keyed@));
    }
    let ghost target = stable_sorted(keyed_files(files_view(files@)));
    assert(target == map_payload(keyed_view(sorted@), view_fn));
    let mut out: Vec<ChangedFile> = Vec::new();
    let mut j: usize = 0;
    while j < sorted.len()
        invariant
            j <= sorted@.len(),
            target == map_payload(keyed_view(sorted@), view_fn),
            out@.len() == j,
            forall|k: int| 0 <= k < j ==> (#[trigger] out@[k])@ == sorted@[k].1@,
        decreases sorted@.len() - j,
    {
        out.push(sorted[j].1.clone());
        j = j + 1;
    }
    assert(files_view(out@) =~= sorted_files(files_view(files@)));
    out
}

// ---------------------------------------------------------------------------
// libgit2 status entries and tree-to-tree deltas
// ---------------------------------------------------------------------------

/// One entry of a libgit2 status listing, as read from the repository.
#[derive(Debug)]
pub struct StatusEntry {
    /// The entry's path, when it is valid UTF-8.
    pub path: Option<String>,
    /// The entry's status flags.
    pub flags: StatusFlags,
    /// Old and new path of the entry's HEAD-to-index change, when it has one
    /// and both paths are valid UTF-8.
    pub head_to_index: Option<(String, String)>,
}

/// The text of an optional pair of paths.
pub open spec fn opt_pair(o: Option<(String, String)>) -> Option<(Seq<char>, Seq<char>)> {
    match o {
        Some(p) => Some((p.0@, p.1@)),
        None => None,
    }
}

/// The change listed for a status entry at `path`: a rename when the entry
/// is renamed and its HEAD-to-index change moves a path, else an entry of
/// the kind its flags give.
pub open spec fn status_entry_file(
    path: Seq<char>,
    flags: StatusFlags,
    head_to_index: Option<(Seq<char>, Seq<char>)>,
) -> FileV {
    match head_to_index {
        Some((o, n)) => if (flags.index_renamed || flags.wt_renamed) && o != n {
            renamed_v(o, n)
        } else {
            file_v(path, kind_of_status(flags))
        },
        None => file_v(path, kind_of_status(flags)),
    }
}

/// The changes listed for status entries, in entry order: entries without a
/// path and internal paths are left out.
pub open spec fn status_files(es: Seq<StatusEntry>) -> Seq<FileV>
    decreases es.len(),
{
    if es.len() == 0 {
        Seq::empty()
    } else {
        let prev = status_files(es.drop_last());
        let e = es.last();
        match e.path {
            Some(p) => if is_internal(p@) {
                prev
            } else {
                prev.push(status_entry_file(p@, e.flags, opt_pair(e.head_to_index)))
            },
            None => prev,
        }
    }
}

/// The changed files of a working tree from its status entries, in path order.
pub fn files_from_status(entries: &Vec<StatusEntry>) -> (r: Vec<ChangedFile>)
    ensures
        files_view(r@) == sorted_files(status_files(entries@)),
{
    let mut files: Vec<ChangedFile> = Vec::new();
    let mut i: usize = 0;
    while i < entries.len()
        invariant
            i <= entries@.len(),
            files_view(files@) == status_files(entries@.take(i as int)),
        decreases entries@.len() - i,
    {
        let ghost before = files_view(files@);
        assert(entries@.take(i + 1).drop_last() =~= entries@.take(i as int));
        assert(entries@.take(i + 1).last() == entries@[i as int]);
        let e = &entries[i];
        match &e.path {
            Some(p) => {
                if !is_internal_path(p.as_str()) {
                    let renamed = e.flags.index_renamed || e.flags.wt_renamed;
                    let moved = match &e.head_to_index {
                        Some(pair) => if renamed && !(pair.0 == pair.1) {
                            Some(ChangedFile::renamed(
                                RelPath::new(pair.0.as_str()),
                                RelPath::new(pair.1.as_str()),
                            ))
                        } else {
                            None
                        },
                        None => None,
                    };
                    match moved {
                        Some(f) => files.push(f),
                        None => files.push(
                            ChangedFile::new(RelPath::new(p.as_str()), status_to_change_kind(e.flags)),
                        ),
                    }
                    assert(files_view(files@) =~= before.push(
                        status_entry_file(p@, e.flags, opt_pair(e.head_to_index)),
                    ));
                }
            },
            None => {},
        }
        i = i + 1;
    }
    assert(entries@.take(i as int) =~= entries@);
    sort_changed_files(&files)
}

/// The status of a tree-to-tree delta, as libgit2 reports it.
#[derive(Debug, Clone, Copy, PartialEq, Eq, Structural)]
pub enum DeltaStatus {
    /// The file was added.
    Added,
    /// The file was deleted.
    Deleted,
    /// The file was modified.
    Modified,
    /// The file was renamed.
    Renamed,
    /// The file was copied.
    Copied,
    /// Any other status.
    Other,
}

/// One delta of a tree-to-tree diff, as read from the repository.
#[derive(Debug)]
pub struct DeltaEntry {
    /// The new file's path (empty when it has none or it is not UTF-8).
    pub new_path: String,
    /// The old file's path, when it has one that is valid UTF-8.
    pub old_path: Option<String>,
    /// The delta's status.
    pub status: DeltaStatus,
}

/// The change listed for a delta with a non-empty new path.
pub open spec fn delta_file(new_path: Seq<char>, old_path: Option<Seq<char>>, status: DeltaStatus) -> FileV {
    match status {
        DeltaStatus::Added => file_v(new_path, FileChangeKind::Added),
        DeltaStatus::Deleted => file_v(new_path, FileChangeKind::Deleted),
        DeltaStatus::Renamed | DeltaStatus::Copied => match old_path {
            Some(o) => if o != new_path {
                renamed_v(o, new_path)
            } else {
                file_v(new_path, FileChangeKind::Modified)
            },
            None => file_v(new_path, FileChangeKind::Modified),
        },
        _ => file_v(new_path, FileChangeKind::Modified),
    }
}

/// The changes listed for deltas, in delta order: deltas with an empty new
/// path are left out.
pub open spec fn delta_files(ds: Seq<DeltaEntry>) -> Seq<FileV>
    decreases ds.len(),
{
    if ds.len() == 0 {
        Seq::empty()
    } else {
        let prev = delta_files(ds.drop_last());
        let d = ds.last();
        if d.new_path@.len() == 0 {
            prev
        } else {
            prev.push(delta_file(d.new_path@, crate::config::opt_string(d.old_path), d.status))
        }
    }
}

/// The changed files between two trees from the diff's deltas, in path order.
pub fn files_from_deltas(deltas: &Vec<DeltaEntry>) -> (r: Vec<ChangedFile>)
    ensures
        files_view(r@) == sorted_files(delta_files(deltas@)),
{
    let mut files: Vec<ChangedFile> = Vec::new();
    let mut i: usize = 0;
    while i < deltas.len()
        invariant
            i <= deltas@.len(),
            files_view(files@) == delta_files(deltas@.take(i as int)),
        decreases deltas@.len() - i,
    {
        let ghost before = files_view(files@);
        assert(deltas@.take(i + 1).drop_last() =~= deltas@.take(i as int));
        assert(deltas@.take(i + 1).last() == deltas@[i as int]);
        let d = &deltas[i];
        if !d.new_path.as_str().is_empty() {
            let np = RelPath::new(d.new_path.as_str());
            let f = match d.status {
                DeltaStatus::Added => ChangedFile::new(np, FileChangeKind::Added),
                DeltaStatus::Deleted => ChangedFile::new(np, FileChangeKind::Deleted),
                DeltaStatus::Renamed | DeltaStatus::Copied => match &d.old_path {
                    Some(o) => if !(*o == d.new_path) {
                        ChangedFile::renamed(RelPath::new(o.as_str()), np)
                    } else {
                        ChangedFile::new(np, FileChangeKind::Modified)
                    },
                    None => ChangedFile::new(np, FileChangeKind::Modified),
                },
                _ => ChangedFile::new(np, FileChangeKind::Modified),
            };
            files.push(f);
            assert(files_view(files@) =~= before.push(
                delta_file(d.new_path@, crate::config::opt_string(d.old_path), d.status),
            ));
        }
        i = i + 1;
    }
    assert(deltas@.take(i as int) =~= deltas@);
    sort_changed_files(&files)
}

// ---------------------------------------------------------------------------
// `git status --porcelain=v1 -z` and `git diff --name-status -z`
// ---------------------------------------------------------------------------

/// Result of `std::str::from_utf8(b).is_ok()`.
#[verifier::external_body]
fn utf8_is_valid(b: &[u8]) -> (r: bool)
    ensures
        r == vstd::utf8::valid_utf8(b@),
{
    std::str::from_utf8(b).is_ok()
}

/// Index of the first NUL byte at or after `i`, or `b.len()`.
pub open spec fn next_nul(b: Seq<u8>, i: int) -> int
    decreases b.len() - i,
{
    if i < 0 || i >= b.len() {
        b.len() as int
    } else if b[i] == 0 {
        i
    } else {
        next_nul(b, i + 1)
    }
}

/// `next_nul` lies between `i` and the end.
pub proof fn lemma_next_nul(b: Seq<u8>, i: int)
    requires
        0 <= i <= b.len(),
    ensures
        i <= next_nul(b, i) <= b.len(),
        next_nul(b, i) < b.len() ==> b[next_nul(b, i)] == 0,
        forall|k: int| i <= k < next_nul(b, i) ==> b[k] != 0,
    decreases b.len() - i,
{
    if i < b.len() && b[i] != 0 {
        lemma_next_nul(b, i + 1);
    }
}

/// Index of the first NUL byte at or after `i`, or `b.len()`.
fn find_nul(b: &[u8], i: usize) -> (r: usize)
    requires
        i <= b@.len(),
    ensures
        r == next_nul(b@, i as int),
{
    let mut k = i;
    while k < b.len() && b[k] != 0
        invariant
            i <= k <= b@.len(),
            next_nul(b@, i as int) == next_nul(b@, k as int),
        decreases b@.len() - k,
    {
        k = k + 1;
    }
    k
}

/// The text of a piece of git output.
pub open spec fn text(b: Seq<u8>) -> Seq<char> {
    crate::text::utf8_lossy(b)
}

/// Kind for a two-byte porcelain status code that is not a rename or copy.
/// (`" M"`, `"MM"`, `"AM"`, `"M "` and every unlisted code mean modified.)
pub open spec fn porcelain_kind(s0: u8, s1: u8) -> FileChangeKind {
    if s0 == 63 && s1 == 63 {
        // "??"
        FileChangeKind::Untracked
    } else if (s0 == 32 && s1 == 68) || (s0 == 77 && s1 == 68) || (s0 == 65 && s1 == 68) || (s0
        == 68 && s1 == 32) {
        // " D", "MD", "AD", "D "
        FileChangeKind::Deleted
    } else if (s0 == 65 && s1 == 32) || (s0 == 32 && s1 == 65) {
        // "A ", " A"
        FileChangeKind::Added
    } else {
        FileChangeKind::Modified
    }
}

/// A status code for a deleted file: deleted in the worktree (worktree
/// letter `D`, index letter ` `, `M` or `A`), or staged for deletion with a
/// clean worktree (`D `).
pub open spec fn deletion_code(index: char, worktree: char) -> bool {
    (worktree == 'D' && (index == ' ' || index == 'M' || index == 'A')) || (index == 'D' && worktree == ' ')
}

/// A status code for an added file: staged (`A `) or intent-to-add (` A`).
pub open spec fn addition_code(index: char, worktree: char) -> bool {
    (index == 'A' && worktree == ' ') || (index == ' ' && worktree == 'A')
}

/// Law: a status code gives `Deleted` exactly for the deletion codes,
/// `Added` exactly for the addition codes, `Untracked` exactly for `??`,
/// and `Modified` for every other code.
pub proof fn lemma_porcelain_kinds(index: char, worktree: char)
    requires
        (index as u32) < 128,
        (worktree as u32) < 128,
    ensures
        (porcelain_kind(index as u8, worktree as u8) == FileChangeKind::Deleted) <==> deletion_code(index, worktree),
        (porcelain_kind(index as u8, worktree as u8) == FileChangeKind::Added) <==> addition_code(index, worktree),
        (porcelain_kind(index as u8, worktree as u8) == FileChangeKind::Untracked) <==> (index == '?' && worktree == '?'),
        porcelain_kind(index as u8, worktree as u8) == FileChangeKind::Modified || porcelain_kind(index as u8, worktree as u8)
            == FileChangeKind::Deleted || porcelain_kind(index as u8, worktree as u8) == FileChangeKind::Added
            || porcelain_kind(index as u8, worktree as u8) == FileChangeKind::Untracked,
{
}

/// A status code starting with `R` (rename) or `C` (copy).
pub open spec fn is_rename_code(s0: u8) -> bool {
    s0 == 82 || s0 == 67
}

/// Entries of porcelain output from the part starting at byte `i`
/// (parts are separated by NUL; `i == b.len() + 1` means no part is left).
pub open spec fn porcelain_from(b: Seq<u8>, i: int) -> Seq<FileV>
    decreases b.len() + 1 - i,
{
    if i < 0 || i > b.len() {
        Seq::empty()
    } else {
        proof {
            lemma_next_nul(b, i);
        }
        let j = next_nul(b, i);
        if j - i < 4 {
            porcelain_from(b, j + 1)
        } else {
            let path = text(b.subrange(i + 3, j));
            if is_rename_code(b[i]) && j < b.len() {
                proof {
                    lemma_next_nul(b, j + 1);
                }
                let j2 = next_nul(b, j + 1);
                let old = text(b.subrange(j + 1, j2));
                if is_internal(path) || is_internal(old) {
                    porcelain_from(b, j2 + 1)
                } else {
                    seq![renamed_v(old, path)] + porcelain_from(b, j2 + 1)
                }
            } else {
                let kind = if is_rename_code(b[i]) {
                    FileChangeKind::Modified
                } else {
                    porcelain_kind(b[i], b[i + 1])
                };
                if is_internal(path) {
                    porcelain_from(b, j + 1)
                } else {
                    seq![file_v(path, kind)] + porcelain_from(b, j + 1)
                }
            }
        }
    }
}

/// The porcelain entries that are examined (status of at least four
/// bytes) have char boundaries after the status code and after the
/// separating space, so the status and the path can be cut out as text.
pub open spec fn porcelain_cuts_ok(b: Seq<u8>, i: int) -> bool
    decreases b.len() + 1 - i,
{
    if i < 0 || i > b.len() {
        true
    } else {
        proof {
            lemma_next_nul(b, i);
        }
        let j = next_nul(b, i);
        if j - i < 4 {
            porcelain_cuts_ok(b, j + 1)
        } else {
            &&& !vstd::utf8::is_continuation_byte(b[i + 2])
            &&& !vstd::utf8::is_continuation_byte(b[i + 3])
            &&& if is_rename_code(b[i]) && j < b.len() {
                proof {
                    lemma_next_nul(b, j + 1);
                }
                porcelain_cuts_ok(b, next_nul(b, j + 1) + 1)
            } else {
                porcelain_cuts_ok(b, j + 1)
            }
        }
    }
}

/// Parse `git status --porcelain=v1 -z` output.
pub fn parse_porcelain_status(output: &[u8]) -> (r: Result<Vec<ChangedFile>, RepoError>)
    requires
        vstd::utf8::valid_utf8(output@) ==> porcelain_cuts_ok(output@, 0),
    ensures
        !vstd::utf8::valid_utf8(output@) ==> r matches Err(RepoError::InvalidUtf8),
        vstd::utf8::valid_utf8(output@) ==> (r matches Ok(v) && files_view(v@) == sorted_files(
            porcelain_from(output@, 0),
        )),
{
    if !utf8_is_valid(output) {
        return Err(RepoError::InvalidUtf8);
    }
    let ghost b = output@;
    let mut files: Vec<ChangedFile> = Vec::new();
    let mut i: usize = 0;
    loop
        invariant_except_break
            files_view(files@) + porcelain_from(b, i as int) == porcelain_from(b, 0),
        invariant
            i <= b.len(),
            b == output@,
        ensures
            files_view(files@) == porcelain_from(b, 0),
        decreases b.len() - i,
    {
        proof {
            lemma_next_nul(b, i as int);
        }
        let j = find_nul(output, i);
        let ghost before = files_view(files@);
        let mut next: usize = j;
        if j - i >= 4 {
            let path = crate::text::lossy_string(crate::text::slice_range(output, i + 3, j));
            let s0 = output[i];
            if (s0 == 82 || s0 == 67) && j < output.len() {
                proof {
                    lemma_next_nul(b, j + 1);
                }
                let j2 = find_nul(output, j + 1);
                let old = crate::text::lossy_string(crate::text::slice_range(output, j + 1, j2));
                if !is_internal_path(path.as_str()) && !is_internal_path(old.as_str()) {
                    files.push(ChangedFile::renamed(RelPath(old), RelPath(path)));
                }
                next = j2;
            } else {
                let kind = if s0 == 82 || s0 == 67 {
                    FileChangeKind::Modified
                } else {
                    porcelain_code_kind(s0, output[i + 1])
                };
                if !is_internal_path(path.as_str()) {
                    files.push(ChangedFile::new(RelPath(path), kind));
                }
            }
        }
        assert(files_view(files@) + porcelain_from(b, next + 1) == porcelain_from(b, 0)) by {
            assert(files_view(files@) =~= before + (files_view(files@).subrange(
                before.len() as int,
                files_view(files@).len() as int,
            )));
        }
        if next >= output.len() {
            assert(porcelain_from(b, next + 1) =~= Seq::<FileV>::empty());
            assert(files_view(files@) + Seq::<FileV>::empty() =~= files_view(files@));
            break;
        }
        i = next + 1;
    }
    Ok(sort_changed_files(&files))
}


/// Entries of `git diff --name-status -z` output from the part starting at
/// byte `i` (a status part, then the path, then for renames and copies the
/// new path).
pub open spec fn name_status_from(b: Seq<u8>, i: int) -> Seq<FileV>
    decreases b.len() + 1 - i,
{
    if i < 0 || i > b.len() {
        Seq::empty()
    } else {
        proof {
            lemma_next_nul(b, i);
        }
        let j = next_nul(b, i);
        if j == i {
            name_status_from(b, j + 1)
        } else if j >= b.len() {
            Seq::empty()
        } else {
            proof {
                lemma_next_nul(b, j + 1);
            }
            let j2 = next_nul(b, j + 1);
            if j2 == j + 1 {
                name_status_from(b, j2 + 1)
            } else {
                let path = text(b.subrange(j + 1, j2));
                if is_rename_code(b[i]) && j2 < b.len() {
                    proof {
                        lemma_next_nul(b, j2 + 1);
                    }
                    let j3 = next_nul(b, j2 + 1);
                    seq![renamed_v(path, text(b.subrange(j2 + 1, j3)))] + name_status_from(
                        b,
                        j3 + 1,
                    )
                } else {
                    let kind = if b[i] == 65 {
                        FileChangeKind::Added
                    } else if b[i] == 68 {
                        FileChangeKind::Deleted
                    } else {
                        FileChangeKind::Modified
                    };
                    seq![file_v(path, kind)] + name_status_from(b, j2 + 1)
                }
            }
        }
    }
}

/// Parse `git diff --name-status -z` output.
pub fn parse_diff_name_status(output: &[u8]) -> (r: Result<Vec<ChangedFile>, RepoError>)
    ensures
        !vstd::utf8::valid_utf8(output@) ==> r matches Err(RepoError::InvalidUtf8),
        vstd::utf8::valid_utf8(output@) ==> (r matches Ok(v) && files_view(v@) == sorted_files(
            name_status_from(output@, 0),
        )),
{
    if !utf8_is_valid(output) {
        return Err(RepoError::InvalidUtf8);
    }
    let ghost b = output@;
    let mut files: Vec<ChangedFile> = Vec::new();
    let mut i: usize = 0;
    loop
        invariant_except_break
            files_view(files@) + name_status_from(b, i as int) == name_status_from(b, 0),
        invariant
            i <= b.len(),
            b == output@,
        ensures
            files_view(files@) == name_status_from(b, 0),
        decreases b.len() - i,
    {
        proof {
            lemma_next_nul(b, i as int);
        }
        let j = find_nul(output, i);
        if j >= output.len() {
            if j > i {
                assert(name_status_from(b, i as int) =~= Seq::<FileV>::empty());
            } else {
                assert(name_status_from(b, j + 1) =~= Seq::<FileV>::empty());
            }
            assert(files_view(files@) + Seq::<FileV>::empty() =~= files_view(files@));
            break;
        }
        let ghost before = files_view(files@);
        let mut next: usize = j;
        if j > i {
            proof {
                lemma_next_nul(b, j + 1);
            }
            let j2 = find_nul(output, j + 1);
            next = j2;
            if j2 > j + 1 {
                let path = crate::text::lossy_string(crate::text::slice_range(output, j + 1, j2));
                let c = output[i];
                if (c == 82 || c == 67) && j2 < output.len() {
                    proof {
                        lemma_next_nul(b, j2 + 1);
                    }
                    let j3 = find_nul(output, j2 + 1);
                    let new_path = crate::text::lossy_string(
                        crate::text::slice_range(output, j2 + 1, j3),
                    );
                    files.push(ChangedFile::renamed(RelPath(path), RelPath(new_path)));
                    next = j3;
                } else {
                    let kind = if c == 65 {
                        FileChangeKind::Added
                    } else if c == 68 {
                        FileChangeKind::Deleted
                    } else {
                        FileChangeKind::Modified
                    };
                    files.push(ChangedFile::new(RelPath(path), kind));
                }
            }
        }
        assert(files_view(files@) + name_status_from(b, next + 1) == name_status_from(b, 0)) by {
            assert(files_view(files@) =~= before + (files_view(files@).subrange(
                before.len() as int,
                files_view(files@).len() as int,
            )));
        }
        if next >= output.len() {
            assert(name_status_from(b, next + 1) =~= Seq::<FileV>::empty());
            assert(files_view(files@) + Seq::<FileV>::empty() =~= files_view(files@));
            break;
        }
        i = next + 1;
    }
    Ok(sort_changed_files(&files))
}

/// Kind for a two-byte porcelain status code that is not a rename or copy.
fn porcelain_code_kind(s0: u8, s1: u8) -> (r: FileChangeKind)
    ensures
        r == porcelain_kind(s0, s1),
{
    if s0 == 63 && s1 == 63 {
        FileChangeKind::Untracked
    } else if (s0 == 32 && s1 == 68) || (s0 == 77 && s1 == 68) || (s0 == 65 && s1 == 68) || (s0
        == 68 && s1 == 32) {
        FileChangeKind::Deleted
    } else if (s0 == 65 && s1 == 32) || (s0 == 32 && s1 == 65) {
        FileChangeKind::Added
    } else {
        FileChangeKind::Modified
    }
}


// ---------------------------------------------------------------------------
// Comparison against a base: committed changes merged with the working tree
// ---------------------------------------------------------------------------

/// No two entries share a path.
pub open spec fn distinct_paths(fs: Seq<FileV>) -> bool {
    forall|a: int, b: int| 0 <= a < b < fs.len() ==> fs[a].path != fs[b].path
}

/// `acc` with the entry for `f`'s path replaced by `f`, or `f` appended
/// when no entry has that path.
pub open spec fn upsert(acc: Seq<FileV>, f: FileV) -> Seq<FileV> {
    if exists|k: int| 0 <= k < acc.len() && acc[k].path == f.path {
        acc.update(choose|k: int| 0 <= k < acc.len() && acc[k].path == f.path, f)
    } else {
        acc.push(f)
    }
}

/// The entries keyed by path, a later entry replacing an earlier one with
/// the same path in its place.
pub open spec fn merged(fs: Seq<FileV>) -> Seq<FileV>
    decreases fs.len(),
{
    if fs.len() == 0 {
        Seq::empty()
    } else {
        upsert(merged(fs.drop_last()), fs.last())
    }
}

/// The merged list of a base comparison: committed changes, overridden by
/// working-tree changes to the same path, in path order.
pub open spec fn base_files(committed: Seq<FileV>, working: Seq<FileV>) -> Seq<FileV> {
    sorted_files(merged(committed + working))
}

proof fn lemma_upsert_distinct(acc: Seq<FileV>, f: FileV)
    requires
        distinct_paths(acc),
    ensures
        distinct_paths(upsert(acc, f)),
        forall|k: int|
            0 <= k < upsert(acc, f).len() ==> (upsert(acc, f)[k].path == f.path <==> upsert(
                acc,
                f,
            )[k] == f),
{
    if exists|k: int| 0 <= k < acc.len() && acc[k].path == f.path {
        let k = choose|k: int| 0 <= k < acc.len() && acc[k].path == f.path;
        assert forall|a: int| 0 <= a < acc.len() && a != k implies acc[a].path != f.path by {
            if a < k {
                assert(acc[a].path != acc[k].path);
            } else {
                assert(acc[k].path != acc[a].path);
            }
        }
    }
}

/// `merged` never holds two entries with one path.
pub proof fn lemma_merged_distinct(fs: Seq<FileV>)
    ensures
        distinct_paths(merged(fs)),
    decreases fs.len(),
{
    if fs.len() > 0 {
        lemma_merged_distinct(fs.drop_last());
        lemma_upsert_distinct(merged(fs.drop_last()), fs.last());
    }
}

/// `x` is the last entry of `fs` with its path.
pub open spec fn last_of_path(fs: Seq<FileV>, x: FileV) -> bool {
    exists|j: int| 0 <= j < fs.len() && fs[j] == x && forall|m: int| j < m < fs.len() ==> (#[trigger] fs[m]).path != x.path
}

/// `fs` has an entry with path `p`.
pub open spec fn has_path(fs: Seq<FileV>, p: Seq<char>) -> bool {
    exists|j: int| 0 <= j < fs.len() && (#[trigger] fs[j]).path == p
}

/// Each entry of `merged(fs)` is the last entry of `fs` with its path, and
/// every path of `fs` has an entry.
proof fn lemma_merged_entries(fs: Seq<FileV>)
    ensures
        forall|k: int| 0 <= k < merged(fs).len() ==> last_of_path(fs, #[trigger] merged(fs)[k]),
        forall|p: Seq<char>| has_path(fs, p) ==> #[trigger] has_path(merged(fs), p),
    decreases fs.len(),
{
    if fs.len() > 0 {
        let pre = fs.drop_last();
        let x = fs.last();
        let acc = merged(pre);
        let m = merged(fs);
        let n = fs.len() - 1;
        lemma_merged_entries(pre);
        lemma_merged_distinct(pre);
        lemma_upsert_distinct(acc, x);
        let found = exists|k: int| 0 <= k < acc.len() && acc[k].path == x.path;
        let c = choose|k: int| 0 <= k < acc.len() && acc[k].path == x.path;
        // every entry of m is x or an entry of acc with another path
        assert forall|k: int| 0 <= k < m.len() implies last_of_path(fs, #[trigger] m[k]) by {
            if m[k].path == x.path {
                assert(m[k] == x);
                assert(fs[n] == x);
            } else {
                let e = m[k];
                if found {
                    assert(m == acc.update(c, x));
                    assert(k != c);
                    assert(e == acc[k]);
                } else {
                    assert(m == acc.push(x));
                    assert(k < acc.len());
                    assert(e == acc[k]);
                }
                assert(last_of_path(pre, e));
                let j = choose|j: int| 0 <= j < pre.len() && pre[j] == e && forall|q: int| j < q < pre.len() ==> (#[trigger] pre[q]).path != e.path;
                assert(fs[j] == e);
                assert forall|q: int| j < q < fs.len() implies (#[trigger] fs[q]).path != e.path by {
                    if q < n {
                        assert(fs[q] == pre[q]);
                    }
                }
            }
        }
        assert forall|p: Seq<char>| has_path(fs, p) implies #[trigger] has_path(m, p) by {
            let j = choose|j: int| 0 <= j < fs.len() && (#[trigger] fs[j]).path == p;
            if p == x.path {
                if found {
                    assert(m == acc.update(c, x));
                    assert(m[c].path == p);
                } else {
                    assert(m == acc.push(x));
                    assert(m[acc.len() as int].path == p);
                }
            } else {
                assert(j < n);
                assert(pre[j].path == p);
                assert(has_path(pre, p));
                assert(has_path(acc, p));
                let k = choose|k: int| 0 <= k < acc.len() && (#[trigger] acc[k]).path == p;
                if found {
                    assert(m == acc.update(c, x));
                    assert(acc[c].path == x.path);
                    assert(p != x.path);
                    assert(k != c);
                    assert(m[k] == acc[k]);
                    assert(m[k].path == p);
                } else {
                    assert(m == acc.push(x));
                    assert(m[k].path == p);
                }
            }
        }
    }
}

/// Law: the base comparison's files are in path order with distinct paths;
/// they have exactly the paths of the committed and working-tree changes;
/// each is the last entry with its path among the committed changes
/// followed by the working-tree changes, so a working-tree entry wins.
pub proof fn lemma_base_files(committed: Seq<FileV>, working: Seq<FileV>)
    ensures
        forall|i: int, j: int|
            0 <= i < j < base_files(committed, working).len() ==> !crate::sorting::chars_lt(
                #[trigger] base_files(committed, working)[j].path,
                #[trigger] base_files(committed, working)[i].path,
            ),
        distinct_paths(base_files(committed, working)),
        forall|k: int|
            0 <= k < base_files(committed, working).len() ==> last_of_path(
                committed + working,
                #[trigger] base_files(committed, working)[k],
            ),
        forall|p: Seq<char>|
            has_path(committed + working, p) <==> #[trigger] has_path(base_files(committed, working), p),
{
    let all = committed + working;
    let m = merged(all);
    let kf = keyed_files(m);
    let ss = stable_sorted(kf);
    let r = base_files(committed, working);
    lemma_merged_entries(all);
    lemma_merged_distinct(all);
    crate::sorting::lemma_stable_sorted_in_order(kf);
    crate::sorting::lemma_stable_sorted_len(kf);
    assert forall|q: int| 0 <= q < ss.len() implies (#[trigger] ss[q]).0 == ss[q].1.path && m.contains(ss[q].1) by {
        crate::sorting::lemma_stable_sorted_contains(kf, ss[q]);
        assert(ss.contains(ss[q]));
        let t = choose|t: int| 0 <= t < kf.len() && kf[t] == ss[q];
        assert(kf[t] == (m[t].path, m[t]));
        assert(m[t] == ss[q].1);
    }
    assert forall|i: int, j: int| 0 <= i < j < r.len() implies !crate::sorting::chars_lt(
        #[trigger] r[j].path,
        #[trigger] r[i].path,
    ) by {
        assert(r[i] == ss[i].1 && r[j] == ss[j].1);
    }
    assert forall|k: int| 0 <= k < r.len() implies last_of_path(all, #[trigger] r[k]) by {
        assert(r[k] == ss[k].1);
        let t = choose|t: int| 0 <= t < m.len() && m[t] == ss[k].1;
        assert(last_of_path(all, m[t]));
    }
    assert(crate::sorting::distinct_keys(kf)) by {
        assert forall|a: int, b: int| 0 <= a < b < kf.len() implies kf[a].0 != kf[b].0 by {
            assert(kf[a].0 == m[a].path && kf[b].0 == m[b].path);
        }
    }
    crate::sorting::lemma_stable_sorted_distinct(kf);
    assert forall|a: int, b: int| 0 <= a < b < r.len() implies r[a].path != r[b].path by {
        assert(r[a] == ss[a].1 && r[b] == ss[b].1);
        assert(ss[a].0 == ss[a].1.path && ss[b].0 == ss[b].1.path);
    }
    assert forall|p: Seq<char>| has_path(all, p) implies #[trigger] has_path(r, p) by {
        assert(has_path(m, p));
        let t = choose|t: int| 0 <= t < m.len() && (#[trigger] m[t]).path == p;
        crate::sorting::lemma_stable_sorted_contains(kf, kf[t]);
        assert(kf.contains(kf[t]));
        let q = choose|q: int| 0 <= q < ss.len() && ss[q] == kf[t];
        assert(r[q] == ss[q].1);
        assert(r[q].path == p);
    }
    assert forall|p: Seq<char>| has_path(r, p) implies #[trigger] has_path(all, p) by {
        let k = choose|k: int| 0 <= k < r.len() && (#[trigger] r[k]).path == p;
        assert(last_of_path(all, r[k]));
        let j = choose|j: int| 0 <= j < all.len() && all[j] == r[k] && forall|q: int| j < q < all.len() ==> (#[trigger] all[q]).path != r[k].path;
        assert(all[j].path == p);
    }
}

/// Whether two relative paths are the same text.
fn same_path(a: &RelPath, b: &RelPath) -> (r: bool)
    ensures
        r == (a@ == b@),
{
    a.0 == b.0
}

/// Index of the first changed file at `path`, if any.
pub fn find_changed_file(files: &Vec<ChangedFile>, path: &RelPath) -> (r: Option<usize>)
    ensures
        r matches Some(k) ==> k < files@.len() && files@[k as int].path@ == path@ && forall|j: int|
            0 <= j < k ==> (#[trigger] files@[j]).path@ != path@,
        r is None ==> forall|j: int| 0 <= j < files@.len() ==> (#[trigger] files@[j]).path@ != path@,
{
    let mut k: usize = 0;
    while k < files.len()
        invariant
            k <= files@.len(),
            forall|j: int| 0 <= j < k ==> (#[trigger] files@[j]).path@ != path@,
        decreases files@.len() - k,
    {
        if same_path(&files[k].path, path) {
            return Some(k);
        }
        k = k + 1;
    }
    None
}

/// `acc` after `upsert` of `f`.
fn upsert_file(acc: &mut Vec<ChangedFile>, f: &ChangedFile)
    requires
        distinct_paths(files_view(old(acc)@)),
    ensures
        files_view(final(acc)@) == upsert(files_view(old(acc)@), f@),
{
    let ghost a0 = files_view(acc@);
    let mut k: usize = 0;
    while k < acc.len()
        invariant
            k <= acc@.len(),
            a0 == files_view(acc@),
            a0 == files_view(old(acc)@),
            distinct_paths(a0),
            forall|m: int| 0 <= m < k ==> acc@[m].path@ != f.path@,
        decreases acc@.len() - k,
    {
        if same_path(&acc[k].path, &f.path) {
            proof {
                assert(a0[k as int].path == f@.path);
                let c = choose|c: int| 0 <= c < a0.len() && a0[c].path == f@.path;
                if c != k {
                    if c < k {
                        assert(a0[c].path != a0[k as int].path);
                    } else {
                        assert(a0[k as int].path != a0[c].path);
                    }
                }
            }
            acc.set(k, f.clone());
            assert(files_view(acc@) =~= upsert(a0, f@));
            return;
        }
        k = k + 1;
    }
    proof {
        assert forall|c: int| 0 <= c < a0.len() implies a0[c].path != f@.path by {
            assert(a0[c].path == acc@[c].path@);
        }
    }
    acc.push(f.clone());
    assert(files_view(acc@) =~= upsert(a0, f@));
}

/// Merge committed changes with working-tree changes: an entry of the
/// working tree takes the place of a committed entry with the same path.
/// The result is in path order.
pub fn merge_changed_files(committed: &Vec<ChangedFile>, working: &Vec<ChangedFile>) -> (r: Vec<
    ChangedFile,
>)
    ensures
        files_view(r@) == base_files(files_view(committed@), files_view(working@)),
        distinct_paths(files_view(r@)),
{
    let ghost all = files_view(committed@) + files_view(working@);
    let ghost n = committed@.len();
    let mut acc: Vec<ChangedFile> = Vec::new();
    let mut i: usize = 0;
    assert(all.subrange(0, 0) =~= Seq::<FileV>::empty());
    while i < committed.len()
        invariant
            n == committed@.len(),
            all == files_view(committed@) + files_view(working@),
            i <= n,
            files_view(acc@) == merged(all.subrange(0, i as int)),
        decreases n - i,
    {
        proof {
            lemma_merged_distinct(all.subrange(0, i as int));
            assert(all.subrange(0, i + 1).drop_last() =~= all.subrange(0, i as int));
        }
        upsert_file(&mut acc, &committed[i]);
        i = i + 1;
    }
    let mut w: usize = 0;
    while w < working.len()
        invariant
            n == committed@.len(),
            all == files_view(committed@) + files_view(working@),
            w <= working@.len(),
            files_view(acc@) == merged(all.subrange(0, n + w)),
        decreases working@.len() - w,
    {
        proof {
            lemma_merged_distinct(all.subrange(0, n + w));
            assert(all.subrange(0, n + w + 1).drop_last() =~= all.subrange(0, n + w));
            assert(all[n + w] == working@[w as int]@);
        }
        upsert_file(&mut acc, &working[w]);
        w = w + 1;
    }
    assert(all.subrange(0, n + w) =~= all);
    proof {
        lemma_merged_distinct(all);
    }
    let r = sort_changed_files(&acc);
    proof {
        lemma_sorted_files_distinct(files_view(acc@));
    }
    r
}

/// Sorting keeps the entries (so it keeps paths distinct).
pub proof fn lemma_sorted_files_distinct(fs: Seq<FileV>)
    requires
        distinct_paths(fs),
    ensures
        distinct_paths(sorted_files(fs)),
{
    let k = keyed_files(fs);
    lemma_stable_sorted_distinct(k);
    lemma_stable_sorted_len(k);
    let s = stable_sorted(k);
    assert forall|a: int| 0 <= a < s.len() implies s[a].0 == (#[trigger] s[a]).1.path by {
        lemma_stable_sorted_contains(k, s[a]);
        assert(s.contains(s[a]));
    }
    let r = sorted_files(fs);
    assert forall|a: int, b: int| 0 <= a < b < r.len() implies r[a].path != r[b].path by {
        assert(r[a] == s[a].1);
        assert(r[b] == s[b].1);
        assert(s[a].0 == s[a].1.path);
        assert(s[b].0 == s[b].1.path);
    }
}

/// Result of a base comparison.
#[derive(Debug)]
pub struct BaseComparison {
    /// The computed merge-base commit SHA.
    pub merge_base: String,
    /// Files changed between merge-base and HEAD.
    pub files: Vec<ChangedFile>,
}

/// The base comparison for merge base `merge_base` from the committed and
/// the working-tree change lists.
pub fn base_comparison(merge_base: String, committed: &Vec<ChangedFile>, working: &Vec<
    ChangedFile,
>) -> (r: BaseComparison)
    ensures
        r.merge_base@ == merge_base@,
        files_view(r.files@) == base_files(files_view(committed@), files_view(working@)),
{
    BaseComparison { merge_base, files: merge_changed_files(committed, working) }
}


// ---------------------------------------------------------------------------
// Which contents a file's diff compares
// ---------------------------------------------------------------------------

/// Where one side of a file's diff is read from.
#[derive(Debug)]
pub enum ContentSpec {
    /// Nothing: the side is empty.
    Empty,
    /// The file in the working tree.
    Working(RelPath),
    /// The file at the working copy's parent (HEAD for git, `@-` for jj).
    Head(RelPath),
    /// The file at a revision.
    Revision(String, RelPath),
}

/// Mathematical view of a [`ContentSpec`].
pub enum ContentV {
    Empty,
    Working(Seq<char>),
    Head(Seq<char>),
    Revision(Seq<char>, Seq<char>),
}

impl View for ContentSpec {
    type V = ContentV;

    open spec fn view(&self) -> ContentV {
        match self {
            ContentSpec::Empty => ContentV::Empty,
            ContentSpec::Working(p) => ContentV::Working(p@),
            ContentSpec::Head(p) => ContentV::Head(p@),
            ContentSpec::Revision(r, p) => ContentV::Revision(r@, p@),
        }
    }
}

/// The path the old side is read at: the original path of a rename.
pub open spec fn old_side_path(f: FileV) -> Seq<char> {
    match f.old_path {
        Some(p) => p,
        None => f.path,
    }
}

/// The (old, new) contents to compare for `f` under `source`; `resolved`
/// is the parent revision of a commit or the merge base of a base
/// comparison. `None` for a pull request, whose contents come from a patch.
pub open spec fn content_plan(source: DiffSourceV, f: FileV, resolved: Seq<char>) -> Option<
    (ContentV, ContentV),
> {
    let p = f.path;
    let o = old_side_path(f);
    match source {
        DiffSourceV::WorkingTree => Some(
            match f.kind {
                FileChangeKind::Added | FileChangeKind::Untracked => (
                    ContentV::Empty,
                    ContentV::Working(p),
                ),
                FileChangeKind::Deleted => (ContentV::Head(p), ContentV::Empty),
                _ => (ContentV::Head(o), ContentV::Working(p)),
            },
        ),
        DiffSourceV::Commit(c) => Some(
            match f.kind {
                FileChangeKind::Added => (ContentV::Empty, ContentV::Revision(c, p)),
                FileChangeKind::Deleted => (ContentV::Revision(resolved, p), ContentV::Empty),
                _ => (ContentV::Revision(resolved, o), ContentV::Revision(c, p)),
            },
        ),
        DiffSourceV::Range { from, to } => Some(
            match f.kind {
                FileChangeKind::Added => (ContentV::Empty, ContentV::Revision(to, p)),
                FileChangeKind::Deleted => (ContentV::Revision(from, p), ContentV::Empty),
                _ => (ContentV::Revision(from, o), ContentV::Revision(to, p)),
            },
        ),
        DiffSourceV::Base(_) => Some(
            match f.kind {
                FileChangeKind::Added | FileChangeKind::Untracked => (
                    ContentV::Empty,
                    ContentV::Working(p),
                ),
                FileChangeKind::Deleted => (ContentV::Revision(resolved, p), ContentV::Empty),
                _ => (ContentV::Revision(resolved, o), ContentV::Working(p)),
            },
        ),
        DiffSourceV::PullRequest { .. } => None,
    }
}

fn old_side(f: &ChangedFile) -> (r: RelPath)
    ensures
        r@ == old_side_path(f@),
{
    match &f.old_path {
        Some(p) => p.clone(),
        None => f.path.clone(),
    }
}

/// Decide which old and new contents to load for `file` under `source`
/// (`resolved`: the parent revision for a commit, the merge base for a base
/// comparison; unused otherwise).
pub fn diff_content_plan(source: &DiffSource, file: &ChangedFile, resolved: &str) -> (r: Result<
    (ContentSpec, ContentSpec),
    RepoError,
>)
    ensures
        content_plan(source@, file@, resolved@) matches Some(pair) ==> (r matches Ok(got) && got.0@
            == pair.0 && got.1@ == pair.1),
        content_plan(source@, file@, resolved@) is None ==> r matches Err(
            RepoError::UnsupportedForPR,
        ),
{
    let path = file.path.clone();
    match source {
        DiffSource::WorkingTree => match file.kind {
            FileChangeKind::Added | FileChangeKind::Untracked => Ok(
                (ContentSpec::Empty, ContentSpec::Working(path)),
            ),
            FileChangeKind::Deleted => Ok((ContentSpec::Head(path), ContentSpec::Empty)),
            _ => Ok((ContentSpec::Head(old_side(file)), ContentSpec::Working(path))),
        },
        DiffSource::Commit(c) => match file.kind {
            FileChangeKind::Added => Ok((ContentSpec::Empty, ContentSpec::Revision(c.clone(), path))),
            FileChangeKind::Deleted => Ok(
                (ContentSpec::Revision(resolved.to_owned(), path), ContentSpec::Empty),
            ),
            _ => Ok(
                (
                    ContentSpec::Revision(resolved.to_owned(), old_side(file)),
                    ContentSpec::Revision(c.clone(), path),
                ),
            ),
        },
        DiffSource::Range { from, to } => match file.kind {
            FileChangeKind::Added => Ok(
                (ContentSpec::Empty, ContentSpec::Revision(to.clone(), path)),
            ),
            FileChangeKind::Deleted => Ok(
                (ContentSpec::Revision(from.clone(), path), ContentSpec::Empty),
            ),
            _ => Ok(
                (
                    ContentSpec::Revision(from.clone(), old_side(file)),
                    ContentSpec::Revision(to.clone(), path),
                ),
            ),
        },
        DiffSource::Base(_) => match file.kind {
            FileChangeKind::Added | FileChangeKind::Untracked => Ok(
                (ContentSpec::Empty, ContentSpec::Working(path)),
            ),
            FileChangeKind::Deleted => Ok(
                (ContentSpec::Revision(resolved.to_owned(), path), ContentSpec::Empty),
            ),
            _ => Ok(
                (
                    ContentSpec::Revision(resolved.to_owned(), old_side(file)),
                    ContentSpec::Working(path),
                ),
            ),
        },
        DiffSource::PullRequest { .. } => Err(RepoError::UnsupportedForPR),
    }
}

// ---------------------------------------------------------------------------
// Reference validation and short labels
// ---------------------------------------------------------------------------

/// The message of the error for a reference that looks like a flag.
pub open spec fn flag_ref_message(trimmed: Seq<char>) -> Seq<char> {
    "references cannot start with '-': "@ + trimmed
}

/// Validate that a git reference doesn't look like a flag (defense in depth).
pub fn validate_git_ref_format(reference: &str) -> (r: Result<(), RepoError>)
    ensures
        r is Ok <==> !has_prefix(trim(reference@), seq!['-']),
        r matches Err(e) ==> e matches RepoError::InvalidRevision(m) && m@ == flag_ref_message(
            trim(reference@),
        ),
{
    let chars = chars_of(reference);
    let t = trim_chars(chars.as_slice());
    if t.len() > 0 && t[0] == '-' {
        assert(trim(reference@).subrange(0, 1) =~= seq!['-']);
        let mut msg: Vec<char> = Vec::new();
        push_str(&mut msg, "references cannot start with '-': ");
        push_all(&mut msg, t.as_slice());
        return Err(RepoError::InvalidRevision(string_of(msg.as_slice())));
    }
    proof {
        if has_prefix(trim(reference@), seq!['-']) {
            assert(trim(reference@).subrange(0, 1)[0] == '-');
        }
    }
    Ok(())
}

/// `s` cut to `max_chars` characters, with "..." appended when cut.
pub open spec fn truncated(s: Seq<char>, max_chars: nat) -> Seq<char> {
    if s.len() <= max_chars {
        s
    } else {
        s.subrange(0, max_chars as int) + "..."@
    }
}

/// Truncate a string to at most `max_chars` Unicode characters.
/// If truncated, appends "..." so total display width is roughly `max_chars + 3`.
pub fn truncate_chars(s: &str, max_chars: usize) -> (r: String)
    ensures
        r@ == truncated(s@, max_chars as nat),
{
    let chars = chars_of(s);
    if chars.len() <= max_chars {
        s.to_owned()
    } else {
        let mut t = take_chars_vec(chars.as_slice(), max_chars);
        push_str(&mut t, "...");
        string_of(t.as_slice())
    }
}

/// Take at most `n` characters from a string (no ellipsis).
pub fn take_chars(s: &str, n: usize) -> (r: String)
    ensures
        r@ == take_chars_spec(s@, n as nat),
{
    let chars = chars_of(s);
    let t = take_chars_vec(chars.as_slice(), n);
    string_of(t.as_slice())
}


/// The label of a commit: its short id, a space and its summary, cut to
/// 50 characters.
pub open spec fn commit_label(id: Seq<char>, id_chars: nat, summary: Seq<char>) -> Seq<char> {
    truncated(take_chars_spec(id, id_chars) + " "@ + summary, 50)
}

/// The label of a commit from its id (the first `id_chars` characters are
/// shown) and its summary line.
pub fn commit_summary_label(id: &str, id_chars: usize, summary: &str) -> (r: String)
    ensures
        r@ == commit_label(id@, id_chars as nat, summary@),
{
    let idc = chars_of(id);
    let mut msg = take_chars_vec(idc.as_slice(), id_chars);
    push_str(&mut msg, " ");
    push_str(&mut msg, summary);
    let m = string_of(msg.as_slice());
    truncate_chars(m.as_str(), 50)
}

/// Display name of a diff source.
pub open spec fn source_label(source: DiffSourceV, commit: Option<Seq<char>>) -> Seq<char> {
    match source {
        DiffSourceV::WorkingTree => "Working Tree"@,
        DiffSourceV::Commit(c) => match commit {
            Some(l) => l,
            None => "Commit "@ + take_chars_spec(c, 7),
        },
        DiffSourceV::Range { from, to } => take_chars_spec(from, 7) + ".."@ + take_chars_spec(
            to,
            7,
        ),
        DiffSourceV::Base(b) => "vs "@ + b,
        DiffSourceV::PullRequest { number, head, base } => "PR #"@ + crate::strings::dec(
            number as nat,
        ) + " ("@ + head + " \u{2192} "@ + base + ")"@,
    }
}

/// Get a display name for a DiffSource. For a commit, `commit_label` is the
/// label read from the repository (see `commit_summary_label`), if any.
pub fn diff_source_display(source: &DiffSource, commit_label: Option<&str>) -> (r: String)
    ensures
        r@ == source_label(source@, opt_text(commit_label)),
{
    let mut out: Vec<char> = Vec::new();
    match source {
        DiffSource::WorkingTree => {
            push_str(&mut out, "Working Tree");
        },
        DiffSource::Commit(c) => {
            match commit_label {
                Some(l) => {
                    push_str(&mut out, l);
                },
                None => {
                    push_str(&mut out, "Commit ");
                    let cc = chars_of(c.as_str());
                    let t = take_chars_vec(cc.as_slice(), 7);
                    push_all(&mut out, t.as_slice());
                },
            }
        },
        DiffSource::Range { from, to } => {
            let fc = chars_of(from.as_str());
            let tc = chars_of(to.as_str());
            let f7 = take_chars_vec(fc.as_slice(), 7);
            let t7 = take_chars_vec(tc.as_slice(), 7);
            push_all(&mut out, f7.as_slice());
            push_str(&mut out, "..");
            push_all(&mut out, t7.as_slice());
        },
        DiffSource::Base(b) => {
            push_str(&mut out, "vs ");
            push_str(&mut out, b.as_str());
        },
        DiffSource::PullRequest { number, head, base } => {
            push_str(&mut out, "PR #");
            let d = crate::strings::fmt_dec(*number as usize);
            push_all(&mut out, d.as_slice());
            push_str(&mut out, " (");
            push_str(&mut out, head.as_str());
            push_str(&mut out, " \u{2192} ");
            push_str(&mut out, base.as_str());
            push_str(&mut out, ")");
        },
    }
    string_of(out.as_slice())
}

} // verus!
