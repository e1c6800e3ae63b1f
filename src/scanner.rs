//! Discovery decisions of the filesystem scan. The walk itself reads the
//! filesystem and stands outside the library; for each directory it hands
//! over what it observed and applies the decision taken here.

use vstd::prelude::*;

use crate::config::ScanConfig;
use crate::git_ops::{file_name, last_segment, path_file_name, trim_slashes};
use crate::text::{
    chars_contain, chars_eq, chars_of, chars_range, chars_start_with, contains_seq, has_prefix,
    str_is, string_of,
};

verus! {

/// A repository found by a scan.
#[derive(Debug)]
pub struct DiscoveredRepo {
    pub path: String,
    pub is_bare: bool,
}

/// Why a directory was not descended into.
#[derive(Debug, Clone, Copy, PartialEq, Eq, Structural)]
pub enum SkipReason {
    Excluded,
    MountBoundary,
    MaxDepth,
    BlockedMount,
}

/// Progress events of a scan.
#[derive(Debug)]
pub enum ScanEvent {
    DirectoryEntered(String),
    RepoFound(String),
    Skipped { path: String, reason: SkipReason },
    Error { path: String, error: String },
}

/// Outcome of a scan: what was found, what was skipped, what failed.
#[derive(Debug)]
pub struct ScanResult {
    pub discovered: Vec<DiscoveredRepo>,
    pub skipped_mounts: usize,
    pub skipped_excluded: usize,
    pub errors: Vec<(String, String)>,
    pub duration_ms: u64,
}

/// Outcome of a quick verify pass over known paths.
#[derive(Debug)]
pub struct QuickVerifyResult {
    pub unchanged: Vec<String>,
    pub changed: Vec<String>,
    pub lost: Vec<String>,
}

/// What the walk observed of one entry.
#[derive(Debug)]
pub struct DirProbe {
    pub path: String,
    /// Depth below the root; the root itself is at depth 0.
    pub depth: usize,
    pub is_dir: bool,
    /// Device identifier, when it could be read.
    pub device: Option<u64>,
    /// `HEAD` exists and is a regular file.
    pub head_is_file: bool,
    /// `objects` exists and is a directory.
    pub objects_is_dir: bool,
    /// `refs` exists and is a directory.
    pub refs_is_dir: bool,
    /// `.git` exists.
    pub has_git_entry: bool,
}

/// What to do with one walked entry.
#[derive(Debug, Clone, Copy, PartialEq, Eq, Structural)]
pub enum EntryDecision {
    /// Not a directory: ignored.
    NotADirectory,
    /// Skipped, together with its subtree.
    Skip(SkipReason),
    /// A `.git` directory: its parent is a working tree.
    FoundWorkTree,
    /// A bare repository.
    FoundBare,
    /// An ordinary directory to descend into.
    Descend,
}

/// What a quick verify pass observed of one known path.
#[derive(Debug)]
pub struct PathProbe {
    pub path: String,
    /// `<path>/.git` exists.
    pub git_dir_exists: bool,
    /// `<path>/.git/HEAD` exists.
    pub git_head_exists: bool,
    /// `<path>/HEAD` exists.
    pub head_exists: bool,
}

/// `path` is `base` or lies below it, compared by whole components.
pub open spec fn path_under(path: Seq<char>, base: Seq<char>) -> bool {
    let b = trim_slashes(base);
    trim_slashes(path) == b || has_prefix(path, b + "/"@)
}

/// `path` relative to `root`, or `path` itself when it is not below `root`.
pub open spec fn relative_to(path: Seq<char>, root: Seq<char>) -> Seq<char> {
    let b = trim_slashes(root);
    if trim_slashes(path) == b {
        Seq::empty()
    } else if has_prefix(path, b + "/"@) {
        path.skip(b.len() + 1 as int)
    } else {
        path
    }
}

/// The pattern `pat` excludes `path`: the final component equals the
/// pattern without trailing slashes, or the root-relative path contains it.
pub open spec fn pattern_excludes(path: Seq<char>, root: Seq<char>, pat: Seq<char>) -> bool {
    let t = trim_slashes(pat);
    file_name(path) == Some(t) || contains_seq(relative_to(path, root), t)
}

/// Some exclusion pattern excludes `path`.
pub open spec fn excluded(path: Seq<char>, root: Seq<char>, pats: Seq<String>) -> bool {
    exists|i: int| 0 <= i < pats.len() && pattern_excludes(path, root, #[trigger] pats[i]@)
}

/// Some listed mount point holds `path`.
pub open spec fn under_any(path: Seq<char>, mounts: Seq<String>) -> bool {
    exists|i: int| 0 <= i < mounts.len() && path_under(path, #[trigger] mounts[i]@)
}

/// The directory has the bare-repository signature: a `HEAD` file, `objects`
/// and `refs` directories, and no `.git` entry.
pub open spec fn bare_signature(p: DirProbe) -> bool {
    p.head_is_file && p.objects_is_dir && p.refs_is_dir && !p.has_git_entry
}

/// The entry lies on another device than its root, and crossing mounts is
/// off, and no allow-list entry holds it.
pub open spec fn crosses_mount(p: DirProbe, root_device: Option<u64>, config: ScanConfig) -> bool {
    !config.boundaries.cross_mounts && root_device is Some && p.device is Some && p.device
        != root_device && !under_any(p.path@, config.boundaries.allow_mounts@)
}

/// The decision for one walked entry.
pub open spec fn decide(p: DirProbe, root: Seq<char>, root_device: Option<u64>, config: ScanConfig) -> EntryDecision {
    if !p.is_dir {
        EntryDecision::NotADirectory
    } else if p.depth > config.max_depth {
        EntryDecision::Skip(SkipReason::MaxDepth)
    } else if excluded(p.path@, root, config.exclude@) {
        EntryDecision::Skip(SkipReason::Excluded)
    } else if crosses_mount(p, root_device, config) {
        EntryDecision::Skip(SkipReason::MountBoundary)
    } else if under_any(p.path@, config.boundaries.block_mounts@) {
        EntryDecision::Skip(SkipReason::BlockedMount)
    } else if file_name(p.path@) == Some(".git"@) {
        EntryDecision::FoundWorkTree
    } else if bare_signature(p) {
        EntryDecision::FoundBare
    } else {
        EntryDecision::Descend
    }
}

/// The directory holding `path`: `path` without its final component and
/// the slashes before it.
pub open spec fn parent_dir(path: Seq<char>) -> Seq<char> {
    let q = trim_slashes(path);
    trim_slashes(q.take(q.len() - last_segment(q).len()))
}

/// The repositories a decision adds to the result, as path and bare flag.
pub open spec fn found_by(d: EntryDecision, path: Seq<char>) -> Seq<(Seq<char>, bool)> {
    match d {
        EntryDecision::FoundWorkTree => seq![(parent_dir(path), false)],
        EntryDecision::FoundBare => seq![(path, true)],
        _ => Seq::empty(),
    }
}

/// Path and bare flag of each discovered repository.
pub open spec fn discovered_view(v: Seq<DiscoveredRepo>) -> Seq<(Seq<char>, bool)> {
    v.map_values(|d: DiscoveredRepo| (d.path@, d.is_bare))
}

fn trimmed_len(p: &Vec<char>) -> (end: usize)
    ensures
        end <= p.len(),
        trim_slashes(p@) == p@.take(end as int),
{
    let mut end: usize = p.len();
    assert(p@.take(end as int) =~= p@);
    while end > 0 && p[end - 1] == '/'
        invariant
            end <= p.len(),
            trim_slashes(p@) == trim_slashes(p@.take(end as int)),
        decreases end,
    {
        assert(p@.take(end as int).drop_last() =~= p@.take(end - 1));
        end = end - 1;
    }
    end
}

/// Whether `path` is `base` or lies below it.
pub fn is_under(path: &str, base: &str) -> (r: bool)
    ensures
        r == path_under(path@, base@),
{
    let p = chars_of(path);
    let b = chars_of(base);
    let be = trimmed_len(&b);
    let pe = trimmed_len(&p);
    let bt = chars_range(&b, 0, be);
    assert(bt@ =~= trim_slashes(base@));
    let pt = chars_range(&p, 0, pe);
    assert(pt@ =~= trim_slashes(path@));
    if chars_eq(&pt, &bt) {
        return true;
    }
    let mut with_slash = bt;
    with_slash.push('/');
    assert(with_slash@ =~= trim_slashes(base@) + "/"@) by {
        reveal_strlit("/");
    }
    chars_start_with(&p, &with_slash)
}

/// `path` relative to `root`.
pub fn relative_path(path: &str, root: &str) -> (r: Vec<char>)
    ensures
        r@ == relative_to(path@, root@),
{
    let p = chars_of(path);
    let b = chars_of(root);
    let be = trimmed_len(&b);
    let pe = trimmed_len(&p);
    let bt = chars_range(&b, 0, be);
    let pt = chars_range(&p, 0, pe);
    assert(bt@ =~= trim_slashes(root@));
    assert(pt@ =~= trim_slashes(path@));
    if chars_eq(&pt, &bt) {
        return Vec::new();
    }
    let mut with_slash = bt;
    with_slash.push('/');
    assert(with_slash@ =~= trim_slashes(root@) + "/"@) by {
        reveal_strlit("/");
    }
    if chars_start_with(&p, &with_slash) {
        let r = chars_range(&p, with_slash.len(), p.len());
        assert(r@ =~= path@.skip(trim_slashes(root@).len() + 1 as int));
        r
    } else {
        p
    }
}

/// Whether some exclusion pattern excludes `path`, found under `root`.
pub fn is_excluded(path: &str, root: &str, exclusions: &Vec<String>) -> (r: bool)
    ensures
        r == excluded(path@, root@, exclusions@),
{
    let rel = relative_path(path, root);
    let name = path_file_name(path);
    let mut i: usize = 0;
    while i < exclusions.len()
        invariant
            i <= exclusions.len(),
            rel@ == relative_to(path@, root@),
            name matches Some(f) ==> file_name(path@) == Some(f@),
            name is None ==> file_name(path@) is None,
            forall|j: int| 0 <= j < i ==> !pattern_excludes(path@, root@, #[trigger] exclusions@[j]@),
        decreases exclusions.len() - i,
    {
        let pat = chars_of(&exclusions[i]);
        let pe = trimmed_len(&pat);
        let t = chars_range(&pat, 0, pe);
        assert(t@ =~= trim_slashes(exclusions@[i as int]@));
        let by_name = match &name {
            Some(f) => str_is(f, &t),
            None => false,
        };
        if by_name || chars_contain(&rel, &t) {
            assert(pattern_excludes(path@, root@, exclusions@[i as int]@));
            return true;
        }
        i = i + 1;
    }
    false
}

/// Whether some listed mount point holds `path`.
pub fn is_under_any(path: &str, mounts: &Vec<String>) -> (r: bool)
    ensures
        r == under_any(path@, mounts@),
{
    let mut i: usize = 0;
    while i < mounts.len()
        invariant
            i <= mounts.len(),
            forall|j: int| 0 <= j < i ==> !path_under(path@, #[trigger] mounts@[j]@),
        decreases mounts.len() - i,
    {
        if is_under(path, &mounts[i]) {
            return true;
        }
        i = i + 1;
    }
    false
}

/// Whether the probed directory has the bare-repository signature.
pub fn is_bare_repo(probe: &DirProbe) -> (r: bool)
    ensures
        r == bare_signature(*probe),
{
    probe.head_is_file && probe.objects_is_dir && probe.refs_is_dir && !probe.has_git_entry
}

/// Decides what to do with one walked entry under `root`, whose device is
/// `root_device` when known.
pub fn decide_entry(probe: &DirProbe, root: &str, root_device: Option<u64>, config: &ScanConfig) -> (r: EntryDecision)
    ensures
        r == decide(*probe, root@, root_device, *config),
{
    if !probe.is_dir {
        return EntryDecision::NotADirectory;
    }
    if probe.depth > config.max_depth {
        return EntryDecision::Skip(SkipReason::MaxDepth);
    }
    if is_excluded(&probe.path, root, &config.exclude) {
        return EntryDecision::Skip(SkipReason::Excluded);
    }
    if !config.boundaries.cross_mounts {
        if let (Some(rd), Some(d)) = (root_device, probe.device) {
            if d != rd && !is_under_any(&probe.path, &config.boundaries.allow_mounts) {
                return EntryDecision::Skip(SkipReason::MountBoundary);
            }
        }
    }
    if is_under_any(&probe.path, &config.boundaries.block_mounts) {
        return EntryDecision::Skip(SkipReason::BlockedMount);
    }
    let is_git = match path_file_name(&probe.path) {
        Some(n) => str_is(n.as_str(), &chars_of(".git")),
        None => false,
    };
    if is_git {
        return EntryDecision::FoundWorkTree;
    }
    if is_bare_repo(probe) {
        return EntryDecision::FoundBare;
    }
    EntryDecision::Descend
}

/// Whether the walk must not descend below an entry with this decision.
pub fn prunes(d: EntryDecision) -> (r: bool)
    ensures
        r == !(d == EntryDecision::Descend || d == EntryDecision::NotADirectory),
{
    match d {
        EntryDecision::Descend => false,
        EntryDecision::NotADirectory => false,
        _ => true,
    }
}

/// The directory holding `path`.
pub fn parent_path(path: &str) -> (r: String)
    ensures
        r@ == parent_dir(path@),
{
    let p = chars_of(path);
    let qe = trimmed_len(&p);
    let q = chars_range(&p, 0, qe);
    assert(q@ =~= trim_slashes(path@));
    let mut start: usize = qe;
    assert(q@.skip(start as int) =~= Seq::<char>::empty());
    assert(q@.take(start as int) =~= q@);
    while start > 0 && q[start - 1] != '/'
        invariant
            start <= q.len(),
            last_segment(q@) == last_segment(q@.take(start as int)) + q@.skip(start as int),
        decreases start,
    {
        let ghost a = q@.take(start as int);
        assert(a.drop_last() =~= q@.take(start - 1));
        assert(q@.skip(start - 1) =~= seq![a.last()] + q@.skip(start as int));
        assert(last_segment(q@.take(start - 1)).push(a.last()) + q@.skip(start as int)
            =~= last_segment(q@.take(start - 1)) + q@.skip(start - 1));
        start = start - 1;
    }
    assert(last_segment(q@.take(start as int)) =~= Seq::<char>::empty());
    assert(last_segment(q@).len() == q@.len() - start);
    let head = chars_range(&q, 0, start);
    let he = trimmed_len(&head);
    let out = chars_range(&head, 0, he);
    assert(out@ =~= trim_slashes(head@));
    string_of(out.as_slice())
}

impl ScanResult {
    /// A result with nothing found, skipped or failed yet.
    pub fn new() -> (r: ScanResult)
        ensures
            r.discovered@.len() == 0,
            r.skipped_mounts == 0,
            r.skipped_excluded == 0,
            r.errors@.len() == 0,
            r.duration_ms == 0,
    {
        ScanResult { discovered: Vec::new(), skipped_mounts: 0, skipped_excluded: 0, errors: Vec::new(), duration_ms: 0 }
    }

    /// Records the decision taken for the entry at `path`: a found
    /// repository is added once, a skip is counted (saturating).
    pub fn record(&mut self, path: &str, d: EntryDecision)
        ensures
            discovered_view(final(self).discovered@) == discovered_view(old(self).discovered@)
                + found_by(d, path@),
            final(self).skipped_excluded == if d == EntryDecision::Skip(SkipReason::Excluded)
                && old(self).skipped_excluded < usize::MAX {
                (old(self).skipped_excluded + 1) as usize
            } else {
                old(self).skipped_excluded
            },
            final(self).skipped_mounts == if (d == EntryDecision::Skip(SkipReason::MountBoundary)
                || d == EntryDecision::Skip(SkipReason::BlockedMount)) && old(self).skipped_mounts
                < usize::MAX {
                (old(self).skipped_mounts + 1) as usize
            } else {
                old(self).skipped_mounts
            },
            final(self).errors@ == old(self).errors@,
            final(self).duration_ms == old(self).duration_ms,
    {
        let ghost before = self.discovered@;
        match d {
            EntryDecision::Skip(SkipReason::Excluded) => {
                if self.skipped_excluded < usize::MAX {
                    self.skipped_excluded = self.skipped_excluded + 1;
                }
            },
            EntryDecision::Skip(SkipReason::MountBoundary) | EntryDecision::Skip(
                SkipReason::BlockedMount,
            ) => {
                if self.skipped_mounts < usize::MAX {
                    self.skipped_mounts = self.skipped_mounts + 1;
                }
            },
            EntryDecision::FoundWorkTree => {
                self.discovered.push(DiscoveredRepo { path: parent_path(path), is_bare: false });
            },
            EntryDecision::FoundBare => {
                self.discovered.push(DiscoveredRepo { path: String::from_str(path), is_bare: true });
            },
            _ => {},
        }
        assert(discovered_view(self.discovered@) =~= discovered_view(before) + found_by(d, path@));
    }

    /// Records a traversal error; the scan goes on.
    pub fn record_error(&mut self, path: String, error: String)
        ensures
            final(self).errors@ == old(self).errors@.push((path, error)),
            final(self).discovered@ == old(self).discovered@,
            final(self).skipped_mounts == old(self).skipped_mounts,
            final(self).skipped_excluded == old(self).skipped_excluded,
            final(self).duration_ms == old(self).duration_ms,
    {
        self.errors.push((path, error));
    }
}

/// A directory that passes exclusion, depth and mount policy and is named
/// `.git` yields exactly one discovered repository: its parent.
pub proof fn lemma_work_tree_found_once(
    p: DirProbe,
    root: Seq<char>,
    root_device: Option<u64>,
    config: ScanConfig,
)
    requires
        p.is_dir,
        p.depth <= config.max_depth,
        !excluded(p.path@, root, config.exclude@),
        !crosses_mount(p, root_device, config),
        !under_any(p.path@, config.boundaries.block_mounts@),
        file_name(p.path@) == Some(".git"@),
    ensures
        decide(p, root, root_device, config) == EntryDecision::FoundWorkTree,
        found_by(decide(p, root, root_device, config), p.path@) == seq![(parent_dir(p.path@), false)],
        found_by(decide(p, root, root_device, config), p.path@).len() == 1,
{
}

/// A directory with the bare-repository signature that passes exclusion,
/// depth and mount policy, and is not itself named `.git`, yields exactly
/// one discovered bare repository: itself.
pub proof fn lemma_bare_found_once(
    p: DirProbe,
    root: Seq<char>,
    root_device: Option<u64>,
    config: ScanConfig,
)
    requires
        p.is_dir,
        p.depth <= config.max_depth,
        !excluded(p.path@, root, config.exclude@),
        !crosses_mount(p, root_device, config),
        !under_any(p.path@, config.boundaries.block_mounts@),
        file_name(p.path@) != Some(".git"@),
        bare_signature(p),
    ensures
        decide(p, root, root_device, config) == EntryDecision::FoundBare,
        found_by(decide(p, root, root_device, config), p.path@) == seq![(p.path@, true)],
{
}

/// With mount crossing off and no allow-list entry holding it, a directory
/// on another device than its root is skipped as a mount boundary, counted,
/// and not descended into.
pub proof fn lemma_mount_boundary_skipped(
    p: DirProbe,
    root: Seq<char>,
    root_device: Option<u64>,
    config: ScanConfig,
)
    requires
        p.is_dir,
        p.depth <= config.max_depth,
        !excluded(p.path@, root, config.exclude@),
        !config.boundaries.cross_mounts,
        root_device is Some,
        p.device is Some,
        p.device != root_device,
        !under_any(p.path@, config.boundaries.allow_mounts@),
    ensures
        decide(p, root, root_device, config) == EntryDecision::Skip(SkipReason::MountBoundary),
        found_by(decide(p, root, root_device, config), p.path@).len() == 0,
{
}

/// The class of a known path in a quick verify pass: 0 unchanged, 1
/// changed, 2 lost.
pub open spec fn verify_class(p: PathProbe) -> int {
    if p.git_dir_exists {
        if p.git_head_exists {
            1
        } else {
            0
        }
    } else if p.head_exists {
        1
    } else {
        2
    }
}

/// Paths of the probes of class `c`, in order.
pub open spec fn paths_in_class(probes: Seq<PathProbe>, c: int) -> Seq<Seq<char>>
    decreases probes.len(),
{
    if probes.len() == 0 {
        Seq::empty()
    } else {
        let init = paths_in_class(probes.drop_last(), c);
        if verify_class(probes.last()) == c {
            init.push(probes.last().path@)
        } else {
            init
        }
    }
}

/// Views of a list of strings.
pub open spec fn string_views(v: Seq<String>) -> Seq<Seq<char>> {
    v.map_values(|s: String| s@)
}

/// Sorts known paths into unchanged, changed and lost from what was
/// observed of each.
pub fn quick_verify(known: &Vec<PathProbe>) -> (r: QuickVerifyResult)
    ensures
        string_views(r.unchanged@) == paths_in_class(known@, 0),
        string_views(r.changed@) == paths_in_class(known@, 1),
        string_views(r.lost@) == paths_in_class(known@, 2),
{
    let mut unchanged: Vec<String> = Vec::new();
    let mut changed: Vec<String> = Vec::new();
    let mut lost: Vec<String> = Vec::new();
    let mut i: usize = 0;
    while i < known.len()
        invariant
            i <= known.len(),
            string_views(unchanged@) == paths_in_class(known@.take(i as int), 0),
            string_views(changed@) == paths_in_class(known@.take(i as int), 1),
            string_views(lost@) == paths_in_class(known@.take(i as int), 2),
        decreases known.len() - i,
    {
        let ghost (u0, c0, l0) = (unchanged@, changed@, lost@);
        assert(known@.take(i + 1).drop_last() =~= known@.take(i as int));
        let p = &known[i];
        if p.git_dir_exists {
            if p.git_head_exists {
                changed.push(p.path.clone());
            } else {
                unchanged.push(p.path.clone());
            }
        } else if p.head_exists {
            changed.push(p.path.clone());
        } else {
            lost.push(p.path.clone());
        }
        assert(string_views(unchanged@) =~= paths_in_class(known@.take(i + 1), 0));
        assert(string_views(changed@) =~= paths_in_class(known@.take(i + 1), 1));
        assert(string_views(lost@) =~= paths_in_class(known@.take(i + 1), 2));
        i = i + 1;
    }
    assert(known@.take(known.len() as int) =~= known@);
    QuickVerifyResult { unchanged, changed, lost }
}

} // verus!
