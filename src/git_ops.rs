//! Remote URLs and repository names.

use vstd::prelude::*;

use crate::repo::{Remote, RemoteInfo};
use crate::text::{
    chars_of, chars_range, chars_start_with, field, find, find_from, has_prefix, nth_field,
    occurs_at_exec, str_is, string_of, string_of_range,
};

verus! {

/// `s` without every trailing `.git`, as `str::trim_end_matches(".git")`.
pub open spec fn trim_git_suffix(s: Seq<char>) -> Seq<char>
    decreases s.len(),
{
    let k = ".git"@.len();
    if k > 0 && s.len() >= k && s.skip(s.len() - k) == ".git"@ {
        trim_git_suffix(s.take(s.len() - k))
    } else {
        s
    }
}

/// Platform, org and repository name of a remote URL, for the SSH form
/// `user@host:org/repo[.git]` written with `git@`, and for `http://` and
/// `https://` URLs of the form `scheme://host/org/repo[.git]`.
pub open spec fn remote_parts(url: Seq<char>) -> Option<(Seq<char>, Seq<char>, Seq<char>)> {
    if has_prefix(url, "git@"@) {
        let rest = url.skip("git@"@.len() as int);
        match find(rest, ':') {
            None => None,
            Some(c) => {
                let path = trim_git_suffix(rest.skip(c + 1));
                match (field(path, '/', 0), field(path, '/', 1)) {
                    (Some(org), Some(name)) => Some((rest.take(c), org, name)),
                    _ => None,
                }
            },
        }
    } else if has_prefix(url, "https://"@) || has_prefix(url, "http://"@) {
        let t = trim_git_suffix(url);
        match (field(t, '/', 2), field(t, '/', 3), field(t, '/', 4)) {
            (Some(platform), Some(org), Some(name)) => Some((platform, org, name)),
            _ => None,
        }
    } else {
        None
    }
}

/// Length of `s` once every trailing `.git` is removed.
fn trim_git_len(s: &Vec<char>) -> (end: usize)
    ensures
        end <= s.len(),
        trim_git_suffix(s@) == s@.take(end as int),
{
    let suffix = chars_of(".git");
    let mut end: usize = s.len();
    assert(s@.take(end as int) =~= s@);
    loop
        invariant
            end <= s.len(),
            suffix@ == ".git"@,
            trim_git_suffix(s@) == trim_git_suffix(s@.take(end as int)),
        decreases end,
    {
        let t = Ghost(s@.take(end as int));
        if suffix.len() > 0 && end >= suffix.len() && occurs_at_exec(s, &suffix, end - suffix.len()) {
            assert(t@.skip(t@.len() - suffix@.len()) =~= s@.subrange(
                end - suffix.len(),
                end as int,
            ));
            assert(t@.take(t@.len() - suffix@.len()) =~= s@.take(end - suffix.len()));
            end = end - suffix.len();
        } else {
            if suffix.len() > 0 && end >= suffix.len() {
                assert(t@.skip(t@.len() - suffix@.len()) =~= s@.subrange(
                    end - suffix.len(),
                    end as int,
                ));
            }
            return end;
        }
    }
}

/// Takes a remote URL apart into platform, org and repository name.
pub fn parse_remote_org(url: &str) -> (r: Option<RemoteInfo>)
    ensures
        r matches Some(info) ==> remote_parts(url@) == Some(
            (info.platform@, info.org@, info.repo_name@),
        ),
        r is None ==> remote_parts(url@) is None,
{
    let u = chars_of(url);
    let ssh = chars_of("git@");
    if chars_start_with(&u, &ssh) {
        let rest = chars_range(&u, ssh.len(), u.len());
        assert(rest@ =~= u@.skip("git@"@.len() as int));
        let colon = find_from(&rest, 0, ':');
        assert(rest@.skip(0) =~= rest@);
        match colon {
            None => {
                return None;
            },
            Some(c) => {
                let platform = string_of_range(&rest, 0, c);
                let tail = chars_range(&rest, c + 1, rest.len());
                assert(tail@ =~= rest@.skip(c + 1));
                let end = trim_git_len(&tail);
                let path = chars_range(&tail, 0, end);
                assert(path@ =~= tail@.take(end as int));
                let org = nth_field(&path, '/', 0);
                let name = nth_field(&path, '/', 1);
                assert(platform@ =~= rest@.take(c as int));
                match (org, name) {
                    (Some(o), Some(n)) => {
                        return Some(RemoteInfo { platform, org: o, repo_name: n });
                    },
                    _ => {
                        return None;
                    },
                }
            },
        }
    }
    let https = chars_of("https://");
    let http = chars_of("http://");
    if chars_start_with(&u, &https) || chars_start_with(&u, &http) {
        let end = trim_git_len(&u);
        let t = chars_range(&u, 0, end);
        assert(t@ =~= u@.take(end as int));
        let platform = nth_field(&t, '/', 2);
        let org = nth_field(&t, '/', 3);
        let name = nth_field(&t, '/', 4);
        match (platform, org, name) {
            (Some(p), Some(o), Some(n)) => Some(RemoteInfo { platform: p, org: o, repo_name: n }),
            _ => None,
        }
    } else {
        None
    }
}


/// `s` without its trailing `/` characters.
pub open spec fn trim_slashes(s: Seq<char>) -> Seq<char>
    decreases s.len(),
{
    if s.len() > 0 && s.last() == '/' {
        trim_slashes(s.drop_last())
    } else {
        s
    }
}

/// The characters after the last `/` of `s`.
pub open spec fn last_segment(s: Seq<char>) -> Seq<char>
    decreases s.len(),
{
    if s.len() == 0 || s.last() == '/' {
        Seq::empty()
    } else {
        last_segment(s.drop_last()).push(s.last())
    }
}

/// The final component of a path, as `Path::file_name`: none for an empty
/// path, the root, or a path ending in `..`.
pub open spec fn file_name(p: Seq<char>) -> Option<Seq<char>> {
    let seg = last_segment(trim_slashes(p));
    if seg.len() == 0 || seg == ".."@ {
        None
    } else {
        Some(seg)
    }
}

/// The index of the first remote named `origin`, if any.
pub open spec fn first_origin(remotes: Seq<Remote>) -> Option<int> {
    if exists|i: int| 0 <= i < remotes.len() && remotes[i].name@ == "origin"@ {
        Some(
            choose|i: int|
                0 <= i < remotes.len() && remotes[i].name@ == "origin"@ && forall|j: int|
                    0 <= j < i ==> remotes[j].name@ != "origin"@,
        )
    } else {
        None
    }
}

/// The name inferred for a repository: the repository part of its first
/// `origin` remote when that URL parses, else the final path component,
/// else `unknown`.
pub open spec fn inferred_name(path: Seq<char>, remotes: Seq<Remote>) -> Seq<char> {
    let from_remote = match first_origin(remotes) {
        Some(i) => match remote_parts(remotes[i].url@) {
            Some(parts) => Some(parts.2),
            None => None,
        },
        None => None,
    };
    match from_remote {
        Some(n) => n,
        None => match file_name(path) {
            Some(f) => f,
            None => "unknown"@,
        },
    }
}

/// The final component of a path, if it has one.
pub fn path_file_name(path: &str) -> (r: Option<String>)
    ensures
        r matches Some(f) ==> file_name(path@) == Some(f@),
        r is None ==> file_name(path@) is None,
{
    let p = chars_of(path);
    let mut end: usize = p.len();
    assert(p@.take(end as int) =~= p@);
    while end > 0 && p[end - 1] == '/'
        invariant
            end <= p.len(),
            trim_slashes(p@) == trim_slashes(p@.take(end as int)),
        decreases end,
    {
        assert(p@.take(end as int).drop_last() =~= p@.take(end - 1));
        end = end - 1;
    }
    let ghost q = p@.take(end as int);
    assert(trim_slashes(q) == q);
    let mut start: usize = end;
    assert(q.skip(start as int) =~= Seq::<char>::empty());
    assert(q.take(start as int) =~= q);
    while start > 0 && p[start - 1] != '/'
        invariant
            start <= end <= p.len(),
            q == p@.take(end as int),
            last_segment(q) == last_segment(q.take(start as int)) + q.skip(start as int),
        decreases start,
    {
        let ghost a = q.take(start as int);
        assert(a.drop_last() =~= q.take(start - 1));
        assert(last_segment(a) == last_segment(a.drop_last()).push(a.last()));
        assert(q.skip(start - 1) =~= seq![a.last()] + q.skip(start as int));
        assert(last_segment(q.take(start - 1)).push(a.last()) + q.skip(start as int)
            =~= last_segment(q.take(start - 1)) + q.skip(start - 1));
        start = start - 1;
    }
    assert(last_segment(q.take(start as int)) =~= Seq::<char>::empty());
    assert(last_segment(q) =~= q.skip(start as int));
    let seg = chars_range(&p, start, end);
    assert(seg@ =~= q.skip(start as int));
    if seg.len() == 0 || str_is("..", &seg) {
        None
    } else {
        Some(string_of(seg.as_slice()))
    }
}

/// Infers a repository's name from its `origin` remote or its path.
pub fn infer_name(path: &str, remotes: &[Remote]) -> (r: String)
    ensures
        r@ == inferred_name(path@, remotes@),
{
    let origin = chars_of("origin");
    let mut i: usize = 0;
    let mut found: Option<usize> = None;
    while i < remotes.len()
        invariant
            i <= remotes.len(),
            origin@ == "origin"@,
            found is None ==> forall|j: int| 0 <= j < i ==> remotes@[j].name@ != "origin"@,
            found matches Some(k) ==> first_origin(remotes@) == Some(k as int) && k < remotes.len(),
        decreases remotes.len() - i,
    {
        if found.is_none() && str_is(&remotes[i].name, &origin) {
            proof {
                let k = choose|k: int|
                    0 <= k < remotes@.len() && remotes@[k].name@ == "origin"@ && forall|j: int|
                        0 <= j < k ==> remotes@[j].name@ != "origin"@;
                assert(0 <= k < remotes@.len() && remotes@[k].name@ == "origin"@);
                if k < i {
                    assert(remotes@[k].name@ != "origin"@);
                } else if i < k {
                    assert(remotes@[i as int].name@ != "origin"@);
                }
            }
            found = Some(i);
        }
        i = i + 1;
    }
    if found.is_none() {
        assert(!(exists|j: int| 0 <= j < remotes@.len() && remotes@[j].name@ == "origin"@));
    }
    if let Some(k) = found {
        if let Some(info) = parse_remote_org(&remotes[k].url) {
            return info.repo_name;
        }
    }
    match path_file_name(path) {
        Some(f) => f,
        None => String::from_str("unknown"),
    }
}


/// Seconds in the age past which a branch counts as stale.
pub const STALE_AFTER_SECONDS: i64 = 90 * 86400;

/// Branches whose tip commit time is known and older than ninety days
/// before `now`.
pub open spec fn stale_count(tips: Seq<Option<i64>>, now: i64) -> nat
    decreases tips.len(),
{
    if tips.len() == 0 {
        0
    } else {
        stale_count(tips.drop_last(), now) + if tips.last() matches Some(t) && (t as int) < (now as int)
            - STALE_AFTER_SECONDS {
            1nat
        } else {
            0nat
        }
    }
}

/// Total and stale counts of local branches, given each branch's tip commit
/// time (none when it could not be read), seen at `now`.
pub fn count_branches(tips: &Vec<Option<i64>>, now: i64) -> (r: (u32, u32))
    requires
        tips.len() <= u32::MAX,
    ensures
        r.0 == tips.len(),
        r.1 == stale_count(tips@, now),
{
    let mut total: u32 = 0;
    let mut stale: u32 = 0;
    let mut i: usize = 0;
    let limit: i128 = now as i128 - STALE_AFTER_SECONDS as i128;
    while i < tips.len()
        invariant
            i <= tips.len() <= u32::MAX,
            total == i,
            stale <= i,
            limit == now as int - STALE_AFTER_SECONDS,
            stale == stale_count(tips@.take(i as int), now),
        decreases tips.len() - i,
    {
        assert(tips@.take(i + 1).drop_last() =~= tips@.take(i as int));
        total = total + 1;
        if let Some(t) = tips[i] {
            if (t as i128) < limit {
                stale = stale + 1;
            }
        }
        i = i + 1;
    }
    assert(tips@.take(tips.len() as int) =~= tips@);
    (total, stale)
}

/// What the working tree status reports of one file.
#[derive(Debug, Clone, Copy, PartialEq, Eq, Structural)]
pub struct FileStatus {
    /// Modified, deleted, renamed or retyped in the working tree.
    pub worktree_changed: bool,
    /// Added, modified, deleted, renamed or retyped in the index.
    pub index_changed: bool,
    /// New in the working tree and not tracked.
    pub untracked: bool,
}

/// `(dirty, staged, untracked)`: whether any file has each kind of change.
pub fn working_tree_flags(files: &Vec<FileStatus>) -> (r: (bool, bool, bool))
    ensures
        r.0 == exists|i: int| 0 <= i < files@.len() && (#[trigger] files@[i]).worktree_changed,
        r.1 == exists|i: int| 0 <= i < files@.len() && (#[trigger] files@[i]).index_changed,
        r.2 == exists|i: int| 0 <= i < files@.len() && (#[trigger] files@[i]).untracked,
{
    let mut dirty = false;
    let mut staged = false;
    let mut untracked = false;
    let mut i: usize = 0;
    while i < files.len()
        invariant
            i <= files.len(),
            dirty == exists|j: int| 0 <= j < i && (#[trigger] files@[j]).worktree_changed,
            staged == exists|j: int| 0 <= j < i && (#[trigger] files@[j]).index_changed,
            untracked == exists|j: int| 0 <= j < i && (#[trigger] files@[j]).untracked,
        decreases files.len() - i,
    {
        let f = files[i];
        if f.worktree_changed {
            dirty = true;
        }
        if f.index_changed {
            staged = true;
        }
        if f.untracked {
            untracked = true;
        }
        i = i + 1;
    }
    (dirty, staged, untracked)
}

/// The branch names tried, in order, when `HEAD` names none.
pub open spec fn fallback_branch(i: int) -> Seq<char> {
    if i == 0 {
        "main"@
    } else if i == 1 {
        "master"@
    } else if i == 2 {
        "develop"@
    } else {
        "trunk"@
    }
}

/// The `i`-th fallback branch name.
pub fn fallback_branch_name(i: usize) -> (r: &'static str)
    requires
        i < 4,
    ensures
        r@ == fallback_branch(i as int),
{
    if i == 0 {
        "main"
    } else if i == 1 {
        "master"
    } else if i == 2 {
        "develop"
    } else {
        "trunk"
    }
}

/// The default branch: the one `HEAD` names, else the first fallback name
/// (`main`, `master`, `develop`, `trunk`) that exists as a local branch.
pub fn pick_default_branch(head: Option<String>, exists: &[bool; 4]) -> (r: Option<String>)
    ensures
        head is Some ==> r == head,
        head is None ==> match r {
            Some(b) => exists|i: int|
                0 <= i < 4 && exists@[i] && b@ == fallback_branch(i) && forall|j: int|
                    0 <= j < i ==> !exists@[j],
            None => forall|i: int| 0 <= i < 4 ==> !exists@[i],
        },
{
    if head.is_some() {
        return head;
    }
    let mut i: usize = 0;
    while i < 4
        invariant
            i <= 4,
            head is None,
            forall|j: int| 0 <= j < i ==> !exists@[j],
        decreases 4 - i,
    {
        if exists[i] {
            return Some(String::from_str(fallback_branch_name(i)));
        }
        i = i + 1;
    }
    None
}

} // verus!
