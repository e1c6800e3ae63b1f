//! A declarative, AND-combined predicate over catalogue entries.

use vstd::prelude::*;

use crate::git_ops::{parse_remote_org, remote_parts};
use crate::repo::{Freshness, Ownership, Remote, Repo, RepoState};
use crate::text::{
    chars_contain, chars_of, chars_range, chars_start_with, contains_seq, eq_ic, eq_ignore_case,
    has_prefix, lower_of, string_of, to_lower,
};

verus! {

/// Filters over entries; every field that is set must hold, and an empty
/// filter matches every entry.
#[derive(Debug)]
pub struct RepoFilter {
    pub dirty: Option<bool>,
    pub unpushed: Option<bool>,
    pub orphan: Option<bool>,
    pub org: Option<String>,
    pub freshness: Option<Freshness>,
    pub ownership: Option<String>,
    pub intention: Option<String>,
    pub category: Option<String>,
    pub tags: Option<Vec<String>>,
    pub path_prefix: Option<String>,
    pub has_remote: Option<bool>,
    pub name_contains: Option<String>,
    pub state: Option<RepoState>,
    pub managed_by: Option<String>,
    /// Only managed entries when `true`, only unmanaged ones when `false`.
    pub show_managed: Option<bool>,
}

impl Default for RepoFilter {
    fn default() -> (r: RepoFilter)
        ensures
            r.is_empty_spec(),
    {
        RepoFilter {
            dirty: None,
            unpushed: None,
            orphan: None,
            org: None,
            freshness: None,
            ownership: None,
            intention: None,
            category: None,
            tags: None,
            path_prefix: None,
            has_remote: None,
            name_contains: None,
            state: None,
            managed_by: None,
            show_managed: None,
        }
    }
}

/// `url` parses to an org equal to `org`, ASCII case folded.
pub open spec fn url_has_org(url: Seq<char>, org: Seq<char>) -> bool {
    match remote_parts(url) {
        Some(p) => eq_ic(p.1, org),
        None => false,
    }
}

/// Some remote's URL parses to an org equal to `org`, ASCII case folded.
pub open spec fn has_org(remotes: Seq<Remote>, org: Seq<char>) -> bool {
    exists|i: int| 0 <= i < remotes.len() && url_has_org(#[trigger] remotes[i].url@, org)
}

/// `o` satisfies the ownership filter `f`: `work` matches every work label,
/// `work:<label>` only that label; comparisons fold ASCII case.
pub open spec fn ownership_matches(o: Option<Ownership>, f: Seq<char>) -> bool {
    match o {
        None => false,
        Some(Ownership::Personal) => eq_ic(f, "personal"@),
        Some(Ownership::Work { label }) => if has_prefix(f, "work:"@) {
            eq_ic(label@, f.skip("work:"@.len() as int))
        } else {
            eq_ic(f, "work"@)
        },
        Some(Ownership::Community) => eq_ic(f, "community"@),
        Some(Ownership::ThirdParty) => eq_ic(f, "third-party"@) || eq_ic(f, "thirdparty"@),
        Some(Ownership::Local) => eq_ic(f, "local"@),
    }
}

/// `tags` holds `t`, ASCII case folded.
pub open spec fn has_tag(tags: Seq<String>, t: Seq<char>) -> bool {
    exists|i: int| 0 <= i < tags.len() && eq_ic(#[trigger] tags[i]@, t)
}

impl RepoFilter {
    /// No field is set.
    pub open spec fn is_empty_spec(self) -> bool {
        &&& self.dirty is None
        &&& self.unpushed is None
        &&& self.orphan is None
        &&& self.org is None
        &&& self.freshness is None
        &&& self.ownership is None
        &&& self.intention is None
        &&& self.category is None
        &&& self.tags is None
        &&& self.path_prefix is None
        &&& self.has_remote is None
        &&& self.name_contains is None
        &&& self.state is None
        &&& self.managed_by is None
        &&& self.show_managed is None
    }

    /// Every set field holds of `repo`.
    pub open spec fn spec_matches(self, repo: Repo) -> bool {
        &&& (self.dirty matches Some(d) ==> repo.dirty == d)
        &&& (self.unpushed == Some(true) ==> repo.ahead != 0)
        &&& (self.orphan == Some(true) ==> repo.remotes@.len() == 0)
        &&& (self.freshness matches Some(f) ==> repo.freshness == f)
        &&& (self.path_prefix matches Some(p) ==> has_prefix(repo.path@, p@))
        &&& (self.has_remote matches Some(h) ==> (repo.remotes@.len() > 0) == h)
        &&& (self.name_contains matches Some(n) ==> contains_seq(lower_of(repo.name@), lower_of(n@)))
        &&& (self.state matches Some(s) ==> repo.state == s)
        &&& (self.org matches Some(o) ==> has_org(repo.remotes@, o@))
        &&& (self.ownership matches Some(o) ==> ownership_matches(repo.ownership, o@))
        &&& (self.intention matches Some(i) ==> repo.intention matches Some(v) && eq_ic(
            v.spec_name(),
            i@,
        ))
        &&& (self.category matches Some(c) ==> repo.category matches Some(v) && eq_ic(
            v.spec_name(),
            c@,
        ))
        &&& (self.tags matches Some(ts) ==> forall|k: int|
            0 <= k < ts@.len() ==> has_tag(repo.tags@, #[trigger] ts@[k]@))
        &&& (self.managed_by matches Some(m) ==> repo.managed_by matches Some(rm) && eq_ic(
            rm@,
            m@,
        ))
        &&& (self.show_managed matches Some(s) ==> s == repo.managed_by is Some)
    }

    /// Whether `repo` satisfies every field that is set.
    pub fn matches(&self, repo: &Repo) -> (r: bool)
        ensures
            r == self.spec_matches(*repo),
    {
        if let Some(dirty) = self.dirty {
            if repo.dirty != dirty {
                return false;
            }
        }
        if let Some(true) = self.unpushed {
            if repo.ahead == 0 {
                return false;
            }
        }
        if let Some(true) = self.orphan {
            if repo.remotes.len() != 0 {
                return false;
            }
        }
        if let Some(freshness) = self.freshness {
            if repo.freshness != freshness {
                return false;
            }
        }
        if let Some(prefix) = &self.path_prefix {
            if !chars_start_with(&chars_of(&repo.path), &chars_of(prefix)) {
                return false;
            }
        }
        if let Some(has_remote) = self.has_remote {
            if (repo.remotes.len() > 0) != has_remote {
                return false;
            }
        }
        if let Some(name) = &self.name_contains {
            let haystack = to_lower(&repo.name);
            let needle = to_lower(name);
            if !chars_contain(&chars_of(&haystack), &chars_of(&needle)) {
                return false;
            }
        }
        if let Some(state) = self.state {
            if repo.state != state {
                return false;
            }
        }
        if let Some(org) = &self.org {
            if !repo_matches_org(&repo.remotes, org) {
                return false;
            }
        }
        if let Some(ownership) = &self.ownership {
            if !repo_matches_ownership(&repo.ownership, ownership) {
                return false;
            }
        }
        if let Some(intention) = &self.intention {
            match repo.intention {
                None => {
                    return false;
                },
                Some(v) => {
                    if !eq_ignore_case(v.name(), intention) {
                        return false;
                    }
                },
            }
        }
        if let Some(category) = &self.category {
            match repo.category {
                None => {
                    return false;
                },
                Some(v) => {
                    if !eq_ignore_case(v.name(), category) {
                        return false;
                    }
                },
            }
        }
        if let Some(tags) = &self.tags {
            if !contains_all_tags(&repo.tags, tags) {
                return false;
            }
        }
        if let Some(mb) = &self.managed_by {
            match &repo.managed_by {
                None => {
                    return false;
                },
                Some(rmb) => {
                    if !eq_ignore_case(rmb, mb) {
                        return false;
                    }
                },
            }
        }
        if let Some(show) = self.show_managed {
            if show != repo.managed_by.is_some() {
                return false;
            }
        }
        true
    }

    /// Whether no field is set.
    pub fn is_empty(&self) -> (r: bool)
        ensures
            r == self.is_empty_spec(),
    {
        self.dirty.is_none() && self.unpushed.is_none() && self.orphan.is_none()
            && self.org.is_none() && self.freshness.is_none() && self.ownership.is_none()
            && self.intention.is_none() && self.category.is_none() && self.tags.is_none()
            && self.path_prefix.is_none() && self.has_remote.is_none()
            && self.name_contains.is_none() && self.state.is_none() && self.managed_by.is_none()
            && self.show_managed.is_none()
    }
}

/// Whether `tags` holds every tag of `wanted`, ASCII case folded.
pub fn contains_all_tags(tags: &Vec<String>, wanted: &Vec<String>) -> (r: bool)
    ensures
        r == forall|k: int| 0 <= k < wanted@.len() ==> has_tag(tags@, #[trigger] wanted@[k]@),
{
    let mut k: usize = 0;
    while k < wanted.len()
        invariant
            k <= wanted.len(),
            forall|j: int| 0 <= j < k ==> has_tag(tags@, #[trigger] wanted@[j]@),
        decreases wanted.len() - k,
    {
        if !contains_tag(tags, &wanted[k]) {
            assert(!has_tag(tags@, wanted@[k as int]@));
            return false;
        }
        k = k + 1;
    }
    true
}

/// Whether `tags` holds `t`, ASCII case folded.
pub fn contains_tag(tags: &Vec<String>, t: &str) -> (r: bool)
    ensures
        r == has_tag(tags@, t@),
{
    let mut i: usize = 0;
    while i < tags.len()
        invariant
            i <= tags.len(),
            forall|j: int| 0 <= j < i ==> !eq_ic(#[trigger] tags@[j]@, t@),
        decreases tags.len() - i,
    {
        if eq_ignore_case(&tags[i], t) {
            return true;
        }
        i = i + 1;
    }
    false
}

/// Whether some remote's URL parses to the org `org`, ASCII case folded.
pub fn repo_matches_org(remotes: &Vec<Remote>, org: &str) -> (r: bool)
    ensures
        r == has_org(remotes@, org@),
{
    let mut i: usize = 0;
    while i < remotes.len()
        invariant
            i <= remotes.len(),
            forall|j: int|
                0 <= j < i ==> !url_has_org(#[trigger] remotes@[j].url@, org@),
        decreases remotes.len() - i,
    {
        if let Some(info) = parse_remote_org(&remotes[i].url) {
            if eq_ignore_case(&info.org, org) {
                return true;
            }
        }
        i = i + 1;
    }
    false
}

/// Whether `ownership` satisfies the filter string `filter`.
pub fn repo_matches_ownership(ownership: &Option<Ownership>, filter: &str) -> (r: bool)
    ensures
        r == ownership_matches(*ownership, filter@),
{
    match ownership {
        None => false,
        Some(Ownership::Personal) => eq_ignore_case(filter, "personal"),
        Some(Ownership::Work { label }) => {
            let f = chars_of(filter);
            let work = chars_of("work:");
            if chars_start_with(&f, &work) {
                let rest = chars_range(&f, work.len(), f.len());
                assert(rest@ =~= filter@.skip("work:"@.len() as int));
                eq_ignore_case(label, &string_of(rest.as_slice()))
            } else {
                eq_ignore_case(filter, "work")
            }
        },
        Some(Ownership::Community) => eq_ignore_case(filter, "community"),
        Some(Ownership::ThirdParty) => eq_ignore_case(filter, "third-party") || eq_ignore_case(
            filter,
            "thirdparty",
        ),
        Some(Ownership::Local) => eq_ignore_case(filter, "local"),
    }
}

} // verus!
