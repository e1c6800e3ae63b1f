//! The catalogue entry and its closed variant sets.

use vstd::prelude::*;

use crate::text::{copy_opt_string, str_eq};

verus! {

/// Identifier of an entry in the index.
pub type RepoId = i64;

/// Seconds in one day.
pub const SECONDS_PER_DAY: i128 = 86400;

/// A catalogued repository with its extracted vitals. Times are seconds since
/// the Unix epoch, in UTC.
#[derive(Debug)]
pub struct Repo {
    pub id: RepoId,
    pub name: String,
    pub path: String,
    pub state: RepoState,
    pub remotes: Vec<Remote>,
    pub default_branch: Option<String>,
    pub current_branch: Option<String>,
    pub branch_count: u32,
    pub stale_branch_count: u32,
    pub dirty: bool,
    pub staged: bool,
    pub untracked: bool,
    pub ahead: u32,
    pub behind: u32,
    pub last_commit: Option<i64>,
    pub last_verified: Option<i64>,
    pub first_seen: i64,
    pub freshness: Freshness,
    pub category: Option<Category>,
    pub ownership: Option<Ownership>,
    pub intention: Option<Intention>,
    pub managed_by: Option<String>,
    pub tags: Vec<String>,
    pub project: Option<String>,
    pub role: Option<String>,
    /// The repository has no working tree.
    pub is_bare: bool,
}

/// Lifecycle state of an entry.
#[derive(Debug, Clone, Copy, PartialEq, Eq, Structural)]
pub enum RepoState {
    Active,
    Lost,
    Timeout,
}

/// A configured remote of a repository.
#[derive(Debug)]
pub struct Remote {
    pub name: String,
    pub url: String,
    pub push_url: Option<String>,
}

/// Freshness tiers, ordered from most to least recently committed.
#[derive(Debug, Clone, Copy, PartialEq, Eq, Structural, PartialOrd, Ord)]
pub enum Freshness {
    Active,
    Recent,
    Stale,
    Dormant,
    Ancient,
}

/// How a repository came to be here.
#[derive(Debug, Clone, Copy, PartialEq, Eq, Structural)]
pub enum Category {
    Origin,
    Clone,
    Fork,
    Mirror,
}

/// Who owns a repository; only `Work` carries a label.
#[derive(Debug, PartialEq, Eq)]
pub enum Ownership {
    Personal,
    Work { label: String },
    Community,
    ThirdParty,
    Local,
}

/// What the repository is kept for.
#[derive(Debug, Clone, Copy, PartialEq, Eq, Structural)]
pub enum Intention {
    Developing,
    Contributing,
    Reference,
    Dependency,
    Dotfiles,
    Infrastructure,
    Experiment,
    Archived,
}

/// Git-extracted data of one repository, before classification.
#[derive(Debug)]
pub struct RepoVitals {
    pub name: String,
    pub remotes: Vec<Remote>,
    pub default_branch: Option<String>,
    pub current_branch: Option<String>,
    pub branch_count: u32,
    pub stale_branch_count: u32,
    pub dirty: bool,
    pub staged: bool,
    pub untracked: bool,
    pub ahead: u32,
    pub behind: u32,
    pub last_commit: Option<i64>,
    pub is_bare: bool,
}

/// A remote URL taken apart.
#[derive(Debug)]
pub struct RemoteInfo {
    pub platform: String,
    pub org: String,
    pub repo_name: String,
}

/// Whole days from `ts` to `now`, rounded toward zero.
pub open spec fn age_in_days(now: i64, ts: i64) -> int {
    let d = now - ts;
    if d >= 0 {
        d / 86400
    } else {
        -((-d) / 86400)
    }
}

/// The tier of a commit that is `days` old.
pub open spec fn tier_for_days(days: int) -> Freshness {
    if 0 <= days <= 7 {
        Freshness::Active
    } else if 8 <= days <= 30 {
        Freshness::Recent
    } else if 31 <= days <= 90 {
        Freshness::Stale
    } else if 91 <= days <= 365 {
        Freshness::Dormant
    } else {
        Freshness::Ancient
    }
}

/// The tier of an entry whose last commit is `last_commit`, seen at `now`.
pub open spec fn freshness_at(last_commit: Option<i64>, now: i64) -> Freshness {
    match last_commit {
        None => Freshness::Ancient,
        Some(ts) => tier_for_days(age_in_days(now, ts)),
    }
}

/// The current time in seconds since the Unix epoch.
///
/// Relies on chrono's `Utc::now` and `DateTime::timestamp`; nothing is
/// promised of the value, which is the machine's clock.
#[verifier::external_body]
pub(crate) fn now_timestamp() -> (r: i64) {
    chrono::Utc::now().timestamp()
}

impl Freshness {
    /// The tier of a commit made at `last_commit`, as seen at `now`.
    pub fn at(last_commit: Option<i64>, now: i64) -> (r: Freshness)
        ensures
            r == freshness_at(last_commit, now),
    {
        match last_commit {
            None => Freshness::Ancient,
            Some(ts) => {
                let d: i128 = now as i128 - ts as i128;
                let days: i128 = if d >= 0 {
                    d / SECONDS_PER_DAY
                } else {
                    -((-d) / SECONDS_PER_DAY)
                };
                if 0 <= days && days <= 7 {
                    Freshness::Active
                } else if 8 <= days && days <= 30 {
                    Freshness::Recent
                } else if 31 <= days && days <= 90 {
                    Freshness::Stale
                } else if 91 <= days && days <= 365 {
                    Freshness::Dormant
                } else {
                    Freshness::Ancient
                }
            },
        }
    }

    /// The tier of a commit made at `last_commit`, as seen now.
    pub fn from_commit_time(last_commit: Option<i64>) -> (r: Freshness)
        ensures
            last_commit is None ==> r == Freshness::Ancient,
            exists|now: i64| r == freshness_at(last_commit, now),
    {
        let now = now_timestamp();
        Freshness::at(last_commit, now)
    }
}


impl RepoState {
    /// The name under which a state is stored and written in rules.
    pub open spec fn spec_name(self) -> Seq<char> {
        match self {
            RepoState::Active => "active"@,
            RepoState::Lost => "lost"@,
            RepoState::Timeout => "timeout"@,
        }
    }

    /// The state whose name is `s`, if any.
    pub open spec fn spec_from_name(s: Seq<char>) -> Option<RepoState> {
        if s == "active"@ {
            Some(RepoState::Active)
        } else if s == "lost"@ {
            Some(RepoState::Lost)
        } else if s == "timeout"@ {
            Some(RepoState::Timeout)
        } else {
            None
        }
    }

    /// The stored name of this value.
    pub fn name(&self) -> (r: &'static str)
        ensures
            r@ == self.spec_name(),
    {
        match self {
            RepoState::Active => "active",
            RepoState::Lost => "lost",
            RepoState::Timeout => "timeout",
        }
    }

    /// The value whose stored name is `s`, if any.
    pub fn from_name(s: &str) -> (r: Option<RepoState>)
        ensures
            r == RepoState::spec_from_name(s@),
    {
        if str_eq(s, "active") {
            Some(RepoState::Active)
        } else if str_eq(s, "lost") {
            Some(RepoState::Lost)
        } else if str_eq(s, "timeout") {
            Some(RepoState::Timeout)
        } else {
            None
        }
    }

    /// Every state reads back from its name.
    pub proof fn lemma_name_round_trip(self)
        ensures
            RepoState::spec_from_name(self.spec_name()) == Some(self),
    {
        reveal_strlit("active");
        reveal_strlit("lost");
        reveal_strlit("timeout");
        match self {
            RepoState::Active => {
            },
            RepoState::Lost => {
                assert("lost"@.len() != "active"@.len());
            },
            RepoState::Timeout => {
                assert("timeout"@.len() != "active"@.len());
                assert("timeout"@.len() != "lost"@.len());
            },
        }
    }
}

impl Freshness {
    /// The name under which a tier is stored and shown.
    pub open spec fn spec_label(self) -> Seq<char> {
        match self {
            Freshness::Active => "active"@,
            Freshness::Recent => "recent"@,
            Freshness::Stale => "stale"@,
            Freshness::Dormant => "dormant"@,
            Freshness::Ancient => "ancient"@,
        }
    }

    /// The tier whose name is `s`, if any.
    pub open spec fn spec_from_label(s: Seq<char>) -> Option<Freshness> {
        if s == "active"@ {
            Some(Freshness::Active)
        } else if s == "recent"@ {
            Some(Freshness::Recent)
        } else if s == "stale"@ {
            Some(Freshness::Stale)
        } else if s == "dormant"@ {
            Some(Freshness::Dormant)
        } else if s == "ancient"@ {
            Some(Freshness::Ancient)
        } else {
            None
        }
    }

    /// The stored name of this tier.
    pub fn label(&self) -> (r: &'static str)
        ensures
            r@ == self.spec_label(),
    {
        match self {
            Freshness::Active => "active",
            Freshness::Recent => "recent",
            Freshness::Stale => "stale",
            Freshness::Dormant => "dormant",
            Freshness::Ancient => "ancient",
        }
    }

    /// The tier whose stored name is `s`, if any.
    pub fn from_label(s: &str) -> (r: Option<Freshness>)
        ensures
            r == Freshness::spec_from_label(s@),
    {
        if str_eq(s, "active") {
            Some(Freshness::Active)
        } else if str_eq(s, "recent") {
            Some(Freshness::Recent)
        } else if str_eq(s, "stale") {
            Some(Freshness::Stale)
        } else if str_eq(s, "dormant") {
            Some(Freshness::Dormant)
        } else if str_eq(s, "ancient") {
            Some(Freshness::Ancient)
        } else {
            None
        }
    }

    /// Every tier reads back from its name.
    pub proof fn lemma_label_round_trip(self)
        ensures
            Freshness::spec_from_label(self.spec_label()) == Some(self),
    {
        reveal_strlit("active");
        reveal_strlit("recent");
        reveal_strlit("stale");
        reveal_strlit("dormant");
        reveal_strlit("ancient");
        match self {
            Freshness::Active => {
            },
            Freshness::Recent => {
                assert("recent"@[0] != "active"@[0]);
            },
            Freshness::Stale => {
                assert("stale"@.len() != "active"@.len());
                assert("stale"@.len() != "recent"@.len());
            },
            Freshness::Dormant => {
                assert("dormant"@.len() != "active"@.len());
                assert("dormant"@.len() != "recent"@.len());
                assert("dormant"@.len() != "stale"@.len());
            },
            Freshness::Ancient => {
                assert("ancient"@.len() != "active"@.len());
                assert("ancient"@.len() != "recent"@.len());
                assert("ancient"@.len() != "stale"@.len());
                assert("ancient"@[0] != "dormant"@[0]);
            },
        }
    }
}

impl Category {
    /// The name under which a category is stored and written in rules.
    pub open spec fn spec_name(self) -> Seq<char> {
        match self {
            Category::Origin => "origin"@,
            Category::Clone => "clone"@,
            Category::Fork => "fork"@,
            Category::Mirror => "mirror"@,
        }
    }

    /// The category whose name is `s`, if any.
    pub open spec fn spec_from_name(s: Seq<char>) -> Option<Category> {
        if s == "origin"@ {
            Some(Category::Origin)
        } else if s == "clone"@ {
            Some(Category::Clone)
        } else if s == "fork"@ {
            Some(Category::Fork)
        } else if s == "mirror"@ {
            Some(Category::Mirror)
        } else {
            None
        }
    }

    /// The stored name of this value.
    pub fn name(&self) -> (r: &'static str)
        ensures
            r@ == self.spec_name(),
    {
        match self {
            Category::Origin => "origin",
            Category::Clone => "clone",
            Category::Fork => "fork",
            Category::Mirror => "mirror",
        }
    }

    /// The value whose stored name is `s`, if any.
    pub fn from_name(s: &str) -> (r: Option<Category>)
        ensures
            r == Category::spec_from_name(s@),
    {
        if str_eq(s, "origin") {
            Some(Category::Origin)
        } else if str_eq(s, "clone") {
            Some(Category::Clone)
        } else if str_eq(s, "fork") {
            Some(Category::Fork)
        } else if str_eq(s, "mirror") {
            Some(Category::Mirror)
        } else {
            None
        }
    }

    /// Every category reads back from its name.
    pub proof fn lemma_name_round_trip(self)
        ensures
            Category::spec_from_name(self.spec_name()) == Some(self),
    {
        reveal_strlit("origin");
        reveal_strlit("clone");
        reveal_strlit("fork");
        reveal_strlit("mirror");
        match self {
            Category::Origin => {
            },
            Category::Clone => {
                assert("clone"@.len() != "origin"@.len());
            },
            Category::Fork => {
                assert("fork"@.len() != "origin"@.len());
                assert("fork"@.len() != "clone"@.len());
            },
            Category::Mirror => {
                assert("mirror"@[0] != "origin"@[0]);
                assert("mirror"@.len() != "clone"@.len());
                assert("mirror"@.len() != "fork"@.len());
            },
        }
    }
}

impl Intention {
    /// The name under which an intention is stored and written in rules.
    pub open spec fn spec_name(self) -> Seq<char> {
        match self {
            Intention::Developing => "developing"@,
            Intention::Contributing => "contributing"@,
            Intention::Reference => "reference"@,
            Intention::Dependency => "dependency"@,
            Intention::Dotfiles => "dotfiles"@,
            Intention::Infrastructure => "infrastructure"@,
            Intention::Experiment => "experiment"@,
            Intention::Archived => "archived"@,
        }
    }

    /// The intention whose name is `s`, if any.
    pub open spec fn spec_from_name(s: Seq<char>) -> Option<Intention> {
        if s == "developing"@ {
            Some(Intention::Developing)
        } else if s == "contributing"@ {
            Some(Intention::Contributing)
        } else if s == "reference"@ {
            Some(Intention::Reference)
        } else if s == "dependency"@ {
            Some(Intention::Dependency)
        } else if s == "dotfiles"@ {
            Some(Intention::Dotfiles)
        } else if s == "infrastructure"@ {
            Some(Intention::Infrastructure)
        } else if s == "experiment"@ {
            Some(Intention::Experiment)
        } else if s == "archived"@ {
            Some(Intention::Archived)
        } else {
            None
        }
    }

    /// The stored name of this value.
    pub fn name(&self) -> (r: &'static str)
        ensures
            r@ == self.spec_name(),
    {
        match self {
            Intention::Developing => "developing",
            Intention::Contributing => "contributing",
            Intention::Reference => "reference",
            Intention::Dependency => "dependency",
            Intention::Dotfiles => "dotfiles",
            Intention::Infrastructure => "infrastructure",
            Intention::Experiment => "experiment",
            Intention::Archived => "archived",
        }
    }

    /// The value whose stored name is `s`, if any.
    pub fn from_name(s: &str) -> (r: Option<Intention>)
        ensures
            r == Intention::spec_from_name(s@),
    {
        if str_eq(s, "developing") {
            Some(Intention::Developing)
        } else if str_eq(s, "contributing") {
            Some(Intention::Contributing)
        } else if str_eq(s, "reference") {
            Some(Intention::Reference)
        } else if str_eq(s, "dependency") {
            Some(Intention::Dependency)
        } else if str_eq(s, "dotfiles") {
            Some(Intention::Dotfiles)
        } else if str_eq(s, "infrastructure") {
            Some(Intention::Infrastructure)
        } else if str_eq(s, "experiment") {
            Some(Intention::Experiment)
        } else if str_eq(s, "archived") {
            Some(Intention::Archived)
        } else {
            None
        }
    }

    /// Every intention reads back from its name.
    pub proof fn lemma_name_round_trip(self)
        ensures
            Intention::spec_from_name(self.spec_name()) == Some(self),
    {
        reveal_strlit("developing");
        reveal_strlit("contributing");
        reveal_strlit("reference");
        reveal_strlit("dependency");
        reveal_strlit("dotfiles");
        reveal_strlit("infrastructure");
        reveal_strlit("experiment");
        reveal_strlit("archived");
        match self {
            Intention::Developing => {
            },
            Intention::Contributing => {
                assert("contributing"@.len() != "developing"@.len());
            },
            Intention::Reference => {
                assert("reference"@.len() != "developing"@.len());
                assert("reference"@.len() != "contributing"@.len());
            },
            Intention::Dependency => {
                assert("dependency"@[2] != "developing"@[2]);
                assert("dependency"@.len() != "contributing"@.len());
                assert("dependency"@.len() != "reference"@.len());
            },
            Intention::Dotfiles => {
                assert("dotfiles"@.len() != "developing"@.len());
                assert("dotfiles"@.len() != "contributing"@.len());
                assert("dotfiles"@.len() != "reference"@.len());
                assert("dotfiles"@.len() != "dependency"@.len());
            },
            Intention::Infrastructure => {
                assert("infrastructure"@.len() != "developing"@.len());
                assert("infrastructure"@.len() != "contributing"@.len());
                assert("infrastructure"@.len() != "reference"@.len());
                assert("infrastructure"@.len() != "dependency"@.len());
                assert("infrastructure"@.len() != "dotfiles"@.len());
            },
            Intention::Experiment => {
                assert("experiment"@[0] != "developing"@[0]);
                assert("experiment"@.len() != "contributing"@.len());
                assert("experiment"@.len() != "reference"@.len());
                assert("experiment"@[0] != "dependency"@[0]);
                assert("experiment"@.len() != "dotfiles"@.len());
                assert("experiment"@.len() != "infrastructure"@.len());
            },
            Intention::Archived => {
                assert("archived"@.len() != "developing"@.len());
                assert("archived"@.len() != "contributing"@.len());
                assert("archived"@.len() != "reference"@.len());
                assert("archived"@.len() != "dependency"@.len());
                assert("archived"@[0] != "dotfiles"@[0]);
                assert("archived"@.len() != "infrastructure"@.len());
                assert("archived"@.len() != "experiment"@.len());
            },
        }
    }
}


/// `a` and `b` hold the same entry, field by field.
pub open spec fn same_entry(a: Repo, b: Repo) -> bool {
    &&& a.id == b.id
    &&& a.name == b.name
    &&& a.path == b.path
    &&& a.state == b.state
    &&& a.remotes@ == b.remotes@
    &&& a.default_branch == b.default_branch
    &&& a.current_branch == b.current_branch
    &&& a.branch_count == b.branch_count
    &&& a.stale_branch_count == b.stale_branch_count
    &&& a.dirty == b.dirty
    &&& a.staged == b.staged
    &&& a.untracked == b.untracked
    &&& a.ahead == b.ahead
    &&& a.behind == b.behind
    &&& a.last_commit == b.last_commit
    &&& a.last_verified == b.last_verified
    &&& a.first_seen == b.first_seen
    &&& a.freshness == b.freshness
    &&& a.category == b.category
    &&& a.ownership == b.ownership
    &&& a.intention == b.intention
    &&& a.managed_by == b.managed_by
    &&& a.tags@ == b.tags@
    &&& a.project == b.project
    &&& a.role == b.role
    &&& a.is_bare == b.is_bare
}

impl Remote {
    /// A field-by-field copy.
    pub fn duplicate(&self) -> (r: Remote)
        ensures
            r == *self,
    {
        Remote { name: self.name.clone(), url: self.url.clone(), push_url: copy_opt_string(&self.push_url) }
    }
}

impl Ownership {
    /// A field-by-field copy.
    pub fn duplicate(&self) -> (r: Ownership)
        ensures
            r == *self,
    {
        match self {
            Ownership::Personal => Ownership::Personal,
            Ownership::Work { label } => Ownership::Work { label: label.clone() },
            Ownership::Community => Ownership::Community,
            Ownership::ThirdParty => Ownership::ThirdParty,
            Ownership::Local => Ownership::Local,
        }
    }
}

/// A copy of a list of remotes.
pub fn copy_remotes(v: &Vec<Remote>) -> (r: Vec<Remote>)
    ensures
        r@ == v@,
{
    let mut out: Vec<Remote> = Vec::new();
    let mut i: usize = 0;
    while i < v.len()
        invariant
            i <= v.len(),
            out@ == v@.take(i as int),
        decreases v.len() - i,
    {
        out.push(v[i].duplicate());
        i = i + 1;
        assert(out@ =~= v@.take(i as int));
    }
    assert(v@.take(v.len() as int) =~= v@);
    out
}

/// A copy of a list of strings.
pub fn copy_strings(v: &Vec<String>) -> (r: Vec<String>)
    ensures
        r@ == v@,
{
    let mut out: Vec<String> = Vec::new();
    let mut i: usize = 0;
    while i < v.len()
        invariant
            i <= v.len(),
            out@ == v@.take(i as int),
        decreases v.len() - i,
    {
        out.push(v[i].clone());
        i = i + 1;
        assert(out@ =~= v@.take(i as int));
    }
    assert(v@.take(v.len() as int) =~= v@);
    out
}

/// A copy of an optional ownership.
pub fn copy_ownership(o: &Option<Ownership>) -> (r: Option<Ownership>)
    ensures
        r == *o,
{
    match o {
        Some(x) => Some(x.duplicate()),
        None => None,
    }
}

/// The entry built from freshly extracted vitals, seen at `now`.
pub open spec fn from_vitals_spec(vitals: RepoVitals, path: Seq<char>, now: i64, r: Repo) -> bool {
    &&& r.id == 0
    &&& r.name == vitals.name
    &&& r.path@ == path
    &&& r.state == RepoState::Active
    &&& r.remotes@ == vitals.remotes@
    &&& r.default_branch == vitals.default_branch
    &&& r.current_branch == vitals.current_branch
    &&& r.branch_count == vitals.branch_count
    &&& r.stale_branch_count == vitals.stale_branch_count
    &&& r.dirty == vitals.dirty
    &&& r.staged == vitals.staged
    &&& r.untracked == vitals.untracked
    &&& r.ahead == vitals.ahead
    &&& r.behind == vitals.behind
    &&& r.last_commit == vitals.last_commit
    &&& r.last_verified == Some(now)
    &&& r.first_seen == now
    &&& r.freshness == freshness_at(vitals.last_commit, now)
    &&& r.category is None
    &&& r.ownership is None
    &&& r.intention is None
    &&& r.managed_by is None
    &&& r.tags@.len() == 0
    &&& r.project is None
    &&& r.role is None
    &&& r.is_bare == vitals.is_bare
}

impl Repo {
    /// A field-by-field copy.
    pub fn duplicate(&self) -> (r: Repo)
        ensures
            same_entry(r, *self),
    {
        Repo {
            id: self.id,
            name: self.name.clone(),
            path: self.path.clone(),
            state: self.state,
            remotes: copy_remotes(&self.remotes),
            default_branch: copy_opt_string(&self.default_branch),
            current_branch: copy_opt_string(&self.current_branch),
            branch_count: self.branch_count,
            stale_branch_count: self.stale_branch_count,
            dirty: self.dirty,
            staged: self.staged,
            untracked: self.untracked,
            ahead: self.ahead,
            behind: self.behind,
            last_commit: self.last_commit,
            last_verified: self.last_verified,
            first_seen: self.first_seen,
            freshness: self.freshness,
            category: self.category,
            ownership: copy_ownership(&self.ownership),
            intention: self.intention,
            managed_by: copy_opt_string(&self.managed_by),
            tags: copy_strings(&self.tags),
            project: copy_opt_string(&self.project),
            role: copy_opt_string(&self.role),
            is_bare: self.is_bare,
        }
    }

    /// A new, unclassified entry for the repository at `path`, seen at `now`.
    pub fn from_vitals_at(vitals: RepoVitals, path: String, now: i64) -> (r: Repo)
        ensures
            from_vitals_spec(vitals, path@, now, r),
    {
        let freshness = Freshness::at(vitals.last_commit, now);
        Repo {
            id: 0,
            name: vitals.name,
            path,
            state: RepoState::Active,
            remotes: vitals.remotes,
            default_branch: vitals.default_branch,
            current_branch: vitals.current_branch,
            branch_count: vitals.branch_count,
            stale_branch_count: vitals.stale_branch_count,
            dirty: vitals.dirty,
            staged: vitals.staged,
            untracked: vitals.untracked,
            ahead: vitals.ahead,
            behind: vitals.behind,
            last_commit: vitals.last_commit,
            last_verified: Some(now),
            first_seen: now,
            freshness,
            category: None,
            ownership: None,
            intention: None,
            managed_by: None,
            tags: Vec::new(),
            project: None,
            role: None,
            is_bare: vitals.is_bare,
        }
    }

    /// A new, unclassified entry for the repository at `path`, seen now.
    pub fn from_vitals(vitals: RepoVitals, path: String) -> (r: Repo)
        ensures
            exists|now: i64| from_vitals_spec(vitals, path@, now, r),
    {
        let now = now_timestamp();
        Repo::from_vitals_at(vitals, path, now)
    }
}


/// `r` is a work ownership with the stored label, empty when none was stored.
pub open spec fn stored_work(r: Option<Ownership>, label: Option<String>) -> bool {
    match r {
        Some(Ownership::Work { label: l }) => match label {
            Some(s) => l == s,
            None => l@.len() == 0,
        },
        _ => false,
    }
}

/// Stored form of an ownership: a kind word and, for work, the label.
pub open spec fn ownership_kind(o: Ownership) -> Seq<char> {
    match o {
        Ownership::Personal => "personal"@,
        Ownership::Work { .. } => "work"@,
        Ownership::Community => "community"@,
        Ownership::ThirdParty => "thirdparty"@,
        Ownership::Local => "local"@,
    }
}

impl Ownership {
    /// The kind word under which an ownership is stored.
    pub fn kind(&self) -> (r: &'static str)
        ensures
            r@ == ownership_kind(*self),
    {
        match self {
            Ownership::Personal => "personal",
            Ownership::Work { .. } => "work",
            Ownership::Community => "community",
            Ownership::ThirdParty => "thirdparty",
            Ownership::Local => "local",
        }
    }

    /// The label stored beside the kind word; only work carries one.
    pub fn label(&self) -> (r: Option<String>)
        ensures
            match *self {
                Ownership::Work { label } => r == Some(label),
                _ => r is None,
            },
    {
        match self {
            Ownership::Work { label } => Some(label.clone()),
            _ => None,
        }
    }

    /// The ownership stored as `kind` with `label`; an unknown kind reads
    /// as none, and a work kind without label reads as an empty label.
    pub fn from_stored(kind: &str, label: &Option<String>) -> (r: Option<Ownership>)
        ensures
            kind@ == "personal"@ ==> r == Some(Ownership::Personal),
            kind@ == "community"@ ==> r == Some(Ownership::Community),
            kind@ == "thirdparty"@ ==> r == Some(Ownership::ThirdParty),
            kind@ == "local"@ ==> r == Some(Ownership::Local),
            kind@ == "work"@ ==> stored_work(r, *label),
            kind@ != "personal"@ && kind@ != "community"@ && kind@ != "thirdparty"@ && kind@
                != "local"@ && kind@ != "work"@ ==> r is None,
    {
        proof {
            lemma_stored_kinds_distinct();
        }
        if str_eq(kind, "personal") {
            Some(Ownership::Personal)
        } else if str_eq(kind, "work") {
            let l = match label {
                Some(s) => s.clone(),
                None => String::new(),
            };
            Some(Ownership::Work { label: l })
        } else if str_eq(kind, "community") {
            Some(Ownership::Community)
        } else if str_eq(kind, "thirdparty") {
            Some(Ownership::ThirdParty)
        } else if str_eq(kind, "local") {
            Some(Ownership::Local)
        } else {
            None
        }
    }
}

proof fn lemma_stored_kinds_distinct()
    ensures
        "personal"@ != "work"@,
        "personal"@ != "community"@,
        "personal"@ != "thirdparty"@,
        "personal"@ != "local"@,
        "work"@ != "community"@,
        "work"@ != "thirdparty"@,
        "work"@ != "local"@,
        "community"@ != "thirdparty"@,
        "community"@ != "local"@,
        "thirdparty"@ != "local"@,
{
    reveal_strlit("personal");
    reveal_strlit("work");
    reveal_strlit("community");
    reveal_strlit("thirdparty");
    reveal_strlit("local");
    assert("personal"@[0] != "community"@[0]);
    assert("personal"@.len() != "work"@.len());
    assert("personal"@.len() != "thirdparty"@.len());
    assert("personal"@.len() != "local"@.len());
    assert("work"@.len() != "community"@.len());
    assert("work"@.len() != "thirdparty"@.len());
    assert("work"@.len() != "local"@.len());
    assert("community"@.len() != "thirdparty"@.len());
    assert("community"@.len() != "local"@.len());
    assert("thirdparty"@.len() != "local"@.len());
}

/// Every ownership reads back from its stored kind word and label.
pub proof fn lemma_ownership_storage_round_trip(o: Ownership)
    ensures
        ownership_kind(o) == "personal"@ ==> o == Ownership::Personal,
        ownership_kind(o) == "work"@ ==> o is Work,
        ownership_kind(o) == "community"@ ==> o == Ownership::Community,
        ownership_kind(o) == "thirdparty"@ ==> o == Ownership::ThirdParty,
        ownership_kind(o) == "local"@ ==> o == Ownership::Local,
{
    lemma_stored_kinds_distinct();
}

} // verus!
