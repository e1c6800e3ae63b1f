//! The catalogue store: path-keyed entries with stable ids, lookups,
//! filtered listings, summaries and a scan log.

use vstd::prelude::*;

use crate::classify::{add_tags, append_tags};
use crate::error::KissaError;
use crate::filter::RepoFilter;
use crate::repo::{copy_strings, same_entry, Freshness, Repo, RepoId, RepoState};
use crate::text::{
    chars_eq_ignore_case, chars_of, chars_range, eq_ic, str_eq,
};

verus! {



/// The schema version this library writes.
pub const SCHEMA_VERSION: u32 = 3;

/// Largest id an entry can be given.
pub const MAX_REPO_ID: i64 = 0x7fff_ffff_ffff_ffff;

/// A completed scan, kept in an append-only log.
#[derive(Debug)]
pub struct ScanRecord {
    pub completed_at: i64,
    pub roots: Vec<String>,
    pub repo_count: usize,
}

/// Number of entries in each freshness tier.
#[derive(Debug)]
pub struct FreshnessSummary {
    pub active: usize,
    pub recent: usize,
    pub stale: usize,
    pub dormant: usize,
    pub ancient: usize,
}

/// Aggregate counts over the whole catalogue.
#[derive(Debug)]
pub struct IndexSummary {
    pub total_repos: usize,
    pub dirty_count: usize,
    pub unpushed_count: usize,
    pub orphan_count: usize,
    pub lost_count: usize,
    pub managed_count: usize,
    pub freshness: FreshnessSummary,
    pub last_scan: Option<i64>,
    pub roots: Vec<String>,
}

/// The catalogue. Entries are kept in increasing id order; paths are unique.
#[derive(Debug)]
pub struct Index {
    rows: Vec<Repo>,
    next_id: i64,
    scans: Vec<ScanRecord>,
    version: u32,
}

/// The first position of an entry whose path is `path`.
#[verifier::opaque]
pub open spec fn path_index(entries: Seq<Repo>, path: Seq<char>) -> Option<int> {
    if exists|i: int| 0 <= i < entries.len() && entries[i].path@ == path {
        Some(
            choose|i: int|
                0 <= i < entries.len() && entries[i].path@ == path && forall|j: int|
                    0 <= j < i ==> entries[j].path@ != path,
        )
    } else {
        None
    }
}

/// `row` is `input` as stored under `id`, first seen at `first_seen`, with
/// its tags deduplicated (ASCII case folded, first kept).
pub open spec fn stored_as(input: Repo, row: Repo, id: i64, first_seen: i64) -> bool {
    &&& row.id == id
    &&& row.first_seen == first_seen
    &&& row.tags@ == add_tags(Seq::empty(), input.tags@)
    &&& row.name == input.name
    &&& row.path == input.path
    &&& row.state == input.state
    &&& row.remotes@ == input.remotes@
    &&& row.default_branch == input.default_branch
    &&& row.current_branch == input.current_branch
    &&& row.branch_count == input.branch_count
    &&& row.stale_branch_count == input.stale_branch_count
    &&& row.dirty == input.dirty
    &&& row.staged == input.staged
    &&& row.untracked == input.untracked
    &&& row.ahead == input.ahead
    &&& row.behind == input.behind
    &&& row.last_commit == input.last_commit
    &&& row.last_verified == input.last_verified
    &&& row.freshness == input.freshness
    &&& row.category == input.category
    &&& row.ownership == input.ownership
    &&& row.intention == input.intention
    &&& row.managed_by == input.managed_by
    &&& row.project == input.project
    &&& row.role == input.role
    &&& row.is_bare == input.is_bare
}

/// What an upsert of `repo` does: an entry with the same path is replaced in
/// place, keeping its id and first-seen time, remotes and tags included; a
/// new path is appended under the next id.
pub open spec fn upsert_effect(
    old: Seq<Repo>,
    next_id: i64,
    repo: Repo,
    new: Seq<Repo>,
    r: Result<RepoId, KissaError>,
) -> bool {
    match path_index(old, repo.path@) {
        Some(k) => {
            &&& r == Ok::<RepoId, KissaError>(old[k].id)
            &&& new.len() == old.len()
            &&& forall|j: int| 0 <= j < old.len() && j != k ==> #[trigger] new[j] == old[j]
            &&& stored_as(repo, new[k], old[k].id, old[k].first_seen)
        },
        None => if next_id < MAX_REPO_ID {
            &&& r == Ok::<RepoId, KissaError>(next_id)
            &&& new.len() == old.len() + 1
            &&& forall|j: int| 0 <= j < old.len() ==> #[trigger] new[j] == old[j]
            &&& stored_as(repo, new[old.len() as int], next_id, repo.first_seen)
        } else {
            r is Err && new == old
        },
    }
}

/// `out` holds, in order, copies of the entries of `entries` that `filter`
/// matches.
pub open spec fn listed(entries: Seq<Repo>, filter: RepoFilter, out: Seq<Repo>) -> bool {
    let kept = entries.filter(|e: Repo| filter.spec_matches(e));
    out.len() == kept.len() && forall|i: int| 0 <= i < out.len() ==> same_entry(#[trigger] out[i], kept[i])
}

/// Which entries a lookup by name accepts: exact names, then names with the
/// query as prefix, then names holding the query; prefix and substring
/// tests fold ASCII case. Lost entries never qualify.
pub open spec fn name_hit(e: Repo, q: Seq<char>, mode: int) -> bool {
    e.state != RepoState::Lost && if mode == 0 {
        e.name@ == q
    } else if mode == 1 {
        q.len() <= e.name@.len() && eq_ic(e.name@.take(q.len() as int), q)
    } else {
        exists|i: int| 0 <= i && i + q.len() <= e.name@.len() && eq_ic(#[trigger] e.name@.subrange(i, i + q.len()), q)
    }
}

/// The first entry that the lookup mode `mode` accepts.
pub open spec fn first_name_hit(entries: Seq<Repo>, q: Seq<char>, mode: int) -> Option<int> {
    if exists|i: int| 0 <= i < entries.len() && name_hit(entries[i], q, mode) {
        Some(
            choose|i: int|
                0 <= i < entries.len() && name_hit(entries[i], q, mode) && forall|j: int|
                    0 <= j < i ==> !name_hit(entries[j], q, mode),
        )
    } else {
        None
    }
}

/// The entry a lookup by name finds: the first exact match, else the first
/// prefix match, else the first substring match.
pub open spec fn name_lookup(entries: Seq<Repo>, q: Seq<char>) -> Option<int> {
    match first_name_hit(entries, q, 0) {
        Some(i) => Some(i),
        None => match first_name_hit(entries, q, 1) {
            Some(i) => Some(i),
            None => first_name_hit(entries, q, 2),
        },
    }
}

/// The entry has uncommitted changes.
pub open spec fn is_dirty(e: Repo) -> bool {
    e.dirty
}

/// The entry has commits its upstream lacks.
pub open spec fn is_unpushed(e: Repo) -> bool {
    e.ahead > 0
}

/// The entry has no remote.
pub open spec fn is_orphan(e: Repo) -> bool {
    e.remotes@.len() == 0
}

/// The entry's path was found missing.
pub open spec fn is_lost(e: Repo) -> bool {
    e.state == RepoState::Lost
}

/// A tool manages the entry.
pub open spec fn is_managed(e: Repo) -> bool {
    e.managed_by is Some
}

/// The entry is in freshness tier `f`.
pub open spec fn in_tier(e: Repo, f: Freshness) -> bool {
    e.freshness == f
}

/// The tallies an index summary is made of, each a predicate on entries.
pub open spec fn tally(kind: int, e: Repo) -> bool {
    if kind == 0 {
        is_dirty(e)
    } else if kind == 1 {
        is_unpushed(e)
    } else if kind == 2 {
        is_orphan(e)
    } else if kind == 3 {
        is_lost(e)
    } else if kind == 4 {
        is_managed(e)
    } else if kind == 5 {
        in_tier(e, Freshness::Active)
    } else if kind == 6 {
        in_tier(e, Freshness::Recent)
    } else if kind == 7 {
        in_tier(e, Freshness::Stale)
    } else if kind == 8 {
        in_tier(e, Freshness::Dormant)
    } else {
        in_tier(e, Freshness::Ancient)
    }
}

/// Number of entries of which tally `kind` holds.
pub open spec fn count_of(entries: Seq<Repo>, kind: int) -> nat {
    entries.filter(|e: Repo| tally(kind, e)).len()
}

fn tally_holds(kind: u8, e: &Repo) -> (r: bool)
    ensures
        r == tally(kind as int, *e),
{
    if kind == 0 {
        e.dirty
    } else if kind == 1 {
        e.ahead > 0
    } else if kind == 2 {
        e.remotes.len() == 0
    } else if kind == 3 {
        e.state == RepoState::Lost
    } else if kind == 4 {
        e.managed_by.is_some()
    } else if kind == 5 {
        e.freshness == Freshness::Active
    } else if kind == 6 {
        e.freshness == Freshness::Recent
    } else if kind == 7 {
        e.freshness == Freshness::Stale
    } else if kind == 8 {
        e.freshness == Freshness::Dormant
    } else {
        e.freshness == Freshness::Ancient
    }
}

impl Index {
    /// The entries, in id order.
    pub closed spec fn entries(&self) -> Seq<Repo> {
        self.rows@
    }

    /// The id the next new entry gets.
    pub closed spec fn next_id(&self) -> i64 {
        self.next_id
    }

    /// The scan log, oldest first.
    pub closed spec fn scan_log(&self) -> Seq<ScanRecord> {
        self.scans@
    }

    /// The schema version in force.
    pub closed spec fn version(&self) -> u32 {
        self.version
    }

    /// Ids are positive, below the next id and increasing; paths are
    /// unique; no entry holds two tags equal up to ASCII case.
    pub closed spec fn wf(&self) -> bool {
        &&& self.next_id >= 1
        &&& forall|i: int| 0 <= i < self.rows@.len() ==> 0 < #[trigger] self.rows@[i].id < self.next_id
        &&& forall|i: int, j: int|
            0 <= i < j < self.rows@.len() ==> #[trigger] self.rows@[i].id < #[trigger] self.rows@[j].id
        &&& forall|i: int, j: int|
            0 <= i < self.rows@.len() && 0 <= j < self.rows@.len() && i != j
                ==> #[trigger] self.rows@[i].path@ != #[trigger] self.rows@[j].path@
        &&& forall|i: int| 0 <= i < self.rows@.len() ==> distinct_tags(#[trigger] self.rows@[i].tags@)
    }

    /// What well-formedness guarantees of the entries: ids positive, below
    /// the next id and increasing; paths unique; tags free of duplicates.
    pub proof fn lemma_wf_entries(&self)
        requires
            self.wf(),
        ensures
            forall|i: int|
                0 <= i < self.entries().len() ==> 0 < #[trigger] self.entries()[i].id < self.next_id(),
            forall|i: int, j: int|
                0 <= i < j < self.entries().len() ==> #[trigger] self.entries()[i].id
                    < #[trigger] self.entries()[j].id,
            forall|i: int, j: int|
                0 <= i < self.entries().len() && 0 <= j < self.entries().len() && i != j
                    ==> #[trigger] self.entries()[i].path@ != #[trigger] self.entries()[j].path@,
            forall|i: int|
                0 <= i < self.entries().len() ==> distinct_tags(#[trigger] self.entries()[i].tags@),
    {
    }

    /// An empty catalogue at the current schema version.
    pub fn open_in_memory() -> (r: Result<Index, KissaError>)
        ensures
            r matches Ok(idx) && idx.wf() && idx.entries().len() == 0 && idx.scan_log().len() == 0
                && idx.version() == SCHEMA_VERSION && idx.next_id() == 1,
    {
        let mut idx = Index { rows: Vec::new(), next_id: 1, scans: Vec::new(), version: 0 };
        let _ = idx.migrate();
        Ok(idx)
    }

    /// The scan log, oldest first.
    pub fn scan_records(&self) -> (r: &Vec<ScanRecord>)
        ensures
            r@ == self.scan_log(),
    {
        &self.scans
    }

    /// The schema version in force.
    pub fn schema_version(&self) -> (r: u32)
        ensures
            r == self.version(),
    {
        self.version
    }

    /// Applies, in order, each migration whose target version is above the
    /// version in force.
    pub fn migrate(&mut self) -> (r: Result<(), KissaError>)
        ensures
            r is Ok,
            final(self).version() == if old(self).version() < SCHEMA_VERSION {
                SCHEMA_VERSION
            } else {
                old(self).version()
            },
            final(self).entries() == old(self).entries(),
            final(self).scan_log() == old(self).scan_log(),
            final(self).next_id() == old(self).next_id(),
            old(self).wf() ==> final(self).wf(),
    {
        let steps = pending_migrations(self.version);
        let mut i: usize = 0;
        while i < steps.len()
            invariant
                i <= steps.len(),
                steps@ == migrations_after(old(self).version()),
                self.version == if i == 0 {
                    old(self).version()
                } else {
                    steps@[i - 1]
                },
                self.rows == old(self).rows,
                self.scans == old(self).scans,
                self.next_id == old(self).next_id,
            decreases steps.len() - i,
        {
            self.version = steps[i];
            i = i + 1;
        }
        Ok(())
    }

    fn position_of_path(&self, path: &str) -> (r: Option<usize>)
        ensures
            match r {
                Some(k) => path_index(self.rows@, path@) == Some(k as int) && k < self.rows@.len(),
                None => path_index(self.rows@, path@) is None,
            },
    {
        let mut i: usize = 0;
        while i < self.rows.len()
            invariant
                i <= self.rows.len(),
                forall|j: int| 0 <= j < i ==> self.rows@[j].path@ != path@,
            decreases self.rows.len() - i,
        {
            if str_eq(&self.rows[i].path, path) {
                proof {
                    lemma_path_index_is(self.rows@, path@, i as int);
                }
                return Some(i);
            }
            i = i + 1;
        }
        proof {
            lemma_path_index_none(self.rows@, path@);
        }
        None
    }

    /// Inserts `repo`, or replaces the entry with the same path in full.
    #[verifier::spinoff_prover]
    pub fn upsert_repo(&mut self, repo: &Repo) -> (r: Result<RepoId, KissaError>)
        requires
            old(self).wf(),
        ensures
            final(self).wf(),
            upsert_effect(old(self).entries(), old(self).next_id(), *repo, final(self).entries(), r),
            final(self).scan_log() == old(self).scan_log(),
            final(self).version() == old(self).version(),
    {
        let mut row = repo.duplicate();
        let mut tags: Vec<String> = Vec::new();
        append_tags(&mut tags, &repo.tags);
        proof {
            lemma_add_tags_distinct(Seq::empty(), repo.tags@);
        }
        row.tags = tags;
        match self.position_of_path(&repo.path) {
            Some(k) => {
                proof {
                    lemma_path_index_absent(self.rows@, repo.path@);
                }
                let id = self.rows[k].id;
                row.id = id;
                row.first_seen = self.rows[k].first_seen;
                let ghost o = self.rows@;
                self.rows[k] = row;
                proof {
                    let n = self.rows@;
                    assert(n[k as int].path@ == o[k as int].path@);
                    assert(n[k as int].id == o[k as int].id);
                    assert forall|i: int| 0 <= i < n.len() implies distinct_tags(#[trigger] n[i].tags@) by {
                        if i != k {
                            assert(n[i] == o[i]);
                        }
                    }
                    assert forall|i: int, j: int| 0 <= i < j < n.len() implies #[trigger] n[i].id
                        < #[trigger] n[j].id by {
                        assert(n[i].id == o[i].id && n[j].id == o[j].id);
                    }
                    assert forall|i: int, j: int|
                        0 <= i < n.len() && 0 <= j < n.len() && i != j implies #[trigger] n[i].path@
                        != #[trigger] n[j].path@ by {
                        assert(n[i].path@ == o[i].path@ && n[j].path@ == o[j].path@);
                    }
                    assert(self.wf());
                }
                Ok(id)
            },
            None => {
                if self.next_id == MAX_REPO_ID {
                    return Err(KissaError::Index(String::from_str("no repository id is left")));
                }
                let id = self.next_id;
                row.id = id;
                proof {
                    lemma_path_index_absent(self.rows@, repo.path@);
                }
                let ghost o = self.rows@;
                self.rows.push(row);
                self.next_id = self.next_id + 1;
                proof {
                    let n = self.rows@;
                    assert forall|i: int| 0 <= i < n.len() implies distinct_tags(#[trigger] n[i].tags@) by {
                        if i < o.len() {
                            assert(n[i] == o[i]);
                        }
                    }
                    assert forall|i: int, j: int| 0 <= i < j < n.len() implies #[trigger] n[i].id
                        < #[trigger] n[j].id by {
                        if j < o.len() {
                            assert(n[i] == o[i] && n[j] == o[j]);
                        } else {
                            assert(n[i] == o[i]);
                        }
                    }
                    assert forall|i: int, j: int|
                        0 <= i < n.len() && 0 <= j < n.len() && i != j implies #[trigger] n[i].path@
                        != #[trigger] n[j].path@ by {
                        if i < o.len() && j < o.len() {
                            assert(n[i] == o[i] && n[j] == o[j]);
                        }
                    }
                    assert(self.wf());
                }
                Ok(id)
            },
        }
    }

    /// The entry whose path is `path`.
    pub fn get_repo_by_path(&self, path: &str) -> (r: Result<Option<Repo>, KissaError>)
        ensures
            match r {
                Ok(Some(e)) => path_index(self.entries(), path@) matches Some(k) && same_entry(
                    e,
                    self.entries()[k],
                ),
                Ok(None) => path_index(self.entries(), path@) is None,
                Err(_) => false,
            },
    {
        match self.position_of_path(path) {
            Some(k) => Ok(Some(self.rows[k].duplicate())),
            None => Ok(None),
        }
    }

    fn first_hit(&self, q: &Vec<char>, mode: u8) -> (r: Option<usize>)
        requires
            mode <= 2,
        ensures
            match r {
                Some(k) => first_name_hit(self.rows@, q@, mode as int) == Some(k as int) && k
                    < self.rows@.len(),
                None => first_name_hit(self.rows@, q@, mode as int) is None,
            },
    {
        let mut i: usize = 0;
        while i < self.rows.len()
            invariant
                mode <= 2,
                i <= self.rows.len(),
                forall|j: int| 0 <= j < i ==> !name_hit(self.rows@[j], q@, mode as int),
            decreases self.rows.len() - i,
        {
            if name_accepts(&self.rows[i], q, mode) {
                proof {
                    let rows = self.rows@;
                    let m = mode as int;
                    let k = choose|k: int|
                        0 <= k < rows.len() && name_hit(rows[k], q@, m) && forall|j: int|
                            0 <= j < k ==> !name_hit(rows[j], q@, m);
                    if k < i {
                        assert(!name_hit(rows[k], q@, m));
                    } else if i < k {
                        assert(!name_hit(rows[i as int], q@, m));
                    }
                }
                return Some(i);
            }
            i = i + 1;
        }
        None
    }

    /// Looks an entry up by name: exact match first, then prefix, then
    /// substring; lost entries are skipped.
    pub fn get_repo_by_name(&self, name: &str) -> (r: Result<Option<Repo>, KissaError>)
        ensures
            match r {
                Ok(Some(e)) => name_lookup(self.entries(), name@) matches Some(k) && same_entry(
                    e,
                    self.entries()[k],
                ),
                Ok(None) => name_lookup(self.entries(), name@) is None,
                Err(_) => false,
            },
    {
        let q = chars_of(name);
        let mut found = self.first_hit(&q, 0);
        if found.is_none() {
            found = self.first_hit(&q, 1);
        }
        if found.is_none() {
            found = self.first_hit(&q, 2);
        }
        match found {
            Some(k) => Ok(Some(self.rows[k].duplicate())),
            None => Ok(None),
        }
    }

    /// Copies of the entries that `filter` matches, in id order.
    pub fn list_repos(&self, filter: &RepoFilter) -> (r: Result<Vec<Repo>, KissaError>)
        ensures
            r matches Ok(v) && listed(self.entries(), *filter, v@),
    {
        let ghost pred = |e: Repo| filter.spec_matches(e);
        let mut out: Vec<Repo> = Vec::new();
        let mut i: usize = 0;
        while i < self.rows.len()
            invariant
                i <= self.rows.len(),
                pred == (|e: Repo| filter.spec_matches(e)),
                out@.len() == self.rows@.take(i as int).filter(pred).len(),
                forall|j: int|
                    0 <= j < out@.len() ==> same_entry(
                        #[trigger] out@[j],
                        self.rows@.take(i as int).filter(pred)[j],
                    ),
            decreases self.rows.len() - i,
        {
            proof {
                assert(self.rows@.take(i + 1) =~= self.rows@.take(i as int).push(self.rows@[i as int]));
                self.rows@.take(i as int).lemma_filter_push(self.rows@[i as int], pred);
            }
            if filter.matches(&self.rows[i]) {
                out.push(self.rows[i].duplicate());
            }
            i = i + 1;
        }
        assert(self.rows@.take(self.rows.len() as int) =~= self.rows@);
        Ok(out)
    }

    /// Copies of every entry, in id order.
    pub fn all_repos(&self) -> (r: Result<Vec<Repo>, KissaError>)
        ensures
            r matches Ok(v) && v@.len() == self.entries().len() && forall|i: int|
                0 <= i < v@.len() ==> same_entry(#[trigger] v@[i], self.entries()[i]),
    {
        let f = RepoFilter::default();
        let r = self.list_repos(&f);
        proof {
            let pred = |e: Repo| f.spec_matches(e);
            assert forall|j: int| 0 <= j < self.rows@.len() implies pred(self.rows@[j]) by {
                lemma_empty_filter_matches(f, self.rows@[j]);
            }
            lemma_filter_all(self.rows@, pred);
        }
        r
    }

    /// Marks the entry with id `id` as lost; other entries are untouched.
    pub fn mark_lost(&mut self, id: RepoId) -> (r: Result<(), KissaError>)
        requires
            old(self).wf(),
        ensures
            r is Ok,
            final(self).wf(),
            final(self).entries().len() == old(self).entries().len(),
            forall|j: int|
                0 <= j < old(self).entries().len() ==> {
                    let e = old(self).entries()[j];
                    let n = #[trigger] final(self).entries()[j];
                    if e.id == id {
                        n.state == RepoState::Lost && same_entry(
                            n,
                            Repo { state: RepoState::Lost, ..e },
                        )
                    } else {
                        n == e
                    }
                },
            final(self).next_id() == old(self).next_id(),
            final(self).scan_log() == old(self).scan_log(),
            final(self).version() == old(self).version(),
    {
        let mut i: usize = 0;
        while i < self.rows.len()
            invariant
                self.next_id == old(self).next_id,
                self.scans == old(self).scans,
                self.version == old(self).version,
                i <= self.rows.len(),
                self.rows@.len() == old(self).rows@.len(),
                forall|j: int|
                    0 <= j < self.rows@.len() ==> {
                        let e = old(self).rows@[j];
                        let n = #[trigger] self.rows@[j];
                        if j < i && e.id == id {
                            n == Repo { state: RepoState::Lost, ..e }
                        } else {
                            n == e
                        }
                    },
            decreases self.rows.len() - i,
        {
            if self.rows[i].id == id {
                self.rows[i].state = RepoState::Lost;
            }
            i = i + 1;
        }
        Ok(())
    }

    /// Removes the entry with id `id`, if there is one.
    pub fn forget_repo(&mut self, id: RepoId) -> (r: Result<(), KissaError>)
        requires
            old(self).wf(),
        ensures
            r is Ok,
            final(self).wf(),
            (exists|k: int| 0 <= k < old(self).entries().len() && old(self).entries()[k].id == id)
                ==> exists|k: int|
                0 <= k < old(self).entries().len() && old(self).entries()[k].id == id
                    && final(self).entries() == old(self).entries().remove(k),
            (forall|k: int| 0 <= k < old(self).entries().len() ==> old(self).entries()[k].id != id)
                ==> final(self).entries() == old(self).entries(),
            final(self).next_id() == old(self).next_id(),
            final(self).scan_log() == old(self).scan_log(),
            final(self).version() == old(self).version(),
    {
        let mut i: usize = 0;
        while i < self.rows.len()
            invariant
                old(self).wf(),
                self.rows@ == old(self).rows@,
                self.next_id == old(self).next_id,
                self.scans == old(self).scans,
                self.version == old(self).version,
                i <= self.rows.len(),
                forall|j: int| 0 <= j < i ==> self.rows@[j].id != id,
            decreases self.rows.len() - i,
        {
            if self.rows[i].id == id {
                let ghost o = self.rows@;
                self.rows.remove(i);
                proof {
                    let n = self.rows@;
                    assert forall|a: int| 0 <= a < n.len() implies n[a] == (if a < i {
                        o[a]
                    } else {
                        o[a + 1]
                    }) by {}
                    assert forall|a: int, b: int| 0 <= a < b < n.len() implies #[trigger] n[a].id
                        < #[trigger] n[b].id by {
                        let oa = if a < i { a } else { a + 1 };
                        let ob = if b < i { b } else { b + 1 };
                        assert(o[oa].id < o[ob].id);
                    }
                    assert forall|a: int| 0 <= a < n.len() implies distinct_tags(#[trigger] n[a].tags@) by {
                        let oa = if a < i { a } else { a + 1 };
                        assert(distinct_tags(o[oa].tags@));
                    }
                    assert forall|a: int, b: int|
                        0 <= a < n.len() && 0 <= b < n.len() && a != b implies #[trigger] n[a].path@
                        != #[trigger] n[b].path@ by {
                        let oa = if a < i { a } else { a + 1 };
                        let ob = if b < i { b } else { b + 1 };
                        assert(o[oa].path@ != o[ob].path@);
                    }
                }
                return Ok(());
            }
            i = i + 1;
        }
        assert(self.rows@ =~= old(self).rows@);
        Ok(())
    }
}

impl Index {
    fn count_tally(&self, kind: u8) -> (r: usize)
        ensures
            r == count_of(self.rows@, kind as int),
    {
        let ghost pred = |e: Repo| tally(kind as int, e);
        let mut c: usize = 0;
        let mut i: usize = 0;
        while i < self.rows.len()
            invariant
                i <= self.rows.len(),
                c <= i,
                pred == (|e: Repo| tally(kind as int, e)),
                c == self.rows@.take(i as int).filter(pred).len(),
            decreases self.rows.len() - i,
        {
            proof {
                assert(self.rows@.take(i + 1) =~= self.rows@.take(i as int).push(self.rows@[i as int]));
                self.rows@.take(i as int).lemma_filter_push(self.rows@[i as int], pred);
            }
            if tally_holds(kind, &self.rows[i]) {
                c = c + 1;
            }
            i = i + 1;
        }
        assert(self.rows@.take(self.rows.len() as int) =~= self.rows@);
        c
    }

    /// Number of entries in each freshness tier.
    pub fn freshness_summary(&self) -> (r: Result<FreshnessSummary, KissaError>)
        ensures
            r matches Ok(f) && f.active == count_of(self.entries(), 5) && f.recent == count_of(
                self.entries(),
                6,
            ) && f.stale == count_of(self.entries(), 7) && f.dormant == count_of(self.entries(), 8)
                && f.ancient == count_of(self.entries(), 9),
    {
        Ok(
            FreshnessSummary {
                active: self.count_tally(5),
                recent: self.count_tally(6),
                stale: self.count_tally(7),
                dormant: self.count_tally(8),
                ancient: self.count_tally(9),
            },
        )
    }

    /// Appends a scan, completed at `at`, to the scan log.
    pub fn record_scan_at(&mut self, roots: &Vec<String>, repo_count: usize, at: i64)
        ensures
            final(self).scan_log().len() == old(self).scan_log().len() + 1,
            final(self).scan_log().take(old(self).scan_log().len() as int) == old(self).scan_log(),
            final(self).scan_log().last().completed_at == at,
            final(self).scan_log().last().roots@ == roots@,
            final(self).scan_log().last().repo_count == repo_count,
            final(self).entries() == old(self).entries(),
            final(self).next_id() == old(self).next_id(),
            final(self).version() == old(self).version(),
            old(self).wf() ==> final(self).wf(),
    {
        self.scans.push(ScanRecord { completed_at: at, roots: copy_strings(roots), repo_count });
        assert(self.scans@.take(old(self).scans@.len() as int) =~= old(self).scans@);
    }

    /// Appends a scan, completed now, to the scan log.
    pub fn record_scan(&mut self, roots: &Vec<String>, repo_count: usize) -> (r: Result<(), KissaError>)
        ensures
            r is Ok,
            final(self).scan_log().len() == old(self).scan_log().len() + 1,
            final(self).scan_log().take(old(self).scan_log().len() as int) == old(self).scan_log(),
            final(self).scan_log().last().roots@ == roots@,
            final(self).scan_log().last().repo_count == repo_count,
            final(self).entries() == old(self).entries(),
            final(self).next_id() == old(self).next_id(),
            final(self).version() == old(self).version(),
            old(self).wf() ==> final(self).wf(),
    {
        let now = crate::repo::now_timestamp();
        self.record_scan_at(roots, repo_count, now);
        Ok(())
    }

    /// When the most recent scan completed.
    pub fn last_scan_time(&self) -> (r: Result<Option<i64>, KissaError>)
        ensures
            r == Ok::<Option<i64>, KissaError>(
                if self.scan_log().len() == 0 {
                    None
                } else {
                    Some(self.scan_log().last().completed_at)
                },
            ),
    {
        if self.scans.len() == 0 {
            Ok(None)
        } else {
            Ok(Some(self.scans[self.scans.len() - 1].completed_at))
        }
    }

    /// The roots of the most recent scan; empty before the first scan.
    pub fn last_scan_roots(&self) -> (r: Result<Vec<String>, KissaError>)
        ensures
            r matches Ok(v) && v@ == (if self.scan_log().len() == 0 {
                Seq::empty()
            } else {
                self.scan_log().last().roots@
            }),
    {
        if self.scans.len() == 0 {
            Ok(Vec::new())
        } else {
            Ok(copy_strings(&self.scans[self.scans.len() - 1].roots))
        }
    }

    /// Totals over the whole catalogue, with the last scan's time and roots.
    pub fn summary(&self) -> (r: Result<IndexSummary, KissaError>)
        ensures
            r matches Ok(s) && {
                &&& s.total_repos == self.entries().len()
                &&& s.dirty_count == count_of(self.entries(), 0)
                &&& s.unpushed_count == count_of(self.entries(), 1)
                &&& s.orphan_count == count_of(self.entries(), 2)
                &&& s.lost_count == count_of(self.entries(), 3)
                &&& s.managed_count == count_of(self.entries(), 4)
                &&& s.freshness.active == count_of(self.entries(), 5)
                &&& s.freshness.recent == count_of(self.entries(), 6)
                &&& s.freshness.stale == count_of(self.entries(), 7)
                &&& s.freshness.dormant == count_of(self.entries(), 8)
                &&& s.freshness.ancient == count_of(self.entries(), 9)
                &&& s.last_scan == (if self.scan_log().len() == 0 {
                    None
                } else {
                    Some(self.scan_log().last().completed_at)
                })
                &&& s.roots@ == (if self.scan_log().len() == 0 {
                    Seq::empty()
                } else {
                    self.scan_log().last().roots@
                })
            },
    {
        let freshness = match self.freshness_summary() {
            Ok(f) => f,
            Err(e) => {
                return Err(e);
            },
        };
        let last_scan = match self.last_scan_time() {
            Ok(t) => t,
            Err(e) => {
                return Err(e);
            },
        };
        let roots = match self.last_scan_roots() {
            Ok(v) => v,
            Err(e) => {
                return Err(e);
            },
        };
        Ok(
            IndexSummary {
                total_repos: self.rows.len(),
                dirty_count: self.count_tally(0),
                unpushed_count: self.count_tally(1),
                orphan_count: self.count_tally(2),
                lost_count: self.count_tally(3),
                managed_count: self.count_tally(4),
                freshness,
                last_scan,
                roots,
            },
        )
    }

    /// Adds an entry read back from durable storage under its own id. It is
    /// accepted when its id is positive, above every id held, below the
    /// largest id, and its path is new.
    #[verifier::spinoff_prover]
    pub fn restore_entry(&mut self, mut row: Repo) -> (r: Result<(), KissaError>)
        requires
            old(self).wf(),
        ensures
            final(self).wf(),
            final(self).scan_log() == old(self).scan_log(),
            final(self).version() == old(self).version(),
            ({
                let e = old(self).entries();
                let ok = 0 < row.id < MAX_REPO_ID && (e.len() == 0 || e.last().id < row.id)
                    && path_index(e, row.path@) is None;
                &&& r is Ok <==> ok
                &&& ok ==> final(self).entries().len() == e.len() + 1 && final(self).entries().take(
                    e.len() as int,
                ) == e && stored_as(row, final(self).entries().last(), row.id, row.first_seen)
                &&& !ok ==> final(self).entries() == e
            }),
    {
        if row.id <= 0 || row.id == MAX_REPO_ID {
            return Err(KissaError::Index(String::from_str("invalid repository id")));
        }
        if self.rows.len() > 0 && self.rows[self.rows.len() - 1].id >= row.id {
            return Err(KissaError::Index(String::from_str("repository ids out of order")));
        }
        if self.position_of_path(&row.path).is_some() {
            return Err(KissaError::Index(String::from_str("duplicate repository path")));
        }
        proof {
            lemma_path_index_absent(self.rows@, row.path@);
            assert forall|j: int| 0 <= j < self.rows@.len() implies self.rows@[j].id < row.id by {
                if j < self.rows@.len() - 1 {
                    assert(self.rows@[j].id < self.rows@[self.rows@.len() - 1].id);
                }
            }
        }
        let ghost given = row;
        let mut tags: Vec<String> = Vec::new();
        append_tags(&mut tags, &row.tags);
        proof {
            lemma_add_tags_distinct(Seq::empty(), row.tags@);
        }
        row.tags = tags;
        if self.next_id <= row.id {
            self.next_id = row.id + 1;
        }
        let ghost before = self.rows@;
        self.rows.push(row);
        assert(self.rows@.take(before.len() as int) =~= before);
        proof {
            let n = self.rows@;
            assert forall|i: int| 0 <= i < n.len() implies distinct_tags(#[trigger] n[i].tags@) by {
                if i < before.len() {
                    assert(n[i] == before[i]);
                }
            }
            assert forall|i: int, j: int| 0 <= i < j < n.len() implies #[trigger] n[i].id
                < #[trigger] n[j].id by {
                if j < before.len() {
                    assert(n[i] == before[i] && n[j] == before[j]);
                } else {
                    assert(n[i] == before[i]);
                }
            }
            assert forall|i: int, j: int|
                0 <= i < n.len() && 0 <= j < n.len() && i != j implies #[trigger] n[i].path@
                != #[trigger] n[j].path@ by {
                if i < before.len() && j < before.len() {
                    assert(n[i] == before[i] && n[j] == before[j]);
                }
            }
            assert forall|i: int| 0 <= i < n.len() implies 0 < #[trigger] n[i].id < self.next_id by {
                if i < before.len() {
                    assert(n[i] == before[i]);
                }
            }
            assert(self.wf());
        }
        Ok(())
    }
}

/// The entry at `k` is the first one with path `p`.
proof fn lemma_path_index_is(entries: Seq<Repo>, p: Seq<char>, k: int)
    requires
        0 <= k < entries.len(),
        entries[k].path@ == p,
        forall|j: int| 0 <= j < k ==> entries[j].path@ != p,
    ensures
        path_index(entries, p) == Some(k),
{
    reveal(path_index);
    let c = choose|i: int|
        0 <= i < entries.len() && entries[i].path@ == p && forall|j: int| 0 <= j < i ==> entries[j].path@ != p;
    assert(0 <= c < entries.len() && entries[c].path@ == p);
    if c < k {
        assert(entries[c].path@ != p);
    } else if k < c {
        assert(entries[k].path@ != p);
    }
}

/// Without an entry at `p` there is no first one.
proof fn lemma_path_index_none(entries: Seq<Repo>, p: Seq<char>)
    requires
        forall|j: int| 0 <= j < entries.len() ==> entries[j].path@ != p,
    ensures
        path_index(entries, p) is None,
{
    reveal(path_index);
}

/// What `path_index` says of the entries.
proof fn lemma_path_index_absent(entries: Seq<Repo>, p: Seq<char>)
    ensures
        path_index(entries, p) is None ==> forall|j: int| 0 <= j < entries.len() ==> entries[j].path@ != p,
        path_index(entries, p) matches Some(k) ==> 0 <= k < entries.len() && entries[k].path@ == p
            && forall|j: int| 0 <= j < k ==> entries[j].path@ != p,
{
    reveal(path_index);
    if exists|i: int| 0 <= i < entries.len() && entries[i].path@ == p {
        let w = choose|i: int| 0 <= i < entries.len() && entries[i].path@ == p;
        lemma_least_path(entries, p, w);
    }
    if path_index(entries, p) is None {
        assert forall|j: int| 0 <= j < entries.len() implies entries[j].path@ != p by {
            if entries[j].path@ == p {
                assert(exists|i: int| 0 <= i < entries.len() && entries[i].path@ == p);
            }
        }
    }
}

proof fn lemma_least_path(entries: Seq<Repo>, p: Seq<char>, w: int)
    requires
        0 <= w < entries.len(),
        entries[w].path@ == p,
    ensures
        exists|i: int|
            0 <= i < entries.len() && entries[i].path@ == p && forall|j: int|
                0 <= j < i ==> entries[j].path@ != p,
    decreases w,
{
    if exists|j: int| 0 <= j < w && entries[j].path@ == p {
        let v = choose|j: int| 0 <= j < w && entries[j].path@ == p;
        lemma_least_path(entries, p, v);
    } else {
        assert(forall|j: int| 0 <= j < w ==> entries[j].path@ != p);
    }
}

/// Two rows stored from the same input under the same id and first-seen
/// time hold the same entry.
proof fn lemma_stored_twice(repo: Repo, a: Repo, b: Repo, id: i64, first_seen: i64)
    requires
        stored_as(repo, a, id, first_seen),
        stored_as(repo, b, id, first_seen),
    ensures
        same_entry(a, b),
{
}

/// Where the path of an upserted entry ends up, and under which id.
proof fn lemma_upsert_slot(
    e0: Seq<Repo>,
    n0: i64,
    repo: Repo,
    e1: Seq<Repo>,
    r1: Result<RepoId, KissaError>,
) -> (slot: (int, i64, i64))
    requires
        upsert_effect(e0, n0, repo, e1, r1),
        r1 is Ok,
    ensures
        0 <= slot.0 < e1.len(),
        path_index(e1, repo.path@) == Some(slot.0),
        r1 == Ok::<RepoId, KissaError>(slot.1),
        stored_as(repo, e1[slot.0], slot.1, slot.2),
{
    let p = repo.path@;
    lemma_path_index_absent(e0, p);
    match path_index(e0, p) {
        Some(k) => {
            assert forall|j: int| 0 <= j < k implies e1[j].path@ != p by {
                assert(e1[j] == e0[j]);
            }
            lemma_path_index_is(e1, p, k);
            (k, e0[k].id, e0[k].first_seen)
        },
        None => {
            let k = e0.len() as int;
            assert forall|j: int| 0 <= j < k implies e1[j].path@ != p by {
                assert(e1[j] == e0[j]);
            }
            lemma_path_index_is(e1, p, k);
            (k, n0, repo.first_seen)
        },
    }
}

/// Upserting the same entry twice leaves the catalogue as upserting it once
/// did: same id, same entries field by field, remotes and tags included.
pub proof fn lemma_upsert_idempotent(
    e0: Seq<Repo>,
    n0: i64,
    repo: Repo,
    e1: Seq<Repo>,
    r1: Result<RepoId, KissaError>,
    n1: i64,
    e2: Seq<Repo>,
    r2: Result<RepoId, KissaError>,
)
    requires
        upsert_effect(e0, n0, repo, e1, r1),
        r1 is Ok,
        upsert_effect(e1, n1, repo, e2, r2),
    ensures
        r2 == r1,
        e2.len() == e1.len(),
        forall|j: int| 0 <= j < e1.len() ==> same_entry(#[trigger] e2[j], e1[j]),
{
    let (k, id, fs) = lemma_upsert_slot(e0, n0, repo, e1, r1);
    assert(r2 == Ok::<RepoId, KissaError>(e1[k].id));
    assert(stored_as(repo, e2[k], e1[k].id, e1[k].first_seen));
    lemma_stored_twice(repo, e2[k], e1[k], id, fs);
    assert forall|j: int| 0 <= j < e1.len() implies same_entry(#[trigger] e2[j], e1[j]) by {
        if j != k {
            assert(e2[j] == e1[j]);
        }
    }
}

/// No two tags of `s` are equal once ASCII case is folded.
pub open spec fn distinct_tags(s: Seq<String>) -> bool {
    forall|i: int, j: int| 0 <= i < j < s.len() ==> !eq_ic(#[trigger] s[i]@, #[trigger] s[j]@)
}

/// Adding tags keeps a tag list free of duplicates.
pub proof fn lemma_add_tags_distinct(cur: Seq<String>, new: Seq<String>)
    requires
        distinct_tags(cur),
    ensures
        distinct_tags(add_tags(cur, new)),
    decreases new.len(),
{
    if new.len() > 0 {
        lemma_add_tags_distinct(cur, new.drop_last());
        let c = add_tags(cur, new.drop_last());
        if !crate::filter::has_tag(c, new.last()@) {
            let r = c.push(new.last());
            assert forall|i: int, j: int| 0 <= i < j < r.len() implies !eq_ic(
                #[trigger] r[i]@,
                #[trigger] r[j]@,
            ) by {
                if j == c.len() {
                    assert(r[i] == c[i]);
                    assert(!eq_ic(c[i]@, new.last()@));
                } else {
                    assert(r[i] == c[i] && r[j] == c[j]);
                }
            }
        }
    }
}

/// Deduplicating tags that are already distinct changes nothing.
pub proof fn lemma_dedup_distinct(s: Seq<String>)
    requires
        distinct_tags(s),
    ensures
        add_tags(Seq::empty(), s) == s,
    decreases s.len(),
{
    if s.len() > 0 {
        let init = s.drop_last();
        assert(distinct_tags(init)) by {
            assert forall|i: int, j: int| 0 <= i < j < init.len() implies !eq_ic(
                #[trigger] init[i]@,
                #[trigger] init[j]@,
            ) by {
                assert(init[i] == s[i] && init[j] == s[j]);
            }
        }
        lemma_dedup_distinct(init);
        assert(!crate::filter::has_tag(init, s.last()@)) by {
            if crate::filter::has_tag(init, s.last()@) {
                let w = choose|w: int| 0 <= w < init.len() && eq_ic(#[trigger] init[w]@, s.last()@);
                assert(s[w] == init[w]);
                assert(!eq_ic(s[w]@, s[s.len() - 1]@));
            }
        }
        assert(init.push(s.last()) =~= s);
    }
}

/// An upsert replaces the stored tags by the new ones rather than merging:
/// afterwards the entry holds exactly the upserted tags, deduplicated, and
/// exactly them when they were already distinct.
pub proof fn lemma_upsert_replaces_tags(
    e0: Seq<Repo>,
    n0: i64,
    repo: Repo,
    e1: Seq<Repo>,
    r: Result<RepoId, KissaError>,
)
    requires
        upsert_effect(e0, n0, repo, e1, r),
        r is Ok,
    ensures
        exists|k: int|
            0 <= k < e1.len() && e1[k].path == repo.path && e1[k].tags@ == add_tags(
                Seq::empty(),
                repo.tags@,
            ),
        distinct_tags(repo.tags@) ==> exists|k: int|
            0 <= k < e1.len() && e1[k].path == repo.path && e1[k].tags@ == repo.tags@,
{
    if distinct_tags(repo.tags@) {
        lemma_dedup_distinct(repo.tags@);
    }
    let (k, id, fs) = lemma_upsert_slot(e0, n0, repo, e1, r);
    assert(e1[k].path == repo.path && e1[k].tags@ == add_tags(Seq::empty(), repo.tags@));
}

/// Some entry is accepted by lookup mode `mode`.
pub open spec fn any_name_hit(entries: Seq<Repo>, q: Seq<char>, mode: int) -> bool {
    exists|i: int| 0 <= i < entries.len() && name_hit(entries[i], q, mode)
}

/// The lookup by name finds an entry that mode `mode` accepts.
pub open spec fn lookup_finds(entries: Seq<Repo>, q: Seq<char>, mode: int) -> bool {
    match name_lookup(entries, q) {
        Some(k) => 0 <= k < entries.len() && name_hit(entries[k], q, mode),
        None => false,
    }
}

/// A lookup by name prefers an exact match, then a prefix match, then a
/// substring match, and never returns a lost entry.
pub proof fn lemma_name_lookup_precedence(entries: Seq<Repo>, q: Seq<char>)
    ensures
        name_lookup(entries, q) matches Some(k) ==> 0 <= k < entries.len() && entries[k].state
            != RepoState::Lost,
        any_name_hit(entries, q, 0) ==> lookup_finds(entries, q, 0),
        !any_name_hit(entries, q, 0) && any_name_hit(entries, q, 1) ==> lookup_finds(entries, q, 1),
        !any_name_hit(entries, q, 0) && !any_name_hit(entries, q, 1) && any_name_hit(entries, q, 2)
            ==> lookup_finds(entries, q, 2),
        !any_name_hit(entries, q, 0) && !any_name_hit(entries, q, 1) && !any_name_hit(entries, q, 2)
            ==> name_lookup(entries, q) is None,
{
    lemma_first_name_hit(entries, q, 0);
    lemma_first_name_hit(entries, q, 1);
    lemma_first_name_hit(entries, q, 2);
}

proof fn lemma_first_name_hit(entries: Seq<Repo>, q: Seq<char>, mode: int)
    ensures
        first_name_hit(entries, q, mode) matches Some(k) ==> 0 <= k < entries.len() && name_hit(
            entries[k],
            q,
            mode,
        ),
        (exists|i: int| 0 <= i < entries.len() && name_hit(entries[i], q, mode)) <==> first_name_hit(
            entries,
            q,
            mode,
        ) is Some,
{
    if exists|i: int| 0 <= i < entries.len() && name_hit(entries[i], q, mode) {
        let w = choose|i: int| 0 <= i < entries.len() && name_hit(entries[i], q, mode);
        lemma_least_hit(entries, q, mode, w);
    }
}

proof fn lemma_least_hit(entries: Seq<Repo>, q: Seq<char>, mode: int, w: int)
    requires
        0 <= w < entries.len(),
        name_hit(entries[w], q, mode),
    ensures
        exists|i: int|
            0 <= i < entries.len() && name_hit(entries[i], q, mode) && forall|j: int|
                0 <= j < i ==> !name_hit(entries[j], q, mode),
    decreases w,
{
    if exists|j: int| 0 <= j < w && name_hit(entries[j], q, mode) {
        let v = choose|j: int| 0 <= j < w && name_hit(entries[j], q, mode);
        lemma_least_hit(entries, q, mode, v);
    } else {
        assert(forall|j: int| 0 <= j < w ==> !name_hit(entries[j], q, mode));
    }
}

/// A filter with no field set matches every entry.
pub proof fn lemma_empty_filter_matches(f: RepoFilter, e: Repo)
    requires
        f.is_empty_spec(),
    ensures
        f.spec_matches(e),
{
}

/// Filtering keeps a sequence whose elements all pass.
proof fn lemma_filter_all(s: Seq<Repo>, pred: spec_fn(Repo) -> bool)
    requires
        forall|j: int| 0 <= j < s.len() ==> pred(s[j]),
    ensures
        s.filter(pred) == s,
    decreases s.len(),
{
    if s.len() > 0 {
        lemma_filter_all(s.drop_last(), pred);
        assert(s =~= s.drop_last().push(s.last()));
        s.drop_last().lemma_filter_push(s.last(), pred);
    } else {
        assert(s.filter(pred) =~= s) by {
            s.filter_lemma(pred);
        }
    }
}

/// Whether lookup mode `mode` accepts `e` for the query `q`.
fn name_accepts(e: &Repo, q: &Vec<char>, mode: u8) -> (r: bool)
    requires
        mode <= 2,
    ensures
        r == name_hit(*e, q@, mode as int),
{
    if e.state == RepoState::Lost {
        return false;
    }
    let n = chars_of(&e.name);
    if mode == 0 {
        crate::text::chars_eq(&n, q)
    } else if mode == 1 {
        if q.len() > n.len() {
            return false;
        }
        let head = chars_range(&n, 0, q.len());
        chars_eq_ignore_case(&head, q)
    } else {
        if q.len() > n.len() {
            return false;
        }
        let last: usize = n.len() - q.len();
        let mut i: usize = 0;
        loop
            invariant
                q.len() <= n.len(),
                last == n.len() - q.len(),
                i <= last,
                n@ == e.name@,
                e.state != RepoState::Lost,
                mode == 2,
                forall|k: int| 0 <= k < i ==> !eq_ic(#[trigger] e.name@.subrange(k, k + q@.len()), q@),
            decreases last - i,
        {
            let part = chars_range(&n, i, i + q.len());
            if chars_eq_ignore_case(&part, q) {
                assert(eq_ic(e.name@.subrange(i as int, i + q@.len()), q@));
                return true;
            }
            if i == last {
                assert forall|k: int| 0 <= k && k + q@.len() <= e.name@.len() implies !eq_ic(
                    #[trigger] e.name@.subrange(k, k + q@.len()),
                    q@,
                ) by {
                    if k < i {
                    }
                }
                return false;
            }
            i = i + 1;
        }
    }
}

/// The migration steps above `current`, in order.
pub open spec fn migrations_after(current: u32) -> Seq<u32> {
    if current < 1 {
        seq![1u32, 2u32, 3u32]
    } else if current < 2 {
        seq![2u32, 3u32]
    } else if current < 3 {
        seq![3u32]
    } else {
        Seq::empty()
    }
}

/// The target versions of the migrations still to run on a store at
/// version `current`, in the order they must run.
pub fn pending_migrations(current: u32) -> (r: Vec<u32>)
    ensures
        r@ == migrations_after(current),
{
    let mut steps: Vec<u32> = Vec::new();
    if current < 1 {
        steps.push(1);
    }
    if current < 2 {
        steps.push(2);
    }
    if current < 3 {
        steps.push(3);
    }
    assert(steps@ =~= migrations_after(current));
    steps
}

} // verus!
