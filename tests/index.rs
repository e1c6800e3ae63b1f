use kissa::filter::RepoFilter;
use kissa::index::{pending_migrations, Index, SCHEMA_VERSION};
use kissa::repo::{Category, Freshness, Intention, Ownership, Remote, Repo, RepoState};

fn index_fixture(name: &str, path: &str) -> Repo {
    let now = index_now();
    Repo {
        id: 0,
        name: name.to_string(),
        path: path.to_string(),
        state: RepoState::Active,
        remotes: vec![Remote {
            name: "origin".into(),
            url: "git@github.com:initech/api-gateway.git".into(),
            push_url: None,
        }],
        default_branch: Some("main".into()),
        current_branch: Some("feature/auth".into()),
        branch_count: 3,
        stale_branch_count: 1,
        dirty: true,
        staged: false,
        untracked: true,
        ahead: 2,
        behind: 0,
        last_commit: Some(now),
        last_verified: Some(now),
        first_seen: now,
        freshness: Freshness::Active,
        category: Some(Category::Origin),
        ownership: Some(Ownership::Work {
            label: "initech".into(),
        }),
        intention: Some(Intention::Developing),
        managed_by: None,
        tags: vec!["rust".into(), "backend".into()],
        project: Some("platform".into()),
        role: Some("service".into()),
        is_bare: false,
    }
}

#[test]
fn open_in_memory_and_migrate() {
    let idx = Index::open_in_memory().unwrap();
    assert_eq!(idx.schema_version(), SCHEMA_VERSION);
}

#[test]
fn upsert_and_get_by_path() {
    let mut idx = Index::open_in_memory().unwrap();
    let repo = index_fixture("api-gateway", "/home/user/code/api-gateway");

    let id = idx.upsert_repo(&repo).unwrap();
    assert!(id > 0);

    let loaded = idx
        .get_repo_by_path("/home/user/code/api-gateway")
        .unwrap()
        .unwrap();
    assert_eq!(loaded.name, "api-gateway");
    assert!(loaded.dirty);
    assert_eq!(loaded.ahead, 2);
    assert_eq!(loaded.remotes.len(), 1);
    assert_eq!(loaded.remotes[0].name, "origin");
    let mut tags = loaded.tags.clone();
    tags.sort();
    assert_eq!(tags, vec!["backend", "rust"]);
    assert_eq!(loaded.freshness, Freshness::Active);
    assert_eq!(loaded.state, RepoState::Active);
    assert_eq!(
        loaded.ownership,
        Some(Ownership::Work {
            label: "initech".into()
        })
    );
    assert_eq!(loaded.category, Some(Category::Origin));
    assert_eq!(loaded.intention, Some(Intention::Developing));
    assert_eq!(loaded.project, Some("platform".into()));
}

#[test]
fn upsert_updates_existing() {
    let mut idx = Index::open_in_memory().unwrap();
    let mut repo = index_fixture("api-gateway", "/home/user/code/api-gateway");

    idx.upsert_repo(&repo).unwrap();

    repo.dirty = false;
    repo.ahead = 0;
    repo.tags = vec!["rust".into(), "backend".into(), "v2".into()];

    idx.upsert_repo(&repo).unwrap();

    let loaded = idx
        .get_repo_by_path("/home/user/code/api-gateway")
        .unwrap()
        .unwrap();
    assert!(!loaded.dirty);
    assert_eq!(loaded.ahead, 0);
    assert_eq!(loaded.tags.len(), 3);
}

#[test]
fn get_by_name_fuzzy() {
    let mut idx = Index::open_in_memory().unwrap();
    idx.upsert_repo(&index_fixture("api-gateway", "/code/api-gateway"))
        .unwrap();
    idx.upsert_repo(&index_fixture("web-frontend", "/code/web-frontend"))
        .unwrap();

    let r = idx.get_repo_by_name("api-gateway").unwrap().unwrap();
    assert_eq!(r.name, "api-gateway");

    let r = idx.get_repo_by_name("api").unwrap().unwrap();
    assert_eq!(r.name, "api-gateway");

    let r = idx.get_repo_by_name("front").unwrap().unwrap();
    assert_eq!(r.name, "web-frontend");

    assert!(idx.get_repo_by_name("nonexistent").unwrap().is_none());
}

#[test]
fn list_repos_empty_filter() {
    let mut idx = Index::open_in_memory().unwrap();
    idx.upsert_repo(&index_fixture("a", "/code/a")).unwrap();
    idx.upsert_repo(&index_fixture("b", "/code/b")).unwrap();

    let repos = idx.list_repos(&RepoFilter::default()).unwrap();
    assert_eq!(repos.len(), 2);
}

#[test]
fn list_repos_dirty_filter() {
    let mut idx = Index::open_in_memory().unwrap();
    let dirty = index_fixture("dirty-repo", "/code/dirty");
    let mut clean = index_fixture("clean-repo", "/code/clean");
    clean.dirty = false;

    idx.upsert_repo(&dirty).unwrap();
    idx.upsert_repo(&clean).unwrap();

    let filter = RepoFilter {
        dirty: Some(true),
        ..Default::default()
    };
    let repos = idx.list_repos(&filter).unwrap();
    assert_eq!(repos.len(), 1);
    assert_eq!(repos[0].name, "dirty-repo");
}

#[test]
fn list_repos_name_filter() {
    let mut idx = Index::open_in_memory().unwrap();
    idx.upsert_repo(&index_fixture("api-gateway", "/code/api")).unwrap();
    idx.upsert_repo(&index_fixture("web-app", "/code/web")).unwrap();

    let filter = RepoFilter {
        name_contains: Some("api".into()),
        ..Default::default()
    };
    let repos = idx.list_repos(&filter).unwrap();
    assert_eq!(repos.len(), 1);
    assert_eq!(repos[0].name, "api-gateway");
}

#[test]
fn list_repos_org_filter_in_memory() {
    let mut idx = Index::open_in_memory().unwrap();
    idx.upsert_repo(&index_fixture("a", "/code/a")).unwrap();

    let mut other = index_fixture("b", "/code/b");
    other.remotes = vec![Remote {
        name: "origin".into(),
        url: "git@github.com:vandelay/import.git".into(),
        push_url: None,
    }];
    idx.upsert_repo(&other).unwrap();

    let filter = RepoFilter {
        org: Some("initech".into()),
        ..Default::default()
    };
    let repos = idx.list_repos(&filter).unwrap();
    assert_eq!(repos.len(), 1);
    assert_eq!(repos[0].name, "a");
}

#[test]
fn mark_lost_and_forget() {
    let mut idx = Index::open_in_memory().unwrap();
    let id = idx
        .upsert_repo(&index_fixture("doomed", "/code/doomed"))
        .unwrap();

    idx.mark_lost(id).unwrap();
    let r = idx.get_repo_by_path("/code/doomed").unwrap().unwrap();
    assert_eq!(r.state, RepoState::Lost);

    idx.forget_repo(id).unwrap();
    assert!(idx.get_repo_by_path("/code/doomed").unwrap().is_none());
}

#[test]
fn freshness_summary_counts() {
    let mut idx = Index::open_in_memory().unwrap();

    let mut r1 = index_fixture("a", "/code/a");
    r1.freshness = Freshness::Active;
    let mut r2 = index_fixture("b", "/code/b");
    r2.freshness = Freshness::Stale;
    let mut r3 = index_fixture("c", "/code/c");
    r3.freshness = Freshness::Active;

    idx.upsert_repo(&r1).unwrap();
    idx.upsert_repo(&r2).unwrap();
    idx.upsert_repo(&r3).unwrap();

    let summary = idx.freshness_summary().unwrap();
    assert_eq!(summary.active, 2);
    assert_eq!(summary.stale, 1);
    assert_eq!(summary.recent, 0);
}

#[test]
fn index_summary() {
    let mut idx = Index::open_in_memory().unwrap();

    let mut dirty_repo = index_fixture("dirty", "/code/dirty");
    dirty_repo.dirty = true;
    dirty_repo.ahead = 1;

    let mut orphan_repo = index_fixture("orphan", "/code/orphan");
    orphan_repo.remotes.clear();
    orphan_repo.dirty = false;
    orphan_repo.ahead = 0;

    idx.upsert_repo(&dirty_repo).unwrap();
    idx.upsert_repo(&orphan_repo).unwrap();

    let summary = idx.summary().unwrap();
    assert_eq!(summary.total_repos, 2);
    assert_eq!(summary.dirty_count, 1);
    assert_eq!(summary.unpushed_count, 1);
    assert_eq!(summary.orphan_count, 1);
}

#[test]
fn record_and_get_scan() {
    let mut idx = Index::open_in_memory().unwrap();

    assert!(idx.last_scan_time().unwrap().is_none());

    idx.record_scan(&vec!["/home/user".to_string()], 42).unwrap();

    let ts = idx.last_scan_time().unwrap().unwrap();
    assert!(ts <= index_now());

    let roots = idx.last_scan_roots().unwrap();
    assert_eq!(roots, vec!["/home/user".to_string()]);
}

#[test]
fn ownership_roundtrips() {
    let mut idx = Index::open_in_memory().unwrap();

    let mut r = index_fixture("personal", "/code/personal");
    r.ownership = Some(Ownership::Personal);
    idx.upsert_repo(&r).unwrap();
    let loaded = idx.get_repo_by_path("/code/personal").unwrap().unwrap();
    assert_eq!(loaded.ownership, Some(Ownership::Personal));

    let mut r = index_fixture("community", "/code/community");
    r.ownership = Some(Ownership::Community);
    idx.upsert_repo(&r).unwrap();
    let loaded = idx.get_repo_by_path("/code/community").unwrap().unwrap();
    assert_eq!(loaded.ownership, Some(Ownership::Community));

    let mut r = index_fixture("none", "/code/none");
    r.ownership = None;
    idx.upsert_repo(&r).unwrap();
    let loaded = idx.get_repo_by_path("/code/none").unwrap().unwrap();
    assert!(loaded.ownership.is_none());
}

#[test]
fn upsert_replaces_tags_instead_of_merging() {
    let mut idx = Index::open_in_memory().unwrap();
    let mut repo = index_fixture("t", "/code/t");
    repo.tags = vec!["a".into(), "b".into()];
    idx.upsert_repo(&repo).unwrap();
    repo.tags = vec!["c".into()];
    idx.upsert_repo(&repo).unwrap();
    let loaded = idx.get_repo_by_path("/code/t").unwrap().unwrap();
    assert_eq!(loaded.tags, vec!["c".to_string()]);
}

#[test]
fn upsert_twice_is_idempotent() {
    let mut idx = Index::open_in_memory().unwrap();
    let repo = index_fixture("same", "/code/same");
    let first = idx.upsert_repo(&repo).unwrap();
    let before = idx.all_repos().unwrap();
    let second = idx.upsert_repo(&repo).unwrap();
    let after = idx.all_repos().unwrap();
    assert_eq!(first, second);
    assert_eq!(before.len(), after.len());
    assert_eq!(before[0].id, after[0].id);
    assert_eq!(before[0].tags, after[0].tags);
    assert_eq!(before[0].remotes.len(), after[0].remotes.len());
    assert_eq!(before[0].remotes[0].url, after[0].remotes[0].url);
    assert_eq!(before[0].first_seen, after[0].first_seen);
}

#[test]
fn upsert_keeps_id_and_first_seen_and_dedups_tags() {
    let mut idx = Index::open_in_memory().unwrap();
    let mut repo = index_fixture("k", "/code/k");
    repo.first_seen = 100;
    let id = idx.upsert_repo(&repo).unwrap();
    repo.first_seen = 200;
    repo.name = "renamed".into();
    repo.tags = vec!["Rust".into(), "rust".into()];
    assert_eq!(idx.upsert_repo(&repo).unwrap(), id);
    let loaded = idx.get_repo_by_path("/code/k").unwrap().unwrap();
    assert_eq!(loaded.first_seen, 100);
    assert_eq!(loaded.name, "renamed");
    assert_eq!(loaded.tags, vec!["Rust".to_string()]);
    let other = idx.upsert_repo(&index_fixture("k2", "/code/k2")).unwrap();
    assert_eq!(other, id + 1);
}

#[test]
fn fuzzy_lookup_prefers_prefix_over_substring() {
    let mut idx = Index::open_in_memory().unwrap();
    idx.upsert_repo(&index_fixture("my-api", "/code/my-api")).unwrap();
    idx.upsert_repo(&index_fixture("api-gateway", "/code/api-gateway")).unwrap();
    idx.upsert_repo(&index_fixture("api-tools", "/code/api-tools")).unwrap();
    assert_eq!(idx.get_repo_by_name("api-gateway").unwrap().unwrap().name, "api-gateway");
    let p = idx.get_repo_by_name("api").unwrap().unwrap();
    assert!(p.name.starts_with("api"));
    assert_eq!(idx.get_repo_by_name("gateway").unwrap().unwrap().name, "api-gateway");
}

#[test]
fn fuzzy_lookup_skips_lost_entries() {
    let mut idx = Index::open_in_memory().unwrap();
    let id = idx.upsert_repo(&index_fixture("ghost", "/code/ghost")).unwrap();
    idx.mark_lost(id).unwrap();
    assert!(idx.get_repo_by_name("ghost").unwrap().is_none());
}

#[test]
fn summary_counts_lost_and_managed() {
    let mut idx = Index::open_in_memory().unwrap();
    let mut m = index_fixture("m", "/code/m");
    m.managed_by = Some("cargo".into());
    let id = idx.upsert_repo(&m).unwrap();
    idx.upsert_repo(&index_fixture("n", "/code/n")).unwrap();
    idx.mark_lost(id).unwrap();
    idx.record_scan_at(&vec!["/code".to_string()], 2, 1_700_000_000);
    let s = idx.summary().unwrap();
    assert_eq!(s.lost_count, 1);
    assert_eq!(s.managed_count, 1);
    assert_eq!(s.freshness.active, 2);
    assert_eq!(s.last_scan, Some(1_700_000_000));
    assert_eq!(s.roots, vec!["/code".to_string()]);
}

#[test]
fn restore_entry_checks_order_and_paths() {
    let mut idx = Index::open_in_memory().unwrap();
    let mut a = index_fixture("a", "/code/a");
    a.id = 5;
    assert!(idx.restore_entry(a).is_ok());
    let mut b = index_fixture("b", "/code/b");
    b.id = 3;
    assert!(idx.restore_entry(b).is_err());
    let mut c = index_fixture("c", "/code/a");
    c.id = 9;
    assert!(idx.restore_entry(c).is_err());
    let next = idx.upsert_repo(&index_fixture("d", "/code/d")).unwrap();
    assert_eq!(next, 6);
}

#[test]
fn migrations_run_in_order_once() {
    assert_eq!(pending_migrations(0), vec![1, 2, 3]);
    assert_eq!(pending_migrations(1), vec![2, 3]);
    assert_eq!(pending_migrations(2), vec![3]);
    assert!(pending_migrations(3).is_empty());
    assert!(pending_migrations(7).is_empty());
}

fn index_now() -> i64 {
    std::time::SystemTime::now()
        .duration_since(std::time::UNIX_EPOCH)
        .map(|d| d.as_secs() as i64)
        .unwrap_or(0)
}
