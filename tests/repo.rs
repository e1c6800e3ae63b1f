use kissa::repo::{Category, Freshness, Intention, Ownership, Repo, RepoState, RepoVitals};

const DAY: i64 = 86_400;

#[test]
fn freshness_from_recent_commit() {
    let now = repo_now();
    assert_eq!(Freshness::from_commit_time(Some(now)), Freshness::Active);
}

#[test]
fn freshness_from_none() {
    assert_eq!(Freshness::from_commit_time(None), Freshness::Ancient);
}

#[test]
fn freshness_ordering() {
    assert!(Freshness::Active < Freshness::Ancient);
}

#[test]
fn freshness_tier_boundaries() {
    let now: i64 = 1_750_000_000;
    let at = |days: i64| Freshness::at(Some(now - days * DAY), now);
    assert_eq!(at(7), Freshness::Active);
    assert_eq!(at(8), Freshness::Recent);
    assert_eq!(at(30), Freshness::Recent);
    assert_eq!(at(31), Freshness::Stale);
    assert_eq!(at(90), Freshness::Stale);
    assert_eq!(at(91), Freshness::Dormant);
    assert_eq!(at(365), Freshness::Dormant);
    assert_eq!(at(366), Freshness::Ancient);
    assert_eq!(Freshness::at(None, now), Freshness::Ancient);
}

#[test]
fn freshness_partial_days_and_future_commits() {
    let now: i64 = 1_750_000_000;
    assert_eq!(Freshness::at(Some(now - 8 * DAY + 1), now), Freshness::Active);
    assert_eq!(Freshness::at(Some(now + DAY / 2), now), Freshness::Active);
    assert_eq!(Freshness::at(Some(now + 2 * DAY), now), Freshness::Ancient);
    assert_eq!(Freshness::at(Some(i64::MIN), i64::MAX), Freshness::Ancient);
}

#[test]
fn names_read_back() {
    for f in [Freshness::Active, Freshness::Recent, Freshness::Stale, Freshness::Dormant, Freshness::Ancient] {
        assert_eq!(Freshness::from_label(f.label()), Some(f));
    }
    for s in [RepoState::Active, RepoState::Lost, RepoState::Timeout] {
        assert_eq!(RepoState::from_name(s.name()), Some(s));
    }
    for c in [Category::Origin, Category::Clone, Category::Fork, Category::Mirror] {
        assert_eq!(Category::from_name(c.name()), Some(c));
    }
    for i in [
        Intention::Developing,
        Intention::Contributing,
        Intention::Reference,
        Intention::Dependency,
        Intention::Dotfiles,
        Intention::Infrastructure,
        Intention::Experiment,
        Intention::Archived,
    ] {
        assert_eq!(Intention::from_name(i.name()), Some(i));
    }
    assert_eq!(Intention::from_name("Developing"), None);
    assert_eq!(Freshness::from_label("fresh"), None);
}

#[test]
fn entry_from_vitals() {
    let vitals = RepoVitals {
        name: "tool".into(),
        remotes: vec![],
        default_branch: Some("main".into()),
        current_branch: None,
        branch_count: 2,
        stale_branch_count: 1,
        dirty: true,
        staged: false,
        untracked: true,
        ahead: 1,
        behind: 0,
        last_commit: Some(1_000_000 - 40 * DAY),
        is_bare: false,
    };
    let r = Repo::from_vitals_at(vitals, "/code/tool".into(), 1_000_000);
    assert_eq!(r.id, 0);
    assert_eq!(r.name, "tool");
    assert_eq!(r.path, "/code/tool");
    assert_eq!(r.state, RepoState::Active);
    assert_eq!(r.freshness, Freshness::Stale);
    assert_eq!(r.first_seen, 1_000_000);
    assert_eq!(r.last_verified, Some(1_000_000));
    assert!(r.tags.is_empty());
    assert!(r.ownership.is_none());
}

fn repo_now() -> i64 {
    std::time::SystemTime::now()
        .duration_since(std::time::UNIX_EPOCH)
        .map(|d| d.as_secs() as i64)
        .unwrap_or(0)
}

#[test]
fn ownership_storage_round_trip() {
    for o in [
        Ownership::Personal,
        Ownership::Work { label: "initech".into() },
        Ownership::Community,
        Ownership::ThirdParty,
        Ownership::Local,
    ] {
        assert_eq!(Ownership::from_stored(o.kind(), &o.label()), Some(o));
    }
    assert_eq!(Ownership::from_stored("work", &None), Some(Ownership::Work { label: String::new() }));
    assert_eq!(Ownership::from_stored("boss", &None), None);
}
