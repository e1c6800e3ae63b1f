use std::path::PathBuf;

use kissa::classify::{apply_rule, classify_repo, classify_repo_in, ownership_from_word, parse_ownership};
use kissa::config::{ClassifyMatch, ClassifyRule, ClassifySet, KissaConfig};
use kissa::repo::{Freshness, Intention, Ownership, Remote, Repo, RepoState};

fn classify_fixture(name: &str, path: &str) -> Repo {
    let now = classify_now();
    Repo {
        id: 0,
        name: name.to_string(),
        path: path.to_string(),
        state: RepoState::Active,
        remotes: vec![Remote {
            name: "origin".into(),
            url: "git@github.com:someuser/somerepo.git".into(),
            push_url: None,
        }],
        default_branch: Some("main".into()),
        current_branch: Some("main".into()),
        branch_count: 1,
        stale_branch_count: 0,
        dirty: false,
        staged: false,
        untracked: false,
        ahead: 0,
        behind: 0,
        last_commit: Some(now),
        last_verified: Some(now),
        first_seen: now,
        freshness: Freshness::Active,
        category: None,
        ownership: None,
        intention: None,
        managed_by: None,
        tags: vec![],
        project: None,
        role: None,
        is_bare: false,
    }
}

fn empty_config() -> KissaConfig {
    KissaConfig::default()
}

fn home_path() -> PathBuf {
    dirs::home_dir().unwrap_or_else(|| PathBuf::from("/home/testuser"))
}

#[test]
fn path_match_sets_managed_by() {
    let mut config = empty_config();
    config.classify.push(ClassifyRule {
        match_criteria: ClassifyMatch {
            path: Some("/home/user/.config/nvim/lazy/*".into()),
            ..Default::default()
        },
        set: ClassifySet::default(),
        managed_by: Some("lazy.nvim".into()),
        tags: vec![],
    });

    let mut repo = classify_fixture("plenary.nvim", "/home/user/.config/nvim/lazy/plenary.nvim");
    classify_repo(&mut repo, &config);
    assert_eq!(repo.managed_by, Some("lazy.nvim".into()));
}

#[test]
fn org_match_sets_ownership() {
    let mut config = empty_config();
    config.classify.push(ClassifyRule {
        match_criteria: ClassifyMatch {
            org: Some("rust-lang".into()),
            ..Default::default()
        },
        set: ClassifySet {
            ownership: Some("community".into()),
            intention: Some("reference".into()),
            ..Default::default()
        },
        managed_by: None,
        tags: vec![],
    });

    let mut repo = classify_fixture("rust", "/home/user/code/rust");
    repo.remotes = vec![Remote {
        name: "origin".into(),
        url: "git@github.com:rust-lang/rust.git".into(),
        push_url: None,
    }];
    classify_repo(&mut repo, &config);
    assert_eq!(repo.ownership, Some(Ownership::Community));
    assert_eq!(repo.intention, Some(Intention::Reference));
}

#[test]
fn first_match_per_field_wins() {
    let mut config = empty_config();
    config.classify.push(ClassifyRule {
        match_criteria: ClassifyMatch {
            path: Some("/code/*".into()),
            ..Default::default()
        },
        set: ClassifySet {
            ownership: Some("personal".into()),
            ..Default::default()
        },
        managed_by: None,
        tags: vec![],
    });
    config.classify.push(ClassifyRule {
        match_criteria: ClassifyMatch {
            path: Some("/code/*".into()),
            ..Default::default()
        },
        set: ClassifySet {
            ownership: Some("community".into()),
            intention: Some("developing".into()),
            ..Default::default()
        },
        managed_by: None,
        tags: vec![],
    });

    let mut repo = classify_fixture("myrepo", "/code/myrepo");
    classify_repo(&mut repo, &config);
    assert_eq!(repo.ownership, Some(Ownership::Personal));
    assert_eq!(repo.intention, Some(Intention::Developing));
}

#[test]
fn tags_always_appended() {
    let mut config = empty_config();
    config.classify.push(ClassifyRule {
        match_criteria: ClassifyMatch {
            path: Some("/code/*".into()),
            ..Default::default()
        },
        set: ClassifySet::default(),
        managed_by: None,
        tags: vec!["rust".into()],
    });
    config.classify.push(ClassifyRule {
        match_criteria: ClassifyMatch {
            path: Some("/code/*".into()),
            ..Default::default()
        },
        set: ClassifySet::default(),
        managed_by: None,
        tags: vec!["backend".into()],
    });

    let mut repo = classify_fixture("myrepo", "/code/myrepo");
    classify_repo(&mut repo, &config);
    assert!(repo.tags.contains(&"rust".to_string()));
    assert!(repo.tags.contains(&"backend".to_string()));
}

#[test]
fn tags_deduplicated() {
    let mut config = empty_config();
    config.classify.push(ClassifyRule {
        match_criteria: ClassifyMatch {
            path: Some("/code/*".into()),
            ..Default::default()
        },
        set: ClassifySet::default(),
        managed_by: None,
        tags: vec!["rust".into()],
    });

    let mut repo = classify_fixture("myrepo", "/code/myrepo");
    repo.tags = vec!["rust".into()];
    classify_repo(&mut repo, &config);
    assert_eq!(repo.tags.len(), 1);
}

#[test]
fn heuristic_matches_lazy_nvim() {
    let path = home_path().join(".local/share/nvim/lazy/telescope.nvim");
    let mut repo = classify_fixture("telescope.nvim", path.to_str().unwrap());
    classify_repo(&mut repo, &empty_config());

    assert_eq!(repo.managed_by, Some("lazy.nvim".into()));
    assert_eq!(repo.ownership, Some(Ownership::ThirdParty));
    assert_eq!(repo.intention, Some(Intention::Dependency));
}

#[test]
fn heuristic_matches_cargo_checkouts() {
    let path = home_path().join(".cargo/git/checkouts/serde-abc123");
    let mut repo = classify_fixture("serde-abc123", path.to_str().unwrap());
    classify_repo(&mut repo, &empty_config());

    assert_eq!(repo.managed_by, Some("cargo".into()));
}

#[test]
fn config_rule_overrides_heuristic() {
    let home = home_path();
    let path = home.join(".local/share/nvim/lazy/my-plugin");

    let mut config = empty_config();
    config.classify.push(ClassifyRule {
        match_criteria: ClassifyMatch {
            path: Some(format!("{}/.local/share/nvim/lazy/*", home.display())),
            ..Default::default()
        },
        set: ClassifySet {
            ownership: Some("personal".into()),
            ..Default::default()
        },
        managed_by: Some("custom-manager".into()),
        tags: vec!["nvim".into()],
    });

    let mut repo = classify_fixture("my-plugin", path.to_str().unwrap());
    classify_repo(&mut repo, &config);

    assert_eq!(repo.managed_by, Some("custom-manager".into()));
    assert_eq!(repo.ownership, Some(Ownership::Personal));
    assert!(repo.tags.contains(&"nvim".to_string()));
}

#[test]
fn no_match_leaves_fields_none() {
    let mut repo = classify_fixture("random-repo", "/tmp/random-repo");
    classify_repo(&mut repo, &empty_config());

    assert!(repo.managed_by.is_none());
    assert!(repo.ownership.is_none());
    assert!(repo.intention.is_none());
    assert!(repo.category.is_none());
}

#[test]
fn and_combined_criteria() {
    let mut config = empty_config();
    config.classify.push(ClassifyRule {
        match_criteria: ClassifyMatch {
            path: Some("/work/*".into()),
            org: Some("acme-corp".into()),
            ..Default::default()
        },
        set: ClassifySet {
            ownership: Some("work:acme".into()),
            ..Default::default()
        },
        managed_by: None,
        tags: vec![],
    });

    let mut repo = classify_fixture("myrepo", "/work/myrepo");
    classify_repo(&mut repo, &config);
    assert!(repo.ownership.is_none());

    let mut repo = classify_fixture("myrepo", "/work/myrepo");
    repo.remotes = vec![Remote {
        name: "origin".into(),
        url: "git@github.com:acme-corp/myrepo.git".into(),
        push_url: None,
    }];
    classify_repo(&mut repo, &config);
    assert_eq!(
        repo.ownership,
        Some(Ownership::Work {
            label: "acme".into()
        })
    );
}

#[test]
fn work_ownership_parsing() {
    assert_eq!(
        parse_ownership("work:acme"),
        Some(Ownership::Work {
            label: "acme".into()
        })
    );
    assert_eq!(parse_ownership("personal"), Some(Ownership::Personal));
    assert_eq!(parse_ownership("third-party"), Some(Ownership::ThirdParty));
    assert_eq!(parse_ownership("thirdparty"), Some(Ownership::ThirdParty));
    assert_eq!(parse_ownership("community"), Some(Ownership::Community));
    assert_eq!(parse_ownership("local"), Some(Ownership::Local));
    assert_eq!(parse_ownership("nonsense"), None);
}

#[test]
fn ownership_words_fold_case() {
    assert_eq!(parse_ownership("PERSONAL"), Some(Ownership::Personal));
    assert_eq!(parse_ownership("Third-Party"), Some(Ownership::ThirdParty));
}

#[test]
fn tilde_in_rule_path_expands_to_home() {
    let mut config = empty_config();
    config.classify.push(ClassifyRule {
        match_criteria: ClassifyMatch {
            path: Some("~/src/*".into()),
            ..Default::default()
        },
        set: ClassifySet {
            intention: Some("experiment".into()),
            ..Default::default()
        },
        managed_by: None,
        tags: vec![],
    });
    let mut repo = classify_fixture("toy", "/home/tester/src/toy");
    classify_repo_in(&mut repo, &config, &Some("/home/tester".to_string()));
    assert_eq!(repo.intention, Some(Intention::Experiment));

    let mut other = classify_fixture("toy", "/home/other/src/toy");
    classify_repo_in(&mut other, &config, &Some("/home/tester".to_string()));
    assert!(other.intention.is_none());
}

#[test]
fn rule_sets_state_and_category() {
    let rule = ClassifyRule {
        match_criteria: ClassifyMatch::default(),
        set: ClassifySet {
            category: Some("fork".into()),
            state: Some("timeout".into()),
            ..Default::default()
        },
        managed_by: None,
        tags: vec!["Rust".into(), "rust".into(), "go".into()],
    };
    let mut repo = classify_fixture("x", "/code/x");
    apply_rule(&rule, &mut repo);
    assert_eq!(repo.state, RepoState::Timeout);
    assert_eq!(repo.category, Some(kissa::repo::Category::Fork));
    assert_eq!(repo.tags, vec!["Rust".to_string(), "go".to_string()]);
}

#[test]
fn has_remote_criterion_requires_a_remote() {
    let mut config = empty_config();
    config.classify.push(ClassifyRule {
        match_criteria: ClassifyMatch {
            has_remote: Some(true),
            ..Default::default()
        },
        set: ClassifySet::default(),
        managed_by: Some("tool".into()),
        tags: vec![],
    });
    let mut with_remote = classify_fixture("a", "/code/a");
    classify_repo(&mut with_remote, &config);
    assert_eq!(with_remote.managed_by, Some("tool".into()));

    let mut without = classify_fixture("b", "/code/b");
    without.remotes.clear();
    classify_repo(&mut without, &config);
    assert!(without.managed_by.is_none());
}

fn classify_now() -> i64 {
    std::time::SystemTime::now()
        .duration_since(std::time::UNIX_EPOCH)
        .map(|d| d.as_secs() as i64)
        .unwrap_or(0)
}

#[test]
fn ownership_words_after_lowering() {
    assert_eq!(ownership_from_word("third-party"), Some(Ownership::ThirdParty));
    assert_eq!(ownership_from_word("Personal"), None);
    assert_eq!(ownership_from_word("local"), Some(Ownership::Local));
}

#[test]
fn bare_criterion_matches_only_bare_entries() {
    let mut config = empty_config();
    config.classify.push(ClassifyRule {
        match_criteria: ClassifyMatch {
            is_bare: Some(true),
            ..Default::default()
        },
        set: ClassifySet {
            category: Some("mirror".into()),
            ..Default::default()
        },
        managed_by: None,
        tags: vec![],
    });
    let mut bare = classify_fixture("m.git", "/srv/m.git");
    bare.is_bare = true;
    classify_repo(&mut bare, &config);
    assert_eq!(bare.category, Some(kissa::repo::Category::Mirror));
    let mut work = classify_fixture("w", "/srv/w");
    classify_repo(&mut work, &config);
    assert!(work.category.is_none());
}
