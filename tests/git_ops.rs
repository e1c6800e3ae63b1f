use kissa::git_ops::{
    count_branches, infer_name, parse_remote_org, path_file_name, pick_default_branch,
    working_tree_flags, FileStatus,
};
use kissa::repo::Remote;

#[test]
fn parse_ssh_url() {
    let info = parse_remote_org("git@github.com:initech/api-gateway.git").unwrap();
    assert_eq!(info.platform, "github.com");
    assert_eq!(info.org, "initech");
    assert_eq!(info.repo_name, "api-gateway");
}

#[test]
fn parse_https_url() {
    let info = parse_remote_org("https://github.com/aaronsb/kissa.git").unwrap();
    assert_eq!(info.platform, "github.com");
    assert_eq!(info.org, "aaronsb");
    assert_eq!(info.repo_name, "kissa");
}

#[test]
fn parse_https_no_git_suffix() {
    let info = parse_remote_org("https://gitlab.com/myorg/myrepo").unwrap();
    assert_eq!(info.platform, "gitlab.com");
    assert_eq!(info.org, "myorg");
    assert_eq!(info.repo_name, "myrepo");
}

#[test]
fn infer_name_from_remote() {
    let remotes = vec![Remote {
        name: "origin".into(),
        url: "git@github.com:aaronsb/kissa.git".into(),
        push_url: None,
    }];
    assert_eq!(infer_name("/code/whatever", &remotes), "kissa");
}

#[test]
fn infer_name_from_path() {
    let remotes = vec![];
    assert_eq!(infer_name("/home/user/code/my-project", &remotes), "my-project");
}

#[test]
fn unparseable_urls_give_none() {
    assert!(parse_remote_org("git@github.com").is_none());
    assert!(parse_remote_org("git@github.com:lonely").is_none());
    assert!(parse_remote_org("https://github.com/only-org").is_none());
    assert!(parse_remote_org("ftp://host/org/repo").is_none());
    assert!(parse_remote_org("/local/path/repo.git").is_none());
}

#[test]
fn http_and_repeated_suffix() {
    let info = parse_remote_org("http://example.org/team/tool.git.git").unwrap();
    assert_eq!(info.platform, "example.org");
    assert_eq!(info.org, "team");
    assert_eq!(info.repo_name, "tool");
}

#[test]
fn infer_name_falls_back_when_origin_unparseable() {
    let remotes = vec![
        Remote {
            name: "upstream".into(),
            url: "git@github.com:other/upstream-name.git".into(),
            push_url: None,
        },
        Remote {
            name: "origin".into(),
            url: "/srv/mirror".into(),
            push_url: None,
        },
    ];
    assert_eq!(infer_name("/code/local-name/", &remotes), "local-name");
    assert_eq!(infer_name("/", &[]), "unknown");
}

#[test]
fn file_name_of_paths() {
    assert_eq!(path_file_name("/a/b/c"), Some("c".to_string()));
    assert_eq!(path_file_name("/a/b/"), Some("b".to_string()));
    assert_eq!(path_file_name("/a/.."), None);
    assert_eq!(path_file_name(""), None);
}

#[test]
fn branch_counts_and_staleness() {
    let now: i64 = 1_000_000_000;
    let day: i64 = 86_400;
    let tips = vec![Some(now), Some(now - 91 * day), None, Some(now - 90 * day)];
    assert_eq!(count_branches(&tips, now), (4, 1));
    assert_eq!(count_branches(&vec![], now), (0, 0));
}

#[test]
fn tree_flags_from_file_statuses() {
    let files = vec![
        FileStatus { worktree_changed: false, index_changed: true, untracked: false },
        FileStatus { worktree_changed: false, index_changed: false, untracked: true },
    ];
    assert_eq!(working_tree_flags(&files), (false, true, true));
    assert_eq!(working_tree_flags(&vec![]), (false, false, false));
}

#[test]
fn default_branch_choice() {
    assert_eq!(pick_default_branch(Some("dev".into()), &[true, true, true, true]), Some("dev".to_string()));
    assert_eq!(pick_default_branch(None, &[false, true, true, false]), Some("master".to_string()));
    assert_eq!(pick_default_branch(None, &[false, false, false, false]), None);
}
