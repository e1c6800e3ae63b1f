use kissa::config::ScanConfig;
use kissa::scanner::{
    decide_entry, is_bare_repo, is_excluded, parent_path, prunes, quick_verify, DirProbe,
    EntryDecision, PathProbe, ScanResult, SkipReason,
};

fn scan_config() -> ScanConfig {
    let mut c = ScanConfig::default();
    c.exclude = vec!["node_modules".into(), ".cache".into()];
    c.max_depth = 10;
    c
}

fn dir(path: &str, depth: usize) -> DirProbe {
    DirProbe {
        path: path.to_string(),
        depth,
        is_dir: true,
        device: Some(1),
        head_is_file: false,
        objects_is_dir: false,
        refs_is_dir: false,
        has_git_entry: false,
    }
}

#[test]
fn git_directory_yields_its_parent_once() {
    let config = scan_config();
    let probe = dir("/root/project-a/.git", 2);
    let d = decide_entry(&probe, "/root", Some(1), &config);
    assert_eq!(d, EntryDecision::FoundWorkTree);
    assert!(prunes(d));
    let mut result = ScanResult::new();
    result.record(&probe.path, d);
    assert_eq!(result.discovered.len(), 1);
    assert_eq!(result.discovered[0].path, "/root/project-a");
    assert!(!result.discovered[0].is_bare);
}

#[test]
fn bare_signature_is_found_and_not_descended() {
    let config = scan_config();
    let mut probe = dir("/root/repo.git", 1);
    probe.head_is_file = true;
    probe.objects_is_dir = true;
    probe.refs_is_dir = true;
    assert!(is_bare_repo(&probe));
    let d = decide_entry(&probe, "/root", Some(1), &config);
    assert_eq!(d, EntryDecision::FoundBare);
    assert!(prunes(d));
    let mut result = ScanResult::new();
    result.record(&probe.path, d);
    assert_eq!(result.discovered[0].path, "/root/repo.git");
    assert!(result.discovered[0].is_bare);
    probe.has_git_entry = true;
    assert!(!is_bare_repo(&probe));
}

#[test]
fn excluded_directories_are_counted() {
    let config = scan_config();
    let probe = dir("/root/node_modules", 1);
    let d = decide_entry(&probe, "/root", Some(1), &config);
    assert_eq!(d, EntryDecision::Skip(SkipReason::Excluded));
    let mut result = ScanResult::new();
    result.record(&probe.path, d);
    assert_eq!(result.skipped_excluded, 1);
    assert!(result.discovered.is_empty());
    assert!(is_excluded("/root/a/.cache/x", "/root", &config.exclude));
    assert!(!is_excluded("/root/real-project", "/root", &config.exclude));
    assert!(is_excluded("/root/x/target", "/root", &vec!["target/".to_string()]));
}

#[test]
fn too_deep_is_skipped() {
    let mut config = scan_config();
    config.max_depth = 3;
    let d = decide_entry(&dir("/root/a/b/c/d/e/.git", 6), "/root", Some(1), &config);
    assert_eq!(d, EntryDecision::Skip(SkipReason::MaxDepth));
}

#[test]
fn other_device_is_a_mount_boundary() {
    let mut config = scan_config();
    config.boundaries.cross_mounts = false;
    let mut probe = dir("/root/mnt/usb", 2);
    probe.device = Some(7);
    let d = decide_entry(&probe, "/root", Some(1), &config);
    assert_eq!(d, EntryDecision::Skip(SkipReason::MountBoundary));
    assert!(prunes(d));
    let mut result = ScanResult::new();
    result.record(&probe.path, d);
    assert_eq!(result.skipped_mounts, 1);

    config.boundaries.allow_mounts = vec!["/root/mnt".into()];
    assert_eq!(decide_entry(&probe, "/root", Some(1), &config), EntryDecision::Descend);
    config.boundaries.allow_mounts = vec!["/root/mn".into()];
    assert_eq!(
        decide_entry(&probe, "/root", Some(1), &config),
        EntryDecision::Skip(SkipReason::MountBoundary)
    );
}

#[test]
fn block_list_skips_regardless_of_boundary_setting() {
    let mut config = scan_config();
    config.boundaries.cross_mounts = true;
    config.boundaries.block_mounts = vec!["/root/net/".into()];
    let d = decide_entry(&dir("/root/net/share", 2), "/root", Some(1), &config);
    assert_eq!(d, EntryDecision::Skip(SkipReason::BlockedMount));
    assert_eq!(decide_entry(&dir("/root/network", 1), "/root", Some(1), &config), EntryDecision::Descend);
}

#[test]
fn plain_directories_are_entered() {
    let config = scan_config();
    let d = decide_entry(&dir("/root/not-a-repo", 1), "/root", Some(1), &config);
    assert_eq!(d, EntryDecision::Descend);
    assert!(!prunes(d));
    let mut file = dir("/root/file.txt", 1);
    file.is_dir = false;
    assert_eq!(decide_entry(&file, "/root", Some(1), &config), EntryDecision::NotADirectory);
}

#[test]
fn errors_are_recorded_and_scan_goes_on() {
    let mut result = ScanResult::new();
    result.record_error("/root/locked".into(), "permission denied".into());
    result.record("/root/x/.git", EntryDecision::FoundWorkTree);
    assert_eq!(result.errors.len(), 1);
    assert_eq!(result.discovered.len(), 1);
}

#[test]
fn parents_of_paths() {
    assert_eq!(parent_path("/a/b/.git"), "/a/b");
    assert_eq!(parent_path("/a/b/.git/"), "/a/b");
}

#[test]
fn quick_verify_sorts_known_paths() {
    let probes = vec![
        PathProbe { path: "/code/exists".into(), git_dir_exists: true, git_head_exists: true, head_exists: false },
        PathProbe { path: "/code/missing".into(), git_dir_exists: false, git_head_exists: false, head_exists: false },
        PathProbe { path: "/code/bare.git".into(), git_dir_exists: false, git_head_exists: false, head_exists: true },
        PathProbe { path: "/code/odd".into(), git_dir_exists: true, git_head_exists: false, head_exists: false },
    ];
    let result = quick_verify(&probes);
    assert_eq!(result.changed, vec!["/code/exists".to_string(), "/code/bare.git".to_string()]);
    assert_eq!(result.lost, vec!["/code/missing".to_string()]);
    assert_eq!(result.unchanged, vec!["/code/odd".to_string()]);
}
