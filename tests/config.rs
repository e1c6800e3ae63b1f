use std::path::Path;

use kissa::config::{config_dir, config_dir_in, data_dir, data_dir_in, index_path, join, KissaConfig};
use kissa::permissions::DifficultyLevel;

#[test]
fn xdg_paths_are_sensible() {
    let cfg = config_dir();
    assert!(Path::new(&cfg).ends_with("kissa"));

    let data = data_dir();
    assert!(Path::new(&data).ends_with("kissa"));

    let idx = index_path();
    assert!(Path::new(&idx).ends_with("index.db"));
}

#[test]
fn defaults_are_as_documented() {
    let config = KissaConfig::default();
    assert_eq!(config.defaults.difficulty, DifficultyLevel::Commit);
    assert_eq!(config.defaults.mcp.difficulty, DifficultyLevel::Readonly);
    assert!(!config.scan.roots.is_empty());
    assert_eq!(config.scan.exclude.len(), 13);
    assert_eq!(config.scan.exclude[0], "node_modules");
    assert_eq!(config.scan.max_depth, 10);
    assert!(!config.scan.boundaries.cross_mounts);
    assert_eq!(config.scan.boundaries.stat_timeout_ms, 500);
    assert_eq!(config.safety.max_plan_size, 50);
    assert_eq!(config.display.color, "auto");
}

#[test]
fn directories_fall_back_without_platform_dirs() {
    assert_eq!(config_dir_in(None), "~/.config/kissa");
    assert_eq!(data_dir_in(Some("/var/data/".into())), "/var/data/kissa");
    assert_eq!(join("/a", "b"), "/a/b");
    assert_eq!(join("/a", "/b"), "/b");
    assert_eq!(join("", "b"), "b");
}
