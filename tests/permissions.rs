use kissa::config::KissaConfig;
use kissa::error::KissaError;
use kissa::permissions::{check_permission, effective_difficulty, resolve_level, DifficultyLevel, OperationClass};

fn default_config() -> KissaConfig {
    KissaConfig::default()
}

#[test]
fn difficulty_ordering() {
    assert!(DifficultyLevel::Readonly < DifficultyLevel::Commit);
    assert!(DifficultyLevel::Commit < DifficultyLevel::Force);
    assert!(DifficultyLevel::Force < DifficultyLevel::Unsafe);
}

#[test]
fn operation_class_levels() {
    assert_eq!(OperationClass::Read.required_level(), DifficultyLevel::Readonly);
    assert_eq!(OperationClass::Write.required_level(), DifficultyLevel::Commit);
    assert_eq!(OperationClass::Destructive.required_level(), DifficultyLevel::Unsafe);
}

#[test]
fn cat_mode_names() {
    assert_eq!(DifficultyLevel::Readonly.display_name(true), "napping");
    assert_eq!(DifficultyLevel::Unsafe.display_name(true), "knocking-things-off-the-counter");
    assert_eq!(DifficultyLevel::Commit.display_name(false), "commit");
}

#[test]
fn cli_default_is_commit() {
    let config = default_config();
    let level = effective_difficulty("/some/repo", &config, false);
    assert_eq!(level, DifficultyLevel::Commit);
}

#[test]
fn mcp_default_is_readonly() {
    let config = default_config();
    let level = effective_difficulty("/some/repo", &config, true);
    assert_eq!(level, DifficultyLevel::Readonly);
}

#[test]
fn per_path_override() {
    let mut config = default_config();
    config
        .overrides
        .push(("/home/user/experiments/*".into(), DifficultyLevel::Force));

    let level = effective_difficulty("/home/user/experiments/scratch", &config, false);
    assert_eq!(level, DifficultyLevel::Force);

    let level = effective_difficulty("/home/user/work/api", &config, false);
    assert_eq!(level, DifficultyLevel::Commit);
}

#[test]
fn permission_check_allows_read_at_readonly() {
    let config = default_config();
    let result = check_permission(OperationClass::Read, "/some/repo", &config, true);
    assert!(result.is_ok());
}

#[test]
fn permission_check_blocks_write_at_readonly() {
    let config = default_config();
    let result = check_permission(OperationClass::Write, "/some/repo", &config, true);
    assert!(result.is_err());
    if let Err(KissaError::PermissionDenied {
        required, current, ..
    }) = result
    {
        assert_eq!(required, DifficultyLevel::Commit);
        assert_eq!(current, DifficultyLevel::Readonly);
    }
}

#[test]
fn permission_check_allows_write_at_commit() {
    let config = default_config();
    let result = check_permission(OperationClass::Write, "/some/repo", &config, false);
    assert!(result.is_ok());
}

#[test]
fn permission_check_blocks_force_at_commit() {
    let config = default_config();
    let result = check_permission(OperationClass::Force, "/some/repo", &config, false);
    assert!(result.is_err());
}

#[test]
fn force_override_wins_in_every_context() {
    let mut config = default_config();
    config.overrides.push(("/srv/*".into(), DifficultyLevel::Force));
    assert_eq!(effective_difficulty("/srv/app", &config, true), DifficultyLevel::Force);
    assert_eq!(effective_difficulty("/srv/app", &config, false), DifficultyLevel::Force);
    assert_eq!(effective_difficulty("/home/app", &config, true), DifficultyLevel::Readonly);
    assert!(check_permission(OperationClass::Force, "/srv/app", &config, true).is_ok());
}

#[test]
fn first_matching_override_wins() {
    let mut config = default_config();
    config.overrides.push(("/srv/*".into(), DifficultyLevel::Fetch));
    config.overrides.push(("/srv/app".into(), DifficultyLevel::Unsafe));
    config.overrides.push(("[".into(), DifficultyLevel::Unsafe));
    assert_eq!(effective_difficulty("/srv/app", &config, false), DifficultyLevel::Fetch);
    assert_eq!(resolve_level(&config, &[false, true, false], false), DifficultyLevel::Unsafe);
    assert_eq!(resolve_level(&config, &[false, false, false], true), DifficultyLevel::Readonly);
}

#[test]
fn refusal_names_operation_and_levels() {
    let config = default_config();
    let err = check_permission(OperationClass::Destructive, "/x", &config, false).unwrap_err();
    assert_eq!(
        err.message(),
        "operation blocked: Destructive requires difficulty 'Unsafe', current is 'Commit'"
    );
}
