use kissa::error::KissaError;
use kissa::format::format_blocked;

#[test]
fn blocked_message_names_levels() {
    assert_eq!(
        format_blocked("push", "commit", "readonly"),
        "[blocked] push requires 'commit', current is 'readonly'\n? ask user: increase difficulty level or use per-path override"
    );
}

#[test]
fn error_messages() {
    assert_eq!(KissaError::Config("bad".into()).message(), "config error: bad");
    assert_eq!(
        KissaError::Git { path: "/r".into(), message: "gone".into() }.message(),
        "git error at /r: gone"
    );
    assert_eq!(KissaError::RepoNotFound("x".into()).message(), "repo not found: x");
}
