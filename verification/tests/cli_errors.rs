use infiniloom_cli::errors::{CliError, ExitCode};

#[test]
fn test_invalid_argument_error() {
    let err = CliError::invalid_argument("invalid value");
    assert_eq!(err.message(), "Invalid argument: invalid value");
}

#[test]
fn test_missing_argument_error() {
    let err = CliError::missing_argument("path");
    assert_eq!(err.message(), "Missing required argument: path");
}

#[test]
fn test_invalid_path_error() {
    let err = CliError::invalid_path("/invalid", "not a directory");
    assert_eq!(err.message(), "Invalid path: /invalid: not a directory");
}

#[test]
fn test_path_not_found_error() {
    let err = CliError::path_not_found("/nonexistent");
    assert_eq!(err.message(), "Path not found: /nonexistent");
}

#[test]
fn test_not_git_repo_error() {
    let err = CliError::not_git_repo("/tmp");
    assert_eq!(err.message(), "Not a git repository: /tmp");
}

#[test]
fn test_index_not_found_error() {
    let err = CliError::index_not_found("/repo");
    assert_eq!(
        err.message(),
        "No index found at /repo. Run 'infiniloom index' first to build the index"
    );
}

#[test]
fn test_security_issues_error() {
    let err = CliError::security_issues(10, 3);
    assert_eq!(err.message(), "Security scan found 10 issues (3 critical)");
}

#[test]
fn test_budget_exceeded_error() {
    let err = CliError::budget_exceeded(150000, 100000);
    assert_eq!(err.message(), "Token budget exceeded: 150000 tokens used, 100000 allowed");
}

#[test]
fn test_command_failed_error() {
    let err = CliError::command_failed("git", "command not found");
    assert_eq!(err.message(), "Command failed: git: command not found");
}

#[test]
fn test_feature_unavailable_error() {
    let err = CliError::feature_unavailable(
        "embeddings",
        "Install with: cargo install infiniloom --features embeddings",
    );
    assert_eq!(
        err.message(),
        "Feature not available: embeddings. Install with: cargo install infiniloom --features embeddings"
    );
}

#[test]
fn test_is_user_error() {
    assert!(CliError::invalid_argument("test").is_user_error());
    assert!(CliError::missing_argument("path").is_user_error());
    assert!(CliError::path_not_found("/test").is_user_error());
    assert!(CliError::InvalidFormat("badformat".to_owned()).is_user_error());
    assert!(!CliError::GitNotAvailable.is_user_error());
}

#[test]
fn test_is_internal_error() {
    assert!(CliError::GitNotAvailable.is_internal_error());
    assert!(CliError::command_failed("git", "failed").is_internal_error());
    assert!(!CliError::invalid_argument("test").is_internal_error());
}

#[test]
fn test_is_recoverable() {
    assert!(CliError::security_issues(1, 0).is_recoverable());
    assert!(CliError::budget_exceeded(100, 50).is_recoverable());
    assert!(CliError::NoChanges.is_recoverable());
    assert!(!CliError::GitNotAvailable.is_recoverable());
}

#[test]
fn test_is_critical() {
    assert!(CliError::GitNotAvailable.is_critical());
    assert!(!CliError::invalid_argument("test").is_critical());
    assert!(!CliError::NoChanges.is_critical());
}

#[test]
fn test_exit_codes() {
    // Argument errors: exit code 2 (ARGUMENT_ERROR)
    assert_eq!(CliError::invalid_argument("test").exit_code(), Some(2));
    assert_eq!(CliError::missing_argument("path").exit_code(), Some(2));
    assert_eq!(CliError::InvalidFormat("bad".to_owned()).exit_code(), Some(2));

    // Git errors: exit code 1 (GENERAL_ERROR)
    assert_eq!(CliError::not_git_repo("/tmp").exit_code(), Some(1));
    assert_eq!(CliError::GitNotAvailable.exit_code(), Some(1));

    // No changes: exit code 40 (NO_FILES_MATCHED)
    assert_eq!(CliError::NoChanges.exit_code(), Some(40));

    // Index/path errors: exit code 30 (NOT_FOUND)
    assert_eq!(CliError::index_not_found("/repo").exit_code(), Some(30));
    assert_eq!(CliError::IndexStale.exit_code(), Some(30));

    // Security errors: exit code 10 (SECRETS_DETECTED)
    assert_eq!(CliError::security_issues(1, 0).exit_code(), Some(10));

    // Budget errors: exit code 45 (BUDGET_EXCEEDED)
    assert_eq!(CliError::budget_exceeded(100, 50).exit_code(), Some(45));

    // Feature unavailable: exit code 1 (GENERAL_ERROR)
    assert_eq!(CliError::feature_unavailable("test", "hint").exit_code(), Some(1));

    // System errors: exit code 1 (GENERAL_ERROR)
    assert_eq!(CliError::command_failed("git", "failed").exit_code(), Some(1));
}

#[test]
fn test_structured_exit_codes() {
    assert_eq!(CliError::invalid_argument("test").structured_exit_code(), ExitCode::ArgumentError);
    assert_eq!(CliError::security_issues(1, 0).structured_exit_code(), ExitCode::SecretsDetected);
    assert_eq!(CliError::budget_exceeded(100, 50).structured_exit_code(), ExitCode::BudgetExceeded);
    assert_eq!(CliError::path_not_found("/missing").structured_exit_code(), ExitCode::NotFound);
    assert_eq!(CliError::Config("bad".to_owned()).structured_exit_code(), ExitCode::ConfigInvalid);
}

fn embed(code: i32) -> CliError {
    CliError::Embed { message: "embedding failed".to_owned(), code }
}

#[test]
fn test_embed_error_exit_codes() {
    // invalid settings, no chunks, secrets, path traversal, manifest too new,
    // too many chunks, I/O, hash collision, parse error, multiple errors
    assert_eq!(embed(1).exit_code(), Some(2));
    assert_eq!(embed(2).exit_code(), Some(41));
    assert_eq!(embed(3).exit_code(), Some(10));
    assert_eq!(embed(4).exit_code(), Some(13));
    assert_eq!(embed(10).exit_code(), Some(44));
    assert_eq!(embed(11).exit_code(), Some(34));
    assert_eq!(embed(12).exit_code(), Some(30));
    assert_eq!(embed(13).exit_code(), Some(3));
    assert_eq!(embed(14).exit_code(), Some(1));
    assert_eq!(embed(15).exit_code(), Some(1));
}

#[test]
fn engine_and_io_errors_keep_their_status_and_message() {
    let e = CliError::Engine { message: "boom".to_owned(), code: ExitCode::InternalError };
    assert_eq!(e.message(), "Engine error: boom");
    assert_eq!(e.exit_code(), Some(3));
    assert!(e.is_critical() && e.is_internal_error() && !e.is_recoverable());
    let io = CliError::Io { message: "denied".to_owned(), code: ExitCode::NotFound };
    assert_eq!(io.message(), "I/O error: denied");
    assert_eq!(CliError::Config("x".to_owned()).exit_code(), None);
}

#[test]
fn critical_errors_are_internal_and_not_recoverable() {
    let all = vec![
        CliError::GitNotAvailable,
        CliError::NoChanges,
        CliError::IndexStale,
        CliError::other("x"),
        CliError::invalid_argument("a"),
        CliError::command_failed("c", "r"),
        CliError::security_issues(1, 1),
    ];
    for e in &all {
        if e.is_critical() {
            assert!(e.is_internal_error());
            assert!(!e.is_recoverable());
        }
        assert!(!(e.is_user_error() && e.is_internal_error()));
    }
}

#[test]
fn error_classes_are_consistent() {
    let errors = vec![
        CliError::invalid_argument("x"),
        CliError::missing_argument("p"),
        CliError::invalid_path("/a", "b"),
        CliError::path_not_found("/a"),
        CliError::not_git_repo("/a"),
        CliError::index_not_found("/a"),
        CliError::security_issues(1, 1),
        CliError::budget_exceeded(2, 1),
        CliError::command_failed("git", "x"),
        CliError::feature_unavailable("f", "h"),
        CliError::GitNotAvailable,
        CliError::NoChanges,
    ];
    for e in &errors {
        if e.is_critical() {
            assert!(e.is_internal_error());
            assert!(!e.is_recoverable());
            assert!(!e.is_user_error());
        }
        assert!(!(e.is_user_error() && e.is_internal_error()));
    }
}
