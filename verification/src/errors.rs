//! The command-line tool's errors: how each reads, how it is classified
//! (user error, internal, recoverable, critical) and the exit status it
//! maps to.

use vstd::prelude::*;
use crate::text::{decimal, decimal_chars, push_all, push_str, string_from_chars};

verus! {

/// The structured exit statuses an error can map to.
#[derive(Clone, Copy, Debug, PartialEq, Eq, Structural)]
pub enum ExitCode {
    GeneralError,
    ArgumentError,
    InternalError,
    SecretsDetected,
    PathTraversalBlocked,
    NotFound,
    ResourceLimitExceeded,
    NoFilesMatched,
    NoChunksGenerated,
    ManifestCorrupted,
    BudgetExceeded,
    ConfigInvalid,
}

/// The process exit number of each status, where it is known here: the
/// number of a configuration error is assigned by the engine crate and is
/// not recorded in this library.
pub open spec fn exit_number(code: ExitCode) -> Option<i32> {
    match code {
        ExitCode::GeneralError => Some(1),
        ExitCode::ArgumentError => Some(2),
        ExitCode::InternalError => Some(3),
        ExitCode::SecretsDetected => Some(10),
        ExitCode::PathTraversalBlocked => Some(13),
        ExitCode::NotFound => Some(30),
        ExitCode::ResourceLimitExceeded => Some(34),
        ExitCode::NoFilesMatched => Some(40),
        ExitCode::NoChunksGenerated => Some(41),
        ExitCode::ManifestCorrupted => Some(44),
        ExitCode::BudgetExceeded => Some(45),
        ExitCode::ConfigInvalid => None,
    }
}

impl ExitCode {
    /// The exit number; see `exit_number`.
    pub fn code(self) -> (r: Option<i32>)
        ensures
            r == exit_number(self),
    {
        match self {
            ExitCode::GeneralError => Some(1),
            ExitCode::ArgumentError => Some(2),
            ExitCode::InternalError => Some(3),
            ExitCode::SecretsDetected => Some(10),
            ExitCode::PathTraversalBlocked => Some(13),
            ExitCode::NotFound => Some(30),
            ExitCode::ResourceLimitExceeded => Some(34),
            ExitCode::NoFilesMatched => Some(40),
            ExitCode::NoChunksGenerated => Some(41),
            ExitCode::ManifestCorrupted => Some(44),
            ExitCode::BudgetExceeded => Some(45),
            ExitCode::ConfigInvalid => None,
        }
    }
}

/// An error of the command-line tool. Errors that come from the engine, the
/// embedding pipeline or the file system carry their message and the status
/// their source assigns (for embedding errors, its numeric code).
#[derive(Debug)]
pub enum CliError {
    Engine { message: String, code: ExitCode },
    Embed { message: String, code: i32 },
    Io { message: String, code: ExitCode },
    InvalidArgument(String),
    MissingArgument(String),
    InvalidPath { path: String, reason: String },
    PathNotFound(String),
    NotGitRepo(String),
    GitNotAvailable,
    IndexNotFound { path: String },
    IndexStale,
    NoChanges,
    InvalidFormat(String),
    InvalidModel(String),
    Config(String),
    SecurityIssues { count: usize, critical: usize },
    BudgetExceeded { used: u32, budget: u32 },
    CommandFailed { command: String, reason: String },
    FeatureUnavailable { feature: String, hint: String },
    Other(String),
}

/// The message each error displays.
pub open spec fn error_message(e: CliError) -> Seq<char> {
    match e {
        CliError::Engine { message, .. } => "Engine error: "@ + message@,
        CliError::Embed { message, .. } => message@,
        CliError::Io { message, .. } => "I/O error: "@ + message@,
        CliError::InvalidArgument(m) => "Invalid argument: "@ + m@,
        CliError::MissingArgument(m) => "Missing required argument: "@ + m@,
        CliError::InvalidPath { path, reason } => "Invalid path: "@ + path@ + ": "@ + reason@,
        CliError::PathNotFound(p) => "Path not found: "@ + p@,
        CliError::NotGitRepo(p) => "Not a git repository: "@ + p@,
        CliError::GitNotAvailable => "Git command not found. Please install git and ensure it's in your PATH"@,
        CliError::IndexNotFound { path } => "No index found at "@ + path@
            + ". Run 'infiniloom index' first to build the index"@,
        CliError::IndexStale => "Index is stale. Run 'infiniloom index --force' to rebuild"@,
        CliError::NoChanges => "No changes detected in the repository"@,
        CliError::InvalidFormat(f) => "Invalid output format: "@ + f@
            + ". Supported formats: xml, json, markdown, yaml, toon, plain"@,
        CliError::InvalidModel(m) => "Invalid model: "@ + m@
            + ". See 'infiniloom info' for supported models"@,
        CliError::Config(m) => "Configuration error: "@ + m@,
        CliError::SecurityIssues { count, critical } => "Security scan found "@ + decimal(
            count as nat,
        ) + " issues ("@ + decimal(critical as nat) + " critical)"@,
        CliError::BudgetExceeded { used, budget } => "Token budget exceeded: "@ + decimal(used as nat)
            + " tokens used, "@ + decimal(budget as nat) + " allowed"@,
        CliError::CommandFailed { command, reason } => "Command failed: "@ + command@ + ": "@
            + reason@,
        CliError::FeatureUnavailable { feature, hint } => "Feature not available: "@ + feature@
            + ". "@ + hint@,
        CliError::Other(m) => m@,
    }
}

/// Errors the user can fix: bad input, missing arguments, wrong paths,
/// configuration, nothing to do, a missing or stale index.
pub open spec fn user_error(e: CliError) -> bool {
    match e {
        CliError::InvalidArgument(_) | CliError::MissingArgument(_) | CliError::InvalidPath { .. }
        | CliError::PathNotFound(_) | CliError::NotGitRepo(_) | CliError::InvalidFormat(_)
        | CliError::InvalidModel(_) | CliError::Config(_) | CliError::NoChanges
        | CliError::IndexNotFound { .. } | CliError::IndexStale => true,
        _ => false,
    }
}

/// Errors of the system or of the code: engine, I/O, missing git, a failed
/// command.
pub open spec fn internal_error(e: CliError) -> bool {
    match e {
        CliError::Engine { .. } | CliError::Io { .. } | CliError::GitNotAvailable
        | CliError::CommandFailed { .. } => true,
        _ => false,
    }
}

/// Errors after which the program can go on another way.
pub open spec fn recoverable_error(e: CliError) -> bool {
    match e {
        CliError::SecurityIssues { .. } | CliError::BudgetExceeded { .. } | CliError::NoChanges
        | CliError::IndexStale | CliError::FeatureUnavailable { .. } => true,
        _ => false,
    }
}

/// Errors that end the program at once.
pub open spec fn critical_error(e: CliError) -> bool {
    match e {
        CliError::Engine { .. } | CliError::Io { .. } | CliError::GitNotAvailable => true,
        _ => false,
    }
}

/// The status an embedding error's numeric code maps to.
pub open spec fn embed_exit(code: i32) -> ExitCode {
    if code == 1 {
        ExitCode::ArgumentError
    } else if code == 2 {
        ExitCode::NoChunksGenerated
    } else if code == 3 {
        ExitCode::SecretsDetected
    } else if code == 4 {
        ExitCode::PathTraversalBlocked
    } else if code == 10 {
        ExitCode::ManifestCorrupted
    } else if code == 11 {
        ExitCode::ResourceLimitExceeded
    } else if code == 12 {
        ExitCode::NotFound
    } else if code == 13 {
        ExitCode::InternalError
    } else {
        ExitCode::GeneralError
    }
}

/// The structured exit status of each error.
pub open spec fn error_exit(e: CliError) -> ExitCode {
    match e {
        CliError::Engine { code, .. } => code,
        CliError::Embed { code, .. } => embed_exit(code),
        CliError::Io { code, .. } => code,
        CliError::InvalidArgument(_) | CliError::MissingArgument(_) | CliError::InvalidFormat(_)
        | CliError::InvalidModel(_) => ExitCode::ArgumentError,
        CliError::InvalidPath { .. } | CliError::PathNotFound(_) => ExitCode::NotFound,
        CliError::NotGitRepo(_) | CliError::GitNotAvailable => ExitCode::GeneralError,
        CliError::NoChanges => ExitCode::NoFilesMatched,
        CliError::IndexNotFound { .. } | CliError::IndexStale => ExitCode::NotFound,
        CliError::SecurityIssues { .. } => ExitCode::SecretsDetected,
        CliError::BudgetExceeded { .. } => ExitCode::BudgetExceeded,
        CliError::Config(_) => ExitCode::ConfigInvalid,
        CliError::CommandFailed { .. } => ExitCode::GeneralError,
        CliError::FeatureUnavailable { .. } => ExitCode::GeneralError,
        CliError::Other(_) => ExitCode::GeneralError,
    }
}

fn owned(s: &str) -> (r: String)
    ensures
        r@ == s@,
{
    s.to_owned()
}

impl CliError {
    pub fn invalid_argument(msg: &str) -> (r: CliError)
        ensures
            r matches CliError::InvalidArgument(m) && m@ == msg@,
    {
        CliError::InvalidArgument(owned(msg))
    }

    pub fn missing_argument(name: &str) -> (r: CliError)
        ensures
            r matches CliError::MissingArgument(m) && m@ == name@,
    {
        CliError::MissingArgument(owned(name))
    }

    pub fn invalid_path(path: &str, reason: &str) -> (r: CliError)
        ensures
            r matches CliError::InvalidPath { path: p, reason: q } && p@ == path@ && q@ == reason@,
    {
        CliError::InvalidPath { path: owned(path), reason: owned(reason) }
    }

    pub fn path_not_found(path: &str) -> (r: CliError)
        ensures
            r matches CliError::PathNotFound(p) && p@ == path@,
    {
        CliError::PathNotFound(owned(path))
    }

    pub fn not_git_repo(path: &str) -> (r: CliError)
        ensures
            r matches CliError::NotGitRepo(p) && p@ == path@,
    {
        CliError::NotGitRepo(owned(path))
    }

    pub fn index_not_found(path: &str) -> (r: CliError)
        ensures
            r matches CliError::IndexNotFound { path: p } && p@ == path@,
    {
        CliError::IndexNotFound { path: owned(path) }
    }

    pub fn security_issues(count: usize, critical: usize) -> (r: CliError)
        ensures
            r == (CliError::SecurityIssues { count, critical }),
    {
        CliError::SecurityIssues { count, critical }
    }

    pub fn budget_exceeded(used: u32, budget: u32) -> (r: CliError)
        ensures
            r == (CliError::BudgetExceeded { used, budget }),
    {
        CliError::BudgetExceeded { used, budget }
    }

    pub fn command_failed(command: &str, reason: &str) -> (r: CliError)
        ensures
            r matches CliError::CommandFailed { command: c, reason: q } && c@ == command@ && q@
                == reason@,
    {
        CliError::CommandFailed { command: owned(command), reason: owned(reason) }
    }

    pub fn feature_unavailable(feature: &str, hint: &str) -> (r: CliError)
        ensures
            r matches CliError::FeatureUnavailable { feature: f, hint: h } && f@ == feature@ && h@
                == hint@,
    {
        CliError::FeatureUnavailable { feature: owned(feature), hint: owned(hint) }
    }

    pub fn other(msg: &str) -> (r: CliError)
        ensures
            r matches CliError::Other(m) && m@ == msg@,
    {
        CliError::Other(owned(msg))
    }

    /// Whether the user can fix this error; see `user_error`.
    pub fn is_user_error(&self) -> (r: bool)
        ensures
            r == user_error(*self),
    {
        match self {
            CliError::InvalidArgument(_) | CliError::MissingArgument(_) | CliError::InvalidPath {
                ..
            } | CliError::PathNotFound(_) | CliError::NotGitRepo(_) | CliError::InvalidFormat(_)
            | CliError::InvalidModel(_) | CliError::Config(_) | CliError::NoChanges
            | CliError::IndexNotFound { .. } | CliError::IndexStale => true,
            _ => false,
        }
    }

    /// Whether this is a system or code error; see `internal_error`.
    pub fn is_internal_error(&self) -> (r: bool)
        ensures
            r == internal_error(*self),
    {
        match self {
            CliError::Engine { .. } | CliError::Io { .. } | CliError::GitNotAvailable
            | CliError::CommandFailed { .. } => true,
            _ => false,
        }
    }

    /// Whether the program can go on; see `recoverable_error`.
    pub fn is_recoverable(&self) -> (r: bool)
        ensures
            r == recoverable_error(*self),
    {
        match self {
            CliError::SecurityIssues { .. } | CliError::BudgetExceeded { .. } | CliError::NoChanges
            | CliError::IndexStale | CliError::FeatureUnavailable { .. } => true,
            _ => false,
        }
    }

    /// Whether the program must stop; see `critical_error`.
    pub fn is_critical(&self) -> (r: bool)
        ensures
            r == critical_error(*self),
    {
        match self {
            CliError::Engine { .. } | CliError::Io { .. } | CliError::GitNotAvailable => true,
            _ => false,
        }
    }

    /// The structured exit status; see `error_exit`.
    pub fn structured_exit_code(&self) -> (r: ExitCode)
        ensures
            r == error_exit(*self),
    {
        match self {
            CliError::Engine { code, .. } => *code,
            CliError::Embed { code, .. } => {
                let c = *code;
                if c == 1 {
                    ExitCode::ArgumentError
                } else if c == 2 {
                    ExitCode::NoChunksGenerated
                } else if c == 3 {
                    ExitCode::SecretsDetected
                } else if c == 4 {
                    ExitCode::PathTraversalBlocked
                } else if c == 10 {
                    ExitCode::ManifestCorrupted
                } else if c == 11 {
                    ExitCode::ResourceLimitExceeded
                } else if c == 12 {
                    ExitCode::NotFound
                } else if c == 13 {
                    ExitCode::InternalError
                } else {
                    ExitCode::GeneralError
                }
            },
            CliError::Io { code, .. } => *code,
            CliError::InvalidArgument(_) | CliError::MissingArgument(_) | CliError::InvalidFormat(_)
            | CliError::InvalidModel(_) => ExitCode::ArgumentError,
            CliError::InvalidPath { .. } | CliError::PathNotFound(_) => ExitCode::NotFound,
            CliError::NotGitRepo(_) | CliError::GitNotAvailable => ExitCode::GeneralError,
            CliError::NoChanges => ExitCode::NoFilesMatched,
            CliError::IndexNotFound { .. } | CliError::IndexStale => ExitCode::NotFound,
            CliError::SecurityIssues { .. } => ExitCode::SecretsDetected,
            CliError::BudgetExceeded { .. } => ExitCode::BudgetExceeded,
            CliError::Config(_) => ExitCode::ConfigInvalid,
            CliError::CommandFailed { .. } => ExitCode::GeneralError,
            CliError::FeatureUnavailable { .. } => ExitCode::GeneralError,
            CliError::Other(_) => ExitCode::GeneralError,
        }
    }

    /// The process exit number, where it is known; see `exit_number`.
    pub fn exit_code(&self) -> (r: Option<i32>)
        ensures
            r == exit_number(error_exit(*self)),
    {
        self.structured_exit_code().code()
    }

    /// The message this error displays; see `error_message`.
    pub fn message(&self) -> (r: String)
        ensures
            r@ == error_message(*self),
    {
        let mut out: Vec<char> = Vec::new();
        match self {
            CliError::Engine { message, .. } => {
                push_str(&mut out, "Engine error: ");
                push_str(&mut out, message.as_str());
            },
            CliError::Embed { message, .. } => {
                push_str(&mut out, message.as_str());
            },
            CliError::Io { message, .. } => {
                push_str(&mut out, "I/O error: ");
                push_str(&mut out, message.as_str());
            },
            CliError::InvalidArgument(m) => {
                push_str(&mut out, "Invalid argument: ");
                push_str(&mut out, m.as_str());
            },
            CliError::MissingArgument(m) => {
                push_str(&mut out, "Missing required argument: ");
                push_str(&mut out, m.as_str());
            },
            CliError::InvalidPath { path, reason } => {
                push_str(&mut out, "Invalid path: ");
                push_str(&mut out, path.as_str());
                push_str(&mut out, ": ");
                push_str(&mut out, reason.as_str());
            },
            CliError::PathNotFound(p) => {
                push_str(&mut out, "Path not found: ");
                push_str(&mut out, p.as_str());
            },
            CliError::NotGitRepo(p) => {
                push_str(&mut out, "Not a git repository: ");
                push_str(&mut out, p.as_str());
            },
            CliError::GitNotAvailable => {
                push_str(
                    &mut out,
                    "Git command not found. Please install git and ensure it's in your PATH",
                );
            },
            CliError::IndexNotFound { path } => {
                push_str(&mut out, "No index found at ");
                push_str(&mut out, path.as_str());
                push_str(&mut out, ". Run 'infiniloom index' first to build the index");
            },
            CliError::IndexStale => {
                push_str(&mut out, "Index is stale. Run 'infiniloom index --force' to rebuild");
            },
            CliError::NoChanges => {
                push_str(&mut out, "No changes detected in the repository");
            },
            CliError::InvalidFormat(f) => {
                push_str(&mut out, "Invalid output format: ");
                push_str(&mut out, f.as_str());
                push_str(&mut out, ". Supported formats: xml, json, markdown, yaml, toon, plain");
            },
            CliError::InvalidModel(m) => {
                push_str(&mut out, "Invalid model: ");
                push_str(&mut out, m.as_str());
                push_str(&mut out, ". See 'infiniloom info' for supported models");
            },
            CliError::Config(m) => {
                push_str(&mut out, "Configuration error: ");
                push_str(&mut out, m.as_str());
            },
            CliError::SecurityIssues { count, critical } => {
                push_str(&mut out, "Security scan found ");
                let a = decimal_chars(*count as u64);
                push_all(&mut out, &a);
                push_str(&mut out, " issues (");
                let b = decimal_chars(*critical as u64);
                push_all(&mut out, &b);
                push_str(&mut out, " critical)");
            },
            CliError::BudgetExceeded { used, budget } => {
                push_str(&mut out, "Token budget exceeded: ");
                let a = decimal_chars(*used as u64);
                push_all(&mut out, &a);
                push_str(&mut out, " tokens used, ");
                let b = decimal_chars(*budget as u64);
                push_all(&mut out, &b);
                push_str(&mut out, " allowed");
            },
            CliError::CommandFailed { command, reason } => {
                push_str(&mut out, "Command failed: ");
                push_str(&mut out, command.as_str());
                push_str(&mut out, ": ");
                push_str(&mut out, reason.as_str());
            },
            CliError::FeatureUnavailable { feature, hint } => {
                push_str(&mut out, "Feature not available: ");
                push_str(&mut out, feature.as_str());
                push_str(&mut out, ". ");
                push_str(&mut out, hint.as_str());
            },
            CliError::Other(m) => {
                push_str(&mut out, m.as_str());
            },
        }
        assert(out@ =~= error_message(*self));
        string_from_chars(&out)
    }
}

/// Critical errors are internal errors, never user errors, and never
/// recoverable; no error is both a user error and an internal one.
pub proof fn law_error_classes(e: CliError)
    ensures
        critical_error(e) ==> internal_error(e),
        critical_error(e) ==> !user_error(e),
        !(user_error(e) && internal_error(e)),
        !(critical_error(e) && recoverable_error(e)),
{
}

} // verus!
