//! The errors of submodule operations and the process status each one is reported with.
use vstd::prelude::*;

use crate::plan::OperationSummary;

verus! {

/// `git2`'s error type, carried as it is.
#[verifier::external_type_specification]
#[verifier::external_body]
pub struct ExGit2Error(git2::Error);

/// std's I/O error type, carried as it is.
#[verifier::external_type_specification]
#[verifier::external_body]
pub struct ExIoError(std::io::Error);

/// Errors of submodule operations.
#[derive(Debug)]
pub enum SubmoduleError {
    /// Error from gitoxide library operations
    GitoxideError(String),
    /// Error from git2 library operations
    Git2Error(git2::Error),
    /// Error from Git CLI operations
    CliError(String),
    /// Configuration-related error
    ConfigError(String),
    /// I/O operation error
    IoError(std::io::Error),
    /// Submodule not found in repository
    SubmoduleNotFound {
        /// Name of the missing submodule.
        name: String,
    },
    /// Repository access or validation error
    RepositoryError(String),
    /// A read-only check found repository state that differs from the declaration.
    Drift(String),
    /// A preflighted batch stopped after some per-module outcomes were known.
    IncompleteBatch {
        /// Structured completed, failed, and pending module results.
        summary: OperationSummary,
        /// Preserved native operation cause.
        cause: String,
    },
    /// Submodule path is invalid or escapes repository root
    InvalidPath(String),
}

impl SubmoduleError {
    /// The documented process status for this error's category: 2 for a problem with
    /// the configuration or the request (bad configuration, invalid path, unknown
    /// submodule), 1 for a failure while carrying it out.
    pub fn exit_code(&self) -> (r: u8)
        ensures
            r == if self is ConfigError || self is InvalidPath || self is SubmoduleNotFound {
                2u8
            } else {
                1u8
            },
    {
        match self {
            Self::ConfigError(_) | Self::InvalidPath(_) | Self::SubmoduleNotFound { .. } => 2,
            Self::GitoxideError(_)
            | Self::Git2Error(_)
            | Self::CliError(_)
            | Self::IoError(_)
            | Self::RepositoryError(_)
            | Self::Drift(_)
            | Self::IncompleteBatch { .. } => 1,
        }
    }
}

} // verus!
