//! Errors of the library and the status a project can be in.

use vstd::prelude::*;

verus! {

/// What can go wrong while reading, writing or using the configuration, or
/// while running git.
#[derive(Debug, Clone, PartialEq, Eq)]
pub enum RepoError {
    /// The configuration is not in the state an operation needs.
    Config(String),
    /// A file could not be read or written; the message of the failure.
    Io(String),
    /// A configuration file is not valid JSON of the expected shape.
    Json(String),
    /// git failed in the directory `path`, with `message`.
    Git { path: String, message: String },
    /// No server is configured under this alias.
    UnknownAlias(String),
}

/// Whether `e` is a configuration error with the message `msg`.
pub open spec fn is_config_error(e: RepoError, msg: Seq<char>) -> bool {
    e matches RepoError::Config(m) && m@ == msg
}

/// Whether `e` reports `alias` as an unknown server alias.
pub open spec fn is_unknown_alias(e: RepoError, alias: Seq<char>) -> bool {
    e matches RepoError::UnknownAlias(a) && a@ == alias
}

/// A configuration error with the message `msg`.
pub fn config_error(msg: &str) -> (e: RepoError)
    ensures
        is_config_error(e, msg@),
{
    RepoError::Config(msg.to_owned())
}

/// The state of a project's working tree against its upstream.
#[derive(Debug, Clone, Copy, PartialEq, Eq, Structural)]
pub enum ProjectStatus {
    Clean,
    Changes,
    Uninitialized,
    Unknown,
    Ahead,
    Behind,
    OutOfSync,
}

/// The name under which a status is shown.
pub open spec fn status_label(s: ProjectStatus) -> Seq<char> {
    match s {
        ProjectStatus::Clean => "CLEAN"@,
        ProjectStatus::Changes => "CHANGES"@,
        ProjectStatus::Uninitialized => "UNINITIALIZED"@,
        ProjectStatus::Unknown => "UNKNOWN"@,
        ProjectStatus::Ahead => "AHEAD"@,
        ProjectStatus::Behind => "BEHIND"@,
        ProjectStatus::OutOfSync => "OUT_OF_SYNC"@,
    }
}

impl ProjectStatus {
    /// The name under which this status is shown, such as `CLEAN`.
    pub fn label(&self) -> (r: &'static str)
        ensures
            r@ == status_label(*self),
    {
        match self {
            ProjectStatus::Clean => "CLEAN",
            ProjectStatus::Changes => "CHANGES",
            ProjectStatus::Uninitialized => "UNINITIALIZED",
            ProjectStatus::Unknown => "UNKNOWN",
            ProjectStatus::Ahead => "AHEAD",
            ProjectStatus::Behind => "BEHIND",
            ProjectStatus::OutOfSync => "OUT_OF_SYNC",
        }
    }
}

} // verus!
