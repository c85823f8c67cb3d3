//! `repo init`: what to do for each configured project.

use vstd::prelude::*;
use vstd::string::*;

use crate::config::{is_root_path, server_url_of, ConfigManager, Project};
use crate::error::{is_config_error, is_unknown_alias, RepoError};

verus! {

/// What `repo init` does for one project.
#[derive(Debug, Clone, PartialEq, Eq)]
pub enum InitAction {
    /// The root project lives in the workarea root; it is not cloned.
    SkipRoot,
    /// The project's directory exists already; it is not cloned.
    AlreadyExists,
    /// Clone `url` into `dest`, relative to the workarea root.
    Clone { url: String, dest: String },
    /// The clone URL cannot be formed; `repo init` stops here.
    ConfigError(RepoError),
}

/// What `repo init` does for `project`, whose directory exists or not as
/// `dir_exists` says.
pub fn init_action(config: &ConfigManager, project: &Project, dir_exists: bool) -> (r: InitAction)
    ensures
        if is_root_path(project.path@) {
            r == InitAction::SkipRoot
        } else if dir_exists {
            r == InitAction::AlreadyExists
        } else {
            match config.local_config {
                None => r matches InitAction::ConfigError(e) && is_config_error(e, "Local config not loaded"@),
                Some(lc) => match server_url_of(lc.servers@, project.git_server_alias@) {
                    Some(url) => r matches InitAction::Clone { url: u, dest: d } && u@ == url + project.git_path@
                        && d@ == project.path@,
                    None => r matches InitAction::ConfigError(e) && is_unknown_alias(e, project.git_server_alias@),
                },
            }
        },
{
    if project.is_root() {
        return InitAction::SkipRoot;
    }
    if dir_exists {
        return InitAction::AlreadyExists;
    }
    match config.get_git_url(project) {
        Ok(url) => InitAction::Clone { url, dest: project.path.clone() },
        Err(e) => InitAction::ConfigError(e),
    }
}

/// Whether `repo init` goes on after `action`: a configuration error stops
/// it, and so does a clone that failed (`clone_succeeded` is read for a
/// clone only).
pub fn init_step_succeeded(action: &InitAction, clone_succeeded: bool) -> (r: bool)
    ensures
        r == match action {
            InitAction::ConfigError(_) => false,
            InitAction::Clone { .. } => clone_succeeded,
            _ => true,
        },
{
    match action {
        InitAction::ConfigError(_) => false,
        InitAction::Clone { .. } => clone_succeeded,
        _ => true,
    }
}

} // verus!
