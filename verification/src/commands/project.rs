//! `repo project`: adding and removing projects, and what follows a change
//! (the `.gitignore` entry and the commit).

use vstd::prelude::*;
use vstd::string::*;

use crate::commands::server::RemoveOutcome;
use crate::config::{server_url_of, ConfigManager, Project};
use crate::error::{is_config_error, is_unknown_alias, RepoError};
use crate::text::{ends_with_char, has_line, lines_of};

verus! {

/// How adding a project went.
#[derive(Debug, Clone, PartialEq, Eq)]
pub enum AddProjectOutcome {
    /// The project's server alias could not be resolved; nothing changed.
    InvalidAlias(RepoError),
    /// The project list is not loaded; nothing changed.
    NotLoaded,
    /// The project was appended to the list.
    Added,
}

/// Adds `project` to the project list, once its server alias resolves.
pub fn add_project(config: &mut ConfigManager, project: Project) -> (r: AddProjectOutcome)
    ensures
        final(config).project_root == old(config).project_root,
        final(config).local_config == old(config).local_config,
        match old(config).local_config {
            None => r matches AddProjectOutcome::InvalidAlias(e) && is_config_error(e, "Local config not loaded"@)
                && final(config).projects_config == old(config).projects_config,
            Some(lc) => match server_url_of(lc.servers@, project.git_server_alias@) {
                None => r matches AddProjectOutcome::InvalidAlias(e) && is_unknown_alias(e, project.git_server_alias@)
                    && final(config).projects_config == old(config).projects_config,
                Some(_) => match old(config).projects_config {
                    None => r == AddProjectOutcome::NotLoaded && final(config).projects_config is None,
                    Some(pc) => {
                        &&& r == AddProjectOutcome::Added
                        &&& final(config).projects_config matches Some(npc)
                        &&& npc.projects@ == pc.projects@.push(project)
                    },
                },
            },
        },
{
    if let Err(e) = config.get_server_url(project.git_server_alias.as_str()) {
        return AddProjectOutcome::InvalidAlias(e);
    }
    match &mut config.projects_config {
        None => AddProjectOutcome::NotLoaded,
        Some(pc) => {
            pc.projects.push(project);
            AddProjectOutcome::Added
        },
    }
}

/// Whether `p` has a local path other than `path`.
pub open spec fn other_path(path: Seq<char>) -> spec_fn(Project) -> bool {
    |p: Project| p.path@ != path
}

/// `projects` without those with local path `path`, the others in order.
pub open spec fn without_path(projects: Seq<Project>, path: Seq<char>) -> Seq<Project> {
    projects.filter(other_path(path))
}

/// Whether some project in `projects` has local path `path`.
pub open spec fn has_path(projects: Seq<Project>, path: Seq<char>) -> bool {
    exists|i: int| 0 <= i < projects.len() && (#[trigger] projects[i]).path@ == path
}

/// Removes every project with local path `path`.
pub fn remove_project(config: &mut ConfigManager, path: &str) -> (r: RemoveOutcome)
    ensures
        final(config).project_root == old(config).project_root,
        final(config).local_config == old(config).local_config,
        match old(config).projects_config {
            None => r == RemoveOutcome::NotLoaded && final(config).projects_config is None,
            Some(pc) => {
                &&& final(config).projects_config matches Some(npc)
                &&& npc.projects@ == without_path(pc.projects@, path@)
                &&& r == if has_path(pc.projects@, path@) {
                    RemoveOutcome::Removed
                } else {
                    RemoveOutcome::NotFound
                }
            },
        },
{
    match &mut config.projects_config {
        None => RemoveOutcome::NotLoaded,
        Some(pc) => {
            let target = path.to_owned();
            let mut old_projects: Vec<Project> = Vec::new();
            std::mem::swap(&mut old_projects, &mut pc.projects);
            let ghost all = old_projects@;
            let mut kept: Vec<Project> = Vec::new();
            let mut found = false;
            for p in it: old_projects.into_iter()
                invariant
                    target@ == path@,
                    it.seq() == all,
                    kept@ == all.take(it.index() as int).filter(other_path(path@)),
                    found == has_path(all.take(it.index() as int), path@),
            {
                proof {
                    reveal_with_fuel(Seq::<_>::filter, 1);
                    let k = it.index() as int;
                    assert(all.take(k + 1).drop_last() =~= all.take(k));
                    assert(all.take(k + 1).last() == p);
                    if has_path(all.take(k + 1), path@) && !has_path(all.take(k), path@) {
                        let j = choose|j: int| 0 <= j < k + 1 && (#[trigger] all.take(k + 1)[j]).path@ == path@;
                        assert(j == k);
                    }
                    if has_path(all.take(k), path@) {
                        let j = choose|j: int| 0 <= j < k && (#[trigger] all.take(k)[j]).path@ == path@;
                        assert(all.take(k + 1)[j] == all.take(k)[j]);
                    }
                    if p.path@ == path@ {
                        assert(all.take(k + 1)[k] == p);
                    }
                }
                if p.path == target {
                    found = true;
                } else {
                    kept.push(p);
                }
            }
            proof {
                assert(all.take(all.len() as int) =~= all);
            }
            pc.projects = kept;
            if found {
                RemoveOutcome::Removed
            } else {
                RemoveOutcome::NotFound
            }
        },
    }
}

/// Whether new projects go into `.gitignore` and project changes are
/// committed: `(autoignore, autocommit)`, both off without a local
/// configuration.
pub fn project_options(config: &ConfigManager) -> (r: (bool, bool))
    ensures
        r == match config.local_config {
            Some(lc) => (lc.autoignore, lc.autocommit),
            None => (false, false),
        },
{
    match &config.local_config {
        Some(lc) => (lc.autoignore, lc.autocommit),
        None => (false, false),
    }
}

/// The `.gitignore` text `existing` with the line `entry` added at its end:
/// a missing final newline is supplied first, and the new line ends with one.
pub open spec fn appended_line(existing: Seq<char>, entry: Seq<char>) -> Seq<char> {
    let sep = if existing.len() > 0 && existing.last() != '\n' {
        seq!['\n']
    } else {
        seq![]
    };
    existing + sep + entry + seq!['\n']
}

/// The new `.gitignore` text once `entry` is ignored, or `None` when a line
/// of `existing` is `entry` already and nothing is to be written.
pub fn gitignore_with_entry(existing: &str, entry: &str) -> (r: Option<String>)
    ensures
        match r {
            None => lines_of(existing@).contains(entry@),
            Some(text) => !lines_of(existing@).contains(entry@) && text@ == appended_line(existing@, entry@),
        },
{
    if has_line(existing, entry) {
        return None;
    }
    proof {
        reveal_strlit("\n");
    }
    let mut content = existing.to_owned();
    if existing.unicode_len() > 0 && !ends_with_char(existing, '\n') {
        content.append("\n");
    }
    content.append(entry);
    content.append("\n");
    proof {
        assert(content@ =~= appended_line(existing@, entry@));
    }
    Some(content)
}

/// The message of the commit that records adding the project `name`.
pub fn add_commit_message(name: &str) -> (r: String)
    ensures
        r@ == "repo: add project "@ + name@,
{
    let mut m = "repo: add project ".to_owned();
    m.append(name);
    m
}

/// The message of the commit that records removing the project at `path`.
pub fn remove_commit_message(path: &str) -> (r: String)
    ensures
        r@ == "repo: remove project "@ + path@,
{
    let mut m = "repo: remove project ".to_owned();
    m.append(path);
    m
}

/// The files that a project change commits: the project list, and
/// `.gitignore` too when new projects go into it.
pub fn committed_files(autoignore: bool) -> (r: Vec<&'static str>)
    ensures
        r@.map_values(|f: &str| f@) == if autoignore {
            seq![ConfigManager::PROJECTS_CONFIG@, ".gitignore"@]
        } else {
            seq![ConfigManager::PROJECTS_CONFIG@]
        },
{
    let mut r = vec![ConfigManager::PROJECTS_CONFIG];
    if autoignore {
        r.push(".gitignore");
    }
    proof {
        assert(r@.map_values(|f: &str| f@) =~= if autoignore {
            seq![ConfigManager::PROJECTS_CONFIG@, ".gitignore"@]
        } else {
            seq![ConfigManager::PROJECTS_CONFIG@]
        });
    }
    r
}

} // verus!
