//! The configuration model: servers of `.repo.json`, projects of
//! `projects.json`, and the workarea they live in.

use vstd::prelude::*;
use vstd::string::*;

use crate::error::{config_error, is_config_error, is_unknown_alias, RepoError};

verus! {

/// A Git server known under an alias.
#[derive(Debug, Clone, PartialEq, Eq)]
pub struct Server {
    pub alias: String,
    pub server: String,
}

/// A repository of the workarea: where it comes from and where it lives.
#[derive(Debug, Clone, PartialEq, Eq)]
pub struct Project {
    pub name: String,
    pub git_server_alias: String,
    pub git_path: String,
    /// Relative to the workarea root; `""` or `"."` is the root project.
    pub path: String,
}

/// Whether a project with local path `path` is the root project.
pub open spec fn is_root_path(path: Seq<char>) -> bool {
    path.len() == 0 || path == "."@
}

impl Project {
    /// Whether this is the root project, which lives in the workarea root.
    pub fn is_root(&self) -> (r: bool)
        ensures
            r == is_root_path(self.path@),
    {
        proof {
            reveal_strlit(".");
        }
        let n = self.path.as_str().unicode_len();
        let r = n == 0 || (n == 1 && self.path.as_str().get_char(0) == '.');
        proof {
            if n == 1 && self.path@[0] == '.' {
                assert(self.path@ =~= "."@);
            }
        }
        r
    }
}

/// The machine-local configuration (`.repo.json`).
#[derive(Debug, Clone, PartialEq, Eq)]
pub struct LocalConfig {
    pub servers: Vec<Server>,
    /// Commit `projects.json` (and `.gitignore`) after a project change.
    pub autocommit: bool,
    /// Add the local path of a new project to `.gitignore`.
    pub autoignore: bool,
}

/// The list of projects (`projects.json`).
#[derive(Debug, Clone, PartialEq, Eq)]
pub struct ProjectsConfig {
    pub projects: Vec<Project>,
}

/// One directory on the way from the start directory up to the file system
/// root, as seen when looking for the workarea root.
#[derive(Debug, Clone, PartialEq, Eq)]
pub struct Ancestor {
    pub path: String,
    /// Whether the directory holds a `.repo.json` file.
    pub has_local_config: bool,
    /// The device the directory is on, if it could be read.
    pub device: Option<u64>,
}

/// The workarea: its root and the configuration read from it.
pub struct ConfigManager {
    pub project_root: String,
    pub local_config: Option<LocalConfig>,
    pub projects_config: Option<ProjectsConfig>,
}

/// `rel` appended to `base` with one `/` between them, unless `rel` is
/// absolute, in which case it stands alone.
pub open spec fn join_path(base: Seq<char>, rel: Seq<char>) -> Seq<char> {
    if rel.len() > 0 && rel[0] == '/' {
        rel
    } else if base.len() == 0 || base.last() == '/' {
        base + rel
    } else {
        base + seq!['/'] + rel
    }
}

/// Joins `rel` to `base` (see `join_path`).
pub fn join(base: &str, rel: &str) -> (r: String)
    ensures
        r@ == join_path(base@, rel@),
{
    proof {
        reveal_strlit("/");
    }
    let rn = rel.unicode_len();
    if rn > 0 && rel.get_char(0) == '/' {
        return rel.to_owned();
    }
    let bn = base.unicode_len();
    let mut r = base.to_owned();
    if !(bn == 0 || base.get_char(bn - 1) == '/') {
        r.append("/");
    }
    r.append(rel);
    r
}

/// The URL of the first server in `servers` with alias `alias`.
pub open spec fn server_url_of(servers: Seq<Server>, alias: Seq<char>) -> Option<Seq<char>>
    decreases servers.len(),
{
    if servers.len() == 0 {
        None
    } else if servers[0].alias@ == alias {
        Some(servers[0].server@)
    } else {
        server_url_of(servers.drop_first(), alias)
    }
}

/// Whether the walk up from `a[0]` reaches `a[i]` without leaving the
/// device of `a[0]`.
pub open spec fn reachable(a: Seq<Ancestor>, i: int) -> bool {
    &&& 0 <= i < a.len()
    &&& a[0].device is Some
    &&& forall|j: int| 0 < j <= i ==> #[trigger] a[j].device == a[0].device
}

/// The nearest reachable directory, going up, that holds a `.repo.json`.
pub open spec fn is_root_index(a: Seq<Ancestor>, i: int) -> bool {
    &&& reachable(a, i)
    &&& a[i].has_local_config
    &&& forall|j: int| 0 <= j < i ==> !(#[trigger] a[j].has_local_config)
}

impl ConfigManager {
    /// The file name of the machine-local configuration.
    pub const LOCAL_CONFIG: &'static str = ".repo.json";

    /// The file name of the project list.
    pub const PROJECTS_CONFIG: &'static str = "projects.json";

    /// What `repo init` writes into a new `.repo.json`: no servers.
    pub const LOCAL_CONFIG_TEMPLATE: &'static str = "{\"servers\":[]}\n";

    /// What `repo init` writes into a new `projects.json`: no projects.
    pub const PROJECTS_CONFIG_TEMPLATE: &'static str = "{\"projects\":[]}\n";

    /// The local configuration, which must be loaded, for saving it.
    pub fn loaded_local_config(&self) -> (r: Result<&LocalConfig, RepoError>)
        ensures
            match self.local_config {
                Some(lc) => r matches Ok(l) && *l == lc,
                None => r matches Err(e) && is_config_error(e, "Local config not loaded"@),
            },
    {
        match &self.local_config {
            Some(lc) => Ok(lc),
            None => Err(config_error("Local config not loaded")),
        }
    }

    /// The project list, which must be loaded, for saving it.
    pub fn loaded_projects_config(&self) -> (r: Result<&ProjectsConfig, RepoError>)
        ensures
            match self.projects_config {
                Some(pc) => r matches Ok(p) && *p == pc,
                None => r matches Err(e) && is_config_error(e, "Projects config not loaded"@),
            },
    {
        match &self.projects_config {
            Some(pc) => Ok(pc),
            None => Err(config_error("Projects config not loaded")),
        }
    }

    /// The index of the workarea root among `ancestors`: the nearest
    /// directory, walking up from `ancestors[0]`, that holds a
    /// `.repo.json`, without crossing onto another device.
    pub fn find_root_index(ancestors: &Vec<Ancestor>) -> (r: Option<usize>)
        ensures
            match r {
                Some(i) => is_root_index(ancestors@, i as int),
                None => forall|i: int| !is_root_index(ancestors@, i),
            },
    {
        let n = ancestors.len();
        if n == 0 {
            return None;
        }
        let start_dev = match ancestors[0].device {
            Some(d) => d,
            None => {
                return None;
            },
        };
        let mut i: usize = 0;
        loop
            invariant
                n == ancestors@.len(),
                i < n,
                ancestors@[0].device == Some(start_dev),
                reachable(ancestors@, i as int),
                forall|j: int| 0 <= j < i ==> !(#[trigger] ancestors@[j].has_local_config),
            decreases n - i,
        {
            if ancestors[i].has_local_config {
                return Some(i);
            }
            if i + 1 == n || ancestors[i + 1].device != Some(start_dev) {
                proof {
                    assert forall|k: int| !is_root_index(ancestors@, k) by {
                        if is_root_index(ancestors@, k) && k > i {
                            assert(ancestors@[i + 1].device == ancestors@[0].device);
                        }
                    }
                }
                return None;
            }
            i = i + 1;
        }
    }

    /// The workarea root among `ancestors` (see `find_root_index`).
    pub fn find_root(ancestors: &Vec<Ancestor>) -> (r: Option<String>)
        ensures
            match r {
                Some(p) => exists|i: int| is_root_index(ancestors@, i) && p@ == #[trigger] ancestors@[i].path@,
                None => forall|i: int| !is_root_index(ancestors@, i),
            },
    {
        match Self::find_root_index(ancestors) {
            Some(i) => {
                let p = ancestors[i].path.clone();
                assert(is_root_index(ancestors@, i as int) && p@ == ancestors@[i as int].path@);
                Some(p)
            },
            None => None,
        }
    }

    /// A workarea rooted at the nearest directory above `cwd` that holds a
    /// `.repo.json` (see `find_root`), or at `cwd` itself if there is none;
    /// nothing is read yet.
    pub fn new(cwd: String, ancestors: &Vec<Ancestor>) -> (r: Self)
        ensures
            r.local_config is None,
            r.projects_config is None,
            (exists|i: int| is_root_index(ancestors@, i) && r.project_root@ == #[trigger] ancestors@[i].path@)
                || ((forall|i: int| !is_root_index(ancestors@, i)) && r.project_root@ == cwd@),
    {
        let project_root = match Self::find_root(ancestors) {
            Some(p) => p,
            None => cwd,
        };
        ConfigManager { project_root, local_config: None, projects_config: None }
    }

    /// The path of `.repo.json` in the workarea root.
    pub fn local_config_path(&self) -> (r: String)
        ensures
            r@ == join_path(self.project_root@, Self::LOCAL_CONFIG@),
    {
        join(self.project_root.as_str(), Self::LOCAL_CONFIG)
    }

    /// The path of `projects.json` in the workarea root.
    pub fn projects_config_path(&self) -> (r: String)
        ensures
            r@ == join_path(self.project_root@, Self::PROJECTS_CONFIG@),
    {
        join(self.project_root.as_str(), Self::PROJECTS_CONFIG)
    }

    /// The URL of the server with alias `alias`: the first one so named.
    pub fn get_server_url(&self, alias: &str) -> (r: Result<String, RepoError>)
        ensures
            match self.local_config {
                None => r matches Err(e) && is_config_error(e, "Local config not loaded"@),
                Some(lc) => match server_url_of(lc.servers@, alias@) {
                    Some(url) => r matches Ok(u) && u@ == url,
                    None => r matches Err(e) && is_unknown_alias(e, alias@),
                },
            },
    {
        let lc = match &self.local_config {
            Some(lc) => lc,
            None => {
                return Err(config_error("Local config not loaded"));
            },
        };
        let target = alias.to_owned();
        let n = lc.servers.len();
        proof {
            assert(lc.servers@.skip(0) =~= lc.servers@);
        }
        let mut i: usize = 0;
        while i < n
            invariant
                n == lc.servers@.len(),
                i <= n,
                self.local_config == Some(*lc),
                target@ == alias@,
                server_url_of(lc.servers@, alias@) == server_url_of(lc.servers@.skip(i as int), alias@),
            decreases n - i,
        {
            proof {
                assert(lc.servers@.skip(i as int).drop_first() =~= lc.servers@.skip(i + 1));
            }
            if lc.servers[i].alias == target {
                return Ok(lc.servers[i].server.clone());
            }
            i = i + 1;
        }
        Err(RepoError::UnknownAlias(target))
    }

    /// The URL to clone `project` from: its server's URL followed by its
    /// git path.
    pub fn get_git_url(&self, project: &Project) -> (r: Result<String, RepoError>)
        ensures
            match self.local_config {
                None => r matches Err(e) && is_config_error(e, "Local config not loaded"@),
                Some(lc) => match server_url_of(lc.servers@, project.git_server_alias@) {
                    Some(url) => r matches Ok(u) && u@ == url + project.git_path@,
                    None => r matches Err(e) && is_unknown_alias(e, project.git_server_alias@),
                },
            },
    {
        let mut url = self.get_server_url(project.git_server_alias.as_str())?;
        url.append(project.git_path.as_str());
        Ok(url)
    }

    /// The directory of `project`: its local path joined to the root.
    pub fn project_dir(&self, project: &Project) -> (r: String)
        ensures
            r@ == join_path(self.project_root@, project.path@),
    {
        join(self.project_root.as_str(), project.path.as_str())
    }
}

} // verus!
