//! `repo server`: adding, removing and editing server aliases.

use vstd::prelude::*;
use vstd::string::*;

use crate::config::{join_path, ConfigManager, Project, Server};

verus! {

/// Whether some server in `servers` has alias `alias`.
pub open spec fn has_alias(servers: Seq<Server>, alias: Seq<char>) -> bool {
    exists|i: int| 0 <= i < servers.len() && (#[trigger] servers[i]).alias@ == alias
}

/// Whether `s` has an alias other than `alias`.
pub open spec fn other_alias(alias: Seq<char>) -> spec_fn(Server) -> bool {
    |s: Server| s.alias@ != alias
}

/// `servers` without those with alias `alias`, the others in order.
pub open spec fn without_alias(servers: Seq<Server>, alias: Seq<char>) -> Seq<Server> {
    servers.filter(other_alias(alias))
}

/// The first server in `servers` with alias `alias`.
pub fn find_alias(servers: &Vec<Server>, alias: &str) -> (r: Option<usize>)
    ensures
        match r {
            Some(i) => i < servers@.len() && servers@[i as int].alias@ == alias@ && forall|j: int|
                0 <= j < i ==> (#[trigger] servers@[j]).alias@ != alias@,
            None => !has_alias(servers@, alias@),
        },
{
    let target = alias.to_owned();
    let mut i: usize = 0;
    while i < servers.len()
        invariant
            i <= servers@.len(),
            target@ == alias@,
            forall|j: int| 0 <= j < i ==> (#[trigger] servers@[j]).alias@ != alias@,
        decreases servers@.len() - i,
    {
        if servers[i].alias == target {
            return Some(i);
        }
        i = i + 1;
    }
    None
}

/// The index of the first server in `servers` with alias `alias`.
pub open spec fn first_with_alias(servers: Seq<Server>, alias: Seq<char>) -> Option<int> {
    if has_alias(servers, alias) {
        Some(
            choose|i: int|
                0 <= i < servers.len() && (#[trigger] servers[i]).alias@ == alias && forall|j: int|
                    0 <= j < i ==> (#[trigger] servers[j]).alias@ != alias,
        )
    } else {
        None
    }
}

/// The first index with alias `alias` is what `first_with_alias` names.
pub proof fn lemma_first_with_alias_at(servers: Seq<Server>, alias: Seq<char>, i: int)
    requires
        0 <= i < servers.len(),
        servers[i].alias@ == alias,
        forall|j: int| 0 <= j < i ==> (#[trigger] servers[j]).alias@ != alias,
    ensures
        first_with_alias(servers, alias) == Some(i),
{
    assert(has_alias(servers, alias));
    let k = first_with_alias(servers, alias)->0;
    assert(0 <= k < servers.len() && servers[k].alias@ == alias && forall|j: int|
        0 <= j < k ==> (#[trigger] servers[j]).alias@ != alias);
    if k < i {
        assert(servers[k].alias@ != alias);
    }
    if i < k {
        assert(servers[i].alias@ != alias);
    }
}

/// When some server has alias `alias`, `first_with_alias` names the first
/// of them.
pub proof fn lemma_first_with_alias_found(servers: Seq<Server>, alias: Seq<char>)
    requires
        has_alias(servers, alias),
    ensures
        first_with_alias(servers, alias) matches Some(i) && 0 <= i < servers.len() && servers[i].alias@ == alias
            && forall|j: int| 0 <= j < i ==> (#[trigger] servers[j]).alias@ != alias,
    decreases servers.len(),
{
    if servers[0].alias@ == alias {
        lemma_first_with_alias_at(servers, alias, 0);
    } else {
        let rest = servers.drop_first();
        assert(has_alias(rest, alias)) by {
            let k = choose|k: int| 0 <= k < servers.len() && (#[trigger] servers[k]).alias@ == alias;
            assert(rest[k - 1] == servers[k]);
        }
        lemma_first_with_alias_found(rest, alias);
        let i = first_with_alias(rest, alias)->0;
        assert forall|j: int| 0 <= j < i + 1 implies (#[trigger] servers[j]).alias@ != alias by {
            if j > 0 {
                assert(servers[j] == rest[j - 1]);
            }
        }
        assert(servers[i + 1] == rest[i]);
        lemma_first_with_alias_at(servers, alias, i + 1);
    }
}

/// How adding a server went.
#[derive(Debug, Clone, Copy, PartialEq, Eq, Structural)]
pub enum AddServerOutcome {
    /// The local configuration is not loaded; nothing changed.
    NotLoaded,
    /// A server with this alias exists already; nothing changed.
    AliasExists,
    /// The server was appended.
    Added,
}

/// Adds the server `url` under `alias`, unless the alias is taken.
pub fn add_server(config: &mut ConfigManager, alias: String, url: String) -> (r: AddServerOutcome)
    ensures
        final(config).project_root == old(config).project_root,
        final(config).projects_config == old(config).projects_config,
        match old(config).local_config {
            None => r == AddServerOutcome::NotLoaded && final(config).local_config is None,
            Some(lc) => if has_alias(lc.servers@, alias@) {
                r == AddServerOutcome::AliasExists && final(config).local_config == old(
                    config,
                ).local_config
            } else {
                &&& r == AddServerOutcome::Added
                &&& final(config).local_config matches Some(nlc)
                &&& nlc.servers@ == lc.servers@.push(Server { alias, server: url })
                &&& nlc.autocommit == lc.autocommit
                &&& nlc.autoignore == lc.autoignore
            },
        },
{
    match &mut config.local_config {
        None => AddServerOutcome::NotLoaded,
        Some(lc) => {
            if find_alias(&lc.servers, alias.as_str()).is_some() {
                AddServerOutcome::AliasExists
            } else {
                lc.servers.push(Server { alias, server: url });
                AddServerOutcome::Added
            }
        },
    }
}

/// How removing a server went.
#[derive(Debug, Clone, Copy, PartialEq, Eq, Structural)]
pub enum RemoveOutcome {
    /// The configuration is not loaded; nothing changed.
    NotLoaded,
    /// Nothing matched; nothing changed.
    NotFound,
    /// Every match was removed.
    Removed,
}

/// Removes every server with alias `alias`.
pub fn remove_server(config: &mut ConfigManager, alias: &str) -> (r: RemoveOutcome)
    ensures
        final(config).project_root == old(config).project_root,
        final(config).projects_config == old(config).projects_config,
        match old(config).local_config {
            None => r == RemoveOutcome::NotLoaded && final(config).local_config is None,
            Some(lc) => {
                &&& final(config).local_config matches Some(nlc)
                &&& nlc.servers@ == without_alias(lc.servers@, alias@)
                &&& nlc.autocommit == lc.autocommit
                &&& nlc.autoignore == lc.autoignore
                &&& r == if has_alias(lc.servers@, alias@) {
                    RemoveOutcome::Removed
                } else {
                    RemoveOutcome::NotFound
                }
            },
        },
{
    match &mut config.local_config {
        None => RemoveOutcome::NotLoaded,
        Some(lc) => {
            let target = alias.to_owned();
            let mut old_servers: Vec<Server> = Vec::new();
            std::mem::swap(&mut old_servers, &mut lc.servers);
            let ghost all = old_servers@;
            let mut kept: Vec<Server> = Vec::new();
            let mut found = false;
            for s in it: old_servers.into_iter()
                invariant
                    target@ == alias@,
                    it.seq() == all,
                    kept@ == all.take(it.index() as int).filter(other_alias(alias@)),
                    found == has_alias(all.take(it.index() as int), alias@),
            {
                proof {
                    reveal_with_fuel(Seq::<_>::filter, 1);
                    let k = it.index() as int;
                    assert(all.take(k + 1).drop_last() =~= all.take(k));
                    assert(all.take(k + 1).last() == s);
                    if has_alias(all.take(k + 1), alias@) && !has_alias(all.take(k), alias@) {
                        let j = choose|j: int| 0 <= j < k + 1 && (#[trigger] all.take(k + 1)[j]).alias@ == alias@;
                        assert(j == k);
                    }
                    if has_alias(all.take(k), alias@) {
                        let j = choose|j: int| 0 <= j < k && (#[trigger] all.take(k)[j]).alias@ == alias@;
                        assert(all.take(k + 1)[j] == all.take(k)[j]);
                    }
                    if s.alias@ == alias@ {
                        assert(all.take(k + 1)[k] == s);
                    }
                }
                if s.alias == target {
                    found = true;
                } else {
                    kept.push(s);
                }
            }
            proof {
                assert(all.take(all.len() as int) =~= all);
            }
            lc.servers = kept;
            if found {
                RemoveOutcome::Removed
            } else {
                RemoveOutcome::NotFound
            }
        },
    }
}

/// What editing a server came to.
#[derive(Debug, Clone, Copy, PartialEq, Eq, Structural)]
pub enum EditServerOutcome {
    /// The local configuration is not loaded; nothing changed.
    NotLoaded,
    /// No server has the alias to edit; nothing changed.
    NotFound,
    /// The new alias and URL are the current ones; nothing changed.
    NoChanges,
    /// The new alias belongs to another server already; nothing changed.
    AliasExists,
    /// The server was updated, and the projects that used its old alias.
    Updated { alias_changed: bool, url_changed: bool },
}

/// The server that `edit_server` would edit: the first with alias `alias`.
pub fn server_to_edit(config: &ConfigManager, alias: &str) -> (r: Result<Server, EditServerOutcome>)
    ensures
        match config.local_config {
            None => r == Err::<Server, EditServerOutcome>(EditServerOutcome::NotLoaded),
            Some(lc) => match r {
                Ok(s) => exists|i: int|
                    0 <= i < lc.servers@.len() && s == #[trigger] lc.servers@[i] && s.alias@ == alias@
                        && forall|j: int| 0 <= j < i ==> (#[trigger] lc.servers@[j]).alias@ != alias@,
                Err(e) => e == EditServerOutcome::NotFound && !has_alias(lc.servers@, alias@),
            },
        },
{
    match &config.local_config {
        None => Err(EditServerOutcome::NotLoaded),
        Some(lc) => match find_alias(&lc.servers, alias) {
            Some(i) => {
                let s = Server { alias: lc.servers[i].alias.clone(), server: lc.servers[i].server.clone() };
                assert(s == lc.servers@[i as int]);
                Ok(s)
            },
            None => Err(EditServerOutcome::NotFound),
        },
    }
}

/// An answer to a prompt that offers `current`: an empty answer keeps it.
pub fn keep_if_empty(input: String, current: &str) -> (r: String)
    ensures
        r@ == if input@.len() == 0 {
            current@
        } else {
            input@
        },
{
    if input.as_str().unicode_len() == 0 {
        current.to_owned()
    } else {
        input
    }
}

/// Whether `answer` is a yes to a `[y/N]` question: `y` in either case.
pub fn is_yes(answer: &str) -> (r: bool)
    ensures
        r == (answer@ == "y"@ || answer@ == "Y"@),
{
    proof {
        reveal_strlit("y");
        reveal_strlit("Y");
        assert("y"@ =~= seq!['y']);
        assert("Y"@ =~= seq!['Y']);
    }
    let n = answer.unicode_len();
    if n != 1 {
        return false;
    }
    let c = answer.get_char(0);
    proof {
        assert(answer@ =~= seq![c]);
    }
    c == 'y' || c == 'Y'
}

/// `p` using the server alias `alias` in place of its own.
pub open spec fn with_alias(p: Project, alias: String) -> Project {
    Project { name: p.name, git_server_alias: alias, git_path: p.git_path, path: p.path }
}

/// `projects` with every use of alias `from` turned into `to`.
pub open spec fn renamed_alias(projects: Seq<Project>, from: Seq<char>, to: String) -> Seq<Project> {
    projects.map_values(|p: Project| if p.git_server_alias@ == from { with_alias(p, to) } else { p })
}

/// Turns every use of alias `from` in `projects` into `to`.
fn rename_alias(projects: &mut Vec<Project>, from: &str, to: &String)
    ensures
        final(projects)@ == renamed_alias(old(projects)@, from@, *to),
{
    let target = from.to_owned();
    let ghost orig = projects@;
    let mut i: usize = 0;
    while i < projects.len()
        invariant
            target@ == from@,
            projects@.len() == orig.len(),
            i <= orig.len(),
            forall|j: int| 0 <= j < i ==> #[trigger] projects@[j] == (if orig[j].git_server_alias@ == from@ { with_alias(orig[j], *to) } else { orig[j] }),
            forall|j: int| i <= j < orig.len() ==> #[trigger] projects@[j] == orig[j],
        decreases orig.len() - i,
    {
        if projects[i].git_server_alias == target {
            let p = Project {
                name: projects[i].name.clone(),
                git_server_alias: to.clone(),
                git_path: projects[i].git_path.clone(),
                path: projects[i].path.clone(),
            };
            projects.set(i, p);
        }
        i = i + 1;
    }
    assert(projects@ =~= renamed_alias(orig, from@, *to));
}

/// Edits the first server with alias `alias`: it takes `new_alias` and
/// `new_url`, unless nothing changes or `new_alias` is taken by a server;
/// when the alias changes, the loaded projects that used the old alias use
/// the new one.
pub fn edit_server(config: &mut ConfigManager, alias: &str, new_alias: String, new_url: String) -> (r:
    EditServerOutcome)
    ensures
        final(config).project_root == old(config).project_root,
        match old(config).local_config {
            None => r == EditServerOutcome::NotLoaded && final(config).local_config is None
                && final(config).projects_config == old(config).projects_config,
            Some(lc) => match first_with_alias(lc.servers@, alias@) {
                None => r == EditServerOutcome::NotFound && final(config).local_config == old(config).local_config
                    && final(config).projects_config == old(config).projects_config,
                Some(i) => {
                    let cur = lc.servers@[i];
                    let alias_changed = new_alias@ != cur.alias@;
                    let url_changed = new_url@ != cur.server@;
                    if !alias_changed && !url_changed {
                        r == EditServerOutcome::NoChanges && final(config).local_config == old(config).local_config
                            && final(config).projects_config == old(config).projects_config
                    } else if alias_changed && has_alias(lc.servers@, new_alias@) {
                        r == EditServerOutcome::AliasExists && final(config).local_config == old(config).local_config
                            && final(config).projects_config == old(config).projects_config
                    } else {
                        &&& r == EditServerOutcome::Updated { alias_changed, url_changed }
                        &&& final(config).local_config matches Some(nlc)
                        &&& nlc.servers@ == lc.servers@.update(i, Server { alias: new_alias, server: new_url })
                        &&& nlc.autocommit == lc.autocommit
                        &&& nlc.autoignore == lc.autoignore
                        &&& match old(config).projects_config {
                            None => final(config).projects_config is None,
                            Some(pc) => final(config).projects_config matches Some(npc) && npc.projects@ == if alias_changed {
                                renamed_alias(pc.projects@, alias@, new_alias)
                            } else {
                                pc.projects@
                            },
                        }
                    }
                },
            },
        },
{
    let lc = match &mut config.local_config {
        None => {
            return EditServerOutcome::NotLoaded;
        },
        Some(lc) => lc,
    };
    let i = match find_alias(&lc.servers, alias) {
        None => {
            return EditServerOutcome::NotFound;
        },
        Some(i) => i,
    };
    let alias_changed = !(new_alias == lc.servers[i].alias);
    let url_changed = !(new_url == lc.servers[i].server);
    if !alias_changed && !url_changed {
        return EditServerOutcome::NoChanges;
    }
    if alias_changed && find_alias(&lc.servers, new_alias.as_str()).is_some() {
        return EditServerOutcome::AliasExists;
    }
    let from = lc.servers[i].alias.clone();
    let to = new_alias.clone();
    lc.servers.set(i, Server { alias: new_alias, server: new_url });
    if alias_changed {
        match &mut config.projects_config {
            Some(pc) => {
                rename_alias(&mut pc.projects, from.as_str(), &to);
            },
            None => {},
        }
    }
    EditServerOutcome::Updated { alias_changed, url_changed }
}

/// A project whose `origin` remote is to follow a server's new URL.
#[derive(Debug, Clone, PartialEq, Eq)]
pub struct RemoteUpdate {
    pub name: String,
    /// The directory of the project.
    pub dir: String,
    /// The new URL of its `origin` remote.
    pub url: String,
}

/// The name, directory and new remote URL of a remote update.
pub open spec fn remote_update_view(u: RemoteUpdate) -> (Seq<char>, Seq<char>, Seq<char>) {
    (u.name@, u.dir@, u.url@)
}

/// The remote update of `p` for a server that moved to `url`, in the
/// workarea rooted at `root`.
pub open spec fn planned_update(root: Seq<char>, url: Seq<char>, p: Project) -> (Seq<char>, Seq<char>, Seq<char>) {
    (p.name@, join_path(root, p.path@), url + p.git_path@)
}

/// Whether `p` uses the server alias `alias`.
pub open spec fn uses_alias(p: Project, alias: Seq<char>) -> bool {
    p.git_server_alias@ == alias
}

/// Whether a project uses the server alias `alias`.
pub open spec fn alias_users(alias: Seq<char>) -> spec_fn(Project) -> bool {
    |p: Project| uses_alias(p, alias)
}

/// The remote updates, in project order, for the projects that use the
/// server alias `alias` once that server has moved to `url`.
pub fn remote_updates(config: &ConfigManager, alias: &str, url: &str) -> (r: Vec<RemoteUpdate>)
    ensures
        r@.map_values(|u: RemoteUpdate| remote_update_view(u)) == match config.projects_config {
            None => Seq::<(Seq<char>, Seq<char>, Seq<char>)>::empty(),
            Some(pc) => pc.projects@.filter(alias_users(alias@)).map_values(
                |p: Project| planned_update(config.project_root@, url@, p),
            ),
        },
{
    let mut r: Vec<RemoteUpdate> = Vec::new();
    let pc = match &config.projects_config {
        None => {
            assert(r@.map_values(|u: RemoteUpdate| remote_update_view(u)) =~= Seq::<(Seq<char>, Seq<char>, Seq<char>)>::empty());
            return r;
        },
        Some(pc) => pc,
    };
    let target = alias.to_owned();
    let ghost ps = pc.projects@;
    let mut i: usize = 0;
    proof {
        reveal_with_fuel(Seq::<_>::filter, 1);
        assert(ps.take(0) =~= Seq::<Project>::empty());
        assert(r@.map_values(|u: RemoteUpdate| remote_update_view(u)) =~= ps.take(0).filter(alias_users(alias@)).map_values(
            |p: Project| planned_update(config.project_root@, url@, p)));
    }
    while i < pc.projects.len()
        invariant
            ps == pc.projects@,
            i <= ps.len(),
            target@ == alias@,
            r@.map_values(|u: RemoteUpdate| remote_update_view(u)) == ps.take(i as int).filter(alias_users(alias@)).map_values(
                |p: Project| planned_update(config.project_root@, url@, p),
            ),
        decreases ps.len() - i,
    {
        let ghost before = r@;
        proof {
            reveal_with_fuel(Seq::<_>::filter, 1);
            assert(ps.take(i + 1).drop_last() =~= ps.take(i as int));
            assert(ps.take(i + 1).last() == ps[i as int]);
        }
        let p = &pc.projects[i];
        if p.git_server_alias == target {
            let mut u = url.to_owned();
            u.append(p.git_path.as_str());
            let upd = RemoteUpdate { name: p.name.clone(), dir: config.project_dir(p), url: u };
            r.push(upd);
            proof {
                assert(r@.map_values(|u: RemoteUpdate| remote_update_view(u)) =~= before.map_values(|u: RemoteUpdate| remote_update_view(u)).push(remote_update_view(upd)));
                let f = ps.take(i as int).filter(alias_users(alias@));
                assert(f.push(ps[i as int]).map_values(|p: Project| planned_update(config.project_root@, url@, p)) =~= f.map_values(|p: Project| planned_update(config.project_root@, url@, p)).push(planned_update(config.project_root@, url@, ps[i as int])));
            }
        }
        i = i + 1;
    }
    proof {
        assert(ps.take(ps.len() as int) =~= ps);
    }
    r
}

/// A configuration file to write back.
#[derive(Debug, Clone, Copy, PartialEq, Eq, Structural)]
pub enum ConfigFile {
    /// `.repo.json`
    Local,
    /// `projects.json`
    Projects,
}

/// What follows an edit: the files to save, in order (the run stops at the
/// first that fails), and whether the projects' remotes may then follow the
/// new URL. Only an update saves anything: the project list first when the
/// alias changed, then the local configuration; remotes follow only a URL
/// change.
pub fn edit_follow_up(outcome: EditServerOutcome) -> (r: (Vec<ConfigFile>, bool))
    ensures
        r.0@ == match outcome {
            EditServerOutcome::Updated { alias_changed: true, .. } => seq![ConfigFile::Projects, ConfigFile::Local],
            EditServerOutcome::Updated { alias_changed: false, .. } => seq![ConfigFile::Local],
            _ => Seq::<ConfigFile>::empty(),
        },
        r.1 == (outcome matches EditServerOutcome::Updated { url_changed: true, .. }),
{
    match outcome {
        EditServerOutcome::Updated { alias_changed, url_changed } => {
            let saves = if alias_changed {
                vec![ConfigFile::Projects, ConfigFile::Local]
            } else {
                vec![ConfigFile::Local]
            };
            proof {
                if alias_changed {
                    assert(saves@ =~= seq![ConfigFile::Projects, ConfigFile::Local]);
                } else {
                    assert(saves@ =~= seq![ConfigFile::Local]);
                }
            }
            (saves, url_changed)
        },
        _ => {
            let saves: Vec<ConfigFile> = Vec::new();
            assert(saves@ =~= Seq::<ConfigFile>::empty());
            (saves, false)
        },
    }
}

} // verus!
