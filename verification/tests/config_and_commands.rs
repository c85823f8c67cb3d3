use repo::cli::{project_list_lines, projects_table_lines, server_list_lines, server_table_lines, status_table_lines};
use repo::commands::update::{fetch_steps, next_step, update_steps, SyncStep};
use repo::commands::init::{init_action, init_step_succeeded, InitAction};
use repo::commands::project::{
    add_commit_message, add_project, committed_files, gitignore_with_entry, project_options,
    remove_commit_message, remove_project, AddProjectOutcome,
};
use repo::commands::server::{
    add_server, edit_follow_up, edit_server, ConfigFile, is_yes, keep_if_empty, remote_updates, remove_server, server_to_edit,
    AddServerOutcome, EditServerOutcome, RemoteUpdate, RemoveOutcome,
};
use repo::config::{join, Ancestor, ConfigManager, LocalConfig, Project, ProjectsConfig, Server};
use repo::error::{ProjectStatus, RepoError};
use repo::git::{add_args, check_project_status, clone_args, commit_args, git_outcome, set_origin_url_args, spawn_failure};

fn server(alias: &str, url: &str) -> Server {
    Server { alias: alias.to_string(), server: url.to_string() }
}

fn project(name: &str, alias: &str, git_path: &str, path: &str) -> Project {
    Project {
        name: name.to_string(),
        git_server_alias: alias.to_string(),
        git_path: git_path.to_string(),
        path: path.to_string(),
    }
}

fn workspace(servers: Vec<Server>, projects: Vec<Project>) -> ConfigManager {
    let mut cfg = ConfigManager::new("/ws".to_string(), &vec![]);
    cfg.local_config = Some(LocalConfig { servers, autocommit: true, autoignore: false });
    cfg.projects_config = Some(ProjectsConfig { projects });
    cfg
}

fn servers_of(cfg: &ConfigManager) -> Vec<Server> {
    cfg.local_config.as_ref().unwrap().servers.clone()
}

fn projects_of(cfg: &ConfigManager) -> Vec<Project> {
    cfg.projects_config.as_ref().unwrap().projects.clone()
}

fn ancestor(path: &str, has: bool, dev: Option<u64>) -> Ancestor {
    Ancestor { path: path.to_string(), has_local_config: has, device: dev }
}

#[test]
fn root_project_paths() {
    assert!(project("r", "a", "/r.git", "").is_root());
    assert!(project("r", "a", "/r.git", ".").is_root());
    assert!(!project("r", "a", "/r.git", "./x").is_root());
    assert!(!project("r", "a", "/r.git", "..").is_root());
}

#[test]
fn joining_paths() {
    assert_eq!(join("/ws", "app"), "/ws/app");
    assert_eq!(join("/ws/", "app"), "/ws/app");
    assert_eq!(join("/ws", "/abs"), "/abs");
    assert_eq!(join("", "app"), "app");
    assert_eq!(join("/ws", ""), "/ws/");
    let cfg = workspace(vec![], vec![]);
    assert_eq!(cfg.project_dir(&project("a", "s", "/a.git", "team/a")), "/ws/team/a");
    assert_eq!(cfg.local_config_path(), "/ws/.repo.json");
    assert_eq!(cfg.projects_config_path(), "/ws/projects.json");
}

#[test]
fn root_is_nearest_ancestor_with_config() {
    let a = vec![
        ancestor("/ws/a/b", false, Some(1)),
        ancestor("/ws/a", true, Some(1)),
        ancestor("/ws", true, Some(1)),
        ancestor("/", false, Some(1)),
    ];
    assert_eq!(ConfigManager::find_root_index(&a), Some(1));
    assert_eq!(ConfigManager::find_root(&a), Some("/ws/a".to_string()));
    let cfg = ConfigManager::new("/ws/a/b".to_string(), &a);
    assert_eq!(cfg.project_root, "/ws/a");
    assert!(cfg.local_config.is_none() && cfg.projects_config.is_none());
}

#[test]
fn root_search_stops_at_device_boundary() {
    let a = vec![
        ancestor("/mnt/x", false, Some(2)),
        ancestor("/mnt", false, Some(1)),
        ancestor("/", true, Some(1)),
    ];
    assert_eq!(ConfigManager::find_root(&a), None);
    let unreadable = vec![ancestor("/x", true, None)];
    assert_eq!(ConfigManager::find_root(&unreadable), None);
    let start_is_root = vec![ancestor("/x", true, Some(3))];
    assert_eq!(ConfigManager::find_root(&start_is_root), Some("/x".to_string()));
    let cfg = ConfigManager::new("/mnt/x".to_string(), &a);
    assert_eq!(cfg.project_root, "/mnt/x");
    assert_eq!(ConfigManager::find_root(&vec![]), None);
}

#[test]
fn server_url_lookup() {
    let cfg = workspace(vec![server("gh", "ssh://git@github.com"), server("gh", "https://second")], vec![]);
    assert_eq!(cfg.get_server_url("gh"), Ok("ssh://git@github.com".to_string()));
    assert_eq!(cfg.get_server_url("lab"), Err(RepoError::UnknownAlias("lab".to_string())));
    let p = project("lib", "gh", "/team/lib.git", "team/lib");
    assert_eq!(cfg.get_git_url(&p), Ok("ssh://git@github.com/team/lib.git".to_string()));
    let bare = ConfigManager::new("/ws".to_string(), &vec![]);
    assert_eq!(bare.get_server_url("gh"), Err(RepoError::Config("Local config not loaded".to_string())));
    assert_eq!(bare.get_git_url(&p), Err(RepoError::Config("Local config not loaded".to_string())));
    assert!(bare.loaded_local_config().is_err());
    assert_eq!(bare.loaded_projects_config(), Err(RepoError::Config("Projects config not loaded".to_string())));
}

#[test]
fn add_server_refuses_duplicates() {
    let mut cfg = workspace(vec![server("gh", "a")], vec![]);
    assert_eq!(add_server(&mut cfg, "gh".to_string(), "b".to_string()), AddServerOutcome::AliasExists);
    assert_eq!(servers_of(&cfg), vec![server("gh", "a")]);
    let mut bare = ConfigManager::new("/ws".to_string(), &vec![]);
    assert_eq!(add_server(&mut bare, "gh".to_string(), "b".to_string()), AddServerOutcome::NotLoaded);
}

#[test]
fn added_server_resolves_and_remove_restores() {
    let mut cfg = workspace(vec![server("gh", "a")], vec![]);
    assert_eq!(add_server(&mut cfg, "lab".to_string(), "https://lab".to_string()), AddServerOutcome::Added);
    assert_eq!(cfg.get_server_url("lab"), Ok("https://lab".to_string()));
    assert_eq!(cfg.get_server_url("gh"), Ok("a".to_string()));
    assert_eq!(remove_server(&mut cfg, "lab"), RemoveOutcome::Removed);
    assert_eq!(servers_of(&cfg), vec![server("gh", "a")]);
    assert_eq!(cfg.get_server_url("lab"), Err(RepoError::UnknownAlias("lab".to_string())));
    assert_eq!(remove_server(&mut cfg, "lab"), RemoveOutcome::NotFound);
    assert_eq!(servers_of(&cfg), vec![server("gh", "a")]);
}

#[test]
fn remove_server_removes_every_match_in_order() {
    let mut cfg = workspace(vec![server("a", "1"), server("b", "2"), server("a", "3"), server("c", "4")], vec![]);
    assert_eq!(remove_server(&mut cfg, "a"), RemoveOutcome::Removed);
    assert_eq!(servers_of(&cfg), vec![server("b", "2"), server("c", "4")]);
}

#[test]
fn edit_server_outcomes() {
    let projects = vec![project("x", "gh", "/x.git", "x"), project("y", "lab", "/y.git", "y"), project("z", "gh", "/z.git", "z")];
    let mut cfg = workspace(vec![server("gh", "old"), server("lab", "l")], projects.clone());
    assert_eq!(server_to_edit(&cfg, "gh"), Ok(server("gh", "old")));
    assert_eq!(server_to_edit(&cfg, "none"), Err(EditServerOutcome::NotFound));
    assert_eq!(edit_server(&mut cfg, "none", "a".to_string(), "b".to_string()), EditServerOutcome::NotFound);
    assert_eq!(edit_server(&mut cfg, "gh", "gh".to_string(), "old".to_string()), EditServerOutcome::NoChanges);
    assert_eq!(edit_server(&mut cfg, "gh", "lab".to_string(), "old".to_string()), EditServerOutcome::AliasExists);
    assert_eq!(servers_of(&cfg), vec![server("gh", "old"), server("lab", "l")]);
    assert_eq!(projects_of(&cfg), projects);

    assert_eq!(
        edit_server(&mut cfg, "gh", "github".to_string(), "new".to_string()),
        EditServerOutcome::Updated { alias_changed: true, url_changed: true }
    );
    assert_eq!(servers_of(&cfg), vec![server("github", "new"), server("lab", "l")]);
    assert_eq!(cfg.get_server_url("github"), Ok("new".to_string()));
    assert_eq!(
        projects_of(&cfg),
        vec![project("x", "github", "/x.git", "x"), project("y", "lab", "/y.git", "y"), project("z", "github", "/z.git", "z")]
    );
    assert_eq!(
        edit_server(&mut cfg, "lab", "lab".to_string(), "l2".to_string()),
        EditServerOutcome::Updated { alias_changed: false, url_changed: true }
    );
    assert_eq!(cfg.get_server_url("lab"), Ok("l2".to_string()));
}

#[test]
fn remote_updates_follow_the_new_url() {
    let cfg = workspace(
        vec![server("gh", "new")],
        vec![project("x", "gh", "/x.git", "x"), project("y", "lab", "/y.git", "y"), project("z", "gh", "/z.git", "team/z")],
    );
    assert_eq!(
        remote_updates(&cfg, "gh", "ssh://new"),
        vec![
            RemoteUpdate { name: "x".to_string(), dir: "/ws/x".to_string(), url: "ssh://new/x.git".to_string() },
            RemoteUpdate { name: "z".to_string(), dir: "/ws/team/z".to_string(), url: "ssh://new/z.git".to_string() },
        ]
    );
    assert_eq!(remote_updates(&cfg, "none", "u"), vec![]);
    assert_eq!(set_origin_url_args("ssh://new/x.git"), vec!["remote", "set-url", "origin", "ssh://new/x.git"]);
}

#[test]
fn prompt_answers() {
    assert_eq!(keep_if_empty(String::new(), "current"), "current");
    assert_eq!(keep_if_empty("new".to_string(), "current"), "new");
    assert!(is_yes("y"));
    assert!(is_yes("Y"));
    assert!(!is_yes("yes"));
    assert!(!is_yes(""));
    assert!(!is_yes("n"));
}

#[test]
fn add_project_checks_the_alias() {
    let mut cfg = workspace(vec![server("gh", "a")], vec![]);
    let p = project("app", "lab", "/app.git", "app");
    assert_eq!(add_project(&mut cfg, p), AddProjectOutcome::InvalidAlias(RepoError::UnknownAlias("lab".to_string())));
    assert!(projects_of(&cfg).is_empty());
    let p = project("app", "gh", "/app.git", "app");
    assert_eq!(add_project(&mut cfg, p.clone()), AddProjectOutcome::Added);
    assert_eq!(projects_of(&cfg), vec![p.clone()]);
    let mut no_projects = workspace(vec![server("gh", "a")], vec![]);
    no_projects.projects_config = None;
    assert_eq!(add_project(&mut no_projects, p), AddProjectOutcome::NotLoaded);
}

#[test]
fn remove_project_by_path() {
    let mut cfg = workspace(vec![], vec![project("a", "s", "/a", "a"), project("b", "s", "/b", "b"), project("a2", "s", "/a2", "a")]);
    assert_eq!(remove_project(&mut cfg, "a"), RemoveOutcome::Removed);
    assert_eq!(projects_of(&cfg), vec![project("b", "s", "/b", "b")]);
    assert_eq!(remove_project(&mut cfg, "a"), RemoveOutcome::NotFound);
    assert_eq!(projects_of(&cfg), vec![project("b", "s", "/b", "b")]);
}

#[test]
fn gitignore_entries() {
    assert_eq!(gitignore_with_entry("", "app"), Some("app\n".to_string()));
    assert_eq!(gitignore_with_entry("target\n", "app"), Some("target\napp\n".to_string()));
    assert_eq!(gitignore_with_entry("target", "app"), Some("target\napp\n".to_string()));
    assert_eq!(gitignore_with_entry("target\napp\n", "app"), None);
    assert_eq!(gitignore_with_entry("app\r\n", "app"), None);
    let once = gitignore_with_entry("target", "app").unwrap();
    assert_eq!(gitignore_with_entry(&once, "app"), None);
}

#[test]
fn commit_after_project_change() {
    let cfg = workspace(vec![], vec![]);
    assert_eq!(project_options(&cfg), (false, true));
    assert_eq!(project_options(&ConfigManager::new("/ws".to_string(), &vec![])), (false, false));
    assert_eq!(committed_files(false), vec!["projects.json"]);
    assert_eq!(committed_files(true), vec!["projects.json", ".gitignore"]);
    assert_eq!(add_args(&committed_files(true)), vec!["add", "projects.json", ".gitignore"]);
    assert_eq!(add_commit_message("app"), "repo: add project app");
    assert_eq!(remove_commit_message("team/app"), "repo: remove project team/app");
    assert_eq!(commit_args("m"), vec!["commit", "-m", "m"]);
}

#[test]
fn init_actions() {
    let cfg = workspace(vec![server("lab", "https://lab")], vec![]);
    assert_eq!(init_action(&cfg, &project("root", "lab", "/root.git", ""), false), InitAction::SkipRoot);
    assert_eq!(init_action(&cfg, &project("root", "lab", "/root.git", "."), false), InitAction::SkipRoot);
    assert_eq!(init_action(&cfg, &project("a", "lab", "/a.git", "a"), true), InitAction::AlreadyExists);
    assert_eq!(
        init_action(&cfg, &project("a", "lab", "/a.git", "a"), false),
        InitAction::Clone { url: "https://lab/a.git".to_string(), dest: "a".to_string() }
    );
    assert_eq!(
        init_action(&cfg, &project("a", "gh", "/a.git", "a"), false),
        InitAction::ConfigError(RepoError::UnknownAlias("gh".to_string()))
    );
    assert_eq!(clone_args("https://lab/a.git", "a"), vec!["clone", "https://lab/a.git", "a"]);
}

#[test]
fn tables() {
    let status = status_table_lines(&vec![("my-app".to_string(), ProjectStatus::Behind)]);
    assert_eq!(status.len(), 5);
    assert_eq!(status[0], format!("┌{}┬{}┐", "─".repeat(42), "─".repeat(22)));
    assert_eq!(status[1], format!("│ {:<40} │ {:<20} │", "Project", "Status"));
    assert_eq!(status[3], format!("│ {:<40} │ {:<20} │", "my-app", "BEHIND"));
    assert_eq!(status[4], format!("└{}┴{}┘", "─".repeat(42), "─".repeat(22)));
    let servers = server_table_lines(&vec![("gh".to_string(), "ssh://git@github.com".to_string())]);
    assert_eq!(servers[3], format!("│ {:<30} │ {:<50} │", "gh", "ssh://git@github.com"));
    let projects = projects_table_lines(&vec![
        ("a".to_string(), "gh".to_string(), "/a.git".to_string(), "a".to_string()),
        ("b".to_string(), "gh".to_string(), "/b.git".to_string(), "b".to_string()),
    ]);
    assert_eq!(projects.len(), 11);
    assert_eq!(projects[1], format!("│ {:<11} │ {:<50} │", "Name", "a"));
    assert_eq!(projects[5], format!("├{}┼{}┤", "─".repeat(13), "─".repeat(52)));
    assert_eq!(projects[9], format!("│ {:<11} │ {:<50} │", "Local path", "b"));
    assert_eq!(projects_table_lines(&vec![]).len(), 2);
}

#[test]
fn update_fetches_all_before_merging() {
    assert_eq!(update_steps(0), vec![]);
    assert_eq!(
        update_steps(2),
        vec![SyncStep::Fetch(0), SyncStep::Fetch(1), SyncStep::Merge(0), SyncStep::Merge(1)]
    );
}

#[test]
fn lists_are_unicode_tables() {
    let s = server_list_lines(&vec![server("gh", "ssh://git@github.com")]);
    assert_eq!(
        s,
        vec![
            format!("┌{}┬{}┐", "─".repeat(32), "─".repeat(52)),
            format!("│ {:<30} │ {:<50} │", "Alias", "URL"),
            format!("├{}┼{}┤", "─".repeat(32), "─".repeat(52)),
            format!("│ {:<30} │ {:<50} │", "gh", "ssh://git@github.com"),
            format!("└{}┴{}┘", "─".repeat(32), "─".repeat(52)),
        ]
    );
    let p = project_list_lines(&vec![project("alpha", "origin", "/alpha.git", "alpha")]);
    assert_eq!(
        p,
        vec![
            format!("┌{}┬{}┐", "─".repeat(13), "─".repeat(52)),
            format!("│ {:<11} │ {:<50} │", "Name", "alpha"),
            format!("│ {:<11} │ {:<50} │", "Server", "origin"),
            format!("│ {:<11} │ {:<50} │", "Git path", "/alpha.git"),
            format!("│ {:<11} │ {:<50} │", "Local path", "alpha"),
            format!("└{}┴{}┘", "─".repeat(13), "─".repeat(52)),
        ]
    );
}

#[test]
fn fetch_runs_in_order_and_stops_at_first_failure() {
    assert_eq!(fetch_steps(3), vec![SyncStep::Fetch(0), SyncStep::Fetch(1), SyncStep::Fetch(2)]);
    assert_eq!(next_step(3, 0, true), Some(1));
    assert_eq!(next_step(3, 2, true), None);
    assert_eq!(next_step(3, 0, false), None);
    assert_eq!(next_step(4, 1, false), None);
}

#[test]
fn git_runs_become_output_or_git_errors() {
    assert_eq!(git_outcome("/ws/a", true, b"out".to_vec(), &b"warn".to_vec()), Ok(b"out".to_vec()));
    assert_eq!(
        git_outcome("/ws/a", false, Vec::new(), &b"fatal: not a git repository\n".to_vec()),
        Err(RepoError::Git { path: "/ws/a".to_string(), message: "fatal: not a git repository\n".to_string() })
    );
    assert_eq!(
        git_outcome("/ws/a", false, Vec::new(), &vec![b'x', 0xff]),
        Err(RepoError::Git { path: "/ws/a".to_string(), message: "x\u{fffd}".to_string() })
    );
    assert_eq!(
        spawn_failure("/ws/a", "git clone", "No such file or directory (os error 2)"),
        RepoError::Git {
            path: "/ws/a".to_string(),
            message: "Failed to spawn git clone: No such file or directory (os error 2)".to_string()
        }
    );
    // a failed git run never reads as Uninitialized
    let failed = git_outcome("/ws/a", false, Vec::new(), &Vec::new());
    assert_eq!(check_project_status(&failed, &None), Some(ProjectStatus::Unknown));
}

#[test]
fn laws_on_concrete_values() {
    // the lines before are kept and the entry follows them once
    assert_eq!(repo::text::lines(&once_of("a\nb", "c")), vec!["a", "b", "c"]);
    // adding twice to .gitignore writes once
    let once = gitignore_with_entry("a\nb", "c").unwrap();
    assert_eq!(once, "a\nb\nc\n");
    assert_eq!(gitignore_with_entry(&once, "c"), None);
    // an edit keeps aliases distinct and the old alias unused
    let mut cfg = workspace(vec![server("a", "1"), server("b", "2")], vec![project("p", "a", "/p", "p")]);
    assert_eq!(edit_server(&mut cfg, "a", "b".to_string(), "3".to_string()), EditServerOutcome::AliasExists);
    assert_eq!(
        edit_server(&mut cfg, "a", "c".to_string(), "1".to_string()),
        EditServerOutcome::Updated { alias_changed: true, url_changed: false }
    );
    assert!(projects_of(&cfg).iter().all(|p| p.git_server_alias != "a"));
    // add then remove a project restores the list
    let mut cfg = workspace(vec![server("a", "1")], vec![project("p", "a", "/p", "p")]);
    let before = projects_of(&cfg);
    assert_eq!(add_project(&mut cfg, project("q", "a", "/q", "q")), AddProjectOutcome::Added);
    assert_eq!(remove_project(&mut cfg, "q"), RemoveOutcome::Removed);
    assert_eq!(projects_of(&cfg), before);
}

#[test]
fn trimmed_answer_is_ignored_once() {
    let answer = repo::text::trim("  team/app \r");
    assert_eq!(answer, "team/app");
    let once = gitignore_with_entry("target\r\n", &answer).unwrap();
    assert_eq!(once, "target\r\nteam/app\n");
    assert_eq!(gitignore_with_entry(&once, &answer), None);
    // an entry ending in a carriage return is not one of the lines afterwards
    let odd = gitignore_with_entry("", "x\r").unwrap();
    assert!(gitignore_with_entry(&odd, "x\r").is_some());
}

fn once_of(existing: &str, entry: &str) -> String {
    gitignore_with_entry(existing, entry).unwrap()
}

#[test]
fn gitignore_with_carriage_return_at_end() {
    // "app\r" without a newline is not the line "app", so it is added; the
    // text then holds the line "app" twice
    let text = gitignore_with_entry("app\r", "app").unwrap();
    assert_eq!(text, "app\r\napp\n");
    assert_eq!(repo::text::lines(&text), vec!["app", "app"]);
}

#[test]
fn init_stops_at_config_errors_and_failed_clones() {
    assert!(init_step_succeeded(&InitAction::SkipRoot, false));
    assert!(init_step_succeeded(&InitAction::AlreadyExists, false));
    let clone = InitAction::Clone { url: "u".to_string(), dest: "d".to_string() };
    assert!(init_step_succeeded(&clone, true));
    assert!(!init_step_succeeded(&clone, false));
    assert!(!init_step_succeeded(&InitAction::ConfigError(RepoError::UnknownAlias("x".to_string())), true));
}

#[test]
fn edit_saves_projects_first_when_the_alias_changed() {
    let (saves, remotes) = edit_follow_up(EditServerOutcome::Updated { alias_changed: true, url_changed: false });
    assert_eq!(saves, vec![ConfigFile::Projects, ConfigFile::Local]);
    assert!(!remotes);
    let (saves, remotes) = edit_follow_up(EditServerOutcome::Updated { alias_changed: false, url_changed: true });
    assert_eq!(saves, vec![ConfigFile::Local]);
    assert!(remotes);
    let (saves, remotes) = edit_follow_up(EditServerOutcome::NoChanges);
    assert!(saves.is_empty() && !remotes);
}

#[test]
fn entry_is_a_line_once_even_after_a_carriage_return() {
    // the text ends with "b\r" without a newline; the entry "c" is new
    let text = gitignore_with_entry("a\nb\r", "c").unwrap();
    let lines = repo::text::lines(&text);
    assert_eq!(lines, vec!["a", "b", "c"]);
    assert_eq!(lines.iter().filter(|l| *l == "c").count(), 1);
}
