use repo::cli::{
    needs_config, project_list_lines, server_list_lines, status_table_lines, Commands,
    ServerCommands, NOT_INITIALIZED,
};
use repo::commands::server::{add_server, remove_server, AddServerOutcome, RemoveOutcome};
use repo::config::{ConfigManager, LocalConfig, Project, ProjectsConfig, Server};
use repo::error::{ProjectStatus, RepoError};
use repo::git::check_project_status;

fn server(alias: &str, url: &str) -> Server {
    Server { alias: alias.to_string(), server: url.to_string() }
}

fn project(name: &str, alias: &str, git_path: &str, path: &str) -> Project {
    Project {
        name: name.to_string(),
        git_server_alias: alias.to_string(),
        git_path: git_path.to_string(),
        path: path.to_string(),
    }
}

fn workspace(servers: Vec<Server>, projects: Vec<Project>) -> ConfigManager {
    let mut cfg = ConfigManager::new("/ws".to_string(), &vec![]);
    cfg.local_config = Some(LocalConfig { servers, autocommit: false, autoignore: false });
    cfg.projects_config = Some(ProjectsConfig { projects });
    cfg
}

fn joined(lines: &[String]) -> String {
    lines.join("\n")
}

// --- init ---

#[test]
fn init_creates_config_files() {
    let cfg = ConfigManager::new("/ws".to_string(), &vec![]);
    assert!(!needs_config(&Commands::Init));
    assert!(cfg.local_config_path().ends_with(".repo.json"));
    assert!(cfg.projects_config_path().ends_with("projects.json"));
}

// --- guard: uninitialized workspace ---

#[test]
fn command_fails_without_init() {
    assert!(needs_config(&Commands::Server { subcommand: ServerCommands::List }));
    assert!(NOT_INITIALIZED.contains("repo init"));
}

// --- server list ---

#[test]
fn server_list_empty() {
    let out = joined(&server_list_lines(&vec![]));
    assert!(out.contains("No servers configured."));
}

#[test]
fn server_list_shows_configured_servers() {
    let out = joined(&server_list_lines(&vec![server("origin", "ssh://git@example.com")]));
    assert!(out.contains("origin"));
    assert!(out.contains("ssh://git@example.com"));
}

// --- server add ---

#[test]
fn server_add_writes_to_config() {
    let mut cfg = workspace(vec![], vec![]);
    let r = add_server(&mut cfg, "origin".to_string(), "ssh://git@example.com".to_string());
    assert_eq!(r, AddServerOutcome::Added);
    let servers = &cfg.local_config.as_ref().unwrap().servers;
    assert!(servers.iter().any(|s| s.alias == "origin"));
    assert!(servers.iter().any(|s| s.server == "ssh://git@example.com"));
}

// --- server remove ---

#[test]
fn server_remove_updates_config() {
    let mut cfg = workspace(vec![server("origin", "ssh://git@example.com")], vec![]);
    let r = remove_server(&mut cfg, "origin");
    assert_eq!(r, RemoveOutcome::Removed);
    let servers = &cfg.local_config.as_ref().unwrap().servers;
    assert!(!servers.iter().any(|s| s.alias.contains("origin")));
}

// --- project list ---

#[test]
fn project_list_empty() {
    let out = joined(&project_list_lines(&vec![]));
    assert!(out.contains("No projects configured."));
}

#[test]
fn project_list_shows_multiple_projects() {
    let out = joined(&project_list_lines(&vec![
        project("alpha", "origin", "/alpha.git", "alpha"),
        project("beta", "backup", "/beta.git", "beta"),
    ]));
    assert!(out.contains("alpha"));
    assert!(out.contains("beta"));
}

// --- status ---

#[test]
fn status_unknown_for_missing_project_dir() {
    // git cannot run in a directory that does not exist
    let working_tree = Err(RepoError::Git {
        path: "/ws/myproject".to_string(),
        message: "Failed to spawn git: No such file or directory".to_string(),
    });
    let status = check_project_status(&working_tree, &None).unwrap();
    assert_eq!(status, ProjectStatus::Unknown);
    let out = joined(&status_table_lines(&vec![("myproject".to_string(), status)]));
    assert!(out.contains("myproject"));
    assert!(out.contains("UNKNOWN"));
}

#[test]
fn status_clean_for_synced_git_repo() {
    let working_tree = Ok(Vec::new());
    assert_eq!(check_project_status(&working_tree, &None), None);
    let upstream = Some(Ok(b"0\t0\n".to_vec()));
    let status = check_project_status(&working_tree, &upstream).unwrap();
    assert_eq!(status, ProjectStatus::Clean);
    let out = joined(&status_table_lines(&vec![("myproject".to_string(), status)]));
    assert!(out.contains("myproject"));
    assert!(out.contains("CLEAN"));
}
