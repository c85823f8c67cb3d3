//! The command line of the tool and the text it shows.

use vstd::prelude::*;
use vstd::string::*;

use crate::config::{Project, Server};
use crate::error::{status_label, ProjectStatus};
use crate::text::{pad_right, pad_right_seq, repeat, repeat_seq};

verus! {

/// The parsed command line.
#[derive(Debug, Clone, PartialEq, Eq)]
pub struct Cli {
    pub command: Commands,
}

/// The commands of the tool.
#[derive(Debug, Clone, PartialEq, Eq)]
pub enum Commands {
    /// Initialize the repository
    Init,
    /// Show combined project status
    Status,
    /// Fetch from remotes of all repositories
    Fetch,
    /// Update all repositories
    Update,
    /// Manage configured projects
    Project { subcommand: ProjectCommands },
    /// Manage configured server aliases
    Server { subcommand: ServerCommands },
}

/// The subcommands of `repo project`.
#[derive(Debug, Clone, PartialEq, Eq)]
pub enum ProjectCommands {
    /// Add a new project interactively
    Add,
    /// Remove a project by local path (prompted if omitted)
    Remove { path: Option<String> },
    /// List all configured projects
    List,
}

/// The subcommands of `repo server`.
#[derive(Debug, Clone, PartialEq, Eq)]
pub enum ServerCommands {
    /// List all configured server aliases
    List,
    /// Add a new server alias interactively
    Add,
    /// Remove a server alias (prompted if omitted)
    Remove { alias: Option<String> },
    /// Edit an existing server alias and/or URL (prompted if omitted)
    Edit { alias: Option<String> },
}

/// What a command that needs the configuration says when there is none.
pub const NOT_INITIALIZED: &'static str = "Repo not initialized. Run 'repo init' to initialize";

/// Whether a command reads the configuration before it runs; only `init`
/// does not, as it is the one that creates it.
pub fn needs_config(command: &Commands) -> (r: bool)
    ensures
        r == !(command is Init),
{
    match command {
        Commands::Init => false,
        _ => true,
    }
}

/// The text of each line in `lines`.
pub open spec fn line_texts(lines: Seq<String>) -> Seq<Seq<char>> {
    lines.map_values(|l: String| l@)
}

/// A horizontal border of a two-column table with columns `a` and `b`
/// characters wide, between the corner and joint characters given.
pub open spec fn border(left: Seq<char>, mid: Seq<char>, right: Seq<char>, a: nat, b: nat) -> Seq<char> {
    left + repeat_seq("─"@, a) + mid + repeat_seq("─"@, b) + right
}

/// A row of a two-column table whose cells are `a` and `b` characters wide.
pub open spec fn table_row(x: Seq<char>, y: Seq<char>, a: nat, b: nat) -> Seq<char> {
    "│ "@ + pad_right_seq(x, a) + " │ "@ + pad_right_seq(y, b) + " │"@
}

fn border_text(left: &str, mid: &str, right: &str, a: usize, b: usize) -> (r: String)
    ensures
        r@ == border(left@, mid@, right@, a as nat, b as nat),
{
    let mut r = left.to_owned();
    let x = repeat("─", a);
    r.append(x.as_str());
    r.append(mid);
    let y = repeat("─", b);
    r.append(y.as_str());
    r.append(right);
    r
}

fn table_row_text(x: &str, y: &str, a: usize, b: usize) -> (r: String)
    ensures
        r@ == table_row(x@, y@, a as nat, b as nat),
{
    let mut r = "│ ".to_owned();
    let px = pad_right(x, a);
    r.append(px.as_str());
    r.append(" │ ");
    let py = pad_right(y, b);
    r.append(py.as_str());
    r.append(" │");
    r
}

/// A two-column table with a header row: cells `a` and `b` characters wide.
pub open spec fn two_column_table(header: (Seq<char>, Seq<char>), rows: Seq<(Seq<char>, Seq<char>)>, a: nat, b: nat) -> Seq<Seq<char>> {
    seq![border("┌"@, "┬"@, "┐"@, a + 2, b + 2), table_row(header.0, header.1, a, b), border("├"@, "┼"@, "┤"@, a + 2, b + 2)]
        + rows.map_values(|r: (Seq<char>, Seq<char>)| table_row(r.0, r.1, a, b))
        + seq![border("└"@, "┴"@, "┘"@, a + 2, b + 2)]
}

/// The status table as `repo status` shows it.
pub open spec fn status_table(rows: Seq<(String, ProjectStatus)>) -> Seq<Seq<char>> {
    two_column_table(("Project"@, "Status"@), rows.map_values(|r: (String, ProjectStatus)| (r.0@, status_label(r.1))), 40, 20)
}

/// The lines of the status table for `rows` of project name and status.
pub fn status_table_lines(rows: &Vec<(String, ProjectStatus)>) -> (r: Vec<String>)
    ensures
        line_texts(r@) == status_table(rows@),
{
    let ghost cells = rows@.map_values(|r: (String, ProjectStatus)| (r.0@, status_label(r.1)));
    let mut r: Vec<String> = Vec::new();
    r.push(border_text("┌", "┬", "┐", 42, 22));
    r.push(table_row_text("Project", "Status", 40, 20));
    r.push(border_text("├", "┼", "┤", 42, 22));
    let mut i: usize = 0;
    while i < rows.len()
        invariant
            i <= rows@.len(),
            cells == rows@.map_values(|r: (String, ProjectStatus)| (r.0@, status_label(r.1))),
            line_texts(r@) == seq![border("┌"@, "┬"@, "┐"@, 42, 22), table_row("Project"@, "Status"@, 40, 20), border("├"@, "┼"@, "┤"@, 42, 22)]
                + cells.take(i as int).map_values(|c: (Seq<char>, Seq<char>)| table_row(c.0, c.1, 40, 20)),
        decreases rows@.len() - i,
    {
        let ghost before = r@;
        let row = table_row_text(rows[i].0.as_str(), rows[i].1.label(), 40, 20);
        r.push(row);
        proof {
            assert(line_texts(r@) =~= line_texts(before).push(row@));
            assert(cells.take(i + 1).map_values(|c: (Seq<char>, Seq<char>)| table_row(c.0, c.1, 40, 20)) =~= cells.take(i as int).map_values(
                |c: (Seq<char>, Seq<char>)| table_row(c.0, c.1, 40, 20)).push(table_row(cells[i as int].0, cells[i as int].1, 40, 20)));
        }
        i = i + 1;
    }
    let ghost before = r@;
    let last = border_text("└", "┴", "┘", 42, 22);
    r.push(last);
    proof {
        assert(cells.take(rows@.len() as int) =~= cells);
        assert(line_texts(r@) =~= line_texts(before).push(last@));
        assert(line_texts(r@) =~= status_table(rows@));
    }
    r
}

/// The server table: alias in a column of 30, URL in a column of 50.
pub open spec fn server_table(rows: Seq<(String, String)>) -> Seq<Seq<char>> {
    two_column_table(("Alias"@, "URL"@), rows.map_values(|r: (String, String)| (r.0@, r.1@)), 30, 50)
}

/// The lines of the server table for `rows` of alias and URL.
pub fn server_table_lines(rows: &Vec<(String, String)>) -> (r: Vec<String>)
    ensures
        line_texts(r@) == server_table(rows@),
{
    let ghost cells = rows@.map_values(|r: (String, String)| (r.0@, r.1@));
    let mut r: Vec<String> = Vec::new();
    r.push(border_text("┌", "┬", "┐", 32, 52));
    r.push(table_row_text("Alias", "URL", 30, 50));
    r.push(border_text("├", "┼", "┤", 32, 52));
    let mut i: usize = 0;
    while i < rows.len()
        invariant
            i <= rows@.len(),
            cells == rows@.map_values(|r: (String, String)| (r.0@, r.1@)),
            line_texts(r@) == seq![border("┌"@, "┬"@, "┐"@, 32, 52), table_row("Alias"@, "URL"@, 30, 50), border("├"@, "┼"@, "┤"@, 32, 52)]
                + cells.take(i as int).map_values(|c: (Seq<char>, Seq<char>)| table_row(c.0, c.1, 30, 50)),
        decreases rows@.len() - i,
    {
        let ghost before = r@;
        let row = table_row_text(rows[i].0.as_str(), rows[i].1.as_str(), 30, 50);
        r.push(row);
        proof {
            assert(line_texts(r@) =~= line_texts(before).push(row@));
            assert(cells.take(i + 1).map_values(|c: (Seq<char>, Seq<char>)| table_row(c.0, c.1, 30, 50)) =~= cells.take(i as int).map_values(
                |c: (Seq<char>, Seq<char>)| table_row(c.0, c.1, 30, 50)).push(table_row(cells[i as int].0, cells[i as int].1, 30, 50)));
        }
        i = i + 1;
    }
    let ghost before = r@;
    let last = border_text("└", "┴", "┘", 32, 52);
    r.push(last);
    proof {
        assert(cells.take(rows@.len() as int) =~= cells);
        assert(line_texts(r@) =~= line_texts(before).push(last@));
        assert(line_texts(r@) =~= server_table(rows@));
    }
    r
}

/// The block of the projects table for one project: four labelled rows,
/// labels in a column of 11 and values in a column of 50.
pub open spec fn project_block(p: (String, String, String, String)) -> Seq<Seq<char>> {
    seq![
        table_row("Name"@, p.0@, 11, 50),
        table_row("Server"@, p.1@, 11, 50),
        table_row("Git path"@, p.2@, 11, 50),
        table_row("Local path"@, p.3@, 11, 50),
    ]
}

/// The blocks of the projects table for `rows`, a separator between two.
pub open spec fn project_blocks(rows: Seq<(String, String, String, String)>) -> Seq<Seq<char>>
    decreases rows.len(),
{
    if rows.len() == 0 {
        seq![]
    } else if rows.len() == 1 {
        project_block(rows[0])
    } else {
        project_blocks(rows.drop_last()) + seq![border("├"@, "┼"@, "┤"@, 13, 52)] + project_block(rows.last())
    }
}

/// The projects table: a block of rows for each project, framed.
pub open spec fn projects_table(rows: Seq<(String, String, String, String)>) -> Seq<Seq<char>> {
    seq![border("┌"@, "┬"@, "┐"@, 13, 52)] + project_blocks(rows) + seq![border("└"@, "┴"@, "┘"@, 13, 52)]
}

/// The lines of the projects table for `rows` of name, server, git path
/// and local path.
pub fn projects_table_lines(rows: &Vec<(String, String, String, String)>) -> (r: Vec<String>)
    ensures
        line_texts(r@) == projects_table(rows@),
{
    let mut r: Vec<String> = Vec::new();
    r.push(border_text("┌", "┬", "┐", 13, 52));
    let mut i: usize = 0;
    while i < rows.len()
        invariant
            i <= rows@.len(),
            line_texts(r@) == seq![border("┌"@, "┬"@, "┐"@, 13, 52)] + project_blocks(rows@.take(i as int)),
        decreases rows@.len() - i,
    {
        let ghost before = r@;
        proof {
            assert(rows@.take(i + 1).drop_last() =~= rows@.take(i as int));
            assert(rows@.take(i + 1).last() == rows@[i as int]);
        }
        if i > 0 {
            r.push(border_text("├", "┼", "┤", 13, 52));
        }
        let row = &rows[i];
        let a = table_row_text("Name", row.0.as_str(), 11, 50);
        let b = table_row_text("Server", row.1.as_str(), 11, 50);
        let c = table_row_text("Git path", row.2.as_str(), 11, 50);
        let d = table_row_text("Local path", row.3.as_str(), 11, 50);
        r.push(a);
        r.push(b);
        r.push(c);
        r.push(d);
        proof {
            assert(project_block(rows@[i as int]) =~= seq![a@, b@, c@, d@]);
            if i > 0 {
                assert(line_texts(r@) =~= line_texts(before) + seq![border("├"@, "┼"@, "┤"@, 13, 52)] + seq![a@, b@, c@, d@]);
            } else {
                assert(line_texts(r@) =~= line_texts(before) + seq![a@, b@, c@, d@]);
                assert(rows@.take(1).len() == 1);
            }
        }
        i = i + 1;
    }
    let ghost before = r@;
    let last = border_text("└", "┴", "┘", 13, 52);
    r.push(last);
    proof {
        assert(rows@.take(rows@.len() as int) =~= rows@);
        assert(line_texts(r@) =~= line_texts(before).push(last@));
        assert(line_texts(r@) =~= projects_table(rows@));
    }
    r
}

/// The server list as `repo server list` shows it: the server table, or a
/// note that there are no servers.
pub open spec fn server_list(servers: Seq<Server>) -> Seq<Seq<char>> {
    if servers.len() == 0 {
        seq!["No servers configured."@]
    } else {
        two_column_table(("Alias"@, "URL"@), servers.map_values(|s: Server| (s.alias@, s.server@)), 30, 50)
    }
}

/// The lines that `repo server list` prints for `servers`.
pub fn server_list_lines(servers: &Vec<Server>) -> (r: Vec<String>)
    ensures
        line_texts(r@) == server_list(servers@),
{
    if servers.len() == 0 {
        let r = vec!["No servers configured.".to_owned()];
        assert(line_texts(r@) =~= server_list(servers@));
        return r;
    }
    let mut rows: Vec<(String, String)> = Vec::new();
    let mut i: usize = 0;
    while i < servers.len()
        invariant
            i <= servers@.len(),
            rows@.map_values(|r: (String, String)| (r.0@, r.1@)) == servers@.take(i as int).map_values(
                |s: Server| (s.alias@, s.server@),
            ),
        decreases servers@.len() - i,
    {
        let ghost before = rows@;
        let row = (servers[i].alias.clone(), servers[i].server.clone());
        rows.push(row);
        proof {
            assert(rows@.map_values(|r: (String, String)| (r.0@, r.1@)) =~= before.map_values(
                |r: (String, String)| (r.0@, r.1@)).push((row.0@, row.1@)));
            assert(servers@.take(i + 1).map_values(|s: Server| (s.alias@, s.server@)) =~= servers@.take(i as int).map_values(
                |s: Server| (s.alias@, s.server@)).push((servers@[i as int].alias@, servers@[i as int].server@)));
        }
        i = i + 1;
    }
    assert(servers@.take(servers@.len() as int) =~= servers@);
    server_table_lines(&rows)
}

/// The row of the projects table for `p`: name, server alias, git path and
/// local path.
pub open spec fn project_cells(p: Project) -> (String, String, String, String) {
    (p.name, p.git_server_alias, p.git_path, p.path)
}

/// The project list as `repo project list` shows it: the projects table, or
/// a note that there are no projects.
pub open spec fn project_list(projects: Seq<Project>) -> Seq<Seq<char>> {
    if projects.len() == 0 {
        seq!["No projects configured."@]
    } else {
        projects_table(projects.map_values(|p: Project| project_cells(p)))
    }
}

/// The lines that `repo project list` prints for `projects`.
pub fn project_list_lines(projects: &Vec<Project>) -> (r: Vec<String>)
    ensures
        line_texts(r@) == project_list(projects@),
{
    if projects.len() == 0 {
        let r = vec!["No projects configured.".to_owned()];
        assert(line_texts(r@) =~= project_list(projects@));
        return r;
    }
    let mut rows: Vec<(String, String, String, String)> = Vec::new();
    let mut i: usize = 0;
    while i < projects.len()
        invariant
            i <= projects@.len(),
            rows@ == projects@.take(i as int).map_values(|p: Project| project_cells(p)),
        decreases projects@.len() - i,
    {
        let p = &projects[i];
        let row = (p.name.clone(), p.git_server_alias.clone(), p.git_path.clone(), p.path.clone());
        rows.push(row);
        proof {
            assert(projects@.take(i + 1).map_values(|p: Project| project_cells(p)) =~= projects@.take(i as int).map_values(
                |p: Project| project_cells(p)).push(project_cells(projects@[i as int])));
        }
        i = i + 1;
    }
    assert(projects@.take(projects@.len() as int) =~= projects@);
    projects_table_lines(&rows)
}

} // verus!
