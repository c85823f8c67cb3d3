//! Properties that hold across the operations of the library.

use vstd::prelude::*;

use crate::commands::project::{appended_line, has_path, other_path, without_path};
use crate::commands::server::{has_alias, other_alias, renamed_alias, with_alias, without_alias};
use crate::config::{is_root_index, is_root_path, join_path, server_url_of, Ancestor, Project, Server};
use crate::error::{ProjectStatus, RepoError};
use crate::git::{counts_status, is_git_outcome, project_status, rev_list_status, upstream_status};
use crate::cli::table_row;
use crate::commands::server::{alias_users, planned_update};
use crate::text::{is_digit, pad_right_seq, parse_u64_spec, word_scan, words_of};
use crate::text::{is_white_space, line_scan, lines_of, strip_cr, trim_seq};

verus! {

/// Whether no two servers in `servers` share an alias.
pub open spec fn aliases_distinct(servers: Seq<Server>) -> bool {
    forall|i: int, j: int|
        0 <= i < servers.len() && 0 <= j < servers.len() && i != j ==> (#[trigger] servers[i]).alias@
            != (#[trigger] servers[j]).alias@
}

/// `server_url_of` finds a server exactly when one has the alias.
pub proof fn lemma_server_url_found(servers: Seq<Server>, alias: Seq<char>)
    ensures
        server_url_of(servers, alias) is Some <==> has_alias(servers, alias),
    decreases servers.len(),
{
    if servers.len() > 0 {
        lemma_server_url_found(servers.drop_first(), alias);
        if has_alias(servers, alias) && servers[0].alias@ != alias {
            let i = choose|i: int| 0 <= i < servers.len() && (#[trigger] servers[i]).alias@ == alias;
            assert(servers.drop_first()[i - 1] == servers[i]);
        }
        if has_alias(servers.drop_first(), alias) {
            let i = choose|i: int| 0 <= i < servers.len() - 1 && (#[trigger] servers.drop_first()[i]).alias@ == alias;
            assert(servers[i + 1] == servers.drop_first()[i]);
        }
    }
}

/// Looking up an alias in `servers` with a server appended gives what it
/// gave before, unless the alias was unknown and the new server has it.
pub proof fn lemma_server_url_push(servers: Seq<Server>, s: Server, alias: Seq<char>)
    ensures
        server_url_of(servers.push(s), alias) == if server_url_of(servers, alias) is Some {
            server_url_of(servers, alias)
        } else if s.alias@ == alias {
            Some(s.server@)
        } else {
            None::<Seq<char>>
        },
    decreases servers.len(),
{
    if servers.len() > 0 {
        assert(servers.push(s).drop_first() =~= servers.drop_first().push(s));
        assert(servers.push(s)[0] == servers[0]);
        lemma_server_url_push(servers.drop_first(), s, alias);
    } else {
        assert(servers.push(s).drop_first() =~= Seq::<Server>::empty());
        assert(servers.push(s)[0] == s);
        assert(server_url_of(Seq::<Server>::empty(), alias) is None);
    }
}

/// Read after write: once `add_server` has added `url` under `alias` (the
/// alias was unknown), looking `alias` up gives `url`, and every other
/// alias resolves as before.
pub proof fn law_added_server_resolves(servers: Seq<Server>, alias: String, url: String, other: Seq<char>)
    requires
        !has_alias(servers, alias@),
    ensures
        server_url_of(servers.push(Server { alias, server: url }), alias@) == Some(url@),
        other != alias@ ==> server_url_of(servers.push(Server { alias, server: url }), other)
            == server_url_of(servers, other),
{
    lemma_server_url_found(servers, alias@);
    lemma_server_url_push(servers, Server { alias, server: url }, alias@);
    lemma_server_url_push(servers, Server { alias, server: url }, other);
}

/// Removing a server alias keeps what `remove_server` keeps: the servers
/// with another alias.
proof fn lemma_without_alias_members(servers: Seq<Server>, alias: Seq<char>)
    ensures
        forall|i: int| 0 <= i < without_alias(servers, alias).len() ==> (#[trigger] without_alias(servers, alias)[i]).alias@ != alias,
        forall|s: Server| #[trigger] without_alias(servers, alias).contains(s) <==> servers.contains(s) && s.alias@ != alias,
{
    let pred = other_alias(alias);
    assert forall|i: int| 0 <= i < without_alias(servers, alias).len() implies (#[trigger] without_alias(servers, alias)[i]).alias@ != alias by {
        servers.lemma_filter_pred(pred, i);
    }
    assert forall|s: Server| #[trigger] without_alias(servers, alias).contains(s) <==> servers.contains(s) && s.alias@ != alias by {
        if without_alias(servers, alias).contains(s) {
            let i = choose|i: int| 0 <= i < without_alias(servers, alias).len() && without_alias(servers, alias)[i] == s;
            servers.lemma_filter_pred(pred, i);
            servers.lemma_filter_contains_rev(pred, s);
        }
        if servers.contains(s) && s.alias@ != alias {
            let i = choose|i: int| 0 <= i < servers.len() && servers[i] == s;
            servers.lemma_filter_contains(pred, i);
        }
    }
}

/// After `remove_server` removed `alias`, looking it up fails, and every
/// other alias resolves as before.
pub proof fn law_removed_server_unknown(servers: Seq<Server>, alias: Seq<char>, other: Seq<char>)
    ensures
        server_url_of(without_alias(servers, alias), alias) is None,
        other != alias ==> server_url_of(without_alias(servers, alias), other) == server_url_of(servers, other),
    decreases servers.len(),
{
    reveal_with_fuel(Seq::<_>::filter, 1);
    lemma_without_alias_members(servers, alias);
    lemma_server_url_found(without_alias(servers, alias), alias);
    if has_alias(without_alias(servers, alias), alias) {
        let i = choose|i: int| 0 <= i < without_alias(servers, alias).len() && (#[trigger] without_alias(servers, alias)[i]).alias@ == alias;
    }
    if servers.len() > 0 {
        law_removed_server_unknown(servers.drop_last(), alias, other);
        lemma_server_url_push(servers.drop_last(), servers.last(), other);
        lemma_server_url_push(without_alias(servers.drop_last(), alias), servers.last(), other);
        assert(servers.drop_last().push(servers.last()) =~= servers);
    }
}

/// Adding a server with a new alias and then removing that alias gives
/// back the servers one started from.
pub proof fn law_add_then_remove_server(servers: Seq<Server>, s: Server)
    requires
        !has_alias(servers, s.alias@),
    ensures
        without_alias(servers.push(s), s.alias@) == servers,
{
    reveal_with_fuel(Seq::<_>::filter, 1);
    assert(servers.push(s).drop_last() =~= servers);
    lemma_absent_alias_kept(servers, s.alias@);
}

/// Removing an alias that no server has changes nothing.
proof fn lemma_absent_alias_kept(servers: Seq<Server>, alias: Seq<char>)
    requires
        !has_alias(servers, alias),
    ensures
        without_alias(servers, alias) == servers,
    decreases servers.len(),
{
    reveal_with_fuel(Seq::<_>::filter, 1);
    if servers.len() > 0 {
        assert(!has_alias(servers.drop_last(), alias)) by {
            if has_alias(servers.drop_last(), alias) {
                let i = choose|i: int| 0 <= i < servers.len() - 1 && (#[trigger] servers.drop_last()[i]).alias@ == alias;
                assert(servers[i] == servers.drop_last()[i]);
            }
        }
        lemma_absent_alias_kept(servers.drop_last(), alias);
        assert(servers[servers.len() - 1].alias@ != alias);
        assert(servers.drop_last().push(servers.last()) =~= servers);
    }
}

/// Adding a server under an alias that no server has keeps the aliases
/// distinct, as `add_server` does.
pub proof fn law_add_keeps_aliases_distinct(servers: Seq<Server>, s: Server)
    requires
        aliases_distinct(servers),
        !has_alias(servers, s.alias@),
    ensures
        aliases_distinct(servers.push(s)),
{
    let n = servers.push(s);
    assert forall|i: int, j: int|
        0 <= i < n.len() && 0 <= j < n.len() && i != j implies (#[trigger] n[i]).alias@ != (#[trigger] n[j]).alias@ by {
        if i == servers.len() {
            assert(servers[j] == n[j]);
        } else if j == servers.len() {
            assert(servers[i] == n[i]);
        } else {
            assert(servers[i] == n[i] && servers[j] == n[j]);
        }
    }
}

/// Removing an alias keeps the remaining aliases distinct.
pub proof fn law_remove_keeps_aliases_distinct(servers: Seq<Server>, alias: Seq<char>)
    requires
        aliases_distinct(servers),
    ensures
        aliases_distinct(without_alias(servers, alias)),
    decreases servers.len(),
{
    reveal_with_fuel(Seq::<_>::filter, 1);
    if servers.len() > 0 {
        let rest = servers.drop_last();
        assert(aliases_distinct(rest)) by {
            assert forall|i: int, j: int|
                0 <= i < rest.len() && 0 <= j < rest.len() && i != j implies (#[trigger] rest[i]).alias@ != (#[trigger] rest[j]).alias@ by {
                assert(servers[i] == rest[i] && servers[j] == rest[j]);
            }
        }
        law_remove_keeps_aliases_distinct(rest, alias);
        if other_alias(alias)(servers.last()) {
            assert(!has_alias(without_alias(rest, alias), servers.last().alias@)) by {
                if has_alias(without_alias(rest, alias), servers.last().alias@) {
                    let i = choose|i: int| 0 <= i < without_alias(rest, alias).len() && (#[trigger] without_alias(rest, alias)[i]).alias@ == servers.last().alias@;
                    let w = without_alias(rest, alias)[i];
                    assert(without_alias(rest, alias).contains(w));
                    rest.lemma_filter_contains_rev(other_alias(alias), w);
                    let k = choose|k: int| 0 <= k < rest.len() && rest[k] == w;
                    assert(servers[k] == rest[k]);
                    assert(servers[servers.len() - 1] == servers.last());
                }
            }
            law_add_keeps_aliases_distinct(without_alias(rest, alias), servers.last());
        }
    }
}

/// Editing the server at `i` so that it takes an alias that no other server
/// has, as `edit_server` requires, keeps the aliases distinct.
pub proof fn law_edit_keeps_aliases_distinct(servers: Seq<Server>, i: int, s: Server)
    requires
        aliases_distinct(servers),
        0 <= i < servers.len(),
        s.alias@ == servers[i].alias@ || !has_alias(servers, s.alias@),
    ensures
        aliases_distinct(servers.update(i, s)),
{
    let n = servers.update(i, s);
    assert forall|a: int, b: int|
        0 <= a < n.len() && 0 <= b < n.len() && a != b implies (#[trigger] n[a]).alias@ != (#[trigger] n[b]).alias@ by {
        if a == i {
            assert(n[b] == servers[b]);
        } else if b == i {
            assert(n[a] == servers[a]);
        } else {
            assert(n[a] == servers[a] && n[b] == servers[b]);
        }
    }
}

/// Read after write for `edit_server`: once the first server with alias
/// `alias` (at `i`) has become `s`, looking up the new alias gives the new
/// URL, whether or not the alias changed.
pub proof fn law_edited_server_resolves(servers: Seq<Server>, alias: Seq<char>, i: int, s: Server)
    requires
        0 <= i < servers.len(),
        servers[i].alias@ == alias,
        forall|j: int| 0 <= j < i ==> (#[trigger] servers[j]).alias@ != alias,
        s.alias@ == alias || !has_alias(servers, s.alias@),
    ensures
        server_url_of(servers.update(i, s), s.alias@) == Some(s.server@),
    decreases i,
{
    if i > 0 {
        let rest = servers.drop_first();
        assert(servers.update(i, s).drop_first() =~= rest.update(i - 1, s));
        assert(servers.update(i, s)[0] == servers[0]);
        assert(servers[0].alias@ != s.alias@) by {
            if s.alias@ != alias {
                assert(!(0 <= 0 < servers.len() && servers[0].alias@ == s.alias@));
            }
        }
        assert forall|j: int| 0 <= j < i - 1 implies (#[trigger] rest[j]).alias@ != alias by {
            assert(rest[j] == servers[j + 1]);
        }
        assert(s.alias@ == alias || !has_alias(rest, s.alias@)) by {
            if has_alias(rest, s.alias@) {
                let k = choose|k: int| 0 <= k < rest.len() && (#[trigger] rest[k]).alias@ == s.alias@;
                assert(servers[k + 1] == rest[k]);
            }
        }
        law_edited_server_resolves(rest, alias, i - 1, s);
    } else {
        assert(servers.update(i, s)[0] == s);
    }
}

/// After an alias rename, no project uses the old alias any more, every
/// project that used it uses the new one, and the others are unchanged.
pub proof fn law_rename_moves_projects(projects: Seq<Project>, from: Seq<char>, to: String)
    requires
        to@ != from,
    ensures
        renamed_alias(projects, from, to).len() == projects.len(),
        forall|i: int| 0 <= i < projects.len() ==> (#[trigger] renamed_alias(projects, from, to)[i]).git_server_alias@ != from,
        forall|i: int| 0 <= i < projects.len() && projects[i].git_server_alias@ == from ==> #[trigger] renamed_alias(projects, from, to)[i] == with_alias(projects[i], to),
        forall|i: int| 0 <= i < projects.len() && projects[i].git_server_alias@ != from ==> #[trigger] renamed_alias(projects, from, to)[i] == projects[i],
{
}

/// No project that `remove_project` keeps has the removed path, every
/// other project is kept, and removing the same path again changes nothing.
pub proof fn law_removed_project_gone(projects: Seq<Project>, path: Seq<char>)
    ensures
        !has_path(without_path(projects, path), path),
        forall|p: Project| #[trigger] without_path(projects, path).contains(p) <==> projects.contains(p) && p.path@ != path,
        without_path(without_path(projects, path), path) == without_path(projects, path),
{
    let pred = other_path(path);
    let w = without_path(projects, path);
    assert forall|i: int| 0 <= i < w.len() implies (#[trigger] w[i]).path@ != path by {
        projects.lemma_filter_pred(pred, i);
    }
    assert forall|p: Project| #[trigger] w.contains(p) <==> projects.contains(p) && p.path@ != path by {
        if w.contains(p) {
            let i = choose|i: int| 0 <= i < w.len() && w[i] == p;
            projects.lemma_filter_pred(pred, i);
            projects.lemma_filter_contains_rev(pred, p);
        }
        if projects.contains(p) && p.path@ != path {
            let i = choose|i: int| 0 <= i < projects.len() && projects[i] == p;
            projects.lemma_filter_contains(pred, i);
        }
    }
    lemma_filter_keeps_all(w, path);
}

/// Filtering out a path that no project has changes nothing.
proof fn lemma_filter_keeps_all(projects: Seq<Project>, path: Seq<char>)
    requires
        forall|i: int| 0 <= i < projects.len() ==> (#[trigger] projects[i]).path@ != path,
    ensures
        without_path(projects, path) == projects,
    decreases projects.len(),
{
    reveal_with_fuel(Seq::<_>::filter, 1);
    if projects.len() > 0 {
        let rest = projects.drop_last();
        assert forall|i: int| 0 <= i < rest.len() implies (#[trigger] rest[i]).path@ != path by {
            assert(rest[i] == projects[i]);
        }
        lemma_filter_keeps_all(rest, path);
        assert(projects[projects.len() - 1].path@ != path);
        assert(rest.push(projects.last()) =~= projects);
    }
}

/// Scanning characters that hold no newline only extends the open line.
proof fn lemma_scan_extend(x: Seq<char>, y: Seq<char>)
    requires
        forall|k: int| 0 <= k < y.len() ==> y[k] != '\n',
    ensures
        line_scan(x + y) == (line_scan(x).0, line_scan(x).1 + y),
    decreases y.len(),
{
    if y.len() == 0 {
        assert(x + y =~= x);
        assert(line_scan(x).1 + y =~= line_scan(x).1);
    } else {
        assert((x + y).drop_last() =~= x + y.drop_last());
        assert((x + y).last() == y.last());
        lemma_scan_extend(x, y.drop_last());
        assert(line_scan(x).1 + y.drop_last() + seq![y.last()] =~= line_scan(x).1 + y);
        assert((line_scan(x).1 + y.drop_last()).push(y.last()) =~= line_scan(x).1 + y);
    }
}

/// Ignoring an entry twice writes it once: once `gitignore_with_entry` has
/// added `entry`, it is one of the lines, so a second call leaves the text
/// alone. This holds for an entry that is one line and does not end with a
/// carriage return (a prompt answer is trimmed, so it never does).
pub proof fn law_gitignore_entry_present(existing: Seq<char>, entry: Seq<char>)
    requires
        forall|k: int| 0 <= k < entry.len() ==> entry[k] != '\n',
        !(entry.len() > 0 && entry.last() == '\r'),
    ensures
        lines_of(appended_line(existing, entry)).contains(entry),
{
    let sep = if existing.len() > 0 && existing.last() != '\n' {
        seq!['\n']
    } else {
        seq![]
    };
    let x = existing + sep;
    assert(line_scan(x).1 =~= Seq::<char>::empty()) by {
        if x.len() > 0 {
            assert(x.last() == '\n');
        }
    }
    lemma_scan_extend(x, entry);
    let xe = x + entry;
    let full = appended_line(existing, entry);
    assert(full =~= (xe).push('\n'));
    assert(full.drop_last() =~= xe);
    assert(line_scan(xe).1 =~= entry);
    let done = line_scan(full).0;
    assert(done == line_scan(xe).0.push(entry));
    assert(line_scan(full).1.len() == 0);
    let ended = done.map_values(|l: Seq<char>| strip_cr(l));
    assert(strip_cr(entry) == entry);
    assert(ended[done.len() - 1] == entry);
    assert(lines_of(full) == ended);
}

/// Adding a project at a path that no project has and then removing that
/// path gives back the projects one started from.
pub proof fn law_add_then_remove_project(projects: Seq<Project>, p: Project)
    requires
        !has_path(projects, p.path@),
    ensures
        without_path(projects.push(p), p.path@) == projects,
{
    reveal_with_fuel(Seq::<_>::filter, 1);
    assert(projects.push(p).drop_last() =~= projects);
    assert forall|i: int| 0 <= i < projects.len() implies (#[trigger] projects[i]).path@ != p.path@ by {
        if projects[i].path@ == p.path@ {
            assert(has_path(projects, p.path@));
        }
    }
    lemma_filter_keeps_all(projects, p.path@);
}

/// What trimming leaves is a run of `s` that neither starts nor ends with
/// whitespace.
pub proof fn lemma_trim_shape(s: Seq<char>)
    ensures
        exists|a: int, b: int| 0 <= a <= b <= s.len() && trim_seq(s) == s.subrange(a, b),
        trim_seq(s).len() > 0 ==> !is_white_space(trim_seq(s)[0]) && !is_white_space(trim_seq(s).last()),
    decreases s.len(),
{
    if s.len() == 0 {
        assert(trim_seq(s) == s.subrange(0, 0));
    } else if is_white_space(s[0]) {
        let t = s.drop_first();
        lemma_trim_shape(t);
        let (a, b) = choose|a: int, b: int| 0 <= a <= b <= t.len() && trim_seq(t) == t.subrange(a, b);
        assert(t.subrange(a, b) =~= s.subrange(a + 1, b + 1));
    } else if is_white_space(s.last()) {
        let t = s.drop_last();
        lemma_trim_shape(t);
        let (a, b) = choose|a: int, b: int| 0 <= a <= b <= t.len() && trim_seq(t) == t.subrange(a, b);
        assert(t.subrange(a, b) =~= s.subrange(a, b));
    } else {
        assert(s.subrange(0, s.len() as int) =~= s);
    }
}

/// An answer read from one line and trimmed, as the project prompts give
/// the local path, is one of the lines of `.gitignore` once
/// `gitignore_with_entry` has added it, so adding it again writes nothing.
pub proof fn law_gitignore_trimmed_answer(existing: Seq<char>, line: Seq<char>)
    requires
        forall|k: int| 0 <= k < line.len() ==> line[k] != '\n',
    ensures
        lines_of(appended_line(existing, trim_seq(line))).contains(trim_seq(line)),
{
    lemma_trim_shape(line);
    let e = trim_seq(line);
    let (a, b) = choose|a: int, b: int| 0 <= a <= b <= line.len() && e == line.subrange(a, b);
    assert forall|k: int| 0 <= k < e.len() implies e[k] != '\n' by {
        assert(e[k] == line[a + k]);
    }
    law_gitignore_entry_present(existing, e);
}

/// When both checks are git runs (see `git_outcome` and `spawn_failure`),
/// a project is never reported `Uninitialized`: a failed git run is a git
/// error, which reads as `Unknown`.
pub proof fn law_git_runs_never_uninitialized(
    working_tree: Result<Vec<u8>, RepoError>,
    upstream: Option<Result<Vec<u8>, RepoError>>,
)
    requires
        is_git_outcome(working_tree),
        upstream matches Some(out) ==> is_git_outcome(out),
    ensures
        project_status(working_tree, upstream) != Some(ProjectStatus::Uninitialized),
{
}

/// The directory of a root project (local path `""` or `"."`) is the
/// workarea root itself: the root followed by at most a separator and `.`.
pub proof fn law_root_project_dir(root: Seq<char>, path: Seq<char>)
    requires
        is_root_path(path),
    ensures
        join_path(root, path) == root || join_path(root, path) == root + seq!['/']
            || join_path(root, path) == root + seq!['/', '.'] || join_path(root, path) == root + seq!['.'],
{
    reveal_strlit(".");
    if path.len() == 0 {
        assert(root + path =~= root);
        assert(root + seq!['/'] + path =~= root + seq!['/']);
    } else {
        assert(path =~= seq!['.']);
        assert(root + seq!['/'] + path =~= root + seq!['/', '.']);
    }
}

/// The lines of `.gitignore` once a one-line `entry` is added: the lines
/// ended by a newline before, then the unterminated last line (if any) now
/// ended too, then the entry.
proof fn lemma_appended_lines(existing: Seq<char>, entry: Seq<char>)
    requires
        forall|k: int| 0 <= k < entry.len() ==> entry[k] != '\n',
    ensures
        lines_of(appended_line(existing, entry)) == ({
            let (done, cur) = line_scan(existing);
            let ended = done.map_values(|l: Seq<char>| strip_cr(l));
            if cur.len() == 0 {
                ended
            } else {
                ended.push(strip_cr(cur))
            }
        }).push(strip_cr(entry)),
{
    let strip = |l: Seq<char>| strip_cr(l);
    let full = appended_line(existing, entry);
    let (done, cur) = line_scan(existing);
    if existing.len() == 0 || existing.last() == '\n' {
        assert(line_scan(existing).1 =~= Seq::<char>::empty()) by {
            if existing.len() > 0 {
                assert(existing.last() == '\n');
            }
        }
        assert(existing + seq![] =~= existing);
        lemma_scan_extend(existing, entry);
        assert(full =~= (existing + entry).push('\n'));
        assert(full.drop_last() =~= existing + entry);
        assert(line_scan(full).0 == done.push(entry));
        assert(done.push(entry).map_values(strip) =~= done.map_values(strip).push(strip_cr(entry)));
    } else {
        let x = existing.push('\n');
        assert(x.drop_last() =~= existing);
        assert(line_scan(x) == (done.push(cur), Seq::<char>::empty()));
        assert(cur.len() > 0) by {
            assert(existing.drop_last().push(existing.last()) =~= existing);
        }
        lemma_scan_extend(x, entry);
        assert(full =~= (x + entry).push('\n'));
        assert(full.drop_last() =~= x + entry);
        assert(Seq::<char>::empty() + entry =~= entry);
        assert(line_scan(full).0 == done.push(cur).push(entry));
        assert(done.push(cur).push(entry).map_values(strip) =~= done.map_values(strip).push(strip_cr(cur)).push(
            strip_cr(entry),
        ));
    }
}

/// Adding a one-line entry to `.gitignore` keeps the lines it had and puts
/// the entry after them. This holds unless the text or the entry ends with a
/// carriage return: a last line `"x\r"` without a newline becomes the line
/// `"x"` once a newline follows it.
pub proof fn law_gitignore_lines_kept(existing: Seq<char>, entry: Seq<char>)
    requires
        forall|k: int| 0 <= k < entry.len() ==> entry[k] != '\n',
        !(entry.len() > 0 && entry.last() == '\r'),
        !(existing.len() > 0 && existing.last() == '\r'),
    ensures
        lines_of(appended_line(existing, entry)) == lines_of(existing).push(entry),
{
    lemma_appended_lines(existing, entry);
    let cur = line_scan(existing).1;
    if cur.len() > 0 {
        assert(cur.last() == existing.last()) by {
            assert(existing.drop_last().push(existing.last()) =~= existing);
        }
        assert(strip_cr(cur) == cur);
    }
    assert(strip_cr(entry) == entry);
}

/// An entry that `gitignore_with_entry` adds, not a line before, is a line
/// exactly once afterwards: the last one. This holds for a one-line entry
/// not ending with a carriage return, unless the text ends with an
/// unterminated line that is the entry followed by a carriage return (that
/// line becomes the entry once a newline follows it).
pub proof fn law_gitignore_entry_once(existing: Seq<char>, entry: Seq<char>)
    requires
        forall|k: int| 0 <= k < entry.len() ==> entry[k] != '\n',
        !(entry.len() > 0 && entry.last() == '\r'),
        !lines_of(existing).contains(entry),
        line_scan(existing).1 != entry.push('\r'),
    ensures
        lines_of(appended_line(existing, entry)).last() == entry,
        forall|i: int|
            0 <= i < lines_of(appended_line(existing, entry)).len() - 1 ==> #[trigger] lines_of(
                appended_line(existing, entry),
            )[i] != entry,
{
    lemma_appended_lines(existing, entry);
    assert(strip_cr(entry) == entry);
    let (done, cur) = line_scan(existing);
    let ended = done.map_values(|l: Seq<char>| strip_cr(l));
    let full = lines_of(appended_line(existing, entry));
    assert forall|i: int| 0 <= i < full.len() - 1 implies #[trigger] full[i] != entry by {
        if i < ended.len() {
            assert(lines_of(existing)[i] == ended[i]);
        } else {
            assert(cur.len() > 0 && full[i] == strip_cr(cur));
            if strip_cr(cur) == entry {
                if cur.len() > 0 && cur.last() == '\r' {
                    assert(cur =~= entry.push('\r'));
                } else {
                    assert(lines_of(existing)[ended.len() as int] == cur);
                }
            }
        }
    }
}

/// The counts of the upstream check decide the status by which of them are
/// zero, not by their sizes: both nonzero is `OutOfSync`, only the ahead
/// count nonzero is `Ahead`, only the behind count nonzero is `Behind`,
/// neither is `Clean`.
pub proof fn law_counts_decide_status(ahead: u64, behind: u64)
    ensures
        (counts_status(ahead, behind) == ProjectStatus::OutOfSync) <==> (ahead != 0 && behind != 0),
        (counts_status(ahead, behind) == ProjectStatus::Ahead) <==> (ahead != 0 && behind == 0),
        (counts_status(ahead, behind) == ProjectStatus::Behind) <==> (ahead == 0 && behind != 0),
        (counts_status(ahead, behind) == ProjectStatus::Clean) <==> (ahead == 0 && behind == 0),
        counts_status(ahead, behind) == ProjectStatus::OutOfSync || counts_status(ahead, behind)
            == ProjectStatus::Ahead || counts_status(ahead, behind) == ProjectStatus::Behind
            || counts_status(ahead, behind) == ProjectStatus::Clean,
{
}

/// The output text of the upstream check: two words that are the numbers
/// `ahead` and `behind` give `OutOfSync` exactly when both are nonzero,
/// `Ahead` exactly when only `ahead` is, `Behind` exactly when only
/// `behind` is, else `Clean`; a word that is no number counts as 0; any
/// other number of words gives `Unknown`.
pub proof fn law_rev_list_text_status(text: Seq<char>, ahead: u64, behind: u64)
    ensures
        words_of(text).len() != 2 ==> rev_list_status(text) == ProjectStatus::Unknown,
        words_of(text).len() == 2 && parse_u64_spec(words_of(text)[0]) == Some(ahead) && parse_u64_spec(
            words_of(text)[1],
        ) == Some(behind) ==> {
            &&& (rev_list_status(text) == ProjectStatus::OutOfSync <==> ahead != 0 && behind != 0)
            &&& (rev_list_status(text) == ProjectStatus::Ahead <==> ahead != 0 && behind == 0)
            &&& (rev_list_status(text) == ProjectStatus::Behind <==> ahead == 0 && behind != 0)
            &&& (rev_list_status(text) == ProjectStatus::Clean <==> ahead == 0 && behind == 0)
        },
        words_of(text).len() == 2 && parse_u64_spec(words_of(text)[0]) is None
            ==> rev_list_status(text) != ProjectStatus::Ahead && rev_list_status(text) != ProjectStatus::OutOfSync,
        words_of(text).len() == 2 && parse_u64_spec(words_of(text)[1]) is None
            ==> rev_list_status(text) != ProjectStatus::Behind && rev_list_status(text) != ProjectStatus::OutOfSync,
{
    if words_of(text).len() == 2 {
        let a = match parse_u64_spec(words_of(text)[0]) { Some(v) => v, None => 0 };
        let b = match parse_u64_spec(words_of(text)[1]) { Some(v) => v, None => 0 };
        law_counts_decide_status(a, b);
    }
}

/// Any output of the working-tree check makes the status `Changes`,
/// whatever the output is and whatever the upstream check gave; with no
/// output, the upstream check alone decides; a failed check is `Unknown`
/// when git failed and `Uninitialized` otherwise.
pub proof fn law_working_tree_output_means_changes(
    bytes: Vec<u8>,
    upstream: Option<Result<Vec<u8>, RepoError>>,
    err: RepoError,
)
    ensures
        bytes@.len() > 0 ==> project_status(Ok(bytes), upstream) == Some(ProjectStatus::Changes),
        bytes@.len() == 0 ==> project_status(Ok(bytes), upstream) == match upstream {
            Some(out) => Some(upstream_status(out)),
            None => None::<ProjectStatus>,
        },
        (err is Git) ==> project_status(Err(err), upstream) == Some(ProjectStatus::Unknown),
        !(err is Git) ==> project_status(Err(err), upstream) == Some(ProjectStatus::Uninitialized),
{
}

/// The remote updates after a server edit are for exactly the projects
/// whose server alias is the edited alias (not one that merely starts with
/// it), in project order, each pointed at the new URL followed by its git
/// path, in its own directory.
pub proof fn law_remote_updates_exact_alias(projects: Seq<Project>, alias: Seq<char>, root: Seq<char>, url: Seq<char>)
    ensures
        forall|p: Project|
            #[trigger] projects.filter(alias_users(alias)).contains(p) <==> projects.contains(p) && p.git_server_alias@ == alias,
        forall|k: int|
            0 <= k < projects.filter(alias_users(alias)).len() ==> (#[trigger] projects.filter(alias_users(alias))[k]).git_server_alias@ == alias,
        forall|k: int|
            #![trigger projects.filter(alias_users(alias))[k]]
            0 <= k < projects.filter(alias_users(alias)).len() ==> projects.filter(alias_users(alias)).map_values(
                |p: Project| planned_update(root, url, p),
            )[k] == {
                let p = projects.filter(alias_users(alias))[k];
                (p.name@, join_path(root, p.path@), url + p.git_path@)
            },
{
    let f = projects.filter(alias_users(alias));
    assert forall|k: int| 0 <= k < f.len() implies (#[trigger] f[k]).git_server_alias@ == alias by {
        projects.lemma_filter_pred(alias_users(alias), k);
    }
    assert forall|p: Project| #[trigger] f.contains(p) <==> projects.contains(p) && p.git_server_alias@ == alias by {
        if f.contains(p) {
            let k = choose|k: int| 0 <= k < f.len() && f[k] == p;
            projects.lemma_filter_pred(alias_users(alias), k);
            projects.lemma_filter_contains_rev(alias_users(alias), p);
        }
        if projects.contains(p) && p.git_server_alias@ == alias {
            let k = choose|k: int| 0 <= k < projects.len() && projects[k] == p;
            projects.lemma_filter_contains(alias_users(alias), k);
        }
    }
}

/// A relative path (not starting with `/`) is joined to a base that is not
/// empty and does not end with `/` with exactly one `/` between them,
/// whatever the path is, `.` and the empty path included; to a base ending
/// with `/` or to an empty base it is appended as it is; an absolute path
/// stands alone. The joined path always ends with the path joined.
pub proof fn law_join_one_separator(base: Seq<char>, rel: Seq<char>)
    ensures
        !(rel.len() > 0 && rel[0] == '/') && base.len() > 0 && base.last() != '/' ==> join_path(base, rel)
            == base + seq!['/'] + rel && join_path(base, rel).len() == base.len() + 1 + rel.len()
            && join_path(base, rel)[base.len() as int] == '/',
        !(rel.len() > 0 && rel[0] == '/') && (base.len() == 0 || base.last() == '/') ==> join_path(base, rel) == base + rel,
        rel.len() > 0 && rel[0] == '/' ==> join_path(base, rel) == rel,
        join_path(base, rel).len() >= rel.len() && join_path(base, rel).subrange(
            join_path(base, rel).len() - rel.len(),
            join_path(base, rel).len() as int,
        ) == rel,
{
    let j = join_path(base, rel);
    if rel.len() > 0 && rel[0] == '/' {
        assert(j.subrange(0, rel.len() as int) =~= rel);
    } else if base.len() == 0 || base.last() == '/' {
        assert(j.subrange(base.len() as int, j.len() as int) =~= rel);
    } else {
        assert(j.subrange(base.len() + 1int, j.len() as int) =~= rel);
    }
}

/// The directory of a root project (local path `""` or `"."`) in a root
/// that is not empty and does not end with `/` is the root followed by
/// `/` and that path: the root itself.
pub proof fn law_root_project_dir_exact(root: Seq<char>, path: Seq<char>)
    requires
        is_root_path(path),
        root.len() > 0,
        root.last() != '/',
    ensures
        join_path(root, path) == root + seq!['/'] + path,
        path.len() == 1 ==> join_path(root, path) == root + seq!['/', '.'],
{
    reveal_strlit(".");
    if path.len() == 1 {
        assert(path =~= seq!['.']);
        assert(root + seq!['/'] + path =~= root + seq!['/', '.']);
    }
}

/// Every cell of a table row holds its whole text, followed only by the
/// spaces that bring it to the column width; no text is cut. With `l` and
/// `m` the widths the two cells take (their text's length or the column
/// width, whichever is larger), the row is `"│ "`, the first text, spaces,
/// `" │ "`, the second text, spaces, `" │"`.
pub proof fn law_table_row_keeps_text(x: Seq<char>, y: Seq<char>, a: nat, b: nat)
    ensures
        ({
            let row = table_row(x, y, a, b);
            let l: int = if x.len() < a { a as int } else { x.len() as int };
            let m: int = if y.len() < b { b as int } else { y.len() as int };
            &&& row.len() == 2 + l + 3 + m + 2
            &&& row.subrange(0, 2) == "│ "@
            &&& row.subrange(2, 2 + x.len() as int) == x
            &&& (forall|i: int| 2 + x.len() as int <= i < 2 + l ==> row[i] == ' ')
            &&& row.subrange(2 + l, 5 + l) == " │ "@
            &&& row.subrange(5 + l, 5 + l + y.len() as int) == y
            &&& (forall|i: int| 5 + l + y.len() as int <= i < 5 + l + m ==> row[i] == ' ')
            &&& row.subrange(5 + l + m, 7 + l + m) == " │"@
        }),
{
    reveal_strlit("│ ");
    reveal_strlit(" │ ");
    reveal_strlit(" │");
    let row = table_row(x, y, a, b);
    let l: int = if x.len() < a { a as int } else { x.len() as int };
    let m: int = if y.len() < b { b as int } else { y.len() as int };
    let px = crate::text::pad_right_seq(x, a);
    let py = crate::text::pad_right_seq(y, b);
    assert(px.len() == l);
    assert(py.len() == m);
    assert(row =~= "│ "@ + px + " │ "@ + py + " │"@);
    assert(row.subrange(0, 2) =~= "│ "@);
    assert(row.subrange(2, 2 + x.len() as int) =~= x);
    assert forall|i: int| 2 + x.len() as int <= i < 2 + l implies row[i] == ' ' by {
        assert(row[i] == px[i - 2]);
    }
    assert(row.subrange(2 + l, 5 + l) =~= " │ "@);
    assert(row.subrange(5 + l, 5 + l + y.len() as int) =~= y);
    assert forall|i: int| 5 + l + y.len() as int <= i < 5 + l + m implies row[i] == ' ' by {
        assert(row[i] == py[i - 5 - l]);
    }
    assert(row.subrange(5 + l + m, 7 + l + m) =~= " │"@);
}

/// Parsing a count: a single digit is its value; a digit appended to a
/// number multiplies it by ten and adds the digit, while the value fits; a
/// leading `+` changes nothing; the empty text, a lone `+`, a minus sign or
/// any other character that is no digit gives no number.
#[verifier::spinoff_prover]
pub proof fn law_parse_digits(s: Seq<char>, c: char, v: u64)
    ensures
        is_digit(c) ==> parse_u64_spec(seq![c]) == Some(((c as u32) - ('0' as u32)) as u64),
        is_digit(c) && parse_u64_spec(s) == Some(v) && !(s.len() > 0 && s[0] == '+') && v * 10 + ((c as u32)
            - ('0' as u32)) <= u64::MAX ==> parse_u64_spec(s.push(c)) == Some(
            (v * 10 + ((c as u32) - ('0' as u32))) as u64,
        ),
        s.len() > 0 && s[0] != '+' ==> parse_u64_spec(seq!['+'] + s) == parse_u64_spec(s),
        parse_u64_spec(Seq::<char>::empty()) is None,
        parse_u64_spec(seq!['+']) is None,
        s.len() > 0 && s[0] == '-' ==> parse_u64_spec(s) is None,
        (exists|i: int| 0 < i < s.len() && !is_digit(#[trigger] s[i])) ==> parse_u64_spec(s) is None,
        s.len() > 0 && !is_digit(s[0]) && s[0] != '+' ==> parse_u64_spec(s) is None,
{
    if is_digit(c) {
        let d = seq![c];
        assert(d.drop_last() =~= Seq::<char>::empty());
        assert(crate::text::decimal_value(Seq::<char>::empty()) == 0);
        assert(d.last() == c);
        assert(crate::text::decimal_value(d) == (c as nat) - ('0' as nat));
        assert(d.len() == 1 && d[0] == c && d[0] != '+');
        assert(crate::text::unsigned_digits(d) == d);
        assert(crate::text::all_digits(d));
        assert(((c as u32) - ('0' as u32)) as u64 == (c as nat) - ('0' as nat));
    }
    if is_digit(c) && parse_u64_spec(s) == Some(v) && !(s.len() > 0 && s[0] == '+') {
        let t = s.push(c);
        assert(crate::text::unsigned_digits(s) == s);
        assert(t.len() > 0 && t[0] != '+') by {
            assert(t[0] == s[0]);
        }
        assert(crate::text::unsigned_digits(t) == t);
        assert(t.drop_last() =~= s);
        assert forall|i: int| 0 <= i < t.len() implies is_digit(#[trigger] t[i]) by {
            if i < s.len() {
                assert(t[i] == s[i]);
            }
        }
    }
    if s.len() > 0 && s[0] != '+' {
        let t = seq!['+'] + s;
        assert(t.drop_first() =~= s);
        assert(crate::text::unsigned_digits(s) == s);
    }
    if exists|i: int| 0 < i < s.len() && !is_digit(#[trigger] s[i]) {
        let i = choose|i: int| 0 < i < s.len() && !is_digit(#[trigger] s[i]);
        let d = crate::text::unsigned_digits(s);
        if s[0] == '+' {
            assert(d[i - 1] == s[i]);
        } else {
            assert(d[i] == s[i]);
        }
    }
    if s.len() > 0 && !is_digit(s[0]) && s[0] != '+' {
        assert(crate::text::unsigned_digits(s)[0] == s[0]);
    }
    if s.len() > 0 && s[0] == '-' {
        assert(crate::text::unsigned_digits(s)[0] == s[0]);
    }
}

/// Scanning for words keeps every word non-empty and free of whitespace.
proof fn lemma_word_scan_clean(s: Seq<char>)
    ensures
        forall|k: int| 0 <= k < word_scan(s).0.len() ==> (#[trigger] word_scan(s).0[k]).len() > 0,
        forall|k: int, j: int|
            0 <= k < word_scan(s).0.len() && 0 <= j < word_scan(s).0[k].len() ==> !is_white_space(
                #[trigger] word_scan(s).0[k][j],
            ),
        forall|j: int| 0 <= j < word_scan(s).1.len() ==> !is_white_space(#[trigger] word_scan(s).1[j]),
    decreases s.len(),
{
    if s.len() > 0 {
        lemma_word_scan_clean(s.drop_last());
        let (done, cur) = word_scan(s.drop_last());
        if !is_white_space(s.last()) {
            assert forall|j: int| 0 <= j < cur.push(s.last()).len() implies !is_white_space(#[trigger] cur.push(s.last())[j]) by {
                if j < cur.len() {
                    assert(cur.push(s.last())[j] == cur[j]);
                }
            }
        } else if cur.len() > 0 {
            assert forall|k: int| 0 <= k < done.push(cur).len() implies (#[trigger] done.push(cur)[k]).len() > 0 by {
                if k < done.len() {
                    assert(done.push(cur)[k] == done[k]);
                }
            }
            assert forall|k: int, j: int|
                0 <= k < done.push(cur).len() && 0 <= j < done.push(cur)[k].len() implies !is_white_space(
                    #[trigger] done.push(cur)[k][j],
                ) by {
                if k < done.len() {
                    assert(done.push(cur)[k] == done[k]);
                }
            }
        }
    }
}

/// The words that the upstream check's output is split into are never
/// empty and hold no whitespace.
pub proof fn law_words_are_clean(text: Seq<char>)
    ensures
        forall|k: int| 0 <= k < words_of(text).len() ==> (#[trigger] words_of(text)[k]).len() > 0,
        forall|k: int, j: int|
            0 <= k < words_of(text).len() && 0 <= j < words_of(text)[k].len() ==> !is_white_space(
                #[trigger] words_of(text)[k][j],
            ),
{
    lemma_word_scan_clean(text);
    let (done, cur) = word_scan(text);
    if cur.len() > 0 {
        assert forall|k: int| 0 <= k < done.push(cur).len() implies (#[trigger] done.push(cur)[k]).len() > 0 by {
            if k < done.len() {
                assert(done.push(cur)[k] == done[k]);
            }
        }
        assert forall|k: int, j: int|
            0 <= k < done.push(cur).len() && 0 <= j < done.push(cur)[k].len() implies !is_white_space(
                #[trigger] done.push(cur)[k][j],
            ) by {
            if k < done.len() {
                assert(done.push(cur)[k] == done[k]);
            }
        }
    }
}

/// Padding a cell keeps its whole text and only ever adds spaces, up to the
/// column width.
pub proof fn law_pad_keeps_text(s: Seq<char>, width: nat)
    ensures
        pad_right_seq(s, width).len() == if s.len() < width { width } else { s.len() },
        pad_right_seq(s, width).subrange(0, s.len() as int) == s,
        forall|i: int| s.len() <= i < pad_right_seq(s, width).len() ==> #[trigger] pad_right_seq(s, width)[i] == ' ',
{
    assert(pad_right_seq(s, width).subrange(0, s.len() as int) =~= s);
}

/// The workarea root among the ancestors is the one with a `.repo.json`
/// such that none before it has one and the walk up to it never changes
/// device (the start's device being known); there is at most one.
pub proof fn law_root_index_means(a: Seq<Ancestor>, i: int, k: int)
    ensures
        is_root_index(a, i) <==> {
            &&& 0 <= i < a.len()
            &&& a[i].has_local_config
            &&& a[0].device is Some
            &&& forall|j: int| 0 < j <= i ==> #[trigger] a[j].device == a[0].device
            &&& forall|j: int| 0 <= j < i ==> !(#[trigger] a[j].has_local_config)
        },
        is_root_index(a, i) && is_root_index(a, k) ==> i == k,
{
    if is_root_index(a, i) && is_root_index(a, k) {
        if i < k {
            assert(!a[i].has_local_config);
        }
        if k < i {
            assert(!a[k].has_local_config);
        }
    }
}

/// Looking up an alias gives the URL of the first server with that alias,
/// whatever servers come after it.
pub proof fn law_server_url_first(servers: Seq<Server>, alias: Seq<char>, i: int)
    requires
        0 <= i < servers.len(),
        servers[i].alias@ == alias,
        forall|j: int| 0 <= j < i ==> (#[trigger] servers[j]).alias@ != alias,
    ensures
        server_url_of(servers, alias) == Some(servers[i].server@),
    decreases i,
{
    if i > 0 {
        let rest = servers.drop_first();
        assert(servers[0].alias@ != alias);
        assert forall|j: int| 0 <= j < i - 1 implies (#[trigger] rest[j]).alias@ != alias by {
            assert(rest[j] == servers[j + 1]);
        }
        assert(rest[i - 1] == servers[i]);
        law_server_url_first(rest, alias, i - 1);
    }
}

/// A failed upstream check reads as `Unknown`.
pub proof fn law_failed_upstream_unknown(e: RepoError, clean: Vec<u8>)
    ensures
        upstream_status(Err(e)) == ProjectStatus::Unknown,
        clean@.len() == 0 ==> project_status(Ok(clean), Some(Err(e))) == Some(ProjectStatus::Unknown),
{
}

/// Scanning for lines keeps every line free of newlines.
proof fn lemma_line_scan_clean(s: Seq<char>)
    ensures
        forall|k: int, j: int|
            0 <= k < line_scan(s).0.len() && 0 <= j < line_scan(s).0[k].len() ==> #[trigger] line_scan(s).0[k][j] != '\n',
        forall|j: int| 0 <= j < line_scan(s).1.len() ==> #[trigger] line_scan(s).1[j] != '\n',
    decreases s.len(),
{
    if s.len() > 0 {
        lemma_line_scan_clean(s.drop_last());
        let (done, cur) = line_scan(s.drop_last());
        if s.last() == '\n' {
            assert forall|k: int, j: int|
                0 <= k < done.push(cur).len() && 0 <= j < done.push(cur)[k].len() implies #[trigger] done.push(cur)[k][j] != '\n' by {
                if k < done.len() {
                    assert(done.push(cur)[k] == done[k]);
                }
            }
        } else {
            assert forall|j: int| 0 <= j < cur.push(s.last()).len() implies #[trigger] cur.push(s.last())[j] != '\n' by {
                if j < cur.len() {
                    assert(cur.push(s.last())[j] == cur[j]);
                }
            }
        }
    }
}

/// No line of a text holds a newline: the text is cut at every newline.
pub proof fn law_lines_have_no_newline(text: Seq<char>)
    ensures
        forall|k: int, j: int|
            0 <= k < lines_of(text).len() && 0 <= j < lines_of(text)[k].len() ==> #[trigger] lines_of(text)[k][j] != '\n',
{
    lemma_line_scan_clean(text);
    let (done, cur) = line_scan(text);
    let ended = done.map_values(|l: Seq<char>| strip_cr(l));
    assert forall|k: int, j: int|
        0 <= k < lines_of(text).len() && 0 <= j < lines_of(text)[k].len() implies #[trigger] lines_of(text)[k][j] != '\n' by {
        if k < ended.len() {
            let l = done[k];
            assert(ended[k] == strip_cr(l));
            if l.len() > 0 && l.last() == '\r' {
                assert(strip_cr(l)[j] == l[j]);
            }
            assert(lines_of(text)[k] == ended[k]);
        } else {
            assert(lines_of(text)[k] == cur);
        }
    }
}

} // verus!
