//! The git side of the workarea: the commands the tool runs and how their
//! output is read.

use vstd::prelude::*;
use vstd::string::*;
use vstd::utf8::{decode_utf8, valid_utf8};

use crate::error::{ProjectStatus, RepoError};
use crate::text::{parse_u64, parse_u64_spec, split_whitespace, trim, trim_seq, words_of};

verus! {

/// The text that `String::from_utf8_lossy` makes of `bytes`.
pub uninterp spec fn utf8_lossy(bytes: Seq<u8>) -> Seq<char>;

/// Calls `String::from_utf8_lossy`. Its result is named `utf8_lossy`; the
/// contract adds what the documentation of `from_utf8_lossy` promises for
/// valid UTF-8: the decoded text itself. How invalid sequences are replaced
/// by U+FFFD is left to the name.
#[verifier::external_body]
fn text_of(bytes: &Vec<u8>) -> (s: String)
    ensures
        s@ == utf8_lossy(bytes@),
        valid_utf8(bytes@) ==> s@ == decode_utf8(bytes@),
{
    String::from_utf8_lossy(bytes.as_slice()).into_owned()
}

/// The arguments of the git command that lists working-tree changes.
pub fn working_tree_args() -> (r: Vec<&'static str>)
    ensures
        r@.map_values(|a: &str| a@) == seq!["status"@, "--porcelain"@],
{
    let r = vec!["status", "--porcelain"];
    assert(r@.map_values(|a: &str| a@) =~= seq!["status"@, "--porcelain"@]);
    r
}

/// The arguments of the git command that counts the commits ahead of and
/// behind the upstream.
pub fn upstream_args() -> (r: Vec<&'static str>)
    ensures
        r@.map_values(|a: &str| a@) == seq!["rev-list"@, "--left-right"@, "--count"@, "@...HEAD@{upstream}"@],
{
    let r = vec!["rev-list", "--left-right", "--count", "@...HEAD@{upstream}"];
    assert(r@.map_values(|a: &str| a@) =~= seq!["rev-list"@, "--left-right"@, "--count"@, "@...HEAD@{upstream}"@]);
    r
}

/// The status for `ahead` commits ahead of and `behind` commits behind the
/// upstream.
pub open spec fn counts_status(ahead: u64, behind: u64) -> ProjectStatus {
    if ahead != 0 && behind != 0 {
        ProjectStatus::OutOfSync
    } else if ahead != 0 {
        ProjectStatus::Ahead
    } else if behind != 0 {
        ProjectStatus::Behind
    } else {
        ProjectStatus::Clean
    }
}

/// A count as the upstream check reads it: its number, or 0 if it is none.
pub open spec fn count_or_zero(word: Seq<char>) -> u64 {
    match parse_u64_spec(word) {
        Some(v) => v,
        None => 0,
    }
}

/// The status that the output text of the upstream check stands for: two
/// words, the counts ahead and behind, or else `Unknown`.
pub open spec fn rev_list_status(text: Seq<char>) -> ProjectStatus {
    let words = words_of(text);
    if words.len() == 2 {
        counts_status(count_or_zero(words[0]), count_or_zero(words[1]))
    } else {
        ProjectStatus::Unknown
    }
}

/// The status that the output text of the upstream check stands for.
pub fn status_from_rev_list(text: &str) -> (r: ProjectStatus)
    ensures
        r == rev_list_status(text@),
{
    let words = split_whitespace(text);
    proof {
        assert(words@.map_values(|w: String| w@).len() == words@.len());
    }
    if words.len() == 2 {
        proof {
            assert(words@.map_values(|w: String| w@)[0] == words@[0]@);
            assert(words@.map_values(|w: String| w@)[1] == words@[1]@);
        }
        let ahead = match parse_u64(words[0].as_str()) {
            Some(v) => v,
            None => 0,
        };
        let behind = match parse_u64(words[1].as_str()) {
            Some(v) => v,
            None => 0,
        };
        if ahead != 0 && behind != 0 {
            ProjectStatus::OutOfSync
        } else if ahead != 0 {
            ProjectStatus::Ahead
        } else if behind != 0 {
            ProjectStatus::Behind
        } else {
            ProjectStatus::Clean
        }
    } else {
        ProjectStatus::Unknown
    }
}

/// The status that the outcome of the upstream check stands for: a failed
/// check is `Unknown`.
pub open spec fn upstream_status(out: Result<Vec<u8>, RepoError>) -> ProjectStatus {
    match out {
        Ok(bytes) => rev_list_status(utf8_lossy(bytes@)),
        Err(_) => ProjectStatus::Unknown,
    }
}

/// The status that the outcome of the working-tree check settles, if it
/// settles one: a git failure is `Unknown`, any other failure
/// `Uninitialized`, some output `Changes`; no output leaves it to the
/// upstream check.
pub open spec fn working_tree_status(out: Result<Vec<u8>, RepoError>) -> Option<ProjectStatus> {
    match out {
        Err(RepoError::Git { .. }) => Some(ProjectStatus::Unknown),
        Err(_) => Some(ProjectStatus::Uninitialized),
        Ok(bytes) => if bytes@.len() != 0 {
            Some(ProjectStatus::Changes)
        } else {
            None
        },
    }
}

/// The status that the two checks settle (see `check_project_status`).
pub open spec fn project_status(
    working_tree: Result<Vec<u8>, RepoError>,
    upstream: Option<Result<Vec<u8>, RepoError>>,
) -> Option<ProjectStatus> {
    match working_tree_status(working_tree) {
        Some(s) => Some(s),
        None => match upstream {
            Some(out) => Some(upstream_status(out)),
            None => None,
        },
    }
}

/// The status of a project from the outcome of the working-tree check and,
/// once that check has left it open, the outcome of the upstream check.
/// `None` means that the upstream check is still to be run.
pub fn check_project_status(
    working_tree: &Result<Vec<u8>, RepoError>,
    upstream: &Option<Result<Vec<u8>, RepoError>>,
) -> (r: Option<ProjectStatus>)
    ensures
        r == project_status(*working_tree, *upstream),
        match working_tree_status(*working_tree) {
            Some(s) => r == Some(s),
            None => match upstream {
                Some(out) => {
                    &&& r == Some(upstream_status(*out))
                    &&& out matches Ok(bytes) ==> (valid_utf8(bytes@) ==> r == Some(
                        rev_list_status(decode_utf8(bytes@)),
                    ))
                },
                None => r is None,
            },
        },
{
    match working_tree {
        Err(RepoError::Git { .. }) => Some(ProjectStatus::Unknown),
        Err(_) => Some(ProjectStatus::Uninitialized),
        Ok(bytes) => {
            if bytes.len() != 0 {
                Some(ProjectStatus::Changes)
            } else {
                match upstream {
                    Some(Ok(out)) => {
                        let text = text_of(out);
                        Some(status_from_rev_list(text.as_str()))
                    },
                    Some(Err(_)) => Some(ProjectStatus::Unknown),
                    None => None,
                }
            }
        },
    }
}

/// The text of each argument in `args`.
pub open spec fn arg_texts(args: Seq<String>) -> Seq<Seq<char>> {
    args.map_values(|a: String| a@)
}

/// The arguments of the git command that fetches from the remotes.
pub fn fetch_args() -> (r: Vec<String>)
    ensures
        arg_texts(r@) == seq!["fetch"@],
{
    let r = vec!["fetch".to_owned()];
    assert(arg_texts(r@) =~= seq!["fetch"@]);
    r
}

/// The arguments of the git command that merges the fetched upstream.
pub fn merge_args() -> (r: Vec<String>)
    ensures
        arg_texts(r@) == seq!["merge"@],
{
    let r = vec!["merge".to_owned()];
    assert(arg_texts(r@) =~= seq!["merge"@]);
    r
}

/// The arguments of the git command that clones `url` into `dest`.
pub fn clone_args(url: &str, dest: &str) -> (r: Vec<String>)
    ensures
        arg_texts(r@) == seq!["clone"@, url@, dest@],
{
    let r = vec!["clone".to_owned(), url.to_owned(), dest.to_owned()];
    assert(arg_texts(r@) =~= seq!["clone"@, url@, dest@]);
    r
}

/// The arguments of the git command that prints the URL of `origin`.
pub fn origin_url_args() -> (r: Vec<String>)
    ensures
        arg_texts(r@) == seq!["config"@, "--get"@, "remote.origin.url"@],
{
    let r = vec!["config".to_owned(), "--get".to_owned(), "remote.origin.url".to_owned()];
    assert(arg_texts(r@) =~= seq!["config"@, "--get"@, "remote.origin.url"@]);
    r
}

/// The arguments of the git command that points `origin` at `url`.
pub fn set_origin_url_args(url: &str) -> (r: Vec<String>)
    ensures
        arg_texts(r@) == seq!["remote"@, "set-url"@, "origin"@, url@],
{
    let r = vec!["remote".to_owned(), "set-url".to_owned(), "origin".to_owned(), url.to_owned()];
    assert(arg_texts(r@) =~= seq!["remote"@, "set-url"@, "origin"@, url@]);
    r
}

/// The arguments of the git command that stages `files`.
pub fn add_args(files: &Vec<&str>) -> (r: Vec<String>)
    ensures
        arg_texts(r@) == seq!["add"@] + files@.map_values(|f: &str| f@),
{
    let mut r = vec!["add".to_owned()];
    let mut i: usize = 0;
    while i < files.len()
        invariant
            i <= files@.len(),
            arg_texts(r@) == seq!["add"@] + files@.take(i as int).map_values(|f: &str| f@),
        decreases files@.len() - i,
    {
        let ghost before = r@;
        r.push(files[i].to_owned());
        proof {
            assert(arg_texts(r@) =~= arg_texts(before).push(files@[i as int]@));
            assert(files@.take(i + 1).map_values(|f: &str| f@) =~= files@.take(i as int).map_values(|f: &str| f@).push(files@[i as int]@));
        }
        i = i + 1;
    }
    assert(files@.take(files@.len() as int) =~= files@);
    r
}

/// The arguments of the git command that commits with message `message`.
pub fn commit_args(message: &str) -> (r: Vec<String>)
    ensures
        arg_texts(r@) == seq!["commit"@, "-m"@, message@],
{
    let r = vec!["commit".to_owned(), "-m".to_owned(), message.to_owned()];
    assert(arg_texts(r@) =~= seq!["commit"@, "-m"@, message@]);
    r
}

/// How the current URL of `origin` is shown, from the outcome of the git
/// command that prints it: its output, trimmed, or `<unknown>`.
pub fn origin_url_text(out: &Result<Vec<u8>, RepoError>) -> (r: String)
    ensures
        r@ == match out {
            Ok(bytes) => trim_seq(utf8_lossy(bytes@)),
            Err(_) => "<unknown>"@,
        },
        out matches Ok(bytes) ==> (valid_utf8(bytes@) ==> r@ == trim_seq(decode_utf8(bytes@))),
{
    match out {
        Ok(bytes) => {
            let text = text_of(bytes);
            trim(text.as_str())
        },
        Err(_) => "<unknown>".to_owned(),
    }
}

/// Whether `out` is what a git run can come to: output, or a git error.
pub open spec fn is_git_outcome(out: Result<Vec<u8>, RepoError>) -> bool {
    match out {
        Ok(_) => true,
        Err(e) => e is Git,
    }
}

/// What a finished git run in `dir` comes to: its standard output when it
/// succeeded, else a git error in `dir` whose message is its standard error
/// as text.
pub fn git_outcome(dir: &str, success: bool, stdout: Vec<u8>, stderr: &Vec<u8>) -> (r: Result<Vec<u8>, RepoError>)
    ensures
        is_git_outcome(r),
        success ==> r == Ok::<Vec<u8>, RepoError>(stdout),
        !success ==> (r matches Err(RepoError::Git { path, message }) && path@ == dir@ && message@ == utf8_lossy(stderr@)),
{
    if success {
        Ok(stdout)
    } else {
        Err(RepoError::Git { path: dir.to_owned(), message: text_of(stderr) })
    }
}

/// The error of a git run in `dir` that could not be started: `what` names
/// the command, `reason` says why.
pub fn spawn_failure(dir: &str, what: &str, reason: &str) -> (e: RepoError)
    ensures
        e matches RepoError::Git { path, message } && path@ == dir@ && message@ == "Failed to spawn "@ + what@ + ": "@ + reason@,
{
    let mut message = "Failed to spawn ".to_owned();
    message.append(what);
    message.append(": ");
    message.append(reason);
    RepoError::Git { path: dir.to_owned(), message }
}

} // verus!
