//! The git side of the library: the argument lists of the git commands that `cx` runs,
//! and what their outputs mean. Running a command is the caller's part.

use vstd::prelude::*;

use crate::text::{
    chars_of, concat, decimal, decimal_string, find_char, find_in, has_prefix, join, joined,
    lemma_find_char, lines, lines_of, push_str, slice_chars, starts_with, trim, trimmed, views_of,
};

verus! {

/// Git operation error.
#[derive(Debug)]
pub struct GitError {
    pub message: String,
    pub stderr: String,
}

impl GitError {
    /// The displayed text: `git error: <message>`, and the standard error output on a
    /// line of its own when there is any.
    pub open spec fn shown(self) -> Seq<char> {
        if self.stderr@.len() == 0 {
            "git error: "@ + self.message@
        } else {
            "git error: "@ + self.message@ + "\n"@ + self.stderr@
        }
    }

    /// The error as it is displayed.
    pub fn to_string(&self) -> (s: String)
        ensures
            s@ == self.shown(),
    {
        let mut s = String::from_str("git error: ");
        push_str(&mut s, self.message.as_str());
        if self.stderr.as_str().is_empty() {
            s
        } else {
            push_str(&mut s, "\n");
            push_str(&mut s, self.stderr.as_str());
            s
        }
    }
}

/// The views of an argument list.
pub open spec fn args_view(args: Seq<String>) -> Seq<Seq<char>> {
    views_of(args)
}

/// What a finished `git <args>` gives: its trimmed standard output when it succeeded,
/// else the error `git <args> failed` with the trimmed standard error output.
pub open spec fn git_outcome_of(args: Seq<Seq<char>>, success: bool, stdout: Seq<char>, stderr: Seq<char>) -> Result<Seq<char>, (Seq<char>, Seq<char>)> {
    if success {
        Ok(trimmed(stdout))
    } else {
        Err(("git "@ + joined(args, " "@) + " failed"@, trimmed(stderr)))
    }
}

/// The view of a git result.
pub open spec fn git_result_view(r: Result<String, GitError>) -> Result<Seq<char>, (Seq<char>, Seq<char>)> {
    match r {
        Ok(s) => Ok(s@),
        Err(e) => Err((e.message@, e.stderr@)),
    }
}

/// The result of a finished git command, from its exit status and its output.
pub fn git_outcome(args: &Vec<String>, success: bool, stdout: &str, stderr: &str) -> (r: Result<String, GitError>)
    ensures
        git_result_view(r) == git_outcome_of(args_view(args@), success, stdout@, stderr@),
{
    if !success {
        let mut message = String::from_str("git ");
        push_str(&mut message, join(args, " ").as_str());
        push_str(&mut message, " failed");
        return Err(GitError { message, stderr: trim(stderr) });
    }
    Ok(trim(stdout))
}

/// The error when git could not be started at all: `failed to run git: <detail>`.
pub fn spawn_failure(detail: &str) -> (e: GitError)
    ensures
        e.message@ == "failed to run git: "@ + detail@,
        e.stderr@.len() == 0,
{
    GitError { message: concat("failed to run git: ", detail), stderr: String::new() }
}

fn args1(a: &str) -> (v: Vec<String>)
    ensures
        args_view(v@) == seq![a@],
{
    let mut v = Vec::new();
    v.push(String::from_str(a));
    assert(args_view(v@) =~= seq![a@]);
    v
}

fn args2(a: &str, b: &str) -> (v: Vec<String>)
    ensures
        args_view(v@) == seq![a@, b@],
{
    let mut v = Vec::new();
    v.push(String::from_str(a));
    v.push(String::from_str(b));
    assert(args_view(v@) =~= seq![a@, b@]);
    v
}

fn args3(a: &str, b: &str, c: &str) -> (v: Vec<String>)
    ensures
        args_view(v@) == seq![a@, b@, c@],
{
    let mut v = Vec::new();
    v.push(String::from_str(a));
    v.push(String::from_str(b));
    v.push(String::from_str(c));
    assert(args_view(v@) =~= seq![a@, b@, c@]);
    v
}

/// Arguments that print the repository's top-level directory.
pub fn rev_parse_toplevel() -> (args: Vec<String>)
    ensures
        args_view(args@) == seq!["rev-parse"@, "--show-toplevel"@],
{
    args2("rev-parse", "--show-toplevel")
}

/// Arguments that print the current HEAD commit hash.
pub fn rev_parse_head() -> (args: Vec<String>)
    ensures
        args_view(args@) == seq!["rev-parse"@, "HEAD"@],
{
    args2("rev-parse", "HEAD")
}

/// Arguments that print the current branch name.
pub fn current_branch() -> (args: Vec<String>)
    ensures
        args_view(args@) == seq!["rev-parse"@, "--abbrev-ref"@, "HEAD"@],
{
    args3("rev-parse", "--abbrev-ref", "HEAD")
}

/// Arguments that print the working tree's status, one change per line.
pub fn status_porcelain() -> (args: Vec<String>)
    ensures
        args_view(args@) == seq!["status"@, "--porcelain"@],
{
    args2("status", "--porcelain")
}

/// Check for uncommitted changes: whether the porcelain status output lists anything.
pub fn has_uncommitted_changes(status_output: &str) -> (b: bool)
    ensures
        b == (status_output@.len() > 0),
{
    !status_output.is_empty()
}

/// Arguments that stash uncommitted changes, untracked files included.
pub fn stash() -> (args: Vec<String>)
    ensures
        args_view(args@) == seq!["stash"@, "--include-untracked"@],
{
    args2("stash", "--include-untracked")
}

/// Arguments that pop the stash.
pub fn stash_pop() -> (args: Vec<String>)
    ensures
        args_view(args@) == seq!["stash"@, "pop"@],
{
    args2("stash", "pop")
}

/// Arguments that create and switch to a new branch.
pub fn checkout_new_branch(branch: &str) -> (args: Vec<String>)
    ensures
        args_view(args@) == seq!["checkout"@, "-b"@, branch@],
{
    args3("checkout", "-b", branch)
}

/// Arguments that switch to an existing branch.
pub fn checkout(branch: &str) -> (args: Vec<String>)
    ensures
        args_view(args@) == seq!["checkout"@, branch@],
{
    args2("checkout", branch)
}

/// Arguments that stage all changes.
pub fn add_all() -> (args: Vec<String>)
    ensures
        args_view(args@) == seq!["add"@, "-A"@],
{
    args2("add", "-A")
}

/// Arguments that create a commit with the message; the new commit's hash is then read
/// with `rev_parse_head`.
pub fn commit(message: &str) -> (args: Vec<String>)
    ensures
        args_view(args@) == seq!["commit"@, "-m"@, message@],
{
    args3("commit", "-m", message)
}

/// Arguments that create a commit with the message without running the commit hooks
/// (`cx apply --no-verify`).
pub fn commit_skipping_hooks(message: &str) -> (args: Vec<String>)
    ensures
        args_view(args@) == seq!["commit"@, "--no-verify"@, "-m"@, message@],
{
    let mut v = args3("commit", "--no-verify", "-m");
    let m = String::from_str(message);
    let ghost before = args_view(v@);
    v.push(m);
    assert(args_view(v@) =~= before.push(message@));
    v
}

/// Arguments that stage the `.cx/` directory.
pub fn add_cx_dir() -> (args: Vec<String>)
    ensures
        args_view(args@) == seq!["add"@, ".cx/"@],
{
    args2("add", ".cx/")
}

/// Arguments that merge a branch.
pub fn merge(branch: &str) -> (args: Vec<String>)
    ensures
        args_view(args@) == seq!["merge"@, branch@],
{
    args2("merge", branch)
}

/// Arguments that force-delete a branch.
pub fn delete_branch(branch: &str) -> (args: Vec<String>)
    ensures
        args_view(args@) == seq!["branch"@, "-D"@, branch@],
{
    args3("branch", "-D", branch)
}

/// Arguments that list the staged files.
pub fn diff_cached_names_args() -> (args: Vec<String>)
    ensures
        args_view(args@) == seq!["diff"@, "--cached"@, "--name-only"@],
{
    args3("diff", "--cached", "--name-only")
}

/// The file names in the output of a name-only diff: none for empty output, else one per
/// line.
pub open spec fn names_in(output: Seq<char>) -> Seq<Seq<char>> {
    if output.len() == 0 {
        Seq::empty()
    } else {
        lines_of(output)
    }
}

/// Get list of staged files, from the output of `diff_cached_names_args`.
pub fn diff_cached_names(output: &str) -> (names: Vec<String>)
    ensures
        views_of(names@) == names_in(output@),
{
    if output.is_empty() {
        let v: Vec<String> = Vec::new();
        assert(views_of(v@) =~= Seq::<Seq<char>>::empty());
        return v;
    }
    lines(output)
}

/// The session id that a branch name carries: on a branch `cx/<sid>-<slug>` whose `<sid>`
/// (the text before the first `-`) begins with `s_`; none on any other branch, and none
/// on a detached `HEAD`.
pub open spec fn session_id_in(branch: Seq<char>) -> Option<Seq<char>> {
    if branch == "HEAD"@ || !has_prefix(branch, "cx/"@) {
        None
    } else {
        let after = branch.skip(3);
        match find_char(after, '-') {
            Some(d) => {
                let sid = after.take(d as int);
                if has_prefix(sid, "s_"@) {
                    Some(sid)
                } else {
                    None
                }
            },
            None => None,
        }
    }
}

/// The view of an optional string.
pub open spec fn opt_view(o: Option<String>) -> Option<Seq<char>> {
    match o {
        Some(s) => Some(s@),
        None => None,
    }
}

/// Parse active session ID from the current branch name.
/// Branch format: cx/s_xxxxxxxx-<slug>
pub fn current_session_id(branch: &str) -> (sid: Option<String>)
    ensures
        opt_view(sid) == session_id_in(branch@),
{
    proof {
        reveal_strlit("cx/");
    }
    let head = String::from_str("HEAD");
    let b = String::from_str(branch);
    if b == head || !starts_with(branch, "cx/") {
        return None;
    }
    let v = chars_of(branch);
    let after = slice_chars(&v, 3, v.len());
    let w = chars_of(after.as_str());
    assert(w@ =~= branch@.skip(3));
    match find_in(&w, '-') {
        Some(d) => {
            proof {
                lemma_find_char(w@, '-');
            }
            let sid = slice_chars(&w, 0, d);
            assert(sid@ =~= w@.take(d as int));
            if starts_with(sid.as_str(), "s_") {
                Some(sid)
            } else {
                None
            }
        },
        None => None,
    }
}

/// The range `<from>..<to>`.
fn range(from: &str, to: &str) -> (r: String)
    ensures
        r@ == from@ + ".."@ + to@,
{
    let mut r = String::from_str(from);
    push_str(&mut r, "..");
    push_str(&mut r, to);
    r
}

/// Arguments for the diff between two commits.
pub fn diff(from: &str, to: &str) -> (args: Vec<String>)
    ensures
        args_view(args@) == seq!["diff"@, from@ + ".."@ + to@],
{
    let mut v = args1("diff");
    let r = range(from, to);
    let ghost before = args_view(v@);
    v.push(r);
    assert(args_view(v@) =~= before.push(r@));
    assert(args_view(v@) =~= seq!["diff"@, from@ + ".."@ + to@]);
    v
}

/// Arguments for the diff stats (file list and line counts) between two commits.
pub fn diff_stat(from: &str, to: &str) -> (args: Vec<String>)
    ensures
        args_view(args@) == seq!["diff"@, "--stat"@, from@ + ".."@ + to@],
{
    let mut v = args2("diff", "--stat");
    let r = range(from, to);
    let ghost before = args_view(v@);
    v.push(r);
    assert(args_view(v@) =~= before.push(r@));
    assert(args_view(v@) =~= seq!["diff"@, "--stat"@, from@ + ".."@ + to@]);
    v
}

/// Arguments that list the files changed between two commits.
pub fn diff_files_args(from: &str, to: &str) -> (args: Vec<String>)
    ensures
        args_view(args@) == seq!["diff"@, "--name-only"@, from@ + ".."@ + to@],
{
    let mut v = args2("diff", "--name-only");
    let r = range(from, to);
    let ghost before = args_view(v@);
    v.push(r);
    assert(args_view(v@) =~= before.push(r@));
    assert(args_view(v@) =~= seq!["diff"@, "--name-only"@, from@ + ".."@ + to@]);
    v
}

/// Get list of changed files, from the output of `diff_files_args`.
pub fn diff_files(output: &str) -> (names: Vec<String>)
    ensures
        views_of(names@) == names_in(output@),
{
    diff_cached_names(output)
}

/// Arguments for the git log in a compact format, at most `max_count` entries.
pub fn log(pretty_format: &str, max_count: u32) -> (args: Vec<String>)
    ensures
        args_view(args@) == seq!["log"@, "--pretty=format:"@ + pretty_format@, "-"@ + decimal(max_count as nat)],
{
    let mut v = args1("log");
    let f = concat("--pretty=format:", pretty_format);
    let ghost b1 = args_view(v@);
    v.push(f);
    assert(args_view(v@) =~= b1.push(f@));
    let n = concat("-", decimal_string(max_count as u64).as_str());
    let ghost b2 = args_view(v@);
    v.push(n);
    assert(args_view(v@) =~= b2.push(n@));
    assert(args_view(v@) =~= seq!["log"@, "--pretty=format:"@ + pretty_format@, "-"@ + decimal(max_count as nat)]);
    v
}

/// Arguments that read the configured user name.
pub fn config_user_name() -> (args: Vec<String>)
    ensures
        args_view(args@) == seq!["config"@, "user.name"@],
{
    args2("config", "user.name")
}

/// Check if inside a git repository: whether asking for the top-level directory succeeded.
pub fn is_git_repo(toplevel: &Result<String, GitError>) -> (b: bool)
    ensures
        b == toplevel is Ok,
{
    toplevel.is_ok()
}

} // verus!
