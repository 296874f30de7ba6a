use cx::git_api::{
    add_all, add_cx_dir, checkout, checkout_new_branch, commit, config_user_name, current_branch,
    commit_skipping_hooks, current_session_id, delete_branch, diff, diff_cached_names, diff_cached_names_args,
    diff_files, diff_files_args, diff_stat, git_outcome, has_uncommitted_changes, is_git_repo,
    log, merge, rev_parse_head, rev_parse_toplevel, spawn_failure, stash, stash_pop,
    status_porcelain, GitError,
};

fn args(v: &[&str]) -> Vec<String> {
    v.iter().map(|s| s.to_string()).collect()
}

#[test]
fn argument_lists() {
    assert_eq!(rev_parse_toplevel(), args(&["rev-parse", "--show-toplevel"]));
    assert_eq!(rev_parse_head(), args(&["rev-parse", "HEAD"]));
    assert_eq!(current_branch(), args(&["rev-parse", "--abbrev-ref", "HEAD"]));
    assert_eq!(status_porcelain(), args(&["status", "--porcelain"]));
    assert_eq!(stash(), args(&["stash", "--include-untracked"]));
    assert_eq!(stash_pop(), args(&["stash", "pop"]));
    assert_eq!(checkout_new_branch("cx/s_1-x"), args(&["checkout", "-b", "cx/s_1-x"]));
    assert_eq!(checkout("main"), args(&["checkout", "main"]));
    assert_eq!(add_all(), args(&["add", "-A"]));
    assert_eq!(commit("cx: msg"), args(&["commit", "-m", "cx: msg"]));
    assert_eq!(merge("b"), args(&["merge", "b"]));
    assert_eq!(delete_branch("b"), args(&["branch", "-D", "b"]));
    assert_eq!(diff_cached_names_args(), args(&["diff", "--cached", "--name-only"]));
    assert_eq!(config_user_name(), args(&["config", "user.name"]));
    assert_eq!(commit_skipping_hooks("m"), args(&["commit", "--no-verify", "-m", "m"]));
    assert_eq!(add_cx_dir(), args(&["add", ".cx/"]));
}

#[test]
fn range_argument_lists() {
    assert_eq!(diff("abc", "HEAD"), args(&["diff", "abc..HEAD"]));
    assert_eq!(diff_stat("abc", "HEAD"), args(&["diff", "--stat", "abc..HEAD"]));
    assert_eq!(diff_files_args("a", "b"), args(&["diff", "--name-only", "a..b"]));
    assert_eq!(log("%h %s", 5), args(&["log", "--pretty=format:%h %s", "-5"]));
}

#[test]
fn outcome_success_is_trimmed_stdout() {
    let r = git_outcome(&args(&["rev-parse", "HEAD"]), true, "  abc123\n", "warning");
    assert_eq!(r.unwrap(), "abc123");
}

#[test]
fn outcome_failure_names_command() {
    let r = git_outcome(&args(&["checkout", "nope"]), false, "", "error: no such branch\n");
    let e = r.err().unwrap();
    assert_eq!(e.message, "git checkout nope failed");
    assert_eq!(e.stderr, "error: no such branch");
    assert_eq!(e.to_string(), "git error: git checkout nope failed\nerror: no such branch");
}

#[test]
fn error_display_without_stderr() {
    let e = spawn_failure("not found");
    assert_eq!(e.message, "failed to run git: not found");
    assert_eq!(e.stderr, "");
    assert_eq!(e.to_string(), "git error: failed to run git: not found");
}

#[test]
fn uncommitted_changes() {
    assert!(!has_uncommitted_changes(""));
    assert!(has_uncommitted_changes(" M src/lib.rs"));
}

#[test]
fn staged_names() {
    assert_eq!(diff_cached_names(""), Vec::<String>::new());
    assert_eq!(diff_cached_names("a.rs\nb/c.rs"), args(&["a.rs", "b/c.rs"]));
    assert_eq!(diff_files("x\r\ny"), args(&["x", "y"]));
}

#[test]
fn session_id_from_branch() {
    assert_eq!(current_session_id("cx/s_1234abcd-add-thing"), Some("s_1234abcd".to_string()));
    assert_eq!(current_session_id("cx/s_1-"), Some("s_1".to_string()));
    assert_eq!(current_session_id("main"), None);
    assert_eq!(current_session_id("HEAD"), None);
    assert_eq!(current_session_id("cx/s_nodash"), None);
    assert_eq!(current_session_id("cx/x_1-slug"), None);
    assert_eq!(current_session_id("feature/cx/s_1-a"), None);
}

#[test]
fn git_repo_check() {
    assert!(is_git_repo(&Ok("/repo".to_string())));
    let e: Result<String, GitError> = Err(spawn_failure("x"));
    assert!(!is_git_repo(&e));
}
