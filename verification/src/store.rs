//! The `.cx/` store: where session metadata and snapshots live, how a snapshot listing is
//! read, and what the store's errors say. Reading and writing the files is the caller's part.

use vstd::prelude::*;

use crate::context::SessionMeta;
use crate::git_api::{add_cx_dir, commit};
use crate::order::{is_stable_order, stable_order};
use crate::text::{
    chars_of, concat, decimal, decimal_string, ends_with, has_suffix, push_str, slice_chars,
    views_of,
};

verus! {

/// Declares `std::io::Error`, carried by `StoreError::Io`.
#[verifier::external_type_specification]
#[verifier::external_body]
pub struct ExIoError(std::io::Error);

/// Declares `serde_json::Error`, carried by `StoreError::Json`.
#[verifier::external_type_specification]
#[verifier::external_body]
pub struct ExJsonError(serde_json::Error);

/// Storage layer error.
#[derive(Debug)]
pub enum StoreError {
    Io(std::io::Error),
    Json(serde_json::Error),
    NotAGitRepo,
    AlreadyInitialized,
    NotInitialized,
    SessionNotFound(String),
    SnapshotNotFound(String),
}

impl From<std::io::Error> for StoreError {
    /// An I/O error, as a store error.
    fn from(e: std::io::Error) -> (r: StoreError) {
        StoreError::Io(e)
    }
}

impl vstd::std_specs::convert::FromSpecImpl<std::io::Error> for StoreError {
    open spec fn obeys_from_spec() -> bool {
        true
    }

    open spec fn from_spec(v: std::io::Error) -> StoreError {
        StoreError::Io(v)
    }
}

impl From<serde_json::Error> for StoreError {
    /// A JSON error, as a store error.
    fn from(e: serde_json::Error) -> (r: StoreError) {
        StoreError::Json(e)
    }
}

impl vstd::std_specs::convert::FromSpecImpl<serde_json::Error> for StoreError {
    open spec fn obeys_from_spec() -> bool {
        true
    }

    open spec fn from_spec(v: serde_json::Error) -> StoreError {
        StoreError::Json(v)
    }
}

/// Calls `Display` on an I/O error. Nothing is stated of the text: it may come from the
/// operating system.
#[verifier::external_body]
fn io_error_text(e: &std::io::Error) -> (s: String) {
    format!("{e}")
}

/// Calls `Display` on a `serde_json` error. Nothing is stated of the text.
#[verifier::external_body]
fn json_error_text(e: &serde_json::Error) -> (s: String) {
    format!("{e}")
}

impl StoreError {
    /// The displayed text of the errors that carry no outside error.
    pub open spec fn shown(self) -> Option<Seq<char>> {
        match self {
            StoreError::Io(_) => None,
            StoreError::Json(_) => None,
            StoreError::NotAGitRepo => Some("not a git repository"@),
            StoreError::AlreadyInitialized => Some(".cx/ already initialized"@),
            StoreError::NotInitialized => Some(".cx/ not initialized (run `cx init` first)"@),
            StoreError::SessionNotFound(s) => Some("session not found: "@ + s@),
            StoreError::SnapshotNotFound(s) => Some("snapshot not found: "@ + s@),
        }
    }

    /// The error as it is displayed. An I/O error reads `I/O error: <error>`, a JSON error
    /// `JSON error: <error>`; the text of the carried error itself is not stated.
    pub fn to_string(&self) -> (s: String)
        ensures
            match self.shown() {
                Some(t) => s@ == t,
                None => match self {
                    StoreError::Io(_) => s@.len() >= 11 && s@.take(11) == "I/O error: "@,
                    _ => s@.len() >= 12 && s@.take(12) == "JSON error: "@,
                },
            },
    {
        match self {
            StoreError::Io(e) => {
                let t = io_error_text(e);
                let r = concat("I/O error: ", t.as_str());
                proof {
                    reveal_strlit("I/O error: ");
                    assert(r@.take(11) =~= "I/O error: "@);
                }
                r
            },
            StoreError::Json(e) => {
                let t = json_error_text(e);
                let r = concat("JSON error: ", t.as_str());
                proof {
                    reveal_strlit("JSON error: ");
                    assert(r@.take(12) =~= "JSON error: "@);
                }
                r
            },
            StoreError::NotAGitRepo => String::from_str("not a git repository"),
            StoreError::AlreadyInitialized => String::from_str(".cx/ already initialized"),
            StoreError::NotInitialized => String::from_str(
                ".cx/ not initialized (run `cx init` first)",
            ),
            StoreError::SessionNotFound(s) => concat("session not found: ", s.as_str()),
            StoreError::SnapshotNotFound(s) => concat("snapshot not found: ", s.as_str()),
        }
    }
}

/// `comp` adjoined to the path `base`, as `Path::join` does it on Unix: an absolute `comp`
/// replaces `base`; otherwise a `/` is put between them unless `base` is empty or already
/// ends with one.
pub open spec fn path_join(base: Seq<char>, comp: Seq<char>) -> Seq<char> {
    if comp.len() > 0 && comp[0] == '/' {
        comp
    } else if base.len() == 0 || base.last() == '/' {
        base + comp
    } else {
        base + "/"@ + comp
    }
}

/// Adjoins `comp` to the path `base`.
pub fn join_path(base: &str, comp: &str) -> (p: String)
    ensures
        p@ == path_join(base@, comp@),
{
    let b = chars_of(base);
    let c = chars_of(comp);
    if c.len() > 0 && c[0] == '/' {
        return String::from_str(comp);
    }
    if b.len() == 0 || b[b.len() - 1] == '/' {
        concat(base, comp)
    } else {
        let mut p = String::from_str(base);
        push_str(&mut p, "/");
        push_str(&mut p, comp);
        p
    }
}

/// The file name of the snapshot of a turn: `<turn>.json`.
pub open spec fn snapshot_file(turn: nat) -> Seq<char> {
    decimal(turn) + ".json"@
}

/// The snapshot count of a session after the snapshot of `turn` is saved: the larger of
/// the two.
pub open spec fn saved_count(count: u32, turn: u32) -> u32 {
    if count >= turn {
        count
    } else {
        turn
    }
}

/// .cx/ storage manager.
pub struct Store {
    pub root: String,
    pub cx_dir: String,
}

/// The snapshot names in a listing of a snapshots directory: the names ending in
/// `.json`, without it.
pub open spec fn json_stems(names: Seq<Seq<char>>) -> Seq<Seq<char>>
    decreases names.len(),
{
    if names.len() == 0 {
        Seq::empty()
    } else if has_suffix(names.last(), ".json"@) {
        json_stems(names.drop_last()).push(names.last().take(names.last().len() - 5))
    } else {
        json_stems(names.drop_last())
    }
}

impl Store {
    /// The `.cx` directory of a repository root.
    pub fn cx_dir_of(root: &str) -> (p: String)
        ensures
            p@ == path_join(root@, ".cx"@),
    {
        join_path(root, ".cx")
    }

    /// Initialize .cx/ at the git repository root: refused when the `.cx` directory is
    /// already there. The directories, the `sessions/.gitkeep` file and the commit of
    /// `.cx/` are the caller's to make.
    pub fn init(root: String, cx_dir_exists: bool) -> (r: Result<Store, StoreError>)
        ensures
            match r {
                Ok(s) => !cx_dir_exists && s.root == root && s.cx_dir@ == path_join(root@, ".cx"@),
                Err(e) => cx_dir_exists && e is AlreadyInitialized,
            },
    {
        if cx_dir_exists {
            return Err(StoreError::AlreadyInitialized);
        }
        let cx_dir = Store::cx_dir_of(root.as_str());
        Ok(Store { root, cx_dir })
    }

    /// The git commands that `cx init` runs once the directories are made: stage `.cx/`
    /// and commit it, so that it persists across checkouts. Their failures are ignored.
    pub fn init_steps() -> (steps: Vec<Vec<String>>)
        ensures
            steps@.map_values(|a: Vec<String>| views_of(a@)) == seq![
                seq!["add"@, ".cx/"@],
                seq!["commit"@, "-m"@, "cx: init"@],
            ],
    {
        let add = add_cx_dir();
        let commit = commit("cx: init");
        let mut steps: Vec<Vec<String>> = Vec::new();
        steps.push(add);
        steps.push(commit);
        assert(steps@.map_values(|a: Vec<String>| views_of(a@)) =~= seq![
            seq!["add"@, ".cx/"@],
            seq!["commit"@, "-m"@, "cx: init"@],
        ]);
        steps
    }

    /// The placeholder file that keeps `sessions/` in git.
    pub fn gitkeep_path(&self) -> (p: String)
        ensures
            p@ == path_join(self.cx_dir@, "sessions/.gitkeep"@),
    {
        join_path(self.cx_dir.as_str(), "sessions/.gitkeep")
    }

    /// Open an existing .cx/ directory: refused when it is not there.
    pub fn open(root: String, cx_dir_exists: bool) -> (r: Result<Store, StoreError>)
        ensures
            match r {
                Ok(s) => cx_dir_exists && s.root == root && s.cx_dir@ == path_join(root@, ".cx"@),
                Err(e) => !cx_dir_exists && e is NotInitialized,
            },
    {
        if !cx_dir_exists {
            return Err(StoreError::NotInitialized);
        }
        let cx_dir = Store::cx_dir_of(root.as_str());
        Ok(Store { root, cx_dir })
    }

    /// Get the git repository root.
    pub fn git_root(&self) -> (r: &str)
        ensures
            r@ == self.root@,
    {
        self.root.as_str()
    }

    /// Return the .cx/sessions/ directory path.
    pub fn cx_sessions_dir(&self) -> (p: String)
        ensures
            p@ == path_join(self.cx_dir@, "sessions"@),
    {
        join_path(self.cx_dir.as_str(), "sessions")
    }

    /// The directory of one session.
    pub open spec fn session_dir_of(self, sid: Seq<char>) -> Seq<char> {
        path_join(path_join(self.cx_dir@, "sessions"@), sid)
    }

    /// The directory of one session.
    pub fn session_dir(&self, sid: &str) -> (p: String)
        ensures
            p@ == self.session_dir_of(sid@),
    {
        let s = self.cx_sessions_dir();
        join_path(s.as_str(), sid)
    }

    /// The metadata file of one session.
    pub fn session_meta_path(&self, sid: &str) -> (p: String)
        ensures
            p@ == path_join(self.session_dir_of(sid@), "meta.json"@),
    {
        let d = self.session_dir(sid);
        join_path(d.as_str(), "meta.json")
    }

    /// The snapshots directory of one session.
    pub fn snapshots_dir(&self, sid: &str) -> (p: String)
        ensures
            p@ == path_join(self.session_dir_of(sid@), "snapshots"@),
    {
        let d = self.session_dir(sid);
        join_path(d.as_str(), "snapshots")
    }

    /// The file of one snapshot: `<turn_index>.json` in the session's snapshots directory.
    pub fn snapshot_path(&self, sid: &str, turn_index: u32) -> (p: String)
        ensures
            p@ == path_join(
                path_join(self.session_dir_of(sid@), "snapshots"@),
                snapshot_file(turn_index as nat),
            ),
    {
        let d = self.snapshots_dir(sid);
        let mut name = decimal_string(turn_index as u64);
        push_str(&mut name, ".json");
        join_path(d.as_str(), name.as_str())
    }

    /// Reading a session's metadata is refused when its file is not there.
    pub fn check_session_exists(sid: &str, meta_exists: bool) -> (r: Result<(), StoreError>)
        ensures
            match r {
                Ok(()) => meta_exists,
                Err(e) => !meta_exists && (e matches StoreError::SessionNotFound(s) && s@ == sid@),
            },
    {
        if !meta_exists {
            return Err(StoreError::SessionNotFound(String::from_str(sid)));
        }
        Ok(())
    }

    /// Loading a snapshot is refused when its file is not there.
    pub fn check_snapshot_exists(turn_index: u32, exists: bool) -> (r: Result<(), StoreError>)
        ensures
            match r {
                Ok(()) => exists,
                Err(e) => !exists && (e matches StoreError::SnapshotNotFound(s) && s@ == decimal(
                    turn_index as nat,
                )),
            },
    {
        if !exists {
            return Err(StoreError::SnapshotNotFound(decimal_string(turn_index as u64)));
        }
        Ok(())
    }

    /// The metadata after saving the snapshot of `turn_index`: the snapshot count becomes
    /// the larger of the two, nothing else changes.
    pub fn count_saved_snapshot(meta: SessionMeta, turn_index: u32) -> (m: SessionMeta)
        ensures
            m.snapshot_count == saved_count(meta.snapshot_count, turn_index),
            m.id == meta.id,
            m.branch == meta.branch,
            m.prompt == meta.prompt,
            m.conversation_summary == meta.conversation_summary,
            m.author == meta.author,
            m.status == meta.status,
            m.created_at == meta.created_at,
            m.base_branch == meta.base_branch,
            m.base_commit == meta.base_commit,
    {
        let mut m = meta;
        if turn_index > m.snapshot_count {
            m.snapshot_count = turn_index;
        }
        m
    }

    /// The snapshot names from the entries of a snapshots directory: the names that end in
    /// `.json`, without it, in `String` order.
    pub fn list_snapshots(entries: &Vec<String>) -> (names: Vec<String>)
        ensures
            exists|order: Seq<usize>|
                is_stable_order(json_stems(views_of(entries@)), order) && views_of(names@)
                    == order.map_values(|k: usize| json_stems(views_of(entries@))[k as int]),
    {
        let mut stems: Vec<String> = Vec::new();
        let mut i: usize = 0;
        while i < entries.len()
            invariant
                i <= entries.len(),
                views_of(stems@) == json_stems(views_of(entries@).take(i as int)),
            decreases entries.len() - i,
        {
            proof {
                assert(views_of(entries@).take(i + 1).drop_last() =~= views_of(entries@).take(
                    i as int,
                ));
                assert(views_of(entries@).take(i + 1).last() == entries@[i as int]@);
            }
            if ends_with(entries[i].as_str(), ".json") {
                let v = chars_of(entries[i].as_str());
                proof {
                    reveal_strlit(".json");
                }
                let stem = slice_chars(&v, 0, v.len() - 5);
                let ghost before = views_of(stems@);
                stems.push(stem);
                assert(views_of(stems@) =~= before.push(stem@));
                assert(stem@ =~= entries@[i as int]@.take(entries@[i as int]@.len() - 5));
            }
            i = i + 1;
        }
        assert(views_of(entries@).take(entries.len() as int) =~= views_of(entries@));
        let order = stable_order(&stems);
        let mut names: Vec<String> = Vec::new();
        let mut j: usize = 0;
        while j < order.len()
            invariant
                is_stable_order(views_of(stems@), order@),
                j <= order.len(),
                views_of(names@) == order@.take(j as int).map_values(
                    |k: usize| views_of(stems@)[k as int],
                ),
            decreases order.len() - j,
        {
            let k = order[j];
            let s = stems[k].clone();
            let ghost before = views_of(names@);
            names.push(s);
            assert(views_of(names@) =~= before.push(s@));
            assert(order@.take(j + 1).map_values(|k: usize| views_of(stems@)[k as int])
                =~= order@.take(j as int).map_values(|k: usize| views_of(stems@)[k as int]).push(
                views_of(stems@)[k as int],
            ));
            j = j + 1;
        }
        assert(order@.take(order.len() as int) =~= order@);
        names
    }

    /// The number of snapshots that a snapshots directory holds, as a `u32`.
    pub fn count_snapshots(entries: &Vec<String>) -> (n: u32)
        ensures
            n == json_stems(views_of(entries@)).len() as u32,
    {
        let names = Store::list_snapshots(entries);
        proof {
            let order = choose|order: Seq<usize>|
                is_stable_order(json_stems(views_of(entries@)), order) && views_of(names@)
                    == order.map_values(|k: usize| json_stems(views_of(entries@))[k as int]);
            assert(views_of(names@).len() == names@.len());
            assert(names@.len() == json_stems(views_of(entries@)).len());
        }
        names.len() as u32
    }
}

} // verus!
