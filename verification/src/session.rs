//! Session workflow: what `cx start`, `apply`, `status`, `end`, `log` and `review` decide
//! and compute. The git commands and file reads they depend on are run by the caller,
//! which hands their results in.

use vstd::prelude::*;

use crate::context::{
    IntentSpec, SemanticUnit, SessionMeta, SessionStatus, Snapshot, SnapshotKind,
};
use crate::git_api::{
    add_all, add_cx_dir, args_view, checkout, checkout_new_branch, commit, commit_skipping_hooks,
    current_session_id, delete_branch, merge, rev_parse_head, session_id_in, stash, stash_pop,
    GitError,
};
use crate::laws::law_sorted_listing_keeps_every_item;
use crate::order::{is_stable_order, stable_order, text_lt};
use crate::snapshot::{
    branch_name_of, build_semantic_unit, compute_session_id, create_snapshot, session_branch_name,
    session_id_of,
};
use crate::store::{path_join, Store, StoreError};
use crate::text::{all_ascii, concat, decimal, parse_u32, parsed_u32, decimal_string, first_chars, has_prefix, push_str, starts_with, take_chars, views_of};

verus! {

/// Session manager error.
#[derive(Debug)]
pub enum SessionError {
    Store(StoreError),
    Git(GitError),
    NoActiveSession,
    SessionNotActive,
    AlreadyInSession,
    NoChanges,
    User(String),
}

impl SessionError {
    /// The error as it is displayed; a store or git error displays as itself.
    pub fn to_string(&self) -> (s: String)
        ensures
            match self {
                SessionError::Store(e) => match e.shown() {
                    Some(t) => s@ == t,
                    None => match e {
                        StoreError::Io(_) => s@.len() >= 11 && s@.take(11) == "I/O error: "@,
                        _ => s@.len() >= 12 && s@.take(12) == "JSON error: "@,
                    },
                },
                SessionError::Git(e) => s@ == e.shown(),
                SessionError::NoActiveSession => s@ == "no active session"@,
                SessionError::SessionNotActive => s@ == "current session is not active"@,
                SessionError::AlreadyInSession => s@ == "already in an active session"@,
                SessionError::NoChanges => s@ == "no changes to record"@,
                SessionError::User(m) => s@ == m@,
            },
    {
        match self {
            SessionError::Store(e) => e.to_string(),
            SessionError::Git(e) => e.to_string(),
            SessionError::NoActiveSession => String::from_str("no active session"),
            SessionError::SessionNotActive => String::from_str("current session is not active"),
            SessionError::AlreadyInSession => String::from_str("already in an active session"),
            SessionError::NoChanges => String::from_str("no changes to record"),
            SessionError::User(m) => m.clone(),
        }
    }
}

impl From<StoreError> for SessionError {
    /// A store error, as a session error.
    fn from(e: StoreError) -> (r: SessionError) {
        SessionError::Store(e)
    }
}

impl vstd::std_specs::convert::FromSpecImpl<StoreError> for SessionError {
    open spec fn obeys_from_spec() -> bool {
        true
    }

    open spec fn from_spec(v: StoreError) -> SessionError {
        SessionError::Store(v)
    }
}

impl From<GitError> for SessionError {
    /// A git error, as a session error.
    fn from(e: GitError) -> (r: SessionError) {
        SessionError::Git(e)
    }
}

impl vstd::std_specs::convert::FromSpecImpl<GitError> for SessionError {
    open spec fn obeys_from_spec() -> bool {
        true
    }

    open spec fn from_spec(v: GitError) -> SessionError {
        SessionError::Git(v)
    }
}

/// Session manager.
pub struct SessionManager {
    pub store: Store,
}

/// Status output structure.
#[derive(Debug)]
pub struct SessionStatusInfo {
    pub id: String,
    pub branch: String,
    pub status: String,
    pub prompt: String,
    pub snapshot_count: u32,
    pub semantic_units: Vec<SemanticUnit>,
}

/// Log entry.
#[derive(Debug)]
pub struct LogEntry {
    pub snapshot_id: String,
    pub timestamp: String,
    pub description: String,
    pub intent: String,
    pub risk: String,
}

/// Review data.
#[derive(Debug)]
pub struct ReviewData {
    pub base_branch: String,
    pub base_commit: String,
    pub session_id: String,
    pub groups: Vec<ReviewGroup>,
}

/// Review group: the files of one semantic unit, with added and removed line counts.
#[derive(Debug)]
pub struct ReviewGroup {
    pub intent: String,
    pub scope: String,
    pub files: Vec<(String, u32, u32)>,
}

/// Calls `chrono::Local::now().to_rfc3339()`: the time on the local clock when the call is
/// made, which is not stated. What the contract states is the form that chrono's
/// `write_rfc3339` always writes: ASCII text `YYYY-MM-DDTHH:MM:SS[.fraction]+HH:MM` (a year
/// outside 0..=9999 with a sign and more digits), so at least 25 characters.
#[verifier::external_body]
fn now_rfc3339() -> (t: String)
    ensures
        all_ascii(t@),
        t@.len() >= 25,
{
    chrono::Local::now().to_rfc3339()
}

/// Whether a step of the plan runs git with the given arguments and stops on failure.
pub open spec fn runs_git(step: Step, args: Seq<Seq<char>>) -> bool {
    step matches Step::Git(a) && args_view(a@) == args
}

/// One step that the caller carries out, in order.
pub enum Step {
    /// Run git with these arguments; a failure ends the operation with that error.
    Git(Vec<String>),
    /// Run git with these arguments; a failure is ignored.
    GitIgnoringFailure(Vec<String>),
    /// Read the session's metadata again, set its status, and write it back.
    SetStatus(SessionStatus),
    /// Print this line.
    Say(String),
    /// Write this metadata as the session's metadata.
    WriteMeta(SessionMeta),
    /// Save this snapshot as the file of this turn, and raise the session's snapshot count
    /// to the turn (`Store::count_saved_snapshot`).
    SaveSnapshot(u32, Snapshot),
    /// Run git with these arguments; a failure ends the operation with that error, and the
    /// output is what the operation reports.
    GitOutput(Vec<String>),
}

impl SessionManager {
    /// Open existing storage, return a SessionManager.
    pub fn open(root: String, cx_dir_exists: bool) -> (r: Result<SessionManager, SessionError>)
        ensures
            match r {
                Ok(m) => cx_dir_exists && m.store.root == root && m.store.cx_dir@ == path_join(
                    root@,
                    ".cx"@,
                ),
                Err(e) => !cx_dir_exists && (e matches SessionError::Store(s) && s is NotInitialized),
            },
    {
        match Store::open(root, cx_dir_exists) {
            Ok(store) => Ok(SessionManager { store }),
            Err(e) => Err(SessionError::Store(e)),
        }
    }

    /// The store.
    pub fn get_store(&self) -> (s: &Store)
        ensures
            *s == self.store,
    {
        &self.store
    }

    /// Initialize the cx repository: from the answer to "where is the top-level directory"
    /// and whether `.cx` is already there. Outside a git repository the store error
    /// `NotAGitRepo`; with `.cx` already there, `AlreadyInitialized`.
    pub fn init(toplevel: Result<String, GitError>, cx_dir_exists: bool) -> (r: Result<Store, SessionError>)
        ensures
            match r {
                Ok(s) => toplevel matches Ok(root) && s.root == root && !cx_dir_exists
                    && s.cx_dir@ == path_join(root@, ".cx"@),
                Err(e) => match toplevel {
                    Err(_) => e matches SessionError::Store(s) && s is NotAGitRepo,
                    Ok(_) => cx_dir_exists && (e matches SessionError::Store(s) && s is AlreadyInitialized),
                },
            },
    {
        match toplevel {
            Err(_) => Err(SessionError::Store(StoreError::NotAGitRepo)),
            Ok(root) => match Store::init(root, cx_dir_exists) {
                Ok(store) => Ok(store),
                Err(e) => Err(SessionError::Store(e)),
            },
        }
    }

    /// What `cx init` reports.
    pub fn init_report() -> (s: String)
        ensures
            s@ == "✓ Initialized .cx/ metadata store"@,
    {
        String::from_str("✓ Initialized .cx/ metadata store")
    }

    /// The active session, from the answer to "which branch is checked out": its id, or
    /// `NoActiveSession` when the branch names none; a git failure is passed on.
    pub fn active_session(branch: Result<String, GitError>) -> (r: Result<String, SessionError>)
        ensures
            match branch {
                Err(g) => r matches Err(SessionError::Git(e)) && e == g,
                Ok(b) => match session_id_in(b@) {
                    Some(sid) => r matches Ok(s) && s@ == sid,
                    None => r matches Err(SessionError::NoActiveSession),
                },
            },
    {
        match branch {
            Err(e) => Err(SessionError::Git(e)),
            Ok(b) => match current_session_id(b.as_str()) {
                Some(sid) => Ok(sid),
                None => Err(SessionError::NoActiveSession),
            },
        }
    }

    // ─── start ───────────────────────────────────────────────

    /// The session whose metadata `cx start` looks at before it starts a new one: the
    /// session of the current branch, when the branch could be read and names one.
    pub fn session_to_check(branch: &Result<String, GitError>) -> (r: Option<String>)
        ensures
            match branch {
                Ok(b) => match session_id_in(b@) {
                    Some(sid) => r matches Some(s) && s@ == sid,
                    None => r is None,
                },
                Err(_) => r is None,
            },
    {
        match branch {
            Ok(b) => current_session_id(b.as_str()),
            Err(_) => None,
        }
    }

    /// `cx start` is refused while the current session's metadata reads as active; a
    /// metadata read that failed does not stop it.
    pub fn check_not_in_session(meta: &Option<Result<SessionMeta, StoreError>>) -> (r: Result<(), SessionError>)
        ensures
            match meta {
                Some(Ok(m)) => if m.status == SessionStatus::Active {
                    r matches Err(SessionError::AlreadyInSession)
                } else {
                    r is Ok
                },
                _ => r is Ok,
            },
    {
        match meta {
            Some(Ok(m)) => {
                if m.status == SessionStatus::Active {
                    Err(SessionError::AlreadyInSession)
                } else {
                    Ok(())
                }
            },
            _ => Ok(()),
        }
    }

    /// The metadata of a new session started at `created_at`: its id and branch come from
    /// the prompt and base commit; it is active, has no summary and no snapshots yet.
    pub fn new_session(prompt: &str, author: &str, base_branch: String, base_commit: String, created_at: String) -> (m: SessionMeta)
        ensures
            m.id@ == session_id_of(prompt@, base_commit@),
            m.branch@ == branch_name_of(m.id@, prompt@),
            m.prompt@ == prompt@,
            m.conversation_summary is None,
            m.author@ == author@,
            m.status == SessionStatus::Active,
            m.created_at == created_at,
            m.base_branch == base_branch,
            m.base_commit == base_commit,
            m.snapshot_count == 0,
    {
        let sid = compute_session_id(prompt, base_commit.as_str());
        let branch = session_branch_name(sid.as_str(), prompt);
        SessionMeta {
            id: sid,
            branch,
            prompt: String::from_str(prompt),
            conversation_summary: None,
            author: String::from_str(author),
            status: SessionStatus::Active,
            created_at,
            base_branch,
            base_commit,
            snapshot_count: 0,
        }
    }

    /// The metadata of a session started now.
    pub fn start_session(prompt: &str, author: &str, base_branch: String, base_commit: String) -> (m: SessionMeta)
        ensures
            m.id@ == session_id_of(prompt@, base_commit@),
            m.branch@ == branch_name_of(m.id@, prompt@),
            m.prompt@ == prompt@,
            m.conversation_summary is None,
            m.author@ == author@,
            m.status == SessionStatus::Active,
            m.base_branch == base_branch,
            m.base_commit == base_commit,
            m.snapshot_count == 0,
            all_ascii(m.created_at@),
            m.created_at@.len() >= 25,
    {
        let now = now_rfc3339();
        SessionManager::new_session(prompt, author, base_branch, base_commit, now)
    }

    /// What `cx start` does once it has decided to start the session `meta`: move the
    /// work onto the session branch (stashing uncommitted changes around the checkout when
    /// there are any), write the session's metadata, and report.
    pub fn start_plan(stashed: bool, meta: SessionMeta) -> (plan: Vec<Step>)
        ensures
            stashed ==> {
                &&& plan@.len() == 6
                &&& runs_git(plan@[0], seq!["stash"@, "--include-untracked"@])
                &&& runs_git(plan@[1], seq!["checkout"@, "-b"@, meta.branch@])
                &&& runs_git(plan@[2], seq!["stash"@, "pop"@])
            },
            !stashed ==> {
                &&& plan@.len() == 4
                &&& runs_git(plan@[0], seq!["checkout"@, "-b"@, meta.branch@])
            },
            plan@[plan@.len() - 3] matches Step::WriteMeta(m) && m == meta,
            plan@[plan@.len() - 2] matches Step::Say(l) && l@ == "✓ Started session "@ + meta.id@
                + " on branch "@ + meta.branch@,
            plan@[plan@.len() - 1] matches Step::Say(l) && l@ == "  Prompt: "@ + meta.prompt@,
    {
        let mut plan: Vec<Step> = Vec::new();
        if stashed {
            plan.push(Step::Git(stash()));
        }
        plan.push(Step::Git(checkout_new_branch(meta.branch.as_str())));
        if stashed {
            plan.push(Step::Git(stash_pop()));
        }
        let mut first = String::from_str("✓ Started session ");
        push_str(&mut first, meta.id.as_str());
        push_str(&mut first, " on branch ");
        push_str(&mut first, meta.branch.as_str());
        let second = concat("  Prompt: ", meta.prompt.as_str());
        plan.push(Step::WriteMeta(meta));
        plan.push(Step::Say(first));
        plan.push(Step::Say(second));
        plan
    }

    // ─── apply ───────────────────────────────────────────────

    /// Changes are recorded only in an active session.
    pub fn check_active(meta: &SessionMeta) -> (r: Result<(), SessionError>)
        ensures
            match r {
                Ok(()) => meta.status == SessionStatus::Active,
                Err(e) => meta.status != SessionStatus::Active && e is SessionNotActive,
            },
    {
        if meta.status != SessionStatus::Active {
            return Err(SessionError::SessionNotActive);
        }
        Ok(())
    }

    /// There must be changes to record.
    pub fn check_changes(has_changes: bool) -> (r: Result<(), SessionError>)
        ensures
            match r {
                Ok(()) => has_changes,
                Err(e) => !has_changes && e is NoChanges,
            },
    {
        if !has_changes {
            return Err(SessionError::NoChanges);
        }
        Ok(())
    }

    /// The turn index of the next snapshot: one more than the snapshots listed.
    pub fn next_turn(listing: &Vec<String>) -> (t: u32)
        requires
            (listing.len() as u32) < u32::MAX,
        ensures
            t == (listing.len() as u32) + 1,
    {
        listing.len() as u32 + 1
    }

    /// The parents of a new snapshot: the base commit for the first one, else the number
    /// of the snapshot before it.
    pub fn snapshot_parents(first: bool, base_commit: &str, turn_index: u32) -> (p: Vec<String>)
        ensures
            views_of(p@) == if first {
                seq![base_commit@]
            } else {
                seq![decimal((if turn_index > 0 { turn_index - 1 } else { 0 }) as nat)]
            },
    {
        let mut p = Vec::new();
        if first {
            p.push(String::from_str(base_commit));
        } else {
            p.push(decimal_string(turn_index.saturating_sub(1) as u64));
        }
        assert(views_of(p@) =~= seq![p@[0]@]);
        p
    }

    /// The message of the commit that records a snapshot: `cx: <message>`.
    pub fn commit_message(message: &str) -> (m: String)
        ensures
            m@ == "cx: "@ + message@,
    {
        concat("cx: ", message)
    }

    /// The snapshot that `cx apply` records at `timestamp`, and its turn index. The turn
    /// is one more than the snapshots listed; the single semantic unit carries the intent,
    /// the message and the staged files outside `.cx/`; the parents are the base commit
    /// for the first snapshot, else the previous turn.
    pub fn record_snapshot(
        meta: &SessionMeta,
        listing: &Vec<String>,
        message: &str,
        spec: &IntentSpec,
        author: &str,
        staged: Vec<String>,
        timestamp: String,
    ) -> (r: (u32, Snapshot))
        requires
            (listing.len() as u32) < u32::MAX,
        ensures
            r.0 == (listing.len() as u32) + 1,
            views_of(r.1.parents@) == if listing.len() == 0 {
                seq![meta.base_commit@]
            } else {
                seq![decimal((r.0 - 1) as nat)]
            },
            r.1.kind == SnapshotKind::AiSession,
            r.1.context.prompt@ == meta.prompt@,
            r.1.context.conversation_summary is None,
            r.1.context.turn_index == r.0,
            r.1.semantic_units@.len() == 1,
            r.1.semantic_units@[0].intent == spec.kind,
            r.1.semantic_units@[0].scope@ == spec.scope@,
            r.1.semantic_units@[0].description@ == message@,
            r.1.semantic_units@[0].risk == spec.risk,
            views_of(r.1.semantic_units@[0].affected_files@) == outside_cx(views_of(staged@)),
            r.1.author@ == author@,
            r.1.timestamp == timestamp,
            r.1.sid@ == crate::snapshot::content_hash(crate::snapshot::snapshot_json_with(Seq::empty(), r.1)),
    {
        let turn_index = SessionManager::next_turn(listing);
        let files = SessionManager::affected_files(staged);
        let unit = build_semantic_unit(spec, String::from_str(message), files);
        let parents = SessionManager::snapshot_parents(listing.len() == 0, meta.base_commit.as_str(), turn_index);
        let mut units = Vec::new();
        units.push(unit);
        let snapshot = create_snapshot(
            parents,
            SnapshotKind::AiSession,
            meta.prompt.clone(),
            turn_index,
            units,
            String::from_str(author),
            timestamp,
        );
        (turn_index, snapshot)
    }

    /// The snapshot that `cx apply` records now, and its turn index; as `record_snapshot`,
    /// with the time taken from the local clock.
    pub fn apply_snapshot(
        meta: &SessionMeta,
        listing: &Vec<String>,
        message: &str,
        spec: &IntentSpec,
        author: &str,
        staged: Vec<String>,
    ) -> (r: (u32, Snapshot))
        requires
            (listing.len() as u32) < u32::MAX,
        ensures
            r.0 == (listing.len() as u32) + 1,
            views_of(r.1.parents@) == if listing.len() == 0 {
                seq![meta.base_commit@]
            } else {
                seq![decimal((r.0 - 1) as nat)]
            },
            r.1.kind == SnapshotKind::AiSession,
            r.1.context.prompt@ == meta.prompt@,
            r.1.context.conversation_summary is None,
            r.1.context.turn_index == r.0,
            r.1.semantic_units@.len() == 1,
            r.1.semantic_units@[0].intent == spec.kind,
            r.1.semantic_units@[0].scope@ == spec.scope@,
            r.1.semantic_units@[0].description@ == message@,
            r.1.semantic_units@[0].risk == spec.risk,
            views_of(r.1.semantic_units@[0].affected_files@) == outside_cx(views_of(staged@)),
            r.1.author@ == author@,
            r.1.sid@ == crate::snapshot::content_hash(crate::snapshot::snapshot_json_with(Seq::empty(), r.1)),
            all_ascii(r.1.timestamp@),
            r.1.timestamp@.len() >= 25,
    {
        let now = now_rfc3339();
        SessionManager::record_snapshot(meta, listing, message, spec, author, staged, now)
    }

    /// The staged files that a snapshot lists: all but those under `.cx/`.
    pub fn affected_files(staged: Vec<String>) -> (files: Vec<String>)
        ensures
            views_of(files@) == outside_cx(views_of(staged@)),
    {
        let mut files: Vec<String> = Vec::new();
        let mut i: usize = 0;
        while i < staged.len()
            invariant
                i <= staged.len(),
                views_of(files@) == outside_cx(views_of(staged@).take(i as int)),
            decreases staged.len() - i,
        {
            proof {
                assert(views_of(staged@).take(i + 1).drop_last() =~= views_of(staged@).take(i as int));
                assert(views_of(staged@).take(i + 1).last() == staged@[i as int]@);
            }
            if !starts_with(staged[i].as_str(), ".cx/") {
                let f = staged[i].clone();
                let ghost before = views_of(files@);
                files.push(f);
                assert(views_of(files@) =~= before.push(f@));
            }
            i = i + 1;
        }
        assert(views_of(staged@).take(staged.len() as int) =~= views_of(staged@));
        files
    }

    /// What `cx apply` reports: the snapshot number, the first 12 characters of the commit
    /// hash, and the intent.
    pub fn apply_report(turn_index: u32, commit_hash: &str, spec: &IntentSpec) -> (lines: Vec<String>)
        ensures
            views_of(lines@) == seq![
                "✓ Applied snapshot #"@ + decimal(turn_index as nat),
                "  Commit: "@ + first_chars(commit_hash@, 12),
                "  Intent: "@ + spec.shown(),
            ],
    {
        let a = concat("✓ Applied snapshot #", decimal_string(turn_index as u64).as_str());
        let b = concat("  Commit: ", take_chars(commit_hash, 12).as_str());
        let c = concat("  Intent: ", spec.to_string().as_str());
        let mut lines = Vec::new();
        lines.push(a);
        lines.push(b);
        lines.push(c);
        assert(views_of(lines@) =~= seq![a@, b@, c@]);
        lines
    }

    /// What `cx apply` does once the snapshot of `turn` is built: save it, stage `.cx/`
    /// (the code changes it records are the ones already staged), commit both together
    /// with the message `cx: <message>` (without the commit hooks when `skip_hooks`), and
    /// read the new commit's hash, which the report shows.
    pub fn apply_plan(turn: u32, snapshot: Snapshot, message: &str, skip_hooks: bool) -> (plan: Vec<Step>)
        ensures
            plan@.len() == 4,
            plan@[0] matches Step::SaveSnapshot(t, s) && t == turn && s == snapshot,
            runs_git(plan@[1], seq!["add"@, ".cx/"@]),
            runs_git(
                plan@[2],
                if skip_hooks {
                    seq!["commit"@, "--no-verify"@, "-m"@, "cx: "@ + message@]
                } else {
                    seq!["commit"@, "-m"@, "cx: "@ + message@]
                },
            ),
            plan@[3] matches Step::GitOutput(a) && args_view(a@) == seq!["rev-parse"@, "HEAD"@],
    {
        let m = SessionManager::commit_message(message);
        let c = if skip_hooks {
            commit_skipping_hooks(m.as_str())
        } else {
            commit(m.as_str())
        };
        let mut plan: Vec<Step> = Vec::new();
        plan.push(Step::SaveSnapshot(turn, snapshot));
        plan.push(Step::Git(add_cx_dir()));
        plan.push(Step::Git(c));
        plan.push(Step::GitOutput(rev_parse_head()));
        plan
    }
}

/// The names not under `.cx/`, in order.
pub open spec fn outside_cx(names: Seq<Seq<char>>) -> Seq<Seq<char>>
    decreases names.len(),
{
    if names.len() == 0 {
        Seq::empty()
    } else if has_prefix(names.last(), ".cx/"@) {
        outside_cx(names.drop_last())
    } else {
        outside_cx(names.drop_last()).push(names.last())
    }
}


/// The snapshots that loaded, in order.
pub open spec fn loaded_snapshots(loaded: Seq<Result<Snapshot, StoreError>>) -> Seq<Snapshot>
    decreases loaded.len(),
{
    if loaded.len() == 0 {
        Seq::empty()
    } else {
        match loaded.last() {
            Ok(s) => loaded_snapshots(loaded.drop_last()).push(s),
            Err(_) => loaded_snapshots(loaded.drop_last()),
        }
    }
}

/// The semantic units of the snapshots, one snapshot after another.
pub open spec fn all_units(snaps: Seq<Snapshot>) -> Seq<SemanticUnit>
    decreases snaps.len(),
{
    if snaps.len() == 0 {
        Seq::empty()
    } else {
        all_units(snaps.drop_last()) + snaps.last().semantic_units@
    }
}

/// The turn that a listed snapshot name stands for: its number, or 0 when it is not one.
pub open spec fn turn_of(name: Seq<char>) -> u32 {
    match parsed_u32(name) {
        Some(n) => n,
        None => 0,
    }
}

/// The items of `v` in reverse order.
#[verifier::spinoff_prover]
fn reversed<T>(v: Vec<T>) -> (r: Vec<T>)
    ensures
        r@ == v@.reverse(),
{
    let ghost all = v@;
    let mut rest = v;
    let mut out: Vec<T> = Vec::new();
    while rest.len() > 0
        invariant
            rest@ + out@.reverse() == all,
        decreases rest.len(),
    {
        let ghost r0 = rest@;
        let ghost q0 = out@;
        let x = rest.pop().unwrap();
        out.push(x);
        assert(rest@ + out@.reverse() =~= r0.drop_last() + q0.push(x).reverse());
        assert(q0.push(x).reverse() =~= seq![x] + q0.reverse());
        assert(r0.drop_last() + (seq![x] + q0.reverse()) =~= r0 + q0.reverse());
    }
    assert(out@.reverse().reverse() =~= out@);
    assert(rest@ =~= Seq::<T>::empty());
    assert(out@.reverse() =~= all);
    assert(all.reverse() =~= out@);
    out
}

impl SessionManager {
    // ─── status ──────────────────────────────────────────────

    /// The turns of the listed snapshots, in listing order; a name that is not a number
    /// stands for turn 0.
    pub fn snapshot_turns(listing: &Vec<String>) -> (turns: Vec<u32>)
        ensures
            turns@ == views_of(listing@).map_values(|n: Seq<char>| turn_of(n)),
    {
        let mut turns: Vec<u32> = Vec::new();
        let mut i: usize = 0;
        while i < listing.len()
            invariant
                i <= listing.len(),
                turns@ == views_of(listing@).take(i as int).map_values(|n: Seq<char>| turn_of(n)),
            decreases listing.len() - i,
        {
            let t = match parse_u32(listing[i].as_str()) {
                Some(n) => n,
                None => 0,
            };
            let ghost before = turns@;
            turns.push(t);
            assert(views_of(listing@).take(i + 1).map_values(|n: Seq<char>| turn_of(n)) =~= before.push(t));
            i = i + 1;
        }
        assert(views_of(listing@).take(listing.len() as int) =~= views_of(listing@));
        turns
    }

    /// Show current session status: the session's metadata and the semantic units of the
    /// snapshots that loaded, in order; snapshots that failed to load are left out.
    pub fn status(meta: SessionMeta, loaded: Vec<Result<Snapshot, StoreError>>) -> (info: SessionStatusInfo)
        ensures
            info.id == meta.id,
            info.branch == meta.branch,
            info.status@ == meta.status.word(),
            info.prompt == meta.prompt,
            info.snapshot_count == meta.snapshot_count,
            info.semantic_units@ == all_units(loaded_snapshots(loaded@)),
    {
        let mut units: Vec<SemanticUnit> = Vec::new();
        let ghost all = loaded@;
        let n = loaded.len();
        let mut i: usize = 0;
        // reversed, so that popping yields the snapshots in listing order
        let mut queue = reversed(loaded);
        assert(queue@.reverse() =~= all);
        while queue.len() > 0
            invariant
                i + queue.len() == n,
                n == all.len(),
                queue@.reverse() == all.skip(i as int),
                units@ == all_units(loaded_snapshots(all.take(i as int))),
            decreases queue.len(),
        {
            let ghost q0 = queue@;
            let x = queue.pop().unwrap();
            proof {
                assert(queue@ =~= q0.drop_last());
                assert(q0.reverse()[0] == q0.last());
                assert(x == all[i as int]);
                assert forall|k: int| 0 <= k < queue@.len() implies #[trigger] queue@.reverse()[k] == all.skip(i + 1)[k] by {
                    assert(queue@.reverse()[k] == q0.reverse()[k + 1]);
                }
                assert(queue@.reverse() =~= all.skip(i + 1));
                assert(all.take(i + 1).drop_last() =~= all.take(i as int));
                assert(all.take(i + 1).last() == x);
            }
            let ghost prev = loaded_snapshots(all.take(i as int));
            match x {
                Ok(snap) => {
                    let ghost su0 = snap.semantic_units@;
                    let mut su = snap.semantic_units;
                    let ghost before = units@;
                    units.append(&mut su);
                    assert(units@ == before + su0);
                    assert(loaded_snapshots(all.take(i + 1)) == prev.push(snap));
                    assert(prev.push(snap).drop_last() =~= prev);
                },
                Err(_) => {
                    assert(loaded_snapshots(all.take(i + 1)) == prev);
                },
            }
            i = i + 1;
        }
        assert(all.take(i as int) =~= all);
        SessionStatusInfo {
            id: meta.id,
            branch: meta.branch,
            status: meta.status.to_string(),
            prompt: meta.prompt,
            snapshot_count: meta.snapshot_count,
            semantic_units: units,
        }
    }

    // ─── end ─────────────────────────────────────────────────

    /// `cx end` takes exactly one of `--merge` and `--abandon`; the result says whether to
    /// merge.
    pub fn end_mode(merge: bool, abandon: bool) -> (r: Result<bool, SessionError>)
        ensures
            match r {
                Ok(m) => merge != abandon && m == merge,
                Err(e) => merge == abandon && (e matches SessionError::User(s) && s@ == "specify --merge or --abandon"@),
            },
    {
        if merge == abandon {
            return Err(SessionError::User(String::from_str("specify --merge or --abandon")));
        }
        Ok(merge)
    }

    /// The metadata with its status set, nothing else changed.
    pub fn with_status(meta: SessionMeta, status: SessionStatus) -> (m: SessionMeta)
        ensures
            m.status == status,
            m.id == meta.id,
            m.branch == meta.branch,
            m.prompt == meta.prompt,
            m.conversation_summary == meta.conversation_summary,
            m.author == meta.author,
            m.created_at == meta.created_at,
            m.base_branch == meta.base_branch,
            m.base_commit == meta.base_commit,
            m.snapshot_count == meta.snapshot_count,
    {
        let mut m = meta;
        m.status = status;
        m
    }

    /// What `cx end` does for the active session `sid` with metadata `meta`.
    /// Merging: switch to the base branch, merge the session branch, delete it, mark the
    /// session merged. Abandoning: mark the session abandoned, commit that on the session
    /// branch (a failed commit is ignored), switch to the base branch, delete the session
    /// branch.
    pub fn end_plan(sid: &str, meta: &SessionMeta, merge: bool) -> (plan: Vec<Step>)
        ensures
            merge ==> {
                &&& plan@.len() == 6
                &&& runs_git(plan@[0], seq!["checkout"@, meta.base_branch@])
                &&& plan@[1] matches Step::Say(l) && l@ == "  Merging "@ + meta.branch@ + " into "@ + meta.base_branch@ + "..."@
                &&& runs_git(plan@[2], seq!["merge"@, meta.branch@])
                &&& runs_git(plan@[3], seq!["branch"@, "-D"@, meta.branch@])
                &&& plan@[4] == Step::SetStatus(SessionStatus::Merged)
                &&& plan@[5] matches Step::Say(l) && l@ == "✓ Session "@ + sid@ + " merged into "@ + meta.base_branch@
            },
            !merge ==> {
                &&& plan@.len() == 6
                &&& plan@[0] == Step::SetStatus(SessionStatus::Abandoned)
                &&& runs_git(plan@[1], seq!["add"@, "-A"@])
                &&& plan@[2] matches Step::GitIgnoringFailure(a) && args_view(a@) == seq!["commit"@, "-m"@, "cx: end session (abandon)"@]
                &&& runs_git(plan@[3], seq!["checkout"@, meta.base_branch@])
                &&& runs_git(plan@[4], seq!["branch"@, "-D"@, meta.branch@])
                &&& plan@[5] matches Step::Say(l) && l@ == "✓ Session "@ + sid@ + " abandoned"@
            },
    {
        let mut plan: Vec<Step> = Vec::new();
        if merge {
            plan.push(Step::Git(checkout(meta.base_branch.as_str())));
            let mut l = String::from_str("  Merging ");
            push_str(&mut l, meta.branch.as_str());
            push_str(&mut l, " into ");
            push_str(&mut l, meta.base_branch.as_str());
            push_str(&mut l, "...");
            plan.push(Step::Say(l));
            plan.push(Step::Git(crate::git_api::merge(meta.branch.as_str())));
            plan.push(Step::Git(delete_branch(meta.branch.as_str())));
            plan.push(Step::SetStatus(SessionStatus::Merged));
            let mut done = String::from_str("✓ Session ");
            push_str(&mut done, sid);
            push_str(&mut done, " merged into ");
            push_str(&mut done, meta.base_branch.as_str());
            plan.push(Step::Say(done));
        } else {
            plan.push(Step::SetStatus(SessionStatus::Abandoned));
            plan.push(Step::Git(add_all()));
            plan.push(Step::GitIgnoringFailure(commit("cx: end session (abandon)")));
            plan.push(Step::Git(checkout(meta.base_branch.as_str())));
            plan.push(Step::Git(delete_branch(meta.branch.as_str())));
            let mut done = String::from_str("✓ Session ");
            push_str(&mut done, sid);
            push_str(&mut done, " abandoned");
            plan.push(Step::Say(done));
        }
        plan
    }
}


/// A log entry's fields: snapshot id, timestamp, description, intent, risk.
pub type LogEntryView = (Seq<char>, Seq<char>, Seq<char>, Seq<char>, Seq<char>);

impl View for LogEntry {
    type V = LogEntryView;

    open spec fn view(&self) -> LogEntryView {
        (self.snapshot_id@, self.timestamp@, self.description@, self.intent@, self.risk@)
    }
}

/// The log entry of a snapshot: the first 12 characters of its id, its timestamp, and the
/// description, intent and risk of its first semantic unit (empty when it has none).
pub open spec fn log_entry_of(s: Snapshot) -> LogEntryView {
    if s.semantic_units@.len() > 0 {
        let u = s.semantic_units@[0];
        (first_chars(s.sid@, 12), s.timestamp@, u.description@, u.intent.word(), u.risk.word())
    } else {
        (first_chars(s.sid@, 12), s.timestamp@, Seq::empty(), Seq::empty(), Seq::empty())
    }
}

/// The log entries of the snapshots that loaded, in listing order.
pub open spec fn log_entries_of(loaded: Seq<Result<Snapshot, StoreError>>) -> Seq<LogEntryView> {
    loaded_snapshots(loaded).map_values(|s: Snapshot| log_entry_of(s))
}

/// The timestamps of log entries.
pub open spec fn entry_times(entries: Seq<LogEntryView>) -> Seq<Seq<char>> {
    entries.map_values(|e: LogEntryView| e.1)
}

/// The line that lists a session in `cx log`: id, status, the first 50 characters of the
/// prompt, and the snapshot count.
pub open spec fn summary_line(m: SessionMeta) -> Seq<char> {
    m.id@ + "  "@ + m.status.word() + "  "@ + first_chars(m.prompt@, 50) + "  "@ + decimal(
        m.snapshot_count as nat,
    ) + " snapshots"@
}

/// The creation times of sessions.
pub open spec fn created_times(metas: Seq<SessionMeta>) -> Seq<Seq<char>> {
    metas.map_values(|m: SessionMeta| m.created_at@)
}

/// A review group's fields: intent, scope, and the files with added and removed counts.
pub type ReviewGroupView = (Seq<char>, Seq<char>, Seq<(Seq<char>, u32, u32)>);

impl View for ReviewGroup {
    type V = ReviewGroupView;

    open spec fn view(&self) -> ReviewGroupView {
        (self.intent@, self.scope@, self.files@.map_values(|f: (String, u32, u32)| (f.0@, f.1, f.2)))
    }
}

/// The review group of a semantic unit: its intent and scope, and its files with no line
/// counts, listed only when the diff stat against the base commit could be read.
pub open spec fn group_of(u: SemanticUnit, stat_ok: bool) -> ReviewGroupView {
    (
        u.intent.word(),
        u.scope@,
        if stat_ok {
            views_of(u.affected_files@).map_values(|f: Seq<char>| (f, 0u32, 0u32))
        } else {
            Seq::empty()
        },
    )
}

impl SessionManager {
    // ─── log ─────────────────────────────────────────────────

    /// The log entry of one snapshot.
    pub fn log_entry(snap: &Snapshot) -> (e: LogEntry)
        ensures
            e@ == log_entry_of(*snap),
    {
        let snapshot_id = take_chars(snap.sid.as_str(), 12);
        if snap.semantic_units.len() > 0 {
            let u = &snap.semantic_units[0];
            LogEntry {
                snapshot_id,
                timestamp: snap.timestamp.clone(),
                description: u.description.clone(),
                intent: u.intent.to_string(),
                risk: u.risk.to_string(),
            }
        } else {
            LogEntry {
                snapshot_id,
                timestamp: snap.timestamp.clone(),
                description: String::new(),
                intent: String::new(),
                risk: String::new(),
            }
        }
    }

    /// View snapshot history of one session: the entries of the snapshots that loaded,
    /// sorted by timestamp; entries with equal timestamps keep their listing order.
    pub fn log(loaded: &Vec<Result<Snapshot, StoreError>>) -> (entries: Vec<LogEntry>)
        ensures
            exists|order: Seq<usize>|
                is_stable_order(entry_times(log_entries_of(loaded@)), order) && entries@.map_values(
                    |e: LogEntry| e@,
                ) == order.map_values(|k: usize| log_entries_of(loaded@)[k as int]),
            forall|a: int, b: int|
                0 <= a < b < entries@.len() ==> !text_lt(
                    #[trigger] entries@[b].timestamp@,
                    #[trigger] entries@[a].timestamp@,
                ),
    {
        let mut unsorted: Vec<LogEntry> = Vec::new();
        let mut keys: Vec<String> = Vec::new();
        let mut i: usize = 0;
        while i < loaded.len()
            invariant
                i <= loaded.len(),
                unsorted@.map_values(|e: LogEntry| e@) == log_entries_of(loaded@.take(i as int)),
                views_of(keys@) == entry_times(log_entries_of(loaded@.take(i as int))),
            decreases loaded.len() - i,
        {
            let ghost prev = loaded_snapshots(loaded@.take(i as int));
            proof {
                assert(loaded@.take(i + 1).drop_last() =~= loaded@.take(i as int));
                assert(loaded@.take(i + 1).last() == loaded@[i as int]);
            }
            match &loaded[i] {
                Ok(snap) => {
                    let e = SessionManager::log_entry(snap);
                    let k = snap.timestamp.clone();
                    let ghost ub = unsorted@.map_values(|e: LogEntry| e@);
                    let ghost kb = views_of(keys@);
                    unsorted.push(e);
                    keys.push(k);
                    proof {
                        assert(loaded_snapshots(loaded@.take(i + 1)) == prev.push(*snap));
                        assert(unsorted@.map_values(|e: LogEntry| e@) =~= ub.push(e@));
                        assert(prev.push(*snap).map_values(|s: Snapshot| log_entry_of(s)) =~= prev.map_values(
                            |s: Snapshot| log_entry_of(s),
                        ).push(log_entry_of(*snap)));
                        assert(views_of(keys@) =~= kb.push(k@));
                        assert(entry_times(log_entries_of(loaded@.take(i + 1))) =~= entry_times(
                            log_entries_of(loaded@.take(i as int)),
                        ).push(k@));
                    }
                },
                Err(_) => {
                    assert(loaded_snapshots(loaded@.take(i + 1)) == prev);
                },
            }
            i = i + 1;
        }
        assert(loaded@.take(loaded.len() as int) =~= loaded@);
        let ghost all = log_entries_of(loaded@);
        let order = stable_order(&keys);
        let mut entries: Vec<LogEntry> = Vec::new();
        let mut j: usize = 0;
        while j < order.len()
            invariant
                is_stable_order(entry_times(all), order@),
                unsorted@.map_values(|e: LogEntry| e@) == all,
                j <= order.len(),
                entries@.map_values(|e: LogEntry| e@) == order@.take(j as int).map_values(
                    |k: usize| all[k as int],
                ),
            decreases order.len() - j,
        {
            let k = order[j];
            let src = &unsorted[k];
            let e = LogEntry {
                snapshot_id: src.snapshot_id.clone(),
                timestamp: src.timestamp.clone(),
                description: src.description.clone(),
                intent: src.intent.clone(),
                risk: src.risk.clone(),
            };
            let ghost before = entries@.map_values(|e: LogEntry| e@);
            entries.push(e);
            proof {
                assert(entries@.map_values(|e: LogEntry| e@) =~= before.push(e@));
                assert(e@ == all[k as int]);
                assert(order@.take(j + 1).map_values(|k: usize| all[k as int]) =~= order@.take(
                    j as int,
                ).map_values(|k: usize| all[k as int]).push(all[k as int]));
            }
            j = j + 1;
        }
        assert(order@.take(order.len() as int) =~= order@);
        proof {
            let keys = entry_times(all);
            law_sorted_listing_keeps_every_item(keys, order@);
            assert forall|a: int, b: int| 0 <= a < b < entries@.len() implies !text_lt(
                #[trigger] entries@[b].timestamp@,
                #[trigger] entries@[a].timestamp@,
            ) by {
                let em = entries@.map_values(|e: LogEntry| e@);
                assert(em[a] == entries@[a]@ && em[b] == entries@[b]@);
                assert(entries@[a].timestamp@ == keys[order@[a] as int]);
                assert(entries@[b].timestamp@ == keys[order@[b] as int]);
            }
        }
        entries
    }

    /// The lines that list sessions in `cx log` without a session id: the sessions sorted
    /// by creation time (equal times keep their order), the latest ten, latest first.
    pub fn session_summaries(metas: &Vec<SessionMeta>) -> (lines: Vec<String>)
        ensures
            exists|order: Seq<usize>|
                #[trigger] is_stable_order(created_times(metas@), order) && lines@.len()
                    == (if metas@.len() < 10 { metas@.len() } else { 10 }) && (forall|j: int|
                    0 <= j < lines@.len() ==> #[trigger] lines@[j]@ == summary_line(
                        metas@[order[metas@.len() - 1 - j] as int],
                    )) && (forall|a: int, b: int|
                    0 <= a < b < order.len() ==> !text_lt(
                        metas@[#[trigger] order[b] as int].created_at@,
                        metas@[#[trigger] order[a] as int].created_at@,
                    )),
    {
        let mut keys: Vec<String> = Vec::new();
        let mut i: usize = 0;
        while i < metas.len()
            invariant
                i <= metas.len(),
                views_of(keys@) == created_times(metas@.take(i as int)),
            decreases metas.len() - i,
        {
            let k = metas[i].created_at.clone();
            let ghost before = views_of(keys@);
            keys.push(k);
            assert(views_of(keys@) =~= before.push(k@));
            assert(created_times(metas@.take(i + 1)) =~= created_times(metas@.take(i as int)).push(
                metas@[i as int].created_at@,
            ));
            i = i + 1;
        }
        assert(metas@.take(metas.len() as int) =~= metas@);
        let order = stable_order(&keys);
        let n = order.len();
        let count = if n < 10 { n } else { 10 };
        let mut lines: Vec<String> = Vec::new();
        let mut j: usize = 0;
        while j < count
            invariant
                is_stable_order(created_times(metas@), order@),
                n == order.len(),
                n == metas.len(),
                count == (if n < 10 { n } else { 10 }),
                j <= count,
                lines@.len() == j,
                forall|a: int| 0 <= a < j ==> #[trigger] lines@[a]@ == summary_line(
                    metas@[order@[n - 1 - a] as int],
                ),
            decreases count - j,
        {
            let m = &metas[order[n - 1 - j]];
            let mut l = m.id.clone();
            push_str(&mut l, "  ");
            push_str(&mut l, m.status.to_string().as_str());
            push_str(&mut l, "  ");
            push_str(&mut l, take_chars(m.prompt.as_str(), 50).as_str());
            push_str(&mut l, "  ");
            push_str(&mut l, decimal_string(m.snapshot_count as u64).as_str());
            push_str(&mut l, " snapshots");
            lines.push(l);
            j = j + 1;
        }
        proof {
            let keys = created_times(metas@);
            law_sorted_listing_keeps_every_item(keys, order@);
            assert forall|a: int, b: int| 0 <= a < b < order@.len() implies !text_lt(
                metas@[#[trigger] order@[b] as int].created_at@,
                metas@[#[trigger] order@[a] as int].created_at@,
            ) by {
                assert(keys[order@[a] as int] == metas@[order@[a] as int].created_at@);
                assert(keys[order@[b] as int] == metas@[order@[b] as int].created_at@);
            }
        }
        lines
    }

    // ─── review ──────────────────────────────────────────────

    /// The snapshots that `cx review` looks at: the one given, else all listed.
    pub fn review_targets(snapshot_id: Option<&str>, listing: &Vec<String>) -> (turns: Vec<u32>)
        ensures
            match snapshot_id {
                Some(id) => turns@ == seq![turn_of(id@)],
                None => turns@ == views_of(listing@).map_values(|n: Seq<char>| turn_of(n)),
            },
    {
        match snapshot_id {
            Some(id) => {
                let t = match parse_u32(id) {
                    Some(n) => n,
                    None => 0,
                };
                let mut v = Vec::new();
                v.push(t);
                assert(v@ =~= seq![t]);
                v
            },
            None => SessionManager::snapshot_turns(listing),
        }
    }

    /// The review group of one semantic unit.
    pub fn review_group(unit: &SemanticUnit, stat_ok: bool) -> (g: ReviewGroup)
        ensures
            g@ == group_of(*unit, stat_ok),
    {
        let mut files: Vec<(String, u32, u32)> = Vec::new();
        if stat_ok {
            let mut i: usize = 0;
            while i < unit.affected_files.len()
                invariant
                    i <= unit.affected_files.len(),
                    files@.map_values(|f: (String, u32, u32)| (f.0@, f.1, f.2)) == views_of(
                        unit.affected_files@,
                    ).take(i as int).map_values(|f: Seq<char>| (f, 0u32, 0u32)),
                decreases unit.affected_files.len() - i,
            {
                let f = unit.affected_files[i].clone();
                let ghost before = files@.map_values(|f: (String, u32, u32)| (f.0@, f.1, f.2));
                files.push((f, 0, 0));
                assert(files@.map_values(|f: (String, u32, u32)| (f.0@, f.1, f.2)) =~= before.push(
                    (f@, 0u32, 0u32),
                ));
                assert(views_of(unit.affected_files@).take(i + 1).map_values(
                    |f: Seq<char>| (f, 0u32, 0u32),
                ) =~= views_of(unit.affected_files@).take(i as int).map_values(
                    |f: Seq<char>| (f, 0u32, 0u32),
                ).push((unit.affected_files@[i as int]@, 0u32, 0u32)));
                i = i + 1;
            }
            assert(views_of(unit.affected_files@).take(unit.affected_files.len() as int) =~= views_of(
                unit.affected_files@,
            ));
        } else {
            assert(files@.map_values(|f: (String, u32, u32)| (f.0@, f.1, f.2)) =~= Seq::<
                (Seq<char>, u32, u32),
            >::empty());
        }
        ReviewGroup { intent: unit.intent.to_string(), scope: unit.scope.clone(), files }
    }

    /// Review changes grouped by intent: one group per semantic unit of the snapshots that
    /// loaded, in order. `stat_ok` tells whether the diff stat of the session against its
    /// base commit could be read; files are listed only when it could.
    pub fn review(meta: SessionMeta, loaded: &Vec<Result<Snapshot, StoreError>>, stat_ok: bool) -> (d: ReviewData)
        ensures
            d.base_branch == meta.base_branch,
            d.base_commit == meta.base_commit,
            d.session_id == meta.id,
            d.groups@.map_values(|g: ReviewGroup| g@) == all_units(loaded_snapshots(loaded@)).map_values(
                |u: SemanticUnit| group_of(u, stat_ok),
            ),
    {
        let mut groups: Vec<ReviewGroup> = Vec::new();
        let mut i: usize = 0;
        while i < loaded.len()
            invariant
                i <= loaded.len(),
                groups@.map_values(|g: ReviewGroup| g@) == all_units(loaded_snapshots(loaded@.take(i as int))).map_values(
                    |u: SemanticUnit| group_of(u, stat_ok),
                ),
            decreases loaded.len() - i,
        {
            let ghost prev = loaded_snapshots(loaded@.take(i as int));
            proof {
                assert(loaded@.take(i + 1).drop_last() =~= loaded@.take(i as int));
                assert(loaded@.take(i + 1).last() == loaded@[i as int]);
            }
            match &loaded[i] {
                Ok(snap) => {
                    proof {
                        assert(loaded_snapshots(loaded@.take(i + 1)) == prev.push(*snap));
                        assert(prev.push(*snap).drop_last() =~= prev);
                    }
                    let ghost base = all_units(prev);
                    let mut k: usize = 0;
                    while k < snap.semantic_units.len()
                        invariant
                            k <= snap.semantic_units.len(),
                            groups@.map_values(|g: ReviewGroup| g@) == (base + snap.semantic_units@.take(k as int)).map_values(
                                |u: SemanticUnit| group_of(u, stat_ok),
                            ),
                        decreases snap.semantic_units.len() - k,
                    {
                        let g = SessionManager::review_group(&snap.semantic_units[k], stat_ok);
                        let ghost before = groups@.map_values(|g: ReviewGroup| g@);
                        groups.push(g);
                        proof {
                            assert(groups@.map_values(|g: ReviewGroup| g@) =~= before.push(g@));
                            assert(base + snap.semantic_units@.take(k + 1) =~= (base + snap.semantic_units@.take(k as int)).push(snap.semantic_units@[k as int]));
                        }
                        k = k + 1;
                    }
                    assert(snap.semantic_units@.take(snap.semantic_units.len() as int) =~= snap.semantic_units@);
                },
                Err(_) => {
                    assert(loaded_snapshots(loaded@.take(i + 1)) == prev);
                },
            }
            i = i + 1;
        }
        assert(loaded@.take(loaded.len() as int) =~= loaded@);
        ReviewData {
            base_branch: meta.base_branch,
            base_commit: meta.base_commit,
            session_id: meta.id,
            groups,
        }
    }
}

} // verus!
