use cx::context::{
    Context, IntentKind, IntentSpec, RiskLevel, SemanticUnit, SessionMeta, SessionStatus,
    Snapshot, SnapshotKind,
};
use cx::git_api::{spawn_failure, GitError};
use cx::session::{SessionError, SessionManager, Step};
use cx::snapshot::{compute_session_id, session_branch_name};
use cx::store::StoreError;

fn strs(v: &[&str]) -> Vec<String> {
    v.iter().map(|s| s.to_string()).collect()
}

fn meta(status: SessionStatus) -> SessionMeta {
    SessionMeta {
        id: "s_1".to_string(),
        branch: "cx/s_1-x".to_string(),
        prompt: "p".to_string(),
        conversation_summary: None,
        author: "user".to_string(),
        status,
        created_at: "2024-01-01".to_string(),
        base_branch: "main".to_string(),
        base_commit: "abcdef0123456789".to_string(),
        snapshot_count: 2,
    }
}

fn unit(kind: IntentKind, scope: &str, desc: &str, files: &[&str]) -> SemanticUnit {
    SemanticUnit {
        intent: kind,
        scope: scope.to_string(),
        description: desc.to_string(),
        risk: RiskLevel::Low,
        affected_files: strs(files),
    }
}

fn snap(sid: &str, ts: &str, units: Vec<SemanticUnit>) -> Snapshot {
    Snapshot {
        sid: sid.to_string(),
        parents: vec![],
        kind: SnapshotKind::AiSession,
        context: Context { prompt: "p".to_string(), conversation_summary: None, turn_index: 1 },
        semantic_units: units,
        author: "user".to_string(),
        timestamp: ts.to_string(),
    }
}

#[test]
fn open_and_init() {
    let m = SessionManager::open("/repo".to_string(), true).unwrap();
    assert_eq!(m.get_store().cx_dir, "/repo/.cx");
    assert!(matches!(
        SessionManager::open("/repo".to_string(), false),
        Err(SessionError::Store(StoreError::NotInitialized))
    ));
    assert!(matches!(
        SessionManager::init(Err(spawn_failure("x")), false),
        Err(SessionError::Store(StoreError::NotAGitRepo))
    ));
    assert!(matches!(
        SessionManager::init(Ok("/r".to_string()), true),
        Err(SessionError::Store(StoreError::AlreadyInitialized))
    ));
    assert_eq!(SessionManager::init(Ok("/r".to_string()), false).unwrap().root, "/r");
    assert_eq!(SessionManager::init_report(), "✓ Initialized .cx/ metadata store");
}

#[test]
fn active_session_from_branch() {
    assert_eq!(SessionManager::active_session(Ok("cx/s_ab-x".to_string())).unwrap(), "s_ab");
    assert!(matches!(
        SessionManager::active_session(Ok("main".to_string())),
        Err(SessionError::NoActiveSession)
    ));
    let e: Result<String, GitError> = Err(spawn_failure("boom"));
    assert!(matches!(SessionManager::active_session(e), Err(SessionError::Git(_))));
    assert_eq!(
        SessionManager::session_to_check(&Ok("cx/s_ab-x".to_string())),
        Some("s_ab".to_string())
    );
    assert_eq!(SessionManager::session_to_check(&Err(spawn_failure("x"))), None);
}

#[test]
fn start_refused_in_active_session() {
    assert!(matches!(
        SessionManager::check_not_in_session(&Some(Ok(meta(SessionStatus::Active)))),
        Err(SessionError::AlreadyInSession)
    ));
    assert!(SessionManager::check_not_in_session(&Some(Ok(meta(SessionStatus::Merged)))).is_ok());
    assert!(SessionManager::check_not_in_session(&Some(Err(StoreError::NotAGitRepo))).is_ok());
    assert!(SessionManager::check_not_in_session(&None).is_ok());
}

#[test]
fn new_session_metadata() {
    let m = SessionManager::new_session(
        "Add payment",
        "user:T",
        "main".to_string(),
        "c0ffee".to_string(),
        "2024-05-06T07:08:09+00:00".to_string(),
    );
    let sid = compute_session_id("Add payment", "c0ffee");
    assert_eq!(m.id, sid);
    assert_eq!(m.branch, session_branch_name(&sid, "Add payment"));
    assert_eq!(m.prompt, "Add payment");
    assert!(m.conversation_summary.is_none());
    assert_eq!(m.author, "user:T");
    assert_eq!(m.status, SessionStatus::Active);
    assert_eq!(m.created_at, "2024-05-06T07:08:09+00:00");
    assert_eq!(m.base_branch, "main");
    assert_eq!(m.base_commit, "c0ffee");
    assert_eq!(m.snapshot_count, 0);
}

#[test]
fn session_started_now_has_a_timestamp() {
    let m = SessionManager::start_session("p", "user", "main".to_string(), "c".to_string());
    assert!(m.created_at.len() >= 25);
    assert!(m.created_at.is_ascii());
    assert_eq!(&m.created_at[4..5], "-");
    assert_eq!(&m.created_at[10..11], "T");
    assert_eq!(m.status, SessionStatus::Active);
}

#[test]
fn start_plan_stashes_around_checkout() {
    let plan = SessionManager::start_plan(true, meta(SessionStatus::Active));
    assert_eq!(plan.len(), 6);
    assert!(matches!(&plan[0], Step::Git(a) if *a == strs(&["stash", "--include-untracked"])));
    assert!(matches!(&plan[1], Step::Git(a) if *a == strs(&["checkout", "-b", "cx/s_1-x"])));
    assert!(matches!(&plan[2], Step::Git(a) if *a == strs(&["stash", "pop"])));
    assert!(matches!(&plan[3], Step::WriteMeta(m) if m.id == "s_1" && m.branch == "cx/s_1-x"));
    assert!(matches!(&plan[4], Step::Say(l) if l == "✓ Started session s_1 on branch cx/s_1-x"));
    assert!(matches!(&plan[5], Step::Say(l) if l == "  Prompt: p"));
}

#[test]
fn start_plan_without_changes() {
    let plan = SessionManager::start_plan(false, meta(SessionStatus::Active));
    assert_eq!(plan.len(), 4);
    assert!(matches!(&plan[0], Step::Git(a) if *a == strs(&["checkout", "-b", "cx/s_1-x"])));
    assert!(matches!(&plan[1], Step::WriteMeta(_)));
    assert!(matches!(&plan[2], Step::Say(_)));
    assert!(matches!(&plan[3], Step::Say(_)));
}

#[test]
fn apply_plan_commits_snapshot_with_code() {
    let s = snap("abc", "t", vec![]);
    let plan = SessionManager::apply_plan(3, s, "Add x", false);
    assert_eq!(plan.len(), 4);
    assert!(matches!(&plan[0], Step::SaveSnapshot(3, s) if s.sid == "abc"));
    assert!(matches!(&plan[1], Step::Git(a) if *a == strs(&["add", ".cx/"])));
    assert!(matches!(&plan[2], Step::Git(a) if *a == strs(&["commit", "-m", "cx: Add x"])));
    assert!(matches!(&plan[3], Step::GitOutput(a) if *a == strs(&["rev-parse", "HEAD"])));
}

#[test]
fn apply_plan_can_skip_hooks() {
    let plan = SessionManager::apply_plan(1, snap("abc", "t", vec![]), "m", true);
    assert!(matches!(&plan[2], Step::Git(a) if *a == strs(&["commit", "--no-verify", "-m", "cx: m"])));
}

#[test]
fn apply_checks() {
    assert!(SessionManager::check_active(&meta(SessionStatus::Active)).is_ok());
    assert!(matches!(
        SessionManager::check_active(&meta(SessionStatus::Abandoned)),
        Err(SessionError::SessionNotActive)
    ));
    assert!(SessionManager::check_changes(true).is_ok());
    assert!(matches!(SessionManager::check_changes(false), Err(SessionError::NoChanges)));
}

#[test]
fn turns_and_parents() {
    assert_eq!(SessionManager::next_turn(&strs(&[])), 1);
    assert_eq!(SessionManager::next_turn(&strs(&["1", "2"])), 3);
    assert_eq!(SessionManager::snapshot_parents(true, "abc", 1), strs(&["abc"]));
    assert_eq!(SessionManager::snapshot_parents(false, "abc", 3), strs(&["2"]));
    assert_eq!(SessionManager::commit_message("Add x"), "cx: Add x");
}

#[test]
fn affected_files_skip_store() {
    assert_eq!(
        SessionManager::affected_files(strs(&["a.rs", ".cx/sessions/s_1/meta.json", "b/.cx/x", ".cxx"])),
        strs(&["a.rs", "b/.cx/x", ".cxx"])
    );
}

#[test]
fn first_snapshot_record() {
    let spec = IntentSpec { kind: IntentKind::Feature, scope: "pay".to_string(), risk: RiskLevel::Medium };
    let (turn, s) = SessionManager::record_snapshot(
        &meta(SessionStatus::Active),
        &strs(&[]),
        "Add pay",
        &spec,
        "user:T",
        strs(&["pay.rs", ".cx/sessions/s_1/meta.json"]),
        "2024-01-01T00:00:00+00:00".to_string(),
    );
    assert_eq!(turn, 1);
    assert_eq!(s.parents, strs(&["abcdef0123456789"]));
    assert_eq!(s.kind, SnapshotKind::AiSession);
    assert_eq!(s.context.prompt, "p");
    assert_eq!(s.context.turn_index, 1);
    assert_eq!(s.semantic_units.len(), 1);
    let u = &s.semantic_units[0];
    assert_eq!(u.intent, IntentKind::Feature);
    assert_eq!(u.scope, "pay");
    assert_eq!(u.description, "Add pay");
    assert_eq!(u.risk, RiskLevel::Medium);
    assert_eq!(u.affected_files, strs(&["pay.rs"]));
    assert_eq!(s.author, "user:T");
    assert_eq!(s.timestamp, "2024-01-01T00:00:00+00:00");
}

#[test]
fn later_snapshot_record() {
    let spec = IntentSpec { kind: IntentKind::Fix, scope: String::new(), risk: RiskLevel::Low };
    let (turn, s) = SessionManager::apply_snapshot(
        &meta(SessionStatus::Active),
        &strs(&["1", "2"]),
        "Fix",
        &spec,
        "user",
        strs(&[]),
    );
    assert_eq!(turn, 3);
    assert!(s.timestamp.is_ascii() && s.timestamp.len() >= 25);
    assert_eq!(s.sid.len(), 64);
    assert!(s.sid.chars().all(|c| c.is_ascii_digit() || ('a'..='f').contains(&c)));
    assert_eq!(s.parents, strs(&["2"]));
    assert_eq!(s.context.turn_index, 3);
}

#[test]
fn apply_report_lines() {
    let spec = IntentSpec { kind: IntentKind::Feature, scope: "pay".to_string(), risk: RiskLevel::Low };
    assert_eq!(
        SessionManager::apply_report(4, "0123456789abcdef", &spec),
        strs(&[
            "✓ Applied snapshot #4",
            "  Commit: 0123456789ab",
            "  Intent: feature (scope: pay, risk: low)",
        ])
    );
}

#[test]
fn status_collects_loaded_units() {
    let loaded = vec![
        Ok(snap("a", "t1", vec![unit(IntentKind::Feature, "x", "d1", &["f1"])])),
        Err(StoreError::SnapshotNotFound("0".to_string())),
        Ok(snap("b", "t2", vec![unit(IntentKind::Fix, "y", "d2", &[]), unit(IntentKind::Docs, "z", "d3", &["r"])])),
    ];
    let info = SessionManager::status(meta(SessionStatus::Active), loaded);
    assert_eq!(info.id, "s_1");
    assert_eq!(info.branch, "cx/s_1-x");
    assert_eq!(info.status, "active");
    assert_eq!(info.prompt, "p");
    assert_eq!(info.snapshot_count, 2);
    let descs: Vec<&str> = info.semantic_units.iter().map(|u| u.description.as_str()).collect();
    assert_eq!(descs, vec!["d1", "d2", "d3"]);
}

#[test]
fn snapshot_turns_from_listing() {
    assert_eq!(SessionManager::snapshot_turns(&strs(&["1", "10", "x", "+2"])), vec![1, 10, 0, 2]);
    assert_eq!(SessionManager::review_targets(Some("7"), &strs(&["1"])), vec![7]);
    assert_eq!(SessionManager::review_targets(Some("abc"), &strs(&["1"])), vec![0]);
    assert_eq!(SessionManager::review_targets(None, &strs(&["1", "2"])), vec![1, 2]);
}

#[test]
fn end_needs_exactly_one_flag() {
    assert_eq!(SessionManager::end_mode(true, false).unwrap(), true);
    assert_eq!(SessionManager::end_mode(false, true).unwrap(), false);
    for (m, a) in [(true, true), (false, false)] {
        match SessionManager::end_mode(m, a) {
            Err(SessionError::User(s)) => assert_eq!(s, "specify --merge or --abandon"),
            _ => panic!("expected a user error"),
        }
    }
}

#[test]
fn end_plan_merge() {
    let plan = SessionManager::end_plan("s_1", &meta(SessionStatus::Active), true);
    assert_eq!(plan.len(), 6);
    assert!(matches!(&plan[0], Step::Git(a) if *a == strs(&["checkout", "main"])));
    assert!(matches!(&plan[1], Step::Say(l) if l == "  Merging cx/s_1-x into main..."));
    assert!(matches!(&plan[2], Step::Git(a) if *a == strs(&["merge", "cx/s_1-x"])));
    assert!(matches!(&plan[3], Step::Git(a) if *a == strs(&["branch", "-D", "cx/s_1-x"])));
    assert!(matches!(&plan[4], Step::SetStatus(SessionStatus::Merged)));
    assert!(matches!(&plan[5], Step::Say(l) if l == "✓ Session s_1 merged into main"));
}

#[test]
fn end_plan_abandon() {
    let plan = SessionManager::end_plan("s_1", &meta(SessionStatus::Active), false);
    assert_eq!(plan.len(), 6);
    assert!(matches!(&plan[0], Step::SetStatus(SessionStatus::Abandoned)));
    assert!(matches!(&plan[1], Step::Git(a) if *a == strs(&["add", "-A"])));
    assert!(matches!(&plan[2], Step::GitIgnoringFailure(a) if *a == strs(&["commit", "-m", "cx: end session (abandon)"])));
    assert!(matches!(&plan[3], Step::Git(a) if *a == strs(&["checkout", "main"])));
    assert!(matches!(&plan[4], Step::Git(a) if *a == strs(&["branch", "-D", "cx/s_1-x"])));
    assert!(matches!(&plan[5], Step::Say(l) if l == "✓ Session s_1 abandoned"));
}

#[test]
fn status_change_keeps_the_rest() {
    let m = SessionManager::with_status(meta(SessionStatus::Active), SessionStatus::Merged);
    assert_eq!(m.status, SessionStatus::Merged);
    assert_eq!(m.id, "s_1");
    assert_eq!(m.snapshot_count, 2);
}

#[test]
fn log_entries_sorted_by_time_stably() {
    let loaded = vec![
        Ok(snap("bbbbbbbbbbbbbbbbbbbb", "2024-03", vec![unit(IntentKind::Fix, "s", "second", &[])])),
        Ok(snap("aaaaaaaaaaaaaaaaaaaa", "2024-01", vec![unit(IntentKind::Feature, "s", "first", &[])])),
        Err(StoreError::NotAGitRepo),
        Ok(snap("cccc", "2024-03", vec![])),
    ];
    let entries = SessionManager::log(&loaded);
    assert_eq!(entries.len(), 3);
    assert_eq!(entries[0].snapshot_id, "aaaaaaaaaaaa");
    assert_eq!(entries[0].description, "first");
    assert_eq!(entries[0].intent, "feature");
    assert_eq!(entries[0].risk, "low");
    assert_eq!(entries[1].snapshot_id, "bbbbbbbbbbbb");
    assert_eq!(entries[2].snapshot_id, "cccc");
    assert_eq!(entries[2].description, "");
    assert_eq!(entries[2].intent, "");
}

#[test]
fn session_summaries_latest_ten_first() {
    let mut metas = Vec::new();
    for i in 0..12u32 {
        let mut m = meta(SessionStatus::Merged);
        m.id = format!("s_{i:02}");
        m.created_at = format!("2024-01-{:02}", 12 - i);
        m.snapshot_count = i;
        metas.push(m);
    }
    let lines = SessionManager::session_summaries(&metas);
    assert_eq!(lines.len(), 10);
    assert_eq!(lines[0], "s_00  merged  p  0 snapshots");
    assert_eq!(lines[9], "s_09  merged  p  9 snapshots");
}

#[test]
fn session_summary_prompt_cut_at_fifty() {
    let mut m = meta(SessionStatus::Active);
    m.prompt = "x".repeat(60);
    let lines = SessionManager::session_summaries(&vec![m]);
    assert_eq!(lines, vec![format!("s_1  active  {}  2 snapshots", "x".repeat(50))]);
}

#[test]
fn review_groups_by_unit() {
    let loaded = vec![
        Ok(snap("a", "t", vec![unit(IntentKind::Feature, "pay", "d", &["a.rs", "b.rs"])])),
        Err(StoreError::NotAGitRepo),
        Ok(snap("b", "t", vec![unit(IntentKind::Style, "", "d", &[])])),
    ];
    let d = SessionManager::review(meta(SessionStatus::Active), &loaded, true);
    assert_eq!(d.base_branch, "main");
    assert_eq!(d.base_commit, "abcdef0123456789");
    assert_eq!(d.session_id, "s_1");
    assert_eq!(d.groups.len(), 2);
    assert_eq!(d.groups[0].intent, "feature");
    assert_eq!(d.groups[0].scope, "pay");
    assert_eq!(d.groups[0].files, vec![("a.rs".to_string(), 0, 0), ("b.rs".to_string(), 0, 0)]);
    assert_eq!(d.groups[1].intent, "style");
    assert!(d.groups[1].files.is_empty());
    let without_stat = SessionManager::review(meta(SessionStatus::Active), &loaded, false);
    assert!(without_stat.groups[0].files.is_empty());
}

#[test]
fn session_error_display() {
    assert_eq!(SessionError::NoActiveSession.to_string(), "no active session");
    assert_eq!(SessionError::SessionNotActive.to_string(), "current session is not active");
    assert_eq!(SessionError::AlreadyInSession.to_string(), "already in an active session");
    assert_eq!(SessionError::NoChanges.to_string(), "no changes to record");
    assert_eq!(SessionError::User("bad".to_string()).to_string(), "bad");
    assert_eq!(SessionError::Store(StoreError::NotAGitRepo).to_string(), "not a git repository");
    let io = std::io::Error::new(std::io::ErrorKind::Other, "disk full");
    assert_eq!(SessionError::Store(StoreError::Io(io)).to_string(), "I/O error: disk full");
    let json = serde_json::from_str::<u32>("x").unwrap_err();
    assert!(SessionError::Store(StoreError::Json(json)).to_string().starts_with("JSON error: "));
    assert_eq!(SessionError::Git(spawn_failure("x")).to_string(), "git error: failed to run git: x");
}

#[test]
fn errors_convert() {
    let e: SessionError = StoreError::NotInitialized.into();
    assert!(matches!(e, SessionError::Store(StoreError::NotInitialized)));
    let e: SessionError = spawn_failure("x").into();
    assert!(matches!(e, SessionError::Git(_)));
    let io: StoreError = std::io::Error::new(std::io::ErrorKind::NotFound, "gone").into();
    assert!(matches!(io, StoreError::Io(_)));
}

#[test]
fn test_cx_non_git_repo() {
    let r = SessionManager::init(Err(spawn_failure("not a git repository")), false);
    match r {
        Err(e) => assert_eq!(e.to_string(), "not a git repository"),
        Ok(_) => panic!("cx init should fail outside git repo"),
    }
}

#[test]
fn apply_intent_maps_parse_errors() {
    let spec = cx::cli::apply_intent("fix,scope=login").unwrap();
    assert_eq!(spec.kind, IntentKind::Fix);
    match cx::cli::apply_intent("nope") {
        Err(SessionError::User(m)) => assert_eq!(m, "unknown intent kind: nope"),
        _ => panic!("expected a user error"),
    }
}

#[test]
fn test_cx_init() {
    let store = SessionManager::init(Ok("/repo".to_string()), false).unwrap();
    assert_eq!(store.root, "/repo");
    assert_eq!(store.cx_dir, "/repo/.cx");
    assert_eq!(store.cx_sessions_dir(), "/repo/.cx/sessions");
    assert_eq!(store.gitkeep_path(), "/repo/.cx/sessions/.gitkeep");
    assert!(SessionManager::init_report().contains("Initialized .cx/"));
    assert!(matches!(
        SessionManager::init(Ok("/repo".to_string()), true),
        Err(SessionError::Store(StoreError::AlreadyInitialized))
    ));
}
