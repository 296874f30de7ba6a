use cx::context::{SessionMeta, SessionStatus};
use cx::store::{join_path, Store, StoreError};

fn names(v: &[&str]) -> Vec<String> {
    v.iter().map(|s| s.to_string()).collect()
}

fn meta(count: u32) -> SessionMeta {
    SessionMeta {
        id: "s_1".to_string(),
        branch: "cx/s_1-x".to_string(),
        prompt: "p".to_string(),
        conversation_summary: None,
        author: "user".to_string(),
        status: SessionStatus::Active,
        created_at: "t".to_string(),
        base_branch: "main".to_string(),
        base_commit: "abc".to_string(),
        snapshot_count: count,
    }
}

#[test]
fn path_joining() {
    assert_eq!(join_path("/repo", ".cx"), "/repo/.cx");
    assert_eq!(join_path("/repo/", ".cx"), "/repo/.cx");
    assert_eq!(join_path("", "a"), "a");
    assert_eq!(join_path("/repo", "/abs"), "/abs");
}

#[test]
fn store_paths() {
    let s = Store::open("/repo".to_string(), true).unwrap();
    assert_eq!(s.git_root(), "/repo");
    assert_eq!(s.cx_dir, "/repo/.cx");
    assert_eq!(s.cx_sessions_dir(), "/repo/.cx/sessions");
    assert_eq!(s.session_dir("s_1"), "/repo/.cx/sessions/s_1");
    assert_eq!(s.session_meta_path("s_1"), "/repo/.cx/sessions/s_1/meta.json");
    assert_eq!(s.snapshots_dir("s_1"), "/repo/.cx/sessions/s_1/snapshots");
    assert_eq!(s.snapshot_path("s_1", 12), "/repo/.cx/sessions/s_1/snapshots/12.json");
    assert_eq!(s.gitkeep_path(), "/repo/.cx/sessions/.gitkeep");
}

#[test]
fn init_and_open_refusals() {
    assert!(matches!(Store::init("/r".to_string(), true), Err(StoreError::AlreadyInitialized)));
    assert!(matches!(Store::open("/r".to_string(), false), Err(StoreError::NotInitialized)));
    let s = Store::init("/r".to_string(), false).unwrap();
    assert_eq!(s.cx_dir, "/r/.cx");
}

#[test]
fn missing_files() {
    match Store::check_session_exists("s_9", false) {
        Err(StoreError::SessionNotFound(s)) => assert_eq!(s, "s_9"),
        _ => panic!("expected SessionNotFound"),
    }
    assert!(Store::check_session_exists("s_9", true).is_ok());
    match Store::check_snapshot_exists(7, false) {
        Err(StoreError::SnapshotNotFound(s)) => assert_eq!(s, "7"),
        _ => panic!("expected SnapshotNotFound"),
    }
    assert!(Store::check_snapshot_exists(7, true).is_ok());
}

#[test]
fn listing_is_sorted_as_strings() {
    let listed = Store::list_snapshots(&names(&["2.json", "10.json", "notes.txt", "1.json", ".json"]));
    assert_eq!(listed, names(&["", "1", "10", "2"]));
    assert_eq!(Store::count_snapshots(&names(&["2.json", "10.json", "x"])), 2);
    assert_eq!(Store::list_snapshots(&Vec::new()), Vec::<String>::new());
}

#[test]
fn saving_keeps_the_largest_count() {
    assert_eq!(Store::count_saved_snapshot(meta(3), 5).snapshot_count, 5);
    let m = Store::count_saved_snapshot(meta(7), 2);
    assert_eq!(m.snapshot_count, 7);
    assert_eq!(m.id, "s_1");
    assert_eq!(m.status, SessionStatus::Active);
}

#[test]
fn store_error_display() {
    assert_eq!(StoreError::NotAGitRepo.to_string(), "not a git repository");
    assert_eq!(StoreError::AlreadyInitialized.to_string(), ".cx/ already initialized");
    assert_eq!(
        StoreError::NotInitialized.to_string(),
        ".cx/ not initialized (run `cx init` first)"
    );
    assert_eq!(StoreError::SessionNotFound("s_1".to_string()).to_string(), "session not found: s_1");
    assert_eq!(StoreError::SnapshotNotFound("3".to_string()).to_string(), "snapshot not found: 3");
    let io = std::io::Error::new(std::io::ErrorKind::Other, "disk full");
    assert_eq!(StoreError::Io(io).to_string(), "I/O error: disk full");
    let json = serde_json::from_str::<u32>("x").unwrap_err();
    let text = format!("JSON error: {json}");
    assert_eq!(StoreError::Json(json).to_string(), text);
}

#[test]
fn init_commits_the_store() {
    assert_eq!(
        Store::init_steps(),
        vec![names(&["add", ".cx/"]), names(&["commit", "-m", "cx: init"])]
    );
}
