use cx::cli::determine_author;
use cx::context::{IntentKind, RiskLevel, SemanticUnit};
use cx::display::{log_lines, review_lines, status_lines};
use cx::git_api::spawn_failure;
use cx::session::{LogEntry, ReviewData, ReviewGroup, SessionStatusInfo};

fn strs(v: &[&str]) -> Vec<String> {
    v.iter().map(|s| s.to_string()).collect()
}

fn info(units: Vec<SemanticUnit>) -> SessionStatusInfo {
    SessionStatusInfo {
        id: "s_1".to_string(),
        branch: "cx/s_1-x".to_string(),
        status: "active".to_string(),
        prompt: "p".to_string(),
        snapshot_count: 2,
        semantic_units: units,
    }
}

#[test]
fn status_without_changes() {
    assert_eq!(
        status_lines(&info(vec![])),
        strs(&[
            "Session: s_1",
            "Branch:  cx/s_1-x",
            "Status:  active (2 snapshots)",
            "No changes recorded yet.",
        ])
    );
}

#[test]
fn status_with_changes() {
    let units = vec![
        SemanticUnit {
            intent: IntentKind::Feature,
            scope: "pay".to_string(),
            description: "d".to_string(),
            risk: RiskLevel::High,
            affected_files: strs(&["a.rs"]),
        },
        SemanticUnit {
            intent: IntentKind::Refactor,
            scope: "".to_string(),
            description: "d".to_string(),
            risk: RiskLevel::Medium,
            affected_files: strs(&["b.rs", "c.rs"]),
        },
        SemanticUnit {
            intent: IntentKind::Docs,
            scope: "".to_string(),
            description: "d".to_string(),
            risk: RiskLevel::Low,
            affected_files: vec![],
        },
    ];
    assert_eq!(
        status_lines(&info(units)),
        strs(&[
            "Session: s_1",
            "Branch:  cx/s_1-x",
            "Status:  active (2 snapshots)",
            "Changes by intent:",
            "  feature (1 file)  [risk: high]",
            "    ─  a.rs",
            "  refactor (2 files)  [risk: medium]",
            "    ─  b.rs",
            "    ─  c.rs",
            "  docs (0 files)",
        ])
    );
}

#[test]
fn log_prints_nothing_without_session() {
    assert!(log_lines(&vec![], None).is_empty());
}

#[test]
fn log_cuts_timestamps_to_seconds() {
    let entries = vec![
        LogEntry {
            snapshot_id: "0123456789ab".to_string(),
            timestamp: "2024-01-02T03:04:05.123456+01:00".to_string(),
            description: "Add x".to_string(),
            intent: "feature".to_string(),
            risk: "low".to_string(),
        },
        LogEntry {
            snapshot_id: "ffff".to_string(),
            timestamp: "short".to_string(),
            description: "".to_string(),
            intent: "".to_string(),
            risk: "".to_string(),
        },
    ];
    assert_eq!(
        log_lines(&entries, Some("s_1")),
        strs(&[
            "Session: s_1",
            "",
            "  0123456789ab  2024-01-02T03:04:05  Add x  [feature]  risk: low",
            "  ffff  short    []  risk: ",
        ])
    );
}

#[test]
fn review_without_groups() {
    let d = ReviewData {
        base_branch: "main".to_string(),
        base_commit: "abc".to_string(),
        session_id: "s_1".to_string(),
        groups: vec![],
    };
    assert_eq!(
        review_lines(&d),
        strs(&["Reviewing session s_1 (vs main@abc)", "", "No snapshots to review."])
    );
}

#[test]
fn review_with_groups() {
    let long_scope = "a-very-long-scope-name-for-this-group";
    let d = ReviewData {
        base_branch: "main".to_string(),
        base_commit: "0123456789abcdef".to_string(),
        session_id: "s_1".to_string(),
        groups: vec![
            ReviewGroup {
                intent: "feature".to_string(),
                scope: "pay".to_string(),
                files: vec![("a.rs".to_string(), 3, 1), ("b.rs".to_string(), 0, 0)],
            },
            ReviewGroup { intent: "fix".to_string(), scope: long_scope.to_string(), files: vec![] },
        ],
    };
    let title2 = format!("fix ({long_scope})");
    assert_eq!(
        review_lines(&d),
        vec![
            "Reviewing session s_1 (vs main@0123456789ab)".to_string(),
            "".to_string(),
            "feature (pay)".to_string(),
            "─".repeat(30),
            "  a.rs +3/-1".to_string(),
            "  b.rs".to_string(),
            "".to_string(),
            title2.clone(),
            "─".repeat(title2.len()),
            "  (no file changes)".to_string(),
            "".to_string(),
        ]
    );
}

#[test]
fn author_from_user_name() {
    assert_eq!(determine_author(Ok("Test User".to_string())), "user:Test User");
    assert_eq!(determine_author(Ok(String::new())), "user");
    assert_eq!(determine_author(Err(spawn_failure("x"))), "user");
}
