use cx::context::{parse_intent_spec, IntentKind, RiskLevel, SessionMeta, SessionStatus};
use cx::git_api::current_session_id;
use cx::session::SessionManager;
use cx::snapshot::{compute_session_id, session_branch_name};
use cx::store::{Store};
use cx::text::{decimal_string, parse_u32};

#[test]
fn branch_of_a_session_names_it() {
    for prompt in ["Add payment", "", "---", "Ünïcode prompt with many many many words"] {
        let sid = compute_session_id(prompt, "0123456789abcdef");
        let branch = session_branch_name(&sid, prompt);
        assert_eq!(current_session_id(&branch), Some(sid));
    }
}

#[test]
fn intent_written_in_documented_form_parses_back() {
    let kinds = [IntentKind::Feature, IntentKind::Dependency, IntentKind::Chore];
    let risks = [RiskLevel::Low, RiskLevel::Medium, RiskLevel::High];
    for k in kinds {
        for r in risks {
            let text = format!("{},scope= my scope=x,risk={}", k.to_string(), r.to_string());
            let spec = parse_intent_spec(&text).unwrap();
            assert_eq!(spec.kind, k);
            assert_eq!(spec.scope, " my scope=x");
            assert_eq!(spec.risk, r);
        }
    }
}

#[test]
fn intent_type_alone_gets_defaults() {
    let spec = parse_intent_spec("dependency").unwrap();
    assert_eq!(spec.kind, IntentKind::Dependency);
    assert_eq!(spec.scope, "");
    assert_eq!(spec.risk, RiskLevel::Low);
}

#[test]
fn turn_file_is_read_back() {
    for t in [1u32, 9, 10, 123, u32::MAX] {
        let name = format!("{}.json", decimal_string(t as u64));
        let listed = Store::list_snapshots(&vec![name]);
        assert_eq!(listed, vec![t.to_string()]);
        assert_eq!(parse_u32(&listed[0]), Some(t));
        assert_eq!(SessionManager::snapshot_turns(&listed), vec![t]);
    }
}

#[test]
fn sorted_listing_keeps_every_item() {
    let entries: Vec<String> = ["3.json", "1.json", "2.json", "1.json", "x"]
        .iter()
        .map(|s| s.to_string())
        .collect();
    let listed = Store::list_snapshots(&entries);
    assert_eq!(listed, vec!["1", "1", "2", "3"]);
}

#[test]
fn applies_number_snapshots_in_order() {
    let mut m = SessionMeta {
        id: "s_1".to_string(),
        branch: "cx/s_1-x".to_string(),
        prompt: "p".to_string(),
        conversation_summary: None,
        author: "user".to_string(),
        status: SessionStatus::Active,
        created_at: "t".to_string(),
        base_branch: "main".to_string(),
        base_commit: "abc".to_string(),
        snapshot_count: 0,
    };
    let mut entries: Vec<String> = Vec::new();
    for k in 0..12u32 {
        let listing = Store::list_snapshots(&entries);
        assert_eq!(listing.len() as u32, k);
        let turn = SessionManager::next_turn(&listing);
        assert_eq!(turn, k + 1);
        let mut turns = SessionManager::snapshot_turns(&listing);
        turns.sort();
        assert_eq!(turns, (1..=k).collect::<Vec<u32>>());
        // the directory lists files in no particular order
        entries.insert(0, format!("{turn}.json"));
        m = Store::count_saved_snapshot(m, turn);
        assert_eq!(m.snapshot_count, k + 1);
    }
}
