use cx::context::{Context, IntentKind, IntentSpec, RiskLevel, SemanticUnit, Snapshot, SnapshotKind};
use cx::snapshot::{
    build_semantic_unit, canonical_json, compute_session_id, compute_sid, create_snapshot,
    hex_encode, hex_encode_first_n, session_branch_name,
};
use sha2::{Digest, Sha256};

fn sha_hex(data: &[u8]) -> String {
    let mut h = Sha256::new();
    h.update(data);
    h.finalize().iter().map(|b| format!("{b:02x}")).collect()
}

fn unit() -> SemanticUnit {
    SemanticUnit {
        intent: IntentKind::Feature,
        scope: "payment".to_string(),
        description: "Add \"Alipay\" signature".to_string(),
        risk: RiskLevel::Medium,
        affected_files: vec!["pay.rs".to_string(), "sign.rs".to_string()],
    }
}

#[test]
fn hex_of_bytes() {
    assert_eq!(hex_encode(&[0x00, 0xff, 0x1a, 0x09]), "00ff1a09");
    assert_eq!(hex_encode(&[]), "");
    assert_eq!(hex_encode_first_n(&[0xab, 0xcd, 0xef], 2), "abcd");
    assert_eq!(hex_encode_first_n(&[0xab], 4), "ab");
}

#[test]
fn session_id_is_prefix_of_sha256() {
    let id = compute_session_id("Add payment", "0123abcd");
    let full = sha_hex(b"Add payment0123abcd");
    assert_eq!(id, format!("s_{}", &full[..8]));
    assert_eq!(id.len(), 10);
    assert!(!id.contains('-'));
}

#[test]
fn session_id_depends_on_both_inputs() {
    let a = compute_session_id("p", "c1");
    let b = compute_session_id("p", "c2");
    let c = compute_session_id("q", "c1");
    assert_ne!(a, b);
    assert_ne!(a, c);
    assert_eq!(a, compute_session_id("p", "c1"));
}

#[test]
fn branch_name_slug() {
    assert_eq!(
        session_branch_name("s_12345678", "Add Alipay signature!"),
        "cx/s_12345678-add-alipay-signature"
    );
    assert_eq!(
        session_branch_name("s_1", "  Fix   the_login-page  now "),
        "cx/s_1-fix-the_login-page-now"
    );
    assert_eq!(session_branch_name("s_1", "!!!"), "cx/s_1-");
}

#[test]
fn branch_name_slug_is_cut_at_thirty() {
    let b = session_branch_name("s_1", "abcdefghij abcdefghij abcdefghij abcdefghij");
    assert_eq!(b, "cx/s_1-abcdefghij-abcdefghij-abcdefgh");
}

#[test]
fn branch_name_keeps_unicode_letters() {
    assert_eq!(session_branch_name("s_1", "Café Ünïcode"), "cx/s_1-café-ünïcode");
}

#[test]
fn canonical_json_of_snapshot() {
    let s = Snapshot {
        sid: String::new(),
        parents: vec!["abc".to_string()],
        kind: SnapshotKind::AiSession,
        context: Context {
            prompt: "do it".to_string(),
            conversation_summary: None,
            turn_index: 1,
        },
        semantic_units: vec![unit()],
        author: "user".to_string(),
        timestamp: "2024-01-02T03:04:05+00:00".to_string(),
    };
    let expected = "{\"sid\":\"\",\"parents\":[\"abc\"],\"kind\":\"AiSession\",\"context\":{\"prompt\":\"do it\",\"conversation_summary\":null,\"turn_index\":1},\"semantic_units\":[{\"intent\":\"Feature\",\"scope\":\"payment\",\"description\":\"Add \\\"Alipay\\\" signature\",\"risk\":\"Medium\",\"affected_files\":[\"pay.rs\",\"sign.rs\"]}],\"author\":\"user\",\"timestamp\":\"2024-01-02T03:04:05+00:00\"}";
    assert_eq!(canonical_json(&s), expected);
    assert_eq!(compute_sid(&s), sha_hex(expected.as_bytes()));
}

#[test]
fn canonical_json_with_summary_and_no_units() {
    let s = Snapshot {
        sid: "x".to_string(),
        parents: vec![],
        kind: SnapshotKind::Manual,
        context: Context {
            prompt: "p".to_string(),
            conversation_summary: Some("sum".to_string()),
            turn_index: 42,
        },
        semantic_units: vec![],
        author: "a".to_string(),
        timestamp: "t".to_string(),
    };
    assert_eq!(
        canonical_json(&s),
        "{\"sid\":\"x\",\"parents\":[],\"kind\":\"Manual\",\"context\":{\"prompt\":\"p\",\"conversation_summary\":\"sum\",\"turn_index\":42},\"semantic_units\":[],\"author\":\"a\",\"timestamp\":\"t\"}"
    );
}

#[test]
fn created_snapshot_id_is_hash_with_empty_id() {
    let s = create_snapshot(
        vec!["base".to_string()],
        SnapshotKind::AiSession,
        "prompt".to_string(),
        1,
        vec![unit()],
        "user:Test".to_string(),
        "2024-01-01T00:00:00+00:00".to_string(),
    );
    assert_eq!(s.parents, vec!["base".to_string()]);
    assert_eq!(s.kind, SnapshotKind::AiSession);
    assert_eq!(s.context.prompt, "prompt");
    assert_eq!(s.context.turn_index, 1);
    assert!(s.context.conversation_summary.is_none());
    assert_eq!(s.author, "user:Test");
    let mut cleared = s.clone();
    cleared.sid = String::new();
    assert_eq!(compute_sid(&cleared), s.sid);
    assert_eq!(s.sid.len(), 64);
}

#[test]
fn semantic_unit_from_intent() {
    let spec = IntentSpec {
        kind: IntentKind::Fix,
        scope: "login".to_string(),
        risk: RiskLevel::High,
    };
    let u = build_semantic_unit(&spec, "Fix it".to_string(), vec!["a.rs".to_string()]);
    assert_eq!(u.intent, IntentKind::Fix);
    assert_eq!(u.scope, "login");
    assert_eq!(u.description, "Fix it");
    assert_eq!(u.risk, RiskLevel::High);
    assert_eq!(u.affected_files, vec!["a.rs".to_string()]);
}

#[test]
fn json_strings_are_escaped() {
    let s = Snapshot {
        sid: String::new(),
        parents: vec!["a\\b".to_string(), "tab\there\u{1}\u{1f}\u{8}\u{c}\r\n".to_string()],
        kind: SnapshotKind::AutoSave,
        context: Context {
            prompt: "é \u{7f} /".to_string(),
            conversation_summary: None,
            turn_index: 0,
        },
        semantic_units: vec![],
        author: "".to_string(),
        timestamp: "".to_string(),
    };
    assert_eq!(
        canonical_json(&s),
        "{\"sid\":\"\",\"parents\":[\"a\\\\b\",\"tab\\there\\u0001\\u001f\\b\\f\\r\\n\"],\"kind\":\"AutoSave\",\"context\":{\"prompt\":\"é \u{7f} /\",\"conversation_summary\":null,\"turn_index\":0},\"semantic_units\":[],\"author\":\"\",\"timestamp\":\"\"}"
    );
}

#[test]
fn snapshot_id_is_64_lowercase_hex() {
    let s = create_snapshot(vec![], SnapshotKind::Manual, "p".to_string(), 0, vec![], "a".to_string(), "t".to_string());
    assert_eq!(s.sid.len(), 64);
    assert!(s.sid.chars().all(|c| c.is_ascii_digit() || ('a'..='f').contains(&c)));
    let again = create_snapshot(vec![], SnapshotKind::Manual, "p".to_string(), 0, vec![], "a".to_string(), "t".to_string());
    assert_eq!(s.sid, again.sid);
}
