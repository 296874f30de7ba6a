use cx::context::{parse_intent_spec, IntentKind, IntentSpec, RiskLevel, SessionStatus};

#[test]
fn parse_type_and_scope() {
    let spec = parse_intent_spec("feature,scope=payment").unwrap();
    assert_eq!(spec.kind, IntentKind::Feature);
    assert_eq!(spec.scope, "payment");
    assert_eq!(spec.risk, RiskLevel::Low);
}

#[test]
fn parse_type_scope_and_risk() {
    let spec = parse_intent_spec("refactor,scope=crypto,risk=medium").unwrap();
    assert_eq!(spec.kind, IntentKind::Refactor);
    assert_eq!(spec.scope, "crypto");
    assert_eq!(spec.risk, RiskLevel::Medium);
}

#[test]
fn parse_type_only_defaults() {
    let spec = parse_intent_spec("docs").unwrap();
    assert_eq!(spec.kind, IntentKind::Docs);
    assert_eq!(spec.scope, "");
    assert_eq!(spec.risk, RiskLevel::Low);
}

#[test]
fn parse_ignores_case_spaces_and_empty_parts() {
    let spec = parse_intent_spec(" FIX , ,scope=login,RISK=x").err().unwrap();
    assert_eq!(spec, "unknown intent key: RISK");
    let spec = parse_intent_spec(" FIX , ,scope=login, risk=HIGH ").unwrap();
    assert_eq!(spec.kind, IntentKind::Fix);
    assert_eq!(spec.scope, "login");
    assert_eq!(spec.risk, RiskLevel::High);
}

#[test]
fn parse_scope_keeps_text_after_first_equals() {
    let spec = parse_intent_spec("test,scope=a=b").unwrap();
    assert_eq!(spec.kind, IntentKind::Test);
    assert_eq!(spec.scope, "a=b");
}

#[test]
fn parse_key_order_does_not_matter() {
    let spec = parse_intent_spec("risk=high,scope=ui,style").unwrap();
    assert_eq!(spec.kind, IntentKind::Style);
    assert_eq!(spec.scope, "ui");
    assert_eq!(spec.risk, RiskLevel::High);
}

#[test]
fn parse_missing_type() {
    assert_eq!(
        parse_intent_spec("scope=x").err().unwrap(),
        "missing intent type (e.g. feature)"
    );
    assert_eq!(parse_intent_spec("").err().unwrap(), "missing intent type (e.g. feature)");
}

#[test]
fn parse_second_bare_value() {
    assert_eq!(
        parse_intent_spec("feature,fix").err().unwrap(),
        "unexpected bare value: fix"
    );
}

#[test]
fn parse_unknown_key() {
    assert_eq!(
        parse_intent_spec("feature,owner=me").err().unwrap(),
        "unknown intent key: owner"
    );
}

#[test]
fn parse_unknown_kind() {
    assert_eq!(
        parse_intent_spec("bogus,scope=x").err().unwrap(),
        "unknown intent kind: bogus"
    );
}

#[test]
fn parse_unknown_risk() {
    assert_eq!(
        parse_intent_spec("chore,risk=extreme").err().unwrap(),
        "unknown risk level: extreme"
    );
}

#[test]
fn kind_names_round_trip() {
    let kinds = [
        IntentKind::Refactor,
        IntentKind::Feature,
        IntentKind::Fix,
        IntentKind::Style,
        IntentKind::Docs,
        IntentKind::Dependency,
        IntentKind::Test,
        IntentKind::Chore,
    ];
    let names = ["refactor", "feature", "fix", "style", "docs", "dependency", "test", "chore"];
    for (k, n) in kinds.iter().zip(names.iter()) {
        assert_eq!(k.to_string(), *n);
        assert_eq!(IntentKind::from_str(n).unwrap(), *k);
        assert_eq!(IntentKind::from_str(&n.to_uppercase()).unwrap(), *k);
    }
}

#[test]
fn risk_names_round_trip() {
    let levels = [RiskLevel::Low, RiskLevel::Medium, RiskLevel::High];
    let names = ["low", "medium", "high"];
    for (r, n) in levels.iter().zip(names.iter()) {
        assert_eq!(r.to_string(), *n);
        assert_eq!(RiskLevel::from_str(n).unwrap(), *r);
    }
    assert_eq!(RiskLevel::from_str("MeDiUm").unwrap(), RiskLevel::Medium);
}

#[test]
fn kind_from_non_ascii_text_is_refused() {
    assert_eq!(
        IntentKind::from_str("féature").err().unwrap(),
        "unknown intent kind: féature"
    );
}

#[test]
fn intent_spec_display() {
    let spec = IntentSpec {
        kind: IntentKind::Feature,
        scope: "payment".to_string(),
        risk: RiskLevel::High,
    };
    assert_eq!(spec.to_string(), "feature (scope: payment, risk: high)");
}

#[test]
fn session_status_display() {
    assert_eq!(SessionStatus::Active.to_string(), "active");
    assert_eq!(SessionStatus::Merged.to_string(), "merged");
    assert_eq!(SessionStatus::Abandoned.to_string(), "abandoned");
}
