use semantic_probe::semantic_audit::SemanticDegradationEvent;

#[test]
fn events_become_rows() {
    let event = SemanticDegradationEvent {
        request_id: Some("resp_1".to_string()),
        app_type: "codex".to_string(),
        provider_id: "p".to_string(),
        endpoint: None,
        tier: "A".to_string(),
        evidence: vec!["response_id_32hex".to_string(), "item_id_32hex".to_string()],
        attempts: u32::MAX,
        replayed: true,
        outcome: "exhausted".to_string(),
        dry_run: false,
        detail: Some("d".to_string()),
    };
    let row = event.clone().into_row(1_700_000_000);
    assert_eq!(row.created_at, 1_700_000_000);
    assert_eq!(row.request_id.as_deref(), Some("resp_1"));
    assert_eq!(row.app_type, "codex");
    assert_eq!(row.provider_id, "p");
    assert_eq!(row.endpoint, None);
    assert_eq!(row.tier, "A");
    assert_eq!(row.evidence, "response_id_32hex,item_id_32hex");
    assert_eq!(row.attempts, 4_294_967_295);
    assert_eq!(row.replayed, 1);
    assert_eq!(row.outcome, "exhausted");
    assert_eq!(row.dry_run, 0);
    assert_eq!(row.detail.as_deref(), Some("d"));

    let row = SemanticDegradationEvent { evidence: vec![], replayed: false, dry_run: true, ..event }
        .into_row(-1);
    assert_eq!(row.created_at, -1);
    assert_eq!(row.evidence, "");
    assert_eq!(row.replayed, 0);
    assert_eq!(row.dry_run, 1);
}
