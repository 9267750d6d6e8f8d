use atomic_core::setup::{
    cached_token_from, claim_token_name, count_active_tokens, health_url, local_server_config, may_claim,
    poll_after_probe, poll_before_probe, setup_status_for, ClaimBody, KnowledgeSignalsQuery, PollAction,
    SIDECAR_PORT,
};

#[test]
fn setup_status_depends_on_registry_and_tokens() {
    let s = setup_status_for(false, false, &[]);
    assert!(s.needs_setup && !s.needs_unlock);
    let s = setup_status_for(false, true, &[]);
    assert!(!s.needs_setup && s.needs_unlock);
    let s = setup_status_for(true, true, &[true, true]);
    assert!(s.needs_setup && !s.needs_unlock);
    let s = setup_status_for(true, false, &[true, false]);
    assert!(!s.needs_setup && !s.needs_unlock);
    assert_eq!(count_active_tokens(&[false, true, false]), 2);
}

#[test]
fn claims_need_an_instance_without_active_tokens() {
    assert!(may_claim(&[]));
    assert!(may_claim(&[true]));
    assert!(!may_claim(&[true, false]));
    assert_eq!(claim_token_name(&ClaimBody { name: None, passphrase: None }), "default");
    assert_eq!(claim_token_name(&ClaimBody { name: Some("laptop".into()), passphrase: None }), "laptop");
}

#[test]
fn signal_query_becomes_a_filter() {
    let q = KnowledgeSignalsQuery {
        provider_id: Some("empty_tag".into()),
        include_dismissed: Some(true),
        include_snoozed: None,
        limit: Some(10),
    };
    let f = q.to_filter();
    assert_eq!(f.provider_id.as_deref(), Some("empty_tag"));
    assert!(f.include_dismissed);
    assert!(!f.include_snoozed);
    assert_eq!(f.limit, Some(10));
}

#[test]
fn local_server_config_and_token_file() {
    let c = local_server_config(SIDECAR_PORT, Some("tok".into()));
    assert_eq!(c.base_url, "http://127.0.0.1:44380");
    assert_eq!(c.auth_token, "tok");
    assert_eq!(local_server_config(8080, None).auth_token, "");
    assert_eq!(health_url(&c.base_url), "http://127.0.0.1:44380/health");
    assert_eq!(cached_token_from(Some("  abc \n".into())), Some("abc".to_string()));
    assert_eq!(cached_token_from(Some(" \n".into())), None);
    assert_eq!(cached_token_from(None), None);
}

#[test]
fn health_polling_stops_on_success_or_timeout() {
    assert_eq!(poll_before_probe(0), PollAction::Probe);
    assert_eq!(poll_before_probe(10_000), PollAction::Probe);
    assert_eq!(poll_before_probe(10_001), PollAction::TimedOut);
    assert_eq!(poll_after_probe(true), PollAction::Ready);
    assert_eq!(poll_after_probe(false), PollAction::Sleep(100));
}
