use atomic_core::error::ErrorKind;
use atomic_core::signals::{
    check_snooze_until, dashboard_cache_fresh, listed_signal_positions, DASHBOARD_SIGNAL_CACHE_TTL_NANOS, listing_limit, near_duplicate_atom_signal_key, parse_signal_key,
    signal_is_visible_with_feedback, signal_listed_with_feedback, source_duplicate_signal_key,
    tag_pair_signal_key, KnowledgeSignalFeedback, KnowledgeSignalFilter, KnowledgeSignalSeverity,
    KnowledgeSignalTarget, UtcTime, WikiUpdateEvidence, underconnected_candidate_ready,
};
use sha2::{Digest, Sha256};

fn feedback(state: &str, until: Option<&str>) -> KnowledgeSignalFeedback {
    KnowledgeSignalFeedback {
        signal_key: "wiki_candidate:tag:t1".to_string(),
        provider_id: "wiki_candidate".to_string(),
        target_type: "tag".to_string(),
        target_id: Some("t1".to_string()),
        state: state.to_string(),
        snoozed_until: until.map(|u| u.to_string()),
    }
}

// 2024-01-01T00:00:00Z
const NOW: UtcTime = UtcTime { secs: 1_704_067_200, nanos: 0 };

#[test]
fn targets_carry_their_kind() {
    let t = KnowledgeSignalTarget::tag("t1".to_string(), "Rust".to_string());
    assert_eq!(t.kind, "tag");
    assert_eq!(t.id, "t1");
    assert_eq!(t.label, "Rust");
    let a = KnowledgeSignalTarget::atom("a1".to_string(), "Note".to_string());
    assert_eq!(a.kind, "atom");
    assert_eq!(KnowledgeSignalSeverity::Opportunity.name(), "opportunity");
    assert_eq!(KnowledgeSignalSeverity::Review.name(), "review");
}

#[test]
fn dismissed_and_ignored_signals_are_hidden() {
    assert!(!signal_is_visible_with_feedback(Some(&feedback("dismissed", None)), NOW));
    assert!(!signal_is_visible_with_feedback(Some(&feedback("ignored", None)), NOW));
    assert!(signal_is_visible_with_feedback(Some(&feedback("acted", None)), NOW));
    assert!(signal_is_visible_with_feedback(None, NOW));
}

#[test]
fn snoozed_signals_return_when_the_snooze_is_over() {
    let future = feedback("snoozed", Some("2024-01-02T00:00:00Z"));
    let past = feedback("snoozed", Some("2023-12-31T23:00:00+00:00"));
    let exact = feedback("snoozed", Some("2024-01-01T02:00:00+02:00"));
    let unreadable = feedback("snoozed", Some("tomorrow"));
    let missing = feedback("snoozed", None);
    assert!(!signal_is_visible_with_feedback(Some(&future), NOW));
    assert!(signal_is_visible_with_feedback(Some(&past), NOW));
    assert!(signal_is_visible_with_feedback(Some(&exact), NOW));
    assert!(signal_is_visible_with_feedback(Some(&unreadable), NOW));
    assert!(signal_is_visible_with_feedback(Some(&missing), NOW));
}

#[test]
fn listing_honors_the_include_flags() {
    let mut filter = KnowledgeSignalFilter::default();
    let dismissed = feedback("dismissed", None);
    let snoozed = feedback("snoozed", Some("2030-01-01T00:00:00Z"));
    assert!(!signal_listed_with_feedback(Some(&dismissed), &filter, NOW));
    assert!(!signal_listed_with_feedback(Some(&snoozed), &filter, NOW));
    filter.include_dismissed = true;
    assert!(signal_listed_with_feedback(Some(&dismissed), &filter, NOW));
    assert!(!signal_listed_with_feedback(Some(&snoozed), &filter, NOW));
    filter.include_snoozed = true;
    assert!(signal_listed_with_feedback(Some(&snoozed), &filter, NOW));
}

#[test]
fn listing_limit_ignores_negative_values() {
    let mut filter = KnowledgeSignalFilter::default();
    assert_eq!(listing_limit(&filter), None);
    filter.limit = Some(3);
    assert_eq!(listing_limit(&filter), Some(3));
    filter.limit = Some(-1);
    assert_eq!(listing_limit(&filter), None);
}

#[test]
fn snooze_deadline_must_be_rfc3339() {
    assert!(check_snooze_until("2024-05-01T10:00:00Z").is_ok());
    let err = check_snooze_until("next week").unwrap_err();
    assert_eq!(err.kind(), ErrorKind::Validation);
    assert_eq!(err.message_text(), "snoozed_until must be an RFC3339 timestamp");
}

#[test]
fn signal_keys_split_into_provider_target_and_id() {
    let (p, t, id) = parse_signal_key("empty_tag:tag:abc").unwrap();
    assert_eq!(p, "empty_tag");
    assert_eq!(t, "tag");
    assert_eq!(id.as_deref(), Some("abc"));
    let (p, _, id) = parse_signal_key("near_duplicate_atom:pair:ff:extra").unwrap();
    assert_eq!(p, "near_duplicate_atom");
    assert_eq!(id.as_deref(), Some("ff"));
    let err = parse_signal_key("broken").unwrap_err();
    assert_eq!(err.kind(), ErrorKind::Validation);
    assert_eq!(err.message_text(), "Invalid knowledge signal key: broken");
    assert!(parse_signal_key("a:b").is_err());
}

#[test]
fn pair_keys_hash_the_ordered_pair() {
    let expected = format!("tag_redundancy:pair:{:x}", Sha256::digest("a-tag:b-tag".as_bytes()));
    assert_eq!(tag_pair_signal_key("a-tag", "b-tag"), expected);
    assert_eq!(tag_pair_signal_key("b-tag", "a-tag"), expected);
    let dup = near_duplicate_atom_signal_key("z1", "a9");
    assert_eq!(dup, format!("near_duplicate_atom:pair:{:x}", Sha256::digest("a9:z1".as_bytes())));
    let src = source_duplicate_signal_key("x", "x");
    assert_eq!(src, format!("source_duplicate:pair:{:x}", Sha256::digest("x:x".as_bytes())));
    assert_eq!(src.len(), "source_duplicate:pair:".len() + 64);
}

#[test]
fn listing_keeps_positions_by_feedback_at_the_current_time() {
    let rows = vec![
        None,
        Some(feedback("dismissed", None)),
        Some(feedback("snoozed", Some("2999-01-01T00:00:00Z"))),
        Some(feedback("snoozed", Some("2000-01-01T00:00:00Z"))),
        Some(feedback("included", None)),
        Some(feedback("ignored", None)),
    ];
    assert_eq!(listed_signal_positions(&rows, &KnowledgeSignalFilter::default()), vec![0, 3, 4]);
    let everything = KnowledgeSignalFilter {
        provider_id: None,
        include_dismissed: true,
        include_snoozed: true,
        limit: None,
    };
    assert_eq!(listed_signal_positions(&rows, &everything), vec![0, 1, 2, 3, 4, 5]);
}

fn wiki_row(article: i32, current: i32, new: i32) -> WikiUpdateEvidence {
    WikiUpdateEvidence {
        article_id: "w1".to_string(),
        tag_id: "t1".to_string(),
        tag_name: "Rust".to_string(),
        article_atom_count: article,
        current_atom_count: current,
        new_atom_count: new,
        new_source_count: 0,
        new_substantive_count: 0,
        new_recent_count: 0,
        inbound_link_count: 0,
        updated_at: "2024-01-01T00:00:00Z".to_string(),
    }
}

#[test]
fn wiki_update_counts_the_larger_of_new_atoms_and_growth() {
    assert_eq!(wiki_row(10, 16, 3).update_atom_count(), 6);
    assert_eq!(wiki_row(10, 12, 5).update_atom_count(), 5);
    assert_eq!(wiki_row(10, 4, 0).update_atom_count(), 0);
    assert_eq!(wiki_row(10, 4, 2).update_atom_count(), 2);
}

#[test]
fn underconnected_needs_complete_edges_and_enough_atoms() {
    assert!(underconnected_candidate_ready("complete", 8));
    assert!(!underconnected_candidate_ready("complete", 7));
    assert!(!underconnected_candidate_ready("pending", 50));
    assert!(!underconnected_candidate_ready("Complete", 50));
}

#[test]
fn dashboard_cache_serves_only_same_limit_within_ttl() {
    let ttl = DASHBOARD_SIGNAL_CACHE_TTL_NANOS;
    assert_eq!(ttl, 15_000_000_000);
    assert!(dashboard_cache_fresh(5, 5, 0, ttl));
    assert!(dashboard_cache_fresh(5, 5, ttl, ttl));
    assert!(!dashboard_cache_fresh(5, 5, ttl + 1, ttl));
    assert!(!dashboard_cache_fresh(5, 6, 0, ttl));
}
