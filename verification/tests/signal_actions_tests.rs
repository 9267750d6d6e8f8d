use atomic_core::duplicates::{
    collect_near_duplicate_atom_ids, normalize_source_url, order_duplicate_atoms, shared_atom_tags,
    source_match_status, AtomTagInfo, NearDuplicateAtomInfo,
};
use atomic_core::error::ErrorKind;
use atomic_core::signal_actions::{
    add_tag_record, check_action_provider, check_add_tag_targets, check_merge_tags_request,
    check_tag_still_empty, plan_signal_action, plan_undo_add_tag, plan_undo_signal_action, select_per_key,
    select_per_pair, undo_plan_for, SignalActionKind, UndoDecision,
};
use atomic_core::signals::KnowledgeSignalAction;

fn info(id: &str, updated_at: &str) -> NearDuplicateAtomInfo {
    NearDuplicateAtomInfo {
        id: id.to_string(),
        title: format!("Title {id}"),
        source_url: None,
        content_length: 100,
        created_at: "2024-01-01T00:00:00Z".to_string(),
        updated_at: updated_at.to_string(),
    }
}

fn tag(id: &str, name: &str) -> AtomTagInfo {
    AtomTagInfo { id: id.to_string(), name: name.to_string() }
}

fn action(id: &str) -> KnowledgeSignalAction {
    KnowledgeSignalAction { id: id.to_string(), label: id.to_string(), kind: "apply".to_string() }
}

#[test]
fn newer_atom_of_a_pair_comes_first() {
    let old = info("old", "2024-01-01T00:00:00Z");
    let new = info("new", "2024-02-01T00:00:00Z");
    let (p, s) = order_duplicate_atoms(&old, &new);
    assert_eq!((p.id.as_str(), s.id.as_str()), ("new", "old"));
    let (p, s) = order_duplicate_atoms(&new, &old);
    assert_eq!((p.id.as_str(), s.id.as_str()), ("new", "old"));
    let twin = info("twin", "2024-01-01T00:00:00Z");
    let (p, _) = order_duplicate_atoms(&old, &twin);
    assert_eq!(p.id, "old");
}

#[test]
fn shared_tags_are_sorted_by_name() {
    let table = vec![
        ("a".to_string(), vec![tag("t3", "zeta"), tag("t1", "alpha"), tag("t2", "mu"), tag("t9", "only-a")]),
        ("b".to_string(), vec![tag("t1", "alpha"), tag("t2", "mu"), tag("t3", "zeta")]),
    ];
    let shared = shared_atom_tags("a", "b", &table);
    let names: Vec<&str> = shared.iter().map(|t| t.name.as_str()).collect();
    assert_eq!(names, vec!["alpha", "mu", "zeta"]);
    assert!(shared_atom_tags("a", "missing", &table).is_empty());
    assert!(shared_atom_tags("missing", "b", &table).is_empty());
}

#[test]
fn source_urls_compare_loosely() {
    assert_eq!(normalize_source_url(Some("  HTTPS://Example.com/Page/// ")), Some("https://example.com/page".to_string()));
    assert_eq!(normalize_source_url(Some("   ")), None);
    assert_eq!(normalize_source_url(None), None);
    assert_eq!(normalize_source_url(Some("///")), Some(String::new()));
    assert_eq!(source_match_status(Some("https://x.io/a/"), Some("HTTPS://X.IO/a")), "same_source");
    assert_eq!(source_match_status(Some("https://x.io/a"), Some("https://x.io/b")), "different_source");
    assert_eq!(source_match_status(Some("https://x.io/a"), None), "missing_source");
    assert_eq!(source_match_status(Some(" "), Some(" ")), "missing_source");
}

#[test]
fn pair_atom_ids_are_collected_once_in_order() {
    let pairs = vec![
        (info("a", "1"), info("b", "1")),
        (info("b", "1"), info("c", "1")),
        (info("a", "1"), info("c", "1")),
        (info("d", "1"), info("d", "1")),
    ];
    assert_eq!(collect_near_duplicate_atom_ids(&pairs), vec!["a", "b", "c", "d"]);
}

#[test]
fn actions_must_be_offered_and_supported() {
    let offered = vec![action("add_tag_to_atom"), action("keep"), action("merge_tags")];
    assert_eq!(plan_signal_action(&offered, "add_tag_to_atom").unwrap(), SignalActionKind::AddTagToAtom);
    assert_eq!(plan_signal_action(&offered, "merge_tags").unwrap(), SignalActionKind::MergeTags);
    let err = plan_signal_action(&offered, "delete_empty_tag").unwrap_err();
    assert_eq!(err.message_text(), "Action 'delete_empty_tag' is not available for this signal");
    let err = plan_signal_action(&offered, "keep").unwrap_err();
    assert_eq!(err.kind(), ErrorKind::Validation);
    assert_eq!(err.message_text(), "Unsupported knowledge signal action: keep");
}

#[test]
fn actions_apply_to_their_own_provider() {
    assert!(check_action_provider(SignalActionKind::DeleteEmptyTag, "empty_tag").is_ok());
    let err = check_action_provider(SignalActionKind::DeleteEmptyTag, "wiki_update").unwrap_err();
    assert_eq!(err.message_text(), "delete_empty_tag is only supported for empty-tag signals");
    assert!(check_action_provider(SignalActionKind::GenerateWiki, "wiki_candidate").is_ok());
    let err = check_action_provider(SignalActionKind::AddTagToAtom, "empty_tag").unwrap_err();
    assert_eq!(err.message_text(), "add_tag_to_atom is only supported for missing-tag signals");
}

#[test]
fn merge_requests_must_match_the_reviewed_pair() {
    let ok = check_merge_tags_request("p", "s", Some("s"), Some("p")).unwrap();
    assert_eq!(ok, ("s".to_string(), "p".to_string()));
    let err = check_merge_tags_request("p", "s", None, Some("p")).unwrap_err();
    assert_eq!(err.message_text(), "source_tag_id is required");
    let err = check_merge_tags_request("p", "s", Some("p"), None).unwrap_err();
    assert_eq!(err.message_text(), "target_tag_id is required");
    let err = check_merge_tags_request("p", "s", Some("p"), Some("p")).unwrap_err();
    assert_eq!(err.message_text(), "Merge tags must match the reviewed signal pair");
    assert!(check_merge_tags_request("p", "s", Some("x"), Some("p")).is_err());
}

#[test]
fn add_tag_then_undo_restores_the_assignment() {
    // The atom and tag exist; the assignment did not exist before.
    let previous = check_add_tag_targets(Some("2024-01-01T00:00:00Z".to_string()), true).unwrap();
    let record = add_tag_record("atom-1", "tag-1", false, 1, previous, "2024-03-01T00:00:00Z".to_string());
    assert!(record.action_added_assignment);
    assert_eq!(record.atom_updated_at_after, "2024-03-01T00:00:00Z");
    assert_eq!(plan_undo_signal_action("applied", "add_tag_to_atom").unwrap(), UndoDecision::UndoAddTag);
    let plan = undo_plan_for(&record);
    assert!(plan.remove_assignment);
    assert_eq!((plan.atom_id.as_str(), plan.tag_id.as_str()), ("atom-1", "tag-1"));

    // An assignment that already existed is left alone on undo.
    let kept = add_tag_record("atom-1", "tag-1", true, 0, "t0".to_string(), "t1".to_string());
    assert!(!kept.action_added_assignment);
    assert_eq!(kept.atom_updated_at_after, "t0");
    assert!(!undo_plan_for(&kept).remove_assignment);

    // A second undo reports the action as already undone.
    assert_eq!(
        plan_undo_signal_action("undone", "add_tag_to_atom").unwrap(),
        UndoDecision::AlreadyUndone { undo_supported: true }
    );
}

#[test]
fn add_tag_needs_atom_and_tag() {
    let err = check_add_tag_targets(None, true).unwrap_err();
    assert_eq!((err.kind(), err.message_text()), (ErrorKind::NotFound, "Atom not found"));
    let err = check_add_tag_targets(Some("t".to_string()), false).unwrap_err();
    assert_eq!((err.kind(), err.message_text()), (ErrorKind::NotFound, "Tag not found"));
}

#[test]
fn undo_rules() {
    let err = plan_undo_signal_action("pending", "add_tag_to_atom").unwrap_err();
    assert_eq!(err.message_text(), "Only applied signal actions can be undone");
    let err = plan_undo_signal_action("applied", "merge_tags").unwrap_err();
    assert_eq!(err.message_text(), "Undo is not supported for this signal action");
    assert_eq!(
        plan_undo_signal_action("undone", "merge_tags").unwrap(),
        UndoDecision::AlreadyUndone { undo_supported: false }
    );
    let err = plan_undo_add_tag(None, Some("t"), Some(true)).unwrap_err();
    assert_eq!(err.message_text(), "Action log missing atom_id");
    let err = plan_undo_add_tag(Some("a"), None, Some(true)).unwrap_err();
    assert_eq!(err.message_text(), "Action log missing tag_id");
    assert!(!plan_undo_add_tag(Some("a"), Some("t"), None).unwrap().remove_assignment);
    assert!(plan_undo_add_tag(Some("a"), Some("t"), Some(true)).unwrap().remove_assignment);
}

#[test]
fn empty_tag_deletion_rechecks_emptiness() {
    assert!(check_tag_still_empty(true, 0, 0).is_ok());
    let err = check_tag_still_empty(false, 0, 0).unwrap_err();
    assert_eq!(err.message_text(), "Tag not found");
    let err = check_tag_still_empty(true, 2, 0).unwrap_err();
    assert_eq!((err.kind(), err.message_text()), (ErrorKind::Validation, "Tag is no longer empty"));
    assert!(check_tag_still_empty(true, 0, 1).is_err());
}

#[test]
fn per_key_caps_keep_signals_in_order() {
    let keys: Vec<String> = ["a", "a", "b", "a", "b", "b", "c"].iter().map(|s| s.to_string()).collect();
    assert_eq!(select_per_key(&keys, 2, 100), vec![0, 1, 2, 4, 6]);
    assert_eq!(select_per_key(&keys, 2, 3), vec![0, 1, 2]);
    assert_eq!(select_per_key(&keys, 0, 100), Vec::<usize>::new());
}

#[test]
fn per_atom_caps_count_both_atoms_of_a_pair() {
    let p = |a: &str, b: &str| Some((a.to_string(), b.to_string()));
    let pairs = vec![p("a", "b"), p("a", "c"), p("a", "d"), None, p("b", "c"), p("x", "x"), p("x", "y")];
    // "a" may appear twice; the self-pair counts "x" twice.
    assert_eq!(select_per_pair(&pairs, 2, 100), vec![0, 1, 3, 4, 5]);
    assert_eq!(select_per_pair(&pairs, 3, 4), vec![0, 1, 2, 3]);
}
