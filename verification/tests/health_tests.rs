use atomic_core::error::ErrorKind;
use atomic_core::health_data::{
    count_similar_name_pairs, extract_title_preview, try_count_similar_name_pairs, is_link_candidate, source_prefix, wikilink_patterns, wikilink_title,
    HealthRawData,
};
use atomic_core::health_routes::{
    history_limit, plan_manual_fix, recent_fixes_limit, resolve_all_max, split_once, suggest_limit,
    BatchFixItem, BrokenLinkSuggestQuery, HistoryQuery, ManualFixPlan, ManualFixRequest, VerifyBatch,
    VerifyBatchBody, VerifyKind,
};

fn req(action: &str) -> ManualFixRequest {
    ManualFixRequest {
        action: action.to_string(),
        url: None,
        parent_id: None,
        into_tag_id: None,
        content: None,
        winner_atom_id: None,
        loser_atom_id: None,
        dry_run: false,
    }
}

#[test]
fn source_prefix_keeps_scheme_and_authority() {
    let p = |s: &str| source_prefix(&Some(s.to_string()));
    assert_eq!(p("https://tylertech.atlassian.net/wiki/spaces/X"), "https://tylertech.atlassian.net");
    assert_eq!(p("obsidian://ar-playbook/path/to/file"), "obsidian://ar-playbook");
    assert_eq!(source_prefix(&None), "manual");
    assert_eq!(p("https://example.com"), "https://example.com");
    assert_eq!(p("notes/today.md"), "notes");
    assert_eq!(p("plain"), "plain");
}

#[test]
fn title_preview_uses_the_cleaned_first_line() {
    assert_eq!(extract_title_preview("# Hello world\nbody"), "Hello world");
    assert_eq!(extract_title_preview("###   Spaced  \r\nbody"), "Spaced");
    let long = format!("# {}", "x".repeat(80));
    assert_eq!(extract_title_preview(&long), format!("{}\u{2026}", "x".repeat(60)));
    assert_eq!(extract_title_preview("#\nsecond line"), "#\nsecond line");
    assert_eq!(extract_title_preview(""), "");
    let no_title = format!("###\n{}", "y".repeat(100));
    assert_eq!(extract_title_preview(&no_title).chars().count(), 60);
}

#[test]
fn title_preview_counts_characters_not_bytes() {
    let accented = format!("a{}", "\u{e9}".repeat(40));
    assert_eq!(extract_title_preview(&accented), accented);
    let long = "\u{e9}".repeat(70);
    assert_eq!(extract_title_preview(&long), format!("{}\u{2026}", "\u{e9}".repeat(60)));
}

#[test]
fn similar_names_contain_each_other_ignoring_case() {
    let names: Vec<String> = ["Rust", "rust lang", "RUST", "Go", "golang", "Python"].iter().map(|s| s.to_string()).collect();
    // rust/rust lang, rust lang/RUST, go/golang; Rust vs RUST is an exact duplicate.
    assert_eq!(count_similar_name_pairs(&names), 3);
    assert_eq!(count_similar_name_pairs(&[]), 0);
    assert_eq!(try_count_similar_name_pairs(&names), Some(3));
    assert_eq!(try_count_similar_name_pairs(&[]), Some(0));
}

#[test]
fn raw_data_tallies_statuses_and_wiki_coverage() {
    let mut raw = HealthRawData::new(10);
    raw.record_embedding_status("complete", 7);
    raw.record_embedding_status("failed", 3);
    raw.record_embedding_status("weird", 99);
    raw.record_tagging_status("skipped", 2);
    assert_eq!((raw.embedding_complete, raw.embedding_failed, raw.embedding_pending), (7, 3, 0));
    assert_eq!(raw.tagging_skipped, 2);

    raw.add_duplicate_source("https://x".to_string(), "a1,a2,a3");
    assert_eq!(raw.duplicate_sources[0].1, vec!["a1", "a2", "a3"]);

    raw.set_edge_freshness(None, 0);
    assert_eq!(raw.atoms_since_edge_rebuild, 10);
    raw.set_edge_freshness(Some("2024-01-01".to_string()), 4);
    assert_eq!(raw.atoms_since_edge_rebuild, 4);

    raw.add_wiki_candidate("t1".into(), "One".into(), 6, false, None, None);
    raw.add_wiki_candidate("t2".into(), "Two".into(), 8, true, Some("2024-01-01".into()), Some("2024-02-01".into()));
    raw.add_wiki_candidate("t3".into(), "Three".into(), 9, true, Some("2024-03-01".into()), Some("2024-02-01".into()));
    assert_eq!((raw.wiki_eligible_count, raw.wiki_present_count, raw.wiki_stale_count), (3, 2, 1));
    assert_eq!(raw.wiki_gaps[0].tag_id, "t1");
    assert_eq!(raw.wiki_stale[0].tag_id, "t2");

    raw.set_contradiction_counts(57);
    assert_eq!(raw.contradiction_candidate_count, 5);
    raw.set_contradiction_counts(500);
    assert_eq!(raw.contradiction_candidate_count, 10);
}

#[test]
fn overlap_candidates_from_one_corpus_are_skipped() {
    let mut raw = HealthRawData::new(2);
    let same = raw.add_overlap_candidate(
        "p1".into(), "a".into(), Some("https://x.io/1".into()), "# A", "b".into(), Some("https://x.io/2".into()), "# B", 0, 2,
    );
    assert!(!same);
    let added = raw.add_overlap_candidate(
        "p2".into(), "a".into(), Some("https://x.io/1".into()), "# A title", "b".into(), None, "# B title", 7, 3,
    );
    assert!(added);
    assert_eq!(raw.duplicate_pairs.len(), 1);
    assert_eq!(raw.duplicate_pairs[0].atom_a_title, "A title");
    assert_eq!(raw.duplicate_pairs[0].atom_b_title, "B title");
}

#[test]
fn listing_limits() {
    assert_eq!(history_limit(&HistoryQuery { limit: None }), 30);
    assert_eq!(history_limit(&HistoryQuery { limit: Some(500) }), 90);
    assert_eq!(recent_fixes_limit(&HistoryQuery { limit: None }), 20);
    assert_eq!(recent_fixes_limit(&HistoryQuery { limit: Some(7) }), 7);
    let q = |l: Option<i32>| BrokenLinkSuggestQuery { q: "x".into(), limit: l };
    assert_eq!(suggest_limit(&q(None)), 5);
    assert_eq!(suggest_limit(&q(Some(0))), 1);
    assert_eq!(suggest_limit(&q(Some(50))), 20);
    assert_eq!(resolve_all_max(None), 25);
    assert_eq!(resolve_all_max(Some(3)), 3);
}

#[test]
fn pair_items_split_at_the_first_double_underscore() {
    assert_eq!(split_once("a__b__c", "__"), Some(("a".to_string(), "b__c".to_string())));
    assert_eq!(split_once("ab", "__"), None);
}

#[test]
fn manual_fix_plans() {
    match plan_manual_fix("content_overlap", "a1__b2", &req("keep_a")).unwrap() {
        ManualFixPlan::KeepOne { atom_a, atom_b, loser } => {
            assert_eq!((atom_a.as_str(), atom_b.as_str(), loser.as_str()), ("a1", "b2", "b2"))
        }
        other => panic!("unexpected plan {other:?}"),
    }
    match plan_manual_fix("duplicate_detection", "a1_b2", &req("merge_with_llm")).unwrap() {
        ManualFixPlan::MergeDuplicateWithLlm { atom_a, atom_b, dry_run } => {
            assert_eq!((atom_a.as_str(), atom_b.as_str(), dry_run), ("a1", "b2", false))
        }
        other => panic!("unexpected plan {other:?}"),
    }
    match plan_manual_fix("anything", "item", &req("defer")).unwrap() {
        ManualFixPlan::Dismiss { check, reason, defer_days, .. } => {
            assert_eq!((check.as_str(), reason.as_str(), defer_days), ("anything", "deferred", Some(7)))
        }
        other => panic!("unexpected plan {other:?}"),
    }
    let mut add = req("add_source");
    add.url = Some("  https://x.io  ".to_string());
    match plan_manual_fix("content_quality", "atom", &add).unwrap() {
        ManualFixPlan::AddSource { url, .. } => assert_eq!(url, "https://x.io"),
        other => panic!("unexpected plan {other:?}"),
    }
    let mut merge = req("merge_tags");
    merge.into_tag_id = Some("t2".to_string());
    match plan_manual_fix("tag_health", "t1__t2", &merge).unwrap() {
        ManualFixPlan::MergeSimilarTags { winner_tag_id, loser_tag_id, .. } => {
            assert_eq!((winner_tag_id.as_str(), loser_tag_id.as_str()), ("t2", "t1"))
        }
        other => panic!("unexpected plan {other:?}"),
    }
}

#[test]
fn manual_fix_refusals() {
    let err = plan_manual_fix("content_overlap", "nopair", &req("keep_b")).unwrap_err();
    assert_eq!((err.kind(), err.message_text()), (ErrorKind::Validation, "item_id must be 'atom_a__atom_b'"));
    let err = plan_manual_fix("duplicate_detection", "nopair", &req("merge_with_llm")).unwrap_err();
    assert_eq!(err.message_text(), "item_id must be 'atom_a__atom_b' for pair actions");
    let mut blank = req("add_source");
    blank.url = Some("   ".to_string());
    let err = plan_manual_fix("content_quality", "atom", &blank).unwrap_err();
    assert_eq!(err.message_text(), "url is required for add_source");
    let err = plan_manual_fix("tag_health", "t1", &req("move_under")).unwrap_err();
    assert_eq!(err.message_text(), "parent_id is required for move_under");
    let err = plan_manual_fix("content_quality", "x", &req("explode")).unwrap_err();
    assert_eq!(err.message_text(), "unsupported check 'content_quality' or action 'explode'");
    let mut edited = req("merge_with_edited_content");
    edited.winner_atom_id = Some("a".to_string());
    let err = plan_manual_fix("content_overlap", "a__b", &edited).unwrap_err();
    assert_eq!(err.message_text(), "loser_atom_id required");
}

#[test]
fn batch_items_become_single_requests() {
    let item = BatchFixItem {
        check: "tag_health".into(),
        item_id: "t1".into(),
        action: "delete_tag".into(),
        url: None,
        parent_id: None,
        into_tag_id: None,
        content: None,
        winner_atom_id: None,
        loser_atom_id: None,
        dry_run: true,
    };
    let r = item.to_request();
    assert_eq!(r.action, "delete_tag");
    assert!(r.dry_run);
    assert!(matches!(plan_manual_fix(&item.check, &item.item_id, &r).unwrap(), ManualFixPlan::DeleteTag { .. }));
}

#[test]
fn verify_batch_walks_pairs_and_tallies_verdicts() {
    let body = VerifyBatchBody {
        item_ids: vec!["a__b".into(), "bad".into(), "c__d".into(), "e__f".into()],
        max: Some(3),
    };
    let mut batch = VerifyBatch::new("content_overlap", &body);
    let (kind, a, b) = batch.next_pair().unwrap();
    assert_eq!((kind, a.as_str(), b.as_str()), (VerifyKind::Overlap, "a", "b"));
    batch.record(Some(true));
    let (_, c, d) = batch.next_pair().unwrap();
    assert_eq!((c.as_str(), d.as_str()), ("c", "d"));
    batch.record(Some(false));
    // The fourth item is beyond the batch's maximum.
    assert!(batch.next_pair().is_none());
    let (checked, kept, dismissed) = batch.summary();
    assert_eq!((checked, kept, dismissed), (2, 1, vec!["c__d".to_string()]));
}

#[test]
fn verify_batch_for_unknown_check_stops_after_one_pair() {
    let body = VerifyBatchBody { item_ids: vec!["x".into(), "a__b".into(), "c__d".into()], max: None };
    let mut batch = VerifyBatch::new("tag_health", &body);
    assert!(batch.next_pair().is_none());
    assert!(batch.next_pair().is_none());
    let (checked, kept, dismissed) = batch.summary();
    assert_eq!((checked, kept, dismissed.len()), (1, 0, 0));
}

#[test]
fn link_candidates_hold_relative_or_wiki_links() {
    assert!(is_link_candidate("see [notes](./notes.md)"));
    assert!(is_link_candidate("see [up](../up)"));
    assert!(is_link_candidate("see [x](.hidden/file.MD) too"));
    assert!(!is_link_candidate("see [x](.hidden/file.txt)"));
    assert!(is_link_candidate("a [[Wiki Page]] link"));
    assert!(!is_link_candidate("only [[ opening"));
    assert!(!is_link_candidate("[web](https://example.com)"));
}

#[test]
fn wikilink_titles_and_patterns() {
    assert_eq!(wikilink_title("\n  \n## Heading here\nrest", "id-1"), "Heading here");
    assert_eq!(wikilink_title("   \n", "id-1"), "id-1");
    let long = format!("{}", "z".repeat(100));
    assert_eq!(wikilink_title(&long, "id").len(), 80);
    let (dash, under, direct) = wikilink_patterns("My Note");
    assert_eq!(dash, "%/my-note%.md");
    assert_eq!(under, "%/my_note%.md");
    assert_eq!(direct, "My-Note.md");
}
