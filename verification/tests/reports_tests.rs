use atomic_core::models::{
    Atom, AtomKind, AtomWithTags, CitationPolicy, ContextScopeMode, KindFilter, Report,
};
use atomic_core::reports::{
    build_user_prompt, excerpt_for, failed_verbatim, max_iterations_for, passes_context_filter,
    seeded_ledger, snippet_for, truncate_on_char_boundary, CitationAdmission, CitationLedger,
    CitationSource, ContextFilter, TimeWindow,
};

fn mock_atom(id: &str, title: &str, body: &str) -> AtomWithTags {
    AtomWithTags {
        atom: Atom {
            id: id.to_string(),
            content: body.to_string(),
            title: title.to_string(),
            snippet: body.to_string(),
            source_url: None,
            source: None,
            published_at: None,
            created_at: "2026-04-11T00:00:00Z".to_string(),
            updated_at: "2026-04-11T00:00:00Z".to_string(),
            embedding_status: "complete".to_string(),
            tagging_status: "complete".to_string(),
            embedding_error: None,
            tagging_error: None,
            kind: AtomKind::Captured,
        },
        tags: vec![],
    }
}

fn mock_report(policy: CitationPolicy) -> Report {
    Report {
        id: "r1".into(),
        name: "test".into(),
        description: None,
        research_prompt: "investigate".into(),
        source_scope_tag_ids: vec![],
        source_scope_window: None,
        source_include_kinds: vec![AtomKind::Captured],
        context_scope_mode: ContextScopeMode::All,
        context_scope_tag_ids: vec![],
        context_scope_window: None,
        context_include_kinds: vec![AtomKind::Captured],
        citation_policy: policy,
        max_source_atoms: None,
        max_source_tokens: None,
        max_tool_iterations: None,
        schedule: "0 0 * * * *".into(),
        schedule_tz: None,
        enabled: true,
        output_atom_tags: vec![],
        last_run_at: None,
        last_finding_atom_id: None,
        last_error: None,
        created_at: "2026-01-01T00:00:00Z".into(),
        updated_at: "2026-01-01T00:00:00Z".into(),
    }
}

#[test]
fn source_only_seeds_the_batch_and_refuses_everything_else() {
    let source = vec![mock_atom("a1", "one", "first"), mock_atom("a2", "two", "second")];
    let mut ledger = seeded_ledger(&mock_report(CitationPolicy::SourceOnly), &source);
    let seeded = ledger.snapshot();
    assert_eq!(seeded.len(), 2);
    assert_eq!((seeded[0].number, seeded[0].source_id.as_str()), (1, "a1"));
    assert_eq!((seeded[1].number, seeded[1].source_id.as_str()), (2, "a2"));
    assert_eq!(
        ledger.register(CitationSource::Atom, "a-new", None, "context"),
        None,
        "search results are background only under source_only"
    );
}

#[test]
fn source_and_context_numbers_new_evidence_after_the_batch() {
    let source = vec![mock_atom("a1", "one", "first")];
    let mut ledger = seeded_ledger(&mock_report(CitationPolicy::SourceAndContext), &source);
    assert_eq!(ledger.register(CitationSource::Atom, "a-new", None, "context"), Some(2));
    assert_eq!(
        ledger.register(CitationSource::Atom, "a-new", None, "context"),
        Some(2),
        "a repeat hit reuses its number"
    );
    assert_eq!(ledger.register(CitationSource::Atom, "a-other", None, "context"), Some(3));
}

#[test]
fn passes_context_filter_excludes_listed_ids() {
    let atom = mock_atom("ex", "title", "body");
    let ctx = ContextFilter {
        tag_ids: vec![],
        time_window: None,
        kinds: KindFilter::All,
        excluded_atom_ids: vec!["ex".to_string()],
    };
    assert!(!passes_context_filter(&atom, &ctx));
}

#[test]
fn passes_context_filter_before_window() {
    let atom = mock_atom("a", "t", "b");
    let ctx = ContextFilter {
        tag_ids: vec![],
        time_window: Some(TimeWindow::Before("2026-04-10T00:00:00Z".into())),
        kinds: KindFilter::All,
        excluded_atom_ids: vec![],
    };
    assert!(!passes_context_filter(&atom, &ctx));
    let ctx_after = ContextFilter {
        time_window: Some(TimeWindow::Before("2026-04-12T00:00:00Z".into())),
        ..ctx
    };
    assert!(passes_context_filter(&atom, &ctx_after));
}

#[test]
fn context_filter_after_window_and_kinds() {
    let atom = mock_atom("a", "t", "b");
    let after = ContextFilter {
        tag_ids: vec![],
        time_window: Some(TimeWindow::After("2026-04-11T00:00:00Z".into())),
        kinds: KindFilter::All,
        excluded_atom_ids: vec![],
    };
    assert!(!passes_context_filter(&atom, &after), "equal timestamp is not after");
    let only_reports = ContextFilter {
        time_window: None,
        kinds: KindFilter::Only(vec![AtomKind::Report]),
        ..after.clone()
    };
    assert!(!passes_context_filter(&atom, &only_reports));
    let nothing = ContextFilter { kinds: KindFilter::Only(vec![]), ..only_reports.clone() };
    assert!(!passes_context_filter(&atom, &nothing));
    let captured = ContextFilter { kinds: KindFilter::Only(vec![AtomKind::Captured]), ..only_reports };
    assert!(passes_context_filter(&atom, &captured));
}

#[test]
fn truncation_respects_char_boundaries() {
    assert_eq!(truncate_on_char_boundary("hello", 5), "hello");
    assert_eq!(truncate_on_char_boundary("hello world", 5), "hello...");
    // 'é' is two bytes: it starts at byte 4 < 5, so it is kept whole.
    assert_eq!(truncate_on_char_boundary("abcdéfgh", 5), "abcdé...");
    assert_eq!(truncate_on_char_boundary("abc", 0), "...");
}

#[test]
fn snippet_flattens_and_trims() {
    let mut atom = mock_atom("a", "t", "  line one\nline two  ");
    assert_eq!(snippet_for(&atom), "line one line two");
    assert_eq!(excerpt_for(&atom), "line one\nline two");
    atom.atom.snippet = String::new();
    atom.atom.content = "content body".to_string();
    assert_eq!(snippet_for(&atom), "content body");
    let long = "x".repeat(250);
    atom.atom.snippet = long.clone();
    assert_eq!(snippet_for(&atom), format!("{}...", &long[..200]));
}

#[test]
fn user_prompt_lists_sources_and_policy() {
    let source = vec![mock_atom("a1", "one", "first"), mock_atom("a2", "", "second")];
    let prompt = build_user_prompt(&mock_report(CitationPolicy::SourceOnly), &source, 5);
    let expected = "RESEARCH PROMPT:\ninvestigate\n\n\
Cite source atoms with [N] inline markers using the bracketed numbers from the source list below.\n\n\
SOURCE ATOMS (2 of 5 in scope):\n\
(showing the newest within the configured cap; older atoms truncated)\n\n\
[1] one\n    first\n    (atom id: a1)\n\n\
[2] (untitled)\n    second\n    (atom id: a2)\n\n\
Citation policy: source_only — only the [N] above may be cited; search results are background only.\n";
    assert_eq!(prompt, expected);
    let empty = build_user_prompt(&mock_report(CitationPolicy::SourceAndContext), &[], 0);
    assert!(empty.ends_with("(no source atoms — this should be unreachable; the runner short-circuits empty scopes)\n"));
    assert!(empty.contains("semantic_search results as they are surfaced"));
}

#[test]
fn seeding_reuses_numbers_and_tool_helpers() {
    let mut ledger = CitationLedger::new(CitationAdmission::SeededOnly);
    assert_eq!(ledger.seed(CitationSource::Atom, "x", None, "e"), 1);
    assert_eq!(ledger.seed(CitationSource::Atom, "x", None, "e"), 1);
    assert_eq!(ledger.seed(CitationSource::WikiArticle, "x", Some("w"), "e"), 2);
    assert_eq!(ledger.register(CitationSource::WikiArticle, "x", None, "e"), Some(2));
    assert_eq!(ledger.len(), 2);
    let failed = failed_verbatim("Search error: boom".to_string());
    assert!(failed.failed);
    assert_eq!(failed.results_count, 0);
    let mut report = mock_report(CitationPolicy::SourceOnly);
    assert_eq!(max_iterations_for(&report), 20);
    report.max_tool_iterations = Some(0);
    assert_eq!(max_iterations_for(&report), 1);
    report.max_tool_iterations = Some(7);
    assert_eq!(max_iterations_for(&report), 7);
}

#[test]
fn repeated_source_atom_keeps_its_first_number() {
    let source = vec![
        mock_atom("a", "A", "first"),
        mock_atom("b", "B", "second"),
        mock_atom("a", "A", "again"),
        mock_atom("c", "C", "third"),
    ];
    let ledger = seeded_ledger(&mock_report(CitationPolicy::SourceOnly), &source);
    let seeded = ledger.snapshot();
    let ids: Vec<&str> = seeded.iter().map(|c| c.source_id.as_str()).collect();
    assert_eq!(ids, vec!["a", "b", "c"]);
    assert_eq!(seeded[2].number, 3);
}
