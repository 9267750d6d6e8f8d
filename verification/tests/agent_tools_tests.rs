use atomic_core::agent_tools::{
    citation_marker, display_title, read_atom_window, search_limits, select_search_hits, SearchHit,
};
use atomic_core::models::{Atom, AtomKind, AtomWithTags, KindFilter};
use atomic_core::reports::{CitationAdmission, CitationLedger, CitationSource, ContextFilter};

fn atom(id: &str) -> AtomWithTags {
    AtomWithTags {
        atom: Atom {
            id: id.to_string(),
            content: format!("content of {id}"),
            title: format!("Title {id}"),
            snippet: format!("content of {id}"),
            source_url: None,
            source: None,
            published_at: None,
            created_at: "2026-04-11T00:00:00Z".to_string(),
            updated_at: "2026-04-11T00:00:00Z".to_string(),
            embedding_status: "complete".to_string(),
            tagging_status: "complete".to_string(),
            embedding_error: None,
            tagging_error: None,
            kind: AtomKind::Captured,
        },
        tags: vec![],
    }
}

fn hit(id: &str) -> SearchHit {
    SearchHit { atom: atom(id), matching_chunk: format!("chunk {id}") }
}

fn open_ctx(excluded: &[&str]) -> ContextFilter {
    ContextFilter {
        tag_ids: vec![],
        time_window: None,
        kinds: KindFilter::All,
        excluded_atom_ids: excluded.iter().map(|s| s.to_string()).collect(),
    }
}

#[test]
fn read_window_shows_a_page_of_lines() {
    let content = "l1\nl2\r\nl3\nl4\n";
    let r = read_atom_window("Doc", content, Some(2), Some(1));
    assert!(!r.failed);
    assert_eq!(r.results_count, 1);
    assert_eq!(
        r.output,
        "# Doc\n(lines 2-3 of 4)\n\nl2\nl3\n\n(More content available. Call read_atom again with offset=3 to continue.)"
    );
}

#[test]
fn read_window_defaults_and_bounds() {
    let r = read_atom_window("", "only line", None, None);
    assert_eq!(r.output, "# (untitled)\n(lines 1-1 of 1)\n\nonly line");
    let r = read_atom_window("T", "a\nb", Some(0), Some(-5));
    assert_eq!(r.output, "# T\n(lines 1-1 of 2)\n\na\n\n(More content available. Call read_atom again with offset=1 to continue.)");
    let r = read_atom_window("T", "a\nb", None, Some(10));
    assert_eq!(r.output, "# T\n(lines 3-2 of 2)\n\n");
    let r = read_atom_window("T", "", None, None);
    assert_eq!(r.output, "# T\n(lines 1-0 of 0)\n\n");
}

#[test]
fn search_limits_clamp_and_over_fetch() {
    assert_eq!(search_limits("q", None).unwrap(), (5, 10));
    assert_eq!(search_limits("q", Some(2)).unwrap(), (2, 6));
    assert_eq!(search_limits("q", Some(0)).unwrap(), (1, 3));
    assert_eq!(search_limits("q", Some(99)).unwrap(), (10, 10));
    let failed = search_limits("", Some(3)).unwrap_err();
    assert!(failed.failed);
    assert_eq!(failed.output, "query is required");
}

#[test]
fn search_hits_are_filtered_numbered_and_capped() {
    let mut ledger = CitationLedger::new(CitationAdmission::Open);
    ledger.seed(CitationSource::Atom, "s1", None, "seeded");
    let hits = vec![hit("x1"), hit("s1"), hit("excluded"), hit("x2"), hit("x3")];
    let shown = select_search_hits(&hits, &open_ctx(&["excluded"]), &None, 3, &mut ledger);
    assert_eq!(shown, vec![(2, 0), (1, 1), (3, 3)]);
    assert_eq!(ledger.len(), 3);
}

#[test]
fn source_only_search_hits_are_background() {
    let mut ledger = CitationLedger::new(CitationAdmission::SeededOnly);
    ledger.seed(CitationSource::Atom, "s1", None, "seeded");
    let hits = vec![hit("x1"), hit("s1"), hit("out-of-scope")];
    let scope = Some(vec!["x1".to_string(), "s1".to_string()]);
    let shown = select_search_hits(&hits, &open_ctx(&[]), &scope, 5, &mut ledger);
    assert_eq!(shown, vec![(0, 0), (1, 1)]);
    assert_eq!(ledger.len(), 1);
    assert_eq!(citation_marker(0), "(context only, not citable)");
    assert_eq!(citation_marker(12), "[12] citable");
    assert_eq!(display_title(""), "(untitled)");
    assert_eq!(display_title("Named"), "Named");
}
