use atomic_core::tag_tree::{
    any_related_tag, build_tag_cleanup_tags, hierarchy_relationship, is_structural_tag, normalize_tag_name, tag_is_ancestor_of,
    tags_are_hierarchically_related, RawTag, TagCleanupTag,
};

fn raw(id: &str, name: &str, parent: Option<&str>) -> RawTag {
    RawTag {
        id: id.to_string(),
        name: name.to_string(),
        parent_id: parent.map(|p| p.to_string()),
        atom_count: 1,
        child_count: 0,
        has_wiki: false,
        is_autotag_target: false,
    }
}

fn tree() -> Vec<RawTag> {
    vec![
        raw("topics", "Topics", None),
        raw("ai", "AI", Some("topics")),
        raw("ml", "Machine Learning", Some("ai")),
        raw("people", "People", None),
        raw("ada", "Ada Lovelace", Some("people")),
        raw("orphan", "Orphan", Some("missing-parent")),
    ]
}

fn find<'a>(tags: &'a [TagCleanupTag], id: &str) -> &'a TagCleanupTag {
    tags.iter().find(|t| t.id == id).unwrap()
}

#[test]
fn paths_run_from_the_root_to_the_tag() {
    let table = build_tag_cleanup_tags(tree());
    let tags = table.tags();
    assert_eq!(tags.len(), 6);
    assert_eq!(find(tags, "ml").path, vec!["Topics", "AI", "Machine Learning"]);
    assert_eq!(find(tags, "topics").path, vec!["Topics"]);
    assert_eq!(find(tags, "ada").path, vec!["People", "Ada Lovelace"]);
    // A parent that is not in the table contributes nothing to the path.
    assert_eq!(find(tags, "orphan").path, vec!["Orphan"]);
}

#[test]
fn ancestry_follows_parent_links() {
    let table = build_tag_cleanup_tags(tree());
    assert!(tag_is_ancestor_of("topics", "ml", &table));
    assert!(tag_is_ancestor_of("ai", "ml", &table));
    assert!(!tag_is_ancestor_of("ml", "topics", &table));
    assert!(!tag_is_ancestor_of("people", "ml", &table));
    assert!(!tag_is_ancestor_of("ml", "ml", &table));
    // The missing parent still counts as the orphan's ancestor.
    assert!(tag_is_ancestor_of("missing-parent", "orphan", &table));
    assert!(!tag_is_ancestor_of("topics", "unknown", &table));
}

#[test]
fn hierarchical_relation_is_symmetric() {
    let table = build_tag_cleanup_tags(tree());
    assert!(tags_are_hierarchically_related("ml", "topics", &table));
    assert!(tags_are_hierarchically_related("topics", "ml", &table));
    assert!(tags_are_hierarchically_related("ada", "ada", &table));
    assert!(!tags_are_hierarchically_related("ada", "ml", &table));
    assert!(!tags_are_hierarchically_related("ml", "ada", &table));
}

#[test]
fn relationship_names() {
    let table = build_tag_cleanup_tags(vec![
        raw("topics", "Topics", None),
        raw("people", "People", None),
        raw("a", "A", Some("topics")),
        raw("b", "B", Some("topics")),
        raw("c", "C", Some("people")),
        raw("d", "D", Some("a")),
    ]);
    let tags = table.tags();
    assert_eq!(hierarchy_relationship(find(tags, "a"), find(tags, "b")), "sibling");
    assert_eq!(hierarchy_relationship(find(tags, "a"), find(tags, "d")), "parent_child");
    assert_eq!(hierarchy_relationship(find(tags, "d"), find(tags, "a")), "parent_child");
    assert_eq!(hierarchy_relationship(find(tags, "a"), find(tags, "c")), "cross_category");
    assert_eq!(hierarchy_relationship(find(tags, "a"), find(tags, "topics")), "parent_child");
    assert_eq!(hierarchy_relationship(find(tags, "topics"), find(tags, "people")), "cross_category");
    assert_eq!(hierarchy_relationship(find(tags, "d"), find(tags, "b")), "unrelated");
}

#[test]
fn structural_tags_are_category_roots_and_autotag_targets() {
    let table = build_tag_cleanup_tags(vec![
        raw("topics", "Topics", None),
        raw("misc", "Misc", None),
        raw("nested-topics", "Topics", Some("misc")),
        RawTag { is_autotag_target: true, ..raw("auto", "Anything", None) },
    ]);
    let tags = table.tags();
    assert!(is_structural_tag(find(tags, "topics")));
    assert!(is_structural_tag(find(tags, "auto")));
    assert!(!is_structural_tag(find(tags, "misc")));
    assert!(!is_structural_tag(find(tags, "nested-topics")));
}

#[test]
fn tag_names_normalize_to_lowercase_words() {
    assert_eq!(normalize_tag_name("Machine-Learning"), "machine learning");
    assert_eq!(normalize_tag_name("  AI   &  ML!! "), "ai ml");
    assert_eq!(normalize_tag_name("Café au Lait"), "caf au lait");
    assert_eq!(normalize_tag_name("---"), "");
    assert_eq!(normalize_tag_name(""), "");
    assert_eq!(normalize_tag_name("web3.0"), "web3 0");
    let once = normalize_tag_name("Deep__Learning 101");
    assert_eq!(normalize_tag_name(&once), once);
}

#[test]
fn suggestion_related_to_a_current_tag_is_found() {
    let table = build_tag_cleanup_tags(tree());
    let current = vec!["ada".to_string(), "topics".to_string()];
    assert!(any_related_tag(&current, "ml", &table));
    assert!(!any_related_tag(&current[..1], "ml", &table));
    assert!(!any_related_tag(&[], "ml", &table));
    assert!(any_related_tag(&current[..1], "people", &table));
}
