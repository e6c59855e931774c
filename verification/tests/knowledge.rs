use graphshell_registries::knowledge::{
    query_by_tag, reconcile_semantics, suggest_placement_anchor, tags_for_node, CompactCode, KnowledgeRegistry,
    SemanticWorkspace,
};
use graphshell_registries::model::NodeKey;
use graphshell_registries::runtime::{LifecycleSignal, RegistryEventSignal, RegistryRuntime};

#[test]
fn reconcile_updates_semantic_index_and_clears_dirty_flag() {
    let registry = KnowledgeRegistry::default();
    let mut ws = SemanticWorkspace::new();
    let key = NodeKey(1);
    ws.add_node(key);
    ws.insert_tag(key, "udc:51".to_string());
    ws.mark_index_dirty();

    let report = reconcile_semantics(&mut ws, &registry);

    assert!(report.changed);
    assert_eq!(report.indexed_nodes, 1);
    assert!(!ws.is_index_dirty());
    let index = ws.class_vector(key).unwrap();
    assert_eq!(index.primary_code, Some(CompactCode(vec![5, 1])));
    assert_eq!(index.classes, vec![CompactCode(vec![5, 1])]);

    let stale = NodeKey(999_999);
    ws.insert_tag(stale, "udc:7".to_string());
    ws.mark_index_dirty();
    let report = reconcile_semantics(&mut ws, &registry);
    assert_eq!(report.removed_stale_tags, 1);
    assert!(!ws.has_tags(stale));
}

#[test]
fn query_by_tag_and_tags_for_node_use_canonicalized_knowledge_tags() {
    let registry = KnowledgeRegistry::default();
    let mut ws = SemanticWorkspace::new();
    let a = NodeKey(1);
    let b = NodeKey(2);
    ws.add_node(a);
    ws.add_node(b);

    ws.insert_tag(a, "udc:51".to_string());
    ws.insert_tag(a, "udc:519.6".to_string());
    ws.insert_tag(b, "udc:78".to_string());

    let matches = query_by_tag(&ws, &registry, "51");
    assert_eq!(matches, vec![a]);

    let tags = tags_for_node(&ws, &a);
    assert_eq!(tags, vec!["udc:51".to_string(), "udc:519.6".to_string()]);
}

#[test]
fn suggest_placement_anchor_prefers_semantic_kin() {
    let registry = KnowledgeRegistry::default();
    let mut ws = SemanticWorkspace::new();
    let math = NodeKey(1);
    let numerical = NodeKey(2);
    let music = NodeKey(3);
    ws.add_node(math);
    ws.add_node(numerical);
    ws.add_node(music);

    ws.insert_tag(math, "udc:51".to_string());
    ws.insert_tag(numerical, "udc:519.6".to_string());
    ws.insert_tag(music, "udc:78".to_string());
    ws.mark_index_dirty();
    let _ = reconcile_semantics(&mut ws, &registry);

    assert_eq!(suggest_placement_anchor(&ws, &registry, numerical), Some(math));
}

#[test]
fn reconcile_twice_reports_no_change() {
    let registry = KnowledgeRegistry::default();
    let mut ws = SemanticWorkspace::new();
    ws.add_node(NodeKey(5));
    ws.insert_tag(NodeKey(5), "udc:3".to_string());
    let first = reconcile_semantics(&mut ws, &registry);
    assert!(first.changed);
    let second = reconcile_semantics(&mut ws, &registry);
    assert!(!second.changed);
    assert_eq!(second.removed_stale_tags, 0);
    assert_eq!(second.indexed_nodes, 1);
}

#[test]
fn tags_are_kept_as_sorted_sets_and_queries_come_back_in_key_order() {
    let registry = KnowledgeRegistry::default();
    let mut ws = SemanticWorkspace::new();
    ws.insert_tag(NodeKey(9), "udc:8".to_string());
    ws.insert_tag(NodeKey(2), "udc:8".to_string());
    ws.insert_tag(NodeKey(2), "udc:1".to_string());
    ws.insert_tag(NodeKey(2), "udc:8".to_string());
    assert_eq!(tags_for_node(&ws, &NodeKey(2)), vec!["udc:1".to_string(), "udc:8".to_string()]);
    assert_eq!(query_by_tag(&ws, &registry, " UDC:8 "), vec![NodeKey(2), NodeKey(9)]);
    assert!(query_by_tag(&ws, &registry, "music").is_empty());
    assert!(tags_for_node(&ws, &NodeKey(3)).is_empty());
}

#[test]
fn codes_parse_and_measure_distance() {
    let registry = KnowledgeRegistry::default();
    assert_eq!(registry.parse("udc:519.6"), Some(CompactCode(vec![5, 1, 9, 6])));
    assert_eq!(registry.parse("519.6"), None);
    assert_eq!(registry.parse("udc:"), None);
    assert_eq!(registry.parse("udc:5a"), None);
    assert_eq!(registry.canonicalize_tag("51"), Some("udc:51".to_string()));
    assert_eq!(registry.canonicalize_tag("music"), None);
    let a = CompactCode(vec![5, 1, 9, 6]);
    let b = CompactCode(vec![5, 1]);
    let c = CompactCode(vec![7, 8]);
    assert_eq!(registry.distance(&a, &b), 2);
    assert_eq!(registry.distance(&a, &c), 4);
    assert_eq!(registry.distance(&a, &a), 0);
}

#[test]
fn anchor_needs_an_indexed_source_and_breaks_ties_by_key() {
    let registry = KnowledgeRegistry::default();
    let mut ws = SemanticWorkspace::new();
    for k in [1u64, 2, 3] {
        ws.add_node(NodeKey(k));
    }
    ws.insert_tag(NodeKey(3), "udc:51".to_string());
    ws.insert_tag(NodeKey(2), "udc:52".to_string());
    ws.insert_tag(NodeKey(1), "udc:53".to_string());
    let _ = reconcile_semantics(&mut ws, &registry);
    assert_eq!(suggest_placement_anchor(&ws, &registry, NodeKey(3)), Some(NodeKey(1)));
    assert_eq!(suggest_placement_anchor(&ws, &registry, NodeKey(7)), None);
}

#[test]
fn runtime_reconcile_publishes_semantic_index_updates_only_on_change() {
    let mut runtime = RegistryRuntime::new();
    let mut ws = SemanticWorkspace::new();
    ws.add_node(NodeKey(3));
    ws.insert_tag(NodeKey(3), "udc:51".to_string());
    ws.mark_index_dirty();
    let report = runtime.reconcile_semantics(&mut ws);
    assert!(report.changed);
    assert_eq!(report.indexed_nodes, 1);
    assert_eq!(runtime.registry_events, vec![RegistryEventSignal::SemanticIndexUpdated { indexed_nodes: 1 }]);
    assert_eq!(runtime.lifecycle_signals, vec![LifecycleSignal::SemanticIndexUpdated { indexed_nodes: 1 }]);

    let again = runtime.reconcile_semantics(&mut ws);
    assert!(!again.changed);
    assert_eq!(runtime.registry_events.len(), 1);
    assert_eq!(runtime.query_knowledge_by_tag(&ws, "UDC:51"), vec![NodeKey(3)]);
    assert_eq!(runtime.knowledge_tags_for_node(&ws, &NodeKey(3)), vec!["udc:51".to_string()]);
    assert_eq!(runtime.suggest_semantic_placement_anchor(&ws, NodeKey(3)), None);
}

#[test]
fn second_reconcile_of_unchanged_workspace_changes_nothing() {
    let registry = KnowledgeRegistry::default();
    let mut ws = SemanticWorkspace::new();
    let (a, b, gone) = (NodeKey(1), NodeKey(2), NodeKey(40));
    ws.add_node(a);
    ws.add_node(b);
    ws.insert_tag(a, "udc:51".to_string());
    ws.insert_tag(b, "udc:78".to_string());
    ws.insert_tag(gone, "udc:7".to_string());

    let first = reconcile_semantics(&mut ws, &registry);
    assert!(first.changed);
    assert_eq!(first.removed_stale_tags, 1);
    assert_eq!(first.indexed_nodes, 2);
    let vector_a = ws.class_vector(a).map(|v| (v.classes, v.primary_code));

    ws.mark_index_dirty();
    let second = reconcile_semantics(&mut ws, &registry);
    assert!(!second.changed);
    assert_eq!(second.removed_stale_tags, 0);
    assert_eq!(second.indexed_nodes, first.indexed_nodes);
    assert!(!ws.is_index_dirty());
    assert_eq!(ws.class_vector(a).map(|v| (v.classes, v.primary_code)), vector_a);
}
