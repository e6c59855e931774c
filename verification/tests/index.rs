use graphshell_registries::index::{
    is_semantic_query, provider_display_name, provider_id, provider_sort_key, IndexRegistry, SearchProviderKind,
    INDEX_PROVIDER_HISTORY, INDEX_PROVIDER_KNOWLEDGE, INDEX_PROVIDER_LOCAL,
};

#[test]
fn clearing_optional_providers_keeps_the_local_provider() {
    let mut registry = IndexRegistry::default();
    assert!(registry.has_provider(INDEX_PROVIDER_LOCAL));
    assert!(registry.has_provider(INDEX_PROVIDER_HISTORY));
    assert!(registry.has_provider(INDEX_PROVIDER_KNOWLEDGE));
    registry.clear_optional_providers();
    assert!(registry.has_provider(INDEX_PROVIDER_LOCAL));
    assert!(!registry.has_provider(INDEX_PROVIDER_HISTORY));
    assert!(!registry.has_provider(INDEX_PROVIDER_KNOWLEDGE));
}

#[test]
fn providers_register_once_and_unregister_by_trimmed_lowercase_id() {
    let mut registry = IndexRegistry::new();
    assert!(registry.register_provider(SearchProviderKind::History).is_ok());
    assert_eq!(
        registry.register_provider(SearchProviderKind::History),
        Err("search provider already registered: index:history".to_string())
    );
    assert!(registry.unregister_provider("  INDEX:History "));
    assert!(!registry.has_provider(INDEX_PROVIDER_HISTORY));
    assert!(!registry.unregister_provider(INDEX_PROVIDER_HISTORY));
}

#[test]
fn provider_ids_names_and_rank_order() {
    assert_eq!(provider_id(SearchProviderKind::Local), INDEX_PROVIDER_LOCAL);
    assert_eq!(provider_display_name(SearchProviderKind::Local), "Local Graph");
    assert_eq!(provider_display_name(SearchProviderKind::History), "History");
    assert_eq!(provider_display_name(SearchProviderKind::Knowledge), "Knowledge");
    assert_eq!(provider_sort_key(INDEX_PROVIDER_LOCAL), 0);
    assert_eq!(provider_sort_key(INDEX_PROVIDER_HISTORY), 1);
    assert_eq!(provider_sort_key(INDEX_PROVIDER_KNOWLEDGE), 2);
    assert_eq!(provider_sort_key("index:other"), usize::MAX);
}

#[test]
fn semantic_queries_are_hashtags_udc_tags_or_digit_paths() {
    assert!(is_semantic_query("#rust"));
    assert!(is_semantic_query("udc:519.6"));
    assert!(is_semantic_query("519.6/7"));
    assert!(is_semantic_query(""));
    assert!(!is_semantic_query("example handle"));
}

#[test]
fn local_candidate_text_sorts_tags_after_title_and_url() {
    let tags = vec!["udc:78".to_string(), "#music".to_string(), "udc:51".to_string()];
    assert_eq!(
        graphshell_registries::index::local_candidate_text("Bach", "https://bach.example", &tags),
        "Bach https://bach.example #music udc:51 udc:78"
    );
    assert_eq!(graphshell_registries::index::local_candidate_text("T", "u", &vec![]), "T u ");
}

#[test]
fn local_result_title_falls_back_to_url_for_blank_titles() {
    assert_eq!(graphshell_registries::index::local_result_title("  ", "https://a.example"), "https://a.example");
    assert_eq!(graphshell_registries::index::local_result_title("Home", "https://a.example"), "Home");
}

#[test]
fn local_result_picks_take_the_limit_first_and_skip_missing_nodes() {
    check_picks();
}

fn check_picks() {
    let nodes = vec![
        graphshell_registries::model::NodeKey(10),
        graphshell_registries::model::NodeKey(20),
        graphshell_registries::model::NodeKey(30),
    ];
    let matched = vec![
        graphshell_registries::model::NodeKey(30),
        graphshell_registries::model::NodeKey(99),
        graphshell_registries::model::NodeKey(10),
        graphshell_registries::model::NodeKey(20),
    ];
    assert_eq!(graphshell_registries::index::local_result_picks(&nodes, &matched, 3), vec![(0, 2), (2, 0)]);
    assert_eq!(graphshell_registries::index::local_result_picks(&nodes, &matched, 10), vec![(0, 2), (2, 0), (3, 1)]);
    assert_eq!(graphshell_registries::index::local_result_picks(&nodes, &matched, 0), vec![]);
}
