use graphshell_registries::action::{
    ActionCapability, ActionContext, ActionDispatch, ActionPayload, RuntimeAction, ACTION_GRAPH_DESELECT_ALL,
    ACTION_WORKBENCH_OPEN_HISTORY_MANAGER, ACTION_WORKBENCH_SETTINGS_OPEN, ACTION_WORKBENCH_SETTINGS_OVERLAY_OPEN,
    ACTION_WORKBENCH_SETTINGS_PANE_OPEN,
};
use graphshell_registries::model::{GraphIntent, NodeKey, SearchResultKind, SettingsPath, ToolPaneState, WorkbenchIntent, settings_url};
use graphshell_registries::agent::AGENT_ID_TAG_SUGGESTER;
use graphshell_registries::identity::IDENTITY_ID_DEFAULT;
use graphshell_registries::profiles::{
    CANVAS_PROFILE_DEFAULT, GRAPH_LAYOUT_FORCE_DIRECTED, PHYSICS_PROFILE_DEFAULT, PHYSICS_PROFILE_SCATTER, PHYSICS_PROFILE_SETTLE,
};
use graphshell_registries::theme::{ThemeRegistry, THEME_ID_DARK, THEME_ID_DEFAULT, THEME_ID_LIGHT};
use graphshell_registries::protocol::ProtocolResolveControl;
use graphshell_registries::runtime::{
    describe_workflow, resolve_viewer_surface_profile, LifecycleSignal, MemoryPressureLevel, NavigationSignal, RegistryEventSignal,
    RegistryRuntime, VIEWER_SURFACE_DOCUMENT, VIEWER_SURFACE_WEB,
    WORKFLOW_HISTORY, WORKFLOW_READING, WORKFLOW_RESEARCH,
};
use graphshell_registries::index::{contains_substring, text_match, TextMatch};
use graphshell_registries::viewer::ViewerRegistry;
use graphshell_registries::workbench_surface::{WORKBENCH_PROFILE_COMPARE, WORKBENCH_PROFILE_FOCUS};

#[test]
fn viewer_registry_prefers_mime_then_extension_then_fallback() {
    let registry = ViewerRegistry::default();
    let by_mime = registry.select_for_uri("https://example.com/file.bin", Some("text/csv"));
    assert_eq!(by_mime.viewer_id, "viewer:csv");
    assert_eq!(by_mime.matched_by, "mime");

    let by_ext = registry.select_for_uri("https://example.com/readme.md", None);
    assert_eq!(by_ext.viewer_id, "viewer:markdown");
    assert_eq!(by_ext.matched_by, "extension");

    let fallback = registry.select_for_uri("https://example.com/archive.unknown", None);
    assert!(fallback.fallback_used);
    assert_eq!(fallback.viewer_id, "viewer:webview");

    let history = settings_url(SettingsPath::History);
    let internal = registry.select_for_uri(&history, None);
    assert_eq!(internal.viewer_id, "viewer:settings");
    assert_eq!(internal.matched_by, "internal");
}

#[test]
fn new_with_mods_applies_provider_wiring_to_runtime_viewer_dispatch() {
    let baseline = ViewerRegistry::default().select_for_uri("https://example.com/diagram.svg", Some("image/svg+xml"));
    let mut runtime = RegistryRuntime::new_with_mods();
    let (_, viewer) = runtime
        .observe_navigation_url_with_control(
            "https://example.com/diagram.svg",
            Some("image/svg+xml"),
            ProtocolResolveControl::default(),
        )
        .expect("default protocol resolve control should be active");

    assert!(baseline.fallback_used);
    assert_eq!(viewer.viewer_id, "viewer:webview");
    assert!(!viewer.fallback_used);
    assert_ne!(viewer.matched_by, "fallback");
}

#[test]
fn navigation_uses_the_inferred_hint_and_stops_when_cancelled() {
    let mut runtime = RegistryRuntime::new();
    let (protocol, viewer) = runtime
        .observe_navigation_url_with_control("data:text/csv,a,b", None, ProtocolResolveControl::default())
        .unwrap();
    assert!(protocol.supported);
    assert_eq!(viewer.viewer_id, "viewer:csv");
    assert_eq!(viewer.matched_by, "mime");
    assert!(runtime
        .observe_navigation_url_with_control("https://example.com", None, ProtocolResolveControl::cancelled())
        .is_none());
}

#[test]
fn unloading_the_verso_mod_restores_the_registries() {
    let mut runtime = RegistryRuntime::new_with_mods();
    assert!(runtime.dynamic.viewer.mime_viewer("text/html").is_some());
    let records = std::mem::take(&mut runtime.mod_records);
    for record in records.into_iter().rev() {
        runtime.dynamic.remove_extension(record).unwrap();
    }
    let fresh = RegistryRuntime::new();
    assert!(runtime.dynamic.viewer.mime_viewer("text/html").is_none());
    assert_eq!(runtime.dynamic.viewer.extension_viewer("md"), fresh.dynamic.viewer.extension_viewer("md"));
    assert!(runtime.dynamic.protocol.has_scheme("https"));
    let viewer = runtime.dynamic.viewer.select_for_uri("https://example.com/diagram.svg", Some("image/svg+xml"));
    assert!(viewer.fallback_used);
}

#[test]
fn phase3_viewer_surface_resolution_returns_web_profile_for_webview() {
    let resolution = resolve_viewer_surface_profile("viewer:webview");
    assert!(resolution.matched);
    assert!(!resolution.fallback_used);
    assert_eq!(resolution.resolved_id, VIEWER_SURFACE_WEB);
}

#[test]
fn phase3_viewer_surface_resolution_returns_document_profile_for_markdown() {
    let resolution = resolve_viewer_surface_profile("viewer:markdown");
    assert!(resolution.matched);
    assert!(!resolution.fallback_used);
    assert_eq!(resolution.resolved_id, VIEWER_SURFACE_DOCUMENT);
}

#[test]
fn phase3_physics_profile_switches_and_falls_back() {
    let mut runtime = RegistryRuntime::new();
    let scatter = runtime.physics.set_active_profile(PHYSICS_PROFILE_SCATTER);
    assert!(scatter.matched);
    assert_eq!(scatter.resolved_id, PHYSICS_PROFILE_SCATTER);

    let fallback = runtime.physics.set_active_profile("physics:missing");
    assert!(fallback.fallback_used);
    assert_eq!(fallback.resolved_id, PHYSICS_PROFILE_DEFAULT);
}

#[test]
fn phase3_workflow_describes_stub_and_activates_runtime_defaults() {
    let capability = describe_workflow(Some(WORKFLOW_HISTORY));
    assert_eq!(capability.display_name, "History");
    assert!(!capability.implemented);

    let mut runtime = RegistryRuntime::new();
    let activation = runtime.activate_workflow(WORKFLOW_READING).expect("workflow activation should succeed");

    assert_eq!(activation.workflow_id, WORKFLOW_READING);
    assert_eq!(runtime.workbench_surface.active_profile().resolved_id, WORKBENCH_PROFILE_FOCUS);
    assert_eq!(runtime.default_physics_id.as_deref(), Some("physics:settle"));
}

#[test]
fn phase3_apply_runtime_action_dispatch_activates_workflow() {
    let mut runtime = RegistryRuntime::new();
    let dispatch = ActionDispatch {
        intents: Vec::new(),
        workbench_intents: Vec::new(),
        app_commands: Vec::new(),
        runtime_actions: vec![RuntimeAction::ActivateWorkflow { workflow_id: WORKFLOW_RESEARCH.to_string() }],
    };

    let applied = runtime.apply_runtime_action_dispatch(dispatch).expect("dispatch applies");

    assert_eq!(applied.runtime_actions.len(), 1);
    assert_eq!(runtime.workbench_surface.active_profile().resolved_id, WORKBENCH_PROFILE_COMPARE);
    assert_eq!(runtime.default_physics_id.as_deref(), Some("physics:scatter"));
}

#[test]
fn activating_a_stub_workflow_is_rejected() {
    let mut runtime = RegistryRuntime::new();
    let dispatch = ActionDispatch {
        intents: Vec::new(),
        workbench_intents: Vec::new(),
        app_commands: Vec::new(),
        runtime_actions: vec![RuntimeAction::ActivateWorkflow { workflow_id: WORKFLOW_HISTORY.to_string() }],
    };
    let failure = runtime.apply_runtime_action_dispatch(dispatch).unwrap_err();
    assert_eq!(failure.reason, "workflow 'workflow:history' is not implemented");
}

#[test]
fn phase3_apply_runtime_action_dispatch_publishes_settings_route_signal() {
    let mut runtime = RegistryRuntime::new();
    let persistence = settings_url(SettingsPath::Persistence);
    let dispatch = ActionDispatch {
        intents: Vec::new(),
        workbench_intents: Vec::new(),
        app_commands: Vec::new(),
        runtime_actions: vec![RuntimeAction::PublishSettingsRouteRequested { url: persistence.clone(), prefer_overlay: true }],
    };

    let applied = runtime.apply_runtime_action_dispatch(dispatch).expect("dispatch applies");

    assert_eq!(applied.runtime_actions.len(), 1);
    assert!(runtime.settings_routes.iter().any(|route| route == &persistence));
}

#[test]
fn phase3_execute_registry_action_enqueues_workbench_intent() {
    let mut runtime = RegistryRuntime::new();
    let ctx = ActionContext::new();

    let intents = runtime
        .execute_registry_action(ACTION_WORKBENCH_OPEN_HISTORY_MANAGER, &ctx, ActionPayload::WorkbenchOpenHistoryManager)
        .expect("history manager action should execute");

    assert!(intents.is_empty());
    assert!(matches!(
        runtime.take_pending_workbench_intents().as_slice(),
        [WorkbenchIntent::OpenToolPane { kind: ToolPaneState::HistoryManager }]
    ));
}

#[test]
fn detail_view_submit_splits_mutations_from_runtime_events() {
    let runtime = RegistryRuntime::new();
    let ctx = ActionContext::new();
    let focused = runtime.execute_detail_view_submit(&ctx, "https://example.com/next", Some(NodeKey(4)));
    assert!(!focused.open_selected_tile);
    assert!(matches!(focused.mutations.as_slice(), [GraphIntent::SetNodeUrl { key, new_url }]
        if *key == NodeKey(4) && new_url == "https://example.com/next"));
    assert!(matches!(focused.runtime_events.as_slice(), [GraphIntent::PromoteNodeToActive { key, .. }] if *key == NodeKey(4)));

    let fresh = runtime.execute_detail_view_submit(&ctx, "https://example.com/new", None);
    assert!(fresh.open_selected_tile);
    assert!(matches!(fresh.mutations.as_slice(), [GraphIntent::CreateNodeAtUrl { url, near: None }] if url == "https://example.com/new"));

    let empty = runtime.execute_detail_view_submit(&ctx, "  ", None);
    assert!(empty.mutations.is_empty() && empty.runtime_events.is_empty() && !empty.open_selected_tile);
}

#[test]
fn registry_runtime_describes_action_capabilities() {
    let runtime = RegistryRuntime::new();
    assert_eq!(runtime.describe_action(ACTION_GRAPH_DESELECT_ALL), Some(ActionCapability::RequiresSelection));
    assert_eq!(runtime.describe_action(ACTION_WORKBENCH_SETTINGS_OPEN), Some(ActionCapability::AlwaysAvailable));
    assert_eq!(runtime.describe_action(ACTION_WORKBENCH_SETTINGS_PANE_OPEN), Some(ActionCapability::AlwaysAvailable));
    assert_eq!(runtime.describe_action(ACTION_WORKBENCH_SETTINGS_OVERLAY_OPEN), Some(ActionCapability::AlwaysAvailable));
    assert_eq!(runtime.describe_action("action:missing"), None);
}

#[test]
fn set_active_physics_profile_routes_registry_event_signal() {
    let mut runtime = RegistryRuntime::new();
    let resolution = runtime.set_active_physics_profile(PHYSICS_PROFILE_SETTLE);
    assert_eq!(resolution.resolved_id, PHYSICS_PROFILE_SETTLE);
    assert!(runtime.registry_events.iter().any(|signal| matches!(
        signal,
        RegistryEventSignal::PhysicsProfileChanged { new_profile_id } if new_profile_id == PHYSICS_PROFILE_SETTLE
    )));
}

#[test]
fn registry_events_are_kept_in_publication_order() {
    let mut runtime = RegistryRuntime::new();
    runtime.set_active_physics_profile("physics:missing");
    runtime.set_active_theme(THEME_ID_DARK);
    runtime.route_mod_lifecycle_event("mod:verso", false);
    runtime.route_agent_spawned("agent:tag_suggester");
    assert_eq!(
        runtime.registry_events,
        vec![
            RegistryEventSignal::PhysicsProfileChanged { new_profile_id: PHYSICS_PROFILE_DEFAULT.to_string() },
            RegistryEventSignal::ThemeChanged { new_theme_id: THEME_ID_DARK.to_string() },
            RegistryEventSignal::ModUnloaded { mod_id: "mod:verso".to_string() },
            RegistryEventSignal::AgentSpawned { agent_id: "agent:tag_suggester".to_string() },
        ]
    );
}

#[test]
fn system_theme_preference_applies_only_when_followed() {
    let mut runtime = RegistryRuntime::new();
    assert!(runtime.apply_system_theme_preference(true).is_none());
    assert!(runtime.registry_events.is_empty());
    runtime.set_theme_follows_system(true);
    let dark = runtime.apply_system_theme_preference(true).expect("followed preference applies");
    assert!(dark.matched);
    assert_eq!(dark.resolved_id, THEME_ID_DARK);
    let light = runtime.apply_system_theme_preference(false).expect("followed preference applies");
    assert_eq!(light.resolved_id, THEME_ID_LIGHT);
    assert_eq!(runtime.resolve_active_theme(None).resolved_id, THEME_ID_LIGHT);
}

#[test]
fn theme_registry_resolves_builtin_themes_and_fallbacks() {
    let registry = ThemeRegistry::default();
    let dark = registry.resolve_theme(Some(THEME_ID_DARK));
    assert!(dark.matched);
    assert_eq!(dark.resolved_id, THEME_ID_DARK);

    let fallback = registry.resolve_theme(Some("theme:missing"));
    assert!(fallback.fallback_used);
    assert_eq!(fallback.resolved_id, THEME_ID_DEFAULT);
}

#[test]
fn runtime_describes_themes_and_workbench_surfaces() {
    let mut runtime = RegistryRuntime::new();
    let described = runtime.describe_theme(Some(" Theme:Dark "));
    assert!(described.matched);
    assert_eq!(described.resolved_id, THEME_ID_DARK);
    let switched = runtime.set_active_workbench_surface_profile(WORKBENCH_PROFILE_COMPARE);
    assert!(switched.matched);
    assert_eq!(runtime.resolve_active_workbench_surface_profile().resolved_id, WORKBENCH_PROFILE_COMPARE);
    assert_eq!(
        runtime.registry_events.last(),
        Some(&RegistryEventSignal::WorkbenchSurfaceChanged { new_profile_id: WORKBENCH_PROFILE_COMPARE.to_string() })
    );
}

#[test]
fn text_match_grades_exact_prefix_and_inner_matches() {
    assert_eq!(text_match("alpha", "alpha"), Some(TextMatch::Exact));
    assert_eq!(text_match("alp", "alpha history"), Some(TextMatch::Prefix));
    assert_eq!(text_match("history", "alpha history"), Some(TextMatch::Contains));
    assert_eq!(text_match("beta", "alpha history"), None);
    assert_eq!(text_match("", "alpha"), None);
    assert!(contains_substring("graph shell", "h s"));
    assert!(!contains_substring("gra", "graph"));
}

#[test]
fn publish_navigation_mime_resolved_routes_navigation_signal() {
    let mut runtime = RegistryRuntime::new();
    runtime.publish_navigation_mime_resolved(NodeKey(17), "https://example.com/data.csv", Some("text/csv"));
    assert!(runtime.navigation_signals.iter().any(|signal| matches!(
        signal,
        NavigationSignal::MimeResolved { key, mime_hint, viewer_id, .. }
            if *key == NodeKey(17) && mime_hint.as_deref() == Some("text/csv") && viewer_id == "viewer:csv"
    )));
}

#[test]
fn publish_navigation_mime_resolved_routes_lifecycle_signal() {
    let mut runtime = RegistryRuntime::new();
    runtime.publish_navigation_mime_resolved(NodeKey(23), "https://example.com/data.csv", Some("text/csv"));
    assert!(runtime.lifecycle_signals.iter().any(|signal| matches!(
        signal,
        LifecycleSignal::MimeResolved { node_key, mime } if *node_key == NodeKey(23) && mime == "text/csv"
    )));
}

#[test]
fn navigation_without_mime_hint_publishes_no_lifecycle_signal() {
    let mut runtime = RegistryRuntime::new();
    runtime.publish_navigation_mime_resolved(NodeKey(5), "https://example.com/readme.md", None);
    assert!(runtime.lifecycle_signals.is_empty());
    assert_eq!(
        runtime.navigation_signals,
        vec![NavigationSignal::MimeResolved {
            key: NodeKey(5),
            uri: "https://example.com/readme.md".to_string(),
            mime_hint: None,
            viewer_id: "viewer:markdown".to_string(),
        }]
    );
    runtime.publish_navigation_node_activated(NodeKey(5), "https://example.com/readme.md", "Readme");
    assert_eq!(runtime.navigation_signals.len(), 2);
}

#[test]
fn phase3_subsystem_health_memory_pressure_routes_through_lifecycle_signals() {
    let mut runtime = RegistryRuntime::new();
    runtime.propagate_subsystem_health_memory_pressure(MemoryPressureLevel::Warning, 512, 4096);
    let seen_warning = runtime
        .lifecycle_signals
        .iter()
        .filter(|signal| matches!(
            signal,
            LifecycleSignal::MemoryPressureChanged { level, available_mib, total_mib }
                if level == "warning" && *available_mib == 512 && *total_mib == 4096
        ))
        .count();
    assert_eq!(seen_warning, 1);
}

#[test]
fn idle_and_resume_publish_lifecycle_signals_in_order() {
    let mut runtime = RegistryRuntime::new();
    runtime.propagate_user_idle_signal(30_000);
    runtime.propagate_user_resumed_signal();
    runtime.publish_workbench_projection_refresh_requested("tiles changed");
    assert_eq!(runtime.lifecycle_signals, vec![LifecycleSignal::UserIdle { since_ms: 30_000 }, LifecycleSignal::UserResumed]);
    assert_eq!(
        runtime.registry_events,
        vec![RegistryEventSignal::WorkbenchProjectionRefreshRequested { reason: "tiles changed".to_string() }]
    );
}

#[test]
fn phase2_action_registry_omnibox_search_selects_node() {
    let runtime = RegistryRuntime::new();
    let key = NodeKey(11);
    let mut ctx = ActionContext::new();
    ctx.omnibox_results = vec![SearchResultKind::Node(key)];
    let intents = runtime.execute_omnibox_node_search(&ctx, "example handle");
    assert_eq!(intents.len(), 1);
    assert!(matches!(intents.first(), Some(GraphIntent::SelectNode { key: selected, .. }) if *selected == key));

    let nothing = runtime.execute_omnibox_node_search(&ActionContext::new(), "example handle");
    assert!(nothing.is_empty());
}

#[test]
fn phase2_action_registry_graph_submit_updates_selected_node() {
    let runtime = RegistryRuntime::new();
    let key = NodeKey(12);
    let mut ctx = ActionContext::new();
    ctx.selection = vec![key];
    ctx.primary = Some(key);
    let result = runtime.execute_graph_view_submit(&ctx, "https://next.com");
    assert!(result.open_selected_tile);
    assert!(matches!(
        result.mutations.first(),
        Some(GraphIntent::SetNodeUrl { key: selected, new_url }) if *selected == key && new_url == "https://next.com"
    ));
}

#[test]
fn phase2_action_registry_detail_submit_updates_focused_node() {
    let runtime = RegistryRuntime::new();
    let key = NodeKey(13);
    let result = runtime.execute_detail_view_submit(&ActionContext::new(), "https://detail-next.com", Some(key));
    assert!(!result.open_selected_tile);
    assert!(matches!(
        result.mutations.first(),
        Some(GraphIntent::SetNodeUrl { key: selected, new_url }) if *selected == key && new_url == "https://detail-next.com"
    ));
    assert!(matches!(
        result.runtime_events.first(),
        Some(GraphIntent::PromoteNodeToActive { key: selected, .. }) if *selected == key
    ));
}

#[test]
fn runtime_forwards_profile_layout_and_identity_queries() {
    let mut runtime = RegistryRuntime::new();
    assert_eq!(runtime.resolve_active_physics_profile().resolved_id, PHYSICS_PROFILE_DEFAULT);
    assert_eq!(runtime.resolve_active_canvas_profile().resolved_id, CANVAS_PROFILE_DEFAULT);
    let canvas = runtime.set_active_canvas_profile("canvas:missing");
    assert!(canvas.fallback_used);
    assert_eq!(canvas.resolved_id, CANVAS_PROFILE_DEFAULT);
    assert_eq!(
        runtime.registry_events.last(),
        Some(&RegistryEventSignal::CanvasProfileChanged { new_profile_id: CANVAS_PROFILE_DEFAULT.to_string() })
    );

    let surface = runtime.describe_workbench_surface(Some(WORKBENCH_PROFILE_FOCUS));
    assert!(surface.matched);
    assert_eq!(surface.resolved_id, WORKBENCH_PROFILE_FOCUS);

    let layout = runtime.resolve_layout_algorithm(None);
    assert_eq!(layout.resolved_id, GRAPH_LAYOUT_FORCE_DIRECTED);
    let described = runtime.describe_layout_algorithm(Some("graph_layout:missing"));
    assert_eq!(described.algorithm_id, GRAPH_LAYOUT_FORCE_DIRECTED);

    let signature = runtime.sign_identity_payload(IDENTITY_ID_DEFAULT, b"payload").expect("default persona signs");
    assert!(runtime.verify_identity_payload(IDENTITY_ID_DEFAULT, b"payload", &signature));
    assert!(!runtime.verify_identity_payload(IDENTITY_ID_DEFAULT, b"other", &signature));

    assert_eq!(runtime.instantiate_agent(" Agent:Tag_Suggester "), Some(AGENT_ID_TAG_SUGGESTER.to_string()));
    assert_eq!(runtime.instantiate_agent("agent:missing"), None);
}

#[test]
fn runtime_execute_action_reports_unknown_and_counts_intents() {
    let runtime = RegistryRuntime::new();
    let unknown = runtime.execute_action("graph:missing", &ActionContext::new(), ActionPayload::GraphViewSubmit { input: "x".to_string() });
    assert!(!unknown.succeeded());
    assert_eq!(unknown.intent_len(), 0);
    let mut ctx = ActionContext::new();
    ctx.selection = vec![NodeKey(1)];
    ctx.primary = Some(NodeKey(1));
    let submitted = runtime.execute_action(
        "graph:view_submit",
        &ctx,
        ActionPayload::GraphViewSubmit { input: "https://next.example".to_string() },
    );
    assert!(submitted.succeeded());
    assert_eq!(submitted.intent_len(), 1);
}

#[test]
fn runtime_actions_apply_in_order_and_stop_at_a_refused_workflow() {
    let mut runtime = RegistryRuntime::new();
    let dispatch = ActionDispatch {
        intents: Vec::new(),
        workbench_intents: Vec::new(),
        app_commands: Vec::new(),
        runtime_actions: vec![
            RuntimeAction::PublishSettingsRouteRequested { url: "verso://settings/general".to_string(), prefer_overlay: true },
            RuntimeAction::ActivateWorkflow { workflow_id: WORKFLOW_READING.to_string() },
            RuntimeAction::ActivateWorkflow { workflow_id: WORKFLOW_HISTORY.to_string() },
            RuntimeAction::PublishSettingsRouteRequested { url: "verso://settings/history".to_string(), prefer_overlay: false },
        ],
    };
    let result = runtime.apply_runtime_action_dispatch(dispatch);
    assert!(matches!(result, Err(f) if f.reason == "workflow 'workflow:history' is not implemented"));
    assert_eq!(runtime.settings_routes, vec!["verso://settings/general".to_string()]);
    assert_eq!(runtime.default_physics_id.as_deref(), Some(PHYSICS_PROFILE_SETTLE));
    assert_eq!(runtime.resolve_active_physics_profile().resolved_id, PHYSICS_PROFILE_DEFAULT);
}

#[test]
fn resolved_navigation_publishes_one_navigation_signal() {
    let mut runtime = RegistryRuntime::new();
    let resolved = runtime.observe_navigation_url_with_control("https://example.com", None, ProtocolResolveControl::default());
    assert!(resolved.is_some());
    assert_eq!(
        runtime.navigation_signals,
        vec![NavigationSignal::Resolved { uri: "https://example.com".to_string(), viewer_id: "viewer:webview".to_string() }]
    );
    assert!(runtime
        .observe_navigation_url_with_control("https://example.com", None, ProtocolResolveControl::cancelled())
        .is_none());
    assert_eq!(runtime.navigation_signals.len(), 1);
}

#[test]
fn phase3_workflow_activation_routes_through_lifecycle_signal_observers() {
    let mut runtime = RegistryRuntime::new();
    let activation = runtime.activate_workflow(WORKFLOW_RESEARCH).expect("workflow activation should succeed");
    assert_eq!(activation.workflow_id, WORKFLOW_RESEARCH);
    let seen = runtime
        .lifecycle_signals
        .iter()
        .filter(|signal| matches!(signal, LifecycleSignal::WorkflowActivated { workflow_id } if workflow_id == WORKFLOW_RESEARCH))
        .count();
    assert_eq!(seen, 1);
    assert_eq!(runtime.resolve_active_workbench_surface_profile().resolved_id, WORKBENCH_PROFILE_COMPARE);
    assert!(runtime
        .registry_events
        .contains(&RegistryEventSignal::WorkflowChanged { new_workflow_id: WORKFLOW_RESEARCH.to_string() }));
}
