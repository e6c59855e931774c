use graphshell_registries::action::{
    ActionCapability, ActionContext, ActionFailure, ActionFailureKind, ActionOutcome, ActionPayload, PairingMode,
    RuntimeAction, ACTION_GRAPH_DESELECT_ALL, ACTION_GRAPH_NAVIGATE_BACK, ACTION_GRAPH_NAVIGATE_FORWARD,
    ACTION_GRAPH_NODE_COPY_URL, ACTION_GRAPH_SET_PHYSICS_PROFILE, ACTION_OMNIBOX_NODE_SEARCH, ACTION_GRAPH_VIEW_SUBMIT,
    ACTION_DETAIL_VIEW_SUBMIT, ACTION_GRAPH_NODE_OPEN, ACTION_GRAPH_NODE_NEW, ACTION_GRAPH_EDGE_CREATE,
    ACTION_VERSE_PAIR_DEVICE, ACTION_VERSE_SHARE_WORKSPACE, ACTION_WORKBENCH_CLOSE_PANE,
    ACTION_WORKBENCH_COMMAND_PALETTE_OPEN, ACTION_WORKBENCH_RESTORE_GRAPH, ACTION_WORKBENCH_RESTORE_SESSION,
    ACTION_WORKBENCH_SAVE_SNAPSHOT, ACTION_WORKBENCH_SETTINGS_OPEN, ACTION_WORKBENCH_SETTINGS_OVERLAY_OPEN,
    ACTION_WORKBENCH_SETTINGS_PANE_OPEN, ACTION_WORKBENCH_SPLIT_HORIZONTAL, ACTION_WORKBENCH_SPLIT_VERTICAL,
    ACTION_WORKBENCH_UNDO, ACTION_WORKBENCH_OPEN_PERSISTENCE_HUB, ACTION_WORKBENCH_OPEN_HISTORY_MANAGER,
    ACTION_WORKBENCH_ACTIVATE_WORKFLOW,
};
use graphshell_registries::action_registry::{is_namespaced_action_id, ActionRegistry};
use graphshell_registries::model::{
    AppCommand, GraphIntent, NodeKey, PaneId, SelectionUpdateMode, SettingsPath, SplitDirection, ToolPaneState,
    WorkbenchIntent, settings_url,
};
use graphshell_registries::profiles::PHYSICS_PROFILE_SCATTER;

#[test]
fn action_registry_returns_failed_outcome_for_unknown_action_id() {
    let ctx = ActionContext::new();
    let registry = ActionRegistry::default();
    let execution = registry.execute(
        "unknown:action",
        &ctx,
        ActionPayload::OmniboxNodeSearch { query: "payload".to_string() },
    );

    assert!(matches!(
        execution,
        ActionOutcome::Failure(ActionFailure { kind: ActionFailureKind::UnknownAction, .. })
    ));
}

#[test]
fn action_registry_pair_local_peer_emits_trust_peer_intent() {
    let peer_id = "5f0e6cbb6d1c4f5ea8c5d1b7c2e4a9f03b6d8e1f2a4c6e8091a3b5c7d9e1f203".to_string();
    let mut ctx = ActionContext::new();
    ctx.peer_resolution = Ok(peer_id.clone());
    let registry = ActionRegistry::default();

    let execution = registry.execute(
        ACTION_VERSE_PAIR_DEVICE,
        &ctx,
        ActionPayload::VersePairDevice { mode: PairingMode::LocalPeer { node_id: peer_id.clone() } },
    );

    let intents = execution.into_intents();
    assert!(matches!(
        intents.first(),
        Some(GraphIntent::TrustPeer { peer_id: emitted, .. }) if emitted == &peer_id
    ));
}

#[test]
fn action_registry_share_workspace_emits_grant_access_intents_for_trusted_peers() {
    let ctx = ActionContext::new();
    let registry = ActionRegistry::default();

    let execution = registry.execute(
        ACTION_VERSE_SHARE_WORKSPACE,
        &ctx,
        ActionPayload::VerseShareWorkspace { workspace_id: "workspace:test".to_string() },
    );

    match execution {
        ActionOutcome::Dispatch(dispatch) => {
            let intents = dispatch.intents;
            assert!(!intents.is_empty());
            assert!(intents.iter().all(|intent| {
                matches!(
                    intent,
                    GraphIntent::GrantWorkspaceAccess { workspace_id, .. } if workspace_id == "workspace:test"
                )
            }));
        }
        ActionOutcome::Failure(ActionFailure { kind, reason }) => {
            assert_eq!(kind, ActionFailureKind::Rejected);
            assert!(reason.contains("no trusted peers"));
        }
    }
}

#[test]
fn share_workspace_grants_access_to_each_trusted_peer_in_order() {
    let mut ctx = ActionContext::new();
    ctx.trusted_peers = vec!["peer-a".to_string(), "peer-b".to_string()];
    let registry = ActionRegistry::default();
    let execution = registry.execute(
        ACTION_VERSE_SHARE_WORKSPACE,
        &ctx,
        ActionPayload::VerseShareWorkspace { workspace_id: "workspace:test".to_string() },
    );
    let intents = execution.into_intents();
    assert_eq!(intents.len(), 2);
    assert!(matches!(&intents[0], GraphIntent::GrantWorkspaceAccess { peer_id, workspace_id }
        if peer_id == "peer-a" && workspace_id == "workspace:test"));
    assert!(matches!(&intents[1], GraphIntent::GrantWorkspaceAccess { peer_id, .. } if peer_id == "peer-b"));
}

#[test]
fn action_registry_graph_set_physics_profile_emits_reducer_intent() {
    let ctx = ActionContext::new();
    let registry = ActionRegistry::default();

    let execution = registry.execute(
        ACTION_GRAPH_SET_PHYSICS_PROFILE,
        &ctx,
        ActionPayload::GraphSetPhysicsProfile { profile_id: PHYSICS_PROFILE_SCATTER.to_string() },
    );

    assert!(matches!(
        execution.into_intents().first(),
        Some(GraphIntent::SetPhysicsProfile { profile_id }) if profile_id == PHYSICS_PROFILE_SCATTER
    ));
}

#[test]
fn action_registry_graph_navigate_handlers_emit_traversal_intents() {
    let ctx = ActionContext::new();
    let registry = ActionRegistry::default();

    let back = registry.execute(ACTION_GRAPH_NAVIGATE_BACK, &ctx, ActionPayload::GraphNavigateBack);
    assert!(matches!(back.into_intents().first(), Some(GraphIntent::TraverseBack)));

    let forward = registry.execute(ACTION_GRAPH_NAVIGATE_FORWARD, &ctx, ActionPayload::GraphNavigateForward);
    assert!(matches!(forward.into_intents().first(), Some(GraphIntent::TraverseForward)));
}

#[test]
fn action_registry_workbench_split_horizontal_emits_workbench_intent() {
    let ctx = ActionContext::new();
    let registry = ActionRegistry::default();
    let pane_id = PaneId(7);

    let execution = registry.execute(
        ACTION_WORKBENCH_SPLIT_HORIZONTAL,
        &ctx,
        ActionPayload::WorkbenchSplitHorizontal { pane_id },
    );

    assert!(matches!(
        execution.into_workbench_intent(),
        Some(WorkbenchIntent::SplitPane { source_pane, direction: SplitDirection::Horizontal }) if source_pane == pane_id
    ));
}

#[test]
fn action_registry_workbench_close_and_open_actions_emit_workbench_authority_intents() {
    let ctx = ActionContext::new();
    let registry = ActionRegistry::default();
    let pane_id = PaneId(9);

    let close = registry.execute(ACTION_WORKBENCH_CLOSE_PANE, &ctx, ActionPayload::WorkbenchClosePane { pane_id });
    assert!(matches!(
        close.into_workbench_intent(),
        Some(WorkbenchIntent::ClosePane { pane, restore_previous_focus: true }) if pane == pane_id
    ));

    let command_palette =
        registry.execute(ACTION_WORKBENCH_COMMAND_PALETTE_OPEN, &ctx, ActionPayload::WorkbenchCommandPaletteOpen);
    assert!(matches!(command_palette.into_workbench_intent(), Some(WorkbenchIntent::OpenCommandPalette)));

    let settings = registry.execute(ACTION_WORKBENCH_SETTINGS_PANE_OPEN, &ctx, ActionPayload::WorkbenchSettingsPaneOpen);
    assert!(matches!(
        settings.into_workbench_intent(),
        Some(WorkbenchIntent::OpenToolPane { kind: ToolPaneState::Settings })
    ));

    let settings_overlay =
        registry.execute(ACTION_WORKBENCH_SETTINGS_OVERLAY_OPEN, &ctx, ActionPayload::WorkbenchSettingsOverlayOpen);
    let general = settings_url(SettingsPath::General);
    assert!(matches!(
        settings_overlay.into_runtime_actions().as_slice(),
        [RuntimeAction::PublishSettingsRouteRequested { url, prefer_overlay }] if url == &general && *prefer_overlay
    ));
    assert_eq!(general, "verso://settings/general");

    let settings_legacy = registry.execute(ACTION_WORKBENCH_SETTINGS_OPEN, &ctx, ActionPayload::WorkbenchSettingsOpen);
    assert!(matches!(
        settings_legacy.into_workbench_intent(),
        Some(WorkbenchIntent::OpenToolPane { kind: ToolPaneState::Settings })
    ));
}

#[test]
fn workbench_move_and_detach_follow_the_selected_node() {
    let mut ctx = ActionContext::new();
    let key = NodeKey(4);
    ctx.selection = vec![key];
    ctx.primary = Some(key);
    let registry = ActionRegistry::default();
    let pane_id = PaneId(3);

    let detach = registry.execute(
        graphshell_registries::action::ACTION_WORKBENCH_DETACH_TO_SPLIT,
        &ctx,
        ActionPayload::WorkbenchDetachToSplit,
    );
    assert!(matches!(
        detach.into_workbench_intent(),
        Some(WorkbenchIntent::DetachNodeToSplit { key: detached }) if detached == key
    ));

    let move_to_pane = registry.execute(
        graphshell_registries::action::ACTION_WORKBENCH_MOVE_NODE_TO_PANE,
        &ctx,
        ActionPayload::WorkbenchMoveNodeToPane { pane_id },
    );
    assert!(matches!(
        move_to_pane.into_workbench_intent(),
        Some(WorkbenchIntent::OpenNodeInPane { node, pane }) if node == key && pane == pane_id
    ));

    let hub = registry.execute(ACTION_WORKBENCH_OPEN_PERSISTENCE_HUB, &ctx, ActionPayload::WorkbenchOpenPersistenceHub);
    let persistence = settings_url(SettingsPath::Persistence);
    assert!(matches!(
        hub.into_runtime_actions().as_slice(),
        [RuntimeAction::PublishSettingsRouteRequested { url, prefer_overlay }] if url == &persistence && *prefer_overlay
    ));

    let history = registry.execute(ACTION_WORKBENCH_OPEN_HISTORY_MANAGER, &ctx, ActionPayload::WorkbenchOpenHistoryManager);
    assert!(matches!(
        history.into_workbench_intent(),
        Some(WorkbenchIntent::OpenToolPane { kind: ToolPaneState::HistoryManager })
    ));

    let activate = registry.execute(
        ACTION_WORKBENCH_ACTIVATE_WORKFLOW,
        &ctx,
        ActionPayload::WorkbenchActivateWorkflow { workflow_id: "workflow:research".to_string() },
    );
    assert!(matches!(
        activate.into_runtime_actions().as_slice(),
        [RuntimeAction::ActivateWorkflow { workflow_id }] if workflow_id == "workflow:research"
    ));
}

#[test]
fn action_registry_matrix_persistence_actions_emit_app_commands() {
    let ctx = ActionContext::new();
    let registry = ActionRegistry::default();

    let save_snapshot = registry.execute(ACTION_WORKBENCH_SAVE_SNAPSHOT, &ctx, ActionPayload::WorkbenchSaveSnapshot);
    assert!(matches!(save_snapshot.into_app_commands().first(), Some(AppCommand::SaveWorkspaceSnapshot)));

    let restore_session = registry.execute(
        ACTION_WORKBENCH_RESTORE_SESSION,
        &ctx,
        ActionPayload::WorkbenchRestoreSession { name: "session:test".to_string() },
    );
    assert!(matches!(
        restore_session.into_app_commands().first(),
        Some(AppCommand::RestoreWorkspaceSnapshotNamed { name }) if name == "session:test"
    ));

    let restore_graph =
        registry.execute(ACTION_WORKBENCH_RESTORE_GRAPH, &ctx, ActionPayload::WorkbenchRestoreGraph { name: None });
    assert!(matches!(restore_graph.into_app_commands().first(), Some(AppCommand::RestoreGraphSnapshotLatest)));
}

#[test]
fn blank_names_are_rejected_and_names_trimmed() {
    let ctx = ActionContext::new();
    let registry = ActionRegistry::default();
    let blank = registry.execute(
        ACTION_WORKBENCH_RESTORE_SESSION,
        &ctx,
        ActionPayload::WorkbenchRestoreSession { name: "   ".to_string() },
    );
    assert!(matches!(
        blank,
        ActionOutcome::Failure(ActionFailure { kind: ActionFailureKind::Rejected, ref reason })
            if reason == "action 'workbench:restore_session' requires non-empty session name"
    ));
    let padded = registry.execute(
        ACTION_WORKBENCH_RESTORE_SESSION,
        &ctx,
        ActionPayload::WorkbenchRestoreSession { name: "  evening  ".to_string() },
    );
    assert!(matches!(
        padded.into_app_commands().first(),
        Some(AppCommand::RestoreWorkspaceSnapshotNamed { name }) if name == "evening"
    ));
}

#[test]
fn action_registry_describe_action_reports_capability() {
    let registry = ActionRegistry::default();

    assert_eq!(registry.describe_action(ACTION_GRAPH_DESELECT_ALL), Some(ActionCapability::RequiresSelection));
    assert_eq!(registry.describe_action(ACTION_GRAPH_NODE_COPY_URL), Some(ActionCapability::RequiresActiveNode));
    assert_eq!(registry.describe_action(ACTION_WORKBENCH_SETTINGS_OPEN), Some(ActionCapability::AlwaysAvailable));
    assert_eq!(registry.describe_action(ACTION_WORKBENCH_SETTINGS_PANE_OPEN), Some(ActionCapability::AlwaysAvailable));
    assert_eq!(
        registry.describe_action(ACTION_WORKBENCH_SETTINGS_OVERLAY_OPEN),
        Some(ActionCapability::AlwaysAvailable)
    );
}

#[test]
fn describe_is_case_insensitive_and_unregister_forgets() {
    let mut registry = ActionRegistry::default();
    assert_eq!(registry.describe_action("GRAPH:Deselect_All"), Some(ActionCapability::RequiresSelection));
    assert!(registry.unregister("graph:deselect_all"));
    assert_eq!(registry.describe_action(ACTION_GRAPH_DESELECT_ALL), None);
    assert!(!registry.unregister("graph:deselect_all"));
    let ctx = ActionContext::new();
    let after = registry.execute(ACTION_GRAPH_DESELECT_ALL, &ctx, ActionPayload::GraphDeselectAll);
    assert!(matches!(
        after,
        ActionOutcome::Failure(ActionFailure { kind: ActionFailureKind::UnknownAction, ref reason })
            if reason == "unknown action: graph:deselect_all"
    ));
}

#[test]
fn action_registry_capability_guard_rejects_deselect_without_selection() {
    let ctx = ActionContext::new();
    let registry = ActionRegistry::default();

    let execution = registry.execute(ACTION_GRAPH_DESELECT_ALL, &ctx, ActionPayload::GraphDeselectAll);

    assert!(matches!(
        execution,
        ActionOutcome::Failure(ActionFailure { kind: ActionFailureKind::Rejected, reason })
            if reason.contains("requires a non-empty selection")
    ));
}

#[test]
fn deselect_with_selection_replaces_selection_with_nothing() {
    let mut ctx = ActionContext::new();
    ctx.selection = vec![NodeKey(1)];
    let registry = ActionRegistry::default();
    let execution = registry.execute(ACTION_GRAPH_DESELECT_ALL, &ctx, ActionPayload::GraphDeselectAll);
    assert!(matches!(
        execution.into_intents().first(),
        Some(GraphIntent::UpdateSelection { keys, mode }) if keys.is_empty() && *mode == SelectionUpdateMode::Replace
    ));
}

#[test]
fn mismatched_payload_is_invalid() {
    let ctx = ActionContext::new();
    let registry = ActionRegistry::default();
    let execution = registry.execute(ACTION_WORKBENCH_UNDO, &ctx, ActionPayload::GraphFit);
    assert!(matches!(
        execution,
        ActionOutcome::Failure(ActionFailure { kind: ActionFailureKind::InvalidPayload, ref reason })
            if reason == "workbench:undo requires WorkbenchUndo payload"
    ));
    let vertical = registry.execute(ACTION_WORKBENCH_SPLIT_VERTICAL, &ctx, ActionPayload::WorkbenchSplitVertical { pane_id: PaneId(2) });
    assert!(matches!(
        vertical.into_workbench_intent(),
        Some(WorkbenchIntent::SplitPane { direction: SplitDirection::Vertical, .. })
    ));
}

#[test]
fn action_registry_requires_namespace_name_keys() {
    assert!(is_namespaced_action_id(ACTION_OMNIBOX_NODE_SEARCH));
    assert!(is_namespaced_action_id(ACTION_GRAPH_VIEW_SUBMIT));
    assert!(is_namespaced_action_id(ACTION_DETAIL_VIEW_SUBMIT));
    assert!(is_namespaced_action_id(ACTION_GRAPH_NODE_OPEN));
    assert!(is_namespaced_action_id(ACTION_GRAPH_NODE_NEW));
    assert!(is_namespaced_action_id(ACTION_GRAPH_NODE_COPY_URL));
    assert!(is_namespaced_action_id(ACTION_GRAPH_EDGE_CREATE));
    assert!(is_namespaced_action_id(ACTION_GRAPH_SET_PHYSICS_PROFILE));
    assert!(is_namespaced_action_id(ACTION_WORKBENCH_UNDO));
    assert!(is_namespaced_action_id(ACTION_WORKBENCH_SPLIT_HORIZONTAL));
    assert!(is_namespaced_action_id(ACTION_WORKBENCH_SPLIT_VERTICAL));
    assert!(is_namespaced_action_id(ACTION_WORKBENCH_CLOSE_PANE));
    assert!(is_namespaced_action_id(ACTION_WORKBENCH_COMMAND_PALETTE_OPEN));
    assert!(is_namespaced_action_id(ACTION_WORKBENCH_SETTINGS_OPEN));
    assert!(is_namespaced_action_id(ACTION_WORKBENCH_SETTINGS_PANE_OPEN));
    assert!(is_namespaced_action_id(ACTION_WORKBENCH_SETTINGS_OVERLAY_OPEN));
    assert!(is_namespaced_action_id(ACTION_WORKBENCH_OPEN_PERSISTENCE_HUB));
    assert!(is_namespaced_action_id(ACTION_WORKBENCH_OPEN_HISTORY_MANAGER));
    assert!(is_namespaced_action_id(ACTION_WORKBENCH_ACTIVATE_WORKFLOW));
    assert!(is_namespaced_action_id(ACTION_VERSE_PAIR_DEVICE));
    assert!(!is_namespaced_action_id("action.invalid.dot"));
    assert!(!is_namespaced_action_id("missing_colon"));
    assert!(!is_namespaced_action_id("namespace:"));
    assert!(!is_namespaced_action_id(":name"));
    assert!(!is_namespaced_action_id("too:many:segments"));
}
