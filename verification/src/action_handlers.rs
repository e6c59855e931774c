//! The action handlers and what each hands back.

use vstd::prelude::*;
use crate::action::{
    ActionContext, ActionDispatch, ActionFailure, ActionFailureKind, ActionHandler,
    ActionOutcome, ActionPayload, GraphEdgeRecord, GraphNodeState, PairingMode, RuntimeAction,
    ACTION_GRAPH_NODE_PIN_TOGGLE, ACTION_GRAPH_NODE_CHOOSE_FRAME, ACTION_GRAPH_NODE_ADD_TO_FRAME,
    ACTION_GRAPH_NODE_ADD_CONNECTED_TO_FRAME, ACTION_GRAPH_NODE_OPEN_FRAME,
    ACTION_GRAPH_NODE_OPEN_NEIGHBORS, ACTION_GRAPH_NODE_OPEN_CONNECTED, ACTION_GRAPH_NODE_OPEN_SPLIT,
    ACTION_GRAPH_NODE_COPY_URL, ACTION_GRAPH_NODE_COPY_TITLE, ACTION_WORKBENCH_DETACH_TO_SPLIT,
    ACTION_WORKBENCH_MOVE_NODE_TO_PANE, ACTION_WORKBENCH_RESTORE_SESSION, ACTION_WORKBENCH_SAVE_GRAPH,
    ACTION_WORKBENCH_RESTORE_GRAPH, ACTION_WORKBENCH_ACTIVATE_WORKFLOW,
};
use crate::model::{
    NodeKey, PaneId, GraphIntent, WorkbenchIntent, AppCommand, SearchResultKind, NodeLifecycle,
    LifecycleCause, PendingTileOpenMode, EdgeCommand, RelationSelector, SelectionUpdateMode,
    SplitDirection, ToolPaneState, ChooseFramePickerMode, ChooseFramePickerRequest,
    PendingConnectedOpenScope, PendingNodeOpenRequest, ClipboardCopyKind, ClipboardCopyRequest,
    SettingsPath, settings_url, settings_url_spec,
};
use crate::text::{join2, join3, owned, trim, trim_seq, slice};

verus! {

pub open spec fn fails_with(r: ActionOutcome, kind: ActionFailureKind, reason: Seq<char>) -> bool {
    r matches ActionOutcome::Failure(f) && f.kind == kind && f.reason@ == reason
}

pub open spec fn only_intents(r: ActionOutcome, s: Seq<GraphIntent>) -> bool {
    r matches ActionOutcome::Dispatch(d) && d.intents@ == s && d.workbench_intents@.len() == 0
        && d.app_commands@.len() == 0 && d.runtime_actions@.len() == 0
}

pub open spec fn only_workbench(r: ActionOutcome, s: Seq<WorkbenchIntent>) -> bool {
    r matches ActionOutcome::Dispatch(d) && d.intents@.len() == 0 && d.workbench_intents@ == s
        && d.app_commands@.len() == 0 && d.runtime_actions@.len() == 0
}

pub open spec fn only_commands(r: ActionOutcome, s: Seq<AppCommand>) -> bool {
    r matches ActionOutcome::Dispatch(d) && d.intents@.len() == 0 && d.workbench_intents@.len() == 0
        && d.app_commands@ == s && d.runtime_actions@.len() == 0
}

pub open spec fn only_runtime(r: ActionOutcome, s: Seq<RuntimeAction>) -> bool {
    r matches ActionOutcome::Dispatch(d) && d.intents@.len() == 0 && d.workbench_intents@.len() == 0
        && d.app_commands@.len() == 0 && d.runtime_actions@ == s
}

/// A dispatch that asks the runtime to open a settings page as an overlay.
pub open spec fn settings_route(r: ActionOutcome, path: SettingsPath) -> bool {
    r matches ActionOutcome::Dispatch(d) && d.intents@.len() == 0 && d.workbench_intents@.len() == 0
        && d.app_commands@.len() == 0 && d.runtime_actions@.len() == 1
        && (d.runtime_actions@[0] matches RuntimeAction::PublishSettingsRouteRequested { url, prefer_overlay }
        && url@ == settings_url_spec(path) && prefer_overlay)
}

/// The rejection of an action that needs exactly one active node.
pub open spec fn no_active_node(r: ActionOutcome, action_id: Seq<char>) -> bool {
    fails_with(r, ActionFailureKind::Rejected, "action '"@ + action_id + "' requires exactly one active node"@)
}

/// The rejection of a blank name, id or similar field.
pub open spec fn blank_field(r: ActionOutcome, action_id: Seq<char>, field: Seq<char>) -> bool {
    fails_with(r, ActionFailureKind::Rejected, "action '"@ + action_id + "' requires non-empty "@ + field)
}

/// One app command carrying the trimmed name.
pub open spec fn named_command(r: ActionOutcome, command: AppCommand, name: Seq<char>) -> bool {
    r matches ActionOutcome::Dispatch(d) && d.intents@.len() == 0 && d.workbench_intents@.len() == 0
        && d.runtime_actions@.len() == 0 && d.app_commands@.len() == 1 && {
        let c = d.app_commands@[0];
        match (c, command) {
            (AppCommand::RestoreWorkspaceSnapshotNamed { name: a }, AppCommand::RestoreWorkspaceSnapshotNamed { .. }) => a@ == name,
            (AppCommand::SaveGraphSnapshotNamed { name: a }, AppCommand::SaveGraphSnapshotNamed { .. }) => a@ == name,
            (AppCommand::RestoreGraphSnapshotNamed { name: a }, AppCommand::RestoreGraphSnapshotNamed { .. }) => a@ == name,
            _ => false,
        }
    }
}

/// A single `TrustPeer` intent.
pub open spec fn trusts_peer(r: ActionOutcome, peer: String, display_name: Seq<char>) -> bool {
    r matches ActionOutcome::Dispatch(d) && d.workbench_intents@.len() == 0 && d.app_commands@.len() == 0
        && d.runtime_actions@.len() == 0 && d.intents@.len() == 1
        && (d.intents@[0] matches GraphIntent::TrustPeer { peer_id, display_name: dn }
        && peer_id == peer && dn@ == display_name)
}

/// Whether the graph holds node `k` and it is cold.
pub open spec fn is_cold(nodes: Seq<GraphNodeState>, k: NodeKey) -> bool {
    exists|i: int| 0 <= i < nodes.len() && nodes[i].key == k && nodes[i].lifecycle == NodeLifecycle::Cold
}

/// The cold nodes of a selection, in selection order.
pub open spec fn cold_nodes(sel: Seq<NodeKey>, nodes: Seq<GraphNodeState>) -> Seq<NodeKey>
    decreases sel.len(),
{
    if sel.len() == 0 {
        Seq::empty()
    } else if is_cold(nodes, sel.last()) {
        cold_nodes(sel.drop_last(), nodes).push(sel.last())
    } else {
        cold_nodes(sel.drop_last(), nodes)
    }
}

pub open spec fn warm_select_intents(cold: Seq<NodeKey>, first_pane: u64) -> Seq<WorkbenchIntent> {
    Seq::new(cold.len(), |i: int| WorkbenchIntent::OpenNodeInPane { node: cold[i], pane: PaneId((first_pane + i) as u64) })
}

/// The removals for one edge: its user-grouped relation, then its frame-member one.
pub open spec fn edge_retractions(e: GraphEdgeRecord, node: NodeKey) -> Seq<GraphIntent> {
    if e.from != node && e.to != node {
        Seq::empty()
    } else {
        (if e.user_grouped {
            seq![GraphIntent::RemoveEdge { from: e.from, to: e.to, selector: RelationSelector::UserGrouped }]
        } else {
            Seq::empty()
        }) + (if e.frame_member {
            seq![GraphIntent::RemoveEdge { from: e.from, to: e.to, selector: RelationSelector::FrameMember }]
        } else {
            Seq::empty()
        })
    }
}

/// The removals of every durable graphlet relation that touches `node`, edge by edge.
pub open spec fn graphlet_retractions(edges: Seq<GraphEdgeRecord>, node: NodeKey) -> Seq<GraphIntent>
    decreases edges.len(),
{
    if edges.len() == 0 {
        Seq::empty()
    } else {
        graphlet_retractions(edges.drop_last(), node) + edge_retractions(edges.last(), node)
    }
}

pub open spec fn share_intents(peers: Seq<String>, workspace_id: String) -> Seq<GraphIntent> {
    Seq::new(peers.len(), |i: int| GraphIntent::GrantWorkspaceAccess { peer_id: peers[i], workspace_id })
}

/// Whether the payload has the shape that the handler takes.
pub open spec fn payload_fits(h: ActionHandler, p: ActionPayload) -> bool {
    match (h, p) {
        (ActionHandler::GraphNodeOpen, ActionPayload::GraphNodeOpen { .. }) => true,
        (ActionHandler::GraphNodeClose, ActionPayload::GraphNodeClose { .. }) => true,
        (ActionHandler::GraphNodeNew, ActionPayload::GraphNodeNew) => true,
        (ActionHandler::GraphNodeNewAsTab, ActionPayload::GraphNodeNewAsTab) => true,
        (ActionHandler::GraphNodePinToggle, ActionPayload::GraphNodePinToggle) => true,
        (ActionHandler::GraphNodePinSelected, ActionPayload::GraphNodePinSelected) => true,
        (ActionHandler::GraphNodeUnpinSelected, ActionPayload::GraphNodeUnpinSelected) => true,
        (ActionHandler::GraphNodeDelete, ActionPayload::GraphNodeDelete) => true,
        (ActionHandler::GraphNodeChooseFrame, ActionPayload::GraphNodeChooseFrame) => true,
        (ActionHandler::GraphNodeAddToFrame, ActionPayload::GraphNodeAddToFrame) => true,
        (ActionHandler::GraphNodeAddConnectedToFrame, ActionPayload::GraphNodeAddConnectedToFrame) => true,
        (ActionHandler::GraphNodeOpenFrame, ActionPayload::GraphNodeOpenFrame) => true,
        (ActionHandler::GraphNodeOpenNeighbors, ActionPayload::GraphNodeOpenNeighbors) => true,
        (ActionHandler::GraphNodeOpenConnected, ActionPayload::GraphNodeOpenConnected) => true,
        (ActionHandler::GraphNodeOpenSplit, ActionPayload::GraphNodeOpenSplit) => true,
        (ActionHandler::GraphNodeCopyUrl, ActionPayload::GraphNodeCopyUrl) => true,
        (ActionHandler::GraphNodeCopyTitle, ActionPayload::GraphNodeCopyTitle) => true,
        (ActionHandler::GraphEdgeCreate, ActionPayload::GraphEdgeCreate { .. }) => true,
        (ActionHandler::GraphEdgeConnectPair, ActionPayload::GraphEdgeConnectPair) => true,
        (ActionHandler::GraphEdgeConnectBoth, ActionPayload::GraphEdgeConnectBoth) => true,
        (ActionHandler::GraphEdgeRemoveUser, ActionPayload::GraphEdgeRemoveUser) => true,
        (ActionHandler::GraphSetPhysicsProfile, ActionPayload::GraphSetPhysicsProfile { .. }) => true,
        (ActionHandler::GraphFit, ActionPayload::GraphFit) => true,
        (ActionHandler::GraphTogglePhysics, ActionPayload::GraphTogglePhysics) => true,
        (ActionHandler::GraphNavigateBack, ActionPayload::GraphNavigateBack) => true,
        (ActionHandler::GraphNavigateForward, ActionPayload::GraphNavigateForward) => true,
        (ActionHandler::GraphSelectNode, ActionPayload::GraphSelectNode { .. }) => true,
        (ActionHandler::GraphDeselectAll, ActionPayload::GraphDeselectAll) => true,
        (ActionHandler::WorkbenchDetachToSplit, ActionPayload::WorkbenchDetachToSplit) => true,
        (ActionHandler::WorkbenchMoveNodeToPane, ActionPayload::WorkbenchMoveNodeToPane { .. }) => true,
        (ActionHandler::WorkbenchSplitHorizontal, ActionPayload::WorkbenchSplitHorizontal { .. }) => true,
        (ActionHandler::WorkbenchSplitVertical, ActionPayload::WorkbenchSplitVertical { .. }) => true,
        (ActionHandler::WorkbenchClosePane, ActionPayload::WorkbenchClosePane { .. }) => true,
        (ActionHandler::WorkbenchCommandPaletteOpen, ActionPayload::WorkbenchCommandPaletteOpen) => true,
        (ActionHandler::WorkbenchHelpOpen, ActionPayload::WorkbenchHelpOpen) => true,
        (ActionHandler::WorkbenchSettingsPaneOpen, ActionPayload::WorkbenchSettingsPaneOpen) => true,
        (ActionHandler::WorkbenchSettingsOverlayOpen, ActionPayload::WorkbenchSettingsOverlayOpen) => true,
        (ActionHandler::WorkbenchSettingsOpen, ActionPayload::WorkbenchSettingsOpen) => true,
        (ActionHandler::WorkbenchUndo, ActionPayload::WorkbenchUndo) => true,
        (ActionHandler::WorkbenchRedo, ActionPayload::WorkbenchRedo) => true,
        (ActionHandler::WorkbenchSaveSnapshot, ActionPayload::WorkbenchSaveSnapshot) => true,
        (ActionHandler::WorkbenchRestoreSession, ActionPayload::WorkbenchRestoreSession { .. }) => true,
        (ActionHandler::WorkbenchSaveGraph, ActionPayload::WorkbenchSaveGraph { .. }) => true,
        (ActionHandler::WorkbenchRestoreGraph, ActionPayload::WorkbenchRestoreGraph { .. }) => true,
        (ActionHandler::WorkbenchOpenPersistenceHub, ActionPayload::WorkbenchOpenPersistenceHub) => true,
        (ActionHandler::WorkbenchOpenHistoryManager, ActionPayload::WorkbenchOpenHistoryManager) => true,
        (ActionHandler::WorkbenchActivateWorkflow, ActionPayload::WorkbenchActivateWorkflow { .. }) => true,
        (ActionHandler::GraphViewSubmit, ActionPayload::GraphViewSubmit { .. }) => true,
        (ActionHandler::DetailViewSubmit, ActionPayload::DetailViewSubmit { .. }) => true,
        (ActionHandler::OmniboxNodeSearch, ActionPayload::OmniboxNodeSearch { .. }) => true,
        (ActionHandler::VersePairDevice, ActionPayload::VersePairDevice { .. }) => true,
        (ActionHandler::VerseShareWorkspace, ActionPayload::VerseShareWorkspace { .. }) => true,
        (ActionHandler::VerseForgetDevice, ActionPayload::VerseForgetDevice { .. }) => true,
        (ActionHandler::GraphSelectionWarmSelect, _) => true,
        (ActionHandler::GraphNodeRemoveFromGraphlet, _) => true,
        (ActionHandler::VerseSyncNow, _) => true,
        _ => false,
    }
}

/// The reason given when a handler receives a payload of the wrong shape.
pub open spec fn invalid_reason(h: ActionHandler) -> Seq<char> {
    match h {
        ActionHandler::GraphNodeOpen => "graph:node_open requires GraphNodeOpen payload"@,
        ActionHandler::GraphNodeClose => "graph:node_close requires GraphNodeClose payload"@,
        ActionHandler::GraphNodeNew => "graph:node_new requires GraphNodeNew payload"@,
        ActionHandler::GraphNodeNewAsTab => "graph:node_new_as_tab requires GraphNodeNewAsTab payload"@,
        ActionHandler::GraphNodePinToggle => "graph:node_pin_toggle requires GraphNodePinToggle payload"@,
        ActionHandler::GraphNodePinSelected => "graph:node_pin_selected requires GraphNodePinSelected payload"@,
        ActionHandler::GraphNodeUnpinSelected => "graph:node_unpin_selected requires GraphNodeUnpinSelected payload"@,
        ActionHandler::GraphNodeDelete => "graph:node_delete requires GraphNodeDelete payload"@,
        ActionHandler::GraphNodeChooseFrame => "graph:node_choose_frame requires GraphNodeChooseFrame payload"@,
        ActionHandler::GraphNodeAddToFrame => "graph:node_add_to_frame requires GraphNodeAddToFrame payload"@,
        ActionHandler::GraphNodeAddConnectedToFrame => "graph:node_add_connected_to_frame requires GraphNodeAddConnectedToFrame payload"@,
        ActionHandler::GraphNodeOpenFrame => "graph:node_open_frame requires GraphNodeOpenFrame payload"@,
        ActionHandler::GraphNodeOpenNeighbors => "graph:node_open_neighbors requires GraphNodeOpenNeighbors payload"@,
        ActionHandler::GraphNodeOpenConnected => "graph:node_open_connected requires GraphNodeOpenConnected payload"@,
        ActionHandler::GraphNodeOpenSplit => "graph:node_open_split requires GraphNodeOpenSplit payload"@,
        ActionHandler::GraphNodeCopyUrl => "graph:node_copy_url requires GraphNodeCopyUrl payload"@,
        ActionHandler::GraphNodeCopyTitle => "graph:node_copy_title requires GraphNodeCopyTitle payload"@,
        ActionHandler::GraphEdgeCreate => "graph:edge_create requires GraphEdgeCreate payload"@,
        ActionHandler::GraphEdgeConnectPair => "graph:edge_connect_pair requires GraphEdgeConnectPair payload"@,
        ActionHandler::GraphEdgeConnectBoth => "graph:edge_connect_both requires GraphEdgeConnectBoth payload"@,
        ActionHandler::GraphEdgeRemoveUser => "graph:edge_remove_user requires GraphEdgeRemoveUser payload"@,
        ActionHandler::GraphSetPhysicsProfile => "graph:set_physics_profile requires GraphSetPhysicsProfile payload"@,
        ActionHandler::GraphFit => "graph:fit requires GraphFit payload"@,
        ActionHandler::GraphTogglePhysics => "graph:toggle_physics requires GraphTogglePhysics payload"@,
        ActionHandler::GraphNavigateBack => "graph:navigate_back requires GraphNavigateBack payload"@,
        ActionHandler::GraphNavigateForward => "graph:navigate_forward requires GraphNavigateForward payload"@,
        ActionHandler::GraphSelectNode => "graph:select_node requires GraphSelectNode payload"@,
        ActionHandler::GraphDeselectAll => "graph:deselect_all requires GraphDeselectAll payload"@,
        ActionHandler::WorkbenchDetachToSplit => "workbench:detach_to_split requires WorkbenchDetachToSplit payload"@,
        ActionHandler::WorkbenchMoveNodeToPane => "workbench:move_node_to_pane requires WorkbenchMoveNodeToPane payload"@,
        ActionHandler::WorkbenchSplitHorizontal => "workbench:split_horizontal requires WorkbenchSplitHorizontal payload"@,
        ActionHandler::WorkbenchSplitVertical => "workbench:split_vertical requires WorkbenchSplitVertical payload"@,
        ActionHandler::WorkbenchClosePane => "workbench:close_pane requires WorkbenchClosePane payload"@,
        ActionHandler::WorkbenchCommandPaletteOpen => "workbench:command_palette_open requires WorkbenchCommandPaletteOpen payload"@,
        ActionHandler::WorkbenchHelpOpen => "workbench:help_open requires WorkbenchHelpOpen payload"@,
        ActionHandler::WorkbenchSettingsPaneOpen => "workbench:settings_pane_open requires WorkbenchSettingsPaneOpen payload"@,
        ActionHandler::WorkbenchSettingsOverlayOpen => "workbench:settings_overlay_open requires WorkbenchSettingsOverlayOpen payload"@,
        ActionHandler::WorkbenchSettingsOpen => "workbench:settings_open requires WorkbenchSettingsOpen payload"@,
        ActionHandler::WorkbenchUndo => "workbench:undo requires WorkbenchUndo payload"@,
        ActionHandler::WorkbenchRedo => "workbench:redo requires WorkbenchRedo payload"@,
        ActionHandler::WorkbenchSaveSnapshot => "workbench:save_snapshot requires WorkbenchSaveSnapshot payload"@,
        ActionHandler::WorkbenchRestoreSession => "workbench:restore_session requires WorkbenchRestoreSession payload"@,
        ActionHandler::WorkbenchSaveGraph => "workbench:save_graph requires WorkbenchSaveGraph payload"@,
        ActionHandler::WorkbenchRestoreGraph => "workbench:restore_graph requires WorkbenchRestoreGraph payload"@,
        ActionHandler::WorkbenchOpenPersistenceHub => "workbench:open_persistence_hub requires WorkbenchOpenPersistenceHub payload"@,
        ActionHandler::WorkbenchOpenHistoryManager => "workbench:open_history_manager requires WorkbenchOpenHistoryManager payload"@,
        ActionHandler::WorkbenchActivateWorkflow => "workbench:activate_workflow requires WorkbenchActivateWorkflow payload"@,
        ActionHandler::GraphViewSubmit => "graph_view_submit requires GraphViewSubmit payload"@,
        ActionHandler::DetailViewSubmit => "detail_view_submit requires DetailViewSubmit payload"@,
        ActionHandler::OmniboxNodeSearch => "omnibox_node_search requires OmniboxNodeSearch payload"@,
        ActionHandler::VersePairDevice => "verse_pair_device requires VersePairDevice payload"@,
        ActionHandler::VerseShareWorkspace => "verse_share_workspace requires VerseShareWorkspace payload"@,
        ActionHandler::VerseForgetDevice => "verse_forget_device requires VerseForgetDevice payload"@,
        ActionHandler::GraphSelectionWarmSelect => Seq::empty(),
        ActionHandler::GraphNodeRemoveFromGraphlet => Seq::empty(),
        ActionHandler::VerseSyncNow => Seq::empty(),
    }
}

pub open spec fn with_active_node(ctx: ActionContext, r: ActionOutcome, action_id: Seq<char>, ok: spec_fn(NodeKey) -> bool) -> bool {
    match ctx.single_selected_spec() {
        Some(k) => ok(k),
        None => no_active_node(r, action_id),
    }
}

/// What the `GraphNodeOpen` handler hands back.
pub open spec fn post_graph_node_open(ctx: ActionContext, p: ActionPayload, r: ActionOutcome) -> bool {
    match p {
        ActionPayload::GraphNodeOpen { node_key, .. } => only_intents(r, seq![
            GraphIntent::SelectNode { key: node_key, multi_select: false },
            GraphIntent::PromoteNodeToActive { key: node_key, cause: LifecycleCause::UserSelect },
        ]),
        _ => fails_with(r, ActionFailureKind::InvalidPayload, "graph:node_open requires GraphNodeOpen payload"@),
    }
}

/// What the `GraphNodeClose` handler hands back.
pub open spec fn post_graph_node_close(ctx: ActionContext, p: ActionPayload, r: ActionOutcome) -> bool {
    match p {
        ActionPayload::GraphNodeClose { node_key } => only_intents(r, seq![
            GraphIntent::DemoteNodeToCold { key: node_key, cause: LifecycleCause::ExplicitClose },
        ]),
        _ => fails_with(r, ActionFailureKind::InvalidPayload, "graph:node_close requires GraphNodeClose payload"@),
    }
}

/// What the `GraphSelectionWarmSelect` handler hands back.
pub open spec fn post_graph_selection_warm_select(ctx: ActionContext, p: ActionPayload, r: ActionOutcome) -> bool {
    {
        let cold = cold_nodes(ctx.selection@, ctx.nodes@);
        if cold.len() == 0 {
            fails_with(r, ActionFailureKind::Rejected, "graph:selection_warm_select requires at least one cold node in the selection"@)
        } else {
            only_workbench(r, warm_select_intents(cold, ctx.next_pane_id))
        }
    }
}

/// What the `GraphNodeRemoveFromGraphlet` handler hands back.
pub open spec fn post_graph_node_remove_from_graphlet(ctx: ActionContext, p: ActionPayload, r: ActionOutcome) -> bool {
    {
        if ctx.selection@.len() == 0 {
            fails_with(r, ActionFailureKind::Rejected, "graph:node_remove_from_graphlet requires a selected node"@)
        } else {
            let s = graphlet_retractions(ctx.edges@, ctx.selection@[0]);
            if s.len() == 0 {
                fails_with(r, ActionFailureKind::Rejected, "node has no durable graphlet edges to retract"@)
            } else {
                only_intents(r, s)
            }
        }
    }
}

/// What the `GraphNodeNew` handler hands back.
pub open spec fn post_graph_node_new(ctx: ActionContext, p: ActionPayload, r: ActionOutcome) -> bool {
    match p {
        ActionPayload::GraphNodeNew => only_intents(r, seq![GraphIntent::CreateNodeNearCenter]),
        _ => fails_with(r, ActionFailureKind::InvalidPayload, "graph:node_new requires GraphNodeNew payload"@),
    }
}

/// What the `GraphNodeNewAsTab` handler hands back.
pub open spec fn post_graph_node_new_as_tab(ctx: ActionContext, p: ActionPayload, r: ActionOutcome) -> bool {
    match p {
        ActionPayload::GraphNodeNewAsTab => only_intents(r, seq![GraphIntent::CreateNodeNearCenterAndOpen { mode: PendingTileOpenMode::Tab }]),
        _ => fails_with(r, ActionFailureKind::InvalidPayload, "graph:node_new_as_tab requires GraphNodeNewAsTab payload"@),
    }
}

/// What the `GraphNodePinToggle` handler hands back.
pub open spec fn post_graph_node_pin_toggle(ctx: ActionContext, p: ActionPayload, r: ActionOutcome) -> bool {
    match p {
        ActionPayload::GraphNodePinToggle => with_active_node(ctx, r, ACTION_GRAPH_NODE_PIN_TOGGLE@,
            |k: NodeKey| only_intents(r, seq![GraphIntent::TogglePrimaryNodePin])),
        _ => fails_with(r, ActionFailureKind::InvalidPayload, "graph:node_pin_toggle requires GraphNodePinToggle payload"@),
    }
}

/// What the `GraphNodePinSelected` handler hands back.
pub open spec fn post_graph_node_pin_selected(ctx: ActionContext, p: ActionPayload, r: ActionOutcome) -> bool {
    match p {
        ActionPayload::GraphNodePinSelected => only_intents(r, seq![GraphIntent::ExecuteEdgeCommand { command: EdgeCommand::PinSelected }]),
        _ => fails_with(r, ActionFailureKind::InvalidPayload, "graph:node_pin_selected requires GraphNodePinSelected payload"@),
    }
}

/// What the `GraphNodeUnpinSelected` handler hands back.
pub open spec fn post_graph_node_unpin_selected(ctx: ActionContext, p: ActionPayload, r: ActionOutcome) -> bool {
    match p {
        ActionPayload::GraphNodeUnpinSelected => only_intents(r, seq![GraphIntent::ExecuteEdgeCommand { command: EdgeCommand::UnpinSelected }]),
        _ => fails_with(r, ActionFailureKind::InvalidPayload, "graph:node_unpin_selected requires GraphNodeUnpinSelected payload"@),
    }
}

/// What the `GraphNodeDelete` handler hands back.
pub open spec fn post_graph_node_delete(ctx: ActionContext, p: ActionPayload, r: ActionOutcome) -> bool {
    match p {
        ActionPayload::GraphNodeDelete => only_intents(r, seq![GraphIntent::RemoveSelectedNodes]),
        _ => fails_with(r, ActionFailureKind::InvalidPayload, "graph:node_delete requires GraphNodeDelete payload"@),
    }
}

/// What the `GraphNodeChooseFrame` handler hands back.
pub open spec fn post_graph_node_choose_frame(ctx: ActionContext, p: ActionPayload, r: ActionOutcome) -> bool {
    match p {
        ActionPayload::GraphNodeChooseFrame => with_active_node(ctx, r, ACTION_GRAPH_NODE_CHOOSE_FRAME@,
            |k: NodeKey| only_commands(r, seq![AppCommand::ChooseWorkspacePicker { request: ChooseFramePickerRequest { node: k, mode: ChooseFramePickerMode::OpenNodeInFrame }, exact_nodes: None }])),
        _ => fails_with(r, ActionFailureKind::InvalidPayload, "graph:node_choose_frame requires GraphNodeChooseFrame payload"@),
    }
}

/// What the `GraphNodeAddToFrame` handler hands back.
pub open spec fn post_graph_node_add_to_frame(ctx: ActionContext, p: ActionPayload, r: ActionOutcome) -> bool {
    match p {
        ActionPayload::GraphNodeAddToFrame => with_active_node(ctx, r, ACTION_GRAPH_NODE_ADD_TO_FRAME@,
            |k: NodeKey| only_commands(r, seq![AppCommand::ChooseWorkspacePicker { request: ChooseFramePickerRequest { node: k, mode: ChooseFramePickerMode::AddNodeToFrame }, exact_nodes: None }])),
        _ => fails_with(r, ActionFailureKind::InvalidPayload, "graph:node_add_to_frame requires GraphNodeAddToFrame payload"@),
    }
}

/// What the `GraphNodeAddConnectedToFrame` handler hands back.
pub open spec fn post_graph_node_add_connected_to_frame(ctx: ActionContext, p: ActionPayload, r: ActionOutcome) -> bool {
    match p {
        ActionPayload::GraphNodeAddConnectedToFrame => with_active_node(ctx, r, ACTION_GRAPH_NODE_ADD_CONNECTED_TO_FRAME@,
            |k: NodeKey| only_commands(r, seq![AppCommand::ChooseWorkspacePicker { request: ChooseFramePickerRequest { node: k, mode: ChooseFramePickerMode::AddConnectedSelectionToFrame }, exact_nodes: None }])),
        _ => fails_with(r, ActionFailureKind::InvalidPayload, "graph:node_add_connected_to_frame requires GraphNodeAddConnectedToFrame payload"@),
    }
}

/// What the `GraphNodeOpenFrame` handler hands back.
pub open spec fn post_graph_node_open_frame(ctx: ActionContext, p: ActionPayload, r: ActionOutcome) -> bool {
    match p {
        ActionPayload::GraphNodeOpenFrame => with_active_node(ctx, r, ACTION_GRAPH_NODE_OPEN_FRAME@,
            |k: NodeKey| only_intents(r, seq![GraphIntent::OpenNodeFrameRouted { key: k, prefer_frame: None }])),
        _ => fails_with(r, ActionFailureKind::InvalidPayload, "graph:node_open_frame requires GraphNodeOpenFrame payload"@),
    }
}

/// What the `GraphNodeOpenNeighbors` handler hands back.
pub open spec fn post_graph_node_open_neighbors(ctx: ActionContext, p: ActionPayload, r: ActionOutcome) -> bool {
    match p {
        ActionPayload::GraphNodeOpenNeighbors => with_active_node(ctx, r, ACTION_GRAPH_NODE_OPEN_NEIGHBORS@,
            |k: NodeKey| only_commands(r, seq![AppCommand::OpenConnected { source: k, mode: PendingTileOpenMode::Tab, scope: PendingConnectedOpenScope::Neighbors }])),
        _ => fails_with(r, ActionFailureKind::InvalidPayload, "graph:node_open_neighbors requires GraphNodeOpenNeighbors payload"@),
    }
}

/// What the `GraphNodeOpenConnected` handler hands back.
pub open spec fn post_graph_node_open_connected(ctx: ActionContext, p: ActionPayload, r: ActionOutcome) -> bool {
    match p {
        ActionPayload::GraphNodeOpenConnected => with_active_node(ctx, r, ACTION_GRAPH_NODE_OPEN_CONNECTED@,
            |k: NodeKey| only_commands(r, seq![AppCommand::OpenConnected { source: k, mode: PendingTileOpenMode::Tab, scope: PendingConnectedOpenScope::Connected }])),
        _ => fails_with(r, ActionFailureKind::InvalidPayload, "graph:node_open_connected requires GraphNodeOpenConnected payload"@),
    }
}

/// What the `GraphNodeOpenSplit` handler hands back.
pub open spec fn post_graph_node_open_split(ctx: ActionContext, p: ActionPayload, r: ActionOutcome) -> bool {
    match p {
        ActionPayload::GraphNodeOpenSplit => with_active_node(ctx, r, ACTION_GRAPH_NODE_OPEN_SPLIT@,
            |k: NodeKey| only_commands(r, seq![AppCommand::OpenNode { request: PendingNodeOpenRequest { key: k, mode: PendingTileOpenMode::SplitHorizontal } }])),
        _ => fails_with(r, ActionFailureKind::InvalidPayload, "graph:node_open_split requires GraphNodeOpenSplit payload"@),
    }
}

/// What the `GraphNodeCopyUrl` handler hands back.
pub open spec fn post_graph_node_copy_url(ctx: ActionContext, p: ActionPayload, r: ActionOutcome) -> bool {
    match p {
        ActionPayload::GraphNodeCopyUrl => with_active_node(ctx, r, ACTION_GRAPH_NODE_COPY_URL@,
            |k: NodeKey| only_commands(r, seq![AppCommand::ClipboardCopy { request: ClipboardCopyRequest { key: k, kind: ClipboardCopyKind::Url } }])),
        _ => fails_with(r, ActionFailureKind::InvalidPayload, "graph:node_copy_url requires GraphNodeCopyUrl payload"@),
    }
}

/// What the `GraphNodeCopyTitle` handler hands back.
pub open spec fn post_graph_node_copy_title(ctx: ActionContext, p: ActionPayload, r: ActionOutcome) -> bool {
    match p {
        ActionPayload::GraphNodeCopyTitle => with_active_node(ctx, r, ACTION_GRAPH_NODE_COPY_TITLE@,
            |k: NodeKey| only_commands(r, seq![AppCommand::ClipboardCopy { request: ClipboardCopyRequest { key: k, kind: ClipboardCopyKind::Title } }])),
        _ => fails_with(r, ActionFailureKind::InvalidPayload, "graph:node_copy_title requires GraphNodeCopyTitle payload"@),
    }
}

/// What the `GraphEdgeCreate` handler hands back.
pub open spec fn post_graph_edge_create(ctx: ActionContext, p: ActionPayload, r: ActionOutcome) -> bool {
    match p {
        ActionPayload::GraphEdgeCreate { from, to, label } => only_intents(r, seq![
            GraphIntent::CreateUserGroupedEdge { from, to, label },
        ]),
        _ => fails_with(r, ActionFailureKind::InvalidPayload, "graph:edge_create requires GraphEdgeCreate payload"@),
    }
}

/// What the `GraphEdgeConnectPair` handler hands back.
pub open spec fn post_graph_edge_connect_pair(ctx: ActionContext, p: ActionPayload, r: ActionOutcome) -> bool {
    match p {
        ActionPayload::GraphEdgeConnectPair => only_intents(r, seq![GraphIntent::ExecuteEdgeCommand { command: EdgeCommand::ConnectSelectedPair }]),
        _ => fails_with(r, ActionFailureKind::InvalidPayload, "graph:edge_connect_pair requires GraphEdgeConnectPair payload"@),
    }
}

/// What the `GraphEdgeConnectBoth` handler hands back.
pub open spec fn post_graph_edge_connect_both(ctx: ActionContext, p: ActionPayload, r: ActionOutcome) -> bool {
    match p {
        ActionPayload::GraphEdgeConnectBoth => only_intents(r, seq![GraphIntent::ExecuteEdgeCommand { command: EdgeCommand::ConnectBothDirections }]),
        _ => fails_with(r, ActionFailureKind::InvalidPayload, "graph:edge_connect_both requires GraphEdgeConnectBoth payload"@),
    }
}

/// What the `GraphEdgeRemoveUser` handler hands back.
pub open spec fn post_graph_edge_remove_user(ctx: ActionContext, p: ActionPayload, r: ActionOutcome) -> bool {
    match p {
        ActionPayload::GraphEdgeRemoveUser => only_intents(r, seq![GraphIntent::ExecuteEdgeCommand { command: EdgeCommand::RemoveUserEdge }]),
        _ => fails_with(r, ActionFailureKind::InvalidPayload, "graph:edge_remove_user requires GraphEdgeRemoveUser payload"@),
    }
}

/// What the `GraphSetPhysicsProfile` handler hands back.
pub open spec fn post_graph_set_physics_profile(ctx: ActionContext, p: ActionPayload, r: ActionOutcome) -> bool {
    match p {
        ActionPayload::GraphSetPhysicsProfile { profile_id } => only_intents(r, seq![
            GraphIntent::SetPhysicsProfile { profile_id },
        ]),
        _ => fails_with(r, ActionFailureKind::InvalidPayload, "graph:set_physics_profile requires GraphSetPhysicsProfile payload"@),
    }
}

/// What the `GraphFit` handler hands back.
pub open spec fn post_graph_fit(ctx: ActionContext, p: ActionPayload, r: ActionOutcome) -> bool {
    match p {
        ActionPayload::GraphFit => only_intents(r, seq![GraphIntent::RequestFitToScreen]),
        _ => fails_with(r, ActionFailureKind::InvalidPayload, "graph:fit requires GraphFit payload"@),
    }
}

/// What the `GraphTogglePhysics` handler hands back.
pub open spec fn post_graph_toggle_physics(ctx: ActionContext, p: ActionPayload, r: ActionOutcome) -> bool {
    match p {
        ActionPayload::GraphTogglePhysics => only_intents(r, seq![GraphIntent::TogglePhysics]),
        _ => fails_with(r, ActionFailureKind::InvalidPayload, "graph:toggle_physics requires GraphTogglePhysics payload"@),
    }
}

/// What the `GraphNavigateBack` handler hands back.
pub open spec fn post_graph_navigate_back(ctx: ActionContext, p: ActionPayload, r: ActionOutcome) -> bool {
    match p {
        ActionPayload::GraphNavigateBack => only_intents(r, seq![GraphIntent::TraverseBack]),
        _ => fails_with(r, ActionFailureKind::InvalidPayload, "graph:navigate_back requires GraphNavigateBack payload"@),
    }
}

/// What the `GraphNavigateForward` handler hands back.
pub open spec fn post_graph_navigate_forward(ctx: ActionContext, p: ActionPayload, r: ActionOutcome) -> bool {
    match p {
        ActionPayload::GraphNavigateForward => only_intents(r, seq![GraphIntent::TraverseForward]),
        _ => fails_with(r, ActionFailureKind::InvalidPayload, "graph:navigate_forward requires GraphNavigateForward payload"@),
    }
}

/// What the `GraphSelectNode` handler hands back.
pub open spec fn post_graph_select_node(ctx: ActionContext, p: ActionPayload, r: ActionOutcome) -> bool {
    match p {
        ActionPayload::GraphSelectNode { node_key } => only_intents(r, seq![
            GraphIntent::SelectNode { key: node_key, multi_select: false },
        ]),
        _ => fails_with(r, ActionFailureKind::InvalidPayload, "graph:select_node requires GraphSelectNode payload"@),
    }
}

/// What the `GraphDeselectAll` handler hands back.
pub open spec fn post_graph_deselect_all(ctx: ActionContext, p: ActionPayload, r: ActionOutcome) -> bool {
    match p {
        ActionPayload::GraphDeselectAll => r matches ActionOutcome::Dispatch(d)
            && d.workbench_intents@.len() == 0 && d.app_commands@.len() == 0 && d.runtime_actions@.len() == 0
            && d.intents@.len() == 1 && (d.intents@[0] matches GraphIntent::UpdateSelection { keys, mode }
            && keys@.len() == 0 && mode == SelectionUpdateMode::Replace),
        _ => fails_with(r, ActionFailureKind::InvalidPayload, "graph:deselect_all requires GraphDeselectAll payload"@),
    }
}

/// What the `WorkbenchDetachToSplit` handler hands back.
pub open spec fn post_workbench_detach_to_split(ctx: ActionContext, p: ActionPayload, r: ActionOutcome) -> bool {
    match p {
        ActionPayload::WorkbenchDetachToSplit => with_active_node(ctx, r, ACTION_WORKBENCH_DETACH_TO_SPLIT@,
            |k: NodeKey| only_workbench(r, seq![WorkbenchIntent::DetachNodeToSplit { key: k }])),
        _ => fails_with(r, ActionFailureKind::InvalidPayload, "workbench:detach_to_split requires WorkbenchDetachToSplit payload"@),
    }
}

/// What the `WorkbenchMoveNodeToPane` handler hands back.
pub open spec fn post_workbench_move_node_to_pane(ctx: ActionContext, p: ActionPayload, r: ActionOutcome) -> bool {
    match p {
        ActionPayload::WorkbenchMoveNodeToPane { pane_id } => with_active_node(ctx, r, ACTION_WORKBENCH_MOVE_NODE_TO_PANE@,
            |k: NodeKey| only_workbench(r, seq![WorkbenchIntent::OpenNodeInPane { node: k, pane: pane_id }])),
        _ => fails_with(r, ActionFailureKind::InvalidPayload, "workbench:move_node_to_pane requires WorkbenchMoveNodeToPane payload"@),
    }
}

/// What the `WorkbenchSplitHorizontal` handler hands back.
pub open spec fn post_workbench_split_horizontal(ctx: ActionContext, p: ActionPayload, r: ActionOutcome) -> bool {
    match p {
        ActionPayload::WorkbenchSplitHorizontal { pane_id } => only_workbench(r, seq![
            WorkbenchIntent::SplitPane { source_pane: pane_id, direction: SplitDirection::Horizontal },
        ]),
        _ => fails_with(r, ActionFailureKind::InvalidPayload, "workbench:split_horizontal requires WorkbenchSplitHorizontal payload"@),
    }
}

/// What the `WorkbenchSplitVertical` handler hands back.
pub open spec fn post_workbench_split_vertical(ctx: ActionContext, p: ActionPayload, r: ActionOutcome) -> bool {
    match p {
        ActionPayload::WorkbenchSplitVertical { pane_id } => only_workbench(r, seq![
            WorkbenchIntent::SplitPane { source_pane: pane_id, direction: SplitDirection::Vertical },
        ]),
        _ => fails_with(r, ActionFailureKind::InvalidPayload, "workbench:split_vertical requires WorkbenchSplitVertical payload"@),
    }
}

/// What the `WorkbenchClosePane` handler hands back.
pub open spec fn post_workbench_close_pane(ctx: ActionContext, p: ActionPayload, r: ActionOutcome) -> bool {
    match p {
        ActionPayload::WorkbenchClosePane { pane_id } => only_workbench(r, seq![
            WorkbenchIntent::ClosePane { pane: pane_id, restore_previous_focus: true },
        ]),
        _ => fails_with(r, ActionFailureKind::InvalidPayload, "workbench:close_pane requires WorkbenchClosePane payload"@),
    }
}

/// What the `WorkbenchCommandPaletteOpen` handler hands back.
pub open spec fn post_workbench_command_palette_open(ctx: ActionContext, p: ActionPayload, r: ActionOutcome) -> bool {
    match p {
        ActionPayload::WorkbenchCommandPaletteOpen => only_workbench(r, seq![WorkbenchIntent::OpenCommandPalette]),
        _ => fails_with(r, ActionFailureKind::InvalidPayload, "workbench:command_palette_open requires WorkbenchCommandPaletteOpen payload"@),
    }
}

/// What the `WorkbenchHelpOpen` handler hands back.
pub open spec fn post_workbench_help_open(ctx: ActionContext, p: ActionPayload, r: ActionOutcome) -> bool {
    match p {
        ActionPayload::WorkbenchHelpOpen => only_intents(r, seq![GraphIntent::ToggleHelpPanel]),
        _ => fails_with(r, ActionFailureKind::InvalidPayload, "workbench:help_open requires WorkbenchHelpOpen payload"@),
    }
}

/// What the `WorkbenchSettingsPaneOpen` handler hands back.
pub open spec fn post_workbench_settings_pane_open(ctx: ActionContext, p: ActionPayload, r: ActionOutcome) -> bool {
    match p {
        ActionPayload::WorkbenchSettingsPaneOpen => only_workbench(r, seq![WorkbenchIntent::OpenToolPane { kind: ToolPaneState::Settings }]),
        _ => fails_with(r, ActionFailureKind::InvalidPayload, "workbench:settings_pane_open requires WorkbenchSettingsPaneOpen payload"@),
    }
}

/// What the `WorkbenchSettingsOverlayOpen` handler hands back.
pub open spec fn post_workbench_settings_overlay_open(ctx: ActionContext, p: ActionPayload, r: ActionOutcome) -> bool {
    match p {
        ActionPayload::WorkbenchSettingsOverlayOpen => settings_route(r, SettingsPath::General),
        _ => fails_with(r, ActionFailureKind::InvalidPayload, "workbench:settings_overlay_open requires WorkbenchSettingsOverlayOpen payload"@),
    }
}

/// What the `WorkbenchSettingsOpen` handler hands back.
pub open spec fn post_workbench_settings_open(ctx: ActionContext, p: ActionPayload, r: ActionOutcome) -> bool {
    match p {
        ActionPayload::WorkbenchSettingsOpen => only_workbench(r, seq![WorkbenchIntent::OpenToolPane { kind: ToolPaneState::Settings }]),
        _ => fails_with(r, ActionFailureKind::InvalidPayload, "workbench:settings_open requires WorkbenchSettingsOpen payload"@),
    }
}

/// What the `WorkbenchUndo` handler hands back.
pub open spec fn post_workbench_undo(ctx: ActionContext, p: ActionPayload, r: ActionOutcome) -> bool {
    match p {
        ActionPayload::WorkbenchUndo => only_intents(r, seq![GraphIntent::Undo]),
        _ => fails_with(r, ActionFailureKind::InvalidPayload, "workbench:undo requires WorkbenchUndo payload"@),
    }
}

/// What the `WorkbenchRedo` handler hands back.
pub open spec fn post_workbench_redo(ctx: ActionContext, p: ActionPayload, r: ActionOutcome) -> bool {
    match p {
        ActionPayload::WorkbenchRedo => only_intents(r, seq![GraphIntent::Redo]),
        _ => fails_with(r, ActionFailureKind::InvalidPayload, "workbench:redo requires WorkbenchRedo payload"@),
    }
}

/// What the `WorkbenchSaveSnapshot` handler hands back.
pub open spec fn post_workbench_save_snapshot(ctx: ActionContext, p: ActionPayload, r: ActionOutcome) -> bool {
    match p {
        ActionPayload::WorkbenchSaveSnapshot => only_commands(r, seq![AppCommand::SaveWorkspaceSnapshot]),
        _ => fails_with(r, ActionFailureKind::InvalidPayload, "workbench:save_snapshot requires WorkbenchSaveSnapshot payload"@),
    }
}

/// What the `WorkbenchRestoreSession` handler hands back.
pub open spec fn post_workbench_restore_session(ctx: ActionContext, p: ActionPayload, r: ActionOutcome) -> bool {
    match p {
        ActionPayload::WorkbenchRestoreSession { name } => if trim_seq(name@).len() == 0 {
                blank_field(r, ACTION_WORKBENCH_RESTORE_SESSION@, "session name"@)
            } else {
                named_command(r, AppCommand::RestoreWorkspaceSnapshotNamed { name }, trim_seq(name@))
            },
        _ => fails_with(r, ActionFailureKind::InvalidPayload, "workbench:restore_session requires WorkbenchRestoreSession payload"@),
    }
}

/// What the `WorkbenchSaveGraph` handler hands back.
pub open spec fn post_workbench_save_graph(ctx: ActionContext, p: ActionPayload, r: ActionOutcome) -> bool {
    match p {
        ActionPayload::WorkbenchSaveGraph { name } => if trim_seq(name@).len() == 0 {
                blank_field(r, ACTION_WORKBENCH_SAVE_GRAPH@, "graph name"@)
            } else {
                named_command(r, AppCommand::SaveGraphSnapshotNamed { name }, trim_seq(name@))
            },
        _ => fails_with(r, ActionFailureKind::InvalidPayload, "workbench:save_graph requires WorkbenchSaveGraph payload"@),
    }
}

/// What the `WorkbenchRestoreGraph` handler hands back.
pub open spec fn post_workbench_restore_graph(ctx: ActionContext, p: ActionPayload, r: ActionOutcome) -> bool {
    match p {
        ActionPayload::WorkbenchRestoreGraph { name } => match name {
            Some(n) => if trim_seq(n@).len() == 0 {
                blank_field(r, ACTION_WORKBENCH_RESTORE_GRAPH@, "graph name"@)
            } else {
                named_command(r, AppCommand::RestoreGraphSnapshotNamed { name: n }, trim_seq(n@))
            },
            None => only_commands(r, seq![AppCommand::RestoreGraphSnapshotLatest]),
        },
        _ => fails_with(r, ActionFailureKind::InvalidPayload, "workbench:restore_graph requires WorkbenchRestoreGraph payload"@),
    }
}

/// What the `WorkbenchOpenPersistenceHub` handler hands back.
pub open spec fn post_workbench_open_persistence_hub(ctx: ActionContext, p: ActionPayload, r: ActionOutcome) -> bool {
    match p {
        ActionPayload::WorkbenchOpenPersistenceHub => settings_route(r, SettingsPath::Persistence),
        _ => fails_with(r, ActionFailureKind::InvalidPayload, "workbench:open_persistence_hub requires WorkbenchOpenPersistenceHub payload"@),
    }
}

/// What the `WorkbenchOpenHistoryManager` handler hands back.
pub open spec fn post_workbench_open_history_manager(ctx: ActionContext, p: ActionPayload, r: ActionOutcome) -> bool {
    match p {
        ActionPayload::WorkbenchOpenHistoryManager => only_workbench(r, seq![WorkbenchIntent::OpenToolPane { kind: ToolPaneState::HistoryManager }]),
        _ => fails_with(r, ActionFailureKind::InvalidPayload, "workbench:open_history_manager requires WorkbenchOpenHistoryManager payload"@),
    }
}

/// What the `WorkbenchActivateWorkflow` handler hands back.
pub open spec fn post_workbench_activate_workflow(ctx: ActionContext, p: ActionPayload, r: ActionOutcome) -> bool {
    match p {
        ActionPayload::WorkbenchActivateWorkflow { workflow_id } => if trim_seq(workflow_id@).len() == 0 {
                blank_field(r, ACTION_WORKBENCH_ACTIVATE_WORKFLOW@, "workflow id"@)
            } else {
                r matches ActionOutcome::Dispatch(d) && d.intents@.len() == 0 && d.workbench_intents@.len() == 0
                    && d.app_commands@.len() == 0 && d.runtime_actions@.len() == 1
                    && (d.runtime_actions@[0] matches RuntimeAction::ActivateWorkflow { workflow_id: w }
                    && w@ == trim_seq(workflow_id@))
            },
        _ => fails_with(r, ActionFailureKind::InvalidPayload, "workbench:activate_workflow requires WorkbenchActivateWorkflow payload"@),
    }
}

/// What the `GraphViewSubmit` handler hands back.
pub open spec fn post_graph_view_submit(ctx: ActionContext, p: ActionPayload, r: ActionOutcome) -> bool {
    match p {
        ActionPayload::GraphViewSubmit { input } => {
            let t = trim_seq(input@);
            if t.len() == 0 {
                fails_with(r, ActionFailureKind::Rejected, "graph_view_submit rejected empty input"@)
            } else {
                r matches ActionOutcome::Dispatch(d) && d.workbench_intents@.len() == 0 && d.app_commands@.len() == 0
                    && d.runtime_actions@.len() == 0 && d.intents@.len() == 1 && match ctx.single_selected_spec() {
                    Some(k) => (d.intents@[0] matches GraphIntent::SetNodeUrl { key, new_url } && key == k && new_url@ == t),
                    None => (d.intents@[0] matches GraphIntent::CreateNodeAtUrl { url, near } && url@ == t && near == ctx.primary),
                }
            }
        },
        _ => fails_with(r, ActionFailureKind::InvalidPayload, "graph_view_submit requires GraphViewSubmit payload"@),
    }
}

/// What the `DetailViewSubmit` handler hands back.
pub open spec fn post_detail_view_submit(ctx: ActionContext, p: ActionPayload, r: ActionOutcome) -> bool {
    match p {
        ActionPayload::DetailViewSubmit { normalized_url, focused_node } => if trim_seq(normalized_url@).len() == 0 {
                fails_with(r, ActionFailureKind::Rejected, "detail_view_submit rejected empty url"@)
            } else {
                match focused_node {
                    Some(k) => only_intents(r, seq![
                        GraphIntent::SetNodeUrl { key: k, new_url: normalized_url },
                        GraphIntent::PromoteNodeToActive { key: k, cause: LifecycleCause::Restore },
                    ]),
                    None => only_intents(r, seq![GraphIntent::CreateNodeAtUrl { url: normalized_url, near: ctx.primary }]),
                }
            },
        _ => fails_with(r, ActionFailureKind::InvalidPayload, "detail_view_submit requires DetailViewSubmit payload"@),
    }
}

/// What the `OmniboxNodeSearch` handler hands back.
pub open spec fn post_omnibox_node_search(ctx: ActionContext, p: ActionPayload, r: ActionOutcome) -> bool {
    match p {
        ActionPayload::OmniboxNodeSearch { query } => if ctx.omnibox_results@.len() == 0 {
                fails_with(r, ActionFailureKind::Rejected, "omnibox_node_search found no match for '"@ + query@ + "'"@)
            } else {
                match ctx.omnibox_results@[0] {
                    SearchResultKind::Node(k) => only_intents(r, seq![GraphIntent::SelectNode { key: k, multi_select: false }]),
                    SearchResultKind::HistoryUrl(u) => only_intents(r, seq![GraphIntent::CreateNodeAtUrl { url: u, near: ctx.primary }]),
                    SearchResultKind::KnowledgeTag { code } => fails_with(r, ActionFailureKind::Rejected,
                        "omnibox_node_search matched knowledge tag 'udc:"@ + code@ + "' but no graph node yet"@),
                }
            },
        _ => fails_with(r, ActionFailureKind::InvalidPayload, "omnibox_node_search requires OmniboxNodeSearch payload"@),
    }
}

/// What the `VersePairDevice` handler hands back.
pub open spec fn post_verse_pair_device(ctx: ActionContext, p: ActionPayload, r: ActionOutcome) -> bool {
    match p {
        ActionPayload::VersePairDevice { mode } => match mode {
            PairingMode::ShowCode => fails_with(r, ActionFailureKind::Rejected, "verse_pair_device show-code is handled by the UI surface"@),
            PairingMode::EnterCode { .. } => match ctx.peer_resolution {
                Ok(id) => trusts_peer(r, id, "Paired "@ + id@.subrange(0, 8)),
                Err(e) => fails_with(r, ActionFailureKind::Rejected, "pairing code decode failed: "@ + e@),
            },
            PairingMode::LocalPeer { node_id } => match ctx.peer_resolution {
                Ok(id) => trusts_peer(r, id, "Local "@ + id@.subrange(0, 8)),
                Err(e) => fails_with(r, ActionFailureKind::Rejected, "invalid local peer id '"@ + node_id@ + "': "@ + e@),
            },
        },
        _ => fails_with(r, ActionFailureKind::InvalidPayload, "verse_pair_device requires VersePairDevice payload"@),
    }
}

/// What the `VerseSyncNow` handler hands back.
pub open spec fn post_verse_sync_now(ctx: ActionContext, p: ActionPayload, r: ActionOutcome) -> bool {
    only_intents(r, seq![GraphIntent::SyncNow])
}

/// What the `VerseShareWorkspace` handler hands back.
pub open spec fn post_verse_share_workspace(ctx: ActionContext, p: ActionPayload, r: ActionOutcome) -> bool {
    match p {
        ActionPayload::VerseShareWorkspace { workspace_id } => if trim_seq(workspace_id@).len() == 0 {
                fails_with(r, ActionFailureKind::Rejected, "verse_share_workspace rejected empty workspace id"@)
            } else if ctx.trusted_peers@.len() == 0 {
                fails_with(r, ActionFailureKind::Rejected, "verse_share_workspace has no trusted peers to share with"@)
            } else {
                only_intents(r, share_intents(ctx.trusted_peers@, workspace_id))
            },
        _ => fails_with(r, ActionFailureKind::InvalidPayload, "verse_share_workspace requires VerseShareWorkspace payload"@),
    }
}

/// What the `VerseForgetDevice` handler hands back.
pub open spec fn post_verse_forget_device(ctx: ActionContext, p: ActionPayload, r: ActionOutcome) -> bool {
    match p {
        ActionPayload::VerseForgetDevice { node_id } => if trim_seq(node_id@).len() == 0 {
                fails_with(r, ActionFailureKind::Rejected, "verse_forget_device rejected empty peer id"@)
            } else {
                only_intents(r, seq![GraphIntent::ForgetDevice { peer_id: node_id }])
            },
        _ => fails_with(r, ActionFailureKind::InvalidPayload, "verse_forget_device requires VerseForgetDevice payload"@),
    }
}

/// What handler `h` hands back for `p` in `ctx`.
pub open spec fn handler_post(h: ActionHandler, ctx: ActionContext, p: ActionPayload, r: ActionOutcome) -> bool {
    match h {
        ActionHandler::GraphNodeOpen => post_graph_node_open(ctx, p, r),
        ActionHandler::GraphNodeClose => post_graph_node_close(ctx, p, r),
        ActionHandler::GraphSelectionWarmSelect => post_graph_selection_warm_select(ctx, p, r),
        ActionHandler::GraphNodeRemoveFromGraphlet => post_graph_node_remove_from_graphlet(ctx, p, r),
        ActionHandler::GraphNodeNew => post_graph_node_new(ctx, p, r),
        ActionHandler::GraphNodeNewAsTab => post_graph_node_new_as_tab(ctx, p, r),
        ActionHandler::GraphNodePinToggle => post_graph_node_pin_toggle(ctx, p, r),
        ActionHandler::GraphNodePinSelected => post_graph_node_pin_selected(ctx, p, r),
        ActionHandler::GraphNodeUnpinSelected => post_graph_node_unpin_selected(ctx, p, r),
        ActionHandler::GraphNodeDelete => post_graph_node_delete(ctx, p, r),
        ActionHandler::GraphNodeChooseFrame => post_graph_node_choose_frame(ctx, p, r),
        ActionHandler::GraphNodeAddToFrame => post_graph_node_add_to_frame(ctx, p, r),
        ActionHandler::GraphNodeAddConnectedToFrame => post_graph_node_add_connected_to_frame(ctx, p, r),
        ActionHandler::GraphNodeOpenFrame => post_graph_node_open_frame(ctx, p, r),
        ActionHandler::GraphNodeOpenNeighbors => post_graph_node_open_neighbors(ctx, p, r),
        ActionHandler::GraphNodeOpenConnected => post_graph_node_open_connected(ctx, p, r),
        ActionHandler::GraphNodeOpenSplit => post_graph_node_open_split(ctx, p, r),
        ActionHandler::GraphNodeCopyUrl => post_graph_node_copy_url(ctx, p, r),
        ActionHandler::GraphNodeCopyTitle => post_graph_node_copy_title(ctx, p, r),
        ActionHandler::GraphEdgeCreate => post_graph_edge_create(ctx, p, r),
        ActionHandler::GraphEdgeConnectPair => post_graph_edge_connect_pair(ctx, p, r),
        ActionHandler::GraphEdgeConnectBoth => post_graph_edge_connect_both(ctx, p, r),
        ActionHandler::GraphEdgeRemoveUser => post_graph_edge_remove_user(ctx, p, r),
        ActionHandler::GraphSetPhysicsProfile => post_graph_set_physics_profile(ctx, p, r),
        ActionHandler::GraphFit => post_graph_fit(ctx, p, r),
        ActionHandler::GraphTogglePhysics => post_graph_toggle_physics(ctx, p, r),
        ActionHandler::GraphNavigateBack => post_graph_navigate_back(ctx, p, r),
        ActionHandler::GraphNavigateForward => post_graph_navigate_forward(ctx, p, r),
        ActionHandler::GraphSelectNode => post_graph_select_node(ctx, p, r),
        ActionHandler::GraphDeselectAll => post_graph_deselect_all(ctx, p, r),
        ActionHandler::WorkbenchDetachToSplit => post_workbench_detach_to_split(ctx, p, r),
        ActionHandler::WorkbenchMoveNodeToPane => post_workbench_move_node_to_pane(ctx, p, r),
        ActionHandler::WorkbenchSplitHorizontal => post_workbench_split_horizontal(ctx, p, r),
        ActionHandler::WorkbenchSplitVertical => post_workbench_split_vertical(ctx, p, r),
        ActionHandler::WorkbenchClosePane => post_workbench_close_pane(ctx, p, r),
        ActionHandler::WorkbenchCommandPaletteOpen => post_workbench_command_palette_open(ctx, p, r),
        ActionHandler::WorkbenchHelpOpen => post_workbench_help_open(ctx, p, r),
        ActionHandler::WorkbenchSettingsPaneOpen => post_workbench_settings_pane_open(ctx, p, r),
        ActionHandler::WorkbenchSettingsOverlayOpen => post_workbench_settings_overlay_open(ctx, p, r),
        ActionHandler::WorkbenchSettingsOpen => post_workbench_settings_open(ctx, p, r),
        ActionHandler::WorkbenchUndo => post_workbench_undo(ctx, p, r),
        ActionHandler::WorkbenchRedo => post_workbench_redo(ctx, p, r),
        ActionHandler::WorkbenchSaveSnapshot => post_workbench_save_snapshot(ctx, p, r),
        ActionHandler::WorkbenchRestoreSession => post_workbench_restore_session(ctx, p, r),
        ActionHandler::WorkbenchSaveGraph => post_workbench_save_graph(ctx, p, r),
        ActionHandler::WorkbenchRestoreGraph => post_workbench_restore_graph(ctx, p, r),
        ActionHandler::WorkbenchOpenPersistenceHub => post_workbench_open_persistence_hub(ctx, p, r),
        ActionHandler::WorkbenchOpenHistoryManager => post_workbench_open_history_manager(ctx, p, r),
        ActionHandler::WorkbenchActivateWorkflow => post_workbench_activate_workflow(ctx, p, r),
        ActionHandler::GraphViewSubmit => post_graph_view_submit(ctx, p, r),
        ActionHandler::DetailViewSubmit => post_detail_view_submit(ctx, p, r),
        ActionHandler::OmniboxNodeSearch => post_omnibox_node_search(ctx, p, r),
        ActionHandler::VersePairDevice => post_verse_pair_device(ctx, p, r),
        ActionHandler::VerseSyncNow => post_verse_sync_now(ctx, p, r),
        ActionHandler::VerseShareWorkspace => post_verse_share_workspace(ctx, p, r),
        ActionHandler::VerseForgetDevice => post_verse_forget_device(ctx, p, r),
    }
}

/// A vector of one element.
fn one<T>(x: T) -> (v: Vec<T>)
    ensures
        v@ == seq![x],
{
    let mut v = Vec::new();
    v.push(x);
    v
}

fn invalid(reason: &str) -> (r: ActionOutcome)
    ensures
        fails_with(r, ActionFailureKind::InvalidPayload, reason@),
{
    ActionOutcome::Failure(ActionFailure { kind: ActionFailureKind::InvalidPayload, reason: owned(reason) })
}

fn rejected(reason: String) -> (r: ActionOutcome)
    ensures
        fails_with(r, ActionFailureKind::Rejected, reason@),
{
    ActionOutcome::Failure(ActionFailure { kind: ActionFailureKind::Rejected, reason })
}

fn clone_label(label: &Option<String>) -> (r: Option<String>)
    ensures
        r == *label,
{
    match label {
        Some(l) => Some(l.clone()),
        None => None,
    }
}

/// The single selected node, or the rejection of an action that needs one.
pub fn require_active_node(ctx: &ActionContext, action_id: &str) -> (r: Result<NodeKey, ActionOutcome>)
    ensures
        r matches Ok(k) ==> ctx.single_selected_spec() == Some(k),
        r matches Err(o) ==> ctx.single_selected_spec() is None && no_active_node(o, action_id@),
{
    match ctx.single_selected_node() {
        Some(k) => Ok(k),
        None => Err(rejected(join3("action '", action_id, "' requires exactly one active node"))),
    }
}

/// The trimmed value of a required text field, or the rejection of a blank one.
pub fn require_named_payload(name: &str, value: &str, action_id: &str) -> (r: Result<String, ActionOutcome>)
    ensures
        r matches Ok(t) ==> t@ == trim_seq(value@) && t@.len() > 0,
        r matches Err(o) ==> trim_seq(value@).len() == 0 && blank_field(o, action_id@, name@),
{
    let trimmed = trim(value);
    if trimmed.unicode_len() == 0 {
        let head = join3("action '", action_id, "' requires non-empty ");
        return Err(rejected(join2(head.as_str(), name)));
    }
    Ok(trimmed)
}

fn trust_peer_outcome(prefix: &str, peer: &String) -> (r: ActionOutcome)
    requires
        peer@.len() >= 8,
    ensures
        trusts_peer(r, *peer, prefix@ + peer@.subrange(0, 8)),
{
    let short = slice(peer.as_str(), 0, 8);
    let display_name = join2(prefix, short.as_str());
    ActionOutcome::Dispatch(ActionDispatch::intents(one(GraphIntent::TrustPeer { peer_id: peer.clone(), display_name })))
}

/// Whether the graph holds node `key` and it is cold.
fn node_is_cold(nodes: &Vec<GraphNodeState>, key: NodeKey) -> (r: bool)
    ensures
        r == is_cold(nodes@, key),
{
    let mut i: usize = 0;
    while i < nodes.len()
        invariant
            i <= nodes@.len(),
            forall|j: int| 0 <= j < i ==> !(nodes@[j].key == key && nodes@[j].lifecycle == NodeLifecycle::Cold),
        decreases nodes@.len() - i,
    {
        if nodes[i].key == key && nodes[i].lifecycle == NodeLifecycle::Cold {
            return true;
        }
        i = i + 1;
    }
    false
}

pub fn execute_graph_selection_warm_select_action(ctx: &ActionContext, _payload: &ActionPayload) -> (r: ActionOutcome)
    requires
        ctx.wf(),
    ensures
        post_graph_selection_warm_select(*ctx, *_payload, r),
{
    let mut cold: Vec<NodeKey> = Vec::new();
    let n = ctx.selection.len();
    let mut i: usize = 0;
    while i < n
        invariant
            n == ctx.selection@.len(),
            i <= n,
            cold@ == cold_nodes(ctx.selection@.subrange(0, i as int), ctx.nodes@),
        decreases n - i,
    {
        let key = ctx.selection[i];
        assert(ctx.selection@.subrange(0, i + 1).drop_last() == ctx.selection@.subrange(0, i as int));
        if node_is_cold(&ctx.nodes, key) {
            cold.push(key);
        }
        i = i + 1;
    }
    assert(ctx.selection@.subrange(0, n as int) == ctx.selection@);
    if cold.len() == 0 {
        return rejected(owned("graph:selection_warm_select requires at least one cold node in the selection"));
    }
    proof {
        lemma_cold_nodes_len(ctx.selection@, ctx.nodes@);
    }
    let mut intents: Vec<WorkbenchIntent> = Vec::new();
    let mut j: usize = 0;
    while j < cold.len()
        invariant
            j <= cold@.len(),
            cold@.len() <= n,
            ctx.next_pane_id + n <= u64::MAX,
            intents@ == warm_select_intents(cold@, ctx.next_pane_id).subrange(0, j as int),
        decreases cold@.len() - j,
    {
        intents.push(WorkbenchIntent::OpenNodeInPane { node: cold[j], pane: PaneId(ctx.next_pane_id + j as u64) });
        assert(intents@ =~= warm_select_intents(cold@, ctx.next_pane_id).subrange(0, j + 1));
        j = j + 1;
    }
    assert(intents@ =~= warm_select_intents(cold@, ctx.next_pane_id));
    ActionOutcome::Dispatch(ActionDispatch::workbench_intents(intents))
}

pub proof fn lemma_cold_nodes_len(sel: Seq<NodeKey>, nodes: Seq<GraphNodeState>)
    ensures
        cold_nodes(sel, nodes).len() <= sel.len(),
    decreases sel.len(),
{
    if sel.len() > 0 {
        lemma_cold_nodes_len(sel.drop_last(), nodes);
    }
}

proof fn lemma_cold_nodes_members(sel: Seq<NodeKey>, nodes: Seq<GraphNodeState>)
    ensures
        forall|i: int| 0 <= i < cold_nodes(sel, nodes).len() ==> sel.contains(#[trigger] cold_nodes(sel, nodes)[i])
            && exists|j: int| 0 <= j < nodes.len() && nodes[j].key == cold_nodes(sel, nodes)[i]
                && nodes[j].lifecycle == NodeLifecycle::Cold,
        forall|i: int| 0 <= i < sel.len() && (exists|j: int| 0 <= j < nodes.len() && nodes[j].key == #[trigger] sel[i]
            && nodes[j].lifecycle == NodeLifecycle::Cold) ==> cold_nodes(sel, nodes).contains(sel[i]),
    decreases sel.len(),
{
    if sel.len() > 0 {
        let p = sel.drop_last();
        lemma_cold_nodes_members(p, nodes);
        let cp = cold_nodes(p, nodes);
        let c = cold_nodes(sel, nodes);
        assert forall|i: int| 0 <= i < c.len() implies sel.contains(#[trigger] c[i])
            && exists|j: int| 0 <= j < nodes.len() && nodes[j].key == c[i] && nodes[j].lifecycle == NodeLifecycle::Cold by {
            if i < cp.len() {
                assert(c[i] == cp[i]);
                assert(p.contains(cp[i]));
                let k = choose|k: int| 0 <= k < p.len() && p[k] == cp[i];
                assert(sel[k] == p[k]);
            } else {
                assert(c[i] == sel.last());
                assert(sel[sel.len() - 1] == sel.last());
            }
        }
        assert forall|i: int| 0 <= i < sel.len() && (exists|j: int| 0 <= j < nodes.len() && nodes[j].key == #[trigger] sel[i]
            && nodes[j].lifecycle == NodeLifecycle::Cold) implies c.contains(sel[i]) by {
            if i < sel.len() - 1 {
                assert(p[i] == sel[i]);
                assert(cp.contains(p[i]));
                let k = choose|k: int| 0 <= k < cp.len() && cp[k] == p[i];
                assert(c[k] == cp[k]);
            } else {
                assert(sel[i] == sel.last());
                assert(is_cold(nodes, sel.last()));
                assert(c[c.len() - 1] == sel.last());
            }
        }
    }
}

/// Warm select opens exactly the selected nodes that the graph holds as cold,
/// each in a pane of its own from the first free pane on, and refuses a
/// selection without a cold node.
pub proof fn law_warm_select_opens_the_cold_selection(ctx: ActionContext, p: ActionPayload, r: ActionOutcome)
    requires
        ctx.wf(),
        post_graph_selection_warm_select(ctx, p, r),
    ensures
        r matches ActionOutcome::Dispatch(d) ==> {
            &&& d.intents@.len() == 0
            &&& forall|i: int| 0 <= i < d.workbench_intents@.len() ==> (#[trigger] d.workbench_intents@[i] matches
                WorkbenchIntent::OpenNodeInPane { node, pane } && ctx.selection@.contains(node)
                && pane.0 == ctx.next_pane_id + i
                && exists|j: int| 0 <= j < ctx.nodes@.len() && ctx.nodes@[j].key == node
                    && ctx.nodes@[j].lifecycle == NodeLifecycle::Cold)
            &&& forall|k: int, j: int| 0 <= k < ctx.selection@.len() && 0 <= j < ctx.nodes@.len()
                && ctx.nodes@[j].key == #[trigger] ctx.selection@[k] && #[trigger] ctx.nodes@[j].lifecycle == NodeLifecycle::Cold
                ==> exists|i: int| 0 <= i < d.workbench_intents@.len()
                    && (#[trigger] d.workbench_intents@[i] matches WorkbenchIntent::OpenNodeInPane { node, .. } && node == ctx.selection@[k])
        },
        (forall|k: int, j: int| 0 <= k < ctx.selection@.len() && 0 <= j < ctx.nodes@.len()
            && ctx.nodes@[j].key == #[trigger] ctx.selection@[k] ==> #[trigger] ctx.nodes@[j].lifecycle != NodeLifecycle::Cold)
            ==> (r matches ActionOutcome::Failure(f) && f.kind == ActionFailureKind::Rejected),
{
    let sel = ctx.selection@;
    let nodes = ctx.nodes@;
    let cold = cold_nodes(sel, nodes);
    lemma_cold_nodes_members(sel, nodes);
    lemma_cold_nodes_len(sel, nodes);
    if cold.len() > 0 {
        let s = warm_select_intents(cold, ctx.next_pane_id);
        assert(sel.contains(cold[0]));
        let k0 = choose|k: int| 0 <= k < sel.len() && sel[k] == cold[0];
        let j0 = choose|j: int| 0 <= j < nodes.len() && nodes[j].key == cold[0] && nodes[j].lifecycle == NodeLifecycle::Cold;
        assert(nodes[j0].key == sel[k0] && nodes[j0].lifecycle == NodeLifecycle::Cold);
        assert forall|k: int, j: int| 0 <= k < sel.len() && 0 <= j < nodes.len()
            && nodes[j].key == #[trigger] sel[k] && #[trigger] nodes[j].lifecycle == NodeLifecycle::Cold
            implies exists|i: int| 0 <= i < s.len()
                && (#[trigger] s[i] matches WorkbenchIntent::OpenNodeInPane { node, .. } && node == sel[k]) by {
            assert(cold.contains(sel[k]));
            let i = choose|i: int| 0 <= i < cold.len() && cold[i] == sel[k];
            assert(s[i] matches WorkbenchIntent::OpenNodeInPane { node, .. } && node == sel[k]);
        }
        assert forall|i: int| 0 <= i < s.len() implies (#[trigger] s[i] matches
                WorkbenchIntent::OpenNodeInPane { node, pane } && sel.contains(node)
                && pane.0 == ctx.next_pane_id + i
                && exists|j: int| 0 <= j < nodes.len() && nodes[j].key == node
                    && nodes[j].lifecycle == NodeLifecycle::Cold) by {
            assert(sel.contains(cold[i]));
            assert(ctx.next_pane_id + i <= u64::MAX);
            assert(s[i] == WorkbenchIntent::OpenNodeInPane { node: cold[i], pane: PaneId((ctx.next_pane_id + i) as u64) });
        }
    } else {
        assert forall|k: int, j: int| 0 <= k < sel.len() && 0 <= j < nodes.len()
            && nodes[j].key == #[trigger] sel[k] implies #[trigger] nodes[j].lifecycle != NodeLifecycle::Cold by {
            if nodes[j].lifecycle == NodeLifecycle::Cold {
                assert(cold.contains(sel[k]));
            }
        }
    }
}

pub fn execute_graph_node_remove_from_graphlet_action(ctx: &ActionContext, _payload: &ActionPayload) -> (r: ActionOutcome)
    ensures
        post_graph_node_remove_from_graphlet(*ctx, *_payload, r),
{
    if ctx.selection.len() == 0 {
        return rejected(owned("graph:node_remove_from_graphlet requires a selected node"));
    }
    let node_key = ctx.selection[0];
    let mut intents: Vec<GraphIntent> = Vec::new();
    let n = ctx.edges.len();
    let mut i: usize = 0;
    while i < n
        invariant
            n == ctx.edges@.len(),
            i <= n,
            intents@ == graphlet_retractions(ctx.edges@.subrange(0, i as int), node_key),
        decreases n - i,
    {
        let edge = ctx.edges[i];
        assert(ctx.edges@.subrange(0, i + 1).drop_last() == ctx.edges@.subrange(0, i as int));
        if edge.from == node_key || edge.to == node_key {
            if edge.user_grouped {
                intents.push(GraphIntent::RemoveEdge { from: edge.from, to: edge.to, selector: RelationSelector::UserGrouped });
            }
            if edge.frame_member {
                intents.push(GraphIntent::RemoveEdge { from: edge.from, to: edge.to, selector: RelationSelector::FrameMember });
            }
        }
        assert(intents@ =~= graphlet_retractions(ctx.edges@.subrange(0, i + 1), node_key));
        i = i + 1;
    }
    assert(ctx.edges@.subrange(0, n as int) == ctx.edges@);
    if intents.len() == 0 {
        return rejected(owned("node has no durable graphlet edges to retract"));
    }
    ActionOutcome::Dispatch(ActionDispatch::intents(intents))
}

pub fn execute_verse_sync_now_action(_ctx: &ActionContext, _payload: &ActionPayload) -> (r: ActionOutcome)
    ensures
        post_verse_sync_now(*_ctx, *_payload, r),
{
    ActionOutcome::Dispatch(ActionDispatch::intents(one(GraphIntent::SyncNow)))
}

pub fn execute_graph_node_open_action(_ctx: &ActionContext, payload: &ActionPayload) -> (r: ActionOutcome)
    ensures
        post_graph_node_open(*_ctx, *payload, r),
{
    match payload {
        ActionPayload::GraphNodeOpen { node_key, pane_id: _ } => {
            ActionOutcome::Dispatch(ActionDispatch::intents(vec![GraphIntent::SelectNode { key: *node_key, multi_select: false }, GraphIntent::PromoteNodeToActive { key: *node_key, cause: LifecycleCause::UserSelect }]))
        },
        _ => invalid("graph:node_open requires GraphNodeOpen payload"),
    }
}

pub fn execute_graph_node_close_action(_ctx: &ActionContext, payload: &ActionPayload) -> (r: ActionOutcome)
    ensures
        post_graph_node_close(*_ctx, *payload, r),
{
    match payload {
        ActionPayload::GraphNodeClose { node_key } => {
            ActionOutcome::Dispatch(ActionDispatch::intents(one(GraphIntent::DemoteNodeToCold { key: *node_key, cause: LifecycleCause::ExplicitClose })))
        },
        _ => invalid("graph:node_close requires GraphNodeClose payload"),
    }
}

pub fn execute_graph_node_new_action(_ctx: &ActionContext, payload: &ActionPayload) -> (r: ActionOutcome)
    ensures
        post_graph_node_new(*_ctx, *payload, r),
{
    match payload {
        ActionPayload::GraphNodeNew => {
            ActionOutcome::Dispatch(ActionDispatch::intents(one(GraphIntent::CreateNodeNearCenter)))
        },
        _ => invalid("graph:node_new requires GraphNodeNew payload"),
    }
}

pub fn execute_graph_node_new_as_tab_action(_ctx: &ActionContext, payload: &ActionPayload) -> (r: ActionOutcome)
    ensures
        post_graph_node_new_as_tab(*_ctx, *payload, r),
{
    match payload {
        ActionPayload::GraphNodeNewAsTab => {
            ActionOutcome::Dispatch(ActionDispatch::intents(one(GraphIntent::CreateNodeNearCenterAndOpen { mode: PendingTileOpenMode::Tab })))
        },
        _ => invalid("graph:node_new_as_tab requires GraphNodeNewAsTab payload"),
    }
}

pub fn execute_graph_node_pin_toggle_action(ctx: &ActionContext, payload: &ActionPayload) -> (r: ActionOutcome)
    ensures
        post_graph_node_pin_toggle(*ctx, *payload, r),
{
    match payload {
        ActionPayload::GraphNodePinToggle => {
            match require_active_node(ctx, ACTION_GRAPH_NODE_PIN_TOGGLE) {
                Ok(node_key) => { let _ = node_key; ActionOutcome::Dispatch(ActionDispatch::intents(one(GraphIntent::TogglePrimaryNodePin))) },
                Err(outcome) => outcome,
            }
        },
        _ => invalid("graph:node_pin_toggle requires GraphNodePinToggle payload"),
    }
}

pub fn execute_graph_node_pin_selected_action(_ctx: &ActionContext, payload: &ActionPayload) -> (r: ActionOutcome)
    ensures
        post_graph_node_pin_selected(*_ctx, *payload, r),
{
    match payload {
        ActionPayload::GraphNodePinSelected => {
            ActionOutcome::Dispatch(ActionDispatch::intents(one(GraphIntent::ExecuteEdgeCommand { command: EdgeCommand::PinSelected })))
        },
        _ => invalid("graph:node_pin_selected requires GraphNodePinSelected payload"),
    }
}

pub fn execute_graph_node_unpin_selected_action(_ctx: &ActionContext, payload: &ActionPayload) -> (r: ActionOutcome)
    ensures
        post_graph_node_unpin_selected(*_ctx, *payload, r),
{
    match payload {
        ActionPayload::GraphNodeUnpinSelected => {
            ActionOutcome::Dispatch(ActionDispatch::intents(one(GraphIntent::ExecuteEdgeCommand { command: EdgeCommand::UnpinSelected })))
        },
        _ => invalid("graph:node_unpin_selected requires GraphNodeUnpinSelected payload"),
    }
}

pub fn execute_graph_node_delete_action(_ctx: &ActionContext, payload: &ActionPayload) -> (r: ActionOutcome)
    ensures
        post_graph_node_delete(*_ctx, *payload, r),
{
    match payload {
        ActionPayload::GraphNodeDelete => {
            ActionOutcome::Dispatch(ActionDispatch::intents(one(GraphIntent::RemoveSelectedNodes)))
        },
        _ => invalid("graph:node_delete requires GraphNodeDelete payload"),
    }
}

pub fn execute_graph_node_choose_frame_action(ctx: &ActionContext, payload: &ActionPayload) -> (r: ActionOutcome)
    ensures
        post_graph_node_choose_frame(*ctx, *payload, r),
{
    match payload {
        ActionPayload::GraphNodeChooseFrame => {
            match require_active_node(ctx, ACTION_GRAPH_NODE_CHOOSE_FRAME) {
                Ok(node_key) => ActionOutcome::Dispatch(ActionDispatch::app_commands(one(AppCommand::ChooseWorkspacePicker { request: ChooseFramePickerRequest { node: node_key, mode: ChooseFramePickerMode::OpenNodeInFrame }, exact_nodes: None }))),
                Err(outcome) => outcome,
            }
        },
        _ => invalid("graph:node_choose_frame requires GraphNodeChooseFrame payload"),
    }
}

pub fn execute_graph_node_add_to_frame_action(ctx: &ActionContext, payload: &ActionPayload) -> (r: ActionOutcome)
    ensures
        post_graph_node_add_to_frame(*ctx, *payload, r),
{
    match payload {
        ActionPayload::GraphNodeAddToFrame => {
            match require_active_node(ctx, ACTION_GRAPH_NODE_ADD_TO_FRAME) {
                Ok(node_key) => ActionOutcome::Dispatch(ActionDispatch::app_commands(one(AppCommand::ChooseWorkspacePicker { request: ChooseFramePickerRequest { node: node_key, mode: ChooseFramePickerMode::AddNodeToFrame }, exact_nodes: None }))),
                Err(outcome) => outcome,
            }
        },
        _ => invalid("graph:node_add_to_frame requires GraphNodeAddToFrame payload"),
    }
}

pub fn execute_graph_node_add_connected_to_frame_action(ctx: &ActionContext, payload: &ActionPayload) -> (r: ActionOutcome)
    ensures
        post_graph_node_add_connected_to_frame(*ctx, *payload, r),
{
    match payload {
        ActionPayload::GraphNodeAddConnectedToFrame => {
            match require_active_node(ctx, ACTION_GRAPH_NODE_ADD_CONNECTED_TO_FRAME) {
                Ok(node_key) => ActionOutcome::Dispatch(ActionDispatch::app_commands(one(AppCommand::ChooseWorkspacePicker { request: ChooseFramePickerRequest { node: node_key, mode: ChooseFramePickerMode::AddConnectedSelectionToFrame }, exact_nodes: None }))),
                Err(outcome) => outcome,
            }
        },
        _ => invalid("graph:node_add_connected_to_frame requires GraphNodeAddConnectedToFrame payload"),
    }
}

pub fn execute_graph_node_open_frame_action(ctx: &ActionContext, payload: &ActionPayload) -> (r: ActionOutcome)
    ensures
        post_graph_node_open_frame(*ctx, *payload, r),
{
    match payload {
        ActionPayload::GraphNodeOpenFrame => {
            match require_active_node(ctx, ACTION_GRAPH_NODE_OPEN_FRAME) {
                Ok(node_key) => ActionOutcome::Dispatch(ActionDispatch::intents(one(GraphIntent::OpenNodeFrameRouted { key: node_key, prefer_frame: None }))),
                Err(outcome) => outcome,
            }
        },
        _ => invalid("graph:node_open_frame requires GraphNodeOpenFrame payload"),
    }
}

pub fn execute_graph_node_open_neighbors_action(ctx: &ActionContext, payload: &ActionPayload) -> (r: ActionOutcome)
    ensures
        post_graph_node_open_neighbors(*ctx, *payload, r),
{
    match payload {
        ActionPayload::GraphNodeOpenNeighbors => {
            match require_active_node(ctx, ACTION_GRAPH_NODE_OPEN_NEIGHBORS) {
                Ok(node_key) => ActionOutcome::Dispatch(ActionDispatch::app_commands(one(AppCommand::OpenConnected { source: node_key, mode: PendingTileOpenMode::Tab, scope: PendingConnectedOpenScope::Neighbors }))),
                Err(outcome) => outcome,
            }
        },
        _ => invalid("graph:node_open_neighbors requires GraphNodeOpenNeighbors payload"),
    }
}

pub fn execute_graph_node_open_connected_action(ctx: &ActionContext, payload: &ActionPayload) -> (r: ActionOutcome)
    ensures
        post_graph_node_open_connected(*ctx, *payload, r),
{
    match payload {
        ActionPayload::GraphNodeOpenConnected => {
            match require_active_node(ctx, ACTION_GRAPH_NODE_OPEN_CONNECTED) {
                Ok(node_key) => ActionOutcome::Dispatch(ActionDispatch::app_commands(one(AppCommand::OpenConnected { source: node_key, mode: PendingTileOpenMode::Tab, scope: PendingConnectedOpenScope::Connected }))),
                Err(outcome) => outcome,
            }
        },
        _ => invalid("graph:node_open_connected requires GraphNodeOpenConnected payload"),
    }
}

pub fn execute_graph_node_open_split_action(ctx: &ActionContext, payload: &ActionPayload) -> (r: ActionOutcome)
    ensures
        post_graph_node_open_split(*ctx, *payload, r),
{
    match payload {
        ActionPayload::GraphNodeOpenSplit => {
            match require_active_node(ctx, ACTION_GRAPH_NODE_OPEN_SPLIT) {
                Ok(node_key) => ActionOutcome::Dispatch(ActionDispatch::app_commands(one(AppCommand::OpenNode { request: PendingNodeOpenRequest { key: node_key, mode: PendingTileOpenMode::SplitHorizontal } }))),
                Err(outcome) => outcome,
            }
        },
        _ => invalid("graph:node_open_split requires GraphNodeOpenSplit payload"),
    }
}

pub fn execute_graph_node_copy_url_action(ctx: &ActionContext, payload: &ActionPayload) -> (r: ActionOutcome)
    ensures
        post_graph_node_copy_url(*ctx, *payload, r),
{
    match payload {
        ActionPayload::GraphNodeCopyUrl => {
            match require_active_node(ctx, ACTION_GRAPH_NODE_COPY_URL) {
                Ok(node_key) => ActionOutcome::Dispatch(ActionDispatch::app_commands(one(AppCommand::ClipboardCopy { request: ClipboardCopyRequest { key: node_key, kind: ClipboardCopyKind::Url } }))),
                Err(outcome) => outcome,
            }
        },
        _ => invalid("graph:node_copy_url requires GraphNodeCopyUrl payload"),
    }
}

pub fn execute_graph_node_copy_title_action(ctx: &ActionContext, payload: &ActionPayload) -> (r: ActionOutcome)
    ensures
        post_graph_node_copy_title(*ctx, *payload, r),
{
    match payload {
        ActionPayload::GraphNodeCopyTitle => {
            match require_active_node(ctx, ACTION_GRAPH_NODE_COPY_TITLE) {
                Ok(node_key) => ActionOutcome::Dispatch(ActionDispatch::app_commands(one(AppCommand::ClipboardCopy { request: ClipboardCopyRequest { key: node_key, kind: ClipboardCopyKind::Title } }))),
                Err(outcome) => outcome,
            }
        },
        _ => invalid("graph:node_copy_title requires GraphNodeCopyTitle payload"),
    }
}

pub fn execute_graph_edge_create_action(_ctx: &ActionContext, payload: &ActionPayload) -> (r: ActionOutcome)
    ensures
        post_graph_edge_create(*_ctx, *payload, r),
{
    match payload {
        ActionPayload::GraphEdgeCreate { from, to, label } => {
            let label = clone_label(label);
            ActionOutcome::Dispatch(ActionDispatch::intents(one(GraphIntent::CreateUserGroupedEdge { from: *from, to: *to, label })))
        },
        _ => invalid("graph:edge_create requires GraphEdgeCreate payload"),
    }
}

pub fn execute_graph_edge_connect_pair_action(_ctx: &ActionContext, payload: &ActionPayload) -> (r: ActionOutcome)
    ensures
        post_graph_edge_connect_pair(*_ctx, *payload, r),
{
    match payload {
        ActionPayload::GraphEdgeConnectPair => {
            ActionOutcome::Dispatch(ActionDispatch::intents(one(GraphIntent::ExecuteEdgeCommand { command: EdgeCommand::ConnectSelectedPair })))
        },
        _ => invalid("graph:edge_connect_pair requires GraphEdgeConnectPair payload"),
    }
}

pub fn execute_graph_edge_connect_both_action(_ctx: &ActionContext, payload: &ActionPayload) -> (r: ActionOutcome)
    ensures
        post_graph_edge_connect_both(*_ctx, *payload, r),
{
    match payload {
        ActionPayload::GraphEdgeConnectBoth => {
            ActionOutcome::Dispatch(ActionDispatch::intents(one(GraphIntent::ExecuteEdgeCommand { command: EdgeCommand::ConnectBothDirections })))
        },
        _ => invalid("graph:edge_connect_both requires GraphEdgeConnectBoth payload"),
    }
}

pub fn execute_graph_edge_remove_user_action(_ctx: &ActionContext, payload: &ActionPayload) -> (r: ActionOutcome)
    ensures
        post_graph_edge_remove_user(*_ctx, *payload, r),
{
    match payload {
        ActionPayload::GraphEdgeRemoveUser => {
            ActionOutcome::Dispatch(ActionDispatch::intents(one(GraphIntent::ExecuteEdgeCommand { command: EdgeCommand::RemoveUserEdge })))
        },
        _ => invalid("graph:edge_remove_user requires GraphEdgeRemoveUser payload"),
    }
}

pub fn execute_graph_set_physics_profile_action(_ctx: &ActionContext, payload: &ActionPayload) -> (r: ActionOutcome)
    ensures
        post_graph_set_physics_profile(*_ctx, *payload, r),
{
    match payload {
        ActionPayload::GraphSetPhysicsProfile { profile_id } => {
            ActionOutcome::Dispatch(ActionDispatch::intents(one(GraphIntent::SetPhysicsProfile { profile_id: profile_id.clone() })))
        },
        _ => invalid("graph:set_physics_profile requires GraphSetPhysicsProfile payload"),
    }
}

pub fn execute_graph_fit_action(_ctx: &ActionContext, payload: &ActionPayload) -> (r: ActionOutcome)
    ensures
        post_graph_fit(*_ctx, *payload, r),
{
    match payload {
        ActionPayload::GraphFit => {
            ActionOutcome::Dispatch(ActionDispatch::intents(one(GraphIntent::RequestFitToScreen)))
        },
        _ => invalid("graph:fit requires GraphFit payload"),
    }
}

pub fn execute_graph_toggle_physics_action(_ctx: &ActionContext, payload: &ActionPayload) -> (r: ActionOutcome)
    ensures
        post_graph_toggle_physics(*_ctx, *payload, r),
{
    match payload {
        ActionPayload::GraphTogglePhysics => {
            ActionOutcome::Dispatch(ActionDispatch::intents(one(GraphIntent::TogglePhysics)))
        },
        _ => invalid("graph:toggle_physics requires GraphTogglePhysics payload"),
    }
}

pub fn execute_graph_navigate_back_action(_ctx: &ActionContext, payload: &ActionPayload) -> (r: ActionOutcome)
    ensures
        post_graph_navigate_back(*_ctx, *payload, r),
{
    match payload {
        ActionPayload::GraphNavigateBack => {
            ActionOutcome::Dispatch(ActionDispatch::intents(one(GraphIntent::TraverseBack)))
        },
        _ => invalid("graph:navigate_back requires GraphNavigateBack payload"),
    }
}

pub fn execute_graph_navigate_forward_action(_ctx: &ActionContext, payload: &ActionPayload) -> (r: ActionOutcome)
    ensures
        post_graph_navigate_forward(*_ctx, *payload, r),
{
    match payload {
        ActionPayload::GraphNavigateForward => {
            ActionOutcome::Dispatch(ActionDispatch::intents(one(GraphIntent::TraverseForward)))
        },
        _ => invalid("graph:navigate_forward requires GraphNavigateForward payload"),
    }
}

pub fn execute_graph_select_node_action(_ctx: &ActionContext, payload: &ActionPayload) -> (r: ActionOutcome)
    ensures
        post_graph_select_node(*_ctx, *payload, r),
{
    match payload {
        ActionPayload::GraphSelectNode { node_key } => {
            ActionOutcome::Dispatch(ActionDispatch::intents(one(GraphIntent::SelectNode { key: *node_key, multi_select: false })))
        },
        _ => invalid("graph:select_node requires GraphSelectNode payload"),
    }
}

pub fn execute_graph_deselect_all_action(_ctx: &ActionContext, payload: &ActionPayload) -> (r: ActionOutcome)
    ensures
        post_graph_deselect_all(*_ctx, *payload, r),
{
    match payload {
        ActionPayload::GraphDeselectAll => {
            ActionOutcome::Dispatch(ActionDispatch::intents(one(GraphIntent::UpdateSelection { keys: Vec::new(), mode: SelectionUpdateMode::Replace })))
        },
        _ => invalid("graph:deselect_all requires GraphDeselectAll payload"),
    }
}

pub fn execute_workbench_detach_to_split_action(ctx: &ActionContext, payload: &ActionPayload) -> (r: ActionOutcome)
    ensures
        post_workbench_detach_to_split(*ctx, *payload, r),
{
    match payload {
        ActionPayload::WorkbenchDetachToSplit => {
            match require_active_node(ctx, ACTION_WORKBENCH_DETACH_TO_SPLIT) {
                Ok(node_key) => ActionOutcome::Dispatch(ActionDispatch::workbench_intent(WorkbenchIntent::DetachNodeToSplit { key: node_key })),
                Err(outcome) => outcome,
            }
        },
        _ => invalid("workbench:detach_to_split requires WorkbenchDetachToSplit payload"),
    }
}

pub fn execute_workbench_move_node_to_pane_action(ctx: &ActionContext, payload: &ActionPayload) -> (r: ActionOutcome)
    ensures
        post_workbench_move_node_to_pane(*ctx, *payload, r),
{
    match payload {
        ActionPayload::WorkbenchMoveNodeToPane { pane_id } => {
            match require_active_node(ctx, ACTION_WORKBENCH_MOVE_NODE_TO_PANE) {
                Ok(node_key) => ActionOutcome::Dispatch(ActionDispatch::workbench_intent(WorkbenchIntent::OpenNodeInPane { node: node_key, pane: *pane_id })),
                Err(outcome) => outcome,
            }
        },
        _ => invalid("workbench:move_node_to_pane requires WorkbenchMoveNodeToPane payload"),
    }
}

pub fn execute_workbench_split_horizontal_action(_ctx: &ActionContext, payload: &ActionPayload) -> (r: ActionOutcome)
    ensures
        post_workbench_split_horizontal(*_ctx, *payload, r),
{
    match payload {
        ActionPayload::WorkbenchSplitHorizontal { pane_id } => {
            ActionOutcome::Dispatch(ActionDispatch::workbench_intent(WorkbenchIntent::SplitPane { source_pane: *pane_id, direction: SplitDirection::Horizontal }))
        },
        _ => invalid("workbench:split_horizontal requires WorkbenchSplitHorizontal payload"),
    }
}

pub fn execute_workbench_split_vertical_action(_ctx: &ActionContext, payload: &ActionPayload) -> (r: ActionOutcome)
    ensures
        post_workbench_split_vertical(*_ctx, *payload, r),
{
    match payload {
        ActionPayload::WorkbenchSplitVertical { pane_id } => {
            ActionOutcome::Dispatch(ActionDispatch::workbench_intent(WorkbenchIntent::SplitPane { source_pane: *pane_id, direction: SplitDirection::Vertical }))
        },
        _ => invalid("workbench:split_vertical requires WorkbenchSplitVertical payload"),
    }
}

pub fn execute_workbench_close_pane_action(_ctx: &ActionContext, payload: &ActionPayload) -> (r: ActionOutcome)
    ensures
        post_workbench_close_pane(*_ctx, *payload, r),
{
    match payload {
        ActionPayload::WorkbenchClosePane { pane_id } => {
            ActionOutcome::Dispatch(ActionDispatch::workbench_intent(WorkbenchIntent::ClosePane { pane: *pane_id, restore_previous_focus: true }))
        },
        _ => invalid("workbench:close_pane requires WorkbenchClosePane payload"),
    }
}

pub fn execute_workbench_command_palette_open_action(_ctx: &ActionContext, payload: &ActionPayload) -> (r: ActionOutcome)
    ensures
        post_workbench_command_palette_open(*_ctx, *payload, r),
{
    match payload {
        ActionPayload::WorkbenchCommandPaletteOpen => {
            ActionOutcome::Dispatch(ActionDispatch::workbench_intent(WorkbenchIntent::OpenCommandPalette))
        },
        _ => invalid("workbench:command_palette_open requires WorkbenchCommandPaletteOpen payload"),
    }
}

pub fn execute_workbench_help_open_action(_ctx: &ActionContext, payload: &ActionPayload) -> (r: ActionOutcome)
    ensures
        post_workbench_help_open(*_ctx, *payload, r),
{
    match payload {
        ActionPayload::WorkbenchHelpOpen => {
            ActionOutcome::Dispatch(ActionDispatch::intents(one(GraphIntent::ToggleHelpPanel)))
        },
        _ => invalid("workbench:help_open requires WorkbenchHelpOpen payload"),
    }
}

pub fn execute_workbench_settings_pane_open_action(_ctx: &ActionContext, payload: &ActionPayload) -> (r: ActionOutcome)
    ensures
        post_workbench_settings_pane_open(*_ctx, *payload, r),
{
    match payload {
        ActionPayload::WorkbenchSettingsPaneOpen => {
            ActionOutcome::Dispatch(ActionDispatch::workbench_intent(WorkbenchIntent::OpenToolPane { kind: ToolPaneState::Settings }))
        },
        _ => invalid("workbench:settings_pane_open requires WorkbenchSettingsPaneOpen payload"),
    }
}

pub fn execute_workbench_settings_overlay_open_action(_ctx: &ActionContext, payload: &ActionPayload) -> (r: ActionOutcome)
    ensures
        post_workbench_settings_overlay_open(*_ctx, *payload, r),
{
    match payload {
        ActionPayload::WorkbenchSettingsOverlayOpen => {
            ActionOutcome::Dispatch(ActionDispatch::runtime_action(RuntimeAction::PublishSettingsRouteRequested { url: settings_url(SettingsPath::General), prefer_overlay: true }))
        },
        _ => invalid("workbench:settings_overlay_open requires WorkbenchSettingsOverlayOpen payload"),
    }
}

pub fn execute_workbench_settings_open_action(ctx: &ActionContext, payload: &ActionPayload) -> (r: ActionOutcome)
    ensures
        post_workbench_settings_open(*ctx, *payload, r),
{
    match payload {
        ActionPayload::WorkbenchSettingsOpen => {
            execute_workbench_settings_pane_open_action(ctx, &ActionPayload::WorkbenchSettingsPaneOpen)
        },
        _ => invalid("workbench:settings_open requires WorkbenchSettingsOpen payload"),
    }
}

pub fn execute_workbench_undo_action(_ctx: &ActionContext, payload: &ActionPayload) -> (r: ActionOutcome)
    ensures
        post_workbench_undo(*_ctx, *payload, r),
{
    match payload {
        ActionPayload::WorkbenchUndo => {
            ActionOutcome::Dispatch(ActionDispatch::intents(one(GraphIntent::Undo)))
        },
        _ => invalid("workbench:undo requires WorkbenchUndo payload"),
    }
}

pub fn execute_workbench_redo_action(_ctx: &ActionContext, payload: &ActionPayload) -> (r: ActionOutcome)
    ensures
        post_workbench_redo(*_ctx, *payload, r),
{
    match payload {
        ActionPayload::WorkbenchRedo => {
            ActionOutcome::Dispatch(ActionDispatch::intents(one(GraphIntent::Redo)))
        },
        _ => invalid("workbench:redo requires WorkbenchRedo payload"),
    }
}

pub fn execute_workbench_save_snapshot_action(_ctx: &ActionContext, payload: &ActionPayload) -> (r: ActionOutcome)
    ensures
        post_workbench_save_snapshot(*_ctx, *payload, r),
{
    match payload {
        ActionPayload::WorkbenchSaveSnapshot => {
            ActionOutcome::Dispatch(ActionDispatch::app_commands(one(AppCommand::SaveWorkspaceSnapshot)))
        },
        _ => invalid("workbench:save_snapshot requires WorkbenchSaveSnapshot payload"),
    }
}

pub fn execute_workbench_restore_session_action(_ctx: &ActionContext, payload: &ActionPayload) -> (r: ActionOutcome)
    ensures
        post_workbench_restore_session(*_ctx, *payload, r),
{
    match payload {
        ActionPayload::WorkbenchRestoreSession { name } => {
            match require_named_payload("session name", name.as_str(), ACTION_WORKBENCH_RESTORE_SESSION) {
                Ok(name) => ActionOutcome::Dispatch(ActionDispatch::app_commands(one(AppCommand::RestoreWorkspaceSnapshotNamed { name }))),
                Err(outcome) => outcome,
            }
        },
        _ => invalid("workbench:restore_session requires WorkbenchRestoreSession payload"),
    }
}

pub fn execute_workbench_save_graph_action(_ctx: &ActionContext, payload: &ActionPayload) -> (r: ActionOutcome)
    ensures
        post_workbench_save_graph(*_ctx, *payload, r),
{
    match payload {
        ActionPayload::WorkbenchSaveGraph { name } => {
            match require_named_payload("graph name", name.as_str(), ACTION_WORKBENCH_SAVE_GRAPH) {
                Ok(name) => ActionOutcome::Dispatch(ActionDispatch::app_commands(one(AppCommand::SaveGraphSnapshotNamed { name }))),
                Err(outcome) => outcome,
            }
        },
        _ => invalid("workbench:save_graph requires WorkbenchSaveGraph payload"),
    }
}

pub fn execute_workbench_restore_graph_action(_ctx: &ActionContext, payload: &ActionPayload) -> (r: ActionOutcome)
    ensures
        post_workbench_restore_graph(*_ctx, *payload, r),
{
    match payload {
        ActionPayload::WorkbenchRestoreGraph { name } => {
            match name {
                Some(name) => match require_named_payload("graph name", name.as_str(), ACTION_WORKBENCH_RESTORE_GRAPH) {
                    Ok(name) => ActionOutcome::Dispatch(ActionDispatch::app_commands(one(AppCommand::RestoreGraphSnapshotNamed { name }))),
                    Err(outcome) => outcome,
                },
                None => ActionOutcome::Dispatch(ActionDispatch::app_commands(one(AppCommand::RestoreGraphSnapshotLatest))),
            }
        },
        _ => invalid("workbench:restore_graph requires WorkbenchRestoreGraph payload"),
    }
}

pub fn execute_workbench_open_persistence_hub_action(_ctx: &ActionContext, payload: &ActionPayload) -> (r: ActionOutcome)
    ensures
        post_workbench_open_persistence_hub(*_ctx, *payload, r),
{
    match payload {
        ActionPayload::WorkbenchOpenPersistenceHub => {
            ActionOutcome::Dispatch(ActionDispatch::runtime_action(RuntimeAction::PublishSettingsRouteRequested { url: settings_url(SettingsPath::Persistence), prefer_overlay: true }))
        },
        _ => invalid("workbench:open_persistence_hub requires WorkbenchOpenPersistenceHub payload"),
    }
}

pub fn execute_workbench_open_history_manager_action(_ctx: &ActionContext, payload: &ActionPayload) -> (r: ActionOutcome)
    ensures
        post_workbench_open_history_manager(*_ctx, *payload, r),
{
    match payload {
        ActionPayload::WorkbenchOpenHistoryManager => {
            ActionOutcome::Dispatch(ActionDispatch::workbench_intent(WorkbenchIntent::OpenToolPane { kind: ToolPaneState::HistoryManager }))
        },
        _ => invalid("workbench:open_history_manager requires WorkbenchOpenHistoryManager payload"),
    }
}

pub fn execute_workbench_activate_workflow_action(_ctx: &ActionContext, payload: &ActionPayload) -> (r: ActionOutcome)
    ensures
        post_workbench_activate_workflow(*_ctx, *payload, r),
{
    match payload {
        ActionPayload::WorkbenchActivateWorkflow { workflow_id } => {
            match require_named_payload("workflow id", workflow_id.as_str(), ACTION_WORKBENCH_ACTIVATE_WORKFLOW) {
                Ok(workflow_id) => ActionOutcome::Dispatch(ActionDispatch::runtime_action(RuntimeAction::ActivateWorkflow { workflow_id })),
                Err(outcome) => outcome,
            }
        },
        _ => invalid("workbench:activate_workflow requires WorkbenchActivateWorkflow payload"),
    }
}

pub fn execute_graph_view_submit_action(ctx: &ActionContext, payload: &ActionPayload) -> (r: ActionOutcome)
    ensures
        post_graph_view_submit(*ctx, *payload, r),
{
    match payload {
        ActionPayload::GraphViewSubmit { input } => {
            let input = trim(input.as_str());
            if input.unicode_len() == 0 {
                return rejected(owned("graph_view_submit rejected empty input"));
            }
            match ctx.single_selected_node() {
                Some(selected_node) => ActionOutcome::Dispatch(ActionDispatch::intents(one(GraphIntent::SetNodeUrl { key: selected_node, new_url: input }))),
                None => ActionOutcome::Dispatch(ActionDispatch::intents(one(GraphIntent::CreateNodeAtUrl { url: input, near: ctx.primary }))),
            }
        },
        _ => invalid("graph_view_submit requires GraphViewSubmit payload"),
    }
}

pub fn execute_detail_view_submit_action(ctx: &ActionContext, payload: &ActionPayload) -> (r: ActionOutcome)
    ensures
        post_detail_view_submit(*ctx, *payload, r),
{
    match payload {
        ActionPayload::DetailViewSubmit { normalized_url, focused_node } => {
            let trimmed = trim(normalized_url.as_str());
            if trimmed.unicode_len() == 0 {
                return rejected(owned("detail_view_submit rejected empty url"));
            }
            match focused_node {
                Some(node_key) => ActionOutcome::Dispatch(ActionDispatch::intents(vec![
                    GraphIntent::SetNodeUrl { key: *node_key, new_url: normalized_url.clone() },
                    GraphIntent::PromoteNodeToActive { key: *node_key, cause: LifecycleCause::Restore },
                ])),
                None => ActionOutcome::Dispatch(ActionDispatch::intents(one(GraphIntent::CreateNodeAtUrl { url: normalized_url.clone(), near: ctx.primary }))),
            }
        },
        _ => invalid("detail_view_submit requires DetailViewSubmit payload"),
    }
}

pub fn execute_omnibox_node_search_action(ctx: &ActionContext, payload: &ActionPayload) -> (r: ActionOutcome)
    ensures
        post_omnibox_node_search(*ctx, *payload, r),
{
    match payload {
        ActionPayload::OmniboxNodeSearch { query } => {
            if ctx.omnibox_results.len() == 0 {
                return rejected(join3("omnibox_node_search found no match for '", query.as_str(), "'"));
            }
            match &ctx.omnibox_results[0] {
                SearchResultKind::Node(key) => ActionOutcome::Dispatch(ActionDispatch::intents(one(GraphIntent::SelectNode { key: *key, multi_select: false }))),
                SearchResultKind::HistoryUrl(url) => ActionOutcome::Dispatch(ActionDispatch::intents(one(GraphIntent::CreateNodeAtUrl { url: url.clone(), near: ctx.primary }))),
                SearchResultKind::KnowledgeTag { code } => rejected(join3("omnibox_node_search matched knowledge tag 'udc:", code.as_str(), "' but no graph node yet")),
            }
        },
        _ => invalid("omnibox_node_search requires OmniboxNodeSearch payload"),
    }
}

pub fn execute_verse_pair_device_action(ctx: &ActionContext, payload: &ActionPayload) -> (r: ActionOutcome)
    requires
        ctx.wf(),
    ensures
        post_verse_pair_device(*ctx, *payload, r),
{
    match payload {
        ActionPayload::VersePairDevice { mode } => {
            match mode {
                PairingMode::ShowCode => rejected(owned("verse_pair_device show-code is handled by the UI surface")),
                PairingMode::EnterCode { code: _ } => match &ctx.peer_resolution {
                    Ok(node_id) => trust_peer_outcome("Paired ", node_id),
                    Err(error) => rejected(join2("pairing code decode failed: ", error.as_str())),
                },
                PairingMode::LocalPeer { node_id } => match &ctx.peer_resolution {
                    Ok(parsed) => trust_peer_outcome("Local ", parsed),
                    Err(error) => {
                        let head = join3("invalid local peer id '", node_id.as_str(), "': ");
                        rejected(join2(head.as_str(), error.as_str()))
                    },
                },
            }
        },
        _ => invalid("verse_pair_device requires VersePairDevice payload"),
    }
}

pub fn execute_verse_share_workspace_action(ctx: &ActionContext, payload: &ActionPayload) -> (r: ActionOutcome)
    ensures
        post_verse_share_workspace(*ctx, *payload, r),
{
    match payload {
        ActionPayload::VerseShareWorkspace { workspace_id } => {
            let trimmed = trim(workspace_id.as_str());
            if trimmed.unicode_len() == 0 {
                return rejected(owned("verse_share_workspace rejected empty workspace id"));
            }
            if ctx.trusted_peers.len() == 0 {
                return rejected(owned("verse_share_workspace has no trusted peers to share with"));
            }
            let mut intents: Vec<GraphIntent> = Vec::new();
            let n = ctx.trusted_peers.len();
            let mut i: usize = 0;
            while i < n
                invariant
                    n == ctx.trusted_peers@.len(),
                    i <= n,
                    intents@ == share_intents(ctx.trusted_peers@.subrange(0, i as int), *workspace_id),
                decreases n - i,
            {
                intents.push(GraphIntent::GrantWorkspaceAccess { peer_id: ctx.trusted_peers[i].clone(), workspace_id: workspace_id.clone() });
                assert(ctx.trusted_peers@.subrange(0, i + 1).drop_last() == ctx.trusted_peers@.subrange(0, i as int));
                i = i + 1;
            }
            assert(ctx.trusted_peers@.subrange(0, n as int) == ctx.trusted_peers@);
            ActionOutcome::Dispatch(ActionDispatch::intents(intents))
        },
        _ => invalid("verse_share_workspace requires VerseShareWorkspace payload"),
    }
}

pub fn execute_verse_forget_device_action(_ctx: &ActionContext, payload: &ActionPayload) -> (r: ActionOutcome)
    ensures
        post_verse_forget_device(*_ctx, *payload, r),
{
    match payload {
        ActionPayload::VerseForgetDevice { node_id } => {
            let trimmed = trim(node_id.as_str());
            if trimmed.unicode_len() == 0 {
                return rejected(owned("verse_forget_device rejected empty peer id"));
            }
            ActionOutcome::Dispatch(ActionDispatch::intents(one(GraphIntent::ForgetDevice { peer_id: node_id.clone() })))
        },
        _ => invalid("verse_forget_device requires VerseForgetDevice payload"),
    }
}

/// Runs the handler `h`.
pub fn run_handler(h: ActionHandler, ctx: &ActionContext, payload: &ActionPayload) -> (r: ActionOutcome)
    requires
        ctx.wf(),
    ensures
        handler_post(h, *ctx, *payload, r),
{
    match h {
        ActionHandler::GraphNodeOpen => execute_graph_node_open_action(ctx, payload),
        ActionHandler::GraphNodeClose => execute_graph_node_close_action(ctx, payload),
        ActionHandler::GraphNodeNew => execute_graph_node_new_action(ctx, payload),
        ActionHandler::GraphNodeNewAsTab => execute_graph_node_new_as_tab_action(ctx, payload),
        ActionHandler::GraphNodePinToggle => execute_graph_node_pin_toggle_action(ctx, payload),
        ActionHandler::GraphNodePinSelected => execute_graph_node_pin_selected_action(ctx, payload),
        ActionHandler::GraphNodeUnpinSelected => execute_graph_node_unpin_selected_action(ctx, payload),
        ActionHandler::GraphNodeDelete => execute_graph_node_delete_action(ctx, payload),
        ActionHandler::GraphNodeChooseFrame => execute_graph_node_choose_frame_action(ctx, payload),
        ActionHandler::GraphNodeAddToFrame => execute_graph_node_add_to_frame_action(ctx, payload),
        ActionHandler::GraphNodeAddConnectedToFrame => execute_graph_node_add_connected_to_frame_action(ctx, payload),
        ActionHandler::GraphNodeOpenFrame => execute_graph_node_open_frame_action(ctx, payload),
        ActionHandler::GraphNodeOpenNeighbors => execute_graph_node_open_neighbors_action(ctx, payload),
        ActionHandler::GraphNodeOpenConnected => execute_graph_node_open_connected_action(ctx, payload),
        ActionHandler::GraphNodeOpenSplit => execute_graph_node_open_split_action(ctx, payload),
        ActionHandler::GraphNodeCopyUrl => execute_graph_node_copy_url_action(ctx, payload),
        ActionHandler::GraphNodeCopyTitle => execute_graph_node_copy_title_action(ctx, payload),
        ActionHandler::GraphEdgeCreate => execute_graph_edge_create_action(ctx, payload),
        ActionHandler::GraphEdgeConnectPair => execute_graph_edge_connect_pair_action(ctx, payload),
        ActionHandler::GraphEdgeConnectBoth => execute_graph_edge_connect_both_action(ctx, payload),
        ActionHandler::GraphEdgeRemoveUser => execute_graph_edge_remove_user_action(ctx, payload),
        ActionHandler::GraphSetPhysicsProfile => execute_graph_set_physics_profile_action(ctx, payload),
        ActionHandler::GraphFit => execute_graph_fit_action(ctx, payload),
        ActionHandler::GraphTogglePhysics => execute_graph_toggle_physics_action(ctx, payload),
        ActionHandler::GraphNavigateBack => execute_graph_navigate_back_action(ctx, payload),
        ActionHandler::GraphNavigateForward => execute_graph_navigate_forward_action(ctx, payload),
        ActionHandler::GraphSelectNode => execute_graph_select_node_action(ctx, payload),
        ActionHandler::GraphDeselectAll => execute_graph_deselect_all_action(ctx, payload),
        ActionHandler::WorkbenchDetachToSplit => execute_workbench_detach_to_split_action(ctx, payload),
        ActionHandler::WorkbenchMoveNodeToPane => execute_workbench_move_node_to_pane_action(ctx, payload),
        ActionHandler::WorkbenchSplitHorizontal => execute_workbench_split_horizontal_action(ctx, payload),
        ActionHandler::WorkbenchSplitVertical => execute_workbench_split_vertical_action(ctx, payload),
        ActionHandler::WorkbenchClosePane => execute_workbench_close_pane_action(ctx, payload),
        ActionHandler::WorkbenchCommandPaletteOpen => execute_workbench_command_palette_open_action(ctx, payload),
        ActionHandler::WorkbenchHelpOpen => execute_workbench_help_open_action(ctx, payload),
        ActionHandler::WorkbenchSettingsPaneOpen => execute_workbench_settings_pane_open_action(ctx, payload),
        ActionHandler::WorkbenchSettingsOverlayOpen => execute_workbench_settings_overlay_open_action(ctx, payload),
        ActionHandler::WorkbenchSettingsOpen => execute_workbench_settings_open_action(ctx, payload),
        ActionHandler::WorkbenchUndo => execute_workbench_undo_action(ctx, payload),
        ActionHandler::WorkbenchRedo => execute_workbench_redo_action(ctx, payload),
        ActionHandler::WorkbenchSaveSnapshot => execute_workbench_save_snapshot_action(ctx, payload),
        ActionHandler::WorkbenchRestoreSession => execute_workbench_restore_session_action(ctx, payload),
        ActionHandler::WorkbenchSaveGraph => execute_workbench_save_graph_action(ctx, payload),
        ActionHandler::WorkbenchRestoreGraph => execute_workbench_restore_graph_action(ctx, payload),
        ActionHandler::WorkbenchOpenPersistenceHub => execute_workbench_open_persistence_hub_action(ctx, payload),
        ActionHandler::WorkbenchOpenHistoryManager => execute_workbench_open_history_manager_action(ctx, payload),
        ActionHandler::WorkbenchActivateWorkflow => execute_workbench_activate_workflow_action(ctx, payload),
        ActionHandler::GraphViewSubmit => execute_graph_view_submit_action(ctx, payload),
        ActionHandler::DetailViewSubmit => execute_detail_view_submit_action(ctx, payload),
        ActionHandler::OmniboxNodeSearch => execute_omnibox_node_search_action(ctx, payload),
        ActionHandler::VersePairDevice => execute_verse_pair_device_action(ctx, payload),
        ActionHandler::VerseShareWorkspace => execute_verse_share_workspace_action(ctx, payload),
        ActionHandler::VerseForgetDevice => execute_verse_forget_device_action(ctx, payload),
        ActionHandler::GraphSelectionWarmSelect => execute_graph_selection_warm_select_action(ctx, payload),
        ActionHandler::GraphNodeRemoveFromGraphlet => execute_graph_node_remove_from_graphlet_action(ctx, payload),
        ActionHandler::VerseSyncNow => execute_verse_sync_now_action(ctx, payload),
    }
}

/// A handler that receives a payload of another shape refuses it as invalid,
/// naming the action and the payload it takes.
pub proof fn law_mismatched_payload_is_invalid(h: ActionHandler, ctx: ActionContext, p: ActionPayload, r: ActionOutcome)
    requires
        !payload_fits(h, p),
        handler_post(h, ctx, p, r),
    ensures
        fails_with(r, ActionFailureKind::InvalidPayload, invalid_reason(h)),
{
}

} // verus!
