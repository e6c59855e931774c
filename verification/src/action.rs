//! The action registry: named actions, the capability each requires, and the
//! handlers that turn an action and its payload into intents for the application.

use vstd::prelude::*;
use crate::model::{NodeKey, PaneId, GraphIntent, WorkbenchIntent, AppCommand, SearchResultKind, NodeLifecycle};

verus! {

pub const ACTION_OMNIBOX_NODE_SEARCH: &'static str = "omnibox:node_search";
pub const ACTION_GRAPH_VIEW_SUBMIT: &'static str = "graph:view_submit";
pub const ACTION_DETAIL_VIEW_SUBMIT: &'static str = "detail:view_submit";
pub const ACTION_GRAPH_NODE_OPEN: &'static str = "graph:node_open";
pub const ACTION_GRAPH_NODE_CLOSE: &'static str = "graph:node_close";
pub const ACTION_GRAPH_NODE_NEW: &'static str = "graph:node_new";
pub const ACTION_GRAPH_NODE_NEW_AS_TAB: &'static str = "graph:node_new_as_tab";
pub const ACTION_GRAPH_NODE_PIN_TOGGLE: &'static str = "graph:node_pin_toggle";
pub const ACTION_GRAPH_NODE_PIN_SELECTED: &'static str = "graph:node_pin_selected";
pub const ACTION_GRAPH_NODE_UNPIN_SELECTED: &'static str = "graph:node_unpin_selected";
pub const ACTION_GRAPH_NODE_DELETE: &'static str = "graph:node_delete";
pub const ACTION_GRAPH_NODE_CHOOSE_FRAME: &'static str = "graph:node_choose_frame";
pub const ACTION_GRAPH_NODE_ADD_TO_FRAME: &'static str = "graph:node_add_to_frame";
pub const ACTION_GRAPH_NODE_ADD_CONNECTED_TO_FRAME: &'static str = "graph:node_add_connected_to_frame";
pub const ACTION_GRAPH_NODE_OPEN_FRAME: &'static str = "graph:node_open_frame";
pub const ACTION_GRAPH_NODE_OPEN_NEIGHBORS: &'static str = "graph:node_open_neighbors";
pub const ACTION_GRAPH_NODE_OPEN_CONNECTED: &'static str = "graph:node_open_connected";
pub const ACTION_GRAPH_NODE_OPEN_SPLIT: &'static str = "graph:node_open_split";
/// Open a tile for every cold node in the current selection.
pub const ACTION_GRAPH_SELECTION_WARM_SELECT: &'static str = "graph:selection_warm_select";
/// Retract the durable graphlet edges (user-grouped and frame-member) of the selected node.
pub const ACTION_GRAPH_NODE_REMOVE_FROM_GRAPHLET: &'static str = "graph:node_remove_from_graphlet";
pub const ACTION_GRAPH_NODE_COPY_URL: &'static str = "graph:node_copy_url";
pub const ACTION_GRAPH_NODE_COPY_TITLE: &'static str = "graph:node_copy_title";
pub const ACTION_GRAPH_EDGE_CREATE: &'static str = "graph:edge_create";
pub const ACTION_GRAPH_EDGE_CONNECT_PAIR: &'static str = "graph:edge_connect_pair";
pub const ACTION_GRAPH_EDGE_CONNECT_BOTH: &'static str = "graph:edge_connect_both";
pub const ACTION_GRAPH_EDGE_REMOVE_USER: &'static str = "graph:edge_remove_user";
pub const ACTION_GRAPH_SET_PHYSICS_PROFILE: &'static str = "graph:set_physics_profile";
pub const ACTION_GRAPH_FIT: &'static str = "graph:fit";
pub const ACTION_GRAPH_TOGGLE_PHYSICS: &'static str = "graph:toggle_physics";
pub const ACTION_GRAPH_NAVIGATE_BACK: &'static str = "graph:navigate_back";
pub const ACTION_GRAPH_NAVIGATE_FORWARD: &'static str = "graph:navigate_forward";
pub const ACTION_GRAPH_SELECT_NODE: &'static str = "graph:select_node";
pub const ACTION_GRAPH_DESELECT_ALL: &'static str = "graph:deselect_all";
pub const ACTION_WORKBENCH_DETACH_TO_SPLIT: &'static str = "workbench:detach_to_split";
pub const ACTION_WORKBENCH_MOVE_NODE_TO_PANE: &'static str = "workbench:move_node_to_pane";
pub const ACTION_WORKBENCH_SPLIT_HORIZONTAL: &'static str = "workbench:split_horizontal";
pub const ACTION_WORKBENCH_SPLIT_VERTICAL: &'static str = "workbench:split_vertical";
pub const ACTION_WORKBENCH_CLOSE_PANE: &'static str = "workbench:close_pane";
pub const ACTION_WORKBENCH_COMMAND_PALETTE_OPEN: &'static str = "workbench:command_palette_open";
pub const ACTION_WORKBENCH_HELP_OPEN: &'static str = "workbench:help_open";
pub const ACTION_WORKBENCH_SETTINGS_PANE_OPEN: &'static str = "workbench:settings_pane_open";
pub const ACTION_WORKBENCH_SETTINGS_OVERLAY_OPEN: &'static str = "workbench:settings_overlay_open";
/// Legacy alias of the settings pane action.
pub const ACTION_WORKBENCH_SETTINGS_OPEN: &'static str = "workbench:settings_open";
pub const ACTION_WORKBENCH_UNDO: &'static str = "workbench:undo";
pub const ACTION_WORKBENCH_REDO: &'static str = "workbench:redo";
pub const ACTION_WORKBENCH_SAVE_SNAPSHOT: &'static str = "workbench:save_snapshot";
pub const ACTION_WORKBENCH_RESTORE_SESSION: &'static str = "workbench:restore_session";
pub const ACTION_WORKBENCH_SAVE_GRAPH: &'static str = "workbench:save_graph";
pub const ACTION_WORKBENCH_RESTORE_GRAPH: &'static str = "workbench:restore_graph";
pub const ACTION_WORKBENCH_OPEN_PERSISTENCE_HUB: &'static str = "workbench:open_persistence_hub";
pub const ACTION_WORKBENCH_OPEN_HISTORY_MANAGER: &'static str = "workbench:open_history_manager";
pub const ACTION_WORKBENCH_ACTIVATE_WORKFLOW: &'static str = "workbench:activate_workflow";
pub const ACTION_VERSE_PAIR_DEVICE: &'static str = "verse:pair_device";
pub const ACTION_VERSE_SYNC_NOW: &'static str = "verse:sync_now";
pub const ACTION_VERSE_SHARE_WORKSPACE: &'static str = "verse:share_workspace";
pub const ACTION_VERSE_FORGET_DEVICE: &'static str = "verse:forget_device";

#[derive(Debug, Clone)]
pub enum PairingMode {
    /// Show our pairing code for others to enter.
    ShowCode,
    /// Enter someone else's code to pair with them.
    EnterCode { code: String },
    /// Pair with a discovered local peer.
    LocalPeer { node_id: String },
}

#[derive(Debug, Clone)]
pub enum ActionPayload {
    GraphNodeOpen { node_key: NodeKey, pane_id: Option<PaneId> },
    GraphNodeClose { node_key: NodeKey },
    GraphNodeNew,
    GraphNodeNewAsTab,
    GraphNodePinToggle,
    GraphNodePinSelected,
    GraphNodeUnpinSelected,
    GraphNodeDelete,
    GraphNodeChooseFrame,
    GraphNodeAddToFrame,
    GraphNodeAddConnectedToFrame,
    GraphNodeOpenFrame,
    GraphNodeOpenNeighbors,
    GraphNodeOpenConnected,
    GraphNodeOpenSplit,
    GraphNodeCopyUrl,
    GraphNodeCopyTitle,
    GraphEdgeCreate { from: NodeKey, to: NodeKey, label: Option<String> },
    GraphEdgeConnectPair,
    GraphEdgeConnectBoth,
    GraphEdgeRemoveUser,
    GraphSetPhysicsProfile { profile_id: String },
    GraphFit,
    GraphTogglePhysics,
    GraphNavigateBack,
    GraphNavigateForward,
    GraphSelectNode { node_key: NodeKey },
    GraphDeselectAll,
    WorkbenchSplitHorizontal { pane_id: PaneId },
    WorkbenchSplitVertical { pane_id: PaneId },
    WorkbenchClosePane { pane_id: PaneId },
    WorkbenchDetachToSplit,
    WorkbenchMoveNodeToPane { pane_id: PaneId },
    WorkbenchCommandPaletteOpen,
    WorkbenchHelpOpen,
    WorkbenchSettingsPaneOpen,
    WorkbenchSettingsOverlayOpen,
    WorkbenchSettingsOpen,
    WorkbenchUndo,
    WorkbenchRedo,
    WorkbenchSaveSnapshot,
    WorkbenchRestoreSession { name: String },
    WorkbenchSaveGraph { name: String },
    WorkbenchRestoreGraph { name: Option<String> },
    WorkbenchOpenPersistenceHub,
    WorkbenchOpenHistoryManager,
    WorkbenchActivateWorkflow { workflow_id: String },
    OmniboxNodeSearch { query: String },
    GraphViewSubmit { input: String },
    DetailViewSubmit { normalized_url: String, focused_node: Option<NodeKey> },
    VersePairDevice { mode: PairingMode },
    VerseSyncNow,
    VerseShareWorkspace { workspace_id: String },
    VerseForgetDevice { node_id: String },
}

#[derive(Debug, Clone, Copy, PartialEq, Eq, Structural)]
pub enum ActionCapability {
    AlwaysAvailable,
    RequiresActiveNode,
    RequiresSelection,
    RequiresWritableWorkspace,
}

/// The handler registered for an action.
#[derive(Debug, Clone, Copy, PartialEq, Eq, Structural)]
pub enum ActionHandler {
    GraphNodeOpen,
    GraphNodeClose,
    GraphSelectionWarmSelect,
    GraphNodeRemoveFromGraphlet,
    GraphNodeNew,
    GraphNodeNewAsTab,
    GraphNodePinToggle,
    GraphNodePinSelected,
    GraphNodeUnpinSelected,
    GraphNodeDelete,
    GraphNodeChooseFrame,
    GraphNodeAddToFrame,
    GraphNodeAddConnectedToFrame,
    GraphNodeOpenFrame,
    GraphNodeOpenNeighbors,
    GraphNodeOpenConnected,
    GraphNodeOpenSplit,
    GraphNodeCopyUrl,
    GraphNodeCopyTitle,
    GraphEdgeCreate,
    GraphEdgeConnectPair,
    GraphEdgeConnectBoth,
    GraphEdgeRemoveUser,
    GraphSetPhysicsProfile,
    GraphFit,
    GraphTogglePhysics,
    GraphNavigateBack,
    GraphNavigateForward,
    GraphSelectNode,
    GraphDeselectAll,
    WorkbenchDetachToSplit,
    WorkbenchMoveNodeToPane,
    WorkbenchSplitHorizontal,
    WorkbenchSplitVertical,
    WorkbenchClosePane,
    WorkbenchCommandPaletteOpen,
    WorkbenchHelpOpen,
    WorkbenchSettingsPaneOpen,
    WorkbenchSettingsOverlayOpen,
    WorkbenchSettingsOpen,
    WorkbenchUndo,
    WorkbenchRedo,
    WorkbenchSaveSnapshot,
    WorkbenchRestoreSession,
    WorkbenchSaveGraph,
    WorkbenchRestoreGraph,
    WorkbenchOpenPersistenceHub,
    WorkbenchOpenHistoryManager,
    WorkbenchActivateWorkflow,
    GraphViewSubmit,
    DetailViewSubmit,
    OmniboxNodeSearch,
    VersePairDevice,
    VerseSyncNow,
    VerseShareWorkspace,
    VerseForgetDevice,
}

#[derive(Debug, Clone, Copy, PartialEq, Eq, Structural)]
pub enum ActionFailureKind {
    UnknownAction,
    InvalidPayload,
    Rejected,
}

#[derive(Debug, Clone)]
pub struct ActionFailure {
    pub kind: ActionFailureKind,
    pub reason: String,
}

#[derive(Debug, Clone)]
pub enum RuntimeAction {
    ActivateWorkflow { workflow_id: String },
    PublishSettingsRouteRequested { url: String, prefer_overlay: bool },
}

#[derive(Debug, Clone)]
pub struct ActionDispatch {
    pub intents: Vec<GraphIntent>,
    pub workbench_intents: Vec<WorkbenchIntent>,
    pub app_commands: Vec<AppCommand>,
    pub runtime_actions: Vec<RuntimeAction>,
}

#[derive(Debug, Clone)]
pub enum ActionOutcome {
    Dispatch(ActionDispatch),
    Failure(ActionFailure),
}

/// A node of the graph as the handlers see it.
#[derive(Debug, Clone, Copy, PartialEq, Eq, Structural)]
pub struct GraphNodeState {
    pub key: NodeKey,
    pub lifecycle: NodeLifecycle,
}

/// An edge of the graph and the durable relations it carries.
#[derive(Debug, Clone, Copy, PartialEq, Eq, Structural)]
pub struct GraphEdgeRecord {
    pub from: NodeKey,
    pub to: NodeKey,
    pub user_grouped: bool,
    pub frame_member: bool,
}

/// What the action handlers read of the application.
#[derive(Debug)]
pub struct ActionContext {
    /// The focused selection, in selection order.
    pub selection: Vec<NodeKey>,
    /// The primary node of the focused selection.
    pub primary: Option<NodeKey>,
    pub nodes: Vec<GraphNodeState>,
    pub edges: Vec<GraphEdgeRecord>,
    /// Node ids of the trusted peers.
    pub trusted_peers: Vec<String>,
    /// First pane id that no pane holds yet.
    pub next_pane_id: u64,
    /// Results of the index search for the omnibox query of the payload, best first.
    pub omnibox_results: Vec<SearchResultKind>,
    /// The peer id that the pairing payload decodes to, or why it does not decode.
    pub peer_resolution: Result<String, String>,
}

impl ActionContext {
    /// Limits that the handlers rely on: fresh pane ids stay in range and peer ids
    /// are long enough to abbreviate.
    pub open spec fn wf(&self) -> bool {
        &&& self.next_pane_id + self.selection@.len() <= u64::MAX
        &&& self.peer_resolution matches Ok(id) ==> id@.len() >= 8
    }

    /// A context with no graph, no selection and no peers.
    pub fn new() -> (r: Self)
        ensures
            r.selection@.len() == 0,
            r.primary is None,
            r.nodes@.len() == 0,
            r.edges@.len() == 0,
            r.trusted_peers@.len() == 0,
            r.next_pane_id == 0,
            r.omnibox_results@.len() == 0,
            r.peer_resolution is Err,
            r.wf(),
    {
        ActionContext {
            selection: Vec::new(),
            primary: None,
            nodes: Vec::new(),
            edges: Vec::new(),
            trusted_peers: Vec::new(),
            next_pane_id: 0,
            omnibox_results: Vec::new(),
            peer_resolution: Err(String::new()),
        }
    }

    pub open spec fn single_selected_spec(&self) -> Option<NodeKey> {
        if self.selection@.len() == 1 {
            Some(self.selection@[0])
        } else {
            None
        }
    }

    /// The selected node, where exactly one is selected.
    pub fn single_selected_node(&self) -> (r: Option<NodeKey>)
        ensures
            r == self.single_selected_spec(),
    {
        if self.selection.len() == 1 {
            Some(self.selection[0])
        } else {
            None
        }
    }
}

impl ActionDispatch {
    pub fn intents(intents: Vec<GraphIntent>) -> (r: Self)
        ensures
            r.intents@ == intents@,
            r.workbench_intents@.len() == 0,
            r.app_commands@.len() == 0,
            r.runtime_actions@.len() == 0,
    {
        ActionDispatch { intents, workbench_intents: Vec::new(), app_commands: Vec::new(), runtime_actions: Vec::new() }
    }

    pub fn workbench_intent(intent: WorkbenchIntent) -> (r: Self)
        ensures
            r.intents@.len() == 0,
            r.workbench_intents@ == seq![intent],
            r.app_commands@.len() == 0,
            r.runtime_actions@.len() == 0,
    {
        ActionDispatch { intents: Vec::new(), workbench_intents: vec![intent], app_commands: Vec::new(), runtime_actions: Vec::new() }
    }

    pub fn workbench_intents(intents: Vec<WorkbenchIntent>) -> (r: Self)
        ensures
            r.intents@.len() == 0,
            r.workbench_intents@ == intents@,
            r.app_commands@.len() == 0,
            r.runtime_actions@.len() == 0,
    {
        ActionDispatch { intents: Vec::new(), workbench_intents: intents, app_commands: Vec::new(), runtime_actions: Vec::new() }
    }

    pub fn app_commands(app_commands: Vec<AppCommand>) -> (r: Self)
        ensures
            r.intents@.len() == 0,
            r.workbench_intents@.len() == 0,
            r.app_commands@ == app_commands@,
            r.runtime_actions@.len() == 0,
    {
        ActionDispatch { intents: Vec::new(), workbench_intents: Vec::new(), app_commands, runtime_actions: Vec::new() }
    }

    pub fn runtime_action(action: RuntimeAction) -> (r: Self)
        ensures
            r.intents@.len() == 0,
            r.workbench_intents@.len() == 0,
            r.app_commands@.len() == 0,
            r.runtime_actions@ == seq![action],
    {
        ActionDispatch { intents: Vec::new(), workbench_intents: Vec::new(), app_commands: Vec::new(), runtime_actions: vec![action] }
    }

    pub open spec fn len_spec(&self) -> nat {
        self.intents@.len() + self.workbench_intents@.len() + self.app_commands@.len() + self.runtime_actions@.len()
    }

    /// Number of requests of all kinds that the dispatch carries.
    pub fn dispatch_len(&self) -> (n: usize)
        requires
            self.len_spec() <= usize::MAX,
        ensures
            n == self.len_spec(),
    {
        self.intents.len() + self.workbench_intents.len() + self.app_commands.len() + self.runtime_actions.len()
    }
}

impl ActionOutcome {
    pub fn succeeded(&self) -> (r: bool)
        ensures
            r == (self is Dispatch),
    {
        match self {
            ActionOutcome::Dispatch(_) => true,
            ActionOutcome::Failure(_) => false,
        }
    }

    pub fn intent_len(&self) -> (n: usize)
        requires
            self matches ActionOutcome::Dispatch(d) ==> d.len_spec() <= usize::MAX,
        ensures
            n == match self {
                ActionOutcome::Dispatch(d) => d.len_spec(),
                ActionOutcome::Failure(_) => 0,
            },
    {
        match self {
            ActionOutcome::Dispatch(dispatch) => dispatch.dispatch_len(),
            ActionOutcome::Failure(_) => 0,
        }
    }

    pub fn into_intents(self) -> (r: Vec<GraphIntent>)
        ensures
            r@ == match self {
                ActionOutcome::Dispatch(d) => d.intents@,
                ActionOutcome::Failure(_) => Seq::empty(),
            },
    {
        match self {
            ActionOutcome::Dispatch(dispatch) => dispatch.intents,
            ActionOutcome::Failure(_) => Vec::new(),
        }
    }

    /// The one workbench intent of a dispatch that carries exactly one.
    pub fn into_workbench_intent(self) -> (r: Option<WorkbenchIntent>)
        ensures
            r == match self {
                ActionOutcome::Dispatch(d) => if d.workbench_intents@.len() == 1 {
                    Some(d.workbench_intents@[0])
                } else {
                    None
                },
                ActionOutcome::Failure(_) => None,
            },
    {
        match self {
            ActionOutcome::Dispatch(mut dispatch) => {
                if dispatch.workbench_intents.len() == 1 {
                    dispatch.workbench_intents.pop()
                } else {
                    None
                }
            },
            ActionOutcome::Failure(_) => None,
        }
    }

    pub fn into_app_commands(self) -> (r: Vec<AppCommand>)
        ensures
            r@ == match self {
                ActionOutcome::Dispatch(d) => d.app_commands@,
                ActionOutcome::Failure(_) => Seq::empty(),
            },
    {
        match self {
            ActionOutcome::Dispatch(dispatch) => dispatch.app_commands,
            ActionOutcome::Failure(_) => Vec::new(),
        }
    }

    pub fn into_runtime_actions(self) -> (r: Vec<RuntimeAction>)
        ensures
            r@ == match self {
                ActionOutcome::Dispatch(d) => d.runtime_actions@,
                ActionOutcome::Failure(_) => Seq::empty(),
            },
    {
        match self {
            ActionOutcome::Dispatch(dispatch) => dispatch.runtime_actions,
            ActionOutcome::Failure(_) => Vec::new(),
        }
    }
}

} // verus!
