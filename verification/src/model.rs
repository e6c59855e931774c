//! Plain-value models of the application state and of the intents that the
//! registries hand back to the application.

use vstd::prelude::*;

verus! {

/// Stable key of a graph node.
#[derive(Debug, Clone, Copy, PartialEq, Eq, Structural)]
pub struct NodeKey(pub u64);

/// Identity of a workbench pane.
#[derive(Debug, Clone, Copy, PartialEq, Eq, Structural)]
pub struct PaneId(pub u64);

/// Identity of a renderer (a web view or another content host).
#[derive(Debug, Clone, Copy, PartialEq, Eq, Structural)]
pub struct RendererId(pub u64);

/// Identity of a workbench tile.
#[derive(Debug, Clone, Copy, PartialEq, Eq, Structural)]
pub struct TileId(pub u64);

/// Identity of a graph view.
#[derive(Debug, Clone, Copy, PartialEq, Eq, Structural)]
pub struct GraphViewId(pub u64);

#[derive(Debug, Clone, Copy, PartialEq, Eq, Structural)]
pub enum LifecycleCause {
    UserSelect,
    ExplicitClose,
    Restore,
}

#[derive(Debug, Clone, Copy, PartialEq, Eq, Structural)]
pub enum NodeLifecycle {
    Active,
    Warm,
    Cold,
}

#[derive(Debug, Clone, Copy, PartialEq, Eq, Structural)]
pub enum PendingTileOpenMode {
    Tab,
    SplitHorizontal,
    QuarterPane,
    HalfPane,
}

#[derive(Debug, Clone, Copy, PartialEq, Eq, Structural)]
pub enum SelectionUpdateMode {
    Replace,
    Add,
    Toggle,
}

#[derive(Debug, Clone, Copy, PartialEq, Eq, Structural)]
pub enum EdgeCommand {
    PinSelected,
    UnpinSelected,
    ConnectSelectedPair,
    ConnectBothDirections,
    RemoveUserEdge,
}

/// A durable relation that an edge can carry.
#[derive(Debug, Clone, Copy, PartialEq, Eq, Structural)]
pub enum RelationSelector {
    UserGrouped,
    FrameMember,
}

#[derive(Debug, Clone, Copy, PartialEq, Eq, Structural)]
pub enum SplitDirection {
    Horizontal,
    Vertical,
}

#[derive(Debug, Clone, Copy, PartialEq, Eq, Structural)]
pub enum ToolPaneState {
    Settings,
    HistoryManager,
    Diagnostics,
}

#[derive(Debug, Clone, Copy, PartialEq, Eq, Structural)]
pub enum ChooseFramePickerMode {
    OpenNodeInFrame,
    AddNodeToFrame,
    AddConnectedSelectionToFrame,
}

#[derive(Debug, Clone, Copy, PartialEq, Eq, Structural)]
pub enum PendingConnectedOpenScope {
    Neighbors,
    Connected,
}

#[derive(Debug, Clone, Copy, PartialEq, Eq, Structural)]
pub enum ClipboardCopyKind {
    Url,
    Title,
}

#[derive(Debug, Clone, Copy, PartialEq, Eq, Structural)]
pub enum PanePresentationMode {
    Tiled,
    Floating,
    Fullscreen,
}

#[derive(Debug, Clone, Copy, PartialEq, Eq, Structural)]
pub enum FloatingPaneTargetTileContext {
    Split,
    TabGroup,
    BareGraph,
}

/// A graph-level request, applied by the application's reducer.
#[derive(Debug, Clone)]
pub enum GraphIntent {
    SelectNode { key: NodeKey, multi_select: bool },
    PromoteNodeToActive { key: NodeKey, cause: LifecycleCause },
    DemoteNodeToCold { key: NodeKey, cause: LifecycleCause },
    RemoveEdge { from: NodeKey, to: NodeKey, selector: RelationSelector },
    CreateNodeNearCenter,
    CreateNodeNearCenterAndOpen { mode: PendingTileOpenMode },
    TogglePrimaryNodePin,
    ExecuteEdgeCommand { command: EdgeCommand },
    RemoveSelectedNodes,
    OpenNodeFrameRouted { key: NodeKey, prefer_frame: Option<String> },
    CreateUserGroupedEdge { from: NodeKey, to: NodeKey, label: Option<String> },
    SetPhysicsProfile { profile_id: String },
    RequestFitToScreen,
    TogglePhysics,
    TraverseBack,
    TraverseForward,
    UpdateSelection { keys: Vec<NodeKey>, mode: SelectionUpdateMode },
    ToggleHelpPanel,
    Undo,
    Redo,
    SetNodeUrl { key: NodeKey, new_url: String },
    /// Create a node for `url`; the application places it near `near`
    /// (the primary selected node) or at its default spot.
    CreateNodeAtUrl { url: String, near: Option<NodeKey> },
    TrustPeer { peer_id: String, display_name: String },
    GrantWorkspaceAccess { peer_id: String, workspace_id: String },
    SyncNow,
    ForgetDevice { peer_id: String },
}

/// What a search hit points at.
#[derive(Debug, Clone)]
pub enum SearchResultKind {
    Node(NodeKey),
    HistoryUrl(String),
    KnowledgeTag { code: String },
}

/// A request addressed to the workbench (tiles and panes).
#[derive(Debug, Clone)]
pub enum WorkbenchIntent {
    OpenCommandPalette,
    ToggleCommandPalette,
    ToggleHelpPanel,
    ToggleRadialMenu,
    CycleFocusRegion,
    SelectTile { tile_id: TileId },
    UpdateTileSelection { tile_id: TileId, mode: SelectionUpdateMode },
    ClearTileSelection,
    GroupSelectedTiles,
    OpenToolPane { kind: ToolPaneState },
    ClosePane { pane: PaneId, restore_previous_focus: bool },
    CloseToolPane { kind: ToolPaneState, restore_previous_focus: bool },
    OpenSettingsUrl { url: String },
    OpenFrameUrl { url: String },
    OpenToolUrl { url: String },
    OpenViewUrl { url: String },
    OpenGraphUrl { url: String },
    OpenGraphViewPane { view_id: GraphViewId, mode: PendingTileOpenMode },
    OpenNoteUrl { url: String },
    OpenNodeUrl { url: String },
    OpenClipUrl { url: String },
    OpenNodeInPane { node: NodeKey, pane: PaneId },
    SetPanePresentationMode { pane: PaneId, mode: PanePresentationMode },
    PromoteEphemeralPane { target_tile_context: FloatingPaneTargetTileContext },
    SwapViewerBackend { pane: PaneId, node: NodeKey, viewer_id_override: Option<String> },
    SetPaneView { pane: PaneId, view: String },
    SplitPane { source_pane: PaneId, direction: SplitDirection },
    DetachNodeToSplit { key: NodeKey },
}

#[derive(Debug, Clone, Copy, PartialEq, Eq, Structural)]
pub struct ChooseFramePickerRequest {
    pub node: NodeKey,
    pub mode: ChooseFramePickerMode,
}

#[derive(Debug, Clone, Copy, PartialEq, Eq, Structural)]
pub struct PendingNodeOpenRequest {
    pub key: NodeKey,
    pub mode: PendingTileOpenMode,
}

#[derive(Debug, Clone, Copy, PartialEq, Eq, Structural)]
pub struct ClipboardCopyRequest {
    pub key: NodeKey,
    pub kind: ClipboardCopyKind,
}

/// A request carried out by the application shell rather than the graph reducer.
#[derive(Debug, Clone)]
pub enum AppCommand {
    ChooseWorkspacePicker { request: ChooseFramePickerRequest, exact_nodes: Option<Vec<NodeKey>> },
    OpenConnected { source: NodeKey, mode: PendingTileOpenMode, scope: PendingConnectedOpenScope },
    OpenNode { request: PendingNodeOpenRequest },
    ClipboardCopy { request: ClipboardCopyRequest },
    SaveWorkspaceSnapshot,
    RestoreWorkspaceSnapshotNamed { name: String },
    SaveGraphSnapshotNamed { name: String },
    RestoreGraphSnapshotNamed { name: String },
    RestoreGraphSnapshotLatest,
}

/// Pages of the settings surface.
#[derive(Debug, Clone, Copy, PartialEq, Eq, Structural)]
pub enum SettingsPath {
    General,
    Persistence,
    History,
}

pub open spec fn settings_url_spec(path: SettingsPath) -> Seq<char> {
    match path {
        SettingsPath::General => "verso://settings/general"@,
        SettingsPath::Persistence => "verso://settings/persistence"@,
        SettingsPath::History => "verso://settings/history"@,
    }
}

/// The internal address of a settings page.
pub fn settings_url(path: SettingsPath) -> (r: String)
    ensures
        r@ == settings_url_spec(path),
{
    match path {
        SettingsPath::General => crate::text::owned("verso://settings/general"),
        SettingsPath::Persistence => crate::text::owned("verso://settings/persistence"),
        SettingsPath::History => crate::text::owned("verso://settings/history"),
    }
}

} // verus!
