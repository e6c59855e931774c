//! The registry of actions: each lower-cased action id names the capability the
//! action needs and the handler that runs it.

use vstd::prelude::*;
use crate::action::{ActionCapability, ActionContext, ActionFailure, ActionFailureKind, ActionHandler, ActionOutcome, ActionPayload};
use crate::action::{ACTION_DETAIL_VIEW_SUBMIT, ACTION_GRAPH_DESELECT_ALL, ACTION_GRAPH_EDGE_CONNECT_BOTH, ACTION_GRAPH_EDGE_CONNECT_PAIR, ACTION_GRAPH_EDGE_CREATE, ACTION_GRAPH_EDGE_REMOVE_USER, ACTION_GRAPH_FIT, ACTION_GRAPH_NAVIGATE_BACK, ACTION_GRAPH_NAVIGATE_FORWARD, ACTION_GRAPH_NODE_ADD_CONNECTED_TO_FRAME, ACTION_GRAPH_NODE_ADD_TO_FRAME, ACTION_GRAPH_NODE_CHOOSE_FRAME, ACTION_GRAPH_NODE_CLOSE, ACTION_GRAPH_NODE_COPY_TITLE, ACTION_GRAPH_NODE_COPY_URL, ACTION_GRAPH_NODE_DELETE, ACTION_GRAPH_NODE_NEW, ACTION_GRAPH_NODE_NEW_AS_TAB, ACTION_GRAPH_NODE_OPEN, ACTION_GRAPH_NODE_OPEN_CONNECTED, ACTION_GRAPH_NODE_OPEN_FRAME, ACTION_GRAPH_NODE_OPEN_NEIGHBORS, ACTION_GRAPH_NODE_OPEN_SPLIT, ACTION_GRAPH_NODE_PIN_SELECTED, ACTION_GRAPH_NODE_PIN_TOGGLE, ACTION_GRAPH_NODE_REMOVE_FROM_GRAPHLET, ACTION_GRAPH_NODE_UNPIN_SELECTED, ACTION_GRAPH_SELECTION_WARM_SELECT, ACTION_GRAPH_SELECT_NODE, ACTION_GRAPH_SET_PHYSICS_PROFILE, ACTION_GRAPH_TOGGLE_PHYSICS, ACTION_GRAPH_VIEW_SUBMIT, ACTION_OMNIBOX_NODE_SEARCH, ACTION_VERSE_FORGET_DEVICE, ACTION_VERSE_PAIR_DEVICE, ACTION_VERSE_SHARE_WORKSPACE, ACTION_VERSE_SYNC_NOW, ACTION_WORKBENCH_ACTIVATE_WORKFLOW, ACTION_WORKBENCH_CLOSE_PANE, ACTION_WORKBENCH_COMMAND_PALETTE_OPEN, ACTION_WORKBENCH_DETACH_TO_SPLIT, ACTION_WORKBENCH_HELP_OPEN, ACTION_WORKBENCH_MOVE_NODE_TO_PANE, ACTION_WORKBENCH_OPEN_HISTORY_MANAGER, ACTION_WORKBENCH_OPEN_PERSISTENCE_HUB, ACTION_WORKBENCH_REDO, ACTION_WORKBENCH_RESTORE_GRAPH, ACTION_WORKBENCH_RESTORE_SESSION, ACTION_WORKBENCH_SAVE_GRAPH, ACTION_WORKBENCH_SAVE_SNAPSHOT, ACTION_WORKBENCH_SETTINGS_OPEN, ACTION_WORKBENCH_SETTINGS_OVERLAY_OPEN, ACTION_WORKBENCH_SETTINGS_PANE_OPEN, ACTION_WORKBENCH_SPLIT_HORIZONTAL, ACTION_WORKBENCH_SPLIT_VERTICAL, ACTION_WORKBENCH_UNDO};
use crate::action_handlers::{handler_post, run_handler};
use crate::table::Table;
use crate::text::{lower, lower_seq, join2, join3};

verus! {

#[derive(Debug, Clone)]
pub struct ActionDescriptor {
    pub id: String,
    pub required_capability: ActionCapability,
    pub handler: ActionHandler,
}

pub struct ActionRegistry {
    handlers: Table<ActionDescriptor>,
}

/// Whether the capability is met by the application state.
pub open spec fn capability_available_spec(ctx: ActionContext, capability: ActionCapability) -> bool {
    match capability {
        ActionCapability::AlwaysAvailable => true,
        ActionCapability::RequiresActiveNode => ctx.single_selected_spec() is Some,
        ActionCapability::RequiresSelection => ctx.selection@.len() > 0,
        ActionCapability::RequiresWritableWorkspace => true,
    }
}

pub open spec fn capability_reason_spec(capability: ActionCapability) -> Seq<char> {
    match capability {
        ActionCapability::AlwaysAvailable => "always available"@,
        ActionCapability::RequiresActiveNode => "requires an active node"@,
        ActionCapability::RequiresSelection => "requires a non-empty selection"@,
        ActionCapability::RequiresWritableWorkspace => "requires a writable workspace"@,
    }
}

pub fn capability_available(ctx: &ActionContext, capability: ActionCapability) -> (r: bool)
    ensures
        r == capability_available_spec(*ctx, capability),
{
    match capability {
        ActionCapability::AlwaysAvailable => true,
        ActionCapability::RequiresActiveNode => ctx.single_selected_node().is_some(),
        ActionCapability::RequiresSelection => ctx.selection.len() > 0,
        // No read-only workspace mode exists yet: the capability marks the intent's shape.
        ActionCapability::RequiresWritableWorkspace => true,
    }
}

pub fn capability_reason(capability: ActionCapability) -> (r: &'static str)
    ensures
        r@ == capability_reason_spec(capability),
{
    match capability {
        ActionCapability::AlwaysAvailable => "always available",
        ActionCapability::RequiresActiveNode => "requires an active node",
        ActionCapability::RequiresSelection => "requires a non-empty selection",
        ActionCapability::RequiresWritableWorkspace => "requires a writable workspace",
    }
}

/// Whether `s` reads `namespace:name`: one colon, with text on both sides of it.
pub open spec fn namespaced_spec(s: Seq<char>) -> bool {
    exists|i: int|
        0 < i < s.len() - 1 && s[i] == ':' && forall|j: int| 0 <= j < s.len() && j != i ==> s[j] != ':'
}

pub fn is_namespaced_action_id(action_id: &str) -> (r: bool)
    ensures
        r == namespaced_spec(action_id@),
{
    let n = action_id.unicode_len();
    let mut first: Option<usize> = None;
    let mut second = false;
    let mut i: usize = 0;
    while i < n
        invariant
            n == action_id@.len(),
            i <= n,
            first is None <==> forall|j: int| 0 <= j < i ==> action_id@[j] != ':',
            first matches Some(p) ==> p < i && action_id@[p as int] == ':'
                && forall|j: int| 0 <= j < p ==> action_id@[j] != ':',
            second <==> (first matches Some(p) && exists|j: int| p < j < i && action_id@[j] == ':'),
        decreases n - i,
    {
        if action_id.get_char(i) == ':' {
            match first {
                None => {
                    first = Some(i);
                },
                Some(p) => {
                    second = true;
                },
            }
        }
        i = i + 1;
    }
    let ghost s = action_id@;
    match first {
        Some(p) => {
            let r = !second && p > 0 && p + 1 < n;
            proof {
                if r {
                    assert(forall|j: int| 0 <= j < s.len() && j != p ==> s[j] != ':');
                } else if namespaced_spec(s) {
                    let k = choose|k: int|
                        0 < k < s.len() - 1 && s[k] == ':' && forall|m: int| 0 <= m < s.len() && m != k ==> s[m] != ':';
                    assert(k == p);
                    if second {
                        let j = choose|j: int| p < j < n && s[j] == ':';
                        assert(s[j] != ':');
                    }
                }
            }
            r
        },
        None => {
            proof {
                if namespaced_spec(s) {
                    let k = choose|k: int|
                        0 < k < s.len() - 1 && s[k] == ':' && forall|m: int| 0 <= m < s.len() && m != k ==> s[m] != ':';
                    assert(s[k] == ':');
                }
            }
            false
        },
    }
}

impl ActionRegistry {
    #[verifier::type_invariant]
    spec fn ids_are_keys(self) -> bool {
        forall|k: Seq<char>| #[trigger] self.handlers@.dom().contains(k) ==> self.handlers@[k].id@ == k
    }

    /// Each lower-cased action id with its capability and handler.
    pub closed spec fn view(&self) -> Map<Seq<char>, (ActionCapability, ActionHandler)> {
        Map::new(
            |k: Seq<char>| self.handlers@.dom().contains(k),
            |k: Seq<char>| (self.handlers@[k].required_capability, self.handlers@[k].handler),
        )
    }

    pub fn new() -> (r: Self)
        ensures
            r@ == Map::<Seq<char>, (ActionCapability, ActionHandler)>::empty(),
    {
        let r = ActionRegistry { handlers: Table::new() };
        assert(r@ =~= Map::<Seq<char>, (ActionCapability, ActionHandler)>::empty());
        r
    }

    /// Registers (or replaces) the action under its lower-cased id.
    pub fn register(&mut self, action_id: &str, required_capability: ActionCapability, handler: ActionHandler)
        ensures
            final(self)@ == old(self)@.insert(lower_seq(action_id@), (required_capability, handler)),
    {
        proof {
            use_type_invariant(&*self);
        }
        let key = lower(action_id);
        let descriptor = ActionDescriptor { id: lower(action_id), required_capability, handler };
        let mut table: Table<ActionDescriptor> = Table::new();
        std::mem::swap(&mut table, &mut self.handlers);
        table.insert(key, descriptor);
        self.handlers = table;
        assert(self@ =~= old(self)@.insert(lower_seq(action_id@), (required_capability, handler)));
    }

    /// The capability the action needs, where the action is registered.
    pub fn describe_action(&self, action_id: &str) -> (r: Option<ActionCapability>)
        ensures
            r == (if self@.dom().contains(lower_seq(action_id@)) {
                Some(self@[lower_seq(action_id@)].0)
            } else {
                None
            }),
    {
        let key = lower(action_id);
        match self.handlers.get(key.as_str()) {
            Some(d) => Some(d.required_capability),
            None => None,
        }
    }

    /// Removes the action; says whether it was registered.
    pub fn unregister(&mut self, action_id: &str) -> (r: bool)
        ensures
            r == old(self)@.dom().contains(lower_seq(action_id@)),
            final(self)@ == old(self)@.remove(lower_seq(action_id@)),
    {
        proof {
            use_type_invariant(&*self);
        }
        let key = lower(action_id);
        let mut table: Table<ActionDescriptor> = Table::new();
        std::mem::swap(&mut table, &mut self.handlers);
        let removed = table.remove(key.as_str());
        self.handlers = table;
        assert(self@ =~= old(self)@.remove(lower_seq(action_id@)));
        removed.is_some()
    }

    /// The handler, capability and stored id of the action, without running it.
    pub fn resolve(&self, action_id: &str) -> (r: Option<(ActionHandler, ActionCapability, String)>)
        ensures
            r is Some <==> self@.dom().contains(lower_seq(action_id@)),
            r matches Some((h, c, id)) ==> self@[lower_seq(action_id@)] == (c, h) && id@ == lower_seq(action_id@),
    {
        proof {
            use_type_invariant(self);
        }
        let key = lower(action_id);
        match self.handlers.get(key.as_str()) {
            Some(d) => Some((d.handler, d.required_capability, d.id.clone())),
            None => None,
        }
    }

    /// Runs the action: unknown ids and unmet capabilities fail, otherwise the
    /// registered handler decides.
    pub fn execute(&self, action_id: &str, ctx: &ActionContext, payload: ActionPayload) -> (r: ActionOutcome)
        requires
            ctx.wf(),
        ensures
            execute_post(self@, lower_seq(action_id@), *ctx, payload, r),
    {
        proof {
            use_type_invariant(self);
        }
        let key = lower(action_id);
        match self.handlers.get(key.as_str()) {
            Some(descriptor) => {
                if !capability_available(ctx, descriptor.required_capability) {
                    let head = join3("action '", descriptor.id.as_str(), "' unavailable: ");
                    let reason = join2(head.as_str(), capability_reason(descriptor.required_capability));
                    return ActionOutcome::Failure(ActionFailure { kind: ActionFailureKind::Rejected, reason });
                }
                run_handler(descriptor.handler, ctx, &payload)
            },
            None => {
                let reason = join2("unknown action: ", key.as_str());
                ActionOutcome::Failure(ActionFailure { kind: ActionFailureKind::UnknownAction, reason })
            },
        }
    }
}

/// What executing the action registered under `key` in `actions` hands back.
pub open spec fn execute_post(
    actions: Map<Seq<char>, (ActionCapability, ActionHandler)>,
    key: Seq<char>,
    ctx: ActionContext,
    payload: ActionPayload,
    r: ActionOutcome,
) -> bool {
    if !actions.dom().contains(key) {
        r matches ActionOutcome::Failure(f) && f.kind == ActionFailureKind::UnknownAction
            && f.reason@ == "unknown action: "@ + key
    } else {
        let (capability, handler) = actions[key];
        if !capability_available_spec(ctx, capability) {
            r matches ActionOutcome::Failure(f) && f.kind == ActionFailureKind::Rejected
                && f.reason@ == "action '"@ + key + "' unavailable: "@ + capability_reason_spec(capability)
        } else {
            handler_post(handler, ctx, payload, r)
        }
    }
}

/// The actions registered at start-up, each with its capability and handler.
pub open spec fn default_actions() -> Map<Seq<char>, (ActionCapability, ActionHandler)> {
    map![
        lower_seq(ACTION_GRAPH_NODE_OPEN@) => (ActionCapability::AlwaysAvailable, ActionHandler::GraphNodeOpen),
        lower_seq(ACTION_GRAPH_NODE_CLOSE@) => (ActionCapability::AlwaysAvailable, ActionHandler::GraphNodeClose),
        lower_seq(ACTION_GRAPH_NODE_NEW@) => (ActionCapability::RequiresWritableWorkspace, ActionHandler::GraphNodeNew),
        lower_seq(ACTION_GRAPH_NODE_NEW_AS_TAB@) => (ActionCapability::RequiresWritableWorkspace, ActionHandler::GraphNodeNewAsTab),
        lower_seq(ACTION_GRAPH_NODE_PIN_TOGGLE@) => (ActionCapability::RequiresActiveNode, ActionHandler::GraphNodePinToggle),
        lower_seq(ACTION_GRAPH_NODE_PIN_SELECTED@) => (ActionCapability::RequiresSelection, ActionHandler::GraphNodePinSelected),
        lower_seq(ACTION_GRAPH_NODE_UNPIN_SELECTED@) => (ActionCapability::RequiresSelection, ActionHandler::GraphNodeUnpinSelected),
        lower_seq(ACTION_GRAPH_NODE_DELETE@) => (ActionCapability::RequiresSelection, ActionHandler::GraphNodeDelete),
        lower_seq(ACTION_GRAPH_NODE_CHOOSE_FRAME@) => (ActionCapability::RequiresActiveNode, ActionHandler::GraphNodeChooseFrame),
        lower_seq(ACTION_GRAPH_NODE_ADD_TO_FRAME@) => (ActionCapability::RequiresActiveNode, ActionHandler::GraphNodeAddToFrame),
        lower_seq(ACTION_GRAPH_NODE_ADD_CONNECTED_TO_FRAME@) => (ActionCapability::RequiresActiveNode, ActionHandler::GraphNodeAddConnectedToFrame),
        lower_seq(ACTION_GRAPH_NODE_OPEN_FRAME@) => (ActionCapability::RequiresActiveNode, ActionHandler::GraphNodeOpenFrame),
        lower_seq(ACTION_GRAPH_NODE_OPEN_NEIGHBORS@) => (ActionCapability::RequiresActiveNode, ActionHandler::GraphNodeOpenNeighbors),
        lower_seq(ACTION_GRAPH_NODE_OPEN_CONNECTED@) => (ActionCapability::RequiresActiveNode, ActionHandler::GraphNodeOpenConnected),
        lower_seq(ACTION_GRAPH_NODE_OPEN_SPLIT@) => (ActionCapability::RequiresActiveNode, ActionHandler::GraphNodeOpenSplit),
        lower_seq(ACTION_GRAPH_NODE_COPY_URL@) => (ActionCapability::RequiresActiveNode, ActionHandler::GraphNodeCopyUrl),
        lower_seq(ACTION_GRAPH_NODE_COPY_TITLE@) => (ActionCapability::RequiresActiveNode, ActionHandler::GraphNodeCopyTitle),
        lower_seq(ACTION_GRAPH_EDGE_CREATE@) => (ActionCapability::RequiresWritableWorkspace, ActionHandler::GraphEdgeCreate),
        lower_seq(ACTION_GRAPH_EDGE_CONNECT_PAIR@) => (ActionCapability::RequiresSelection, ActionHandler::GraphEdgeConnectPair),
        lower_seq(ACTION_GRAPH_EDGE_CONNECT_BOTH@) => (ActionCapability::RequiresSelection, ActionHandler::GraphEdgeConnectBoth),
        lower_seq(ACTION_GRAPH_EDGE_REMOVE_USER@) => (ActionCapability::RequiresSelection, ActionHandler::GraphEdgeRemoveUser),
        lower_seq(ACTION_GRAPH_SET_PHYSICS_PROFILE@) => (ActionCapability::RequiresWritableWorkspace, ActionHandler::GraphSetPhysicsProfile),
        lower_seq(ACTION_GRAPH_FIT@) => (ActionCapability::AlwaysAvailable, ActionHandler::GraphFit),
        lower_seq(ACTION_GRAPH_TOGGLE_PHYSICS@) => (ActionCapability::RequiresWritableWorkspace, ActionHandler::GraphTogglePhysics),
        lower_seq(ACTION_GRAPH_NAVIGATE_BACK@) => (ActionCapability::AlwaysAvailable, ActionHandler::GraphNavigateBack),
        lower_seq(ACTION_GRAPH_NAVIGATE_FORWARD@) => (ActionCapability::AlwaysAvailable, ActionHandler::GraphNavigateForward),
        lower_seq(ACTION_GRAPH_SELECT_NODE@) => (ActionCapability::AlwaysAvailable, ActionHandler::GraphSelectNode),
        lower_seq(ACTION_GRAPH_DESELECT_ALL@) => (ActionCapability::RequiresSelection, ActionHandler::GraphDeselectAll),
        lower_seq(ACTION_WORKBENCH_SPLIT_HORIZONTAL@) => (ActionCapability::AlwaysAvailable, ActionHandler::WorkbenchSplitHorizontal),
        lower_seq(ACTION_WORKBENCH_DETACH_TO_SPLIT@) => (ActionCapability::RequiresActiveNode, ActionHandler::WorkbenchDetachToSplit),
        lower_seq(ACTION_WORKBENCH_MOVE_NODE_TO_PANE@) => (ActionCapability::RequiresActiveNode, ActionHandler::WorkbenchMoveNodeToPane),
        lower_seq(ACTION_WORKBENCH_SPLIT_VERTICAL@) => (ActionCapability::AlwaysAvailable, ActionHandler::WorkbenchSplitVertical),
        lower_seq(ACTION_WORKBENCH_CLOSE_PANE@) => (ActionCapability::AlwaysAvailable, ActionHandler::WorkbenchClosePane),
        lower_seq(ACTION_WORKBENCH_COMMAND_PALETTE_OPEN@) => (ActionCapability::AlwaysAvailable, ActionHandler::WorkbenchCommandPaletteOpen),
        lower_seq(ACTION_WORKBENCH_HELP_OPEN@) => (ActionCapability::AlwaysAvailable, ActionHandler::WorkbenchHelpOpen),
        lower_seq(ACTION_WORKBENCH_SETTINGS_PANE_OPEN@) => (ActionCapability::AlwaysAvailable, ActionHandler::WorkbenchSettingsPaneOpen),
        lower_seq(ACTION_WORKBENCH_SETTINGS_OVERLAY_OPEN@) => (ActionCapability::AlwaysAvailable, ActionHandler::WorkbenchSettingsOverlayOpen),
        lower_seq(ACTION_WORKBENCH_SETTINGS_OPEN@) => (ActionCapability::AlwaysAvailable, ActionHandler::WorkbenchSettingsOpen),
        lower_seq(ACTION_WORKBENCH_UNDO@) => (ActionCapability::AlwaysAvailable, ActionHandler::WorkbenchUndo),
        lower_seq(ACTION_WORKBENCH_REDO@) => (ActionCapability::AlwaysAvailable, ActionHandler::WorkbenchRedo),
        lower_seq(ACTION_WORKBENCH_SAVE_SNAPSHOT@) => (ActionCapability::RequiresWritableWorkspace, ActionHandler::WorkbenchSaveSnapshot),
        lower_seq(ACTION_WORKBENCH_RESTORE_SESSION@) => (ActionCapability::AlwaysAvailable, ActionHandler::WorkbenchRestoreSession),
        lower_seq(ACTION_WORKBENCH_SAVE_GRAPH@) => (ActionCapability::RequiresWritableWorkspace, ActionHandler::WorkbenchSaveGraph),
        lower_seq(ACTION_WORKBENCH_RESTORE_GRAPH@) => (ActionCapability::AlwaysAvailable, ActionHandler::WorkbenchRestoreGraph),
        lower_seq(ACTION_WORKBENCH_OPEN_PERSISTENCE_HUB@) => (ActionCapability::AlwaysAvailable, ActionHandler::WorkbenchOpenPersistenceHub),
        lower_seq(ACTION_WORKBENCH_OPEN_HISTORY_MANAGER@) => (ActionCapability::AlwaysAvailable, ActionHandler::WorkbenchOpenHistoryManager),
        lower_seq(ACTION_WORKBENCH_ACTIVATE_WORKFLOW@) => (ActionCapability::AlwaysAvailable, ActionHandler::WorkbenchActivateWorkflow),
        lower_seq(ACTION_DETAIL_VIEW_SUBMIT@) => (ActionCapability::RequiresWritableWorkspace, ActionHandler::DetailViewSubmit),
        lower_seq(ACTION_GRAPH_VIEW_SUBMIT@) => (ActionCapability::RequiresWritableWorkspace, ActionHandler::GraphViewSubmit),
        lower_seq(ACTION_OMNIBOX_NODE_SEARCH@) => (ActionCapability::AlwaysAvailable, ActionHandler::OmniboxNodeSearch),
        lower_seq(ACTION_VERSE_PAIR_DEVICE@) => (ActionCapability::AlwaysAvailable, ActionHandler::VersePairDevice),
        lower_seq(ACTION_VERSE_SYNC_NOW@) => (ActionCapability::AlwaysAvailable, ActionHandler::VerseSyncNow),
        lower_seq(ACTION_VERSE_SHARE_WORKSPACE@) => (ActionCapability::RequiresWritableWorkspace, ActionHandler::VerseShareWorkspace),
        lower_seq(ACTION_VERSE_FORGET_DEVICE@) => (ActionCapability::AlwaysAvailable, ActionHandler::VerseForgetDevice),
        lower_seq(ACTION_GRAPH_SELECTION_WARM_SELECT@) => (ActionCapability::RequiresSelection, ActionHandler::GraphSelectionWarmSelect),
        lower_seq(ACTION_GRAPH_NODE_REMOVE_FROM_GRAPHLET@) => (ActionCapability::RequiresSelection, ActionHandler::GraphNodeRemoveFromGraphlet),
    ]
}

impl Default for ActionRegistry {
    fn default() -> (r: Self)
        ensures
            r@ == default_actions(),
    {
        let mut r = ActionRegistry::new();
        r.register(ACTION_GRAPH_NODE_OPEN, ActionCapability::AlwaysAvailable, ActionHandler::GraphNodeOpen);
        r.register(ACTION_GRAPH_NODE_CLOSE, ActionCapability::AlwaysAvailable, ActionHandler::GraphNodeClose);
        r.register(ACTION_GRAPH_NODE_NEW, ActionCapability::RequiresWritableWorkspace, ActionHandler::GraphNodeNew);
        r.register(ACTION_GRAPH_NODE_NEW_AS_TAB, ActionCapability::RequiresWritableWorkspace, ActionHandler::GraphNodeNewAsTab);
        r.register(ACTION_GRAPH_NODE_PIN_TOGGLE, ActionCapability::RequiresActiveNode, ActionHandler::GraphNodePinToggle);
        r.register(ACTION_GRAPH_NODE_PIN_SELECTED, ActionCapability::RequiresSelection, ActionHandler::GraphNodePinSelected);
        r.register(ACTION_GRAPH_NODE_UNPIN_SELECTED, ActionCapability::RequiresSelection, ActionHandler::GraphNodeUnpinSelected);
        r.register(ACTION_GRAPH_NODE_DELETE, ActionCapability::RequiresSelection, ActionHandler::GraphNodeDelete);
        r.register(ACTION_GRAPH_NODE_CHOOSE_FRAME, ActionCapability::RequiresActiveNode, ActionHandler::GraphNodeChooseFrame);
        r.register(ACTION_GRAPH_NODE_ADD_TO_FRAME, ActionCapability::RequiresActiveNode, ActionHandler::GraphNodeAddToFrame);
        r.register(ACTION_GRAPH_NODE_ADD_CONNECTED_TO_FRAME, ActionCapability::RequiresActiveNode, ActionHandler::GraphNodeAddConnectedToFrame);
        r.register(ACTION_GRAPH_NODE_OPEN_FRAME, ActionCapability::RequiresActiveNode, ActionHandler::GraphNodeOpenFrame);
        r.register(ACTION_GRAPH_NODE_OPEN_NEIGHBORS, ActionCapability::RequiresActiveNode, ActionHandler::GraphNodeOpenNeighbors);
        r.register(ACTION_GRAPH_NODE_OPEN_CONNECTED, ActionCapability::RequiresActiveNode, ActionHandler::GraphNodeOpenConnected);
        r.register(ACTION_GRAPH_NODE_OPEN_SPLIT, ActionCapability::RequiresActiveNode, ActionHandler::GraphNodeOpenSplit);
        r.register(ACTION_GRAPH_NODE_COPY_URL, ActionCapability::RequiresActiveNode, ActionHandler::GraphNodeCopyUrl);
        r.register(ACTION_GRAPH_NODE_COPY_TITLE, ActionCapability::RequiresActiveNode, ActionHandler::GraphNodeCopyTitle);
        r.register(ACTION_GRAPH_EDGE_CREATE, ActionCapability::RequiresWritableWorkspace, ActionHandler::GraphEdgeCreate);
        r.register(ACTION_GRAPH_EDGE_CONNECT_PAIR, ActionCapability::RequiresSelection, ActionHandler::GraphEdgeConnectPair);
        r.register(ACTION_GRAPH_EDGE_CONNECT_BOTH, ActionCapability::RequiresSelection, ActionHandler::GraphEdgeConnectBoth);
        r.register(ACTION_GRAPH_EDGE_REMOVE_USER, ActionCapability::RequiresSelection, ActionHandler::GraphEdgeRemoveUser);
        r.register(ACTION_GRAPH_SET_PHYSICS_PROFILE, ActionCapability::RequiresWritableWorkspace, ActionHandler::GraphSetPhysicsProfile);
        r.register(ACTION_GRAPH_FIT, ActionCapability::AlwaysAvailable, ActionHandler::GraphFit);
        r.register(ACTION_GRAPH_TOGGLE_PHYSICS, ActionCapability::RequiresWritableWorkspace, ActionHandler::GraphTogglePhysics);
        r.register(ACTION_GRAPH_NAVIGATE_BACK, ActionCapability::AlwaysAvailable, ActionHandler::GraphNavigateBack);
        r.register(ACTION_GRAPH_NAVIGATE_FORWARD, ActionCapability::AlwaysAvailable, ActionHandler::GraphNavigateForward);
        r.register(ACTION_GRAPH_SELECT_NODE, ActionCapability::AlwaysAvailable, ActionHandler::GraphSelectNode);
        r.register(ACTION_GRAPH_DESELECT_ALL, ActionCapability::RequiresSelection, ActionHandler::GraphDeselectAll);
        r.register(ACTION_WORKBENCH_SPLIT_HORIZONTAL, ActionCapability::AlwaysAvailable, ActionHandler::WorkbenchSplitHorizontal);
        r.register(ACTION_WORKBENCH_DETACH_TO_SPLIT, ActionCapability::RequiresActiveNode, ActionHandler::WorkbenchDetachToSplit);
        r.register(ACTION_WORKBENCH_MOVE_NODE_TO_PANE, ActionCapability::RequiresActiveNode, ActionHandler::WorkbenchMoveNodeToPane);
        r.register(ACTION_WORKBENCH_SPLIT_VERTICAL, ActionCapability::AlwaysAvailable, ActionHandler::WorkbenchSplitVertical);
        r.register(ACTION_WORKBENCH_CLOSE_PANE, ActionCapability::AlwaysAvailable, ActionHandler::WorkbenchClosePane);
        r.register(ACTION_WORKBENCH_COMMAND_PALETTE_OPEN, ActionCapability::AlwaysAvailable, ActionHandler::WorkbenchCommandPaletteOpen);
        r.register(ACTION_WORKBENCH_HELP_OPEN, ActionCapability::AlwaysAvailable, ActionHandler::WorkbenchHelpOpen);
        r.register(ACTION_WORKBENCH_SETTINGS_PANE_OPEN, ActionCapability::AlwaysAvailable, ActionHandler::WorkbenchSettingsPaneOpen);
        r.register(ACTION_WORKBENCH_SETTINGS_OVERLAY_OPEN, ActionCapability::AlwaysAvailable, ActionHandler::WorkbenchSettingsOverlayOpen);
        r.register(ACTION_WORKBENCH_SETTINGS_OPEN, ActionCapability::AlwaysAvailable, ActionHandler::WorkbenchSettingsOpen);
        r.register(ACTION_WORKBENCH_UNDO, ActionCapability::AlwaysAvailable, ActionHandler::WorkbenchUndo);
        r.register(ACTION_WORKBENCH_REDO, ActionCapability::AlwaysAvailable, ActionHandler::WorkbenchRedo);
        r.register(ACTION_WORKBENCH_SAVE_SNAPSHOT, ActionCapability::RequiresWritableWorkspace, ActionHandler::WorkbenchSaveSnapshot);
        r.register(ACTION_WORKBENCH_RESTORE_SESSION, ActionCapability::AlwaysAvailable, ActionHandler::WorkbenchRestoreSession);
        r.register(ACTION_WORKBENCH_SAVE_GRAPH, ActionCapability::RequiresWritableWorkspace, ActionHandler::WorkbenchSaveGraph);
        r.register(ACTION_WORKBENCH_RESTORE_GRAPH, ActionCapability::AlwaysAvailable, ActionHandler::WorkbenchRestoreGraph);
        r.register(ACTION_WORKBENCH_OPEN_PERSISTENCE_HUB, ActionCapability::AlwaysAvailable, ActionHandler::WorkbenchOpenPersistenceHub);
        r.register(ACTION_WORKBENCH_OPEN_HISTORY_MANAGER, ActionCapability::AlwaysAvailable, ActionHandler::WorkbenchOpenHistoryManager);
        r.register(ACTION_WORKBENCH_ACTIVATE_WORKFLOW, ActionCapability::AlwaysAvailable, ActionHandler::WorkbenchActivateWorkflow);
        r.register(ACTION_DETAIL_VIEW_SUBMIT, ActionCapability::RequiresWritableWorkspace, ActionHandler::DetailViewSubmit);
        r.register(ACTION_GRAPH_VIEW_SUBMIT, ActionCapability::RequiresWritableWorkspace, ActionHandler::GraphViewSubmit);
        r.register(ACTION_OMNIBOX_NODE_SEARCH, ActionCapability::AlwaysAvailable, ActionHandler::OmniboxNodeSearch);
        r.register(ACTION_VERSE_PAIR_DEVICE, ActionCapability::AlwaysAvailable, ActionHandler::VersePairDevice);
        r.register(ACTION_VERSE_SYNC_NOW, ActionCapability::AlwaysAvailable, ActionHandler::VerseSyncNow);
        r.register(ACTION_VERSE_SHARE_WORKSPACE, ActionCapability::RequiresWritableWorkspace, ActionHandler::VerseShareWorkspace);
        r.register(ACTION_VERSE_FORGET_DEVICE, ActionCapability::AlwaysAvailable, ActionHandler::VerseForgetDevice);
        r.register(ACTION_GRAPH_SELECTION_WARM_SELECT, ActionCapability::RequiresSelection, ActionHandler::GraphSelectionWarmSelect);
        r.register(ACTION_GRAPH_NODE_REMOVE_FROM_GRAPHLET, ActionCapability::RequiresSelection, ActionHandler::GraphNodeRemoveFromGraphlet);
        r
    }
}

/// Lower-casing an id twice changes nothing more than once: the id a registry
/// stores finds the same action again.
pub proof fn law_lowered_id_is_stable(id: Seq<char>)
    ensures
        lower_seq(lower_seq(id)) == lower_seq(id),
{
    assert(lower_seq(lower_seq(id)) =~= lower_seq(id));
}

/// After `register(id, c, h)`, `describe_action(id)` reports `c`, and `execute(id, ..)`
/// checks `c` and then runs `h`.
pub proof fn law_register_then_lookup(
    actions: Map<Seq<char>, (ActionCapability, ActionHandler)>,
    id: Seq<char>,
    capability: ActionCapability,
    handler: ActionHandler,
)
    ensures
        ({
            let after = actions.insert(lower_seq(id), (capability, handler));
            &&& after.dom().contains(lower_seq(id))
            &&& after[lower_seq(id)] == (capability, handler)
        }),
{
}

/// After `unregister(id)` the action is unknown, whatever was registered before.
pub proof fn law_unregister_forgets(
    actions: Map<Seq<char>, (ActionCapability, ActionHandler)>,
    id: Seq<char>,
    ctx: ActionContext,
    payload: ActionPayload,
    r: ActionOutcome,
)
    requires
        execute_post(actions.remove(lower_seq(id)), lower_seq(id), ctx, payload, r),
    ensures
        r matches ActionOutcome::Failure(f) && f.kind == ActionFailureKind::UnknownAction,
{
}

/// An action whose capability the application does not meet is refused before its
/// handler runs: the outcome is a rejection naming the action and the capability.
pub proof fn law_unmet_capability_is_rejected(
    actions: Map<Seq<char>, (ActionCapability, ActionHandler)>,
    key: Seq<char>,
    ctx: ActionContext,
    payload: ActionPayload,
    r: ActionOutcome,
)
    requires
        actions.dom().contains(key),
        !capability_available_spec(ctx, actions[key].0),
        execute_post(actions, key, ctx, payload, r),
    ensures
        r matches ActionOutcome::Failure(f) && f.kind == ActionFailureKind::Rejected
            && f.reason@ == "action '"@ + key + "' unavailable: "@ + capability_reason_spec(actions[key].0),
{
}

} // verus!
