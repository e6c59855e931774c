//! The registry runtime: the registries together, navigation through the protocol
//! and viewer registries, workflows, and actions run against the application.

use vstd::prelude::*;
use crate::action::{
    ActionContext, ActionDispatch, ActionFailure, ActionFailureKind, ActionOutcome, ActionPayload,
    RuntimeAction, ACTION_DETAIL_VIEW_SUBMIT, ACTION_GRAPH_VIEW_SUBMIT, ACTION_OMNIBOX_NODE_SEARCH,
};
use crate::action_registry::{ActionRegistry, execute_post};
use crate::index::IndexRegistry;
use crate::knowledge::{
    KnowledgeRegistry, SemanticReconcileReport, SemanticWorkspace, best_anchor, canonical_tag_spec, index_classes, keys_with_tag,
    query_by_tag, reconcile_post, reconcile_semantics, suggest_placement_anchor, tags_for_node, tags_of,
};
use crate::mod_extensions::{DynamicRegistrySurfaces, LensRegistry, ModExtensionRecord, register_verso_mod_extensions};
use crate::model::{AppCommand, GraphIntent, NodeKey, WorkbenchIntent};
use crate::profiles::{
    CanvasRegistry, LayoutRegistry, PhysicsProfileRegistry, ProfileResolution, CANVAS_PROFILE_DEFAULT,
    PHYSICS_PROFILE_DRIFT, PHYSICS_PROFILE_SCATTER, PHYSICS_PROFILE_SETTLE,
};
use crate::protocol::{ProtocolRegistry, ProtocolResolution, ProtocolResolveControl, ProtocolResolveOutcome, resolution_spec};
use crate::text::{after_char, after_seq, join3, lower_seq, owned, str_eq};
use crate::nostr_signer::{parse_url, url_parse};
use crate::theme::{ThemeRegistry, ThemeResolution, THEME_ID_DARK, THEME_ID_LIGHT};
use crate::agent::{AgentDescriptor, AgentRegistry, agent_key};
use crate::renderer::{PaneAttachment, RendererRegistry, RendererRegistryError, attached, detached};
use crate::model::{PaneId, RendererId};
use crate::identity::{IdentityRegistry, signed_text, text_view, verify_spec};
use crate::trust::{AccessLevel, TrustedPeer, granted, peer_view, peers_view, ungranted, without_peer};
use crate::nostr::{NostrCoreError, NostrCoreRegistry, NostrSignedEvent};
use crate::nostr_event::{NostrUnsignedEvent, sign_event_post};
use crate::viewer::{ViewerRegistry, ViewerSelection, selection_spec};
use crate::workbench_surface::{
    WorkbenchSurfaceDescription, WorkbenchSurfaceRegistry, WORKBENCH_PROFILE_COMPARE, WORKBENCH_PROFILE_DEFAULT, WORKBENCH_PROFILE_FOCUS,
};

verus! {

pub const WORKFLOW_DEFAULT: &'static str = "workflow:default";
pub const WORKFLOW_RESEARCH: &'static str = "workflow:research";
pub const WORKFLOW_READING: &'static str = "workflow:reading";
pub const WORKFLOW_HISTORY: &'static str = "workflow:history";

pub const VIEWER_SURFACE_DEFAULT: &'static str = "viewer_surface:default";
pub const VIEWER_SURFACE_WEB: &'static str = "viewer_surface:web";
pub const VIEWER_SURFACE_DOCUMENT: &'static str = "viewer_surface:document";

/// A workflow: the profiles it sets and whether it can be activated yet.
#[derive(Debug, Clone, PartialEq, Eq)]
pub struct WorkflowCapability {
    pub workflow_id: String,
    pub display_name: String,
    pub implemented: bool,
    pub canvas_profile: String,
    pub physics_profile: String,
    pub workbench_profile: String,
}

/// The workflow catalog: id to (name, implemented, canvas, physics, workbench).
pub open spec fn workflow_spec(id: Seq<char>) -> Option<(Seq<char>, bool, Seq<char>, Seq<char>, Seq<char>)> {
    if id == WORKFLOW_DEFAULT@ {
        Some(("Default"@, true, CANVAS_PROFILE_DEFAULT@, PHYSICS_PROFILE_DRIFT@, WORKBENCH_PROFILE_DEFAULT@))
    } else if id == WORKFLOW_RESEARCH@ {
        Some(("Research"@, true, CANVAS_PROFILE_DEFAULT@, PHYSICS_PROFILE_SCATTER@, WORKBENCH_PROFILE_COMPARE@))
    } else if id == WORKFLOW_READING@ {
        Some(("Reading"@, true, CANVAS_PROFILE_DEFAULT@, PHYSICS_PROFILE_SETTLE@, WORKBENCH_PROFILE_FOCUS@))
    } else if id == WORKFLOW_HISTORY@ {
        Some(("History"@, false, CANVAS_PROFILE_DEFAULT@, PHYSICS_PROFILE_DRIFT@, WORKBENCH_PROFILE_DEFAULT@))
    } else {
        None
    }
}

/// Whether the workflow can be activated yet.
pub open spec fn workflow_implemented(id: Seq<char>) -> bool {
    match workflow_spec(id) {
        Some(w) => w.1,
        None => false,
    }
}

/// The workflow an id resolves to: itself where the catalog knows it, the default otherwise.
pub open spec fn resolved_workflow(id: Seq<char>) -> Seq<char> {
    if workflow_spec(id) is Some { id } else { WORKFLOW_DEFAULT@ }
}

fn workflow(id: &str, name: &str, implemented: bool, canvas: &str, physics: &str, workbench: &str) -> (r: WorkflowCapability)
    ensures
        r.workflow_id@ == id@,
        r.display_name@ == name@,
        r.implemented == implemented,
        r.canvas_profile@ == canvas@,
        r.physics_profile@ == physics@,
        r.workbench_profile@ == workbench@,
{
    WorkflowCapability {
        workflow_id: owned(id),
        display_name: owned(name),
        implemented,
        canvas_profile: owned(canvas),
        physics_profile: owned(physics),
        workbench_profile: owned(workbench),
    }
}

/// Describes the workflow `workflow_id` resolves to.
pub fn describe_workflow(workflow_id: Option<&str>) -> (r: WorkflowCapability)
    ensures
        ({
            let id = resolved_workflow(match workflow_id { Some(w) => w@, None => WORKFLOW_DEFAULT@ });
            &&& r.workflow_id@ == id
            &&& workflow_spec(id) == Some((r.display_name@, r.implemented, r.canvas_profile@, r.physics_profile@, r.workbench_profile@))
        }),
{
    proof {
        reveal_strlit("workflow:default");
        reveal_strlit("workflow:research");
        reveal_strlit("workflow:reading");
        reveal_strlit("workflow:history");
        assert(WORKFLOW_READING@[9] != WORKFLOW_DEFAULT@[9]);
        assert(WORKFLOW_HISTORY@[9] != WORKFLOW_DEFAULT@[9]);
        assert(WORKFLOW_HISTORY@[9] != WORKFLOW_READING@[9]);
    }
    let id = match workflow_id {
        Some(w) => w,
        None => WORKFLOW_DEFAULT,
    };
    if str_eq(id, WORKFLOW_RESEARCH) {
        workflow(WORKFLOW_RESEARCH, "Research", true, CANVAS_PROFILE_DEFAULT, PHYSICS_PROFILE_SCATTER, WORKBENCH_PROFILE_COMPARE)
    } else if str_eq(id, WORKFLOW_READING) {
        workflow(WORKFLOW_READING, "Reading", true, CANVAS_PROFILE_DEFAULT, PHYSICS_PROFILE_SETTLE, WORKBENCH_PROFILE_FOCUS)
    } else if str_eq(id, WORKFLOW_HISTORY) {
        workflow(WORKFLOW_HISTORY, "History", false, CANVAS_PROFILE_DEFAULT, PHYSICS_PROFILE_DRIFT, WORKBENCH_PROFILE_DEFAULT)
    } else {
        workflow(WORKFLOW_DEFAULT, "Default", true, CANVAS_PROFILE_DEFAULT, PHYSICS_PROFILE_DRIFT, WORKBENCH_PROFILE_DEFAULT)
    }
}

#[derive(Debug, Clone, PartialEq, Eq)]
pub struct WorkflowActivation {
    pub workflow_id: String,
    pub workbench_profile_id: String,
}

#[derive(Debug, Clone, PartialEq, Eq)]
pub enum WorkflowActivationError {
    NotImplemented { workflow_id: String },
}

/// The viewer surface profile a viewer renders in.
pub open spec fn viewer_surface_spec(viewer_id: Seq<char>) -> Option<Seq<char>> {
    if viewer_id == "viewer:webview"@ || viewer_id == "viewer:wry"@ {
        Some(VIEWER_SURFACE_WEB@)
    } else if viewer_id == "viewer:markdown"@ || viewer_id == "viewer:plaintext"@ || viewer_id == "viewer:pdf"@
        || viewer_id == "viewer:csv"@ {
        Some(VIEWER_SURFACE_DOCUMENT@)
    } else {
        None
    }
}

/// Resolves the surface profile of a viewer: web and document viewers have their
/// own, any other falls back to the default surface.
pub fn resolve_viewer_surface_profile(viewer_id: &str) -> (r: ProfileResolution)
    ensures
        r.requested_id@ == viewer_id@,
        match viewer_surface_spec(viewer_id@) {
            Some(s) => r.resolved_id@ == s && r.matched && !r.fallback_used,
            None => r.resolved_id@ == VIEWER_SURFACE_DEFAULT@ && !r.matched && r.fallback_used,
        },
{
    let web = str_eq(viewer_id, "viewer:webview") || str_eq(viewer_id, "viewer:wry");
    let document = str_eq(viewer_id, "viewer:markdown") || str_eq(viewer_id, "viewer:plaintext")
        || str_eq(viewer_id, "viewer:pdf") || str_eq(viewer_id, "viewer:csv");
    let (resolved, name, matched) = if web {
        (VIEWER_SURFACE_WEB, "Web", true)
    } else if document {
        (VIEWER_SURFACE_DOCUMENT, "Document", true)
    } else {
        (VIEWER_SURFACE_DEFAULT, "Default", false)
    };
    ProfileResolution {
        requested_id: owned(viewer_id),
        resolved_id: owned(resolved),
        matched,
        fallback_used: !matched,
        display_name: owned(name),
    }
}

/// Whether an intent changes the graph's data (as opposed to what the runtime
/// shows or does).
pub open spec fn is_graph_mutation(intent: GraphIntent) -> bool {
    ||| intent is RemoveEdge
    ||| intent is CreateNodeNearCenter
    ||| intent is CreateNodeNearCenterAndOpen
    ||| intent is TogglePrimaryNodePin
    ||| intent is ExecuteEdgeCommand
    ||| intent is RemoveSelectedNodes
    ||| intent is CreateUserGroupedEdge
    ||| intent is SetNodeUrl
    ||| intent is CreateNodeAtUrl
    ||| intent is TrustPeer
    ||| intent is GrantWorkspaceAccess
    ||| intent is ForgetDevice
}

pub fn graph_mutation(intent: &GraphIntent) -> (r: bool)
    ensures
        r == is_graph_mutation(*intent),
{
    matches!(
        intent,
        GraphIntent::RemoveEdge { .. } | GraphIntent::CreateNodeNearCenter | GraphIntent::CreateNodeNearCenterAndOpen { .. }
            | GraphIntent::TogglePrimaryNodePin | GraphIntent::ExecuteEdgeCommand { .. } | GraphIntent::RemoveSelectedNodes
            | GraphIntent::CreateUserGroupedEdge { .. } | GraphIntent::SetNodeUrl { .. } | GraphIntent::CreateNodeAtUrl { .. }
            | GraphIntent::TrustPeer { .. } | GraphIntent::GrantWorkspaceAccess { .. } | GraphIntent::ForgetDevice { .. }
    )
}

/// The intents of a submit, split into graph mutations and runtime events.
#[derive(Debug)]
/// Where a navigation goes: the URL after the protocol policy, how its
/// protocol resolved, and the viewer picked for it.
pub struct Phase0NavigationDecision {
    pub normalized_url: String,
    pub protocol: ProtocolResolution,
    pub viewer: ViewerSelection,
}

/// The URL a navigation keeps: where its scheme is unsupported and the
/// protocol fell back to another scheme, the URL with that scheme in place of
/// its own, as the URL parser writes it back; otherwise, or where that does
/// not parse, the URL as it was.
pub open spec fn protocol_policy_spec(url: Seq<char>, p: ProtocolResolution) -> Seq<char> {
    if p.supported || !p.fallback_used || p.matched_scheme@.len() == 0 {
        url
    } else {
        match after_seq(url, ':') {
            Some(rest) => match url_parse(p.matched_scheme@ + ":"@ + rest) {
                Ok(parts) => parts.5,
                Err(_) => url,
            },
            None => url,
        }
    }
}

/// Applies the protocol policy to a URL (see `protocol_policy_spec`).
pub fn apply_phase0_protocol_policy(url: &str, resolution: &ProtocolResolution) -> (r: String)
    ensures
        r@ == protocol_policy_spec(url@, *resolution),
{
    if resolution.supported || !resolution.fallback_used || resolution.matched_scheme.unicode_len() == 0 {
        return owned(url);
    }
    match after_char(url, ':') {
        Some(rest) => {
            let rewritten = join3(resolution.matched_scheme.as_str(), ":", rest.as_str());
            match parse_url(rewritten.as_str()) {
                Ok(parts) => parts.serialization,
                Err(_) => owned(url),
            }
        },
        None => owned(url),
    }
}

/// What a graph-view submit does: the graph mutations, and whether the
/// selected tile opens.
pub struct Phase2GraphViewSubmitResult {
    pub open_selected_tile: bool,
    pub mutations: Vec<GraphIntent>,
}

pub struct Phase2DetailViewSubmitResult {
    pub open_selected_tile: bool,
    pub mutations: Vec<GraphIntent>,
    pub runtime_events: Vec<GraphIntent>,
}

pub open spec fn mutations_of(s: Seq<GraphIntent>) -> Seq<GraphIntent>
    decreases s.len(),
{
    if s.len() == 0 {
        Seq::empty()
    } else if is_graph_mutation(s.last()) {
        mutations_of(s.drop_last()).push(s.last())
    } else {
        mutations_of(s.drop_last())
    }
}

pub open spec fn events_of(s: Seq<GraphIntent>) -> Seq<GraphIntent>
    decreases s.len(),
{
    if s.len() == 0 {
        Seq::empty()
    } else if !is_graph_mutation(s.last()) {
        events_of(s.drop_last()).push(s.last())
    } else {
        events_of(s.drop_last())
    }
}

/// Splits intents into graph mutations and runtime events, each in order.
pub fn split_detail_submit_intents(intents: Vec<GraphIntent>) -> (r: (Vec<GraphIntent>, Vec<GraphIntent>))
    ensures
        r.0@ == mutations_of(intents@),
        r.1@ == events_of(intents@),
{
    let ghost all = intents@;
    let mut mutations: Vec<GraphIntent> = Vec::new();
    let mut events: Vec<GraphIntent> = Vec::new();
    let mut rest = intents;
    let ghost n = all.len();
    assert(rest@ == all.subrange(0, n as int));
    while rest.len() > 0
        invariant
            n == all.len(),
            rest@.len() <= n,
            rest@ == all.subrange(n - rest@.len(), n as int),
            mutations@ == mutations_of(all.subrange(0, n - rest@.len())),
            events@ == events_of(all.subrange(0, n - rest@.len())),
        decreases rest@.len(),
    {
        let ghost done = n - rest@.len();
        let intent = rest.remove(0);
        let ghost pre = all.subrange(0, done + 1);
        assert(intent == all[done]);
        assert(rest@ =~= all.subrange(done + 1, n as int));
        assert(pre.drop_last() == all.subrange(0, done));
        assert(pre.last() == all[done]);
        if graph_mutation(&intent) {
            mutations.push(intent);
        } else {
            events.push(intent);
        }
    }
    assert(all.subrange(0, n as int) == all);
    (mutations, events)
}

/// What runtime actions act on: the active canvas, physics and workbench
/// profiles, the physics profile new graphs start with, and the settings
/// routes published.
pub type RuntimeProfileState = (Seq<char>, Seq<char>, Seq<char>, Option<Seq<char>>, Seq<Seq<char>>);

/// Whether a runtime action is refused: it activates a workflow that is not
/// implemented yet.
pub open spec fn runtime_action_refused(a: RuntimeAction) -> bool {
    a matches RuntimeAction::ActivateWorkflow { workflow_id } && !workflow_implemented(resolved_workflow(workflow_id@))
}

/// The state after one runtime action (a refused activation still switches
/// the profiles, as `activate_workflow` does).
pub open spec fn runtime_action_step(s: RuntimeProfileState, a: RuntimeAction) -> RuntimeProfileState {
    match a {
        RuntimeAction::ActivateWorkflow { workflow_id } => {
            let w = workflow_spec(resolved_workflow(workflow_id@))->0;
            (w.2, w.3, w.4, if w.1 { Some(w.3) } else { s.3 }, s.4)
        },
        RuntimeAction::PublishSettingsRouteRequested { url, .. } => (s.0, s.1, s.2, s.3, s.4.push(url@)),
    }
}

/// Carrying out runtime actions in order up to the first refused one: the
/// state left, and the index of the refused action where there is one.
pub open spec fn runtime_actions_applied(s: RuntimeProfileState, acts: Seq<RuntimeAction>) -> (RuntimeProfileState, Option<int>)
    decreases acts.len(),
{
    if acts.len() == 0 {
        (s, None)
    } else {
        let prev = runtime_actions_applied(s, acts.drop_last());
        if prev.1 is Some {
            prev
        } else {
            (
                runtime_action_step(prev.0, acts.last()),
                if runtime_action_refused(acts.last()) { Some(acts.len() - 1) } else { None },
            )
        }
    }
}

proof fn lemma_refusal_sticks(s: RuntimeProfileState, acts: Seq<RuntimeAction>, i: int)
    requires
        0 <= i <= acts.len(),
        runtime_actions_applied(s, acts.subrange(0, i)).1 is Some,
    ensures
        runtime_actions_applied(s, acts) == runtime_actions_applied(s, acts.subrange(0, i)),
    decreases acts.len() - i,
{
    if i < acts.len() {
        assert(acts.subrange(0, i + 1).drop_last() =~= acts.subrange(0, i));
        lemma_refusal_sticks(s, acts, i + 1);
    } else {
        assert(acts.subrange(0, i) =~= acts);
    }
}

proof fn lemma_refused_index(s: RuntimeProfileState, acts: Seq<RuntimeAction>)
    ensures
        runtime_actions_applied(s, acts).1 matches Some(i) ==> 0 <= i < acts.len() && runtime_action_refused(acts[i]),
    decreases acts.len(),
{
    if acts.len() > 0 {
        lemma_refused_index(s, acts.drop_last());
    }
}

pub open spec fn creates_node(s: Seq<GraphIntent>) -> bool {
    exists|i: int| 0 <= i < s.len() && s[i] is CreateNodeAtUrl
}

/// The registries of the running application.
/// An event the registries publish for their observers; the runtime keeps
/// them, oldest first, for the application to deliver.
#[derive(Debug, Clone, PartialEq, Eq)]
pub enum RegistryEventSignal {
    PhysicsProfileChanged { new_profile_id: String },
    CanvasProfileChanged { new_profile_id: String },
    ThemeChanged { new_theme_id: String },
    WorkbenchSurfaceChanged { new_profile_id: String },
    ModLoaded { mod_id: String },
    ModUnloaded { mod_id: String },
    AgentSpawned { agent_id: String },
    WorkbenchProjectionRefreshRequested { reason: String },
    SemanticIndexUpdated { indexed_nodes: usize },
    WorkflowChanged { new_workflow_id: String },
}

/// A navigation event the runtime publishes for its observers.
#[derive(Debug, Clone, PartialEq, Eq)]
pub enum NavigationSignal {
    MimeResolved { key: NodeKey, uri: String, mime_hint: Option<String>, viewer_id: String },
    NodeActivated { key: NodeKey, uri: String, title: String },
    /// A navigation resolved to a viewer.
    Resolved { uri: String, viewer_id: String },
}

/// The navigation log after one `Resolved` signal for `uri` and the viewer it
/// resolved to was appended.
pub open spec fn navigation_resolved_published(before: Seq<NavigationSignal>, after: Seq<NavigationSignal>, uri: Seq<char>, viewer_id: Seq<char>) -> bool {
    &&& after.len() == before.len() + 1
    &&& after.drop_last() == before
    &&& after.last() matches NavigationSignal::Resolved { uri: u, viewer_id: v } && u@ == uri && v@ == viewer_id
}

/// How hard the machine is pressed for memory.
#[derive(Debug, Clone, Copy, PartialEq, Eq, Structural)]
pub enum MemoryPressureLevel {
    Unknown,
    Normal,
    Warning,
    Critical,
}

pub open spec fn pressure_name(level: MemoryPressureLevel) -> Seq<char> {
    match level {
        MemoryPressureLevel::Unknown => "unknown"@,
        MemoryPressureLevel::Normal => "normal"@,
        MemoryPressureLevel::Warning => "warning"@,
        MemoryPressureLevel::Critical => "critical"@,
    }
}

/// The name a memory pressure level is published under.
pub fn memory_pressure_name(level: MemoryPressureLevel) -> (r: &'static str)
    ensures
        r@ == pressure_name(level),
{
    match level {
        MemoryPressureLevel::Unknown => "unknown",
        MemoryPressureLevel::Normal => "normal",
        MemoryPressureLevel::Warning => "warning",
        MemoryPressureLevel::Critical => "critical",
    }
}

/// A lifecycle event the runtime publishes for its observers.
#[derive(Debug, Clone, PartialEq, Eq)]
pub enum LifecycleSignal {
    MimeResolved { node_key: NodeKey, mime: String },
    MemoryPressureChanged { level: String, available_mib: u64, total_mib: u64 },
    UserIdle { since_ms: u64 },
    UserResumed,
    SemanticIndexUpdated { indexed_nodes: usize },
    WorkflowActivated { workflow_id: String },
}

/// A kind of registry event and the id it carries.
pub open spec fn event_view(e: RegistryEventSignal) -> (int, Seq<char>) {
    match e {
        RegistryEventSignal::PhysicsProfileChanged { new_profile_id } => (0, new_profile_id@),
        RegistryEventSignal::CanvasProfileChanged { new_profile_id } => (1, new_profile_id@),
        RegistryEventSignal::ThemeChanged { new_theme_id } => (2, new_theme_id@),
        RegistryEventSignal::WorkbenchSurfaceChanged { new_profile_id } => (3, new_profile_id@),
        RegistryEventSignal::ModLoaded { mod_id } => (4, mod_id@),
        RegistryEventSignal::ModUnloaded { mod_id } => (5, mod_id@),
        RegistryEventSignal::AgentSpawned { agent_id } => (6, agent_id@),
        RegistryEventSignal::WorkbenchProjectionRefreshRequested { reason } => (7, reason@),
        RegistryEventSignal::SemanticIndexUpdated { .. } => (8, Seq::empty()),
        RegistryEventSignal::WorkflowChanged { new_workflow_id } => (9, new_workflow_id@),
    }
}

pub open spec fn events_view(es: Seq<RegistryEventSignal>) -> Seq<(int, Seq<char>)> {
    es.map_values(|e: RegistryEventSignal| event_view(e))
}

pub struct RegistryRuntime {
    pub dynamic: DynamicRegistrySurfaces,
    pub physics: PhysicsProfileRegistry,
    pub canvas: CanvasRegistry,
    pub layout: LayoutRegistry,
    pub workbench_surface: WorkbenchSurfaceRegistry,
    pub knowledge: KnowledgeRegistry,
    /// The records of the mods loaded into the registries, in load order.
    pub mod_records: Vec<ModExtensionRecord>,
    /// The settings routes published for the interface, oldest first.
    pub settings_routes: Vec<String>,
    /// Workbench intents for the application, oldest first.
    pub pending_workbench_intents: Vec<WorkbenchIntent>,
    /// Commands for the application, oldest first.
    pub pending_app_commands: Vec<AppCommand>,
    /// The physics profile the application starts new graphs with.
    pub default_physics_id: Option<String>,
    pub identity: IdentityRegistry,
    pub nostr_core: NostrCoreRegistry,
    pub renderer: RendererRegistry,
    pub agent: AgentRegistry,
    /// The registry events published, oldest first.
    pub registry_events: Vec<RegistryEventSignal>,
    /// Whether the theme follows the system's light or dark preference.
    pub theme_follows_system: bool,
    /// The navigation events published, oldest first.
    pub navigation_signals: Vec<NavigationSignal>,
    /// The lifecycle events published, oldest first.
    pub lifecycle_signals: Vec<LifecycleSignal>,
}

impl RegistryRuntime {
    /// The part of the runtime that runtime actions act on.
    pub open spec fn profile_state(&self) -> RuntimeProfileState {
        (
            self.canvas.active(),
            self.physics.active(),
            self.workbench_surface.active(),
            crate::nostr_signer::opt_view(self.default_physics_id),
            crate::text::strs(self.settings_routes@),
        )
    }

    /// The runtime with the built-in registries and no mod loaded.
    pub fn new() -> (r: Self)
        ensures
            r.mod_records@.len() == 0,
            r.settings_routes@.len() == 0,
            r.pending_workbench_intents@.len() == 0,
            r.pending_app_commands@.len() == 0,
            r.default_physics_id is None,
            r.registry_events@.len() == 0,
            !r.theme_follows_system,
            r.navigation_signals@.len() == 0,
            r.lifecycle_signals@.len() == 0,
            r.dynamic.action@ == crate::action_registry::default_actions(),
            r.dynamic.protocol.schemes() == crate::protocol::default_schemes(),
            r.dynamic.protocol.fallback() == "https"@,
            r.dynamic.viewer.mime_map() == crate::viewer::default_mimes(),
            r.dynamic.viewer.extension_map() == crate::viewer::default_extensions(),
    {
        RegistryRuntime {
            dynamic: DynamicRegistrySurfaces {
                action: ActionRegistry::default(),
                lens: LensRegistry::new(),
                protocol: ProtocolRegistry::default(),
                theme: ThemeRegistry::default(),
                viewer: ViewerRegistry::default(),
                index: IndexRegistry::default(),
            },
            physics: PhysicsProfileRegistry::default(),
            canvas: CanvasRegistry::default(),
            layout: LayoutRegistry::default(),
            workbench_surface: WorkbenchSurfaceRegistry::default(),
            knowledge: KnowledgeRegistry::default(),
            mod_records: Vec::new(),
            settings_routes: Vec::new(),
            pending_workbench_intents: Vec::new(),
            pending_app_commands: Vec::new(),
            default_physics_id: None,
            identity: IdentityRegistry::default(),
            nostr_core: NostrCoreRegistry::new(),
            renderer: RendererRegistry::new(),
            agent: AgentRegistry::default(),
            registry_events: Vec::new(),
            theme_follows_system: false,
            navigation_signals: Vec::new(),
            lifecycle_signals: Vec::new(),
        }
    }

    /// The runtime with the verso mod loaded.
    pub fn new_with_mods() -> (r: Self)
        ensures
            r.mod_records@.len() == 12,
            r.dynamic.protocol.fallback() == "https"@,
            r.dynamic.protocol.schemes() == crate::protocol::default_schemes()
                .insert(lower_seq("http"@)).insert(lower_seq("https"@)).insert(lower_seq("data"@)),
            r.dynamic.viewer.mime_map() == crate::viewer::default_mimes()
                .insert(lower_seq("text/html"@), "viewer:webview"@)
                .insert(lower_seq("image/svg+xml"@), "viewer:webview"@)
                .insert(lower_seq("text/css"@), "viewer:webview"@)
                .insert(lower_seq("application/javascript"@), "viewer:webview"@)
                .insert(lower_seq("application/pdf"@), "viewer:webview"@),
            r.dynamic.viewer.extension_map() == crate::viewer::default_extensions()
                .insert(lower_seq("html"@), "viewer:webview"@)
                .insert(lower_seq("htm"@), "viewer:webview"@)
                .insert(lower_seq("svg"@), "viewer:webview"@)
                .insert(lower_seq("pdf"@), "viewer:webview"@),
            r.registry_events@.len() == 0,
    {
        let mut r = RegistryRuntime::new();
        let records = register_verso_mod_extensions(&mut r.dynamic);
        r.mod_records = records;
        r
    }

    /// Signs a payload with the persona an id resolves to; the signature text
    /// where it could sign.
    pub fn sign_identity_payload(&self, identity_id: &str, payload: &[u8]) -> (r: Option<String>)
        ensures
            text_view(r) == signed_text(self.identity.personas(), self.identity.fallback(), identity_id@, payload@),
    {
        self.identity.sign(identity_id, payload).signature
    }

    /// Checks a signature text on a payload against the persona an id
    /// resolves to.
    pub fn verify_identity_payload(&self, identity_id: &str, payload: &[u8], signature: &str) -> (r: bool)
        ensures
            r == verify_spec(self.identity.personas(), self.identity.fallback(), identity_id@, payload@, signature@),
    {
        self.identity.verify(identity_id, payload, signature).verified
    }

    /// Signs a nostr event with the host's user key for `persona`.
    pub fn nostr_sign_event(&self, persona: &str, unsigned: &NostrUnsignedEvent) -> (r: Result<NostrSignedEvent, NostrCoreError>)
        ensures
            sign_event_post(self.nostr_core.grants("identity:nostr-sign"@), self.nostr_core.signer(), self.identity, persona@, *unsigned, r),
    {
        self.nostr_core.sign_event(&self.identity, persona, unsigned)
    }

    /// Attaches a renderer to a pane (see `RendererRegistry::accept`).
    pub fn accept_renderer_attachment(&mut self, pane_id: PaneId, renderer_id: RendererId, node_key: Option<NodeKey>) -> (r: Result<(), RendererRegistryError>)
        ensures
            old(self).renderer.attachment_of(pane_id) matches Some(a) ==> r == Err::<(), RendererRegistryError>(
                RendererRegistryError::PaneAlreadyAttached { pane_id, existing_renderer_id: a.renderer_id },
            ),
            old(self).renderer.attachment_of(pane_id) is None ==> (old(self).renderer.pane_of(renderer_id) matches Some(p)
                ==> r == Err::<(), RendererRegistryError>(
                RendererRegistryError::RendererAlreadyAttached { renderer_id, existing_pane_id: p },
            )),
            r is Err ==> final(self).renderer.entries() == old(self).renderer.entries(),
            (old(self).renderer.attachment_of(pane_id) is None && old(self).renderer.pane_of(renderer_id) is None)
                ==> r is Ok && attached(old(self).renderer, final(self).renderer, pane_id, renderer_id, node_key),
    {
        self.renderer.accept(pane_id, renderer_id, node_key)
    }

    /// Detaches a renderer (see `RendererRegistry::detach`).
    pub fn detach_renderer_attachment(&mut self, renderer_id: RendererId) -> (r: Option<PaneAttachment>)
        ensures
            old(self).renderer.pane_of(renderer_id) is None ==> r is None
                && final(self).renderer.entries() == old(self).renderer.entries(),
            old(self).renderer.pane_of(renderer_id) matches Some(p) ==> r == old(self).renderer.attachment_of(p)
                && detached(old(self).renderer, final(self).renderer, p, renderer_id),
    {
        self.renderer.detach(renderer_id)
    }

    /// The attachment of a pane.
    pub fn renderer_attachment_for_pane(&self, pane_id: PaneId) -> (r: Option<PaneAttachment>)
        ensures
            r == self.renderer.attachment_of(pane_id),
    {
        match self.renderer.renderer_for_pane(&pane_id) {
            Some(a) => Some(*a),
            None => None,
        }
    }

    /// The pane a renderer is attached to.
    pub fn pane_for_renderer(&self, renderer_id: RendererId) -> (r: Option<PaneId>)
        ensures
            r == self.renderer.pane_of(renderer_id),
    {
        self.renderer.pane_for_renderer(&renderer_id)
    }

    /// The descriptor of an agent.
    pub fn describe_agent(&self, agent_id: &str) -> (r: Option<AgentDescriptor>)
        ensures
            r is Some <==> self.agent.agents().dom().contains(agent_key(agent_id@)),
            r matches Some(d) ==> d@ == self.agent.agents()[agent_key(agent_id@)]@,
    {
        self.agent.describe(agent_id)
    }

    /// The normalized id of a registered agent, for starting it.
    pub fn instantiate_agent(&self, agent_id: &str) -> (r: Option<String>)
        ensures
            r is Some <==> self.agent.agents().dom().contains(agent_key(agent_id@)),
            r matches Some(k) ==> k@ == agent_key(agent_id@),
    {
        self.agent.instantiate(agent_id)
    }

    fn publish_registry_event(&mut self, event: RegistryEventSignal)
        ensures
            events_view(final(self).registry_events@) == events_view(old(self).registry_events@).push(event_view(event)),
            final(self).registry_events@ == old(self).registry_events@.push(event),
            final(self).lifecycle_signals@ == old(self).lifecycle_signals@,
            final(self).knowledge == old(self).knowledge,
            final(self).dynamic == old(self).dynamic,
            final(self).physics == old(self).physics,
            final(self).canvas == old(self).canvas,
            final(self).workbench_surface == old(self).workbench_surface,
            final(self).theme_follows_system == old(self).theme_follows_system,
            final(self).default_physics_id == old(self).default_physics_id,
            final(self).settings_routes@ == old(self).settings_routes@,
            final(self).pending_workbench_intents@ == old(self).pending_workbench_intents@,
            final(self).pending_app_commands@ == old(self).pending_app_commands@,
            final(self).navigation_signals@ == old(self).navigation_signals@,
    {
        let ghost before = self.registry_events@;
        self.registry_events.push(event);
        assert(events_view(self.registry_events@) =~= events_view(before).push(event_view(event)));
    }

    /// The active physics profile.
    pub fn resolve_active_physics_profile(&self) -> (r: ProfileResolution)
        ensures
            r.matched && !r.fallback_used && r.resolved_id@ == self.physics.active(),
    {
        self.physics.active_profile()
    }

    /// Switches the physics profile; publishes the profile it resolved to.
    pub fn set_active_physics_profile(&mut self, profile_id: &str) -> (r: ProfileResolution)
        ensures
            crate::profiles::resolves(r, profile_id@, |id: Seq<char>| crate::profiles::physics_name(id), PHYSICS_PROFILE_DRIFT@),
            final(self).physics.active() == r.resolved_id@,
            events_view(final(self).registry_events@) == events_view(old(self).registry_events@).push((0, r.resolved_id@)),
            final(self).canvas == old(self).canvas,
            final(self).workbench_surface == old(self).workbench_surface,
            final(self).dynamic == old(self).dynamic,
            final(self).lifecycle_signals@ == old(self).lifecycle_signals@,
            final(self).default_physics_id == old(self).default_physics_id,
            final(self).settings_routes@ == old(self).settings_routes@,
            final(self).pending_workbench_intents@ == old(self).pending_workbench_intents@,
            final(self).pending_app_commands@ == old(self).pending_app_commands@,
            final(self).navigation_signals@ == old(self).navigation_signals@,
    {
        let resolution = self.physics.set_active_profile(profile_id);
        self.publish_registry_event(RegistryEventSignal::PhysicsProfileChanged { new_profile_id: resolution.resolved_id.clone() });
        resolution
    }

    /// The active canvas profile.
    pub fn resolve_active_canvas_profile(&self) -> (r: ProfileResolution)
        ensures
            r.matched && !r.fallback_used && r.resolved_id@ == self.canvas.active(),
    {
        self.canvas.active_profile()
    }

    /// Switches the canvas profile; publishes the profile it resolved to.
    pub fn set_active_canvas_profile(&mut self, profile_id: &str) -> (r: ProfileResolution)
        ensures
            crate::profiles::resolves(r, profile_id@, |id: Seq<char>| crate::profiles::canvas_name(id), CANVAS_PROFILE_DEFAULT@),
            final(self).canvas.active() == r.resolved_id@,
            events_view(final(self).registry_events@) == events_view(old(self).registry_events@).push((1, r.resolved_id@)),
            final(self).physics == old(self).physics,
            final(self).workbench_surface == old(self).workbench_surface,
            final(self).dynamic == old(self).dynamic,
            final(self).lifecycle_signals@ == old(self).lifecycle_signals@,
            final(self).default_physics_id == old(self).default_physics_id,
            final(self).settings_routes@ == old(self).settings_routes@,
            final(self).pending_workbench_intents@ == old(self).pending_workbench_intents@,
            final(self).pending_app_commands@ == old(self).pending_app_commands@,
            final(self).navigation_signals@ == old(self).navigation_signals@,
    {
        let resolution = self.canvas.set_active_profile(profile_id);
        self.publish_registry_event(RegistryEventSignal::CanvasProfileChanged { new_profile_id: resolution.resolved_id.clone() });
        resolution
    }

    /// Resolves a theme id, or the active theme where none is given.
    pub fn resolve_active_theme(&self, theme_id: Option<&str>) -> (r: ThemeResolution)
        ensures
            ({
                let requested = lower_seq(crate::text::trim_seq(match theme_id { Some(t) => t@, None => self.dynamic.theme.active_id() }));
                let known = requested.len() > 0 && self.dynamic.theme.names().dom().contains(requested);
                &&& r.matched == known
                &&& r.resolved_id@ == (if known { requested } else { self.dynamic.theme.fallback() })
            }),
    {
        self.dynamic.theme.resolve_theme(theme_id)
    }

    /// Describes a theme, or the active one.
    pub fn describe_theme(&self, theme_id: Option<&str>) -> (r: crate::theme::ThemeCapability)
        ensures
            ({
                let requested = lower_seq(crate::text::trim_seq(match theme_id { Some(id) => id@, None => self.dynamic.theme.active_id() }));
                let known = requested.len() > 0 && self.dynamic.theme.names().dom().contains(requested);
                &&& r.requested_id@ == requested
                &&& r.matched == known
                &&& r.fallback_used == !known
                &&& r.resolved_id@ == (if known { requested } else { self.dynamic.theme.fallback() })
            }),
    {
        self.dynamic.theme.describe_theme(theme_id)
    }

    /// Switches the theme; publishes the theme it resolved to.
    pub fn set_active_theme(&mut self, theme_id: &str) -> (r: ThemeResolution)
        ensures
            ({
                let requested = lower_seq(crate::text::trim_seq(theme_id@));
                let known = requested.len() > 0 && old(self).dynamic.theme.names().dom().contains(requested);
                &&& r.matched == known
                &&& r.resolved_id@ == (if known { requested } else { old(self).dynamic.theme.fallback() })
            }),
            final(self).dynamic.theme.active_id() == r.resolved_id@,
            final(self).theme_follows_system == old(self).theme_follows_system,
            events_view(final(self).registry_events@) == events_view(old(self).registry_events@).push((2, r.resolved_id@)),
    {
        let resolution = self.dynamic.theme.set_active_theme(theme_id);
        self.publish_registry_event(RegistryEventSignal::ThemeChanged { new_theme_id: resolution.resolved_id.clone() });
        resolution
    }

    /// Makes the theme follow the system's preference, or not.
    pub fn set_theme_follows_system(&mut self, follows: bool)
        ensures
            final(self).theme_follows_system == follows,
            final(self).registry_events@ == old(self).registry_events@,
    {
        self.theme_follows_system = follows;
    }

    /// Where the theme follows the system: switches to the dark or light
    /// theme the system prefers. Nothing otherwise.
    pub fn apply_system_theme_preference(&mut self, prefers_dark: bool) -> (r: Option<ThemeResolution>)
        ensures
            !old(self).theme_follows_system ==> r is None && final(self).registry_events@ == old(self).registry_events@,
            old(self).theme_follows_system ==> (r matches Some(t) && ({
                let requested = lower_seq(if prefers_dark { THEME_ID_DARK@ } else { THEME_ID_LIGHT@ });
                let known = old(self).dynamic.theme.names().dom().contains(requested);
                &&& t.matched == known
                &&& t.resolved_id@ == (if known { requested } else { old(self).dynamic.theme.fallback() })
                &&& final(self).dynamic.theme.active_id() == t.resolved_id@
                &&& events_view(final(self).registry_events@) == events_view(old(self).registry_events@).push((2, t.resolved_id@))
            })),
    {
        if !self.theme_follows_system {
            return None;
        }
        proof {
            reveal_strlit("theme:dark");
            reveal_strlit("theme:light");
            crate::text::lemma_trim_noop(THEME_ID_DARK@);
            crate::text::lemma_trim_noop(THEME_ID_LIGHT@);
        }
        let requested = if prefers_dark { THEME_ID_DARK } else { THEME_ID_LIGHT };
        Some(self.set_active_theme(requested))
    }

    /// Describes a workbench surface profile, or the active one.
    pub fn describe_workbench_surface(&self, profile_id: Option<&str>) -> (r: WorkbenchSurfaceDescription)
        ensures
            r.requested_id@ == (match profile_id { Some(id) => id@, None => self.workbench_surface.active() }),
            r.lock == crate::workbench_surface::surface_lock(r.resolved_id@),
    {
        self.workbench_surface.describe_surface(profile_id)
    }

    /// The active workbench surface profile.
    pub fn resolve_active_workbench_surface_profile(&self) -> (r: ProfileResolution)
        ensures
            r.matched && !r.fallback_used && r.resolved_id@ == self.workbench_surface.active(),
    {
        self.workbench_surface.active_profile()
    }

    /// Switches the workbench surface profile; publishes the profile it
    /// resolved to.
    pub fn set_active_workbench_surface_profile(&mut self, profile_id: &str) -> (r: ProfileResolution)
        ensures
            crate::profiles::resolves(r, profile_id@, |id: Seq<char>| crate::workbench_surface::surface_name(id), WORKBENCH_PROFILE_DEFAULT@),
            final(self).workbench_surface.active() == r.resolved_id@,
            events_view(final(self).registry_events@) == events_view(old(self).registry_events@).push((3, r.resolved_id@)),
    {
        let resolution = self.workbench_surface.set_active_profile(profile_id);
        self.publish_registry_event(RegistryEventSignal::WorkbenchSurfaceChanged { new_profile_id: resolution.resolved_id.clone() });
        resolution
    }

    /// Publishes which viewer a navigated URI resolved to, and, where a MIME
    /// type was given, that the node's MIME type is known.
    pub fn publish_navigation_mime_resolved(&mut self, key: NodeKey, uri: &str, mime_hint: Option<&str>)
        ensures
            final(self).navigation_signals@.len() == old(self).navigation_signals@.len() + 1,
            final(self).navigation_signals@.drop_last() == old(self).navigation_signals@,
            final(self).navigation_signals@.last() matches NavigationSignal::MimeResolved { key: k, uri: u, mime_hint: m, viewer_id: v }
                && k == key && u@ == uri@
                && (match mime_hint { Some(h) => m matches Some(mm) && mm@ == h@, None => m is None })
                && v@ == selection_spec(
                    old(self).dynamic.viewer.mime_map(),
                    old(self).dynamic.viewer.extension_map(),
                    uri@,
                    match mime_hint { Some(h) => Some(h@), None => None },
                ).0,
            match mime_hint {
                Some(h) => final(self).lifecycle_signals@.len() == old(self).lifecycle_signals@.len() + 1
                    && final(self).lifecycle_signals@.drop_last() == old(self).lifecycle_signals@
                    && (final(self).lifecycle_signals@.last() matches LifecycleSignal::MimeResolved { node_key, mime }
                        && node_key == key && mime@ == h@),
                None => final(self).lifecycle_signals@ == old(self).lifecycle_signals@,
            },
            final(self).dynamic == old(self).dynamic,
            final(self).registry_events@ == old(self).registry_events@,
    {
        let viewer = self.dynamic.viewer.select_for_uri(uri, mime_hint);
        let hint = match mime_hint {
            Some(h) => Some(owned(h)),
            None => None,
        };
        self.navigation_signals.push(NavigationSignal::MimeResolved { key, uri: owned(uri), mime_hint: hint, viewer_id: viewer.viewer_id });
        match mime_hint {
            Some(mime) => {
                self.lifecycle_signals.push(LifecycleSignal::MimeResolved { node_key: key, mime: owned(mime) });
            },
            None => {},
        }
    }

    /// Publishes that a node was activated.
    pub fn publish_navigation_node_activated(&mut self, key: NodeKey, uri: &str, title: &str)
        ensures
            final(self).navigation_signals@.drop_last() == old(self).navigation_signals@,
            final(self).navigation_signals@.len() == old(self).navigation_signals@.len() + 1,
            final(self).navigation_signals@.last() matches NavigationSignal::NodeActivated { key: k, uri: u, title: t }
                && k == key && u@ == uri@ && t@ == title@,
            final(self).lifecycle_signals@ == old(self).lifecycle_signals@,
    {
        self.navigation_signals.push(NavigationSignal::NodeActivated { key, uri: owned(uri), title: owned(title) });
    }

    /// Publishes that the workbench projection should be refreshed.
    pub fn publish_workbench_projection_refresh_requested(&mut self, reason: &str)
        ensures
            events_view(final(self).registry_events@) == events_view(old(self).registry_events@).push((7, reason@)),
    {
        self.publish_registry_event(RegistryEventSignal::WorkbenchProjectionRefreshRequested { reason: owned(reason) });
    }

    /// Publishes the machine's memory pressure.
    pub fn propagate_subsystem_health_memory_pressure(&mut self, level: MemoryPressureLevel, available_mib: u64, total_mib: u64)
        ensures
            final(self).lifecycle_signals@ == old(self).lifecycle_signals@.push(LifecycleSignal::MemoryPressureChanged {
                level: final(self).lifecycle_signals@.last()->level,
                available_mib,
                total_mib,
            }),
            final(self).lifecycle_signals@.last()->level@ == pressure_name(level),
            final(self).navigation_signals@ == old(self).navigation_signals@,
    {
        let name = owned(memory_pressure_name(level));
        self.lifecycle_signals.push(LifecycleSignal::MemoryPressureChanged { level: name, available_mib, total_mib });
    }

    /// Publishes that the user has been idle since `since_ms`.
    pub fn propagate_user_idle_signal(&mut self, since_ms: u64)
        ensures
            final(self).lifecycle_signals@ == old(self).lifecycle_signals@.push(LifecycleSignal::UserIdle { since_ms }),
    {
        self.lifecycle_signals.push(LifecycleSignal::UserIdle { since_ms });
    }

    /// Publishes that the user is back.
    pub fn propagate_user_resumed_signal(&mut self)
        ensures
            final(self).lifecycle_signals@ == old(self).lifecycle_signals@.push(LifecycleSignal::UserResumed),
    {
        self.lifecycle_signals.push(LifecycleSignal::UserResumed);
    }

    /// Copies of the trusted peers.
    pub fn trusted_peers(&self) -> (r: Vec<TrustedPeer>)
        ensures
            peers_view(r@) == self.identity.trusted(),
    {
        self.identity.trusted_peers()
    }

    /// Trusts a peer, in place of any earlier record of its node id.
    pub fn trust_peer(&mut self, peer: TrustedPeer)
        ensures
            final(self).identity.trusted() == without_peer(old(self).identity.trusted(), peer.node_id@).push(peer_view(peer)),
    {
        self.identity.trust_peer(peer);
    }

    /// Stops trusting a node id.
    pub fn revoke_peer(&mut self, node_id: &str)
        ensures
            final(self).identity.trusted() == without_peer(old(self).identity.trusted(), node_id@),
    {
        self.identity.revoke_peer(node_id);
    }

    /// Shares a workspace with a trusted peer.
    pub fn grant_workspace_access(&mut self, node_id: &str, workspace_id: &str, access: AccessLevel)
        ensures
            final(self).identity.trusted() == granted(old(self).identity.trusted(), node_id@, workspace_id@, access),
    {
        self.identity.grant_workspace_access(node_id, workspace_id, access);
    }

    /// Withdraws a workspace from a trusted peer.
    pub fn revoke_workspace_access(&mut self, node_id: &str, workspace_id: &str)
        ensures
            final(self).identity.trusted() == ungranted(old(self).identity.trusted(), node_id@, workspace_id@),
    {
        self.identity.revoke_workspace_access(node_id, workspace_id);
    }

    /// Reconciles a workspace's semantic tags and index with the graph; where
    /// the index changed, publishes how many nodes it now holds.
    pub fn reconcile_semantics(&mut self, ws: &mut SemanticWorkspace) -> (r: SemanticReconcileReport)
        ensures
            reconcile_post(*old(ws), *final(ws), r),
            r.changed ==> final(self).registry_events@ == old(self).registry_events@.push(
                RegistryEventSignal::SemanticIndexUpdated { indexed_nodes: r.indexed_nodes },
            ) && final(self).lifecycle_signals@ == old(self).lifecycle_signals@.push(
                LifecycleSignal::SemanticIndexUpdated { indexed_nodes: r.indexed_nodes },
            ),
            !r.changed ==> final(self).registry_events@ == old(self).registry_events@
                && final(self).lifecycle_signals@ == old(self).lifecycle_signals@,
    {
        let report = reconcile_semantics(ws, &self.knowledge);
        if report.changed {
            self.publish_registry_event(RegistryEventSignal::SemanticIndexUpdated { indexed_nodes: report.indexed_nodes });
            self.lifecycle_signals.push(LifecycleSignal::SemanticIndexUpdated { indexed_nodes: report.indexed_nodes });
        }
        report
    }

    /// The nodes of a workspace tagged with `tag`, in canonical form.
    pub fn query_knowledge_by_tag(&self, ws: &SemanticWorkspace, tag: &str) -> (r: Vec<NodeKey>)
        ensures
            r@ == match canonical_tag_spec(tag@) {
                Some(c) => keys_with_tag(ws.tag_entries(), c),
                None => Seq::empty(),
            },
    {
        query_by_tag(ws, &self.knowledge, tag)
    }

    /// The tags of a node.
    pub fn knowledge_tags_for_node(&self, ws: &SemanticWorkspace, key: &NodeKey) -> (r: Vec<String>)
        ensures
            crate::text::strs(r@) == tags_of(ws.tag_entries(), *key),
    {
        tags_for_node(ws, key)
    }

    /// The indexed node nearest to `key` in knowledge space, where it has one.
    pub fn suggest_semantic_placement_anchor(&self, ws: &SemanticWorkspace, key: NodeKey) -> (r: Option<NodeKey>)
        ensures
            r == match index_classes(ws.index_entries(), key) {
                Some(src) => match best_anchor(ws.index_entries(), key, src) {
                    Some(b) => Some(b.0),
                    None => None,
                },
                None => None,
            },
    {
        suggest_placement_anchor(ws, &self.knowledge, key)
    }

    /// Publishes that a mod was loaded or unloaded.
    pub fn route_mod_lifecycle_event(&mut self, mod_id: &str, activated: bool)
        ensures
            events_view(final(self).registry_events@) == events_view(old(self).registry_events@).push(
                (if activated { 4int } else { 5int }, mod_id@),
            ),
    {
        let event = if activated {
            RegistryEventSignal::ModLoaded { mod_id: owned(mod_id) }
        } else {
            RegistryEventSignal::ModUnloaded { mod_id: owned(mod_id) }
        };
        self.publish_registry_event(event);
    }

    /// Publishes that an agent was started.
    pub fn route_agent_spawned(&mut self, agent_id: &str)
        ensures
            events_view(final(self).registry_events@) == events_view(old(self).registry_events@).push((6, agent_id@)),
    {
        self.publish_registry_event(RegistryEventSignal::AgentSpawned { agent_id: owned(agent_id) });
    }

    /// Runs a registered action against the given context, without carrying
    /// out what it dispatches.
    pub fn execute_action(&self, action_id: &str, ctx: &ActionContext, payload: ActionPayload) -> (r: ActionOutcome)
        requires
            ctx.wf(),
        ensures
            execute_post(self.dynamic.action@, lower_seq(action_id@), *ctx, payload, r),
    {
        self.dynamic.action.execute(action_id, ctx, payload)
    }

    /// The capability an action needs, by its id.
    pub fn describe_action(&self, action_id: &str) -> (r: Option<crate::action::ActionCapability>)
        ensures
            r == (if self.dynamic.action@.dom().contains(lower_seq(action_id@)) {
                Some(self.dynamic.action@[lower_seq(action_id@)].0)
            } else {
                None
            }),
    {
        self.dynamic.action.describe_action(action_id)
    }

    /// Describes a layout algorithm, or the active one.
    pub fn describe_layout_algorithm(&self, algorithm_id: Option<&str>) -> (r: crate::profiles::LayoutCapability)
        ensures
            exists|res: crate::profiles::LayoutResolution|
                crate::profiles::layout_resolves(res, match algorithm_id { Some(id) => Some(id@), None => None }, self.layout.registered())
                && res.capability == r,
    {
        self.layout.describe_algorithm(algorithm_id)
    }

    /// Resolves a layout algorithm, or the active one.
    pub fn resolve_layout_algorithm(&self, algorithm_id: Option<&str>) -> (r: crate::profiles::LayoutResolution)
        ensures
            crate::profiles::layout_resolves(r, match algorithm_id { Some(id) => Some(id@), None => None }, self.layout.registered()),
    {
        self.layout.resolve_algorithm(algorithm_id)
    }

    /// Resolves a URI's protocol and picks its viewer, unless the control was
    /// cancelled; the MIME hint given wins over the one the URI suggests.
    pub fn observe_navigation_url_with_control(
        &mut self,
        uri: &str,
        mime_hint: Option<&str>,
        control: ProtocolResolveControl,
    ) -> (r: Option<(ProtocolResolution, ViewerSelection)>)
        ensures
            control.cancelled ==> r is None,
            !control.cancelled ==> (r matches Some((p, v)) && resolution_spec(
                old(self).dynamic.protocol.schemes(),
                old(self).dynamic.protocol.fallback(),
                uri@,
                p,
            ) && (v.viewer_id@, v.matched_by@, v.fallback_used) == selection_spec(
                old(self).dynamic.viewer.mime_map(),
                old(self).dynamic.viewer.extension_map(),
                uri@,
                match mime_hint {
                    Some(m) => Some(m@),
                    None => match p.inferred_mime_hint {
                        Some(h) => Some(h@),
                        None => None,
                    },
                },
            ) && navigation_resolved_published(old(self).navigation_signals@, final(self).navigation_signals@, uri@, v.viewer_id@)),
            control.cancelled ==> final(self).navigation_signals@ == old(self).navigation_signals@,
            final(self).dynamic == old(self).dynamic,
            final(self).registry_events@ == old(self).registry_events@,
            final(self).lifecycle_signals@ == old(self).lifecycle_signals@,
    {
        let protocol = match self.dynamic.protocol.resolve_with_control(uri, control) {
            ProtocolResolveOutcome::Resolved(resolution) => resolution,
            ProtocolResolveOutcome::Cancelled => {
                return None;
            },
        };
        let viewer = match mime_hint {
            Some(m) => self.dynamic.viewer.select_for_uri(uri, Some(m)),
            None => match &protocol.inferred_mime_hint {
                Some(h) => self.dynamic.viewer.select_for_uri(uri, Some(h.as_str())),
                None => self.dynamic.viewer.select_for_uri(uri, None),
            },
        };
        let ghost before = self.navigation_signals@;
        self.navigation_signals.push(NavigationSignal::Resolved { uri: owned(uri), viewer_id: owned(viewer.viewer_id.as_str()) });
        assert(self.navigation_signals@.drop_last() =~= before);
        Some((protocol, viewer))
    }

    /// Decides a navigation, unless the control was cancelled: resolves the
    /// URL's protocol, picks its viewer, and applies the protocol policy.
    pub fn decide_navigation_with_control(
        &mut self,
        parsed_url: &str,
        mime_hint: Option<&str>,
        control: ProtocolResolveControl,
    ) -> (r: Option<Phase0NavigationDecision>)
        ensures
            control.cancelled ==> r is None,
            !control.cancelled ==> (r matches Some(d) && resolution_spec(
                old(self).dynamic.protocol.schemes(),
                old(self).dynamic.protocol.fallback(),
                parsed_url@,
                d.protocol,
            ) && (d.viewer.viewer_id@, d.viewer.matched_by@, d.viewer.fallback_used) == selection_spec(
                old(self).dynamic.viewer.mime_map(),
                old(self).dynamic.viewer.extension_map(),
                parsed_url@,
                match mime_hint {
                    Some(m) => Some(m@),
                    None => match d.protocol.inferred_mime_hint {
                        Some(h) => Some(h@),
                        None => None,
                    },
                },
            ) && d.normalized_url@ == protocol_policy_spec(parsed_url@, d.protocol)
                && navigation_resolved_published(old(self).navigation_signals@, final(self).navigation_signals@, parsed_url@, d.viewer.viewer_id@)),
            control.cancelled ==> final(self).navigation_signals@ == old(self).navigation_signals@,
            final(self).dynamic == old(self).dynamic,
            final(self).registry_events@ == old(self).registry_events@,
            final(self).lifecycle_signals@ == old(self).lifecycle_signals@,
    {
        let (protocol, viewer) = match self.observe_navigation_url_with_control(parsed_url, mime_hint, control) {
            Some(pair) => pair,
            None => {
                return None;
            },
        };
        let normalized_url = apply_phase0_protocol_policy(parsed_url, &protocol);
        Some(Phase0NavigationDecision { normalized_url, protocol, viewer })
    }

    /// Activates a workflow: sets its canvas, physics and workbench profiles, then
    /// refuses a workflow that is not implemented yet.
    pub fn activate_workflow(&mut self, workflow_id: &str) -> (r: Result<WorkflowActivation, WorkflowActivationError>)
        ensures
            ({
                let id = resolved_workflow(workflow_id@);
                let w = workflow_spec(id)->0;
                &&& final(self).canvas.active() == w.2
                &&& final(self).physics.active() == w.3
                &&& final(self).workbench_surface.active() == w.4
                &&& if w.1 {
                    &&& r matches Ok(a) && a.workflow_id@ == id && a.workbench_profile_id@ == w.4
                    &&& final(self).default_physics_id matches Some(p) && p@ == w.3
                    &&& events_view(final(self).registry_events@)
                        == events_view(old(self).registry_events@).push((1, w.2)).push((0, w.3)).push((9, id))
                    &&& final(self).lifecycle_signals@.len() == old(self).lifecycle_signals@.len() + 1
                    &&& final(self).lifecycle_signals@.drop_last() == old(self).lifecycle_signals@
                    &&& final(self).lifecycle_signals@.last() matches LifecycleSignal::WorkflowActivated { workflow_id: x } && x@ == id
                } else {
                    &&& r matches Err(WorkflowActivationError::NotImplemented { workflow_id: e }) && e@ == id
                    &&& final(self).default_physics_id == old(self).default_physics_id
                    &&& events_view(final(self).registry_events@)
                        == events_view(old(self).registry_events@).push((1, w.2)).push((0, w.3))
                    &&& final(self).lifecycle_signals@ == old(self).lifecycle_signals@
                }
            }),
            final(self).navigation_signals@ == old(self).navigation_signals@,
            final(self).settings_routes@ == old(self).settings_routes@,
            final(self).dynamic.action@ == old(self).dynamic.action@,
            final(self).pending_workbench_intents@ == old(self).pending_workbench_intents@,
            final(self).pending_app_commands@ == old(self).pending_app_commands@,
    {
        let descriptor = describe_workflow(Some(workflow_id));
        proof {
            reveal_strlit("workflow:default");
            reveal_strlit("canvas:default");
            reveal_strlit("physics:drift");
            reveal_strlit("physics:scatter");
            reveal_strlit("physics:settle");
            reveal_strlit("workbench_surface:default");
            reveal_strlit("workbench_surface:focus");
            reveal_strlit("workbench_surface:compare");
        }
        self.set_active_canvas_profile(descriptor.canvas_profile.as_str());
        self.set_active_physics_profile(descriptor.physics_profile.as_str());
        let workbench = self.workbench_surface.set_active_profile(descriptor.workbench_profile.as_str());
        if !descriptor.implemented {
            return Err(WorkflowActivationError::NotImplemented { workflow_id: descriptor.workflow_id });
        }
        self.default_physics_id = Some(descriptor.physics_profile.clone());
        self.publish_registry_event(RegistryEventSignal::WorkflowChanged { new_workflow_id: descriptor.workflow_id.clone() });
        self.lifecycle_signals.push(LifecycleSignal::WorkflowActivated { workflow_id: descriptor.workflow_id.clone() });
        Ok(WorkflowActivation { workflow_id: descriptor.workflow_id, workbench_profile_id: workbench.resolved_id })
    }

    /// Publishes a request to open a settings route.
    pub fn publish_settings_route_requested(&mut self, url: &str)
        ensures
            final(self).settings_routes@.len() == old(self).settings_routes@.len() + 1,
            final(self).settings_routes@.last()@ == url@,
            forall|i: int| 0 <= i < old(self).settings_routes@.len() ==> final(self).settings_routes@[i] == old(self).settings_routes@[i],
            final(self).dynamic.action@ == old(self).dynamic.action@,
            final(self).pending_workbench_intents@ == old(self).pending_workbench_intents@,
            final(self).pending_app_commands@ == old(self).pending_app_commands@,
            final(self).canvas == old(self).canvas,
            final(self).physics == old(self).physics,
            final(self).workbench_surface == old(self).workbench_surface,
            final(self).default_physics_id == old(self).default_physics_id,
    {
        self.settings_routes.push(owned(url));
    }

    /// Carries out the runtime actions of a dispatch, in order; stops at the first
    /// workflow that cannot be activated.
    pub fn apply_runtime_action_dispatch(&mut self, dispatch: ActionDispatch) -> (r: Result<ActionDispatch, ActionFailure>)
        ensures
            ({
                let applied = runtime_actions_applied(old(self).profile_state(), dispatch.runtime_actions@);
                &&& final(self).profile_state() == applied.0
                &&& match applied.1 {
                    None => r matches Ok(d) && d.intents@ == dispatch.intents@ && d.workbench_intents@ == dispatch.workbench_intents@
                        && d.app_commands@ == dispatch.app_commands@ && d.runtime_actions@ == dispatch.runtime_actions@,
                    Some(i) => r matches Err(f) && f.kind == ActionFailureKind::Rejected
                        && (dispatch.runtime_actions@[i] matches RuntimeAction::ActivateWorkflow { workflow_id }
                        && f.reason@ == "workflow '"@ + resolved_workflow(workflow_id@) + "' is not implemented"@),
                }
            }),
            r matches Err(f) ==> f.kind == ActionFailureKind::Rejected
                && exists|i: int| 0 <= i < dispatch.runtime_actions@.len()
                    && (#[trigger] dispatch.runtime_actions@[i] matches RuntimeAction::ActivateWorkflow { workflow_id }
                    && !workflow_implemented(resolved_workflow(workflow_id@))
                    && f.reason@ == "workflow '"@ + resolved_workflow(workflow_id@) + "' is not implemented"@),
            final(self).dynamic.action@ == old(self).dynamic.action@,
            final(self).pending_workbench_intents@ == old(self).pending_workbench_intents@,
            final(self).pending_app_commands@ == old(self).pending_app_commands@,
    {
        let ghost s0 = self.profile_state();
        let ghost acts = dispatch.runtime_actions@;
        let mut i: usize = 0;
        while i < dispatch.runtime_actions.len()
            invariant
                i <= dispatch.runtime_actions@.len(),
                acts == dispatch.runtime_actions@,
                s0 == old(self).profile_state(),
                runtime_actions_applied(s0, acts.subrange(0, i as int)) == (self.profile_state(), None::<int>),
                self.dynamic.action@ == old(self).dynamic.action@,
                self.pending_workbench_intents@ == old(self).pending_workbench_intents@,
                self.pending_app_commands@ == old(self).pending_app_commands@,
            decreases dispatch.runtime_actions@.len() - i,
        {
            let ghost before = self.profile_state();
            assert(acts.subrange(0, i + 1).drop_last() =~= acts.subrange(0, i as int));
            match &dispatch.runtime_actions[i] {
                RuntimeAction::ActivateWorkflow { workflow_id } => {
                    match self.activate_workflow(workflow_id.as_str()) {
                        Ok(_) => {
                            assert(self.profile_state() == runtime_action_step(before, acts[i as int]));
                        },
                        Err(WorkflowActivationError::NotImplemented { workflow_id: failed }) => {
                            let reason = join3("workflow '", failed.as_str(), "' is not implemented");
                            proof {
                                assert(self.profile_state() == runtime_action_step(before, acts[i as int]));
                                lemma_refusal_sticks(s0, acts, i + 1);
                                lemma_refused_index(s0, acts);
                            }
                            return Err(ActionFailure { kind: ActionFailureKind::Rejected, reason });
                        },
                    }
                },
                RuntimeAction::PublishSettingsRouteRequested { url, .. } => {
                    self.publish_settings_route_requested(url.as_str());
                    assert(self.profile_state().4 =~= before.4.push(url@));
                },
            }
            i = i + 1;
        }
        assert(acts.subrange(0, acts.len() as int) =~= acts);
        Ok(dispatch)
    }

    /// Runs a registered action: its runtime actions are carried out, its
    /// workbench intents and app commands queued for the application, and its
    /// graph intents handed back.
    pub fn execute_registry_action(
        &mut self,
        action_id: &str,
        ctx: &ActionContext,
        payload: ActionPayload,
    ) -> (r: Result<Vec<GraphIntent>, ActionFailure>)
        requires
            ctx.wf(),
        ensures
            exists|o: ActionOutcome| #![auto] execute_post(old(self).dynamic.action@, lower_seq(action_id@), *ctx, payload, o)
                && match o {
                    ActionOutcome::Failure(f) => r matches Err(g) && g.kind == f.kind && g.reason@ == f.reason@
                        && final(self).pending_workbench_intents@ == old(self).pending_workbench_intents@
                        && final(self).pending_app_commands@ == old(self).pending_app_commands@
                        && final(self).profile_state() == old(self).profile_state(),
                    ActionOutcome::Dispatch(d) => {
                        let applied = runtime_actions_applied(old(self).profile_state(), d.runtime_actions@);
                        &&& final(self).profile_state() == applied.0
                        &&& match applied.1 {
                            None => r matches Ok(intents) && intents@ == d.intents@
                                && final(self).pending_workbench_intents@ == old(self).pending_workbench_intents@ + d.workbench_intents@
                                && final(self).pending_app_commands@ == old(self).pending_app_commands@ + d.app_commands@,
                            Some(i) => r matches Err(g) && g.kind == ActionFailureKind::Rejected
                                && (d.runtime_actions@[i] matches RuntimeAction::ActivateWorkflow { workflow_id }
                                && g.reason@ == "workflow '"@ + resolved_workflow(workflow_id@) + "' is not implemented"@)
                                && final(self).pending_workbench_intents@ == old(self).pending_workbench_intents@
                                && final(self).pending_app_commands@ == old(self).pending_app_commands@,
                        }
                    },
                },
    {
        let outcome = self.dynamic.action.execute(action_id, ctx, payload);
        let ghost o = outcome;
        let dispatch = match outcome {
            ActionOutcome::Dispatch(dispatch) => dispatch,
            ActionOutcome::Failure(failure) => {
                return Err(failure);
            },
        };
        let ghost old_wb = self.pending_workbench_intents@;
        let ghost old_cmds = self.pending_app_commands@;
        let dispatch = match self.apply_runtime_action_dispatch(dispatch) {
            Ok(d) => d,
            Err(f) => {
                return Err(f);
            },
        };
        assert(self.pending_workbench_intents@ == old_wb);
        let ghost state = self.profile_state();
        let ActionDispatch { intents, mut workbench_intents, mut app_commands, runtime_actions: _ } = dispatch;
        self.pending_workbench_intents.append(&mut workbench_intents);
        self.pending_app_commands.append(&mut app_commands);
        assert(self.profile_state() =~= state);
        Ok(intents)
    }

    /// Hands the queued workbench intents to the application.
    pub fn take_pending_workbench_intents(&mut self) -> (r: Vec<WorkbenchIntent>)
        ensures
            r@ == old(self).pending_workbench_intents@,
            final(self).pending_workbench_intents@.len() == 0,
    {
        let mut taken: Vec<WorkbenchIntent> = Vec::new();
        std::mem::swap(&mut taken, &mut self.pending_workbench_intents);
        taken
    }

    /// Runs the detail-view submit action and splits what it asks for into graph
    /// mutations and runtime events; a created node opens its tile.
    /// Runs the graph-view submit action on an input: its graph mutations,
    /// and whether the selected tile opens (the action succeeded with some).
    pub fn execute_graph_view_submit(&self, ctx: &ActionContext, input: &str) -> (r: Phase2GraphViewSubmitResult)
        requires
            ctx.wf(),
        ensures
            exists|p: ActionPayload, o: ActionOutcome| #![auto]
                (p matches ActionPayload::GraphViewSubmit { input: i } && i@ == input@)
                && execute_post(self.dynamic.action@, lower_seq(ACTION_GRAPH_VIEW_SUBMIT@), *ctx, p, o)
                && {
                    let intents = match o {
                        ActionOutcome::Dispatch(d) => d.intents@,
                        ActionOutcome::Failure(_) => Seq::empty(),
                    };
                    &&& r.mutations@ == mutations_of(intents)
                    &&& r.open_selected_tile == (o is Dispatch && mutations_of(intents).len() > 0)
                },
    {
        let payload = ActionPayload::GraphViewSubmit { input: owned(input) };
        let outcome = self.dynamic.action.execute(ACTION_GRAPH_VIEW_SUBMIT, ctx, payload);
        let succeeded = outcome.succeeded();
        let intents = outcome.into_intents();
        let (mutations, _events) = split_detail_submit_intents(intents);
        let open_selected_tile = succeeded && mutations.len() > 0;
        Phase2GraphViewSubmitResult { open_selected_tile, mutations }
    }

    /// Runs the omnibox node search action on a query: the graph intents it
    /// hands back, none where it fails.
    pub fn execute_omnibox_node_search(&self, ctx: &ActionContext, query: &str) -> (r: Vec<GraphIntent>)
        requires
            ctx.wf(),
        ensures
            exists|p: ActionPayload, o: ActionOutcome| #![auto]
                (p matches ActionPayload::OmniboxNodeSearch { query: q } && q@ == query@)
                && execute_post(self.dynamic.action@, lower_seq(ACTION_OMNIBOX_NODE_SEARCH@), *ctx, p, o)
                && r@ == match o {
                    ActionOutcome::Dispatch(d) => d.intents@,
                    ActionOutcome::Failure(_) => Seq::empty(),
                },
    {
        let payload = ActionPayload::OmniboxNodeSearch { query: owned(query) };
        let outcome = self.dynamic.action.execute(ACTION_OMNIBOX_NODE_SEARCH, ctx, payload);
        outcome.into_intents()
    }

    pub fn execute_detail_view_submit(
        &self,
        ctx: &ActionContext,
        normalized_url: &str,
        focused_node: Option<NodeKey>,
    ) -> (r: Phase2DetailViewSubmitResult)
        requires
            ctx.wf(),
        ensures
            exists|p: ActionPayload, o: ActionOutcome| #![auto]
                (p matches ActionPayload::DetailViewSubmit { normalized_url: u, focused_node: f }
                    && u@ == normalized_url@ && f == focused_node)
                && execute_post(self.dynamic.action@, lower_seq(ACTION_DETAIL_VIEW_SUBMIT@), *ctx, p, o)
                && {
                    let intents = match o {
                        ActionOutcome::Dispatch(d) => d.intents@,
                        ActionOutcome::Failure(_) => Seq::empty(),
                    };
                    &&& r.mutations@ == mutations_of(intents)
                    &&& r.runtime_events@ == events_of(intents)
                    &&& r.open_selected_tile == creates_node(mutations_of(intents))
                },
    {
        let payload = ActionPayload::DetailViewSubmit { normalized_url: owned(normalized_url), focused_node };
        let outcome = self.dynamic.action.execute(ACTION_DETAIL_VIEW_SUBMIT, ctx, payload);
        let intents = outcome.into_intents();
        let (mutations, runtime_events) = split_detail_submit_intents(intents);
        let mut open_selected_tile = false;
        let mut i: usize = 0;
        while i < mutations.len()
            invariant
                i <= mutations@.len(),
                open_selected_tile <==> exists|k: int| 0 <= k < i && mutations@[k] is CreateNodeAtUrl,
            decreases mutations@.len() - i,
        {
            if matches!(mutations[i], GraphIntent::CreateNodeAtUrl { .. }) {
                open_selected_tile = true;
            }
            i = i + 1;
        }
        Phase2DetailViewSubmitResult { open_selected_tile, mutations, runtime_events }
    }
}

} // verus!
