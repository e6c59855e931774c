//! The workbench surface profile in use and the locks that guard the workbench
//! against structural changes.

use vstd::prelude::*;
use crate::model::{SplitDirection, WorkbenchIntent};
use crate::profiles::ProfileResolution;
use crate::text::{owned, str_eq};

verus! {

pub const WORKBENCH_PROFILE_DEFAULT: &'static str = "workbench_surface:default";
pub const WORKBENCH_PROFILE_FOCUS: &'static str = "workbench_surface:focus";
pub const WORKBENCH_PROFILE_COMPARE: &'static str = "workbench_surface:compare";

/// Which structural changes a profile forbids.
#[derive(Debug, Clone, Copy, PartialEq, Eq, Structural)]
pub enum WorkbenchLock {
    NoLock,
    PreventSplit,
    PreventClose,
    FullLock,
}

/// How a profile lays panes out.
#[derive(Debug, Clone, Copy, PartialEq, Eq, Structural)]
pub struct WorkbenchLayoutPolicy {
    pub default_split_direction: SplitDirection,
}

#[derive(Debug, Clone, PartialEq, Eq)]
pub struct WorkbenchSurfaceDescription {
    pub requested_id: String,
    pub resolved_id: String,
    pub matched: bool,
    pub fallback_used: bool,
    pub display_name: String,
    pub lock: WorkbenchLock,
}

/// The surface catalog: each profile id with its display name.
pub open spec fn surface_name(id: Seq<char>) -> Option<Seq<char>> {
    if id == WORKBENCH_PROFILE_DEFAULT@ {
        Some("Default"@)
    } else if id == WORKBENCH_PROFILE_FOCUS@ {
        Some("Focus"@)
    } else if id == WORKBENCH_PROFILE_COMPARE@ {
        Some("Compare"@)
    } else {
        None
    }
}

/// The lock of each profile of the catalog.
pub open spec fn surface_lock(id: Seq<char>) -> WorkbenchLock {
    if id == WORKBENCH_PROFILE_FOCUS@ {
        WorkbenchLock::PreventSplit
    } else {
        WorkbenchLock::NoLock
    }
}

fn surface_display_name(id: &str) -> (r: Option<&'static str>)
    ensures
        match r {
            Some(n) => surface_name(id@) == Some(n@),
            None => surface_name(id@) is None,
        },
{
    if str_eq(id, WORKBENCH_PROFILE_DEFAULT) {
        Some("Default")
    } else if str_eq(id, WORKBENCH_PROFILE_FOCUS) {
        Some("Focus")
    } else if str_eq(id, WORKBENCH_PROFILE_COMPARE) {
        Some("Compare")
    } else {
        None
    }
}

fn lock_of(id: &str) -> (r: WorkbenchLock)
    ensures
        r == surface_lock(id@),
{
    if str_eq(id, WORKBENCH_PROFILE_FOCUS) {
        WorkbenchLock::PreventSplit
    } else {
        WorkbenchLock::NoLock
    }
}

/// Resolves a workbench surface profile id.
pub fn resolve_surface_profile(profile_id: &str) -> (r: ProfileResolution)
    ensures
        crate::profiles::resolves(r, profile_id@, |id: Seq<char>| surface_name(id), WORKBENCH_PROFILE_DEFAULT@),
{
    match surface_display_name(profile_id) {
        Some(name) => ProfileResolution {
            requested_id: owned(profile_id),
            resolved_id: owned(profile_id),
            matched: true,
            fallback_used: false,
            display_name: owned(name),
        },
        None => {
            proof {
                reveal_strlit("workbench_surface:default");
            }
            ProfileResolution {
                requested_id: owned(profile_id),
                resolved_id: owned(WORKBENCH_PROFILE_DEFAULT),
                matched: false,
                fallback_used: true,
                display_name: owned("Default"),
            }
        },
    }
}

/// Whether `lock` lets `intent` change the workbench.
pub open spec fn mutation_allowed(lock: WorkbenchLock, intent: WorkbenchIntent) -> bool {
    let splits = intent is SplitPane || intent is DetachNodeToSplit;
    let closes = intent is ClosePane || intent is CloseToolPane;
    let restructures = intent is OpenToolPane || intent is SetPanePresentationMode
        || intent is PromoteEphemeralPane || intent is SetPaneView || intent is OpenGraphViewPane
        || intent is OpenNodeInPane;
    match lock {
        WorkbenchLock::NoLock => true,
        WorkbenchLock::PreventSplit => !splits,
        WorkbenchLock::PreventClose => !closes,
        WorkbenchLock::FullLock => !(splits || closes || restructures),
    }
}

/// The workbench surface profile in use.
pub struct WorkbenchSurfaceRegistry {
    active_profile_id: String,
}

impl WorkbenchSurfaceRegistry {
    #[verifier::type_invariant]
    spec fn known(self) -> bool {
        surface_name(self.active_profile_id@) is Some
    }

    pub closed spec fn active(&self) -> Seq<char> {
        self.active_profile_id@
    }

    pub fn active_profile_id(&self) -> (r: &str)
        ensures
            r@ == self.active(),
    {
        self.active_profile_id.as_str()
    }

    pub fn set_active_profile(&mut self, profile_id: &str) -> (r: ProfileResolution)
        ensures
            crate::profiles::resolves(r, profile_id@, |id: Seq<char>| surface_name(id), WORKBENCH_PROFILE_DEFAULT@),
            final(self).active() == r.resolved_id@,
    {
        let resolution = resolve_surface_profile(profile_id);
        proof {
            reveal_strlit("workbench_surface:default");
        }
        self.active_profile_id = resolution.resolved_id.clone();
        resolution
    }

    pub fn active_profile(&self) -> (r: ProfileResolution)
        ensures
            r.matched,
            !r.fallback_used,
            r.resolved_id@ == self.active(),
            surface_name(self.active()) == Some(r.display_name@),
    {
        proof {
            use_type_invariant(self);
        }
        resolve_surface_profile(self.active_profile_id.as_str())
    }

    /// Resolves `profile_id`, or the active profile where none is given.
    pub fn resolve_profile(&self, profile_id: Option<&str>) -> (r: ProfileResolution)
        ensures
            crate::profiles::resolves(r, match profile_id { Some(id) => id@, None => self.active() },
                |id: Seq<char>| surface_name(id), WORKBENCH_PROFILE_DEFAULT@),
    {
        proof {
            use_type_invariant(self);
        }
        match profile_id {
            Some(id) => resolve_surface_profile(id),
            None => resolve_surface_profile(self.active_profile_id.as_str()),
        }
    }

    pub fn describe_surface(&self, profile_id: Option<&str>) -> (r: WorkbenchSurfaceDescription)
        ensures
            ({
                let requested = match profile_id { Some(id) => id@, None => self.active() };
                &&& r.requested_id@ == requested
                &&& match surface_name(requested) {
                    Some(name) => r.resolved_id@ == requested && r.matched && !r.fallback_used && r.display_name@ == name,
                    None => r.resolved_id@ == WORKBENCH_PROFILE_DEFAULT@ && !r.matched && r.fallback_used
                        && r.display_name@ == "Default"@,
                }
                &&& r.lock == surface_lock(r.resolved_id@)
            }),
    {
        let resolution = self.resolve_profile(profile_id);
        let lock = lock_of(resolution.resolved_id.as_str());
        proof {
            reveal_strlit("workbench_surface:default");
        }
        WorkbenchSurfaceDescription {
            requested_id: resolution.requested_id,
            resolved_id: resolution.resolved_id,
            matched: resolution.matched,
            fallback_used: resolution.fallback_used,
            display_name: resolution.display_name,
            lock,
        }
    }

    pub fn active_lock(&self) -> (r: WorkbenchLock)
        ensures
            r == surface_lock(self.active()),
    {
        lock_of(self.active_profile_id.as_str())
    }

    /// The layout policy of the active profile.
    pub fn resolve_layout_policy(&self) -> (r: WorkbenchLayoutPolicy)
        ensures
            r.default_split_direction == SplitDirection::Horizontal,
    {
        WorkbenchLayoutPolicy { default_split_direction: SplitDirection::Horizontal }
    }

    /// Whether `lock` lets `intent` change the workbench.
    pub fn can_mutate(lock: WorkbenchLock, intent: &WorkbenchIntent) -> (r: bool)
        ensures
            r == mutation_allowed(lock, *intent),
    {
        let splits = matches!(intent, WorkbenchIntent::SplitPane { .. } | WorkbenchIntent::DetachNodeToSplit { .. });
        let closes = matches!(intent, WorkbenchIntent::ClosePane { .. } | WorkbenchIntent::CloseToolPane { .. });
        let restructures = matches!(
            intent,
            WorkbenchIntent::OpenToolPane { .. } | WorkbenchIntent::SetPanePresentationMode { .. }
                | WorkbenchIntent::PromoteEphemeralPane { .. } | WorkbenchIntent::SetPaneView { .. }
                | WorkbenchIntent::OpenGraphViewPane { .. } | WorkbenchIntent::OpenNodeInPane { .. }
        );
        match lock {
            WorkbenchLock::NoLock => true,
            WorkbenchLock::PreventSplit => !splits,
            WorkbenchLock::PreventClose => !closes,
            WorkbenchLock::FullLock => !(splits || closes || restructures),
        }
    }

    /// Whether the active profile's lock lets `intent` change the workbench.
    pub fn admits(&self, intent: &WorkbenchIntent) -> (r: bool)
        ensures
            r == mutation_allowed(surface_lock(self.active()), *intent),
    {
        Self::can_mutate(self.active_lock(), intent)
    }
}

impl Default for WorkbenchSurfaceRegistry {
    fn default() -> (r: Self)
        ensures
            r.active() == WORKBENCH_PROFILE_DEFAULT@,
    {
        proof {
            reveal_strlit("workbench_surface:default");
        }
        WorkbenchSurfaceRegistry { active_profile_id: owned(WORKBENCH_PROFILE_DEFAULT) }
    }
}

/// A full lock forbids everything that a split lock or a close lock forbids.
pub proof fn law_full_lock_is_strictest(intent: WorkbenchIntent)
    ensures
        mutation_allowed(WorkbenchLock::FullLock, intent) ==> mutation_allowed(WorkbenchLock::PreventSplit, intent),
        mutation_allowed(WorkbenchLock::FullLock, intent) ==> mutation_allowed(WorkbenchLock::PreventClose, intent),
        mutation_allowed(WorkbenchLock::NoLock, intent),
{
}

/// Locks only ever guard structural changes: palette, help and selection intents
/// pass every lock.
pub proof fn law_locks_spare_navigation(lock: WorkbenchLock, intent: WorkbenchIntent)
    requires
        intent is OpenCommandPalette || intent is ToggleCommandPalette || intent is ToggleHelpPanel
            || intent is ToggleRadialMenu || intent is CycleFocusRegion || intent is SelectTile
            || intent is UpdateTileSelection || intent is ClearTileSelection,
    ensures
        mutation_allowed(lock, intent),
{
}

/// A split lock refuses exactly the intents that make a split (splitting a
/// pane, detaching a node into a split); a close lock refuses exactly the
/// intents that close a pane or a tool pane; a full lock refuses at least all
/// of those; and with no lock every intent goes through.
pub proof fn law_locks_refuse_what_they_name(intent: WorkbenchIntent)
    ensures
        !mutation_allowed(WorkbenchLock::PreventSplit, intent) <==> (intent is SplitPane || intent is DetachNodeToSplit),
        !mutation_allowed(WorkbenchLock::PreventClose, intent) <==> (intent is ClosePane || intent is CloseToolPane),
        mutation_allowed(WorkbenchLock::FullLock, intent) ==> mutation_allowed(WorkbenchLock::PreventSplit, intent)
            && mutation_allowed(WorkbenchLock::PreventClose, intent),
        mutation_allowed(WorkbenchLock::NoLock, intent),
{
}

} // verus!
