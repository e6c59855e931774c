use graphshell_registries::model::{PaneId, SplitDirection, ToolPaneState, WorkbenchIntent};
use graphshell_registries::workbench_surface::{
    WorkbenchLock, WorkbenchSurfaceRegistry, WORKBENCH_PROFILE_COMPARE, WORKBENCH_PROFILE_DEFAULT,
    WORKBENCH_PROFILE_FOCUS,
};

#[test]
fn registry_defaults_to_default_profile() {
    let registry = WorkbenchSurfaceRegistry::default();

    assert_eq!(registry.active_profile_id(), WORKBENCH_PROFILE_DEFAULT);
    assert_eq!(registry.resolve_layout_policy().default_split_direction, SplitDirection::Horizontal);
}

#[test]
fn registry_switches_profiles_with_fallback() {
    let mut registry = WorkbenchSurfaceRegistry::default();

    let compare = registry.set_active_profile(WORKBENCH_PROFILE_COMPARE);
    assert!(compare.matched);
    assert_eq!(registry.active_profile_id(), WORKBENCH_PROFILE_COMPARE);

    let fallback = registry.set_active_profile("workbench_surface:missing");
    assert!(fallback.fallback_used);
    assert_eq!(registry.active_profile_id(), WORKBENCH_PROFILE_DEFAULT);
}

#[test]
fn describe_surface_reports_resolution_metadata() {
    let registry = WorkbenchSurfaceRegistry::default();

    let description = registry.describe_surface(Some(WORKBENCH_PROFILE_FOCUS));
    assert_eq!(description.display_name, "Focus");
    assert_eq!(description.lock, WorkbenchLock::PreventSplit);
    assert!(description.matched);
}

#[test]
fn mutation_guard_respects_lock_modes() {
    let split = WorkbenchIntent::SplitPane { source_pane: PaneId(1), direction: SplitDirection::Horizontal };
    let close = WorkbenchIntent::ClosePane { pane: PaneId(2), restore_previous_focus: true };

    assert!(!WorkbenchSurfaceRegistry::can_mutate(WorkbenchLock::PreventSplit, &split));
    assert!(WorkbenchSurfaceRegistry::can_mutate(WorkbenchLock::PreventSplit, &close));
    assert!(!WorkbenchSurfaceRegistry::can_mutate(WorkbenchLock::PreventClose, &close));
    assert!(!WorkbenchSurfaceRegistry::can_mutate(WorkbenchLock::FullLock, &split));
}

#[test]
fn full_lock_blocks_restructuring_but_not_navigation() {
    let open_tool = WorkbenchIntent::OpenToolPane { kind: ToolPaneState::Settings };
    assert!(!WorkbenchSurfaceRegistry::can_mutate(WorkbenchLock::FullLock, &open_tool));
    assert!(WorkbenchSurfaceRegistry::can_mutate(WorkbenchLock::PreventSplit, &open_tool));
    assert!(WorkbenchSurfaceRegistry::can_mutate(WorkbenchLock::FullLock, &WorkbenchIntent::OpenCommandPalette));
    assert!(WorkbenchSurfaceRegistry::can_mutate(WorkbenchLock::NoLock, &open_tool));
}

#[test]
fn phase3_workbench_surface_resolution_returns_default_profile() {
    let mut registry = WorkbenchSurfaceRegistry::default();
    registry.set_active_profile(WORKBENCH_PROFILE_DEFAULT);
    let resolution = registry.active_profile();
    assert!(resolution.matched);
    assert!(!resolution.fallback_used);
    assert_eq!(resolution.resolved_id, WORKBENCH_PROFILE_DEFAULT);
}

#[test]
fn phase3_workbench_surface_switches_and_describes_profiles() {
    let mut registry = WorkbenchSurfaceRegistry::default();
    let switched = registry.set_active_profile(WORKBENCH_PROFILE_COMPARE);
    assert!(switched.matched);
    assert_eq!(switched.resolved_id, WORKBENCH_PROFILE_COMPARE);

    let description = registry.describe_surface(None);
    assert_eq!(description.display_name, "Compare");
    assert_eq!(description.resolved_id, switched.resolved_id);

    let fallback = registry.set_active_profile("workbench_surface:missing");
    assert!(fallback.fallback_used);
    assert_eq!(fallback.resolved_id, WORKBENCH_PROFILE_DEFAULT);
}

#[test]
fn focus_profile_refuses_splits_of_the_active_surface() {
    let mut registry = WorkbenchSurfaceRegistry::default();
    let split = WorkbenchIntent::SplitPane { source_pane: PaneId(1), direction: SplitDirection::Vertical };
    assert!(registry.admits(&split));
    registry.set_active_profile(WORKBENCH_PROFILE_FOCUS);
    assert!(!registry.admits(&split));
    assert_eq!(registry.active_lock(), WorkbenchLock::PreventSplit);
}
