use graphshell_registries::profiles::{
    physics_profile_descriptors, CanvasRegistry, LayoutRegistry, PhysicsProfileRegistry, CANVAS_PROFILE_DEFAULT,
    GRAPH_LAYOUT_FORCE_DIRECTED, GRAPH_LAYOUT_FORCE_DIRECTED_BARNES_HUT, GRAPH_LAYOUT_GRID, PHYSICS_PROFILE_DEFAULT,
    PHYSICS_PROFILE_SCATTER, PHYSICS_PROFILE_SETTLE,
};

#[test]
fn physics_profile_registry_defaults_to_drift() {
    let registry = PhysicsProfileRegistry::default();
    let resolution = registry.active_profile();

    assert_eq!(registry.active_profile_id(), PHYSICS_PROFILE_DEFAULT);
    assert!(resolution.matched);
    assert_eq!(resolution.resolved_id, PHYSICS_PROFILE_DEFAULT);
    assert_eq!(resolution.display_name, "Drift");
}

#[test]
fn physics_profile_registry_switches_and_falls_back() {
    let mut registry = PhysicsProfileRegistry::default();

    let scatter = registry.set_active_profile(PHYSICS_PROFILE_SCATTER);
    assert_eq!(scatter.resolved_id, PHYSICS_PROFILE_SCATTER);
    assert_eq!(registry.active_profile_id(), PHYSICS_PROFILE_SCATTER);

    let settle = registry.set_active_profile(PHYSICS_PROFILE_SETTLE);
    assert_eq!(settle.resolved_id, PHYSICS_PROFILE_SETTLE);
    assert_eq!(registry.active_profile_id(), PHYSICS_PROFILE_SETTLE);

    let fallback = registry.set_active_profile("physics:missing");
    assert!(fallback.fallback_used);
    assert_eq!(fallback.resolved_id, PHYSICS_PROFILE_DEFAULT);
    assert_eq!(registry.active_profile_id(), PHYSICS_PROFILE_DEFAULT);
}

#[test]
fn physics_profile_registry_seed_catalog_contains_helper_era_portfolio() {
    let descriptors = physics_profile_descriptors();
    let ids: Vec<_> = descriptors.iter().map(|descriptor| descriptor.id.as_str()).collect();

    assert_eq!(
        ids,
        vec![
            "physics:drift",
            "physics:scatter",
            "physics:settle",
            "physics:archipelago",
            "physics:resonance",
            "physics:constellation",
        ]
    );
}

#[test]
fn physics_resolution_requested_id_is_kept_on_fallback() {
    let mut registry = PhysicsProfileRegistry::default();
    let fallback = registry.set_active_profile("physics:missing");
    assert_eq!(fallback.requested_id, "physics:missing");
    assert!(!fallback.matched);
    assert_eq!(fallback.display_name, "Drift");
}

#[test]
fn canvas_registry_defaults_to_default_profile() {
    let registry = CanvasRegistry::default();
    let resolution = registry.active_profile();

    assert_eq!(registry.active_profile_id(), CANVAS_PROFILE_DEFAULT);
    assert!(resolution.matched);
    assert_eq!(resolution.resolved_id, CANVAS_PROFILE_DEFAULT);
}

#[test]
fn layout_registry_defaults_to_force_directed() {
    let registry = LayoutRegistry::default();
    let resolution = registry.active_algorithm();

    assert_eq!(registry.active_algorithm_id(), GRAPH_LAYOUT_FORCE_DIRECTED);
    assert_eq!(resolution.resolved_id, GRAPH_LAYOUT_FORCE_DIRECTED);
}

#[test]
fn layout_registry_falls_back_for_unknown_algorithm() {
    let mut registry = LayoutRegistry::default();
    let resolution = registry.set_active_algorithm(Some("graph_layout:missing"));

    assert!(resolution.fallback_used);
    assert_eq!(resolution.resolved_id, GRAPH_LAYOUT_FORCE_DIRECTED);
}

#[test]
fn layout_registry_accepts_barnes_hut_force_directed() {
    let mut registry = LayoutRegistry::default();
    let resolution = registry.set_active_algorithm(Some(GRAPH_LAYOUT_FORCE_DIRECTED_BARNES_HUT));

    assert_eq!(resolution.resolved_id, GRAPH_LAYOUT_FORCE_DIRECTED_BARNES_HUT);
    assert_eq!(registry.active_algorithm_id(), GRAPH_LAYOUT_FORCE_DIRECTED_BARNES_HUT);
}

#[test]
fn phase3_layout_registry_resolves_and_falls_back() {
    let registry = LayoutRegistry::default();
    let grid = registry.resolve_algorithm(Some(GRAPH_LAYOUT_GRID));
    assert_eq!(grid.resolved_id, GRAPH_LAYOUT_GRID);
    assert_eq!(grid.capability.display_name, "Grid");

    let fallback = registry.resolve_algorithm(Some("graph_layout:missing"));
    assert!(fallback.fallback_used);
    assert_eq!(fallback.resolved_id, GRAPH_LAYOUT_FORCE_DIRECTED);
}

#[test]
fn layout_without_id_describes_the_default_algorithm() {
    let registry = LayoutRegistry::default();
    let capability = registry.describe_algorithm(None);
    assert_eq!(capability.algorithm_id, GRAPH_LAYOUT_FORCE_DIRECTED);
    assert_eq!(capability.display_name, "Force Directed");
}
