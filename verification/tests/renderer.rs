use graphshell_registries::model::{NodeKey, PaneId, RendererId};
use graphshell_registries::renderer::{RendererRegistry, RendererRegistryError};
use graphshell_registries::runtime::RegistryRuntime;

#[test]
fn accept_registers_bidirectional_attachment() {
    let mut registry = RendererRegistry::default();
    let pane_id = PaneId(1);
    let renderer_id = RendererId(10);

    registry.accept(pane_id, renderer_id, None).unwrap();

    let attachment = registry.renderer_for_pane(&pane_id).unwrap();
    assert_eq!(attachment.pane_id, pane_id);
    assert_eq!(attachment.renderer_id, renderer_id);
    assert_eq!(registry.pane_for_renderer(&renderer_id), Some(pane_id));
}

#[test]
fn detach_removes_attachment_from_both_indexes() {
    let mut registry = RendererRegistry::default();
    let pane_id = PaneId(2);
    let renderer_id = RendererId(20);

    registry.accept(pane_id, renderer_id, None).unwrap();

    let removed = registry.detach(renderer_id).unwrap();
    assert_eq!(removed.pane_id, pane_id);
    assert_eq!(removed.renderer_id, renderer_id);
    assert!(registry.renderer_for_pane(&pane_id).is_none());
    assert!(registry.pane_for_renderer(&renderer_id).is_none());
    assert!(registry.is_empty());
}

#[test]
fn accept_rejects_duplicate_pane_attachment() {
    let mut registry = RendererRegistry::default();
    let pane_id = PaneId(3);
    let existing_renderer_id = RendererId(30);

    registry.accept(pane_id, existing_renderer_id, None).unwrap();

    let error = registry.accept(pane_id, RendererId(31), None).unwrap_err();
    assert_eq!(error, RendererRegistryError::PaneAlreadyAttached { pane_id, existing_renderer_id });
}

#[test]
fn accept_rejects_duplicate_renderer_attachment() {
    let mut registry = RendererRegistry::default();
    let pane_a = PaneId(4);
    let pane_b = PaneId(5);
    let renderer_id = RendererId(40);

    registry.accept(pane_a, renderer_id, None).unwrap();

    let error = registry.accept(pane_b, renderer_id, None).unwrap_err();
    assert_eq!(error, RendererRegistryError::RendererAlreadyAttached { renderer_id, existing_pane_id: pane_a });
}

#[test]
fn detaching_an_unknown_renderer_changes_nothing() {
    let mut registry = RendererRegistry::default();
    registry.accept(PaneId(6), RendererId(60), Some(NodeKey(9))).unwrap();
    assert!(registry.detach(RendererId(61)).is_none());
    assert_eq!(registry.renderer_for_pane(&PaneId(6)).map(|a| a.node_key), Some(Some(NodeKey(9))));
    assert!(!registry.is_empty());
}

#[test]
fn attach_then_detach_restores_runtime_pairings() {
    let mut runtime = RegistryRuntime::new();
    runtime.accept_renderer_attachment(PaneId(1), RendererId(1), None).unwrap();
    runtime.accept_renderer_attachment(PaneId(2), RendererId(2), None).unwrap();
    assert_eq!(runtime.pane_for_renderer(RendererId(2)), Some(PaneId(2)));
    let removed = runtime.detach_renderer_attachment(RendererId(2)).expect("attached");
    assert_eq!(removed.pane_id, PaneId(2));
    assert!(runtime.renderer_attachment_for_pane(PaneId(2)).is_none());
    assert_eq!(runtime.renderer_attachment_for_pane(PaneId(1)).map(|a| a.renderer_id), Some(RendererId(1)));
    assert!(runtime.accept_renderer_attachment(PaneId(2), RendererId(2), None).is_ok());
}
