use graphshell_registries::agent::{
    AgentCapability, AgentDescriptor, AgentRegistry, AgentSchedule, SignalTopic, AGENT_ID_GRAPH_SUMMARISER,
    AGENT_ID_TAG_SUGGESTER,
};
use graphshell_registries::runtime::RegistryRuntime;

#[test]
fn agent_registry_registers_builtin_descriptors() {
    let registry = AgentRegistry::default();
    let descriptors = registry.descriptors();

    assert_eq!(descriptors.len(), 2);
    assert!(descriptors.iter().any(|descriptor| descriptor.id == AGENT_ID_GRAPH_SUMMARISER));
    assert!(descriptors.iter().any(|descriptor| descriptor.id == AGENT_ID_TAG_SUGGESTER));
}

#[test]
fn registry_runtime_describes_builtin_tag_suggester_agent() {
    let runtime = RegistryRuntime::new();
    let descriptor = runtime.describe_agent("agent:tag_suggester").expect("tag suggester descriptor should exist");

    assert_eq!(descriptor.id, "agent:tag_suggester");
    assert!(descriptor.capabilities.contains(&AgentCapability::SuggestNodeTags));
    assert_eq!(descriptor.schedule, AgentSchedule::Triggered(SignalTopic::Navigation));
}

#[test]
fn agent_registry_refuses_a_taken_id_and_lists_by_id() {
    let mut registry = AgentRegistry::default();
    let duplicate = AgentDescriptor {
        id: " Agent:Graph_Summariser ".to_string(),
        display_name: "Other".to_string(),
        capabilities: vec![],
        schedule: AgentSchedule::OnDemand,
    };
    assert_eq!(registry.register(duplicate), Err("agent already registered: agent:graph_summariser".to_string()));
    let extra = AgentDescriptor {
        id: "agent:archivist".to_string(),
        display_name: "Archivist".to_string(),
        capabilities: vec![AgentCapability::ReadNavigationSignals],
        schedule: AgentSchedule::Triggered(SignalTopic::Lifecycle),
    };
    assert!(registry.register(extra).is_ok());
    let ids: Vec<String> = registry.descriptors().into_iter().map(|d| d.id).collect();
    assert_eq!(ids, vec!["agent:archivist", "agent:graph_summariser", "agent:tag_suggester"]);
    assert_eq!(registry.describe("AGENT:ARCHIVIST").map(|d| d.display_name), Some("Archivist".to_string()));
    assert_eq!(registry.instantiate(" agent:tag_suggester"), Some("agent:tag_suggester".to_string()));
    assert_eq!(registry.instantiate("agent:missing"), None);
}
