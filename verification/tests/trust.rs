use graphshell_registries::identity::IdentityRegistry;
use graphshell_registries::runtime::RegistryRuntime;
use graphshell_registries::trust::{AccessLevel, TrustStore, TrustedPeer, WorkspaceGrant};

fn peer(node_id: &str, name: &str) -> TrustedPeer {
    TrustedPeer { node_id: node_id.to_string(), display_name: name.to_string(), workspace_grants: Vec::new() }
}

fn grants_of(peers: &[TrustedPeer], node_id: &str) -> Vec<(String, AccessLevel)> {
    peers
        .iter()
        .find(|p| p.node_id == node_id)
        .map(|p| p.workspace_grants.iter().map(|g| (g.workspace_id.clone(), g.access)).collect())
        .unwrap_or_default()
}

#[test]
fn trusting_a_peer_again_replaces_its_record() {
    let mut store = TrustStore::new();
    store.trust_peer(peer("aa11", "Laptop"));
    store.trust_peer(peer("bb22", "Phone"));
    store.trust_peer(peer("aa11", "Laptop (renamed)"));
    let peers = store.trusted_peers();
    let ids: Vec<&str> = peers.iter().map(|p| p.node_id.as_str()).collect();
    assert_eq!(ids, vec!["bb22", "aa11"]);
    assert_eq!(peers[1].display_name, "Laptop (renamed)");
}

#[test]
fn trust_then_revoke_leaves_what_revoke_alone_leaves() {
    let mut a = TrustStore::new();
    a.trust_peer(peer("aa11", "Laptop"));
    a.trust_peer(peer("cc33", "Desktop"));
    a.trust_peer(peer("bb22", "Phone"));
    a.revoke_peer("bb22");

    let mut b = TrustStore::new();
    b.trust_peer(peer("aa11", "Laptop"));
    b.trust_peer(peer("cc33", "Desktop"));
    b.revoke_peer("bb22");

    let ids_a: Vec<String> = a.peer_ids();
    let ids_b: Vec<String> = b.peer_ids();
    assert_eq!(ids_a, ids_b);
    assert_eq!(ids_a, vec!["aa11".to_string(), "cc33".to_string()]);
}

#[test]
fn granting_a_workspace_replaces_the_earlier_grant() {
    let mut store = TrustStore::new();
    store.trust_peer(peer("aa11", "Laptop"));
    store.grant_workspace_access("aa11", "workspace:one", AccessLevel::ReadOnly);
    store.grant_workspace_access("aa11", "workspace:two", AccessLevel::ReadWrite);
    store.grant_workspace_access("aa11", "workspace:one", AccessLevel::ReadWrite);
    assert_eq!(
        grants_of(&store.trusted_peers(), "aa11"),
        vec![("workspace:two".to_string(), AccessLevel::ReadWrite), ("workspace:one".to_string(), AccessLevel::ReadWrite)]
    );
}

#[test]
fn grant_then_revoke_workspace_leaves_the_other_grants() {
    let mut store = TrustStore::new();
    store.trust_peer(peer("aa11", "Laptop"));
    store.grant_workspace_access("aa11", "workspace:two", AccessLevel::ReadOnly);
    store.grant_workspace_access("aa11", "workspace:one", AccessLevel::ReadWrite);
    store.revoke_workspace_access("aa11", "workspace:one");
    assert_eq!(grants_of(&store.trusted_peers(), "aa11"), vec![("workspace:two".to_string(), AccessLevel::ReadOnly)]);
}

#[test]
fn granting_to_an_unknown_peer_changes_nothing() {
    let mut store = TrustStore::new();
    store.trust_peer(peer("aa11", "Laptop"));
    store.grant_workspace_access("zz99", "workspace:one", AccessLevel::ReadWrite);
    let peers = store.trusted_peers();
    assert_eq!(peers.len(), 1);
    assert!(peers[0].workspace_grants.is_empty());
}

#[test]
fn loading_peers_keeps_the_last_record_of_each_node() {
    let mut first = peer("aa11", "Old");
    first.workspace_grants.push(WorkspaceGrant { workspace_id: "workspace:x".to_string(), access: AccessLevel::ReadOnly });
    let store = TrustStore::from_peers(vec![first, peer("bb22", "Phone"), peer("aa11", "New")]);
    let peers = store.trusted_peers();
    assert_eq!(peers.len(), 2);
    assert_eq!(peers[0].node_id, "bb22");
    assert_eq!(peers[1].display_name, "New");
    assert!(peers[1].workspace_grants.is_empty());
}

#[test]
fn identity_registry_and_runtime_keep_the_trust_store() {
    let mut registry = IdentityRegistry::empty();
    registry.trust_peer(peer("aa11", "Laptop"));
    registry.grant_workspace_access("aa11", "workspace:test", AccessLevel::ReadOnly);
    assert_eq!(registry.trusted_peer_ids(), vec!["aa11".to_string()]);
    assert_eq!(grants_of(&registry.trusted_peers(), "aa11"), vec![("workspace:test".to_string(), AccessLevel::ReadOnly)]);

    let mut runtime = RegistryRuntime::new();
    runtime.trust_peer(peer("bb22", "Phone"));
    runtime.grant_workspace_access("bb22", "workspace:test", AccessLevel::ReadWrite);
    runtime.revoke_workspace_access("bb22", "workspace:test");
    assert!(grants_of(&runtime.trusted_peers(), "bb22").is_empty());
    runtime.revoke_peer("bb22");
    assert!(runtime.trusted_peers().is_empty());
}
