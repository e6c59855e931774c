use graphshell_registries::hex::{decode_hex, encode_hex};
use graphshell_registries::identity::IdentityRegistry;
use graphshell_registries::nostr_event::{canonical_event_text, NostrUnsignedEvent};
use graphshell_registries::runtime::RegistryRuntime;
use graphshell_registries::nostr::{
    normalize_relays, NostrCoreError, NostrCoreRegistry, NostrFilterSet, NostrSignedEvent, RelayPolicyProfile,
};

fn filters(relays: Vec<&str>) -> NostrFilterSet {
    NostrFilterSet {
        kinds: vec![1],
        authors: vec!["npub1example".to_string()],
        hashtags: vec![],
        relay_urls: relays.into_iter().map(|r| r.to_string()).collect(),
    }
}

fn signed(event_id: &str, signature: &str, created_at: u64, content: &str) -> NostrSignedEvent {
    NostrSignedEvent {
        event_id: event_id.to_string(),
        pubkey: "pk".to_string(),
        signature: signature.to_string(),
        created_at,
        kind: 1,
        content: content.to_string(),
        tags: Vec::new(),
    }
}

#[test]
fn phase3_nostr_subscribe_unsubscribe_scaffold_roundtrip() {
    let mut core = NostrCoreRegistry::default();
    let handle = core
        .relay_subscribe("runtime:core", Some("timeline"), filters(vec![]))
        .expect("nostr relay subscribe scaffold should accept non-empty filter");

    assert_eq!(handle.id, "timeline");
    assert!(core.relay_unsubscribe("runtime:core", &handle));
}

#[test]
fn phase3_nostr_caller_scoping_prevents_cross_caller_unsubscribe() {
    let mut core = NostrCoreRegistry::default();
    let handle = core
        .relay_subscribe("mod:alpha", Some("shared"), filters(vec!["wss://relay.damus.io"]))
        .expect("caller-scoped subscribe should succeed");

    assert!(!core.relay_unsubscribe("mod:beta", &handle));
    assert!(core.relay_unsubscribe("mod:alpha", &handle));
}

#[test]
fn phase3_nostr_publish_to_relays_for_caller_accepts_explicit_targets() {
    let mut core = NostrCoreRegistry::default();
    let publish = core
        .relay_publish_to_relays(
            "mod:alpha",
            &signed("evt-typed-caller", "sig", 1_710_000_102, "hello"),
            &vec!["wss://relay.damus.io".to_string()],
        )
        .expect("publish-to-relays should accept explicit default relay target");

    assert!(publish.accepted);
    assert_eq!(publish.relay_count, 1);
}

#[test]
fn phase3_nostr_publish_scaffold_rejects_empty_signature() {
    let mut core = NostrCoreRegistry::default();
    let publish = core.relay_publish("runtime:core", &signed("evt", "", 1_710_000_103, "bad"));

    assert!(publish.is_err());
}

#[test]
fn nostr_core_subscribe_unsubscribe_roundtrip() {
    let mut registry = NostrCoreRegistry::default();
    let filters = NostrFilterSet {
        kinds: vec![1, 30023],
        authors: vec!["npub1example".to_string()],
        hashtags: vec!["graphshell".to_string()],
        relay_urls: vec!["wss://relay.damus.io".to_string()],
    };

    let handle = registry.relay_subscribe("test:c1", Some("timeline"), filters).expect("subscription should be accepted");
    assert_eq!(handle.id, "timeline");
    assert!(registry.relay_unsubscribe("test:c1", &handle));
    assert!(!registry.relay_unsubscribe("test:c1", &handle));
}

#[test]
fn nostr_core_unsubscribe_rejects_non_owner_caller() {
    let mut registry = NostrCoreRegistry::default();
    let handle = registry
        .relay_subscribe("test:owner", Some("owned"), filters(vec!["wss://relay.damus.io"]))
        .expect("owner subscription should be accepted");

    assert!(!registry.relay_unsubscribe("test:other", &handle));
    assert!(registry.relay_unsubscribe("test:owner", &handle));
}

#[test]
fn nostr_core_enforces_caller_subscription_quota() {
    let mut registry = NostrCoreRegistry::default();
    registry.set_caller_quotas(1, 5);

    let first = registry.relay_subscribe("quota:c1", Some("first"), filters(vec!["wss://relay.damus.io"]));
    assert!(first.is_ok());

    let second = registry.relay_subscribe("quota:c1", Some("second"), filters(vec!["wss://relay.damus.io"]));
    assert!(matches!(second, Err(NostrCoreError::QuotaExceeded(_))));
}

#[test]
fn nostr_core_strict_policy_denies_unallowlisted_relay() {
    let mut registry = NostrCoreRegistry::default();
    registry.set_relay_policy_profile(RelayPolicyProfile::Strict);
    registry.set_relay_allowlist(vec!["wss://relay.allowed".to_string()]);

    let result = registry.relay_subscribe("policy:c1", Some("strict"), filters(vec!["wss://relay.denied"]));
    assert!(matches!(
        result,
        Err(NostrCoreError::ValidationFailed(message)) if message.contains("denied by policy")
    ));
}

#[test]
fn nostr_core_publish_rejects_missing_signature() {
    let mut registry = NostrCoreRegistry::default();
    let result = registry.relay_publish("test:c1", &signed("evt-1", "", 1_710_000_003, "hello"));
    assert!(result.is_err());
    assert!(matches!(
        result,
        Err(NostrCoreError::ValidationFailed(message)) if message.contains("signature")
    ));
}

#[test]
fn nostr_core_publish_profile_transition_matrix_applies_policy_rules() {
    let mut registry = NostrCoreRegistry::default();
    registry.set_default_relays(vec!["wss://relay.default".to_string()]);
    registry.set_relay_allowlist(vec!["wss://relay.allowed".to_string()]);
    let event = signed("evt-2", "sig", 1_710_000_004, "hello");

    registry.set_relay_policy_profile(RelayPolicyProfile::Strict);
    let strict_denied = registry.relay_publish_to_relays("policy:c1", &event, &vec!["wss://relay.default".to_string()]);
    assert!(matches!(
        strict_denied,
        Err(NostrCoreError::ValidationFailed(message)) if message.contains("denied by policy")
    ));
    let strict_allowed = registry.relay_publish_to_relays("policy:c1", &event, &vec!["wss://relay.allowed".to_string()]);
    assert!(strict_allowed.is_ok());

    registry.set_relay_policy_profile(RelayPolicyProfile::Community);
    let community_default =
        registry.relay_publish_to_relays("policy:c1", &event, &vec!["wss://relay.default".to_string()]);
    assert!(community_default.is_ok());
    let community_allowlisted =
        registry.relay_publish_to_relays("policy:c1", &event, &vec!["wss://relay.allowed".to_string()]);
    assert!(community_allowlisted.is_ok());
    let community_denied =
        registry.relay_publish_to_relays("policy:c1", &event, &vec!["wss://relay.unknown".to_string()]);
    assert!(matches!(
        community_denied,
        Err(NostrCoreError::ValidationFailed(message)) if message.contains("denied by policy")
    ));

    registry.set_relay_policy_profile(RelayPolicyProfile::Open);
    let open_any = registry.relay_publish_to_relays("policy:c1", &event, &vec!["wss://relay.unknown".to_string()]);
    assert!(open_any.is_ok());
}

#[test]
fn relays_are_normalized_deduplicated_and_filtered() {
    let relays = vec![
        "  WSS://Relay.One ".to_string(),
        "wss://relay.one".to_string(),
        "ws://remote.example".to_string(),
        "ws://localhost:7777".to_string(),
        "".to_string(),
    ];
    assert_eq!(normalize_relays(&relays), vec!["wss://relay.one".to_string(), "ws://localhost:7777".to_string()]);
}

#[test]
fn generated_ids_count_up_and_blank_callers_are_refused() {
    let mut core = NostrCoreRegistry::default();
    let a = core.relay_subscribe("c", None, filters(vec![])).unwrap();
    let b = core.relay_subscribe("c", Some("   "), filters(vec![])).unwrap();
    assert_eq!(a.id, "nostr-sub-0");
    assert_eq!(b.id, "nostr-sub-1");
    let blank = core.relay_subscribe("  ", None, filters(vec![]));
    assert!(matches!(blank, Err(NostrCoreError::ValidationFailed(m)) if m == "caller_id must not be empty"));
    let empty = core.relay_subscribe(
        "c",
        Some("x"),
        NostrFilterSet { kinds: vec![], authors: vec![], hashtags: vec![], relay_urls: vec![] },
    );
    assert!(matches!(empty, Err(NostrCoreError::ValidationFailed(m)) if m == "filter set must not be empty"));
    assert_eq!(core.persisted_subscriptions().len(), 2);
}

#[test]
fn publish_quota_counts_successful_publishes() {
    let mut core = NostrCoreRegistry::default();
    core.set_caller_quotas(0, 1);
    let event = signed("e", "sig", 1, "x");
    assert!(core.relay_publish("Caller", &event).is_ok());
    let second = core.relay_publish(" caller ", &event);
    assert!(matches!(second, Err(NostrCoreError::QuotaExceeded(m)) if m == "publish quota exceeded for caller 'caller'"));
}

fn unsigned(created_at: u64, content: &str, tags: Vec<Vec<&str>>) -> NostrUnsignedEvent {
    NostrUnsignedEvent {
        created_at,
        kind: 1,
        content: content.to_string(),
        tags: tags.into_iter().map(|t| t.into_iter().map(|s| s.to_string()).collect()).collect(),
    }
}

#[test]
fn phase3_nostr_sign_event_returns_signed_payload() {
    let runtime = RegistryRuntime::new();
    let unsigned = unsigned(1_710_000_101, "hello", vec![vec!["t", "graphshell"]]);

    let signed = runtime
        .nostr_sign_event("default", &unsigned)
        .expect("nostr sign scaffold should return signed payload");
    assert_eq!(signed.kind, 1);
    assert_eq!(signed.signature.len(), 128);
    assert_eq!(signed.event_id.len(), 64);
}

#[test]
fn nostr_core_sign_event_produces_cryptographic_local_signature() {
    let registry = NostrCoreRegistry::default();
    let identity = IdentityRegistry::default();
    let unsigned = unsigned(1_710_000_001, "hello nostr", vec![vec!["t", "graph"]]);

    let signed = registry.sign_event(&identity, "default", &unsigned);
    assert!(signed.is_ok());
    let signed = signed.expect("signed event should be produced");
    assert_eq!(signed.signature.len(), 128);
    assert_eq!(signed.event_id.len(), 64);
    assert_eq!(signed.kind, 1);
    assert_eq!(signed.content, "hello nostr");
}

#[test]
fn canonical_event_text_is_compact_nip01_json() {
    let event = unsigned(42, "say \"hi\"\n", vec![vec!["t", "x"], vec!["p", "ab", "wss://r"]]);
    assert_eq!(
        canonical_event_text("ab12", &event),
        "[0,\"ab12\",42,1,[[\"t\",\"x\"],[\"p\",\"ab\",\"wss://r\"]],\"say \\\"hi\\\"\\n\"]"
    );
    let bare = unsigned(7, "", vec![]);
    assert_eq!(canonical_event_text("k", &bare), "[0,\"k\",7,1,[],\"\"]");
    let empty_tag = unsigned(7, "c", vec![vec![]]);
    assert_eq!(canonical_event_text("k", &empty_tag), "[0,\"k\",7,1,[[]],\"c\"]");
}

#[test]
fn signed_event_id_and_signature_check_out() {
    let registry = NostrCoreRegistry::default();
    let identity = IdentityRegistry::default();
    let event = unsigned(1_710_000_555, "hello", vec![vec!["t", "graphshell"]]);
    let signed = registry.sign_event(&identity, "default", &event).expect("signed");

    assert_eq!(Some(signed.pubkey.clone()), identity.nostr_public_key_hex_for("default"));
    let text = canonical_event_text(&signed.pubkey, &event);
    let digest: [u8; 32] = <sha2::Sha256 as sha2::Digest>::digest(text.as_bytes()).into();
    assert_eq!(signed.event_id, encode_hex(&digest));

    let key: secp256k1::XOnlyPublicKey = signed.pubkey.parse().expect("x-only key");
    let mut sig = [0u8; 64];
    sig.copy_from_slice(&decode_hex(&signed.signature).expect("hex signature"));
    let sig = secp256k1::schnorr::Signature::from_byte_array(sig);
    assert!(secp256k1::Secp256k1::verification_only().verify_schnorr(&sig, &digest, &key).is_ok());
    assert_eq!(signed.tags, vec![vec!["t".to_string(), "graphshell".to_string()]]);
    assert_eq!(signed.created_at, 1_710_000_555);
}

#[test]
fn sign_event_refuses_blank_or_unknown_personas() {
    let registry = NostrCoreRegistry::default();
    let identity = IdentityRegistry::default();
    let event = unsigned(1, "x", vec![]);
    match registry.sign_event(&identity, "  ", &event) {
        Err(NostrCoreError::ValidationFailed(m)) => assert_eq!(m, "persona must not be empty"),
        _ => panic!("a blank persona should be refused"),
    }
    let empty = IdentityRegistry::empty();
    match registry.sign_event(&empty, "alice", &event) {
        Err(NostrCoreError::ValidationFailed(m)) => assert_eq!(m, "verifying key unavailable for persona 'alice'"),
        _ => panic!("a registry without user keys should be refused"),
    }
}

#[test]
fn blocklisted_relays_are_denied_under_every_profile() {
    let mut registry = NostrCoreRegistry::default();
    registry.set_relay_policy_profile(RelayPolicyProfile::Open);
    registry.set_relay_blocklist(vec![" wss://relay.blocked ".to_string()]);
    let event = signed("evt-9", "sig", 1_710_000_009, "hello");
    let denied = registry.relay_publish_to_relays("policy:c2", &event, &vec!["wss://relay.blocked".to_string()]);
    assert!(matches!(
        denied,
        Err(NostrCoreError::ValidationFailed(message)) if message.contains("denied by policy")
    ));
    let allowed = registry.relay_publish_to_relays("policy:c2", &event, &vec!["wss://relay.other".to_string()]);
    assert!(allowed.is_ok());
}

fn capability_denied(capability: &str) -> NostrCoreError {
    NostrCoreError::CapabilityDenied {
        capability: capability.to_string(),
        reason: format!("missing runtime capability: {capability}"),
    }
}

#[test]
fn relay_calls_are_refused_without_their_runtime_capability() {
    let mut core = NostrCoreRegistry::default();
    core.set_capability_granted("nostr:relay-subscribe", false);
    assert_eq!(
        core.relay_subscribe("mod:alpha", Some("feed"), filters(vec![])).err(),
        Some(capability_denied("nostr:relay-subscribe"))
    );
    assert!(core.relay_publish("mod:alpha", &signed("evt", "sig", 1, "hi")).is_ok());

    core.set_capability_granted("nostr:relay-publish", false);
    assert_eq!(
        core.relay_publish("mod:alpha", &signed("evt", "sig", 1, "hi")).err(),
        Some(capability_denied("nostr:relay-publish"))
    );

    core.set_capability_granted("nostr:relay-subscribe", true);
    let handle = core.relay_subscribe("mod:alpha", Some("feed"), filters(vec![])).expect("granted again");
    assert_eq!(handle.id, "feed");
}

#[test]
fn signing_is_refused_without_the_sign_capability() {
    let mut registry = NostrCoreRegistry::default();
    let identity = IdentityRegistry::default();
    let event = unsigned(1_710_000_001, "hello", vec![]);
    registry.set_capability_granted("identity:nostr-sign", false);
    assert_eq!(registry.sign_event(&identity, "default", &event).err(), Some(capability_denied("identity:nostr-sign")));
    registry.set_capability_granted("identity:nostr-sign", true);
    assert!(registry.sign_event(&identity, "default", &event).is_ok());
}

#[test]
fn nip07_bridge_is_refused_without_its_capability() {
    let mut registry = NostrCoreRegistry::default();
    let identity = IdentityRegistry::default();
    registry.set_capability_granted("nostr:nip07-bridge", false);
    let result = registry.nip07_request(
        &identity,
        "not an origin",
        "getRelays",
        Err(NostrCoreError::ValidationFailed("no payload".to_string())),
    );
    assert_eq!(result.err(), Some(capability_denied("nostr:nip07-bridge")));
}

#[test]
fn canonical_event_text_escapes_strings_as_serde_json_does() {
    let content = "say \"hi\"\\ \n\t\r\u{8}\u{c}\u{1}\u{1f}\u{7f} é ✓ /";
    let event = unsigned(7, content, vec![vec!["t", "a\"b"], vec!["p", "\u{0}x"]]);
    let tags = vec![vec!["t".to_string(), "a\"b".to_string()], vec!["p".to_string(), "\u{0}x".to_string()]];
    let expected = format!(
        "[0,{},7,1,{},{}]",
        serde_json::to_string("pk\n").expect("string"),
        serde_json::to_string(&tags).expect("tags"),
        serde_json::to_string(content).expect("content")
    );
    assert_eq!(canonical_event_text("pk\n", &event), expected);
}
