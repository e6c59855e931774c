use graphshell_registries::identity::IdentityRegistry;
use graphshell_registries::nip46_flow::{Nip46Call, Nip46Reply, Nip46Step};
use graphshell_registries::nostr::{Nip07Response, NostrCoreError, NostrCoreRegistry, NostrFilterSet};
use graphshell_registries::nostr_event::{verify_signed_event_signature, NostrUnsignedEvent};
use graphshell_registries::nostr_signer::{
    normalize_nip07_origin, normalize_permission_grants, normalize_requested_permissions, parse_nip46_bunker_uri,
    resolve_nip46_permission_decision, Nip07PermissionDecision, Nip07PermissionGrant, Nip46PermissionDecision,
    Nip46PermissionGrant, NostrSignerBackendSnapshot, PersistedNip46SignerSettings, PersistedNostrSignerSettings,
};
use graphshell_registries::runtime::RegistryRuntime;

fn signer_pubkey() -> String {
    let secret = secp256k1::SecretKey::new(&mut secp256k1::rand::rng());
    let keypair = secp256k1::Keypair::from_secret_key(&secp256k1::Secp256k1::new(), &secret);
    let (pubkey, _) = secp256k1::XOnlyPublicKey::from_keypair(&keypair);
    pubkey.to_string()
}

fn event(created_at: u64, content: &str, tags: Vec<Vec<&str>>) -> NostrUnsignedEvent {
    NostrUnsignedEvent {
        created_at,
        kind: 1,
        content: content.to_string(),
        tags: tags.into_iter().map(|t| t.into_iter().map(|s| s.to_string()).collect()).collect(),
    }
}

fn grant(permission: &str, decision: Nip46PermissionDecision) -> Nip46PermissionGrant {
    Nip46PermissionGrant { permission: permission.to_string(), decision }
}

#[test]
fn phase3_nostr_nip46_backend_reports_unavailable() {
    let mut runtime = RegistryRuntime::new();
    runtime
        .nostr_core
        .use_nip46_signer("wss://relay.example", &signer_pubkey())
        .expect("nip46 config should be accepted");
    runtime
        .nostr_core
        .set_nip46_permission("sign_event", Nip46PermissionDecision::Allow)
        .expect("nip46 permission should be stored");

    let result = runtime.nostr_sign_event("default", &event(1_710_000_104, "hello", vec![]));
    assert!(matches!(result, Err(NostrCoreError::BackendUnavailable(_))));

    runtime.nostr_core.use_local_signer();
}

#[test]
fn nostr_core_parses_bunker_uri_and_seeds_pending_permissions() {
    let mut registry = NostrCoreRegistry::default();
    let pubkey = signer_pubkey();

    let parsed = registry
        .use_nip46_bunker_uri(&format!(
            "bunker://{}?relay=wss://relay.one&relay=wss://relay.two&secret=shared-secret&perms=sign_event,get_public_key",
            pubkey
        ))
        .expect("bunker uri should parse");

    assert_eq!(parsed.relay_urls.len(), 2);
    assert_eq!(parsed.shared_secret.as_deref(), Some("shared-secret"));
    assert_eq!(parsed.requested_permissions, vec!["sign_event".to_string(), "get_public_key".to_string()]);
    match registry.signer_backend_snapshot() {
        NostrSignerBackendSnapshot::Nip46Delegated { has_ephemeral_secret, permission_grants, .. } => {
            assert!(has_ephemeral_secret);
            assert_eq!(permission_grants.len(), 2);
            assert!(permission_grants.iter().all(|grant| matches!(grant.decision, Nip46PermissionDecision::Pending)));
        }
        other => panic!("expected delegated snapshot, got {other:?}"),
    }
}

#[test]
fn nostr_core_persisted_settings_omit_ephemeral_secret() {
    let mut registry = NostrCoreRegistry::default();
    let pubkey = signer_pubkey();

    registry
        .use_nip46_bunker_uri(&format!("bunker://{}?relay=wss://relay.one&secret=shared-secret&perms=sign_event", pubkey))
        .expect("bunker uri should parse");

    let persisted = registry.persisted_signer_settings();
    match persisted {
        PersistedNostrSignerSettings::Nip46Delegated(settings) => {
            assert_eq!(settings.relay_urls, vec!["wss://relay.one".to_string()]);
            assert_eq!(settings.signer_pubkey, pubkey);
            assert_eq!(settings.requested_permissions, vec!["sign_event".to_string()]);
            assert_eq!(settings.permission_grants.len(), 1);
        }
        other => panic!("expected nip46 persisted settings, got {other:?}"),
    }
    match registry.signer_backend_snapshot() {
        NostrSignerBackendSnapshot::Nip46Delegated { has_ephemeral_secret, .. } => assert!(has_ephemeral_secret),
        other => panic!("expected delegated snapshot, got {other:?}"),
    }
}

#[test]
fn nostr_core_nip46_sign_event_requires_local_permission_allow() {
    let mut registry = NostrCoreRegistry::default();
    let identity = IdentityRegistry::default();

    registry
        .use_nip46_signer("wss://relay.example", &signer_pubkey())
        .expect("nip46 config should be accepted");

    let result = registry.sign_event(&identity, "default", &event(1_710_000_010, "permission check", vec![]));
    assert!(matches!(
        result,
        Err(NostrCoreError::ValidationFailed(message)) if message.contains("permission pending")
    ));

    registry
        .set_nip46_permission("sign_event", Nip46PermissionDecision::Allow)
        .expect("setting permission should succeed");
    match registry.signer_backend_snapshot() {
        NostrSignerBackendSnapshot::Nip46Delegated { permission_grants, .. } => assert!(permission_grants
            .iter()
            .any(|grant| grant.permission == "sign_event" && matches!(grant.decision, Nip46PermissionDecision::Allow))),
        other => panic!("expected delegated snapshot, got {other:?}"),
    }
}

#[test]
fn nostr_core_nip07_get_public_key_seeds_pending_permission() {
    let mut registry = NostrCoreRegistry::default();
    let identity = IdentityRegistry::default();

    let result = registry.nip07_request(
        &identity,
        "https://example.com/path?q=1",
        "getPublicKey",
        Err(NostrCoreError::ValidationFailed("no payload".to_string())),
    );
    assert!(matches!(
        result,
        Err(NostrCoreError::ValidationFailed(message)) if message.contains("permission pending")
    ));
    assert_eq!(
        registry.nip07_permission_grants(),
        vec![Nip07PermissionGrant {
            origin: "https://example.com".to_string(),
            method: "getPublicKey".to_string(),
            decision: Nip07PermissionDecision::Pending,
        }]
    );
}

#[test]
fn nostr_core_nip07_get_public_key_returns_user_pubkey_after_allow() {
    let mut registry = NostrCoreRegistry::default();
    let identity = IdentityRegistry::default();
    registry
        .set_nip07_permission("https://example.com/path?q=1", "getPublicKey", Nip07PermissionDecision::Allow)
        .expect("nip07 permission should be stored");

    let result = registry
        .nip07_request(
            &identity,
            "https://example.com/path?q=1",
            "getPublicKey",
            Err(NostrCoreError::ValidationFailed("no payload".to_string())),
        )
        .expect("allowed getPublicKey should succeed");
    match result {
        Nip07Response::PublicKey(pk) => {
            assert_eq!(pk, identity.nostr_public_key_hex_for("default").expect("default user pubkey should exist"))
        }
        other => panic!("expected a public key, got {other:?}"),
    }
}

#[test]
fn nostr_core_nip07_sign_event_accepts_full_tag_arrays() {
    let mut registry = NostrCoreRegistry::default();
    let identity = IdentityRegistry::default();
    registry
        .set_nip07_permission("https://example.com", "signEvent", Nip07PermissionDecision::Allow)
        .expect("nip07 permission should be stored");

    let signed = registry
        .nip07_request(
            &identity,
            "https://example.com/thread",
            "signEvent",
            Ok(event(
                1_710_000_111,
                "hello from nip07",
                vec![vec!["e", "event-ref", "wss://relay.example"], vec!["p", "peer-pubkey"]],
            )),
        )
        .expect("allowed signEvent should succeed");

    let signed_event = match signed {
        Nip07Response::SignedEvent(e) => e,
        other => panic!("nip07 signEvent should return a signed event, got {other:?}"),
    };
    assert_eq!(
        signed_event.tags,
        vec![
            vec!["e".to_string(), "event-ref".to_string(), "wss://relay.example".to_string()],
            vec!["p".to_string(), "peer-pubkey".to_string()],
        ]
    );
    assert!(verify_signed_event_signature(&signed_event, &signed_event.pubkey.clone()));
}

#[test]
fn nostr_core_nip07_deny_path_emits_denial_diagnostics() {
    let mut registry = NostrCoreRegistry::default();
    let identity = IdentityRegistry::default();
    registry
        .set_nip07_permission("https://example.com", "signEvent", Nip07PermissionDecision::Deny)
        .expect("nip07 permission should be stored");

    let result = registry.nip07_request(
        &identity,
        "https://example.com/thread",
        "signEvent",
        Ok(event(1_710_000_111, "denied", vec![])),
    );
    assert!(matches!(
        result,
        Err(NostrCoreError::ValidationFailed(message)) if message.contains("permission denied")
    ));
}

#[test]
fn nostr_core_restore_persisted_subscriptions_roundtrip() {
    let mut registry = NostrCoreRegistry::default();
    registry
        .relay_subscribe(
            "test:alpha",
            Some("timeline"),
            NostrFilterSet {
                kinds: vec![1],
                authors: vec!["npub1alpha".to_string()],
                hashtags: vec![],
                relay_urls: vec!["wss://relay.damus.io".to_string()],
            },
        )
        .expect("first subscription should succeed");
    registry
        .relay_subscribe(
            "test:beta",
            Some("mentions"),
            NostrFilterSet {
                kinds: vec![42],
                authors: vec![],
                hashtags: vec!["graphshell".to_string()],
                relay_urls: vec![],
            },
        )
        .expect("second subscription should succeed");

    let persisted = registry.persisted_subscriptions();
    assert_eq!(persisted.len(), 2);

    let mut restored_registry = NostrCoreRegistry::default();
    let restored = restored_registry
        .restore_persisted_subscriptions(&persisted)
        .expect("restoring persisted subscriptions should succeed");
    assert_eq!(restored, 2);

    let mut restored_persisted = restored_registry.persisted_subscriptions();
    restored_persisted.sort_by(|left, right| left.requested_id.cmp(&right.requested_id));

    let mut expected = persisted;
    expected.sort_by(|left, right| left.requested_id.cmp(&right.requested_id));
    assert_eq!(restored_persisted, expected);
}

#[test]
fn nip07_origins_keep_scheme_host_and_explicit_port() {
    assert_eq!(normalize_nip07_origin(" https://Example.com/path?q=1 "), Some("https://example.com".to_string()));
    assert_eq!(normalize_nip07_origin("http://example.com:80/x"), Some("http://example.com".to_string()));
    assert_eq!(normalize_nip07_origin("https://example.com:8443"), Some("https://example.com:8443".to_string()));
    assert_eq!(normalize_nip07_origin("ftp://example.com"), None);
    assert_eq!(normalize_nip07_origin("not a url"), None);
}

#[test]
fn nip07_requests_check_origin_method_and_name() {
    let mut registry = NostrCoreRegistry::default();
    let identity = IdentityRegistry::default();
    let no_payload = || Err(NostrCoreError::ValidationFailed("no payload".to_string()));
    match registry.nip07_request(&identity, "file:///etc", "getRelays", no_payload()) {
        Err(NostrCoreError::ValidationFailed(m)) => assert_eq!(m, "nip07 origin must be an http(s) origin"),
        other => panic!("unexpected {other:?}"),
    }
    match registry.nip07_request(&identity, "https://a.example", "  ", no_payload()) {
        Err(NostrCoreError::ValidationFailed(m)) => assert_eq!(m, "nip07 method must not be empty"),
        other => panic!("unexpected {other:?}"),
    }
    match registry.nip07_request(&identity, "https://a.example", "nip04.encrypt", no_payload()) {
        Err(NostrCoreError::ValidationFailed(m)) => assert_eq!(m, "unsupported nip07 method 'nip04.encrypt'"),
        other => panic!("unexpected {other:?}"),
    }
    registry.set_relay_allowlist(vec!["wss://relay.extra".to_string()]);
    match registry.nip07_request(&identity, "https://a.example", "getRelays", no_payload()) {
        Ok(Nip07Response::Relays(relays)) => {
            assert_eq!(relays, vec!["wss://relay.damus.io".to_string(), "wss://relay.extra".to_string()])
        }
        other => panic!("unexpected {other:?}"),
    }
    assert!(registry.nip07_permission_grants().is_empty());
}

#[test]
fn nip07_grants_list_by_origin_then_method_and_restore_normalized() {
    let mut registry = NostrCoreRegistry::default();
    registry.set_nip07_permission("https://b.example", "signEvent", Nip07PermissionDecision::Allow).unwrap();
    registry.set_nip07_permission("https://a.example", "signEvent", Nip07PermissionDecision::Deny).unwrap();
    registry.set_nip07_permission("https://a.example", "getPublicKey", Nip07PermissionDecision::Allow).unwrap();
    registry.set_nip07_permission("https://b.example/other", "signEvent", Nip07PermissionDecision::Deny).unwrap();
    let listed: Vec<(String, String, Nip07PermissionDecision)> =
        registry.nip07_permission_grants().into_iter().map(|g| (g.origin, g.method, g.decision)).collect();
    assert_eq!(
        listed,
        vec![
            ("https://a.example".to_string(), "getPublicKey".to_string(), Nip07PermissionDecision::Allow),
            ("https://a.example".to_string(), "signEvent".to_string(), Nip07PermissionDecision::Deny),
            ("https://b.example".to_string(), "signEvent".to_string(), Nip07PermissionDecision::Deny),
        ]
    );
    assert_eq!(registry.persisted_nip07_permissions()[0].origin, "https://b.example");
    assert!(registry.set_nip07_permission("mailto:x", "signEvent", Nip07PermissionDecision::Allow).is_err());

    let kept = vec![
        Nip07PermissionGrant {
            origin: "https://c.example/page".to_string(),
            method: " signEvent ".to_string(),
            decision: Nip07PermissionDecision::Allow,
        },
        Nip07PermissionGrant { origin: "javascript:void".to_string(), method: "x".to_string(), decision: Nip07PermissionDecision::Deny },
        Nip07PermissionGrant {
            origin: "https://c.example".to_string(),
            method: "signEvent".to_string(),
            decision: Nip07PermissionDecision::Deny,
        },
    ];
    registry.apply_persisted_nip07_permissions(&kept).expect("kept grants apply");
    assert_eq!(
        registry.persisted_nip07_permissions(),
        vec![Nip07PermissionGrant {
            origin: "https://c.example".to_string(),
            method: "signEvent".to_string(),
            decision: Nip07PermissionDecision::Deny,
        }]
    );
    let bad = vec![Nip07PermissionGrant {
        origin: "https://d.example".to_string(),
        method: "  ".to_string(),
        decision: Nip07PermissionDecision::Allow,
    }];
    assert!(registry.apply_persisted_nip07_permissions(&bad).is_err());
    assert_eq!(registry.persisted_nip07_permissions().len(), 1);
}

#[test]
fn nip46_permissions_normalize_and_fall_back_to_the_base_permission() {
    assert_eq!(
        normalize_requested_permissions(&vec![" Sign_Event ".to_string(), "".to_string(), "sign_event".to_string(), "nip04".to_string()]),
        vec!["sign_event".to_string(), "nip04".to_string()]
    );
    let grants = normalize_permission_grants(&vec![
        grant(" Zeta ", Nip46PermissionDecision::Allow),
        grant("sign_event", Nip46PermissionDecision::Deny),
        grant("ZETA", Nip46PermissionDecision::Deny),
        grant("  ", Nip46PermissionDecision::Allow),
    ]);
    assert_eq!(grants, vec![grant("sign_event", Nip46PermissionDecision::Deny), grant("zeta", Nip46PermissionDecision::Allow)]);
    assert_eq!(resolve_nip46_permission_decision(&grants, "SIGN_EVENT:1"), Nip46PermissionDecision::Deny);
    assert_eq!(resolve_nip46_permission_decision(&grants, "zeta"), Nip46PermissionDecision::Allow);
    assert_eq!(resolve_nip46_permission_decision(&grants, "other:zeta"), Nip46PermissionDecision::Pending);
    assert_eq!(resolve_nip46_permission_decision(&grants, "  "), Nip46PermissionDecision::Pending);
}

#[test]
fn bunker_uris_are_refused_with_their_reason() {
    let pubkey = signer_pubkey();
    let message = |uri: &str| match parse_nip46_bunker_uri(uri) {
        Err(NostrCoreError::ValidationFailed(m)) => m,
        other => panic!("expected a refusal, got {other:?}"),
    };
    assert!(message("::nope").starts_with("invalid bunker uri: "));
    assert_eq!(message(&format!("https://{pubkey}?relay=wss://r.one")), "unsupported bunker uri scheme 'https'");
    assert_eq!(message("bunker://?relay=wss://r.one"), "bunker uri missing remote signer pubkey");
    assert_eq!(message(&format!("bunker://{pubkey}?relay=http://r.one")), "bunker uri requires at least one valid relay");
    assert!(message("bunker://zz?relay=wss://r.one").starts_with("invalid nostr public key 'zz': "));
    let by_query = parse_nip46_bunker_uri(&format!("nostrconnect://?pubkey={pubkey}&relay=wss://r.one&secret=%20&perms=a,,B"))
        .expect("query pubkey");
    assert_eq!(by_query.signer_pubkey, pubkey);
    assert_eq!(by_query.shared_secret, None);
    assert_eq!(by_query.requested_permissions, vec!["a".to_string(), "b".to_string()]);
}

#[test]
fn persisted_signer_settings_restore_and_refuse() {
    let mut registry = NostrCoreRegistry::default();
    let pubkey = signer_pubkey();
    let settings = PersistedNostrSignerSettings::Nip46Delegated(PersistedNip46SignerSettings {
        relay_urls: vec!["wss://relay.one".to_string(), "wss://relay.one".to_string()],
        signer_pubkey: format!(" {pubkey} "),
        requested_permissions: vec!["Sign_Event".to_string()],
        permission_grants: vec![grant("zeta", Nip46PermissionDecision::Allow), grant("alpha", Nip46PermissionDecision::Deny)],
    });
    registry.apply_persisted_signer_settings(&settings).expect("settings apply");
    match registry.persisted_signer_settings() {
        PersistedNostrSignerSettings::Nip46Delegated(kept) => {
            assert_eq!(kept.relay_urls, vec!["wss://relay.one".to_string()]);
            assert_eq!(kept.signer_pubkey, pubkey);
            assert_eq!(kept.requested_permissions, vec!["sign_event".to_string()]);
            assert_eq!(kept.permission_grants[0].permission, "alpha");
        }
        other => panic!("expected delegated settings, got {other:?}"),
    }
    let no_relay = PersistedNostrSignerSettings::Nip46Delegated(PersistedNip46SignerSettings {
        relay_urls: vec![],
        signer_pubkey: pubkey.clone(),
        requested_permissions: vec![],
        permission_grants: vec![],
    });
    match registry.apply_persisted_signer_settings(&no_relay) {
        Err(NostrCoreError::ValidationFailed(m)) => assert_eq!(m, "persisted nip46 config requires at least one valid relay"),
        other => panic!("unexpected {other:?}"),
    }
    registry.apply_persisted_signer_settings(&PersistedNostrSignerSettings::LocalHostKey).unwrap();
    assert_eq!(registry.signer_backend_snapshot(), NostrSignerBackendSnapshot::LocalHostKey);
    match registry.set_nip46_permission("sign_event", Nip46PermissionDecision::Allow) {
        Err(NostrCoreError::ValidationFailed(m)) => assert_eq!(m, "nip46 permission updates require delegated signer backend"),
        other => panic!("unexpected {other:?}"),
    }
}

#[test]
fn restoring_skips_blank_entries_and_allocates_missing_ids() {
    let mut registry = NostrCoreRegistry::default();
    let kept = vec![
        graphshell_registries::nostr::PersistedNostrSubscription {
            caller_id: "  ".to_string(),
            requested_id: Some("skipped".to_string()),
            filters: NostrFilterSet { kinds: vec![1], authors: vec![], hashtags: vec![], relay_urls: vec![] },
        },
        graphshell_registries::nostr::PersistedNostrSubscription {
            caller_id: " Mod:A ".to_string(),
            requested_id: None,
            filters: NostrFilterSet { kinds: vec![1], authors: vec![], hashtags: vec![], relay_urls: vec![] },
        },
    ];
    assert_eq!(registry.restore_persisted_subscriptions(&kept).expect("restore"), 1);
    let held = registry.persisted_subscriptions();
    assert_eq!(held.len(), 1);
    assert_eq!(held[0].caller_id, "mod:a");
    assert_eq!(held[0].requested_id, None);
}

fn delegated_setup() -> (IdentityRegistry, String, NostrUnsignedEvent, graphshell_registries::nostr::NostrSignedEvent, NostrCoreRegistry) {
    let identity = IdentityRegistry::default();
    let user_pubkey = identity.nostr_public_key_hex_for("default").expect("user key");
    let unsigned = event(1_710_000_020, "delegated", vec![vec!["t", "x"]]);
    let local = NostrCoreRegistry::default();
    let signed = local.sign_event(&identity, "default", &unsigned).expect("local signing");
    let mut registry = NostrCoreRegistry::default();
    registry.use_nip46_signer("wss://relay.example", &user_pubkey).expect("nip46 config should be accepted");
    registry
        .set_nip46_permission("sign_event", Nip46PermissionDecision::Allow)
        .expect("setting permission should succeed");
    (identity, user_pubkey, unsigned, signed, registry)
}

#[test]
fn nip46_signing_connects_learns_the_user_key_and_checks_the_event() {
    let (_identity, user_pubkey, unsigned, signed, mut registry) = delegated_setup();
    let (flow, step) = registry.begin_delegated_sign("default", &unsigned).expect("delegated").expect("started");
    match step {
        Nip46Step::Call(Nip46Call::Connect { params }) => assert_eq!(params, vec![user_pubkey.clone()]),
        other => panic!("expected connect, got {other:?}"),
    }
    let (flow, step) = flow.advance(Ok(Nip46Reply::Other));
    assert!(matches!(step, Nip46Step::Call(Nip46Call::GetPublicKey)));
    let (flow, step) = flow.advance(Ok(Nip46Reply::Text(user_pubkey.clone())));
    assert!(matches!(step, Nip46Step::Call(Nip46Call::SignEvent)));
    let (flow, step) = flow.advance(Ok(Nip46Reply::Event(signed.clone())));
    match step {
        Nip46Step::Signed(event) => assert_eq!(event, signed),
        other => panic!("expected a signed event, got {other:?}"),
    }

    registry.update_nip46_config(flow.into_config());
    let (_, step) = registry.begin_delegated_sign("default", &unsigned).expect("delegated").expect("started");
    assert!(matches!(step, Nip46Step::Call(Nip46Call::SignEvent)));
}

#[test]
fn nip46_signing_rejects_mutated_or_foreign_events() {
    let (_identity, user_pubkey, unsigned, signed, registry) = delegated_setup();
    let start = || {
        let (flow, _) = registry.begin_delegated_sign("default", &unsigned).unwrap().unwrap();
        let (flow, _) = flow.advance(Ok(Nip46Reply::Other));
        let (flow, _) = flow.advance(Ok(Nip46Reply::Text(user_pubkey.clone())));
        flow
    };

    let mut mutated = signed.clone();
    mutated.content = "changed".to_string();
    let (_, step) = start().advance(Ok(Nip46Reply::Event(mutated)));
    assert!(matches!(step, Nip46Step::Failed(NostrCoreError::ValidationFailed(m)) if m == "nip46 signer returned invalid event signature"));

    let mut foreign = signed.clone();
    foreign.pubkey = "00".repeat(32);
    let (_, step) = start().advance(Ok(Nip46Reply::Event(foreign)));
    assert!(matches!(step, Nip46Step::Failed(NostrCoreError::ValidationFailed(m)) if m == "nip46 signer returned mismatched user pubkey"));

    let (_, step) = start().advance(Ok(Nip46Reply::Text("{}".to_string())));
    assert!(matches!(step, Nip46Step::Failed(NostrCoreError::ValidationFailed(m)) if m == "nip46 sign_event result missing event fields"));

    let (_, step) = start().advance(Err(NostrCoreError::BackendUnavailable("relay down".to_string())));
    assert!(matches!(step, Nip46Step::Failed(NostrCoreError::BackendUnavailable(m)) if m == "relay down"));

    let (flow, _) = registry.begin_delegated_sign("default", &unsigned).unwrap().unwrap();
    let (flow, _) = flow.advance(Ok(Nip46Reply::Other));
    let (_, step) = flow.advance(Ok(Nip46Reply::Other));
    assert!(matches!(step, Nip46Step::Failed(NostrCoreError::ValidationFailed(m)) if m == "nip46 get_public_key returned non-string result"));

    assert!(matches!(
        registry.begin_delegated_sign("  ", &unsigned),
        Some(Err(NostrCoreError::ValidationFailed(m))) if m == "persona must not be empty"
    ));
    assert!(NostrCoreRegistry::default().begin_delegated_sign("default", &unsigned).is_none());
}
