use graphshell_registries::hex::{decode_hex, encode_hex};
use graphshell_registries::identity::{
    archive_file_name, archived_keys_text, parse_archived_verifying_keys, parse_seed_bytes, parse_signature_bytes,
    seed_file_name, user_seed_file_name, IdentityKeyError, IdentityRegistry, KeyProtection, UserIdentityProtocol,
    IDENTITY_ID_DEFAULT, IDENTITY_ID_LOCKED, IDENTITY_ID_P2P,
};
use graphshell_registries::runtime::RegistryRuntime;

#[test]
fn identity_registry_signs_and_verifies_with_default_persona() {
    let registry = IdentityRegistry::default();
    let result = registry.sign(IDENTITY_ID_DEFAULT, b"payload");

    assert!(result.succeeded);
    assert!(result.resolution.matched);
    assert_eq!(result.resolution.resolved_id, IDENTITY_ID_DEFAULT);
    assert!(result.signature.as_deref().is_some_and(|sig| sig.starts_with("sig:")));
    let verify = registry.verify(IDENTITY_ID_DEFAULT, b"payload", result.signature.as_deref().unwrap_or_default());
    assert!(verify.verified);
}

#[test]
fn identity_registry_verify_rejects_wrong_payload() {
    let registry = IdentityRegistry::default();
    let signed = registry.sign(IDENTITY_ID_DEFAULT, b"payload").signature.expect("signature should be produced");

    let verify = registry.verify(IDENTITY_ID_DEFAULT, b"wrong", &signed);
    assert!(!verify.verified);
}

#[test]
fn identity_registry_rotation_archives_previous_verifying_key() {
    let mut registry = IdentityRegistry::default();
    let previous = registry.verifying_key_hex_for(IDENTITY_ID_DEFAULT).expect("verifying key should exist");
    let rotated = registry.rotate_key(IDENTITY_ID_DEFAULT).expect("key rotation should succeed");
    assert_ne!(previous, rotated);
}

#[test]
fn identity_registry_reports_key_unavailable_for_locked_persona() {
    let registry = IdentityRegistry::default();
    let result = registry.sign(IDENTITY_ID_LOCKED, b"payload");

    assert!(!result.succeeded);
    assert!(!result.resolution.key_available);
    assert_eq!(result.resolution.resolved_id, IDENTITY_ID_LOCKED);
}

#[test]
fn identity_registry_builds_signed_presence_binding_assertion() {
    let registry = IdentityRegistry::default();

    let assertion = registry
        .create_presence_binding_assertion_at(IDENTITY_ID_DEFAULT, "local:mdns", 60, 100)
        .expect("presence binding should be created");

    assert_eq!(assertion.node_id, registry.p2p_node_id());
    assert_eq!(assertion.user_identity.identity_id, IDENTITY_ID_DEFAULT);
    assert_eq!(assertion.user_identity.protocol, UserIdentityProtocol::LocalNostrSecp256k1);
    assert_eq!(assertion.issued_at_secs, 100);
    assert_eq!(assertion.expires_at_secs, 160);
    assert!(assertion.signature.starts_with("sig:"));
    assert!(registry.verify_presence_binding_assertion(&assertion));
}

#[test]
fn identity_registry_default_user_claim_uses_secp256k1_protocol() {
    let registry = IdentityRegistry::default();
    let claim = registry.default_user_identity_claim().expect("default user claim should exist");

    assert_eq!(claim.identity_id, IDENTITY_ID_DEFAULT);
    assert_eq!(claim.protocol, UserIdentityProtocol::LocalNostrSecp256k1);
    assert_eq!(claim.public_key.len(), 64);
}

#[test]
fn identity_registry_rejects_tampered_presence_binding_assertion() {
    let registry = IdentityRegistry::default();
    let mut assertion = registry
        .create_presence_binding_assertion_at(IDENTITY_ID_DEFAULT, "local:mdns", 60, 100)
        .expect("presence binding should be created");

    assertion.node_id = IdentityRegistry::default().p2p_node_id();

    assert!(!registry.verify_presence_binding_assertion(&assertion));
}

#[test]
fn phase3_identity_registry_signs_default_payload() {
    let runtime = RegistryRuntime::new();
    let signature = runtime.sign_identity_payload("identity:default", b"payload");
    assert!(signature.as_deref().is_some_and(|sig| sig.starts_with("sig:")));
}

#[test]
fn phase3_identity_sign_path_matches_registry_runtime_dispatch_api() {
    let runtime = RegistryRuntime::new();
    let identity_id = "identity:missing";
    let payload = b"payload";

    let via_phase_api = runtime.sign_identity_payload(identity_id, payload);
    let via_runtime_api = runtime.identity.sign(identity_id, payload).signature;

    assert_eq!(via_phase_api, via_runtime_api);
}

#[test]
fn unknown_and_blank_ids_fall_back_to_the_default_persona() {
    let registry = IdentityRegistry::default();
    let missing = registry.resolve("  Identity:Missing ");
    assert_eq!(missing.requested_id, "identity:missing");
    assert_eq!(missing.resolved_id, IDENTITY_ID_DEFAULT);
    assert!(!missing.matched);
    assert!(missing.key_available);

    let blank = registry.resolve("   ");
    assert_eq!(blank.requested_id, "");
    assert_eq!(blank.resolved_id, IDENTITY_ID_DEFAULT);
    assert!(!blank.matched);

    let cased = registry.resolve(" IDENTITY:P2P ");
    assert!(cased.matched);
    assert_eq!(cased.resolved_id, IDENTITY_ID_P2P);
}

#[test]
fn signatures_are_deterministic_and_hex_encoded() {
    let registry = IdentityRegistry::default();
    let first = registry.sign(IDENTITY_ID_DEFAULT, b"payload").signature.expect("signature");
    let second = registry.sign(IDENTITY_ID_DEFAULT, b"payload").signature.expect("signature");
    assert_eq!(first, second);
    assert_eq!(first.len(), 4 + 128);
    let bytes = parse_signature_bytes(&format!("  {first} ")).expect("signature text should parse");
    assert_eq!(bytes.len(), 64);
    assert_eq!(format!("sig:{}", encode_hex(&bytes)), first);
}

#[test]
fn signature_text_without_prefix_or_with_bad_hex_is_rejected() {
    let registry = IdentityRegistry::default();
    let signature = registry.sign(IDENTITY_ID_DEFAULT, b"payload").signature.expect("signature");
    let bare = signature.trim_start_matches("sig:").to_string();
    assert!(!registry.verify(IDENTITY_ID_DEFAULT, b"payload", &bare).verified);
    assert!(!registry.verify(IDENTITY_ID_DEFAULT, b"payload", "sig:zz").verified);
    assert!(!registry.verify(IDENTITY_ID_DEFAULT, b"payload", "sig:abcd").verified);
    assert!(parse_signature_bytes("sig:abc").is_none());
    assert_eq!(parse_signature_bytes("sig:0aFF"), Some(vec![0x0a, 0xff]));
}

#[test]
fn rotated_persona_still_verifies_its_earlier_signature() {
    let mut registry = IdentityRegistry::default();
    let before = registry.sign(IDENTITY_ID_DEFAULT, b"payload").signature.expect("signature");
    registry.rotate_key(IDENTITY_ID_DEFAULT).expect("rotation");
    let after = registry.sign(IDENTITY_ID_DEFAULT, b"payload").signature.expect("signature");
    assert_ne!(before, after);
    assert!(registry.verify(IDENTITY_ID_DEFAULT, b"payload", &before).verified);
    assert!(registry.verify(IDENTITY_ID_DEFAULT, b"payload", &after).verified);
}

#[test]
fn revoked_persona_stops_signing_and_keeps_verifying() {
    let mut registry = IdentityRegistry::default();
    let before = registry.sign(IDENTITY_ID_P2P, b"payload").signature.expect("signature");
    registry.revoke_key(IDENTITY_ID_P2P).expect("revocation");
    let result = registry.sign(IDENTITY_ID_P2P, b"payload");
    assert!(!result.succeeded);
    assert!(result.signature.is_none());
    assert!(result.verifying_key.is_some());
    assert!(!result.resolution.key_available);
    assert!(registry.verify(IDENTITY_ID_P2P, b"payload", &before).verified);
    assert!(registry.sign_sync_payload(b"payload").is_empty());
}

#[test]
fn rotating_a_locked_persona_is_refused() {
    let mut registry = IdentityRegistry::default();
    assert!(matches!(registry.rotate_key(IDENTITY_ID_LOCKED), Err(IdentityKeyError::PersonaLocked)));
    let empty = IdentityRegistry::empty();
    let mut empty = empty;
    match empty.rotate_key("identity:default") {
        Err(IdentityKeyError::PersonaMissing(id)) => assert_eq!(id, "identity:default"),
        _ => panic!("a registry without personas should report the missing one"),
    }
    assert!(matches!(empty.revoke_key("x"), Err(IdentityKeyError::PersonaMissing(_))));
    assert_eq!(IdentityKeyError::PersonaLocked.message(), "persona is locked");
    assert_eq!(IdentityKeyError::PersonaMissing("a".to_string()).message(), "missing persona: a");
}

#[test]
fn installed_seed_gives_the_dalek_verifying_key() {
    let mut registry = IdentityRegistry::empty();
    let seed = [7u8; 32];
    registry.install_persona(IDENTITY_ID_DEFAULT, seed, Vec::new(), KeyProtection::Unprotected);
    let expected = ed25519_dalek::SigningKey::from_bytes(&seed).verifying_key().to_bytes();
    assert_eq!(registry.verifying_key_hex_for(IDENTITY_ID_DEFAULT), Some(encode_hex(&expected)));
    assert_eq!(registry.protection_for(IDENTITY_ID_DEFAULT), Some(KeyProtection::Unprotected));
    let signature = registry.sign(IDENTITY_ID_DEFAULT, b"abc").signature.expect("signature");
    let bytes = parse_signature_bytes(&signature).expect("parse");
    let key = ed25519_dalek::VerifyingKey::from_bytes(&expected).expect("key");
    let sig = ed25519_dalek::Signature::from_slice(&bytes).expect("sig");
    assert!(ed25519_dalek::Verifier::verify(&key, b"abc", &sig).is_ok());
}

#[test]
fn sync_payload_signature_verifies_as_a_peer_signature() {
    let registry = IdentityRegistry::default();
    let signature = registry.sign_sync_payload(b"sync");
    assert_eq!(signature.len(), 64);
    let node = decode_hex(&registry.p2p_node_id()).expect("node id is hex");
    let mut peer = [0u8; 32];
    peer.copy_from_slice(&node);
    assert!(registry.verify_peer_signature(&peer, b"sync", &signature));
    assert!(!registry.verify_peer_signature(&peer, b"other", &signature));
    assert!(!registry.verify_peer_signature(&peer, b"sync", &signature[..63]));
}

#[test]
fn user_digest_signature_verifies_with_secp256k1() {
    let registry = IdentityRegistry::default();
    let digest = [9u8; 32];
    let signature = registry.sign_user_digest("default", &digest).expect("user signature");
    let bytes = parse_signature_bytes(&signature).expect("parse");
    let public = registry.nostr_public_key_hex_for("default").expect("public key");
    let key: secp256k1::XOnlyPublicKey = public.parse().expect("x-only key");
    let mut sig = [0u8; 64];
    sig.copy_from_slice(&bytes);
    let sig = secp256k1::schnorr::Signature::from_byte_array(sig);
    assert!(secp256k1::Secp256k1::verification_only().verify_schnorr(&sig, &digest, &key).is_ok());
}

#[test]
fn installing_an_invalid_user_secret_is_refused() {
    let mut registry = IdentityRegistry::empty();
    let result = registry.install_user_persona(IDENTITY_ID_DEFAULT, [0u8; 32], KeyProtection::Unprotected);
    assert!(matches!(result, Err(IdentityKeyError::InvalidKeyMaterial)));
    assert!(registry.default_user_identity_claim().is_none());
    assert!(registry.install_user_persona(IDENTITY_ID_DEFAULT, [1u8; 32], KeyProtection::Unprotected).is_ok());
    assert!(registry.default_user_identity_claim().is_some());
}

#[test]
fn presence_binding_needs_an_audience_and_rejects_bad_times() {
    let registry = IdentityRegistry::default();
    assert!(registry.create_presence_binding_assertion_at(IDENTITY_ID_DEFAULT, "   ", 60, 100).is_none());
    let zero_ttl = registry
        .create_presence_binding_assertion_at(IDENTITY_ID_DEFAULT, " lan ", 0, u64::MAX - 1)
        .expect("binding");
    assert_eq!(zero_ttl.audience, "lan");
    assert_eq!(zero_ttl.expires_at_secs, u64::MAX);
    assert!(registry.verify_presence_binding_assertion(&zero_ttl));

    let mut backwards = registry
        .create_presence_binding_assertion_at(IDENTITY_ID_DEFAULT, "lan", 10, 100)
        .expect("binding");
    backwards.expires_at_secs = 99;
    assert!(!registry.verify_presence_binding_assertion(&backwards));

    let mut did = registry
        .create_presence_binding_assertion_at(IDENTITY_ID_DEFAULT, "lan", 10, 100)
        .expect("binding");
    did.user_identity.protocol = UserIdentityProtocol::DidPlc;
    assert!(!registry.verify_presence_binding_assertion(&did));
}

#[test]
fn seed_files_hold_exactly_32_bytes() {
    assert_eq!(parse_seed_bytes(&[3u8; 32]).ok(), Some([3u8; 32]));
    assert!(matches!(parse_seed_bytes(&[3u8; 31]), Err(IdentityKeyError::InvalidKeyMaterial)));
    assert!(matches!(parse_seed_bytes(&[3u8; 33]), Err(IdentityKeyError::InvalidKeyMaterial)));
}

#[test]
fn persona_file_names_replace_colons() {
    assert_eq!(seed_file_name("identity:default"), "identity__default.seed");
    assert_eq!(user_seed_file_name("identity:default"), "identity__default.user.seed");
    assert_eq!(archive_file_name("a:b:c"), "a__b__c.archive");
}

#[test]
fn archived_keys_text_reads_back() {
    let key = ed25519_dalek::SigningKey::from_bytes(&[5u8; 32]).verifying_key().to_bytes();
    let other = ed25519_dalek::SigningKey::from_bytes(&[6u8; 32]).verifying_key().to_bytes();
    let text = archived_keys_text(&vec![key, other]);
    assert_eq!(text, format!("{}\n{}", encode_hex(&key), encode_hex(&other)));
    let parsed = parse_archived_verifying_keys(&text).expect("archive should parse");
    assert_eq!(parsed, vec![key, other]);

    let padded = format!("\n  {}  \r\n\n{}\n", encode_hex(&key), encode_hex(&other).to_uppercase());
    assert_eq!(parse_archived_verifying_keys(&padded).expect("padded archive"), vec![key, other]);
    assert_eq!(parse_archived_verifying_keys("").expect("empty archive"), Vec::<[u8; 32]>::new());
    assert!(matches!(parse_archived_verifying_keys("abcd"), Err(IdentityKeyError::InvalidKeyMaterial)));
    assert!(matches!(parse_archived_verifying_keys("xyz"), Err(IdentityKeyError::InvalidKeyMaterial)));
}

#[test]
fn identity_registry_load_or_generate_persists_seed_material() {
    let fresh = [7u8; 32];
    let mut first = IdentityRegistry::empty();
    let created = first.load_persona(IDENTITY_ID_DEFAULT, None, None, fresh).expect("identity key should be generated");
    assert!(created);
    let stored = first.persona_seed(IDENTITY_ID_DEFAULT).expect("seed is held");
    assert_eq!(stored, fresh);

    let mut second = IdentityRegistry::empty();
    let created_again = second
        .load_persona(IDENTITY_ID_DEFAULT, Some(&stored[..]), None, [9u8; 32])
        .expect("identity key should reload");
    assert!(!created_again);
    assert_eq!(
        first.verifying_key_hex_for(IDENTITY_ID_DEFAULT),
        second.verifying_key_hex_for(IDENTITY_ID_DEFAULT)
    );
    assert_eq!(second.protection_for(IDENTITY_ID_DEFAULT), Some(KeyProtection::Unprotected));
}

#[test]
fn loading_a_persona_rejects_bad_seed_and_archive_material() {
    let mut registry = IdentityRegistry::empty();
    let short = [1u8; 31];
    assert!(matches!(
        registry.load_persona(IDENTITY_ID_DEFAULT, Some(&short[..]), None, [2u8; 32]),
        Err(IdentityKeyError::InvalidKeyMaterial)
    ));
    assert!(matches!(
        registry.load_persona(IDENTITY_ID_DEFAULT, None, Some("not-hex\n"), [2u8; 32]),
        Err(IdentityKeyError::InvalidKeyMaterial)
    ));
    assert_eq!(registry.persona_seed(IDENTITY_ID_DEFAULT), None);

    let mut other = IdentityRegistry::empty();
    other.load_persona(IDENTITY_ID_DEFAULT, None, None, [4u8; 32]).expect("fresh seed loads");
    let key_hex = other.verifying_key_hex_for(IDENTITY_ID_DEFAULT).expect("verifying key");
    let key_bytes = decode_hex(&key_hex).expect("hex");
    let archived = "  \n".to_string() + &key_hex + "\n";
    registry.load_persona(IDENTITY_ID_DEFAULT, None, Some(&archived), [3u8; 32]).expect("archive parses");
    let archive = registry.persona_archive(IDENTITY_ID_DEFAULT).expect("persona is held");
    assert_eq!(archive.len(), 1);
    assert_eq!(archive[0].to_vec(), key_bytes);
}

#[test]
fn loading_a_user_persona_keeps_a_stored_secret() {
    let mut registry = IdentityRegistry::empty();
    let created = registry.load_user_persona(IDENTITY_ID_DEFAULT, None, [5u8; 32]).expect("fresh secret is valid");
    assert!(created);
    assert_eq!(registry.user_persona_secret(IDENTITY_ID_DEFAULT), Some([5u8; 32]));
    let stored = [6u8; 32];
    let created = registry.load_user_persona(IDENTITY_ID_DEFAULT, Some(&stored[..]), [5u8; 32]).expect("stored secret is valid");
    assert!(!created);
    assert_eq!(registry.user_persona_secret(IDENTITY_ID_DEFAULT), Some(stored));
    assert!(matches!(
        registry.load_user_persona(IDENTITY_ID_DEFAULT, Some(&[0u8; 32][..]), [5u8; 32]),
        Err(IdentityKeyError::InvalidKeyMaterial)
    ));
}
