use graphshell_registries::hex::encode_hex;
use graphshell_registries::nip46_rpc::{nip46_open_response, nip46_rpc_request, nip46_rpc_response};
use graphshell_registries::nostr::NostrCoreError;
use graphshell_registries::nostr_signer::Nip46DelegateConfig;

const SIGNER_SECRET: [u8; 32] = [
    0, 0, 0, 0, 0, 0, 0, 0, 0, 0, 0, 0, 0, 0, 0, 0, 0, 0, 0, 0, 0, 0, 0, 0, 0, 0, 0, 0, 0, 0, 0, 1,
];
const SESSION_SECRET: [u8; 32] = [
    0, 0, 0, 0, 0, 0, 0, 0, 0, 0, 0, 0, 0, 0, 0, 0, 0, 0, 0, 0, 0, 0, 0, 0, 0, 0, 0, 0, 0, 0, 0, 2,
];
const SIGNER_PUBKEY: &str = "79be667ef9dcbbac55a06295ce870b07029bfcdb2dce28d959f2815b16f81798";
const SESSION_PUBKEY: &str = "c6047f9441ed7d6d3045406e95c07cd85c778e4b8cef3ca7abac09b95c709ee5";

fn config(signer: &str) -> Nip46DelegateConfig {
    Nip46DelegateConfig {
        relay_urls: vec!["wss://relay.example".to_string()],
        signer_pubkey: signer.to_string(),
        shared_secret: None,
        requested_permissions: vec![],
        permission_grants: vec![],
        signer_user_pubkey: None,
        connected: true,
    }
}

#[test]
fn rpc_request_seals_payload_for_the_signer_and_subscribes_to_its_answer() {
    let params = vec!["{\"kind\":1}".to_string()];
    let request = nip46_rpc_request(&config(SIGNER_PUBKEY), &SESSION_SECRET, "nip46-rpc-7", "sign_event", &params, 1_710_000_000)
        .expect("a valid signer key and session secret should give a request");

    assert_eq!(request.subscription_id, "nip46-nip46-rpc-7");
    assert_eq!(
        request.subscribe_frame,
        format!(
            "[\"REQ\",\"nip46-nip46-rpc-7\",{{\"#p\":[\"{SESSION_PUBKEY}\"],\"authors\":[\"{SIGNER_PUBKEY}\"],\"kinds\":[24133]}}]"
        )
    );
    let event = &request.event;
    assert_eq!(event.kind, 24133);
    assert_eq!(event.created_at, 1_710_000_000);
    assert_eq!(event.pubkey, SESSION_PUBKEY);
    assert_eq!(event.tags, vec![vec!["p".to_string(), SIGNER_PUBKEY.to_string()]]);
    assert_eq!(event.event_id.len(), 64);
    assert_eq!(event.signature.len(), 128);

    let expected = "{\"id\":\"nip46-rpc-7\",\"method\":\"sign_event\",\"params\":[{\"kind\":1}]}";
    let opened_by_session = nip46_open_response(&SESSION_SECRET, SIGNER_PUBKEY, &event.content)
        .expect("the session side opens what it sealed");
    assert_eq!(opened_by_session, expected);
    let opened_by_signer = nip46_open_response(&SIGNER_SECRET, SESSION_PUBKEY, &event.content)
        .expect("the signer opens what the session sealed for it");
    assert_eq!(opened_by_signer, expected);
    assert_ne!(event.content, expected);
}

#[test]
fn rpc_request_refuses_bad_signer_key_and_bad_session_secret() {
    let params: Vec<String> = vec![];
    let bad_key = nip46_rpc_request(&config("not-a-key"), &SESSION_SECRET, "id", "ping", &params, 1);
    assert!(matches!(bad_key, Err(NostrCoreError::ValidationFailed(m)) if m.starts_with("invalid nostr public key 'not-a-key': ")));

    let zero = [0u8; 32];
    let bad_secret = nip46_rpc_request(&config(SIGNER_PUBKEY), &zero, "id", "ping", &params, 1);
    assert_eq!(bad_secret.err(), Some(NostrCoreError::ValidationFailed("invalid nip46 session secret".to_string())));
}

#[test]
fn rpc_request_event_id_is_hash_of_canonical_text() {
    let params: Vec<String> = vec![];
    let request = nip46_rpc_request(&config(SIGNER_PUBKEY), &SESSION_SECRET, "r1", "ping", &params, 5).expect("request");
    let text = graphshell_registries::nostr_event::canonical_event_text(
        SESSION_PUBKEY,
        &graphshell_registries::nostr_event::NostrUnsignedEvent {
            created_at: 5,
            kind: 24133,
            content: request.event.content.clone(),
            tags: request.event.tags.clone(),
        },
    );
    let hash: [u8; 32] = <sha2::Sha256 as sha2::Digest>::digest(text.as_bytes()).into();
    assert_eq!(request.event.event_id, encode_hex(&hash));
}

#[test]
fn rpc_open_response_refuses_what_is_not_sealed_for_the_session() {
    let opened = nip46_open_response(&SESSION_SECRET, SIGNER_PUBKEY, "not a payload");
    assert!(matches!(opened, Err(NostrCoreError::BackendUnavailable(m)) if m.starts_with("nip44 decrypt failed: ")));
}

#[test]
fn rpc_response_checks_id_error_and_result() {
    assert_eq!(
        nip46_rpc_response("r1", Some("r2".to_string()), None, Some("\"ack\"".to_string())),
        Err(NostrCoreError::ValidationFailed("nip46 response id mismatch".to_string()))
    );
    assert_eq!(
        nip46_rpc_response("r1", None, None, Some("\"ack\"".to_string())),
        Err(NostrCoreError::ValidationFailed("nip46 response id mismatch".to_string()))
    );
    assert_eq!(
        nip46_rpc_response("r1", Some("r1".to_string()), Some("\"denied\"".to_string()), Some("\"ack\"".to_string())),
        Err(NostrCoreError::BackendUnavailable("nip46 signer error: \"denied\"".to_string()))
    );
    assert_eq!(
        nip46_rpc_response("r1", Some("r1".to_string()), None, None),
        Err(NostrCoreError::ValidationFailed("nip46 response missing result".to_string()))
    );
    assert_eq!(nip46_rpc_response("r1", Some("r1".to_string()), None, Some("\"ack\"".to_string())), Ok("\"ack\"".to_string()));
}

#[test]
fn rpc_request_succeeds_for_curve_point_signer_and_fails_to_seal_for_other_keys() {
    let params = vec!["\"ack\"".to_string()];
    let ok = nip46_rpc_request(&config(SIGNER_PUBKEY), &SESSION_SECRET, "r9", "ping", &params, 3);
    assert!(ok.is_ok());
    let not_on_curve = "ffffffffffffffffffffffffffffffffffffffffffffffffffffffffffffffff";
    let sealed = nip46_rpc_request(&config(not_on_curve), &SESSION_SECRET, "r9", "ping", &params, 3);
    assert!(matches!(sealed, Err(NostrCoreError::BackendUnavailable(m)) if m.starts_with("nip44 encrypt failed: ")));
}
