use graphshell_registries::nostr::{NostrCoreError, NostrSignedEvent};
use graphshell_registries::relay_messages::{
    inbound_event, publish_ack, subscription_confirmation, PublishTally, RelayMessage, RelayPublishAck,
};

fn s(text: &str) -> Option<String> {
    Some(text.to_string())
}

fn sample_event() -> NostrSignedEvent {
    NostrSignedEvent {
        event_id: "e1".to_string(),
        pubkey: "p1".to_string(),
        signature: "s1".to_string(),
        created_at: 1,
        kind: 1,
        content: "hello".to_string(),
        tags: Vec::new(),
    }
}

#[test]
fn end_of_stored_events_confirms_only_its_own_subscription() {
    assert!(matches!(subscription_confirmation(&RelayMessage::Eose { subscription_id: s("sub-1") }, "sub-1"), Some(Ok(()))));
    assert!(subscription_confirmation(&RelayMessage::Eose { subscription_id: s("sub-2") }, "sub-1").is_none());
    assert!(subscription_confirmation(&RelayMessage::Other, "sub-1").is_none());
}

#[test]
fn notices_and_closures_refuse_a_subscription() {
    assert_eq!(
        subscription_confirmation(&RelayMessage::Notice { message: s("rate limited") }, "sub-1"),
        Some(Err(NostrCoreError::BackendUnavailable("relay notice for subscription 'sub-1': rate limited".to_string())))
    );
    assert_eq!(
        subscription_confirmation(&RelayMessage::Notice { message: None }, "sub-1"),
        Some(Err(NostrCoreError::BackendUnavailable(
            "relay notice for subscription 'sub-1': relay notice while subscribing".to_string()
        )))
    );
    assert_eq!(
        subscription_confirmation(&RelayMessage::Closed { subscription_id: s("sub-1"), reason: None }, "sub-1"),
        Some(Err(NostrCoreError::BackendUnavailable("relay closed subscription 'sub-1': subscription closed".to_string())))
    );
    assert!(subscription_confirmation(&RelayMessage::Closed { subscription_id: s("sub-9"), reason: s("x") }, "sub-1").is_none());
}

#[test]
fn publish_acknowledgements_follow_ok_and_notice_messages() {
    assert_eq!(
        publish_ack(&RelayMessage::Accepted { event_id: s("e1"), accepted: Some(true), message: s("") }, "e1"),
        Some(RelayPublishAck { accepted: true, message: s("") })
    );
    assert_eq!(
        publish_ack(&RelayMessage::Accepted { event_id: s("e1"), accepted: None, message: None }, "e1"),
        Some(RelayPublishAck { accepted: false, message: None })
    );
    assert!(publish_ack(&RelayMessage::Accepted { event_id: s("e2"), accepted: Some(true), message: None }, "e1").is_none());
    assert_eq!(
        publish_ack(&RelayMessage::Notice { message: None }, "e1"),
        Some(RelayPublishAck { accepted: false, message: s("relay notice while publishing") })
    );
}

#[test]
fn inbound_events_are_delivered_only_for_held_subscriptions() {
    let held = vec!["sub-1".to_string(), "sub-2".to_string()];
    let delivered = inbound_event(RelayMessage::Event { subscription_id: s("sub-2"), event: Some(sample_event()) }, &held);
    assert_eq!(delivered, Some(("sub-2".to_string(), sample_event())));
    assert!(inbound_event(RelayMessage::Event { subscription_id: s("sub-3"), event: Some(sample_event()) }, &held).is_none());
    assert!(inbound_event(RelayMessage::Event { subscription_id: s("sub-1"), event: None }, &held).is_none());
    assert!(inbound_event(RelayMessage::Eose { subscription_id: s("sub-1") }, &held).is_none());
}

#[test]
fn publish_tally_counts_acceptances_and_names_refusals() {
    let mut tally = PublishTally::new();
    tally.record("wss://a", Some(RelayPublishAck { accepted: true, message: None }));
    tally.record("wss://b", None);
    let clean = tally.receipt();
    assert!(clean.accepted);
    assert_eq!(clean.relay_count, 2);
    assert_eq!(clean.note, "accepted by websocket relay backend");

    tally.record("wss://c", Some(RelayPublishAck { accepted: false, message: Some("blocked".to_string()) }));
    tally.record("wss://d", Some(RelayPublishAck { accepted: false, message: None }));
    let refused = tally.receipt();
    assert!(!refused.accepted);
    assert_eq!(refused.relay_count, 2);
    assert_eq!(refused.note, "relay rejected publish: wss://c: blocked; wss://d: relay rejected publish");
}
