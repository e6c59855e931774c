//! What the relay connection makes of the messages a relay sends: whether a
//! subscription was confirmed or refused, whether a published event was
//! acknowledged, and which incoming events belong to a subscription held
//! here. The connection reads each message and hands it over as a value.

use vstd::prelude::*;
use crate::nostr::{NostrCoreError, NostrPublishReceipt, NostrSignedEvent};
use crate::text::{join3, owned, str_eq, strs};

verus! {

/// A message of a relay, by its first element; a field that is not a
/// string (or a boolean for `OK`) is read as absent.
#[derive(Debug)]
pub enum RelayMessage {
    Eose { subscription_id: Option<String> },
    Notice { message: Option<String> },
    Closed { subscription_id: Option<String>, reason: Option<String> },
    /// `OK`: the relay's answer to a published event.
    Accepted { event_id: Option<String>, accepted: Option<bool>, message: Option<String> },
    Event { subscription_id: Option<String>, event: Option<NostrSignedEvent> },
    Other,
}

/// A relay's answer to a published event.
#[derive(Debug, Clone, PartialEq, Eq)]
pub struct RelayPublishAck {
    pub accepted: bool,
    pub message: Option<String>,
}

pub open spec fn is_id(o: Option<String>, id: Seq<char>) -> bool {
    o matches Some(s) && s@ == id
}

pub open spec fn text_or(o: Option<String>, default: Seq<char>) -> Seq<char> {
    match o {
        Some(s) => s@,
        None => default,
    }
}

/// What a message says of the subscription `id` being set up: confirmed,
/// refused with the reason, or nothing yet (None).
pub open spec fn confirmation_spec(m: RelayMessage, id: Seq<char>) -> Option<Result<(), Seq<char>>> {
    match m {
        RelayMessage::Eose { subscription_id } => if is_id(subscription_id, id) { Some(Ok(())) } else { None },
        RelayMessage::Notice { message } => Some(Err(
            "relay notice for subscription '"@ + id + "': "@ + text_or(message, "relay notice while subscribing"@),
        )),
        RelayMessage::Closed { subscription_id, reason } => if is_id(subscription_id, id) {
            Some(Err("relay closed subscription '"@ + id + "': "@ + text_or(reason, "subscription closed"@)))
        } else {
            None
        },
        _ => None,
    }
}

fn id_matches(o: &Option<String>, id: &str) -> (r: bool)
    ensures
        r == is_id(*o, id@),
{
    match o {
        Some(s) => str_eq(s.as_str(), id),
        None => false,
    }
}

fn text_or_default(o: &Option<String>, default: &str) -> (r: String)
    ensures
        r@ == text_or(*o, default@),
{
    match o {
        Some(s) => owned(s.as_str()),
        None => owned(default),
    }
}

/// Reads a message while a subscription is being set up (see
/// `confirmation_spec`); a refusal is a backend error.
pub fn subscription_confirmation(message: &RelayMessage, subscription_id: &str) -> (r: Option<Result<(), NostrCoreError>>)
    ensures
        match confirmation_spec(*message, subscription_id@) {
            None => r is None,
            Some(Ok(())) => r matches Some(Ok(())),
            Some(Err(text)) => r matches Some(Err(NostrCoreError::BackendUnavailable(e))) && e@ == text,
        },
{
    match message {
        RelayMessage::Eose { subscription_id: id } => if id_matches(id, subscription_id) { Some(Ok(())) } else { None },
        RelayMessage::Notice { message: text } => {
            let head = join3("relay notice for subscription '", subscription_id, "': ");
            let tail = text_or_default(text, "relay notice while subscribing");
            Some(Err(NostrCoreError::BackendUnavailable(crate::text::join2(head.as_str(), tail.as_str()))))
        },
        RelayMessage::Closed { subscription_id: id, reason } => if id_matches(id, subscription_id) {
            let head = join3("relay closed subscription '", subscription_id, "': ");
            let tail = text_or_default(reason, "subscription closed");
            Some(Err(NostrCoreError::BackendUnavailable(crate::text::join2(head.as_str(), tail.as_str()))))
        } else {
            None
        },
        _ => None,
    }
}

/// What a message says of the published event `id`: acknowledged (accepted
/// or not, with the relay's message), or nothing yet (None). A notice counts
/// as a refusal.
pub open spec fn ack_spec(m: RelayMessage, id: Seq<char>) -> Option<(bool, Option<Seq<char>>)> {
    match m {
        RelayMessage::Accepted { event_id, accepted, message } => if is_id(event_id, id) {
            Some((
                match accepted { Some(b) => b, None => false },
                match message { Some(t) => Some(t@), None => None },
            ))
        } else {
            None
        },
        RelayMessage::Notice { message } => Some((false, Some(text_or(message, "relay notice while publishing"@)))),
        _ => None,
    }
}

/// Reads a message while a published event waits for its acknowledgement
/// (see `ack_spec`).
pub fn publish_ack(message: &RelayMessage, event_id: &str) -> (r: Option<RelayPublishAck>)
    ensures
        match ack_spec(*message, event_id@) {
            None => r is None,
            Some((accepted, text)) => r matches Some(a) && a.accepted == accepted
                && match text { Some(t) => a.message matches Some(m) && m@ == t, None => a.message is None },
        },
{
    match message {
        RelayMessage::Accepted { event_id: id, accepted, message: text } => if id_matches(id, event_id) {
            let accepted = match accepted {
                Some(b) => *b,
                None => false,
            };
            let text = match text {
                Some(t) => Some(owned(t.as_str())),
                None => None,
            };
            Some(RelayPublishAck { accepted, message: text })
        } else {
            None
        },
        RelayMessage::Notice { message: text } => {
            Some(RelayPublishAck { accepted: false, message: Some(text_or_default(text, "relay notice while publishing")) })
        },
        _ => None,
    }
}

/// Whether a text is one of a list's.
pub open spec fn listed(ids: Seq<Seq<char>>, id: Seq<char>) -> bool {
    exists|i: int| 0 <= i < ids.len() && ids[i] == id
}

fn is_listed(ids: &Vec<String>, id: &str) -> (r: bool)
    ensures
        r == listed(strs(ids@), id@),
{
    let mut i: usize = 0;
    while i < ids.len()
        invariant
            i <= ids@.len(),
            forall|k: int| 0 <= k < i ==> ids@[k]@ != id@,
        decreases ids@.len() - i,
    {
        if str_eq(ids[i].as_str(), id) {
            assert(strs(ids@)[i as int] == id@);
            return true;
        }
        i = i + 1;
    }
    assert forall|k: int| 0 <= k < strs(ids@).len() implies strs(ids@)[k] != id@ by {
        assert(strs(ids@)[k] == ids@[k]@);
    }
    false
}

/// An incoming event for one of the subscriptions held here (by id), with
/// that subscription's id; None for any other message.
pub fn inbound_event(message: RelayMessage, owned_subscriptions: &Vec<String>) -> (r: Option<(String, NostrSignedEvent)>)
    ensures
        match message {
            RelayMessage::Event { subscription_id: Some(id), event: Some(e) } =>
                if listed(strs(owned_subscriptions@), id@) { r matches Some((i, f)) && i@ == id@ && f == e } else { r is None },
            _ => r is None,
        },
{
    match message {
        RelayMessage::Event { subscription_id: Some(id), event: Some(event) } => {
            if is_listed(owned_subscriptions, id.as_str()) {
                Some((id, event))
            } else {
                None
            }
        },
        _ => None,
    }
}

/// Texts joined by `sep`.
pub open spec fn sep_joined(items: Seq<Seq<char>>, sep: Seq<char>) -> Seq<char>
    decreases items.len(),
{
    if items.len() == 0 {
        Seq::empty()
    } else if items.len() == 1 {
        items[0]
    } else {
        sep_joined(items.drop_last(), sep) + sep + items.last()
    }
}

/// How a publish stands after the answers of the relays so far: how many
/// relays count as accepting, and a note for each that refused.
pub struct PublishTally {
    pub accepted_relays: usize,
    pub failure_notes: Vec<String>,
}

impl PublishTally {
    /// No relay answered yet.
    pub fn new() -> (r: Self)
        ensures
            r.accepted_relays == 0,
            r.failure_notes@.len() == 0,
    {
        PublishTally { accepted_relays: 0, failure_notes: Vec::new() }
    }

    /// Counts the answer of `relay_url` to the published event: an accepting
    /// acknowledgement, or none before the wait ran out, counts the relay as
    /// accepting; a refusal adds the note `relay: message` (the message
    /// defaulting to "relay rejected publish").
    pub fn record(&mut self, relay_url: &str, ack: Option<RelayPublishAck>)
        requires
            old(self).accepted_relays < usize::MAX,
        ensures
            match ack {
                Some(a) if !a.accepted => {
                    &&& final(self).accepted_relays == old(self).accepted_relays
                    &&& strs(final(self).failure_notes@) == strs(old(self).failure_notes@).push(
                        relay_url@ + ": "@ + text_or(a.message, "relay rejected publish"@),
                    )
                },
                _ => {
                    &&& final(self).accepted_relays == old(self).accepted_relays + 1
                    &&& strs(final(self).failure_notes@) == strs(old(self).failure_notes@)
                },
            },
    {
        match ack {
            Some(a) => {
                if a.accepted {
                    self.accepted_relays = self.accepted_relays + 1;
                } else {
                    let message = text_or_default(&a.message, "relay rejected publish");
                    let note = join3(relay_url, ": ", message.as_str());
                    let ghost before = strs(self.failure_notes@);
                    self.failure_notes.push(note);
                    assert(strs(self.failure_notes@) =~= before.push(note@));
                }
            },
            None => {
                self.accepted_relays = self.accepted_relays + 1;
            },
        }
    }

    /// The receipt of the publish: accepted where no relay refused, with the
    /// accepting count, and a note naming each refusal otherwise.
    pub fn receipt(&self) -> (r: NostrPublishReceipt)
        ensures
            r.accepted == (self.failure_notes@.len() == 0),
            r.relay_count == self.accepted_relays,
            r.note@ == if self.failure_notes@.len() == 0 {
                "accepted by websocket relay backend"@
            } else {
                "relay rejected publish: "@ + sep_joined(strs(self.failure_notes@), "; "@)
            },
    {
        let accepted = self.failure_notes.len() == 0;
        let note = if accepted {
            owned("accepted by websocket relay backend")
        } else {
            let mut out = owned("relay rejected publish: ");
            let ghost start = out@;
            let ghost views = strs(self.failure_notes@);
            let mut i: usize = 0;
            while i < self.failure_notes.len()
                invariant
                    i <= self.failure_notes@.len(),
                    views == strs(self.failure_notes@),
                    out@ == start + sep_joined(views.subrange(0, i as int), "; "@),
                decreases self.failure_notes@.len() - i,
            {
                let ghost pre = views.subrange(0, i + 1);
                assert(pre.drop_last() == views.subrange(0, i as int));
                if i > 0 {
                    out.append("; ");
                }
                out.append(self.failure_notes[i].as_str());
                proof {
                    if i == 0 {
                        assert(pre.len() == 1);
                        assert(sep_joined(views.subrange(0, 0), "; "@) == Seq::<char>::empty());
                    }
                }
                assert(out@ =~= start + sep_joined(pre, "; "@));
                i = i + 1;
            }
            assert(views.subrange(0, self.failure_notes@.len() as int) == views);
            out
        };
        NostrPublishReceipt { accepted, relay_count: self.accepted_relays, note }
    }
}

} // verus!
