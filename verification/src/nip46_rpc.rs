//! One NIP-46 remote-signing call over a relay, apart from the relay
//! connection itself: the request a call sends (its JSON-RPC payload, sealed
//! with NIP-44 for the signer, carried by a kind-24133 event the session key
//! signs, and the subscription that waits for the answer), and the checks an
//! answer must pass before its result is used.

use vstd::prelude::*;
use crate::text::{join2, owned};
use crate::hex::{encode_hex, hex_spec, unhex_spec};
use crate::crypto::{
    json_quoted, json_string, schnorr_accepts, schnorr_sign, schnorr_signature, secp_public_key,
    secp_xonly_key, secp_xonly_public, sha256_of_text,
};
use crate::nostr::{NostrCoreError, NostrSignedEvent};
use crate::nostr_event::{
    canonical_event_hash, event_text, json_array, push_all, signed_event_valid, tag_views, unsigned_of,
    verify_signed_event_signature, NostrUnsignedEvent,
};
use crate::nostr_signer::{parse_nostr_public_key, public_key_hex, Nip46DelegateConfig};

verus! {

/// The event kind NIP-46 requests and answers travel in.
pub const NIP46_EVENT_KIND: u16 = 24133;

/// What NIP-44 (version 2) decryption of `payload` gives under the
/// conversation key of the secp256k1 secret `secret` and the x-only key
/// written in hexadecimal `public`; none where a key or the payload is
/// refused.
pub uninterp spec fn nip44_plaintext(secret: Seq<u8>, public: Seq<char>, payload: Seq<char>) -> Option<Seq<char>>;

/// Seals `plaintext` for `public` with NIP-44 version 2.
///
/// Calls `nostr::nips::nip44::encrypt`, which draws a fresh random nonce, so
/// nothing names the payload; what holds of every payload it gives is that
/// decryption under the same pair of keys gives the plaintext back (both
/// directions derive the same conversation key). Whether it succeeds turns on
/// the arguments alone: it succeeds where the secret is a valid secp256k1
/// secret, `public` is the hexadecimal of a curve point's x coordinate (the
/// shared point is derived from it) and the plaintext is neither empty nor
/// over the size bound stated (well under NIP-44's limit of `u32::MAX`
/// bytes). The error is the outside error's text. The payload buffer is
/// reserved with `try_reserve_exact`; that the allocator grants it is taken
/// for granted here, as every allocation in this library is.
#[verifier::external_body]
fn nip44_encrypt(secret: &[u8; 32], public: &str, plaintext: &str) -> (r: Result<String, String>)
    ensures
        r matches Ok(c) ==> nip44_plaintext(secret@, public@, c@) == Some(plaintext@),
        secp_xonly_public(secret@) is Some && 0 < plaintext@.len() <= 0x100_0000
            && (unhex_spec(public@) matches Some(b) && b.len() == 32 && secp_xonly_key(b)) ==> r is Ok,
{
    let secret_key = match ::nostr::key::SecretKey::from_slice(secret) {
        Ok(key) => key,
        Err(error) => return Err(error.to_string()),
    };
    let public_key = match ::nostr::key::PublicKey::from_hex(public) {
        Ok(key) => key,
        Err(error) => return Err(error.to_string()),
    };
    match ::nostr::nips::nip44::encrypt(&secret_key, &public_key, plaintext, ::nostr::nips::nip44::Version::V2) {
        Ok(payload) => Ok(payload),
        Err(error) => Err(error.to_string()),
    }
}

/// Opens a NIP-44 payload.
///
/// Calls `nostr::nips::nip44::decrypt` with the keys read by
/// `SecretKey::from_slice` and `PublicKey::from_hex`: the plaintext is the
/// name `nip44_plaintext`, and an error comes exactly where the name is none.
#[verifier::external_body]
fn nip44_decrypt(secret: &[u8; 32], public: &str, payload: &str) -> (r: Result<String, String>)
    ensures
        match r {
            Ok(t) => nip44_plaintext(secret@, public@, payload@) == Some(t@),
            Err(_) => nip44_plaintext(secret@, public@, payload@) is None,
        },
{
    let secret_key = match ::nostr::key::SecretKey::from_slice(secret) {
        Ok(key) => key,
        Err(error) => return Err(error.to_string()),
    };
    let public_key = match ::nostr::key::PublicKey::from_hex(public) {
        Ok(key) => key,
        Err(error) => return Err(error.to_string()),
    };
    match ::nostr::nips::nip44::decrypt(&secret_key, &public_key, payload) {
        Ok(text) => Ok(text),
        Err(error) => Err(error.to_string()),
    }
}

/// The JSON-RPC payload of a call: `{"id":..,"method":..,"params":[..]}`,
/// written compactly with its keys in order; each parameter is given as the
/// compact JSON text of its value.
pub open spec fn rpc_payload(request_id: Seq<char>, method: Seq<char>, params: Seq<String>) -> Seq<char> {
    "{\"id\":"@ + json_quoted(request_id) + ",\"method\":"@ + json_quoted(method) + ",\"params\":"@
        + json_array(params.map_values(|p: String| p@)) + "}"@
}

/// The id of the subscription that waits for the answer to a call.
pub open spec fn rpc_subscription_id(request_id: Seq<char>) -> Seq<char> {
    "nip46-"@ + request_id
}

/// The `REQ` frame that subscribes to the signer's kind-24133 events that
/// name the session key.
pub open spec fn rpc_subscribe_frame(subscription_id: Seq<char>, signer: Seq<char>, session: Seq<char>) -> Seq<char> {
    "[\"REQ\","@ + json_quoted(subscription_id) + ",{\"#p\":["@ + json_quoted(session) + "],\"authors\":["@
        + json_quoted(signer) + "],\"kinds\":[24133]}]"@
}

/// The request event of a call: kind 24133 at `now`, tagged with the
/// signer, carrying the sealed payload, and signed by the session key.
pub open spec fn rpc_request_event(
    e: NostrSignedEvent,
    secret: Seq<u8>,
    session: Seq<u8>,
    signer: Seq<char>,
    now: u64,
    payload: Seq<char>,
) -> bool {
    let pubkey = hex_spec(session);
    let hash = sha256_of_text(event_text(pubkey, unsigned_of(e)));
    let signature = schnorr_signature(secret, hash);
    &&& e.kind == NIP46_EVENT_KIND
    &&& e.created_at == now
    &&& tag_views(e.tags@) == seq![seq!["p"@, signer]]
    &&& e.pubkey@ == pubkey
    &&& nip44_plaintext(secret, signer, e.content@) == Some(payload)
    &&& e.event_id@ == hex_spec(hash)
    &&& e.signature@ == hex_spec(signature)
    &&& schnorr_accepts(session, hash, signature)
}

/// What a call sends: the subscription it waits on, the frame that opens
/// it, and the signed request event.
pub struct Nip46RpcRequest {
    pub subscription_id: String,
    pub subscribe_frame: String,
    pub event: NostrSignedEvent,
}

fn subscribe_frame(subscription_id: &str, signer: &str, session: &str) -> (r: String)
    ensures
        r@ == rpc_subscribe_frame(subscription_id@, signer@, session@),
{
    let mut out = owned("[\"REQ\",");
    out.append(json_string(subscription_id).as_str());
    out.append(",{\"#p\":[");
    out.append(json_string(session).as_str());
    out.append("],\"authors\":[");
    out.append(json_string(signer).as_str());
    out.append("],\"kinds\":[24133]}]");
    out
}

fn payload_text(request_id: &str, method: &str, params: &Vec<String>) -> (r: String)
    ensures
        r@ == rpc_payload(request_id@, method@, params@),
{
    let mut out = owned("{\"id\":");
    out.append(json_string(request_id).as_str());
    out.append(",\"method\":");
    out.append(json_string(method).as_str());
    out.append(",\"params\":");
    push_all(&mut out, params);
    out.append("}");
    out
}

/// Prepares the call `method(params)` with id `request_id` to the signer
/// `config` names, from the session key `session_secret`, at `now_secs`.
/// Refused where the signer's key does not parse or the session secret is no
/// valid secp256k1 secret; otherwise only sealing the payload can fail, which
/// it does not where the signer's key is a curve point and the payload is
/// within the sealing size bound.
pub fn nip46_rpc_request(
    config: &Nip46DelegateConfig,
    session_secret: &[u8; 32],
    request_id: &str,
    method: &str,
    params: &Vec<String>,
    now_secs: u64,
) -> (r: Result<Nip46RpcRequest, NostrCoreError>)
    ensures
        match public_key_hex(config.signer_pubkey@) {
            Err(m) => r matches Err(NostrCoreError::ValidationFailed(e)) && e@ == m,
            Ok(signer) => match secp_xonly_public(session_secret@) {
                None => r matches Err(NostrCoreError::ValidationFailed(e)) && e@ == "invalid nip46 session secret"@,
                Some(session) => (unhex_spec(signer) matches Some(b) && secp_xonly_key(b)
                    && rpc_payload(request_id@, method@, params@).len() <= 0x100_0000 ==> r is Ok) && match r {
                    Ok(q) => {
                        &&& q.subscription_id@ == rpc_subscription_id(request_id@)
                        &&& q.subscribe_frame@ == rpc_subscribe_frame(rpc_subscription_id(request_id@), signer, hex_spec(session))
                        &&& rpc_request_event(q.event, session_secret@, session, signer, now_secs,
                            rpc_payload(request_id@, method@, params@))
                    },
                    Err(e) => e matches NostrCoreError::BackendUnavailable(m)
                        && m@.len() >= 22 && m@.subrange(0, 22) == "nip44 encrypt failed: "@,
                },
            },
        },
{
    let signer = match parse_nostr_public_key(config.signer_pubkey.as_str()) {
        Ok(signer) => signer,
        Err(error) => return Err(error),
    };
    let session = match secp_public_key(session_secret) {
        Some(session) => session,
        None => return Err(NostrCoreError::ValidationFailed(owned("invalid nip46 session secret"))),
    };
    let session_hex = encode_hex(session.as_slice());
    let payload = payload_text(request_id, method, params);
    proof {
        reveal_strlit("{\"id\":");
        assert(payload@.len() > 0);
    }
    let content = match nip44_encrypt(session_secret, signer.as_str(), payload.as_str()) {
        Ok(content) => content,
        Err(error) => {
            let message = join2("nip44 encrypt failed: ", error.as_str());
            proof {
                reveal_strlit("nip44 encrypt failed: ");
                assert(message@.subrange(0, 22) =~= "nip44 encrypt failed: "@);
            }
            return Err(NostrCoreError::BackendUnavailable(message));
        },
    };
    let subscription_id = join2("nip46-", request_id);
    let subscribe_frame = subscribe_frame(subscription_id.as_str(), signer.as_str(), session_hex.as_str());
    let mut tag: Vec<String> = Vec::new();
    tag.push(owned("p"));
    tag.push(owned(signer.as_str()));
    let ghost tag_view = tag@.map_values(|s: String| s@);
    assert(tag_view =~= seq!["p"@, signer@]);
    let mut tags: Vec<Vec<String>> = Vec::new();
    tags.push(tag);
    assert(tag_views(tags@) =~= seq![tag_view]);
    let unsigned = NostrUnsignedEvent { created_at: now_secs, kind: NIP46_EVENT_KIND, content, tags };
    let hash = canonical_event_hash(session_hex.as_str(), &unsigned);
    let signature = match schnorr_sign(session_secret, &hash) {
        Some(signature) => signature,
        None => return Err(NostrCoreError::ValidationFailed(owned("invalid nip46 session secret"))),
    };
    let event = NostrSignedEvent {
        event_id: encode_hex(hash.as_slice()),
        pubkey: session_hex,
        signature: encode_hex(signature.as_slice()),
        created_at: unsigned.created_at,
        kind: unsigned.kind,
        content: unsigned.content,
        tags: unsigned.tags,
    };
    proof {
        assert(tag_views(event.tags@) =~= seq![seq!["p"@, signer@]]);
        assert(unsigned_of(event) == unsigned);
    }
    Ok(Nip46RpcRequest { subscription_id, subscribe_frame, event })
}

/// Whether a tag names `key` as its `p` (the party an event is for).
pub open spec fn names_party(tags: Seq<Seq<Seq<char>>>, key: Seq<char>) -> bool {
    exists|i: int| 0 <= i < tags.len() && #[trigger] tags[i].len() >= 2 && tags[i][0] == "p"@ && tags[i][1] == key
}

/// Whether an event that arrived on a call's subscription is the signer's
/// answer to the session: signed by the signer, for the session key.
pub fn nip46_answer_accepted(event: &NostrSignedEvent, signer: &str, session: &str) -> (r: bool)
    ensures
        r == (event.pubkey@ == signer@ && names_party(tag_views(event.tags@), session@)
            && signed_event_valid(*event, signer@)),
{
    if !crate::text::str_eq(event.pubkey.as_str(), signer) {
        return false;
    }
    let ghost tags = tag_views(event.tags@);
    let mut found = false;
    let mut i: usize = 0;
    while i < event.tags.len()
        invariant
            i <= event.tags@.len(),
            tags == tag_views(event.tags@),
            found == exists|k: int| 0 <= k < i && #[trigger] tags[k].len() >= 2 && tags[k][0] == "p"@ && tags[k][1] == session@,
        decreases event.tags@.len() - i,
    {
        let tag = &event.tags[i];
        assert(tags[i as int] == tag@.map_values(|s: String| s@));
        if tag.len() >= 2 && crate::text::str_eq(tag[0].as_str(), "p") && crate::text::str_eq(tag[1].as_str(), session) {
            found = true;
        }
        proof {
            reveal_strlit("p");
        }
        i = i + 1;
    }
    if !found {
        return false;
    }
    verify_signed_event_signature(event, signer)
}

/// Opens the sealed content of the signer's answer event.
pub fn nip46_open_response(session_secret: &[u8; 32], signer: &str, content: &str) -> (r: Result<String, NostrCoreError>)
    ensures
        match nip44_plaintext(session_secret@, signer@, content@) {
            Some(t) => r matches Ok(s) && s@ == t,
            None => r matches Err(NostrCoreError::BackendUnavailable(m))
                && m@.len() >= 22 && m@.subrange(0, 22) == "nip44 decrypt failed: "@,
        },
{
    match nip44_decrypt(session_secret, signer, content) {
        Ok(text) => Ok(text),
        Err(error) => {
            let message = join2("nip44 decrypt failed: ", error.as_str());
            proof {
                reveal_strlit("nip44 decrypt failed: ");
                assert(message@.subrange(0, 22) =~= "nip44 decrypt failed: "@);
            }
            Err(NostrCoreError::BackendUnavailable(message))
        },
    }
}

/// What an answer to the call `request_id` gives, from the fields of its
/// JSON-RPC payload: its `id` (where it is a string), its `error` and its
/// `result` (each as JSON text, where present).
pub open spec fn rpc_response_spec(
    request_id: Seq<char>,
    id: Option<Seq<char>>,
    error: Option<Seq<char>>,
    result: Option<Seq<char>>,
) -> Result<Seq<char>, (bool, Seq<char>)> {
    if id != Some(request_id) {
        Err((true, "nip46 response id mismatch"@))
    } else if error is Some {
        Err((false, "nip46 signer error: "@ + error->0))
    } else if result is None {
        Err((true, "nip46 response missing result"@))
    } else {
        Ok(result->0)
    }
}

/// Checks an answer: its id must be the call's, it must carry no error, and
/// it must carry a result, which is given back.
pub fn nip46_rpc_response(
    request_id: &str,
    id: Option<String>,
    error: Option<String>,
    result: Option<String>,
) -> (r: Result<String, NostrCoreError>)
    ensures
        match rpc_response_spec(
            request_id@,
            match id { Some(s) => Some(s@), None => None },
            match error { Some(s) => Some(s@), None => None },
            match result { Some(s) => Some(s@), None => None },
        ) {
            Ok(t) => r matches Ok(s) && s@ == t,
            Err((true, m)) => r matches Err(NostrCoreError::ValidationFailed(e)) && e@ == m,
            Err((false, m)) => r matches Err(NostrCoreError::BackendUnavailable(e)) && e@ == m,
        },
{
    let matches = match &id {
        Some(i) => crate::text::str_eq(i.as_str(), request_id),
        None => false,
    };
    if !matches {
        return Err(NostrCoreError::ValidationFailed(owned("nip46 response id mismatch")));
    }
    if let Some(e) = error {
        return Err(NostrCoreError::BackendUnavailable(join2("nip46 signer error: ", e.as_str())));
    }
    match result {
        Some(value) => Ok(value),
        None => Err(NostrCoreError::ValidationFailed(owned("nip46 response missing result"))),
    }
}

} // verus!
