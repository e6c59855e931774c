//! Signing nostr events with the host's user keys: the event's canonical
//! serialization, its id (the SHA-256 of that text) and its BIP-340 signature.

use vstd::prelude::*;
use crate::text::{trim, trim_seq, join3, clone_strings, has_prefix, trim_start_matches, trim_start_matches_seq};
use crate::hex::{encode_hex, decode_hex, hex_spec, unhex_spec, lemma_hex_digits, is_lower_hex_digit, law_hex_roundtrip};
use crate::nostr::{decimal, decimal_spec, NostrCoreError, NostrCoreRegistry, NostrSignedEvent, delegated_refusal, error_is};
use crate::nostr_signer::NostrSignerBackend;
use crate::crypto::{json_quoted, json_string, sha256_of_text, sha256_text, schnorr_signature, schnorr_accepts, schnorr_verify};
use crate::identity::{IdentityRegistry, resolved_user, signature_text, SIGNATURE_PREFIX};

verus! {

pub struct NostrUnsignedEvent {
    pub created_at: u64,
    pub kind: u16,
    pub content: String,
    pub tags: Vec<Vec<String>>,
}

/// The text of each string of each tag.
pub open spec fn tag_views(tags: Seq<Vec<String>>) -> Seq<Seq<Seq<char>>> {
    tags.map_values(|t: Vec<String>| t@.map_values(|s: String| s@))
}

/// Items joined by commas.
pub open spec fn comma_joined(items: Seq<Seq<char>>) -> Seq<char>
    decreases items.len(),
{
    if items.len() == 0 {
        Seq::empty()
    } else if items.len() == 1 {
        items[0]
    } else {
        comma_joined(items.drop_last()).push(',') + items.last()
    }
}

/// A JSON array of already written items.
pub open spec fn json_array(items: Seq<Seq<char>>) -> Seq<char> {
    seq!['['] + comma_joined(items) + seq![']']
}

/// A tag as a JSON array of strings.
pub open spec fn tag_json(tag: Seq<String>) -> Seq<char> {
    json_array(tag.map_values(|s: String| json_quoted(s@)))
}

/// The tags as a JSON array of arrays.
pub open spec fn tags_json(tags: Seq<Vec<String>>) -> Seq<char> {
    json_array(tags.map_values(|t: Vec<String>| tag_json(t@)))
}

/// The text an event id is the hash of (NIP-01): the JSON array
/// `[0, pubkey, created_at, kind, tags, content]`, written compactly.
pub open spec fn event_text(pubkey: Seq<char>, e: NostrUnsignedEvent) -> Seq<char> {
    seq!['[', '0', ','] + json_quoted(pubkey) + seq![','] + decimal_spec(e.created_at) + seq![',']
        + decimal_spec(e.kind as u64) + seq![','] + tags_json(e.tags@) + seq![','] + json_quoted(e.content@)
        + seq![']']
}

pub(crate) fn push_all(out: &mut String, items: &Vec<String>)
    ensures
        final(out)@ == old(out)@ + json_array(items@.map_values(|s: String| s@)),
{
    let ghost start = out@;
    let ghost views = items@.map_values(|s: String| s@);
    out.push('[');
    let mut i: usize = 0;
    while i < items.len()
        invariant
            i <= items@.len(),
            views == items@.map_values(|s: String| s@),
            out@ == start.push('[') + comma_joined(views.subrange(0, i as int)),
        decreases items@.len() - i,
    {
        let ghost pre = views.subrange(0, i + 1);
        assert(pre.drop_last() == views.subrange(0, i as int));
        if i > 0 {
            out.push(',');
        }
        out.append(items[i].as_str());
        proof {
            if i == 0 {
                assert(pre.len() == 1);
                assert(comma_joined(views.subrange(0, 0)) == Seq::<char>::empty());
            }
        }
        assert(out@ =~= start.push('[') + comma_joined(pre));
        i = i + 1;
    }
    assert(views.subrange(0, items@.len() as int) == views);
    out.push(']');
    assert(out@ =~= start + json_array(views));
}

fn tag_text(tag: &Vec<String>) -> (r: String)
    ensures
        r@ == tag_json(tag@),
{
    let mut quoted: Vec<String> = Vec::new();
    let mut i: usize = 0;
    while i < tag.len()
        invariant
            i <= tag@.len(),
            quoted@.map_values(|s: String| s@) == tag@.subrange(0, i as int).map_values(|s: String| json_quoted(s@)),
        decreases tag@.len() - i,
    {
        quoted.push(json_string(tag[i].as_str()));
        assert(tag@.subrange(0, i + 1).map_values(|s: String| json_quoted(s@))
            =~= tag@.subrange(0, i as int).map_values(|s: String| json_quoted(s@)).push(json_quoted(tag@[i as int]@)));
        assert(quoted@.map_values(|s: String| s@)
            =~= tag@.subrange(0, i + 1).map_values(|s: String| json_quoted(s@)));
        i = i + 1;
    }
    assert(tag@.subrange(0, tag@.len() as int) == tag@);
    let mut out = String::new();
    push_all(&mut out, &quoted);
    out
}

fn tags_text(tags: &Vec<Vec<String>>) -> (r: String)
    ensures
        r@ == tags_json(tags@),
{
    let mut written: Vec<String> = Vec::new();
    let mut i: usize = 0;
    while i < tags.len()
        invariant
            i <= tags@.len(),
            written@.map_values(|s: String| s@) == tags@.subrange(0, i as int).map_values(|t: Vec<String>| tag_json(t@)),
        decreases tags@.len() - i,
    {
        written.push(tag_text(&tags[i]));
        assert(tags@.subrange(0, i + 1).map_values(|t: Vec<String>| tag_json(t@))
            =~= tags@.subrange(0, i as int).map_values(|t: Vec<String>| tag_json(t@)).push(tag_json(tags@[i as int]@)));
        assert(written@.map_values(|s: String| s@)
            =~= tags@.subrange(0, i + 1).map_values(|t: Vec<String>| tag_json(t@)));
        i = i + 1;
    }
    assert(tags@.subrange(0, tags@.len() as int) == tags@);
    let mut out = String::new();
    push_all(&mut out, &written);
    out
}

/// The canonical text of an event signed by `pubkey`.
pub fn canonical_event_text(pubkey: &str, unsigned: &NostrUnsignedEvent) -> (r: String)
    ensures
        r@ == event_text(pubkey@, *unsigned),
{
    let mut out = String::new();
    out.push('[');
    out.push('0');
    out.push(',');
    out.append(json_string(pubkey).as_str());
    out.push(',');
    out.append(decimal(unsigned.created_at).as_str());
    out.push(',');
    out.append(decimal(unsigned.kind as u64).as_str());
    out.push(',');
    out.append(tags_text(&unsigned.tags).as_str());
    out.push(',');
    out.append(json_string(unsigned.content.as_str()).as_str());
    out.push(']');
    assert(out@ =~= event_text(pubkey@, *unsigned));
    out
}

/// The hash an event id is written from.
pub fn canonical_event_hash(pubkey: &str, unsigned: &NostrUnsignedEvent) -> (r: [u8; 32])
    ensures
        r@ == sha256_of_text(event_text(pubkey@, *unsigned)),
{
    sha256_text(canonical_event_text(pubkey, unsigned).as_str())
}

/// `text` without its leading "sig:" where it has one.
fn strip_signature_prefix(text: &str) -> (r: String)
    ensures
        forall|b: Seq<u8>| text@ == #[trigger] signature_text(b) ==> r@ == hex_spec(b),
{
    let r = trim_start_matches(text, SIGNATURE_PREFIX);
    proof {
        reveal_strlit("sig:");
        assert forall|b: Seq<u8>| text@ == #[trigger] signature_text(b) implies r@ == hex_spec(b) by {
            let t = signature_text(b);
            assert(t.subrange(0, 4) == SIGNATURE_PREFIX@);
            assert(t.subrange(4, t.len() as int) == hex_spec(b));
            let h = hex_spec(b);
            lemma_hex_digits(b);
            if has_prefix(h, SIGNATURE_PREFIX@) {
                assert(is_lower_hex_digit(h[0]));
                assert(h.subrange(0, 4)[0] == h[0]);
                assert(false);
            }
            assert(has_prefix(t, SIGNATURE_PREFIX@));
            assert(trim_start_matches_seq(h, SIGNATURE_PREFIX@) == h);
            assert(trim_start_matches_seq(t, SIGNATURE_PREFIX@) == trim_start_matches_seq(h, SIGNATURE_PREFIX@));
        }
    }
    r
}

/// What signing an event for `persona` gives, with the host's user keys.
pub open spec fn sign_event_post(
    granted: bool,
    backend: NostrSignerBackend,
    identity: IdentityRegistry,
    persona: Seq<char>,
    unsigned: NostrUnsignedEvent,
    r: Result<NostrSignedEvent, NostrCoreError>,
) -> bool {
    let keys = identity.user_personas();
    let res = resolved_user(keys, identity.user_fallback(), persona);
    if !granted {
        crate::nostr::capability_error(r, "identity:nostr-sign"@)
    } else if trim_seq(persona).len() == 0 {
        r matches Err(NostrCoreError::ValidationFailed(m)) && m@ == "persona must not be empty"@
    } else if delegated_refusal(backend, unsigned.kind) is Some {
        r matches Err(e) && error_is(e, delegated_refusal(backend, unsigned.kind)->0)
    } else if !keys.dom().contains(res) {
        r matches Err(NostrCoreError::ValidationFailed(m))
            && m@ == "verifying key unavailable for persona '"@ + persona + "'"@
    } else if keys[res].secret is None {
        r matches Err(NostrCoreError::ValidationFailed(m))
            && m@ == "identity key unavailable for persona '"@ + persona + "'"@
    } else {
        let pubkey = hex_spec(keys[res].public_key@);
        let hash = sha256_of_text(event_text(pubkey, unsigned));
        let signature = schnorr_signature(keys[res].secret->0@, hash);
        r matches Ok(e) && {
            &&& signature.len() == 64
            &&& keys[res].public_key@.len() == 32
            &&& e.pubkey@ == pubkey
            &&& e.event_id@ == hex_spec(hash)
            &&& e.signature@ == hex_spec(signature)
            &&& e.created_at == unsigned.created_at
            &&& e.kind == unsigned.kind
            &&& e.content@ == unsigned.content@
            &&& tag_views(e.tags@) == tag_views(unsigned.tags@)
            &&& schnorr_accepts(keys[res].public_key@, hash, signature)
        }
    }
}

impl NostrCoreRegistry {
    /// Signs an event with the user key `persona` resolves to: the id is the
    /// SHA-256 of the event's canonical text, the signature BIP-340 Schnorr
    /// over that hash.
    pub fn sign_event(
        &self,
        identity: &IdentityRegistry,
        persona: &str,
        unsigned: &NostrUnsignedEvent,
    ) -> (r: Result<NostrSignedEvent, NostrCoreError>)
        ensures
            sign_event_post(self.grants("identity:nostr-sign"@), self.signer(), *identity, persona@, *unsigned, r),
    {
        if let Err(error) = self.ensure_capability("identity:nostr-sign") {
            return Err(error);
        }
        if trim(persona).unicode_len() == 0 {
            return Err(NostrCoreError::ValidationFailed(crate::text::owned("persona must not be empty")));
        }
        if let Some(error) = self.delegated_sign_refusal(unsigned.kind) {
            return Err(error);
        }
        let pubkey = match identity.nostr_public_key_hex_for(persona) {
            Some(pubkey) => pubkey,
            None => {
                return Err(NostrCoreError::ValidationFailed(
                    join3("verifying key unavailable for persona '", persona, "'"),
                ));
            },
        };
        let hash = canonical_event_hash(pubkey.as_str(), unsigned);
        let signature = match identity.sign_user_digest(persona, &hash) {
            Some(signature) => signature,
            None => {
                return Err(NostrCoreError::ValidationFailed(
                    join3("identity key unavailable for persona '", persona, "'"),
                ));
            },
        };
        let event_id = encode_hex(hash.as_slice());
        let signature = strip_signature_prefix(signature.as_str());
        Ok(NostrSignedEvent {
            event_id,
            pubkey,
            signature,
            created_at: unsigned.created_at,
            kind: unsigned.kind,
            content: unsigned.content.clone(),
            tags: clone_tags(&unsigned.tags),
        })
    }
}

pub(crate) fn clone_tags(tags: &Vec<Vec<String>>) -> (r: Vec<Vec<String>>)
    ensures
        tag_views(r@) == tag_views(tags@),
{
    let mut out: Vec<Vec<String>> = Vec::new();
    let mut i: usize = 0;
    while i < tags.len()
        invariant
            i <= tags@.len(),
            tag_views(out@) == tag_views(tags@.subrange(0, i as int)),
        decreases tags@.len() - i,
    {
        let ghost prev = out@;
        let c = clone_strings(&tags[i]);
        out.push(c);
        assert(tag_views(out@) =~= tag_views(prev).push(c@.map_values(|s: String| s@)));
        assert(tags@.subrange(0, i + 1) =~= tags@.subrange(0, i as int).push(tags@[i as int]));
        assert(tag_views(tags@.subrange(0, i + 1))
            =~= tag_views(tags@.subrange(0, i as int)).push(tags@[i as int]@.map_values(|s: String| s@)));
        i = i + 1;
    }
    assert(tags@.subrange(0, tags@.len() as int) == tags@);
    out
}

/// The unsigned event a signed one carries.
pub open spec fn unsigned_of(e: NostrSignedEvent) -> NostrUnsignedEvent {
    NostrUnsignedEvent { created_at: e.created_at, kind: e.kind, content: e.content, tags: e.tags }
}

/// Whether a signed event checks out against an expected signer: the key is
/// the expected one, the id is the hash of the event's canonical text, and
/// the signature verifies on it.
pub open spec fn signed_event_valid(e: NostrSignedEvent, expected_pubkey: Seq<char>) -> bool {
    &&& e.pubkey@ == expected_pubkey
    &&& unhex_spec(e.signature@) matches Some(sig)
    &&& sig.len() == 64
    &&& unhex_spec(e.pubkey@) matches Some(pk)
    &&& pk.len() == 32
    &&& e.event_id@ == hex_spec(sha256_of_text(event_text(e.pubkey@, unsigned_of(e))))
    &&& schnorr_accepts(pk, sha256_of_text(event_text(e.pubkey@, unsigned_of(e))), sig)
}

/// Checks a signed event (see `signed_event_valid`).
pub fn verify_signed_event_signature(signed: &NostrSignedEvent, expected_pubkey: &str) -> (r: bool)
    ensures
        r == signed_event_valid(*signed, expected_pubkey@),
{
    if !crate::text::str_eq(signed.pubkey.as_str(), expected_pubkey) {
        return false;
    }
    let signature = match decode_hex(signed.signature.as_str()) {
        Some(bytes) => if bytes.len() == 64 {
            crate::identity::to_array64(bytes.as_slice())
        } else {
            return false;
        },
        None => return false,
    };
    let public = match decode_hex(signed.pubkey.as_str()) {
        Some(bytes) => if bytes.len() == 32 {
            crate::identity::to_array32(bytes.as_slice())
        } else {
            return false;
        },
        None => return false,
    };
    let unsigned = NostrUnsignedEvent {
        created_at: signed.created_at,
        kind: signed.kind,
        content: crate::text::owned(signed.content.as_str()),
        tags: clone_tags(&signed.tags),
    };
    proof {
        lemma_event_text_views(signed.pubkey@, unsigned, unsigned_of(*signed));
    }
    let digest = canonical_event_hash(signed.pubkey.as_str(), &unsigned);
    if !crate::text::str_eq(signed.event_id.as_str(), encode_hex(digest.as_slice()).as_str()) {
        return false;
    }
    schnorr_verify(&public, &digest, &signature)
}

/// The canonical text depends only on the text of the content and tags.
pub proof fn lemma_event_text_views(pubkey: Seq<char>, a: NostrUnsignedEvent, b: NostrUnsignedEvent)
    requires
        a.created_at == b.created_at,
        a.kind == b.kind,
        a.content@ == b.content@,
        tag_views(a.tags@) == tag_views(b.tags@),
    ensures
        event_text(pubkey, a) == event_text(pubkey, b),
{
    let ta = a.tags@.map_values(|t: Vec<String>| tag_json(t@));
    let tb = b.tags@.map_values(|t: Vec<String>| tag_json(t@));
    assert(a.tags@.len() == tag_views(a.tags@).len());
    assert forall|i: int| 0 <= i < ta.len() implies ta[i] == tb[i] by {
        assert(tag_views(a.tags@)[i] == tag_views(b.tags@)[i]);
        let x = a.tags@[i]@;
        let y = b.tags@[i]@;
        assert(x.map_values(|s: String| s@) == y.map_values(|s: String| s@));
        assert(x.len() == y.len());
        assert(x.map_values(|s: String| json_quoted(s@)) =~= y.map_values(|s: String| json_quoted(s@))) by {
            assert forall|k: int| 0 <= k < x.len() implies json_quoted(x[k]@) == json_quoted(y[k]@) by {
                assert(x.map_values(|s: String| s@)[k] == y.map_values(|s: String| s@)[k]);
            }
        }
    }
    assert(ta =~= tb);
}

/// An event the host signs checks out against its own key.
pub proof fn law_signed_event_verifies(
    granted: bool,
    backend: NostrSignerBackend,
    identity: IdentityRegistry,
    persona: Seq<char>,
    unsigned: NostrUnsignedEvent,
    r: Result<NostrSignedEvent, NostrCoreError>,
)
    requires
        sign_event_post(granted, backend, identity, persona, unsigned, r),
        r is Ok,
    ensures
        signed_event_valid(r->Ok_0, r->Ok_0.pubkey@),
{
    let e = r->Ok_0;
    let keys = identity.user_personas();
    let res = resolved_user(keys, identity.user_fallback(), persona);
    let public = keys[res].public_key@;
    let hash = sha256_of_text(event_text(hex_spec(public), unsigned));
    let sig = schnorr_signature(keys[res].secret->0@, hash);
    law_hex_roundtrip(sig);
    law_hex_roundtrip(public);
    lemma_event_text_views(e.pubkey@, unsigned, unsigned_of(e));
}

} // verus!
