//! Personas and their keys: Ed25519 keys that sign payloads for the host, and
//! secp256k1 user keys that sign nostr digests and presence bindings.
//!
//! Key material lives here as bytes; the files it is kept in are read and
//! written around this module, which parses and formats their contents.

use vstd::prelude::*;
use crate::text::{
    trim, lower, trim_seq, lower_seq, has_prefix, strip_prefix, join2, owned, lemma_trim_noop, lemma_trim_idempotent,
};
use crate::hex::{encode_hex, decode_hex, hex_spec, unhex_spec, law_hex_roundtrip, lemma_hex_len, lemma_hex_digits, is_lower_hex_digit};
use crate::table::Table;
use crate::trust::{AccessLevel, PeerView, TrustStore, TrustedPeer, granted, peer_view, peers_view, trusted_all, ungranted, without_peer};
use crate::nostr::{decimal, decimal_spec};
use crate::crypto::{
    ed25519_public, ed25519_signature, ed25519_accepts, secp_xonly_public, schnorr_signature,
    schnorr_accepts, sha256_of_text, random_seed, random_secp_secret, ed25519_public_key, ed25519_sign,
    ed25519_signature_from_slice, ed25519_verify, secp_public_key, schnorr_sign, schnorr_verify,
    sha256_text, ed25519_point, ed25519_key_valid,
};

verus! {

pub const IDENTITY_ID_DEFAULT: &'static str = "identity:default";
pub const IDENTITY_ID_P2P: &'static str = "identity:p2p";
pub const IDENTITY_ID_LOCKED: &'static str = "identity:locked";
pub const PRESENCE_BINDING_VERSION: &'static str = "graphshell.presence_binding.v1";
pub const SIGNATURE_PREFIX: &'static str = "sig:";

#[derive(Debug, Clone, Copy, PartialEq, Eq, Structural)]
pub enum KeyProtection {
    Unprotected,
    Ephemeral,
}

#[derive(Debug, Clone, Copy, PartialEq, Eq, Structural)]
pub enum UserIdentityProtocol {
    LocalNostrSecp256k1,
    NostrPubkey,
    DidPlc,
}

#[derive(Debug)]
pub enum IdentityKeyError {
    InvalidKeyMaterial,
    Io(String),
    PersonaLocked,
    PersonaMissing(String),
}

impl IdentityKeyError {
    /// The error's text.
    pub fn message(&self) -> (r: String)
        ensures
            self matches IdentityKeyError::Io(m) ==> r@ == m@,
            self matches IdentityKeyError::PersonaMissing(id) ==> r@ == "missing persona: "@ + id@,
            self is InvalidKeyMaterial ==> r@ == "invalid key material"@,
            self is PersonaLocked ==> r@ == "persona is locked"@,
    {
        match self {
            IdentityKeyError::InvalidKeyMaterial => owned("invalid key material"),
            IdentityKeyError::Io(m) => owned(m.as_str()),
            IdentityKeyError::PersonaLocked => owned("persona is locked"),
            IdentityKeyError::PersonaMissing(id) => join2("missing persona: ", id.as_str()),
        }
    }
}

/// An Ed25519 persona: its signing seed (none once locked or revoked), its
/// verifying key, and the verifying keys it had before.
pub struct IdentityKey {
    pub seed: Option<[u8; 32]>,
    pub verifying_key: [u8; 32],
    pub archived_verifying_keys: Vec<[u8; 32]>,
    pub protection: KeyProtection,
}

/// A secp256k1 user key: its secret (where held) and its x-only public key.
pub struct UserIdentityKey {
    pub secret: Option<[u8; 32]>,
    pub public_key: [u8; 32],
    pub protection: KeyProtection,
}

pub struct IdentityResolution {
    pub requested_id: String,
    pub resolved_id: String,
    pub matched: bool,
    pub key_available: bool,
}

pub struct IdentitySignResult {
    pub resolution: IdentityResolution,
    pub signature: Option<String>,
    pub verifying_key: Option<String>,
    pub succeeded: bool,
}

pub struct IdentityVerifyResult {
    pub resolution: IdentityResolution,
    pub verified: bool,
}

pub struct UserIdentityClaim {
    pub identity_id: String,
    pub protocol: UserIdentityProtocol,
    pub public_key: String,
}

pub struct PresenceBindingAssertion {
    pub node_id: String,
    pub user_identity: UserIdentityClaim,
    pub issued_at_secs: u64,
    pub expires_at_secs: u64,
    pub audience: String,
    pub signature: String,
}

/// A persona's seed, where held, gives its verifying key.
pub open spec fn persona_wf(k: IdentityKey) -> bool {
    k.seed matches Some(s) ==> k.verifying_key@ == ed25519_public(s@)
}

/// A user key's secret, where held, gives its public key.
pub open spec fn user_key_wf(k: UserIdentityKey) -> bool {
    k.secret matches Some(s) ==> secp_xonly_public(s@) == Some(k.public_key@)
}

/// The form an identity id is looked up in.
pub open spec fn normalized_id(id: Seq<char>) -> Seq<char> {
    lower_seq(trim_seq(id))
}

/// The persona an id resolves to: itself where it names one, the fallback
/// otherwise (a blank id included).
pub open spec fn resolved_persona(keys: Map<Seq<char>, IdentityKey>, fallback: Seq<char>, id: Seq<char>) -> Seq<char> {
    let r = normalized_id(id);
    if r.len() > 0 && keys.dom().contains(r) {
        r
    } else {
        fallback
    }
}

/// The user key an id resolves to, as `resolved_persona` does for personas.
pub open spec fn resolved_user(keys: Map<Seq<char>, UserIdentityKey>, fallback: Seq<char>, id: Seq<char>) -> Seq<char> {
    let r = normalized_id(id);
    if r.len() > 0 && keys.dom().contains(r) {
        r
    } else {
        fallback
    }
}

/// Whether a persona has a signing key at `id`.
pub open spec fn signing_available(keys: Map<Seq<char>, IdentityKey>, id: Seq<char>) -> bool {
    keys.dom().contains(id) && keys[id].seed is Some
}

impl IdentityResolution {
    /// This resolution is the one of `id` against the personas and fallback.
    pub open spec fn describes(self, keys: Map<Seq<char>, IdentityKey>, fallback: Seq<char>, id: Seq<char>) -> bool {
        let r = normalized_id(id);
        &&& self.requested_id@ == r
        &&& self.matched == (r.len() > 0 && keys.dom().contains(r))
        &&& self.resolved_id@ == resolved_persona(keys, fallback, id)
        &&& self.key_available == signing_available(keys, resolved_persona(keys, fallback, id))
    }
}

/// "sig:" followed by the hexadecimal of a signature.
pub open spec fn signature_text(signature: Seq<u8>) -> Seq<char> {
    SIGNATURE_PREFIX@ + hex_spec(signature)
}

/// The bytes a signature text holds: trimmed, without its "sig:", read as
/// hexadecimal.
pub open spec fn signature_bytes(text: Seq<char>) -> Option<Seq<u8>> {
    let t = trim_seq(text);
    if has_prefix(t, SIGNATURE_PREFIX@) {
        unhex_spec(t.subrange(SIGNATURE_PREFIX@.len() as int, t.len() as int))
    } else {
        None
    }
}

/// A signature text that holds exactly 64 bytes.
pub open spec fn signature64(text: Seq<char>) -> Option<Seq<u8>> {
    match signature_bytes(text) {
        Some(b) => if b.len() == 64 {
            Some(b)
        } else {
            None
        },
        None => None,
    }
}

/// Whether the persona's current or an archived verifying key accepts it.
pub open spec fn persona_accepts(k: IdentityKey, payload: Seq<u8>, signature: Seq<u8>) -> bool {
    ||| ed25519_accepts(k.verifying_key@, payload, signature)
    ||| exists|j: int| 0 <= j < k.archived_verifying_keys@.len()
        && ed25519_accepts(#[trigger] k.archived_verifying_keys@[j]@, payload, signature)
}

/// What `IdentityRegistry::sign` returns.
pub open spec fn sign_post(
    keys: Map<Seq<char>, IdentityKey>,
    fallback: Seq<char>,
    id: Seq<char>,
    payload: Seq<u8>,
    r: IdentitySignResult,
) -> bool {
    let res = resolved_persona(keys, fallback, id);
    &&& r.resolution.describes(keys, fallback, id)
    &&& if !keys.dom().contains(res) {
        r.signature is None && r.verifying_key is None && !r.succeeded
    } else {
        let k = keys[res];
        &&& (r.verifying_key matches Some(v) && v@ == hex_spec(k.verifying_key@))
        &&& match k.seed {
            None => r.signature is None && !r.succeeded,
            Some(s) => r.succeeded && (r.signature matches Some(t)
                && t@ == signature_text(ed25519_signature(s@, payload))),
        }
    }
}

/// The signature text `IdentityRegistry::sign` gives, where it signs.
pub open spec fn signed_text(keys: Map<Seq<char>, IdentityKey>, fallback: Seq<char>, id: Seq<char>, payload: Seq<u8>) -> Option<Seq<char>> {
    let res = resolved_persona(keys, fallback, id);
    if signing_available(keys, res) {
        Some(signature_text(ed25519_signature(keys[res].seed->0@, payload)))
    } else {
        None
    }
}

/// The text an optional string holds.
pub open spec fn text_view(o: Option<String>) -> Option<Seq<char>> {
    match o {
        Some(s) => Some(s@),
        None => None,
    }
}

/// Whether `IdentityRegistry::verify` accepts: the id resolves to a persona,
/// the text holds a 64-byte signature, and a key of the persona accepts it.
pub open spec fn verify_spec(
    keys: Map<Seq<char>, IdentityKey>,
    fallback: Seq<char>,
    id: Seq<char>,
    payload: Seq<u8>,
    text: Seq<char>,
) -> bool {
    let res = resolved_persona(keys, fallback, id);
    keys.dom().contains(res) && (signature64(text) matches Some(b) && persona_accepts(keys[res], payload, b))
}

/// The label a protocol is written with in a presence binding.
pub open spec fn protocol_label(p: UserIdentityProtocol) -> Seq<char> {
    match p {
        UserIdentityProtocol::LocalNostrSecp256k1 => "local-nostr-secp256k1"@,
        UserIdentityProtocol::NostrPubkey => "nostr-pubkey"@,
        UserIdentityProtocol::DidPlc => "did-plc"@,
    }
}

pub fn protocol_label_text(p: UserIdentityProtocol) -> (r: &'static str)
    ensures
        r@ == protocol_label(p),
{
    match p {
        UserIdentityProtocol::LocalNostrSecp256k1 => "local-nostr-secp256k1",
        UserIdentityProtocol::NostrPubkey => "nostr-pubkey",
        UserIdentityProtocol::DidPlc => "did-plc",
    }
}

/// `text`, a bar, then `field`.
pub open spec fn bar_join(text: Seq<char>, field: Seq<char>) -> Seq<char> {
    text.push('|') + field
}

impl PresenceBindingAssertion {
    /// The text a presence binding's signature covers: the version, the user
    /// identity's id, protocol and key, the node id, both times and the
    /// audience, joined by bars. The signature itself is not part of it.
    pub open spec fn canonical_text(self) -> Seq<char> {
        bar_join(bar_join(bar_join(bar_join(bar_join(bar_join(bar_join(
            PRESENCE_BINDING_VERSION@,
            self.user_identity.identity_id@),
            protocol_label(self.user_identity.protocol)),
            self.user_identity.public_key@),
            self.node_id@),
            decimal_spec(self.issued_at_secs)),
            decimal_spec(self.expires_at_secs)),
            self.audience@)
    }
}

/// Whether a presence binding holds: signature and audience not blank, not
/// expiring before it is issued, a nostr protocol, a 32-byte hexadecimal
/// public key and a 64-byte signature text that verifies on the SHA-256 of
/// the canonical text.
pub open spec fn presence_valid(a: PresenceBindingAssertion) -> bool {
    &&& trim_seq(a.signature@).len() > 0
    &&& trim_seq(a.audience@).len() > 0
    &&& a.expires_at_secs >= a.issued_at_secs
    &&& !(a.user_identity.protocol is DidPlc)
    &&& unhex_spec(a.user_identity.public_key@) matches Some(pk)
    &&& pk.len() == 32
    &&& signature64(a.signature@) matches Some(sig)
    &&& schnorr_accepts(pk, sha256_of_text(a.canonical_text()), sig)
}

/// `now + max(ttl, 1)`, saturating.
pub open spec fn expiry(now: u64, ttl: u64) -> u64 {
    let d: int = if ttl == 0 { 1 } else { ttl as int };
    if now + d > u64::MAX { u64::MAX } else { (now + d) as u64 }
}

/// The node id the p2p persona gives: the hexadecimal of its verifying key,
/// where it has a signing key.
pub open spec fn p2p_node_hex(keys: Map<Seq<char>, IdentityKey>, fallback: Seq<char>) -> Option<Seq<char>> {
    let res = resolved_persona(keys, fallback, IDENTITY_ID_P2P@);
    if signing_available(keys, res) {
        Some(hex_spec(ed25519_public(keys[res].seed->0@)))
    } else {
        None
    }
}

fn append_field(out: &mut String, field: &str)
    ensures
        final(out)@ == bar_join(old(out)@, field@),
{
    out.push('|');
    out.append(field);
}

/// The canonical text of a presence binding.
pub fn canonical_presence_binding_text(a: &PresenceBindingAssertion) -> (r: String)
    ensures
        r@ == a.canonical_text(),
{
    let mut out = owned(PRESENCE_BINDING_VERSION);
    append_field(&mut out, a.user_identity.identity_id.as_str());
    append_field(&mut out, protocol_label_text(a.user_identity.protocol));
    append_field(&mut out, a.user_identity.public_key.as_str());
    append_field(&mut out, a.node_id.as_str());
    append_field(&mut out, decimal(a.issued_at_secs).as_str());
    append_field(&mut out, decimal(a.expires_at_secs).as_str());
    append_field(&mut out, a.audience.as_str());
    out
}

/// A signature text is its own trim, starts with "sig:", and holds the bytes.
pub proof fn lemma_signature_text(sig: Seq<u8>)
    ensures
        signature_bytes(signature_text(sig)) == Some(sig),
        trim_seq(signature_text(sig)).len() > 0,
{
    reveal_strlit("sig:");
    let t = signature_text(sig);
    lemma_hex_digits(sig);
    lemma_hex_len(sig);
    law_hex_roundtrip(sig);
    if sig.len() > 0 {
        assert(is_lower_hex_digit(hex_spec(sig)[hex_spec(sig).len() - 1]));
        assert(t.last() == hex_spec(sig)[hex_spec(sig).len() - 1]);
    }
    assert(t[0] == 's');
    lemma_trim_noop(t);
    assert(t.subrange(0, 4) == SIGNATURE_PREFIX@);
    assert(t.subrange(4, t.len() as int) == hex_spec(sig));
}

/// `after` is `before` with the persona at `res` given a fresh signing key,
/// its old verifying key archived.
pub open spec fn rotated(before: Map<Seq<char>, IdentityKey>, after: Map<Seq<char>, IdentityKey>, res: Seq<char>) -> bool {
    &&& after == before.insert(res, after[res])
    &&& after[res].seed is Some
    &&& after[res].archived_verifying_keys@ == before[res].archived_verifying_keys@.push(before[res].verifying_key)
    &&& after[res].protection == before[res].protection
}

/// `after` is `before` with the signing key of the persona at `res` dropped,
/// its verifying key archived where it could still sign.
pub open spec fn revoked(before: Map<Seq<char>, IdentityKey>, after: Map<Seq<char>, IdentityKey>, res: Seq<char>) -> bool {
    &&& after == before.insert(res, after[res])
    &&& after[res].seed is None
    &&& after[res].verifying_key == before[res].verifying_key
    &&& after[res].protection == before[res].protection
    &&& after[res].archived_verifying_keys@ == (if before[res].seed is Some {
        before[res].archived_verifying_keys@.push(before[res].verifying_key)
    } else {
        before[res].archived_verifying_keys@
    })
}

/// A signature a persona accepted before its key was rotated it still accepts.
pub proof fn law_rotation_keeps_verification(
    before: Map<Seq<char>, IdentityKey>,
    after: Map<Seq<char>, IdentityKey>,
    fallback: Seq<char>,
    id: Seq<char>,
    payload: Seq<u8>,
    text: Seq<char>,
)
    requires
        before.dom().contains(resolved_persona(before, fallback, id)),
        rotated(before, after, resolved_persona(before, fallback, id)),
        verify_spec(before, fallback, id, payload, text),
    ensures
        verify_spec(after, fallback, id, payload, text),
{
    let res = resolved_persona(before, fallback, id);
    assert(after.dom() =~= before.dom());
    assert(resolved_persona(after, fallback, id) == res);
    let sig = signature64(text)->0;
    let k0 = before[res];
    let k1 = after[res];
    if ed25519_accepts(k0.verifying_key@, payload, sig) {
        assert(k1.archived_verifying_keys@[k0.archived_verifying_keys@.len() as int] == k0.verifying_key);
    } else {
        let j = choose|j: int| 0 <= j < k0.archived_verifying_keys@.len()
            && ed25519_accepts(#[trigger] k0.archived_verifying_keys@[j]@, payload, sig);
        assert(k1.archived_verifying_keys@[j] == k0.archived_verifying_keys@[j]);
    }
}

/// Revoking a persona's key stops it signing, and a signature it accepted
/// before it still accepts.
pub proof fn law_revocation_keeps_verification(
    before: Map<Seq<char>, IdentityKey>,
    after: Map<Seq<char>, IdentityKey>,
    fallback: Seq<char>,
    id: Seq<char>,
    payload: Seq<u8>,
    text: Seq<char>,
)
    requires
        before.dom().contains(resolved_persona(before, fallback, id)),
        revoked(before, after, resolved_persona(before, fallback, id)),
    ensures
        !signing_available(after, resolved_persona(after, fallback, id)),
        verify_spec(before, fallback, id, payload, text) ==> verify_spec(after, fallback, id, payload, text),
{
    let res = resolved_persona(before, fallback, id);
    assert(after.dom() =~= before.dom());
    assert(resolved_persona(after, fallback, id) == res);
    if verify_spec(before, fallback, id, payload, text) {
        let sig = signature64(text)->0;
        let k0 = before[res];
        let k1 = after[res];
        if ed25519_accepts(k0.verifying_key@, payload, sig) {
            if k0.seed is Some {
                assert(k1.archived_verifying_keys@[k0.archived_verifying_keys@.len() as int] == k0.verifying_key);
            }
        } else {
            let j = choose|j: int| 0 <= j < k0.archived_verifying_keys@.len()
                && ed25519_accepts(#[trigger] k0.archived_verifying_keys@[j]@, payload, sig);
            assert(k1.archived_verifying_keys@[j] == k0.archived_verifying_keys@[j]);
        }
    }
}

/// `id` with each ':' written as "__", the stem of a persona's file names.
pub open spec fn colons_replaced(s: Seq<char>) -> Seq<char>
    decreases s.len(),
{
    if s.len() == 0 {
        Seq::empty()
    } else if s.last() == ':' {
        colons_replaced(s.drop_last()) + seq!['_', '_']
    } else {
        colons_replaced(s.drop_last()).push(s.last())
    }
}

/// The stem of a persona's file names.
pub fn persona_file_stem(identity_id: &str) -> (r: String)
    ensures
        r@ == colons_replaced(identity_id@),
{
    let n = identity_id.unicode_len();
    let mut out = String::new();
    let mut i: usize = 0;
    while i < n
        invariant
            n == identity_id@.len(),
            i <= n,
            out@ == colons_replaced(identity_id@.subrange(0, i as int)),
        decreases n - i,
    {
        let c = identity_id.get_char(i);
        let ghost pre = identity_id@.subrange(0, i + 1);
        assert(pre.drop_last() == identity_id@.subrange(0, i as int));
        if c == ':' {
            out.push('_');
            out.push('_');
        } else {
            out.push(c);
        }
        assert(out@ =~= colons_replaced(pre));
        i = i + 1;
    }
    assert(identity_id@.subrange(0, n as int) == identity_id@);
    out
}

/// The file a persona's signing seed is kept in.
pub fn seed_file_name(identity_id: &str) -> (r: String)
    ensures
        r@ == colons_replaced(identity_id@) + ".seed"@,
{
    join2(persona_file_stem(identity_id).as_str(), ".seed")
}

/// The file a user key's secret is kept in.
pub fn user_seed_file_name(identity_id: &str) -> (r: String)
    ensures
        r@ == colons_replaced(identity_id@) + ".user.seed"@,
{
    join2(persona_file_stem(identity_id).as_str(), ".user.seed")
}

/// The file a persona's archived verifying keys are kept in.
pub fn archive_file_name(identity_id: &str) -> (r: String)
    ensures
        r@ == colons_replaced(identity_id@) + ".archive"@,
{
    join2(persona_file_stem(identity_id).as_str(), ".archive")
}

/// The bytes of a seed file, which must hold exactly 32.
pub fn parse_seed_bytes(bytes: &[u8]) -> (r: Result<[u8; 32], IdentityKeyError>)
    ensures
        r is Ok <==> bytes@.len() == 32,
        r matches Ok(seed) ==> seed@ == bytes@,
        r matches Err(e) ==> e is InvalidKeyMaterial,
{
    if bytes.len() == 32 {
        Ok(to_array32(bytes))
    } else {
        Err(IdentityKeyError::InvalidKeyMaterial)
    }
}

/// A text cut at each '\n' (the last piece may be empty).
pub open spec fn split_lines(s: Seq<char>) -> Seq<Seq<char>>
    decreases s.len(),
{
    if s.len() == 0 {
        seq![Seq::<char>::empty()]
    } else {
        let p = split_lines(s.drop_last());
        if s.last() == '\n' {
            p.push(Seq::<char>::empty())
        } else {
            p.update(p.len() - 1, p.last().push(s.last()))
        }
    }
}

pub proof fn lemma_split_lines_nonempty(s: Seq<char>)
    ensures
        split_lines(s).len() >= 1,
    decreases s.len(),
{
    if s.len() > 0 {
        lemma_split_lines_nonempty(s.drop_last());
    }
}

/// The verifying keys of an archive's lines: each line trimmed, blank ones
/// skipped, the others 32 bytes of hexadecimal that form a verifying key;
/// none where a line is not.
pub open spec fn archive_keys(lines: Seq<Seq<char>>) -> Option<Seq<Seq<u8>>>
    decreases lines.len(),
{
    if lines.len() == 0 {
        Some(Seq::empty())
    } else {
        match archive_keys(lines.drop_last()) {
            None => None,
            Some(keys) => {
                let t = trim_seq(lines.last());
                if t.len() == 0 {
                    Some(keys)
                } else {
                    match unhex_spec(t) {
                        Some(b) => if b.len() == 32 && ed25519_point(b) {
                            Some(keys.push(b))
                        } else {
                            None
                        },
                        None => None,
                    }
                }
            },
        }
    }
}

/// The views of a list of keys.
pub open spec fn key_views(keys: Seq<[u8; 32]>) -> Seq<Seq<u8>> {
    keys.map_values(|k: [u8; 32]| k@)
}

fn split_into_lines(text: &str) -> (r: Vec<String>)
    ensures
        r@.map_values(|l: String| l@) == split_lines(text@),
{
    let n = text.unicode_len();
    let mut lines: Vec<String> = Vec::new();
    let mut current = String::new();
    let mut i: usize = 0;
    while i < n
        invariant
            n == text@.len(),
            i <= n,
            lines@.map_values(|l: String| l@).push(current@) == split_lines(text@.subrange(0, i as int)),
        decreases n - i,
    {
        let c = text.get_char(i);
        let ghost pre = text@.subrange(0, i + 1);
        let ghost before = lines@.map_values(|l: String| l@).push(current@);
        assert(pre.drop_last() == text@.subrange(0, i as int));
        proof {
            lemma_split_lines_nonempty(pre.drop_last());
        }
        if c == '\n' {
            let mut done = String::new();
            std::mem::swap(&mut done, &mut current);
            lines.push(done);
            assert(lines@.map_values(|l: String| l@).push(current@) =~= before.push(Seq::<char>::empty()));
        } else {
            current.push(c);
            assert(lines@.map_values(|l: String| l@).push(current@) =~= before.update(before.len() - 1, before.last().push(c)));
        }
        i = i + 1;
    }
    assert(text@.subrange(0, n as int) == text@);
    lines.push(current);
    lines
}

/// The verifying keys an archive file holds (see `archive_keys`).
pub fn parse_archived_verifying_keys(content: &str) -> (r: Result<Vec<[u8; 32]>, IdentityKeyError>)
    ensures
        match r {
            Ok(keys) => archive_keys(split_lines(content@)) == Some(key_views(keys@)),
            Err(e) => archive_keys(split_lines(content@)) is None && e is InvalidKeyMaterial,
        },
{
    let lines = split_into_lines(content);
    let ghost ls = lines@.map_values(|l: String| l@);
    let mut keys: Vec<[u8; 32]> = Vec::new();
    let mut i: usize = 0;
    while i < lines.len()
        invariant
            i <= lines@.len(),
            ls == lines@.map_values(|l: String| l@),
            ls == split_lines(content@),
            archive_keys(ls.subrange(0, i as int)) == Some(key_views(keys@)),
        decreases lines@.len() - i,
    {
        let ghost pre = ls.subrange(0, i + 1);
        assert(pre.drop_last() == ls.subrange(0, i as int));
        assert(pre.last() == lines@[i as int]@);
        let t = trim(lines[i].as_str());
        if t.unicode_len() > 0 {
            match decode_hex(t.as_str()) {
                Some(bytes) => {
                    if bytes.len() != 32 {
                        proof {
                            assert(archive_keys(pre.drop_last()) == Some(key_views(keys@)));
                            assert(trim_seq(pre.last()) == t@);
                            assert(archive_keys(pre) is None);
                            lemma_archive_keys_none_extends(ls, i as int);
                        }
                        return Err(IdentityKeyError::InvalidKeyMaterial);
                    }
                    let key = to_array32(bytes.as_slice());
                    if !ed25519_key_valid(&key) {
                        proof {
                            assert(archive_keys(pre.drop_last()) == Some(key_views(keys@)));
                            assert(trim_seq(pre.last()) == t@);
                            assert(archive_keys(pre) is None);
                            lemma_archive_keys_none_extends(ls, i as int);
                        }
                        return Err(IdentityKeyError::InvalidKeyMaterial);
                    }
                    keys.push(key);
                    assert(key_views(keys@) =~= key_views(keys@.drop_last()).push(key@));
                },
                None => {
                    proof {
                        lemma_archive_keys_none_extends(ls, i as int);
                    }
                    return Err(IdentityKeyError::InvalidKeyMaterial);
                },
            }
        }
        i = i + 1;
    }
    assert(ls.subrange(0, lines@.len() as int) == ls);
    Ok(keys)
}

/// A line that spoils the archive spoils it for every longer run of lines.
pub proof fn lemma_archive_keys_none_extends(lines: Seq<Seq<char>>, i: int)
    requires
        0 <= i < lines.len(),
        archive_keys(lines.subrange(0, i + 1)) is None,
    ensures
        archive_keys(lines) is None,
    decreases lines.len() - i,
{
    if i + 1 < lines.len() {
        let q = lines.subrange(0, i + 2);
        assert(q.drop_last() == lines.subrange(0, i + 1));
        if i + 2 == lines.len() {
            assert(q == lines);
        } else {
            lemma_archive_keys_none_extends(lines, i + 1);
        }
    } else {
        assert(lines.subrange(0, i + 1) == lines);
    }
}

/// The keys joined as an archive file: each in hexadecimal, one per line.
pub open spec fn archive_text(keys: Seq<Seq<u8>>) -> Seq<char>
    decreases keys.len(),
{
    if keys.len() == 0 {
        Seq::empty()
    } else if keys.len() == 1 {
        hex_spec(keys[0])
    } else {
        archive_text(keys.drop_last()).push('\n') + hex_spec(keys.last())
    }
}

/// The text an archive file is written with.
pub fn archived_keys_text(keys: &Vec<[u8; 32]>) -> (r: String)
    ensures
        r@ == archive_text(key_views(keys@)),
{
    let mut out = String::new();
    let mut i: usize = 0;
    while i < keys.len()
        invariant
            i <= keys@.len(),
            out@ == archive_text(key_views(keys@.subrange(0, i as int))),
        decreases keys@.len() - i,
    {
        let ghost pre = key_views(keys@.subrange(0, i + 1));
        assert(pre.drop_last() == key_views(keys@.subrange(0, i as int)));
        if i > 0 {
            out.push('\n');
        }
        let h = encode_hex(keys[i].as_slice());
        out.append(h.as_str());
        assert(pre.last() == keys@[i as int]@);
        if i == 0 {
            assert(pre.len() == 1);
            assert(out@ =~= hex_spec(pre[0]));
        }
        i = i + 1;
    }
    assert(keys@.subrange(0, keys@.len() as int) == keys@);
    out
}

/// Copies 32 bytes into an array.
pub fn to_array32(v: &[u8]) -> (r: [u8; 32])
    requires
        v@.len() == 32,
    ensures
        r@ == v@,
{
    let mut a: [u8; 32] = [0u8; 32];
    let mut i: usize = 0;
    while i < 32
        invariant
            v@.len() == 32,
            i <= 32,
            forall|k: int| 0 <= k < i ==> a@[k] == v@[k],
        decreases 32 - i,
    {
        a.set(i, v[i]);
        i = i + 1;
    }
    assert(a@ =~= v@);
    a
}

/// Copies 64 bytes into an array.
pub fn to_array64(v: &[u8]) -> (r: [u8; 64])
    requires
        v@.len() == 64,
    ensures
        r@ == v@,
{
    let mut a: [u8; 64] = [0u8; 64];
    let mut i: usize = 0;
    while i < 64
        invariant
            v@.len() == 64,
            i <= 64,
            forall|k: int| 0 <= k < i ==> a@[k] == v@[k],
        decreases 64 - i,
    {
        a.set(i, v[i]);
        i = i + 1;
    }
    assert(a@ =~= v@);
    a
}

/// `lower(trim(id))`.
pub fn normalize_id(id: &str) -> (r: String)
    ensures
        r@ == normalized_id(id@),
{
    let t = trim(id);
    lower(t.as_str())
}

/// The bytes of a signature text (see `signature_bytes`).
pub fn parse_signature_bytes(text: &str) -> (r: Option<Vec<u8>>)
    ensures
        match r {
            Some(b) => signature_bytes(text@) == Some(b@),
            None => signature_bytes(text@) is None,
        },
{
    let t = trim(text);
    match strip_prefix(t.as_str(), SIGNATURE_PREFIX) {
        Some(rest) => decode_hex(rest.as_str()),
        None => None,
    }
}

/// Personas by id, user keys by id, and the ids each falls back to.
pub struct IdentityRegistry {
    keys: Table<IdentityKey>,
    user_keys: Table<UserIdentityKey>,
    fallback_id: String,
    user_fallback_id: String,
    trust_store: TrustStore,
}

impl IdentityRegistry {
    #[verifier::type_invariant]
    spec fn inv(self) -> bool {
        &&& forall|id: Seq<char>| self.keys@.dom().contains(id) ==> persona_wf(#[trigger] self.keys@[id])
        &&& forall|id: Seq<char>| self.user_keys@.dom().contains(id) ==> user_key_wf(#[trigger] self.user_keys@[id])
    }

    pub closed spec fn personas(&self) -> Map<Seq<char>, IdentityKey> {
        self.keys@
    }

    pub closed spec fn user_personas(&self) -> Map<Seq<char>, UserIdentityKey> {
        self.user_keys@
    }

    pub closed spec fn fallback(&self) -> Seq<char> {
        self.fallback_id@
    }

    pub closed spec fn user_fallback(&self) -> Seq<char> {
        self.user_fallback_id@
    }

    /// The trusted peers, in the order they were trusted.
    pub closed spec fn trusted(&self) -> Seq<PeerView> {
        self.trust_store.peers()
    }

    /// Copies of the trusted peers.
    pub fn trusted_peers(&self) -> (r: Vec<TrustedPeer>)
        ensures
            peers_view(r@) == self.trusted(),
    {
        self.trust_store.trusted_peers()
    }

    /// Replaces the trusted peers with those given (a later record of a node
    /// id replacing an earlier one).
    pub fn load_trusted_peers(&mut self, peers: Vec<TrustedPeer>)
        ensures
            final(self).trusted() == trusted_all(peers_view(peers@)),
            final(self).personas() == old(self).personas(),
            final(self).user_personas() == old(self).user_personas(),
    {
        proof {
            use_type_invariant(&*self);
        }
        self.trust_store = TrustStore::from_peers(peers);
    }

    /// Trusts a peer, in place of any earlier record of its node id.
    pub fn trust_peer(&mut self, peer: TrustedPeer)
        ensures
            final(self).trusted() == without_peer(old(self).trusted(), peer.node_id@).push(peer_view(peer)),
            final(self).personas() == old(self).personas(),
            final(self).user_personas() == old(self).user_personas(),
    {
        proof {
            use_type_invariant(&*self);
        }
        let mut store = TrustStore::new();
        std::mem::swap(&mut store, &mut self.trust_store);
        store.trust_peer(peer);
        self.trust_store = store;
    }

    /// Stops trusting a node id.
    pub fn revoke_peer(&mut self, node_id: &str)
        ensures
            final(self).trusted() == without_peer(old(self).trusted(), node_id@),
            final(self).personas() == old(self).personas(),
            final(self).user_personas() == old(self).user_personas(),
    {
        proof {
            use_type_invariant(&*self);
        }
        let mut store = TrustStore::new();
        std::mem::swap(&mut store, &mut self.trust_store);
        store.revoke_peer(node_id);
        self.trust_store = store;
    }

    /// Shares a workspace with a trusted peer, in place of any earlier grant
    /// of that workspace; nothing where the peer is not trusted.
    pub fn grant_workspace_access(&mut self, node_id: &str, workspace_id: &str, access: AccessLevel)
        ensures
            final(self).trusted() == granted(old(self).trusted(), node_id@, workspace_id@, access),
            final(self).personas() == old(self).personas(),
            final(self).user_personas() == old(self).user_personas(),
    {
        proof {
            use_type_invariant(&*self);
        }
        let mut store = TrustStore::new();
        std::mem::swap(&mut store, &mut self.trust_store);
        store.grant_workspace_access(node_id, workspace_id, access);
        self.trust_store = store;
    }

    /// Withdraws a workspace from a trusted peer.
    pub fn revoke_workspace_access(&mut self, node_id: &str, workspace_id: &str)
        ensures
            final(self).trusted() == ungranted(old(self).trusted(), node_id@, workspace_id@),
            final(self).personas() == old(self).personas(),
            final(self).user_personas() == old(self).user_personas(),
    {
        proof {
            use_type_invariant(&*self);
        }
        let mut store = TrustStore::new();
        std::mem::swap(&mut store, &mut self.trust_store);
        store.revoke_workspace_access(node_id, workspace_id);
        self.trust_store = store;
    }

    /// The node ids of the trusted peers, in order.
    pub fn trusted_peer_ids(&self) -> (r: Vec<String>)
        ensures
            r@.len() == self.trusted().len(),
            forall|i: int| 0 <= i < r@.len() ==> (#[trigger] r@[i])@ == self.trusted()[i].0,
    {
        self.trust_store.peer_ids()
    }

    /// What the invariant gives of every persona and user key.
    pub fn reveal_keys_wf(&self)
        ensures
            forall|id: Seq<char>| self.personas().dom().contains(id) ==> persona_wf(#[trigger] self.personas()[id]),
            forall|id: Seq<char>| self.user_personas().dom().contains(id) ==> user_key_wf(#[trigger] self.user_personas()[id]),
    {
        proof {
            use_type_invariant(self);
        }
    }

    /// A registry with no keys, falling back to the default persona.
    pub fn empty() -> (r: Self)
        ensures
            r.personas() == Map::<Seq<char>, IdentityKey>::empty(),
            r.user_personas() == Map::<Seq<char>, UserIdentityKey>::empty(),
            r.fallback() == IDENTITY_ID_DEFAULT@,
            r.user_fallback() == IDENTITY_ID_DEFAULT@,
            r.trusted() == Seq::<PeerView>::empty(),
    {
        IdentityRegistry {
            keys: Table::new(),
            user_keys: Table::new(),
            fallback_id: owned(IDENTITY_ID_DEFAULT),
            user_fallback_id: owned(IDENTITY_ID_DEFAULT),
            trust_store: TrustStore::new(),
        }
    }

    /// Sets the persona at `identity_id` (taken as given) to a key made from
    /// `seed`, with the archived verifying keys and protection given.
    pub fn install_persona(
        &mut self,
        identity_id: &str,
        seed: [u8; 32],
        archived: Vec<[u8; 32]>,
        protection: KeyProtection,
    )
        ensures
            final(self).personas() == old(self).personas().insert(identity_id@, IdentityKey {
                seed: Some(seed),
                verifying_key: final(self).personas()[identity_id@].verifying_key,
                archived_verifying_keys: archived,
                protection,
            }),
            final(self).personas()[identity_id@].verifying_key@ == ed25519_public(seed@),
            final(self).user_personas() == old(self).user_personas(),
            final(self).fallback() == old(self).fallback(),
            final(self).user_fallback() == old(self).user_fallback(),
    {
        proof {
            use_type_invariant(&*self);
        }
        let verifying_key = ed25519_public_key(&seed);
        let key = IdentityKey { seed: Some(seed), verifying_key, archived_verifying_keys: archived, protection };
        let mut keys: Table<IdentityKey> = Table::new();
        std::mem::swap(&mut keys, &mut self.keys);
        keys.insert(owned(identity_id), key);
        self.keys = keys;
    }

    /// Loads the persona `identity_id` from its store: the seed file's bytes,
    /// where one is stored, else `fresh_seed`; and the verifying keys its
    /// archive file holds, where one is stored. Says whether the seed was
    /// fresh; on an error nothing is changed.
    pub fn load_persona(
        &mut self,
        identity_id: &str,
        stored_seed: Option<&[u8]>,
        stored_archive: Option<&str>,
        fresh_seed: [u8; 32],
    ) -> (r: Result<bool, IdentityKeyError>)
        ensures
            ({
                let seed_ok = match stored_seed { Some(b) => b@.len() == 32, None => true };
                let keys = match stored_archive { Some(t) => archive_keys(split_lines(t@)), None => Some(Seq::empty()) };
                &&& r is Ok <==> seed_ok && keys is Some
                &&& r matches Err(e) ==> e is InvalidKeyMaterial && final(self).personas() == old(self).personas()
                &&& r matches Ok(generated) ==> {
                    let seed = match stored_seed { Some(b) => b@, None => fresh_seed@ };
                    let key = final(self).personas()[identity_id@];
                    &&& generated == stored_seed is None
                    &&& final(self).personas().dom() == old(self).personas().dom().insert(identity_id@)
                    &&& forall|id: Seq<char>| id != identity_id@ && old(self).personas().dom().contains(id)
                        ==> final(self).personas()[id] == old(self).personas()[id]
                    &&& key.seed matches Some(s) && s@ == seed
                    &&& key.verifying_key@ == ed25519_public(seed)
                    &&& Some(key_views(key.archived_verifying_keys@)) == keys
                    &&& key.protection == KeyProtection::Unprotected
                }
            }),
            final(self).user_personas() == old(self).user_personas(),
            final(self).fallback() == old(self).fallback(),
            final(self).user_fallback() == old(self).user_fallback(),
    {
        let seed = match stored_seed {
            Some(bytes) => match parse_seed_bytes(bytes) {
                Ok(seed) => seed,
                Err(e) => {
                    return Err(e);
                },
            },
            None => fresh_seed,
        };
        let archived = match stored_archive {
            Some(text) => match parse_archived_verifying_keys(text) {
                Ok(keys) => keys,
                Err(e) => {
                    return Err(e);
                },
            },
            None => {
                let empty: Vec<[u8; 32]> = Vec::new();
                assert(key_views(empty@) =~= Seq::<Seq<u8>>::empty());
                empty
            },
        };
        self.install_persona(identity_id, seed, archived, KeyProtection::Unprotected);
        Ok(stored_seed.is_none())
    }

    /// Loads the user key `identity_id` from its stored secret, where one is
    /// stored, else from `fresh_secret`. Says whether the secret was fresh;
    /// on an error nothing is changed.
    pub fn load_user_persona(
        &mut self,
        identity_id: &str,
        stored_secret: Option<&[u8]>,
        fresh_secret: [u8; 32],
    ) -> (r: Result<bool, IdentityKeyError>)
        ensures
            ({
                let secret = match stored_secret { Some(b) => b@, None => fresh_secret@ };
                &&& r is Ok <==> secret.len() == 32 && secp_xonly_public(secret) is Some
                &&& r matches Err(e) ==> e is InvalidKeyMaterial && final(self).user_personas() == old(self).user_personas()
                &&& r matches Ok(generated) ==> {
                    let key = final(self).user_personas()[identity_id@];
                    &&& generated == stored_secret is None
                    &&& final(self).user_personas().dom() == old(self).user_personas().dom().insert(identity_id@)
                    &&& forall|id: Seq<char>| id != identity_id@ && old(self).user_personas().dom().contains(id)
                        ==> final(self).user_personas()[id] == old(self).user_personas()[id]
                    &&& key.secret matches Some(s) && s@ == secret
                    &&& Some(key.public_key@) == secp_xonly_public(secret)
                    &&& key.protection == KeyProtection::Unprotected
                }
            }),
            final(self).personas() == old(self).personas(),
            final(self).fallback() == old(self).fallback(),
            final(self).user_fallback() == old(self).user_fallback(),
    {
        let secret = match stored_secret {
            Some(bytes) => match parse_seed_bytes(bytes) {
                Ok(secret) => secret,
                Err(e) => {
                    return Err(e);
                },
            },
            None => fresh_secret,
        };
        match self.install_user_persona(identity_id, secret, KeyProtection::Unprotected) {
            Ok(()) => Ok(stored_secret.is_none()),
            Err(e) => Err(e),
        }
    }

    /// The seed of the persona at `identity_id` (taken as given), where it
    /// holds one.
    pub fn persona_seed(&self, identity_id: &str) -> (r: Option<[u8; 32]>)
        ensures
            r == (if self.personas().dom().contains(identity_id@) { self.personas()[identity_id@].seed } else { None }),
    {
        match self.keys.get(identity_id) {
            Some(key) => key.seed,
            None => None,
        }
    }

    /// The archived verifying keys of the persona at `identity_id` (taken as
    /// given), where there is such a persona.
    pub fn persona_archive(&self, identity_id: &str) -> (r: Option<Vec<[u8; 32]>>)
        ensures
            r is Some <==> self.personas().dom().contains(identity_id@),
            r matches Some(v) ==> v@ == self.personas()[identity_id@].archived_verifying_keys@,
    {
        match self.keys.get(identity_id) {
            Some(key) => {
                let mut out: Vec<[u8; 32]> = Vec::new();
                let mut i: usize = 0;
                while i < key.archived_verifying_keys.len()
                    invariant
                        i <= key.archived_verifying_keys@.len(),
                        out@ == key.archived_verifying_keys@.subrange(0, i as int),
                    decreases key.archived_verifying_keys@.len() - i,
                {
                    out.push(key.archived_verifying_keys[i]);
                    i = i + 1;
                }
                assert(out@ =~= key.archived_verifying_keys@);
                Some(out)
            },
            None => None,
        }
    }

    /// The secret of the user key at `identity_id` (taken as given), where it
    /// holds one.
    pub fn user_persona_secret(&self, identity_id: &str) -> (r: Option<[u8; 32]>)
        ensures
            r == (if self.user_personas().dom().contains(identity_id@) { self.user_personas()[identity_id@].secret } else { None }),
    {
        match self.user_keys.get(identity_id) {
            Some(key) => key.secret,
            None => None,
        }
    }

    /// Sets the persona at `identity_id` to a locked one: a fresh verifying
    /// key whose seed is not kept.
    pub fn install_locked_persona(&mut self, identity_id: &str)
        ensures
            final(self).personas().dom() == old(self).personas().dom().insert(identity_id@),
            forall|id: Seq<char>| id != identity_id@ && old(self).personas().dom().contains(id)
                ==> final(self).personas()[id] == old(self).personas()[id],
            final(self).personas()[identity_id@].seed is None,
            final(self).personas()[identity_id@].archived_verifying_keys@.len() == 0,
            final(self).personas()[identity_id@].protection == KeyProtection::Ephemeral,
            final(self).user_personas() == old(self).user_personas(),
            final(self).fallback() == old(self).fallback(),
            final(self).user_fallback() == old(self).user_fallback(),
    {
        proof {
            use_type_invariant(&*self);
        }
        let seed = random_seed();
        let verifying_key = ed25519_public_key(&seed);
        let key = IdentityKey {
            seed: None,
            verifying_key,
            archived_verifying_keys: Vec::new(),
            protection: KeyProtection::Ephemeral,
        };
        let mut keys: Table<IdentityKey> = Table::new();
        std::mem::swap(&mut keys, &mut self.keys);
        keys.insert(owned(identity_id), key);
        self.keys = keys;
    }

    /// Sets the user key at `identity_id` to the one of `secret`; refuses
    /// bytes that are no secp256k1 secret, leaving the registry as it was.
    pub fn install_user_persona(&mut self, identity_id: &str, secret: [u8; 32], protection: KeyProtection) -> (r: Result<(), IdentityKeyError>)
        ensures
            r is Ok <==> secp_xonly_public(secret@) is Some,
            r matches Err(e) ==> e is InvalidKeyMaterial,
            r is Ok ==> final(self).user_personas() == old(self).user_personas().insert(identity_id@, UserIdentityKey {
                secret: Some(secret),
                public_key: final(self).user_personas()[identity_id@].public_key,
                protection,
            }),
            r is Ok ==> Some(final(self).user_personas()[identity_id@].public_key@) == secp_xonly_public(secret@),
            r is Err ==> final(self).user_personas() == old(self).user_personas(),
            final(self).personas() == old(self).personas(),
            final(self).fallback() == old(self).fallback(),
            final(self).user_fallback() == old(self).user_fallback(),
    {
        proof {
            use_type_invariant(&*self);
        }
        match secp_public_key(&secret) {
            Some(public_key) => {
                let key = UserIdentityKey { secret: Some(secret), public_key, protection };
                let mut keys: Table<UserIdentityKey> = Table::new();
                std::mem::swap(&mut keys, &mut self.user_keys);
                keys.insert(owned(identity_id), key);
                self.user_keys = keys;
                Ok(())
            },
            None => Err(IdentityKeyError::InvalidKeyMaterial),
        }
    }

    /// Sets the user key at `identity_id` to a fresh one.
    pub fn install_generated_user_persona(&mut self, identity_id: &str)
        ensures
            final(self).user_personas().dom() == old(self).user_personas().dom().insert(identity_id@),
            forall|id: Seq<char>| id != identity_id@ && old(self).user_personas().dom().contains(id)
                ==> final(self).user_personas()[id] == old(self).user_personas()[id],
            final(self).user_personas()[identity_id@].secret is Some,
            final(self).user_personas()[identity_id@].protection == KeyProtection::Ephemeral,
            final(self).personas() == old(self).personas(),
            final(self).fallback() == old(self).fallback(),
            final(self).user_fallback() == old(self).user_fallback(),
    {
        let secret = random_secp_secret();
        let r = self.install_user_persona(identity_id, secret, KeyProtection::Ephemeral);
        assert(r is Ok);
    }

    /// Sets the persona at `identity_id` to a fresh ephemeral key.
    pub fn install_generated_persona(&mut self, identity_id: &str)
        ensures
            final(self).personas().dom() == old(self).personas().dom().insert(identity_id@),
            forall|id: Seq<char>| id != identity_id@ && old(self).personas().dom().contains(id)
                ==> final(self).personas()[id] == old(self).personas()[id],
            final(self).personas()[identity_id@].seed is Some,
            final(self).personas()[identity_id@].archived_verifying_keys@.len() == 0,
            final(self).personas()[identity_id@].protection == KeyProtection::Ephemeral,
            final(self).user_personas() == old(self).user_personas(),
            final(self).fallback() == old(self).fallback(),
            final(self).user_fallback() == old(self).user_fallback(),
    {
        let seed = random_seed();
        self.install_persona(identity_id, seed, Vec::new(), KeyProtection::Ephemeral);
    }

    /// Replaces the signing key of the persona an id resolves to with a fresh
    /// one, archiving the verifying key it had; gives the new verifying key in
    /// hexadecimal.
    pub fn rotate_key(&mut self, identity_id: &str) -> (r: Result<String, IdentityKeyError>)
        ensures
            ({
                let res = resolved_persona(old(self).personas(), old(self).fallback(), identity_id@);
                let before = old(self).personas();
                let after = final(self).personas();
                &&& !before.dom().contains(res) ==> (r matches Err(IdentityKeyError::PersonaMissing(m)) && m@ == res
                    && after == before)
                &&& (before.dom().contains(res) && before[res].seed is None) ==> (r matches Err(e) && e is PersonaLocked
                    && after == before)
                &&& (before.dom().contains(res) && before[res].seed is Some) ==> (r matches Ok(h)
                    && rotated(before, after, res)
                    && h@ == hex_spec(after[res].verifying_key@))
            }),
            final(self).user_personas() == old(self).user_personas(),
            final(self).fallback() == old(self).fallback(),
            final(self).user_fallback() == old(self).user_fallback(),
    {
        proof {
            use_type_invariant(&*self);
        }
        let resolution = self.resolve(identity_id);
        let resolved = resolution.resolved_id;
        let ghost before = self.keys@;
        let mut keys: Table<IdentityKey> = Table::new();
        std::mem::swap(&mut keys, &mut self.keys);
        match keys.remove(resolved.as_str()) {
            None => {
                self.keys = keys;
                Err(IdentityKeyError::PersonaMissing(resolved))
            },
            Some(key) => {
                match key.seed {
                    None => {
                        keys.insert(resolved, key);
                        assert(keys@ =~= before);
                        self.keys = keys;
                        Err(IdentityKeyError::PersonaLocked)
                    },
                    Some(_) => {
                        let mut archived = key.archived_verifying_keys;
                        archived.push(key.verifying_key);
                        let next = random_seed();
                        let verifying_key = ed25519_public_key(&next);
                        let rotated = IdentityKey {
                            seed: Some(next),
                            verifying_key,
                            archived_verifying_keys: archived,
                            protection: key.protection,
                        };
                        keys.insert(resolved, rotated);
                        assert(keys@ =~= before.insert(resolution.resolved_id@, keys@[resolution.resolved_id@]));
                        self.keys = keys;
                        Ok(encode_hex(verifying_key.as_slice()))
                    },
                }
            },
        }
    }

    /// Drops the signing key of the persona an id resolves to, archiving its
    /// verifying key where it still had one.
    pub fn revoke_key(&mut self, identity_id: &str) -> (r: Result<(), IdentityKeyError>)
        ensures
            ({
                let res = resolved_persona(old(self).personas(), old(self).fallback(), identity_id@);
                let before = old(self).personas();
                let after = final(self).personas();
                &&& !before.dom().contains(res) ==> (r matches Err(IdentityKeyError::PersonaMissing(m)) && m@ == res
                    && after == before)
                &&& before.dom().contains(res) ==> (r is Ok && revoked(before, after, res))
            }),
            final(self).user_personas() == old(self).user_personas(),
            final(self).fallback() == old(self).fallback(),
            final(self).user_fallback() == old(self).user_fallback(),
    {
        proof {
            use_type_invariant(&*self);
        }
        let resolution = self.resolve(identity_id);
        let resolved = resolution.resolved_id;
        let ghost before = self.keys@;
        let mut keys: Table<IdentityKey> = Table::new();
        std::mem::swap(&mut keys, &mut self.keys);
        match keys.remove(resolved.as_str()) {
            None => {
                self.keys = keys;
                Err(IdentityKeyError::PersonaMissing(resolved))
            },
            Some(key) => {
                let mut archived = key.archived_verifying_keys;
                if key.seed.is_some() {
                    archived.push(key.verifying_key);
                }
                let revoked = IdentityKey {
                    seed: None,
                    verifying_key: key.verifying_key,
                    archived_verifying_keys: archived,
                    protection: key.protection,
                };
                keys.insert(resolved, revoked);
                assert(keys@ =~= before.insert(resolution.resolved_id@, keys@[resolution.resolved_id@]));
                self.keys = keys;
                Ok(())
            },
        }
    }

    /// The user key id an id resolves to.
    pub fn resolve_user_identity_id(&self, identity_id: &str) -> (r: String)
        ensures
            r@ == resolved_user(self.user_personas(), self.user_fallback(), identity_id@),
    {
        let requested = normalize_id(identity_id);
        if requested.unicode_len() == 0 {
            return self.user_fallback_id.clone();
        }
        if self.user_keys.contains(requested.as_str()) {
            return requested;
        }
        self.user_fallback_id.clone()
    }

    /// The claim of the user key an id resolves to.
    pub fn user_identity_claim_for(&self, identity_id: &str) -> (r: Option<UserIdentityClaim>)
        ensures
            ({
                let res = resolved_user(self.user_personas(), self.user_fallback(), identity_id@);
                &&& r is Some <==> self.user_personas().dom().contains(res)
                &&& r matches Some(c) ==> c.identity_id@ == res
                    && c.protocol == UserIdentityProtocol::LocalNostrSecp256k1
                    && c.public_key@ == hex_spec(self.user_personas()[res].public_key@)
            }),
    {
        let resolved = self.resolve_user_identity_id(identity_id);
        match self.user_keys.get(resolved.as_str()) {
            Some(key) => {
                let public_key = encode_hex(key.public_key.as_slice());
                Some(UserIdentityClaim {
                    identity_id: resolved,
                    protocol: UserIdentityProtocol::LocalNostrSecp256k1,
                    public_key,
                })
            },
            None => None,
        }
    }

    /// The claim of the default user key.
    pub fn default_user_identity_claim(&self) -> (r: Option<UserIdentityClaim>)
        ensures
            ({
                let res = resolved_user(self.user_personas(), self.user_fallback(), IDENTITY_ID_DEFAULT@);
                &&& r is Some <==> self.user_personas().dom().contains(res)
                &&& r matches Some(c) ==> c.identity_id@ == res
                    && c.protocol == UserIdentityProtocol::LocalNostrSecp256k1
                    && c.public_key@ == hex_spec(self.user_personas()[res].public_key@)
            }),
    {
        self.user_identity_claim_for(IDENTITY_ID_DEFAULT)
    }

    /// The hexadecimal x-only public key of the user key an id resolves to.
    pub fn nostr_public_key_hex_for(&self, identity_id: &str) -> (r: Option<String>)
        ensures
            ({
                let res = resolved_user(self.user_personas(), self.user_fallback(), identity_id@);
                &&& r is Some <==> self.user_personas().dom().contains(res)
                &&& r matches Some(h) ==> h@ == hex_spec(self.user_personas()[res].public_key@)
            }),
    {
        let resolved = self.resolve_user_identity_id(identity_id);
        match self.user_keys.get(resolved.as_str()) {
            Some(key) => Some(encode_hex(key.public_key.as_slice())),
            None => None,
        }
    }

    /// Signs a 32-byte digest with the user key an id resolves to.
    pub fn sign_user_digest(&self, identity_id: &str, digest: &[u8; 32]) -> (r: Option<String>)
        ensures
            ({
                let res = resolved_user(self.user_personas(), self.user_fallback(), identity_id@);
                let keys = self.user_personas();
                &&& r is Some <==> (keys.dom().contains(res) && keys[res].secret is Some)
                &&& r matches Some(t) ==> t@ == signature_text(schnorr_signature(keys[res].secret->0@, digest@))
                    && schnorr_signature(keys[res].secret->0@, digest@).len() == 64
                    && schnorr_accepts(keys[res].public_key@, digest@, schnorr_signature(keys[res].secret->0@, digest@))
            }),
    {
        proof {
            use_type_invariant(self);
        }
        let resolved = self.resolve_user_identity_id(identity_id);
        match self.user_keys.get(resolved.as_str()) {
            Some(key) => match &key.secret {
                Some(secret) => match schnorr_sign(secret, digest) {
                    Some(signature) => Some(join2(SIGNATURE_PREFIX, encode_hex(signature.as_slice()).as_str())),
                    None => None,
                },
                None => None,
            },
            None => None,
        }
    }

    /// The p2p node id: the hexadecimal verifying key of the p2p persona, or
    /// of a fresh key where that persona cannot sign.
    pub fn p2p_node_id(&self) -> (r: String)
        ensures
            p2p_node_hex(self.personas(), self.fallback()) matches Some(h) ==> r@ == h,
            r@.len() == 64,
    {
        proof {
            use_type_invariant(self);
        }
        let resolution = self.resolve(IDENTITY_ID_P2P);
        if let Some(key) = self.keys.get(resolution.resolved_id.as_str()) {
            if let Some(seed) = &key.seed {
                proof {
                    lemma_hex_len(key.verifying_key@);
                }
                return encode_hex(key.verifying_key.as_slice());
            }
        }
        let seed = random_seed();
        let public = ed25519_public_key(&seed);
        proof {
            lemma_hex_len(public@);
        }
        encode_hex(public.as_slice())
    }

    /// Signs a sync payload with the p2p persona; empty where it cannot sign.
    pub fn sign_sync_payload(&self, payload: &[u8]) -> (r: Vec<u8>)
        ensures
            ({
                let keys = self.personas();
                let res = resolved_persona(keys, self.fallback(), IDENTITY_ID_P2P@);
                r@ == if signing_available(keys, res) {
                    ed25519_signature(keys[res].seed->0@, payload@)
                } else {
                    Seq::<u8>::empty()
                }
            }),
    {
        let resolution = self.resolve(IDENTITY_ID_P2P);
        match self.keys.get(resolution.resolved_id.as_str()) {
            Some(key) => match &key.seed {
                Some(seed) => {
                    let signature = ed25519_sign(seed, payload);
                    let mut out: Vec<u8> = Vec::new();
                    let mut i: usize = 0;
                    while i < 64
                        invariant
                            i <= 64,
                            signature@.len() == 64,
                            out@ == signature@.subrange(0, i as int),
                        decreases 64 - i,
                    {
                        out.push(signature[i]);
                        i = i + 1;
                    }
                    assert(out@ =~= signature@);
                    out
                },
                None => Vec::new(),
            },
            None => Vec::new(),
        }
    }

    /// Whether a peer's Ed25519 key accepts a signature on `payload`.
    pub fn verify_peer_signature(&self, peer: &[u8; 32], payload: &[u8], signature: &[u8]) -> (r: bool)
        ensures
            r == (signature@.len() == 64 && ed25519_accepts(peer@, payload@, signature@)),
    {
        match ed25519_signature_from_slice(signature) {
            Some(sig) => ed25519_verify(peer, payload, &sig),
            None => false,
        }
    }

    /// A signed presence binding of the p2p node to the user key an id
    /// resolves to, for `audience` (trimmed), issued at `now_secs` and valid
    /// for `ttl_secs` (at least one second). None where the user key is
    /// missing or holds no secret, or the audience is blank.
    pub fn create_presence_binding_assertion_at(
        &self,
        user_identity_id: &str,
        audience: &str,
        ttl_secs: u64,
        now_secs: u64,
    ) -> (r: Option<PresenceBindingAssertion>)
        ensures
            ({
                let keys = self.user_personas();
                let res = resolved_user(keys, self.user_fallback(), user_identity_id@);
                &&& r is Some <==> (keys.dom().contains(res) && keys[res].secret is Some
                    && trim_seq(audience@).len() > 0)
                &&& r matches Some(a) ==> {
                    &&& a.user_identity.identity_id@ == res
                    &&& a.user_identity.protocol == UserIdentityProtocol::LocalNostrSecp256k1
                    &&& a.user_identity.public_key@ == hex_spec(keys[res].public_key@)
                    &&& (p2p_node_hex(self.personas(), self.fallback()) matches Some(h) ==> a.node_id@ == h)
                    &&& a.issued_at_secs == now_secs
                    &&& a.expires_at_secs == expiry(now_secs, ttl_secs)
                    &&& a.audience@ == trim_seq(audience@)
                    &&& a.signature@ == signature_text(
                        schnorr_signature(keys[res].secret->0@, sha256_of_text(a.canonical_text())))
                    &&& presence_valid(a)
                }
            }),
    {
        proof {
            use_type_invariant(self);
        }
        let user_identity = match self.user_identity_claim_for(user_identity_id) {
            Some(claim) => claim,
            None => return None,
        };
        let trimmed = trim(audience);
        if trimmed.unicode_len() == 0 {
            return None;
        }
        let ghost res = user_identity.identity_id@;
        let ghost key = self.user_keys@[res];
        if !self.user_keys.contains(user_identity.identity_id.as_str()) {
            return None;
        }
        let held = match self.user_keys.get(user_identity.identity_id.as_str()) {
            Some(k) => k.secret.is_some(),
            None => false,
        };
        if !held {
            return None;
        }
        let d: u64 = if ttl_secs == 0 { 1 } else { ttl_secs };
        let expires: u64 = now_secs.saturating_add(d);
        let unsigned = PresenceBindingAssertion {
            node_id: self.p2p_node_id(),
            user_identity,
            issued_at_secs: now_secs,
            expires_at_secs: expires,
            audience: trimmed,
            signature: String::new(),
        };
        let text = canonical_presence_binding_text(&unsigned);
        let digest = sha256_text(text.as_str());
        let signature = match self.sign_user_digest(user_identity_id, &digest) {
            Some(sig) => sig,
            None => return None,
        };
        let a = PresenceBindingAssertion {
            node_id: unsigned.node_id,
            user_identity: unsigned.user_identity,
            issued_at_secs: unsigned.issued_at_secs,
            expires_at_secs: unsigned.expires_at_secs,
            audience: unsigned.audience,
            signature,
        };
        proof {
            assert(a.canonical_text() == unsigned.canonical_text());
            let sig = schnorr_signature(key.secret->0@, digest@);
            lemma_signature_text(sig);
            assert(signature64(a.signature@) == Some(sig));
            law_hex_roundtrip(key.public_key@);
            lemma_trim_idempotent(audience@);
            assert(unsigned.audience@ == trim_seq(audience@));
            assert(user_key_wf(key));
            assert(unhex_spec(a.user_identity.public_key@) == Some(key.public_key@));
            assert(schnorr_accepts(key.public_key@, sha256_of_text(a.canonical_text()), sig));
        }
        Some(a)
    }

    /// Whether a presence binding holds (see `presence_valid`).
    pub fn verify_presence_binding_assertion(&self, assertion: &PresenceBindingAssertion) -> (r: bool)
        ensures
            r == presence_valid(*assertion),
    {
        if trim(assertion.signature.as_str()).unicode_len() == 0 || trim(assertion.audience.as_str()).unicode_len() == 0 {
            return false;
        }
        if assertion.expires_at_secs < assertion.issued_at_secs {
            return false;
        }
        if let UserIdentityProtocol::DidPlc = assertion.user_identity.protocol {
            return false;
        }
        let public = match decode_hex(assertion.user_identity.public_key.as_str()) {
            Some(bytes) => if bytes.len() == 32 {
                to_array32(bytes.as_slice())
            } else {
                return false;
            },
            None => return false,
        };
        let sig = match parse_signature_bytes(assertion.signature.as_str()) {
            Some(bytes) => if bytes.len() == 64 {
                to_array64(bytes.as_slice())
            } else {
                return false;
            },
            None => return false,
        };
        let text = canonical_presence_binding_text(assertion);
        let digest = sha256_text(text.as_str());
        schnorr_verify(&public, &digest, &sig)
    }

    /// Resolves an id to a persona.
    pub fn resolve(&self, identity_id: &str) -> (r: IdentityResolution)
        ensures
            r.describes(self.personas(), self.fallback(), identity_id@),
    {
        let requested = normalize_id(identity_id);
        if requested.unicode_len() > 0 {
            match self.keys.get(requested.as_str()) {
                Some(key) => {
                    let available = key.seed.is_some();
                    let resolved = requested.clone();
                    return IdentityResolution {
                        requested_id: requested,
                        resolved_id: resolved,
                        matched: true,
                        key_available: available,
                    };
                },
                None => {},
            }
        }
        let available = match self.keys.get(self.fallback_id.as_str()) {
            Some(key) => key.seed.is_some(),
            None => false,
        };
        IdentityResolution {
            requested_id: requested,
            resolved_id: self.fallback_id.clone(),
            matched: false,
            key_available: available,
        }
    }

    /// Signs `payload` with the persona an id resolves to.
    pub fn sign(&self, identity_id: &str, payload: &[u8]) -> (r: IdentitySignResult)
        ensures
            sign_post(self.personas(), self.fallback(), identity_id@, payload@, r),
            r.succeeded ==> verify_spec(self.personas(), self.fallback(), identity_id@, payload@, r.signature->0@),
            text_view(r.signature) == signed_text(self.personas(), self.fallback(), identity_id@, payload@),
    {
        proof {
            use_type_invariant(self);
        }
        let resolution = self.resolve(identity_id);
        match self.keys.get(resolution.resolved_id.as_str()) {
            None => IdentitySignResult { resolution, signature: None, verifying_key: None, succeeded: false },
            Some(key) => {
                let verifying_key = encode_hex(key.verifying_key.as_slice());
                match &key.seed {
                    None => IdentitySignResult {
                        resolution,
                        signature: None,
                        verifying_key: Some(verifying_key),
                        succeeded: false,
                    },
                    Some(seed) => {
                        let signature = ed25519_sign(seed, payload);
                        let text = join2(SIGNATURE_PREFIX, encode_hex(signature.as_slice()).as_str());
                        proof {
                            lemma_signature_text(signature@);
                            assert(persona_wf(*key));
                        }
                        IdentitySignResult {
                            resolution,
                            signature: Some(text),
                            verifying_key: Some(verifying_key),
                            succeeded: true,
                        }
                    },
                }
            },
        }
    }

    /// Checks a signature text on `payload` against the persona an id
    /// resolves to, its archived verifying keys included.
    pub fn verify(&self, identity_id: &str, payload: &[u8], signature: &str) -> (r: IdentityVerifyResult)
        ensures
            r.resolution.describes(self.personas(), self.fallback(), identity_id@),
            r.verified == verify_spec(self.personas(), self.fallback(), identity_id@, payload@, signature@),
    {
        let resolution = self.resolve(identity_id);
        let key = match self.keys.get(resolution.resolved_id.as_str()) {
            Some(key) => key,
            None => return IdentityVerifyResult { resolution, verified: false },
        };
        let bytes = match parse_signature_bytes(signature) {
            Some(bytes) => bytes,
            None => return IdentityVerifyResult { resolution, verified: false },
        };
        let sig = match ed25519_signature_from_slice(bytes.as_slice()) {
            Some(sig) => sig,
            None => return IdentityVerifyResult { resolution, verified: false },
        };
        let verified = key_accepts(key, payload, &sig);
        IdentityVerifyResult { resolution, verified }
    }

    /// The hexadecimal verifying key of the persona an id resolves to.
    pub fn verifying_key_hex_for(&self, identity_id: &str) -> (r: Option<String>)
        ensures
            ({
                let res = resolved_persona(self.personas(), self.fallback(), identity_id@);
                &&& r is Some <==> self.personas().dom().contains(res)
                &&& r matches Some(h) ==> h@ == hex_spec(self.personas()[res].verifying_key@)
            }),
    {
        let resolution = self.resolve(identity_id);
        match self.keys.get(resolution.resolved_id.as_str()) {
            Some(key) => Some(encode_hex(key.verifying_key.as_slice())),
            None => None,
        }
    }

    /// How the persona an id resolves to is protected.
    pub fn protection_for(&self, identity_id: &str) -> (r: Option<KeyProtection>)
        ensures
            ({
                let res = resolved_persona(self.personas(), self.fallback(), identity_id@);
                &&& r is Some <==> self.personas().dom().contains(res)
                &&& r matches Some(p) ==> p == self.personas()[res].protection
            }),
    {
        let resolution = self.resolve(identity_id);
        match self.keys.get(resolution.resolved_id.as_str()) {
            Some(key) => Some(key.protection),
            None => None,
        }
    }
}

impl Default for IdentityRegistry {
    /// Fresh ephemeral keys for the default and p2p personas and the default
    /// user key, and the locked persona.
    fn default() -> (r: Self)
        ensures
            r.personas().dom() == set![IDENTITY_ID_DEFAULT@, IDENTITY_ID_P2P@, IDENTITY_ID_LOCKED@],
            r.personas()[IDENTITY_ID_DEFAULT@].seed is Some,
            r.personas()[IDENTITY_ID_P2P@].seed is Some,
            r.personas()[IDENTITY_ID_LOCKED@].seed is None,
            r.personas()[IDENTITY_ID_DEFAULT@].protection == KeyProtection::Ephemeral,
            r.personas()[IDENTITY_ID_P2P@].protection == KeyProtection::Ephemeral,
            r.user_personas().dom() == set![IDENTITY_ID_DEFAULT@],
            r.user_personas()[IDENTITY_ID_DEFAULT@].secret is Some,
            r.fallback() == IDENTITY_ID_DEFAULT@,
            r.user_fallback() == IDENTITY_ID_DEFAULT@,
    {
        proof {
            reveal_strlit("identity:default");
            reveal_strlit("identity:p2p");
            reveal_strlit("identity:locked");
            assert(IDENTITY_ID_DEFAULT@.len() == 16);
            assert(IDENTITY_ID_P2P@.len() == 12);
            assert(IDENTITY_ID_LOCKED@.len() == 15);
        }
        let mut registry = IdentityRegistry::empty();
        registry.install_generated_persona(IDENTITY_ID_DEFAULT);
        assert(IDENTITY_ID_DEFAULT@ != IDENTITY_ID_P2P@);
        let ghost first = registry.personas();
        registry.install_generated_persona(IDENTITY_ID_P2P);
        assert(registry.personas()[IDENTITY_ID_DEFAULT@] == first[IDENTITY_ID_DEFAULT@]);
        registry.install_generated_user_persona(IDENTITY_ID_DEFAULT);
        let ghost mid = registry.personas();
        assert(IDENTITY_ID_DEFAULT@ != IDENTITY_ID_LOCKED@ && IDENTITY_ID_P2P@ != IDENTITY_ID_LOCKED@);
        registry.install_locked_persona(IDENTITY_ID_LOCKED);
        assert(registry.personas()[IDENTITY_ID_DEFAULT@] == mid[IDENTITY_ID_DEFAULT@]);
        assert(registry.personas()[IDENTITY_ID_P2P@] == mid[IDENTITY_ID_P2P@]);
        assert(registry.personas().dom() =~= set![IDENTITY_ID_DEFAULT@, IDENTITY_ID_P2P@, IDENTITY_ID_LOCKED@]);
        assert(registry.user_personas().dom() =~= set![IDENTITY_ID_DEFAULT@]);
        registry
    }
}

/// Whether the key's current or an archived verifying key accepts.
fn key_accepts(key: &IdentityKey, payload: &[u8], signature: &[u8; 64]) -> (r: bool)
    ensures
        r == persona_accepts(*key, payload@, signature@),
{
    if ed25519_verify(&key.verifying_key, payload, signature) {
        return true;
    }
    let n = key.archived_verifying_keys.len();
    let mut i: usize = 0;
    while i < n
        invariant
            n == key.archived_verifying_keys@.len(),
            i <= n,
            forall|j: int| 0 <= j < i ==> !ed25519_accepts(#[trigger] key.archived_verifying_keys@[j]@, payload@, signature@),
        decreases n - i,
    {
        if ed25519_verify(&key.archived_verifying_keys[i], payload, signature) {
            return true;
        }
        i = i + 1;
    }
    false
}

} // verus!
