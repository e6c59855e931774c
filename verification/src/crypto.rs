//! The cryptographic primitives the identity and nostr registries call:
//! Ed25519 persona keys, BIP-340 Schnorr user keys over secp256k1, SHA-256,
//! and fresh key material. Each is an outside call, and what each computes is
//! given a name here. JSON string quoting, which the signed texts are written
//! with, is stated and computed here too.

use vstd::prelude::*;

verus! {

/// The Ed25519 verifying key (compressed point) of a 32-byte signing seed.
pub uninterp spec fn ed25519_public(seed: Seq<u8>) -> Seq<u8>;

/// The Ed25519 signature (RFC 8032, deterministic) of `payload` under a seed.
pub uninterp spec fn ed25519_signature(seed: Seq<u8>, payload: Seq<u8>) -> Seq<u8>;

/// Whether Ed25519 verification accepts `signature` on `payload` under the
/// verifying key `public` (false where `public` is no curve point).
pub uninterp spec fn ed25519_accepts(public: Seq<u8>, payload: Seq<u8>, signature: Seq<u8>) -> bool;

/// The x-only public key of a secp256k1 secret; none where the bytes are no
/// valid secret (zero, or not below the group order).
pub uninterp spec fn secp_xonly_public(secret: Seq<u8>) -> Option<Seq<u8>>;

/// Whether 32 bytes are the compressed form of a point on the Ed25519 curve,
/// that is, a verifying key.
pub uninterp spec fn ed25519_point(bytes: Seq<u8>) -> bool;

/// The BIP-340 Schnorr signature, with no auxiliary randomness, of a 32-byte
/// message under a secp256k1 secret.
pub uninterp spec fn schnorr_signature(secret: Seq<u8>, message: Seq<u8>) -> Seq<u8>;

/// Whether BIP-340 verification accepts `signature` on `message` under the
/// x-only key `public` (false where `public` is no valid x coordinate).
pub uninterp spec fn schnorr_accepts(public: Seq<u8>, message: Seq<u8>, signature: Seq<u8>) -> bool;

/// Whether 32 bytes are the x-only public key of some secp256k1 secret, that
/// is, the x coordinate of a point on the curve other than infinity.
pub open spec fn secp_xonly_key(bytes: Seq<u8>) -> bool {
    exists|secret: Seq<u8>| secp_xonly_public(secret) == Some(bytes)
}

/// SHA-256 of the UTF-8 bytes of a text.
pub uninterp spec fn sha256_of_text(text: Seq<char>) -> Seq<u8>;

/// A character as it stands inside a JSON string literal written compactly:
/// quote and backslash escaped, the control characters below 0x20 as their
/// short escape where JSON has one and as `\u00XX` (lower-case hexadecimal)
/// otherwise, everything else as itself.
pub open spec fn json_escape(c: char) -> Seq<char> {
    if c == '"' {
        seq!['\\', '"']
    } else if c == '\\' {
        seq!['\\', '\\']
    } else if c == '\u{8}' {
        seq!['\\', 'b']
    } else if c == '\t' {
        seq!['\\', 't']
    } else if c == '\n' {
        seq!['\\', 'n']
    } else if c == '\u{c}' {
        seq!['\\', 'f']
    } else if c == '\r' {
        seq!['\\', 'r']
    } else if (c as u32) < 0x20 {
        seq!['\\', 'u', '0', '0', crate::hex::nibble_char(((c as u32) / 16) as u8), crate::hex::nibble_char(((c as u32) % 16) as u8)]
    } else {
        seq![c]
    }
}

/// The characters of a text, each escaped for a JSON string literal.
pub open spec fn json_escaped(text: Seq<char>) -> Seq<char>
    decreases text.len(),
{
    if text.len() == 0 {
        Seq::empty()
    } else {
        json_escaped(text.drop_last()) + json_escape(text.last())
    }
}

/// A text written as a JSON string literal, as `serde_json` writes one.
pub open spec fn json_quoted(text: Seq<char>) -> Seq<char> {
    seq!['"'] + json_escaped(text) + seq!['"']
}

/// Fresh random bytes for an Ed25519 signing seed.
///
/// Calls `rand::random`; nothing is stated of the bytes, which come from the
/// thread's cryptographic generator.
#[verifier::external_body]
pub(crate) fn random_seed() -> (r: [u8; 32]) {
    rand::random()
}

/// A fresh secp256k1 secret.
///
/// Calls `secp256k1::SecretKey::new`, which draws 32 random bytes until they
/// form a valid secret; so the secret has a public key.
#[verifier::external_body]
pub(crate) fn random_secp_secret() -> (r: [u8; 32])
    ensures
        secp_xonly_public(r@) is Some,
{
    secp256k1::SecretKey::new(&mut secp256k1::rand::rng()).secret_bytes()
}

/// The verifying key of an Ed25519 seed.
///
/// Calls `ed25519_dalek::SigningKey::from_bytes`, `verifying_key` and
/// `to_bytes`: the result is the name `ed25519_public` of the seed.
#[verifier::external_body]
pub(crate) fn ed25519_public_key(seed: &[u8; 32]) -> (r: [u8; 32])
    ensures
        r@ == ed25519_public(seed@),
{
    ed25519_dalek::SigningKey::from_bytes(seed).verifying_key().to_bytes()
}

/// Signs `payload` with an Ed25519 seed.
///
/// Calls `ed25519_dalek::Signer::sign` on `SigningKey::from_bytes(seed)`.
/// Claims the result is the name `ed25519_signature`, and that verification
/// under the seed's own verifying key accepts it (a key's own signature always
/// verifies).
#[verifier::external_body]
pub(crate) fn ed25519_sign(seed: &[u8; 32], payload: &[u8]) -> (r: [u8; 64])
    ensures
        r@ == ed25519_signature(seed@, payload@),
        ed25519_accepts(ed25519_public(seed@), payload@, r@),
{
    ed25519_dalek::Signer::sign(&ed25519_dalek::SigningKey::from_bytes(seed), payload).to_bytes()
}

/// Whether 32 bytes are an Ed25519 verifying key.
///
/// Calls `ed25519_dalek::VerifyingKey::from_bytes`: the result is whether it
/// succeeds, the name `ed25519_point`.
#[verifier::external_body]
pub(crate) fn ed25519_key_valid(bytes: &[u8; 32]) -> (r: bool)
    ensures
        r == ed25519_point(bytes@),
{
    ed25519_dalek::VerifyingKey::from_bytes(bytes).is_ok()
}

/// Reads an Ed25519 signature from bytes: the bytes themselves where there
/// are exactly 64 of them, as `ed25519_dalek::Signature::from_slice` reads
/// one.
pub(crate) fn ed25519_signature_from_slice(bytes: &[u8]) -> (r: Option<[u8; 64]>)
    ensures
        r is Some <==> bytes@.len() == 64,
        r matches Some(s) ==> s@ == bytes@,
{
    if bytes.len() == 64 {
        Some(crate::identity::to_array64(bytes))
    } else {
        None
    }
}

/// Verifies an Ed25519 signature.
///
/// Calls `ed25519_dalek::VerifyingKey::from_bytes` (false where it fails) and
/// `Verifier::verify`: the result is the name `ed25519_accepts`.
#[verifier::external_body]
pub(crate) fn ed25519_verify(public: &[u8; 32], payload: &[u8], signature: &[u8; 64]) -> (r: bool)
    ensures
        r == ed25519_accepts(public@, payload@, signature@),
{
    match ed25519_dalek::VerifyingKey::from_bytes(public) {
        Ok(key) => ed25519_dalek::Verifier::verify(
            &key,
            payload,
            &ed25519_dalek::Signature::from_bytes(signature),
        ).is_ok(),
        Err(_) => false,
    }
}

/// The x-only public key of a secp256k1 secret.
///
/// Calls `SecretKey::from_byte_array` (none where it fails), then
/// `Keypair::from_secret_key`, `XOnlyPublicKey::from_keypair` and `serialize`.
#[verifier::external_body]
pub(crate) fn secp_public_key(secret: &[u8; 32]) -> (r: Option<[u8; 32]>)
    ensures
        r is Some <==> secp_xonly_public(secret@) is Some,
        r matches Some(p) ==> secp_xonly_public(secret@) == Some(p@),
{
    match secp256k1::SecretKey::from_byte_array(*secret) {
        Ok(key) => Some(secp256k1::XOnlyPublicKey::from_keypair(
            &secp256k1::Keypair::from_secret_key(&secp256k1::Secp256k1::new(), &key),
        ).0.serialize()),
        Err(_) => None,
    }
}

/// Signs a 32-byte message with BIP-340 Schnorr and no auxiliary randomness.
///
/// Calls `Secp256k1::sign_schnorr_no_aux_rand` with the secret's keypair;
/// none where `SecretKey::from_byte_array` refuses the secret. Claims the
/// signature is the name `schnorr_signature`, and that verification under the
/// secret's own x-only key accepts it.
#[verifier::external_body]
pub(crate) fn schnorr_sign(secret: &[u8; 32], message: &[u8; 32]) -> (r: Option<[u8; 64]>)
    ensures
        r is Some <==> secp_xonly_public(secret@) is Some,
        r matches Some(s) ==> s@ == schnorr_signature(secret@, message@)
            && schnorr_accepts(secp_xonly_public(secret@)->0, message@, s@),
{
    match secp256k1::SecretKey::from_byte_array(*secret) {
        Ok(key) => Some(secp256k1::Secp256k1::new().sign_schnorr_no_aux_rand(
            message,
            &secp256k1::Keypair::from_secret_key(&secp256k1::Secp256k1::new(), &key),
        ).to_byte_array()),
        Err(_) => None,
    }
}

/// Verifies a BIP-340 Schnorr signature.
///
/// Calls `XOnlyPublicKey::from_byte_array` (false where it fails) and
/// `Secp256k1::verify_schnorr`: the result is the name `schnorr_accepts`.
#[verifier::external_body]
pub(crate) fn schnorr_verify(public: &[u8; 32], message: &[u8; 32], signature: &[u8; 64]) -> (r: bool)
    ensures
        r == schnorr_accepts(public@, message@, signature@),
{
    match secp256k1::XOnlyPublicKey::from_byte_array(*public) {
        Ok(key) => secp256k1::Secp256k1::verification_only().verify_schnorr(
            &secp256k1::schnorr::Signature::from_byte_array(*signature),
            message,
            &key,
        ).is_ok(),
        Err(_) => false,
    }
}

/// SHA-256 of a text's UTF-8 bytes.
///
/// Calls `sha2::Sha256::digest`: the result is the name `sha256_of_text`.
#[verifier::external_body]
pub(crate) fn sha256_text(text: &str) -> (r: [u8; 32])
    ensures
        r@ == sha256_of_text(text@),
{
    <sha2::Sha256 as sha2::Digest>::digest(text.as_bytes()).into()
}

/// A text as a JSON string literal (see `json_quoted`).
pub(crate) fn json_string(text: &str) -> (r: String)
    ensures
        r@ == json_quoted(text@),
{
    let n = text.unicode_len();
    let mut out = String::new();
    out.push('"');
    let mut i: usize = 0;
    while i < n
        invariant
            n == text@.len(),
            i <= n,
            out@ == seq!['"'] + json_escaped(text@.subrange(0, i as int)),
        decreases n - i,
    {
        let c = text.get_char(i);
        let ghost pre = text@.subrange(0, i + 1);
        assert(pre.drop_last() == text@.subrange(0, i as int));
        assert(pre.last() == c);
        let ghost before = out@;
        if c == '"' {
            out.push('\\');
            out.push('"');
        } else if c == '\\' {
            out.push('\\');
            out.push('\\');
        } else if c == '\u{8}' {
            out.push('\\');
            out.push('b');
        } else if c == '\t' {
            out.push('\\');
            out.push('t');
        } else if c == '\n' {
            out.push('\\');
            out.push('n');
        } else if c == '\u{c}' {
            out.push('\\');
            out.push('f');
        } else if c == '\r' {
            out.push('\\');
            out.push('r');
        } else if (c as u32) < 0x20 {
            let code: u32 = c as u32;
            out.push('\\');
            out.push('u');
            out.push('0');
            out.push('0');
            out.push(crate::hex::nibble_to_hex((code / 16) as u8));
            out.push(crate::hex::nibble_to_hex((code % 16) as u8));
        } else {
            out.push(c);
        }
        assert(out@ =~= before + json_escape(c));
        assert(out@ =~= seq!['"'] + json_escaped(pre));
        i = i + 1;
    }
    assert(text@.subrange(0, n as int) == text@);
    out.push('"');
    assert(out@ =~= json_quoted(text@));
    out
}

} // verus!
