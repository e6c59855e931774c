//! Who may have events signed: the permissions of a delegated (NIP-46)
//! signer and of web pages asking through the NIP-07 bridge.

use vstd::prelude::*;
use crate::text::{
    lower, trim, lower_seq, trim_seq, owned, str_eq, str_lt, seq_lt, has_char, before_seq, before_char,
    lemma_seq_lt_total, lemma_seq_lt_transitive, join2, join3, strs, trim_char, trim_char_seq, split_char, split_seq,
};
use crate::nostr::{NostrCoreError, decimal, decimal_spec, normalize_relays, normalize_relays_spec};

verus! {

#[derive(Debug, Clone, Copy, PartialEq, Eq, Structural)]
pub enum Nip46PermissionDecision {
    Pending,
    Allow,
    Deny,
}

#[derive(Debug, Clone, Copy, PartialEq, Eq, Structural)]
pub enum Nip07PermissionDecision {
    Pending,
    Allow,
    Deny,
}

#[derive(Debug, Clone, PartialEq, Eq)]
pub struct Nip46PermissionGrant {
    pub permission: String,
    pub decision: Nip46PermissionDecision,
}

#[derive(Debug, Clone, PartialEq, Eq)]
pub struct Nip07PermissionGrant {
    pub origin: String,
    pub method: String,
    pub decision: Nip07PermissionDecision,
}

/// A delegated signer's configuration.
#[derive(Debug)]
pub struct Nip46DelegateConfig {
    pub relay_urls: Vec<String>,
    pub signer_pubkey: String,
    pub shared_secret: Option<String>,
    pub requested_permissions: Vec<String>,
    pub permission_grants: Vec<Nip46PermissionGrant>,
    pub signer_user_pubkey: Option<String>,
    pub connected: bool,
}

#[derive(Debug)]
pub enum NostrSignerBackend {
    LocalHostKey,
    Nip46Delegated(Nip46DelegateConfig),
}

#[derive(Debug, Clone, PartialEq, Eq)]
pub struct PersistedNip46SignerSettings {
    pub relay_urls: Vec<String>,
    pub signer_pubkey: String,
    pub requested_permissions: Vec<String>,
    pub permission_grants: Vec<Nip46PermissionGrant>,
}

#[derive(Debug, Clone, PartialEq, Eq)]
pub enum PersistedNostrSignerSettings {
    LocalHostKey,
    Nip46Delegated(PersistedNip46SignerSettings),
}

#[derive(Debug, Clone, PartialEq, Eq)]
pub enum NostrSignerBackendSnapshot {
    LocalHostKey,
    Nip46Delegated {
        relay_urls: Vec<String>,
        signer_pubkey: String,
        has_ephemeral_secret: bool,
        requested_permissions: Vec<String>,
        permission_grants: Vec<Nip46PermissionGrant>,
        signer_user_pubkey: Option<String>,
        connected: bool,
    },
}

#[derive(Debug, Clone, PartialEq, Eq)]
pub struct ParsedNip46BunkerUri {
    pub relay_urls: Vec<String>,
    pub signer_pubkey: String,
    pub shared_secret: Option<String>,
    pub requested_permissions: Vec<String>,
}

/// The parts of a URL that the signer reads.
pub struct UrlParts {
    pub scheme: String,
    pub host: Option<String>,
    pub port: Option<u16>,
    pub path: String,
    pub query: Vec<(String, String)>,
    /// The URL as the parser writes it back.
    pub serialization: String,
}

pub open spec fn opt_view(o: Option<String>) -> Option<Seq<char>> {
    match o {
        Some(s) => Some(s@),
        None => None,
    }
}

impl View for UrlParts {
    type V = (Seq<char>, Option<Seq<char>>, Option<u16>, Seq<char>, Seq<(Seq<char>, Seq<char>)>, Seq<char>);

    open spec fn view(&self) -> Self::V {
        (
            self.scheme@,
            opt_view(self.host),
            self.port,
            self.path@,
            self.query@.map_values(|q: (String, String)| (q.0@, q.1@)),
            self.serialization@,
        )
    }
}

/// What `url::Url::parse` makes of a text: its scheme, host, explicit
/// non-default port, path, decoded query pairs and serialization; or the parse
/// error's text.
pub uninterp spec fn url_parse(text: Seq<char>) -> Result<(Seq<char>, Option<Seq<char>>, Option<u16>, Seq<char>, Seq<(Seq<char>, Seq<char>)>, Seq<char>), Seq<char>>;

/// What `nostr::PublicKey::parse` makes of a text (hexadecimal, bech32
/// `npub`/`nprofile` or a `nostr:` URI): the key in lower-case hexadecimal, or
/// the parse error's text.
pub uninterp spec fn nostr_public_key_parse(text: Seq<char>) -> Result<Seq<char>, Seq<char>>;

/// Parses a URL.
///
/// Calls `url::Url::parse` and reads `scheme`, `host_str`, `port`, `path`,
/// `query_pairs` and `as_str`; the result is the name `url_parse`.
#[verifier::external_body]
pub(crate) fn parse_url(text: &str) -> (r: Result<UrlParts, String>)
    ensures
        match r {
            Ok(p) => url_parse(text@) == Ok::<_, Seq<char>>(p@),
            Err(e) => url_parse(text@) == Err::<(Seq<char>, Option<Seq<char>>, Option<u16>, Seq<char>, Seq<(Seq<char>, Seq<char>)>, Seq<char>), Seq<char>>(e@),
        },
{
    match url::Url::parse(text) {
        Ok(url) => Ok(UrlParts {
            scheme: url.scheme().to_string(),
            host: url.host_str().map(str::to_string),
            port: url.port(),
            path: url.path().to_string(),
            query: url.query_pairs().map(|(k, v)| (k.into_owned(), v.into_owned())).collect(),
            serialization: url.as_str().to_string(),
        }),
        Err(error) => Err(error.to_string()),
    }
}

/// Parses a nostr public key.
///
/// Calls `nostr::PublicKey::parse` and `to_hex`; the result is the name
/// `nostr_public_key_parse`, and the hexadecimal `to_hex` writes is of the
/// key's 32 bytes.
#[verifier::external_body]
pub(crate) fn parse_public_key_hex(text: &str) -> (r: Result<String, String>)
    ensures
        match r {
            Ok(k) => nostr_public_key_parse(text@) == Ok::<Seq<char>, Seq<char>>(k@),
            Err(e) => nostr_public_key_parse(text@) == Err::<Seq<char>, Seq<char>>(e@),
        },
        r matches Ok(k) ==> (crate::hex::unhex_spec(k@) matches Some(b) && b.len() == 32),
{
    match ::nostr::key::PublicKey::parse(text) {
        Ok(key) => Ok(key.to_hex()),
        Err(error) => Err(error.to_string()),
    }
}

/// The message a public key that does not parse is refused with.
pub open spec fn bad_key_message(text: Seq<char>, error: Seq<char>) -> Seq<char> {
    "invalid nostr public key '"@ + text + "': "@ + error
}

/// A nostr public key, trimmed and parsed, in lower-case hexadecimal.
pub open spec fn public_key_hex(text: Seq<char>) -> Result<Seq<char>, Seq<char>> {
    match nostr_public_key_parse(trim_seq(text)) {
        Ok(k) => Ok(k),
        Err(e) => Err(bad_key_message(text, e)),
    }
}

/// A nostr public key in lower-case hexadecimal (see `public_key_hex`).
pub fn parse_nostr_public_key(text: &str) -> (r: Result<String, NostrCoreError>)
    ensures
        match public_key_hex(text@) {
            Ok(k) => r matches Ok(h) && h@ == k,
            Err(m) => r matches Err(NostrCoreError::ValidationFailed(e)) && e@ == m,
        },
        r matches Ok(h) ==> (crate::hex::unhex_spec(h@) matches Some(b) && b.len() == 32),
{
    match parse_public_key_hex(trim(text).as_str()) {
        Ok(hex) => Ok(hex),
        Err(error) => {
            let mut message = join3("invalid nostr public key '", text, "': ");
            message.append(error.as_str());
            Err(NostrCoreError::ValidationFailed(message))
        },
    }
}

pub open spec fn query_views(q: Seq<(String, String)>) -> Seq<(Seq<char>, Seq<char>)> {
    q.map_values(|p: (String, String)| (p.0@, p.1@))
}

/// The value of the first `pubkey` or `remote-signer-pubkey` query pair.
pub open spec fn query_pubkey(q: Seq<(Seq<char>, Seq<char>)>) -> Option<Seq<char>>
    decreases q.len(),
{
    if q.len() == 0 {
        None
    } else if q[0].0 == "pubkey"@ || q[0].0 == "remote-signer-pubkey"@ {
        Some(q[0].1)
    } else {
        query_pubkey(q.drop_first())
    }
}

/// The remote signer a bunker URI names: its host, else its path without
/// slashes, else its `pubkey` query pair.
pub open spec fn bunker_signer(host: Option<Seq<char>>, path: Seq<char>, q: Seq<(Seq<char>, Seq<char>)>) -> Option<Seq<char>> {
    let authority = trim_seq(match host {
        Some(h) => h,
        None => Seq::empty(),
    });
    let path_identity = trim_char_seq(path, '/');
    if authority.len() > 0 {
        Some(authority)
    } else if path_identity.len() > 0 {
        Some(path_identity)
    } else {
        query_pubkey(q)
    }
}

/// The `relay` query values, in order.
pub open spec fn bunker_relays(q: Seq<(Seq<char>, Seq<char>)>) -> Seq<Seq<char>>
    decreases q.len(),
{
    if q.len() == 0 {
        Seq::empty()
    } else if q.last().0 == "relay"@ {
        bunker_relays(q.drop_last()).push(q.last().1)
    } else {
        bunker_relays(q.drop_last())
    }
}

/// The last non-blank `secret` query value, trimmed.
pub open spec fn bunker_secret(q: Seq<(Seq<char>, Seq<char>)>) -> Option<Seq<char>>
    decreases q.len(),
{
    if q.len() == 0 {
        None
    } else if q.last().0 == "secret"@ && trim_seq(q.last().1).len() > 0 {
        Some(trim_seq(q.last().1))
    } else {
        bunker_secret(q.drop_last())
    }
}

/// The normalized, non-blank permissions of a list.
pub open spec fn normalized_permissions(ps: Seq<Seq<char>>) -> Seq<Seq<char>>
    decreases ps.len(),
{
    if ps.len() == 0 {
        Seq::empty()
    } else if norm_permission(ps.last()).len() > 0 {
        normalized_permissions(ps.drop_last()).push(norm_permission(ps.last()))
    } else {
        normalized_permissions(ps.drop_last())
    }
}

/// The permissions the `perms` query values list, comma-separated.
pub open spec fn bunker_perms(q: Seq<(Seq<char>, Seq<char>)>) -> Seq<Seq<char>>
    decreases q.len(),
{
    if q.len() == 0 {
        Seq::empty()
    } else if q.last().0 == "perms"@ {
        bunker_perms(q.drop_last()) + normalized_permissions(split_seq(q.last().1, ','))
    } else {
        bunker_perms(q.drop_last())
    }
}

/// What a bunker URI gives: its relays, the signer's key in hexadecimal, the
/// shared secret and the permissions asked for; or why it is refused.
pub open spec fn bunker_parse(uri: Seq<char>) -> Result<(Seq<Seq<char>>, Seq<char>, Option<Seq<char>>, Seq<Seq<char>>), Seq<char>> {
    match url_parse(trim_seq(uri)) {
        Err(e) => Err("invalid bunker uri: "@ + e),
        Ok(p) => if !(p.0 == "bunker"@ || p.0 == "nostrconnect"@) {
            Err("unsupported bunker uri scheme '"@ + p.0 + "'"@)
        } else {
            match bunker_signer(p.1, p.3, p.4) {
                None => Err("bunker uri missing remote signer pubkey"@),
                Some(signer) => match public_key_hex(signer) {
                    Err(m) => Err(m),
                    Ok(pk) => {
                        let relays = normalize_relays_spec(bunker_relays(p.4));
                        if relays.len() == 0 {
                            Err("bunker uri requires at least one valid relay"@)
                        } else {
                            Ok((relays, pk, bunker_secret(p.4), requested_permissions(bunker_perms(p.4))))
                        }
                    },
                },
            }
        },
    }
}

impl ParsedNip46BunkerUri {
    pub open spec fn parts(self) -> (Seq<Seq<char>>, Seq<char>, Option<Seq<char>>, Seq<Seq<char>>) {
        (strs(self.relay_urls@), self.signer_pubkey@, opt_view(self.shared_secret), strs(self.requested_permissions@))
    }
}

fn first_query_pubkey(q: &Vec<(String, String)>) -> (r: Option<String>)
    ensures
        opt_view(r) == query_pubkey(query_views(q@)),
{
    let ghost qs = query_views(q@);
    assert(qs.subrange(0, qs.len() as int) =~= qs);
    let mut i: usize = 0;
    while i < q.len()
        invariant
            i <= q@.len(),
            qs == query_views(q@),
            query_pubkey(qs) == query_pubkey(qs.subrange(i as int, qs.len() as int)),
        decreases q@.len() - i,
    {
        let ghost rest = qs.subrange(i as int, qs.len() as int);
        assert(rest.drop_first() == qs.subrange(i + 1, qs.len() as int));
        assert(rest[0] == qs[i as int]);
        if str_eq(q[i].0.as_str(), "pubkey") || str_eq(q[i].0.as_str(), "remote-signer-pubkey") {
            return Some(owned(q[i].1.as_str()));
        }
        i = i + 1;
    }
    None
}

fn push_normalized_permissions(out: &mut Vec<String>, value: &str)
    ensures
        strs(final(out)@) == strs(old(out)@) + normalized_permissions(split_seq(value@, ',')),
{
    let pieces = split_char(value, ',');
    let ghost ps = pieces@.map_values(|l: String| l@);
    let ghost start = strs(out@);
    let mut i: usize = 0;
    while i < pieces.len()
        invariant
            i <= pieces@.len(),
            ps == pieces@.map_values(|l: String| l@),
            ps == split_seq(value@, ','),
            strs(out@) == start + normalized_permissions(ps.subrange(0, i as int)),
        decreases pieces@.len() - i,
    {
        let ghost pre = ps.subrange(0, i + 1);
        assert(pre.drop_last() == ps.subrange(0, i as int));
        assert(pre.last() == pieces@[i as int]@);
        if let Some(p) = normalize_permission(pieces[i].as_str()) {
            let ghost before = strs(out@);
            let ghost pv = p@;
            out.push(p);
            assert(strs(out@) =~= before.push(pv));
            assert(start + normalized_permissions(pre) =~= (start + normalized_permissions(pre.drop_last())).push(pv));
        }
        i = i + 1;
    }
    assert(ps.subrange(0, pieces@.len() as int) == ps);
}

/// Reads a NIP-46 bunker URI (see `bunker_parse`).
pub fn parse_nip46_bunker_uri(bunker_uri: &str) -> (r: Result<ParsedNip46BunkerUri, NostrCoreError>)
    ensures
        match bunker_parse(bunker_uri@) {
            Ok(parts) => r matches Ok(p) && p.parts() == parts,
            Err(m) => r matches Err(NostrCoreError::ValidationFailed(e)) && e@ == m,
        },
{
    let parsed = match parse_url(trim(bunker_uri).as_str()) {
        Ok(parsed) => parsed,
        Err(error) => return Err(NostrCoreError::ValidationFailed(join2("invalid bunker uri: ", error.as_str()))),
    };
    if !(str_eq(parsed.scheme.as_str(), "bunker") || str_eq(parsed.scheme.as_str(), "nostrconnect")) {
        return Err(NostrCoreError::ValidationFailed(join3("unsupported bunker uri scheme '", parsed.scheme.as_str(), "'")));
    }
    let authority = match &parsed.host {
        Some(host) => trim(host.as_str()),
        None => String::new(),
    };
    let path_identity = trim_char(parsed.path.as_str(), '/');
    let signer = if authority.unicode_len() > 0 {
        authority
    } else if path_identity.unicode_len() > 0 {
        path_identity
    } else {
        match first_query_pubkey(&parsed.query) {
            Some(value) => value,
            None => return Err(NostrCoreError::ValidationFailed(owned("bunker uri missing remote signer pubkey"))),
        }
    };
    let signer_pubkey = match parse_nostr_public_key(signer.as_str()) {
        Ok(hex) => hex,
        Err(error) => return Err(error),
    };
    let ghost qs = query_views(parsed.query@);
    let mut relay_urls: Vec<String> = Vec::new();
    let mut shared_secret: Option<String> = None;
    let mut requested: Vec<String> = Vec::new();
    let mut i: usize = 0;
    while i < parsed.query.len()
        invariant
            i <= parsed.query@.len(),
            qs == query_views(parsed.query@),
            strs(relay_urls@) == bunker_relays(qs.subrange(0, i as int)),
            opt_view(shared_secret) == bunker_secret(qs.subrange(0, i as int)),
            strs(requested@) == bunker_perms(qs.subrange(0, i as int)),
        decreases parsed.query@.len() - i,
    {
        let ghost pre = qs.subrange(0, i + 1);
        assert(pre.drop_last() == qs.subrange(0, i as int));
        assert(pre.last() == qs[i as int]);
        proof {
            reveal_strlit("relay");
            reveal_strlit("secret");
            reveal_strlit("perms");
            assert("relay"@.len() != "secret"@.len() && "perms"@.len() != "secret"@.len());
            assert("relay"@[0] != "perms"@[0]);
        }
        let key = parsed.query[i].0.as_str();
        let value = parsed.query[i].1.as_str();
        if str_eq(key, "relay") {
            let ghost before = strs(relay_urls@);
            relay_urls.push(owned(value));
            assert(strs(relay_urls@) =~= before.push(value@));
        } else if str_eq(key, "secret") {
            let secret = trim(value);
            if secret.unicode_len() > 0 {
                shared_secret = Some(secret);
            }
        } else if str_eq(key, "perms") {
            push_normalized_permissions(&mut requested, value);
        }
        i = i + 1;
    }
    assert(qs.subrange(0, parsed.query@.len() as int) == qs);
    let relay_urls = normalize_relays(&relay_urls);
    if relay_urls.len() == 0 {
        return Err(NostrCoreError::ValidationFailed(owned("bunker uri requires at least one valid relay")));
    }
    let requested_permissions = normalize_requested_permissions(&requested);
    assert(requested_permissions@.map_values(|x: String| x@) == strs(requested_permissions@));
    assert(requested@.map_values(|x: String| x@) == strs(requested@));
    Ok(ParsedNip46BunkerUri { relay_urls, signer_pubkey, shared_secret, requested_permissions })
}

/// A delegated signer's configuration, as values.
pub open spec fn config_parts(c: Nip46DelegateConfig) -> (
    Seq<Seq<char>>,
    Seq<char>,
    Option<Seq<char>>,
    Seq<Seq<char>>,
    Seq<(Seq<char>, Nip46PermissionDecision)>,
    Option<Seq<char>>,
    bool,
) {
    (
        strs(c.relay_urls@),
        c.signer_pubkey@,
        opt_view(c.shared_secret),
        strs(c.requested_permissions@),
        grant_views(c.permission_grants@),
        opt_view(c.signer_user_pubkey),
        c.connected,
    )
}

/// The permission a delegated signer must grant to sign events of a kind.
pub open spec fn sign_permission(kind: u16) -> Seq<char> {
    "sign_event:"@ + decimal_spec(kind as u64)
}

/// What a delegated signer's grants say of a permission, as an error where
/// it is not allowed.
pub open spec fn nip46_refusal(gs: Seq<(Seq<char>, Nip46PermissionDecision)>, permission: Seq<char>) -> Option<Seq<char>> {
    match nip46_decision(gs, permission) {
        Nip46PermissionDecision::Allow => None,
        Nip46PermissionDecision::Pending => Some(
            "nip46 permission pending for '"@ + permission + "'; allow it in Settings -> Sync"@,
        ),
        Nip46PermissionDecision::Deny => Some("nip46 permission denied for '"@ + permission + "'"@),
    }
}

pub fn copy_grants(gs: &Vec<Nip46PermissionGrant>) -> (r: Vec<Nip46PermissionGrant>)
    ensures
        grant_views(r@) == grant_views(gs@),
{
    let mut out: Vec<Nip46PermissionGrant> = Vec::new();
    let mut i: usize = 0;
    while i < gs.len()
        invariant
            i <= gs@.len(),
            grant_views(out@) == grant_views(gs@.subrange(0, i as int)),
        decreases gs@.len() - i,
    {
        let g = Nip46PermissionGrant { permission: owned(gs[i].permission.as_str()), decision: gs[i].decision };
        let ghost prev = out@;
        let ghost gv = (g.permission@, g.decision);
        out.push(g);
        assert(out@ == prev.push(g));
        assert(grant_views(out@) =~= grant_views(prev).push(gv));
        assert(gs@.subrange(0, i + 1) =~= gs@.subrange(0, i as int).push(gs@[i as int]));
        assert(grant_views(gs@.subrange(0, i + 1)) =~= grant_views(gs@.subrange(0, i as int)).push(gv));
        i = i + 1;
    }
    assert(gs@.subrange(0, gs@.len() as int) == gs@);
    out
}

pub fn copy_opt(o: &Option<String>) -> (r: Option<String>)
    ensures
        opt_view(r) == opt_view(*o),
{
    match o {
        Some(s) => Some(owned(s.as_str())),
        None => None,
    }
}

/// Whether a delegated signer's grants allow a permission.
pub fn ensure_nip46_permission_allowed(grants: &Vec<Nip46PermissionGrant>, permission: &str) -> (r: Result<(), NostrCoreError>)
    ensures
        match nip46_refusal(grant_views(grants@), permission@) {
            None => r is Ok,
            Some(m) => r matches Err(NostrCoreError::ValidationFailed(e)) && e@ == m,
        },
{
    match resolve_nip46_permission_decision(grants, permission) {
        Nip46PermissionDecision::Allow => Ok(()),
        Nip46PermissionDecision::Pending => {
            let mut message = join3("nip46 permission pending for '", permission, "'; allow it in Settings -> Sync");
            Err(NostrCoreError::ValidationFailed(message))
        },
        Nip46PermissionDecision::Deny => Err(NostrCoreError::ValidationFailed(join3("nip46 permission denied for '", permission, "'"))),
    }
}

/// Puts a permission's decision in the grants: replaces the first grant of
/// it, or adds one and sorts the grants by permission (a stable sort).
pub fn upsert_nip46_grant(grants: &mut Vec<Nip46PermissionGrant>, permission: String, decision: Nip46PermissionDecision)
    ensures
        ({
            let gs = grant_views(old(grants)@);
            let after = grant_views(final(grants)@);
            match first_grant_index(gs, permission@) {
                Some(i) => after == gs.update(i, (permission@, decision)),
                None => nip46_sorted(after) && after.to_multiset() == gs.push((permission@, decision)).to_multiset(),
            }
        }),
{
    broadcast use vstd::seq_lib::group_to_multiset_ensures;
    let ghost gs = grant_views(grants@);
    let ghost pv = permission@;
    let n = grants.len();
    let mut i: usize = 0;
    while i < n
        invariant
            n == grants@.len(),
            i <= n,
            gs == grant_views(grants@),
            first_grant_index(gs, pv) == first_grant_index_from(gs, pv, i as int),
            permission@ == pv,
            gs == grant_views(old(grants)@),
        decreases n - i,
    {
        assert(gs[i as int] == (grants@[i as int].permission@, grants@[i as int].decision));
        if str_eq(grants[i].permission.as_str(), permission.as_str()) {
            assert(gs[i as int].0 == pv);
            assert(first_grant_index_from(gs, pv, i as int) == Some(i as int));
            let g = Nip46PermissionGrant { permission, decision };
            grants.set(i, g);
            assert(grant_views(grants@) =~= gs.update(i as int, (pv, decision)));
            assert(first_grant_index(gs, pv) == Some(i as int));
            assert(gs == grant_views(old(grants)@));
            return;
        }
        i = i + 1;
    }
    let mut all = copy_grants(grants);
    all.push(Nip46PermissionGrant { permission, decision });
    assert(grant_views(all@) =~= gs.push((pv, decision)));
    let sorted = sorted_nip46_grants(&all);
    *grants = sorted;
}

/// The index of the first grant of exactly `p`, searching from `from`.
pub open spec fn first_grant_index_from(gs: Seq<(Seq<char>, Nip46PermissionDecision)>, p: Seq<char>, from: int) -> Option<int>
    decreases gs.len() - from,
{
    if from < 0 || from >= gs.len() {
        None
    } else if gs[from].0 == p {
        Some(from)
    } else {
        first_grant_index_from(gs, p, from + 1)
    }
}

/// The index of the first grant of exactly `p`.
pub open spec fn first_grant_index(gs: Seq<(Seq<char>, Nip46PermissionDecision)>, p: Seq<char>) -> Option<int> {
    first_grant_index_from(gs, p, 0)
}

/// Grants listed by permission.
pub open spec fn nip46_sorted(gs: Seq<(Seq<char>, Nip46PermissionDecision)>) -> bool {
    forall|i: int, j: int| 0 <= i < j < gs.len() ==> !seq_lt(#[trigger] gs[j].0, #[trigger] gs[i].0)
}

/// The grants sorted by permission (a stable sort).
pub fn sorted_nip46_grants(grants: &Vec<Nip46PermissionGrant>) -> (r: Vec<Nip46PermissionGrant>)
    ensures
        nip46_sorted(grant_views(r@)),
        grant_views(r@).to_multiset() == grant_views(grants@).to_multiset(),
{
    broadcast use vstd::seq_lib::group_to_multiset_ensures;
    let ghost gs = grant_views(grants@);
    let mut out: Vec<Nip46PermissionGrant> = Vec::new();
    let mut i: usize = 0;
    while i < grants.len()
        invariant
            i <= grants@.len(),
            gs == grant_views(grants@),
            nip46_sorted(grant_views(out@)),
            grant_views(out@).to_multiset() == gs.subrange(0, i as int).to_multiset(),
        decreases grants@.len() - i,
    {
        let g = Nip46PermissionGrant { permission: owned(grants[i].permission.as_str()), decision: grants[i].decision };
        let ghost gv = (g.permission@, g.decision);
        let ghost ov = grant_views(out@);
        let n = out.len();
        let mut p: usize = 0;
        while p < n && !str_lt(g.permission.as_str(), out[p].permission.as_str())
            invariant
                n == out@.len(),
                p <= n,
                ov == grant_views(out@),
                gv == (g.permission@, g.decision),
                forall|k: int| 0 <= k < p ==> !seq_lt(gv.0, #[trigger] ov[k].0),
            decreases n - p,
        {
            p = p + 1;
        }
        proof {
            if p < n {
                assert forall|k: int| p <= k < n implies !seq_lt(#[trigger] ov[k].0, gv.0) by {
                    lemma_seq_lt_total(ov[p as int].0, gv.0);
                    if k > p {
                        assert(!seq_lt(ov[k].0, ov[p as int].0));
                        lemma_seq_lt_total(ov[k].0, ov[p as int].0);
                        if seq_lt(ov[k].0, gv.0) {
                            if ov[k].0 == ov[p as int].0 {
                            } else {
                                lemma_seq_lt_transitive(ov[p as int].0, ov[k].0, gv.0);
                            }
                        }
                    }
                }
            }
        }
        out.insert(p, g);
        proof {
            let nv = grant_views(out@);
            assert(nv =~= ov.insert(p as int, gv));
            assert(gs.subrange(0, i + 1) =~= gs.subrange(0, i as int).push(gs[i as int]));
            assert(gs[i as int] == gv);
            vstd::seq_lib::to_multiset_insert(ov, p as int, gv);
            vstd::seq_lib::to_multiset_build(gs.subrange(0, i as int), gv);
            assert forall|a: int, b: int| 0 <= a < b < nv.len() implies !seq_lt(#[trigger] nv[b].0, #[trigger] nv[a].0) by {
                if b < p {
                    assert(nv[a] == ov[a] && nv[b] == ov[b]);
                } else if b == p {
                    assert(nv[a] == ov[a]);
                } else if a == p {
                    assert(nv[b] == ov[b - 1]);
                } else if a < p {
                    assert(nv[a] == ov[a] && nv[b] == ov[b - 1]);
                    lemma_seq_lt_total(ov[a].0, gv.0);
                    lemma_seq_lt_total(gv.0, ov[b - 1].0);
                    if seq_lt(ov[b - 1].0, ov[a].0) {
                        if ov[a].0 == gv.0 {
                        } else {
                            lemma_seq_lt_transitive(ov[b - 1].0, ov[a].0, gv.0);
                        }
                    }
                } else {
                    assert(nv[a] == ov[a - 1] && nv[b] == ov[b - 1]);
                }
            }
        }
        i = i + 1;
    }
    assert(gs.subrange(0, grants@.len() as int) == gs);
    out
}

/// A permission as it is kept: trimmed and lower-cased.
pub open spec fn norm_permission(p: Seq<char>) -> Seq<char> {
    lower_seq(trim_seq(p))
}

/// The permissions asked for, normalized, blank ones dropped, each once, in
/// the order they first occur.
pub open spec fn requested_permissions(ps: Seq<Seq<char>>) -> Seq<Seq<char>>
    decreases ps.len(),
{
    if ps.len() == 0 {
        Seq::empty()
    } else {
        let prev = requested_permissions(ps.drop_last());
        let n = norm_permission(ps.last());
        if n.len() == 0 || prev.contains(n) {
            prev
        } else {
            prev.push(n)
        }
    }
}

/// The decision each permission gets from a list of grants: the first grant
/// of a normalized permission wins; blank permissions are dropped.
pub open spec fn grant_map(gs: Seq<(Seq<char>, Nip46PermissionDecision)>) -> Map<Seq<char>, Nip46PermissionDecision>
    decreases gs.len(),
{
    if gs.len() == 0 {
        Map::empty()
    } else {
        let m = grant_map(gs.drop_last());
        let n = norm_permission(gs.last().0);
        if n.len() == 0 || m.dom().contains(n) {
            m
        } else {
            m.insert(n, gs.last().1)
        }
    }
}

pub open spec fn grant_views(gs: Seq<Nip46PermissionGrant>) -> Seq<(Seq<char>, Nip46PermissionDecision)> {
    gs.map_values(|g: Nip46PermissionGrant| (g.permission@, g.decision))
}

/// Grants sorted strictly by permission.
pub open spec fn grants_sorted(gs: Seq<(Seq<char>, Nip46PermissionDecision)>) -> bool {
    forall|i: int, j: int| 0 <= i < j < gs.len() ==> seq_lt(#[trigger] gs[i].0, #[trigger] gs[j].0)
}

/// The grants are exactly the map, one per permission.
pub open spec fn grants_represent(gs: Seq<(Seq<char>, Nip46PermissionDecision)>, m: Map<Seq<char>, Nip46PermissionDecision>) -> bool {
    &&& forall|i: int| 0 <= i < gs.len() ==> m.dom().contains(#[trigger] gs[i].0) && m[gs[i].0] == gs[i].1
    &&& forall|k: Seq<char>| m.dom().contains(k) ==> exists|i: int| 0 <= i < gs.len() && #[trigger] gs[i].0 == k
}

/// The decision of the first grant of exactly `p`.
pub open spec fn first_grant(gs: Seq<(Seq<char>, Nip46PermissionDecision)>, p: Seq<char>) -> Option<Nip46PermissionDecision>
    decreases gs.len(),
{
    if gs.len() == 0 {
        None
    } else if gs[0].0 == p {
        Some(gs[0].1)
    } else {
        first_grant(gs.drop_first(), p)
    }
}

/// How a delegated signer decides a permission: the grant of the permission,
/// else the grant of the part before its first ':', else pending.
pub open spec fn nip46_decision(gs: Seq<(Seq<char>, Nip46PermissionDecision)>, requested: Seq<char>) -> Nip46PermissionDecision {
    let r = norm_permission(requested);
    if r.len() == 0 {
        Nip46PermissionDecision::Pending
    } else {
        match first_grant(gs, r) {
            Some(d) => d,
            None => if has_char(r, ':') {
                match first_grant(gs, before_seq(r, ':')) {
                    Some(d) => d,
                    None => Nip46PermissionDecision::Pending,
                }
            } else {
                Nip46PermissionDecision::Pending
            },
        }
    }
}

pub open spec fn nip07_views(gs: Seq<Nip07PermissionGrant>) -> Seq<(Seq<char>, Seq<char>, Nip07PermissionDecision)> {
    gs.map_values(|g: Nip07PermissionGrant| (g.origin@, g.method@, g.decision))
}

/// The index of the first grant for an origin and method.
pub open spec fn nip07_index(gs: Seq<(Seq<char>, Seq<char>, Nip07PermissionDecision)>, origin: Seq<char>, method: Seq<char>) -> int
    decreases gs.len(),
{
    if gs.len() == 0 {
        -1
    } else if gs.last().0 == origin && gs.last().1 == method && nip07_index(gs.drop_last(), origin, method) < 0 {
        gs.len() - 1
    } else {
        nip07_index(gs.drop_last(), origin, method)
    }
}

/// The order NIP-07 grants are listed in: by origin, then by method.
pub open spec fn nip07_le(a: (Seq<char>, Seq<char>, Nip07PermissionDecision), b: (Seq<char>, Seq<char>, Nip07PermissionDecision)) -> bool {
    seq_lt(a.0, b.0) || (a.0 == b.0 && !seq_lt(b.1, a.1))
}

/// A permission, normalized; none where it is blank.
pub fn normalize_permission(permission: &str) -> (r: Option<String>)
    ensures
        r is Some <==> norm_permission(permission@).len() > 0,
        r matches Some(p) ==> p@ == norm_permission(permission@),
{
    let normalized = lower(trim(permission).as_str());
    if normalized.unicode_len() == 0 {
        None
    } else {
        Some(normalized)
    }
}

fn contains_str(v: &Vec<String>, s: &str) -> (r: bool)
    ensures
        r == v@.map_values(|x: String| x@).contains(s@),
{
    let ghost views = v@.map_values(|x: String| x@);
    let mut i: usize = 0;
    while i < v.len()
        invariant
            i <= v@.len(),
            views == v@.map_values(|x: String| x@),
            forall|k: int| 0 <= k < i ==> views[k] != s@,
        decreases v@.len() - i,
    {
        if str_eq(v[i].as_str(), s) {
            assert(views[i as int] == s@);
            return true;
        }
        i = i + 1;
    }
    false
}

/// The permissions asked for, normalized and each once.
pub fn normalize_requested_permissions(permissions: &Vec<String>) -> (r: Vec<String>)
    ensures
        r@.map_values(|x: String| x@) == requested_permissions(permissions@.map_values(|x: String| x@)),
{
    let ghost ps = permissions@.map_values(|x: String| x@);
    let mut out: Vec<String> = Vec::new();
    let mut i: usize = 0;
    while i < permissions.len()
        invariant
            i <= permissions@.len(),
            ps == permissions@.map_values(|x: String| x@),
            out@.map_values(|x: String| x@) == requested_permissions(ps.subrange(0, i as int)),
        decreases permissions@.len() - i,
    {
        let ghost pre = ps.subrange(0, i + 1);
        assert(pre.drop_last() == ps.subrange(0, i as int));
        assert(pre.last() == permissions@[i as int]@);
        match normalize_permission(permissions[i].as_str()) {
            Some(p) => {
                if !contains_str(&out, p.as_str()) {
                    let ghost before = out@.map_values(|x: String| x@);
                    let ghost pv = p@;
                    out.push(p);
                    assert(out@.map_values(|x: String| x@) =~= before.push(pv));
                }
            },
            None => {},
        }
        i = i + 1;
    }
    assert(ps.subrange(0, permissions@.len() as int) == ps);
    out
}

/// The decision the first grant of exactly `permission` gives.
fn find_grant(grants: &Vec<Nip46PermissionGrant>, permission: &str) -> (r: Option<Nip46PermissionDecision>)
    ensures
        r == first_grant(grant_views(grants@), permission@),
{
    let ghost gs = grant_views(grants@);
    assert(gs.subrange(0, gs.len() as int) =~= gs);
    let mut i: usize = 0;
    while i < grants.len()
        invariant
            i <= grants@.len(),
            gs == grant_views(grants@),
            first_grant(gs, permission@) == first_grant(gs.subrange(i as int, gs.len() as int), permission@),
        decreases grants@.len() - i,
    {
        let ghost rest = gs.subrange(i as int, gs.len() as int);
        assert(rest.drop_first() == gs.subrange(i + 1, gs.len() as int));
        if str_eq(grants[i].permission.as_str(), permission) {
            return Some(grants[i].decision);
        }
        i = i + 1;
    }
    None
}

/// How a delegated signer decides a permission (see `nip46_decision`).
pub fn resolve_nip46_permission_decision(grants: &Vec<Nip46PermissionGrant>, requested_permission: &str) -> (r: Nip46PermissionDecision)
    ensures
        r == nip46_decision(grant_views(grants@), requested_permission@),
{
    let requested = match normalize_permission(requested_permission) {
        Some(p) => p,
        None => return Nip46PermissionDecision::Pending,
    };
    if let Some(decision) = find_grant(grants, requested.as_str()) {
        return decision;
    }
    if crate::text::find_char(requested.as_str(), ':').is_some() {
        let base = before_char(requested.as_str(), ':');
        if let Some(decision) = find_grant(grants, base.as_str()) {
            return decision;
        }
    }
    Nip46PermissionDecision::Pending
}

/// The grants of the permissions asked for, each pending.
pub fn seed_permission_grants(requested_permissions_in: &Vec<String>) -> (r: Vec<Nip46PermissionGrant>)
    ensures
        r@.map_values(|g: Nip46PermissionGrant| g.permission@) == requested_permissions(
            requested_permissions_in@.map_values(|x: String| x@),
        ),
        forall|i: int| 0 <= i < r@.len() ==> (#[trigger] r@[i]).decision == Nip46PermissionDecision::Pending,
{
    let normalized = normalize_requested_permissions(requested_permissions_in);
    let ghost ns = normalized@.map_values(|x: String| x@);
    let mut out: Vec<Nip46PermissionGrant> = Vec::new();
    let mut i: usize = 0;
    while i < normalized.len()
        invariant
            i <= normalized@.len(),
            ns == normalized@.map_values(|x: String| x@),
            out@.map_values(|g: Nip46PermissionGrant| g.permission@) == ns.subrange(0, i as int),
            forall|k: int| 0 <= k < out@.len() ==> (#[trigger] out@[k]).decision == Nip46PermissionDecision::Pending,
        decreases normalized@.len() - i,
    {
        let g = Nip46PermissionGrant { permission: owned(normalized[i].as_str()), decision: Nip46PermissionDecision::Pending };
        let ghost before = out@;
        let ghost gp = g.permission@;
        out.push(g);
        assert(out@ == before.push(g));
        assert(out@.map_values(|g: Nip46PermissionGrant| g.permission@)
            =~= before.map_values(|g: Nip46PermissionGrant| g.permission@).push(gp));
        assert(ns.subrange(0, i + 1) =~= ns.subrange(0, i as int).push(ns[i as int]));
        i = i + 1;
    }
    assert(ns.subrange(0, normalized@.len() as int) == ns);
    out
}

/// The grants normalized: blank permissions dropped, the first grant of
/// each permission kept, sorted by permission.
pub fn normalize_permission_grants(grants: &Vec<Nip46PermissionGrant>) -> (r: Vec<Nip46PermissionGrant>)
    ensures
        grants_sorted(grant_views(r@)),
        grants_represent(grant_views(r@), grant_map(grant_views(grants@))),
{
    let ghost gs = grant_views(grants@);
    let mut out: Vec<Nip46PermissionGrant> = Vec::new();
    let mut i: usize = 0;
    while i < grants.len()
        invariant
            i <= grants@.len(),
            gs == grant_views(grants@),
            grants_sorted(grant_views(out@)),
            grants_represent(grant_views(out@), grant_map(gs.subrange(0, i as int))),
        decreases grants@.len() - i,
    {
        let ghost pre = gs.subrange(0, i + 1);
        assert(pre.drop_last() == gs.subrange(0, i as int));
        assert(pre.last() == gs[i as int]);
        let ghost m = grant_map(gs.subrange(0, i as int));
        if let Some(permission) = normalize_permission(grants[i].permission.as_str()) {
            let ghost ov = grant_views(out@);
            // find the place of `permission` among the sorted grants
            let n = out.len();
            let mut p: usize = 0;
            while p < n && str_lt(out[p].permission.as_str(), permission.as_str())
                invariant
                    n == out@.len(),
                    p <= n,
                    forall|k: int| 0 <= k < p ==> seq_lt(#[trigger] out@[k].permission@, permission@),
                decreases n - p,
            {
                p = p + 1;
            }
            let present = p < n && str_eq(out[p].permission.as_str(), permission.as_str());
            proof {
                if !present {
                    assert forall|k: int| 0 <= k < n implies ov[k].0 != permission@ by {
                        if k < p {
                            assert(seq_lt(out@[k].permission@, permission@));
                            crate::text::lemma_seq_lt_irreflexive(permission@);
                        } else {
                            lemma_seq_lt_total(out@[p as int].permission@, permission@);
                            if k > p {
                                assert(seq_lt(ov[p as int].0, ov[k].0));
                                lemma_seq_lt_transitive(permission@, ov[p as int].0, ov[k].0);
                                crate::text::lemma_seq_lt_irreflexive(permission@);
                            }
                        }
                    }
                    assert(!m.dom().contains(permission@));
                } else {
                    assert(ov[p as int].0 == permission@);
                    assert(m.dom().contains(permission@));
                }
            }
            if !present {
                proof {
                    if p < n {
                        lemma_seq_lt_total(out@[p as int].permission@, permission@);
                        assert forall|k: int| p < k < n implies seq_lt(permission@, #[trigger] out@[k].permission@) by {
                            assert(seq_lt(ov[p as int].0, ov[k].0));
                            lemma_seq_lt_transitive(permission@, out@[p as int].permission@, out@[k].permission@);
                        }
                    }
                }
                let g = Nip46PermissionGrant { permission, decision: grants[i].decision };
                let ghost gv = (g.permission@, g.decision);
                out.insert(p, g);
                proof {
                    let nv = grant_views(out@);
                    assert(nv =~= ov.insert(p as int, gv));
                    let m2 = grant_map(pre);
                    assert(m2 == m.insert(gv.0, gv.1));
                    assert forall|a: int, b: int| 0 <= a < b < nv.len() implies seq_lt(#[trigger] nv[a].0, #[trigger] nv[b].0) by {
                        if b < p {
                            assert(nv[a] == ov[a] && nv[b] == ov[b]);
                        } else if b == p {
                            assert(nv[a] == ov[a]);
                        } else if a == p {
                            assert(nv[b] == ov[b - 1]);
                        } else if a < p {
                            assert(nv[a] == ov[a] && nv[b] == ov[b - 1]);
                        } else {
                            assert(nv[a] == ov[a - 1] && nv[b] == ov[b - 1]);
                        }
                    }
                    assert forall|a: int| 0 <= a < nv.len() implies m2.dom().contains(#[trigger] nv[a].0) && m2[nv[a].0] == nv[a].1 by {
                        if a < p {
                            assert(nv[a] == ov[a]);
                        } else if a > p {
                            assert(nv[a] == ov[a - 1]);
                        }
                    }
                    assert forall|k: Seq<char>| m2.dom().contains(k) implies exists|a: int| 0 <= a < nv.len() && #[trigger] nv[a].0 == k by {
                        if k == gv.0 {
                            assert(nv[p as int].0 == k);
                        } else {
                            let a = choose|a: int| 0 <= a < ov.len() && #[trigger] ov[a].0 == k;
                            if a < p {
                                assert(nv[a] == ov[a]);
                            } else {
                                assert(nv[a + 1] == ov[a]);
                            }
                        }
                    }
                }
            } else {
                assert(grant_map(pre) == m);
            }
        } else {
            assert(grant_map(pre) == m);
        }
        i = i + 1;
    }
    assert(gs.subrange(0, grants@.len() as int) == gs);
    out
}

/// A NIP-07 method, trimmed; refused where blank.
pub fn normalize_nip07_method(method: &str) -> (r: Result<String, NostrCoreError>)
    ensures
        trim_seq(method@).len() > 0 ==> (r matches Ok(m) && m@ == trim_seq(method@)),
        trim_seq(method@).len() == 0 ==> (r matches Err(NostrCoreError::ValidationFailed(msg))
            && msg@ == "nip07 method must not be empty"@),
{
    let normalized = trim(method);
    if normalized.unicode_len() == 0 {
        return Err(NostrCoreError::ValidationFailed(owned("nip07 method must not be empty")));
    }
    Ok(normalized)
}

/// The index of the first grant for an origin and method.
pub fn find_nip07_grant(grants: &Vec<Nip07PermissionGrant>, origin: &str, method: &str) -> (r: Option<usize>)
    ensures
        r matches Some(i) ==> i == nip07_index(nip07_views(grants@), origin@, method@),
        r is None <==> nip07_index(nip07_views(grants@), origin@, method@) < 0,
{
    let ghost gs = nip07_views(grants@);
    let mut i: usize = 0;
    while i < grants.len()
        invariant
            i <= grants@.len(),
            gs == nip07_views(grants@),
            nip07_index(gs.subrange(0, i as int), origin@, method@) < 0,
        decreases grants@.len() - i,
    {
        let ghost pre = gs.subrange(0, i + 1);
        assert(pre.drop_last() == gs.subrange(0, i as int));
        if str_eq(grants[i].origin.as_str(), origin) && str_eq(grants[i].method.as_str(), method) {
            proof {
                lemma_nip07_index_prefix(gs, i as int + 1, origin@, method@);
            }
            return Some(i);
        }
        i = i + 1;
    }
    assert(gs.subrange(0, grants@.len() as int) == gs);
    None
}

/// Once a prefix holds a match, the whole list has its first match there.
pub proof fn lemma_nip07_index_prefix(gs: Seq<(Seq<char>, Seq<char>, Nip07PermissionDecision)>, k: int, origin: Seq<char>, method: Seq<char>)
    requires
        0 <= k <= gs.len(),
        nip07_index(gs.subrange(0, k), origin, method) >= 0,
    ensures
        nip07_index(gs, origin, method) == nip07_index(gs.subrange(0, k), origin, method),
    decreases gs.len() - k,
{
    if k < gs.len() {
        let q = gs.subrange(0, k + 1);
        assert(q.drop_last() == gs.subrange(0, k));
        lemma_nip07_index_prefix(gs, k + 1, origin, method);
    } else {
        assert(gs.subrange(0, k) == gs);
    }
}

pub proof fn lemma_nip07_index_bounds(gs: Seq<(Seq<char>, Seq<char>, Nip07PermissionDecision)>, origin: Seq<char>, method: Seq<char>)
    ensures
        nip07_index(gs, origin, method) < gs.len(),
        nip07_index(gs, origin, method) >= 0 ==> gs[nip07_index(gs, origin, method)].0 == origin
            && gs[nip07_index(gs, origin, method)].1 == method,
        nip07_index(gs, origin, method) < 0 ==> forall|i: int| 0 <= i < gs.len() ==> !(#[trigger] gs[i].0 == origin && gs[i].1 == method),
    decreases gs.len(),
{
    if gs.len() > 0 {
        lemma_nip07_index_bounds(gs.drop_last(), origin, method);
        let p = gs.drop_last();
        assert forall|i: int| 0 <= i < p.len() implies #[trigger] p[i] == gs[i] by {}
        if nip07_index(gs, origin, method) < 0 {
            assert(!(gs.last().0 == origin && gs.last().1 == method));
            assert forall|i: int| 0 <= i < gs.len() implies !(#[trigger] gs[i].0 == origin && gs[i].1 == method) by {
                if i < p.len() {
                    assert(p[i] == gs[i]);
                }
            }
        }
    }
}

/// How a NIP-07 request is decided: by the first grant for its origin and
/// method; where there is none, a pending grant is added and the request is
/// pending.
pub fn resolve_nip07_permission_decision(grants: &mut Vec<Nip07PermissionGrant>, origin: &str, method: &str) -> (r: Nip07PermissionDecision)
    ensures
        ({
            let gs = nip07_views(old(grants)@);
            let i = nip07_index(gs, origin@, method@);
            &&& i >= 0 ==> r == gs[i].2 && nip07_views(final(grants)@) == gs
            &&& i < 0 ==> r == Nip07PermissionDecision::Pending
                && nip07_views(final(grants)@) == gs.push((origin@, method@, Nip07PermissionDecision::Pending))
        }),
{
    proof {
        lemma_nip07_index_bounds(nip07_views(grants@), origin@, method@);
    }
    match find_nip07_grant(grants, origin, method) {
        Some(i) => grants[i].decision,
        None => {
            let ghost before = nip07_views(grants@);
            grants.push(Nip07PermissionGrant {
                origin: owned(origin),
                method: owned(method),
                decision: Nip07PermissionDecision::Pending,
            });
            assert(nip07_views(grants@) =~= before.push((origin@, method@, Nip07PermissionDecision::Pending)));
            Nip07PermissionDecision::Pending
        },
    }
}

/// The port a scheme has when none is written.
pub open spec fn default_port(scheme: Seq<char>) -> Option<u16> {
    if scheme == "http"@ {
        Some(80u16)
    } else if scheme == "https"@ {
        Some(443u16)
    } else {
        None
    }
}

pub fn default_port_for_scheme(scheme: &str) -> (r: Option<u16>)
    ensures
        r == default_port(scheme@),
{
    if str_eq(scheme, "http") {
        Some(80)
    } else if str_eq(scheme, "https") {
        Some(443)
    } else {
        None
    }
}

/// The origin a NIP-07 request comes from: scheme, "://" and host of an
/// http(s) URL, with the port where it is not the scheme's default; none for
/// anything else.
pub open spec fn nip07_origin(raw: Seq<char>) -> Option<Seq<char>> {
    match url_parse(trim_seq(raw)) {
        Ok(p) => if (p.0 == "http"@ || p.0 == "https"@) && p.1 is Some {
            let base = p.0 + "://"@ + p.1->0;
            match p.2 {
                Some(port) => if default_port(p.0) == Some(port) {
                    Some(base)
                } else {
                    Some(base.push(':') + decimal_spec(port as u64))
                },
                None => Some(base),
            }
        } else {
            None
        },
        Err(_) => None,
    }
}

/// The origin of a NIP-07 request (see `nip07_origin`).
pub fn normalize_nip07_origin(raw: &str) -> (r: Option<String>)
    ensures
        opt_view(r) == nip07_origin(raw@),
{
    let trimmed = trim(raw);
    let parts = match parse_url(trimmed.as_str()) {
        Ok(parts) => parts,
        Err(_) => return None,
    };
    if !(str_eq(parts.scheme.as_str(), "http") || str_eq(parts.scheme.as_str(), "https")) {
        return None;
    }
    let host = match &parts.host {
        Some(host) => host,
        None => return None,
    };
    let mut origin = join3(parts.scheme.as_str(), "://", host.as_str());
    if let Some(port) = parts.port {
        if default_port_for_scheme(parts.scheme.as_str()) != Some(port) {
            origin.push(':');
            origin.append(decimal(port as u64).as_str());
        }
    }
    Some(origin)
}

/// The NIP-07 grants after applying persisted ones in order: grants with an
/// origin that is no http(s) origin are skipped, a blank method refuses the
/// whole list, and a later grant for an origin and method replaces the
/// decision of an earlier one.
pub open spec fn applied_nip07(ps: Seq<(Seq<char>, Seq<char>, Nip07PermissionDecision)>) -> Option<Seq<(Seq<char>, Seq<char>, Nip07PermissionDecision)>>
    decreases ps.len(),
{
    if ps.len() == 0 {
        Some(Seq::empty())
    } else {
        match applied_nip07(ps.drop_last()) {
            None => None,
            Some(acc) => {
                let g = ps.last();
                match nip07_origin(g.0) {
                    None => Some(acc),
                    Some(o) => if trim_seq(g.1).len() == 0 {
                        None
                    } else {
                        let m = trim_seq(g.1);
                        let i = nip07_index(acc, o, m);
                        if i >= 0 {
                            Some(acc.update(i, (o, m, g.2)))
                        } else {
                            Some(acc.push((o, m, g.2)))
                        }
                    },
                }
            },
        }
    }
}

/// Puts a grant in the list: replaces the decision of the first grant for
/// its origin and method, or adds it at the end.
pub(crate) fn upsert_nip07(grants: &mut Vec<Nip07PermissionGrant>, origin: String, method: String, decision: Nip07PermissionDecision)
    ensures
        ({
            let gs = nip07_views(old(grants)@);
            let i = nip07_index(gs, origin@, method@);
            &&& i >= 0 ==> nip07_views(final(grants)@) == gs.update(i, (origin@, method@, decision))
            &&& i < 0 ==> nip07_views(final(grants)@) == gs.push((origin@, method@, decision))
        }),
{
    proof {
        lemma_nip07_index_bounds(nip07_views(grants@), origin@, method@);
    }
    let ghost before = nip07_views(grants@);
    let ghost ov = origin@;
    let ghost mv = method@;
    match find_nip07_grant(grants, origin.as_str(), method.as_str()) {
        Some(i) => {
            let g = Nip07PermissionGrant { origin, method, decision };
            grants.set(i, g);
            assert(nip07_views(grants@) =~= before.update(i as int, (ov, mv, decision)));
        },
        None => {
            grants.push(Nip07PermissionGrant { origin, method, decision });
            assert(nip07_views(grants@) =~= before.push((ov, mv, decision)));
        },
    }
}

fn nip07_grant_le(a: &Nip07PermissionGrant, b: &Nip07PermissionGrant) -> (r: bool)
    ensures
        r == nip07_le((a.origin@, a.method@, a.decision), (b.origin@, b.method@, b.decision)),
{
    str_lt(a.origin.as_str(), b.origin.as_str())
        || (str_eq(a.origin.as_str(), b.origin.as_str()) && !str_lt(b.method.as_str(), a.method.as_str()))
}

pub proof fn lemma_nip07_le_total(a: (Seq<char>, Seq<char>, Nip07PermissionDecision), b: (Seq<char>, Seq<char>, Nip07PermissionDecision))
    ensures
        nip07_le(a, b) || nip07_le(b, a),
{
    lemma_seq_lt_total(a.0, b.0);
    lemma_seq_lt_total(a.1, b.1);
}

pub proof fn lemma_nip07_le_transitive(
    a: (Seq<char>, Seq<char>, Nip07PermissionDecision),
    b: (Seq<char>, Seq<char>, Nip07PermissionDecision),
    c: (Seq<char>, Seq<char>, Nip07PermissionDecision),
)
    requires
        nip07_le(a, b),
        nip07_le(b, c),
    ensures
        nip07_le(a, c),
{
    if seq_lt(a.0, b.0) && seq_lt(b.0, c.0) {
        lemma_seq_lt_transitive(a.0, b.0, c.0);
    }
    if a.0 == b.0 && b.0 == c.0 {
        crate::text::lemma_seq_lt_irreflexive(a.0);
        lemma_seq_lt_total(c.1, b.1);
        if seq_lt(c.1, a.1) {
            if c.1 != b.1 {
                lemma_seq_lt_transitive(b.1, c.1, a.1);
            }
        }
    }
}

/// Grants listed by origin, then method.
pub open spec fn nip07_sorted(gs: Seq<(Seq<char>, Seq<char>, Nip07PermissionDecision)>) -> bool {
    forall|i: int, j: int| 0 <= i < j < gs.len() ==> nip07_le(#[trigger] gs[i], #[trigger] gs[j])
}

pub(crate) fn copy_nip07_grant(g: &Nip07PermissionGrant) -> (r: Nip07PermissionGrant)
    ensures
        (r.origin@, r.method@, r.decision) == (g.origin@, g.method@, g.decision),
{
    Nip07PermissionGrant { origin: owned(g.origin.as_str()), method: owned(g.method.as_str()), decision: g.decision }
}

/// The grants sorted by origin, then method (a stable sort).
pub fn sorted_nip07_grants(grants: &Vec<Nip07PermissionGrant>) -> (r: Vec<Nip07PermissionGrant>)
    ensures
        nip07_sorted(nip07_views(r@)),
        nip07_views(r@).to_multiset() == nip07_views(grants@).to_multiset(),
{
    broadcast use vstd::seq_lib::group_to_multiset_ensures;
    let ghost gs = nip07_views(grants@);
    let mut out: Vec<Nip07PermissionGrant> = Vec::new();
    let mut i: usize = 0;
    while i < grants.len()
        invariant
            i <= grants@.len(),
            gs == nip07_views(grants@),
            nip07_sorted(nip07_views(out@)),
            nip07_views(out@).to_multiset() == gs.subrange(0, i as int).to_multiset(),
        decreases grants@.len() - i,
    {
        let g = copy_nip07_grant(&grants[i]);
        let ghost gv = (g.origin@, g.method@, g.decision);
        let ghost ov = nip07_views(out@);
        let n = out.len();
        let mut p: usize = 0;
        while p < n && nip07_grant_le(&out[p], &g)
            invariant
                n == out@.len(),
                p <= n,
                ov == nip07_views(out@),
                gv == (g.origin@, g.method@, g.decision),
                forall|k: int| 0 <= k < p ==> nip07_le(#[trigger] ov[k], gv),
            decreases n - p,
        {
            p = p + 1;
        }
        proof {
            if p < n {
                assert(!nip07_le(ov[p as int], gv));
                lemma_nip07_le_total(ov[p as int], gv);
                assert forall|k: int| p <= k < n implies nip07_le(gv, #[trigger] ov[k]) by {
                    if k > p {
                        assert(nip07_le(ov[p as int], ov[k]));
                        lemma_nip07_le_transitive(gv, ov[p as int], ov[k]);
                    }
                }
            }
        }
        out.insert(p, g);
        proof {
            let nv = nip07_views(out@);
            assert(nv =~= ov.insert(p as int, gv));
            assert(gs.subrange(0, i + 1) =~= gs.subrange(0, i as int).push(gs[i as int]));
            assert(gs[i as int] == gv);
            vstd::seq_lib::to_multiset_insert(ov, p as int, gv);
            vstd::seq_lib::to_multiset_build(gs.subrange(0, i as int), gv);
            assert forall|a: int, b: int| 0 <= a < b < nv.len() implies nip07_le(#[trigger] nv[a], #[trigger] nv[b]) by {
                if b < p {
                    assert(nv[a] == ov[a] && nv[b] == ov[b]);
                } else if b == p {
                    assert(nv[a] == ov[a]);
                } else if a == p {
                    assert(nv[b] == ov[b - 1]);
                } else if a < p {
                    assert(nv[a] == ov[a] && nv[b] == ov[b - 1]);
                    lemma_nip07_le_transitive(ov[a], gv, ov[b - 1]);
                } else {
                    assert(nv[a] == ov[a - 1] && nv[b] == ov[b - 1]);
                }
            }
        }
        i = i + 1;
    }
    assert(gs.subrange(0, grants@.len() as int) == gs);
    out
}

/// A refused grant refuses every longer list.
pub proof fn lemma_applied_nip07_none_extends(ps: Seq<(Seq<char>, Seq<char>, Nip07PermissionDecision)>, i: int)
    requires
        0 <= i < ps.len(),
        applied_nip07(ps.subrange(0, i + 1)) is None,
    ensures
        applied_nip07(ps) is None,
    decreases ps.len() - i,
{
    if i + 1 < ps.len() {
        let q = ps.subrange(0, i + 2);
        assert(q.drop_last() == ps.subrange(0, i + 1));
        if i + 2 == ps.len() {
            assert(q == ps);
        } else {
            lemma_applied_nip07_none_extends(ps, i + 1);
        }
    } else {
        assert(ps.subrange(0, i + 1) == ps);
    }
}

} // verus!
