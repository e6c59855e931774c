//! The Nostr core's relay side: the relay policy, per-caller quotas, and the
//! in-process relay service that holds subscriptions and acknowledges publishes.

use vstd::prelude::*;
use crate::table::Table;
use crate::nostr_signer::{
    Nip46PermissionGrant, Nip46DelegateConfig, Nip46PermissionDecision, PersistedNip46SignerSettings, PersistedNostrSignerSettings,
    NostrSignerBackendSnapshot, ParsedNip46BunkerUri, config_parts, grant_views, grants_sorted, grants_represent,
    grant_map, requested_permissions, public_key_hex, parse_nostr_public_key, copy_grants, copy_opt,
    normalize_requested_permissions, normalize_permission_grants, seed_permission_grants, parse_nip46_bunker_uri,
    bunker_parse, normalize_permission, norm_permission, upsert_nip46_grant, first_grant_index, nip46_sorted,
    ensure_nip46_permission_allowed, nip46_refusal, sign_permission, opt_view, resolve_nip07_permission_decision,
    Nip07PermissionDecision, Nip07PermissionGrant, NostrSignerBackend, nip07_views, nip07_sorted, nip07_origin,
    nip07_index, applied_nip07, normalize_nip07_origin, normalize_nip07_method, upsert_nip07, sorted_nip07_grants,
    copy_nip07_grant, lemma_applied_nip07_none_extends,
};
use crate::text::{
    lower, lower_seq, trim, trim_seq, has_prefix, starts_with, strs, join2, join3, owned, str_eq, clone_strings,
};

verus! {

#[derive(Debug, Clone, PartialEq, Eq)]
pub struct NostrFilterSet {
    pub kinds: Vec<u16>,
    pub authors: Vec<String>,
    pub hashtags: Vec<String>,
    pub relay_urls: Vec<String>,
}

impl NostrFilterSet {
    pub open spec fn empty_spec(&self) -> bool {
        self.kinds@.len() == 0 && self.authors@.len() == 0 && self.hashtags@.len() == 0
    }

    /// A filter set selects nothing without kinds, authors or hashtags.
    pub fn is_empty(&self) -> (r: bool)
        ensures
            r == self.empty_spec(),
    {
        self.kinds.len() == 0 && self.authors.len() == 0 && self.hashtags.len() == 0
    }
}

#[derive(Debug, Clone, PartialEq, Eq)]
pub struct NostrSignedEvent {
    pub event_id: String,
    pub pubkey: String,
    pub signature: String,
    pub created_at: u64,
    pub kind: u16,
    pub content: String,
    pub tags: Vec<Vec<String>>,
}

#[derive(Debug, Clone, PartialEq, Eq)]
pub struct NostrSubscriptionHandle {
    pub id: String,
}

#[derive(Debug, Clone, PartialEq, Eq)]
pub struct PersistedNostrSubscription {
    pub caller_id: String,
    pub requested_id: Option<String>,
    pub filters: NostrFilterSet,
}

#[derive(Debug, Clone, PartialEq, Eq)]
pub struct NostrPublishReceipt {
    pub accepted: bool,
    pub relay_count: usize,
    pub note: String,
}

#[derive(Debug, Clone, PartialEq, Eq)]
pub enum NostrCoreError {
    CapabilityDenied { capability: String, reason: String },
    ValidationFailed(String),
    BackendUnavailable(String),
    QuotaExceeded(String),
}

impl NostrCoreError {
    /// The message the error carries.
    pub fn message(&self) -> (r: String)
        ensures
            r@ == match *self {
                NostrCoreError::CapabilityDenied { reason, .. } => reason@,
                NostrCoreError::ValidationFailed(m) => m@,
                NostrCoreError::BackendUnavailable(m) => m@,
                NostrCoreError::QuotaExceeded(m) => m@,
            },
    {
        match self {
            NostrCoreError::CapabilityDenied { reason, .. } => reason.clone(),
            NostrCoreError::ValidationFailed(m) => m.clone(),
            NostrCoreError::BackendUnavailable(m) => m.clone(),
            NostrCoreError::QuotaExceeded(m) => m.clone(),
        }
    }
}

/// Which relays the policy accepts.
#[derive(Debug, Clone, Copy, PartialEq, Eq, Structural)]
pub enum RelayPolicyProfile {
    /// Only explicitly allowlisted relays are accepted.
    Strict,
    /// Community default relays and the allowlist are accepted.
    Community,
    /// Any relay that is not blocked is accepted.
    Open,
}

#[derive(Debug, Clone, PartialEq, Eq)]
pub struct NostrRelayPolicy {
    pub profile: RelayPolicyProfile,
    pub allowlist: Vec<String>,
    pub blocklist: Vec<String>,
    pub default_relays: Vec<String>,
    pub max_subscriptions_per_caller: usize,
    pub max_publishes_per_caller: usize,
}

impl Default for NostrRelayPolicy {
    fn default() -> (r: Self)
        ensures
            r.profile == RelayPolicyProfile::Community,
            r.allowlist@.len() == 0,
            r.blocklist@.len() == 0,
            strs(r.default_relays@) == seq!["wss://relay.damus.io"@],
            r.max_subscriptions_per_caller == 32,
            r.max_publishes_per_caller == 256,
    {
        let mut default_relays: Vec<String> = Vec::new();
        default_relays.push(owned("wss://relay.damus.io"));
        assert(strs(default_relays@) =~= seq!["wss://relay.damus.io"@]);
        NostrRelayPolicy {
            profile: RelayPolicyProfile::Community,
            allowlist: Vec::new(),
            blocklist: Vec::new(),
            default_relays,
            max_subscriptions_per_caller: 32,
            max_publishes_per_caller: 256,
        }
    }
}

/// A relay URL as the policy compares it: trimmed and lower-cased.
pub open spec fn normalize_relay(relay: Seq<char>) -> Seq<char> {
    lower_seq(trim_seq(relay))
}

/// Whether a normalized relay URL is usable: TLS, or plain to the local host.
pub open spec fn relay_acceptable(relay: Seq<char>) -> bool {
    has_prefix(relay, "wss://"@) || has_prefix(relay, "ws://127.0.0.1"@) || has_prefix(relay, "ws://localhost"@)
}

/// The usable relays of a list, normalized, first occurrences only, in order.
pub open spec fn normalize_relays_spec(relays: Seq<Seq<char>>) -> Seq<Seq<char>>
    decreases relays.len(),
{
    if relays.len() == 0 {
        Seq::empty()
    } else {
        let prev = normalize_relays_spec(relays.drop_last());
        let t = normalize_relay(relays.last());
        if relay_acceptable(t) && !prev.contains(t) {
            prev.push(t)
        } else {
            prev
        }
    }
}

/// Whether the policy accepts a relay.
pub open spec fn relay_allowed_spec(policy: NostrRelayPolicy, relay: Seq<char>) -> bool {
    &&& !strs(policy.blocklist@).contains(relay)
    &&& match policy.profile {
        RelayPolicyProfile::Strict => strs(policy.allowlist@).contains(relay),
        RelayPolicyProfile::Community => strs(policy.default_relays@).contains(relay)
            || strs(policy.allowlist@).contains(relay),
        RelayPolicyProfile::Open => true,
    }
}

/// The first relay of a list that the policy refuses.
pub open spec fn first_denied(policy: NostrRelayPolicy, relays: Seq<Seq<char>>) -> Option<Seq<char>>
    decreases relays.len(),
{
    if relays.len() == 0 {
        None
    } else if !relay_allowed_spec(policy, relays[0]) {
        Some(relays[0])
    } else {
        first_denied(policy, relays.drop_first())
    }
}

/// The relays a request asks for: those requested, else the defaults, else the allowlist.
pub open spec fn relay_candidates(policy: NostrRelayPolicy, requested: Seq<Seq<char>>) -> Seq<Seq<char>> {
    if requested.len() > 0 {
        requested
    } else if policy.default_relays@.len() > 0 {
        strs(policy.default_relays@)
    } else {
        strs(policy.allowlist@)
    }
}

/// The relays a request goes to: those requested, else the defaults, else the
/// allowlist; normalized and each accepted by the policy.
pub open spec fn resolve_relays_spec(
    policy: NostrRelayPolicy,
    requested: Seq<Seq<char>>,
    empty_message: Seq<char>,
) -> Result<Seq<Seq<char>>, Seq<char>> {
    let normalized = normalize_relays_spec(relay_candidates(policy, requested));
    if normalized.len() == 0 {
        Err(empty_message)
    } else {
        match first_denied(policy, normalized) {
            Some(relay) => Err("relay '"@ + relay + "' denied by policy"@),
            None => Ok(normalized),
        }
    }
}

fn strs_contain(v: &Vec<String>, s: &str) -> (r: bool)
    ensures
        r == strs(v@).contains(s@),
{
    let mut i: usize = 0;
    while i < v.len()
        invariant
            i <= v@.len(),
            forall|k: int| 0 <= k < i ==> v@[k]@ != s@,
        decreases v@.len() - i,
    {
        if str_eq(v[i].as_str(), s) {
            assert(strs(v@)[i as int] == s@);
            return true;
        }
        i = i + 1;
    }
    proof {
        if strs(v@).contains(s@) {
            let k = choose|k: int| 0 <= k < strs(v@).len() && strs(v@)[k] == s@;
            assert(v@[k]@ == s@);
        }
    }
    false
}

/// The usable relays of a list, normalized, first occurrences only, in order.
pub fn normalize_relays(relays: &Vec<String>) -> (r: Vec<String>)
    ensures
        strs(r@) == normalize_relays_spec(strs(relays@)),
{
    proof {
        reveal_strlit("wss://");
        reveal_strlit("ws://127.0.0.1");
        reveal_strlit("ws://localhost");
    }
    let ghost input = strs(relays@);
    let mut out: Vec<String> = Vec::new();
    let mut i: usize = 0;
    while i < relays.len()
        invariant
            i <= relays@.len(),
            input == strs(relays@),
            strs(out@) == normalize_relays_spec(input.subrange(0, i as int)),
        decreases relays@.len() - i,
    {
        let ghost pre = input.subrange(0, i + 1);
        assert(pre.drop_last() == input.subrange(0, i as int));
        assert(pre.last() == relays@[i as int]@);
        let trimmed = trim(relays[i].as_str());
        let t = lower(trimmed.as_str());
        let usable = starts_with(t.as_str(), "wss://") || starts_with(t.as_str(), "ws://127.0.0.1")
            || starts_with(t.as_str(), "ws://localhost");
        if usable && !strs_contain(&out, t.as_str()) {
            let ghost tv = t@;
            out.push(t);
            assert(strs(out@) =~= normalize_relays_spec(pre.drop_last()).push(tv));
        }
        i = i + 1;
    }
    assert(input.subrange(0, relays@.len() as int) == input);
    out
}

/// Whether the policy accepts a relay.
pub fn relay_allowed(policy: &NostrRelayPolicy, relay: &str) -> (r: bool)
    ensures
        r == relay_allowed_spec(*policy, relay@),
{
    if strs_contain(&policy.blocklist, relay) {
        return false;
    }
    match policy.profile {
        RelayPolicyProfile::Strict => strs_contain(&policy.allowlist, relay),
        RelayPolicyProfile::Community => strs_contain(&policy.default_relays, relay) || strs_contain(&policy.allowlist, relay),
        RelayPolicyProfile::Open => true,
    }
}

pub proof fn lemma_first_denied_skip(policy: NostrRelayPolicy, relays: Seq<Seq<char>>, i: int)
    requires
        0 <= i <= relays.len(),
        forall|k: int| 0 <= k < i ==> relay_allowed_spec(policy, #[trigger] relays[k]),
    ensures
        first_denied(policy, relays) == first_denied(policy, relays.subrange(i, relays.len() as int)),
    decreases i,
{
    if i > 0 {
        lemma_first_denied_skip(policy, relays.drop_first(), i - 1);
        assert(relays.drop_first().subrange(i - 1, relays.drop_first().len() as int) == relays.subrange(i, relays.len() as int));
    } else {
        assert(relays.subrange(0, relays.len() as int) == relays);
    }
}

/// Resolves the relays of a request against the policy.
pub fn resolve_relays(policy: &NostrRelayPolicy, requested: &Vec<String>, empty_message: &str) -> (r: Result<Vec<String>, String>)
    ensures
        match resolve_relays_spec(*policy, strs(requested@), empty_message@) {
            Ok(relays) => r matches Ok(v) && strs(v@) == relays,
            Err(m) => r matches Err(e) && e@ == m,
        },
{
    let normalized = if requested.len() > 0 {
        normalize_relays(requested)
    } else if policy.default_relays.len() > 0 {
        normalize_relays(&policy.default_relays)
    } else {
        normalize_relays(&policy.allowlist)
    };
    if normalized.len() == 0 {
        return Err(owned(empty_message));
    }
    let ghost n = strs(normalized@);
    let mut i: usize = 0;
    while i < normalized.len()
        invariant
            i <= normalized@.len(),
            n == strs(normalized@),
            n == normalize_relays_spec(relay_candidates(*policy, strs(requested@))),
            n.len() > 0,
            forall|k: int| 0 <= k < i ==> relay_allowed_spec(*policy, #[trigger] n[k]),
        decreases normalized@.len() - i,
    {
        assert(n[i as int] == normalized@[i as int]@);
        if !relay_allowed(policy, normalized[i].as_str()) {
            proof {
                lemma_first_denied_skip(*policy, n, i as int);
                let sub = n.subrange(i as int, n.len() as int);
                assert(sub[0] == n[i as int]);
                assert(!relay_allowed_spec(*policy, sub[0]));
                assert(first_denied(*policy, sub) == Some(n[i as int]));
                assert(first_denied(*policy, n) == Some(n[i as int]));
            }
            return Err(join3("relay '", normalized[i].as_str(), "' denied by policy"));
        }
        i = i + 1;
    }
    proof {
        lemma_first_denied_skip(*policy, n, n.len() as int);
        assert(n.subrange(n.len() as int, n.len() as int).len() == 0);
    }
    Ok(normalized)
}

/// The decimal digits of `n`.
pub open spec fn decimal_spec(n: u64) -> Seq<char>
    decreases n,
{
    if n < 10 {
        seq![digit_char(n)]
    } else {
        decimal_spec(n / 10).push(digit_char(n % 10))
    }
}

pub open spec fn digit_char(d: u64) -> char {
    if d == 0 { '0' } else if d == 1 { '1' } else if d == 2 { '2' } else if d == 3 { '3' } else if d == 4 { '4' }
    else if d == 5 { '5' } else if d == 6 { '6' } else if d == 7 { '7' } else if d == 8 { '8' } else { '9' }
}

fn digit(d: u64) -> (c: char)
    requires
        d < 10,
    ensures
        c == digit_char(d),
{
    if d == 0 { '0' } else if d == 1 { '1' } else if d == 2 { '2' } else if d == 3 { '3' } else if d == 4 { '4' }
    else if d == 5 { '5' } else if d == 6 { '6' } else if d == 7 { '7' } else if d == 8 { '8' } else { '9' }
}

/// `n` written in decimal.
pub fn decimal(n: u64) -> (r: String)
    ensures
        r@ == decimal_spec(n),
    decreases n,
{
    if n < 10 {
        let mut s = String::new();
        s.push(digit(n));
        s
    } else {
        let mut s = decimal(n / 10);
        s.push(digit(n % 10));
        s
    }
}

/// The id a subscription gets: the requested one, trimmed, where it is not
/// blank; the next numbered id otherwise.
pub open spec fn allocate_spec(requested: Option<Seq<char>>, next: u64) -> (Seq<char>, u64) {
    match requested {
        Some(r) => if trim_seq(r).len() > 0 {
            (trim_seq(r), next)
        } else {
            ("nostr-sub-"@ + decimal_spec(next), next_counter(next))
        },
        None => ("nostr-sub-"@ + decimal_spec(next), next_counter(next)),
    }
}

/// The counter after `next`, wrapping around.
pub open spec fn next_counter(next: u64) -> u64 {
    if next == u64::MAX { 0 } else { (next + 1) as u64 }
}

/// A subscription held by the in-process relay service.
#[derive(Debug, Clone)]
pub struct SubscriptionRecord {
    pub owner: String,
    pub filters: NostrFilterSet,
    pub relays: Vec<String>,
}

/// The relay side of the Nostr core.
pub struct NostrCoreRegistry {
    policy: NostrRelayPolicy,
    subscription_counts: Table<usize>,
    publish_counts: Table<usize>,
    subscriptions: Table<SubscriptionRecord>,
    active_subscriptions: Table<PersistedNostrSubscription>,
    next_subscription_id: u64,
    pub(crate) signer_backend: crate::nostr_signer::NostrSignerBackend,
    pub(crate) nip07_grants: Vec<crate::nostr_signer::Nip07PermissionGrant>,
    capabilities: Vec<String>,
}

/// A count table as values; absent callers count zero.
pub open spec fn count_of(m: Map<Seq<char>, usize>, caller: Seq<char>) -> int {
    if m.dom().contains(caller) { m[caller] as int } else { 0 }
}

pub open spec fn owner_map(m: Map<Seq<char>, SubscriptionRecord>) -> Map<Seq<char>, Seq<char>> {
    Map::new(|k: Seq<char>| m.dom().contains(k), |k: Seq<char>| m[k].owner@)
}

pub open spec fn requested_view(r: Option<String>) -> Option<Seq<char>> {
    match r {
        Some(s) => Some(s@),
        None => None,
    }
}

pub open spec fn active_map(m: Map<Seq<char>, PersistedNostrSubscription>) -> Map<Seq<char>, (Seq<char>, Option<Seq<char>>)> {
    Map::new(|k: Seq<char>| m.dom().contains(k), |k: Seq<char>| (m[k].caller_id@, requested_view(m[k].requested_id)))
}

/// The caller a request is made for: trimmed and lower-cased.
pub open spec fn caller_spec(caller_id: Seq<char>) -> Seq<char> {
    lower_seq(trim_seq(caller_id))
}

fn opt_str(s: Option<&str>) -> (r: Option<String>)
    ensures
        requested_view(r) == match s { Some(v) => Some(v@), None => None },
{
    match s {
        Some(v) => Some(owned(v)),
        None => None,
    }
}

impl NostrCoreRegistry {
    pub closed spec fn policy(&self) -> NostrRelayPolicy {
        self.policy
    }

    /// Subscriptions made, per caller.
    pub closed spec fn subscription_counts(&self) -> Map<Seq<char>, usize> {
        self.subscription_counts@
    }

    /// Publishes made, per caller.
    pub closed spec fn publish_counts(&self) -> Map<Seq<char>, usize> {
        self.publish_counts@
    }

    /// Subscription id to the caller that owns it.
    pub closed spec fn owners(&self) -> Map<Seq<char>, Seq<char>> {
        owner_map(self.subscriptions@)
    }

    /// Subscription id to its caller and the id it was requested under.
    pub closed spec fn active(&self) -> Map<Seq<char>, (Seq<char>, Option<Seq<char>>)> {
        active_map(self.active_subscriptions@)
    }

    pub closed spec fn next_id(&self) -> u64 {
        self.next_subscription_id
    }

    /// The backend events are signed with.
    pub closed spec fn signer(&self) -> crate::nostr_signer::NostrSignerBackend {
        self.signer_backend
    }

    /// The NIP-07 grants, in the order they were made.
    pub closed spec fn nip07_grants_view(&self) -> Seq<(Seq<char>, Seq<char>, crate::nostr_signer::Nip07PermissionDecision)> {
        crate::nostr_signer::nip07_views(self.nip07_grants@)
    }

    /// The runtime capabilities the host has granted.
    pub closed spec fn capabilities(&self) -> Seq<Seq<char>> {
        strs(self.capabilities@)
    }

    /// Whether the runtime holds `capability`.
    pub open spec fn grants(&self, capability: Seq<char>) -> bool {
        self.capabilities().contains(capability)
    }

    pub fn new() -> (r: Self)
        ensures
            r.policy().profile == RelayPolicyProfile::Community,
            strs(r.policy().default_relays@) == seq!["wss://relay.damus.io"@],
            r.policy().allowlist@.len() == 0,
            r.policy().blocklist@.len() == 0,
            r.policy().max_subscriptions_per_caller == 32,
            r.policy().max_publishes_per_caller == 256,
            r.subscription_counts() == Map::<Seq<char>, usize>::empty(),
            r.publish_counts() == Map::<Seq<char>, usize>::empty(),
            r.owners() == Map::<Seq<char>, Seq<char>>::empty(),
            r.active() == Map::<Seq<char>, (Seq<char>, Option<Seq<char>>)>::empty(),
            r.next_id() == 0,
            r.signer() is LocalHostKey,
            r.nip07_grants_view().len() == 0,
            r.capabilities() == seq![
                "nostr:relay-subscribe"@,
                "nostr:relay-publish"@,
                "identity:nostr-sign"@,
                "nostr:nip07-bridge"@,
            ],
    {
        let mut capabilities: Vec<String> = Vec::new();
        capabilities.push(owned("nostr:relay-subscribe"));
        capabilities.push(owned("nostr:relay-publish"));
        capabilities.push(owned("identity:nostr-sign"));
        capabilities.push(owned("nostr:nip07-bridge"));
        let r = NostrCoreRegistry {
            policy: NostrRelayPolicy::default(),
            subscription_counts: Table::new(),
            publish_counts: Table::new(),
            subscriptions: Table::new(),
            active_subscriptions: Table::new(),
            next_subscription_id: 0,
            signer_backend: crate::nostr_signer::NostrSignerBackend::LocalHostKey,
            nip07_grants: Vec::new(),
            capabilities,
        };
        assert(r.capabilities() =~= seq![
            "nostr:relay-subscribe"@,
            "nostr:relay-publish"@,
            "identity:nostr-sign"@,
            "nostr:nip07-bridge"@,
        ]);
        assert(r.owners() =~= Map::<Seq<char>, Seq<char>>::empty());
        assert(r.active() =~= Map::<Seq<char>, (Seq<char>, Option<Seq<char>>)>::empty());
        r
    }

    pub fn set_relay_policy_profile(&mut self, profile: RelayPolicyProfile)
        ensures
            final(self).policy() == (NostrRelayPolicy { profile, ..old(self).policy() }),
            final(self).owners() == old(self).owners(),
            final(self).active() == old(self).active(),
    {
        self.policy.profile = profile;
    }

    pub fn set_relay_allowlist(&mut self, relays: Vec<String>)
        ensures
            strs(final(self).policy().allowlist@) == normalize_relays_spec(strs(relays@)),
            final(self).policy().profile == old(self).policy().profile,
            final(self).policy().blocklist == old(self).policy().blocklist,
            final(self).policy().default_relays == old(self).policy().default_relays,
    {
        self.policy.allowlist = normalize_relays(&relays);
    }

    pub fn set_relay_blocklist(&mut self, relays: Vec<String>)
        ensures
            strs(final(self).policy().blocklist@) == normalize_relays_spec(strs(relays@)),
            final(self).policy().profile == old(self).policy().profile,
            final(self).policy().allowlist == old(self).policy().allowlist,
            final(self).policy().default_relays == old(self).policy().default_relays,
    {
        self.policy.blocklist = normalize_relays(&relays);
    }

    pub fn set_default_relays(&mut self, relays: Vec<String>)
        ensures
            strs(final(self).policy().default_relays@) == normalize_relays_spec(strs(relays@)),
            final(self).policy().profile == old(self).policy().profile,
            final(self).policy().allowlist == old(self).policy().allowlist,
            final(self).policy().blocklist == old(self).policy().blocklist,
    {
        self.policy.default_relays = normalize_relays(&relays);
    }

    /// Sets the per-caller quotas; each is at least one.
    pub fn set_caller_quotas(&mut self, max_subscriptions: usize, max_publishes: usize)
        ensures
            final(self).policy().max_subscriptions_per_caller == (if max_subscriptions >= 1 { max_subscriptions } else { 1 }),
            final(self).policy().max_publishes_per_caller == (if max_publishes >= 1 { max_publishes } else { 1 }),
            final(self).policy().profile == old(self).policy().profile,
    {
        self.policy.max_subscriptions_per_caller = if max_subscriptions >= 1 { max_subscriptions } else { 1 };
        self.policy.max_publishes_per_caller = if max_publishes >= 1 { max_publishes } else { 1 };
    }

    /// Grants or withdraws a runtime capability.
    pub fn set_capability_granted(&mut self, capability: &str, granted: bool)
        ensures
            forall|c: Seq<char>| #[trigger] final(self).grants(c) == if c == capability@ {
                granted
            } else {
                old(self).grants(c)
            },
            final(self).policy() == old(self).policy(),
            final(self).subscription_counts() == old(self).subscription_counts(),
            final(self).publish_counts() == old(self).publish_counts(),
            final(self).owners() == old(self).owners(),
            final(self).active() == old(self).active(),
            final(self).next_id() == old(self).next_id(),
            final(self).signer() == old(self).signer(),
            final(self).nip07_grants_view() == old(self).nip07_grants_view(),
    {
        let ghost before = strs(self.capabilities@);
        let mut kept: Vec<String> = Vec::new();
        let mut i: usize = 0;
        while i < self.capabilities.len()
            invariant
                i <= self.capabilities@.len(),
                before == strs(self.capabilities@),
                forall|c: Seq<char>| #[trigger] strs(kept@).contains(c) == (c != capability@
                    && before.subrange(0, i as int).contains(c)),
            decreases self.capabilities@.len() - i,
        {
            let ghost prev = strs(kept@);
            let ghost item = before[i as int];
            let ghost pre = before.subrange(0, i as int);
            let ghost cur = before.subrange(0, i + 1);
            assert(cur =~= pre.push(item));
            if !str_eq(self.capabilities[i].as_str(), capability) {
                let c = owned(self.capabilities[i].as_str());
                kept.push(c);
                assert(strs(kept@) =~= prev.push(item));
            }
            proof {
                assert forall|c: Seq<char>| #[trigger] strs(kept@).contains(c) == (c != capability@ && cur.contains(c)) by {
                    if strs(kept@).contains(c) {
                        let k = choose|k: int| 0 <= k < strs(kept@).len() && strs(kept@)[k] == c;
                        if k < prev.len() {
                            assert(prev[k] == c);
                            assert(prev.contains(c));
                            let j = choose|j: int| 0 <= j < pre.len() && pre[j] == c;
                            assert(cur[j] == c);
                        } else {
                            assert(cur[i as int] == c);
                        }
                    }
                    if c != capability@ && cur.contains(c) {
                        let j = choose|j: int| 0 <= j < cur.len() && cur[j] == c;
                        if j < i {
                            assert(pre[j] == c);
                            assert(prev.contains(c));
                            let k = choose|k: int| 0 <= k < prev.len() && prev[k] == c;
                            assert(strs(kept@)[k] == c);
                        } else {
                            assert(strs(kept@)[strs(kept@).len() - 1] == c);
                        }
                    }
                }
            }
            i = i + 1;
        }
        assert(before.subrange(0, self.capabilities@.len() as int) == before);
        if granted {
            let ghost prev = strs(kept@);
            kept.push(owned(capability));
            proof {
                assert(strs(kept@) =~= prev.push(capability@));
                assert forall|c: Seq<char>| #[trigger] strs(kept@).contains(c) == (c == capability@ || prev.contains(c)) by {
                    if strs(kept@).contains(c) && c != capability@ {
                        let k = choose|k: int| 0 <= k < strs(kept@).len() && strs(kept@)[k] == c;
                        assert(prev[k] == c);
                    }
                    if prev.contains(c) {
                        let k = choose|k: int| 0 <= k < prev.len() && prev[k] == c;
                        assert(strs(kept@)[k] == c);
                    }
                    if c == capability@ {
                        assert(strs(kept@)[prev.len() as int] == c);
                    }
                }
            }
        }
        self.capabilities = kept;
    }

    /// Refuses what needs `capability` where the runtime lacks it.
    pub fn ensure_capability(&self, capability: &str) -> (r: Result<(), NostrCoreError>)
        ensures
            self.grants(capability@) ==> r is Ok,
            !self.grants(capability@) ==> capability_error(r, capability@),
    {
        if strs_contain(&self.capabilities, capability) {
            Ok(())
        } else {
            Err(NostrCoreError::CapabilityDenied {
                capability: owned(capability),
                reason: join2("missing runtime capability: ", capability),
            })
        }
    }

    fn count(table: &Table<usize>, caller: &str) -> (r: usize)
        ensures
            r == count_of(table@, caller@),
    {
        match table.get(caller) {
            Some(c) => *c,
            None => 0,
        }
    }

    fn allocate_subscription_id(&mut self, requested_id: Option<&str>) -> (r: String)
        ensures
            (r@, final(self).next_id()) == allocate_spec(
                match requested_id { Some(v) => Some(v@), None => None },
                old(self).next_id(),
            ),
            final(self).policy() == old(self).policy(),
            final(self).subscription_counts() == old(self).subscription_counts(),
            final(self).publish_counts() == old(self).publish_counts(),
            final(self).owners() == old(self).owners(),
            final(self).active() == old(self).active(),
            final(self).signer() == old(self).signer(),
            final(self).nip07_grants_view() == old(self).nip07_grants_view(),
            final(self).capabilities() == old(self).capabilities(),
    {
        if let Some(requested) = requested_id {
            let trimmed = trim(requested);
            if trimmed.unicode_len() > 0 {
                return trimmed;
            }
        }
        let seq = self.next_subscription_id;
        self.next_subscription_id = if seq == u64::MAX { 0 } else { seq + 1 };
        let digits = decimal(seq);
        join2("nostr-sub-", digits.as_str())
    }

    /// Subscribes `caller_id` to events matching `filters`.
    pub fn relay_subscribe(
        &mut self,
        caller_id: &str,
        requested_id: Option<&str>,
        filters: NostrFilterSet,
    ) -> (r: Result<NostrSubscriptionHandle, NostrCoreError>)
        ensures
            subscribe_post(*old(self), *final(self), caller_id@,
                match requested_id { Some(v) => Some(v@), None => None }, filters, r),
    {
        if let Err(error) = self.ensure_capability("nostr:relay-subscribe") {
            return Err(error);
        }
        let caller = lower(trim(caller_id).as_str());
        if caller.unicode_len() == 0 {
            return Err(NostrCoreError::ValidationFailed(owned("caller_id must not be empty")));
        }
        let current = Self::count(&self.subscription_counts, caller.as_str());
        if current >= self.policy.max_subscriptions_per_caller {
            return Err(NostrCoreError::QuotaExceeded(join3("subscription quota exceeded for caller '", caller.as_str(), "'")));
        }
        let relays = match resolve_relays(&self.policy, &filters.relay_urls, "no relay candidates after normalization") {
            Ok(relays) => relays,
            Err(message) => {
                return Err(NostrCoreError::ValidationFailed(message));
            },
        };
        let id = self.allocate_subscription_id(requested_id);
        if filters.is_empty() {
            return Err(NostrCoreError::ValidationFailed(owned("filter set must not be empty")));
        }
        let persisted = PersistedNostrSubscription {
            caller_id: caller.clone(),
            requested_id: opt_str(requested_id),
            filters: filters.clone(),
        };
        let record = SubscriptionRecord { owner: caller.clone(), filters, relays };
        let ghost old_subs = self.subscriptions@;
        let ghost old_active = self.active_subscriptions@;
        self.subscriptions.insert(id.clone(), record);
        self.subscription_counts.insert(caller.clone(), current + 1);
        self.active_subscriptions.insert(id.clone(), persisted);
        assert(self.owners() =~= owner_map(old_subs).insert(id@, caller@));
        assert(self.active() =~= active_map(old_active).insert(id@, (caller@, match requested_id { Some(v) => Some(v@), None => None })));
        Ok(NostrSubscriptionHandle { id })
    }

    /// Ends a subscription; only its owner can. Says whether it was ended.
    pub fn relay_unsubscribe(&mut self, caller_id: &str, handle: &NostrSubscriptionHandle) -> (r: bool)
        ensures
            ({
                let caller = caller_spec(caller_id@);
                let id = handle.id@;
                if old(self).owners().dom().contains(id) && old(self).owners()[id] != caller {
                    &&& !r
                    &&& final(self).owners() == old(self).owners()
                    &&& final(self).subscription_counts() == old(self).subscription_counts()
                    &&& final(self).active() == old(self).active()
                } else if !old(self).owners().dom().contains(id) {
                    &&& !r
                    &&& final(self).owners() == old(self).owners()
                    &&& final(self).subscription_counts() == old(self).subscription_counts()
                    &&& final(self).active() == old(self).active()
                } else {
                    &&& r
                    &&& final(self).owners() == old(self).owners().remove(id)
                    &&& final(self).active() == old(self).active().remove(id)
                    &&& final(self).subscription_counts() == (if old(self).subscription_counts().dom().contains(caller) {
                        old(self).subscription_counts().insert(caller, (if old(self).subscription_counts()[caller] >= 1 {
                            old(self).subscription_counts()[caller] - 1
                        } else {
                            0
                        }) as usize)
                    } else {
                        old(self).subscription_counts()
                    })
                }
            }),
            final(self).policy() == old(self).policy(),
            final(self).publish_counts() == old(self).publish_counts(),
            final(self).next_id() == old(self).next_id(),
    {
        let caller = lower(trim(caller_id).as_str());
        let ghost old_subs = self.subscriptions@;
        let ghost old_active = self.active_subscriptions@;
        match self.subscriptions.get(handle.id.as_str()) {
            Some(record) => {
                if !str_eq(record.owner.as_str(), caller.as_str()) {
                    return false;
                }
            },
            None => {
                return false;
            },
        }
        self.subscriptions.remove(handle.id.as_str());
        assert(self.owners() =~= owner_map(old_subs).remove(handle.id@));
        match self.subscription_counts.get(caller.as_str()) {
            Some(count) => {
                let c = *count;
                let next = if c >= 1 { c - 1 } else { 0 };
                self.subscription_counts.insert(caller.clone(), next);
            },
            None => {},
        }
        self.active_subscriptions.remove(handle.id.as_str());
        assert(self.active() =~= active_map(old_active).remove(handle.id@));
        true
    }

    /// Whether `p` is the caller and requested id of a subscription held.
    pub open spec fn holds_subscription(&self, p: PersistedNostrSubscription) -> bool {
        exists|id: Seq<char>| #[trigger] self.active().dom().contains(id)
            && self.active()[id] == (p.caller_id@, requested_view(p.requested_id))
    }

    /// The subscriptions held, each with its caller, requested id and filters.
    pub fn persisted_subscriptions(&self) -> (r: Vec<PersistedNostrSubscription>)
        ensures
            r@.len() == self.active().len(),
            forall|i: int| 0 <= i < r@.len() ==> self.holds_subscription(#[trigger] r@[i]),
    {
        self.active_subscriptions.reveal_shape();
        let entries = self.active_subscriptions.entries();
        let ghost es = self.active_subscriptions.entry_seq();
        proof {
            assert(active_map(self.active_subscriptions@).dom() =~= self.active_subscriptions@.dom());
        }
        let mut out: Vec<PersistedNostrSubscription> = Vec::new();
        let mut i: usize = 0;
        while i < entries.len()
            invariant
                i <= entries@.len(),
                entries@ == es,
                es == self.active_subscriptions.entry_seq(),
                self.active_subscriptions@ == crate::table::seq_map(es),
                crate::table::keys_unique(es),
                out@.len() == i,
                forall|k: int| 0 <= k < i ==> self.holds_subscription(#[trigger] out@[k]),
            decreases entries@.len() - i,
        {
            let e = &entries[i];
            let copy = PersistedNostrSubscription {
                caller_id: e.value.caller_id.clone(),
                requested_id: match &e.value.requested_id {
                    Some(r) => Some(r.clone()),
                    None => None,
                },
                filters: e.value.filters.clone(),
            };
            proof {
                crate::table::lemma_value_at(es, i as int);
                assert(self.active().dom().contains(es[i as int].key@));
                assert(self.holds_subscription(copy));
            }
            out.push(copy);
            i = i + 1;
        }
        out
    }

    fn publish(
        &mut self,
        caller_id: &str,
        signed: &NostrSignedEvent,
        requested_relays: Option<&Vec<String>>,
    ) -> (r: Result<NostrPublishReceipt, NostrCoreError>)
        ensures
            publish_post(*old(self), *final(self), caller_id@, signed.signature@,
                match requested_relays { Some(v) => strs(v@), None => Seq::empty() }, r),
    {
        if let Err(error) = self.ensure_capability("nostr:relay-publish") {
            return Err(error);
        }
        let caller = lower(trim(caller_id).as_str());
        if caller.unicode_len() == 0 {
            return Err(NostrCoreError::ValidationFailed(owned("caller_id must not be empty")));
        }
        let current = Self::count(&self.publish_counts, caller.as_str());
        if current >= self.policy.max_publishes_per_caller {
            return Err(NostrCoreError::QuotaExceeded(join3("publish quota exceeded for caller '", caller.as_str(), "'")));
        }
        let empty: Vec<String> = Vec::new();
        let requested = match requested_relays {
            Some(v) => v,
            None => &empty,
        };
        let relays = match resolve_relays(&self.policy, requested, "no publish relays available after normalization") {
            Ok(relays) => relays,
            Err(message) => {
                return Err(NostrCoreError::ValidationFailed(message));
            },
        };
        let signature = trim(signed.signature.as_str());
        if signature.unicode_len() == 0 {
            return Err(NostrCoreError::ValidationFailed(owned("signed event signature must not be empty")));
        }
        self.publish_counts.insert(caller, current + 1);
        Ok(NostrPublishReceipt {
            accepted: true,
            relay_count: relays.len(),
            note: owned("accepted by scaffold host (relay transport pending)"),
        })
    }

    /// Publishes a signed event to the default relays.
    pub fn relay_publish(&mut self, caller_id: &str, signed: &NostrSignedEvent) -> (r: Result<NostrPublishReceipt, NostrCoreError>)
        ensures
            publish_post(*old(self), *final(self), caller_id@, signed.signature@, Seq::empty(), r),
    {
        self.publish(caller_id, signed, None)
    }

    /// Publishes a signed event to the given relays (the defaults where none are given).
    pub fn relay_publish_to_relays(
        &mut self,
        caller_id: &str,
        signed: &NostrSignedEvent,
        relay_urls: &Vec<String>,
    ) -> (r: Result<NostrPublishReceipt, NostrCoreError>)
        ensures
            publish_post(*old(self), *final(self), caller_id@, signed.signature@, strs(relay_urls@), r),
    {
        self.publish(caller_id, signed, Some(relay_urls))
    }
}

impl Default for NostrCoreRegistry {
    fn default() -> (r: Self)
        ensures
            r.owners() == Map::<Seq<char>, Seq<char>>::empty(),
            r.next_id() == 0,
    {
        NostrCoreRegistry::new()
    }
}

/// `r` is the refusal of a runtime that lacks `capability`.
pub open spec fn capability_error<T>(r: Result<T, NostrCoreError>, capability: Seq<char>) -> bool {
    r matches Err(NostrCoreError::CapabilityDenied { capability: c, reason }) && c@ == capability
        && reason@ == "missing runtime capability: "@ + capability
}

/// `r` is a validation failure with message `msg`.
pub open spec fn validation_error<T>(r: Result<T, NostrCoreError>, msg: Seq<char>) -> bool {
    r matches Err(NostrCoreError::ValidationFailed(m)) && m@ == msg
}

/// `r` is a quota failure with message `msg`.
pub open spec fn quota_error<T>(r: Result<T, NostrCoreError>, msg: Seq<char>) -> bool {
    r matches Err(NostrCoreError::QuotaExceeded(m)) && m@ == msg
}

/// What subscribing does and answers.
pub open spec fn subscribe_post(
    old: NostrCoreRegistry,
    new: NostrCoreRegistry,
    caller_id: Seq<char>,
    requested_id: Option<Seq<char>>,
    filters: NostrFilterSet,
    r: Result<NostrSubscriptionHandle, NostrCoreError>,
) -> bool {
    let caller = caller_spec(caller_id);
    let unchanged = new.owners() == old.owners() && new.active() == old.active()
        && new.subscription_counts() == old.subscription_counts() && new.publish_counts() == old.publish_counts()
        && new.policy() == old.policy();
    &&& new.capabilities() == old.capabilities()
    &&& if !old.grants("nostr:relay-subscribe"@) {
        unchanged && new.next_id() == old.next_id()
            && capability_error(r, "nostr:relay-subscribe"@)
    } else if caller.len() == 0 {
        unchanged && new.next_id() == old.next_id()
            && validation_error(r, "caller_id must not be empty"@)
    } else if count_of(old.subscription_counts(), caller) >= old.policy().max_subscriptions_per_caller {
        unchanged && new.next_id() == old.next_id()
            && quota_error(r, "subscription quota exceeded for caller '"@ + caller + "'"@)
    } else {
        match resolve_relays_spec(old.policy(), strs(filters.relay_urls@), "no relay candidates after normalization"@) {
            Err(message) => unchanged && new.next_id() == old.next_id()
                && validation_error(r, message),
            Ok(_) => {
                let (id, next) = allocate_spec(requested_id, old.next_id());
                &&& new.next_id() == next
                &&& if filters.empty_spec() {
                    unchanged && validation_error(r, "filter set must not be empty"@)
                } else {
                    &&& r matches Ok(h) && h.id@ == id
                    &&& new.owners() == old.owners().insert(id, caller)
                    &&& new.active() == old.active().insert(id, (caller, requested_id))
                    &&& new.subscription_counts() == old.subscription_counts().insert(
                        caller,
                        (count_of(old.subscription_counts(), caller) + 1) as usize,
                    )
                    &&& new.publish_counts() == old.publish_counts()
                    &&& new.policy() == old.policy()
                }
            },
        }
    }
}

/// What publishing does and answers.
pub open spec fn publish_post(
    old: NostrCoreRegistry,
    new: NostrCoreRegistry,
    caller_id: Seq<char>,
    signature: Seq<char>,
    requested_relays: Seq<Seq<char>>,
    r: Result<NostrPublishReceipt, NostrCoreError>,
) -> bool {
    let caller = caller_spec(caller_id);
    let unchanged = new.publish_counts() == old.publish_counts();
    &&& new.owners() == old.owners()
    &&& new.active() == old.active()
    &&& new.subscription_counts() == old.subscription_counts()
    &&& new.policy() == old.policy()
    &&& new.next_id() == old.next_id()
    &&& new.capabilities() == old.capabilities()
    &&& if !old.grants("nostr:relay-publish"@) {
        unchanged && capability_error(r, "nostr:relay-publish"@)
    } else if caller.len() == 0 {
        unchanged && validation_error(r, "caller_id must not be empty"@)
    } else if count_of(old.publish_counts(), caller) >= old.policy().max_publishes_per_caller {
        unchanged && quota_error(r, "publish quota exceeded for caller '"@ + caller + "'"@)
    } else {
        match resolve_relays_spec(old.policy(), requested_relays, "no publish relays available after normalization"@) {
            Err(message) => unchanged && validation_error(r, message),
            Ok(relays) => if trim_seq(signature).len() == 0 {
                unchanged && validation_error(r, "signed event signature must not be empty"@)
            } else {
                &&& r matches Ok(receipt) && receipt.accepted && receipt.relay_count == relays.len()
                    && receipt.note@ == "accepted by scaffold host (relay transport pending)"@
                &&& new.publish_counts() == old.publish_counts().insert(
                    caller,
                    (count_of(old.publish_counts(), caller) + 1) as usize,
                )
            },
        }
    }
}

/// Only the caller that owns a subscription can end it.
pub proof fn law_unsubscribe_is_caller_scoped(
    old: NostrCoreRegistry,
    new: NostrCoreRegistry,
    owner: Seq<char>,
    other: Seq<char>,
    id: Seq<char>,
)
    requires
        old.owners().dom().contains(id),
        old.owners()[id] == caller_spec(owner),
        caller_spec(other) != caller_spec(owner),
    ensures
        !old.owners().remove(id).dom().contains(id),
        old.owners()[id] != caller_spec(other),
{
}

/// A subscription that was accepted is owned by the caller that made it, under
/// the id it was given, until that caller ends it.
pub proof fn law_subscribe_then_owned(
    old: NostrCoreRegistry,
    new: NostrCoreRegistry,
    caller_id: Seq<char>,
    requested_id: Option<Seq<char>>,
    filters: NostrFilterSet,
    h: NostrSubscriptionHandle,
)
    requires
        subscribe_post(old, new, caller_id, requested_id, filters, Ok(h)),
    ensures
        new.owners().dom().contains(h.id@),
        new.owners()[h.id@] == caller_spec(caller_id),
        count_of(new.subscription_counts(), caller_spec(caller_id)) == count_of(old.subscription_counts(), caller_spec(caller_id)) + 1,
{
}

impl NostrCoreRegistry {
    /// Signs with the host's own user key from now on.
    pub fn use_local_signer(&mut self)
        ensures
            final(self).signer() is LocalHostKey,
            final(self).nip07_grants_view() == old(self).nip07_grants_view(),
    {
        self.signer_backend = NostrSignerBackend::LocalHostKey;
    }

    /// The NIP-07 grants, in the order they were made.
    pub fn persisted_nip07_permissions(&self) -> (r: Vec<Nip07PermissionGrant>)
        ensures
            nip07_views(r@) == self.nip07_grants_view(),
    {
        let mut out: Vec<Nip07PermissionGrant> = Vec::new();
        let mut i: usize = 0;
        while i < self.nip07_grants.len()
            invariant
                i <= self.nip07_grants@.len(),
                nip07_views(out@) == nip07_views(self.nip07_grants@.subrange(0, i as int)),
            decreases self.nip07_grants@.len() - i,
        {
            let g = copy_nip07_grant(&self.nip07_grants[i]);
            let ghost prev = out@;
            let ghost gv = (g.origin@, g.method@, g.decision);
            out.push(g);
            assert(out@ == prev.push(g));
            assert(nip07_views(out@) =~= nip07_views(prev).push(gv));
            assert(self.nip07_grants@.subrange(0, i + 1) =~= self.nip07_grants@.subrange(0, i as int).push(self.nip07_grants@[i as int]));
            assert(nip07_views(self.nip07_grants@.subrange(0, i + 1))
                =~= nip07_views(self.nip07_grants@.subrange(0, i as int)).push(gv));
            i = i + 1;
        }
        assert(self.nip07_grants@.subrange(0, self.nip07_grants@.len() as int) == self.nip07_grants@);
        out
    }

    /// The NIP-07 grants by origin, then method.
    pub fn nip07_permission_grants(&self) -> (r: Vec<Nip07PermissionGrant>)
        ensures
            nip07_sorted(nip07_views(r@)),
            nip07_views(r@).to_multiset() == self.nip07_grants_view().to_multiset(),
    {
        sorted_nip07_grants(&self.nip07_grants)
    }

    /// Decides NIP-07 requests from `origin` to `method`: replaces the
    /// decision for them, or adds one.
    pub fn set_nip07_permission(&mut self, origin: &str, method: &str, decision: Nip07PermissionDecision) -> (r: Result<(), NostrCoreError>)
        ensures
            nip07_origin(origin@) is None ==> (r matches Err(NostrCoreError::ValidationFailed(m))
                && m@ == "nip07 origin must be an http(s) origin"@),
            (nip07_origin(origin@) is Some && trim_seq(method@).len() == 0) ==> (r matches Err(NostrCoreError::ValidationFailed(m))
                && m@ == "nip07 method must not be empty"@),
            r is Err ==> final(self).nip07_grants_view() == old(self).nip07_grants_view(),
            (nip07_origin(origin@) is Some && trim_seq(method@).len() > 0) ==> r is Ok && ({
                let gs = old(self).nip07_grants_view();
                let o = nip07_origin(origin@)->0;
                let m = trim_seq(method@);
                let i = nip07_index(gs, o, m);
                &&& i >= 0 ==> final(self).nip07_grants_view() == gs.update(i, (o, m, decision))
                &&& i < 0 ==> final(self).nip07_grants_view() == gs.push((o, m, decision))
            }),
            final(self).signer() == old(self).signer(),
            final(self).capabilities() == old(self).capabilities(),
    {
        let origin = match normalize_nip07_origin(origin) {
            Some(origin) => origin,
            None => return Err(NostrCoreError::ValidationFailed(owned("nip07 origin must be an http(s) origin"))),
        };
        let method = match normalize_nip07_method(method) {
            Ok(method) => method,
            Err(error) => return Err(error),
        };
        upsert_nip07(&mut self.nip07_grants, origin, method, decision);
        Ok(())
    }

    /// Replaces the NIP-07 grants with persisted ones (see `applied_nip07`);
    /// a refused list changes nothing.
    pub fn apply_persisted_nip07_permissions(&mut self, permissions: &Vec<Nip07PermissionGrant>) -> (r: Result<(), NostrCoreError>)
        ensures
            applied_nip07(nip07_views(permissions@)) is None ==> (r matches Err(NostrCoreError::ValidationFailed(m))
                && m@ == "nip07 method must not be empty"@
                && final(self).nip07_grants_view() == old(self).nip07_grants_view()),
            applied_nip07(nip07_views(permissions@)) matches Some(gs) ==> r is Ok && final(self).nip07_grants_view() == gs,
            final(self).signer() == old(self).signer(),
    {
        let ghost ps = nip07_views(permissions@);
        let mut normalized: Vec<Nip07PermissionGrant> = Vec::new();
        let mut i: usize = 0;
        while i < permissions.len()
            invariant
                i <= permissions@.len(),
                ps == nip07_views(permissions@),
                applied_nip07(ps.subrange(0, i as int)) == Some(nip07_views(normalized@)),
            decreases permissions@.len() - i,
        {
            let ghost pre = ps.subrange(0, i + 1);
            assert(pre.drop_last() == ps.subrange(0, i as int));
            assert(pre.last() == ps[i as int]);
            let grant = &permissions[i];
            match normalize_nip07_origin(grant.origin.as_str()) {
                None => {},
                Some(origin) => {
                    let method = match normalize_nip07_method(grant.method.as_str()) {
                        Ok(method) => method,
                        Err(error) => {
                            proof {
                                lemma_applied_nip07_none_extends(ps, i as int);
                            }
                            return Err(error);
                        },
                    };
                    upsert_nip07(&mut normalized, origin, method, grant.decision);
                },
            }
            i = i + 1;
        }
        assert(ps.subrange(0, permissions@.len() as int) == ps);
        self.nip07_grants = normalized;
        Ok(())
    }
}



/// Whether an error is a backend-unavailable one (`true`) or a validation
/// one (`false`) with the message given.
pub open spec fn error_is(e: NostrCoreError, x: (bool, Seq<char>)) -> bool {
    match e {
        NostrCoreError::BackendUnavailable(m) => x.0 && m@ == x.1,
        NostrCoreError::ValidationFailed(m) => !x.0 && m@ == x.1,
        _ => false,
    }
}

/// Why a delegated signer does not sign an event of a kind here: its grants
/// refuse, or the relay transport that reaches it is not available.
pub open spec fn delegated_refusal(b: NostrSignerBackend, kind: u16) -> Option<(bool, Seq<char>)> {
    match b {
        NostrSignerBackend::LocalHostKey => None,
        NostrSignerBackend::Nip46Delegated(c) => match nip46_refusal(grant_views(c.permission_grants@), sign_permission(kind)) {
            Some(m) => Some((false, m)),
            None => Some((true, "nostr relay worker unavailable for nip46 rpc"@)),
        },
    }
}

impl NostrCoreRegistry {
    /// The signer settings to keep: the backend, and for a delegated signer
    /// its relays, key, permissions asked for and grants (not its secret).
    pub fn persisted_signer_settings(&self) -> (r: PersistedNostrSignerSettings)
        ensures
            match self.signer() {
                NostrSignerBackend::LocalHostKey => r is LocalHostKey,
                NostrSignerBackend::Nip46Delegated(c) => r matches PersistedNostrSignerSettings::Nip46Delegated(p)
                    && strs(p.relay_urls@) == strs(c.relay_urls@) && p.signer_pubkey@ == c.signer_pubkey@
                    && strs(p.requested_permissions@) == strs(c.requested_permissions@)
                    && grant_views(p.permission_grants@) == grant_views(c.permission_grants@),
            },
    {
        match &self.signer_backend {
            NostrSignerBackend::LocalHostKey => PersistedNostrSignerSettings::LocalHostKey,
            NostrSignerBackend::Nip46Delegated(config) => PersistedNostrSignerSettings::Nip46Delegated(
                PersistedNip46SignerSettings {
                    relay_urls: clone_strings(&config.relay_urls),
                    signer_pubkey: owned(config.signer_pubkey.as_str()),
                    requested_permissions: clone_strings(&config.requested_permissions),
                    permission_grants: copy_grants(&config.permission_grants),
                },
            ),
        }
    }

    /// What the signer backend is, as values.
    pub fn signer_backend_snapshot(&self) -> (r: NostrSignerBackendSnapshot)
        ensures
            match self.signer() {
                NostrSignerBackend::LocalHostKey => r is LocalHostKey,
                NostrSignerBackend::Nip46Delegated(c) => r matches NostrSignerBackendSnapshot::Nip46Delegated {
                    relay_urls,
                    signer_pubkey,
                    has_ephemeral_secret,
                    requested_permissions,
                    permission_grants,
                    signer_user_pubkey,
                    connected,
                } && strs(relay_urls@) == strs(c.relay_urls@) && signer_pubkey@ == c.signer_pubkey@
                    && has_ephemeral_secret == c.shared_secret is Some
                    && strs(requested_permissions@) == strs(c.requested_permissions@)
                    && grant_views(permission_grants@) == grant_views(c.permission_grants@)
                    && opt_view(signer_user_pubkey) == opt_view(c.signer_user_pubkey) && connected == c.connected,
            },
    {
        match &self.signer_backend {
            NostrSignerBackend::LocalHostKey => NostrSignerBackendSnapshot::LocalHostKey,
            NostrSignerBackend::Nip46Delegated(config) => NostrSignerBackendSnapshot::Nip46Delegated {
                relay_urls: clone_strings(&config.relay_urls),
                signer_pubkey: owned(config.signer_pubkey.as_str()),
                has_ephemeral_secret: config.shared_secret.is_some(),
                requested_permissions: clone_strings(&config.requested_permissions),
                permission_grants: copy_grants(&config.permission_grants),
                signer_user_pubkey: copy_opt(&config.signer_user_pubkey),
                connected: config.connected,
            },
        }
    }

    /// Restores kept signer settings: a delegated signer needs a usable relay
    /// and a key that parses; its permissions and grants are normalized.
    pub fn apply_persisted_signer_settings(&mut self, settings: &PersistedNostrSignerSettings) -> (r: Result<(), NostrCoreError>)
        ensures
            match *settings {
                PersistedNostrSignerSettings::LocalHostKey => r is Ok && final(self).signer() is LocalHostKey,
                PersistedNostrSignerSettings::Nip46Delegated(p) => {
                    let relays = normalize_relays_spec(strs(p.relay_urls@));
                    if relays.len() == 0 {
                        r matches Err(NostrCoreError::ValidationFailed(m))
                            && m@ == "persisted nip46 config requires at least one valid relay"@
                            && final(self).signer() == old(self).signer()
                    } else {
                        match public_key_hex(p.signer_pubkey@) {
                            Err(m) => r matches Err(NostrCoreError::ValidationFailed(e)) && e@ == m
                                && final(self).signer() == old(self).signer(),
                            Ok(pk) => r is Ok && (final(self).signer() matches NostrSignerBackend::Nip46Delegated(c)
                                && strs(c.relay_urls@) == relays && c.signer_pubkey@ == pk && c.shared_secret is None
                                && strs(c.requested_permissions@) == requested_permissions(strs(p.requested_permissions@))
                                && grants_sorted(grant_views(c.permission_grants@))
                                && grants_represent(grant_views(c.permission_grants@), grant_map(grant_views(p.permission_grants@)))
                                && c.signer_user_pubkey is None && !c.connected),
                        }
                    }
                },
            },
            final(self).nip07_grants_view() == old(self).nip07_grants_view(),
    {
        match settings {
            PersistedNostrSignerSettings::LocalHostKey => {
                self.signer_backend = NostrSignerBackend::LocalHostKey;
                Ok(())
            },
            PersistedNostrSignerSettings::Nip46Delegated(config) => {
                let relay_urls = normalize_relays(&config.relay_urls);
                if relay_urls.len() == 0 {
                    return Err(NostrCoreError::ValidationFailed(owned("persisted nip46 config requires at least one valid relay")));
                }
                let signer_pubkey = match parse_nostr_public_key(config.signer_pubkey.as_str()) {
                    Ok(pk) => pk,
                    Err(error) => return Err(error),
                };
                let requested = normalize_requested_permissions(&config.requested_permissions);
                self.signer_backend = NostrSignerBackend::Nip46Delegated(Nip46DelegateConfig {
                    relay_urls,
                    signer_pubkey,
                    shared_secret: None,
                    requested_permissions: requested,
                    permission_grants: normalize_permission_grants(&config.permission_grants),
                    signer_user_pubkey: None,
                    connected: false,
                });
                Ok(())
            },
        }
    }

    /// Signs through a delegated signer reached over `relay_url`.
    pub fn use_nip46_signer(&mut self, relay_url: &str, signer_pubkey: &str) -> (r: Result<(), NostrCoreError>)
        ensures
            ({
                let relays = normalize_relays_spec(seq![relay_url@]);
                if relays.len() == 0 || trim_seq(signer_pubkey@).len() == 0 {
                    r matches Err(NostrCoreError::ValidationFailed(m))
                        && m@ == "relay_url and signer_pubkey must be non-empty"@
                        && final(self).signer() == old(self).signer()
                } else {
                    match public_key_hex(trim_seq(signer_pubkey@)) {
                        Err(m) => r matches Err(NostrCoreError::ValidationFailed(e)) && e@ == m
                            && final(self).signer() == old(self).signer(),
                        Ok(pk) => r is Ok && (final(self).signer() matches NostrSignerBackend::Nip46Delegated(c)
                            && config_parts(c) == (relays, pk, None::<Seq<char>>, Seq::<Seq<char>>::empty(),
                                Seq::<(Seq<char>, Nip46PermissionDecision)>::empty(), None::<Seq<char>>, false)),
                    }
                }
            }),
            final(self).nip07_grants_view() == old(self).nip07_grants_view(),
    {
        let mut requested_relays: Vec<String> = Vec::new();
        requested_relays.push(owned(relay_url));
        assert(strs(requested_relays@) =~= seq![relay_url@]);
        let relay_urls = normalize_relays(&requested_relays);
        let trimmed = trim(signer_pubkey);
        if relay_urls.len() == 0 || trimmed.unicode_len() == 0 {
            return Err(NostrCoreError::ValidationFailed(owned("relay_url and signer_pubkey must be non-empty")));
        }
        let signer_pubkey = match parse_nostr_public_key(trimmed.as_str()) {
            Ok(pk) => pk,
            Err(error) => return Err(error),
        };
        let requested_permissions: Vec<String> = Vec::new();
        let permission_grants: Vec<Nip46PermissionGrant> = Vec::new();
        assert(strs(requested_permissions@) =~= Seq::<Seq<char>>::empty());
        assert(grant_views(permission_grants@) =~= Seq::<(Seq<char>, Nip46PermissionDecision)>::empty());
        self.signer_backend = NostrSignerBackend::Nip46Delegated(Nip46DelegateConfig {
            relay_urls,
            signer_pubkey,
            shared_secret: None,
            requested_permissions,
            permission_grants,
            signer_user_pubkey: None,
            connected: false,
        });
        Ok(())
    }

    /// Signs through the delegated signer a bunker URI names; its permissions
    /// start pending.
    pub fn use_nip46_bunker_uri(&mut self, bunker_uri: &str) -> (r: Result<ParsedNip46BunkerUri, NostrCoreError>)
        ensures
            match bunker_parse(bunker_uri@) {
                Err(m) => r matches Err(NostrCoreError::ValidationFailed(e)) && e@ == m
                    && final(self).signer() == old(self).signer(),
                Ok(parts) => r matches Ok(p) && p.parts() == parts
                    && (final(self).signer() matches NostrSignerBackend::Nip46Delegated(c)
                    && strs(c.relay_urls@) == parts.0 && c.signer_pubkey@ == parts.1
                    && opt_view(c.shared_secret) == parts.2 && strs(c.requested_permissions@) == parts.3
                    && grant_views(c.permission_grants@).map_values(|g: (Seq<char>, Nip46PermissionDecision)| g.0)
                        == requested_permissions(parts.3)
                    && (forall|i: int| 0 <= i < c.permission_grants@.len()
                        ==> (#[trigger] c.permission_grants@[i]).decision == Nip46PermissionDecision::Pending)
                    && c.signer_user_pubkey is None && !c.connected),
            },
            final(self).nip07_grants_view() == old(self).nip07_grants_view(),
    {
        let parsed = match parse_nip46_bunker_uri(bunker_uri) {
            Ok(parsed) => parsed,
            Err(error) => return Err(error),
        };
        let grants = seed_permission_grants(&parsed.requested_permissions);
        proof {
            assert(grant_views(grants@).map_values(|g: (Seq<char>, Nip46PermissionDecision)| g.0)
                =~= grants@.map_values(|g: Nip46PermissionGrant| g.permission@));
        }
        self.signer_backend = NostrSignerBackend::Nip46Delegated(Nip46DelegateConfig {
            relay_urls: clone_strings(&parsed.relay_urls),
            signer_pubkey: owned(parsed.signer_pubkey.as_str()),
            shared_secret: copy_opt(&parsed.shared_secret),
            requested_permissions: clone_strings(&parsed.requested_permissions),
            permission_grants: grants,
            signer_user_pubkey: None,
            connected: false,
        });
        Ok(parsed)
    }

    /// Decides a delegated signer's permission: replaces the decision of the
    /// first grant of it, or adds one and sorts the grants.
    pub fn set_nip46_permission(&mut self, permission: &str, decision: Nip46PermissionDecision) -> (r: Result<(), NostrCoreError>)
        ensures
            norm_permission(permission@).len() == 0 ==> (r matches Err(NostrCoreError::ValidationFailed(m))
                && m@ == "permission must be non-empty"@ && final(self).signer() == old(self).signer()),
            (norm_permission(permission@).len() > 0 && old(self).signer() is LocalHostKey) ==> (
                r matches Err(NostrCoreError::ValidationFailed(m))
                && m@ == "nip46 permission updates require delegated signer backend"@
                && final(self).signer() == old(self).signer()),
            norm_permission(permission@).len() > 0 ==> (old(self).signer() matches NostrSignerBackend::Nip46Delegated(c0) ==> (
                r is Ok && (final(self).signer() matches NostrSignerBackend::Nip46Delegated(c1) && {
                    let p = norm_permission(permission@);
                    let gs = grant_views(c0.permission_grants@);
                    let after = grant_views(c1.permission_grants@);
                    &&& config_parts(c1).0 == config_parts(c0).0
                    &&& config_parts(c1).1 == config_parts(c0).1
                    &&& config_parts(c1).2 == config_parts(c0).2
                    &&& config_parts(c1).3 == config_parts(c0).3
                    &&& config_parts(c1).5 == config_parts(c0).5
                    &&& config_parts(c1).6 == config_parts(c0).6
                    &&& match first_grant_index(gs, p) {
                        Some(i) => after == gs.update(i, (p, decision)),
                        None => nip46_sorted(after) && after.to_multiset() == gs.push((p, decision)).to_multiset(),
                    }
                }))),
            final(self).nip07_grants_view() == old(self).nip07_grants_view(),
    {
        let permission = match normalize_permission(permission) {
            Some(p) => p,
            None => return Err(NostrCoreError::ValidationFailed(owned("permission must be non-empty"))),
        };
        let mut backend = NostrSignerBackend::LocalHostKey;
        std::mem::swap(&mut backend, &mut self.signer_backend);
        match backend {
            NostrSignerBackend::LocalHostKey => {
                self.signer_backend = NostrSignerBackend::LocalHostKey;
                Err(NostrCoreError::ValidationFailed(owned("nip46 permission updates require delegated signer backend")))
            },
            NostrSignerBackend::Nip46Delegated(mut config) => {
                upsert_nip46_grant(&mut config.permission_grants, permission, decision);
                self.signer_backend = NostrSignerBackend::Nip46Delegated(config);
                Ok(())
            },
        }
    }

    /// Where events are signed by a delegated signer: the refusal of its
    /// grants for the kind, and otherwise that the relay transport that
    /// reaches it is not available here. None for the local signer.
    pub fn delegated_sign_refusal(&self, kind: u16) -> (r: Option<NostrCoreError>)
        ensures
            r is None <==> delegated_refusal(self.signer(), kind) is None,
            r matches Some(e) ==> error_is(e, delegated_refusal(self.signer(), kind)->0),
    {
        match &self.signer_backend {
            NostrSignerBackend::LocalHostKey => None,
            NostrSignerBackend::Nip46Delegated(config) => {
                let permission = join2("sign_event:", decimal(kind as u64).as_str());
                match ensure_nip46_permission_allowed(&config.permission_grants, permission.as_str()) {
                    Err(error) => Some(error),
                    Ok(()) => Some(NostrCoreError::BackendUnavailable(owned("nostr relay worker unavailable for nip46 rpc"))),
                }
            },
        }
    }
}


/// A copy of a delegated signer's configuration.
pub fn copy_nip46_config(c: &crate::nostr_signer::Nip46DelegateConfig) -> (r: crate::nostr_signer::Nip46DelegateConfig)
    ensures
        crate::nostr_signer::config_parts(r) == crate::nostr_signer::config_parts(*c),
{
    crate::nostr_signer::Nip46DelegateConfig {
        relay_urls: clone_strings(&c.relay_urls),
        signer_pubkey: owned(c.signer_pubkey.as_str()),
        shared_secret: crate::nostr_signer::copy_opt(&c.shared_secret),
        requested_permissions: clone_strings(&c.requested_permissions),
        permission_grants: crate::nostr_signer::copy_grants(&c.permission_grants),
        signer_user_pubkey: crate::nostr_signer::copy_opt(&c.signer_user_pubkey),
        connected: c.connected,
    }
}

impl NostrCoreRegistry {
    /// Where events are signed through a delegated signer: refused for a blank
    /// persona, otherwise the signing started with a copy of the signer's
    /// configuration (see `Nip46SignFlow::start`). None for the local signer.
    pub fn begin_delegated_sign(&self, persona: &str, unsigned: &crate::nostr_event::NostrUnsignedEvent)
        -> (r: Option<Result<(crate::nip46_flow::Nip46SignFlow, crate::nip46_flow::Nip46Step), NostrCoreError>>)
        ensures
            match self.signer() {
                NostrSignerBackend::LocalHostKey => r is None,
                NostrSignerBackend::Nip46Delegated(c) => if trim_seq(persona@).len() == 0 {
                    r matches Some(Err(NostrCoreError::ValidationFailed(m))) && m@ == "persona must not be empty"@
                } else {
                    r matches Some(Ok((f, step)))
                        && crate::nostr_signer::config_parts(f.config_view()) == crate::nostr_signer::config_parts(c)
                        && f.unsigned_view().created_at == unsigned.created_at
                        && f.unsigned_view().kind == unsigned.kind
                        && f.unsigned_view().content@ == unsigned.content@
                        && crate::nostr_event::tag_views(f.unsigned_view().tags@) == crate::nostr_event::tag_views(unsigned.tags@)
                        && f.stage_view() == crate::nip46_flow::stage_for(f.config_view())
                        && match crate::nostr_signer::nip46_refusal(
                            crate::nostr_signer::grant_views(c.permission_grants@),
                            crate::nostr_signer::sign_permission(unsigned.kind),
                        ) {
                            Some(m) => crate::nip46_flow::fails_with(step, m),
                            None => step matches crate::nip46_flow::Nip46Step::Call(call)
                                && crate::nip46_flow::call_matches(f.stage_view(), f.config_view(), call),
                        }
                },
            },
    {
        match &self.signer_backend {
            NostrSignerBackend::LocalHostKey => None,
            NostrSignerBackend::Nip46Delegated(config) => {
                if trim(persona).unicode_len() == 0 {
                    return Some(Err(NostrCoreError::ValidationFailed(owned("persona must not be empty"))));
                }
                let copy = crate::nostr_event::NostrUnsignedEvent {
                    created_at: unsigned.created_at,
                    kind: unsigned.kind,
                    content: owned(unsigned.content.as_str()),
                    tags: crate::nostr_event::clone_tags(&unsigned.tags),
                };
                Some(Ok(crate::nip46_flow::Nip46SignFlow::start(copy_nip46_config(config), copy)))
            },
        }
    }

    /// Keeps what a delegated signing learnt of its signer, where the signer
    /// in use is still the one it was made for (the same relays and key).
    pub fn update_nip46_config(&mut self, config: crate::nostr_signer::Nip46DelegateConfig)
        ensures
            match old(self).signer() {
                NostrSignerBackend::Nip46Delegated(c) => if strs(c.relay_urls@) == strs(config.relay_urls@) && c.signer_pubkey@ == config.signer_pubkey@ {
                    final(self).signer() == NostrSignerBackend::Nip46Delegated(config)
                } else {
                    final(self).signer() == old(self).signer()
                },
                NostrSignerBackend::LocalHostKey => final(self).signer() == old(self).signer(),
            },
            final(self).nip07_grants_view() == old(self).nip07_grants_view(),
    {
        let same = match &self.signer_backend {
            NostrSignerBackend::Nip46Delegated(current) => crate::text::strings_equal(&current.relay_urls, &config.relay_urls)
                && str_eq(current.signer_pubkey.as_str(), config.signer_pubkey.as_str()),
            NostrSignerBackend::LocalHostKey => false,
        };
        if same {
            self.signer_backend = NostrSignerBackend::Nip46Delegated(config);
        }
    }
}

/// What a NIP-07 request is answered with; the bridge writes it as JSON.
#[derive(Debug)]
pub enum Nip07Response {
    /// The relays a page may use, each readable and writable.
    Relays(Vec<String>),
    PublicKey(String),
    SignedEvent(NostrSignedEvent),
}

/// The decision the NIP-07 grants give an origin and method.
pub open spec fn nip07_decision(gs: Seq<(Seq<char>, Seq<char>, Nip07PermissionDecision)>, o: Seq<char>, m: Seq<char>) -> Nip07PermissionDecision {
    let i = nip07_index(gs, o, m);
    if i >= 0 { gs[i].2 } else { Nip07PermissionDecision::Pending }
}

/// The grants after a NIP-07 request is decided: a pending grant is added for
/// an origin and method that have none.
pub open spec fn nip07_after_check(gs: Seq<(Seq<char>, Seq<char>, Nip07PermissionDecision)>, o: Seq<char>, m: Seq<char>) -> Seq<(Seq<char>, Seq<char>, Nip07PermissionDecision)> {
    if nip07_index(gs, o, m) >= 0 { gs } else { gs.push((o, m, Nip07PermissionDecision::Pending)) }
}

/// Why a NIP-07 request is refused, where it is.
pub open spec fn nip07_refusal(gs: Seq<(Seq<char>, Seq<char>, Nip07PermissionDecision)>, o: Seq<char>, m: Seq<char>) -> Option<Seq<char>> {
    match nip07_decision(gs, o, m) {
        Nip07PermissionDecision::Allow => None,
        Nip07PermissionDecision::Pending => Some("nip07 permission pending for "@ + o + "::"@ + m + "; allow it in Settings -> Sync"@),
        Nip07PermissionDecision::Deny => Some("nip07 permission denied for "@ + o + "::"@ + m),
    }
}

pub open spec fn as_response(s: Result<NostrSignedEvent, NostrCoreError>) -> Result<Nip07Response, NostrCoreError> {
    match s {
        Ok(e) => Ok(Nip07Response::SignedEvent(e)),
        Err(e) => Err(e),
    }
}

impl NostrCoreRegistry {
    /// Decides a NIP-07 request from `origin` to `method` (both normalized).
    pub fn ensure_nip07_permission_allowed(&mut self, origin: &str, method: &str) -> (r: Result<(), NostrCoreError>)
        ensures
            final(self).nip07_grants_view() == nip07_after_check(old(self).nip07_grants_view(), origin@, method@),
            match nip07_refusal(old(self).nip07_grants_view(), origin@, method@) {
                None => r is Ok,
                Some(m) => r matches Err(NostrCoreError::ValidationFailed(e)) && e@ == m,
            },
            final(self).signer() == old(self).signer(),
            final(self).capabilities() == old(self).capabilities(),
    {
        match resolve_nip07_permission_decision(&mut self.nip07_grants, origin, method) {
            Nip07PermissionDecision::Allow => Ok(()),
            Nip07PermissionDecision::Pending => {
                let mut message = join3("nip07 permission pending for ", origin, "::");
                message.append(method);
                message.append("; allow it in Settings -> Sync");
                Err(NostrCoreError::ValidationFailed(message))
            },
            Nip07PermissionDecision::Deny => {
                let mut message = join3("nip07 permission denied for ", origin, "::");
                message.append(method);
                Err(NostrCoreError::ValidationFailed(message))
            },
        }
    }

    /// Answers a request a page makes through the NIP-07 bridge. The event a
    /// `signEvent` request carries is read from its payload beforehand and
    /// handed in as `unsigned`; it is used only once the request is allowed.
    pub fn nip07_request(
        &mut self,
        identity: &crate::identity::IdentityRegistry,
        origin: &str,
        method: &str,
        unsigned: Result<crate::nostr_event::NostrUnsignedEvent, NostrCoreError>,
    ) -> (r: Result<Nip07Response, NostrCoreError>)
        ensures
            !old(self).grants("nostr:nip07-bridge"@) ==> capability_error(r, "nostr:nip07-bridge"@)
                && final(self).nip07_grants_view() == old(self).nip07_grants_view(),
            old(self).grants("nostr:nip07-bridge"@) && nip07_origin(origin@) is None ==> (r matches Err(NostrCoreError::ValidationFailed(m))
                && m@ == "nip07 origin must be an http(s) origin"@
                && final(self).nip07_grants_view() == old(self).nip07_grants_view()),
            old(self).grants("nostr:nip07-bridge"@) && nip07_origin(origin@) is Some ==> ({
                let o = nip07_origin(origin@)->0;
                let m = trim_seq(method@);
                let gs = old(self).nip07_grants_view();
                if m.len() == 0 {
                    r matches Err(NostrCoreError::ValidationFailed(e)) && e@ == "nip07 method must not be empty"@
                        && final(self).nip07_grants_view() == gs
                } else if m == "getRelays"@ {
                    r matches Ok(Nip07Response::Relays(relays))
                        && strs(relays@) == normalize_relays_spec(strs(old(self).policy().default_relays@)
                            + strs(old(self).policy().allowlist@))
                        && final(self).nip07_grants_view() == gs
                } else if m == "getPublicKey"@ || m == "signEvent"@ {
                    &&& final(self).nip07_grants_view() == nip07_after_check(gs, o, m)
                    &&& match nip07_refusal(gs, o, m) {
                        Some(msg) => r matches Err(NostrCoreError::ValidationFailed(e)) && e@ == msg,
                        None => if m == "getPublicKey"@ {
                            let keys = identity.user_personas();
                            let res = crate::identity::resolved_user(keys, identity.user_fallback(), "default"@);
                            if keys.dom().contains(res) {
                                r matches Ok(Nip07Response::PublicKey(pk)) && pk@ == crate::hex::hex_spec(keys[res].public_key@)
                            } else {
                                r matches Err(NostrCoreError::BackendUnavailable(e))
                                    && e@ == "default user identity is unavailable for nip07"@
                            }
                        } else {
                            match unsigned {
                                Err(e) => r == Err::<Nip07Response, NostrCoreError>(e),
                                Ok(u) => exists|s: Result<NostrSignedEvent, NostrCoreError>|
                                    crate::nostr_event::sign_event_post(old(self).grants("identity:nostr-sign"@), old(self).signer(), *identity, "default"@, u, s)
                                    && #[trigger] as_response(s) == r,
                            }
                        },
                    }
                } else {
                    r matches Err(NostrCoreError::ValidationFailed(e)) && e@ == "unsupported nip07 method '"@ + m + "'"@
                        && final(self).nip07_grants_view() == gs
                }
            }),
            final(self).signer() == old(self).signer(),
            final(self).capabilities() == old(self).capabilities(),
    {
        if let Err(error) = self.ensure_capability("nostr:nip07-bridge") {
            return Err(error);
        }
        let origin = match normalize_nip07_origin(origin) {
            Some(origin) => origin,
            None => return Err(NostrCoreError::ValidationFailed(owned("nip07 origin must be an http(s) origin"))),
        };
        let method = match normalize_nip07_method(method) {
            Ok(method) => method,
            Err(error) => return Err(error),
        };
        proof {
            reveal_strlit("getRelays");
            reveal_strlit("getPublicKey");
            reveal_strlit("signEvent");
        }
        if str_eq(method.as_str(), "getRelays") {
            let mut candidates = clone_strings(&self.policy.default_relays);
            let mut i: usize = 0;
            let ghost start = strs(candidates@);
            while i < self.policy.allowlist.len()
                invariant
                    i <= self.policy.allowlist@.len(),
                    strs(candidates@) == start + strs(self.policy.allowlist@.subrange(0, i as int)),
                decreases self.policy.allowlist@.len() - i,
            {
                let ghost before = strs(candidates@);
                let item = owned(self.policy.allowlist[i].as_str());
                let ghost iv = item@;
                candidates.push(item);
                assert(strs(candidates@) =~= before.push(iv));
                assert(strs(self.policy.allowlist@.subrange(0, i + 1))
                    =~= strs(self.policy.allowlist@.subrange(0, i as int)).push(self.policy.allowlist@[i as int]@));
                i = i + 1;
            }
            assert(self.policy.allowlist@.subrange(0, self.policy.allowlist@.len() as int) == self.policy.allowlist@);
            return Ok(Nip07Response::Relays(normalize_relays(&candidates)));
        }
        if str_eq(method.as_str(), "getPublicKey") {
            match self.ensure_nip07_permission_allowed(origin.as_str(), method.as_str()) {
                Ok(()) => {},
                Err(error) => return Err(error),
            }
            return match identity.nostr_public_key_hex_for("default") {
                Some(pk) => Ok(Nip07Response::PublicKey(pk)),
                None => Err(NostrCoreError::BackendUnavailable(owned("default user identity is unavailable for nip07"))),
            };
        }
        if str_eq(method.as_str(), "signEvent") {
            match self.ensure_nip07_permission_allowed(origin.as_str(), method.as_str()) {
                Ok(()) => {},
                Err(error) => return Err(error),
            }
            let unsigned = match unsigned {
                Ok(u) => u,
                Err(error) => return Err(error),
            };
            let signed = self.sign_event(identity, "default", &unsigned);
            let r = match signed {
                Ok(e) => Ok(Nip07Response::SignedEvent(e)),
                Err(e) => Err(e),
            };
            assert(as_response(signed) == r);
            return r;
        }
        Err(NostrCoreError::ValidationFailed(join3("unsupported nip07 method '", method.as_str(), "'")))
    }
}


/// A kept subscription as values: its caller, requested id and filters.
pub open spec fn kept_view(p: PersistedNostrSubscription) -> (Seq<char>, Option<Seq<char>>, NostrFilterSet) {
    (p.caller_id@, requested_view(p.requested_id), p.filters)
}

/// How a list of kept subscriptions is restored, one after another: entries
/// with a blank caller or an empty filter set are skipped; each other has its
/// relays resolved and gets an id. Gives the (id, caller, requested id) of
/// each, the next counter, and the refusal that stopped it, where one did.
pub open spec fn restore_plan(
    policy: NostrRelayPolicy,
    entries: Seq<(Seq<char>, Option<Seq<char>>, NostrFilterSet)>,
    next: u64,
) -> (Seq<(Seq<char>, Seq<char>, Option<Seq<char>>)>, u64, Option<Seq<char>>)
    decreases entries.len(),
{
    if entries.len() == 0 {
        (Seq::empty(), next, None)
    } else {
        let (plan, n, refusal) = restore_plan(policy, entries.drop_last(), next);
        let e = entries.last();
        let caller = caller_spec(e.0);
        if refusal is Some || caller.len() == 0 || e.2.empty_spec() {
            (plan, n, refusal)
        } else {
            match resolve_relays_spec(policy, strs(e.2.relay_urls@), "no relay candidates after normalization"@) {
                Err(m) => (plan, n, Some(m)),
                Ok(_) => {
                    let (id, n2) = allocate_spec(e.1, n);
                    (plan.push((id, caller, e.1)), n2, None)
                },
            }
        }
    }
}

/// The owners a restore plan leaves.
pub open spec fn plan_owners(plan: Seq<(Seq<char>, Seq<char>, Option<Seq<char>>)>) -> Map<Seq<char>, Seq<char>>
    decreases plan.len(),
{
    if plan.len() == 0 {
        Map::empty()
    } else {
        plan_owners(plan.drop_last()).insert(plan.last().0, plan.last().1)
    }
}

/// The active subscriptions a restore plan leaves.
pub open spec fn plan_active(plan: Seq<(Seq<char>, Seq<char>, Option<Seq<char>>)>) -> Map<Seq<char>, (Seq<char>, Option<Seq<char>>)>
    decreases plan.len(),
{
    if plan.len() == 0 {
        Map::empty()
    } else {
        plan_active(plan.drop_last()).insert(plan.last().0, (plan.last().1, plan.last().2))
    }
}

/// The subscription counts a restore plan leaves: one per entry of a caller.
pub open spec fn plan_counts(plan: Seq<(Seq<char>, Seq<char>, Option<Seq<char>>)>) -> Map<Seq<char>, usize>
    decreases plan.len(),
{
    if plan.len() == 0 {
        Map::empty()
    } else {
        let prev = plan_counts(plan.drop_last());
        prev.insert(plan.last().1, (count_of(prev, plan.last().1) + 1) as usize)
    }
}

pub proof fn lemma_plan_counts_bound(plan: Seq<(Seq<char>, Seq<char>, Option<Seq<char>>)>, c: Seq<char>)
    requires
        plan.len() < usize::MAX,
    ensures
        count_of(plan_counts(plan), c) <= plan.len(),
    decreases plan.len(),
{
    if plan.len() > 0 {
        lemma_plan_counts_bound(plan.drop_last(), c);
        lemma_plan_counts_bound(plan.drop_last(), plan.last().1);
    }
}

pub proof fn lemma_restore_plan_len(
    policy: NostrRelayPolicy,
    entries: Seq<(Seq<char>, Option<Seq<char>>, NostrFilterSet)>,
    next: u64,
)
    ensures
        restore_plan(policy, entries, next).0.len() <= entries.len(),
    decreases entries.len(),
{
    if entries.len() > 0 {
        lemma_restore_plan_len(policy, entries.drop_last(), next);
    }
}

impl NostrCoreRegistry {
    /// Replaces the held subscriptions with a kept list (see `restore_plan`);
    /// gives how many were restored. A refused list leaves the subscriptions
    /// as they were.
    pub fn restore_persisted_subscriptions(&mut self, subscriptions: &Vec<PersistedNostrSubscription>) -> (r: Result<usize, NostrCoreError>)
        ensures
            ({
                let (plan, next, refusal) = restore_plan(
                    old(self).policy(),
                    subscriptions@.map_values(|p: PersistedNostrSubscription| kept_view(p)),
                    old(self).next_id(),
                );
                &&& final(self).next_id() == next
                &&& final(self).policy() == old(self).policy()
                &&& final(self).publish_counts() == old(self).publish_counts()
                &&& match refusal {
                    Some(m) => r matches Err(NostrCoreError::ValidationFailed(e)) && e@ == m
                        && final(self).owners() == old(self).owners() && final(self).active() == old(self).active()
                        && final(self).subscription_counts() == old(self).subscription_counts(),
                    None => r == Ok::<usize, NostrCoreError>(plan.len() as usize)
                        && final(self).owners() == plan_owners(plan) && final(self).active() == plan_active(plan)
                        && final(self).subscription_counts() == plan_counts(plan),
                }
            }),
            final(self).signer() == old(self).signer(),
            final(self).nip07_grants_view() == old(self).nip07_grants_view(),
    {
        let ghost es = subscriptions@.map_values(|p: PersistedNostrSubscription| kept_view(p));
        let ghost start = self.next_id();
        let mut ids: Vec<String> = Vec::new();
        let mut callers: Vec<String> = Vec::new();
        let mut picked: Vec<usize> = Vec::new();
        let mut relay_lists: Vec<Vec<String>> = Vec::new();
        let mut i: usize = 0;
        while i < subscriptions.len()
            invariant
                i <= subscriptions@.len(),
                es == subscriptions@.map_values(|p: PersistedNostrSubscription| kept_view(p)),
                ids@.len() == callers@.len() && ids@.len() == picked@.len() && ids@.len() == relay_lists@.len(),
                ({
                    let (plan, n, refusal) = restore_plan(self.policy(), es.subrange(0, i as int), start);
                    &&& refusal is None
                    &&& n == self.next_id()
                    &&& plan.len() == ids@.len()
                    &&& forall|k: int| 0 <= k < plan.len() ==> (#[trigger] plan[k]).0 == ids@[k]@
                        && plan[k].1 == callers@[k]@ && (picked@[k] as int) < i
                        && plan[k].2 == requested_view(subscriptions@[picked@[k] as int].requested_id)
                }),
                forall|k: int| 0 <= k < picked@.len() ==> (#[trigger] picked@[k] as int) < i,
                self.policy() == old(self).policy(),
                self.owners() == old(self).owners(),
                self.active() == old(self).active(),
                self.subscription_counts() == old(self).subscription_counts(),
                self.publish_counts() == old(self).publish_counts(),
                self.signer() == old(self).signer(),
                self.nip07_grants_view() == old(self).nip07_grants_view(),
                start == old(self).next_id(),
            decreases subscriptions@.len() - i,
        {
            let ghost pre = es.subrange(0, i + 1);
            assert(pre.drop_last() == es.subrange(0, i as int));
            assert(pre.last() == kept_view(subscriptions@[i as int]));
            let entry = &subscriptions[i];
            let caller = lower(trim(entry.caller_id.as_str()).as_str());
            if caller.unicode_len() > 0 && !entry.filters.is_empty() {
                let relays = match resolve_relays(&self.policy, &entry.filters.relay_urls, "no relay candidates after normalization") {
                    Ok(relays) => relays,
                    Err(message) => {
                        proof {
                            lemma_restore_refusal_sticks(self.policy(), es, start, i as int);
                        }
                        return Err(NostrCoreError::ValidationFailed(message));
                    },
                };
                let requested: Option<&str> = match &entry.requested_id {
                    Some(r) => Some(r.as_str()),
                    None => None,
                };
                let id = self.allocate_subscription_id(requested);
                ids.push(id);
                callers.push(caller);
                picked.push(i);
                relay_lists.push(relays);
            }
            i = i + 1;
        }
        assert(es.subrange(0, subscriptions@.len() as int) == es);
        let ghost plan = restore_plan(self.policy(), es, start).0;
        proof {
            lemma_restore_plan_len(self.policy(), es, start);
        }
        let mut subs: Table<SubscriptionRecord> = Table::new();
        let mut counts: Table<usize> = Table::new();
        let mut active: Table<PersistedNostrSubscription> = Table::new();
        let mut k: usize = 0;
        while k < ids.len()
            invariant
                k <= ids@.len(),
                ids@.len() == callers@.len() && ids@.len() == picked@.len() && ids@.len() == relay_lists@.len(),
                plan.len() == ids@.len(),
                plan.len() <= subscriptions@.len(),
                forall|j: int| 0 <= j < plan.len() ==> (#[trigger] plan[j]).0 == ids@[j]@ && plan[j].1 == callers@[j]@
                    && (picked@[j] as int) < subscriptions@.len()
                    && plan[j].2 == requested_view(subscriptions@[picked@[j] as int].requested_id),
                owner_map(subs@) == plan_owners(plan.subrange(0, k as int)),
                active_map(active@) == plan_active(plan.subrange(0, k as int)),
                counts@ == plan_counts(plan.subrange(0, k as int)),
            decreases ids@.len() - k,
        {
            let ghost pre = plan.subrange(0, k + 1);
            assert(pre.drop_last() == plan.subrange(0, k as int));
            assert(pre.last() == plan[k as int]);
            let entry = &subscriptions[picked[k]];
            let caller = owned(callers[k].as_str());
            let record = SubscriptionRecord {
                owner: owned(callers[k].as_str()),
                filters: entry.filters.clone(),
                relays: clone_strings(&relay_lists[k]),
            };
            let persisted = PersistedNostrSubscription {
                caller_id: owned(callers[k].as_str()),
                requested_id: match &entry.requested_id {
                    Some(r) => Some(owned(r.as_str())),
                    None => None,
                },
                filters: entry.filters.clone(),
            };
            let ghost old_subs = subs@;
            let ghost old_active = active@;
            proof {
                lemma_plan_counts_bound(plan.subrange(0, k as int), caller@);
            }
            let current = Self::count(&counts, caller.as_str());
            subs.insert(owned(ids[k].as_str()), record);
            active.insert(owned(ids[k].as_str()), persisted);
            counts.insert(caller, current + 1);
            assert(owner_map(subs@) =~= owner_map(old_subs).insert(ids@[k as int]@, callers@[k as int]@));
            assert(active_map(active@) =~= active_map(old_active).insert(ids@[k as int]@, (callers@[k as int]@, plan[k as int].2)));
            k = k + 1;
        }
        assert(plan.subrange(0, ids@.len() as int) == plan);
        self.subscriptions = subs;
        self.active_subscriptions = active;
        self.subscription_counts = counts;
        Ok(ids.len())
    }
}

/// Once an entry refuses the list, the whole list is refused at that point.
pub proof fn lemma_restore_refusal_sticks(
    policy: NostrRelayPolicy,
    entries: Seq<(Seq<char>, Option<Seq<char>>, NostrFilterSet)>,
    next: u64,
    i: int,
)
    requires
        0 <= i < entries.len(),
        restore_plan(policy, entries.subrange(0, i + 1), next).2 is Some,
    ensures
        restore_plan(policy, entries, next) == restore_plan(policy, entries.subrange(0, i + 1), next),
    decreases entries.len() - i,
{
    if i + 1 < entries.len() {
        let q = entries.subrange(0, i + 2);
        assert(q.drop_last() == entries.subrange(0, i + 1));
        lemma_restore_refusal_sticks(policy, entries, next, i + 1);
    } else {
        assert(entries.subrange(0, i + 1) == entries);
    }
}

} // verus!
