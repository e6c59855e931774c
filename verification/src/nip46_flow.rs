//! Signing through a delegated (NIP-46) signer: which call the signer is
//! asked for next over its relays, and what each answer decides. The
//! application carries the calls to the relays and hands the answers back.

use vstd::prelude::*;
use crate::nostr::{NostrCoreError, NostrSignedEvent};
use crate::nostr_event::{comma_joined, signed_event_valid, tag_views, verify_signed_event_signature, NostrUnsignedEvent};
use crate::nostr_signer::{
    ensure_nip46_permission_allowed, grant_views, nip46_refusal, parse_nostr_public_key, public_key_hex, sign_permission,
    Nip46DelegateConfig,
};
use crate::nostr::decimal;
use crate::text::{join2, join3, owned, str_eq, strings_equal, strs};

verus! {

/// A call the delegated signer is asked for.
#[derive(Debug)]
pub enum Nip46Call {
    /// `connect`, with the signer's key, the shared secret where there is
    /// one, and the permissions asked for joined by commas where there are any.
    Connect { params: Vec<String> },
    /// `get_public_key`.
    GetPublicKey,
    /// `sign_event`, with the event to sign.
    SignEvent,
}

/// What a call's result held, as the application read it.
#[derive(Debug)]
pub enum Nip46Reply {
    Text(String),
    Event(NostrSignedEvent),
    Other,
}

/// Where a signing stands.
#[derive(Debug, Clone, Copy, PartialEq, Eq, Structural)]
pub enum Nip46Stage {
    Connecting,
    FetchingPublicKey,
    Signing,
}

/// What happens next: a call to make, the signed event, or why it failed.
#[derive(Debug)]
pub enum Nip46Step {
    Call(Nip46Call),
    Signed(NostrSignedEvent),
    Failed(NostrCoreError),
}

/// A signing under way with a delegated signer.
pub struct Nip46SignFlow {
    config: Nip46DelegateConfig,
    unsigned: NostrUnsignedEvent,
    stage: Nip46Stage,
}

/// The stage a configuration starts from: connecting, then learning the
/// user's key, then signing.
pub open spec fn stage_for(c: Nip46DelegateConfig) -> Nip46Stage {
    if !c.connected {
        Nip46Stage::Connecting
    } else if c.signer_user_pubkey is None {
        Nip46Stage::FetchingPublicKey
    } else {
        Nip46Stage::Signing
    }
}

/// The parameters of `connect`.
pub open spec fn connect_params(c: Nip46DelegateConfig) -> Seq<Seq<char>> {
    seq![c.signer_pubkey@]
        + (match c.shared_secret { Some(s) => seq![s@], None => Seq::empty() })
        + (if c.requested_permissions@.len() > 0 { seq![comma_joined(strs(c.requested_permissions@))] } else { Seq::empty() })
}

/// The call asked for at a stage.
pub open spec fn call_matches(stage: Nip46Stage, c: Nip46DelegateConfig, call: Nip46Call) -> bool {
    match stage {
        Nip46Stage::Connecting => call matches Nip46Call::Connect { params } && strs(params@) == connect_params(c),
        Nip46Stage::FetchingPublicKey => call is GetPublicKey,
        Nip46Stage::Signing => call is SignEvent,
    }
}

pub open spec fn fails_with(step: Nip46Step, message: Seq<char>) -> bool {
    step matches Nip46Step::Failed(NostrCoreError::ValidationFailed(m)) && m@ == message
}

/// The same event content, time, kind and tags.
pub open spec fn same_payload(e: NostrSignedEvent, u: NostrUnsignedEvent) -> bool {
    &&& e.created_at == u.created_at
    &&& e.kind == u.kind
    &&& e.content@ == u.content@
    &&& tag_views(e.tags@) == tag_views(u.tags@)
}

/// What the signer's answer to `sign_event` decides, for the user key it
/// signs for.
pub open spec fn signed_reply_step(reply: Nip46Reply, user_pubkey: Seq<char>, u: NostrUnsignedEvent, step: Nip46Step) -> bool {
    match reply {
        Nip46Reply::Event(e) => if e.pubkey@ != user_pubkey {
            fails_with(step, "nip46 signer returned mismatched user pubkey"@)
        } else if !signed_event_valid(e, user_pubkey) {
            fails_with(step, "nip46 signer returned invalid event signature"@)
        } else if !same_payload(e, u) {
            fails_with(step, "nip46 signer mutated unsigned event payload"@)
        } else {
            step matches Nip46Step::Signed(s) && s == e
        },
        _ => fails_with(step, "nip46 sign_event result missing event fields"@),
    }
}

fn join_commas(items: &Vec<String>) -> (r: String)
    ensures
        r@ == comma_joined(strs(items@)),
{
    let ghost views = strs(items@);
    let mut out = String::new();
    let mut i: usize = 0;
    while i < items.len()
        invariant
            i <= items@.len(),
            views == strs(items@),
            out@ == comma_joined(views.subrange(0, i as int)),
        decreases items@.len() - i,
    {
        let ghost before = out@;
        proof {
            reveal_strlit(",");
        }
        if i > 0 {
            out = join3(out.as_str(), ",", items[i].as_str());
            assert(out@ =~= before.push(',') + items@[i as int]@);
        } else {
            out = owned(items[i].as_str());
        }
        let ghost next = views.subrange(0, i + 1);
        assert(next.drop_last() =~= views.subrange(0, i as int));
        assert(views[i as int] == items@[i as int]@);
        assert(next.last() == views[i as int]);
        assert(next[0] == views[0]);
        assert(out@ =~= comma_joined(next));
        i = i + 1;
    }
    assert(views.subrange(0, items@.len() as int) =~= views);
    out
}

fn tags_equal(a: &Vec<Vec<String>>, b: &Vec<Vec<String>>) -> (r: bool)
    ensures
        r == (tag_views(a@) == tag_views(b@)),
{
    if a.len() != b.len() {
        assert(tag_views(a@).len() != tag_views(b@).len());
        return false;
    }
    let mut i: usize = 0;
    while i < a.len()
        invariant
            i <= a@.len(),
            a@.len() == b@.len(),
            forall|k: int| 0 <= k < i ==> strs(a@[k]@) == strs(b@[k]@),
        decreases a@.len() - i,
    {
        if !strings_equal(&a[i], &b[i]) {
            assert(tag_views(a@)[i as int] != tag_views(b@)[i as int]);
            return false;
        }
        i = i + 1;
    }
    assert(tag_views(a@) =~= tag_views(b@)) by {
        assert forall|k: int| 0 <= k < a@.len() implies tag_views(a@)[k] == tag_views(b@)[k] by {
            assert(tag_views(a@)[k] == strs(a@[k]@));
            assert(tag_views(b@)[k] == strs(b@[k]@));
        }
    }
    true
}

impl Nip46SignFlow {
    #[verifier::type_invariant]
    spec fn inv(self) -> bool {
        self.stage == stage_for(self.config)
    }

    pub closed spec fn config_view(&self) -> Nip46DelegateConfig {
        self.config
    }

    pub closed spec fn unsigned_view(&self) -> NostrUnsignedEvent {
        self.unsigned
    }

    pub closed spec fn stage_view(&self) -> Nip46Stage {
        self.stage
    }

    /// The stage follows from the configuration.
    pub fn reveal_stage(&self)
        ensures
            self.stage_view() == stage_for(self.config_view()),
    {
        proof {
            use_type_invariant(self);
        }
    }

    fn call_for(c: &Nip46DelegateConfig) -> (r: Nip46Call)
        ensures
            call_matches(stage_for(*c), *c, r),
    {
        if !c.connected {
            let mut params: Vec<String> = Vec::new();
            params.push(owned(c.signer_pubkey.as_str()));
            match &c.shared_secret {
                Some(secret) => {
                    params.push(owned(secret.as_str()));
                },
                None => {},
            }
            if c.requested_permissions.len() > 0 {
                params.push(join_commas(&c.requested_permissions));
            }
            assert(strs(params@) =~= connect_params(*c));
            Nip46Call::Connect { params }
        } else if c.signer_user_pubkey.is_none() {
            Nip46Call::GetPublicKey
        } else {
            Nip46Call::SignEvent
        }
    }

    /// Starts signing an event with a delegated signer: refused where the
    /// signer's grants do not allow events of its kind; otherwise the first
    /// call to make.
    pub fn start(config: Nip46DelegateConfig, unsigned: NostrUnsignedEvent) -> (r: (Nip46SignFlow, Nip46Step))
        ensures
            r.0.config_view() == config,
            r.0.unsigned_view() == unsigned,
            r.0.stage_view() == stage_for(config),
            match nip46_refusal(grant_views(config.permission_grants@), sign_permission(unsigned.kind)) {
                Some(m) => fails_with(r.1, m),
                None => r.1 matches Nip46Step::Call(c) && call_matches(stage_for(config), config, c),
            },
    {
        let permission = join2("sign_event:", decimal(unsigned.kind as u64).as_str());
        let checked = ensure_nip46_permission_allowed(&config.permission_grants, permission.as_str());
        let call = Nip46SignFlow::call_for(&config);
        let stage = if !config.connected {
            Nip46Stage::Connecting
        } else if config.signer_user_pubkey.is_none() {
            Nip46Stage::FetchingPublicKey
        } else {
            Nip46Stage::Signing
        };
        let flow = Nip46SignFlow { config, unsigned, stage };
        match checked {
            Err(error) => (flow, Nip46Step::Failed(error)),
            Ok(()) => (flow, Nip46Step::Call(call)),
        }
    }

    /// The configuration the signing goes by.
    pub fn config(&self) -> (r: &Nip46DelegateConfig)
        ensures
            *r == self.config_view(),
    {
        &self.config
    }

    /// The event being signed.
    pub fn unsigned(&self) -> (r: &NostrUnsignedEvent)
        ensures
            *r == self.unsigned_view(),
    {
        &self.unsigned
    }

    /// The configuration as the signing has left it: connected, and knowing
    /// the user's key where it learnt it.
    pub fn into_config(self) -> (r: Nip46DelegateConfig)
        ensures
            r == self.config_view(),
    {
        self.config
    }

    /// Takes the answer to the last call: an error ends the signing; so does
    /// an answer that does not fit; otherwise the next call, or the event.
    pub fn advance(self, reply: Result<Nip46Reply, NostrCoreError>) -> (r: (Nip46SignFlow, Nip46Step))
        ensures
            r.0.unsigned_view() == self.unsigned_view(),
            match reply {
                Err(e) => r.1 matches Nip46Step::Failed(f) && f == e && r.0.config_view() == self.config_view(),
                Ok(answer) => match self.stage_view() {
                    Nip46Stage::Connecting => {
                        &&& r.0.config_view() == (Nip46DelegateConfig { connected: true, ..self.config_view() })
                        &&& r.0.stage_view() == stage_for(r.0.config_view())
                        &&& r.1 matches Nip46Step::Call(c) && call_matches(r.0.stage_view(), r.0.config_view(), c)
                    },
                    Nip46Stage::FetchingPublicKey => match answer {
                        Nip46Reply::Text(t) => match public_key_hex(t@) {
                            Ok(k) => {
                                &&& r.0.config_view().signer_user_pubkey matches Some(p) && p@ == k
                                &&& r.0.config_view() == (Nip46DelegateConfig {
                                    signer_user_pubkey: r.0.config_view().signer_user_pubkey,
                                    ..self.config_view()
                                })
                                &&& r.0.stage_view() == Nip46Stage::Signing
                                &&& r.1 matches Nip46Step::Call(c) && c is SignEvent
                            },
                            Err(m) => fails_with(r.1, m) && r.0.config_view() == self.config_view(),
                        },
                        _ => fails_with(r.1, "nip46 get_public_key returned non-string result"@)
                            && r.0.config_view() == self.config_view(),
                    },
                    Nip46Stage::Signing => {
                        &&& r.0.config_view() == self.config_view()
                        &&& self.config_view().signer_user_pubkey matches Some(p)
                            && signed_reply_step(answer, p@, self.unsigned_view(), r.1)
                    },
                },
            },
    {
        proof {
            use_type_invariant(&self);
        }
        let Nip46SignFlow { mut config, unsigned, stage } = self;
        let answer = match reply {
            Err(error) => {
                return (Nip46SignFlow { config, unsigned, stage }, Nip46Step::Failed(error));
            },
            Ok(answer) => answer,
        };
        match stage {
            Nip46Stage::Connecting => {
                config.connected = true;
                let call = Nip46SignFlow::call_for(&config);
                let next = if config.signer_user_pubkey.is_none() { Nip46Stage::FetchingPublicKey } else { Nip46Stage::Signing };
                (Nip46SignFlow { config, unsigned, stage: next }, Nip46Step::Call(call))
            },
            Nip46Stage::FetchingPublicKey => match answer {
                Nip46Reply::Text(text) => match parse_nostr_public_key(text.as_str()) {
                    Ok(key) => {
                        config.signer_user_pubkey = Some(key);
                        (Nip46SignFlow { config, unsigned, stage: Nip46Stage::Signing }, Nip46Step::Call(Nip46Call::SignEvent))
                    },
                    Err(error) => (Nip46SignFlow { config, unsigned, stage }, Nip46Step::Failed(error)),
                },
                _ => {
                    let error = NostrCoreError::ValidationFailed(owned("nip46 get_public_key returned non-string result"));
                    (Nip46SignFlow { config, unsigned, stage }, Nip46Step::Failed(error))
                },
            },
            Nip46Stage::Signing => {
                let step = match &config.signer_user_pubkey {
                    Some(user_pubkey) => Nip46SignFlow::check_signed(answer, user_pubkey.as_str(), &unsigned),
                    None => Nip46Step::Failed(NostrCoreError::BackendUnavailable(owned("nip46 signer user pubkey missing"))),
                };
                (Nip46SignFlow { config, unsigned, stage }, step)
            },
        }
    }

    fn check_signed(answer: Nip46Reply, user_pubkey: &str, unsigned: &NostrUnsignedEvent) -> (r: Nip46Step)
        ensures
            signed_reply_step(answer, user_pubkey@, *unsigned, r),
    {
        match answer {
            Nip46Reply::Event(event) => {
                if !str_eq(event.pubkey.as_str(), user_pubkey) {
                    Nip46Step::Failed(NostrCoreError::ValidationFailed(owned("nip46 signer returned mismatched user pubkey")))
                } else if !verify_signed_event_signature(&event, user_pubkey) {
                    Nip46Step::Failed(NostrCoreError::ValidationFailed(owned("nip46 signer returned invalid event signature")))
                } else if event.created_at != unsigned.created_at || event.kind != unsigned.kind
                    || !str_eq(event.content.as_str(), unsigned.content.as_str()) || !tags_equal(&event.tags, &unsigned.tags)
                {
                    Nip46Step::Failed(NostrCoreError::ValidationFailed(owned("nip46 signer mutated unsigned event payload")))
                } else {
                    Nip46Step::Signed(event)
                }
            },
            _ => Nip46Step::Failed(NostrCoreError::ValidationFailed(owned("nip46 sign_event result missing event fields"))),
        }
    }
}

/// A delegated signing hands back only an event that verifies under the
/// user's key and carries the event that was asked to be signed.
pub proof fn law_delegated_signing_returns_checked_events(
    reply: Nip46Reply,
    user_pubkey: Seq<char>,
    unsigned: NostrUnsignedEvent,
    step: Nip46Step,
)
    requires
        signed_reply_step(reply, user_pubkey, unsigned, step),
    ensures
        step matches Nip46Step::Signed(e) ==> signed_event_valid(e, user_pubkey) && same_payload(e, unsigned),
{
}

} // verus!
