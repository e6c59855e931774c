//! The store of trusted peers: the devices this one syncs with, and which
//! workspaces each of them may reach.

use vstd::prelude::*;
use crate::text::str_eq;

verus! {

/// What a peer may do in a shared workspace.
#[derive(Debug, Clone, Copy, PartialEq, Eq, Structural)]
pub enum AccessLevel {
    ReadOnly,
    ReadWrite,
}

/// A workspace shared with a peer.
#[derive(Debug, Clone)]
pub struct WorkspaceGrant {
    pub workspace_id: String,
    pub access: AccessLevel,
}

/// A peer this device trusts, by its node id.
#[derive(Debug, Clone)]
pub struct TrustedPeer {
    pub node_id: String,
    pub display_name: String,
    pub workspace_grants: Vec<WorkspaceGrant>,
}

pub type GrantView = (Seq<char>, AccessLevel);

/// A peer as the contracts see it: node id, display name, grants.
pub type PeerView = (Seq<char>, Seq<char>, Seq<GrantView>);

pub open spec fn grant_view(g: WorkspaceGrant) -> GrantView {
    (g.workspace_id@, g.access)
}

pub open spec fn grants_view(gs: Seq<WorkspaceGrant>) -> Seq<GrantView> {
    gs.map_values(|g: WorkspaceGrant| grant_view(g))
}

pub open spec fn peer_view(p: TrustedPeer) -> PeerView {
    (p.node_id@, p.display_name@, grants_view(p.workspace_grants@))
}

pub open spec fn peers_view(ps: Seq<TrustedPeer>) -> Seq<PeerView> {
    ps.map_values(|p: TrustedPeer| peer_view(p))
}

/// The peers of `s` other than `node_id`, in their order.
pub open spec fn without_peer(s: Seq<PeerView>, node_id: Seq<char>) -> Seq<PeerView>
    decreases s.len(),
{
    if s.len() == 0 {
        s
    } else {
        let rest = without_peer(s.drop_last(), node_id);
        if s.last().0 == node_id {
            rest
        } else {
            rest.push(s.last())
        }
    }
}

/// The grants of `g` for workspaces other than `workspace_id`, in their order.
pub open spec fn without_grant(g: Seq<GrantView>, workspace_id: Seq<char>) -> Seq<GrantView>
    decreases g.len(),
{
    if g.len() == 0 {
        g
    } else {
        let rest = without_grant(g.drop_last(), workspace_id);
        if g.last().0 == workspace_id {
            rest
        } else {
            rest.push(g.last())
        }
    }
}

/// The store that trusting the peers of `s` one after another leaves.
pub open spec fn trusted_all(s: Seq<PeerView>) -> Seq<PeerView>
    decreases s.len(),
{
    if s.len() == 0 {
        s
    } else {
        without_peer(trusted_all(s.drop_last()), s.last().0).push(s.last())
    }
}

/// Each peer appears once.
pub open spec fn unique_peers(s: Seq<PeerView>) -> bool {
    forall|i: int, j: int| 0 <= i < j < s.len() ==> #[trigger] s[i].0 != #[trigger] s[j].0
}

/// The peers of `s`, where `node_id` now holds `workspace_id` at `access`,
/// in place of any grant it held for that workspace.
pub open spec fn granted(s: Seq<PeerView>, node_id: Seq<char>, workspace_id: Seq<char>, access: AccessLevel) -> Seq<PeerView> {
    Seq::new(s.len(), |i: int| if s[i].0 == node_id {
        (s[i].0, s[i].1, without_grant(s[i].2, workspace_id).push((workspace_id, access)))
    } else {
        s[i]
    })
}

/// The peers of `s`, where `node_id` no longer holds `workspace_id`.
pub open spec fn ungranted(s: Seq<PeerView>, node_id: Seq<char>, workspace_id: Seq<char>) -> Seq<PeerView> {
    Seq::new(s.len(), |i: int| if s[i].0 == node_id {
        (s[i].0, s[i].1, without_grant(s[i].2, workspace_id))
    } else {
        s[i]
    })
}

proof fn lemma_without_peer_members(s: Seq<PeerView>, node_id: Seq<char>)
    ensures
        without_peer(s, node_id).len() <= s.len(),
        forall|k: int| 0 <= k < without_peer(s, node_id).len() ==> (#[trigger] without_peer(s, node_id)[k]).0 != node_id
            && exists|j: int| 0 <= j < s.len() && s[j] == without_peer(s, node_id)[k],
    decreases s.len(),
{
    if s.len() > 0 {
        lemma_without_peer_members(s.drop_last(), node_id);
        let rest = without_peer(s.drop_last(), node_id);
        assert forall|k: int| 0 <= k < without_peer(s, node_id).len() implies (#[trigger] without_peer(s, node_id)[k]).0 != node_id
            && exists|j: int| 0 <= j < s.len() && s[j] == without_peer(s, node_id)[k] by {
            if k < rest.len() {
                let j = choose|j: int| 0 <= j < s.drop_last().len() && s.drop_last()[j] == rest[k];
                assert(s[j] == without_peer(s, node_id)[k]);
            } else {
                assert(s[s.len() - 1] == without_peer(s, node_id)[k]);
            }
        }
    }
}

proof fn lemma_without_peer_unique(s: Seq<PeerView>, node_id: Seq<char>)
    requires
        unique_peers(s),
    ensures
        unique_peers(without_peer(s, node_id)),
    decreases s.len(),
{
    if s.len() > 0 {
        let d = s.drop_last();
        assert(unique_peers(d));
        lemma_without_peer_unique(d, node_id);
        lemma_without_peer_members(d, node_id);
        let rest = without_peer(d, node_id);
        let r = without_peer(s, node_id);
        if s.last().0 != node_id {
            assert forall|i: int, j: int| 0 <= i < j < r.len() implies #[trigger] r[i].0 != #[trigger] r[j].0 by {
                if j == rest.len() {
                    let jj = choose|jj: int| 0 <= jj < d.len() && d[jj] == rest[i];
                    assert(s[jj].0 != s[s.len() - 1].0);
                } else {
                    assert(rest[i].0 != rest[j].0);
                }
            }
        }
    }
}

/// Leaving out a peer twice leaves out no more than once.
pub proof fn lemma_without_peer_idempotent(s: Seq<PeerView>, node_id: Seq<char>)
    ensures
        without_peer(without_peer(s, node_id), node_id) == without_peer(s, node_id),
    decreases s.len(),
{
    if s.len() > 0 {
        lemma_without_peer_idempotent(s.drop_last(), node_id);
        let rest = without_peer(s.drop_last(), node_id);
        if s.last().0 != node_id {
            assert(rest.push(s.last()).drop_last() =~= rest);
        }
    }
}

/// Leaving out a workspace twice leaves out no more than once.
pub proof fn lemma_without_grant_idempotent(g: Seq<GrantView>, workspace_id: Seq<char>)
    ensures
        without_grant(without_grant(g, workspace_id), workspace_id) == without_grant(g, workspace_id),
    decreases g.len(),
{
    if g.len() > 0 {
        lemma_without_grant_idempotent(g.drop_last(), workspace_id);
        let rest = without_grant(g.drop_last(), workspace_id);
        if g.last().0 != workspace_id {
            assert(rest.push(g.last()).drop_last() =~= rest);
        }
    }
}

fn copy_grants(gs: &Vec<WorkspaceGrant>) -> (r: Vec<WorkspaceGrant>)
    ensures
        grants_view(r@) == grants_view(gs@),
{
    let mut out: Vec<WorkspaceGrant> = Vec::new();
    let mut i: usize = 0;
    while i < gs.len()
        invariant
            i <= gs@.len(),
            grants_view(out@) == grants_view(gs@.subrange(0, i as int)),
        decreases gs@.len() - i,
    {
        let g = &gs[i];
        out.push(WorkspaceGrant { workspace_id: g.workspace_id.clone(), access: g.access });
        assert(grants_view(gs@.subrange(0, i + 1)) =~= grants_view(gs@.subrange(0, i as int)).push(grant_view(gs@[i as int])));
        i = i + 1;
    }
    assert(gs@.subrange(0, gs@.len() as int) =~= gs@);
    out
}

/// A copy of a peer record.
pub fn copy_peer(p: &TrustedPeer) -> (r: TrustedPeer)
    ensures
        peer_view(r) == peer_view(*p),
{
    TrustedPeer {
        node_id: p.node_id.clone(),
        display_name: p.display_name.clone(),
        workspace_grants: copy_grants(&p.workspace_grants),
    }
}

/// The grants of `gs` for workspaces other than `workspace_id`.
fn grants_without(gs: &Vec<WorkspaceGrant>, workspace_id: &str) -> (r: Vec<WorkspaceGrant>)
    ensures
        grants_view(r@) == without_grant(grants_view(gs@), workspace_id@),
{
    let ghost g = grants_view(gs@);
    let mut out: Vec<WorkspaceGrant> = Vec::new();
    let mut i: usize = 0;
    while i < gs.len()
        invariant
            i <= gs@.len(),
            g == grants_view(gs@),
            grants_view(out@) == without_grant(g.subrange(0, i as int), workspace_id@),
        decreases gs@.len() - i,
    {
        let item = &gs[i];
        assert(g.subrange(0, i + 1).drop_last() =~= g.subrange(0, i as int));
        if !str_eq(item.workspace_id.as_str(), workspace_id) {
            let ghost before = out@;
            out.push(WorkspaceGrant { workspace_id: item.workspace_id.clone(), access: item.access });
            assert(grants_view(out@) =~= grants_view(before).push(grant_view(gs@[i as int])));
        }
        i = i + 1;
    }
    assert(g.subrange(0, gs@.len() as int) =~= g);
    out
}

/// The trusted peers, each once, in the order they were trusted.
pub struct TrustStore {
    peers: Vec<TrustedPeer>,
}

impl TrustStore {
    #[verifier::type_invariant]
    spec fn inv(self) -> bool {
        unique_peers(peers_view(self.peers@))
    }

    pub closed spec fn peers(&self) -> Seq<PeerView> {
        peers_view(self.peers@)
    }

    /// An empty store.
    pub fn new() -> (r: Self)
        ensures
            r.peers() == Seq::<PeerView>::empty(),
    {
        let r = TrustStore { peers: Vec::new() };
        assert(r.peers() =~= Seq::<PeerView>::empty());
        r
    }

    /// A store of the peers given; a later record of a node id replaces an
    /// earlier one.
    pub fn from_peers(peers: Vec<TrustedPeer>) -> (r: Self)
        ensures
            r.peers() == trusted_all(peers_view(peers@)),
    {
        let ghost pv = peers_view(peers@);
        let mut store = TrustStore::new();
        let mut i: usize = 0;
        while i < peers.len()
            invariant
                i <= peers@.len(),
                pv == peers_view(peers@),
                store.peers() == trusted_all(pv.subrange(0, i as int)),
            decreases peers@.len() - i,
        {
            assert(pv.subrange(0, i + 1).drop_last() =~= pv.subrange(0, i as int));
            store.trust_peer(copy_peer(&peers[i]));
            i = i + 1;
        }
        assert(pv.subrange(0, peers@.len() as int) =~= pv);
        store
    }

    /// Each peer appears once.
    pub fn reveal_unique(&self)
        ensures
            unique_peers(self.peers()),
    {
        proof {
            use_type_invariant(self);
        }
    }

    /// Copies of the trusted peers, in order.
    pub fn trusted_peers(&self) -> (r: Vec<TrustedPeer>)
        ensures
            peers_view(r@) == self.peers(),
    {
        let mut out: Vec<TrustedPeer> = Vec::new();
        let mut i: usize = 0;
        while i < self.peers.len()
            invariant
                i <= self.peers@.len(),
                peers_view(out@) == peers_view(self.peers@.subrange(0, i as int)),
            decreases self.peers@.len() - i,
        {
            out.push(copy_peer(&self.peers[i]));
            assert(peers_view(self.peers@.subrange(0, i + 1)) =~= peers_view(self.peers@.subrange(0, i as int)).push(
                peer_view(self.peers@[i as int]),
            ));
            i = i + 1;
        }
        assert(self.peers@.subrange(0, self.peers@.len() as int) =~= self.peers@);
        out
    }

    fn peers_without(&self, node_id: &str) -> (r: Vec<TrustedPeer>)
        ensures
            peers_view(r@) == without_peer(self.peers(), node_id@),
    {
        let ghost s = self.peers();
        let mut out: Vec<TrustedPeer> = Vec::new();
        let mut i: usize = 0;
        while i < self.peers.len()
            invariant
                i <= self.peers@.len(),
                s == peers_view(self.peers@),
                peers_view(out@) == without_peer(s.subrange(0, i as int), node_id@),
            decreases self.peers@.len() - i,
        {
            let p = &self.peers[i];
            assert(s.subrange(0, i + 1).drop_last() =~= s.subrange(0, i as int));
            if !str_eq(p.node_id.as_str(), node_id) {
                let ghost before = out@;
                out.push(copy_peer(p));
                assert(peers_view(out@) =~= peers_view(before).push(peer_view(self.peers@[i as int])));
            }
            i = i + 1;
        }
        assert(s.subrange(0, self.peers@.len() as int) =~= s);
        out
    }

    /// Trusts a peer, in place of any earlier record of its node id.
    pub fn trust_peer(&mut self, peer: TrustedPeer)
        ensures
            final(self).peers() == without_peer(old(self).peers(), peer.node_id@).push(peer_view(peer)),
    {
        proof {
            use_type_invariant(&*self);
            lemma_without_peer_unique(self.peers(), peer.node_id@);
            lemma_without_peer_members(self.peers(), peer.node_id@);
        }
        let mut kept = self.peers_without(peer.node_id.as_str());
        let ghost before = kept@;
        kept.push(peer);
        assert(peers_view(kept@) =~= peers_view(before).push(peer_view(peer)));
        assert(unique_peers(peers_view(kept@)));
        self.peers = kept;
    }

    /// Stops trusting a node id.
    pub fn revoke_peer(&mut self, node_id: &str)
        ensures
            final(self).peers() == without_peer(old(self).peers(), node_id@),
    {
        proof {
            use_type_invariant(&*self);
            lemma_without_peer_unique(self.peers(), node_id@);
        }
        self.peers = self.peers_without(node_id);
    }

    fn regrant(&self, node_id: &str, workspace_id: &str, access: Option<AccessLevel>) -> (r: Vec<TrustedPeer>)
        ensures
            peers_view(r@) == match access {
                Some(a) => granted(self.peers(), node_id@, workspace_id@, a),
                None => ungranted(self.peers(), node_id@, workspace_id@),
            },
    {
        let ghost s = self.peers();
        let ghost target = match access {
            Some(a) => granted(s, node_id@, workspace_id@, a),
            None => ungranted(s, node_id@, workspace_id@),
        };
        let mut out: Vec<TrustedPeer> = Vec::new();
        let mut i: usize = 0;
        while i < self.peers.len()
            invariant
                i <= self.peers@.len(),
                s == peers_view(self.peers@),
                target.len() == s.len(),
                target == match access {
                    Some(a) => granted(s, node_id@, workspace_id@, a),
                    None => ungranted(s, node_id@, workspace_id@),
                },
                peers_view(out@) == target.subrange(0, i as int),
            decreases self.peers@.len() - i,
        {
            let p = &self.peers[i];
            let ghost before = out@;
            if str_eq(p.node_id.as_str(), node_id) {
                let mut grants = grants_without(&p.workspace_grants, workspace_id);
                match access {
                    Some(a) => {
                        let ghost g0 = grants@;
                        grants.push(WorkspaceGrant { workspace_id: crate::text::owned(workspace_id), access: a });
                        assert(grants_view(grants@) =~= grants_view(g0).push((workspace_id@, a)));
                    },
                    None => {},
                }
                out.push(TrustedPeer { node_id: p.node_id.clone(), display_name: p.display_name.clone(), workspace_grants: grants });
            } else {
                out.push(copy_peer(p));
            }
            assert(peers_view(out@) =~= peers_view(before).push(target[i as int]));
            assert(target.subrange(0, i + 1) =~= target.subrange(0, i as int).push(target[i as int]));
            i = i + 1;
        }
        assert(target.subrange(0, target.len() as int) =~= target);
        out
    }

    /// Shares a workspace with a trusted peer at the given access, in place of
    /// any earlier grant of that workspace; nothing where the peer is unknown.
    pub fn grant_workspace_access(&mut self, node_id: &str, workspace_id: &str, access: AccessLevel)
        ensures
            final(self).peers() == granted(old(self).peers(), node_id@, workspace_id@, access),
    {
        proof {
            use_type_invariant(&*self);
        }
        let next = self.regrant(node_id, workspace_id, Some(access));
        assert(unique_peers(peers_view(next@))) by {
            assert forall|i: int, j: int| 0 <= i < j < peers_view(next@).len() implies
                #[trigger] peers_view(next@)[i].0 != #[trigger] peers_view(next@)[j].0 by {
                assert(peers_view(next@)[i].0 == self.peers()[i].0);
                assert(peers_view(next@)[j].0 == self.peers()[j].0);
            }
        }
        self.peers = next;
    }

    /// Withdraws a workspace from a trusted peer.
    pub fn revoke_workspace_access(&mut self, node_id: &str, workspace_id: &str)
        ensures
            final(self).peers() == ungranted(old(self).peers(), node_id@, workspace_id@),
    {
        proof {
            use_type_invariant(&*self);
        }
        let next = self.regrant(node_id, workspace_id, None);
        assert(unique_peers(peers_view(next@))) by {
            assert forall|i: int, j: int| 0 <= i < j < peers_view(next@).len() implies
                #[trigger] peers_view(next@)[i].0 != #[trigger] peers_view(next@)[j].0 by {
                assert(peers_view(next@)[i].0 == self.peers()[i].0);
                assert(peers_view(next@)[j].0 == self.peers()[j].0);
            }
        }
        self.peers = next;
    }

    /// The node ids of the trusted peers, in order.
    pub fn peer_ids(&self) -> (r: Vec<String>)
        ensures
            r@.len() == self.peers().len(),
            forall|i: int| 0 <= i < r@.len() ==> (#[trigger] r@[i])@ == self.peers()[i].0,
    {
        let mut out: Vec<String> = Vec::new();
        let mut i: usize = 0;
        while i < self.peers.len()
            invariant
                i <= self.peers@.len(),
                out@.len() == i,
                forall|k: int| 0 <= k < i ==> (#[trigger] out@[k])@ == self.peers()[k].0,
            decreases self.peers@.len() - i,
        {
            out.push(self.peers[i].node_id.clone());
            i = i + 1;
        }
        out
    }
}

/// Trusting a peer and then revoking it leaves the store as revoking it alone
/// would.
pub proof fn law_trust_then_revoke(s: Seq<PeerView>, peer: PeerView)
    ensures
        without_peer(without_peer(s, peer.0).push(peer), peer.0) == without_peer(s, peer.0),
{
    lemma_without_peer_idempotent(s, peer.0);
    let pushed = without_peer(s, peer.0).push(peer);
    assert(pushed.drop_last() =~= without_peer(s, peer.0));
}

/// After a peer is trusted it appears exactly once, as its newest record.
pub proof fn law_trust_peer_once(s: Seq<PeerView>, peer: PeerView)
    requires
        unique_peers(s),
    ensures
        unique_peers(without_peer(s, peer.0).push(peer)),
        without_peer(s, peer.0).push(peer).last() == peer,
{
    lemma_without_peer_unique(s, peer.0);
    lemma_without_peer_members(s, peer.0);
}

/// Granting a workspace and then withdrawing it leaves the store as
/// withdrawing it alone would.
pub proof fn law_grant_then_revoke_workspace(s: Seq<PeerView>, node_id: Seq<char>, workspace_id: Seq<char>, access: AccessLevel)
    ensures
        ungranted(granted(s, node_id, workspace_id, access), node_id, workspace_id) == ungranted(s, node_id, workspace_id),
{
    let g = granted(s, node_id, workspace_id, access);
    assert forall|i: int| 0 <= i < s.len() implies #[trigger] ungranted(g, node_id, workspace_id)[i] == ungranted(s, node_id, workspace_id)[i] by {
        if s[i].0 == node_id {
            let kept = without_grant(s[i].2, workspace_id);
            lemma_without_grant_idempotent(s[i].2, workspace_id);
            assert(kept.push((workspace_id, access)).drop_last() =~= kept);
        }
    }
    assert(ungranted(g, node_id, workspace_id) =~= ungranted(s, node_id, workspace_id));
}

} // verus!
