//! Which renderer is attached to which pane: a one-to-one pairing kept from
//! both sides.

use vstd::prelude::*;
use crate::model::{NodeKey, PaneId, RendererId};

verus! {

#[verifier::external_type_specification]
#[verifier::external_body]
pub struct ExInstant(std::time::Instant);

/// The current instant.
///
/// Calls `std::time::Instant::now`; nothing is stated of the time it reads.
#[verifier::external_body]
fn instant_now() -> (r: std::time::Instant) {
    std::time::Instant::now()
}

#[derive(Debug, Clone, Copy)]
pub struct PaneAttachment {
    pub pane_id: PaneId,
    pub renderer_id: RendererId,
    pub attached_at: std::time::Instant,
    pub node_key: Option<NodeKey>,
}

#[derive(Debug, Clone, Copy, PartialEq, Eq)]
pub enum RendererRegistryError {
    PaneAlreadyAttached { pane_id: PaneId, existing_renderer_id: RendererId },
    RendererAlreadyAttached { renderer_id: RendererId, existing_pane_id: PaneId },
}

pub struct RendererRegistry {
    attachments: Vec<PaneAttachment>,
}

/// No pane and no renderer occurs twice.
pub open spec fn pairing_unique(s: Seq<PaneAttachment>) -> bool {
    forall|i: int, j: int| 0 <= i < s.len() && 0 <= j < s.len() && i != j
        ==> s[i].pane_id != s[j].pane_id && s[i].renderer_id != s[j].renderer_id
}

pub open spec fn seq_has_pane(s: Seq<PaneAttachment>, p: PaneId) -> bool {
    exists|i: int| 0 <= i < s.len() && s[i].pane_id == p
}

pub open spec fn seq_has_renderer(s: Seq<PaneAttachment>, r: RendererId) -> bool {
    exists|i: int| 0 <= i < s.len() && s[i].renderer_id == r
}

/// The attachment of a pane, where it has one.
pub open spec fn seq_pane_attachment(s: Seq<PaneAttachment>, p: PaneId) -> Option<PaneAttachment> {
    if seq_has_pane(s, p) {
        Some(s[choose|i: int| 0 <= i < s.len() && s[i].pane_id == p])
    } else {
        None
    }
}

/// The pane a renderer is attached to, where it is.
pub open spec fn seq_renderer_pane(s: Seq<PaneAttachment>, r: RendererId) -> Option<PaneId> {
    if seq_has_renderer(s, r) {
        Some(s[choose|i: int| 0 <= i < s.len() && s[i].renderer_id == r].pane_id)
    } else {
        None
    }
}

pub proof fn lemma_at_index(s: Seq<PaneAttachment>, i: int)
    requires
        pairing_unique(s),
        0 <= i < s.len(),
    ensures
        seq_pane_attachment(s, s[i].pane_id) == Some(s[i]),
        seq_renderer_pane(s, s[i].renderer_id) == Some(s[i].pane_id),
{
    assert(seq_has_pane(s, s[i].pane_id));
    assert(seq_has_renderer(s, s[i].renderer_id));
}

impl RendererRegistry {
    #[verifier::type_invariant]
    spec fn inv(self) -> bool {
        pairing_unique(self.attachments@)
    }

    /// The attachment of each attached pane.
    pub closed spec fn attachment_of(&self, p: PaneId) -> Option<PaneAttachment> {
        seq_pane_attachment(self.attachments@, p)
    }

    /// The pane each attached renderer is attached to.
    pub closed spec fn pane_of(&self, r: RendererId) -> Option<PaneId> {
        seq_renderer_pane(self.attachments@, r)
    }

    /// The attachments, oldest first.
    pub closed spec fn entries(&self) -> Seq<PaneAttachment> {
        self.attachments@
    }

    /// Whether nothing is attached.
    pub closed spec fn empty_spec(&self) -> bool {
        self.attachments@.len() == 0
    }

    pub fn new() -> (r: Self)
        ensures
            r.empty_spec(),
            forall|p: PaneId| r.attachment_of(p) is None,
            forall|x: RendererId| r.pane_of(x) is None,
    {
        RendererRegistry { attachments: Vec::new() }
    }

    /// The two sides agree: a renderer is attached to a pane exactly when
    /// that pane's attachment names the renderer.
    pub fn reveal_pairing(&self, p: PaneId, x: RendererId)
        ensures
            self.pane_of(x) == Some(p) <==> (self.attachment_of(p) matches Some(a) && a.renderer_id == x),
            self.attachment_of(p) matches Some(a) ==> a.pane_id == p,
            self.empty_spec() ==> self.attachment_of(p) is None && self.pane_of(x) is None,
    {
        proof {
            use_type_invariant(self);
            let s = self.attachments@;
            if seq_has_renderer(s, x) {
                let i = choose|i: int| 0 <= i < s.len() && s[i].renderer_id == x;
                lemma_at_index(s, i);
            }
            if seq_has_pane(s, p) {
                let i = choose|i: int| 0 <= i < s.len() && s[i].pane_id == p;
                lemma_at_index(s, i);
            }
        }
    }

    fn index_of_pane(&self, pane_id: PaneId) -> (r: Option<usize>)
        ensures
            r matches Some(i) ==> i < self.attachments@.len() && self.attachments@[i as int].pane_id == pane_id,
            r is None <==> !seq_has_pane(self.attachments@, pane_id),
    {
        let mut i: usize = 0;
        while i < self.attachments.len()
            invariant
                i <= self.attachments@.len(),
                forall|k: int| 0 <= k < i ==> self.attachments@[k].pane_id != pane_id,
            decreases self.attachments@.len() - i,
        {
            if self.attachments[i].pane_id.0 == pane_id.0 {
                return Some(i);
            }
            i = i + 1;
        }
        None
    }

    fn index_of_renderer(&self, renderer_id: RendererId) -> (r: Option<usize>)
        ensures
            r matches Some(i) ==> i < self.attachments@.len() && self.attachments@[i as int].renderer_id == renderer_id,
            r is None <==> !seq_has_renderer(self.attachments@, renderer_id),
    {
        let mut i: usize = 0;
        while i < self.attachments.len()
            invariant
                i <= self.attachments@.len(),
                forall|k: int| 0 <= k < i ==> self.attachments@[k].renderer_id != renderer_id,
            decreases self.attachments@.len() - i,
        {
            if self.attachments[i].renderer_id.0 == renderer_id.0 {
                return Some(i);
            }
            i = i + 1;
        }
        None
    }

    /// Attaches a renderer to a pane; refuses a pane that has a renderer, or a
    /// renderer that has a pane, and then changes nothing.
    pub fn accept(&mut self, pane_id: PaneId, renderer_id: RendererId, node_key: Option<NodeKey>) -> (r: Result<(), RendererRegistryError>)
        ensures
            old(self).attachment_of(pane_id) matches Some(a) ==> r == Err::<(), RendererRegistryError>(
                RendererRegistryError::PaneAlreadyAttached { pane_id, existing_renderer_id: a.renderer_id },
            ),
            old(self).attachment_of(pane_id) is None ==> (old(self).pane_of(renderer_id) matches Some(p) ==> r
                == Err::<(), RendererRegistryError>(
                RendererRegistryError::RendererAlreadyAttached { renderer_id, existing_pane_id: p },
            )),
            r is Err ==> final(self).entries() == old(self).entries(),
            (old(self).attachment_of(pane_id) is None && old(self).pane_of(renderer_id) is None) ==> r is Ok
                && attached(*old(self), *final(self), pane_id, renderer_id, node_key),
            !final(self).empty_spec() || old(self).empty_spec(),
    {
        proof {
            use_type_invariant(&*self);
        }
        if let Some(i) = self.index_of_pane(pane_id) {
            proof {
                lemma_at_index(self.attachments@, i as int);
            }
            return Err(RendererRegistryError::PaneAlreadyAttached {
                pane_id,
                existing_renderer_id: self.attachments[i].renderer_id,
            });
        }
        if let Some(i) = self.index_of_renderer(renderer_id) {
            proof {
                lemma_at_index(self.attachments@, i as int);
            }
            return Err(RendererRegistryError::RendererAlreadyAttached {
                renderer_id,
                existing_pane_id: self.attachments[i].pane_id,
            });
        }
        let attachment = PaneAttachment { pane_id, renderer_id, attached_at: instant_now(), node_key };
        let ghost s = self.attachments@;
        let mut attachments: Vec<PaneAttachment> = Vec::new();
        std::mem::swap(&mut attachments, &mut self.attachments);
        attachments.push(attachment);
        let ghost t = attachments@;
        proof {
            assert(t == s.push(attachment));
            assert(pairing_unique(t));
            lemma_at_index(t, s.len() as int);
            assert forall|p: PaneId| p != pane_id implies seq_pane_attachment(t, p) == seq_pane_attachment(s, p) by {
                if seq_has_pane(s, p) {
                    let i = choose|i: int| 0 <= i < s.len() && s[i].pane_id == p;
                    lemma_at_index(s, i);
                    assert(t[i] == s[i]);
                    lemma_at_index(t, i);
                } else {
                    assert(!seq_has_pane(t, p));
                }
            }
            assert forall|x: RendererId| x != renderer_id implies seq_renderer_pane(t, x) == seq_renderer_pane(s, x) by {
                if seq_has_renderer(s, x) {
                    let i = choose|i: int| 0 <= i < s.len() && s[i].renderer_id == x;
                    lemma_at_index(s, i);
                    assert(t[i] == s[i]);
                    lemma_at_index(t, i);
                } else {
                    assert(!seq_has_renderer(t, x));
                }
            }
        }
        self.attachments = attachments;
        Ok(())
    }

    /// Detaches a renderer; gives the attachment it had.
    pub fn detach(&mut self, renderer_id: RendererId) -> (r: Option<PaneAttachment>)
        ensures
            old(self).pane_of(renderer_id) is None ==> r is None && final(self).entries() == old(self).entries(),
            old(self).pane_of(renderer_id) matches Some(p) ==> r == old(self).attachment_of(p)
                && detached(*old(self), *final(self), p, renderer_id),
            final(self).entries().len() <= old(self).entries().len(),
            final(self).empty_spec() <== old(self).empty_spec(),
    {
        proof {
            use_type_invariant(&*self);
        }
        let i = match self.index_of_renderer(renderer_id) {
            Some(i) => i,
            None => return None,
        };
        let ghost s = self.attachments@;
        proof {
            lemma_at_index(s, i as int);
        }
        let mut attachments: Vec<PaneAttachment> = Vec::new();
        std::mem::swap(&mut attachments, &mut self.attachments);
        let removed = attachments.remove(i);
        let ghost t = attachments@;
        proof {
            assert(t == s.remove(i as int));
            assert forall|a: int, b: int| 0 <= a < t.len() && 0 <= b < t.len() && a != b
                implies t[a].pane_id != t[b].pane_id && t[a].renderer_id != t[b].renderer_id by {
                let a2 = if a < i { a } else { a + 1 };
                let b2 = if b < i { b } else { b + 1 };
                assert(t[a] == s[a2] && t[b] == s[b2]);
            }
            assert(!seq_has_pane(t, removed.pane_id)) by {
                if seq_has_pane(t, removed.pane_id) {
                    let k = choose|k: int| 0 <= k < t.len() && t[k].pane_id == removed.pane_id;
                    let k2 = if k < i { k } else { k + 1 };
                    assert(t[k] == s[k2]);
                }
            }
            assert(!seq_has_renderer(t, renderer_id)) by {
                if seq_has_renderer(t, renderer_id) {
                    let k = choose|k: int| 0 <= k < t.len() && t[k].renderer_id == renderer_id;
                    let k2 = if k < i { k } else { k + 1 };
                    assert(t[k] == s[k2]);
                }
            }
            assert forall|q: PaneId| q != removed.pane_id implies seq_pane_attachment(t, q) == seq_pane_attachment(s, q) by {
                if seq_has_pane(s, q) {
                    let k = choose|k: int| 0 <= k < s.len() && s[k].pane_id == q;
                    lemma_at_index(s, k);
                    assert(k != i);
                    let k2 = if k < i { k } else { k - 1 };
                    assert(t[k2] == s[k]);
                    lemma_at_index(t, k2);
                } else if seq_has_pane(t, q) {
                    let k = choose|k: int| 0 <= k < t.len() && t[k].pane_id == q;
                    let k2 = if k < i { k } else { k + 1 };
                    assert(t[k] == s[k2]);
                }
            }
            assert forall|x: RendererId| x != renderer_id implies seq_renderer_pane(t, x) == seq_renderer_pane(s, x) by {
                if seq_has_renderer(s, x) {
                    let k = choose|k: int| 0 <= k < s.len() && s[k].renderer_id == x;
                    lemma_at_index(s, k);
                    assert(k != i);
                    let k2 = if k < i { k } else { k - 1 };
                    assert(t[k2] == s[k]);
                    lemma_at_index(t, k2);
                } else if seq_has_renderer(t, x) {
                    let k = choose|k: int| 0 <= k < t.len() && t[k].renderer_id == x;
                    let k2 = if k < i { k } else { k + 1 };
                    assert(t[k] == s[k2]);
                }
            }
        }
        self.attachments = attachments;
        Some(removed)
    }

    /// The attachment of a pane.
    pub fn renderer_for_pane(&self, pane_id: &PaneId) -> (r: Option<&PaneAttachment>)
        ensures
            r matches Some(a) ==> self.attachment_of(*pane_id) == Some(*a),
            r is None <==> self.attachment_of(*pane_id) is None,
    {
        proof {
            use_type_invariant(self);
        }
        match self.index_of_pane(*pane_id) {
            Some(i) => {
                proof {
                    lemma_at_index(self.attachments@, i as int);
                }
                Some(&self.attachments[i])
            },
            None => None,
        }
    }

    /// The pane a renderer is attached to.
    pub fn pane_for_renderer(&self, renderer_id: &RendererId) -> (r: Option<PaneId>)
        ensures
            r == self.pane_of(*renderer_id),
    {
        proof {
            use_type_invariant(self);
        }
        match self.index_of_renderer(*renderer_id) {
            Some(i) => {
                proof {
                    lemma_at_index(self.attachments@, i as int);
                }
                Some(self.attachments[i].pane_id)
            },
            None => None,
        }
    }

    /// Whether no renderer is attached.
    pub fn is_empty(&self) -> (r: bool)
        ensures
            r == self.empty_spec(),
    {
        self.attachments.len() == 0
    }
}

/// `after` is `before` with `renderer` attached to `pane`.
pub open spec fn attached(before: RendererRegistry, after: RendererRegistry, pane: PaneId, renderer: RendererId, node: Option<NodeKey>) -> bool {
    &&& after.attachment_of(pane) matches Some(a)
    &&& a.pane_id == pane && a.renderer_id == renderer && a.node_key == node
    &&& after.pane_of(renderer) == Some(pane)
    &&& forall|p: PaneId| p != pane ==> after.attachment_of(p) == before.attachment_of(p)
    &&& forall|x: RendererId| x != renderer ==> after.pane_of(x) == before.pane_of(x)
}

/// `after` is `before` with `renderer` detached from `pane`.
pub open spec fn detached(before: RendererRegistry, after: RendererRegistry, pane: PaneId, renderer: RendererId) -> bool {
    &&& after.attachment_of(pane) is None
    &&& after.pane_of(renderer) is None
    &&& forall|q: PaneId| q != pane ==> after.attachment_of(q) == before.attachment_of(q)
    &&& forall|x: RendererId| x != renderer ==> after.pane_of(x) == before.pane_of(x)
}

/// Attaching a free renderer to a free pane and detaching it again leaves
/// every pane and renderer as it was.
pub proof fn law_attach_then_detach_restores(
    r0: RendererRegistry,
    r1: RendererRegistry,
    r2: RendererRegistry,
    pane: PaneId,
    renderer: RendererId,
    node: Option<NodeKey>,
)
    requires
        r0.attachment_of(pane) is None,
        r0.pane_of(renderer) is None,
        attached(r0, r1, pane, renderer, node),
        r1.pane_of(renderer) matches Some(p) && detached(r1, r2, p, renderer),
    ensures
        forall|p: PaneId| r2.attachment_of(p) == r0.attachment_of(p),
        forall|x: RendererId| r2.pane_of(x) == r0.pane_of(x),
{
}

impl Default for RendererRegistry {
    fn default() -> (r: Self)
        ensures
            r.empty_spec(),
    {
        RendererRegistry::new()
    }
}

} // verus!
