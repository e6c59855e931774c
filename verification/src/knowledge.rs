//! Knowledge tags: UDC classification codes attached to graph nodes, the semantic
//! index built from them, and the queries over both.

use vstd::prelude::*;
use crate::model::NodeKey;
use crate::text::{
    has_prefix, lower, lower_seq, trim, trim_seq, strip_prefix, join2, str_eq, strs, strictly_sorted,
    insert_sorted, clone_strings,
};

verus! {

pub open spec fn is_digit(c: char) -> bool {
    '0' <= c && c <= '9'
}

/// The body of a UDC tag: digits and dots, with at least one digit.
pub open spec fn udc_body_ok(body: Seq<char>) -> bool {
    &&& forall|i: int| 0 <= i < body.len() ==> is_digit(#[trigger] body[i]) || body[i] == '.'
    &&& exists|i: int| 0 <= i < body.len() && is_digit(#[trigger] body[i])
}

/// The digits of a UDC body, in order, dots dropped.
pub open spec fn udc_digits(body: Seq<char>) -> Seq<u8>
    decreases body.len(),
{
    if body.len() == 0 {
        Seq::empty()
    } else if is_digit(body.last()) {
        udc_digits(body.drop_last()).push(((body.last() as u32) - ('0' as u32)) as u8)
    } else {
        udc_digits(body.drop_last())
    }
}

/// The code that a stored tag (`udc:` and a body) stands for.
pub open spec fn parse_spec(tag: Seq<char>) -> Option<Seq<u8>> {
    if has_prefix(tag, "udc:"@) && udc_body_ok(tag.subrange(4, tag.len() as int)) {
        Some(udc_digits(tag.subrange(4, tag.len() as int)))
    } else {
        None
    }
}

/// The canonical form of a tag a user typed: trimmed, lower-cased, with the
/// `udc:` prefix; none where the body is not a UDC code.
pub open spec fn canonical_tag_spec(tag: Seq<char>) -> Option<Seq<char>> {
    let t = lower_seq(trim_seq(tag));
    let body = if has_prefix(t, "udc:"@) { t.subrange(4, t.len() as int) } else { t };
    if udc_body_ok(body) {
        Some("udc:"@ + body)
    } else {
        None
    }
}

/// Length of the common prefix of two codes.
pub open spec fn common_prefix_len(a: Seq<u8>, b: Seq<u8>) -> nat
    decreases a.len(),
{
    if a.len() == 0 || b.len() == 0 || a[0] != b[0] {
        0
    } else {
        1 + common_prefix_len(a.drop_first(), b.drop_first())
    }
}

/// How far two codes are apart in the classification tree: the levels of the
/// deeper code below their deepest shared class.
pub open spec fn code_distance(a: Seq<u8>, b: Seq<u8>) -> nat {
    let deeper = if a.len() >= b.len() { a.len() } else { b.len() };
    (deeper - common_prefix_len(a, b)) as nat
}

pub proof fn lemma_common_prefix(a: Seq<u8>, b: Seq<u8>, i: int)
    requires
        0 <= i <= a.len(),
        i <= b.len(),
        forall|k: int| 0 <= k < i ==> a[k] == b[k],
    ensures
        common_prefix_len(a, b) == i + common_prefix_len(a.subrange(i, a.len() as int), b.subrange(i, b.len() as int)),
        common_prefix_len(a, b) <= a.len(),
        common_prefix_len(a, b) <= b.len(),
    decreases i,
{
    if i > 0 {
        lemma_common_prefix(a.drop_first(), b.drop_first(), i - 1);
        assert(a.drop_first().subrange(i - 1, a.drop_first().len() as int) == a.subrange(i, a.len() as int));
        assert(b.drop_first().subrange(i - 1, b.drop_first().len() as int) == b.subrange(i, b.len() as int));
    } else {
        assert(a.subrange(0, a.len() as int) == a);
        assert(b.subrange(0, b.len() as int) == b);
        lemma_common_prefix_bound(a, b);
    }
}

pub proof fn lemma_common_prefix_bound(a: Seq<u8>, b: Seq<u8>)
    ensures
        common_prefix_len(a, b) <= a.len(),
        common_prefix_len(a, b) <= b.len(),
    decreases a.len(),
{
    if a.len() > 0 && b.len() > 0 && a[0] == b[0] {
        lemma_common_prefix_bound(a.drop_first(), b.drop_first());
    }
}

/// A UDC classification code: its digits.
#[derive(Debug, Clone, PartialEq, Eq)]
pub struct CompactCode(pub Vec<u8>);

/// The rules of the UDC classification that tags follow.
#[derive(Debug, Clone, Copy, PartialEq, Eq, Structural)]
pub struct KnowledgeRegistry {}

impl Default for KnowledgeRegistry {
    fn default() -> (r: Self)
        ensures
            r == (KnowledgeRegistry {}),
    {
        KnowledgeRegistry {}
    }
}

fn udc_body_digits(body: &str) -> (r: Option<Vec<u8>>)
    ensures
        r is Some <==> udc_body_ok(body@),
        r matches Some(d) ==> d@ == udc_digits(body@),
{
    let n = body.unicode_len();
    let mut digits: Vec<u8> = Vec::new();
    let mut seen_digit = false;
    let mut i: usize = 0;
    while i < n
        invariant
            n == body@.len(),
            i <= n,
            digits@ == udc_digits(body@.subrange(0, i as int)),
            forall|k: int| 0 <= k < i ==> is_digit(#[trigger] body@[k]) || body@[k] == '.',
            seen_digit <==> exists|k: int| 0 <= k < i && is_digit(#[trigger] body@[k]),
        decreases n - i,
    {
        let c = body.get_char(i);
        let ghost prefix = body@.subrange(0, i + 1);
        assert(prefix.drop_last() == body@.subrange(0, i as int));
        assert(prefix.last() == c);
        if '0' <= c && c <= '9' {
            let v: u32 = c as u32;
            digits.push((v - 48) as u8);
            seen_digit = true;
        } else if c == '.' {
        } else {
            return None;
        }
        i = i + 1;
    }
    assert(body@.subrange(0, n as int) == body@);
    if seen_digit {
        Some(digits)
    } else {
        None
    }
}

impl KnowledgeRegistry {
    /// The code a stored tag stands for.
    pub fn parse(&self, tag: &str) -> (r: Option<CompactCode>)
        ensures
            match r {
                Some(code) => parse_spec(tag@) == Some(code.0@),
                None => parse_spec(tag@) is None,
            },
    {
        proof {
            reveal_strlit("udc:");
        }
        match strip_prefix(tag, "udc:") {
            Some(body) => match udc_body_digits(body.as_str()) {
                Some(d) => Some(CompactCode(d)),
                None => None,
            },
            None => None,
        }
    }

    /// The canonical form of a tag, where it names a UDC code.
    pub fn canonicalize_tag(&self, tag: &str) -> (r: Option<String>)
        ensures
            match r {
                Some(c) => canonical_tag_spec(tag@) == Some(c@),
                None => canonical_tag_spec(tag@) is None,
            },
    {
        proof {
            reveal_strlit("udc:");
        }
        let trimmed = trim(tag);
        let t = lower(trimmed.as_str());
        let body = match strip_prefix(t.as_str(), "udc:") {
            Some(b) => b,
            None => t,
        };
        match udc_body_digits(body.as_str()) {
            Some(_) => Some(join2("udc:", body.as_str())),
            None => None,
        }
    }

    /// The distance between two codes in the classification tree.
    pub fn distance(&self, a: &CompactCode, b: &CompactCode) -> (r: usize)
        ensures
            r == code_distance(a.0@, b.0@),
    {
        let la = a.0.len();
        let lb = b.0.len();
        let mut i: usize = 0;
        while i < la && i < lb && a.0[i] == b.0[i]
            invariant
                la == a.0@.len(),
                lb == b.0@.len(),
                i <= la,
                i <= lb,
                forall|k: int| 0 <= k < i ==> a.0@[k] == b.0@[k],
            decreases la - i,
        {
            i = i + 1;
        }
        proof {
            lemma_common_prefix(a.0@, b.0@, i as int);
            let ra = a.0@.subrange(i as int, la as int);
            let rb = b.0@.subrange(i as int, lb as int);
            if ra.len() > 0 && rb.len() > 0 {
                assert(ra[0] == a.0@[i as int]);
                assert(rb[0] == b.0@[i as int]);
            }
            assert(common_prefix_len(ra, rb) == 0);
        }
        let deeper = if la >= lb { la } else { lb };
        deeper - i
    }
}

pub open spec fn codes_view(v: Seq<CompactCode>) -> Seq<Seq<u8>> {
    v.map_values(|c: CompactCode| c.0@)
}

pub open spec fn opt_code_view(c: Option<CompactCode>) -> Option<Seq<u8>> {
    match c {
        Some(code) => Some(code.0@),
        None => None,
    }
}

/// The codes of a node's tags, with the first one as its primary class.
#[derive(Debug, Clone)]
pub struct SemanticClassVector {
    pub classes: Vec<CompactCode>,
    pub primary_code: Option<CompactCode>,
}

/// A class vector as values: its classes and its primary class.
pub open spec fn vector_view(v: SemanticClassVector) -> (Seq<Seq<u8>>, Option<Seq<u8>>) {
    (codes_view(v.classes@), opt_code_view(v.primary_code))
}

pub open spec fn first_code(codes: Seq<Seq<u8>>) -> Option<Seq<u8>> {
    if codes.len() > 0 {
        Some(codes[0])
    } else {
        None
    }
}

fn copy_code(c: &CompactCode) -> (r: CompactCode)
    ensures
        r.0@ == c.0@,
{
    let mut d: Vec<u8> = Vec::new();
    let mut i: usize = 0;
    while i < c.0.len()
        invariant
            i <= c.0@.len(),
            d@ == c.0@.subrange(0, i as int),
        decreases c.0@.len() - i,
    {
        d.push(c.0[i]);
        i = i + 1;
    }
    assert(d@ == c.0@);
    CompactCode(d)
}

impl SemanticClassVector {
    pub fn from_codes(codes: Vec<CompactCode>) -> (r: Self)
        ensures
            vector_view(r) == (codes_view(codes@), first_code(codes_view(codes@))),
    {
        let primary_code = if codes.len() > 0 {
            Some(copy_code(&codes[0]))
        } else {
            None
        };
        SemanticClassVector { classes: codes, primary_code }
    }
}

/// The tags of one node, as a sorted set.
#[derive(Debug)]
pub struct NodeTags {
    pub key: NodeKey,
    pub tags: Vec<String>,
}

/// The class vector of one node.
#[derive(Debug)]
pub struct IndexEntry {
    pub key: NodeKey,
    pub vector: SemanticClassVector,
}

pub open spec fn tags_view(v: Seq<NodeTags>) -> Seq<(NodeKey, Seq<Seq<char>>)> {
    v.map_values(|e: NodeTags| (e.key, strs(e.tags@)))
}

pub open spec fn index_view(v: Seq<IndexEntry>) -> Seq<(NodeKey, Seq<Seq<u8>>, Option<Seq<u8>>)> {
    v.map_values(|e: IndexEntry| (e.key, vector_view(e.vector).0, vector_view(e.vector).1))
}

/// Tag entries in strictly increasing key order, each a sorted set.
pub open spec fn tags_ordered(es: Seq<(NodeKey, Seq<Seq<char>>)>) -> bool {
    &&& forall|i: int, j: int| 0 <= i < j < es.len() ==> (#[trigger] es[i]).0.0 < (#[trigger] es[j]).0.0
    &&& forall|i: int| 0 <= i < es.len() ==> strictly_sorted(#[trigger] es[i].1)
}

/// Index entries in strictly increasing key order.
pub open spec fn index_ordered(es: Seq<(NodeKey, Seq<Seq<u8>>, Option<Seq<u8>>)>) -> bool {
    forall|i: int, j: int| 0 <= i < j < es.len() ==> (#[trigger] es[i]).0.0 < (#[trigger] es[j]).0.0
}

/// The tags of node `k` (none where it has no entry).
pub open spec fn tags_of(es: Seq<(NodeKey, Seq<Seq<char>>)>, k: NodeKey) -> Seq<Seq<char>>
    decreases es.len(),
{
    if es.len() == 0 {
        Seq::empty()
    } else if es.last().0 == k {
        es.last().1
    } else {
        tags_of(es.drop_last(), k)
    }
}

pub open spec fn has_entry(es: Seq<(NodeKey, Seq<Seq<char>>)>, k: NodeKey) -> bool {
    exists|i: int| 0 <= i < es.len() && (#[trigger] es[i]).0 == k
}

/// The keys of the entries whose tags hold `tag`, in entry order.
pub open spec fn keys_with_tag(es: Seq<(NodeKey, Seq<Seq<char>>)>, tag: Seq<char>) -> Seq<NodeKey>
    decreases es.len(),
{
    if es.len() == 0 {
        Seq::empty()
    } else if es.last().1.contains(tag) {
        keys_with_tag(es.drop_last(), tag).push(es.last().0)
    } else {
        keys_with_tag(es.drop_last(), tag)
    }
}

/// The entries of nodes that the graph still holds.
pub open spec fn retain_nodes(es: Seq<(NodeKey, Seq<Seq<char>>)>, nodes: Seq<NodeKey>) -> Seq<(NodeKey, Seq<Seq<char>>)>
    decreases es.len(),
{
    if es.len() == 0 {
        Seq::empty()
    } else if nodes.contains(es.last().0) {
        retain_nodes(es.drop_last(), nodes).push(es.last())
    } else {
        retain_nodes(es.drop_last(), nodes)
    }
}

/// The codes of the tags that parse, in tag order.
pub open spec fn parsed_codes(tags: Seq<Seq<char>>) -> Seq<Seq<u8>>
    decreases tags.len(),
{
    if tags.len() == 0 {
        Seq::empty()
    } else {
        match parse_spec(tags.last()) {
            Some(c) => parsed_codes(tags.drop_last()).push(c),
            None => parsed_codes(tags.drop_last()),
        }
    }
}

/// The index built from tag entries: one class vector per node with a code.
pub open spec fn rebuilt_index(es: Seq<(NodeKey, Seq<Seq<char>>)>) -> Seq<(NodeKey, Seq<Seq<u8>>, Option<Seq<u8>>)>
    decreases es.len(),
{
    if es.len() == 0 {
        Seq::empty()
    } else {
        let codes = parsed_codes(es.last().1);
        if codes.len() > 0 {
            rebuilt_index(es.drop_last()).push((es.last().0, codes, first_code(codes)))
        } else {
            rebuilt_index(es.drop_last())
        }
    }
}

pub proof fn lemma_tags_of_at(es: Seq<(NodeKey, Seq<Seq<char>>)>, i: int)
    requires
        tags_ordered(es),
        0 <= i < es.len(),
    ensures
        tags_of(es, es[i].0) == es[i].1,
    decreases es.len(),
{
    if i < es.len() - 1 {
        assert(es[i].0.0 < es.last().0.0);
        let p = es.drop_last();
        assert(tags_ordered(p)) by {
            assert forall|a: int, b: int| 0 <= a < b < p.len() implies (#[trigger] p[a]).0.0 < (#[trigger] p[b]).0.0 by {
                assert(p[a] == es[a] && p[b] == es[b]);
            }
            assert forall|a: int| 0 <= a < p.len() implies strictly_sorted(#[trigger] p[a].1) by {
                assert(p[a] == es[a]);
            }
        }
        assert(p[i] == es[i]);
        lemma_tags_of_at(p, i);
    }
}

pub proof fn lemma_tags_of_absent(es: Seq<(NodeKey, Seq<Seq<char>>)>, k: NodeKey)
    requires
        !has_entry(es, k),
    ensures
        tags_of(es, k) == Seq::<Seq<char>>::empty(),
    decreases es.len(),
{
    if es.len() > 0 {
        assert(es.last() == es[es.len() - 1]);
        let p = es.drop_last();
        assert(!has_entry(p, k)) by {
            if has_entry(p, k) {
                let i = choose|i: int| 0 <= i < p.len() && (#[trigger] p[i]).0 == k;
                assert(es[i] == p[i]);
            }
        }
        lemma_tags_of_absent(p, k);
    }
}

pub proof fn lemma_retain_ordered(es: Seq<(NodeKey, Seq<Seq<char>>)>, nodes: Seq<NodeKey>)
    requires
        tags_ordered(es),
    ensures
        tags_ordered(retain_nodes(es, nodes)),
        retain_nodes(es, nodes).len() <= es.len(),
        forall|i: int| 0 <= i < retain_nodes(es, nodes).len() ==> es.contains(#[trigger] retain_nodes(es, nodes)[i]),
    decreases es.len(),
{
    if es.len() > 0 {
        let p = es.drop_last();
        assert(tags_ordered(p)) by {
            assert forall|a: int, b: int| 0 <= a < b < p.len() implies (#[trigger] p[a]).0.0 < (#[trigger] p[b]).0.0 by {
                assert(p[a] == es[a] && p[b] == es[b]);
            }
            assert forall|a: int| 0 <= a < p.len() implies strictly_sorted(#[trigger] p[a].1) by {
                assert(p[a] == es[a]);
            }
        }
        lemma_retain_ordered(p, nodes);
        let rp = retain_nodes(p, nodes);
        let r = retain_nodes(es, nodes);
        assert forall|i: int| 0 <= i < rp.len() implies (#[trigger] rp[i]).0.0 < es.last().0.0 && es.contains(rp[i]) by {
            assert(p.contains(rp[i]));
            let j = choose|j: int| 0 <= j < p.len() && p[j] == rp[i];
            assert(es[j] == p[j]);
        }
        if nodes.contains(es.last().0) {
            assert(r == rp.push(es.last()));
            assert forall|a: int, b: int| 0 <= a < b < r.len() implies (#[trigger] r[a]).0.0 < (#[trigger] r[b]).0.0 by {
                if b == r.len() - 1 {
                    assert(r[a] == rp[a]);
                } else {
                    assert(r[a] == rp[a] && r[b] == rp[b]);
                }
            }
            assert forall|a: int| 0 <= a < r.len() implies strictly_sorted(#[trigger] r[a].1) by {
                if a < r.len() - 1 {
                    assert(r[a] == rp[a]);
                } else {
                    assert(r[a] == es[es.len() - 1]);
                }
            }
            assert forall|i: int| 0 <= i < r.len() implies es.contains(#[trigger] r[i]) by {
                if i < r.len() - 1 {
                    assert(r[i] == rp[i]);
                } else {
                    assert(r[i] == es[es.len() - 1]);
                }
            }
        }
    }
}

pub proof fn lemma_rebuilt_ordered(es: Seq<(NodeKey, Seq<Seq<char>>)>)
    requires
        tags_ordered(es),
    ensures
        index_ordered(rebuilt_index(es)),
        forall|i: int| 0 <= i < rebuilt_index(es).len() ==> has_entry(es, (#[trigger] rebuilt_index(es)[i]).0),
    decreases es.len(),
{
    if es.len() > 0 {
        let p = es.drop_last();
        assert(tags_ordered(p)) by {
            assert forall|a: int, b: int| 0 <= a < b < p.len() implies (#[trigger] p[a]).0.0 < (#[trigger] p[b]).0.0 by {
                assert(p[a] == es[a] && p[b] == es[b]);
            }
            assert forall|a: int| 0 <= a < p.len() implies strictly_sorted(#[trigger] p[a].1) by {
                assert(p[a] == es[a]);
            }
        }
        lemma_rebuilt_ordered(p);
        let rp = rebuilt_index(p);
        let r = rebuilt_index(es);
        assert forall|i: int| 0 <= i < rp.len() implies (#[trigger] rp[i]).0.0 < es.last().0.0 && has_entry(es, rp[i].0) by {
            assert(has_entry(p, rp[i].0));
            let j = choose|j: int| 0 <= j < p.len() && (#[trigger] p[j]).0 == rp[i].0;
            assert(es[j] == p[j]);
        }
        if parsed_codes(es.last().1).len() > 0 {
            assert forall|a: int, b: int| 0 <= a < b < r.len() implies (#[trigger] r[a]).0.0 < (#[trigger] r[b]).0.0 by {
                if b == r.len() - 1 {
                    assert(r[a] == rp[a]);
                } else {
                    assert(r[a] == rp[a] && r[b] == rp[b]);
                }
            }
            assert forall|i: int| 0 <= i < r.len() implies has_entry(es, (#[trigger] r[i]).0) by {
                if i < r.len() - 1 {
                    assert(r[i] == rp[i]);
                } else {
                    assert(es[es.len() - 1].0 == r[i].0);
                }
            }
        }
    }
}

/// The semantic state of a workspace: the graph's node keys, the tags on nodes,
/// and the class vectors indexed from those tags.
pub struct SemanticWorkspace {
    nodes: Vec<NodeKey>,
    tags: Vec<NodeTags>,
    index: Vec<IndexEntry>,
    index_dirty: bool,
}

impl SemanticWorkspace {
    #[verifier::type_invariant]
    spec fn ordered(self) -> bool {
        &&& tags_ordered(tags_view(self.tags@))
        &&& index_ordered(index_view(self.index@))
        &&& !self.index_dirty ==> retain_nodes(tags_view(self.tags@), self.nodes@) == tags_view(self.tags@)
            && index_view(self.index@) == rebuilt_index(tags_view(self.tags@))
    }

    /// A workspace whose index is not marked out of date agrees with its
    /// graph and tags.
    pub fn reveal_settled(&self)
        ensures
            !self.dirty() ==> settled(*self),
    {
        proof {
            use_type_invariant(self);
        }
    }

    /// The keys of the graph's nodes.
    pub closed spec fn node_keys(&self) -> Seq<NodeKey> {
        self.nodes@
    }

    /// The tag entries, in increasing key order.
    pub closed spec fn tag_entries(&self) -> Seq<(NodeKey, Seq<Seq<char>>)> {
        tags_view(self.tags@)
    }

    /// The index entries, in increasing key order.
    pub closed spec fn index_entries(&self) -> Seq<(NodeKey, Seq<Seq<u8>>, Option<Seq<u8>>)> {
        index_view(self.index@)
    }

    /// Whether the tags changed since the index was last built.
    pub closed spec fn dirty(&self) -> bool {
        self.index_dirty
    }

    /// States the order the workspace keeps its entries in.
    pub fn reveal_order(&self)
        ensures
            tags_ordered(self.tag_entries()),
            index_ordered(self.index_entries()),
    {
        proof {
            use_type_invariant(self);
        }
    }

    pub fn new() -> (r: Self)
        ensures
            r.node_keys().len() == 0,
            r.tag_entries().len() == 0,
            r.index_entries().len() == 0,
            !r.dirty(),
    {
        let tags: Vec<NodeTags> = Vec::new();
        let index: Vec<IndexEntry> = Vec::new();
        proof {
            assert(tags_view(tags@) =~= Seq::empty());
            assert(index_view(index@) =~= Seq::empty());
            assert(retain_nodes(Seq::empty(), Seq::<NodeKey>::empty()) =~= Seq::empty());
            assert(rebuilt_index(Seq::empty()) =~= Seq::empty());
        }
        SemanticWorkspace { nodes: Vec::new(), tags, index, index_dirty: false }
    }

    /// Adds a node to the graph.
    pub fn add_node(&mut self, key: NodeKey)
        ensures
            final(self).node_keys() == (if old(self).node_keys().contains(key) {
                old(self).node_keys()
            } else {
                old(self).node_keys().push(key)
            }),
            final(self).tag_entries() == old(self).tag_entries(),
            final(self).index_entries() == old(self).index_entries(),
            final(self).dirty() == old(self).dirty(),
    {
        proof {
            use_type_invariant(&*self);
        }
        if !contains_key(&self.nodes, key) {
            proof {
                if !self.index_dirty {
                    lemma_retain_grow(tags_view(self.tags@), self.nodes@, key);
                }
            }
            let mut nodes: Vec<NodeKey> = Vec::new();
            let mut i: usize = 0;
            while i < self.nodes.len()
                invariant
                    i <= self.nodes@.len(),
                    nodes@ == self.nodes@.subrange(0, i as int),
                decreases self.nodes@.len() - i,
            {
                nodes.push(self.nodes[i]);
                i = i + 1;
            }
            assert(self.nodes@.subrange(0, self.nodes@.len() as int) == self.nodes@);
            nodes.push(key);
            self.nodes = nodes;
        }
    }

    /// Marks the index as out of date with the tags.
    pub fn mark_index_dirty(&mut self)
        ensures
            final(self).dirty(),
            final(self).node_keys() == old(self).node_keys(),
            final(self).tag_entries() == old(self).tag_entries(),
            final(self).index_entries() == old(self).index_entries(),
    {
        proof {
            use_type_invariant(&*self);
        }
        self.index_dirty = true;
    }

    pub fn is_index_dirty(&self) -> (r: bool)
        ensures
            r == self.dirty(),
    {
        self.index_dirty
    }

    /// Number of nodes with a class vector.
    pub fn index_len(&self) -> (r: usize)
        ensures
            r == self.index_entries().len(),
    {
        self.index.len()
    }

    /// The class vector of node `key`, where the index holds one.
    pub fn class_vector(&self, key: NodeKey) -> (r: Option<SemanticClassVector>)
        ensures
            match r {
                Some(v) => index_classes(self.index_entries(), key) == Some(vector_view(v).0)
                    && vector_view(v).1 == first_code(vector_view(v).0),
                None => index_classes(self.index_entries(), key) is None,
            },
    {
        proof {
            use_type_invariant(self);
        }
        match index_position(&self.index, key) {
            Some(p) => {
                let v = &self.index[p].vector;
                let mut classes: Vec<CompactCode> = Vec::new();
                let mut i: usize = 0;
                while i < v.classes.len()
                    invariant
                        i <= v.classes@.len(),
                        codes_view(classes@) == codes_view(v.classes@).subrange(0, i as int),
                    decreases v.classes@.len() - i,
                {
                    let c = copy_code(&v.classes[i]);
                    let ghost before = classes@;
                    classes.push(c);
                    assert(classes@ == before.push(c));
                    assert(codes_view(classes@) =~= codes_view(before).push(c.0@));
                    assert(codes_view(v.classes@)[i as int] == v.classes@[i as int].0@);
                    assert(codes_view(classes@) =~= codes_view(v.classes@).subrange(0, i + 1));
                    i = i + 1;
                }
                assert(codes_view(v.classes@).subrange(0, v.classes@.len() as int) == codes_view(v.classes@));
                Some(SemanticClassVector::from_codes(classes))
            },
            None => None,
        }
    }

    /// Whether node `key` has a tag entry.
    pub fn has_tags(&self, key: NodeKey) -> (r: bool)
        ensures
            r == has_entry(self.tag_entries(), key),
    {
        let mut i: usize = 0;
        while i < self.tags.len()
            invariant
                i <= self.tags@.len(),
                forall|j: int| 0 <= j < i ==> self.tags@[j].key != key,
            decreases self.tags@.len() - i,
        {
            if self.tags[i].key == key {
                assert(tags_view(self.tags@)[i as int].0 == key);
                return true;
            }
            i = i + 1;
        }
        proof {
            if has_entry(self.tag_entries(), key) {
                let j = choose|j: int| 0 <= j < self.tag_entries().len() && (#[trigger] self.tag_entries()[j]).0 == key;
                assert(self.tags@[j].key == key);
            }
        }
        false
    }

    /// Adds `tag` to the tags of node `key`; the index is then out of date.
    pub fn insert_tag(&mut self, key: NodeKey, tag: String)
        ensures
            forall|k: NodeKey| has_entry(final(self).tag_entries(), k) <==> (has_entry(old(self).tag_entries(), k) || k == key),
            forall|k: NodeKey, x: Seq<char>| #[trigger] tags_of(final(self).tag_entries(), k).contains(x)
                <==> (tags_of(old(self).tag_entries(), k).contains(x) || (k == key && x == tag@)),
            final(self).dirty(),
            final(self).node_keys() == old(self).node_keys(),
            final(self).index_entries() == old(self).index_entries(),
    {
        proof {
            use_type_invariant(&*self);
        }
        self.index_dirty = true;
        let mut entries: Vec<NodeTags> = Vec::new();
        std::mem::swap(&mut entries, &mut self.tags);
        let ghost before = tags_view(entries@);
        let n = entries.len();
        let mut p: usize = 0;
        while p < n && entries[p].key.0 < key.0
            invariant
                n == entries@.len(),
                p <= n,
                before == tags_view(entries@),
                forall|k: int| 0 <= k < p ==> (#[trigger] before[k]).0.0 < key.0,
            decreases n - p,
        {
            p = p + 1;
        }
        let ghost tv = tag@;
        if p < n && entries[p].key == key {
            let mut e = entries.remove(p);
            assert(before[p as int].1 == strs(e.tags@));
            insert_sorted(&mut e.tags, tag);
            let ghost new_entry = (e.key, strs(e.tags@));
            entries.insert(p, e);
            proof {
                let after = tags_view(entries@);
                assert(after =~= before.update(p as int, new_entry));
                assert(tags_ordered(after)) by {
                    assert forall|i: int, j: int| 0 <= i < j < after.len() implies (#[trigger] after[i]).0.0 < (#[trigger] after[j]).0.0 by {
                        assert(after[i].0 == before[i].0 && after[j].0 == before[j].0);
                    }
                    assert forall|i: int| 0 <= i < after.len() implies strictly_sorted(#[trigger] after[i].1) by {
                        if i != p {
                            assert(after[i] == before[i]);
                        }
                    }
                }
                lemma_insert_tag_views(before, after, p as int, key, tv);
            }
        } else {
            let mut tags: Vec<String> = Vec::new();
            tags.push(tag);
            let e = NodeTags { key, tags };
            let ghost new_entry = (key, strs(e.tags@));
            assert(new_entry.1 =~= seq![tv]);
            entries.insert(p, e);
            proof {
                let after = tags_view(entries@);
                assert(after =~= before.insert(p as int, new_entry));
                if p < n {
                    assert(before[p as int].0.0 >= key.0);
                    assert(before[p as int].0 != key);
                }
                assert(tags_ordered(after)) by {
                    assert forall|i: int, j: int| 0 <= i < j < after.len() implies (#[trigger] after[i]).0.0 < (#[trigger] after[j]).0.0 by {
                        if j < p {
                            assert(after[i] == before[i] && after[j] == before[j]);
                        } else if j == p {
                            assert(after[i] == before[i]);
                        } else if i == p {
                            assert(after[j] == before[j - 1]);
                            assert(before[p as int].0.0 <= before[j - 1].0.0);
                        } else if i < p {
                            assert(after[i] == before[i] && after[j] == before[j - 1]);
                        } else {
                            assert(after[i] == before[i - 1] && after[j] == before[j - 1]);
                        }
                    }
                    assert forall|i: int| 0 <= i < after.len() implies strictly_sorted(#[trigger] after[i].1) by {
                        if i < p {
                            assert(after[i] == before[i]);
                        } else if i > p {
                            assert(after[i] == before[i - 1]);
                        }
                    }
                }
                lemma_insert_entry_views(before, after, p as int, key, tv);
            }
        }
        self.tags = entries;
    }
}

fn contains_key(keys: &Vec<NodeKey>, key: NodeKey) -> (r: bool)
    ensures
        r == keys@.contains(key),
{
    let mut i: usize = 0;
    while i < keys.len()
        invariant
            i <= keys@.len(),
            forall|j: int| 0 <= j < i ==> keys@[j] != key,
        decreases keys@.len() - i,
    {
        if keys[i] == key {
            return true;
        }
        i = i + 1;
    }
    false
}

proof fn lemma_insert_tag_views(
    before: Seq<(NodeKey, Seq<Seq<char>>)>,
    after: Seq<(NodeKey, Seq<Seq<char>>)>,
    p: int,
    key: NodeKey,
    tv: Seq<char>,
)
    requires
        tags_ordered(before),
        tags_ordered(after),
        0 <= p < before.len(),
        before[p].0 == key,
        after.len() == before.len(),
        after[p].0 == key,
        forall|x: Seq<char>| after[p].1.contains(x) <==> (before[p].1.contains(x) || x == tv),
        forall|i: int| 0 <= i < before.len() && i != p ==> after[i] == before[i],
    ensures
        forall|k: NodeKey| has_entry(after, k) <==> (has_entry(before, k) || k == key),
        forall|k: NodeKey, x: Seq<char>| #[trigger] tags_of(after, k).contains(x)
            <==> (tags_of(before, k).contains(x) || (k == key && x == tv)),
{
    assert forall|k: NodeKey| has_entry(after, k) <==> (has_entry(before, k) || k == key) by {
        if has_entry(after, k) {
            let i = choose|i: int| 0 <= i < after.len() && (#[trigger] after[i]).0 == k;
            if i != p {
                assert(before[i] == after[i]);
            }
        }
        if has_entry(before, k) {
            let i = choose|i: int| 0 <= i < before.len() && (#[trigger] before[i]).0 == k;
            if i != p {
                assert(before[i] == after[i]);
            }
        }
        if k == key {
            assert(after[p].0 == k);
        }
    }
    assert forall|k: NodeKey, x: Seq<char>| #[trigger] tags_of(after, k).contains(x)
        <==> (tags_of(before, k).contains(x) || (k == key && x == tv)) by {
        if k == key {
            lemma_tags_of_at(before, p);
            lemma_tags_of_at(after, p);
        } else if has_entry(before, k) {
            let i = choose|i: int| 0 <= i < before.len() && (#[trigger] before[i]).0 == k;
            assert(i != p);
            assert(after[i] == before[i]);
            lemma_tags_of_at(before, i);
            lemma_tags_of_at(after, i);
        } else {
            assert(!has_entry(after, k));
            lemma_tags_of_absent(before, k);
            lemma_tags_of_absent(after, k);
        }
    }
}

proof fn lemma_insert_entry_views(
    before: Seq<(NodeKey, Seq<Seq<char>>)>,
    after: Seq<(NodeKey, Seq<Seq<char>>)>,
    p: int,
    key: NodeKey,
    tv: Seq<char>,
)
    requires
        tags_ordered(before),
        tags_ordered(after),
        0 <= p <= before.len(),
        !has_entry(before, key),
        after == before.insert(p, (key, seq![tv])),
    ensures
        forall|k: NodeKey| has_entry(after, k) <==> (has_entry(before, k) || k == key),
        forall|k: NodeKey, x: Seq<char>| #[trigger] tags_of(after, k).contains(x)
            <==> (tags_of(before, k).contains(x) || (k == key && x == tv)),
{
    assert forall|k: NodeKey| has_entry(after, k) <==> (has_entry(before, k) || k == key) by {
        if has_entry(after, k) {
            let i = choose|i: int| 0 <= i < after.len() && (#[trigger] after[i]).0 == k;
            if i < p {
                assert(before[i] == after[i]);
            } else if i > p {
                assert(before[i - 1] == after[i]);
            }
        }
        if has_entry(before, k) {
            let i = choose|i: int| 0 <= i < before.len() && (#[trigger] before[i]).0 == k;
            if i < p {
                assert(before[i] == after[i]);
            } else {
                assert(before[i] == after[i + 1]);
            }
        }
        if k == key {
            assert(after[p].0 == k);
        }
    }
    assert forall|k: NodeKey, x: Seq<char>| #[trigger] tags_of(after, k).contains(x)
        <==> (tags_of(before, k).contains(x) || (k == key && x == tv)) by {
        if k == key {
            lemma_tags_of_absent(before, k);
            lemma_tags_of_at(after, p);
            assert(after[p].1 == seq![tv]);
            assert(seq![tv][0] == tv);
        } else if has_entry(before, k) {
            let i = choose|i: int| 0 <= i < before.len() && (#[trigger] before[i]).0 == k;
            lemma_tags_of_at(before, i);
            if i < p {
                assert(after[i] == before[i]);
                lemma_tags_of_at(after, i);
            } else {
                assert(after[i + 1] == before[i]);
                lemma_tags_of_at(after, i + 1);
            }
        } else {
            assert(!has_entry(after, k));
            lemma_tags_of_absent(before, k);
            lemma_tags_of_absent(after, k);
        }
    }
}

#[derive(Debug, Clone, Copy, PartialEq, Eq, Structural)]
pub struct SemanticReconcileReport {
    pub indexed_nodes: usize,
    pub removed_stale_tags: usize,
    pub changed: bool,
}

/// The codes of the tags that parse.
fn parse_all(registry: &KnowledgeRegistry, tags: &Vec<String>) -> (r: Vec<CompactCode>)
    ensures
        codes_view(r@) == parsed_codes(strs(tags@)),
{
    let mut out: Vec<CompactCode> = Vec::new();
    let mut i: usize = 0;
    while i < tags.len()
        invariant
            i <= tags@.len(),
            codes_view(out@) == parsed_codes(strs(tags@).subrange(0, i as int)),
        decreases tags@.len() - i,
    {
        let ghost pre = strs(tags@).subrange(0, i + 1);
        assert(pre.drop_last() == strs(tags@).subrange(0, i as int));
        assert(pre.last() == tags@[i as int]@);
        match registry.parse(tags[i].as_str()) {
            Some(code) => {
                out.push(code);
                assert(codes_view(out@) =~= parsed_codes(pre.drop_last()).push(code.0@));
            },
            None => {},
        }
        i = i + 1;
    }
    assert(strs(tags@).subrange(0, tags@.len() as int) == strs(tags@));
    out
}

fn code_eq(a: &CompactCode, b: &CompactCode) -> (r: bool)
    ensures
        r == (a.0@ == b.0@),
{
    if a.0.len() != b.0.len() {
        return false;
    }
    let mut i: usize = 0;
    while i < a.0.len()
        invariant
            a.0@.len() == b.0@.len(),
            i <= a.0@.len(),
            forall|k: int| 0 <= k < i ==> a.0@[k] == b.0@[k],
        decreases a.0@.len() - i,
    {
        if a.0[i] != b.0[i] {
            return false;
        }
        i = i + 1;
    }
    assert(a.0@ =~= b.0@);
    true
}

fn codes_eq(a: &Vec<CompactCode>, b: &Vec<CompactCode>) -> (r: bool)
    ensures
        r == (codes_view(a@) == codes_view(b@)),
{
    if a.len() != b.len() {
        assert(codes_view(a@).len() != codes_view(b@).len());
        return false;
    }
    let mut i: usize = 0;
    while i < a.len()
        invariant
            a@.len() == b@.len(),
            i <= a@.len(),
            forall|k: int| 0 <= k < i ==> a@[k].0@ == b@[k].0@,
        decreases a@.len() - i,
    {
        if !code_eq(&a[i], &b[i]) {
            assert(codes_view(a@)[i as int] != codes_view(b@)[i as int]);
            return false;
        }
        i = i + 1;
    }
    assert(codes_view(a@) =~= codes_view(b@));
    true
}

fn opt_code_eq(a: &Option<CompactCode>, b: &Option<CompactCode>) -> (r: bool)
    ensures
        r == (opt_code_view(*a) == opt_code_view(*b)),
{
    match (a, b) {
        (Some(x), Some(y)) => code_eq(x, y),
        (None, None) => true,
        _ => false,
    }
}

fn index_eq(a: &Vec<IndexEntry>, b: &Vec<IndexEntry>) -> (r: bool)
    ensures
        r == (index_view(a@) == index_view(b@)),
{
    if a.len() != b.len() {
        assert(index_view(a@).len() != index_view(b@).len());
        return false;
    }
    let mut i: usize = 0;
    while i < a.len()
        invariant
            a@.len() == b@.len(),
            i <= a@.len(),
            forall|k: int| 0 <= k < i ==> index_view(a@)[k] == index_view(b@)[k],
        decreases a@.len() - i,
    {
        let same = a[i].key == b[i].key && codes_eq(&a[i].vector.classes, &b[i].vector.classes)
            && opt_code_eq(&a[i].vector.primary_code, &b[i].vector.primary_code);
        if !same {
            assert(index_view(a@)[i as int] != index_view(b@)[i as int]);
            return false;
        }
        i = i + 1;
    }
    assert(index_view(a@) =~= index_view(b@));
    true
}

/// What reconciling the semantic index does to `old` and reports.
pub open spec fn reconcile_post(old: SemanticWorkspace, new: SemanticWorkspace, r: SemanticReconcileReport) -> bool {
    if !old.dirty() {
        &&& new.node_keys() == old.node_keys()
        &&& new.tag_entries() == old.tag_entries()
        &&& new.index_entries() == old.index_entries()
        &&& !new.dirty()
        &&& r == (SemanticReconcileReport { indexed_nodes: old.index_entries().len() as usize, removed_stale_tags: 0, changed: false })
    } else {
        let kept = retain_nodes(old.tag_entries(), old.node_keys());
        let index = rebuilt_index(kept);
        let removed = old.tag_entries().len() - kept.len();
        &&& new.node_keys() == old.node_keys()
        &&& new.tag_entries() == kept
        &&& new.index_entries() == index
        &&& !new.dirty()
        &&& r.removed_stale_tags == removed
        &&& r.indexed_nodes == index.len()
        &&& r.changed == (old.index_entries() != index || removed > 0)
    }
}

/// Drops the tags of nodes the graph no longer holds and rebuilds the semantic
/// index from the remaining tags, where the index is out of date.
pub fn reconcile_semantics(ws: &mut SemanticWorkspace, registry: &KnowledgeRegistry) -> (r: SemanticReconcileReport)
    ensures
        reconcile_post(*old(ws), *final(ws), r),
{
    proof {
        use_type_invariant(&*ws);
    }
    if !ws.index_dirty {
        return SemanticReconcileReport { indexed_nodes: ws.index.len(), removed_stale_tags: 0, changed: false };
    }
    let previous_tag_len = ws.tags.len();
    let mut old_tags: Vec<NodeTags> = Vec::new();
    std::mem::swap(&mut old_tags, &mut ws.tags);
    let ghost es = tags_view(old_tags@);
    let ghost nodes = ws.nodes@;
    let mut kept: Vec<NodeTags> = Vec::new();
    let mut i: usize = 0;
    while i < old_tags.len()
        invariant
            i <= old_tags@.len(),
            es == tags_view(old_tags@),
            nodes == ws.nodes@,
            tags_view(kept@) == retain_nodes(es.subrange(0, i as int), nodes),
        decreases old_tags@.len() - i,
    {
        let ghost pre = es.subrange(0, i + 1);
        assert(pre.drop_last() == es.subrange(0, i as int));
        assert(pre.last() == es[i as int]);
        if contains_key(&ws.nodes, old_tags[i].key) {
            let entry = NodeTags { key: old_tags[i].key, tags: clone_strings(&old_tags[i].tags) };
            kept.push(entry);
            assert(tags_view(kept@) =~= retain_nodes(pre.drop_last(), nodes).push(es[i as int]));
        }
        i = i + 1;
    }
    assert(es.subrange(0, old_tags@.len() as int) == es);
    let ghost kv = tags_view(kept@);
    proof {
        lemma_retain_ordered(es, nodes);
        lemma_rebuilt_ordered(kv);
    }
    let mut rebuilt: Vec<IndexEntry> = Vec::new();
    let mut j: usize = 0;
    while j < kept.len()
        invariant
            j <= kept@.len(),
            kv == tags_view(kept@),
            index_view(rebuilt@) == rebuilt_index(kv.subrange(0, j as int)),
        decreases kept@.len() - j,
    {
        let ghost pre = kv.subrange(0, j + 1);
        assert(pre.drop_last() == kv.subrange(0, j as int));
        assert(pre.last() == kv[j as int]);
        let codes = parse_all(registry, &kept[j].tags);
        if codes.len() > 0 {
            let ghost cv = codes_view(codes@);
            let entry = IndexEntry { key: kept[j].key, vector: SemanticClassVector::from_codes(codes) };
            rebuilt.push(entry);
            assert(index_view(rebuilt@) =~= rebuilt_index(pre.drop_last()).push((kv[j as int].0, cv, first_code(cv))));
        }
        j = j + 1;
    }
    assert(kv.subrange(0, kept@.len() as int) == kv);
    let removed_stale_tags = previous_tag_len - kept.len();
    let changed = !index_eq(&ws.index, &rebuilt) || removed_stale_tags > 0;
    let indexed_nodes = rebuilt.len();
    ws.tags = kept;
    ws.index = rebuilt;
    proof {
        lemma_retain_idempotent(es, nodes);
    }
    ws.index_dirty = false;
    SemanticReconcileReport { indexed_nodes, removed_stale_tags, changed }
}

fn strs_contain(v: &Vec<String>, t: &str) -> (r: bool)
    ensures
        r == strs(v@).contains(t@),
{
    let mut i: usize = 0;
    while i < v.len()
        invariant
            i <= v@.len(),
            forall|k: int| 0 <= k < i ==> v@[k]@ != t@,
        decreases v@.len() - i,
    {
        if str_eq(v[i].as_str(), t) {
            assert(strs(v@)[i as int] == t@);
            return true;
        }
        i = i + 1;
    }
    proof {
        if strs(v@).contains(t@) {
            let k = choose|k: int| 0 <= k < strs(v@).len() && strs(v@)[k] == t@;
            assert(v@[k]@ == t@);
        }
    }
    false
}

/// The nodes tagged with the canonical form of `tag`, in increasing key order.
pub fn query_by_tag(ws: &SemanticWorkspace, registry: &KnowledgeRegistry, tag: &str) -> (r: Vec<NodeKey>)
    ensures
        r@ == match canonical_tag_spec(tag@) {
            Some(c) => keys_with_tag(ws.tag_entries(), c),
            None => Seq::empty(),
        },
{
    let canonical = match registry.canonicalize_tag(tag) {
        Some(c) => c,
        None => {
            return Vec::new();
        },
    };
    let ghost es = ws.tag_entries();
    let mut matches: Vec<NodeKey> = Vec::new();
    let mut i: usize = 0;
    while i < ws.tags.len()
        invariant
            i <= ws.tags@.len(),
            es == tags_view(ws.tags@),
            matches@ == keys_with_tag(es.subrange(0, i as int), canonical@),
        decreases ws.tags@.len() - i,
    {
        let ghost pre = es.subrange(0, i + 1);
        assert(pre.drop_last() == es.subrange(0, i as int));
        assert(pre.last() == es[i as int]);
        if strs_contain(&ws.tags[i].tags, canonical.as_str()) {
            matches.push(ws.tags[i].key);
        }
        i = i + 1;
    }
    assert(es.subrange(0, ws.tags@.len() as int) == es);
    matches
}

/// The tags of node `key`, in increasing order.
pub fn tags_for_node(ws: &SemanticWorkspace, key: &NodeKey) -> (r: Vec<String>)
    ensures
        strs(r@) == tags_of(ws.tag_entries(), *key),
{
    proof {
        use_type_invariant(ws);
    }
    let ghost es = ws.tag_entries();
    let mut i: usize = 0;
    while i < ws.tags.len()
        invariant
            i <= ws.tags@.len(),
            es == tags_view(ws.tags@),
            tags_ordered(es),
            forall|k: int| 0 <= k < i ==> (#[trigger] es[k]).0 != *key,
        decreases ws.tags@.len() - i,
    {
        if ws.tags[i].key == *key {
            proof {
                lemma_tags_of_at(es, i as int);
            }
            return clone_strings(&ws.tags[i].tags);
        }
        i = i + 1;
    }
    proof {
        assert(!has_entry(es, *key));
        lemma_tags_of_absent(es, *key);
    }
    Vec::new()
}

pub open spec fn opt_min(a: Option<nat>, b: Option<nat>) -> Option<nat> {
    match (a, b) {
        (Some(x), Some(y)) => Some(if x <= y { x } else { y }),
        (Some(x), None) => Some(x),
        (None, _) => b,
    }
}

/// The least distance from code `l` to any of `bs`.
pub open spec fn row_distance(l: Seq<u8>, bs: Seq<Seq<u8>>) -> Option<nat>
    decreases bs.len(),
{
    if bs.len() == 0 {
        None
    } else {
        opt_min(row_distance(l, bs.drop_last()), Some(code_distance(l, bs.last())))
    }
}

/// The least distance between a class of `a` and a class of `b`; none where
/// either has no class.
pub open spec fn vector_distance(a: Seq<Seq<u8>>, b: Seq<Seq<u8>>) -> Option<nat>
    decreases a.len(),
{
    if a.len() == 0 {
        None
    } else {
        opt_min(vector_distance(a.drop_last(), b), row_distance(a.last(), b))
    }
}

/// The classes of node `k` in the index, where it has an entry.
pub open spec fn index_classes(es: Seq<(NodeKey, Seq<Seq<u8>>, Option<Seq<u8>>)>, k: NodeKey) -> Option<Seq<Seq<u8>>>
    decreases es.len(),
{
    if es.len() == 0 {
        None
    } else if es.last().0 == k {
        Some(es.last().1)
    } else {
        index_classes(es.drop_last(), k)
    }
}

/// The nearest other indexed node to classes `src`, with its distance; the first
/// in entry order among equally near ones.
pub open spec fn best_anchor(es: Seq<(NodeKey, Seq<Seq<u8>>, Option<Seq<u8>>)>, key: NodeKey, src: Seq<Seq<u8>>) -> Option<(NodeKey, nat)>
    decreases es.len(),
{
    if es.len() == 0 {
        None
    } else {
        let prev = best_anchor(es.drop_last(), key, src);
        let e = es.last();
        if e.0 == key {
            prev
        } else {
            match vector_distance(src, e.1) {
                None => prev,
                Some(d) => match prev {
                    None => Some((e.0, d)),
                    Some(p) => if d < p.1 { Some((e.0, d)) } else { prev },
                },
            }
        }
    }
}

fn semantic_vector_distance(registry: &KnowledgeRegistry, a: &SemanticClassVector, b: &SemanticClassVector) -> (r: Option<usize>)
    ensures
        match r {
            Some(d) => vector_distance(codes_view(a.classes@), codes_view(b.classes@)) == Some(d as nat),
            None => vector_distance(codes_view(a.classes@), codes_view(b.classes@)) is None,
        },
{
    let ghost av = codes_view(a.classes@);
    let ghost bv = codes_view(b.classes@);
    let mut best: Option<usize> = None;
    let mut i: usize = 0;
    while i < a.classes.len()
        invariant
            i <= a.classes@.len(),
            av == codes_view(a.classes@),
            bv == codes_view(b.classes@),
            match best {
                Some(d) => vector_distance(av.subrange(0, i as int), bv) == Some(d as nat),
                None => vector_distance(av.subrange(0, i as int), bv) is None,
            },
        decreases a.classes@.len() - i,
    {
        let ghost pre = av.subrange(0, i + 1);
        assert(pre.drop_last() == av.subrange(0, i as int));
        assert(pre.last() == av[i as int]);
        let mut row: Option<usize> = None;
        let mut j: usize = 0;
        while j < b.classes.len()
            invariant
                j <= b.classes@.len(),
                i < a.classes@.len(),
                av == codes_view(a.classes@),
                bv == codes_view(b.classes@),
                match row {
                    Some(d) => row_distance(av[i as int], bv.subrange(0, j as int)) == Some(d as nat),
                    None => row_distance(av[i as int], bv.subrange(0, j as int)) is None,
                },
            decreases b.classes@.len() - j,
        {
            let ghost rpre = bv.subrange(0, j + 1);
            assert(rpre.drop_last() == bv.subrange(0, j as int));
            assert(rpre.last() == bv[j as int]);
            let d = registry.distance(&a.classes[i], &b.classes[j]);
            row = match row {
                Some(cur) => Some(if cur <= d { cur } else { d }),
                None => Some(d),
            };
            j = j + 1;
        }
        assert(bv.subrange(0, b.classes@.len() as int) == bv);
        best = match (best, row) {
            (Some(x), Some(y)) => Some(if x <= y { x } else { y }),
            (Some(x), None) => Some(x),
            (None, r) => r,
        };
        i = i + 1;
    }
    assert(av.subrange(0, a.classes@.len() as int) == av);
    best
}

fn index_position(index: &Vec<IndexEntry>, key: NodeKey) -> (r: Option<usize>)
    ensures
        match r {
            Some(p) => p < index@.len() && index_classes(index_view(index@), key) == Some(index_view(index@)[p as int].1),
            None => index_classes(index_view(index@), key) is None,
        },
{
    let ghost es = index_view(index@);
    let mut i: usize = index.len();
    assert(es.subrange(0, es.len() as int) == es);
    while i > 0
        invariant
            i <= index@.len(),
            es == index_view(index@),
            index_classes(es, key) == index_classes(es.subrange(0, i as int), key),
        decreases i,
    {
        let ghost pre = es.subrange(0, i as int);
        assert(pre.drop_last() == es.subrange(0, i - 1));
        assert(pre.last() == es[i - 1]);
        if index[i - 1].key == key {
            return Some(i - 1);
        }
        i = i - 1;
    }
    None
}

/// The other node whose classes lie nearest to those of `key`, ties going to the
/// smaller key; none where `key` is not indexed or no other node is comparable.
pub fn suggest_placement_anchor(ws: &SemanticWorkspace, registry: &KnowledgeRegistry, key: NodeKey) -> (r: Option<NodeKey>)
    ensures
        r == match index_classes(ws.index_entries(), key) {
            Some(src) => match best_anchor(ws.index_entries(), key, src) {
                Some(b) => Some(b.0),
                None => None,
            },
            None => None,
        },
{
    let ghost es = ws.index_entries();
    let p = match index_position(&ws.index, key) {
        Some(p) => p,
        None => {
            return None;
        },
    };
    let ghost src = codes_view(ws.index@[p as int].vector.classes@);
    assert(index_classes(es, key) == Some(src));
    let mut best: Option<(NodeKey, usize)> = None;
    let mut j: usize = 0;
    while j < ws.index.len()
        invariant
            j <= ws.index@.len(),
            p < ws.index@.len(),
            es == index_view(ws.index@),
            src == codes_view(ws.index@[p as int].vector.classes@),
            match best {
                Some(b) => best_anchor(es.subrange(0, j as int), key, src) == Some((b.0, b.1 as nat)),
                None => best_anchor(es.subrange(0, j as int), key, src) is None,
            },
        decreases ws.index@.len() - j,
    {
        let ghost pre = es.subrange(0, j + 1);
        assert(pre.drop_last() == es.subrange(0, j as int));
        assert(pre.last() == es[j as int]);
        let candidate = &ws.index[j];
        if candidate.key != key {
            match semantic_vector_distance(registry, &ws.index[p].vector, &candidate.vector) {
                Some(d) => {
                    best = match best {
                        Some(b) => if d < b.1 { Some((candidate.key, d)) } else { Some(b) },
                        None => Some((candidate.key, d)),
                    };
                },
                None => {},
            }
        }
        j = j + 1;
    }
    assert(es.subrange(0, es.len() as int) == es);
    match best {
        Some(b) => Some(b.0),
        None => None,
    }
}

/// Tag queries answer in increasing key order.
pub proof fn law_query_results_ascending(es: Seq<(NodeKey, Seq<Seq<char>>)>, tag: Seq<char>)
    requires
        tags_ordered(es),
    ensures
        forall|i: int, j: int| 0 <= i < j < keys_with_tag(es, tag).len()
            ==> (#[trigger] keys_with_tag(es, tag)[i]).0 < (#[trigger] keys_with_tag(es, tag)[j]).0,
        forall|i: int| 0 <= i < keys_with_tag(es, tag).len() ==> has_entry(es, #[trigger] keys_with_tag(es, tag)[i]),
    decreases es.len(),
{
    if es.len() > 0 {
        let p = es.drop_last();
        assert(tags_ordered(p)) by {
            assert forall|a: int, b: int| 0 <= a < b < p.len() implies (#[trigger] p[a]).0.0 < (#[trigger] p[b]).0.0 by {
                assert(p[a] == es[a] && p[b] == es[b]);
            }
            assert forall|a: int| 0 <= a < p.len() implies strictly_sorted(#[trigger] p[a].1) by {
                assert(p[a] == es[a]);
            }
        }
        law_query_results_ascending(p, tag);
        let qp = keys_with_tag(p, tag);
        let q = keys_with_tag(es, tag);
        assert forall|i: int| 0 <= i < qp.len() implies (#[trigger] qp[i]).0 < es.last().0.0 && has_entry(es, qp[i]) by {
            assert(has_entry(p, qp[i]));
            let j = choose|j: int| 0 <= j < p.len() && (#[trigger] p[j]).0 == qp[i];
            assert(es[j] == p[j]);
        }
        if es.last().1.contains(tag) {
            assert forall|a: int, b: int| 0 <= a < b < q.len() implies (#[trigger] q[a]).0 < (#[trigger] q[b]).0 by {
                if b == q.len() - 1 {
                    assert(q[a] == qp[a]);
                } else {
                    assert(q[a] == qp[a] && q[b] == qp[b]);
                }
            }
            assert forall|i: int| 0 <= i < q.len() implies has_entry(es, #[trigger] q[i]) by {
                if i < q.len() - 1 {
                    assert(q[i] == qp[i]);
                } else {
                    assert(es[es.len() - 1].0 == q[i]);
                }
            }
        }
    }
}

/// The tags of a node come back as a sorted set.
pub proof fn law_node_tags_sorted(es: Seq<(NodeKey, Seq<Seq<char>>)>, k: NodeKey)
    requires
        tags_ordered(es),
    ensures
        strictly_sorted(tags_of(es, k)),
{
    if has_entry(es, k) {
        let i = choose|i: int| 0 <= i < es.len() && (#[trigger] es[i]).0 == k;
        lemma_tags_of_at(es, i);
    } else {
        lemma_tags_of_absent(es, k);
    }
}

/// After a reconcile the index is up to date: reconciling again changes nothing
/// and reports no change.
pub proof fn law_reconcile_settles(
    a: SemanticWorkspace,
    b: SemanticWorkspace,
    c: SemanticWorkspace,
    r1: SemanticReconcileReport,
    r2: SemanticReconcileReport,
)
    requires
        reconcile_post(a, b, r1),
        reconcile_post(b, c, r2),
    ensures
        !r2.changed,
        r2.removed_stale_tags == 0,
        c.tag_entries() == b.tag_entries(),
        c.index_entries() == b.index_entries(),
{
}

/// A reconcile keeps tags only for nodes the graph holds.
pub proof fn law_reconcile_drops_stale_tags(old: SemanticWorkspace, new: SemanticWorkspace, r: SemanticReconcileReport)
    requires
        old.dirty(),
        reconcile_post(old, new, r),
    ensures
        forall|i: int| 0 <= i < new.tag_entries().len() ==> old.node_keys().contains(#[trigger] new.tag_entries()[i].0),
{
    lemma_retain_keys(old.tag_entries(), old.node_keys());
}

/// The workspace agrees with its graph and tags: tags only for nodes the
/// graph holds, and the index rebuilt from the tags.
pub open spec fn settled(ws: SemanticWorkspace) -> bool {
    &&& retain_nodes(ws.tag_entries(), ws.node_keys()) == ws.tag_entries()
    &&& ws.index_entries() == rebuilt_index(ws.tag_entries())
}

proof fn lemma_retain_all(es: Seq<(NodeKey, Seq<Seq<char>>)>, nodes: Seq<NodeKey>)
    requires
        forall|i: int| 0 <= i < es.len() ==> nodes.contains(#[trigger] es[i].0),
    ensures
        retain_nodes(es, nodes) == es,
    decreases es.len(),
{
    if es.len() > 0 {
        assert forall|i: int| 0 <= i < es.drop_last().len() implies nodes.contains(#[trigger] es.drop_last()[i].0) by {
            assert(es.drop_last()[i] == es[i]);
        }
        lemma_retain_all(es.drop_last(), nodes);
        assert(nodes.contains(es[es.len() - 1].0));
        assert(es.drop_last().push(es.last()) =~= es);
    }
}

proof fn lemma_retain_idempotent(es: Seq<(NodeKey, Seq<Seq<char>>)>, nodes: Seq<NodeKey>)
    ensures
        retain_nodes(retain_nodes(es, nodes), nodes) == retain_nodes(es, nodes),
{
    lemma_retain_keys(es, nodes);
    lemma_retain_all(retain_nodes(es, nodes), nodes);
}

proof fn lemma_retain_grow(es: Seq<(NodeKey, Seq<Seq<char>>)>, nodes: Seq<NodeKey>, key: NodeKey)
    requires
        retain_nodes(es, nodes) == es,
    ensures
        retain_nodes(es, nodes.push(key)) == es,
{
    lemma_retain_keys(es, nodes);
    assert forall|i: int| 0 <= i < es.len() implies nodes.push(key).contains(#[trigger] es[i].0) by {
        assert(nodes.contains(es[i].0));
        let j = choose|j: int| 0 <= j < nodes.len() && nodes[j] == es[i].0;
        assert(nodes.push(key)[j] == es[i].0);
    }
    lemma_retain_all(es, nodes.push(key));
}

/// Reconciling, marking the index out of date again and reconciling once more
/// changes nothing the second time, from any state a workspace can be in.
pub proof fn law_second_reconcile_changes_nothing(
    a: SemanticWorkspace,
    b: SemanticWorkspace,
    b2: SemanticWorkspace,
    c: SemanticWorkspace,
    r1: SemanticReconcileReport,
    r2: SemanticReconcileReport,
)
    requires
        !a.dirty() ==> settled(a),
        reconcile_post(a, b, r1),
        b2.dirty(),
        b2.node_keys() == b.node_keys(),
        b2.tag_entries() == b.tag_entries(),
        b2.index_entries() == b.index_entries(),
        reconcile_post(b2, c, r2),
    ensures
        !r2.changed,
        r2.removed_stale_tags == 0,
        r2.indexed_nodes == r1.indexed_nodes,
        c.tag_entries() == b.tag_entries(),
        c.index_entries() == b.index_entries(),
        !c.dirty(),
{
    if a.dirty() {
        lemma_retain_idempotent(a.tag_entries(), a.node_keys());
    }
}

proof fn lemma_retain_keys(es: Seq<(NodeKey, Seq<Seq<char>>)>, nodes: Seq<NodeKey>)
    ensures
        forall|i: int| 0 <= i < retain_nodes(es, nodes).len() ==> nodes.contains(#[trigger] retain_nodes(es, nodes)[i].0),
    decreases es.len(),
{
    if es.len() > 0 {
        lemma_retain_keys(es.drop_last(), nodes);
        let rp = retain_nodes(es.drop_last(), nodes);
        let r = retain_nodes(es, nodes);
        if nodes.contains(es.last().0) {
            assert forall|i: int| 0 <= i < r.len() implies nodes.contains(#[trigger] r[i].0) by {
                if i < r.len() - 1 {
                    assert(r[i] == rp[i]);
                }
            }
        }
    }
}

/// The suggested anchor is the nearest other comparable node, the smallest key
/// among equally near ones; there is none only where no other node is comparable.
pub proof fn law_anchor_is_nearest(es: Seq<(NodeKey, Seq<Seq<u8>>, Option<Seq<u8>>)>, key: NodeKey, src: Seq<Seq<u8>>)
    requires
        index_ordered(es),
    ensures
        match best_anchor(es, key, src) {
            Some(b) => {
                &&& b.0 != key
                &&& exists|i: int| 0 <= i < es.len() && (#[trigger] es[i]).0 == b.0 && vector_distance(src, es[i].1) == Some(b.1)
                &&& forall|i: int| 0 <= i < es.len() && (#[trigger] es[i]).0 != key ==> match vector_distance(src, es[i].1) {
                    Some(d) => b.1 <= d && (d == b.1 ==> b.0.0 <= es[i].0.0),
                    None => true,
                }
            },
            None => forall|i: int| 0 <= i < es.len() && (#[trigger] es[i]).0 != key ==> vector_distance(src, es[i].1) is None,
        },
    decreases es.len(),
{
    if es.len() > 0 {
        let p = es.drop_last();
        assert(index_ordered(p)) by {
            assert forall|a: int, b: int| 0 <= a < b < p.len() implies (#[trigger] p[a]).0.0 < (#[trigger] p[b]).0.0 by {
                assert(p[a] == es[a] && p[b] == es[b]);
            }
        }
        law_anchor_is_nearest(p, key, src);
        let last = es.last();
        assert(last == es[es.len() - 1]);
        assert forall|i: int| 0 <= i < p.len() implies (#[trigger] p[i]) == es[i] && p[i].0.0 < last.0.0 by {}
        match best_anchor(p, key, src) {
            Some(b) => {
                let w = choose|i: int| 0 <= i < p.len() && (#[trigger] p[i]).0 == b.0 && vector_distance(src, p[i].1) == Some(b.1);
                assert(es[w] == p[w]);
            },
            None => {},
        }
        match best_anchor(es, key, src) {
            Some(b) => {
                if b.0 == last.0 && last.0 != key {
                    assert(es[es.len() - 1].0 == b.0);
                }
                assert forall|i: int| 0 <= i < es.len() && (#[trigger] es[i]).0 != key implies match vector_distance(src, es[i].1) {
                    Some(d) => b.1 <= d && (d == b.1 ==> b.0.0 <= es[i].0.0),
                    None => true,
                } by {
                    if i < es.len() - 1 {
                        assert(p[i] == es[i]);
                    }
                }
            },
            None => {
                assert forall|i: int| 0 <= i < es.len() && (#[trigger] es[i]).0 != key implies vector_distance(src, es[i].1) is None by {
                    if i < es.len() - 1 {
                        assert(p[i] == es[i]);
                    }
                }
            },
        }
    }
}

proof fn lemma_row_distance(l: Seq<u8>, bs: Seq<Seq<u8>>)
    ensures
        row_distance(l, bs) is None <==> bs.len() == 0,
        row_distance(l, bs) matches Some(d) ==> {
            &&& forall|j: int| 0 <= j < bs.len() ==> d <= code_distance(l, #[trigger] bs[j])
            &&& exists|j: int| 0 <= j < bs.len() && d == code_distance(l, #[trigger] bs[j])
        },
    decreases bs.len(),
{
    if bs.len() > 0 {
        let p = bs.drop_last();
        lemma_row_distance(l, p);
        let last = code_distance(l, bs.last());
        assert(bs[bs.len() - 1] == bs.last());
        match row_distance(l, p) {
            Some(x) => {
                let d = if x <= last { x } else { last };
                assert forall|j: int| 0 <= j < bs.len() implies d <= code_distance(l, #[trigger] bs[j]) by {
                    if j < bs.len() - 1 {
                        assert(p[j] == bs[j]);
                    }
                }
                if x <= last {
                    let j = choose|j: int| 0 <= j < p.len() && x == code_distance(l, #[trigger] p[j]);
                    assert(p[j] == bs[j]);
                }
            },
            None => {},
        }
    }
}

/// The distance between two class vectors is the least code distance over
/// all pairs of their classes: no pair is nearer, some pair is that near, two
/// vectors that share a class are at distance 0, and there is none exactly
/// where either vector has no class.
pub proof fn law_vector_distance_is_least_pair(a: Seq<Seq<u8>>, b: Seq<Seq<u8>>)
    ensures
        vector_distance(a, b) is None <==> (a.len() == 0 || b.len() == 0),
        vector_distance(a, b) matches Some(d) ==> {
            &&& forall|i: int, j: int| 0 <= i < a.len() && 0 <= j < b.len() ==> d <= code_distance(#[trigger] a[i], #[trigger] b[j])
            &&& exists|i: int, j: int| 0 <= i < a.len() && 0 <= j < b.len() && d == code_distance(#[trigger] a[i], #[trigger] b[j])
        },
        (exists|i: int, j: int| 0 <= i < a.len() && 0 <= j < b.len() && #[trigger] a[i] == #[trigger] b[j])
            ==> vector_distance(a, b) == Some(0nat),
    decreases a.len(),
{
    if a.len() > 0 {
        let p = a.drop_last();
        law_vector_distance_is_least_pair(p, b);
        lemma_row_distance(a.last(), b);
        assert(a[a.len() - 1] == a.last());
        let prev = vector_distance(p, b);
        let row = row_distance(a.last(), b);
        if b.len() > 0 {
            let d = vector_distance(a, b)->0;
            assert forall|i: int, j: int| 0 <= i < a.len() && 0 <= j < b.len() implies d <= code_distance(#[trigger] a[i], #[trigger] b[j]) by {
                if i < a.len() - 1 {
                    assert(p[i] == a[i]);
                    assert(d <= prev->0);
                    assert(prev->0 <= code_distance(p[i], b[j]));
                } else {
                    assert(d <= row->0);
                    assert(row->0 <= code_distance(a.last(), b[j]));
                }
            }
            if prev is Some && prev->0 <= row->0 {
                let x = prev->0;
                let (i, j) = choose|i: int, j: int| 0 <= i < p.len() && 0 <= j < b.len() && x == code_distance(#[trigger] p[i], #[trigger] b[j]);
                assert(p[i] == a[i]);
                assert(d == code_distance(a[i], b[j]));
            } else {
                let j = choose|j: int| 0 <= j < b.len() && row->0 == code_distance(a.last(), #[trigger] b[j]);
                assert(d == code_distance(a[a.len() - 1], b[j]));
            }
            if exists|i: int, j: int| 0 <= i < a.len() && 0 <= j < b.len() && #[trigger] a[i] == #[trigger] b[j] {
                let (i, j) = choose|i: int, j: int| 0 <= i < a.len() && 0 <= j < b.len() && #[trigger] a[i] == #[trigger] b[j];
                let c = a[i];
                lemma_common_prefix(c, c, c.len() as int);
                assert(c.subrange(c.len() as int, c.len() as int) =~= Seq::<u8>::empty());
                assert(common_prefix_len(Seq::<u8>::empty(), Seq::<u8>::empty()) == 0);
                assert(code_distance(a[i], b[j]) == 0);
                assert(d <= code_distance(a[i], b[j]));
            }
        }
    }
}

proof fn lemma_parsed_codes(tags: Seq<Seq<char>>)
    ensures
        parsed_codes(tags).len() == tags.filter(|t: Seq<char>| parse_spec(t) is Some).len(),
        forall|i: int| 0 <= i < tags.len() && #[trigger] parse_spec(tags[i]) is Some
            ==> parsed_codes(tags).contains(parse_spec(tags[i])->0),
        forall|k: int| 0 <= k < parsed_codes(tags).len()
            ==> exists|i: int| 0 <= i < tags.len() && parse_spec(tags[i]) == Some(#[trigger] parsed_codes(tags)[k]),
        parsed_codes(tags).len() > 0 ==> exists|i0: int| 0 <= i0 < tags.len()
            && parse_spec(#[trigger] tags[i0]) == Some(parsed_codes(tags)[0])
            && forall|i: int| 0 <= i < i0 ==> parse_spec(#[trigger] tags[i]) is None,
    decreases tags.len(),
{
    reveal(Seq::filter);
    if tags.len() > 0 {
        let p = tags.drop_last();
        lemma_parsed_codes(p);
        let cp = parsed_codes(p);
        let c = parsed_codes(tags);
        assert(tags[tags.len() - 1] == tags.last());
        assert forall|i: int| 0 <= i < tags.len() && #[trigger] parse_spec(tags[i]) is Some
            implies c.contains(parse_spec(tags[i])->0) by {
            if i < tags.len() - 1 {
                assert(p[i] == tags[i]);
                let k = choose|k: int| 0 <= k < cp.len() && cp[k] == parse_spec(p[i])->0;
                assert(c[k] == cp[k]);
            } else {
                assert(c[c.len() - 1] == parse_spec(tags.last())->0);
            }
        }
        assert forall|k: int| 0 <= k < c.len()
            implies exists|i: int| 0 <= i < tags.len() && parse_spec(tags[i]) == Some(#[trigger] c[k]) by {
            if k < cp.len() {
                assert(c[k] == cp[k]);
                let i = choose|i: int| 0 <= i < p.len() && parse_spec(p[i]) == Some(cp[k]);
                assert(p[i] == tags[i]);
            } else {
                assert(parse_spec(tags[tags.len() - 1]) == Some(c[k]));
            }
        }
        if c.len() > 0 {
            if cp.len() > 0 {
                let i0 = choose|i0: int| 0 <= i0 < p.len()
                    && parse_spec(#[trigger] p[i0]) == Some(cp[0])
                    && forall|i: int| 0 <= i < i0 ==> parse_spec(#[trigger] p[i]) is None;
                assert(c[0] == cp[0]);
                assert(tags[i0] == p[i0]);
                assert forall|i: int| 0 <= i < i0 implies parse_spec(#[trigger] tags[i]) is None by {
                    assert(tags[i] == p[i]);
                }
            } else {
                let i0 = tags.len() - 1;
                assert forall|i: int| 0 <= i < i0 implies parse_spec(#[trigger] tags[i]) is None by {
                    assert(tags[i] == p[i]);
                    if parse_spec(p[i]) is Some {
                        assert(cp.contains(parse_spec(p[i])->0));
                    }
                }
                assert(parse_spec(tags[i0]) == Some(c[0]));
            }
        }
    }
}

/// Reconciling keeps every tag's code: the index rebuilt from tag entries
/// (each node once, in key order) gives a node whose tags hold a UDC code a
/// class vector that holds the code of each of its tags that parses, and
/// nothing else, one class per such tag, the first of them that of its first
/// tag that parses (its primary class);
/// a node none of whose tags parses gets none.
pub proof fn law_rebuilt_index_keeps_every_parsed_tag(es: Seq<(NodeKey, Seq<Seq<char>>)>, n: int)
    requires
        tags_ordered(es),
        0 <= n < es.len(),
    ensures
        ({
            let tags = es[n].1;
            let parseable = tags.filter(|t: Seq<char>| parse_spec(t) is Some);
            if parseable.len() == 0 {
                index_classes(rebuilt_index(es), es[n].0) is None
            } else {
                index_classes(rebuilt_index(es), es[n].0) matches Some(cs) && {
                    &&& cs.len() == parseable.len()
                    &&& forall|i: int| 0 <= i < tags.len() && #[trigger] parse_spec(tags[i]) is Some
                        ==> cs.contains(parse_spec(tags[i])->0)
                    &&& forall|k: int| 0 <= k < cs.len()
                        ==> exists|i: int| 0 <= i < tags.len() && parse_spec(tags[i]) == Some(#[trigger] cs[k])
                    &&& exists|i0: int| 0 <= i0 < tags.len() && parse_spec(#[trigger] tags[i0]) == Some(cs[0])
                        && forall|i: int| 0 <= i < i0 ==> parse_spec(#[trigger] tags[i]) is None
                }
            }
        }),
{
    lemma_parsed_codes(es[n].1);
    lemma_rebuilt_classes(es, n);
}

proof fn lemma_rebuilt_absent(es: Seq<(NodeKey, Seq<Seq<char>>)>, k: NodeKey)
    requires
        forall|i: int| 0 <= i < es.len() ==> (#[trigger] es[i]).0 != k,
    ensures
        index_classes(rebuilt_index(es), k) is None,
    decreases es.len(),
{
    if es.len() > 0 {
        let p = es.drop_last();
        assert forall|i: int| 0 <= i < p.len() implies (#[trigger] p[i]).0 != k by {
            assert(p[i] == es[i]);
        }
        assert(es[es.len() - 1] == es.last());
        lemma_rebuilt_absent(p, k);
        lemma_rebuilt_step(es);
    }
}

proof fn lemma_rebuilt_step(es: Seq<(NodeKey, Seq<Seq<char>>)>)
    requires
        es.len() > 0,
    ensures
        parsed_codes(es.last().1).len() == 0 ==> rebuilt_index(es) == rebuilt_index(es.drop_last()),
        parsed_codes(es.last().1).len() > 0 ==> {
            &&& rebuilt_index(es).len() > 0
            &&& rebuilt_index(es).drop_last() == rebuilt_index(es.drop_last())
            &&& rebuilt_index(es).last().0 == es.last().0
            &&& rebuilt_index(es).last().1 == parsed_codes(es.last().1)
        },
{
    let codes = parsed_codes(es.last().1);
    if codes.len() > 0 {
        let rp = rebuilt_index(es.drop_last());
        assert(rebuilt_index(es) == rp.push((es.last().0, codes, first_code(codes))));
        assert(rp.push((es.last().0, codes, first_code(codes))).drop_last() =~= rp);
    }
}

proof fn lemma_rebuilt_classes(es: Seq<(NodeKey, Seq<Seq<char>>)>, n: int)
    requires
        forall|i: int, j: int| 0 <= i < j < es.len() ==> (#[trigger] es[i]).0.0 < (#[trigger] es[j]).0.0,
        0 <= n < es.len(),
    ensures
        parsed_codes(es[n].1).len() == 0 ==> index_classes(rebuilt_index(es), es[n].0) is None,
        parsed_codes(es[n].1).len() > 0 ==> index_classes(rebuilt_index(es), es[n].0) == Some(parsed_codes(es[n].1)),
    decreases es.len(),
{
    let p = es.drop_last();
    assert(es[es.len() - 1] == es.last());
    lemma_rebuilt_step(es);
    if n == es.len() - 1 {
        assert forall|i: int| 0 <= i < p.len() implies (#[trigger] p[i]).0 != es[n].0 by {
            assert(p[i] == es[i]);
            assert(es[i].0.0 < es[n].0.0);
        }
        lemma_rebuilt_absent(p, es[n].0);
    } else {
        assert forall|i: int, j: int| 0 <= i < j < p.len() implies (#[trigger] p[i]).0.0 < (#[trigger] p[j]).0.0 by {
            assert(p[i] == es[i] && p[j] == es[j]);
        }
        assert(p[n] == es[n]);
        assert(es[n].0.0 < es.last().0.0);
        lemma_rebuilt_classes(p, n);
    }
}

/// After reconciling a workspace whose index was out of date, every node
/// that keeps tags has, in the index, one class per tag of it that parses as
/// a UDC code, holding each such code and no other, the first class being
/// the code of its first tag that parses; a node none of whose tags parses
/// has no entry.
pub proof fn law_reconcile_indexes_every_parsed_tag(
    old: SemanticWorkspace,
    new: SemanticWorkspace,
    r: SemanticReconcileReport,
    n: int,
)
    requires
        old.dirty(),
        tags_ordered(old.tag_entries()),
        reconcile_post(old, new, r),
        0 <= n < new.tag_entries().len(),
    ensures
        ({
            let tags = new.tag_entries()[n].1;
            let parseable = tags.filter(|t: Seq<char>| parse_spec(t) is Some);
            if parseable.len() == 0 {
                index_classes(new.index_entries(), new.tag_entries()[n].0) is None
            } else {
                index_classes(new.index_entries(), new.tag_entries()[n].0) matches Some(cs) && {
                    &&& cs.len() == parseable.len()
                    &&& forall|i: int| 0 <= i < tags.len() && #[trigger] parse_spec(tags[i]) is Some
                        ==> cs.contains(parse_spec(tags[i])->0)
                    &&& forall|k: int| 0 <= k < cs.len()
                        ==> exists|i: int| 0 <= i < tags.len() && parse_spec(tags[i]) == Some(#[trigger] cs[k])
                    &&& exists|i0: int| 0 <= i0 < tags.len() && parse_spec(#[trigger] tags[i0]) == Some(cs[0])
                        && forall|i: int| 0 <= i < i0 ==> parse_spec(#[trigger] tags[i]) is None
                }
            }
        }),
{
    lemma_retain_ordered(old.tag_entries(), old.node_keys());
    law_rebuilt_index_keeps_every_parsed_tag(new.tag_entries(), n);
}

} // verus!
