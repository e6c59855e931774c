//! The search index registry: which search providers are registered, how their
//! results are ranked against each other, and which queries are semantic.

use vstd::prelude::*;
use crate::table::Table;
use crate::text::{
    lower, lower_seq, trim, trim_seq, join2, has_prefix, starts_with, str_eq, strs, strictly_sorted, insert_sorted, owned,
};

verus! {

pub const INDEX_PROVIDER_LOCAL: &'static str = "index:local";
pub const INDEX_PROVIDER_HISTORY: &'static str = "index:history";
pub const INDEX_PROVIDER_KNOWLEDGE: &'static str = "index:knowledge";

/// The built-in search providers.
#[derive(Debug, Clone, Copy, PartialEq, Eq, Structural)]
pub enum SearchProviderKind {
    Local,
    History,
    Knowledge,
}

pub open spec fn provider_kind_id(kind: SearchProviderKind) -> Seq<char> {
    match kind {
        SearchProviderKind::Local => INDEX_PROVIDER_LOCAL@,
        SearchProviderKind::History => INDEX_PROVIDER_HISTORY@,
        SearchProviderKind::Knowledge => INDEX_PROVIDER_KNOWLEDGE@,
    }
}

pub fn provider_id(kind: SearchProviderKind) -> (r: &'static str)
    ensures
        r@ == provider_kind_id(kind),
{
    match kind {
        SearchProviderKind::Local => INDEX_PROVIDER_LOCAL,
        SearchProviderKind::History => INDEX_PROVIDER_HISTORY,
        SearchProviderKind::Knowledge => INDEX_PROVIDER_KNOWLEDGE,
    }
}

pub fn provider_display_name(kind: SearchProviderKind) -> (r: &'static str)
    ensures
        r@ == match kind {
            SearchProviderKind::Local => "Local Graph"@,
            SearchProviderKind::History => "History"@,
            SearchProviderKind::Knowledge => "Knowledge"@,
        },
{
    match kind {
        SearchProviderKind::Local => "Local Graph",
        SearchProviderKind::History => "History",
        SearchProviderKind::Knowledge => "Knowledge",
    }
}

/// The rank of a provider's results among results of equal relevance.
pub open spec fn provider_sort_key_spec(id: Seq<char>) -> usize {
    if id == INDEX_PROVIDER_LOCAL@ {
        0
    } else if id == INDEX_PROVIDER_HISTORY@ {
        1
    } else if id == INDEX_PROVIDER_KNOWLEDGE@ {
        2
    } else {
        usize::MAX
    }
}

pub fn provider_sort_key(provider_id: &str) -> (r: usize)
    ensures
        r == provider_sort_key_spec(provider_id@),
{
    if str_eq(provider_id, INDEX_PROVIDER_LOCAL) {
        0
    } else if str_eq(provider_id, INDEX_PROVIDER_HISTORY) {
        1
    } else if str_eq(provider_id, INDEX_PROVIDER_KNOWLEDGE) {
        2
    } else {
        usize::MAX
    }
}

pub open spec fn semantic_query_char(c: char) -> bool {
    ('0' <= c && c <= '9') || c == '.' || c == ':' || c == '/'
}

/// Whether the local provider treats a (trimmed) query as a semantic one: a
/// hashtag, a UDC tag, or digits and separators only.
pub open spec fn semantic_query_spec(query: Seq<char>) -> bool {
    ||| (query.len() > 0 && query[0] == '#')
    ||| has_prefix(query, "udc:"@)
    ||| forall|i: int| 0 <= i < query.len() ==> semantic_query_char(#[trigger] query[i])
}

pub fn is_semantic_query(query: &str) -> (r: bool)
    ensures
        r == semantic_query_spec(query@),
{
    let n = query.unicode_len();
    if n > 0 && query.get_char(0) == '#' {
        return true;
    }
    if starts_with(query, "udc:") {
        return true;
    }
    let mut i: usize = 0;
    while i < n
        invariant
            n == query@.len(),
            i <= n,
            !(n > 0 && query@[0] == '#'),
            !has_prefix(query@, "udc:"@),
            forall|k: int| 0 <= k < i ==> semantic_query_char(#[trigger] query@[k]),
        decreases n - i,
    {
        let c = query.get_char(i);
        if !(('0' <= c && c <= '9') || c == '.' || c == ':' || c == '/') {
            assert(!semantic_query_char(query@[i as int]));
            return false;
        }
        i = i + 1;
    }
    true
}

/// How a query occurs in a searched text: the whole of it, at its start, or
/// somewhere inside it. Relevance is ranked in this order.
#[derive(Debug, Clone, Copy, PartialEq, Eq, Structural)]
pub enum TextMatch {
    Exact,
    Prefix,
    Contains,
}

/// Whether `p` occurs in `s` at index `i`.
pub open spec fn occurs_at(s: Seq<char>, p: Seq<char>, i: int) -> bool {
    0 <= i && i + p.len() <= s.len() && s.subrange(i, i + p.len()) == p
}

pub open spec fn has_substring(s: Seq<char>, p: Seq<char>) -> bool {
    exists|i: int| occurs_at(s, p, i)
}

/// How `query` occurs in `haystack`; an empty query matches nothing.
pub open spec fn text_match_spec(query: Seq<char>, haystack: Seq<char>) -> Option<TextMatch> {
    if query.len() == 0 {
        None
    } else if haystack == query {
        Some(TextMatch::Exact)
    } else if has_prefix(haystack, query) {
        Some(TextMatch::Prefix)
    } else if has_substring(haystack, query) {
        Some(TextMatch::Contains)
    } else {
        None
    }
}

fn occurs_at_exec(s: &str, p: &str, i: usize) -> (r: bool)
    requires
        i + p@.len() <= s@.len(),
    ensures
        r == occurs_at(s@, p@, i as int),
{
    let m = p.unicode_len();
    let n = s.unicode_len();
    let mut k: usize = 0;
    while k < m
        invariant
            m == p@.len(),
            n == s@.len(),
            i + m <= s@.len(),
            k <= m,
            forall|j: int| 0 <= j < k ==> s@[i + j] == p@[j],
        decreases m - k,
    {
        if s.get_char(i + k) != p.get_char(k) {
            assert(s@.subrange(i as int, i + m)[k as int] != p@[k as int]);
            return false;
        }
        k = k + 1;
    }
    assert(s@.subrange(i as int, i + m) =~= p@);
    true
}

/// Whether `p` occurs anywhere in `s`.
pub fn contains_substring(s: &str, p: &str) -> (r: bool)
    ensures
        r == has_substring(s@, p@),
{
    let n = s.unicode_len();
    let m = p.unicode_len();
    if m > n {
        assert forall|i: int| !occurs_at(s@, p@, i) by {}
        return false;
    }
    if m == 0 {
        assert(s@.subrange(0, 0) =~= p@);
        assert(occurs_at(s@, p@, 0));
        return true;
    }
    let mut i: usize = 0;
    while i <= n - m
        invariant
            n == s@.len(),
            m == p@.len(),
            1 <= m <= n,
            i <= n - m + 1,
            forall|j: int| 0 <= j < i ==> !occurs_at(s@, p@, j),
        decreases n - m + 1 - i,
    {
        if occurs_at_exec(s, p, i) {
            return true;
        }
        i = i + 1;
    }
    assert forall|j: int| !occurs_at(s@, p@, j) by {
        if 0 <= j && j < i {
        }
    }
    false
}

/// How a (normalised) query occurs in a (normalised) text, the match that a
/// provider's relevance is graded by.
pub fn text_match(query: &str, haystack: &str) -> (r: Option<TextMatch>)
    ensures
        r == text_match_spec(query@, haystack@),
{
    if query.unicode_len() == 0 {
        return None;
    }
    if str_eq(haystack, query) {
        return Some(TextMatch::Exact);
    }
    if starts_with(haystack, query) {
        return Some(TextMatch::Prefix);
    }
    if contains_substring(haystack, query) {
        return Some(TextMatch::Contains);
    }
    None
}

/// An exact or prefix match is a match inside the text too.
pub proof fn law_text_match_is_substring(query: Seq<char>, haystack: Seq<char>)
    ensures
        text_match_spec(query, haystack) is Some ==> has_substring(haystack, query),
{
    if text_match_spec(query, haystack) is Some && has_prefix(haystack, query) {
        assert(occurs_at(haystack, query, 0));
    }
    if text_match_spec(query, haystack) is Some && haystack == query {
        assert(haystack.subrange(0, query.len() as int) =~= query);
        assert(occurs_at(haystack, query, 0));
    }
}

/// The registered search providers, by lower-cased id.
pub struct IndexRegistry {
    providers: Table<SearchProviderKind>,
}

impl IndexRegistry {
    pub closed spec fn providers(&self) -> Map<Seq<char>, SearchProviderKind> {
        self.providers@
    }

    pub fn new() -> (r: Self)
        ensures
            r.providers() == Map::<Seq<char>, SearchProviderKind>::empty(),
    {
        IndexRegistry { providers: Table::new() }
    }

    /// Registers a provider under its lower-cased id; an id can be taken once.
    pub fn register_provider(&mut self, kind: SearchProviderKind) -> (r: Result<(), String>)
        ensures
            ({
                let id = lower_seq(provider_kind_id(kind));
                if old(self).providers().dom().contains(id) {
                    &&& r matches Err(e) && e@ == "search provider already registered: "@ + id
                    &&& final(self).providers() == old(self).providers()
                } else {
                    &&& r is Ok
                    &&& final(self).providers() == old(self).providers().insert(id, kind)
                }
            }),
    {
        let id = lower(provider_id(kind));
        if self.providers.contains(id.as_str()) {
            return Err(join2("search provider already registered: ", id.as_str()));
        }
        self.providers.insert(id, kind);
        Ok(())
    }

    /// Removes a provider; says whether it was registered.
    pub fn unregister_provider(&mut self, provider_id: &str) -> (r: bool)
        ensures
            r == old(self).providers().dom().contains(lower_seq(trim_seq(provider_id@))),
            final(self).providers() == old(self).providers().remove(lower_seq(trim_seq(provider_id@))),
    {
        let trimmed = trim(provider_id);
        let key = lower(trimmed.as_str());
        self.providers.remove(key.as_str()).is_some()
    }

    pub fn has_provider(&self, provider_id: &str) -> (r: bool)
        ensures
            r == self.providers().dom().contains(provider_id@),
    {
        self.providers.contains(provider_id)
    }

    /// Keeps the local provider only.
    pub fn clear_optional_providers(&mut self)
        ensures
            final(self).providers() == old(self).providers().restrict(set![INDEX_PROVIDER_LOCAL@]),
    {
        let mut kept: Table<SearchProviderKind> = Table::new();
        match self.providers.get(INDEX_PROVIDER_LOCAL) {
            Some(kind) => {
                kept.insert(crate::text::owned(INDEX_PROVIDER_LOCAL), *kind);
            },
            None => {},
        }
        self.providers = kept;
        assert(self.providers() =~= old(self).providers().restrict(set![INDEX_PROVIDER_LOCAL@]));
    }
}

impl Default for IndexRegistry {
    fn default() -> (r: Self)
        ensures
            r.providers() == map![
                lower_seq(INDEX_PROVIDER_LOCAL@) => SearchProviderKind::Local,
                lower_seq(INDEX_PROVIDER_HISTORY@) => SearchProviderKind::History,
                lower_seq(INDEX_PROVIDER_KNOWLEDGE@) => SearchProviderKind::Knowledge,
            ],
    {
        let mut r = IndexRegistry::new();
        proof {
            reveal_strlit("index:local");
            reveal_strlit("index:history");
            reveal_strlit("index:knowledge");
            assert(lower_seq(INDEX_PROVIDER_LOCAL@) != lower_seq(INDEX_PROVIDER_HISTORY@)) by {
                assert(lower_seq(INDEX_PROVIDER_LOCAL@)[6] != lower_seq(INDEX_PROVIDER_HISTORY@)[6]);
            }
            assert(lower_seq(INDEX_PROVIDER_LOCAL@) != lower_seq(INDEX_PROVIDER_KNOWLEDGE@)) by {
                assert(lower_seq(INDEX_PROVIDER_LOCAL@)[6] != lower_seq(INDEX_PROVIDER_KNOWLEDGE@)[6]);
            }
            assert(lower_seq(INDEX_PROVIDER_HISTORY@) != lower_seq(INDEX_PROVIDER_KNOWLEDGE@)) by {
                assert(lower_seq(INDEX_PROVIDER_HISTORY@)[6] != lower_seq(INDEX_PROVIDER_KNOWLEDGE@)[6]);
            }
        }
        let a = r.register_provider(SearchProviderKind::Local);
        let b = r.register_provider(SearchProviderKind::History);
        let c = r.register_provider(SearchProviderKind::Knowledge);
        r
    }
}

/// Texts joined by single spaces.
pub open spec fn space_joined(items: Seq<Seq<char>>) -> Seq<char>
    decreases items.len(),
{
    if items.len() == 0 {
        Seq::empty()
    } else if items.len() == 1 {
        items[0]
    } else {
        space_joined(items.drop_last()).push(' ') + items.last()
    }
}

fn join_spaces(items: &Vec<String>) -> (r: String)
    ensures
        r@ == space_joined(strs(items@)),
{
    let ghost views = strs(items@);
    let mut out = String::new();
    let mut i: usize = 0;
    while i < items.len()
        invariant
            i <= items@.len(),
            views == strs(items@),
            out@ == space_joined(views.subrange(0, i as int)),
        decreases items@.len() - i,
    {
        let ghost pre = views.subrange(0, i + 1);
        assert(pre.drop_last() == views.subrange(0, i as int));
        if i > 0 {
            out.push(' ');
        }
        out.append(items[i].as_str());
        proof {
            if i == 0 {
                assert(pre.len() == 1);
                assert(space_joined(views.subrange(0, 0)) == Seq::<char>::empty());
            }
        }
        assert(out@ =~= space_joined(pre));
        i = i + 1;
    }
    assert(views.subrange(0, items@.len() as int) == views);
    out
}

/// The text the local provider matches a semantic query against for a node:
/// its title, its URL and its tags in increasing order, each set apart by a
/// space.
pub open spec fn local_candidate_spec(title: Seq<char>, url: Seq<char>, sorted_tags: Seq<Seq<char>>) -> Seq<char> {
    title + " "@ + url + " "@ + space_joined(sorted_tags)
}

/// The candidate text of a node (see `local_candidate_spec`); its tags are
/// sorted, each once.
pub fn local_candidate_text(title: &str, url: &str, tags: &Vec<String>) -> (r: String)
    ensures
        exists|sorted: Seq<Seq<char>>| {
            &&& strictly_sorted(sorted)
            &&& forall|x: Seq<char>| #[trigger] sorted.contains(x) <==> strs(tags@).contains(x)
            &&& r@ == local_candidate_spec(title@, url@, sorted)
        },
{
    let mut sorted: Vec<String> = Vec::new();
    let mut i: usize = 0;
    while i < tags.len()
        invariant
            i <= tags@.len(),
            strictly_sorted(strs(sorted@)),
            forall|x: Seq<char>| #[trigger] strs(sorted@).contains(x) <==> strs(tags@).subrange(0, i as int).contains(x),
        decreases tags@.len() - i,
    {
        let ghost pre = strs(tags@).subrange(0, i as int);
        let ghost cur = strs(tags@).subrange(0, i + 1);
        assert(cur =~= pre.push(tags@[i as int]@));
        insert_sorted(&mut sorted, owned(tags[i].as_str()));
        proof {
            assert forall|x: Seq<char>| #[trigger] cur.contains(x) <==> (pre.contains(x) || x == tags@[i as int]@) by {
                if cur.contains(x) && x != tags@[i as int]@ {
                    let k = choose|k: int| 0 <= k < cur.len() && cur[k] == x;
                    assert(pre[k] == x);
                }
                if pre.contains(x) {
                    let k = choose|k: int| 0 <= k < pre.len() && pre[k] == x;
                    assert(cur[k] == x);
                }
                if x == tags@[i as int]@ {
                    assert(cur[i as int] == x);
                }
            }
        }
        i = i + 1;
    }
    assert(strs(tags@).subrange(0, tags@.len() as int) == strs(tags@));
    let mut out = join2(title, " ");
    out.append(url);
    out.append(" ");
    let joined = join_spaces(&sorted);
    out.append(joined.as_str());
    assert(out@ =~= local_candidate_spec(title@, url@, strs(sorted@)));
    out
}

/// The title a local result shows: the node's title, or its URL where the
/// title is blank.
pub fn local_result_title(title: &str, url: &str) -> (r: String)
    ensures
        r@ == (if trim_seq(title@).len() == 0 { url@ } else { title@ }),
{
    if trim(title).unicode_len() == 0 {
        owned(url)
    } else {
        owned(title)
    }
}

/// Where `key` first stands in `nodes`.
pub open spec fn first_position(nodes: Seq<crate::model::NodeKey>, key: crate::model::NodeKey) -> Option<int>
    decreases nodes.len(),
{
    if nodes.len() == 0 {
        None
    } else if nodes[0] == key {
        Some(0)
    } else {
        match first_position(nodes.drop_first(), key) {
            Some(i) => Some(i + 1),
            None => None,
        }
    }
}

/// The results the local provider shows for the first `k` matched keys: each
/// key the graph holds, with its rank among the matches and its node's place.
pub open spec fn local_picks_spec(nodes: Seq<crate::model::NodeKey>, matched: Seq<crate::model::NodeKey>, k: nat) -> Seq<(int, int)>
    decreases k,
{
    if k == 0 {
        Seq::empty()
    } else {
        let before = local_picks_spec(nodes, matched, (k - 1) as nat);
        match first_position(nodes, matched[k - 1]) {
            Some(j) => before.push(((k - 1) as int, j)),
            None => before,
        }
    }
}

fn position_of(nodes: &Vec<crate::model::NodeKey>, key: crate::model::NodeKey) -> (r: Option<usize>)
    ensures
        match r {
            Some(j) => first_position(nodes@, key) == Some(j as int),
            None => first_position(nodes@, key) is None,
        },
{
    let mut i: usize = 0;
    while i < nodes.len()
        invariant
            i <= nodes@.len(),
            forall|k: int| 0 <= k < i ==> nodes@[k] != key,
        decreases nodes@.len() - i,
    {
        if nodes[i].0 == key.0 {
            proof {
                lemma_first_position(nodes@, key, i as int);
            }
            return Some(i);
        }
        i = i + 1;
    }
    proof {
        lemma_first_position(nodes@, key, nodes@.len() as int);
    }
    None
}

proof fn lemma_first_position(nodes: Seq<crate::model::NodeKey>, key: crate::model::NodeKey, i: int)
    requires
        0 <= i <= nodes.len(),
        forall|k: int| 0 <= k < i ==> nodes[k] != key,
    ensures
        i < nodes.len() && nodes[i] == key ==> first_position(nodes, key) == Some(i),
        i == nodes.len() ==> first_position(nodes, key) is None,
    decreases i,
{
    if i > 0 {
        assert forall|k: int| 0 <= k < i - 1 implies nodes.drop_first()[k] != key by {
            assert(nodes.drop_first()[k] == nodes[k + 1]);
        }
        lemma_first_position(nodes.drop_first(), key, i - 1);
        if i < nodes.len() {
            assert(nodes.drop_first()[i - 1] == nodes[i]);
        }
    }
}

/// The local provider's picks among the keys a matcher ranked, best first:
/// the first `limit` matches, each the graph holds with its rank and its
/// node's place in `nodes` (see `local_picks_spec`).
pub fn local_result_picks(nodes: &Vec<crate::model::NodeKey>, matched: &Vec<crate::model::NodeKey>, limit: usize) -> (r: Vec<(usize, usize)>)
    ensures
        r@.map_values(|p: (usize, usize)| (p.0 as int, p.1 as int))
            == local_picks_spec(nodes@, matched@, if limit < matched@.len() { limit as nat } else { matched@.len() }),
{
    let n = if limit < matched.len() { limit } else { matched.len() };
    let mut out: Vec<(usize, usize)> = Vec::new();
    let mut i: usize = 0;
    while i < n
        invariant
            i <= n,
            n <= matched@.len(),
            out@.map_values(|p: (usize, usize)| (p.0 as int, p.1 as int)) == local_picks_spec(nodes@, matched@, i as nat),
        decreases n - i,
    {
        let ghost before = out@.map_values(|p: (usize, usize)| (p.0 as int, p.1 as int));
        if let Some(j) = position_of(nodes, matched[i]) {
            out.push((i, j));
            assert(out@.map_values(|p: (usize, usize)| (p.0 as int, p.1 as int)) =~= before.push((i as int, j as int)));
        }
        i = i + 1;
    }
    out
}

} // verus!
