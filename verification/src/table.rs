//! A small string-keyed table: the registries' storage.

use vstd::prelude::*;
use crate::text::str_eq;

verus! {

pub struct Entry<V> {
    pub key: String,
    pub value: V,
}

/// Entries in insertion order, each key at most once.
pub struct Table<V> {
    entries: Vec<Entry<V>>,
}

pub open spec fn keys_unique<V>(s: Seq<Entry<V>>) -> bool {
    forall|i: int, j: int| 0 <= i < s.len() && 0 <= j < s.len() && i != j ==> s[i].key@ != s[j].key@
}

pub open spec fn seq_has_key<V>(s: Seq<Entry<V>>, k: Seq<char>) -> bool {
    exists|i: int| 0 <= i < s.len() && s[i].key@ == k
}

pub open spec fn seq_value_of<V>(s: Seq<Entry<V>>, k: Seq<char>) -> V {
    s[choose|i: int| 0 <= i < s.len() && s[i].key@ == k].value
}

/// The map that a sequence of entries with unique keys stands for.
pub open spec fn seq_map<V>(s: Seq<Entry<V>>) -> Map<Seq<char>, V> {
    Map::new(|k: Seq<char>| seq_has_key(s, k), |k: Seq<char>| seq_value_of(s, k))
}

pub proof fn lemma_value_at<V>(s: Seq<Entry<V>>, i: int)
    requires
        keys_unique(s),
        0 <= i < s.len(),
    ensures
        seq_map(s).dom().contains(s[i].key@),
        seq_map(s)[s[i].key@] == s[i].value,
{
    let k = s[i].key@;
    assert(seq_has_key(s, k));
    let j = choose|j: int| 0 <= j < s.len() && s[j].key@ == k;
    assert(j == i);
}

pub proof fn lemma_push<V>(s: Seq<Entry<V>>, e: Entry<V>)
    requires
        keys_unique(s),
        !seq_has_key(s, e.key@),
    ensures
        keys_unique(s.push(e)),
        seq_map(s.push(e)) =~= seq_map(s).insert(e.key@, e.value),
{
    let t = s.push(e);
    assert forall|i: int, j: int| 0 <= i < t.len() && 0 <= j < t.len() && i != j implies t[i].key@ != t[j].key@ by {
        if i == s.len() {
            assert(s[j].key@ == t[j].key@);
        } else if j == s.len() {
            assert(s[i].key@ == t[i].key@);
        }
    }
    assert forall|k: Seq<char>| #![trigger seq_map(t).dom().contains(k)] seq_map(t).dom().contains(k) == seq_map(s).insert(e.key@, e.value).dom().contains(k) by {
        if seq_has_key(s, k) {
            let i = choose|i: int| 0 <= i < s.len() && s[i].key@ == k;
            assert(t[i].key@ == k);
        }
        if k == e.key@ {
            assert(t[s.len() as int].key@ == k);
        }
    }
    assert forall|k: Seq<char>| #![trigger seq_map(t)[k]] seq_map(t).dom().contains(k) implies seq_map(t)[k] == seq_map(s).insert(e.key@, e.value)[k] by {
        let j = choose|j: int| 0 <= j < t.len() && t[j].key@ == k;
        if k == e.key@ {
            lemma_value_at(t, s.len() as int);
        } else {
            assert(j < s.len());
            lemma_value_at(t, j);
            lemma_value_at(s, j);
        }
    }
}

pub proof fn lemma_update<V>(s: Seq<Entry<V>>, i: int, e: Entry<V>)
    requires
        keys_unique(s),
        0 <= i < s.len(),
        s[i].key@ == e.key@,
    ensures
        keys_unique(s.update(i, e)),
        seq_map(s.update(i, e)) =~= seq_map(s).insert(e.key@, e.value),
{
    let t = s.update(i, e);
    assert forall|a: int, b: int| 0 <= a < t.len() && 0 <= b < t.len() && a != b implies t[a].key@ != t[b].key@ by {
        assert(s[a].key@ == t[a].key@);
        assert(s[b].key@ == t[b].key@);
    }
    assert forall|k: Seq<char>| #![trigger seq_map(t).dom().contains(k)] seq_map(t).dom().contains(k) == seq_map(s).insert(e.key@, e.value).dom().contains(k) by {
        if seq_has_key(s, k) {
            let j = choose|j: int| 0 <= j < s.len() && s[j].key@ == k;
            assert(t[j].key@ == k);
        }
        if seq_has_key(t, k) {
            let j = choose|j: int| 0 <= j < t.len() && t[j].key@ == k;
            assert(s[j].key@ == k);
        }
    }
    assert forall|k: Seq<char>| #![trigger seq_map(t)[k]] seq_map(t).dom().contains(k) implies seq_map(t)[k] == seq_map(s).insert(e.key@, e.value)[k] by {
        let j = choose|j: int| 0 <= j < t.len() && t[j].key@ == k;
        lemma_value_at(t, j);
        if j != i {
            lemma_value_at(s, j);
        }
    }
}

pub proof fn lemma_remove<V>(s: Seq<Entry<V>>, i: int)
    requires
        keys_unique(s),
        0 <= i < s.len(),
    ensures
        keys_unique(s.remove(i)),
        seq_map(s.remove(i)) =~= seq_map(s).remove(s[i].key@),
{
    let t = s.remove(i);
    let k0 = s[i].key@;
    assert forall|a: int, b: int| 0 <= a < t.len() && 0 <= b < t.len() && a != b implies t[a].key@ != t[b].key@ by {
        let a2 = if a < i { a } else { a + 1 };
        let b2 = if b < i { b } else { b + 1 };
        assert(t[a] == s[a2]);
        assert(t[b] == s[b2]);
    }
    assert forall|k: Seq<char>| #![trigger seq_map(t).dom().contains(k)] seq_map(t).dom().contains(k) == seq_map(s).remove(k0).dom().contains(k) by {
        if seq_has_key(s, k) && k != k0 {
            let j = choose|j: int| 0 <= j < s.len() && s[j].key@ == k;
            assert(j != i);
            let j2 = if j < i { j } else { j - 1 };
            assert(t[j2] == s[j]);
        }
        if seq_has_key(t, k) {
            let j = choose|j: int| 0 <= j < t.len() && t[j].key@ == k;
            let j2 = if j < i { j } else { j + 1 };
            assert(t[j] == s[j2]);
            assert(j2 != i);
        }
    }
    assert forall|k: Seq<char>| #![trigger seq_map(t)[k]] seq_map(t).dom().contains(k) implies seq_map(t)[k] == seq_map(s).remove(k0)[k] by {
        let j = choose|j: int| 0 <= j < t.len() && t[j].key@ == k;
        let j2 = if j < i { j } else { j + 1 };
        assert(t[j] == s[j2]);
        lemma_value_at(t, j);
        lemma_value_at(s, j2);
    }
}

impl<V> Table<V> {
    #[verifier::type_invariant]
    spec fn inv(self) -> bool {
        keys_unique(self.entries@)
    }

    pub closed spec fn view(&self) -> Map<Seq<char>, V> {
        seq_map(self.entries@)
    }

    /// The entries, in insertion order.
    pub closed spec fn entry_seq(&self) -> Seq<Entry<V>> {
        self.entries@
    }

    /// States what the table's invariant gives: the map is the entries' map.
    pub fn reveal_shape(&self)
        ensures
            self@ == seq_map(self.entry_seq()),
            keys_unique(self.entry_seq()),
            self@.dom().finite(),
            self@.len() == self.entry_seq().len(),
    {
        proof {
            use_type_invariant(self);
            lemma_map_finite(self.entries@);
        }
    }

    pub fn new() -> (t: Self)
        ensures
            t@ == Map::<Seq<char>, V>::empty(),
            t.entry_seq().len() == 0,
    {
        let t = Table { entries: Vec::new() };
        assert(t@ =~= Map::<Seq<char>, V>::empty());
        t
    }

    pub fn len(&self) -> (n: usize)
        ensures
            n == self.entry_seq().len(),
    {
        self.entries.len()
    }

    pub fn entries(&self) -> (r: &Vec<Entry<V>>)
        ensures
            r@ == self.entry_seq(),
    {
        &self.entries
    }

    pub fn index_of(&self, key: &str) -> (r: Option<usize>)
        ensures
            r matches Some(i) ==> i < self.entry_seq().len() && self.entry_seq()[i as int].key@ == key@
                && self@.dom().contains(key@) && self@[key@] == self.entry_seq()[i as int].value,
            r is None <==> !self@.dom().contains(key@),
    {
        proof {
            use_type_invariant(self);
        }
        let n = self.entries.len();
        let mut i: usize = 0;
        while i < n
            invariant
                n == self.entries@.len(),
                i <= n,
                keys_unique(self.entries@),
                forall|j: int| 0 <= j < i ==> self.entries@[j].key@ != key@,
            decreases n - i,
        {
            if str_eq(self.entries[i].key.as_str(), key) {
                proof {
                    lemma_value_at(self.entries@, i as int);
                }
                return Some(i);
            }
            i = i + 1;
        }
        None
    }

    pub fn contains(&self, key: &str) -> (r: bool)
        ensures
            r == self@.dom().contains(key@),
    {
        self.index_of(key).is_some()
    }

    pub fn get(&self, key: &str) -> (r: Option<&V>)
        ensures
            r is Some <==> self@.dom().contains(key@),
            r matches Some(v) ==> *v == self@[key@],
    {
        match self.index_of(key) {
            Some(i) => Some(&self.entries[i].value),
            None => None,
        }
    }

    /// Sets `key` to `value`; hands back the value it replaces.
    pub fn insert(&mut self, key: String, value: V) -> (r: Option<V>)
        ensures
            final(self)@ == old(self)@.insert(key@, value),
            r is Some <==> old(self)@.dom().contains(key@),
            r matches Some(v) ==> v == old(self)@[key@],
    {
        proof {
            use_type_invariant(&*self);
        }
        match self.index_of(key.as_str()) {
            Some(i) => {
                let ghost s = self.entries@;
                let e = Entry { key, value };
                proof {
                    lemma_update(s, i as int, e);
                }
                let mut entries: Vec<Entry<V>> = Vec::new();
                std::mem::swap(&mut entries, &mut self.entries);
                let old_entry = entries.remove(i);
                entries.insert(i, e);
                assert(entries@ =~= s.update(i as int, e));
                self.entries = entries;
                Some(old_entry.value)
            },
            None => {
                let ghost s = self.entries@;
                let e = Entry { key, value };
                proof {
                    lemma_push(s, e);
                }
                let mut entries: Vec<Entry<V>> = Vec::new();
                std::mem::swap(&mut entries, &mut self.entries);
                entries.push(e);
                self.entries = entries;
                None
            },
        }
    }

    /// Removes `key`; hands back its value.
    pub fn remove(&mut self, key: &str) -> (r: Option<V>)
        ensures
            final(self)@ == old(self)@.remove(key@),
            r is Some <==> old(self)@.dom().contains(key@),
            r matches Some(v) ==> v == old(self)@[key@],
    {
        proof {
            use_type_invariant(&*self);
        }
        match self.index_of(key) {
            Some(i) => {
                let ghost s = self.entries@;
                proof {
                    lemma_remove(s, i as int);
                }
                let mut entries: Vec<Entry<V>> = Vec::new();
                std::mem::swap(&mut entries, &mut self.entries);
                let old_entry = entries.remove(i);
                self.entries = entries;
                Some(old_entry.value)
            },
            None => {
                assert(old(self)@.remove(key@) =~= old(self)@);
                None
            },
        }
    }
}

pub proof fn lemma_map_finite<V>(s: Seq<Entry<V>>)
    requires
        keys_unique(s),
    ensures
        seq_map(s).dom().finite(),
        seq_map(s).len() == s.len(),
    decreases s.len(),
{
    if s.len() == 0 {
        assert(seq_map(s).dom() =~= Set::<Seq<char>>::empty());
    } else {
        let p = s.drop_last();
        assert(keys_unique(p)) by {
            assert forall|i: int, j: int| 0 <= i < p.len() && 0 <= j < p.len() && i != j implies p[i].key@ != p[j].key@ by {
                assert(p[i] == s[i] && p[j] == s[j]);
            }
        }
        lemma_map_finite(p);
        assert(!seq_has_key(p, s.last().key@)) by {
            if seq_has_key(p, s.last().key@) {
                let i = choose|i: int| 0 <= i < p.len() && p[i].key@ == s.last().key@;
                assert(p[i] == s[i]);
            }
        }
        lemma_push(p, s.last());
        assert(p.push(s.last()) == s);
    }
}

} // verus!
