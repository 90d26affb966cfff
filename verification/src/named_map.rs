//! An ordered map from names to values: it keeps insertion order and never
//! holds one name twice. JSON objects and handler registries are built on it.

use vstd::prelude::*;
use crate::text::str_eq;

verus! {

/// A map from names to values that keeps insertion order.
#[derive(Debug, PartialEq)]
pub struct NamedMap<V> {
    pub(crate) entries: Vec<(String, V)>,
}

/// No key occurs twice among the entries.
pub open spec fn keys_unique<V>(e: Seq<(String, V)>) -> bool {
    forall|i: int, j: int| 0 <= i < j < e.len() ==> e[i].0@ != e[j].0@
}

/// The map that a sequence of entries describes (a later entry wins).
pub open spec fn entries_map<V>(e: Seq<(String, V)>) -> Map<Seq<char>, V>
    decreases e.len(),
{
    if e.len() == 0 {
        Map::empty()
    } else {
        entries_map(e.drop_last()).insert(e.last().0@, e.last().1)
    }
}

/// The keys of a sequence of entries, in order.
pub open spec fn entry_keys<V>(e: Seq<(String, V)>) -> Seq<Seq<char>> {
    e.map_values(|p: (String, V)| p.0@)
}

proof fn lemma_entries_map_dom<V>(e: Seq<(String, V)>, k: Seq<char>)
    ensures
        entries_map(e).dom().contains(k) <==> exists|i: int| 0 <= i < e.len() && e[i].0@ == k,
    decreases e.len(),
{
    if e.len() > 0 {
        lemma_entries_map_dom(e.drop_last(), k);
        if entries_map(e).dom().contains(k) && k != e.last().0@ {
            let i = choose|i: int| 0 <= i < e.drop_last().len() && e.drop_last()[i].0@ == k;
            assert(e[i].0@ == k);
        }
        if exists|i: int| 0 <= i < e.len() && e[i].0@ == k {
            let i = choose|i: int| 0 <= i < e.len() && e[i].0@ == k;
            if i < e.len() - 1 {
                assert(e.drop_last()[i].0@ == k);
            }
        }
    }
}

proof fn lemma_entries_map_at<V>(e: Seq<(String, V)>, i: int)
    requires
        keys_unique(e),
        0 <= i < e.len(),
    ensures
        entries_map(e).dom().contains(e[i].0@),
        entries_map(e)[e[i].0@] == e[i].1,
    decreases e.len(),
{
    if i < e.len() - 1 {
        lemma_entries_map_at(e.drop_last(), i);
        assert(e.drop_last()[i] == e[i]);
    }
}

proof fn lemma_entries_map_update<V>(e: Seq<(String, V)>, i: int, x: (String, V))
    requires
        keys_unique(e),
        0 <= i < e.len(),
        x.0@ == e[i].0@,
    ensures
        entries_map(e.update(i, x)) == entries_map(e).insert(x.0@, x.1),
    decreases e.len(),
{
    let u = e.update(i, x);
    if i == e.len() - 1 {
        assert(u.drop_last() =~= e.drop_last());
        assert(entries_map(u) =~= entries_map(e).insert(x.0@, x.1));
    } else {
        assert(u.drop_last() =~= e.drop_last().update(i, x));
        lemma_entries_map_update(e.drop_last(), i, x);
        assert(e.last().0@ != x.0@);
        assert(entries_map(u) =~= entries_map(e).insert(x.0@, x.1));
    }
}

impl<V> NamedMap<V> {
    #[verifier::type_invariant]
    pub(crate) open spec fn inv(self) -> bool {
        keys_unique(self.entries@)
    }

    /// The name/value map this holds.
    pub open spec fn map(self) -> Map<Seq<char>, V> {
        entries_map(self.entry_seq())
    }

    /// The keys in insertion order.
    pub open spec fn keys(self) -> Seq<Seq<char>> {
        entry_keys(self.entry_seq())
    }

    /// The entries in insertion order.
    pub closed spec fn entry_seq(self) -> Seq<(String, V)> {
        self.entries@
    }

    /// The entries are the field's contents.
    pub(crate) proof fn lemma_entry_seq(&self)
        ensures
            self.entry_seq() == self.entries@,
    {
    }

    /// An empty map.
    pub fn new() -> (m: Self)
        ensures
            m.map() == Map::<Seq<char>, V>::empty(),
            m.keys() == Seq::<Seq<char>>::empty(),
    {
        let m = NamedMap { entries: Vec::new() };
        assert(m.keys() =~= Seq::<Seq<char>>::empty());
        m
    }

    /// The number of entries.
    pub fn len(&self) -> (n: usize)
        ensures
            n == self.keys().len(),
            n == self.map().dom().len(),
    {
        proof {
            use_type_invariant(self);
            self.lemma_dom_len();
        }
        self.entries.len()
    }

    proof fn lemma_dom_len(&self)
        requires
            keys_unique(self.entries@),
        ensures
            self.map().dom().finite(),
            self.map().dom().len() == self.entries@.len(),
    {
        lemma_dom_len_of(self.entries@);
    }

    /// The entries, in insertion order.
    pub fn entries(&self) -> (e: &Vec<(String, V)>)
        ensures
            e@ == self.entry_seq(),
            keys_unique(e@),
    {
        proof {
            use_type_invariant(self);
        }
        &self.entries
    }

    fn find(&self, key: &str) -> (r: Option<usize>)
        ensures
            match r {
                Some(i) => i < self.entries@.len() && self.entries@[i as int].0@ == key@,
                None => forall|i: int| 0 <= i < self.entries@.len() ==> self.entries@[i].0@ != key@,
            },
    {
        let mut i: usize = 0;
        while i < self.entries.len()
            invariant
                i <= self.entries@.len(),
                forall|j: int| 0 <= j < i ==> self.entries@[j].0@ != key@,
            decreases self.entries@.len() - i,
        {
            if str_eq(self.entries[i].0.as_str(), key) {
                return Some(i);
            }
            i = i + 1;
        }
        None
    }

    /// Whether there is an entry for `key`.
    pub fn contains_key(&self, key: &str) -> (b: bool)
        ensures
            b == self.map().dom().contains(key@),
    {
        let r = self.find(key);
        proof {
            lemma_entries_map_dom(self.entries@, key@);
        }
        r.is_some()
    }

    /// The value stored under `key`, if any.
    pub fn get(&self, key: &str) -> (r: Option<&V>)
        ensures
            match r {
                Some(v) => self.map().dom().contains(key@) && self.map()[key@] == *v,
                None => !self.map().dom().contains(key@),
            },
    {
        proof {
            use_type_invariant(self);
            lemma_entries_map_dom(self.entries@, key@);
        }
        match self.find(key) {
            Some(i) => {
                proof {
                    lemma_entries_map_at(self.entries@, i as int);
                }
                Some(&self.entries[i].1)
            },
            None => None,
        }
    }

    /// Stores `value` under `key`: an existing entry keeps its place and takes the
    /// new value; a new key goes last. Returns the value it replaced.
    pub fn insert(&mut self, key: String, value: V) -> (old_value: Option<V>)
        ensures
            final(self).map() == old(self).map().insert(key@, value),
            old_value == (if old(self).map().dom().contains(key@) {
                Some(old(self).map()[key@])
            } else {
                None
            }),
            old(self).map().dom().contains(key@) ==> final(self).keys() == old(self).keys(),
            !old(self).map().dom().contains(key@) ==> final(self).keys() == old(self).keys().push(key@),
    {
        proof {
            use_type_invariant(&*self);
            lemma_entries_map_dom(self.entries@, key@);
        }
        let ghost old_entries = self.entries@;
        match self.find(key.as_str()) {
            Some(i) => {
                proof {
                    lemma_entries_map_at(old_entries, i as int);
                    lemma_entries_map_update(old_entries, i as int, (key, value));
                }
                let mut entries = Vec::new();
                std::mem::swap(&mut entries, &mut self.entries);
                let old_pair = entries.remove(i);
                entries.insert(i, (key, value));
                proof {
                    assert(entries@ =~= old_entries.update(i as int, (key, value)));
                    assert(keys_unique(entries@));
                    assert(entry_keys(entries@) =~= entry_keys(old_entries));
                }
                self.entries = entries;
                Some(old_pair.1)
            },
            None => {
                let mut entries = Vec::new();
                std::mem::swap(&mut entries, &mut self.entries);
                entries.push((key, value));
                proof {
                    assert(entries@ =~= old_entries.push((key, value)));
                    assert(entries@.drop_last() =~= old_entries);
                    assert(keys_unique(entries@));
                    assert(entry_keys(entries@) =~= entry_keys(old_entries).push(key@));
                }
                self.entries = entries;
                None
            },
        }
    }
}

proof fn lemma_dom_len_of<V>(e: Seq<(String, V)>)
    requires
        keys_unique(e),
    ensures
        entries_map(e).dom().finite(),
        entries_map(e).dom().len() == e.len(),
    decreases e.len(),
{
    if e.len() > 0 {
        let d = e.drop_last();
        assert(keys_unique(d));
        lemma_dom_len_of(d);
        lemma_entries_map_dom(d, e.last().0@);
        if entries_map(d).dom().contains(e.last().0@) {
            let i = choose|i: int| 0 <= i < d.len() && d[i].0@ == e.last().0@;
            assert(e[i].0@ == e[e.len() - 1].0@);
        }
    }
}


impl<V> NamedMap<V> {
    /// The names, in insertion order; each occurs once, and they are the
    /// names the map holds.
    pub fn names(&self) -> (r: Vec<String>)
        ensures
            r@.map_values(|s: String| s@) == self.keys(),
            self.keys().no_duplicates(),
            forall|k: Seq<char>| self.map().dom().contains(k) <==> #[trigger] self.keys().contains(k),
    {
        proof {
            use_type_invariant(self);
        }
        let mut r: Vec<String> = Vec::new();
        let mut i: usize = 0;
        while i < self.entries.len()
            invariant
                i <= self.entries@.len(),
                r@.map_values(|s: String| s@) == entry_keys(self.entries@).take(i as int),
            decreases self.entries@.len() - i,
        {
            let ghost before = r@;
            let name = self.entries[i].0.clone();
            r.push(name);
            assert(r@ =~= before.push(name));
            assert(r@.map_values(|s: String| s@) =~= before.map_values(|s: String| s@).push(name@));
            assert(entry_keys(self.entries@).take(i + 1) =~= entry_keys(self.entries@).take(
                i as int,
            ).push(self.entries@[i as int].0@));
            assert(r@.map_values(|s: String| s@) =~= entry_keys(self.entries@).take(i + 1));
            i = i + 1;
        }
        proof {
            let ks = entry_keys(self.entries@);
            assert(ks.take(ks.len() as int) =~= ks);
            assert forall|k: Seq<char>| self.map().dom().contains(k) <==> #[trigger] ks.contains(k) by {
                lemma_entries_map_dom(self.entries@, k);
                if ks.contains(k) {
                    let j = choose|j: int| 0 <= j < ks.len() && ks[j] == k;
                    assert(self.entries@[j].0@ == k);
                }
                if self.map().dom().contains(k) {
                    let j = choose|j: int| 0 <= j < self.entries@.len() && self.entries@[j].0@ == k;
                    assert(ks[j] == k);
                }
            }
        }
        r
    }

    /// The entries, in insertion order, taken out of the map.
    pub fn into_entries(self) -> (r: Vec<(String, V)>)
        ensures
            r@ == self.entry_seq(),
            keys_unique(r@),
            entries_map(r@) == self.map(),
    {
        proof {
            use_type_invariant(&self);
        }
        self.entries
    }

    /// Stores every entry of `other` in this map, in `other`'s order, so that
    /// on a name both hold, `other`'s value wins.
    pub fn extend(&mut self, other: NamedMap<V>)
        ensures
            final(self).map() == old(self).map().union_prefer_right(other.map()),
    {
        let ghost start = self.map();
        let mut rest = other.into_entries();
        let ghost all = rest@;
        let total = rest.len();
        let mut i: usize = 0;
        assert(entries_map(all.take(0)) =~= Map::<Seq<char>, V>::empty());
        assert(start.union_prefer_right(Map::<Seq<char>, V>::empty()) =~= start);
        while rest.len() > 0
            invariant
                i + rest@.len() == all.len(),
                all.len() == total,
                rest@ == all.skip(i as int),
                self.map() == start.union_prefer_right(entries_map(all.take(i as int))),
            decreases rest@.len(),
        {
            let (name, value) = rest.remove(0);
            proof {
                assert(all[i as int] == (name, value));
                let t = all.take(i + 1);
                assert(t.drop_last() =~= all.take(i as int));
                assert(t.last() == (name, value));
                assert(start.union_prefer_right(entries_map(t)) =~= start.union_prefer_right(
                    entries_map(all.take(i as int)),
                ).insert(name@, value));
            }
            self.insert(name, value);
            proof {
                assert(rest@ =~= all.skip(i + 1));
            }
            i = i + 1;
        }
        assert(all.take(all.len() as int) =~= all);
    }
}

} // verus!
