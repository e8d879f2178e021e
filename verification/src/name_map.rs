use vstd::prelude::*;

use crate::text::text_eq;

verus! {

/// The keys of an association list, in order.
pub open spec fn keys_of<T>(s: Seq<(Seq<char>, T)>) -> Seq<Seq<char>> {
    s.map_values(|e: (Seq<char>, T)| e.0)
}

/// No key occurs twice.
pub open spec fn unique_keys<T>(s: Seq<(Seq<char>, T)>) -> bool {
    forall|i: int, j: int|
        0 <= i < s.len() && 0 <= j < s.len() && i != j ==> #[trigger] s[i].0 != #[trigger] s[j].0
}

pub open spec fn has_key<T>(s: Seq<(Seq<char>, T)>, k: Seq<char>) -> bool {
    exists|i: int| 0 <= i < s.len() && #[trigger] s[i].0 == k
}

/// Where `k` stands in the list (meaningful when `has_key(s, k)`).
pub open spec fn key_index<T>(s: Seq<(Seq<char>, T)>, k: Seq<char>) -> int {
    choose|i: int| 0 <= i < s.len() && #[trigger] s[i].0 == k
}

/// The value stored under `k` (meaningful when `has_key(s, k)`).
pub open spec fn value_of<T>(s: Seq<(Seq<char>, T)>, k: Seq<char>) -> T {
    s[key_index(s, k)].1
}

/// The list after `insert(k, v)`: the value under `k` replaced in place, or
/// the pair appended when `k` is new.
pub open spec fn with_entry<T>(s: Seq<(Seq<char>, T)>, k: Seq<char>, v: T) -> Seq<(Seq<char>, T)> {
    if has_key(s, k) {
        s.update(key_index(s, k), (k, v))
    } else {
        s.push((k, v))
    }
}

pub proof fn lemma_key_index_unique<T>(s: Seq<(Seq<char>, T)>, i: int)
    requires
        unique_keys(s),
        0 <= i < s.len(),
    ensures
        has_key(s, s[i].0),
        key_index(s, s[i].0) == i,
        value_of(s, s[i].0) == s[i].1,
{
    assert(s[i].0 == s[i].0);
}

pub proof fn lemma_with_entry<T>(s: Seq<(Seq<char>, T)>, k: Seq<char>, v: T)
    requires
        unique_keys(s),
    ensures
        unique_keys(with_entry(s, k, v)),
        has_key(with_entry(s, k, v), k),
        value_of(with_entry(s, k, v), k) == v,
        forall|j: Seq<char>| j != k ==> (has_key(with_entry(s, k, v), j) == has_key(s, j)),
        forall|j: Seq<char>|
            j != k && has_key(s, j) ==> value_of(with_entry(s, k, v), j) == value_of(s, j),
{
    let r = with_entry(s, k, v);
    if has_key(s, k) {
        let p = key_index(s, k);
        assert forall|j: Seq<char>| j != k implies (has_key(r, j) == has_key(s, j)) by {
            if has_key(s, j) {
                let q = key_index(s, j);
                assert(r[q].0 == j);
            }
            if has_key(r, j) {
                let q = key_index(r, j);
                assert(s[q].0 == j);
            }
        }
        assert forall|j: Seq<char>| j != k && has_key(s, j) implies value_of(r, j) == value_of(
            s,
            j,
        ) by {
            let q = key_index(s, j);
            assert(r[q].0 == j);
            lemma_key_index_unique(r, q);
        }
        assert(r[p].0 == k);
        lemma_key_index_unique(r, p);
    } else {
        let n = s.len() as int;
        assert forall|j: Seq<char>| j != k implies (has_key(r, j) == has_key(s, j)) by {
            if has_key(s, j) {
                let q = key_index(s, j);
                assert(r[q].0 == j);
            }
            if has_key(r, j) {
                let q = key_index(r, j);
                assert(s[q].0 == j);
            }
        }
        assert forall|j: Seq<char>| j != k && has_key(s, j) implies value_of(r, j) == value_of(
            s,
            j,
        ) by {
            let q = key_index(s, j);
            assert(r[q].0 == j);
            lemma_key_index_unique(r, q);
        }
        assert(r[n].0 == k);
        lemma_key_index_unique(r, n);
    }
}

/// A map from names to values that keeps the order in which names were first
/// inserted. It stands where a hash map keyed by `String` would stand; that
/// map's order of iteration is unspecified, and this one's is insertion order.
#[derive(Debug)]
pub struct NameMap<V> {
    entries: Vec<(String, V)>,
}

impl<V: View> View for NameMap<V> {
    type V = Seq<(Seq<char>, V::V)>;

    closed spec fn view(&self) -> Seq<(Seq<char>, V::V)> {
        self.entries@.map_values(|e: (String, V)| (e.0@, e.1@))
    }
}

impl<V: View> NameMap<V> {
    /// Each name occurs once.
    pub open spec fn wf(&self) -> bool {
        unique_keys(self@)
    }

    /// An empty map.
    pub fn new() -> (r: Self)
        ensures
            r@ == Seq::<(Seq<char>, V::V)>::empty(),
            r.wf(),
    {
        let r = NameMap { entries: Vec::new() };
        assert(r@ =~= Seq::<(Seq<char>, V::V)>::empty());
        r
    }

    /// The number of entries.
    pub fn len(&self) -> (n: usize)
        ensures
            n == self@.len(),
    {
        self.entries.len()
    }

    /// The name of entry `i`.
    pub fn key_at(&self, i: usize) -> (k: &String)
        requires
            i < self@.len(),
        ensures
            k@ == self@[i as int].0,
    {
        &self.entries[i].0
    }

    /// The value of entry `i`.
    pub fn value_at(&self, i: usize) -> (v: &V)
        requires
            i < self@.len(),
        ensures
            v@ == self@[i as int].1,
    {
        &self.entries[i].1
    }

    /// Where `k` stands, if it is present.
    pub fn find(&self, k: &str) -> (r: Option<usize>)
        ensures
            r is Some <==> has_key(self@, k@),
            r matches Some(i) ==> i < self@.len() && self@[i as int].0 == k@ && (self.wf()
                ==> i == key_index(self@, k@)),
    {
        let mut i: usize = 0;
        while i < self.entries.len()
            invariant
                i <= self.entries@.len(),
                forall|j: int| 0 <= j < i ==> self@[j].0 != k@,
            decreases self.entries@.len() - i,
        {
            if text_eq(self.entries[i].0.as_str(), k) {
                proof {
                    if self.wf() {
                        lemma_key_index_unique(self@, i as int);
                    }
                }
                return Some(i);
            }
            i = i + 1;
        }
        None
    }

    /// Whether `k` is present.
    pub fn contains_key(&self, k: &str) -> (b: bool)
        ensures
            b == has_key(self@, k@),
    {
        self.find(k).is_some()
    }

    /// The value stored under `k`.
    pub fn get(&self, k: &str) -> (r: Option<&V>)
        requires
            self.wf(),
        ensures
            r is Some <==> has_key(self@, k@),
            r matches Some(v) ==> v@ == value_of(self@, k@),
    {
        match self.find(k) {
            Some(i) => Some(&self.entries[i].1),
            None => None,
        }
    }

    /// Stores `v` under `k`, replacing the value already there.
    pub fn insert(&mut self, k: String, v: V)
        requires
            old(self).wf(),
        ensures
            final(self)@ == with_entry(old(self)@, k@, v@),
            final(self).wf(),
    {
        proof {
            lemma_with_entry(old(self)@, k@, v@);
        }
        match self.find(k.as_str()) {
            Some(i) => {
                let ghost before = self.entries@;
                self.entries.set(i, (k, v));
                assert(self@ =~= with_entry(old(self)@, k@, v@));
            },
            None => {
                self.entries.push((k, v));
                assert(self@ =~= with_entry(old(self)@, k@, v@));
            },
        }
    }

    /// Puts `v` in place of the value of entry `i` and hands back the old one.
    pub fn replace_at(&mut self, i: usize, v: V) -> (prev: V)
        requires
            i < old(self)@.len(),
        ensures
            prev@ == old(self)@[i as int].1,
            final(self)@ == old(self)@.update(i as int, (old(self)@[i as int].0, v@)),
            keys_of(final(self)@) == keys_of(old(self)@),
            old(self).wf() ==> final(self).wf(),
    {
        let (k, prev) = self.entries.remove(i);
        self.entries.insert(i, (k, v));
        assert(self@ =~= old(self)@.update(i as int, (old(self)@[i as int].0, v@)));
        assert(keys_of(self@) =~= keys_of(old(self)@));
        prev
    }
}

} // verus!
