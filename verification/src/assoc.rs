//! A small map that keeps its entries in a vector.
//!
//! The ledger looks accounts up by address, an account looks tokens up by
//! identifier, and a token looks instances up by nonce. All three maps are
//! small, so they are association lists: a vector of entries in which no key
//! occurs twice. The view of a list is the `Map` from the views of its keys to
//! the views of its values.

use vstd::prelude::*;

verus! {

/// A value that can be copied, the copy having the same view.
pub trait DeepClone: View + Sized {
    fn deep_clone(&self) -> (r: Self)
        ensures
            r@ == self@,
    ;
}

/// A value that can serve as the key of an [`AssocList`].
pub trait Key: DeepClone {
    /// Tells whether the two keys have the same view.
    fn same(&self, other: &Self) -> (r: bool)
        ensures
            r == (self@ == other@),
    ;
}

/// Tells whether the two byte strings are equal.
pub fn bytes_eq(a: &[u8], b: &[u8]) -> (r: bool)
    ensures
        r == (a@ == b@),
{
    if a.len() != b.len() {
        return false;
    }
    let n = a.len();
    let mut i: usize = 0;
    while i < n
        invariant
            n == a@.len(),
            n == b@.len(),
            i <= n,
            forall|j: int| 0 <= j < i ==> a@[j] == b@[j],
        decreases n - i,
    {
        if a[i] != b[i] {
            return false;
        }
        i = i + 1;
    }
    assert(a@ =~= b@);
    true
}

impl DeepClone for Vec<u8> {
    fn deep_clone(&self) -> (r: Self) {
        self.clone()
    }
}

impl Key for Vec<u8> {
    fn same(&self, other: &Self) -> (r: bool) {
        bytes_eq(self.as_slice(), other.as_slice())
    }
}

impl DeepClone for u64 {
    fn deep_clone(&self) -> (r: Self) {
        *self
    }
}

impl Key for u64 {
    fn same(&self, other: &Self) -> (r: bool) {
        *self == *other
    }
}

/// One key of a list with the value that belongs to it.
pub struct Entry<K, V> {
    pub key: K,
    pub value: V,
}

/// The map that a sequence of entries stands for; where a key occurs twice,
/// the later entry counts.
pub open spec fn to_map<K: View, V: View>(entries: Seq<Entry<K, V>>) -> Map<K::V, V::V>
    decreases entries.len(),
{
    if entries.len() == 0 {
        Map::empty()
    } else {
        to_map(entries.drop_last()).insert(entries.last().key@, entries.last().value@)
    }
}

/// Tells whether no key occurs twice in `entries`.
pub open spec fn distinct_keys<K: View, V: View>(entries: Seq<Entry<K, V>>) -> bool {
    forall|i: int, j: int|
        0 <= i < j < entries.len() ==> (#[trigger] entries[i]).key@ != (#[trigger] entries[j]).key@
}

/// The keys of the map are the keys of the entries.
pub proof fn lemma_to_map_dom<K: View, V: View>(entries: Seq<Entry<K, V>>, k: K::V)
    ensures
        to_map(entries).dom().contains(k) <==> exists|i: int|
            0 <= i < entries.len() && (#[trigger] entries[i]).key@ == k,
    decreases entries.len(),
{
    if entries.len() > 0 {
        let front = entries.drop_last();
        lemma_to_map_dom(front, k);
        if to_map(entries).dom().contains(k) {
            if entries.last().key@ == k {
                assert(entries[entries.len() - 1].key@ == k);
            } else {
                let i = choose|i: int| 0 <= i < front.len() && (#[trigger] front[i]).key@ == k;
                assert(entries[i].key@ == k);
            }
        }
        if exists|i: int| 0 <= i < entries.len() && (#[trigger] entries[i]).key@ == k {
            let i = choose|i: int| 0 <= i < entries.len() && (#[trigger] entries[i]).key@ == k;
            if i < entries.len() - 1 {
                assert(front[i].key@ == k);
            }
        }
    }
}

/// Where no key occurs twice, each entry's value is the map's value at its key.
pub proof fn lemma_to_map_at<K: View, V: View>(entries: Seq<Entry<K, V>>, i: int)
    requires
        distinct_keys(entries),
        0 <= i < entries.len(),
    ensures
        to_map(entries).dom().contains(entries[i].key@),
        to_map(entries)[entries[i].key@] == entries[i].value@,
    decreases entries.len(),
{
    let front = entries.drop_last();
    if i < entries.len() - 1 {
        assert(distinct_keys(front)) by {
            assert forall|a: int, b: int| 0 <= a < b < front.len() implies (#[trigger] front[a]).key@
                != (#[trigger] front[b]).key@ by {
                assert(entries[a].key@ != entries[b].key@);
            }
        }
        lemma_to_map_at(front, i);
        assert(entries[i].key@ != entries[entries.len() - 1].key@);
    }
}

/// Where no key occurs twice, taking an entry out removes its key from the map.
pub proof fn lemma_to_map_remove<K: View, V: View>(entries: Seq<Entry<K, V>>, i: int)
    requires
        distinct_keys(entries),
        0 <= i < entries.len(),
    ensures
        distinct_keys(entries.remove(i)),
        to_map(entries.remove(i)) == to_map(entries).remove(entries[i].key@),
    decreases entries.len(),
{
    let k = entries[i].key@;
    let rest = entries.remove(i);
    let front = entries.drop_last();
    assert(distinct_keys(rest)) by {
        assert forall|a: int, b: int| 0 <= a < b < rest.len() implies (#[trigger] rest[a]).key@
            != (#[trigger] rest[b]).key@ by {
            let a0 = if a < i {
                a
            } else {
                a + 1
            };
            let b0 = if b < i {
                b
            } else {
                b + 1
            };
            assert(entries[a0].key@ != entries[b0].key@);
        }
    }
    assert(distinct_keys(front)) by {
        assert forall|a: int, b: int| 0 <= a < b < front.len() implies (#[trigger] front[a]).key@
            != (#[trigger] front[b]).key@ by {
            assert(entries[a].key@ != entries[b].key@);
        }
    }
    if i == entries.len() - 1 {
        assert(rest =~= front);
        lemma_to_map_dom(front, k);
        if to_map(front).dom().contains(k) {
            let j = choose|j: int| 0 <= j < front.len() && (#[trigger] front[j]).key@ == k;
            assert(entries[j].key@ != entries[i].key@);
        }
        assert(to_map(front) =~= to_map(entries).remove(k));
    } else {
        assert(rest.drop_last() =~= front.remove(i));
        assert(rest.last() == entries.last());
        lemma_to_map_remove(front, i);
        assert(entries[i].key@ != entries[entries.len() - 1].key@);
        assert(to_map(rest) =~= to_map(entries).remove(k));
    }
}

/// Sequences whose entries agree in their views stand for the same map.
pub proof fn lemma_to_map_same_views<K: View, V: View>(
    a: Seq<Entry<K, V>>,
    b: Seq<Entry<K, V>>,
)
    requires
        a.len() == b.len(),
        forall|i: int|
            0 <= i < a.len() ==> (#[trigger] a[i]).key@ == b[i].key@ && a[i].value@ == b[i].value@,
    ensures
        to_map(a) == to_map(b),
        distinct_keys(a) ==> distinct_keys(b),
    decreases a.len(),
{
    if a.len() > 0 {
        let n = a.len() - 1;
        assert(a[n].key@ == b[n].key@ && a[n].value@ == b[n].value@);
        assert forall|i: int| 0 <= i < a.drop_last().len() implies (#[trigger] a.drop_last()[i]).key@
            == b.drop_last()[i].key@ && a.drop_last()[i].value@ == b.drop_last()[i].value@ by {
            assert(a[i].key@ == b[i].key@ && a[i].value@ == b[i].value@);
        }
        lemma_to_map_same_views(a.drop_last(), b.drop_last());
    }
    if distinct_keys(a) {
        assert forall|i: int, j: int| 0 <= i < j < b.len() implies (#[trigger] b[i]).key@ != (
        #[trigger] b[j]).key@ by {
            assert(a[i].key@ == b[i].key@ && a[j].key@ == b[j].key@);
            assert(a[i].key@ != a[j].key@);
        }
    }
}

/// A map from keys to values in which the entries keep the order in which
/// their keys were last inserted.
pub struct AssocList<K: Key, V: View> {
    entries: Vec<Entry<K, V>>,
}

impl<K: Key, V: View> View for AssocList<K, V> {
    type V = Map<K::V, V::V>;

    closed spec fn view(&self) -> Map<K::V, V::V> {
        to_map(self.entries@)
    }
}

impl<K: Key, V: View> AssocList<K, V> {
    #[verifier::type_invariant]
    spec fn well_formed(self) -> bool {
        distinct_keys(self.entries@)
    }

    /// The map without any key.
    pub fn new() -> (r: Self)
        ensures
            r@ == Map::<K::V, V::V>::empty(),
    {
        AssocList { entries: Vec::new() }
    }

    /// The position of `key` among the entries.
    fn find(&self, key: &K) -> (r: Option<usize>)
        ensures
            match r {
                Some(i) => i < self.entries@.len() && self.entries@[i as int].key@ == key@,
                None => !self@.dom().contains(key@),
            },
    {
        let n = self.entries.len();
        let mut i: usize = 0;
        while i < n
            invariant
                n == self.entries@.len(),
                i <= n,
                forall|j: int| 0 <= j < i ==> (#[trigger] self.entries@[j]).key@ != key@,
            decreases n - i,
        {
            if self.entries[i].key.same(key) {
                return Some(i);
            }
            i = i + 1;
        }
        proof {
            lemma_to_map_dom(self.entries@, key@);
        }
        None
    }

    /// Tells whether the map has `key`.
    pub fn contains_key(&self, key: &K) -> (r: bool)
        ensures
            r == self@.dom().contains(key@),
    {
        proof {
            use_type_invariant(self);
        }
        match self.find(key) {
            Some(i) => {
                proof {
                    lemma_to_map_at(self.entries@, i as int);
                }
                true
            },
            None => false,
        }
    }

    /// The value at `key`, where the map has that key.
    pub fn get(&self, key: &K) -> (r: Option<&V>)
        ensures
            match r {
                Some(v) => self@.dom().contains(key@) && self@[key@] == v@,
                None => !self@.dom().contains(key@),
            },
    {
        proof {
            use_type_invariant(self);
        }
        match self.find(key) {
            Some(i) => {
                proof {
                    lemma_to_map_at(self.entries@, i as int);
                }
                Some(&self.entries[i].value)
            },
            None => None,
        }
    }

    /// Takes `key` out of the map and hands back the value that it had.
    pub fn remove(&mut self, key: &K) -> (r: Option<V>)
        ensures
            final(self)@ == old(self)@.remove(key@),
            match r {
                Some(v) => old(self)@.dom().contains(key@) && old(self)@[key@] == v@,
                None => !old(self)@.dom().contains(key@),
            },
    {
        proof {
            use_type_invariant(&*self);
        }
        match self.find(key) {
            Some(i) => {
                proof {
                    lemma_to_map_at(self.entries@, i as int);
                    lemma_to_map_remove(self.entries@, i as int);
                }
                let mut entries: Vec<Entry<K, V>> = Vec::new();
                core::mem::swap(&mut self.entries, &mut entries);
                let entry = entries.remove(i);
                self.entries = entries;
                Some(entry.value)
            },
            None => {
                assert(self@ =~= self@.remove(key@));
                None
            },
        }
    }

    /// Sets the value at `key`, whether or not the map had that key.
    pub fn insert(&mut self, key: K, value: V)
        ensures
            final(self)@ == old(self)@.insert(key@, value@),
    {
        let _ = self.remove(&key);
        proof {
            use_type_invariant(&*self);
            lemma_to_map_dom(self.entries@, key@);
            let s = self.entries@;
            let e = Entry { key, value };
            assert(s.push(e).drop_last() =~= s);
            assert(distinct_keys(s.push(e))) by {
                assert forall|a: int, b: int| 0 <= a < b < s.push(e).len() implies (
                #[trigger] s.push(e)[a]).key@ != (#[trigger] s.push(e)[b]).key@ by {
                    if b < s.len() {
                        assert(s[a].key@ != s[b].key@);
                    } else {
                        assert(s[a].key@ != key@);
                    }
                }
            }
            assert(old(self)@.remove(key@).insert(key@, value@) =~= old(self)@.insert(
                key@,
                value@,
            ));
        }
        let mut entries: Vec<Entry<K, V>> = Vec::new();
        core::mem::swap(&mut self.entries, &mut entries);
        entries.push(Entry { key, value });
        self.entries = entries;
    }
}

impl<K: Key, V: DeepClone> DeepClone for AssocList<K, V> {
    fn deep_clone(&self) -> (r: Self) {
        proof {
            use_type_invariant(self);
        }
        let n = self.entries.len();
        let mut entries: Vec<Entry<K, V>> = Vec::new();
        let mut i: usize = 0;
        while i < n
            invariant
                n == self.entries@.len(),
                i <= n,
                entries@.len() == i,
                forall|j: int|
                    0 <= j < i ==> (#[trigger] self.entries@[j]).key@ == entries@[j].key@
                        && self.entries@[j].value@ == entries@[j].value@,
            decreases n - i,
        {
            let key = self.entries[i].key.deep_clone();
            let value = self.entries[i].value.deep_clone();
            entries.push(Entry { key, value });
            i = i + 1;
        }
        proof {
            lemma_to_map_same_views(self.entries@, entries@);
        }
        AssocList { entries }
    }
}

} // verus!
