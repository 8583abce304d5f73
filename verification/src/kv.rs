//! The key-value substrate: the store interface every stateful component
//! reads and writes through, and a verified in-memory implementation.
//!
//! Durable state is addressed by string keys and holds plain byte values.
//! The interface models the store as a map from key characters to bytes;
//! a failing backend is allowed to report an error, in which case the map
//! is unchanged.

use vstd::prelude::*;

use crate::text::str_eq;

verus! {

/// The abstract contents of a store: key characters to value bytes.
pub type KvMap = Map<Seq<char>, Seq<u8>>;

/// Whether two store states agree at one key.
pub open spec fn kv_same_at(m1: KvMap, m2: KvMap, k: Seq<char>) -> bool {
    m1.contains_key(k) == m2.contains_key(k) && (m1.contains_key(k) ==> m1[k] == m2[k])
}

/// The store interface. `kv()` is the abstract contents; `inv()` is the
/// implementation's own well-formedness, preserved by every operation.
pub trait KeyValueStore: Sized {
    open spec fn inv(&self) -> bool {
        true
    }

    open spec fn kv(&self) -> KvMap {
        Map::empty()
    }

    /// Whether this backend answers every request; the in-memory store
    /// does, while a remote substrate may fail. Detection guarantees
    /// hold unconditionally only of reliable stores.
    open spec fn reliable(&self) -> bool {
        false
    }

    fn get(&self, key: &str) -> (r: Result<Option<Vec<u8>>, ()>)
        requires
            self.inv(),
        ensures
            r matches Ok(v) ==> (match v {
                Some(b) => self.kv().contains_key(key@) && b@ == self.kv()[key@],
                None => !self.kv().contains_key(key@),
            }),
            self.reliable() ==> (r is Ok),
    ;

    fn set(&mut self, key: &str, value: &[u8]) -> (r: Result<(), ()>)
        requires
            old(self).inv(),
        ensures
            final(self).inv(),
            final(self).reliable() == old(self).reliable(),
            r is Ok ==> final(self).kv() == old(self).kv().insert(key@, value@),
            r is Err ==> final(self).kv() == old(self).kv(),
            old(self).reliable() ==> (r is Ok),
    ;

    fn delete(&mut self, key: &str) -> (r: Result<(), ()>)
        requires
            old(self).inv(),
        ensures
            final(self).inv(),
            final(self).reliable() == old(self).reliable(),
            r is Ok ==> final(self).kv() == old(self).kv().remove(key@),
            r is Err ==> final(self).kv() == old(self).kv(),
            old(self).reliable() ==> (r is Ok),
    ;
}

/// The contents of an association list, later bindings overriding earlier
/// ones; with distinct keys the first match is also the only one.
pub open spec fn assoc_map(s: Seq<(String, Vec<u8>)>) -> Map<Seq<char>, Seq<u8>>
    decreases s.len(),
{
    if s.len() == 0 {
        Map::empty()
    } else {
        assoc_map(s.drop_last()).insert(s.last().0@, s.last().1@)
    }
}

/// Pairwise-distinct keys.
pub open spec fn distinct_keys(s: Seq<(String, Vec<u8>)>) -> bool {
    forall|i: int, j: int| 0 <= i < j < s.len() ==> (#[trigger] s[i]).0@ != (#[trigger] s[j]).0@
}

proof fn lemma_assoc_contains(s: Seq<(String, Vec<u8>)>, k: Seq<char>)
    ensures
        assoc_map(s).contains_key(k) <==> (exists|i: int| 0 <= i < s.len() && (#[trigger] s[i]).0@ == k),
    decreases s.len(),
{
    if s.len() > 0 {
        lemma_assoc_contains(s.drop_last(), k);
        if assoc_map(s).contains_key(k) {
            if s.last().0@ != k {
                let i = choose|i: int| 0 <= i < s.drop_last().len() && (#[trigger] s.drop_last()[i]).0@ == k;
                assert(s[i].0@ == k);
            } else {
                assert(s[s.len() - 1].0@ == k);
            }
        }
        if exists|i: int| 0 <= i < s.len() && (#[trigger] s[i]).0@ == k {
            let i = choose|i: int| 0 <= i < s.len() && (#[trigger] s[i]).0@ == k;
            if i < s.len() - 1 {
                assert(s.drop_last()[i].0@ == k);
            }
        }
    }
}

proof fn lemma_assoc_get(s: Seq<(String, Vec<u8>)>, i: int)
    requires
        distinct_keys(s),
        0 <= i < s.len(),
    ensures
        assoc_map(s).contains_key(s[i].0@),
        assoc_map(s)[s[i].0@] == s[i].1@,
    decreases s.len(),
{
    if i < s.len() - 1 {
        assert(distinct_keys(s.drop_last())) by {
            assert forall|p: int, q: int| 0 <= p < q < s.drop_last().len() implies (#[trigger] s.drop_last()[p]).0@
                != (#[trigger] s.drop_last()[q]).0@ by {
                assert(s[p].0@ != s[q].0@);
            }
        }
        assert(s.drop_last()[i] == s[i]);
        lemma_assoc_get(s.drop_last(), i);
        assert(s[i].0@ != s.last().0@);
    }
}

proof fn lemma_distinct_remove(s: Seq<(String, Vec<u8>)>, i: int)
    requires
        distinct_keys(s),
        0 <= i < s.len(),
    ensures
        distinct_keys(s.remove(i)),
{
    assert forall|p: int, q: int| 0 <= p < q < s.remove(i).len() implies (#[trigger] s.remove(i)[p]).0@
        != (#[trigger] s.remove(i)[q]).0@ by {
        let p0 = if p < i { p } else { p + 1 };
        let q0 = if q < i { q } else { q + 1 };
        assert(s.remove(i)[p] == s[p0]);
        assert(s.remove(i)[q] == s[q0]);
        assert(s[p0].0@ != s[q0].0@);
    }
}

proof fn lemma_assoc_remove(s: Seq<(String, Vec<u8>)>, i: int)
    requires
        distinct_keys(s),
        0 <= i < s.len(),
    ensures
        assoc_map(s.remove(i)) == assoc_map(s).remove(s[i].0@),
    decreases s.len(),
{
    let k = s[i].0@;
    if i == s.len() - 1 {
        assert(s.remove(i) =~= s.drop_last());
        lemma_assoc_contains(s.drop_last(), k);
        assert(!assoc_map(s.drop_last()).contains_key(k)) by {
            if exists|j: int| 0 <= j < s.drop_last().len() && (#[trigger] s.drop_last()[j]).0@ == k {
                let j = choose|j: int| 0 <= j < s.drop_last().len() && (#[trigger] s.drop_last()[j]).0@ == k;
                assert(s[j].0@ == s[i].0@);
                assert(false);
            }
        }
        assert(assoc_map(s.drop_last()) =~= assoc_map(s).remove(k));
    } else {
        assert(distinct_keys(s.drop_last())) by {
            assert forall|p: int, q: int| 0 <= p < q < s.drop_last().len() implies (#[trigger] s.drop_last()[p]).0@
                != (#[trigger] s.drop_last()[q]).0@ by {
                assert(s[p].0@ != s[q].0@);
            }
        }
        assert(s.drop_last()[i] == s[i]);
        lemma_assoc_remove(s.drop_last(), i);
        assert(s.remove(i).drop_last() =~= s.drop_last().remove(i));
        assert(s.remove(i).last() == s.last());
        assert(s[i].0@ != s.last().0@);
        assert(assoc_map(s.remove(i)) == assoc_map(s.drop_last().remove(i)).insert(
            s.last().0@,
            s.last().1@,
        ));
        assert(assoc_map(s).remove(k) =~= assoc_map(s.drop_last()).remove(k).insert(
            s.last().0@,
            s.last().1@,
        ));
    }
}

/// A verified in-memory store: an association list with distinct keys.
/// The tests drive every stateful component through it.
pub struct MemStore {
    entries: Vec<(String, Vec<u8>)>,
}

impl MemStore {
    /// An empty store.
    pub fn new() -> (r: MemStore)
        ensures
            r.inv(),
            r.reliable(),
            r.kv() == Map::<Seq<char>, Seq<u8>>::empty(),
    {
        MemStore { entries: Vec::new() }
    }

    fn find(&self, key: &str) -> (r: Option<usize>)
        ensures
            r matches Some(i) ==> i < self.entries@.len() && self.entries@[i as int].0@ == key@,
            r is None ==> forall|j: int| 0 <= j < self.entries@.len()
                ==> (#[trigger] self.entries@[j]).0@ != key@,
    {
        let n = self.entries.len();
        let mut i: usize = 0;
        while i < n
            invariant
                0 <= i <= n,
                n == self.entries@.len(),
                forall|j: int| 0 <= j < i ==> (#[trigger] self.entries@[j]).0@ != key@,
            decreases n - i,
        {
            if str_eq(self.entries[i].0.as_str(), key) {
                return Some(i);
            }
            i = i + 1;
        }
        None
    }
}

impl KeyValueStore for MemStore {
    closed spec fn inv(&self) -> bool {
        distinct_keys(self.entries@)
    }

    closed spec fn kv(&self) -> KvMap {
        assoc_map(self.entries@)
    }

    closed spec fn reliable(&self) -> bool {
        true
    }

    fn get(&self, key: &str) -> (r: Result<Option<Vec<u8>>, ()>)
    {
        match self.find(key) {
            Some(i) => {
                proof {
                    lemma_assoc_get(self.entries@, i as int);
                }
                Ok(Some(vstd::slice::slice_to_vec(self.entries[i].1.as_slice())))
            },
            None => {
                proof {
                    lemma_assoc_contains(self.entries@, key@);
                }
                Ok(None)
            },
        }
    }

    fn set(&mut self, key: &str, value: &[u8]) -> (r: Result<(), ()>)
    {
        let ghost orig = self.entries@;
        match self.find(key) {
            Some(i) => {
                proof {
                    lemma_assoc_remove(orig, i as int);
                    lemma_distinct_remove(orig, i as int);
                }
                self.entries.remove(i);
                proof {
                    lemma_assoc_contains(self.entries@, key@);
                    assert(!assoc_map(self.entries@).contains_key(key@)) by {
                        if exists|j: int| 0 <= j < self.entries@.len()
                            && (#[trigger] self.entries@[j]).0@ == key@ {
                            let j = choose|j: int| 0 <= j < self.entries@.len()
                                && (#[trigger] self.entries@[j]).0@ == key@;
                            let j0 = if j < i as int { j } else { j + 1 };
                            assert(orig[j0].0@ == key@);
                            assert(orig[i as int].0@ == key@);
                            assert(false);
                        }
                    }
                }
            },
            None => {},
        }
        let ghost pre = self.entries@;
        assert(forall|j: int| 0 <= j < pre.len() ==> (#[trigger] pre[j]).0@ != key@);
        self.entries.push((key.to_owned(), vstd::slice::slice_to_vec(value)));
        proof {
            assert(self.entries@.drop_last() =~= pre);
            assert(self.entries@.last().0@ == key@);
            assert(self.entries@.last().1@ == value@);
            assert(assoc_map(self.entries@) == assoc_map(pre).insert(key@, value@));
            assert(assoc_map(pre).insert(key@, value@) =~= assoc_map(orig).insert(key@, value@));
            assert forall|p: int, q: int| 0 <= p < q < self.entries@.len() implies
                (#[trigger] self.entries@[p]).0@ != (#[trigger] self.entries@[q]).0@ by {
                if q < self.entries@.len() - 1 {
                    assert(self.entries@[p] == pre[p]);
                    assert(self.entries@[q] == pre[q]);
                } else {
                    assert(self.entries@[p] == pre[p]);
                    assert(self.entries@[q].0@ == key@);
                }
            }
        }
        Ok(())
    }

    fn delete(&mut self, key: &str) -> (r: Result<(), ()>)
    {
        let ghost orig = self.entries@;
        match self.find(key) {
            Some(i) => {
                proof {
                    lemma_assoc_remove(orig, i as int);
                    lemma_distinct_remove(orig, i as int);
                }
                self.entries.remove(i);
            },
            None => {
                proof {
                    lemma_assoc_contains(orig, key@);
                    assert(assoc_map(orig).remove(key@) =~= assoc_map(orig));
                }
            },
        }
        Ok(())
    }
}

} // verus!
