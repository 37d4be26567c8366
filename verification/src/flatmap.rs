//! An association map kept as a vector of pairs sorted by key: linear
//! lookups, order-preserving insertion, no duplicate keys.

use vstd::prelude::*;
use vstd::laws_cmp::obeys_cmp;
use vstd::laws_eq::obeys_concrete_eq;
use vstd::std_specs::cmp::{OrdSpec, PartialEqSpec};
use core::cmp::Ordering;

verus! {

/// Strictly sorted by key under the key type's order: in particular, no
/// key occurs twice.
pub open spec fn sorted_distinct<K: Ord, V>(s: Seq<(K, V)>) -> bool {
    forall|i: int, j: int|
        0 <= i < j < s.len() ==> (#[trigger] s[i].0.cmp_spec(&s[j].0)) == Ordering::Less
}

/// The index of the first pair holding `key`, or -1 when no pair does.
pub open spec fn index_of_key<K, V>(s: Seq<(K, V)>, key: K) -> int
    decreases s.len(),
{
    if s.len() == 0 {
        -1
    } else if s[0].0 == key {
        0
    } else {
        let r = index_of_key(s.drop_first(), key);
        if r < 0 {
            -1
        } else {
            r + 1
        }
    }
}

/// What `index_of_key` means: a negative answer is absence, a nonnegative
/// answer is the first position holding the key.
pub proof fn lemma_index_of_key<K, V>(s: Seq<(K, V)>, key: K)
    ensures
        index_of_key(s, key) < 0 ==> forall|j: int| 0 <= j < s.len() ==> (#[trigger] s[j]).0
            != key,
        index_of_key(s, key) >= 0 ==> 0 <= index_of_key(s, key) < s.len() && s[index_of_key(
            s,
            key,
        )].0 == key && forall|j: int| 0 <= j < index_of_key(s, key) ==> (#[trigger] s[j]).0 != key,
    decreases s.len(),
{
    if s.len() > 0 && s[0].0 != key {
        lemma_index_of_key(s.drop_first(), key);
        let rest = s.drop_first();
        let r = index_of_key(rest, key);
        assert forall|j: int| 0 <= j < s.len() - 1 implies rest[j] == s[j + 1] by {}
        if r < 0 {
            assert(index_of_key(s, key) == -1);
            assert forall|j: int| 0 <= j < s.len() implies (#[trigger] s[j]).0 != key by {
                if j > 0 {
                    assert(rest[j - 1] == s[j]);
                }
            }
        } else {
            assert(index_of_key(s, key) == r + 1);
            assert(s[r + 1] == rest[r]);
            assert forall|j: int| 0 <= j < r + 1 implies (#[trigger] s[j]).0 != key by {
                if j > 0 {
                    assert(rest[j - 1] == s[j]);
                }
            }
        }
    }
}

/// An association map over ordered keys, kept sorted.
pub struct FlatMap<K: Ord, V>(Vec<(K, V)>);

impl<K: Ord, V> View for FlatMap<K, V> {
    type V = Seq<(K, V)>;

    closed spec fn view(&self) -> Seq<(K, V)> {
        self.0@
    }
}

impl<K: Ord, V> FlatMap<K, V> {
    #[verifier::type_invariant]
    spec fn type_inv(self) -> bool {
        sorted_distinct(self.0@)
    }

    /// The empty map.
    pub fn new() -> (m: FlatMap<K, V>)
        ensures
            m@ == Seq::<(K, V)>::empty(),
    {
        FlatMap(Vec::new())
    }

    /// How many pairs are held.
    pub fn len(&self) -> (l: usize)
        ensures
            l == self@.len(),
    {
        self.0.len()
    }

    /// Whether no pair is held.
    pub fn is_empty(&self) -> (e: bool)
        ensures
            e == (self@.len() == 0),
    {
        self.0.len() == 0
    }

    /// The pairs, sorted by key.
    pub fn as_slice(&self) -> (s: &[(K, V)])
        ensures
            s@ == self@,
    {
        self.0.as_slice()
    }

    /// The position of the first key not below `key`: everything before it
    /// is strictly below `key`.
    fn locate(data: &Vec<(K, V)>, key: &K) -> (pos: usize)
        requires
            obeys_cmp::<K>(),
        ensures
            pos <= data@.len(),
            forall|j: int| 0 <= j < pos ==> (#[trigger] data@[j].0.cmp_spec(key))
                == Ordering::Less,
            pos < data@.len() ==> data@[pos as int].0.cmp_spec(key) != Ordering::Less,
    {
        let n = data.len();
        let mut i: usize = 0;
        loop
            invariant
                obeys_cmp::<K>(),
                n == data@.len(),
                i <= n,
                forall|j: int| 0 <= j < i ==> (#[trigger] data@[j].0.cmp_spec(key))
                    == Ordering::Less,
            ensures
                i <= n,
                forall|j: int| 0 <= j < i ==> (#[trigger] data@[j].0.cmp_spec(key))
                    == Ordering::Less,
                i < n ==> data@[i as int].0.cmp_spec(key) != Ordering::Less,
            decreases n - i,
        {
            proof {
                reveal(vstd::laws_cmp::obeys_cmp_ord);
            }
            if i >= n {
                break ;
            }
            if matches!(data[i].0.cmp(key), Ordering::Less) {
                i += 1;
            } else {
                break ;
            }
        }
        i
    }

    /// Insert a pair. A present key has its value replaced, and the old
    /// value comes back; an absent key's pair goes in at its sorted
    /// position.
    pub fn insert(&mut self, key: K, value: V) -> (r: Option<V>)
        requires
            obeys_cmp::<K>(),
            obeys_concrete_eq::<K>(),
        ensures
            sorted_distinct(final(self)@),
            ({
                let idx = index_of_key(old(self)@, key);
                &&& idx < 0 ==> r is None && (exists|p: int|
                    0 <= p <= old(self)@.len() && final(self)@ == old(self)@.insert(
                        p,
                        (key, value),
                    ))
                &&& idx >= 0 ==> r == Some(old(self)@[idx].1) && final(self)@ == old(
                    self,
                )@.update(idx, (key, value))
            }),
    {
        proof {
            use_type_invariant(&*self);
            lemma_index_of_key(old(self)@, key);
            reveal(vstd::laws_cmp::obeys_cmp_partial_ord);
            reveal(vstd::laws_cmp::obeys_cmp_ord);
            reveal(vstd::laws_cmp::obeys_partial_cmp_spec_properties);
            reveal(vstd::laws_eq::obeys_concrete_eq);
        }
        let mut data = Vec::new();
        std::mem::swap(&mut data, &mut self.0);
        let ghost s0 = data@;
        let pos = Self::locate(&data, &key);
        proof {
            assert forall|j: int| 0 <= j < pos implies (#[trigger] s0[j]).0 != key by {
                if s0[j].0 == key {
                    assert(s0[j].0.eq_spec(&key));
                }
            }
        }
        if pos < data.len() && matches!(data[pos].0.cmp(&key), Ordering::Equal) {
            proof {
                assert(s0[pos as int].0.eq_spec(&key));
                assert(s0[pos as int].0 == key);
                assert(index_of_key(s0, key) == pos as int);
                assert forall|i: int, j: int|
                    0 <= i < j < s0.len() implies (#[trigger] s0.update(
                    pos as int,
                    (key, value),
                )[i].0.cmp_spec(&s0.update(pos as int, (key, value))[j].0)) == Ordering::Less by {
                    assert(s0[i].0.cmp_spec(&s0[j].0) == Ordering::Less);
                }
            }
            let old_pair = data.remove(pos);
            data.insert(pos, (key, value));
            proof {
                assert(data@ =~= s0.update(pos as int, (key, value)));
            }
            self.0 = data;
            Some(old_pair.1)
        } else {
            proof {
                assert forall|j: int| pos <= j < s0.len() implies (#[trigger] s0[j]).0 != key by {
                    if j > pos {
                        assert(s0[pos as int].0.cmp_spec(&s0[j].0) == Ordering::Less);
                    }
                    if s0[j].0 == key {
                        assert(s0[j].0.eq_spec(&key));
                        assert(s0[j].0.cmp_spec(&key) == Ordering::Equal);
                    }
                }
                assert(index_of_key(s0, key) < 0);
                let s1 = s0.insert(pos as int, (key, value));
                assert forall|i: int, j: int| 0 <= i < j < s1.len() implies (#[trigger] s1[i].0
                    .cmp_spec(&s1[j].0)) == Ordering::Less by {
                    if i == pos {
                        assert(s1[i].0 == key);
                        assert(s0[j - 1].0.cmp_spec(&key) != Ordering::Less);
                        assert(s0[j - 1].0 != key);
                    } else if j == pos {
                        assert(s1[j].0 == key);
                    } else if i < pos && j > pos {
                        assert(s0[i].0.cmp_spec(&key) == Ordering::Less);
                        assert(s0[j - 1].0.cmp_spec(&key) != Ordering::Less);
                    }
                }
            }
            data.insert(pos, (key, value));
            self.0 = data;
            None
        }
    }

    /// The value under `key`, if any.
    pub fn get(&self, key: &K) -> (r: Option<&V>)
        requires
            obeys_concrete_eq::<K>(),
        ensures
            ({
                let idx = index_of_key(self@, *key);
                &&& idx < 0 ==> r is None
                &&& idx >= 0 ==> (r matches Some(v) && *v == self@[idx].1)
            }),
    {
        proof {
            lemma_index_of_key(self@, *key);
            reveal(vstd::laws_eq::obeys_concrete_eq);
        }
        let n = self.0.len();
        let mut i: usize = 0;
        while i < n
            invariant
                obeys_concrete_eq::<K>(),
                n == self@.len(),
                i <= n,
                forall|j: int| 0 <= j < i ==> (#[trigger] self@[j]).0 != *key,
                index_of_key(self@, *key) >= 0 ==> 0 <= index_of_key(self@, *key) < n && self@[
                    index_of_key(self@, *key)].0 == *key && (forall|j: int|
                    0 <= j < index_of_key(self@, *key) ==> (#[trigger] self@[j]).0 != *key),
                index_of_key(self@, *key) < 0 ==> forall|j: int| 0 <= j < n ==> (#[trigger] self@[
                    j]).0 != *key,
            decreases n - i,
        {
            proof {
                reveal(vstd::laws_eq::obeys_concrete_eq);
            }
            if self.0[i].0 == *key {
                return Some(&self.0[i].1);
            }
            i += 1;
        }
        None
    }

    /// Remove the pair under `key`, handing back its value.
    pub fn remove(&mut self, key: &K) -> (r: Option<V>)
        requires
            obeys_cmp::<K>(),
            obeys_concrete_eq::<K>(),
        ensures
            ({
                let idx = index_of_key(old(self)@, *key);
                &&& idx < 0 ==> r is None && final(self)@ == old(self)@
                &&& idx >= 0 ==> r == Some(old(self)@[idx].1) && final(self)@ == old(self)@.remove(
                    idx,
                )
            }),
    {
        match self.remove_entry(key) {
            None => None,
            Some((_, v)) => Some(v),
        }
    }

    /// Remove the pair under `key`, handing back both key and value.
    pub fn remove_entry(&mut self, key: &K) -> (r: Option<(K, V)>)
        requires
            obeys_cmp::<K>(),
            obeys_concrete_eq::<K>(),
        ensures
            sorted_distinct(final(self)@),
            ({
                let idx = index_of_key(old(self)@, *key);
                &&& idx < 0 ==> r is None && final(self)@ == old(self)@
                &&& idx >= 0 ==> r == Some(old(self)@[idx]) && final(self)@ == old(self)@.remove(
                    idx,
                )
            }),
    {
        proof {
            use_type_invariant(&*self);
            lemma_index_of_key(old(self)@, *key);
            reveal(vstd::laws_cmp::obeys_cmp_partial_ord);
            reveal(vstd::laws_cmp::obeys_cmp_ord);
            reveal(vstd::laws_cmp::obeys_partial_cmp_spec_properties);
            reveal(vstd::laws_eq::obeys_concrete_eq);
        }
        let mut data = Vec::new();
        std::mem::swap(&mut data, &mut self.0);
        let ghost s0 = data@;
        let pos = Self::locate(&data, key);
        proof {
            assert forall|j: int| 0 <= j < pos implies (#[trigger] s0[j]).0 != *key by {
                if s0[j].0 == *key {
                    assert(s0[j].0.eq_spec(key));
                }
            }
        }
        if pos < data.len() && matches!(data[pos].0.cmp(key), Ordering::Equal) {
            proof {
                assert(s0[pos as int].0.eq_spec(key));
                assert(s0[pos as int].0 == *key);
                assert(index_of_key(s0, *key) == pos as int);
                let s1 = s0.remove(pos as int);
                assert forall|i: int, j: int| 0 <= i < j < s1.len() implies (#[trigger] s1[i].0
                    .cmp_spec(&s1[j].0)) == Ordering::Less by {}
            }
            let pair = data.remove(pos);
            self.0 = data;
            Some(pair)
        } else {
            proof {
                assert forall|j: int| pos <= j < s0.len() implies (#[trigger] s0[j]).0 != *key by {
                    if j > pos {
                        assert(s0[pos as int].0.cmp_spec(&s0[j].0) == Ordering::Less);
                    }
                    if s0[j].0 == *key {
                        assert(s0[j].0.eq_spec(key));
                        assert(s0[j].0.cmp_spec(key) == Ordering::Equal);
                    }
                }
                assert(index_of_key(s0, *key) < 0);
            }
            self.0 = data;
            None
        }
    }
}

impl<K: Ord, V> Default for FlatMap<K, V> {
    fn default() -> (m: FlatMap<K, V>)
        ensures
            m@ == Seq::<(K, V)>::empty(),
    {
        FlatMap::new()
    }
}

} // verus!
