//! Name-keyed maps, stored as association lists with unique keys and viewed
//! as `Map<Seq<char>, V>`.
//!
//! Property maps, sidecar property lists and project-node child maps all use
//! this shape: a vector of `(name, value)` pairs whose names are pairwise
//! distinct, abstracted to a map from name to value view.

use vstd::prelude::*;

verus! {

/// Cloning that provably preserves the view.
pub trait DeepClone: View + Sized {
    fn deep_clone(&self) -> (r: Self)
        ensures
            r@ == self@,
    ;
}

/// The spec-level value of a list of (name, value) pairs.
pub open spec fn pairs_view<T: View>(v: Seq<(String, T)>) -> Seq<(Seq<char>, T::V)> {
    v.map_values(|p: (String, T)| (p.0@, p.1@))
}

/// The spec-level value of a list of strings.
pub open spec fn strings_view(v: Seq<String>) -> Seq<Seq<char>> {
    v.map_values(|s: String| s@)
}

/// Pairwise-distinct keys.
pub open spec fn unique_keys<K, V>(p: Seq<(K, V)>) -> bool {
    forall|i: int, j: int| 0 <= i < j < p.len() ==> (#[trigger] p[i]).0 != (#[trigger] p[j]).0
}

/// The map described by a sequence of key-value pairs; a later pair wins.
pub open spec fn map_of_pairs<K, V>(p: Seq<(K, V)>) -> Map<K, V>
    decreases p.len(),
{
    if p.len() == 0 {
        Map::empty()
    } else {
        map_of_pairs(p.drop_last()).insert(p.last().0, p.last().1)
    }
}

/// A pair at index `i` of a unique-keyed list is in the map.
pub proof fn lemma_map_of_pairs_find<K, V>(p: Seq<(K, V)>, i: int)
    requires
        unique_keys(p),
        0 <= i < p.len(),
    ensures
        map_of_pairs(p).contains_key(p[i].0),
        map_of_pairs(p)[p[i].0] == p[i].1,
    decreases p.len(),
{
    if i == p.len() - 1 {
    } else {
        assert(p.drop_last()[i] == p[i]);
        lemma_map_of_pairs_find(p.drop_last(), i);
        assert(p[i].0 != p.last().0);
    }
}

/// A key under no pair is not in the map.
pub proof fn lemma_map_of_pairs_absent<K, V>(p: Seq<(K, V)>, k: K)
    requires
        forall|i: int| 0 <= i < p.len() ==> (#[trigger] p[i]).0 != k,
    ensures
        !map_of_pairs(p).contains_key(k),
    decreases p.len(),
{
    if p.len() > 0 {
        assert(forall|i: int| 0 <= i < p.drop_last().len() ==> (#[trigger] p.drop_last()[i]).0 != k);
        lemma_map_of_pairs_absent(p.drop_last(), k);
    }
}

/// Every key in the map is under some pair.
pub proof fn lemma_map_of_pairs_dom<K, V>(p: Seq<(K, V)>, k: K)
    requires
        map_of_pairs(p).contains_key(k),
    ensures
        exists|i: int| 0 <= i < p.len() && (#[trigger] p[i]).0 == k,
    decreases p.len(),
{
    if p.len() > 0 {
        if p.last().0 == k {
            assert(p[p.len() - 1].0 == k);
        } else {
            lemma_map_of_pairs_dom(p.drop_last(), k);
            let i = choose|i: int| 0 <= i < p.drop_last().len() && (#[trigger] p.drop_last()[i]).0 == k;
            assert(p[i].0 == k);
        }
    }
}

/// Mapping each value of a unique-keyed pair list maps the described map
/// pointwise.
pub proof fn lemma_map_of_pairs_transform<K, V1, V2>(
    p1: Seq<(K, V1)>,
    p2: Seq<(K, V2)>,
    f: spec_fn(K, V1) -> V2,
)
    requires
        p2.len() == p1.len(),
        forall|i: int| 0 <= i < p1.len() ==> (#[trigger] p2[i]).0 == p1[i].0,
        forall|i: int| 0 <= i < p1.len() ==> (#[trigger] p2[i]).1 == f(p1[i].0, p1[i].1),
    ensures
        map_of_pairs(p2) =~= Map::<K, V2>::new(
            |k: K| map_of_pairs(p1).contains_key(k),
            |k: K| f(k, map_of_pairs(p1)[k]),
        ),
    decreases p1.len(),
{
    if p1.len() > 0 {
        assert(forall|i: int| 0 <= i < p1.drop_last().len() ==> (#[trigger] p2.drop_last()[i]).0
            == p1.drop_last()[i].0);
        assert(forall|i: int| 0 <= i < p1.drop_last().len() ==> (#[trigger] p2.drop_last()[i]).1
            == f(p1.drop_last()[i].0, p1.drop_last()[i].1));
        lemma_map_of_pairs_transform(p1.drop_last(), p2.drop_last(), f);
        assert(p2.last().0 == p1.last().0);
        assert(p2.last().1 == f(p1.last().0, p1.last().1));
    }
}

/// A name-keyed map with unique keys, viewed as `Map<Seq<char>, T::V>`.
#[derive(Debug, PartialEq)]
pub struct AList<T> {
    pub entries: Vec<(String, T)>,
}

impl<T: View> View for AList<T> {
    type V = Map<Seq<char>, T::V>;

    open spec fn view(&self) -> Map<Seq<char>, T::V> {
        map_of_pairs(pairs_view(self.entries@))
    }
}

impl<T: View> AList<T> {
    /// The pairs, in storage order; their described map is the view.
    pub open spec fn pairs(&self) -> Seq<(Seq<char>, T::V)> {
        pairs_view(self.entries@)
    }

    /// Well-formedness: keys are pairwise distinct.
    pub open spec fn wf(&self) -> bool {
        unique_keys(self.pairs())
    }

    pub fn new() -> (r: AList<T>)
        ensures
            r.wf(),
            r@ == Map::<Seq<char>, T::V>::empty(),
            r.pairs() == Seq::<(Seq<char>, T::V)>::empty(),
    {
        let r = AList { entries: Vec::new() };
        proof {
            assert(r.pairs() =~= Seq::<(Seq<char>, T::V)>::empty());
        }
        r
    }

    pub fn len(&self) -> (r: usize)
        ensures
            r == self.pairs().len(),
    {
        self.entries.len()
    }

    pub fn is_empty(&self) -> (r: bool)
        ensures
            r == (self.pairs().len() == 0),
            r ==> self@ =~= Map::<Seq<char>, T::V>::empty(),
            !r ==> self@ !~= Map::<Seq<char>, T::V>::empty(),
    {
        let r = self.entries.len() == 0;
        proof {
            if r {
                assert(self@ =~= Map::<Seq<char>, T::V>::empty());
            } else {
                assert(self@.contains_key(self.pairs().last().0));
            }
        }
        r
    }

    /// Read access to the underlying pairs, for iteration.
    pub fn raw(&self) -> (r: &Vec<(String, T)>)
        ensures
            pairs_view(r@) == self.pairs(),
    {
        &self.entries
    }

    pub fn get(&self, key: &String) -> (r: Option<&T>)
        requires
            self.wf(),
        ensures
            match r {
                Some(v) => self@.contains_key(key@) && v@ == self@[key@] && (exists|i: int|
                    0 <= i < self.entries@.len() && (#[trigger] self.entries@[i]).1 == *v),
                None => !self@.contains_key(key@),
            },
    {
        let mut i: usize = 0;
        while i < self.entries.len()
            invariant
                self.wf(),
                i <= self.entries.len(),
                forall|j: int| 0 <= j < i ==> (#[trigger] self.pairs()[j]).0 != key@,
            decreases self.entries.len() - i,
        {
            if self.entries[i].0 == *key {
                proof {
                    assert(self.pairs()[i as int].0 == key@);
                    lemma_map_of_pairs_find(self.pairs(), i as int);
                    assert((#[trigger] self.entries@[i as int]).1 == self.entries@[i as int].1);
                }
                return Some(&self.entries[i].1);
            }
            proof {
                assert(self.pairs()[i as int].0 != key@);
            }
            i += 1;
        }
        proof {
            lemma_map_of_pairs_absent(self.pairs(), key@);
        }
        None
    }

    pub fn contains_key(&self, key: &String) -> (r: bool)
        requires
            self.wf(),
        ensures
            r == self@.contains_key(key@),
    {
        match self.get(key) {
            Some(_) => true,
            None => false,
        }
    }

    /// Remove the pair under `key`, if any.
    pub fn remove(&mut self, key: &String) -> (r: Option<T>)
        requires
            old(self).wf(),
        ensures
            final(self).wf(),
            final(self)@ == old(self)@.remove(key@),
            match r {
                Some(v) => old(self)@.contains_key(key@) && v@ == old(self)@[key@],
                None => !old(self)@.contains_key(key@),
            },
    {
        let mut i: usize = 0;
        while i < self.entries.len()
            invariant
                self.wf(),
                *self == *old(self),
                i <= self.entries.len(),
                forall|j: int| 0 <= j < i ==> (#[trigger] self.pairs()[j]).0 != key@,
            decreases self.entries.len() - i,
        {
            if self.entries[i].0 == *key {
                proof {
                    assert(self.pairs()[i as int].0 == key@);
                    lemma_map_of_pairs_find(self.pairs(), i as int);
                }
                let ghost oldp = self.pairs();
                let (_, v) = self.entries.remove(i);
                proof {
                    assert(self.pairs() =~= oldp.remove(i as int));
                    lemma_remove_idx(oldp, i as int);
                }
                return Some(v);
            }
            proof {
                assert(self.pairs()[i as int].0 != key@);
            }
            i += 1;
        }
        proof {
            lemma_map_of_pairs_absent(self.pairs(), key@);
            assert(old(self)@.remove(key@) =~= old(self)@);
        }
        None
    }

    /// Insert `value` under `key`, replacing any existing pair.
    pub fn insert(&mut self, key: String, value: T)
        requires
            old(self).wf(),
        ensures
            final(self).wf(),
            final(self)@ == old(self)@.insert(key@, value@),
    {
        let _ = self.remove(&key);
        let ghost mid = self.pairs();
        self.entries.push((key, value));
        proof {
            assert(self.pairs() =~= mid.push((key@, value@)));
            assert(self.pairs().drop_last() =~= mid);
            assert(forall|j: int| 0 <= j < mid.len() ==> (#[trigger] mid[j]).0 != key@) by {
                if exists|j: int| 0 <= j < mid.len() && (#[trigger] mid[j]).0 == key@ {
                    let j = choose|j: int| 0 <= j < mid.len() && (#[trigger] mid[j]).0 == key@;
                    lemma_map_of_pairs_find(mid, j);
                }
            }
            assert(final(self)@ =~= old(self)@.insert(key@, value@));
        }
    }

    /// Insert every pair of `other`; on a shared key `other` wins.
    pub fn extend(&mut self, other: AList<T>)
        requires
            old(self).wf(),
            other.wf(),
        ensures
            final(self).wf(),
            final(self)@ == old(self)@.union_prefer_right(other@),
    {
        let AList { entries } = other;
        let mut rest = entries;
        let total: usize = rest.len();
        let ghost allp = pairs_view(rest@);
        let mut i: usize = 0;
        proof {
            assert(map_of_pairs(allp.take(0)) =~= Map::<Seq<char>, T::V>::empty());
            assert(self@ =~= old(self)@.union_prefer_right(map_of_pairs(allp.take(0))));
        }
        // Consume the pairs front to back; taking index 0 each time keeps
        // the remaining suffix aligned with `allp`.
        while rest.len() > 0
            invariant
                self.wf(),
                i + rest.len() == total,
                allp.len() == total,
                pairs_view(rest@) =~= allp.skip(i as int),
                self@ == old(self)@.union_prefer_right(map_of_pairs(allp.take(i as int))),
            decreases rest.len(),
        {
            let ghost prevrest = pairs_view(rest@);
            let (k, v) = rest.remove(0);
            proof {
                assert(pairs_view(rest@) =~= prevrest.drop_first());
                assert(prevrest[0] == allp[i as int]);
                assert(prevrest.drop_first() =~= allp.skip(i as int + 1));
            }
            self.insert(k, v);
            proof {
                assert(allp.take(i as int + 1).drop_last() =~= allp.take(i as int));
                assert(map_of_pairs(allp.take(i as int + 1)) == map_of_pairs(allp.take(i as int))
                    .insert(allp[i as int].0, allp[i as int].1));
                assert(self@ =~= old(self)@.union_prefer_right(map_of_pairs(allp.take(i as int + 1))));
            }
            i += 1;
        }
        proof {
            assert(allp.take(allp.len() as int) =~= allp);
        }
    }
}

impl<T: View + DeepClone> AList<T> {
    pub fn deep_clone(&self) -> (r: Self)
        ensures
            r@ == self@,
            r.pairs() == self.pairs(),
    {
        let mut entries: Vec<(String, T)> = Vec::new();
        let mut i: usize = 0;
        while i < self.entries.len()
            invariant
                i <= self.entries.len(),
                entries@.len() == i,
                forall|j: int| 0 <= j < i ==> (#[trigger] entries@[j]).0@ == self.entries@[j].0@
                    && entries@[j].1@ == self.entries@[j].1@,
            decreases self.entries.len() - i,
        {
            let (k, v) = &self.entries[i];
            entries.push((k.clone(), v.deep_clone()));
            i += 1;
        }
        let r = AList { entries };
        proof {
            assert(r.pairs() =~= self.pairs());
        }
        r
    }
}

/// Removing the pair at index `i` from a unique-keyed list removes its key
/// from the described map.
pub proof fn lemma_remove_idx<K, V>(p: Seq<(K, V)>, i: int)
    requires
        unique_keys(p),
        0 <= i < p.len(),
    ensures
        unique_keys(p.remove(i)),
        map_of_pairs(p.remove(i)) =~= map_of_pairs(p).remove(p[i].0),
    decreases p.len(),
{
    if i == p.len() - 1 {
        assert(p.remove(i) =~= p.drop_last());
        lemma_map_of_pairs_absent(p.drop_last(), p[i].0);
    } else {
        assert(p.remove(i).drop_last() =~= p.drop_last().remove(i));
        lemma_remove_idx(p.drop_last(), i);
        assert(p.remove(i).last() == p.last());
        assert(map_of_pairs(p.remove(i)) == map_of_pairs(p.drop_last().remove(i)).insert(
            p.last().0,
            p.last().1,
        ));
        assert(p[i].0 != p.last().0);
    }
}


/// A unique-keyed pair list describes a finite map with one key per pair.
pub proof fn lemma_unique_dom_len<K, V>(p: Seq<(K, V)>)
    requires
        unique_keys(p),
    ensures
        map_of_pairs(p).dom().finite(),
        map_of_pairs(p).dom().len() == p.len(),
    decreases p.len(),
{
    if p.len() == 0 {
        assert(map_of_pairs(p).dom() =~= Set::<K>::empty());
    } else {
        lemma_unique_dom_len(p.drop_last());
        assert(forall|i: int| 0 <= i < p.drop_last().len() ==> (#[trigger] p.drop_last()[i]).0
            != p.last().0);
        lemma_map_of_pairs_absent(p.drop_last(), p.last().0);
        assert(map_of_pairs(p).dom() =~= map_of_pairs(p.drop_last()).dom().insert(p.last().0));
    }
}

} // verus!
