use vstd::prelude::*;

use std::collections::{BTreeMap, BTreeSet, HashMap, HashSet};
use vstd::std_specs::hash::{into_iter_keys, obeys_key_model, spec_keys_iter};
use vstd::laws_cmp::obeys_cmp;
use vstd::std_specs::btree::{into_iter_btree_keys, spec_btree_keys_iter};
use vstd::std_specs::iter::IteratorSpec;

use crate::arbitrary::Arbitrary;
use crate::arbitrary_std::models;
use crate::gen::{range_draw, Gen, Sample};
use crate::std_ext::{clones_exactly, copy_btree_map, copy_hash_set};

verus! {

broadcast use {vstd::std_specs::hash::group_hash_axioms, vstd::std_specs::btree::group_btree_axioms};

/// Every value drawn is, by its model, an element of the set.
pub open spec fn holds_all_drawn<T: Arbitrary>(m: Set<T>, ps: Seq<T::Model>) -> bool {
    forall|i: int|
        #![trigger ps[i]]
        0 <= i < ps.len() ==> exists|x: T| #[trigger] m.contains(x) && x.model() == ps[i]
}

/// Every key drawn is, by its model, a key of the map; when no later pair
/// has a key of the same model, the key maps to the value of this pair.
pub open spec fn holds_all_pairs<K: Arbitrary, V: Arbitrary>(
    m: Map<K, V>,
    ps: Seq<(K::Model, V::Model)>,
) -> bool {
    forall|i: int|
        #![trigger ps[i]]
        0 <= i < ps.len() ==> exists|k: K|
            #[trigger] m.contains_key(k) && k.model() == ps[i].0 && ((forall|l: int|
                i < l < ps.len() ==> #[trigger] ps[l].0 != ps[i].0) ==> m[k].model() == ps[i].1)
}

/// The keys of a hash map in the order in which the map walks them.
pub open spec fn hash_map_keys<K, V>(m: &HashMap<K, V>) -> Seq<K> {
    into_iter_keys(spec_keys_iter(m))
}

/// Hash maps are generated from a vector of key-value pairs, inserted in
/// order (a later pair replaces an earlier one with an equal key), and shrink
/// by emptying or by dropping one key, in the order in which the map walks
/// its keys.
impl<K: Arbitrary + Eq + std::hash::Hash + Clone, V: Arbitrary + Clone> Arbitrary for HashMap<K, V> {
    type Model = Map<K, V>;

    open spec fn model(&self) -> Map<K, V> {
        self@
    }

    /// The keys must obey vstd's key model: the map's contracts in vstd hold
    /// only then.
    open spec fn obeys_arbitrary() -> bool {
        obeys_key_model::<K>() && K::obeys_arbitrary() && V::obeys_arbitrary()
    }

    open spec fn shrinks_by_model() -> bool {
        false
    }

    open spec fn within_size(m: Map<K, V>, size: nat) -> bool {
        &&& m.len() <= size
        &&& forall|k: K|
            #[trigger] m.contains_key(k) ==> K::within_size(k.model(), size) && V::within_size(
                m[k].model(),
                size,
            )
    }

    /// The draws are those of a vector of pairs, each pair key first; every
    /// entry of the map is one of the pairs drawn, and every key drawn is in
    /// the map with the value of the last pair drawn for it.
    open spec fn generated(size: nat, before: Seq<Sample>, m: Map<K, V>, after: Seq<Sample>) -> bool {
        exists|ps: Seq<(K::Model, V::Model)>|
            #[trigger] <Vec<(K, V)> as Arbitrary>::generated(size, before, ps, after) && m.len()
                <= ps.len() && (forall|k: K|
                #[trigger] m.contains_key(k) ==> exists|i: int|
                    0 <= i < ps.len() && ps[i] == (k.model(), m[k].model()))
            && holds_all_pairs(m, ps)
    }

    open spec fn shrink_models(&self) -> Seq<Map<K, V>> {
        if self@.is_empty() {
            seq![]
        } else {
            seq![Map::<K, V>::empty()] + hash_map_keys(self).map_values(|k: K| self@.remove(k))
        }
    }

    proof fn lemma_shrinks_differ(&self) {
    }

    proof fn lemma_shrinks_follow_model(a: &HashMap<K, V>, b: &HashMap<K, V>) {
    }

    fn duplicate(&self) -> (r: HashMap<K, V>) {
        self.clone()
    }

    fn arbitrary(g: &mut Gen) -> (r: HashMap<K, V>) {
        let size = g.size();
        let items = Vec::<(K, V)>::arbitrary(g);
        let ghost ps = models(items@);
        let mut m: HashMap<K, V> = HashMap::new();
        let ghost mut keys: Seq<K> = seq![];
        let mut j: usize = 0;
        while j < items.len()
            invariant
                Self::obeys_arbitrary(),
                obeys_key_model::<K>(),
                j <= items@.len() <= size,
                ps == models(items@),
                forall|i: int|
                    0 <= i < ps.len() ==> K::within_size(#[trigger] ps[i].0, size as nat)
                        && V::within_size(ps[i].1, size as nat),
                m@.len() <= j,
                forall|k: K|
                    #[trigger] m@.contains_key(k) ==> exists|i: int|
                        0 <= i < j && ps[i] == (k.model(), m@[k].model()),
                keys.len() == j,
                forall|i: int|
                    0 <= i < j ==> #[trigger] keys[i].model() == ps[i].0 && m@.contains_key(keys[i]) && ((
                    forall|l: int| i < l < j ==> #[trigger] keys[l] != keys[i]) ==> m@[keys[i]].model() == ps[i].1),
            decreases items@.len() - j,
        {
            let (k, v) = items[j].duplicate();
            assert(ps[j as int] == (k.model(), v.model()));
            let ghost before = m@;
            let ghost kg = k;
            let ghost prev = keys;
            m.insert(k, v);
            assert(m@ == before.insert(kg, v));
            proof {
                keys = keys.push(kg);
                assert forall|i: int| 0 <= i < j + 1 implies #[trigger] keys[i].model() == ps[i].0
                    && m@.contains_key(keys[i]) && ((forall|l: int| i < l < j + 1 ==> #[trigger] keys[l] != keys[i])
                    ==> m@[keys[i]].model() == ps[i].1) by {
                    if i < j {
                        assert(keys[i] == prev[i]);
                        if forall|l: int| i < l < j + 1 ==> #[trigger] keys[l] != keys[i] {
                            assert(keys[j as int] != keys[i]);
                            assert forall|l: int| i < l < j implies #[trigger] prev[l] != prev[i] by {
                                assert(keys[l] == prev[l]);
                            }
                        }
                    }
                }
            }
            assert forall|x: K| #[trigger] m@.contains_key(x) implies exists|i: int|
                0 <= i < j + 1 && ps[i] == (x.model(), m@[x].model()) by {
                if x == k {
                    assert(ps[j as int] == (x.model(), m@[x].model()));
                } else {
                    assert(before.contains_key(x));
                }
            }
            j = j + 1;
        }
        assert forall|k: K| #[trigger] m@.contains_key(k) implies K::within_size(k.model(), size as nat)
            && V::within_size(m@[k].model(), size as nat) by {
            let i = choose|i: int| 0 <= i < j && ps[i] == (k.model(), m@[k].model());
            assert(K::within_size(ps[i].0, size as nat));
        }
        assert forall|i: int| #![trigger ps[i]] 0 <= i < ps.len() implies exists|k: K| #[trigger] m@.contains_key(k) && k.model()
            == ps[i].0 && ((forall|l: int| i < l < ps.len() ==> #[trigger] ps[l].0 != ps[i].0) ==> m@[k].model()
            == ps[i].1) by {
            assert(keys[i].model() == ps[i].0 && m@.contains_key(keys[i]));
            if forall|l: int| i < l < ps.len() ==> #[trigger] ps[l].0 != ps[i].0 {
                assert forall|l: int| i < l < j implies keys[l] != keys[i] by {
                    assert(keys[l].model() == ps[l].0);
                }
            }
        }
        assert(holds_all_pairs(m@, ps));
        m
    }

    /// The keys walked are the map's keys, each once.
    fn shrink(&self) -> (r: Vec<HashMap<K, V>>)
        ensures
            hash_map_keys(self).no_duplicates(),
            hash_map_keys(self).to_set() == self@.dom(),
            hash_map_keys(self).len() == self@.len(),
    {
        let ghost keys = hash_map_keys(self);
        let walk = self.keys();
        assert(walk.remaining().unref() == keys);
        proof {
            let rem = spec_keys_iter(self).remaining();
            assert(rem.unref().to_set() == self@.dom());
            assert(rem.no_duplicates());
            assert(rem.len() == self@.dom().len());
            assert forall|i: int, j: int| 0 <= i < keys.len() && 0 <= j < keys.len() && i != j implies keys[i]
                != keys[j] by {
                assert(keys[i] == *rem[i] && keys[j] == *rem[j]);
            }
        }
        let mut candidates: Vec<HashMap<K, V>> = Vec::new();
        if self.is_empty() {
            return candidates;
        }
        candidates.push(HashMap::new());
        for k in iter: walk
            invariant
                Self::obeys_arbitrary(),
                obeys_key_model::<K>(),
                keys == hash_map_keys(self),
                iter.seq().unref() == keys,
                candidates@.map_values(|c: HashMap<K, V>| c.model()) == seq![Map::<K, V>::empty()]
                    + keys.take(iter.index()).map_values(|k: K| self@.remove(k)),
        {
            let mut c = self.clone();
            c.remove(k);
            let ghost prev = candidates@.map_values(|c: HashMap<K, V>| c.model());
            candidates.push(c);
            assert(candidates@.map_values(|c: HashMap<K, V>| c.model()) =~= prev.push(
                self@.remove(*k),
            ));
            assert(keys.take(iter.index() + 1) =~= keys.take(iter.index()).push(keys[iter.index()]));
        }
        assert(keys.take(keys.len() as int) =~= keys);
        candidates
    }
}

/// The elements of a B-tree set in the order in which the set walks them.
pub open spec fn btree_set_keys<T>(m: &BTreeSet<T>) -> Seq<T> {
    into_iter_btree_keys(spec_btree_keys_iter(m))
}

/// B-tree sets are generated from a vector of elements, inserted in order,
/// and shrink by emptying or by dropping one element, in the order in which
/// the set walks them (increasing).
impl<T: Arbitrary + Ord + Clone> Arbitrary for BTreeSet<T> {
    type Model = Set<T>;

    open spec fn model(&self) -> Set<T> {
        self@
    }

    /// The elements' order must obey vstd's model of `Ord`: the set's
    /// contracts in vstd hold only then.
    open spec fn obeys_arbitrary() -> bool {
        obeys_cmp::<T>() && T::obeys_arbitrary()
    }

    /// The laws are not claimed here: the walk order is given only by the
    /// walk's own contract.
    open spec fn shrinks_by_model() -> bool {
        false
    }

    open spec fn within_size(m: Set<T>, size: nat) -> bool {
        &&& m.len() <= size
        &&& forall|x: T| #[trigger] m.contains(x) ==> T::within_size(x.model(), size)
    }

    /// The draws are those of a vector of elements; the set holds exactly
    /// the values drawn, by their models.
    open spec fn generated(size: nat, before: Seq<Sample>, m: Set<T>, after: Seq<Sample>) -> bool {
        exists|ps: Seq<T::Model>|
            #[trigger] <Vec<T> as Arbitrary>::generated(size, before, ps, after) && m.len() <= ps.len()
                && (forall|x: T| #[trigger] m.contains(x) ==> exists|i: int| 0 <= i < ps.len() && ps[i] == x.model())
                && holds_all_drawn(m, ps)
    }

    open spec fn shrink_models(&self) -> Seq<Set<T>> {
        if self@.is_empty() {
            seq![]
        } else {
            seq![Set::<T>::empty()] + btree_set_keys(self).map_values(|x: T| self@.remove(x))
        }
    }

    proof fn lemma_shrinks_differ(&self) {
    }

    proof fn lemma_shrinks_follow_model(a: &BTreeSet<T>, b: &BTreeSet<T>) {
    }

    fn duplicate(&self) -> (r: BTreeSet<T>) {
        self.clone()
    }

    fn arbitrary(g: &mut Gen) -> (r: BTreeSet<T>) {
        let size = g.size();
        let items = Vec::<T>::arbitrary(g);
        let ghost ps = models(items@);
        let mut m: BTreeSet<T> = BTreeSet::new();
        let ghost mut xs: Seq<T> = seq![];
        let mut j: usize = 0;
        while j < items.len()
            invariant
                Self::obeys_arbitrary(),
                j <= items@.len() <= size,
                ps == models(items@),
                forall|i: int| 0 <= i < ps.len() ==> T::within_size(#[trigger] ps[i], size as nat),
                m@.finite(),
                m@.len() <= j,
                forall|x: T| #[trigger] m@.contains(x) ==> exists|i: int| 0 <= i < j && ps[i] == x.model(),
                xs.len() == j,
                forall|i: int| 0 <= i < j ==> (#[trigger] xs[i]).model() == ps[i],
                forall|i: int| 0 <= i < j ==> m@.contains(#[trigger] xs[i]),
            decreases items@.len() - j,
        {
            let x = items[j].duplicate();
            assert(ps[j as int] == x.model());
            let ghost before = m@;
            let ghost xg = x;
            m.insert(x);
            proof {
                let prev = xs;
                xs = xs.push(xg);
                assert(m@ == before.insert(xg));
                assert forall|i: int| 0 <= i < j + 1 implies m@.contains(#[trigger] xs[i]) by {
                    if i < j {
                        assert(xs[i] == prev[i]);
                        assert(before.contains(prev[i]));
                    }
                }
                assert forall|i: int| 0 <= i < j + 1 implies (#[trigger] xs[i]).model() == ps[i] by {
                    if i < j {
                        assert(xs[i] == prev[i]);
                    }
                }
            }
            assert forall|y: T| #[trigger] m@.contains(y) implies exists|i: int|
                0 <= i < j + 1 && ps[i] == y.model() by {
                if y == x {
                    assert(ps[j as int] == y.model());
                } else {
                    assert(before.contains(y));
                }
            }
            j = j + 1;
        }
        assert forall|x: T| #[trigger] m@.contains(x) implies T::within_size(x.model(), size as nat) by {
            let i = choose|i: int| 0 <= i < j && ps[i] == x.model();
            assert(T::within_size(ps[i], size as nat));
        }
        assert forall|i: int| #![trigger ps[i]] 0 <= i < ps.len() implies exists|x: T| #[trigger] m@.contains(x) && x.model()
            == ps[i] by {
            assert(m@.contains(xs[i]));
            assert(xs[i].model() == ps[i]);
        }
        assert(holds_all_drawn(m@, ps));
        m
    }

    /// The elements walked are the set's elements, each once.
    fn shrink(&self) -> (r: Vec<BTreeSet<T>>)
        ensures
            btree_set_keys(self).no_duplicates(),
            btree_set_keys(self).to_set() == self@,
            btree_set_keys(self).len() == self@.len(),
    {
        let ghost keys = btree_set_keys(self);
        let walk = self.iter();
        assert(walk.remaining().unref() == keys);
        proof {
            let rem = spec_btree_keys_iter(self).remaining();
            assert(rem.unref().to_set() == self@);
            assert(rem.no_duplicates());
            assert(rem.len() == self@.len());
            assert forall|i: int, j: int| 0 <= i < keys.len() && 0 <= j < keys.len() && i != j implies keys[i]
                != keys[j] by {
                assert(keys[i] == *rem[i] && keys[j] == *rem[j]);
            }
        }
        let mut candidates: Vec<BTreeSet<T>> = Vec::new();
        if self.is_empty() {
            return candidates;
        }
        candidates.push(BTreeSet::new());
        for x in iter: walk
            invariant
                Self::obeys_arbitrary(),
                keys == btree_set_keys(self),
                iter.seq().unref() == keys,
                candidates@.map_values(|c: BTreeSet<T>| c.model()) == seq![Set::<T>::empty()]
                    + keys.take(iter.index()).map_values(|x: T| self@.remove(x)),
        {
            let mut c = self.clone();
            c.remove(x);
            let ghost prev = candidates@.map_values(|c: BTreeSet<T>| c.model());
            candidates.push(c);
            assert(candidates@.map_values(|c: BTreeSet<T>| c.model()) =~= prev.push(
                self@.remove(*x),
            ));
            assert(keys.take(iter.index() + 1) =~= keys.take(iter.index()).push(keys[iter.index()]));
        }
        assert(keys.take(keys.len() as int) =~= keys);
        candidates
    }
}

/// The elements of a hash set in the order in which the set walks them.
pub open spec fn hash_set_keys<T>(m: &HashSet<T>) -> Seq<T> {
    vstd::std_specs::hash::into_iter_hash_keys(vstd::std_specs::hash::spec_hash_keys_iter(m))
}

/// Hash sets are generated from a vector of elements, inserted in order, and
/// shrink by emptying or by dropping one element, in the order in which the
/// set walks them.
impl<T: Arbitrary + Eq + std::hash::Hash + Clone> Arbitrary for HashSet<T> {
    type Model = Set<T>;

    open spec fn model(&self) -> Set<T> {
        self@
    }

    /// The elements must obey vstd's key model, and cloning one must give
    /// back an equal value: the set's contracts hold only then.
    open spec fn obeys_arbitrary() -> bool {
        obeys_key_model::<T>() && clones_exactly::<T>() && T::obeys_arbitrary()
    }

    open spec fn shrinks_by_model() -> bool {
        false
    }

    open spec fn within_size(m: Set<T>, size: nat) -> bool {
        &&& m.len() <= size
        &&& forall|x: T| #[trigger] m.contains(x) ==> T::within_size(x.model(), size)
    }

    /// The draws are those of a vector of elements; the set holds exactly
    /// the values drawn, by their models.
    open spec fn generated(size: nat, before: Seq<Sample>, m: Set<T>, after: Seq<Sample>) -> bool {
        exists|ps: Seq<T::Model>|
            #[trigger] <Vec<T> as Arbitrary>::generated(size, before, ps, after) && m.len() <= ps.len()
                && (forall|x: T| #[trigger] m.contains(x) ==> exists|i: int| 0 <= i < ps.len() && ps[i] == x.model())
                && holds_all_drawn(m, ps)
    }

    open spec fn shrink_models(&self) -> Seq<Set<T>> {
        if self@.is_empty() {
            seq![]
        } else {
            seq![Set::<T>::empty()] + hash_set_keys(self).map_values(|x: T| self@.remove(x))
        }
    }

    proof fn lemma_shrinks_differ(&self) {
    }

    proof fn lemma_shrinks_follow_model(a: &HashSet<T>, b: &HashSet<T>) {
    }

    fn duplicate(&self) -> (r: HashSet<T>) {
        copy_hash_set(self)
    }

    fn arbitrary(g: &mut Gen) -> (r: HashSet<T>) {
        let size = g.size();
        let items = Vec::<T>::arbitrary(g);
        let ghost ps = models(items@);
        let mut m: HashSet<T> = HashSet::new();
        let ghost mut xs: Seq<T> = seq![];
        let mut j: usize = 0;
        while j < items.len()
            invariant
                Self::obeys_arbitrary(),
                j <= items@.len() <= size,
                ps == models(items@),
                forall|i: int| 0 <= i < ps.len() ==> T::within_size(#[trigger] ps[i], size as nat),
                m@.finite(),
                m@.len() <= j,
                forall|x: T| #[trigger] m@.contains(x) ==> exists|i: int| 0 <= i < j && ps[i] == x.model(),
                xs.len() == j,
                forall|i: int| 0 <= i < j ==> (#[trigger] xs[i]).model() == ps[i],
                forall|i: int| 0 <= i < j ==> m@.contains(#[trigger] xs[i]),
            decreases items@.len() - j,
        {
            let x = items[j].duplicate();
            assert(ps[j as int] == x.model());
            let ghost before = m@;
            let ghost xg = x;
            m.insert(x);
            proof {
                let prev = xs;
                xs = xs.push(xg);
                assert(m@ == before.insert(xg));
                assert forall|i: int| 0 <= i < j + 1 implies m@.contains(#[trigger] xs[i]) by {
                    if i < j {
                        assert(xs[i] == prev[i]);
                        assert(before.contains(prev[i]));
                    }
                }
                assert forall|i: int| 0 <= i < j + 1 implies (#[trigger] xs[i]).model() == ps[i] by {
                    if i < j {
                        assert(xs[i] == prev[i]);
                    }
                }
            }
            assert forall|y: T| #[trigger] m@.contains(y) implies exists|i: int|
                0 <= i < j + 1 && ps[i] == y.model() by {
                if y == x {
                    assert(ps[j as int] == y.model());
                } else {
                    assert(before.contains(y));
                }
            }
            j = j + 1;
        }
        assert forall|x: T| #[trigger] m@.contains(x) implies T::within_size(x.model(), size as nat) by {
            let i = choose|i: int| 0 <= i < j && ps[i] == x.model();
            assert(T::within_size(ps[i], size as nat));
        }
        assert forall|i: int| #![trigger ps[i]] 0 <= i < ps.len() implies exists|x: T| #[trigger] m@.contains(x) && x.model()
            == ps[i] by {
            assert(m@.contains(xs[i]));
            assert(xs[i].model() == ps[i]);
        }
        assert(holds_all_drawn(m@, ps));
        m
    }

    /// The elements walked are the set's elements, each once.
    fn shrink(&self) -> (r: Vec<HashSet<T>>)
        ensures
            hash_set_keys(self).no_duplicates(),
            hash_set_keys(self).to_set() == self@,
            hash_set_keys(self).len() == self@.len(),
    {
        let ghost keys = hash_set_keys(self);
        let walk = self.iter();
        assert(walk.remaining().unref() == keys);
        proof {
            let rem = vstd::std_specs::hash::spec_hash_keys_iter(self).remaining();
            assert(rem.unref().to_set() == self@);
            assert(rem.no_duplicates());
            assert(rem.len() == self@.len());
            assert forall|i: int, j: int| 0 <= i < keys.len() && 0 <= j < keys.len() && i != j implies keys[i]
                != keys[j] by {
                assert(keys[i] == *rem[i] && keys[j] == *rem[j]);
            }
        }
        let mut candidates: Vec<HashSet<T>> = Vec::new();
        if self.is_empty() {
            return candidates;
        }
        candidates.push(HashSet::new());
        for x in iter: walk
            invariant
                Self::obeys_arbitrary(),
                keys == hash_set_keys(self),
                iter.seq().unref() == keys,
                candidates@.map_values(|c: HashSet<T>| c.model()) == seq![Set::<T>::empty()]
                    + keys.take(iter.index()).map_values(|x: T| self@.remove(x)),
        {
            let mut c = copy_hash_set(self);
            c.remove(x);
            let ghost prev = candidates@.map_values(|c: HashSet<T>| c.model());
            candidates.push(c);
            assert(candidates@.map_values(|c: HashSet<T>| c.model()) =~= prev.push(
                self@.remove(*x),
            ));
            assert(keys.take(iter.index() + 1) =~= keys.take(iter.index()).push(keys[iter.index()]));
        }
        assert(keys.take(keys.len() as int) =~= keys);
        candidates
    }
}

/// The keys of a B-tree map in the order in which the map walks them.
pub open spec fn btree_map_keys<K, V>(m: &BTreeMap<K, V>) -> Seq<K> {
    vstd::std_specs::btree::into_iter_keys(vstd::std_specs::btree::spec_keys_iter(m))
}

/// B-tree maps are generated from a vector of key-value pairs, inserted in
/// order (a later pair replaces an earlier one with an equal key), and shrink
/// by emptying or by dropping one key, in the order in which the map walks
/// its keys (increasing).
impl<K: Arbitrary + Ord + Clone, V: Arbitrary + Clone> Arbitrary for BTreeMap<K, V> {
    type Model = Map<K, V>;

    open spec fn model(&self) -> Map<K, V> {
        self@
    }

    /// The keys' order must obey vstd's model of `Ord`, and cloning a key or
    /// a value must give back an equal value: the map's contracts hold only
    /// then.
    open spec fn obeys_arbitrary() -> bool {
        &&& obeys_cmp::<K>()
        &&& clones_exactly::<K>()
        &&& clones_exactly::<V>()
        &&& K::obeys_arbitrary()
        &&& V::obeys_arbitrary()
    }

    /// The laws are not claimed here: the walk order is given only by the
    /// walk's own contract.
    open spec fn shrinks_by_model() -> bool {
        false
    }

    open spec fn within_size(m: Map<K, V>, size: nat) -> bool {
        &&& m.len() <= size
        &&& forall|k: K|
            #[trigger] m.contains_key(k) ==> K::within_size(k.model(), size) && V::within_size(
                m[k].model(),
                size,
            )
    }

    /// The draws are those of a vector of pairs, each pair key first; every
    /// entry of the map is one of the pairs drawn, and every key drawn is in
    /// the map with the value of the last pair drawn for it.
    open spec fn generated(size: nat, before: Seq<Sample>, m: Map<K, V>, after: Seq<Sample>) -> bool {
        exists|ps: Seq<(K::Model, V::Model)>|
            #[trigger] <Vec<(K, V)> as Arbitrary>::generated(size, before, ps, after) && m.len()
                <= ps.len() && (forall|k: K|
                #[trigger] m.contains_key(k) ==> exists|i: int|
                    0 <= i < ps.len() && ps[i] == (k.model(), m[k].model()))
            && holds_all_pairs(m, ps)
    }

    open spec fn shrink_models(&self) -> Seq<Map<K, V>> {
        if self@.is_empty() {
            seq![]
        } else {
            seq![Map::<K, V>::empty()] + btree_map_keys(self).map_values(|k: K| self@.remove(k))
        }
    }

    proof fn lemma_shrinks_differ(&self) {
    }

    proof fn lemma_shrinks_follow_model(a: &BTreeMap<K, V>, b: &BTreeMap<K, V>) {
    }

    fn duplicate(&self) -> (r: BTreeMap<K, V>) {
        copy_btree_map(self)
    }

    fn arbitrary(g: &mut Gen) -> (r: BTreeMap<K, V>) {
        let size = g.size();
        let items = Vec::<(K, V)>::arbitrary(g);
        let ghost ps = models(items@);
        let mut m: BTreeMap<K, V> = BTreeMap::new();
        let ghost mut keys: Seq<K> = seq![];
        let mut j: usize = 0;
        while j < items.len()
            invariant
                Self::obeys_arbitrary(),
                j <= items@.len() <= size,
                ps == models(items@),
                forall|i: int|
                    0 <= i < ps.len() ==> K::within_size(#[trigger] ps[i].0, size as nat)
                        && V::within_size(ps[i].1, size as nat),
                m@.dom().finite(),
                m@.len() <= j,
                forall|k: K|
                    #[trigger] m@.contains_key(k) ==> exists|i: int|
                        0 <= i < j && ps[i] == (k.model(), m@[k].model()),
                keys.len() == j,
                forall|i: int|
                    0 <= i < j ==> #[trigger] keys[i].model() == ps[i].0 && m@.contains_key(keys[i]) && ((
                    forall|l: int| i < l < j ==> #[trigger] keys[l] != keys[i]) ==> m@[keys[i]].model() == ps[i].1),
            decreases items@.len() - j,
        {
            let (k, v) = items[j].duplicate();
            assert(ps[j as int] == (k.model(), v.model()));
            let ghost before = m@;
            let ghost kg = k;
            let ghost prev = keys;
            m.insert(k, v);
            assert(m@ == before.insert(kg, v));
            proof {
                keys = keys.push(kg);
                assert forall|i: int| 0 <= i < j + 1 implies #[trigger] keys[i].model() == ps[i].0
                    && m@.contains_key(keys[i]) && ((forall|l: int| i < l < j + 1 ==> #[trigger] keys[l] != keys[i])
                    ==> m@[keys[i]].model() == ps[i].1) by {
                    if i < j {
                        assert(keys[i] == prev[i]);
                        if forall|l: int| i < l < j + 1 ==> #[trigger] keys[l] != keys[i] {
                            assert(keys[j as int] != keys[i]);
                            assert forall|l: int| i < l < j implies #[trigger] prev[l] != prev[i] by {
                                assert(keys[l] == prev[l]);
                            }
                        }
                    }
                }
            }
            assert forall|x: K| #[trigger] m@.contains_key(x) implies exists|i: int|
                0 <= i < j + 1 && ps[i] == (x.model(), m@[x].model()) by {
                if x == k {
                    assert(ps[j as int] == (x.model(), m@[x].model()));
                } else {
                    assert(before.contains_key(x));
                }
            }
            j = j + 1;
        }
        assert forall|k: K| #[trigger] m@.contains_key(k) implies K::within_size(k.model(), size as nat)
            && V::within_size(m@[k].model(), size as nat) by {
            let i = choose|i: int| 0 <= i < j && ps[i] == (k.model(), m@[k].model());
            assert(K::within_size(ps[i].0, size as nat));
        }
        assert forall|i: int| #![trigger ps[i]] 0 <= i < ps.len() implies exists|k: K| #[trigger] m@.contains_key(k) && k.model()
            == ps[i].0 && ((forall|l: int| i < l < ps.len() ==> #[trigger] ps[l].0 != ps[i].0) ==> m@[k].model()
            == ps[i].1) by {
            assert(keys[i].model() == ps[i].0 && m@.contains_key(keys[i]));
            if forall|l: int| i < l < ps.len() ==> #[trigger] ps[l].0 != ps[i].0 {
                assert forall|l: int| i < l < j implies keys[l] != keys[i] by {
                    assert(keys[l].model() == ps[l].0);
                }
            }
        }
        assert(holds_all_pairs(m@, ps));
        m
    }

    /// The keys walked are the map's keys, each once.
    fn shrink(&self) -> (r: Vec<BTreeMap<K, V>>)
        ensures
            btree_map_keys(self).no_duplicates(),
            btree_map_keys(self).to_set() == self@.dom(),
            btree_map_keys(self).len() == self@.len(),
    {
        let ghost keys = btree_map_keys(self);
        let walk = self.keys();
        assert(walk.remaining().unref() == keys);
        proof {
            let rem = vstd::std_specs::btree::spec_keys_iter(self).remaining();
            assert(rem.unref().to_set() == self@.dom());
            assert(rem.no_duplicates());
            assert(rem.len() == self@.dom().len());
            assert forall|i: int, j: int| 0 <= i < keys.len() && 0 <= j < keys.len() && i != j implies keys[i]
                != keys[j] by {
                assert(keys[i] == *rem[i] && keys[j] == *rem[j]);
            }
        }
        let mut candidates: Vec<BTreeMap<K, V>> = Vec::new();
        if self.is_empty() {
            return candidates;
        }
        candidates.push(BTreeMap::new());
        for k in iter: walk
            invariant
                Self::obeys_arbitrary(),
                keys == btree_map_keys(self),
                iter.seq().unref() == keys,
                candidates@.map_values(|c: BTreeMap<K, V>| c.model()) == seq![Map::<K, V>::empty()]
                    + keys.take(iter.index()).map_values(|k: K| self@.remove(k)),
        {
            let mut c = copy_btree_map(self);
            c.remove(k);
            let ghost prev = candidates@.map_values(|c: BTreeMap<K, V>| c.model());
            candidates.push(c);
            assert(candidates@.map_values(|c: BTreeMap<K, V>| c.model()) =~= prev.push(
                self@.remove(*k),
            ));
            assert(keys.take(iter.index() + 1) =~= keys.take(iter.index()).push(keys[iter.index()]));
        }
        assert(keys.take(keys.len() as int) =~= keys);
        candidates
    }
}


/// A generated hash map is empty only when the length drawn for its vector
/// of pairs was zero: every pair drawn leaves its key in the map.
pub proof fn lemma_hash_map_empty_only_when_none_drawn<K: Arbitrary + Eq + std::hash::Hash + Clone, V: Arbitrary + Clone>(
    size: nat,
    before: Seq<Sample>,
    m: Map<K, V>,
    after: Seq<Sample>,
)
    requires
        <HashMap<K, V> as Arbitrary>::generated(size, before, m, after),
        m.dom().is_empty(),
    ensures
        after == before.push(range_draw(0, size as int, 0)),
{
    let ps = choose|ps: Seq<(K::Model, V::Model)>|
        #[trigger] <Vec<(K, V)> as Arbitrary>::generated(size, before, ps, after) && m.len() <= ps.len()
            && (forall|k: K| #[trigger] m.contains_key(k) ==> exists|i: int|
                0 <= i < ps.len() && ps[i] == (k.model(), m[k].model())) && holds_all_pairs(m, ps);
    if ps.len() > 0 {
        assert(ps[0] == ps[0]);
        let k = choose|k: K| #[trigger] m.contains_key(k) && k.model() == ps[0].0;
        assert(m.dom().contains(k));
    }
}

/// A generated B-tree map is empty only when the length drawn for its
/// vector of pairs was zero: every pair drawn leaves its key in the map.
pub proof fn lemma_btree_map_empty_only_when_none_drawn<K: Arbitrary + Ord + Clone, V: Arbitrary + Clone>(
    size: nat,
    before: Seq<Sample>,
    m: Map<K, V>,
    after: Seq<Sample>,
)
    requires
        <BTreeMap<K, V> as Arbitrary>::generated(size, before, m, after),
        m.dom().is_empty(),
    ensures
        after == before.push(range_draw(0, size as int, 0)),
{
    let ps = choose|ps: Seq<(K::Model, V::Model)>|
        #[trigger] <Vec<(K, V)> as Arbitrary>::generated(size, before, ps, after) && m.len() <= ps.len()
            && (forall|k: K| #[trigger] m.contains_key(k) ==> exists|i: int|
                0 <= i < ps.len() && ps[i] == (k.model(), m[k].model())) && holds_all_pairs(m, ps);
    if ps.len() > 0 {
        assert(ps[0] == ps[0]);
        let k = choose|k: K| #[trigger] m.contains_key(k) && k.model() == ps[0].0;
        assert(m.dom().contains(k));
    }
}

/// A generated hash set is empty only when the length drawn for its vector
/// of elements was zero: every value drawn is in the set.
pub proof fn lemma_hash_set_empty_only_when_none_drawn<T: Arbitrary + Eq + std::hash::Hash + Clone>(
    size: nat,
    before: Seq<Sample>,
    m: Set<T>,
    after: Seq<Sample>,
)
    requires
        <HashSet<T> as Arbitrary>::generated(size, before, m, after),
        m.is_empty(),
    ensures
        after == before.push(range_draw(0, size as int, 0)),
{
    let ps = choose|ps: Seq<T::Model>|
        #[trigger] <Vec<T> as Arbitrary>::generated(size, before, ps, after) && m.len() <= ps.len()
            && (forall|x: T| #[trigger] m.contains(x) ==> exists|i: int| 0 <= i < ps.len() && ps[i] == x.model())
            && holds_all_drawn(m, ps);
    if ps.len() > 0 {
        assert(ps[0] == ps[0]);
        let x = choose|x: T| #[trigger] m.contains(x) && x.model() == ps[0];
        assert(m.contains(x));
    }
}

/// A generated B-tree set is empty only when the length drawn for its
/// vector of elements was zero: every value drawn is in the set.
pub proof fn lemma_btree_set_empty_only_when_none_drawn<T: Arbitrary + Ord + Clone>(
    size: nat,
    before: Seq<Sample>,
    m: Set<T>,
    after: Seq<Sample>,
)
    requires
        <BTreeSet<T> as Arbitrary>::generated(size, before, m, after),
        m.is_empty(),
    ensures
        after == before.push(range_draw(0, size as int, 0)),
{
    let ps = choose|ps: Seq<T::Model>|
        #[trigger] <Vec<T> as Arbitrary>::generated(size, before, ps, after) && m.len() <= ps.len()
            && (forall|x: T| #[trigger] m.contains(x) ==> exists|i: int| 0 <= i < ps.len() && ps[i] == x.model())
            && holds_all_drawn(m, ps);
    if ps.len() > 0 {
        assert(ps[0] == ps[0]);
        let x = choose|x: T| #[trigger] m.contains(x) && x.model() == ps[0];
        assert(m.contains(x));
    }
}

} // verus!
