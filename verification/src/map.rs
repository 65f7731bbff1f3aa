//! The container: a hash table from raw keys to values, reached only
//! through handles.
//!
//! An [`ErgoMap`] is abstractly a [`Map`] from raw 128-bit keys to values.
//! Every contract below that depends on the backing table behaving like a
//! map is conditioned on `builds_valid_hashers::<S>()`, vstd's model of a
//! sound hash strategy: most state it as a hypothesis of their `ensures`,
//! while the accessors that must resolve a handle or call a visitor require
//! it outright. The default [`RandomState`] satisfies it by axiom, so for
//! maps built with [`ErgoMap::new`] or [`ErgoMap::with_capacity`] the
//! contracts hold unconditionally.

use crate::id::{Id, Key};
use std::collections::hash_map::Entry;
use std::collections::hash_map::RandomState;
use std::collections::HashMap;
use std::hash::BuildHasher;
use vstd::prelude::*;
use vstd::std_specs::hash::builds_valid_hashers;
use vstd::std_specs::iter::IteratorSpec;

verus! {

broadcast use {vstd::std_specs::hash::group_hash_axioms, vstd::function::group_function_axioms};

/// A map that mints its own keys.
///
/// Inserting a value hands back an [`Id`] — the only kind of key the map
/// accepts afterwards — so a key that was never produced by an insertion
/// cannot be written down. Stale handles (removed entries, or handles minted
/// by another map) are a defined no-match condition, never undefined
/// behavior.
#[derive(Debug)]
#[verifier::reject_recursive_types(S)]
pub struct ErgoMap<T, S = RandomState> {
    map: HashMap<u128, T, S>,
}

impl<T, S> View for ErgoMap<T, S> {
    type V = Map<u128, T>;

    /// The map is abstractly its contents: raw keys to values.
    closed spec fn view(&self) -> Map<u128, T> {
        self.map@
    }
}

impl<T> ErgoMap<T, RandomState> {
    /// Under the default hash strategy, the contents are known to be
    /// finitely many entries.
    pub proof fn lemma_dom_finite(&self)
        ensures
            self@.dom().finite(),
    {
        assert(self.map@.dom().finite());
    }

    /// Creates an empty `ErgoMap`.
    pub fn new() -> (m: Self)
        ensures
            m@ == Map::<u128, T>::empty(),
    {
        ErgoMap { map: HashMap::new() }
    }

    /// Creates an empty `ErgoMap` with the specified capacity hint.
    pub fn with_capacity(capacity: usize) -> (m: Self)
        ensures
            m@ == Map::<u128, T>::empty(),
    {
        ErgoMap { map: HashMap::with_capacity(capacity) }
    }
}

impl<T, S: BuildHasher> ErgoMap<T, S> {
    /// Relies on HashMap::with_hasher: creates an empty map that will hash
    /// keys with the given builder.
    #[verifier::external_body]
    fn table_with_hasher(hash_builder: S) -> (m: Self)
        ensures
            m@.is_empty(),
    {
        ErgoMap { map: HashMap::with_hasher(hash_builder) }
    }

    /// Relies on HashMap::with_capacity_and_hasher: creates an empty map
    /// that will hash keys with the given builder; its capacity argument is
    /// a performance hint that the model does not track.
    #[verifier::external_body]
    fn table_with_capacity_and_hasher(capacity: usize, hash_builder: S) -> (m: Self)
        ensures
            m@.is_empty(),
    {
        ErgoMap { map: HashMap::with_capacity_and_hasher(capacity, hash_builder) }
    }

    /// Creates an empty `ErgoMap` which will use the given hash builder to
    /// hash keys.
    ///
    /// Warning: the default hash builder is randomly seeded to resist
    /// collision attacks on the backing table. Supplying one by hand trades
    /// that resistance away, and the contracts of this map only bind when
    /// the builder meets vstd's model of a sound hash strategy.
    pub fn with_hasher(hash_builder: S) -> (m: Self)
        ensures
            m@ == Map::<u128, T>::empty(),
    {
        let m = Self::table_with_hasher(hash_builder);
        proof {
            assert(m@ =~= Map::<u128, T>::empty());
        }
        m
    }

    /// Creates an empty `ErgoMap` with the specified capacity hint, using
    /// `hash_builder` to hash the keys.
    ///
    /// The same warning as for [`ErgoMap::with_hasher`] applies.
    pub fn with_capacity_and_hasher(capacity: usize, hash_builder: S) -> (m: Self)
        ensures
            m@ == Map::<u128, T>::empty(),
    {
        let m = Self::table_with_capacity_and_hasher(capacity, hash_builder);
        proof {
            assert(m@ =~= Map::<u128, T>::empty());
        }
        m
    }

    /// Returns the number of elements the map can hold without reallocating.
    ///
    /// Relies on HashMap::capacity. Purely a performance figure: the
    /// abstract contents say nothing about it, so nothing is promised of
    /// the result.
    #[verifier::external_body]
    pub fn capacity(&self) -> usize {
        self.map.capacity()
    }

    /// Returns the number of elements in the map.
    pub fn len(&self) -> (n: usize)
        ensures
            builds_valid_hashers::<S>() ==> n == self@.len(),
    {
        self.map.len()
    }

    /// Returns `true` if the map contains no elements.
    pub fn is_empty(&self) -> (e: bool)
        ensures
            e == self@.is_empty(),
    {
        self.map.is_empty()
    }

    /// Clears the map, removing all key-value pairs and making every
    /// previously issued handle stale. Keeps the allocated memory for reuse.
    pub fn clear(&mut self)
        ensures
            final(self)@ == Map::<u128, T>::empty(),
            forall|k: u128| !(#[trigger] final(self)@.contains_key(k)),
    {
        self.map.clear()
    }

    /// Returns `true` if the map contains a value with the specified [`Id`].
    pub fn contains_id(&self, id: &Id<T>) -> (r: bool)
        ensures
            builds_valid_hashers::<S>() ==> r == self@.contains_key(id@),
    {
        self.map.contains_key(&id.raw())
    }

    /// Inserts a value into the map and returns the fresh [`Id`] that can be
    /// used to access it.
    pub fn insert(&mut self, value: T) -> (id: Id<T>)
        ensures
            builds_valid_hashers::<S>() ==> final(self)@ == old(self)@.insert(id@, value),
            builds_valid_hashers::<S>() && old(self)@.dom().finite() ==> !old(
                self,
            )@.contains_key(id@),
    {
        let id = Id::new_for(&*self);
        self.map.insert(id.raw(), value);
        id
    }

    /// Inserts a value into the map, using the specified [`Key`] to make an
    /// [`Id`] for it.
    ///
    /// Returns `None` if that [`Id`] is already in use, leaving the existing
    /// entry untouched. Otherwise stores the value and returns its [`Id`].
    pub fn insert_as(&mut self, key: Key, value: T) -> (r: Option<Id<T>>)
        ensures
            builds_valid_hashers::<S>() ==> match r {
                Some(id) => {
                    &&& !old(self)@.contains_key(id@)
                    &&& final(self)@ == old(self)@.insert(id@, value)
                    &&& match key.derived() {
                        Some(raw) => id@ == raw,
                        None => true,
                    }
                },
                None => {
                    &&& final(self)@ == old(self)@
                    &&& match key.derived() {
                        Some(raw) => old(self)@.contains_key(raw),
                        None => true,
                    }
                },
            },
    {
        let id = Id::new(key);
        if self.contains_id(&id) {
            return None;
        }
        self.map.insert(id.raw(), value);
        Some(id)
    }

    /// Inserts a value into the map, using the specified [`Key`] to make an
    /// [`Id`] for it.
    ///
    /// If that [`Id`] is already in use, the previous corresponding value is
    /// silently dropped and replaced.
    pub fn force_insert_as(&mut self, key: Key, value: T) -> (id: Id<T>)
        ensures
            builds_valid_hashers::<S>() ==> {
                &&& final(self)@ == old(self)@.insert(id@, value)
                &&& match key.derived() {
                    Some(raw) => id@ == raw,
                    None => true,
                }
            },
    {
        let id = Id::new(key);
        self.map.insert(id.raw(), value);
        id
    }

    /// Removes a value from the map by its [`Id`], returning it if it was
    /// found in the map. The handle is stale afterwards.
    pub fn remove(&mut self, id: &Id<T>) -> (r: Option<T>)
        ensures
            builds_valid_hashers::<S>() ==> match r {
                Some(v) => {
                    &&& old(self)@.contains_key(id@)
                    &&& v == old(self)@[id@]
                    &&& final(self)@ == old(self)@.remove(id@)
                },
                None => {
                    &&& !old(self)@.contains_key(id@)
                    &&& final(self)@ == old(self)@
                },
            },
    {
        let r = self.map.remove(&id.raw());
        proof {
            if builds_valid_hashers::<S>() && !old(self)@.contains_key(id@) {
                assert(old(self)@.remove(id@) =~= old(self)@);
            }
        }
        r
    }

    /// Returns a reference to the value corresponding to the [`Id`].
    ///
    /// Callers must have established that the handle resolves; [`ErgoMap::try_get`]
    /// is the fallible counterpart for handles not known to be live.
    pub fn get(&self, id: &Id<T>) -> (v: &T)
        requires
            builds_valid_hashers::<S>(),
            self@.contains_key(id@),
        ensures
            *v == self@[id@],
    {
        self.map.get(&id.raw()).unwrap()
    }

    /// Returns a mutable reference to the value corresponding to the [`Id`].
    ///
    /// Callers must have established that the handle resolves;
    /// [`ErgoMap::try_get_mut`] is the fallible counterpart for handles not
    /// known to be live.
    pub fn get_mut(&mut self, id: &Id<T>) -> (v: &mut T)
        requires
            builds_valid_hashers::<S>(),
            old(self)@.contains_key(id@),
        ensures
            *v == old(self)@[id@],
            final(self)@ == old(self)@.insert(id@, *final(v)),
    {
        match self.map.entry(id.raw()) {
            Entry::Occupied(occ) => occ.into_mut(),
            Entry::Vacant(vac) => {
                proof {
                    assert(false);
                }
                let _unused = vac.into_key();
                vstd::pervasive::unreached()
            },
        }
    }

    /// Returns a mutable reference to the value corresponding to the [`Id`],
    /// or `None` if there is no corresponding value.
    pub fn try_get_mut(&mut self, id: &Id<T>) -> (r: Option<&mut T>)
        ensures
            builds_valid_hashers::<S>() ==> match r {
                Some(v) => {
                    &&& old(self)@.contains_key(id@)
                    &&& *v == old(self)@[id@]
                    &&& final(self)@ == old(self)@.insert(id@, *final(v))
                },
                None => {
                    &&& !old(self)@.contains_key(id@)
                    &&& final(self)@ == old(self)@
                },
            },
    {
        match self.map.entry(id.raw()) {
            Entry::Occupied(occ) => Some(occ.into_mut()),
            Entry::Vacant(vac) => {
                let _unused = vac.into_key();
                proof {
                    if builds_valid_hashers::<S>() {
                        assert(old(self)@.remove(id@) =~= old(self)@);
                    }
                }
                None
            },
        }
    }

    /// Returns a reference to the value corresponding to the [`Id`], or
    /// `None` if there is no corresponding value.
    pub fn try_get(&self, id: &Id<T>) -> (r: Option<&T>)
        ensures
            builds_valid_hashers::<S>() ==> match r {
                Some(v) => self@.contains_key(id@) && *v == self@[id@],
                None => !self@.contains_key(id@),
            },
    {
        self.map.get(&id.raw())
    }

    /// Calls the given function on the value corresponding to the specified
    /// [`Id`], returning its result, or `None` without invoking the function
    /// if the handle does not resolve.
    pub fn for_one<R, F: FnOnce(&T) -> R>(&self, id: &Id<T>, f: F) -> (r: Option<R>)
        requires
            builds_valid_hashers::<S>(),
            self@.contains_key(id@) ==> call_requires(f, (&self@[id@],)),
        ensures
            match r {
                Some(res) => self@.contains_key(id@) && call_ensures(f, (&self@[id@],), res),
                None => !self@.contains_key(id@),
            },
    {
        match self.map.get(&id.raw()) {
            Some(v) => Some(f(v)),
            None => None,
        }
    }

    /// Calls the given function on the value corresponding to the specified
    /// [`Id`], providing a mutable reference, and returns its result, or
    /// `None` without invoking the function if the handle does not resolve.
    pub fn for_one_mut<R, F: FnOnce(&mut T) -> R>(&mut self, id: &Id<T>, f: F) -> (r: Option<R>)
        requires
            builds_valid_hashers::<S>(),
            forall|args: (&mut T,)|
                old(self)@.contains_key(id@) && mut_ref_current(args.0) == old(self)@[id@]
                    ==> #[trigger] call_requires(f, args),
        ensures
            r is Some <==> old(self)@.contains_key(id@),
            r is None ==> final(self)@ == old(self)@,
            r is Some ==> exists|args: (&mut T,)|
                {
                    &&& #[trigger] call_ensures(f, args, r->Some_0)
                    &&& mut_ref_current(args.0) == old(self)@[id@]
                    &&& final(self)@ == old(self)@.insert(id@, mut_ref_future(args.0))
                },
    {
        match self.map.remove(&id.raw()) {
            Some(v) => {
                let mut value = v;
                let res = f(&mut value);
                self.map.insert(id.raw(), value);
                proof {
                    assert(old(self)@.remove(id@).insert(id@, value) =~= old(self)@.insert(
                        id@,
                        value,
                    ));
                }
                let r_out = Some(res);
                proof {
                    assert(r_out->Some_0 == res);
                    assert(exists|args: (&mut T,)|
                        {
                            &&& #[trigger] call_ensures(f, args, r_out->Some_0)
                            &&& mut_ref_current(args.0) == old(self)@[id@]
                            &&& final(self)@ == old(self)@.insert(id@, mut_ref_future(args.0))
                        });
                }
                r_out
            },
            None => None,
        }
    }

    /// Calls the given function on every id-value pair in the map, exactly
    /// once per entry, in no particular order.
    pub fn for_all<F: FnMut(&Id<T>, &T)>(&self, f: F)
        requires
            builds_valid_hashers::<S>(),
            forall|args: (&Id<T>, &T)|
                self@.contains_key(args.0@) && *args.1 == self@[args.0@]
                    ==> #[trigger] call_requires(f, args),
        ensures
            forall|k: u128| #[trigger] self@.contains_key(k) ==> call_ensures(
                f,
                (&Id::<T>::spec_from_raw(k), &self@[k]),
                (),
            ),
    {
        let mut g = f;
        for pair in it: self.map.iter()
            invariant
                g == f,
                builds_valid_hashers::<S>(),
                forall|args: (&Id<T>, &T)|
                    self@.contains_key(args.0@) && *args.1 == self@[args.0@]
                        ==> #[trigger] call_requires(f, args),
                forall|i: int|
                    0 <= i < it.index() ==> self@.contains_key(*it.seq()[i].0),
                forall|i: int|
                    #![trigger it.seq()[i]]
                    0 <= i < it.index() ==> call_ensures(
                        f,
                        (&Id::<T>::spec_from_raw(*it.seq()[i].0), &self@[*it.seq()[i].0]),
                        (),
                    ),
        {
            let id = Id::from_raw(*pair.0);
            proof {
                assert(pair == it.seq()[it.index()]);
            }
            g(&id, pair.1);
            proof {
                assert(call_ensures(f, (&id, pair.1), ()));
            }
        }
        proof {
            let v = IteratorSpec::remaining(&vstd::std_specs::hash::spec_hash_map_iter(&self.map));
            assert forall|k: u128| #[trigger] self@.contains_key(k) implies call_ensures(
                f,
                (&Id::<T>::spec_from_raw(k), &self@[k]),
                (),
            ) by {
                assert(v.contains((&k, &self@[k])));
                let i = choose|i: int| 0 <= i < v.len() && v[i] == (&k, &self@[k]);
                assert(*v[i].0 == k);
            }
        }
    }

    /// Calls the given function on every id-value pair in the map, exactly
    /// once per entry, in no particular order, providing a mutable reference
    /// to each value.
    pub fn for_all_mut<F: FnMut(&Id<T>, &mut T)>(&mut self, f: F)
        requires
            builds_valid_hashers::<S>(),
            forall|args: (&Id<T>, &mut T)|
                old(self)@.contains_key(args.0@) && mut_ref_current(args.1) == old(
                    self,
                )@[args.0@] ==> #[trigger] call_requires(f, args),
        ensures
            final(self)@.dom() == old(self)@.dom(),
            forall|k: u128| #[trigger] old(self)@.contains_key(k) ==> exists|
                args: (&Id<T>, &mut T),
            |
                {
                    &&& #[trigger] call_ensures(f, args, ())
                    &&& args.0@ == k
                    &&& mut_ref_current(args.1) == old(self)@[k]
                    &&& final(self)@[k] == mut_ref_future(args.1)
                },
    {
        let mut keys_vec: Vec<u128> = Vec::new();
        for kref in kit: self.map.keys()
            invariant
                builds_valid_hashers::<S>(),
                keys_vec@.len() == kit.index(),
                forall|j: int| 0 <= j < kit.index() ==> keys_vec@[j] == *(#[trigger] kit.seq()[j]),
        {
            keys_vec.push(*kref);
        }
        proof {
            let ks = IteratorSpec::remaining(&vstd::std_specs::hash::spec_keys_iter(&self.map));
            assert(keys_vec@ =~= ks.unref());
            assert(keys_vec@.to_set() == self@.dom());
            assert(keys_vec@.no_duplicates());
        }
        let mut g = f;
        let mut idx: usize = 0;
        while idx < keys_vec.len()
            invariant
                g == f,
                builds_valid_hashers::<S>(),
                idx <= keys_vec@.len(),
                keys_vec@.no_duplicates(),
                keys_vec@.to_set() == old(self)@.dom(),
                forall|args: (&Id<T>, &mut T)|
                    old(self)@.contains_key(args.0@) && mut_ref_current(args.1) == old(
                        self,
                    )@[args.0@] ==> #[trigger] call_requires(f, args),
                self@.dom() == old(self)@.dom(),
                forall|j: int|
                    #![trigger keys_vec@[j]]
                    idx <= j < keys_vec@.len() ==> self@[keys_vec@[j]] == old(self)@[keys_vec@[j]],
                forall|j: int|
                    #![trigger keys_vec@[j]]
                    0 <= j < idx ==> exists|args: (&Id<T>, &mut T)|
                        {
                            &&& #[trigger] call_ensures(f, args, ())
                            &&& args.0@ == keys_vec@[j]
                            &&& mut_ref_current(args.1) == old(self)@[keys_vec@[j]]
                            &&& self@[keys_vec@[j]] == mut_ref_future(args.1)
                        },
            decreases keys_vec@.len() - idx,
        {
            let k: u128 = keys_vec[idx];
            proof {
                assert(keys_vec@.to_set().contains(keys_vec@[idx as int]));
                assert(old(self)@.contains_key(k));
                assert(self@.contains_key(k));
                assert(self@[k] == old(self)@[k]);
            }
            let ghost pre_loop_map = self@;
            let id = Id::from_raw(k);
            match self.map.remove(&k) {
                Some(v) => {
                    let mut value = v;
                    g(&id, &mut value);
                    self.map.insert(k, value);
                    proof {
                        assert(self@ =~= pre_loop_map.insert(k, value));
                        assert(self@.dom() =~= old(self)@.dom());
                        assert(exists|args: (&Id<T>, &mut T)|
                            {
                                &&& #[trigger] call_ensures(f, args, ())
                                &&& args.0@ == k
                                &&& mut_ref_current(args.1) == old(self)@[k]
                                &&& mut_ref_future(args.1) == value
                            });
                        assert(exists|args: (&Id<T>, &mut T)|
                            {
                                &&& #[trigger] call_ensures(f, args, ())
                                &&& args.0@ == k
                                &&& mut_ref_current(args.1) == old(self)@[k]
                                &&& self@[k] == mut_ref_future(args.1)
                            });
                    }
                },
                None => {
                    proof {
                        assert(false);
                    }
                },
            }
            idx = idx + 1;
        }
        proof {
            assert forall|k: u128| #[trigger] old(self)@.contains_key(k) implies exists|
                args: (&Id<T>, &mut T),
            |
                {
                    &&& #[trigger] call_ensures(f, args, ())
                    &&& args.0@ == k
                    &&& mut_ref_current(args.1) == old(self)@[k]
                    &&& final(self)@[k] == mut_ref_future(args.1)
                } by {
                assert(keys_vec@.to_set().contains(k));
                let j = choose|j: int| 0 <= j < keys_vec@.len() && keys_vec@[j] == k;
                assert(keys_vec@[j] == k);
            }
        }
    }

    /// Returns every id-value pair in the map, each entry exactly once, in
    /// no particular order.
    pub fn iter(&self) -> (pairs: Vec<(Id<T>, &T)>)
        requires
            builds_valid_hashers::<S>(),
        ensures
            pairs@.len() == self@.dom().len(),
            forall|j: int|
                #![trigger pairs@[j]]
                0 <= j < pairs@.len() ==> self@.contains_key(pairs@[j].0@) && *pairs@[j].1
                    == self@[pairs@[j].0@],
            forall|j1: int, j2: int|
                0 <= j1 < j2 < pairs@.len() ==> (#[trigger] pairs@[j1]).0@ != (
                #[trigger] pairs@[j2]).0@,
            forall|k: u128| #[trigger] self@.contains_key(k) ==> exists|j: int|
                0 <= j < pairs@.len() && (#[trigger] pairs@[j]).0@ == k,
    {
        let mut pairs: Vec<(Id<T>, &T)> = Vec::new();
        for pair in it: self.map.iter()
            invariant
                builds_valid_hashers::<S>(),
                pairs@.len() == it.index(),
                forall|j: int|
                    #![trigger pairs@[j]]
                    0 <= j < it.index() ==> pairs@[j].0@ == *it.seq()[j].0 && pairs@[j].1
                        == it.seq()[j].1,
        {
            let id = Id::from_raw(*pair.0);
            pairs.push((id, pair.1));
        }
        proof {
            let v = IteratorSpec::remaining(&vstd::std_specs::hash::spec_hash_map_iter(&self.map));
            assert forall|j1: int, j2: int| 0 <= j1 < j2 < pairs@.len() implies (
            #[trigger] pairs@[j1]).0@ != (#[trigger] pairs@[j2]).0@ by {
                if pairs@[j1].0@ == pairs@[j2].0@ {
                    assert(*v[j1].0 == *v[j2].0);
                    assert(*v[j1].1 == self@[*v[j1].0]);
                    assert(*v[j2].1 == self@[*v[j2].0]);
                    assert(v[j1] == v[j2]);
                    assert(false);
                }
            }
            assert forall|k: u128| #[trigger] self@.contains_key(k) implies exists|j: int|
                0 <= j < pairs@.len() && (#[trigger] pairs@[j]).0@ == k by {
                assert(v.contains((&k, &self@[k])));
                let i = choose|i: int| 0 <= i < v.len() && v[i] == (&k, &self@[k]);
                assert(pairs@[i].0@ == *v[i].0);
                assert(*v[i].0 == k);
            }
        }
        pairs
    }

    /// Chainable variant of [`ErgoMap::insert`]: stores the value under a
    /// fresh handle and hands the map back. The handle itself is dropped.
    pub fn with(self, value: T) -> (m: Self)
        ensures
            builds_valid_hashers::<S>() ==> exists|raw: u128|
                m@ == #[trigger] self@.insert(raw, value),
            builds_valid_hashers::<S>() && self@.dom().finite() ==> exists|raw: u128|
                !self@.contains_key(raw) && m@ == #[trigger] self@.insert(raw, value),
    {
        let mut m = self;
        let id = m.insert(value);
        proof {
            if builds_valid_hashers::<S>() {
                assert(m@ == self@.insert(id@, value));
            }
        }
        m
    }

    /// Chainable variant of [`ErgoMap::remove`]: drops the entry for the
    /// handle, if any, and hands the map back.
    pub fn without(self, id: &Id<T>) -> (m: Self)
        ensures
            builds_valid_hashers::<S>() ==> m@ == self@.remove(id@),
    {
        let mut m = self;
        let removed = m.remove(id);
        proof {
            if builds_valid_hashers::<S>() && removed is None {
                assert(self@.remove(id@) =~= self@);
            }
        }
        m
    }

    /// Chainable variant of [`ErgoMap::clear`]: drops every entry and hands
    /// the map back.
    pub fn cleared(self) -> (m: Self)
        ensures
            m@ == Map::<u128, T>::empty(),
    {
        let mut m = self;
        m.clear();
        m
    }
}

impl<T: crate::id::BuildId, S: BuildHasher> ErgoMap<T, S> {
    /// Inserts a value into the map, using its own [`BuildId::get_key`] to
    /// build an [`Id`] for it.
    ///
    /// Returns `None` if that [`Id`] is already in use, leaving the existing
    /// entry untouched. Otherwise stores the value and returns its [`Id`].
    pub fn build_insert(&mut self, value: T) -> (r: Option<Id<T>>)
        ensures
            builds_valid_hashers::<S>() ==> match r {
                Some(id) => {
                    &&& !old(self)@.contains_key(id@)
                    &&& final(self)@ == old(self)@.insert(id@, value)
                    &&& match value.key_spec() {
                        Some(raw) => id@ == raw,
                        None => true,
                    }
                },
                None => {
                    &&& final(self)@ == old(self)@
                    &&& match value.key_spec() {
                        Some(raw) => old(self)@.contains_key(raw),
                        None => true,
                    }
                },
            },
    {
        let key = value.get_key();
        self.insert_as(key, value)
    }

    /// Inserts a value into the map, using its own [`BuildId::get_key`] to
    /// build an [`Id`] for it.
    ///
    /// If that [`Id`] is already in use, the previous corresponding value is
    /// silently dropped and replaced.
    pub fn force_build_insert(&mut self, value: T) -> (id: Id<T>)
        ensures
            builds_valid_hashers::<S>() ==> {
                &&& final(self)@ == old(self)@.insert(id@, value)
                &&& match value.key_spec() {
                    Some(raw) => id@ == raw,
                    None => true,
                }
            },
    {
        let key = value.get_key();
        self.force_insert_as(key, value)
    }
}

impl<T, S: Default> Default for ErgoMap<T, S> {
    /// An empty map, like [`ErgoMap::new`] but over any default hash builder.
    fn default() -> (m: Self)
        ensures
            m@ == Map::<u128, T>::empty(),
    {
        ErgoMap { map: HashMap::default() }
    }
}

impl<T: Clone, S: Clone> Clone for ErgoMap<T, S> {
    /// A clone holds the same contents, entry for entry, and resolves the
    /// same handles.
    fn clone(&self) -> (m: Self)
        ensures
            m@ == self@,
    {
        ErgoMap { map: self.map.clone() }
    }
}

} // verus!
