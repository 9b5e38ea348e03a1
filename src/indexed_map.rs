use std::collections::HashMap;
use vstd::prelude::*;

verus! {

broadcast use vstd::std_specs::hash::group_hash_axioms;

/// Reported by an insertion when the key counter has reached `usize::MAX`
/// and cannot advance without wrapping around to a key already handed out.
#[derive(Debug, Clone, Copy, PartialEq, Eq, Structural)]
pub struct KeyExhausted;

/// A `HashMap` wrapper in which each value corresponds to a uniquely
/// generated `usize` key.
#[derive(Debug, Clone)]
pub struct IndexedMap<T> {
    next_key: usize,
    items: HashMap<usize, T>,
}

impl<T> View for IndexedMap<T> {
    type V = Map<usize, T>;

    /// The entries currently stored.
    closed spec fn view(&self) -> Map<usize, T> {
        self.items@
    }
}

impl<T> IndexedMap<T> {
    /// The key that the next successful insertion will hand out.
    pub closed spec fn counter(&self) -> nat {
        self.next_key as nat
    }

    /// Every stored key was produced by the counter: it lies below it.
    pub open spec fn well_formed(&self) -> bool {
        forall|k: usize| #[trigger] self@.contains_key(k) ==> (k as nat) < self.counter()
    }

    /// Creates an empty map whose first key is 0.
    pub fn new() -> (r: IndexedMap<T>)
        ensures
            r@ == Map::<usize, T>::empty(),
            r.counter() == 0,
            r.well_formed(),
    {
        IndexedMap { next_key: 0, items: HashMap::new() }
    }

    /// Creates an empty map whose first key is `first_key`.
    pub fn starting_at(first_key: usize) -> (r: IndexedMap<T>)
        ensures
            r@ == Map::<usize, T>::empty(),
            r.counter() == first_key,
            r.well_formed(),
    {
        IndexedMap { next_key: first_key, items: HashMap::new() }
    }

    /// `after` is `before` with `value` stored under `key`, where `key` is
    /// what the counter held; the counter has moved on by one.
    pub open spec fn inserted(before: Self, value: T, key: usize, after: Self) -> bool {
        &&& key as nat == before.counter()
        &&& after.counter() == before.counter() + 1
        &&& after@ == before@.insert(key, value)
    }

    /// Takes the counter's value as a key and advances the counter, unless
    /// advancing it would overflow.
    fn next_key(&mut self) -> (r: Result<usize, KeyExhausted>)
        ensures
            final(self)@ == old(self)@,
            match r {
                Ok(k) => {
                    &&& old(self).counter() < usize::MAX
                    &&& k as nat == old(self).counter()
                    &&& final(self).counter() == old(self).counter() + 1
                },
                Err(_) => {
                    &&& old(self).counter() == usize::MAX
                    &&& final(self).counter() == old(self).counter()
                },
            },
    {
        if self.next_key == usize::MAX {
            return Err(KeyExhausted);
        }
        let key = self.next_key;
        self.next_key = self.next_key + 1;
        Ok(key)
    }

    /// Stores `value` under a newly generated key and returns that key.
    ///
    /// The key is the counter's current value. When the counter stands at
    /// `usize::MAX` nothing is stored and `KeyExhausted` is returned, so a
    /// key is never produced twice.
    pub fn insert(&mut self, value: T) -> (r: Result<usize, KeyExhausted>)
        ensures
            match r {
                Ok(k) => {
                    &&& old(self).counter() < usize::MAX
                    &&& Self::inserted(*old(self), value, k, *final(self))
                    &&& old(self).well_formed() ==> !old(self)@.contains_key(k)
                },
                Err(_) => {
                    &&& old(self).counter() == usize::MAX
                    &&& final(self)@ == old(self)@
                    &&& final(self).counter() == old(self).counter()
                },
            },
            old(self).well_formed() ==> final(self).well_formed(),
    {
        let key = self.next_key()?;
        self.items.insert(key, value);
        Ok(key)
    }

    /// Read-only access to the underlying `HashMap`.
    pub fn inner(&self) -> (r: &HashMap<usize, T>)
        ensures
            r@ == self@,
    {
        &self.items
    }

    /// Mutable access to the underlying `HashMap`.
    ///
    /// Entries written through it bypass the counter: keeping them clear of
    /// keys that the counter will still produce is up to the caller.
    pub fn inner_mut(&mut self) -> (r: &mut HashMap<usize, T>)
        ensures
            (*r)@ == old(self)@,
            final(self)@ == (*final(r))@,
            final(self).counter() == old(self).counter(),
    {
        &mut self.items
    }

    /// Consumes the map and returns the underlying `HashMap`.
    pub fn into_inner(self) -> (r: HashMap<usize, T>)
        ensures
            r@ == self@,
    {
        self.items
    }
}

} // verus!
