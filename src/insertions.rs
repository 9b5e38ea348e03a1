//! Facts about a run of successive insertions into one map.
use vstd::prelude::*;

use crate::indexed_map::IndexedMap;

verus! {

/// `states` are the successive states of one map through a run of
/// successful insertions: the `i`-th stored `values[i]` and returned
/// `keys[i]`, taking `states[i]` to `states[i + 1]`.
pub open spec fn insertion_run<T>(
    states: Seq<IndexedMap<T>>,
    values: Seq<T>,
    keys: Seq<usize>,
) -> bool {
    &&& states.len() == values.len() + 1
    &&& keys.len() == values.len()
    &&& forall|i: int|
        0 <= i < values.len() ==> #[trigger] IndexedMap::inserted(
            states[i],
            values[i],
            keys[i],
            states[i + 1],
        )
}

/// The entries that the first `n` insertions of a run stored, on a map whose
/// counter stood at `first` when the run began.
pub open spec fn run_entries<T>(first: nat, values: Seq<T>, n: nat) -> Map<usize, T> {
    Map::new(|k: usize| first <= k < first + n, |k: usize| values[k - first])
}

/// After the first `n` insertions of a run, the counter has moved on by `n`,
/// the keys handed out so far are consecutive, and the map holds what it held
/// before, overwritten by what the run stored.
proof fn lemma_run_prefix<T>(
    states: Seq<IndexedMap<T>>,
    values: Seq<T>,
    keys: Seq<usize>,
    n: nat,
)
    requires
        insertion_run(states, values, keys),
        n <= values.len(),
    ensures
        states[n as int].counter() == states[0].counter() + n,
        forall|j: int| 0 <= j < n ==> #[trigger] keys[j] == states[0].counter() + j,
        states[n as int]@ == states[0]@.union_prefer_right(
            run_entries(states[0].counter(), values, n),
        ),
    decreases n,
{
    let first = states[0].counter();
    if n == 0 {
        assert(states[0]@ == states[0]@.union_prefer_right(run_entries(first, values, 0)));
    } else {
        let m = (n - 1) as nat;
        lemma_run_prefix(states, values, keys, m);
        let i = m as int;
        assert(IndexedMap::inserted(states[i], values[i], keys[i], states[i + 1]));
        assert(states[n as int]@ == states[0]@.union_prefer_right(run_entries(first, values, n)));
    }
}

/// The keys that a run of insertions returns are pairwise distinct.
pub proof fn lemma_run_keys_distinct<T>(
    states: Seq<IndexedMap<T>>,
    values: Seq<T>,
    keys: Seq<usize>,
)
    requires
        insertion_run(states, values, keys),
    ensures
        forall|i: int, j: int|
            0 <= i < keys.len() && 0 <= j < keys.len() && i != j ==> keys[i] != keys[j],
{
    lemma_run_prefix(states, values, keys, values.len());
}

/// On a freshly created map, the `k`-th insertion (counting from 0) returns
/// the key `k`.
pub proof fn lemma_fresh_run_keys<T>(
    states: Seq<IndexedMap<T>>,
    values: Seq<T>,
    keys: Seq<usize>,
)
    requires
        insertion_run(states, values, keys),
        states[0]@ == Map::<usize, T>::empty(),
        states[0].counter() == 0,
    ensures
        forall|k: int| 0 <= k < keys.len() ==> #[trigger] keys[k] == k,
{
    lemma_run_prefix(states, values, keys, values.len());
}

/// A value stored by an insertion is found under the key it returned, after
/// any number of later insertions into the same map.
pub proof fn lemma_run_values_retained<T>(
    states: Seq<IndexedMap<T>>,
    values: Seq<T>,
    keys: Seq<usize>,
)
    requires
        insertion_run(states, values, keys),
    ensures
        forall|i: int|
            0 <= i < keys.len() ==> {
                &&& #[trigger] states.last()@.contains_key(keys[i])
                &&& states.last()@[keys[i]] == values[i]
            },
{
    lemma_run_prefix(states, values, keys, values.len());
}

/// A freshly created map, after a run of insertions, holds exactly one entry
/// per insertion: the key `k` maps to the `k`-th value, and nothing else is
/// stored.
pub proof fn lemma_fresh_run_contents<T>(
    states: Seq<IndexedMap<T>>,
    values: Seq<T>,
    keys: Seq<usize>,
)
    requires
        insertion_run(states, values, keys),
        states[0]@ == Map::<usize, T>::empty(),
        states[0].counter() == 0,
    ensures
        states.last()@ == Map::new(
            |k: usize| (k as int) < values.len(),
            |k: usize| values[k as int],
        ),
        states.last()@.dom().len() == values.len(),
{
    lemma_run_prefix(states, values, keys, values.len());
    lemma_fresh_run_size(states, values, keys, values.len());
    assert(states.last()@ == Map::new(
        |k: usize| (k as int) < values.len(),
        |k: usize| values[k as int],
    ));
}

/// On a freshly created map, the first `n` insertions of a run leave `n`
/// entries.
proof fn lemma_fresh_run_size<T>(
    states: Seq<IndexedMap<T>>,
    values: Seq<T>,
    keys: Seq<usize>,
    n: nat,
)
    requires
        insertion_run(states, values, keys),
        states[0]@ == Map::<usize, T>::empty(),
        states[0].counter() == 0,
        n <= values.len(),
    ensures
        states[n as int]@.dom().finite(),
        states[n as int]@.dom().len() == n,
    decreases n,
{
    if n > 0 {
        let m = (n - 1) as nat;
        lemma_fresh_run_size(states, values, keys, m);
        lemma_run_prefix(states, values, keys, m);
        let i = m as int;
        assert(IndexedMap::inserted(states[i], values[i], keys[i], states[i + 1]));
        assert(!states[m as int]@.contains_key(keys[m as int]));
        assert(states[n as int]@.dom() == states[m as int]@.dom().insert(keys[m as int]));
    }
}

} // verus!
