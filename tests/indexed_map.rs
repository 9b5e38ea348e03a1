use indexed_map::{IndexedMap, KeyExhausted};
use std::collections::HashMap;

#[test]
fn fruits_get_consecutive_keys() {
    let mut fruits = IndexedMap::new();
    assert_eq!(fruits.insert("Apple"), Ok(0));
    assert_eq!(fruits.insert("Orange"), Ok(1));
    assert_eq!(fruits.insert("Pear"), Ok(2));
    assert_eq!(fruits.inner().get(&0), Some(&"Apple"));
    assert_eq!(fruits.inner().get(&1), Some(&"Orange"));
    assert_eq!(fruits.inner().get(&2), Some(&"Pear"));
    assert_eq!(fruits.inner().len(), 3);
}

#[test]
fn into_inner_of_new_map_is_empty() {
    let m: IndexedMap<String> = IndexedMap::new();
    assert!(m.into_inner().is_empty());
}

#[test]
fn many_insertions_give_distinct_keys_counting_from_zero() {
    let mut m = IndexedMap::new();
    let mut keys = Vec::new();
    for i in 0..200u32 {
        keys.push(m.insert(i * 3).unwrap());
    }
    for (k, key) in keys.iter().enumerate() {
        assert_eq!(*key, k);
    }
    let mut sorted = keys.clone();
    sorted.sort();
    sorted.dedup();
    assert_eq!(sorted.len(), keys.len());
}

#[test]
fn value_survives_later_insertions() {
    let mut m = IndexedMap::new();
    m.insert(String::from("before")).unwrap();
    let k = m.insert(String::from("target")).unwrap();
    for i in 0..50 {
        m.insert(format!("after {}", i)).unwrap();
    }
    assert_eq!(m.inner().get(&k), Some(&String::from("target")));
    assert_eq!(m.inner().get(&0), Some(&String::from("before")));
}

#[test]
fn into_inner_holds_exactly_the_inserted_entries() {
    let mut m = IndexedMap::new();
    let a = m.insert('a').unwrap();
    let b = m.insert('b').unwrap();
    let c = m.insert('c').unwrap();
    let owned = m.into_inner();
    let mut expected = HashMap::new();
    expected.insert(a, 'a');
    expected.insert(b, 'b');
    expected.insert(c, 'c');
    assert_eq!(owned, expected);
}

#[test]
fn insertion_at_counter_limit_reports_exhaustion() {
    let mut m = IndexedMap::starting_at(usize::MAX - 2);
    assert_eq!(m.insert(10), Ok(usize::MAX - 2));
    assert_eq!(m.insert(11), Ok(usize::MAX - 1));
    assert_eq!(m.insert(12), Err(KeyExhausted));
    assert_eq!(m.insert(13), Err(KeyExhausted));
    assert_eq!(m.inner().len(), 2);
    assert_eq!(m.inner().get(&(usize::MAX - 2)), Some(&10));
    assert_eq!(m.inner().get(&(usize::MAX - 1)), Some(&11));
    assert_eq!(m.inner().get(&usize::MAX), None);
}

#[test]
fn starting_at_sets_first_key() {
    let mut m = IndexedMap::starting_at(40);
    assert!(m.inner().is_empty());
    assert_eq!(m.insert("x"), Ok(40));
    assert_eq!(m.insert("y"), Ok(41));
}

#[test]
fn inner_mut_edits_entries_without_moving_counter() {
    let mut m = IndexedMap::new();
    let k = m.insert(1).unwrap();
    *m.inner_mut().get_mut(&k).unwrap() = 5;
    m.inner_mut().insert(100, 7);
    assert_eq!(m.inner().get(&k), Some(&5));
    assert_eq!(m.inner().get(&100), Some(&7));
    assert_eq!(m.insert(9), Ok(1));
    m.inner_mut().remove(&0);
    assert_eq!(m.insert(11), Ok(2));
    assert_eq!(m.inner().len(), 3);
}

#[test]
fn clone_keeps_entries_and_counter() {
    let mut m = IndexedMap::new();
    m.insert(3u8).unwrap();
    let mut copy = m.clone();
    assert_eq!(copy.inner(), m.inner());
    assert_eq!(copy.insert(4), Ok(1));
    assert_eq!(m.insert(5), Ok(1));
}
