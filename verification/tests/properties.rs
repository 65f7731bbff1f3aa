use ergomap::{BuildId, ErgoMap, Id, Key};
use std::collections::hash_map::RandomState;
use std::collections::HashSet;

#[test]
fn insert_then_get_returns_value() {
    let mut map = ErgoMap::new();
    let id = map.insert(41);
    assert_eq!(*map.get(&id), 41);
    let id2 = map.insert(42);
    assert_eq!(*map.get(&id2), 42);
    assert_eq!(*map.get(&id), 41);
}

#[test]
fn get_mut_changes_the_stored_value() {
    let mut map = ErgoMap::new();
    let id = map.insert(5);
    *map.get_mut(&id) = 50;
    assert_eq!(*map.get(&id), 50);
    match map.try_get_mut(&id) {
        Some(v) => *v += 1,
        None => panic!("handle must resolve"),
    }
    assert_eq!(*map.get(&id), 51);
}

#[test]
fn removed_handle_stays_stale() {
    let mut map = ErgoMap::new();
    let id = map.insert(string_of("gone"));
    assert_eq!(map.remove(&id), Some(string_of("gone")));
    assert!(!map.contains_id(&id));
    assert_eq!(map.remove(&id), None);
    assert!(map.try_get(&id).is_none());
}

fn string_of(s: &str) -> String {
    s.to_string()
}

#[test]
fn thousand_inserts_mint_distinct_handles() {
    let mut map = ErgoMap::new();
    let mut ids: HashSet<Id<u32>> = HashSet::new();
    for i in 0..1000u32 {
        let id = map.insert(i);
        ids.insert(id);
    }
    assert_eq!(ids.len(), 1000);
    assert_eq!(map.len(), 1000);
}

#[test]
fn duplicate_insert_keeps_first_value() {
    let mut map = ErgoMap::new();
    let id = map.insert_as(Key::Value(7), "first").unwrap();
    assert!(map.insert_as(Key::Value(7), "second").is_none());
    assert_eq!(*map.get(&id), "first");
    assert_eq!(map.len(), 1);
}

#[test]
fn forced_insert_overwrites_value() {
    let mut map = ErgoMap::new();
    let id1 = map.force_insert_as(Key::Value(7), "first");
    let id2 = map.force_insert_as(Key::Value(7), "second");
    assert_eq!(id1, id2);
    assert_eq!(*map.get(&id1), "second");
    assert_eq!(map.len(), 1);
}

#[test]
fn clear_makes_every_handle_stale() {
    let mut map = ErgoMap::new();
    let mut ids = Vec::new();
    for i in 0..8 {
        ids.push(map.insert(i));
    }
    map.clear();
    assert_eq!(map.len(), 0);
    assert!(map.is_empty());
    for id in &ids {
        assert!(!map.contains_id(id));
        assert!(map.try_get(id).is_none());
    }
}

#[test]
fn for_all_visits_each_entry_exactly_once() {
    let mut map = ErgoMap::new();
    map.insert(10);
    map.insert(20);
    map.insert(30);

    let mut count = 0;
    let mut seen_ids: Vec<Id<i32>> = Vec::new();
    let mut seen_values: Vec<i32> = Vec::new();
    map.for_all(|id, value| {
        count += 1;
        seen_ids.push(*id);
        seen_values.push(*value);
    });

    assert_eq!(count, 3);
    let distinct: HashSet<Id<i32>> = seen_ids.iter().cloned().collect();
    assert_eq!(distinct.len(), 3);
    seen_values.sort();
    assert_eq!(seen_values, vec![10, 20, 30]);
}

#[derive(Debug)]
struct Record {
    name: String,
    score: i32,
}

impl BuildId for Record {
    // Ghost item of the trait; it is never run.
    fn key_spec(&self) -> Option<u128> {
        unreachable!()
    }

    fn get_key(&self) -> Key {
        Key::Str(self.name.clone())
    }
}

#[test]
fn build_insert_rejects_same_content_key() {
    let mut map = ErgoMap::new();
    let id = map
        .build_insert(Record { name: "alice".to_string(), score: 1 })
        .unwrap();
    assert!(map
        .build_insert(Record { name: "alice".to_string(), score: 2 })
        .is_none());
    assert_eq!(map.get(&id).score, 1);

    let id2 = map.force_build_insert(Record { name: "alice".to_string(), score: 3 });
    assert_eq!(id, id2);
    assert_eq!(map.get(&id).score, 3);
}

#[test]
fn value_key_equals_big_endian_array_key() {
    let x: u128 = 0x0102_0304_0506_0708_090a_0b0c_0d0e_0f10;
    let mut map = ErgoMap::new();
    let id = map.insert_as(Key::Value(x), 1).unwrap();
    assert!(map.insert_as(Key::Array(x.to_be_bytes()), 2).is_none());
    let id2 = map.force_insert_as(Key::Array(x.to_be_bytes()), 3);
    assert_eq!(id, id2);
    assert_eq!(*map.get(&id), 3);
}

#[test]
fn str_keys_truncate_and_pad() {
    let mut map = ErgoMap::new();
    // Truncation: the first 16 UTF-8 bytes agree, so the keys collide.
    map.insert_as(Key::Str("0123456789abcdef-one".to_string()), 1)
        .unwrap();
    assert!(map
        .insert_as(Key::Str("0123456789abcdef-two".to_string()), 2)
        .is_none());

    // Padding: a short string equals its zero-padded byte array.
    let id = map.insert_as(Key::Str("abc".to_string()), 3).unwrap();
    let mut raw = [0u8; 16];
    raw[0] = b'a';
    raw[1] = b'b';
    raw[2] = b'c';
    assert!(map.insert_as(Key::Array(raw), 4).is_none());
    assert_eq!(*map.get(&id), 3);
}

#[test]
fn chainable_variants_behave_like_their_bases() {
    let map = ErgoMap::new().with(1).with(2);
    assert_eq!(map.len(), 2);

    let mut base = ErgoMap::new();
    let id = base.insert(7);
    let without = base.without(&id);
    assert!(!without.contains_id(&id));
    assert!(without.is_empty());

    let cleared = ErgoMap::new().with(1).with(2).cleared();
    assert!(cleared.is_empty());
}

#[test]
fn clone_resolves_the_same_handles() {
    let mut map = ErgoMap::new();
    let id = map.insert(9);
    let copy = map.clone();
    assert_eq!(*copy.get(&id), 9);
    assert_eq!(copy.len(), map.len());

    let empty: ErgoMap<i32> = Default::default();
    assert!(empty.is_empty());
}

#[test]
fn custom_hasher_maps_still_resolve() {
    let mut map: ErgoMap<i32, RandomState> = ErgoMap::with_hasher(RandomState::new());
    let id = map.insert(11);
    assert_eq!(*map.get(&id), 11);

    let mut sized: ErgoMap<i32, RandomState> =
        ErgoMap::with_capacity_and_hasher(32, RandomState::new());
    assert!(sized.is_empty());
    let id2 = sized.insert_as(Key::Value(1), 12).unwrap();
    assert_eq!(*sized.get(&id2), 12);
}

#[test]
fn iter_lists_every_entry_once() {
    let mut map = ErgoMap::new();
    map.insert(10);
    map.insert(20);
    map.insert(30);

    let pairs = map.iter();
    assert_eq!(pairs.len(), 3);
    let distinct: HashSet<Id<i32>> = pairs.iter().map(|p| p.0).collect();
    assert_eq!(distinct.len(), 3);
    let mut values: Vec<i32> = pairs.iter().map(|p| *p.1).collect();
    values.sort();
    assert_eq!(values, vec![10, 20, 30]);
    for (id, value) in &pairs {
        assert_eq!(map.get(id), *value);
    }
}

#[test]
fn empty_map_edges() {
    let mut map: ErgoMap<i32> = ErgoMap::new();
    assert!(map.is_empty());
    map.clear();
    assert_eq!(map.len(), 0);
    assert!(map.is_empty());

    let mut visits = 0;
    map.for_all(|_, _| visits += 1);
    assert_eq!(visits, 0);
    assert!(map.iter().is_empty());
}

#[test]
fn extreme_and_random_keys() {
    let mut map = ErgoMap::new();
    let id_max = map.insert_as(Key::Value(u128::MAX), 1).unwrap();
    let id_zero = map.insert_as(Key::Value(0), 2).unwrap();
    assert_ne!(id_max, id_zero);
    assert_eq!(*map.get(&id_max), 1);
    assert_eq!(*map.get(&id_zero), 2);

    // The empty string pads to sixteen zero bytes: the same raw key as 0.
    assert!(map.insert_as(Key::Str(String::new()), 3).is_none());

    // A random strategy through the keyed insert still mints a usable handle.
    let id_rand = map.insert_as(Key::Random, 4).unwrap();
    assert_eq!(*map.get(&id_rand), 4);
}

#[test]
fn foreign_handles_do_not_resolve() {
    let mut minting = ErgoMap::new();
    let foreign = minting.insert_as(Key::Value(99), 1).unwrap();

    let mut map: ErgoMap<i32> = ErgoMap::new();
    map.insert_as(Key::Value(1), 2).unwrap();
    assert!(!map.contains_id(&foreign));
    assert!(map.try_get(&foreign).is_none());
    assert!(map.for_one(&foreign, |v| *v + 1).is_none());
    assert!(map.for_one_mut(&foreign, |v| *v = 5).is_none());
    assert!(map.remove(&foreign).is_none());
}
