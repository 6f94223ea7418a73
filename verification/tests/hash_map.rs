use axiom_kernel::maps::hash::HashMap;
use axiom_kernel::maps::{BpfMap, MapDef, MapError, MapType, BPF_ANY, BPF_EXIST, BPF_NOEXIST};
use axiom_kernel::profile::{ActiveProfile, CloudProfile, EmbeddedProfile};

#[test]
fn create_hash_map() {
    let map = HashMap::<ActiveProfile>::with_sizes(4, 8, 100).expect("create map");
    assert_eq!(map.def().max_entries, 100);
    assert_eq!(map.def().key_size, 4);
    assert_eq!(map.def().value_size, 8);
    assert!(map.is_empty());
}

#[test]
fn hash_map_operations() {
    let mut map = HashMap::<ActiveProfile>::with_sizes(4, 8, 100).expect("create map");

    let key = 42u32.to_ne_bytes();
    let value = 123u64.to_ne_bytes();
    map.update(&key, &value, 0).expect("insert");
    assert_eq!(map.len(), 1);

    let result = map.lookup(&key).expect("lookup");
    assert_eq!(result, value);

    let new_value = 456u64.to_ne_bytes();
    map.update(&key, &new_value, 0).expect("update");
    let result = map.lookup(&key).expect("lookup after update");
    assert_eq!(result, new_value);
    assert_eq!(map.len(), 1);

    map.delete(&key).expect("delete");
    assert!(map.lookup(&key).is_none());
    assert_eq!(map.len(), 0);
}

#[test]
fn hash_map_noexist_flag() {
    let mut map = HashMap::<ActiveProfile>::with_sizes(4, 8, 100).expect("create map");

    let key = 1u32.to_ne_bytes();
    let value = [0u8; 8];

    map.update(&key, &value, 1).expect("first insert");

    let result = map.update(&key, &value, 1);
    assert!(matches!(result, Err(MapError::KeyExists)));
}

#[test]
fn hash_map_exist_flag() {
    let mut map = HashMap::<ActiveProfile>::with_sizes(4, 8, 100).expect("create map");

    let key = 1u32.to_ne_bytes();
    let value = [0u8; 8];

    let result = map.update(&key, &value, 2);
    assert!(matches!(result, Err(MapError::KeyNotFound)));

    map.update(&key, &value, 0).expect("insert");

    map.update(&key, &value, 2).expect("update existing");
}

#[test]
fn hash_map_many_entries() {
    let mut map = HashMap::<CloudProfile>::with_sizes(4, 4, 1000).expect("create map");

    for i in 0u32..500 {
        let key = i.to_ne_bytes();
        let value = (i * 2).to_ne_bytes();
        map.update(&key, &value, 0).expect("insert");
    }

    assert_eq!(map.len(), 500);

    for i in 0u32..500 {
        let key = i.to_ne_bytes();
        let result = map.lookup(&key).expect("lookup");
        let expected = (i * 2).to_ne_bytes();
        assert_eq!(result, expected);
    }

    for i in 0u32..250 {
        let key = i.to_ne_bytes();
        map.delete(&key).expect("delete");
    }

    assert_eq!(map.len(), 250);

    for i in 0u32..250 {
        let key = i.to_ne_bytes();
        assert!(map.lookup(&key).is_none());
    }

    for i in 250u32..500 {
        let key = i.to_ne_bytes();
        assert!(map.lookup(&key).is_some());
    }
}

#[test]
fn hash_map_full() {
    let mut map = HashMap::<ActiveProfile>::with_sizes(4, 4, 10).expect("create map");

    for i in 0u32..10 {
        let key = i.to_ne_bytes();
        let value = i.to_ne_bytes();
        map.update(&key, &value, 0).expect("insert");
    }

    let key = 100u32.to_ne_bytes();
    let value = 100u32.to_ne_bytes();
    let result = map.update(&key, &value, 0);
    assert!(matches!(result, Err(MapError::MapFull)));
}

#[test]
fn hash_map_reuse_deleted() {
    let mut map = HashMap::<ActiveProfile>::with_sizes(4, 4, 10).expect("create map");

    for i in 0u32..10 {
        let key = i.to_ne_bytes();
        let value = i.to_ne_bytes();
        map.update(&key, &value, 0).expect("insert");
    }

    let key = 5u32.to_ne_bytes();
    map.delete(&key).expect("delete");

    let new_key = 100u32.to_ne_bytes();
    let new_value = 100u32.to_ne_bytes();
    map.update(&new_key, &new_value, 0).expect("insert into deleted slot");
}

#[test]
fn hash_map_invalid_sizes() {
    let result = HashMap::<ActiveProfile>::with_sizes(0, 8, 100);
    assert!(matches!(result, Err(MapError::InvalidKey)));

    let result = HashMap::<ActiveProfile>::with_sizes(4, 0, 100);
    assert!(matches!(result, Err(MapError::InvalidValue)));

    let result = HashMap::<ActiveProfile>::with_sizes(4, 8, 0);
    assert!(matches!(result, Err(MapError::InvalidValue)));
}

#[test]
fn hash_map_wrong_key_size() {
    let mut map = HashMap::<ActiveProfile>::with_sizes(4, 8, 100).expect("create map");

    let bad_key = [1u8, 2, 3];
    assert!(map.lookup(&bad_key).is_none());

    let value = [0u8; 8];
    assert!(matches!(map.update(&bad_key, &value, 0), Err(MapError::InvalidKey)));
}

#[test]
fn hash_map_wrong_value_size() {
    let mut map = HashMap::<ActiveProfile>::with_sizes(4, 8, 100).expect("create map");

    let key = 1u32.to_ne_bytes();
    let bad_value = [1u8, 2, 3];

    assert!(matches!(map.update(&key, &bad_value, 0), Err(MapError::InvalidValue)));
}

#[test]
fn embedded_budget_refuses_large_maps() {
    // 64 KiB budget: 8 + 8 bytes per entry times 8192 entries is 128 KiB.
    let result = HashMap::<EmbeddedProfile>::with_sizes(8, 8, 8192);
    assert!(matches!(result, Err(MapError::OutOfMemory)));
    assert!(HashMap::<CloudProfile>::with_sizes(8, 8, 8192).is_ok());
}

#[test]
fn map_def_total_size_and_type() {
    let def = MapDef::new(MapType::Hash, 4, 8, 10);
    assert_eq!(def.total_size(), 120);
    assert!(HashMap::<ActiveProfile>::new(def).is_ok());
    let array = MapDef::new(MapType::Array, 4, 8, 10);
    assert!(matches!(HashMap::<ActiveProfile>::new(array), Err(MapError::InvalidMapType)));
}

#[test]
fn update_flags_constants() {
    let mut map = HashMap::<ActiveProfile>::with_sizes(1, 1, 4).expect("create map");
    assert_eq!(BPF_ANY, 0);
    assert_eq!(BPF_NOEXIST, 1);
    assert_eq!(BPF_EXIST, 2);
    map.update(&[7], &[1], BPF_NOEXIST).unwrap();
    map.update(&[7], &[2], BPF_EXIST).unwrap();
    assert_eq!(map.lookup(&[7]), Some(vec![2]));
    assert_eq!(map.delete(&[8]), Err(MapError::KeyNotFound));
}

#[test]
fn hash_map_resize() {
    let mut map = HashMap::<CloudProfile>::with_sizes(4, 4, 10).expect("create map");

    for i in 0u32..5 {
        let key = i.to_ne_bytes();
        let value = (i * 10).to_ne_bytes();
        map.update(&key, &value, 0).expect("insert");
    }

    map.resize(20).expect("resize");
    assert_eq!(map.capacity(), 20);

    for i in 0u32..5 {
        let key = i.to_ne_bytes();
        let result = map.lookup(&key).expect("lookup after resize");
        let expected = (i * 10).to_ne_bytes();
        assert_eq!(result, expected);
    }

    for i in 10u32..20 {
        let key = i.to_ne_bytes();
        let value = i.to_ne_bytes();
        map.update(&key, &value, 0).expect("insert after resize");
    }
}

#[test]
fn hash_map_resize_refuses_too_small() {
    let mut map = HashMap::<CloudProfile>::with_sizes(1, 1, 4).expect("create map");
    map.update(&[1], &[1], BPF_ANY).unwrap();
    map.update(&[2], &[2], BPF_ANY).unwrap();
    assert_eq!(map.resize(1), Err(MapError::InvalidValue));
    assert_eq!(map.resize(0), Err(MapError::InvalidValue));
    assert_eq!(map.capacity(), 4);
    map.resize(2).unwrap();
    assert_eq!(map.len(), 2);
    assert_eq!(map.update(&[3], &[3], BPF_ANY), Err(MapError::MapFull));
}
