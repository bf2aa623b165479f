use powchain::primitives::digest_map::DigestMap;

#[test]
fn empty_map_holds_nothing() {
    let map: DigestMap<u64> = DigestMap::new();
    assert_eq!(map.len(), 0);
    assert!(!map.contains_key(&[0u8; 32]));
    assert_eq!(map.get(&[0u8; 32]), None);
}

#[test]
fn insert_then_get() {
    let mut map: DigestMap<u64> = DigestMap::new();
    map.insert([1u8; 32], 10);
    map.insert([2u8; 32], 20);
    assert_eq!(map.len(), 2);
    assert_eq!(map.get(&[1u8; 32]), Some(&10));
    assert_eq!(map.get(&[2u8; 32]), Some(&20));
    assert_eq!(map.get(&[3u8; 32]), None);
    assert!(map.contains_key(&[2u8; 32]));
    assert!(!map.contains_key(&[3u8; 32]));
}

#[test]
fn insert_under_a_known_key_replaces_in_place() {
    let mut map: DigestMap<u64> = DigestMap::new();
    map.insert([1u8; 32], 10);
    map.insert([2u8; 32], 20);
    map.insert([1u8; 32], 11);
    assert_eq!(map.len(), 2);
    assert_eq!(map.get(&[1u8; 32]), Some(&11));
    assert_eq!(map.key_at(0), &[1u8; 32]);
    assert_eq!(map.value_at(0), &11);
    assert_eq!(map.key_at(1), &[2u8; 32]);
    assert_eq!(map.value_at(1), &20);
}

#[test]
fn keys_that_differ_in_one_byte_are_distinct() {
    let mut a = [0u8; 32];
    let mut b = [0u8; 32];
    a[31] = 1;
    b[30] = 1;
    let mut map: DigestMap<u64> = DigestMap::new();
    map.insert(a, 1);
    map.insert(b, 2);
    map.insert([0u8; 32], 3);
    assert_eq!(map.len(), 3);
    assert_eq!(map.get(&a), Some(&1));
    assert_eq!(map.get(&b), Some(&2));
    assert_eq!(map.get(&[0u8; 32]), Some(&3));
}
