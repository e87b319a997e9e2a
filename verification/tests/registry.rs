use wallet_app::registry::Registry;

#[test]
fn registry_keeps_one_value_per_key() {
    let mut r: Registry<u32> = Registry::new();
    assert_eq!(r.count(), 0);
    r.insert("a".to_string(), 1);
    r.insert("b".to_string(), 2);
    r.insert("a".to_string(), 3);
    assert_eq!(r.count(), 2);
    assert_eq!(r.get(&"a".to_string()), Some(&3));
    assert_eq!(r.get(&"b".to_string()), Some(&2));
    assert_eq!(r.get(&"c".to_string()), None);
    assert!(r.contains_key(&"b".to_string()));
    let mut keys: Vec<String> = (0..r.count()).map(|i| r.entry(i).0.clone()).collect();
    keys.sort();
    assert_eq!(keys, vec!["a".to_string(), "b".to_string()]);
}

#[test]
fn registry_remove_hands_back_the_value() {
    let mut r: Registry<u32> = Registry::new();
    r.insert("a".to_string(), 1);
    r.insert("b".to_string(), 2);
    assert_eq!(r.remove(&"a".to_string()), Some(1));
    assert_eq!(r.remove(&"a".to_string()), None);
    assert!(!r.contains_key(&"a".to_string()));
    assert_eq!(r.count(), 1);
    assert_eq!(r.entry(0), (&"b".to_string(), &2));
}
