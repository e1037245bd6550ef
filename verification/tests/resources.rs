use opendut_core::resources::Resources;

#[test]
fn new_store_is_empty() {
    let resources: Resources<String> = Resources::new();
    assert!(resources.is_empty());
    assert!(!resources.contains(1));
    assert_eq!(resources.get(1), None);
    assert!(resources.iter().is_empty());
}

#[test]
fn get_reads_back_what_was_inserted() {
    let mut resources = Resources::new();
    resources.insert(7, String::from("peer-a"));
    assert_eq!(resources.get(7), Some(String::from("peer-a")));
    assert!(resources.contains(7));
    assert!(!resources.is_empty());
}

#[test]
fn insert_replaces_and_leaves_other_ids() {
    let mut resources = Resources::new();
    resources.insert(1, 10u64);
    resources.insert(2, 20u64);
    resources.insert(1, 11u64);
    assert_eq!(resources.get(1), Some(11));
    assert_eq!(resources.get(2), Some(20));
}

#[test]
fn remove_hands_back_and_clears() {
    let mut resources = Resources::new();
    resources.insert(1, 10u64);
    resources.insert(2, 20u64);
    assert_eq!(resources.remove(1), Some(10));
    assert_eq!(resources.remove(1), None);
    assert_eq!(resources.get(1), None);
    assert_eq!(resources.get(2), Some(20));
    assert!(!resources.contains(1));
}

#[test]
fn insert_then_remove_restores_empty_store() {
    let mut resources = Resources::new();
    resources.insert(u128::MAX, 1u8);
    assert_eq!(resources.remove(u128::MAX), Some(1));
    assert!(resources.is_empty());
}

#[test]
fn update_modifies_a_stored_resource() {
    let mut resources = Resources::new();
    resources.insert(3, 4u64);
    resources.update(3).modify(|value| *value += 1).or_insert(0);
    assert_eq!(resources.get(3), Some(5));
}

#[test]
fn update_of_a_missing_resource_inserts_it() {
    let mut resources = Resources::new();
    resources.insert(3, 4u64);
    resources.update(9).modify(|value| *value += 1).or_insert(100);
    assert_eq!(resources.get(9), Some(100));
    assert_eq!(resources.get(3), Some(4));
}

#[test]
fn or_insert_keeps_what_is_stored() {
    let mut resources = Resources::new();
    resources.insert(3, 4u64);
    resources.update(3).or_insert(100);
    assert_eq!(resources.get(3), Some(4));
}

#[test]
fn modify_without_or_insert_keeps_the_change() {
    let mut resources = Resources::new();
    resources.insert(3, String::from("a"));
    let _ = resources.update(3).modify(|value| value.push('b'));
    assert_eq!(resources.get(3), Some(String::from("ab")));
    let _ = resources.update(4).modify(|value| value.push('b'));
    assert_eq!(resources.get(4), None);
}

#[test]
fn iter_yields_every_resource_once() {
    let mut resources = Resources::new();
    resources.insert(1, 10u64);
    resources.insert(2, 20u64);
    resources.insert(3, 30u64);
    let mut values: Vec<u64> = resources.iter().into_iter().copied().collect();
    values.sort();
    assert_eq!(values, vec![10, 20, 30]);
}

#[test]
fn iter_mut_changes_every_resource() {
    let mut resources = Resources::new();
    resources.insert(1, 10u64);
    resources.insert(2, 20u64);
    resources.iter_mut(|value| *value *= 2);
    assert_eq!(resources.get(1), Some(20));
    assert_eq!(resources.get(2), Some(40));
}

#[test]
fn get_hands_out_independent_equal_copies() {
    let mut resources = Resources::new();
    resources.insert(1, String::from("peer"));
    let mut first = resources.get(1).unwrap();
    let second = resources.get(1).unwrap();
    assert_eq!(first, second);
    first.push_str("-changed");
    assert_eq!(resources.get(1), Some(String::from("peer")));
}
