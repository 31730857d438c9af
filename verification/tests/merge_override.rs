use compose_yml::merge_override::MergeOverride;
use compose_yml::sorted_map::SortedMap;

#[test]
fn simple_types_are_replaced() {
    assert_eq!((1 as u16).merge_override(&(2 as u16)), (2 as u16));
    assert_eq!(false.merge_override(&true), true);
    assert_eq!(
        "s1".to_owned().merge_override(&"s2".to_owned()),
        "s2".to_owned()
    );
}

#[test]
fn option_uses_second_value_if_not_none() {
    assert_eq!(Some(false).merge_override(&Some(true)), Some(true));
    assert_eq!(Some(false).merge_override(&None), Some(false));
    assert_eq!((None as Option<bool>).merge_override(&Some(true)), Some(true));
    assert_eq!((None as Option<bool>).merge_override(&None), None);

    // Check complex recursive merge, too.
    assert_eq!(
        Some(vec![false]).merge_override(&Some(vec![true])),
        Some(vec![false, true])
    );
}

#[test]
fn vec_appends_new_values() {
    assert_eq!(vec![false].merge_override(&vec![true]), vec![false, true]);
}

#[test]
fn btree_map_merges_by_key() {
    let mut map1 = SortedMap::new();
    map1.insert("a".to_owned(), vec![false]);
    map1.insert("c".to_owned(), vec![false]);
    let mut map2 = SortedMap::new();
    map2.insert("b".to_owned(), vec![true]);
    map2.insert("c".to_owned(), vec![true]);
    let mut expected = SortedMap::new();
    expected.insert("a".to_owned(), vec![false]);
    expected.insert("b".to_owned(), vec![true]);
    expected.insert("c".to_owned(), vec![false, true]);
    assert_eq!(map1.merge_override(&map2), expected);
}

#[test]
fn merging_a_scalar_with_itself_changes_nothing() {
    assert_eq!(Some(7u32).merge_override(&Some(7u32)), Some(7u32));
    let mut map = SortedMap::new();
    map.insert("k".to_owned(), "v".to_owned());
    assert_eq!(map.merge_override(&map), map);
}

#[test]
fn merging_a_list_with_itself_repeats_it() {
    assert_eq!(vec![1u16, 2].merge_override(&vec![1u16, 2]), vec![1u16, 2, 1, 2]);
}

#[test]
fn sorted_map_keeps_keys_in_order_and_replaces_values() {
    let mut map = SortedMap::new();
    assert!(map.is_empty());
    assert_eq!(map.insert("b".to_owned(), 2u32), None);
    assert_eq!(map.insert("a".to_owned(), 1u32), None);
    assert_eq!(map.insert("c".to_owned(), 3u32), None);
    assert_eq!(map.insert("b".to_owned(), 20u32), Some(2));
    assert_eq!(map.len(), 3);
    assert_eq!(map.key_at(0), "a");
    assert_eq!(map.key_at(1), "b");
    assert_eq!(map.key_at(2), "c");
    assert_eq!(map.value_at(1), &20);
    assert_eq!(map.get("c"), Some(&3));
    assert_eq!(map.get("d"), None);
    assert!(map.contains_key("a"));
    assert!(!map.contains_key("ab"));
}
