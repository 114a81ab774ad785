use std::cell::Cell;
use std::collections::{HashMap, HashSet};

use to_vec::fallible::collect_until_failure;
use to_vec::{ToMap, ToSet, ToVec, ToVecResult};

const VALUES: &[(&str, i32)] = &[("hello", 10), ("dolly", 20)];

#[test]
fn test_to_vec() {
    let v = "one two three".split_whitespace().to_vec();
    assert_eq!(v, &["one", "two", "three"]);
}

#[test]
fn test_to_vec_result() {
    let numbers = "23E 5F5 FF00"
        .split_whitespace()
        .map(|s| u32::from_str_radix(s, 16))
        .to_vec_result()
        .unwrap();

    assert_eq!(numbers, &[0x23E, 0x5F5, 0xFF00]);
}

#[test]
fn test_to_set() {
    let set1 = [10, 5, 2, 5, 10].iter().to_set();
    let set2 = [2, 5, 10].iter().to_set();

    assert_eq!(set1, set2);

    let set3 = set1.intersection(&set2).to_set();
    assert_eq!(set3, set1);

    let colours = ["green", "orange", "blue"].iter().to_set();
    let fruit = ["apple", "banana", "orange"].iter().to_set();
    let common = colours.intersection(&fruit).to_set();
    assert_eq!(common, ["orange"].iter().to_set());
}

#[test]
fn test_to_map() {
    let map = VALUES.iter().to_map();

    assert_eq!(map.get("hello"), Some(&10));
    assert_eq!(map.get("dolly"), Some(&20));
}

#[test]
fn to_vec_keeps_order_and_duplicates() {
    let v = vec![3, 1, 3, 2, 1].into_iter().to_vec();
    assert_eq!(v, vec![3, 1, 3, 2, 1]);
    assert_eq!(v.len(), 5);
    assert_eq!(v[0], 3);
    assert_eq!(v[4], 1);
}

#[test]
fn to_vec_of_nothing_is_empty() {
    let v: Vec<u8> = Vec::<u8>::new().into_iter().to_vec();
    assert!(v.is_empty());
}

#[test]
fn to_vec_takes_what_is_left() {
    let mut it = [1, 2, 3, 4].iter();
    assert_eq!(it.next(), Some(&1));
    let v = it.to_vec();
    assert_eq!(v, vec![&2, &3, &4]);
}

#[test]
fn to_vec_result_all_successes() {
    let items: Vec<Result<i32, String>> = vec![Ok(4), Ok(4), Ok(-1)];
    assert_eq!(items.into_iter().to_vec_result(), Ok(vec![4, 4, -1]));
}

#[test]
fn to_vec_result_of_nothing_is_an_empty_success() {
    let items: Vec<Result<i32, String>> = Vec::new();
    assert_eq!(items.into_iter().to_vec_result(), Ok(Vec::new()));
}

#[test]
fn to_vec_result_returns_the_first_failure() {
    let items: Vec<Result<i32, &str>> = vec![Ok(1), Err("first"), Ok(2), Err("second")];
    assert_eq!(items.into_iter().to_vec_result(), Err("first"));
}

#[test]
fn to_vec_result_failure_in_front() {
    let items: Vec<Result<i32, u8>> = vec![Err(9), Ok(1)];
    assert_eq!(items.into_iter().to_vec_result(), Err(9));
}

#[test]
fn to_vec_result_failure_at_the_end() {
    let items: Vec<Result<i32, u8>> = vec![Ok(1), Ok(2), Err(3)];
    assert_eq!(items.into_iter().to_vec_result(), Err(3));
}

#[test]
fn to_vec_result_hands_the_parse_error_on() {
    let expected = u32::from_str_radix("xyz", 16).unwrap_err();
    let r = "23E xyz FF00 ???"
        .split_whitespace()
        .map(|s| u32::from_str_radix(s, 16))
        .to_vec_result();
    assert_eq!(r, Err(expected));
}

#[test]
fn to_vec_result_stops_at_the_first_failure() {
    let seen = Cell::new(0);
    let r = ["1", "2", "x", "4", "y", "6"]
        .iter()
        .map(|s| {
            seen.set(seen.get() + 1);
            s.parse::<u32>().map_err(|_| *s)
        })
        .to_vec_result();
    assert_eq!(r, Err("x"));
    assert_eq!(seen.get(), 3);
}

#[test]
fn to_vec_result_walks_to_the_end_on_success() {
    let seen = Cell::new(0);
    let r = ["1", "2", "3"]
        .iter()
        .map(|s| {
            seen.set(seen.get() + 1);
            s.parse::<u32>()
        })
        .to_vec_result();
    assert_eq!(r, Ok(vec![1, 2, 3]));
    assert_eq!(seen.get(), 3);
}

#[test]
fn collect_until_failure_leaves_the_rest() {
    let items: Vec<Result<i32, char>> = vec![Ok(1), Ok(2), Err('a'), Ok(3), Err('b'), Ok(4)];
    let mut it = items.into_iter();

    assert_eq!(collect_until_failure(&mut it), Err('a'));
    assert_eq!(it.len(), 3);
    assert_eq!(collect_until_failure(&mut it), Err('b'));
    assert_eq!(collect_until_failure(&mut it), Ok(vec![4]));
    assert_eq!(it.next(), None);
    assert_eq!(collect_until_failure(&mut it), Ok(Vec::new()));
}

#[test]
fn to_map_last_pair_wins() {
    let pairs = [("a", 1), ("a", 2)];
    let map = pairs.iter().to_map();
    assert_eq!(map.len(), 1);
    assert_eq!(map.get("a"), Some(&2));
}

#[test]
fn to_map_has_one_entry_for_each_key() {
    let pairs = [(1, 'x'), (2, 'y'), (1, 'z'), (3, 'w'), (2, 'v')];
    let map = pairs.iter().to_map();

    let mut expected = HashMap::new();
    expected.insert(1, 'z');
    expected.insert(2, 'v');
    expected.insert(3, 'w');
    assert_eq!(map, expected);
    assert_eq!(map.get(&4), None);
}

#[test]
fn to_map_of_nothing_is_empty() {
    let pairs: [(u8, u8); 0] = [];
    assert!(pairs.iter().to_map().is_empty());
}

#[test]
fn to_map_owns_clones() {
    let map = {
        let pairs = vec![(String::from("k"), vec![1, 2]), (String::from("l"), vec![])];
        pairs.iter().to_map()
    };
    assert_eq!(map.get("k"), Some(&vec![1, 2]));
    assert_eq!(map.get("l"), Some(&Vec::new()));
    assert_eq!(map.len(), 2);
}

#[test]
fn to_set_collapses_duplicates() {
    let set = [7, 7, 7, 8].iter().to_set();

    let mut expected = HashSet::new();
    expected.insert(7);
    expected.insert(8);
    assert_eq!(set, expected);
    assert_eq!(set.len(), 2);
    assert!(!set.contains(&9));
}

#[test]
fn to_set_of_nothing_is_empty() {
    let items: [u8; 0] = [];
    assert!(items.iter().to_set().is_empty());
}

#[test]
fn to_set_is_idempotent() {
    let once = ["b", "a", "b", "c", "a"].iter().to_set();
    let twice = once.iter().to_set();
    assert_eq!(twice, once);
    assert_eq!(twice.iter().to_set(), once);
}

#[test]
fn to_set_owns_clones() {
    let set = {
        let items = vec![String::from("x"), String::from("y"), String::from("x")];
        items.iter().to_set()
    };
    assert_eq!(set.len(), 2);
    assert!(set.contains("x"));
    assert!(set.contains("y"));
}

#[test]
fn to_set_of_an_intersection() {
    let colours = ["green", "orange", "blue"].iter().to_set();
    let fruit = ["apple", "banana", "orange"].iter().to_set();
    let common = colours.intersection(&fruit).to_set();

    assert_eq!(common.len(), 1);
    assert!(common.contains("orange"));
}
