use std::collections::{BTreeMap, BTreeSet, HashMap, HashSet};

use disprove::{Arbitrary, Gen};

fn test_gen() -> Gen {
    Gen::from_seed(20, 12345)
}

#[test]
fn test_vec_arbitrary() {
    let mut g = test_gen();
    let v: Vec<u8> = Arbitrary::arbitrary(&mut g);
    assert!(v.len() <= 20);
}

#[test]
fn test_vec_shrink() {
    let v = vec![5u32, 10, 15];
    let shrunk: Vec<Vec<u32>> = v.shrink();
    assert!(shrunk.contains(&vec![]));
    assert!(shrunk.contains(&vec![10, 15]));
    assert!(shrunk.contains(&vec![5, 15]));
    assert!(shrunk.contains(&vec![5, 10]));
}

#[test]
fn test_string_arbitrary() {
    let mut g = test_gen();
    let s: String = Arbitrary::arbitrary(&mut g);
    assert!(s.chars().count() <= 20);
}

#[test]
fn test_string_shrink() {
    let s = String::from("abc");
    let shrunk: Vec<String> = s.shrink();
    assert!(shrunk.contains(&String::new()));
    assert!(shrunk.contains(&String::from("bc")));
    assert!(shrunk.contains(&String::from("ac")));
    assert!(shrunk.contains(&String::from("ab")));
}

#[test]
fn test_box_arbitrary_and_shrink() {
    let mut g = test_gen();
    let b: Box<u32> = Arbitrary::arbitrary(&mut g);
    assert!(*b <= 20);
    let b: Box<u32> = Box::new(10u32);
    let shrunk: Vec<Box<u32>> = b.shrink();
    assert!(shrunk.contains(&Box::new(0)));
}

#[test]
fn test_option_arbitrary() {
    let mut g = Gen::from_seed(100, 42);
    let mut seen_none = false;
    let mut seen_some = false;
    for _ in 0..100 {
        let v: Option<u8> = Arbitrary::arbitrary(&mut g);
        match v {
            None => seen_none = true,
            Some(_) => seen_some = true,
        }
    }
    assert!(seen_none && seen_some);
}

#[test]
fn test_option_shrink() {
    let v: Option<u32> = Some(10);
    let shrunk: Vec<_> = v.shrink();
    assert!(shrunk.contains(&None));
}

#[test]
fn test_result_arbitrary() {
    let mut g = Gen::from_seed(100, 42);
    let mut seen_ok = false;
    let mut seen_err = false;
    for _ in 0..100 {
        let v: Result<u8, u8> = Arbitrary::arbitrary(&mut g);
        match v {
            Ok(_) => seen_ok = true,
            Err(_) => seen_err = true,
        }
    }
    assert!(seen_ok && seen_err);
}

#[test]
fn test_tuple2_arbitrary() {
    let mut g = test_gen();
    let t: (u8, u8) = Arbitrary::arbitrary(&mut g);
    assert!(t.0 <= 20 && t.1 <= 20);
}

#[test]
fn test_tuple3_arbitrary() {
    let mut g = test_gen();
    let _: (u8, bool, u16) = Arbitrary::arbitrary(&mut g);
}

#[test]
fn test_tuple12_arbitrary() {
    let mut g = test_gen();
    let _: (u8, u8, u8, u8, u8, u8, u8, u8, u8, u8, u8, u8) = Arbitrary::arbitrary(&mut g);
}

#[test]
fn test_array_arbitrary() {
    let mut g = test_gen();
    let arr: [u8; 5] = Arbitrary::arbitrary(&mut g);
    for v in &arr {
        assert!(*v <= 20);
    }
}

#[test]
fn test_array_const_generic_large() {
    let mut g = Gen::from_seed(50, 42);
    let _: [u8; 64] = Arbitrary::arbitrary(&mut g);
    let _: [u8; 128] = Arbitrary::arbitrary(&mut g);
}

#[test]
fn test_rc_arbitrary() {
    let mut g = test_gen();
    let _: std::rc::Rc<u32> = Arbitrary::arbitrary(&mut g);
}

#[test]
fn test_arc_arbitrary() {
    let mut g = test_gen();
    let _: std::sync::Arc<u32> = Arbitrary::arbitrary(&mut g);
}

#[test]
fn test_vecdeque_arbitrary() {
    let mut g = test_gen();
    let d: std::collections::VecDeque<u8> = Arbitrary::arbitrary(&mut g);
    assert!(d.len() <= 20);
}

#[test]
fn test_wrapping_arbitrary() {
    let mut g = test_gen();
    let _: std::num::Wrapping<u32> = Arbitrary::arbitrary(&mut g);
}

#[test]
fn test_saturating_arbitrary() {
    let mut g = test_gen();
    let _: std::num::Saturating<u32> = Arbitrary::arbitrary(&mut g);
}

#[test]
fn test_range_arbitrary() {
    let mut g = test_gen();
    let r: std::ops::Range<u8> = Arbitrary::arbitrary(&mut g);
    assert!(r.start <= r.end);
}

#[test]
fn test_range_inclusive_arbitrary() {
    let mut g = test_gen();
    let r: std::ops::RangeInclusive<u8> = Arbitrary::arbitrary(&mut g);
    assert!(r.start() <= r.end());
}

#[test]
fn test_hashmap_arbitrary() {
    let mut g = test_gen();
    let m: HashMap<u8, u8> = Arbitrary::arbitrary(&mut g);
    assert!(m.len() <= 20);
}

#[test]
fn test_btreeset_arbitrary() {
    let mut g = test_gen();
    let s: BTreeSet<u8> = Arbitrary::arbitrary(&mut g);
    assert!(s.len() <= 20);
}

#[test]
fn hashmap_shrinks_by_dropping_one_key() {
    let m: HashMap<u8, u8> = [(1, 10), (2, 20), (3, 30)].into_iter().collect();
    let shrunk = m.shrink();
    assert_eq!(shrunk.len(), 4);
    assert!(shrunk[0].is_empty());
    let mut dropped: Vec<u8> = Vec::new();
    for c in &shrunk[1..] {
        assert_eq!(c.len(), 2);
        let gone: Vec<u8> = m.keys().filter(|k| !c.contains_key(k)).cloned().collect();
        assert_eq!(gone.len(), 1);
        assert_eq!(c.get(&gone[0]), None);
        dropped.push(gone[0]);
    }
    dropped.sort();
    assert_eq!(dropped, vec![1, 2, 3]);
    assert!(HashMap::<u8, u8>::new().shrink().is_empty());
}

#[test]
fn btreeset_shrinks_in_key_order() {
    let s: BTreeSet<u8> = [5, 1, 3].into_iter().collect();
    let shrunk = s.shrink();
    let expected: Vec<BTreeSet<u8>> = vec![
        BTreeSet::new(),
        [3, 5].into_iter().collect(),
        [1, 5].into_iter().collect(),
        [1, 3].into_iter().collect(),
    ];
    assert_eq!(shrunk, expected);
}

#[test]
fn test_hashset_arbitrary() {
    let mut g = test_gen();
    let s: HashSet<u8> = Arbitrary::arbitrary(&mut g);
    assert!(s.len() <= 20);
}

#[test]
fn test_btreemap_arbitrary() {
    let mut g = test_gen();
    let m: BTreeMap<u8, u8> = Arbitrary::arbitrary(&mut g);
    assert!(m.len() <= 20);
}

#[test]
fn hashset_shrinks_by_dropping_one_element() {
    let s: HashSet<u8> = [4, 7].into_iter().collect();
    let shrunk = s.shrink();
    assert_eq!(shrunk.len(), 3);
    assert!(shrunk[0].is_empty());
    let mut rest: Vec<Vec<u8>> = shrunk[1..].iter().map(|c| c.iter().cloned().collect()).collect();
    rest.sort();
    assert_eq!(rest, vec![vec![4], vec![7]]);
}

#[test]
fn btreemap_shrinks_in_key_order() {
    let m: BTreeMap<u8, u8> = [(2, 20), (1, 10)].into_iter().collect();
    let shrunk = m.shrink();
    let expected: Vec<BTreeMap<u8, u8>> = vec![
        BTreeMap::new(),
        [(2, 20)].into_iter().collect(),
        [(1, 10)].into_iter().collect(),
    ];
    assert_eq!(shrunk, expected);
    assert!(BTreeMap::<u8, u8>::new().shrink().is_empty());
}
