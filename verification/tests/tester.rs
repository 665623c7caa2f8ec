use std::sync::atomic::{AtomicU64, Ordering};

use disprove::{
    quickcheck, testable_args1, testable_args2, Arbitrary, Gen, QuickCheck, TestResult,
};

#[test]
fn test_result_from_bool() {
    let r: TestResult = true.into();
    assert!(!r.is_failure());
    let r: TestResult = false.into();
    assert!(r.is_failure());
}

#[test]
fn test_result_from_unit() {
    let r: TestResult = ().into();
    assert!(!r.is_failure());
}

#[test]
fn test_result_from_result() {
    let r: TestResult = Ok::<(), &str>(()).into();
    assert!(!r.is_failure());
    let r: TestResult = Err::<(), &str>("oops").into();
    assert!(r.is_failure());
}

#[test]
fn test_must_fail() {
    let r = TestResult::must_fail(true);
    assert!(r.is_failure());
    let r = TestResult::must_fail(false);
    assert!(!r.is_failure());
}

#[test]
fn test_quickcheck_passing() {
    // A property that always passes
    QuickCheck::new()
        .tests(50)
        .quickcheck(|| -> bool { true })
        .unwrap();
}

#[test]
#[should_panic(expected = "[disprove] FAILED")]
fn test_quickcheck_failing() {
    QuickCheck::new()
        .tests(50)
        .quickcheck(|| -> bool { false })
        .unwrap();
}

#[test]
fn test_quickcheck_with_discards() {
    let count = std::sync::Arc::new(AtomicU64::new(0));
    let count2 = count.clone();
    QuickCheck::new()
        .tests(10)
        .quickcheck(move || -> TestResult {
            let c = count2.fetch_add(1, Ordering::Relaxed);
            if c % 2 == 0 {
                TestResult::Discard
            } else {
                TestResult::Pass
            }
        })
        .unwrap();
}

#[test]
fn test_testable_args1_passing() {
    QuickCheck::new()
        .tests(50)
        .quickcheck(testable_args1(|x: u8| -> bool { x < 200 || x >= 200 }))
        .unwrap();
}

#[test]
#[should_panic(expected = "[disprove] FAILED")]
fn test_testable_args1_failing() {
    QuickCheck::new()
        .tests(100)
        .quickcheck(testable_args1(|x: u8| -> bool { x < 5 }))
        .unwrap();
}

#[test]
fn test_testable_args1_shrinks() {
    // Property that fails for values > 10.
    let result = QuickCheck::new()
        .tests(200)
        .gen(Gen::from_seed(100, 42))
        .quickcheck(testable_args1(|x: u32| -> bool { x <= 10 }));
    assert!(result.is_err());
    let panic_msg = result.unwrap_err().message;
    assert!(panic_msg.contains("[disprove] FAILED"));
}

#[test]
fn test_testable_args2_passing() {
    QuickCheck::new()
        .tests(50)
        .quickcheck(testable_args2(|a: u8, b: u8| -> bool {
            a.wrapping_add(b) == b.wrapping_add(a)
        }))
        .unwrap();
}

#[test]
fn tester_test_deterministic_seed() {
    // Same seed should produce same results
    let mut results1 = Vec::new();
    let mut results2 = Vec::new();
    let mut g1 = Gen::from_seed(100, 999);
    let mut g2 = Gen::from_seed(100, 999);
    for _ in 0..50 {
        results1.push(u32::arbitrary(&mut g1));
        results2.push(u32::arbitrary(&mut g2));
    }
    assert_eq!(results1, results2);
}

#[test]
fn test_quickcheck_convenience_fn() {
    quickcheck(|| -> bool { true }).unwrap();
}

#[test]
fn test_quickcheck_vec_reverse() {
    QuickCheck::new()
        .tests(100)
        .quickcheck(testable_args1(|xs: Vec<i32>| -> bool {
            let rev: Vec<_> = xs.iter().rev().rev().cloned().collect();
            rev == xs
        }))
        .unwrap();
}
