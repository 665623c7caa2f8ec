use rand::RngCore;
use std::cell::{Cell, RefCell};
use std::rc::Rc;
use std::collections::VecDeque;

use disprove::{
    chain, empty_shrinker, run_finish, run_step, testable_args1, testable_args2, testable_args3,
    Arbitrary, Gen,
    QuickCheck, RunStep, TestError,
    TestResult,
};

#[test]
fn unsigned_shrink_halves_toward_zero() {
    assert_eq!(10u32.shrink(), vec![0, 5, 8, 9]);
    assert_eq!(1u8.shrink(), vec![0]);
    assert_eq!(0u64.shrink(), Vec::<u64>::new());
    assert_eq!(u128::MAX.shrink()[0], 0);
    assert_eq!(usize::MAX.shrink().len(), 1 + (usize::BITS as usize) - 1);
}

#[test]
fn signed_shrink_tries_zero_then_negation() {
    assert_eq!((-10i32).shrink(), vec![0, 10, -5, -8, -9]);
    assert_eq!(7i64.shrink(), vec![0, 4, 6]);
    assert_eq!((-1i16).shrink(), vec![0, 1]);
    assert_eq!(0isize.shrink(), Vec::<isize>::new());
}

#[test]
fn signed_minimum_shrinks_without_negation() {
    assert_eq!(i8::MIN.shrink(), vec![0, -64, -96, -112, -120, -124, -126, -127]);
    let c = i128::MIN.shrink();
    assert_eq!(c[0], 0);
    assert!(c.iter().all(|&x| x != i128::MIN && x <= 0));
}

#[test]
fn shrink_candidates_differ_from_value() {
    for x in [-300i32, -2, -1, 1, 2, 3, 1000, i32::MAX, i32::MIN] {
        for c in x.shrink() {
            assert_ne!(c, x);
            assert!((c as i64).abs() <= (x as i64).abs());
        }
    }
    let v = vec![3u8, 0, 7];
    assert!(v.shrink().iter().all(|c| *c != v));
}

#[test]
fn vec_shrink_order() {
    let v = vec![5u32, 10, 15];
    let expected: Vec<Vec<u32>> = vec![
        vec![],
        vec![10, 15],
        vec![5, 15],
        vec![5, 10],
        vec![0, 10, 15],
        vec![3, 10, 15],
        vec![4, 10, 15],
        vec![5, 0, 15],
        vec![5, 5, 15],
        vec![5, 8, 15],
        vec![5, 9, 15],
        vec![5, 10, 0],
        vec![5, 10, 8],
        vec![5, 10, 12],
        vec![5, 10, 14],
    ];
    assert_eq!(v.shrink(), expected);
    assert!(Vec::<u8>::new().shrink().is_empty());
}

#[test]
fn vecdeque_shrinks_like_vec() {
    let d: VecDeque<u8> = VecDeque::from(vec![1, 2]);
    let expected: Vec<VecDeque<u8>> = vec![
        VecDeque::from(vec![]),
        VecDeque::from(vec![2]),
        VecDeque::from(vec![1]),
        VecDeque::from(vec![0, 2]),
        VecDeque::from(vec![1, 0]),
        VecDeque::from(vec![1, 1]),
    ];
    assert_eq!(d.shrink(), expected);
}

#[test]
fn string_shrink_order() {
    let s = String::from("ab");
    assert_eq!(s.shrink(), vec![String::new(), String::from("b"), String::from("a")]);
    assert!(String::new().shrink().is_empty());
}

#[test]
fn option_result_bool_shrinks() {
    assert_eq!(Some(10u32).shrink(), vec![None, Some(0), Some(5), Some(8), Some(9)]);
    assert!(None::<u32>.shrink().is_empty());
    assert_eq!(Ok::<u8, u8>(2).shrink(), vec![Ok(0), Ok(1)]);
    assert_eq!(Err::<u8, u8>(3).shrink(), vec![Err(0), Err(2)]);
    assert_eq!(true.shrink(), vec![false]);
    assert!(false.shrink().is_empty());
    assert!('x'.shrink().is_empty());
}

#[test]
fn tuple_and_array_shrinks() {
    assert_eq!(
        (10u8, true).shrink(),
        vec![(0, true), (5, true), (8, true), (9, true), (10, false)]
    );
    assert_eq!((1u8, 2u8, 0u8).shrink(), vec![(0, 2, 0), (1, 0, 0), (1, 1, 0)]);
    assert_eq!((3u8,).shrink(), vec![(0,), (2,)]);
    assert_eq!([1u8, 2].shrink(), vec![[0, 2], [1, 0], [1, 1]]);
    assert_eq!(Box::new(2u8).shrink(), vec![Box::new(0), Box::new(1)]);
    assert_eq!(std::num::Wrapping(2u8).shrink(), vec![std::num::Wrapping(0), std::num::Wrapping(1)]);
}

#[test]
fn generated_values_respect_size() {
    let mut g = Gen::from_seed(5, 7);
    for _ in 0..200 {
        let x: u64 = Arbitrary::arbitrary(&mut g);
        assert!(x <= 5);
        let y: i32 = Arbitrary::arbitrary(&mut g);
        assert!((-5..=5).contains(&y));
        let v: Vec<u8> = Arbitrary::arbitrary(&mut g);
        assert!(v.len() <= 5 && v.iter().all(|&e| e <= 5));
        let s: String = Arbitrary::arbitrary(&mut g);
        assert!(s.chars().count() <= 5);
    }
    assert_eq!(g.size(), 5);
    let mut zero = Gen::from_seed(0, 1);
    let v: Vec<u32> = Arbitrary::arbitrary(&mut zero);
    assert!(v.is_empty());
    assert_eq!(u8::arbitrary(&mut zero), 0);
    let mut big = Gen::from_seed(1000, 3);
    for _ in 0..50 {
        let _: u8 = Arbitrary::arbitrary(&mut big);
        let _: i8 = Arbitrary::arbitrary(&mut big);
    }
}

#[test]
fn gen_helpers() {
    let mut g = Gen::from_seed(10, 99);
    for _ in 0..100 {
        let r = g.gen_range(-3, 3);
        assert!((-3..=3).contains(&r));
        assert!(!g.gen_ratio(0, 5));
        assert!(g.gen_ratio(5, 5));
    }
    assert_eq!(g.gen_range(4, 4), 4);
    assert_eq!(*g.choose_element(&[7]), 7);
    let _ = g.rng();
    assert_eq!(g.size(), 10);
}

#[test]
fn test_result_helpers() {
    assert!(TestResult::error(String::from("boom")).is_error());
    assert!(TestResult::error(String::from("boom")).failed());
    assert!(!TestResult::Discard.is_failure());
    match TestResult::must_fail(TestResult::Discard) {
        TestResult::Discard => {}
        other => panic!("unexpected {:?}", other),
    }
    match TestResult::must_fail(true) {
        TestResult::Fail(m) => assert_eq!(m, "expected failure but property passed"),
        other => panic!("unexpected {:?}", other),
    }
    match TestResult::from(false) {
        TestResult::Fail(m) => assert!(m.is_empty()),
        other => panic!("unexpected {:?}", other),
    }
    match TestResult::from(Err::<(), String>(String::from("bad"))) {
        TestResult::Fail(m) => assert_eq!(m, "\"bad\""),
        other => panic!("unexpected {:?}", other),
    }
}

#[test]
fn shrinker_helpers() {
    assert!(empty_shrinker::<u32>().is_empty());
    assert_eq!(chain(vec![1, 2], vec![3]), vec![1, 2, 3]);
    assert_eq!(chain(Vec::<u8>::new(), Vec::new()), Vec::<u8>::new());
}

#[test]
fn first_failure_message() {
    let e = QuickCheck::new()
        .quickcheck(|| TestResult::error(String::from("boom")))
        .unwrap_err();
    assert_eq!(e.message, "[disprove] FAILED after 0 passed tests (test #1): boom");
    assert_eq!(e.passed, 0);
    let e = QuickCheck::new().quickcheck(|| false).unwrap_err();
    assert_eq!(e.message, "[disprove] FAILED after 0 passed tests (test #1)");
}

#[test]
fn gave_up_message() {
    let e = QuickCheck::new().tests(5).max_tests(4).quickcheck(|| true).unwrap_err();
    assert_eq!(e.message, "[disprove] gave up after 0 discards, only 4 of 5 tests passed");
    assert_eq!(e.passed, 4);
    let e = QuickCheck::new()
        .tests(3)
        .max_tests(12)
        .quickcheck(|| TestResult::Discard)
        .unwrap_err();
    assert_eq!(e.message, "[disprove] gave up after 12 discards, only 0 of 3 tests passed");
}

#[test]
fn too_few_message() {
    let e = QuickCheck::new()
        .tests(5)
        .min_tests_passed(10)
        .quickcheck(|| true)
        .unwrap_err();
    assert_eq!(e.message, "[disprove] only 5 tests passed, minimum required: 10");
    assert_eq!(e.passed, 5);
    assert!(QuickCheck::new().tests(0).quickcheck(|| false).is_ok());
}

#[test]
fn failure_after_passes_counts_tests() {
    let calls = Cell::new(0u32);
    let e = QuickCheck::new()
        .quickcheck(move || {
            calls.set(calls.get() + 1);
            calls.get() < 4
        })
        .unwrap_err();
    assert_eq!(e.message, "[disprove] FAILED after 3 passed tests (test #4)");
    assert_eq!(e.passed, 3);
}

#[test]
fn settings_from_text() {
    let mut q = QuickCheck::from_settings(Some("3"), Some("2"), Some("7"), Some("42")).unwrap();
    let e = q.quickcheck(|| true).unwrap_err();
    assert_eq!(e.message, "[disprove] gave up after 0 discards, only 2 of 3 tests passed");
    let mut q = QuickCheck::from_settings(Some("abc"), Some("+5"), None, None).unwrap();
    let e = q.quickcheck(|| true).unwrap_err();
    assert_eq!(e.message, "[disprove] gave up after 0 discards, only 5 of 100 tests passed");
    assert!(QuickCheck::from_settings(None, None, None, Some("-1")).is_none());
    assert!(QuickCheck::from_settings(None, None, None, Some("seed")).is_none());
}

#[test]
fn error_description() {
    let e = TestError { message: String::from("boom"), passed: 12 };
    assert_eq!(e.describe(), "property test failed after 12 passed tests: boom");
}

#[test]
fn shrinking_reports_last_failing_candidate() {
    // With size 1 the input is 0 or 1; 1 shrinks to 0, which fails too.
    let e = QuickCheck::new()
        .gen(Gen::from_seed(1, 5))
        .quickcheck(testable_args1(|_x: u32| false))
        .unwrap_err();
    assert_eq!(e.message, "[disprove] FAILED after 0 passed tests (test #1): 0");
}

#[test]
fn three_argument_property_reports_inputs() {
    let e = QuickCheck::new()
        .quickcheck(testable_args3(|a: u8, b: bool, c: u8| -> bool {
            let _ = (a, b, c);
            false
        }))
        .unwrap_err();
    assert!(e.message.contains("): ("));
    assert!(e.message.ends_with("): (0, false, 0)"), "{}", e.message);
}


#[test]
fn shrinking_depends_only_on_the_value() {
    let inner: Vec<u8> = 6u8.shrink();
    let boxed: Vec<u8> = Box::new(6u8).shrink().into_iter().map(|b| *b).collect();
    let counted: Vec<u8> = std::rc::Rc::new(6u8).shrink().iter().map(|r| **r).collect();
    let shared: Vec<u8> = std::sync::Arc::new(6u8).shrink().iter().map(|r| **r).collect();
    assert_eq!(inner, vec![0, 3, 5]);
    assert_eq!(boxed, inner);
    assert_eq!(counted, inner);
    assert_eq!(shared, inner);
    let a = vec![String::from("xy")];
    let b = a.duplicate();
    assert_eq!(a.shrink(), b.shrink());
}

#[test]
fn draws_follow_the_seed() {
    let mut a = Gen::from_seed(50, 1234);
    let mut b = Gen::from_seed(50, 1234);
    let xs: Vec<i128> = (0..20).map(|_| a.gen_range(-1000, 1000)).collect();
    let ys: Vec<i128> = (0..20).map(|_| b.gen_range(-1000, 1000)).collect();
    assert_eq!(xs, ys);
    assert!(xs.iter().any(|x| *x != -1000));
    let u: Vec<u32> = Arbitrary::arbitrary(&mut a);
    let v: Vec<u32> = Arbitrary::arbitrary(&mut b);
    assert_eq!(u, v);
    let s: String = Arbitrary::arbitrary(&mut a);
    let t: String = Arbitrary::arbitrary(&mut b);
    assert_eq!(s, t);
    let lens: Vec<usize> = (0..30)
        .map(|_| {
            let w: Vec<u8> = Arbitrary::arbitrary(&mut a);
            w.len()
        })
        .collect();
    assert!(lens.iter().any(|n| *n > 0));
    let somes = (0..40)
        .filter(|_| {
            let o: Option<u8> = Arbitrary::arbitrary(&mut a);
            o.is_some()
        })
        .count();
    assert!(somes > 0 && somes < 40);
}

#[test]
fn rng_hands_out_the_generators_own_state() {
    let mut a = Gen::from_seed(10, 77);
    let mut b = Gen::from_seed(10, 77);
    let x = a.rng().next_u64();
    let y = b.rng().next_u64();
    assert_eq!(x, y);
    assert_eq!(a.gen_range(0, 1_000_000), b.gen_range(0, 1_000_000));
    let mut c = Gen::from_seed(10, 77);
    let _ = c.rng().next_u64();
    let mut d = Gen::from_seed(10, 77);
    let first_c = c.gen_range(0, 1_000_000_000);
    let first_d = d.gen_range(0, 1_000_000_000);
    assert_ne!(first_c, first_d);
}

#[test]
fn arbitrary_values_stay_within_size() {
    let mut g = Gen::from_seed(5, 3);
    for _ in 0..200 {
        let c: char = Arbitrary::arbitrary(&mut g);
        assert!(!(0xD800..=0xDFFF).contains(&(c as u32)));
        let u: u8 = Arbitrary::arbitrary(&mut g);
        assert!(u <= 5);
        let i: i64 = Arbitrary::arbitrary(&mut g);
        assert!((-5..=5).contains(&i));
        let s: String = Arbitrary::arbitrary(&mut g);
        assert!(s.chars().count() <= 5);
    }
    assert_eq!(<() as Arbitrary>::arbitrary(&mut g), ());
}

#[test]
fn run_step_counts_and_stops() {
    match run_step(3, 2, &TestResult::Pass) {
        RunStep::Continue { passed, discarded } => assert_eq!((passed, discarded), (4, 2)),
        RunStep::Stop(_) => panic!("a pass does not stop the run"),
    }
    match run_step(3, 2, &TestResult::Discard) {
        RunStep::Continue { passed, discarded } => assert_eq!((passed, discarded), (3, 3)),
        RunStep::Stop(_) => panic!("a discard does not stop the run"),
    }
    match run_step(3, 2, &TestResult::Fail(String::from("bad"))) {
        RunStep::Stop(e) => {
            assert_eq!(e.message, "[disprove] FAILED after 3 passed tests (test #6): bad");
            assert_eq!(e.passed, 3);
        }
        RunStep::Continue { .. } => panic!("a failure stops the run"),
    }
    match run_step(0, 0, &TestResult::Fail(String::new())) {
        RunStep::Stop(e) => assert_eq!(e.message, "[disprove] FAILED after 0 passed tests (test #1)"),
        RunStep::Continue { .. } => panic!("a failure stops the run"),
    }
}

#[test]
fn run_finish_decides_the_end() {
    let e = run_finish(5, 0, 0, 3).unwrap_err();
    assert_eq!(e.message, "[disprove] gave up after 3 discards, only 0 of 5 tests passed");
    let e = run_finish(5, 10, 5, 0).unwrap_err();
    assert_eq!(e.message, "[disprove] only 5 tests passed, minimum required: 10");
    assert_eq!(e.passed, 5);
    assert!(run_finish(5, 5, 5, 7).is_ok());
}

#[test]
fn failing_input_shrinks_to_the_boundary() {
    let t = testable_args1(|x: u32| -> bool { x <= 10 });
    assert_eq!(t.minimize(100), 11);
    assert_eq!(t.minimize(11), 11);
    assert_eq!(t.shrink_pass(&40), Some(39));
    assert_eq!(t.shrink_pass(&11), None);
    let err = QuickCheck::new()
        .tests(200)
        .gen(Gen::from_seed(100, 42))
        .quickcheck(testable_args1(|x: u32| -> bool { x <= 10 }))
        .unwrap_err();
    assert!(err.message.ends_with("): 11"), "{}", err.message);
}

#[test]
fn must_fail_of_a_test_result() {
    assert!(TestResult::must_fail(TestResult::Pass).is_failure());
    assert!(!TestResult::must_fail(TestResult::Fail(String::from("x"))).is_failure());
    assert!(matches!(TestResult::must_fail(TestResult::Discard), TestResult::Discard));
    assert!(TestResult::must_fail(TestResult::must_fail(TestResult::Fail(String::new()))).is_failure());
}

#[test]
fn result_draws_both_variants() {
    let mut g = Gen::from_seed(10, 5);
    let errs = (0..80)
        .filter(|_| {
            let r: Result<u8, u8> = Arbitrary::arbitrary(&mut g);
            r.is_err()
        })
        .count();
    assert!(errs > 0 && errs < 80);
}

#[test]
fn failing_arguments_shrink_together() {
    let t = testable_args2(|a: u8, b: u8| -> bool { (a as u32) + (b as u32) <= 10 });
    let m = t.minimize((20, 30));
    assert!((m.0 as u32) + (m.1 as u32) > 10);
    for c in m.shrink() {
        assert!((c.0 as u32) + (c.1 as u32) <= 10, "{:?} still fails", c);
    }
    assert_eq!(t.shrink_pass(&(0, 11)), None);
}

#[test]
fn always_failing_run_reports_the_first_test() {
    let e = disprove::always_failing_run().unwrap_err();
    assert_eq!(e.message, "[disprove] FAILED after 0 passed tests (test #1)");
    assert_eq!(e.passed, 0);
}

#[test]
fn seeded_runners_replay_the_same_inputs() {
    let mut seen: Vec<Vec<u32>> = Vec::new();
    for _ in 0..2 {
        let log = Rc::new(RefCell::new(Vec::new()));
        let log2 = log.clone();
        let mut q = QuickCheck::from_settings(Some("20"), None, Some("1000"), Some("7")).unwrap();
        q.quickcheck(testable_args1(move |x: u32| -> bool {
            log2.borrow_mut().push(x);
            true
        }))
        .unwrap();
        seen.push(log.borrow().clone());
    }
    assert_eq!(seen[0].len(), 20);
    assert_eq!(seen[0], seen[1]);
    assert!(QuickCheck::from_settings(None, None, None, Some("abc")).is_none());
}

#[test]
fn err_verdicts_carry_the_debug_text() {
    match TestResult::from(Err::<(), (u8, &str)>((3, "x"))) {
        TestResult::Fail(m) => assert_eq!(m, "(3, \"x\")"),
        other => panic!("unexpected {:?}", other),
    }
}
