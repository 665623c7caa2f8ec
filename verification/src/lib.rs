//! Property-based testing: random inputs, property runs, and shrinking of
//! failing inputs to smaller counterexamples.

mod arbitrary;
mod arbitrary_array;
mod arbitrary_collections;
mod arbitrary_int;
mod arbitrary_std;
mod arbitrary_tuple;
pub mod compat;
mod error;
mod gen;
mod rng;
mod shrink;
mod std_ext;
mod tester;
mod testable;
mod text;

pub use arbitrary::Arbitrary;
pub use error::TestError;
pub use gen::{Gen, Sample};
pub use shrink::{chain, empty_shrinker};
pub use tester::{
    always_failing_run, quickcheck, run_finish, run_step, QuickCheck, RunStep, TestResult, Testable,
};
pub use testable::{
    testable_args1, testable_args2, testable_args3, testable_args4, testable_args5,
    testable_args6, testable_args7, testable_args8, TestableArgs1, TestableArgs2, TestableArgs3,
    TestableArgs4, TestableArgs5, TestableArgs6, TestableArgs7, TestableArgs8,
};
