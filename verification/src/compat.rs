//! Re-exports of the public types under the names that `quickcheck` users
//! know, for migration.

pub use crate::arbitrary::Arbitrary;
pub use crate::gen::Gen;
pub use crate::shrink::{chain, empty_shrinker};
pub use crate::tester::{quickcheck, QuickCheck, TestResult, Testable};
