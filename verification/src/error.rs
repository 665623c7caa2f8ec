use vstd::prelude::*;

use crate::text::{decimal, push_decimal};

verus! {

/// Error returned when a property test fails.
#[derive(Debug, Clone)]
pub struct TestError {
    /// Description of the failure.
    pub message: String,
    /// Number of successful tests before the failure.
    pub passed: u64,
}

/// The one-line description of a failed property test.
pub open spec fn error_description(passed: nat, message: Seq<char>) -> Seq<char> {
    "property test failed after "@ + decimal(passed) + " passed tests: "@ + message
}

impl TestError {
    /// The one-line description of the failure: how many tests passed
    /// before it, and its message.
    pub fn describe(&self) -> (r: String)
        ensures
            r@ == error_description(self.passed as nat, self.message@),
    {
        let mut out = "property test failed after ".to_owned();
        push_decimal(&mut out, self.passed);
        out.push_str(" passed tests: ");
        out.push_str(self.message.as_str());
        out
    }
}

} // verus!
