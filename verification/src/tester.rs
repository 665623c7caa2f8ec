use vstd::prelude::*;

use crate::error::TestError;
use crate::gen::{extends, Gen, Sample};
use crate::text::{
    debug_text, describes, failed_message, gave_up_message, make_failed_message, make_gave_up_message,
    make_too_few_message, parse_u64, parsed_u64, too_few_message,
};

verus! {

/// Result of a single property test.
#[derive(Clone, Debug)]
pub enum TestResult {
    /// The property passed.
    Pass,
    /// The property failed with a (possibly empty) message.
    Fail(String),
    /// The test case was discarded (input didn't meet preconditions).
    Discard,
}

/// The mathematical model of a test result: a failure by the text of its
/// message.
pub enum Outcome {
    Pass,
    Fail(Seq<char>),
    Discard,
}

impl View for TestResult {
    type V = Outcome;

    open spec fn view(&self) -> Outcome {
        match self {
            TestResult::Pass => Outcome::Pass,
            TestResult::Fail(m) => Outcome::Fail(m@),
            TestResult::Discard => Outcome::Discard,
        }
    }
}

/// The message of the failure that `must_fail` reports for a passing property.
pub open spec fn expected_failure_message() -> Seq<char> {
    "expected failure but property passed"@
}

/// What `must_fail` makes of an outcome: a pass becomes a failure, a failure
/// a pass, and a discard stays a discard.
pub open spec fn inverted(o: Outcome) -> Outcome {
    match o {
        Outcome::Pass => Outcome::Fail(expected_failure_message()),
        Outcome::Fail(_) => Outcome::Pass,
        Outcome::Discard => Outcome::Discard,
    }
}

/// `must_fail` turns every failure into a pass, whatever its message, and
/// every pass into a failure; a discard stays a discard; applied twice, it
/// gives back whether the verdict was a failure.
pub proof fn lemma_must_fail_inverts(o: Outcome)
    ensures
        o is Fail ==> inverted(o) == Outcome::Pass,
        o is Pass ==> inverted(o) is Fail,
        o is Discard ==> inverted(o) == Outcome::Discard,
        (inverted(inverted(o)) is Fail) == (o is Fail),
{
}

/// The outcome a boolean property verdict stands for.
pub open spec fn bool_outcome(b: bool) -> Outcome {
    if b {
        Outcome::Pass
    } else {
        Outcome::Fail(Seq::empty())
    }
}

impl TestResult {
    /// Returns true if this result is a failure.
    pub fn is_failure(&self) -> (r: bool)
        ensures
            r == (*self is Fail),
    {
        match self {
            TestResult::Fail(_) => true,
            _ => false,
        }
    }

    /// Returns true if this result is a failure.
    pub fn failed(&self) -> (r: bool)
        ensures
            r == (*self is Fail),
    {
        self.is_failure()
    }

    /// Returns true if this result represents an error (same as failure).
    pub fn is_error(&self) -> (r: bool)
        ensures
            r == (*self is Fail),
    {
        self.is_failure()
    }

    /// Create a TestResult that expects failure. If the property passes,
    /// this will be treated as a failure, and vice versa; a discard stays a
    /// discard.
    pub fn must_fail<T>(result: T) -> (r: TestResult) where TestResult: From<T>
        ensures
            exists|c: TestResult|
                call_ensures(TestResult::from, (result,), c) && r@ == inverted(#[trigger] c@) && (c@ is Fail
                    ==> r@ == Outcome::Pass) && (c@ is Pass ==> r@ is Fail) && (c@ is Discard ==> r@
                    == Outcome::Discard),
    {
        let converted: TestResult = result.into();
        let ghost c = converted;
        let r = match converted {
            TestResult::Pass => TestResult::Fail("expected failure but property passed".to_owned()),
            TestResult::Fail(_) => TestResult::Pass,
            TestResult::Discard => TestResult::Discard,
        };
        assert(call_ensures(TestResult::from, (result,), c));
        assert(r@ == inverted(c@));
        r
    }

    /// Create a failing result with a message.
    pub fn error(msg: String) -> (r: TestResult)
        ensures
            r@ == Outcome::Fail(msg@),
    {
        TestResult::Fail(msg)
    }
}

impl From<bool> for TestResult {
    /// `true` passes, `false` fails with an empty message.
    fn from(b: bool) -> (r: TestResult)
        ensures
            r@ == bool_outcome(b),
    {
        if b {
            TestResult::Pass
        } else {
            TestResult::Fail(String::new())
        }
    }
}

/// A failure's message is a `String`, which no spec expression can build, so
/// `from` is not claimed to equal `from_spec` (`obeys_from_spec` is false);
/// the `ensures` of `from` states the result through its view.
impl vstd::std_specs::convert::FromSpecImpl<bool> for TestResult {
    open spec fn obeys_from_spec() -> bool {
        false
    }

    open spec fn from_spec(v: bool) -> TestResult {
        choose|r: TestResult| r@ == bool_outcome(v)
    }
}

impl From<()> for TestResult {
    /// The unit value passes.
    fn from(u: ()) -> (r: TestResult)
        ensures
            r@ == Outcome::Pass,
    {
        TestResult::Pass
    }
}

impl vstd::std_specs::convert::FromSpecImpl<()> for TestResult {
    open spec fn obeys_from_spec() -> bool {
        true
    }

    open spec fn from_spec(v: ()) -> TestResult {
        TestResult::Pass
    }
}

impl<T, E: std::fmt::Debug> From<Result<T, E>> for TestResult {
    /// `Ok` passes; `Err` fails with the error's `Debug` text as message.
    fn from(r: Result<T, E>) -> (res: TestResult)
        ensures
            r is Ok ==> res@ == Outcome::Pass,
            r is Err ==> res is Fail,
            r matches Err(e) ==> exists|s: String|
                #![trigger describes(&e, s)]
                describes(&e, s) && res@ == Outcome::Fail(s@),
    {
        match r {
            Ok(_) => TestResult::Pass,
            Err(e) => {
                let text = debug_text(&e);
                assert(describes(&e, text));
                TestResult::Fail(text)
            },
        }
    }
}

/// The `Debug` text of a generic error cannot be named, so `from` is not
/// claimed to equal `from_spec` (`obeys_from_spec` is false); the `ensures` of
/// `from` states which variant comes out.
impl<T, E: std::fmt::Debug> vstd::std_specs::convert::FromSpecImpl<Result<T, E>> for TestResult {
    open spec fn obeys_from_spec() -> bool {
        false
    }

    open spec fn from_spec(v: Result<T, E>) -> TestResult {
        choose|r: TestResult| (v is Ok ==> r@ == Outcome::Pass) && (v is Err ==> r is Fail)
    }
}

/// How a run of property tests ends.
pub enum RunEnd {
    /// Enough tests passed.
    Passed,
    /// A test failed after `passed` passing tests, on test number `total`.
    Failed { passed: nat, total: nat, message: Seq<char> },
    /// The runs ran out, with `discarded` discards, before enough passed.
    GaveUp { discarded: nat, passed: nat },
    /// All tests passed, but fewer than the required minimum.
    TooFew { passed: nat },
    /// The outcomes ran out before the run ended.
    Unfinished,
}

/// How a run with the given settings ends when its tests have the
/// `outcomes`, in order, and `passed` tests have passed and `discarded` were
/// discarded so far. Tests run while fewer than `tests` passed and fewer
/// than `max_tests` ran; the first failure ends the run.
pub open spec fn run_from(
    tests: nat,
    max_tests: nat,
    min_passed: nat,
    passed: nat,
    discarded: nat,
    outcomes: Seq<Outcome>,
) -> RunEnd
    decreases outcomes.len(),
{
    if passed < tests && passed + discarded < max_tests {
        if outcomes.len() == 0 {
            RunEnd::Unfinished
        } else {
            match outcomes[0] {
                Outcome::Pass => run_from(
                    tests,
                    max_tests,
                    min_passed,
                    passed + 1,
                    discarded,
                    outcomes.drop_first(),
                ),
                Outcome::Discard => run_from(
                    tests,
                    max_tests,
                    min_passed,
                    passed,
                    discarded + 1,
                    outcomes.drop_first(),
                ),
                Outcome::Fail(m) => RunEnd::Failed {
                    passed,
                    total: passed + discarded + 1,
                    message: m,
                },
            }
        }
    } else if passed < tests {
        RunEnd::GaveUp { discarded, passed }
    } else if passed < min_passed {
        RunEnd::TooFew { passed }
    } else {
        RunEnd::Passed
    }
}

/// The error a run reports, as its message and its count of passed tests,
/// or `None` when it passed.
pub open spec fn run_report(end: RunEnd, tests: nat, min_passed: nat) -> Option<(Seq<char>, nat)> {
    match end {
        RunEnd::Failed { passed, total, message } => Some(
            (failed_message(passed, total, message), passed),
        ),
        RunEnd::GaveUp { discarded, passed } => Some(
            (gave_up_message(discarded, passed, tests), passed),
        ),
        RunEnd::TooFew { passed } => Some((too_few_message(passed, min_passed), passed)),
        _ => None,
    }
}

/// A run that has passed `passed` tests and discarded `discarded`, and is to
/// go on, continues after one more test that did not fail as the run that
/// starts with that test's outcome.
proof fn lemma_run_step(
    tests: nat,
    max_tests: nat,
    min_passed: nat,
    passed: nat,
    discarded: nat,
    o: Outcome,
    rest: Seq<Outcome>,
)
    requires
        passed < tests,
        passed + discarded < max_tests,
    ensures
        o is Pass ==> run_from(tests, max_tests, min_passed, passed, discarded, seq![o] + rest)
            == run_from(tests, max_tests, min_passed, passed + 1, discarded, rest),
        o is Discard ==> run_from(tests, max_tests, min_passed, passed, discarded, seq![o] + rest)
            == run_from(tests, max_tests, min_passed, passed, discarded + 1, rest),
{
    assert((seq![o] + rest).drop_first() =~= rest);
}

/// A property that passes every time passes the run, as long as the wanted
/// number of tests fits in the maximum and meets the minimum: from any point
/// of the run, enough passing outcomes end it as passed.
pub proof fn lemma_passing_property_passes(
    tests: nat,
    max_tests: nat,
    min_passed: nat,
    passed: nat,
    outcomes: Seq<Outcome>,
)
    requires
        passed <= tests <= max_tests,
        min_passed <= tests,
        outcomes.len() >= tests - passed,
        forall|i: int| 0 <= i < outcomes.len() ==> #[trigger] outcomes[i] is Pass,
    ensures
        run_from(tests, max_tests, min_passed, passed, 0, outcomes) is Passed,
    decreases tests - passed,
{
    if passed < tests {
        let rest = outcomes.drop_first();
        assert forall|i: int| 0 <= i < rest.len() implies #[trigger] rest[i] is Pass by {
            assert(rest[i] == outcomes[i + 1]);
        }
        lemma_passing_property_passes(tests, max_tests, min_passed, passed + 1, rest);
    }
}

/// A run that has not ended after the tests `outcomes` has spent fewer
/// runs than the maximum, counting the ones before them.
pub proof fn lemma_unfinished_runs_fewer_than_max(
    tests: nat,
    max_tests: nat,
    min_passed: nat,
    passed: nat,
    discarded: nat,
    outcomes: Seq<Outcome>,
)
    requires
        run_from(tests, max_tests, min_passed, passed, discarded, outcomes) is Unfinished,
    ensures
        passed + discarded + outcomes.len() < max_tests,
    decreases outcomes.len(),
{
    if outcomes.len() > 0 {
        match outcomes[0] {
            Outcome::Pass => lemma_unfinished_runs_fewer_than_max(
                tests,
                max_tests,
                min_passed,
                passed + 1,
                discarded,
                outcomes.drop_first(),
            ),
            Outcome::Discard => lemma_unfinished_runs_fewer_than_max(
                tests,
                max_tests,
                min_passed,
                passed,
                discarded + 1,
                outcomes.drop_first(),
            ),
            Outcome::Fail(_) => {},
        }
    }
}

/// A run calls the property at most `max_tests` times: when the tests
/// before the last one had not ended the run, there were fewer than the
/// maximum of them.
pub proof fn lemma_run_calls_bounded(
    tests: nat,
    max_tests: nat,
    min_passed: nat,
    outcomes: Seq<Outcome>,
)
    requires
        outcomes.len() > 0 ==> run_from(tests, max_tests, min_passed, 0, 0, outcomes.drop_last())
            is Unfinished,
    ensures
        outcomes.len() <= max_tests,
{
    if outcomes.len() > 0 {
        lemma_unfinished_runs_fewer_than_max(tests, max_tests, min_passed, 0, 0, outcomes.drop_last());
    }
}

/// The number of passes among some test outcomes.
pub open spec fn passes(outcomes: Seq<Outcome>) -> nat
    decreases outcomes.len(),
{
    if outcomes.len() == 0 {
        0
    } else {
        passes(outcomes.drop_last()) + if outcomes.last() is Pass {
            1nat
        } else {
            0nat
        }
    }
}

/// The first failure ends the run with its message, when the tests before
/// it neither passed enough nor spent the maximum: it is test number
/// `k + 1`, after the passes among the `k` tests before it.
pub proof fn lemma_first_failure_ends_run(
    tests: nat,
    max_tests: nat,
    min_passed: nat,
    passed: nat,
    discarded: nat,
    outcomes: Seq<Outcome>,
    k: nat,
    message: Seq<char>,
)
    requires
        k < outcomes.len(),
        outcomes[k as int] == Outcome::Fail(message),
        forall|i: int| 0 <= i < k ==> !(#[trigger] outcomes[i] is Fail),
        passed + passes(outcomes.take(k as int)) < tests,
        passed + discarded + k < max_tests,
    ensures
        run_from(tests, max_tests, min_passed, passed, discarded, outcomes) == (RunEnd::Failed {
            passed: passed + passes(outcomes.take(k as int)),
            total: passed + discarded + k + 1,
            message,
        }),
    decreases k,
{
    if k > 0 {
        let rest = outcomes.drop_first();
        assert forall|i: int| 0 <= i < k - 1 implies !(#[trigger] rest[i] is Fail) by {
            assert(rest[i] == outcomes[i + 1]);
        }
        assert(rest[(k - 1) as int] == outcomes[k as int]);
        lemma_passes_drop_first(outcomes.take(k as int));
        assert(outcomes.take(k as int).drop_first() =~= rest.take((k - 1) as int));
        if outcomes[0] is Pass {
            lemma_first_failure_ends_run(tests, max_tests, min_passed, passed + 1, discarded, rest, (k - 1) as nat, message);
        } else {
            lemma_first_failure_ends_run(tests, max_tests, min_passed, passed, discarded + 1, rest, (k - 1) as nat, message);
        }
    }
}

/// Counting the passes from the front: the first outcome, then the rest.
pub proof fn lemma_passes_drop_first(outcomes: Seq<Outcome>)
    requires
        outcomes.len() > 0,
    ensures
        passes(outcomes) == passes(outcomes.drop_first()) + if outcomes[0] is Pass {
            1nat
        } else {
            0nat
        },
    decreases outcomes.len(),
{
    if outcomes.len() > 1 {
        let front = outcomes.drop_last();
        let back = outcomes.drop_first();
        lemma_passes_drop_first(front);
        assert(front.drop_first() =~= back.drop_last());
        assert(front[0] == outcomes[0]);
        assert(back.last() == outcomes.last());
        assert(passes(back) == passes(back.drop_last()) + if back.last() is Pass {
            1nat
        } else {
            0nat
        });
    } else {
        assert(outcomes.drop_first().len() == 0);
        assert(outcomes.drop_last().len() == 0);
        assert(passes(outcomes.drop_first()) == 0);
        assert(passes(outcomes.drop_last()) == 0);
        assert(outcomes.last() == outcomes[0]);
    }
}

/// A failure on the first test ends the run right away, with no test passed
/// and the failure's own message.
pub proof fn lemma_first_failure_reported(
    tests: nat,
    max_tests: nat,
    min_passed: nat,
    outcomes: Seq<Outcome>,
    message: Seq<char>,
)
    requires
        0 < tests,
        0 < max_tests,
        outcomes.len() > 0,
        outcomes[0] == Outcome::Fail(message),
    ensures
        run_from(tests, max_tests, min_passed, 0, 0, outcomes) == (RunEnd::Failed {
            passed: 0,
            total: 1,
            message,
        }),
        run_report(run_from(tests, max_tests, min_passed, 0, 0, outcomes), tests, min_passed)
            == Some((failed_message(0, 1, message), 0nat)),
{
}

/// A property that discards every input gives up once the maximum number of
/// runs is spent, with no test passed.
pub proof fn lemma_discarding_property_gives_up(
    tests: nat,
    max_tests: nat,
    min_passed: nat,
    discarded: nat,
    outcomes: Seq<Outcome>,
)
    requires
        0 < tests,
        discarded <= max_tests,
        outcomes.len() >= max_tests - discarded,
        forall|i: int| 0 <= i < outcomes.len() ==> #[trigger] outcomes[i] is Discard,
    ensures
        run_from(tests, max_tests, min_passed, 0, discarded, outcomes) == (RunEnd::GaveUp {
            discarded: max_tests,
            passed: 0,
        }),
    decreases max_tests - discarded,
{
    if discarded < max_tests {
        let rest = outcomes.drop_first();
        assert forall|i: int| 0 <= i < rest.len() implies #[trigger] rest[i] is Discard by {
            assert(rest[i] == outcomes[i + 1]);
        }
        lemma_discarding_property_gives_up(tests, max_tests, min_passed, discarded + 1, rest);
    }
}

/// A run can only pass when the wanted number of tests fits in the maximum
/// and meets the minimum, and it never passes more tests than it runs.
pub proof fn lemma_pass_needs_settings(
    tests: nat,
    max_tests: nat,
    min_passed: nat,
    passed: nat,
    discarded: nat,
    outcomes: Seq<Outcome>,
)
    requires
        passed + discarded <= max_tests,
        passed <= tests,
    ensures
        run_from(tests, max_tests, min_passed, passed, discarded, outcomes) is Passed ==> tests
            <= max_tests && min_passed <= tests,
        run_from(tests, max_tests, min_passed, passed, discarded, outcomes) matches RunEnd::Failed {
            passed: p,
            total: t,
            ..
        } ==> p < tests && p < t <= max_tests,
    decreases outcomes.len(),
{
    if passed < tests && passed + discarded < max_tests && outcomes.len() > 0 {
        match outcomes[0] {
            Outcome::Pass => lemma_pass_needs_settings(
                tests,
                max_tests,
                min_passed,
                passed + 1,
                discarded,
                outcomes.drop_first(),
            ),
            Outcome::Discard => lemma_pass_needs_settings(
                tests,
                max_tests,
                min_passed,
                passed,
                discarded + 1,
                outcomes.drop_first(),
            ),
            Outcome::Fail(_) => {},
        }
    }
}

/// What a run does after one test: go on with the new counts of passed
/// and discarded tests, or stop with the error of a failed test.
pub enum RunStep {
    Continue { passed: u64, discarded: u64 },
    Stop(TestError),
}

/// One step of a run, after a test with the given `result`, when `passed`
/// tests passed and `discarded` were discarded before it: a pass and a
/// discard are counted, and a failure stops the run with the message of
/// `failed_message` (the test is number `passed + discarded + 1`).
pub fn run_step(passed: u64, discarded: u64, result: &TestResult) -> (s: RunStep)
    requires
        passed + discarded < u64::MAX,
    ensures
        match result@ {
            Outcome::Pass => s matches RunStep::Continue { passed: p, discarded: d } && p == passed
                + 1 && d == discarded,
            Outcome::Discard => s matches RunStep::Continue { passed: p, discarded: d } && p
                == passed && d == discarded + 1,
            Outcome::Fail(m) => s matches RunStep::Stop(e) && e.message@ == failed_message(
                passed as nat,
                (passed + discarded + 1) as nat,
                m,
            ) && e.passed == passed,
        },
{
    match result {
        TestResult::Pass => RunStep::Continue { passed: passed + 1, discarded },
        TestResult::Discard => RunStep::Continue { passed, discarded: discarded + 1 },
        TestResult::Fail(msg) => {
            let total = passed + discarded + 1;
            let message = make_failed_message(passed, total, msg);
            RunStep::Stop(TestError { message, passed })
        },
    }
}

/// The end of a run that stopped without a failure, after `passed` passed
/// and `discarded` discarded tests: it gave up when fewer than `tests`
/// passed, it has too few when fewer than `min_passed` passed, and it
/// passed otherwise.
pub fn run_finish(tests: u64, min_passed: u64, passed: u64, discarded: u64) -> (r: Result<
    (),
    TestError,
>)
    ensures
        passed < tests ==> (r matches Err(e) && e.message@ == gave_up_message(
            discarded as nat,
            passed as nat,
            tests as nat,
        ) && e.passed == passed),
        tests <= passed < min_passed ==> (r matches Err(e) && e.message@ == too_few_message(
            passed as nat,
            min_passed as nat,
        ) && e.passed == passed),
        tests <= passed && min_passed <= passed ==> r is Ok,
{
    if passed < tests {
        return Err(TestError { message: make_gave_up_message(discarded, passed, tests), passed });
    }
    if passed < min_passed {
        return Err(TestError { message: make_too_few_message(passed, min_passed), passed });
    }
    Ok(())
}

/// Whether `gens` and `outcomes` are a sequence of runs of the property `t`:
/// run `i` starts with generator `gens[i]`, has outcome `outcomes[i]` and
/// leaves generator `gens[i + 1]`.
pub open spec fn chained<T: Testable>(t: T, gens: Seq<Gen>, outcomes: Seq<Outcome>) -> bool {
    &&& gens.len() == outcomes.len() + 1
    &&& forall|i: int|
        0 <= i < outcomes.len() ==> #[trigger] t.gives(gens[i], outcomes[i], gens[i + 1])
}

/// Whether `r` is what a run of the property `t` with the given settings
/// returns, started with the generator `before` and leaving `after`: there
/// is a sequence of runs of the property from `before` to `after` such that
/// the run ends right after the last of them, `Ok` when it passed and with
/// the run's report otherwise.
pub open spec fn ran<T: Testable>(
    t: T,
    tests: nat,
    max_tests: nat,
    min_passed: nat,
    before: Gen,
    after: Gen,
    r: Result<(), TestError>,
) -> bool {
    exists|gens: Seq<Gen>, outcomes: Seq<Outcome>|
        {
            let end = run_from(tests, max_tests, min_passed, 0, 0, outcomes);
            &&& #[trigger] chained(t, gens, outcomes)
            &&& gens[0] == before
            &&& gens.last() == after
            &&& !(end is Unfinished)
            &&& outcomes.len() > 0 ==> run_from(
                tests,
                max_tests,
                min_passed,
                0,
                0,
                outcomes.drop_last(),
            ) is Unfinished
            &&& match r {
                Ok(_) => end is Passed,
                Err(e) => run_report(end, tests, min_passed) == Some((e.message@, e.passed as nat)),
            }
        }
}

/// Trait for types that can be tested as properties.
pub trait Testable {
    /// Whether the property accepts every input it is run on.
    spec fn runnable(&self) -> bool;

    /// Whether one run of the property, started with the generator `before`,
    /// can have the outcome `outcome` and leave the generator `after`.
    spec fn gives(&self, before: Gen, outcome: Outcome, after: Gen) -> bool;

    /// Run this property with the given generator. The generator keeps its
    /// size, and the draws made are added after those made before.
    fn result(&self, g: &mut Gen) -> (r: TestResult)
        requires
            self.runnable(),
        ensures
            self.gives(*old(g), r@, *final(g)),
            final(g).spec_size() == old(g).spec_size(),
            extends(final(g).samples(), old(g).samples()),
    ;
}

/// A closure without arguments is a property whose verdict converts to a
/// test result.
impl<F, R> Testable for F where F: Fn() -> R + 'static, TestResult: From<R> {
    open spec fn runnable(&self) -> bool {
        call_requires(*self, ())
    }

    /// The generator is not touched, and the outcome is that of the
    /// closure's verdict.
    open spec fn gives(&self, before: Gen, outcome: Outcome, after: Gen) -> bool {
        &&& after == before
        &&& exists|v: R, c: TestResult|
            call_ensures(*self, (), v) && call_ensures(TestResult::from, (v,), c) && c@ == outcome
    }

    fn result(&self, g: &mut Gen) -> (r: TestResult)
        ensures
            exists|v: R| call_ensures(*self, (), v) && call_ensures(TestResult::from, (v,), r),
    {
        let v = (self)();
        let ghost v_seen = v;
        let r: TestResult = v.into();
        assert(call_ensures(*self, (), v_seen) && call_ensures(TestResult::from, (v_seen,), r));
        r
    }
}

/// What a closure property's `runnable` and `gives` mean, stated where the
/// closure's type is generic so that callers with a concrete closure type
/// (whose `Fn` impl Verus does not resolve) can use them: it is runnable when
/// it accepts the empty argument list, and a run leaves the generator as it
/// was and has the outcome of a verdict the closure can return.
pub proof fn lemma_closure_property<F, R>(f: F)
    where
        F: Fn() -> R + 'static,
        TestResult: From<R>,

    ensures
        f.runnable() == call_requires(f, ()),
        forall|before: Gen, outcome: Outcome, after: Gen|
            #[trigger] f.gives(before, outcome, after) <==> (after == before && exists|v: R, c: TestResult|
                call_ensures(f, (), v) && call_ensures(TestResult::from, (v,), c) && c@ == outcome),
{
}

/// Configurable property-based test runner.
pub struct QuickCheck {
    tests: u64,
    max_tests: u64,
    min_tests_passed: u64,
    gen: Gen,
}

/// A setting read from text: the parsed number, or `default` when there is
/// no text or it does not parse.
pub open spec fn setting(value: Option<&str>, default: u64) -> u64 {
    match value {
        Some(s) => match parsed_u64(s@) {
            Some(n) => n,
            None => default,
        },
        None => default,
    }
}

/// Reads a setting from text: the parsed number, or `default` when there is
/// no text or it does not parse.
fn env_var_or(value: Option<&str>, default: u64) -> (r: u64)
    ensures
        r == setting(value, default),
{
    match value {
        Some(s) => match parse_u64(s) {
            Some(n) => n,
            None => default,
        },
        None => default,
    }
}

impl QuickCheck {
    /// The number of tests that must pass.
    pub closed spec fn spec_tests(&self) -> u64 {
        self.tests
    }

    /// The largest number of tests run, discards included.
    pub closed spec fn spec_max_tests(&self) -> u64 {
        self.max_tests
    }

    /// The minimum number of tests that must pass.
    pub closed spec fn spec_min_tests_passed(&self) -> u64 {
        self.min_tests_passed
    }

    /// The size parameter of the runner's generator.
    pub closed spec fn spec_gen_size(&self) -> usize {
        self.gen.spec_size()
    }

    /// The runner's generator.
    pub closed spec fn spec_gen(&self) -> Gen {
        self.gen
    }

    /// Create a new runner with default settings: 100 tests, at most 10000
    /// runs, no minimum, and a generator of size 100 seeded from the
    /// thread-local generator. The `QUICKCHECK_*` environment variables are
    /// not read here: `from_settings` takes their texts, and the crate's
    /// application layer reads the environment and calls it.
    pub fn new() -> (q: QuickCheck)
        ensures
            q.spec_tests() == 100,
            q.spec_max_tests() == 10_000,
            q.spec_min_tests_passed() == 0,
            q.spec_gen_size() == 100,
            q.spec_gen().samples() == Seq::<Sample>::empty(),
            q.spec_gen().seed() is None,
    {
        QuickCheck { tests: 100, max_tests: 10_000, min_tests_passed: 0, gen: Gen::new(100) }
    }

    /// Create a runner from the texts of its settings, as the environment
    /// variables `QUICKCHECK_TESTS`, `QUICKCHECK_MAX_TESTS`,
    /// `QUICKCHECK_GENERATOR_SIZE` and `QUICKCHECK_SEED` hold them: a missing
    /// or unparsable number falls back to its default (100, 10000, 100); a
    /// seed makes the generator deterministic. `None` when a seed is given
    /// that is not a `u64`.
    pub fn from_settings(
        tests: Option<&str>,
        max_tests: Option<&str>,
        size: Option<&str>,
        seed: Option<&str>,
    ) -> (r: Option<QuickCheck>)
        ensures
            r is None <==> (seed matches Some(s) && parsed_u64(s@) is None),
            r matches Some(q) ==> {
                &&& q.spec_tests() == setting(tests, 100)
                &&& q.spec_max_tests() == setting(max_tests, 10_000)
                &&& q.spec_min_tests_passed() == 0
                &&& q.spec_gen_size() == setting(size, 100) as usize
                &&& q.spec_gen().samples() == Seq::<Sample>::empty()
                &&& q.spec_gen().seed() == match seed {
                    Some(s) => parsed_u64(s@),
                    None => None,
                }
            },
    {
        let tests = env_var_or(tests, 100);
        let max_tests = env_var_or(max_tests, 10_000);
        let size = env_var_or(size, 100) as usize;
        let gen = match seed {
            Some(s) => match parse_u64(s) {
                Some(n) => Gen::from_seed(size, n),
                None => {
                    return None;
                },
            },
            None => Gen::new(size),
        };
        Some(QuickCheck { tests, max_tests, min_tests_passed: 0, gen })
    }

    /// Set the number of tests to run.
    pub fn tests(self, n: u64) -> (q: QuickCheck)
        ensures
            q.spec_tests() == n,
            q.spec_max_tests() == self.spec_max_tests(),
            q.spec_min_tests_passed() == self.spec_min_tests_passed(),
            q.spec_gen_size() == self.spec_gen_size(),
            q.spec_gen() == self.spec_gen(),
    {
        QuickCheck {
            tests: n,
            max_tests: self.max_tests,
            min_tests_passed: self.min_tests_passed,
            gen: self.gen,
        }
    }

    /// Set the maximum number of tests (including discards).
    pub fn max_tests(self, n: u64) -> (q: QuickCheck)
        ensures
            q.spec_tests() == self.spec_tests(),
            q.spec_max_tests() == n,
            q.spec_min_tests_passed() == self.spec_min_tests_passed(),
            q.spec_gen_size() == self.spec_gen_size(),
            q.spec_gen() == self.spec_gen(),
    {
        QuickCheck {
            tests: self.tests,
            max_tests: n,
            min_tests_passed: self.min_tests_passed,
            gen: self.gen,
        }
    }

    /// Set the minimum number of tests that must pass.
    pub fn min_tests_passed(self, n: u64) -> (q: QuickCheck)
        ensures
            q.spec_tests() == self.spec_tests(),
            q.spec_max_tests() == self.spec_max_tests(),
            q.spec_min_tests_passed() == n,
            q.spec_gen_size() == self.spec_gen_size(),
            q.spec_gen() == self.spec_gen(),
    {
        QuickCheck {
            tests: self.tests,
            max_tests: self.max_tests,
            min_tests_passed: n,
            gen: self.gen,
        }
    }

    /// Set the generator to use.
    pub fn gen(self, gen: Gen) -> (q: QuickCheck)
        ensures
            q.spec_tests() == self.spec_tests(),
            q.spec_max_tests() == self.spec_max_tests(),
            q.spec_min_tests_passed() == self.spec_min_tests_passed(),
            q.spec_gen_size() == gen.spec_size(),
            q.spec_gen() == gen,
    {
        QuickCheck {
            tests: self.tests,
            max_tests: self.max_tests,
            min_tests_passed: self.min_tests_passed,
            gen: gen,
        }
    }

    /// Run the property test: tests run while fewer than the wanted number
    /// passed and fewer than the maximum ran; the first failure ends the run
    /// with its message and counterexample. The error describes a failure, a
    /// run that gave up after too many discards, or too few passed tests.
    /// The run is made of the property's own runs, one after the other on
    /// the runner's generator, and ends as `run_from` says for their
    /// outcomes, right after the last of them.
    pub fn quickcheck<T: Testable>(&mut self, testable: T) -> (r: Result<(), TestError>)
        requires
            testable.runnable(),
        ensures
            ran(
                testable,
                old(self).spec_tests() as nat,
                old(self).spec_max_tests() as nat,
                old(self).spec_min_tests_passed() as nat,
                old(self).spec_gen(),
                final(self).spec_gen(),
                r,
            ),
            final(self).spec_tests() == old(self).spec_tests(),
            final(self).spec_max_tests() == old(self).spec_max_tests(),
            final(self).spec_min_tests_passed() == old(self).spec_min_tests_passed(),
            final(self).spec_gen_size() == old(self).spec_gen_size(),
            extends(final(self).spec_gen().samples(), old(self).spec_gen().samples()),
    {
        let tests = self.tests;
        let max_tests = self.max_tests;
        let min = self.min_tests_passed;
        let mut passed: u64 = 0;
        let mut discarded: u64 = 0;
        let ghost seen: Seq<Outcome> = seq![];
        let ghost gens: Seq<Gen> = seq![self.gen];
        assert forall|rest: Seq<Outcome>|
            run_from(tests as nat, max_tests as nat, min as nat, 0, 0, seen + rest)
                == #[trigger] run_from(tests as nat, max_tests as nat, min as nat, 0, 0, rest) by {
            assert(seen + rest =~= rest);
        }
        while passed < tests && passed + discarded < max_tests
            invariant
                testable.runnable(),
                tests == self.tests,
                max_tests == self.max_tests,
                min == self.min_tests_passed,
                tests == old(self).tests,
                max_tests == old(self).max_tests,
                min == old(self).min_tests_passed,
                passed + discarded <= max_tests,
                passed <= tests,
                self.gen.spec_size() == old(self).gen.spec_size(),
                extends(self.gen.samples(), old(self).gen.samples()),
                seen.len() == passed + discarded,
                chained(testable, gens, seen),
                gens[0] == old(self).gen,
                gens.last() == self.gen,
                seen.len() > 0 ==> run_from(
                    tests as nat,
                    max_tests as nat,
                    min as nat,
                    0,
                    0,
                    seen.drop_last(),
                ) is Unfinished,
                forall|rest: Seq<Outcome>|
                    run_from(tests as nat, max_tests as nat, min as nat, 0, 0, seen + rest)
                        == #[trigger] run_from(
                        tests as nat,
                        max_tests as nat,
                        min as nat,
                        passed as nat,
                        discarded as nat,
                        rest,
                    ),
            decreases max_tests - passed - discarded,
        {
            proof {
                assert(seen + seq![] =~= seen);
                assert(run_from(tests as nat, max_tests as nat, min as nat, 0, 0, seen + seq![])
                    == run_from(
                    tests as nat,
                    max_tests as nat,
                    min as nat,
                    passed as nat,
                    discarded as nat,
                    seq![],
                ));
            }
            let ghost before = self.gen;
            let result = testable.result(&mut self.gen);
            let ghost o = result@;
            let ghost prev_gens = gens;
            let ghost prev_seen = seen;
            proof {
                gens = gens.push(self.gen);
                seen = seen.push(o);
                assert(seen.drop_last() =~= prev_seen);
                assert forall|i: int| 0 <= i < seen.len() implies #[trigger] testable.gives(
                    gens[i],
                    seen[i],
                    gens[i + 1],
                ) by {
                    if i < prev_seen.len() {
                        assert(gens[i] == prev_gens[i] && gens[i + 1] == prev_gens[i + 1]);
                        assert(seen[i] == prev_seen[i]);
                        assert(testable.gives(prev_gens[i], prev_seen[i], prev_gens[i + 1]));
                    }
                }
                assert forall|rest: Seq<Outcome>|
                    run_from(tests as nat, max_tests as nat, min as nat, 0, 0, seen + rest)
                        == #[trigger] run_from(
                        tests as nat,
                        max_tests as nat,
                        min as nat,
                        passed as nat,
                        discarded as nat,
                        seq![o] + rest,
                    ) by {
                    assert(seen + rest =~= prev_seen + (seq![o] + rest));
                }
            }
            match run_step(passed, discarded, &result) {
                RunStep::Continue { passed: p, discarded: d } => {
                    proof {
                        assert forall|rest: Seq<Outcome>|
                            run_from(tests as nat, max_tests as nat, min as nat, 0, 0, seen + rest)
                                == #[trigger] run_from(
                                tests as nat,
                                max_tests as nat,
                                min as nat,
                                p as nat,
                                d as nat,
                                rest,
                            ) by {
                            assert(run_from(tests as nat, max_tests as nat, min as nat, 0, 0, seen + rest)
                                == run_from(
                                tests as nat,
                                max_tests as nat,
                                min as nat,
                                passed as nat,
                                discarded as nat,
                                seq![o] + rest,
                            ));
                            lemma_run_step(
                                tests as nat,
                                max_tests as nat,
                                min as nat,
                                passed as nat,
                                discarded as nat,
                                o,
                                rest,
                            );
                        }
                    }
                    passed = p;
                    discarded = d;
                },
                RunStep::Stop(e) => {
                    proof {
                        assert(seen + seq![] =~= seen);
                        assert(seq![o] + seq![] =~= seq![o]);
                        assert(seq![o].drop_first() =~= seq![]);
                        assert(run_from(tests as nat, max_tests as nat, min as nat, 0, 0, seen)
                            == run_from(
                            tests as nat,
                            max_tests as nat,
                            min as nat,
                            passed as nat,
                            discarded as nat,
                            seq![o],
                        ));
                        assert(chained(testable, gens, seen));
                        assert(run_from(tests as nat, max_tests as nat, min as nat, 0, 0, seen.drop_last())
                            is Unfinished);
                    }
                    return Err(e);
                },
            }
        }
        proof {
            assert(seen + seq![] =~= seen);
            assert(run_from(tests as nat, max_tests as nat, min as nat, 0, 0, seen + seq![]) == run_from(
                tests as nat,
                max_tests as nat,
                min as nat,
                passed as nat,
                discarded as nat,
                seq![],
            ));
        }
        run_finish(tests, min, passed, discarded)
    }
}

impl Default for QuickCheck {
    /// The runner of `QuickCheck::new`.
    fn default() -> (q: QuickCheck)
        ensures
            q.spec_tests() == 100,
            q.spec_max_tests() == 10_000,
            q.spec_min_tests_passed() == 0,
            q.spec_gen_size() == 100,
            q.spec_gen().samples() == Seq::<Sample>::empty(),
            q.spec_gen().seed() is None,
    {
        QuickCheck::new()
    }
}

/// Run a property test with default settings (see `QuickCheck::new`; the
/// environment is not read here, as for `QuickCheck::new`).
pub fn quickcheck<T: Testable>(testable: T) -> (r: Result<(), TestError>)
    requires
        testable.runnable(),
    ensures
        exists|before: Gen, after: Gen|
            {
                &&& before.spec_size() == 100
                &&& before.samples() == Seq::<Sample>::empty()
                &&& ran(testable, 100, 10_000, 0, before, after, r)
            },
{
    let mut q = QuickCheck::new();
    q.quickcheck(testable)
}

/// A property that always fails, run with 50 wanted tests: the run stops at
/// the first test, with no test passed. This shows the runner's contract at
/// a concrete closure, through `lemma_closure_property`.
pub fn always_failing_run() -> (r: Result<(), TestError>)
    ensures
        r matches Err(e) && e.message@ == failed_message(0, 1, Seq::empty()) && e.passed == 0,
{
    let prop = || -> (b: bool)
        ensures
            !b,
        { false };
    proof {
        lemma_closure_property(prop);
    }
    let mut q = QuickCheck::new().tests(50);
    let r = q.quickcheck(prop);
    proof {
        let (gens, outcomes) = choose|gens: Seq<Gen>, outcomes: Seq<Outcome>|
            {
                let end = run_from(50, 10000, 0, 0, 0, outcomes);
                &&& #[trigger] chained(prop, gens, outcomes)
                &&& !(end is Unfinished)
                &&& match r {
                    Ok(_) => end is Passed,
                    Err(e) => run_report(end, 50, 0) == Some((e.message@, e.passed as nat)),
                }
            };
        if outcomes.len() > 0 {
            assert(prop.gives(gens[0], outcomes[0], gens[1]));
            let (v, c) = choose|v: bool, c: TestResult|
                call_ensures(prop, (), v) && call_ensures(TestResult::from, (v,), c) && c@
                    == outcomes[0];
            assert(outcomes[0] == Outcome::Fail(Seq::empty()));
        }
    }
    r
}

} // verus!
