use vstd::prelude::*;

use crate::arbitrary::Arbitrary;
use crate::gen::{extends, Gen, Sample};
use crate::tester::{Outcome, TestResult, Testable};
use crate::text::{debug_text, describes};

verus! {

/// The last of the `candidates` whose verdict in `fails` is a failure, or
/// `None` when none is.
pub open spec fn last_failure<M>(candidates: Seq<M>, fails: Seq<bool>) -> Option<M>
    decreases candidates.len(),
{
    if candidates.len() == 0 || fails.len() == 0 {
        None
    } else if fails.last() {
        Some(candidates.last())
    } else {
        last_failure(candidates.drop_last(), fails.drop_last())
    }
}


/// Wrapper for single-argument property functions.
#[verifier::reject_recursive_types(A)]
#[verifier::reject_recursive_types(R)]
pub struct TestableArgs1<A, R, F: Fn(A) -> R> {
    f: F,
    _marker: std::marker::PhantomData<(A, R)>,
}

impl<A, R, F: Fn(A) -> R> TestableArgs1<A, R, F> {
    /// The wrapped property function.
    pub closed spec fn property(&self) -> F {
        self.f
    }
}

impl<A, R, F> TestableArgs1<A, R, F> where
    A: Arbitrary,
    R: 'static,
    TestResult: From<R>,
    F: Fn(A) -> R + 'static,
 {
    /// Whether a run of the property on a value of model `m` gave a verdict
    /// that converts to a failure exactly when `failed` holds.
    pub open spec fn verdict_on(&self, m: A::Model, failed: bool) -> bool {
        exists|arg: A, v: R, c: TestResult|
            #![trigger call_ensures(self.property(), (arg,), v), call_ensures(TestResult::from, (v,), c)]
            arg.model() == m && call_ensures(self.property(), (arg,), v) && call_ensures(
                TestResult::from,
                (v,),
                c,
            ) && failed == (c is Fail)
    }

    /// Whether `fails` holds, in order, the verdicts of runs of the property
    /// on the `candidates`.
    pub open spec fn judged(&self, candidates: Seq<A::Model>, fails: Seq<bool>) -> bool {
        &&& fails.len() == candidates.len()
        &&& forall|i: int| 0 <= i < candidates.len() ==> #[trigger] self.verdict_on(candidates[i], fails[i])
    }

    /// Whether one shrinking pass from `x` can end at a value of model `m`:
    /// the last of `x`'s shrink candidates on which the property failed.
    pub open spec fn shrinks_to(&self, x: A, m: A::Model) -> bool {
        exists|fails: Seq<bool>|
            self.judged(x.shrink_models(), fails) && last_failure(x.shrink_models(), fails) == Some(m)
    }

    /// Whether a shrinking pass from `x` can find no failing candidate.
    pub open spec fn settled(&self, x: A) -> bool {
        exists|fails: Seq<bool>|
            self.judged(x.shrink_models(), fails) && last_failure(x.shrink_models(), fails) is None
    }

    /// One shrinking pass: runs the property on each shrink candidate of `x`
    /// in order and returns the last one on which it fails, or `None` when
    /// it fails on none.
    pub fn shrink_pass(&self, x: &A) -> (r: Option<A>)
        requires
            self.runnable(),
            A::obeys_arbitrary(),
        ensures
            exists|fails: Seq<bool>|
                {
                    &&& #[trigger] self.judged(x.shrink_models(), fails)
                    &&& match r {
                        Some(y) => last_failure(x.shrink_models(), fails) == Some(y.model()),
                        None => last_failure(x.shrink_models(), fails) is None,
                    }
                },
    {
        let ghost cands = x.shrink_models();
        let candidates = x.shrink();
        let mut found: Option<A> = None;
        let ghost mut fails: Seq<bool> = seq![];
        let mut k: usize = 0;
        while k < candidates.len()
            invariant
                self.runnable(),
                cands == x.shrink_models(),
                candidates@.len() == cands.len(),
                forall|i: int| 0 <= i < candidates@.len() ==> #[trigger] candidates@[i].model() == cands[i],
                k <= candidates@.len(),
                self.judged(cands.take(k as int), fails),
                match found {
                    Some(y) => last_failure(cands.take(k as int), fails) == Some(y.model()),
                    None => last_failure(cands.take(k as int), fails) is None,
                },
            decreases candidates@.len() - k,
        {
            let smaller = candidates[k].duplicate();
            let arg = smaller.duplicate();
            let ghost arg_seen = arg;
            assert(call_requires(self.property(), (arg_seen,)));
            let v = (self.f)(arg);
            let ghost v_seen = v;
            let c: TestResult = v.into();
            let failed = c.is_failure();
            let ghost prev = fails;
            proof {
                fails = fails.push(failed);
                assert(call_ensures(self.property(), (arg_seen,), v_seen));
                assert(call_ensures(TestResult::from, (v_seen,), c));
                assert(self.verdict_on(cands[k as int], failed));
                let next = cands.take(k + 1);
                assert forall|i: int| 0 <= i < next.len() implies #[trigger] self.verdict_on(
                    next[i],
                    fails[i],
                ) by {
                    if i < k {
                        assert(next[i] == cands.take(k as int)[i]);
                        assert(fails[i] == prev[i]);
                    }
                }
                assert(next.drop_last() =~= cands.take(k as int));
                assert(fails.drop_last() =~= prev);
            }
            if failed {
                found = Some(smaller);
            }
            k = k + 1;
        }
        assert(cands.take(k as int) =~= cands);
        found
    }

    /// Whether shrinking from `x` can end at `m`: a chain of shrinking
    /// passes leads from a value of `x`'s model to `m`, and a pass from `m`
    /// finds no failing candidate (unless `u64::MAX` passes ran).
    pub open spec fn minimized(&self, x: A, m: A) -> bool {
        exists|chain: Seq<A>|
            #![trigger chain.last()]
            {
                &&& chain.len() >= 1
                &&& chain[0].model() == x.model()
                &&& chain.last() == m
                &&& forall|i: int|
                    0 <= i < chain.len() - 1 ==> #[trigger] self.shrinks_to(chain[i], chain[i + 1].model())
                &&& self.settled(m) || chain.len() > u64::MAX
            }
    }

    /// The failure reported for the failing input `x`: it is shrunk to a
    /// minimal value, whose `Debug` text is the message.
    fn report_failure(&self, x: A, Ghost(like): Ghost<A>) -> (r: TestResult)
        requires
            self.runnable(),
            A::obeys_arbitrary(),
            x.model() == like.model(),
        ensures
            exists|m: A, s: String|
                #![trigger describes(&m, s)]
                self.minimized(like, m) && describes(&m, s) && r@ == Outcome::Fail(s@),
    {
        let ghost start = x;
        let minimal = self.minimize(x);
        let text = debug_text(&minimal);
        let ghost text_seen = text;
        proof {
            let chain = choose|chain: Seq<A>|
                #[trigger] chain.last() == minimal && chain.len() >= 1 && chain[0].model()
                    == start.model() && (forall|i: int|
                    0 <= i < chain.len() - 1 ==> #[trigger] self.shrinks_to(
                        chain[i],
                        chain[i + 1].model(),
                    )) && (self.settled(minimal) || chain.len() > u64::MAX);
            assert(self.minimized(like, minimal));
            assert(describes(&minimal, text_seen));
        }
        TestResult::Fail(text)
    }

    /// Shrinks a failing input to a minimal one: shrinking passes are
    /// repeated from the value each finds, until a pass finds no failing
    /// candidate (or, at the very most, `u64::MAX` passes have run).
    pub fn minimize(&self, x: A) -> (m: A)
        requires
            self.runnable(),
            A::obeys_arbitrary(),
        ensures
            self.minimized(x, m),
    {
        let ghost mut chain: Seq<A> = seq![x];
        let mut current = x;
        let mut rounds: u64 = 0;
        loop
            invariant
                self.runnable(),
                chain.len() == rounds + 1,
                chain[0].model() == x.model(),
                chain.last() == current,
                forall|i: int|
                    0 <= i < chain.len() - 1 ==> #[trigger] self.shrinks_to(chain[i], chain[i + 1].model()),
            decreases u64::MAX - rounds,
        {
            if rounds == u64::MAX {
                return current;
            }
            let next = self.shrink_pass(&current);
            match next {
                None => {
                    return current;
                },
                Some(y) => {
                    proof {
                        let prev = chain;
                        chain = chain.push(y);
                        assert forall|i: int| 0 <= i < chain.len() - 1 implies #[trigger] self.shrinks_to(
                            chain[i],
                            chain[i + 1].model(),
                        ) by {
                            if i < prev.len() - 1 {
                                assert(chain[i] == prev[i] && chain[i + 1] == prev[i + 1]);
                            }
                        }
                    }
                    current = y;
                    rounds = rounds + 1;
                },
            }
        }
    }
}

/// Runs the property on generated inputs; a verdict that is not a failure is
/// the result. On a failure the input is
/// shrunk to a minimal one (see `minimize`), and the message is its `Debug`
/// text.
impl<A, R, F> Testable for TestableArgs1<A, R, F> where
    A: Arbitrary,
    R: 'static,
    TestResult: From<R>,
    F: Fn(A) -> R + 'static,
 {
    open spec fn runnable(&self) -> bool {
        (forall|a: A| call_requires(self.property(), (a,))) && A::obeys_arbitrary()
    }

    /// The inputs are generated one after the other, within the generator's
    /// size, by the draws that lead from `before` to `after`; the property
    /// runs on values of their models, and its converted verdict is the
    /// outcome unless it is a failure, which gives a failure.
    open spec fn gives(&self, before: Gen, outcome: Outcome, after: Gen) -> bool {
        &&& after.spec_size() == before.spec_size()
        &&& extends(after.samples(), before.samples())
        &&& exists|a: A, a_arg: A, verdict: R, converted: TestResult|
            #![trigger A::generated(before.spec_size() as nat, before.samples(), a.model(), after.samples()), call_ensures(self.property(), (a_arg,), verdict), call_ensures(TestResult::from, (verdict,), converted)]
            {
            &&& A::within_size(a.model(), before.spec_size() as nat)
            &&& A::generated(before.spec_size() as nat, before.samples(), a.model(), after.samples())
            &&& a_arg.model() == a.model()
            &&& call_ensures(self.property(), (a_arg,), verdict)
            &&& call_ensures(TestResult::from, (verdict,), converted)
            &&& if converted is Fail {
                exists|m: A, s: String|
                    #![trigger describes(&m, s)]
                    self.minimized(a, m) && describes(&m, s) && outcome == Outcome::Fail(s@)
            } else {
                outcome == converted@
            }
        }
    }

    fn result(&self, g: &mut Gen) -> (r: TestResult) {
        let a = A::arbitrary(g);
        let a_arg = a.duplicate();
        let ghost a_seen = a_arg;
        assert(call_requires(self.property(), (a_seen,)));
        let verdict = (self.f)(a_arg);
        let ghost verdict_seen = verdict;
        let result: TestResult = verdict.into();
        assert({
            &&& A::within_size(a.model(), old(g).spec_size() as nat)
            &&& A::generated(old(g).spec_size() as nat, old(g).samples(), a.model(), g.samples())
            &&& a_seen.model() == a.model()
            &&& call_ensures(self.property(), (a_seen,), verdict_seen)
            &&& call_ensures(TestResult::from, (verdict_seen,), result)
        });
        if result.is_failure() {
            let r = self.report_failure(a.duplicate(), Ghost(a));
            assert(result@ is Fail && r@ is Fail);
            assert(self.gives(*old(g), r@, *g));
            return r;
        }
        assert(self.gives(*old(g), result@, *g));
        result
    }
}

/// What `runnable` means for this wrapper, stated where the property's
/// type is generic, so that callers whose property has a concrete function
/// or closure type (whose `Fn` impl Verus does not resolve) can use it.
pub proof fn lemma_testable_args1_runnable<A, R, F>(t: &TestableArgs1<A, R, F>) where
    A: Arbitrary,
    R: 'static,
    TestResult: From<R>,
    F: Fn(A) -> R + 'static,

    ensures
        t.runnable() == ((forall|a: A| call_requires(t.property(), (a,))) && A::obeys_arbitrary()),
{
}

/// Create a testable from a single-argument function.
pub fn testable_args1<A, R, F>(f: F) -> (t: TestableArgs1<A, R, F>) where
    A: Arbitrary,
    R: 'static,
    TestResult: From<R>,
    F: Fn(A) -> R + 'static,

    ensures
        t.property() == f,
{
    TestableArgs1 { f, _marker: std::marker::PhantomData }
}


/// Wrapper for 2-argument property functions.
#[verifier::reject_recursive_types(A)]
#[verifier::reject_recursive_types(B)]
#[verifier::reject_recursive_types(R)]
pub struct TestableArgs2<A, B, R, F: Fn(A, B) -> R> {
    f: F,
    _marker: std::marker::PhantomData<(A, B, R)>,
}

impl<A, B, R, F: Fn(A, B) -> R> TestableArgs2<A, B, R, F> {
    /// The wrapped property function.
    pub closed spec fn property(&self) -> F {
        self.f
    }
}

impl<A, B, R, F> TestableArgs2<A, B, R, F> where
    A: Arbitrary,
    B: Arbitrary,
    R: 'static,
    TestResult: From<R>,
    F: Fn(A, B) -> R + 'static,
 {
    /// Whether a run of the property on a value of model `m` gave a verdict
    /// that converts to a failure exactly when `failed` holds.
    pub open spec fn verdict_on(&self, m: (A::Model, B::Model), failed: bool) -> bool {
        exists|arg: (A, B), v: R, c: TestResult|
            #![trigger call_ensures(self.property(), (arg.0, arg.1,), v), call_ensures(TestResult::from, (v,), c)]
            arg.model() == m && call_ensures(self.property(), (arg.0, arg.1,), v) && call_ensures(
                TestResult::from,
                (v,),
                c,
            ) && failed == (c is Fail)
    }

    /// Whether `fails` holds, in order, the verdicts of runs of the property
    /// on the `candidates`.
    pub open spec fn judged(&self, candidates: Seq<(A::Model, B::Model)>, fails: Seq<bool>) -> bool {
        &&& fails.len() == candidates.len()
        &&& forall|i: int| 0 <= i < candidates.len() ==> #[trigger] self.verdict_on(candidates[i], fails[i])
    }

    /// Whether one shrinking pass from `x` can end at a value of model `m`:
    /// the last of `x`'s shrink candidates on which the property failed.
    pub open spec fn shrinks_to(&self, x: (A, B), m: (A::Model, B::Model)) -> bool {
        exists|fails: Seq<bool>|
            self.judged(x.shrink_models(), fails) && last_failure(x.shrink_models(), fails) == Some(m)
    }

    /// Whether a shrinking pass from `x` can find no failing candidate.
    pub open spec fn settled(&self, x: (A, B)) -> bool {
        exists|fails: Seq<bool>|
            self.judged(x.shrink_models(), fails) && last_failure(x.shrink_models(), fails) is None
    }

    /// One shrinking pass: runs the property on each shrink candidate of `x`
    /// in order and returns the last one on which it fails, or `None` when
    /// it fails on none.
    pub fn shrink_pass(&self, x: &(A, B)) -> (r: Option<(A, B)>)
        requires
            self.runnable(),
            <(A, B) as Arbitrary>::obeys_arbitrary(),
        ensures
            exists|fails: Seq<bool>|
                {
                    &&& #[trigger] self.judged(x.shrink_models(), fails)
                    &&& match r {
                        Some(y) => last_failure(x.shrink_models(), fails) == Some(y.model()),
                        None => last_failure(x.shrink_models(), fails) is None,
                    }
                },
    {
        let ghost cands = x.shrink_models();
        let candidates = x.shrink();
        let mut found: Option<(A, B)> = None;
        let ghost mut fails: Seq<bool> = seq![];
        let mut k: usize = 0;
        while k < candidates.len()
            invariant
                self.runnable(),
                cands == x.shrink_models(),
                candidates@.len() == cands.len(),
                forall|i: int| 0 <= i < candidates@.len() ==> #[trigger] candidates@[i].model() == cands[i],
                k <= candidates@.len(),
                self.judged(cands.take(k as int), fails),
                match found {
                    Some(y) => last_failure(cands.take(k as int), fails) == Some(y.model()),
                    None => last_failure(cands.take(k as int), fails) is None,
                },
            decreases candidates@.len() - k,
        {
            let smaller = candidates[k].duplicate();
            let arg = smaller.duplicate();
            let ghost arg_seen = arg;
            assert(call_requires(self.property(), (arg_seen.0, arg_seen.1,)));
            let (p0, p1) = arg;
            let v = (self.f)(p0, p1);
            let ghost v_seen = v;
            let c: TestResult = v.into();
            let failed = c.is_failure();
            let ghost prev = fails;
            proof {
                fails = fails.push(failed);
                assert(call_ensures(self.property(), (arg_seen.0, arg_seen.1,), v_seen));
                assert(call_ensures(TestResult::from, (v_seen,), c));
                assert(self.verdict_on(cands[k as int], failed));
                let next = cands.take(k + 1);
                assert forall|i: int| 0 <= i < next.len() implies #[trigger] self.verdict_on(
                    next[i],
                    fails[i],
                ) by {
                    if i < k {
                        assert(next[i] == cands.take(k as int)[i]);
                        assert(fails[i] == prev[i]);
                    }
                }
                assert(next.drop_last() =~= cands.take(k as int));
                assert(fails.drop_last() =~= prev);
            }
            if failed {
                found = Some(smaller);
            }
            k = k + 1;
        }
        assert(cands.take(k as int) =~= cands);
        found
    }

    /// Whether shrinking from `x` can end at `m`: a chain of shrinking
    /// passes leads from a value of `x`'s model to `m`, and a pass from `m`
    /// finds no failing candidate (unless `u64::MAX` passes ran).
    pub open spec fn minimized(&self, x: (A, B), m: (A, B)) -> bool {
        exists|chain: Seq<(A, B)>|
            #![trigger chain.last()]
            {
                &&& chain.len() >= 1
                &&& chain[0].model() == x.model()
                &&& chain.last() == m
                &&& forall|i: int|
                    0 <= i < chain.len() - 1 ==> #[trigger] self.shrinks_to(chain[i], chain[i + 1].model())
                &&& self.settled(m) || chain.len() > u64::MAX
            }
    }

    /// The failure reported for the failing input `x`: it is shrunk to a
    /// minimal value, whose `Debug` text is the message.
    fn report_failure(&self, x: (A, B), Ghost(like): Ghost<(A, B)>) -> (r: TestResult)
        requires
            self.runnable(),
            <(A, B) as Arbitrary>::obeys_arbitrary(),
            x.model() == like.model(),
        ensures
            exists|m: (A, B), s: String|
                #![trigger describes(&m, s)]
                self.minimized(like, m) && describes(&m, s) && r@ == Outcome::Fail(s@),
    {
        let ghost start = x;
        let minimal = self.minimize(x);
        let text = debug_text(&minimal);
        let ghost text_seen = text;
        proof {
            let chain = choose|chain: Seq<(A, B)>|
                #[trigger] chain.last() == minimal && chain.len() >= 1 && chain[0].model()
                    == start.model() && (forall|i: int|
                    0 <= i < chain.len() - 1 ==> #[trigger] self.shrinks_to(
                        chain[i],
                        chain[i + 1].model(),
                    )) && (self.settled(minimal) || chain.len() > u64::MAX);
            assert(self.minimized(like, minimal));
            assert(describes(&minimal, text_seen));
        }
        TestResult::Fail(text)
    }

    /// Shrinks a failing input to a minimal one: shrinking passes are
    /// repeated from the value each finds, until a pass finds no failing
    /// candidate (or, at the very most, `u64::MAX` passes have run).
    pub fn minimize(&self, x: (A, B)) -> (m: (A, B))
        requires
            self.runnable(),
            <(A, B) as Arbitrary>::obeys_arbitrary(),
        ensures
            self.minimized(x, m),
    {
        let ghost mut chain: Seq<(A, B)> = seq![x];
        let mut current = x;
        let mut rounds: u64 = 0;
        loop
            invariant
                self.runnable(),
                chain.len() == rounds + 1,
                chain[0].model() == x.model(),
                chain.last() == current,
                forall|i: int|
                    0 <= i < chain.len() - 1 ==> #[trigger] self.shrinks_to(chain[i], chain[i + 1].model()),
            decreases u64::MAX - rounds,
        {
            if rounds == u64::MAX {
                return current;
            }
            let next = self.shrink_pass(&current);
            match next {
                None => {
                    return current;
                },
                Some(y) => {
                    proof {
                        let prev = chain;
                        chain = chain.push(y);
                        assert forall|i: int| 0 <= i < chain.len() - 1 implies #[trigger] self.shrinks_to(
                            chain[i],
                            chain[i + 1].model(),
                        ) by {
                            if i < prev.len() - 1 {
                                assert(chain[i] == prev[i] && chain[i + 1] == prev[i + 1]);
                            }
                        }
                    }
                    current = y;
                    rounds = rounds + 1;
                },
            }
        }
    }
}

/// Runs the property on generated inputs; a verdict that is not a failure is
/// the result. On a failure the tuple of the
/// inputs is shrunk to a minimal one (see `minimize`), and the message is its
/// `Debug` text.
impl<A, B, R, F> Testable for TestableArgs2<A, B, R, F> where
    A: Arbitrary,
    B: Arbitrary,
    R: 'static,
    TestResult: From<R>,
    F: Fn(A, B) -> R + 'static,
 {
    open spec fn runnable(&self) -> bool {
        (forall|a: A, b: B| call_requires(self.property(), (a, b,))) && A::obeys_arbitrary() && B::obeys_arbitrary()
    }

    /// The inputs are generated one after the other, within the generator's
    /// size, by the draws that lead from `before` to `after`; the property
    /// runs on values of their models, and its converted verdict is the
    /// outcome unless it is a failure, which gives a failure.
    open spec fn gives(&self, before: Gen, outcome: Outcome, after: Gen) -> bool {
        &&& after.spec_size() == before.spec_size()
        &&& extends(after.samples(), before.samples())
        &&& exists|s1: Seq<Sample>, a: A, b: B, a_arg: A, b_arg: B, verdict: R, converted: TestResult|
            #![trigger A::generated(before.spec_size() as nat, before.samples(), a.model(), s1), B::generated(before.spec_size() as nat, s1, b.model(), after.samples()), call_ensures(self.property(), (a_arg, b_arg,), verdict), call_ensures(TestResult::from, (verdict,), converted)]
            {
            &&& A::within_size(a.model(), before.spec_size() as nat)
            &&& A::generated(before.spec_size() as nat, before.samples(), a.model(), s1)
            &&& a_arg.model() == a.model()
            &&& B::within_size(b.model(), before.spec_size() as nat)
            &&& B::generated(before.spec_size() as nat, s1, b.model(), after.samples())
            &&& b_arg.model() == b.model()
            &&& call_ensures(self.property(), (a_arg, b_arg,), verdict)
            &&& call_ensures(TestResult::from, (verdict,), converted)
            &&& if converted is Fail {
                exists|m: (A, B), s: String|
                    #![trigger describes(&m, s)]
                    self.minimized((a, b), m) && describes(&m, s) && outcome == Outcome::Fail(s@)
            } else {
                outcome == converted@
            }
        }
    }

    fn result(&self, g: &mut Gen) -> (r: TestResult) {
        let a = A::arbitrary(g);
        let ghost s1 = g.samples();
        let b = B::arbitrary(g);
        let a_arg = a.duplicate();
        let ghost a_seen = a_arg;
        let b_arg = b.duplicate();
        let ghost b_seen = b_arg;
        assert(call_requires(self.property(), (a_seen, b_seen,)));
        let verdict = (self.f)(a_arg, b_arg);
        let ghost verdict_seen = verdict;
        let result: TestResult = verdict.into();
        assert({
            &&& A::within_size(a.model(), old(g).spec_size() as nat)
            &&& A::generated(old(g).spec_size() as nat, old(g).samples(), a.model(), s1)
            &&& a_seen.model() == a.model()
            &&& B::within_size(b.model(), old(g).spec_size() as nat)
            &&& B::generated(old(g).spec_size() as nat, s1, b.model(), g.samples())
            &&& b_seen.model() == b.model()
            &&& call_ensures(self.property(), (a_seen, b_seen,), verdict_seen)
            &&& call_ensures(TestResult::from, (verdict_seen,), result)
        });
        if result.is_failure() {
            let r = self.report_failure((a.duplicate(), b.duplicate()), Ghost((a, b)));
            assert(result@ is Fail && r@ is Fail);
            assert(self.gives(*old(g), r@, *g));
            return r;
        }
        assert(self.gives(*old(g), result@, *g));
        result
    }
}

/// What `runnable` means for this wrapper, stated where the property's
/// type is generic, so that callers whose property has a concrete function
/// or closure type (whose `Fn` impl Verus does not resolve) can use it.
pub proof fn lemma_testable_args2_runnable<A, B, R, F>(t: &TestableArgs2<A, B, R, F>) where
    A: Arbitrary,
    B: Arbitrary,
    R: 'static,
    TestResult: From<R>,
    F: Fn(A, B) -> R + 'static,

    ensures
        t.runnable() == ((forall|a: A, b: B| call_requires(t.property(), (a, b,))) && A::obeys_arbitrary() && B::obeys_arbitrary()),
{
}

/// Create a testable from a 2-argument function.
pub fn testable_args2<A, B, R, F>(f: F) -> (t: TestableArgs2<A, B, R, F>) where
    A: Arbitrary,
    B: Arbitrary,
    R: 'static,
    TestResult: From<R>,
    F: Fn(A, B) -> R + 'static,

    ensures
        t.property() == f,
{
    TestableArgs2 { f, _marker: std::marker::PhantomData }
}


/// Wrapper for 3-argument property functions.
#[verifier::reject_recursive_types(A)]
#[verifier::reject_recursive_types(B)]
#[verifier::reject_recursive_types(C)]
#[verifier::reject_recursive_types(R)]
pub struct TestableArgs3<A, B, C, R, F: Fn(A, B, C) -> R> {
    f: F,
    _marker: std::marker::PhantomData<(A, B, C, R)>,
}

impl<A, B, C, R, F: Fn(A, B, C) -> R> TestableArgs3<A, B, C, R, F> {
    /// The wrapped property function.
    pub closed spec fn property(&self) -> F {
        self.f
    }
}

impl<A, B, C, R, F> TestableArgs3<A, B, C, R, F> where
    A: Arbitrary,
    B: Arbitrary,
    C: Arbitrary,
    R: 'static,
    TestResult: From<R>,
    F: Fn(A, B, C) -> R + 'static,
 {
    /// Whether a run of the property on a value of model `m` gave a verdict
    /// that converts to a failure exactly when `failed` holds.
    pub open spec fn verdict_on(&self, m: (A::Model, B::Model, C::Model), failed: bool) -> bool {
        exists|arg: (A, B, C), v: R, c: TestResult|
            #![trigger call_ensures(self.property(), (arg.0, arg.1, arg.2,), v), call_ensures(TestResult::from, (v,), c)]
            arg.model() == m && call_ensures(self.property(), (arg.0, arg.1, arg.2,), v) && call_ensures(
                TestResult::from,
                (v,),
                c,
            ) && failed == (c is Fail)
    }

    /// Whether `fails` holds, in order, the verdicts of runs of the property
    /// on the `candidates`.
    pub open spec fn judged(&self, candidates: Seq<(A::Model, B::Model, C::Model)>, fails: Seq<bool>) -> bool {
        &&& fails.len() == candidates.len()
        &&& forall|i: int| 0 <= i < candidates.len() ==> #[trigger] self.verdict_on(candidates[i], fails[i])
    }

    /// Whether one shrinking pass from `x` can end at a value of model `m`:
    /// the last of `x`'s shrink candidates on which the property failed.
    pub open spec fn shrinks_to(&self, x: (A, B, C), m: (A::Model, B::Model, C::Model)) -> bool {
        exists|fails: Seq<bool>|
            self.judged(x.shrink_models(), fails) && last_failure(x.shrink_models(), fails) == Some(m)
    }

    /// Whether a shrinking pass from `x` can find no failing candidate.
    pub open spec fn settled(&self, x: (A, B, C)) -> bool {
        exists|fails: Seq<bool>|
            self.judged(x.shrink_models(), fails) && last_failure(x.shrink_models(), fails) is None
    }

    /// One shrinking pass: runs the property on each shrink candidate of `x`
    /// in order and returns the last one on which it fails, or `None` when
    /// it fails on none.
    pub fn shrink_pass(&self, x: &(A, B, C)) -> (r: Option<(A, B, C)>)
        requires
            self.runnable(),
            <(A, B, C) as Arbitrary>::obeys_arbitrary(),
        ensures
            exists|fails: Seq<bool>|
                {
                    &&& #[trigger] self.judged(x.shrink_models(), fails)
                    &&& match r {
                        Some(y) => last_failure(x.shrink_models(), fails) == Some(y.model()),
                        None => last_failure(x.shrink_models(), fails) is None,
                    }
                },
    {
        let ghost cands = x.shrink_models();
        let candidates = x.shrink();
        let mut found: Option<(A, B, C)> = None;
        let ghost mut fails: Seq<bool> = seq![];
        let mut k: usize = 0;
        while k < candidates.len()
            invariant
                self.runnable(),
                cands == x.shrink_models(),
                candidates@.len() == cands.len(),
                forall|i: int| 0 <= i < candidates@.len() ==> #[trigger] candidates@[i].model() == cands[i],
                k <= candidates@.len(),
                self.judged(cands.take(k as int), fails),
                match found {
                    Some(y) => last_failure(cands.take(k as int), fails) == Some(y.model()),
                    None => last_failure(cands.take(k as int), fails) is None,
                },
            decreases candidates@.len() - k,
        {
            let smaller = candidates[k].duplicate();
            let arg = smaller.duplicate();
            let ghost arg_seen = arg;
            assert(call_requires(self.property(), (arg_seen.0, arg_seen.1, arg_seen.2,)));
            let (p0, p1, p2) = arg;
            let v = (self.f)(p0, p1, p2);
            let ghost v_seen = v;
            let c: TestResult = v.into();
            let failed = c.is_failure();
            let ghost prev = fails;
            proof {
                fails = fails.push(failed);
                assert(call_ensures(self.property(), (arg_seen.0, arg_seen.1, arg_seen.2,), v_seen));
                assert(call_ensures(TestResult::from, (v_seen,), c));
                assert(self.verdict_on(cands[k as int], failed));
                let next = cands.take(k + 1);
                assert forall|i: int| 0 <= i < next.len() implies #[trigger] self.verdict_on(
                    next[i],
                    fails[i],
                ) by {
                    if i < k {
                        assert(next[i] == cands.take(k as int)[i]);
                        assert(fails[i] == prev[i]);
                    }
                }
                assert(next.drop_last() =~= cands.take(k as int));
                assert(fails.drop_last() =~= prev);
            }
            if failed {
                found = Some(smaller);
            }
            k = k + 1;
        }
        assert(cands.take(k as int) =~= cands);
        found
    }

    /// Whether shrinking from `x` can end at `m`: a chain of shrinking
    /// passes leads from a value of `x`'s model to `m`, and a pass from `m`
    /// finds no failing candidate (unless `u64::MAX` passes ran).
    pub open spec fn minimized(&self, x: (A, B, C), m: (A, B, C)) -> bool {
        exists|chain: Seq<(A, B, C)>|
            #![trigger chain.last()]
            {
                &&& chain.len() >= 1
                &&& chain[0].model() == x.model()
                &&& chain.last() == m
                &&& forall|i: int|
                    0 <= i < chain.len() - 1 ==> #[trigger] self.shrinks_to(chain[i], chain[i + 1].model())
                &&& self.settled(m) || chain.len() > u64::MAX
            }
    }

    /// The failure reported for the failing input `x`: it is shrunk to a
    /// minimal value, whose `Debug` text is the message.
    fn report_failure(&self, x: (A, B, C), Ghost(like): Ghost<(A, B, C)>) -> (r: TestResult)
        requires
            self.runnable(),
            <(A, B, C) as Arbitrary>::obeys_arbitrary(),
            x.model() == like.model(),
        ensures
            exists|m: (A, B, C), s: String|
                #![trigger describes(&m, s)]
                self.minimized(like, m) && describes(&m, s) && r@ == Outcome::Fail(s@),
    {
        let ghost start = x;
        let minimal = self.minimize(x);
        let text = debug_text(&minimal);
        let ghost text_seen = text;
        proof {
            let chain = choose|chain: Seq<(A, B, C)>|
                #[trigger] chain.last() == minimal && chain.len() >= 1 && chain[0].model()
                    == start.model() && (forall|i: int|
                    0 <= i < chain.len() - 1 ==> #[trigger] self.shrinks_to(
                        chain[i],
                        chain[i + 1].model(),
                    )) && (self.settled(minimal) || chain.len() > u64::MAX);
            assert(self.minimized(like, minimal));
            assert(describes(&minimal, text_seen));
        }
        TestResult::Fail(text)
    }

    /// Shrinks a failing input to a minimal one: shrinking passes are
    /// repeated from the value each finds, until a pass finds no failing
    /// candidate (or, at the very most, `u64::MAX` passes have run).
    pub fn minimize(&self, x: (A, B, C)) -> (m: (A, B, C))
        requires
            self.runnable(),
            <(A, B, C) as Arbitrary>::obeys_arbitrary(),
        ensures
            self.minimized(x, m),
    {
        let ghost mut chain: Seq<(A, B, C)> = seq![x];
        let mut current = x;
        let mut rounds: u64 = 0;
        loop
            invariant
                self.runnable(),
                chain.len() == rounds + 1,
                chain[0].model() == x.model(),
                chain.last() == current,
                forall|i: int|
                    0 <= i < chain.len() - 1 ==> #[trigger] self.shrinks_to(chain[i], chain[i + 1].model()),
            decreases u64::MAX - rounds,
        {
            if rounds == u64::MAX {
                return current;
            }
            let next = self.shrink_pass(&current);
            match next {
                None => {
                    return current;
                },
                Some(y) => {
                    proof {
                        let prev = chain;
                        chain = chain.push(y);
                        assert forall|i: int| 0 <= i < chain.len() - 1 implies #[trigger] self.shrinks_to(
                            chain[i],
                            chain[i + 1].model(),
                        ) by {
                            if i < prev.len() - 1 {
                                assert(chain[i] == prev[i] && chain[i + 1] == prev[i + 1]);
                            }
                        }
                    }
                    current = y;
                    rounds = rounds + 1;
                },
            }
        }
    }
}

/// Runs the property on generated inputs; a verdict that is not a failure is
/// the result. On a failure the tuple of the
/// inputs is shrunk to a minimal one (see `minimize`), and the message is its
/// `Debug` text.
impl<A, B, C, R, F> Testable for TestableArgs3<A, B, C, R, F> where
    A: Arbitrary,
    B: Arbitrary,
    C: Arbitrary,
    R: 'static,
    TestResult: From<R>,
    F: Fn(A, B, C) -> R + 'static,
 {
    open spec fn runnable(&self) -> bool {
        (forall|a: A, b: B, c: C| call_requires(self.property(), (a, b, c,))) && A::obeys_arbitrary() && B::obeys_arbitrary() && C::obeys_arbitrary()
    }

    /// The inputs are generated one after the other, within the generator's
    /// size, by the draws that lead from `before` to `after`; the property
    /// runs on values of their models, and its converted verdict is the
    /// outcome unless it is a failure, which gives a failure.
    open spec fn gives(&self, before: Gen, outcome: Outcome, after: Gen) -> bool {
        &&& after.spec_size() == before.spec_size()
        &&& extends(after.samples(), before.samples())
        &&& exists|s1: Seq<Sample>, s2: Seq<Sample>, a: A, b: B, c: C, a_arg: A, b_arg: B, c_arg: C, verdict: R, converted: TestResult|
            #![trigger A::generated(before.spec_size() as nat, before.samples(), a.model(), s1), B::generated(before.spec_size() as nat, s1, b.model(), s2), C::generated(before.spec_size() as nat, s2, c.model(), after.samples()), call_ensures(self.property(), (a_arg, b_arg, c_arg,), verdict), call_ensures(TestResult::from, (verdict,), converted)]
            {
            &&& A::within_size(a.model(), before.spec_size() as nat)
            &&& A::generated(before.spec_size() as nat, before.samples(), a.model(), s1)
            &&& a_arg.model() == a.model()
            &&& B::within_size(b.model(), before.spec_size() as nat)
            &&& B::generated(before.spec_size() as nat, s1, b.model(), s2)
            &&& b_arg.model() == b.model()
            &&& C::within_size(c.model(), before.spec_size() as nat)
            &&& C::generated(before.spec_size() as nat, s2, c.model(), after.samples())
            &&& c_arg.model() == c.model()
            &&& call_ensures(self.property(), (a_arg, b_arg, c_arg,), verdict)
            &&& call_ensures(TestResult::from, (verdict,), converted)
            &&& if converted is Fail {
                exists|m: (A, B, C), s: String|
                    #![trigger describes(&m, s)]
                    self.minimized((a, b, c), m) && describes(&m, s) && outcome == Outcome::Fail(s@)
            } else {
                outcome == converted@
            }
        }
    }

    fn result(&self, g: &mut Gen) -> (r: TestResult) {
        let a = A::arbitrary(g);
        let ghost s1 = g.samples();
        let b = B::arbitrary(g);
        let ghost s2 = g.samples();
        let c = C::arbitrary(g);
        let a_arg = a.duplicate();
        let ghost a_seen = a_arg;
        let b_arg = b.duplicate();
        let ghost b_seen = b_arg;
        let c_arg = c.duplicate();
        let ghost c_seen = c_arg;
        assert(call_requires(self.property(), (a_seen, b_seen, c_seen,)));
        let verdict = (self.f)(a_arg, b_arg, c_arg);
        let ghost verdict_seen = verdict;
        let result: TestResult = verdict.into();
        assert({
            &&& A::within_size(a.model(), old(g).spec_size() as nat)
            &&& A::generated(old(g).spec_size() as nat, old(g).samples(), a.model(), s1)
            &&& a_seen.model() == a.model()
            &&& B::within_size(b.model(), old(g).spec_size() as nat)
            &&& B::generated(old(g).spec_size() as nat, s1, b.model(), s2)
            &&& b_seen.model() == b.model()
            &&& C::within_size(c.model(), old(g).spec_size() as nat)
            &&& C::generated(old(g).spec_size() as nat, s2, c.model(), g.samples())
            &&& c_seen.model() == c.model()
            &&& call_ensures(self.property(), (a_seen, b_seen, c_seen,), verdict_seen)
            &&& call_ensures(TestResult::from, (verdict_seen,), result)
        });
        if result.is_failure() {
            let r = self.report_failure((a.duplicate(), b.duplicate(), c.duplicate()), Ghost((a, b, c)));
            assert(result@ is Fail && r@ is Fail);
            assert(self.gives(*old(g), r@, *g));
            return r;
        }
        assert(self.gives(*old(g), result@, *g));
        result
    }
}

/// What `runnable` means for this wrapper, stated where the property's
/// type is generic, so that callers whose property has a concrete function
/// or closure type (whose `Fn` impl Verus does not resolve) can use it.
pub proof fn lemma_testable_args3_runnable<A, B, C, R, F>(t: &TestableArgs3<A, B, C, R, F>) where
    A: Arbitrary,
    B: Arbitrary,
    C: Arbitrary,
    R: 'static,
    TestResult: From<R>,
    F: Fn(A, B, C) -> R + 'static,

    ensures
        t.runnable() == ((forall|a: A, b: B, c: C| call_requires(t.property(), (a, b, c,))) && A::obeys_arbitrary() && B::obeys_arbitrary() && C::obeys_arbitrary()),
{
}

/// Create a testable from a 3-argument function.
pub fn testable_args3<A, B, C, R, F>(f: F) -> (t: TestableArgs3<A, B, C, R, F>) where
    A: Arbitrary,
    B: Arbitrary,
    C: Arbitrary,
    R: 'static,
    TestResult: From<R>,
    F: Fn(A, B, C) -> R + 'static,

    ensures
        t.property() == f,
{
    TestableArgs3 { f, _marker: std::marker::PhantomData }
}


/// Wrapper for 4-argument property functions.
#[verifier::reject_recursive_types(A)]
#[verifier::reject_recursive_types(B)]
#[verifier::reject_recursive_types(C)]
#[verifier::reject_recursive_types(D)]
#[verifier::reject_recursive_types(R)]
pub struct TestableArgs4<A, B, C, D, R, F: Fn(A, B, C, D) -> R> {
    f: F,
    _marker: std::marker::PhantomData<(A, B, C, D, R)>,
}

impl<A, B, C, D, R, F: Fn(A, B, C, D) -> R> TestableArgs4<A, B, C, D, R, F> {
    /// The wrapped property function.
    pub closed spec fn property(&self) -> F {
        self.f
    }
}

impl<A, B, C, D, R, F> TestableArgs4<A, B, C, D, R, F> where
    A: Arbitrary,
    B: Arbitrary,
    C: Arbitrary,
    D: Arbitrary,
    R: 'static,
    TestResult: From<R>,
    F: Fn(A, B, C, D) -> R + 'static,
 {
    /// Whether a run of the property on a value of model `m` gave a verdict
    /// that converts to a failure exactly when `failed` holds.
    pub open spec fn verdict_on(&self, m: (A::Model, B::Model, C::Model, D::Model), failed: bool) -> bool {
        exists|arg: (A, B, C, D), v: R, c: TestResult|
            #![trigger call_ensures(self.property(), (arg.0, arg.1, arg.2, arg.3,), v), call_ensures(TestResult::from, (v,), c)]
            arg.model() == m && call_ensures(self.property(), (arg.0, arg.1, arg.2, arg.3,), v) && call_ensures(
                TestResult::from,
                (v,),
                c,
            ) && failed == (c is Fail)
    }

    /// Whether `fails` holds, in order, the verdicts of runs of the property
    /// on the `candidates`.
    pub open spec fn judged(&self, candidates: Seq<(A::Model, B::Model, C::Model, D::Model)>, fails: Seq<bool>) -> bool {
        &&& fails.len() == candidates.len()
        &&& forall|i: int| 0 <= i < candidates.len() ==> #[trigger] self.verdict_on(candidates[i], fails[i])
    }

    /// Whether one shrinking pass from `x` can end at a value of model `m`:
    /// the last of `x`'s shrink candidates on which the property failed.
    pub open spec fn shrinks_to(&self, x: (A, B, C, D), m: (A::Model, B::Model, C::Model, D::Model)) -> bool {
        exists|fails: Seq<bool>|
            self.judged(x.shrink_models(), fails) && last_failure(x.shrink_models(), fails) == Some(m)
    }

    /// Whether a shrinking pass from `x` can find no failing candidate.
    pub open spec fn settled(&self, x: (A, B, C, D)) -> bool {
        exists|fails: Seq<bool>|
            self.judged(x.shrink_models(), fails) && last_failure(x.shrink_models(), fails) is None
    }

    /// One shrinking pass: runs the property on each shrink candidate of `x`
    /// in order and returns the last one on which it fails, or `None` when
    /// it fails on none.
    pub fn shrink_pass(&self, x: &(A, B, C, D)) -> (r: Option<(A, B, C, D)>)
        requires
            self.runnable(),
            <(A, B, C, D) as Arbitrary>::obeys_arbitrary(),
        ensures
            exists|fails: Seq<bool>|
                {
                    &&& #[trigger] self.judged(x.shrink_models(), fails)
                    &&& match r {
                        Some(y) => last_failure(x.shrink_models(), fails) == Some(y.model()),
                        None => last_failure(x.shrink_models(), fails) is None,
                    }
                },
    {
        let ghost cands = x.shrink_models();
        let candidates = x.shrink();
        let mut found: Option<(A, B, C, D)> = None;
        let ghost mut fails: Seq<bool> = seq![];
        let mut k: usize = 0;
        while k < candidates.len()
            invariant
                self.runnable(),
                cands == x.shrink_models(),
                candidates@.len() == cands.len(),
                forall|i: int| 0 <= i < candidates@.len() ==> #[trigger] candidates@[i].model() == cands[i],
                k <= candidates@.len(),
                self.judged(cands.take(k as int), fails),
                match found {
                    Some(y) => last_failure(cands.take(k as int), fails) == Some(y.model()),
                    None => last_failure(cands.take(k as int), fails) is None,
                },
            decreases candidates@.len() - k,
        {
            let smaller = candidates[k].duplicate();
            let arg = smaller.duplicate();
            let ghost arg_seen = arg;
            assert(call_requires(self.property(), (arg_seen.0, arg_seen.1, arg_seen.2, arg_seen.3,)));
            let (p0, p1, p2, p3) = arg;
            let v = (self.f)(p0, p1, p2, p3);
            let ghost v_seen = v;
            let c: TestResult = v.into();
            let failed = c.is_failure();
            let ghost prev = fails;
            proof {
                fails = fails.push(failed);
                assert(call_ensures(self.property(), (arg_seen.0, arg_seen.1, arg_seen.2, arg_seen.3,), v_seen));
                assert(call_ensures(TestResult::from, (v_seen,), c));
                assert(self.verdict_on(cands[k as int], failed));
                let next = cands.take(k + 1);
                assert forall|i: int| 0 <= i < next.len() implies #[trigger] self.verdict_on(
                    next[i],
                    fails[i],
                ) by {
                    if i < k {
                        assert(next[i] == cands.take(k as int)[i]);
                        assert(fails[i] == prev[i]);
                    }
                }
                assert(next.drop_last() =~= cands.take(k as int));
                assert(fails.drop_last() =~= prev);
            }
            if failed {
                found = Some(smaller);
            }
            k = k + 1;
        }
        assert(cands.take(k as int) =~= cands);
        found
    }

    /// Whether shrinking from `x` can end at `m`: a chain of shrinking
    /// passes leads from a value of `x`'s model to `m`, and a pass from `m`
    /// finds no failing candidate (unless `u64::MAX` passes ran).
    pub open spec fn minimized(&self, x: (A, B, C, D), m: (A, B, C, D)) -> bool {
        exists|chain: Seq<(A, B, C, D)>|
            #![trigger chain.last()]
            {
                &&& chain.len() >= 1
                &&& chain[0].model() == x.model()
                &&& chain.last() == m
                &&& forall|i: int|
                    0 <= i < chain.len() - 1 ==> #[trigger] self.shrinks_to(chain[i], chain[i + 1].model())
                &&& self.settled(m) || chain.len() > u64::MAX
            }
    }

    /// The failure reported for the failing input `x`: it is shrunk to a
    /// minimal value, whose `Debug` text is the message.
    fn report_failure(&self, x: (A, B, C, D), Ghost(like): Ghost<(A, B, C, D)>) -> (r: TestResult)
        requires
            self.runnable(),
            <(A, B, C, D) as Arbitrary>::obeys_arbitrary(),
            x.model() == like.model(),
        ensures
            exists|m: (A, B, C, D), s: String|
                #![trigger describes(&m, s)]
                self.minimized(like, m) && describes(&m, s) && r@ == Outcome::Fail(s@),
    {
        let ghost start = x;
        let minimal = self.minimize(x);
        let text = debug_text(&minimal);
        let ghost text_seen = text;
        proof {
            let chain = choose|chain: Seq<(A, B, C, D)>|
                #[trigger] chain.last() == minimal && chain.len() >= 1 && chain[0].model()
                    == start.model() && (forall|i: int|
                    0 <= i < chain.len() - 1 ==> #[trigger] self.shrinks_to(
                        chain[i],
                        chain[i + 1].model(),
                    )) && (self.settled(minimal) || chain.len() > u64::MAX);
            assert(self.minimized(like, minimal));
            assert(describes(&minimal, text_seen));
        }
        TestResult::Fail(text)
    }

    /// Shrinks a failing input to a minimal one: shrinking passes are
    /// repeated from the value each finds, until a pass finds no failing
    /// candidate (or, at the very most, `u64::MAX` passes have run).
    pub fn minimize(&self, x: (A, B, C, D)) -> (m: (A, B, C, D))
        requires
            self.runnable(),
            <(A, B, C, D) as Arbitrary>::obeys_arbitrary(),
        ensures
            self.minimized(x, m),
    {
        let ghost mut chain: Seq<(A, B, C, D)> = seq![x];
        let mut current = x;
        let mut rounds: u64 = 0;
        loop
            invariant
                self.runnable(),
                chain.len() == rounds + 1,
                chain[0].model() == x.model(),
                chain.last() == current,
                forall|i: int|
                    0 <= i < chain.len() - 1 ==> #[trigger] self.shrinks_to(chain[i], chain[i + 1].model()),
            decreases u64::MAX - rounds,
        {
            if rounds == u64::MAX {
                return current;
            }
            let next = self.shrink_pass(&current);
            match next {
                None => {
                    return current;
                },
                Some(y) => {
                    proof {
                        let prev = chain;
                        chain = chain.push(y);
                        assert forall|i: int| 0 <= i < chain.len() - 1 implies #[trigger] self.shrinks_to(
                            chain[i],
                            chain[i + 1].model(),
                        ) by {
                            if i < prev.len() - 1 {
                                assert(chain[i] == prev[i] && chain[i + 1] == prev[i + 1]);
                            }
                        }
                    }
                    current = y;
                    rounds = rounds + 1;
                },
            }
        }
    }
}

/// Runs the property on generated inputs; a verdict that is not a failure is
/// the result. On a failure the tuple of the
/// inputs is shrunk to a minimal one (see `minimize`), and the message is its
/// `Debug` text.
impl<A, B, C, D, R, F> Testable for TestableArgs4<A, B, C, D, R, F> where
    A: Arbitrary,
    B: Arbitrary,
    C: Arbitrary,
    D: Arbitrary,
    R: 'static,
    TestResult: From<R>,
    F: Fn(A, B, C, D) -> R + 'static,
 {
    open spec fn runnable(&self) -> bool {
        (forall|a: A, b: B, c: C, d: D| call_requires(self.property(), (a, b, c, d,))) && A::obeys_arbitrary() && B::obeys_arbitrary() && C::obeys_arbitrary() && D::obeys_arbitrary()
    }

    /// The inputs are generated one after the other, within the generator's
    /// size, by the draws that lead from `before` to `after`; the property
    /// runs on values of their models, and its converted verdict is the
    /// outcome unless it is a failure, which gives a failure.
    open spec fn gives(&self, before: Gen, outcome: Outcome, after: Gen) -> bool {
        &&& after.spec_size() == before.spec_size()
        &&& extends(after.samples(), before.samples())
        &&& exists|s1: Seq<Sample>, s2: Seq<Sample>, s3: Seq<Sample>, a: A, b: B, c: C, d: D, a_arg: A, b_arg: B, c_arg: C, d_arg: D, verdict: R, converted: TestResult|
            #![trigger A::generated(before.spec_size() as nat, before.samples(), a.model(), s1), B::generated(before.spec_size() as nat, s1, b.model(), s2), C::generated(before.spec_size() as nat, s2, c.model(), s3), D::generated(before.spec_size() as nat, s3, d.model(), after.samples()), call_ensures(self.property(), (a_arg, b_arg, c_arg, d_arg,), verdict), call_ensures(TestResult::from, (verdict,), converted)]
            {
            &&& A::within_size(a.model(), before.spec_size() as nat)
            &&& A::generated(before.spec_size() as nat, before.samples(), a.model(), s1)
            &&& a_arg.model() == a.model()
            &&& B::within_size(b.model(), before.spec_size() as nat)
            &&& B::generated(before.spec_size() as nat, s1, b.model(), s2)
            &&& b_arg.model() == b.model()
            &&& C::within_size(c.model(), before.spec_size() as nat)
            &&& C::generated(before.spec_size() as nat, s2, c.model(), s3)
            &&& c_arg.model() == c.model()
            &&& D::within_size(d.model(), before.spec_size() as nat)
            &&& D::generated(before.spec_size() as nat, s3, d.model(), after.samples())
            &&& d_arg.model() == d.model()
            &&& call_ensures(self.property(), (a_arg, b_arg, c_arg, d_arg,), verdict)
            &&& call_ensures(TestResult::from, (verdict,), converted)
            &&& if converted is Fail {
                exists|m: (A, B, C, D), s: String|
                    #![trigger describes(&m, s)]
                    self.minimized((a, b, c, d), m) && describes(&m, s) && outcome == Outcome::Fail(s@)
            } else {
                outcome == converted@
            }
        }
    }

    fn result(&self, g: &mut Gen) -> (r: TestResult) {
        let a = A::arbitrary(g);
        let ghost s1 = g.samples();
        let b = B::arbitrary(g);
        let ghost s2 = g.samples();
        let c = C::arbitrary(g);
        let ghost s3 = g.samples();
        let d = D::arbitrary(g);
        let a_arg = a.duplicate();
        let ghost a_seen = a_arg;
        let b_arg = b.duplicate();
        let ghost b_seen = b_arg;
        let c_arg = c.duplicate();
        let ghost c_seen = c_arg;
        let d_arg = d.duplicate();
        let ghost d_seen = d_arg;
        assert(call_requires(self.property(), (a_seen, b_seen, c_seen, d_seen,)));
        let verdict = (self.f)(a_arg, b_arg, c_arg, d_arg);
        let ghost verdict_seen = verdict;
        let result: TestResult = verdict.into();
        assert({
            &&& A::within_size(a.model(), old(g).spec_size() as nat)
            &&& A::generated(old(g).spec_size() as nat, old(g).samples(), a.model(), s1)
            &&& a_seen.model() == a.model()
            &&& B::within_size(b.model(), old(g).spec_size() as nat)
            &&& B::generated(old(g).spec_size() as nat, s1, b.model(), s2)
            &&& b_seen.model() == b.model()
            &&& C::within_size(c.model(), old(g).spec_size() as nat)
            &&& C::generated(old(g).spec_size() as nat, s2, c.model(), s3)
            &&& c_seen.model() == c.model()
            &&& D::within_size(d.model(), old(g).spec_size() as nat)
            &&& D::generated(old(g).spec_size() as nat, s3, d.model(), g.samples())
            &&& d_seen.model() == d.model()
            &&& call_ensures(self.property(), (a_seen, b_seen, c_seen, d_seen,), verdict_seen)
            &&& call_ensures(TestResult::from, (verdict_seen,), result)
        });
        if result.is_failure() {
            let r = self.report_failure((a.duplicate(), b.duplicate(), c.duplicate(), d.duplicate()), Ghost((a, b, c, d)));
            assert(result@ is Fail && r@ is Fail);
            assert(self.gives(*old(g), r@, *g));
            return r;
        }
        assert(self.gives(*old(g), result@, *g));
        result
    }
}

/// What `runnable` means for this wrapper, stated where the property's
/// type is generic, so that callers whose property has a concrete function
/// or closure type (whose `Fn` impl Verus does not resolve) can use it.
pub proof fn lemma_testable_args4_runnable<A, B, C, D, R, F>(t: &TestableArgs4<A, B, C, D, R, F>) where
    A: Arbitrary,
    B: Arbitrary,
    C: Arbitrary,
    D: Arbitrary,
    R: 'static,
    TestResult: From<R>,
    F: Fn(A, B, C, D) -> R + 'static,

    ensures
        t.runnable() == ((forall|a: A, b: B, c: C, d: D| call_requires(t.property(), (a, b, c, d,))) && A::obeys_arbitrary() && B::obeys_arbitrary() && C::obeys_arbitrary() && D::obeys_arbitrary()),
{
}

/// Create a testable from a 4-argument function.
pub fn testable_args4<A, B, C, D, R, F>(f: F) -> (t: TestableArgs4<A, B, C, D, R, F>) where
    A: Arbitrary,
    B: Arbitrary,
    C: Arbitrary,
    D: Arbitrary,
    R: 'static,
    TestResult: From<R>,
    F: Fn(A, B, C, D) -> R + 'static,

    ensures
        t.property() == f,
{
    TestableArgs4 { f, _marker: std::marker::PhantomData }
}


/// Wrapper for 5-argument property functions.
#[verifier::reject_recursive_types(A)]
#[verifier::reject_recursive_types(B)]
#[verifier::reject_recursive_types(C)]
#[verifier::reject_recursive_types(D)]
#[verifier::reject_recursive_types(E)]
#[verifier::reject_recursive_types(R)]
pub struct TestableArgs5<A, B, C, D, E, R, F: Fn(A, B, C, D, E) -> R> {
    f: F,
    _marker: std::marker::PhantomData<(A, B, C, D, E, R)>,
}

impl<A, B, C, D, E, R, F: Fn(A, B, C, D, E) -> R> TestableArgs5<A, B, C, D, E, R, F> {
    /// The wrapped property function.
    pub closed spec fn property(&self) -> F {
        self.f
    }
}

impl<A, B, C, D, E, R, F> TestableArgs5<A, B, C, D, E, R, F> where
    A: Arbitrary,
    B: Arbitrary,
    C: Arbitrary,
    D: Arbitrary,
    E: Arbitrary,
    R: 'static,
    TestResult: From<R>,
    F: Fn(A, B, C, D, E) -> R + 'static,
 {
    /// Whether a run of the property on a value of model `m` gave a verdict
    /// that converts to a failure exactly when `failed` holds.
    pub open spec fn verdict_on(&self, m: (A::Model, B::Model, C::Model, D::Model, E::Model), failed: bool) -> bool {
        exists|arg: (A, B, C, D, E), v: R, c: TestResult|
            #![trigger call_ensures(self.property(), (arg.0, arg.1, arg.2, arg.3, arg.4,), v), call_ensures(TestResult::from, (v,), c)]
            arg.model() == m && call_ensures(self.property(), (arg.0, arg.1, arg.2, arg.3, arg.4,), v) && call_ensures(
                TestResult::from,
                (v,),
                c,
            ) && failed == (c is Fail)
    }

    /// Whether `fails` holds, in order, the verdicts of runs of the property
    /// on the `candidates`.
    pub open spec fn judged(&self, candidates: Seq<(A::Model, B::Model, C::Model, D::Model, E::Model)>, fails: Seq<bool>) -> bool {
        &&& fails.len() == candidates.len()
        &&& forall|i: int| 0 <= i < candidates.len() ==> #[trigger] self.verdict_on(candidates[i], fails[i])
    }

    /// Whether one shrinking pass from `x` can end at a value of model `m`:
    /// the last of `x`'s shrink candidates on which the property failed.
    pub open spec fn shrinks_to(&self, x: (A, B, C, D, E), m: (A::Model, B::Model, C::Model, D::Model, E::Model)) -> bool {
        exists|fails: Seq<bool>|
            self.judged(x.shrink_models(), fails) && last_failure(x.shrink_models(), fails) == Some(m)
    }

    /// Whether a shrinking pass from `x` can find no failing candidate.
    pub open spec fn settled(&self, x: (A, B, C, D, E)) -> bool {
        exists|fails: Seq<bool>|
            self.judged(x.shrink_models(), fails) && last_failure(x.shrink_models(), fails) is None
    }

    /// One shrinking pass: runs the property on each shrink candidate of `x`
    /// in order and returns the last one on which it fails, or `None` when
    /// it fails on none.
    pub fn shrink_pass(&self, x: &(A, B, C, D, E)) -> (r: Option<(A, B, C, D, E)>)
        requires
            self.runnable(),
            <(A, B, C, D, E) as Arbitrary>::obeys_arbitrary(),
        ensures
            exists|fails: Seq<bool>|
                {
                    &&& #[trigger] self.judged(x.shrink_models(), fails)
                    &&& match r {
                        Some(y) => last_failure(x.shrink_models(), fails) == Some(y.model()),
                        None => last_failure(x.shrink_models(), fails) is None,
                    }
                },
    {
        let ghost cands = x.shrink_models();
        let candidates = x.shrink();
        let mut found: Option<(A, B, C, D, E)> = None;
        let ghost mut fails: Seq<bool> = seq![];
        let mut k: usize = 0;
        while k < candidates.len()
            invariant
                self.runnable(),
                cands == x.shrink_models(),
                candidates@.len() == cands.len(),
                forall|i: int| 0 <= i < candidates@.len() ==> #[trigger] candidates@[i].model() == cands[i],
                k <= candidates@.len(),
                self.judged(cands.take(k as int), fails),
                match found {
                    Some(y) => last_failure(cands.take(k as int), fails) == Some(y.model()),
                    None => last_failure(cands.take(k as int), fails) is None,
                },
            decreases candidates@.len() - k,
        {
            let smaller = candidates[k].duplicate();
            let arg = smaller.duplicate();
            let ghost arg_seen = arg;
            assert(call_requires(self.property(), (arg_seen.0, arg_seen.1, arg_seen.2, arg_seen.3, arg_seen.4,)));
            let (p0, p1, p2, p3, p4) = arg;
            let v = (self.f)(p0, p1, p2, p3, p4);
            let ghost v_seen = v;
            let c: TestResult = v.into();
            let failed = c.is_failure();
            let ghost prev = fails;
            proof {
                fails = fails.push(failed);
                assert(call_ensures(self.property(), (arg_seen.0, arg_seen.1, arg_seen.2, arg_seen.3, arg_seen.4,), v_seen));
                assert(call_ensures(TestResult::from, (v_seen,), c));
                assert(self.verdict_on(cands[k as int], failed));
                let next = cands.take(k + 1);
                assert forall|i: int| 0 <= i < next.len() implies #[trigger] self.verdict_on(
                    next[i],
                    fails[i],
                ) by {
                    if i < k {
                        assert(next[i] == cands.take(k as int)[i]);
                        assert(fails[i] == prev[i]);
                    }
                }
                assert(next.drop_last() =~= cands.take(k as int));
                assert(fails.drop_last() =~= prev);
            }
            if failed {
                found = Some(smaller);
            }
            k = k + 1;
        }
        assert(cands.take(k as int) =~= cands);
        found
    }

    /// Whether shrinking from `x` can end at `m`: a chain of shrinking
    /// passes leads from a value of `x`'s model to `m`, and a pass from `m`
    /// finds no failing candidate (unless `u64::MAX` passes ran).
    pub open spec fn minimized(&self, x: (A, B, C, D, E), m: (A, B, C, D, E)) -> bool {
        exists|chain: Seq<(A, B, C, D, E)>|
            #![trigger chain.last()]
            {
                &&& chain.len() >= 1
                &&& chain[0].model() == x.model()
                &&& chain.last() == m
                &&& forall|i: int|
                    0 <= i < chain.len() - 1 ==> #[trigger] self.shrinks_to(chain[i], chain[i + 1].model())
                &&& self.settled(m) || chain.len() > u64::MAX
            }
    }

    /// The failure reported for the failing input `x`: it is shrunk to a
    /// minimal value, whose `Debug` text is the message.
    fn report_failure(&self, x: (A, B, C, D, E), Ghost(like): Ghost<(A, B, C, D, E)>) -> (r: TestResult)
        requires
            self.runnable(),
            <(A, B, C, D, E) as Arbitrary>::obeys_arbitrary(),
            x.model() == like.model(),
        ensures
            exists|m: (A, B, C, D, E), s: String|
                #![trigger describes(&m, s)]
                self.minimized(like, m) && describes(&m, s) && r@ == Outcome::Fail(s@),
    {
        let ghost start = x;
        let minimal = self.minimize(x);
        let text = debug_text(&minimal);
        let ghost text_seen = text;
        proof {
            let chain = choose|chain: Seq<(A, B, C, D, E)>|
                #[trigger] chain.last() == minimal && chain.len() >= 1 && chain[0].model()
                    == start.model() && (forall|i: int|
                    0 <= i < chain.len() - 1 ==> #[trigger] self.shrinks_to(
                        chain[i],
                        chain[i + 1].model(),
                    )) && (self.settled(minimal) || chain.len() > u64::MAX);
            assert(self.minimized(like, minimal));
            assert(describes(&minimal, text_seen));
        }
        TestResult::Fail(text)
    }

    /// Shrinks a failing input to a minimal one: shrinking passes are
    /// repeated from the value each finds, until a pass finds no failing
    /// candidate (or, at the very most, `u64::MAX` passes have run).
    pub fn minimize(&self, x: (A, B, C, D, E)) -> (m: (A, B, C, D, E))
        requires
            self.runnable(),
            <(A, B, C, D, E) as Arbitrary>::obeys_arbitrary(),
        ensures
            self.minimized(x, m),
    {
        let ghost mut chain: Seq<(A, B, C, D, E)> = seq![x];
        let mut current = x;
        let mut rounds: u64 = 0;
        loop
            invariant
                self.runnable(),
                chain.len() == rounds + 1,
                chain[0].model() == x.model(),
                chain.last() == current,
                forall|i: int|
                    0 <= i < chain.len() - 1 ==> #[trigger] self.shrinks_to(chain[i], chain[i + 1].model()),
            decreases u64::MAX - rounds,
        {
            if rounds == u64::MAX {
                return current;
            }
            let next = self.shrink_pass(&current);
            match next {
                None => {
                    return current;
                },
                Some(y) => {
                    proof {
                        let prev = chain;
                        chain = chain.push(y);
                        assert forall|i: int| 0 <= i < chain.len() - 1 implies #[trigger] self.shrinks_to(
                            chain[i],
                            chain[i + 1].model(),
                        ) by {
                            if i < prev.len() - 1 {
                                assert(chain[i] == prev[i] && chain[i + 1] == prev[i + 1]);
                            }
                        }
                    }
                    current = y;
                    rounds = rounds + 1;
                },
            }
        }
    }
}

/// Runs the property on generated inputs; a verdict that is not a failure is
/// the result. On a failure the tuple of the
/// inputs is shrunk to a minimal one (see `minimize`), and the message is its
/// `Debug` text.
impl<A, B, C, D, E, R, F> Testable for TestableArgs5<A, B, C, D, E, R, F> where
    A: Arbitrary,
    B: Arbitrary,
    C: Arbitrary,
    D: Arbitrary,
    E: Arbitrary,
    R: 'static,
    TestResult: From<R>,
    F: Fn(A, B, C, D, E) -> R + 'static,
 {
    open spec fn runnable(&self) -> bool {
        (forall|a: A, b: B, c: C, d: D, e: E| call_requires(self.property(), (a, b, c, d, e,))) && A::obeys_arbitrary() && B::obeys_arbitrary() && C::obeys_arbitrary() && D::obeys_arbitrary() && E::obeys_arbitrary()
    }

    /// The inputs are generated one after the other, within the generator's
    /// size, by the draws that lead from `before` to `after`; the property
    /// runs on values of their models, and its converted verdict is the
    /// outcome unless it is a failure, which gives a failure.
    open spec fn gives(&self, before: Gen, outcome: Outcome, after: Gen) -> bool {
        &&& after.spec_size() == before.spec_size()
        &&& extends(after.samples(), before.samples())
        &&& exists|s1: Seq<Sample>, s2: Seq<Sample>, s3: Seq<Sample>, s4: Seq<Sample>, a: A, b: B, c: C, d: D, e: E, a_arg: A, b_arg: B, c_arg: C, d_arg: D, e_arg: E, verdict: R, converted: TestResult|
            #![trigger A::generated(before.spec_size() as nat, before.samples(), a.model(), s1), B::generated(before.spec_size() as nat, s1, b.model(), s2), C::generated(before.spec_size() as nat, s2, c.model(), s3), D::generated(before.spec_size() as nat, s3, d.model(), s4), E::generated(before.spec_size() as nat, s4, e.model(), after.samples()), call_ensures(self.property(), (a_arg, b_arg, c_arg, d_arg, e_arg,), verdict), call_ensures(TestResult::from, (verdict,), converted)]
            {
            &&& A::within_size(a.model(), before.spec_size() as nat)
            &&& A::generated(before.spec_size() as nat, before.samples(), a.model(), s1)
            &&& a_arg.model() == a.model()
            &&& B::within_size(b.model(), before.spec_size() as nat)
            &&& B::generated(before.spec_size() as nat, s1, b.model(), s2)
            &&& b_arg.model() == b.model()
            &&& C::within_size(c.model(), before.spec_size() as nat)
            &&& C::generated(before.spec_size() as nat, s2, c.model(), s3)
            &&& c_arg.model() == c.model()
            &&& D::within_size(d.model(), before.spec_size() as nat)
            &&& D::generated(before.spec_size() as nat, s3, d.model(), s4)
            &&& d_arg.model() == d.model()
            &&& E::within_size(e.model(), before.spec_size() as nat)
            &&& E::generated(before.spec_size() as nat, s4, e.model(), after.samples())
            &&& e_arg.model() == e.model()
            &&& call_ensures(self.property(), (a_arg, b_arg, c_arg, d_arg, e_arg,), verdict)
            &&& call_ensures(TestResult::from, (verdict,), converted)
            &&& if converted is Fail {
                exists|m: (A, B, C, D, E), s: String|
                    #![trigger describes(&m, s)]
                    self.minimized((a, b, c, d, e), m) && describes(&m, s) && outcome == Outcome::Fail(s@)
            } else {
                outcome == converted@
            }
        }
    }

    #[verifier::spinoff_prover]
    #[verifier::rlimit(60)]
    fn result(&self, g: &mut Gen) -> (r: TestResult) {
        let a = A::arbitrary(g);
        let ghost s1 = g.samples();
        let b = B::arbitrary(g);
        let ghost s2 = g.samples();
        let c = C::arbitrary(g);
        let ghost s3 = g.samples();
        let d = D::arbitrary(g);
        let ghost s4 = g.samples();
        let e = E::arbitrary(g);
        let a_arg = a.duplicate();
        let ghost a_seen = a_arg;
        let b_arg = b.duplicate();
        let ghost b_seen = b_arg;
        let c_arg = c.duplicate();
        let ghost c_seen = c_arg;
        let d_arg = d.duplicate();
        let ghost d_seen = d_arg;
        let e_arg = e.duplicate();
        let ghost e_seen = e_arg;
        assert(call_requires(self.property(), (a_seen, b_seen, c_seen, d_seen, e_seen,)));
        let verdict = (self.f)(a_arg, b_arg, c_arg, d_arg, e_arg);
        let ghost verdict_seen = verdict;
        let result: TestResult = verdict.into();
        assert({
            &&& A::within_size(a.model(), old(g).spec_size() as nat)
            &&& A::generated(old(g).spec_size() as nat, old(g).samples(), a.model(), s1)
            &&& a_seen.model() == a.model()
            &&& B::within_size(b.model(), old(g).spec_size() as nat)
            &&& B::generated(old(g).spec_size() as nat, s1, b.model(), s2)
            &&& b_seen.model() == b.model()
            &&& C::within_size(c.model(), old(g).spec_size() as nat)
            &&& C::generated(old(g).spec_size() as nat, s2, c.model(), s3)
            &&& c_seen.model() == c.model()
            &&& D::within_size(d.model(), old(g).spec_size() as nat)
            &&& D::generated(old(g).spec_size() as nat, s3, d.model(), s4)
            &&& d_seen.model() == d.model()
            &&& E::within_size(e.model(), old(g).spec_size() as nat)
            &&& E::generated(old(g).spec_size() as nat, s4, e.model(), g.samples())
            &&& e_seen.model() == e.model()
            &&& call_ensures(self.property(), (a_seen, b_seen, c_seen, d_seen, e_seen,), verdict_seen)
            &&& call_ensures(TestResult::from, (verdict_seen,), result)
        });
        if result.is_failure() {
            let r = self.report_failure((a.duplicate(), b.duplicate(), c.duplicate(), d.duplicate(), e.duplicate()), Ghost((a, b, c, d, e)));
            assert(result@ is Fail && r@ is Fail);
            assert(self.gives(*old(g), r@, *g));
            return r;
        }
        assert(self.gives(*old(g), result@, *g));
        result
    }
}

/// What `runnable` means for this wrapper, stated where the property's
/// type is generic, so that callers whose property has a concrete function
/// or closure type (whose `Fn` impl Verus does not resolve) can use it.
pub proof fn lemma_testable_args5_runnable<A, B, C, D, E, R, F>(t: &TestableArgs5<A, B, C, D, E, R, F>) where
    A: Arbitrary,
    B: Arbitrary,
    C: Arbitrary,
    D: Arbitrary,
    E: Arbitrary,
    R: 'static,
    TestResult: From<R>,
    F: Fn(A, B, C, D, E) -> R + 'static,

    ensures
        t.runnable() == ((forall|a: A, b: B, c: C, d: D, e: E| call_requires(t.property(), (a, b, c, d, e,))) && A::obeys_arbitrary() && B::obeys_arbitrary() && C::obeys_arbitrary() && D::obeys_arbitrary() && E::obeys_arbitrary()),
{
}

/// Create a testable from a 5-argument function.
pub fn testable_args5<A, B, C, D, E, R, F>(f: F) -> (t: TestableArgs5<A, B, C, D, E, R, F>) where
    A: Arbitrary,
    B: Arbitrary,
    C: Arbitrary,
    D: Arbitrary,
    E: Arbitrary,
    R: 'static,
    TestResult: From<R>,
    F: Fn(A, B, C, D, E) -> R + 'static,

    ensures
        t.property() == f,
{
    TestableArgs5 { f, _marker: std::marker::PhantomData }
}


/// Wrapper for 6-argument property functions.
#[verifier::reject_recursive_types(A)]
#[verifier::reject_recursive_types(B)]
#[verifier::reject_recursive_types(C)]
#[verifier::reject_recursive_types(D)]
#[verifier::reject_recursive_types(E)]
#[verifier::reject_recursive_types(F2)]
#[verifier::reject_recursive_types(R)]
pub struct TestableArgs6<A, B, C, D, E, F2, R, F: Fn(A, B, C, D, E, F2) -> R> {
    f: F,
    _marker: std::marker::PhantomData<(A, B, C, D, E, F2, R)>,
}

impl<A, B, C, D, E, F2, R, F: Fn(A, B, C, D, E, F2) -> R> TestableArgs6<A, B, C, D, E, F2, R, F> {
    /// The wrapped property function.
    pub closed spec fn property(&self) -> F {
        self.f
    }
}

impl<A, B, C, D, E, F2, R, F> TestableArgs6<A, B, C, D, E, F2, R, F> where
    A: Arbitrary,
    B: Arbitrary,
    C: Arbitrary,
    D: Arbitrary,
    E: Arbitrary,
    F2: Arbitrary,
    R: 'static,
    TestResult: From<R>,
    F: Fn(A, B, C, D, E, F2) -> R + 'static,
 {
    /// Whether a run of the property on a value of model `m` gave a verdict
    /// that converts to a failure exactly when `failed` holds.
    pub open spec fn verdict_on(&self, m: (A::Model, B::Model, C::Model, D::Model, E::Model, F2::Model), failed: bool) -> bool {
        exists|arg: (A, B, C, D, E, F2), v: R, c: TestResult|
            #![trigger call_ensures(self.property(), (arg.0, arg.1, arg.2, arg.3, arg.4, arg.5,), v), call_ensures(TestResult::from, (v,), c)]
            arg.model() == m && call_ensures(self.property(), (arg.0, arg.1, arg.2, arg.3, arg.4, arg.5,), v) && call_ensures(
                TestResult::from,
                (v,),
                c,
            ) && failed == (c is Fail)
    }

    /// Whether `fails` holds, in order, the verdicts of runs of the property
    /// on the `candidates`.
    pub open spec fn judged(&self, candidates: Seq<(A::Model, B::Model, C::Model, D::Model, E::Model, F2::Model)>, fails: Seq<bool>) -> bool {
        &&& fails.len() == candidates.len()
        &&& forall|i: int| 0 <= i < candidates.len() ==> #[trigger] self.verdict_on(candidates[i], fails[i])
    }

    /// Whether one shrinking pass from `x` can end at a value of model `m`:
    /// the last of `x`'s shrink candidates on which the property failed.
    pub open spec fn shrinks_to(&self, x: (A, B, C, D, E, F2), m: (A::Model, B::Model, C::Model, D::Model, E::Model, F2::Model)) -> bool {
        exists|fails: Seq<bool>|
            self.judged(x.shrink_models(), fails) && last_failure(x.shrink_models(), fails) == Some(m)
    }

    /// Whether a shrinking pass from `x` can find no failing candidate.
    pub open spec fn settled(&self, x: (A, B, C, D, E, F2)) -> bool {
        exists|fails: Seq<bool>|
            self.judged(x.shrink_models(), fails) && last_failure(x.shrink_models(), fails) is None
    }

    /// One shrinking pass: runs the property on each shrink candidate of `x`
    /// in order and returns the last one on which it fails, or `None` when
    /// it fails on none.
    pub fn shrink_pass(&self, x: &(A, B, C, D, E, F2)) -> (r: Option<(A, B, C, D, E, F2)>)
        requires
            self.runnable(),
            <(A, B, C, D, E, F2) as Arbitrary>::obeys_arbitrary(),
        ensures
            exists|fails: Seq<bool>|
                {
                    &&& #[trigger] self.judged(x.shrink_models(), fails)
                    &&& match r {
                        Some(y) => last_failure(x.shrink_models(), fails) == Some(y.model()),
                        None => last_failure(x.shrink_models(), fails) is None,
                    }
                },
    {
        let ghost cands = x.shrink_models();
        let candidates = x.shrink();
        let mut found: Option<(A, B, C, D, E, F2)> = None;
        let ghost mut fails: Seq<bool> = seq![];
        let mut k: usize = 0;
        while k < candidates.len()
            invariant
                self.runnable(),
                cands == x.shrink_models(),
                candidates@.len() == cands.len(),
                forall|i: int| 0 <= i < candidates@.len() ==> #[trigger] candidates@[i].model() == cands[i],
                k <= candidates@.len(),
                self.judged(cands.take(k as int), fails),
                match found {
                    Some(y) => last_failure(cands.take(k as int), fails) == Some(y.model()),
                    None => last_failure(cands.take(k as int), fails) is None,
                },
            decreases candidates@.len() - k,
        {
            let smaller = candidates[k].duplicate();
            let arg = smaller.duplicate();
            let ghost arg_seen = arg;
            assert(call_requires(self.property(), (arg_seen.0, arg_seen.1, arg_seen.2, arg_seen.3, arg_seen.4, arg_seen.5,)));
            let (p0, p1, p2, p3, p4, p5) = arg;
            let v = (self.f)(p0, p1, p2, p3, p4, p5);
            let ghost v_seen = v;
            let c: TestResult = v.into();
            let failed = c.is_failure();
            let ghost prev = fails;
            proof {
                fails = fails.push(failed);
                assert(call_ensures(self.property(), (arg_seen.0, arg_seen.1, arg_seen.2, arg_seen.3, arg_seen.4, arg_seen.5,), v_seen));
                assert(call_ensures(TestResult::from, (v_seen,), c));
                assert(self.verdict_on(cands[k as int], failed));
                let next = cands.take(k + 1);
                assert forall|i: int| 0 <= i < next.len() implies #[trigger] self.verdict_on(
                    next[i],
                    fails[i],
                ) by {
                    if i < k {
                        assert(next[i] == cands.take(k as int)[i]);
                        assert(fails[i] == prev[i]);
                    }
                }
                assert(next.drop_last() =~= cands.take(k as int));
                assert(fails.drop_last() =~= prev);
            }
            if failed {
                found = Some(smaller);
            }
            k = k + 1;
        }
        assert(cands.take(k as int) =~= cands);
        found
    }

    /// Whether shrinking from `x` can end at `m`: a chain of shrinking
    /// passes leads from a value of `x`'s model to `m`, and a pass from `m`
    /// finds no failing candidate (unless `u64::MAX` passes ran).
    pub open spec fn minimized(&self, x: (A, B, C, D, E, F2), m: (A, B, C, D, E, F2)) -> bool {
        exists|chain: Seq<(A, B, C, D, E, F2)>|
            #![trigger chain.last()]
            {
                &&& chain.len() >= 1
                &&& chain[0].model() == x.model()
                &&& chain.last() == m
                &&& forall|i: int|
                    0 <= i < chain.len() - 1 ==> #[trigger] self.shrinks_to(chain[i], chain[i + 1].model())
                &&& self.settled(m) || chain.len() > u64::MAX
            }
    }

    /// The failure reported for the failing input `x`: it is shrunk to a
    /// minimal value, whose `Debug` text is the message.
    fn report_failure(&self, x: (A, B, C, D, E, F2), Ghost(like): Ghost<(A, B, C, D, E, F2)>) -> (r: TestResult)
        requires
            self.runnable(),
            <(A, B, C, D, E, F2) as Arbitrary>::obeys_arbitrary(),
            x.model() == like.model(),
        ensures
            exists|m: (A, B, C, D, E, F2), s: String|
                #![trigger describes(&m, s)]
                self.minimized(like, m) && describes(&m, s) && r@ == Outcome::Fail(s@),
    {
        let ghost start = x;
        let minimal = self.minimize(x);
        let text = debug_text(&minimal);
        let ghost text_seen = text;
        proof {
            let chain = choose|chain: Seq<(A, B, C, D, E, F2)>|
                #[trigger] chain.last() == minimal && chain.len() >= 1 && chain[0].model()
                    == start.model() && (forall|i: int|
                    0 <= i < chain.len() - 1 ==> #[trigger] self.shrinks_to(
                        chain[i],
                        chain[i + 1].model(),
                    )) && (self.settled(minimal) || chain.len() > u64::MAX);
            assert(self.minimized(like, minimal));
            assert(describes(&minimal, text_seen));
        }
        TestResult::Fail(text)
    }

    /// Shrinks a failing input to a minimal one: shrinking passes are
    /// repeated from the value each finds, until a pass finds no failing
    /// candidate (or, at the very most, `u64::MAX` passes have run).
    pub fn minimize(&self, x: (A, B, C, D, E, F2)) -> (m: (A, B, C, D, E, F2))
        requires
            self.runnable(),
            <(A, B, C, D, E, F2) as Arbitrary>::obeys_arbitrary(),
        ensures
            self.minimized(x, m),
    {
        let ghost mut chain: Seq<(A, B, C, D, E, F2)> = seq![x];
        let mut current = x;
        let mut rounds: u64 = 0;
        loop
            invariant
                self.runnable(),
                chain.len() == rounds + 1,
                chain[0].model() == x.model(),
                chain.last() == current,
                forall|i: int|
                    0 <= i < chain.len() - 1 ==> #[trigger] self.shrinks_to(chain[i], chain[i + 1].model()),
            decreases u64::MAX - rounds,
        {
            if rounds == u64::MAX {
                return current;
            }
            let next = self.shrink_pass(&current);
            match next {
                None => {
                    return current;
                },
                Some(y) => {
                    proof {
                        let prev = chain;
                        chain = chain.push(y);
                        assert forall|i: int| 0 <= i < chain.len() - 1 implies #[trigger] self.shrinks_to(
                            chain[i],
                            chain[i + 1].model(),
                        ) by {
                            if i < prev.len() - 1 {
                                assert(chain[i] == prev[i] && chain[i + 1] == prev[i + 1]);
                            }
                        }
                    }
                    current = y;
                    rounds = rounds + 1;
                },
            }
        }
    }
}

/// Runs the property on generated inputs; a verdict that is not a failure is
/// the result. On a failure the tuple of the
/// inputs is shrunk to a minimal one (see `minimize`), and the message is its
/// `Debug` text.
impl<A, B, C, D, E, F2, R, F> Testable for TestableArgs6<A, B, C, D, E, F2, R, F> where
    A: Arbitrary,
    B: Arbitrary,
    C: Arbitrary,
    D: Arbitrary,
    E: Arbitrary,
    F2: Arbitrary,
    R: 'static,
    TestResult: From<R>,
    F: Fn(A, B, C, D, E, F2) -> R + 'static,
 {
    open spec fn runnable(&self) -> bool {
        (forall|a: A, b: B, c: C, d: D, e: E, f2: F2| call_requires(self.property(), (a, b, c, d, e, f2,))) && A::obeys_arbitrary() && B::obeys_arbitrary() && C::obeys_arbitrary() && D::obeys_arbitrary() && E::obeys_arbitrary() && F2::obeys_arbitrary()
    }

    /// The inputs are generated one after the other, within the generator's
    /// size, by the draws that lead from `before` to `after`; the property
    /// runs on values of their models, and its converted verdict is the
    /// outcome unless it is a failure, which gives a failure.
    open spec fn gives(&self, before: Gen, outcome: Outcome, after: Gen) -> bool {
        &&& after.spec_size() == before.spec_size()
        &&& extends(after.samples(), before.samples())
        &&& exists|s1: Seq<Sample>, s2: Seq<Sample>, s3: Seq<Sample>, s4: Seq<Sample>, s5: Seq<Sample>, a: A, b: B, c: C, d: D, e: E, f2: F2, a_arg: A, b_arg: B, c_arg: C, d_arg: D, e_arg: E, f2_arg: F2, verdict: R, converted: TestResult|
            #![trigger A::generated(before.spec_size() as nat, before.samples(), a.model(), s1), B::generated(before.spec_size() as nat, s1, b.model(), s2), C::generated(before.spec_size() as nat, s2, c.model(), s3), D::generated(before.spec_size() as nat, s3, d.model(), s4), E::generated(before.spec_size() as nat, s4, e.model(), s5), F2::generated(before.spec_size() as nat, s5, f2.model(), after.samples()), call_ensures(self.property(), (a_arg, b_arg, c_arg, d_arg, e_arg, f2_arg,), verdict), call_ensures(TestResult::from, (verdict,), converted)]
            {
            &&& A::within_size(a.model(), before.spec_size() as nat)
            &&& A::generated(before.spec_size() as nat, before.samples(), a.model(), s1)
            &&& a_arg.model() == a.model()
            &&& B::within_size(b.model(), before.spec_size() as nat)
            &&& B::generated(before.spec_size() as nat, s1, b.model(), s2)
            &&& b_arg.model() == b.model()
            &&& C::within_size(c.model(), before.spec_size() as nat)
            &&& C::generated(before.spec_size() as nat, s2, c.model(), s3)
            &&& c_arg.model() == c.model()
            &&& D::within_size(d.model(), before.spec_size() as nat)
            &&& D::generated(before.spec_size() as nat, s3, d.model(), s4)
            &&& d_arg.model() == d.model()
            &&& E::within_size(e.model(), before.spec_size() as nat)
            &&& E::generated(before.spec_size() as nat, s4, e.model(), s5)
            &&& e_arg.model() == e.model()
            &&& F2::within_size(f2.model(), before.spec_size() as nat)
            &&& F2::generated(before.spec_size() as nat, s5, f2.model(), after.samples())
            &&& f2_arg.model() == f2.model()
            &&& call_ensures(self.property(), (a_arg, b_arg, c_arg, d_arg, e_arg, f2_arg,), verdict)
            &&& call_ensures(TestResult::from, (verdict,), converted)
            &&& if converted is Fail {
                exists|m: (A, B, C, D, E, F2), s: String|
                    #![trigger describes(&m, s)]
                    self.minimized((a, b, c, d, e, f2), m) && describes(&m, s) && outcome == Outcome::Fail(s@)
            } else {
                outcome == converted@
            }
        }
    }

    #[verifier::spinoff_prover]
    #[verifier::rlimit(60)]
    fn result(&self, g: &mut Gen) -> (r: TestResult) {
        let a = A::arbitrary(g);
        let ghost s1 = g.samples();
        let b = B::arbitrary(g);
        let ghost s2 = g.samples();
        let c = C::arbitrary(g);
        let ghost s3 = g.samples();
        let d = D::arbitrary(g);
        let ghost s4 = g.samples();
        let e = E::arbitrary(g);
        let ghost s5 = g.samples();
        let f2 = F2::arbitrary(g);
        let a_arg = a.duplicate();
        let ghost a_seen = a_arg;
        let b_arg = b.duplicate();
        let ghost b_seen = b_arg;
        let c_arg = c.duplicate();
        let ghost c_seen = c_arg;
        let d_arg = d.duplicate();
        let ghost d_seen = d_arg;
        let e_arg = e.duplicate();
        let ghost e_seen = e_arg;
        let f2_arg = f2.duplicate();
        let ghost f2_seen = f2_arg;
        assert(call_requires(self.property(), (a_seen, b_seen, c_seen, d_seen, e_seen, f2_seen,)));
        let verdict = (self.f)(a_arg, b_arg, c_arg, d_arg, e_arg, f2_arg);
        let ghost verdict_seen = verdict;
        let result: TestResult = verdict.into();
        assert({
            &&& A::within_size(a.model(), old(g).spec_size() as nat)
            &&& A::generated(old(g).spec_size() as nat, old(g).samples(), a.model(), s1)
            &&& a_seen.model() == a.model()
            &&& B::within_size(b.model(), old(g).spec_size() as nat)
            &&& B::generated(old(g).spec_size() as nat, s1, b.model(), s2)
            &&& b_seen.model() == b.model()
            &&& C::within_size(c.model(), old(g).spec_size() as nat)
            &&& C::generated(old(g).spec_size() as nat, s2, c.model(), s3)
            &&& c_seen.model() == c.model()
            &&& D::within_size(d.model(), old(g).spec_size() as nat)
            &&& D::generated(old(g).spec_size() as nat, s3, d.model(), s4)
            &&& d_seen.model() == d.model()
            &&& E::within_size(e.model(), old(g).spec_size() as nat)
            &&& E::generated(old(g).spec_size() as nat, s4, e.model(), s5)
            &&& e_seen.model() == e.model()
            &&& F2::within_size(f2.model(), old(g).spec_size() as nat)
            &&& F2::generated(old(g).spec_size() as nat, s5, f2.model(), g.samples())
            &&& f2_seen.model() == f2.model()
            &&& call_ensures(self.property(), (a_seen, b_seen, c_seen, d_seen, e_seen, f2_seen,), verdict_seen)
            &&& call_ensures(TestResult::from, (verdict_seen,), result)
        });
        if result.is_failure() {
            let r = self.report_failure((a.duplicate(), b.duplicate(), c.duplicate(), d.duplicate(), e.duplicate(), f2.duplicate()), Ghost((a, b, c, d, e, f2)));
            assert(result@ is Fail && r@ is Fail);
            assert(self.gives(*old(g), r@, *g));
            return r;
        }
        assert(self.gives(*old(g), result@, *g));
        result
    }
}

/// What `runnable` means for this wrapper, stated where the property's
/// type is generic, so that callers whose property has a concrete function
/// or closure type (whose `Fn` impl Verus does not resolve) can use it.
pub proof fn lemma_testable_args6_runnable<A, B, C, D, E, F2, R, F>(t: &TestableArgs6<A, B, C, D, E, F2, R, F>) where
    A: Arbitrary,
    B: Arbitrary,
    C: Arbitrary,
    D: Arbitrary,
    E: Arbitrary,
    F2: Arbitrary,
    R: 'static,
    TestResult: From<R>,
    F: Fn(A, B, C, D, E, F2) -> R + 'static,

    ensures
        t.runnable() == ((forall|a: A, b: B, c: C, d: D, e: E, f2: F2| call_requires(t.property(), (a, b, c, d, e, f2,))) && A::obeys_arbitrary() && B::obeys_arbitrary() && C::obeys_arbitrary() && D::obeys_arbitrary() && E::obeys_arbitrary() && F2::obeys_arbitrary()),
{
}

/// Create a testable from a 6-argument function.
pub fn testable_args6<A, B, C, D, E, F2, R, F>(f: F) -> (t: TestableArgs6<A, B, C, D, E, F2, R, F>) where
    A: Arbitrary,
    B: Arbitrary,
    C: Arbitrary,
    D: Arbitrary,
    E: Arbitrary,
    F2: Arbitrary,
    R: 'static,
    TestResult: From<R>,
    F: Fn(A, B, C, D, E, F2) -> R + 'static,

    ensures
        t.property() == f,
{
    TestableArgs6 { f, _marker: std::marker::PhantomData }
}


/// Wrapper for 7-argument property functions.
#[verifier::reject_recursive_types(A)]
#[verifier::reject_recursive_types(B)]
#[verifier::reject_recursive_types(C)]
#[verifier::reject_recursive_types(D)]
#[verifier::reject_recursive_types(E)]
#[verifier::reject_recursive_types(F2)]
#[verifier::reject_recursive_types(G)]
#[verifier::reject_recursive_types(R)]
pub struct TestableArgs7<A, B, C, D, E, F2, G, R, F: Fn(A, B, C, D, E, F2, G) -> R> {
    f: F,
    _marker: std::marker::PhantomData<(A, B, C, D, E, F2, G, R)>,
}

impl<A, B, C, D, E, F2, G, R, F: Fn(A, B, C, D, E, F2, G) -> R> TestableArgs7<A, B, C, D, E, F2, G, R, F> {
    /// The wrapped property function.
    pub closed spec fn property(&self) -> F {
        self.f
    }
}

impl<A, B, C, D, E, F2, G, R, F> TestableArgs7<A, B, C, D, E, F2, G, R, F> where
    A: Arbitrary,
    B: Arbitrary,
    C: Arbitrary,
    D: Arbitrary,
    E: Arbitrary,
    F2: Arbitrary,
    G: Arbitrary,
    R: 'static,
    TestResult: From<R>,
    F: Fn(A, B, C, D, E, F2, G) -> R + 'static,
 {
    /// Whether a run of the property on a value of model `m` gave a verdict
    /// that converts to a failure exactly when `failed` holds.
    pub open spec fn verdict_on(&self, m: (A::Model, B::Model, C::Model, D::Model, E::Model, F2::Model, G::Model), failed: bool) -> bool {
        exists|arg: (A, B, C, D, E, F2, G), v: R, c: TestResult|
            #![trigger call_ensures(self.property(), (arg.0, arg.1, arg.2, arg.3, arg.4, arg.5, arg.6,), v), call_ensures(TestResult::from, (v,), c)]
            arg.model() == m && call_ensures(self.property(), (arg.0, arg.1, arg.2, arg.3, arg.4, arg.5, arg.6,), v) && call_ensures(
                TestResult::from,
                (v,),
                c,
            ) && failed == (c is Fail)
    }

    /// Whether `fails` holds, in order, the verdicts of runs of the property
    /// on the `candidates`.
    pub open spec fn judged(&self, candidates: Seq<(A::Model, B::Model, C::Model, D::Model, E::Model, F2::Model, G::Model)>, fails: Seq<bool>) -> bool {
        &&& fails.len() == candidates.len()
        &&& forall|i: int| 0 <= i < candidates.len() ==> #[trigger] self.verdict_on(candidates[i], fails[i])
    }

    /// Whether one shrinking pass from `x` can end at a value of model `m`:
    /// the last of `x`'s shrink candidates on which the property failed.
    pub open spec fn shrinks_to(&self, x: (A, B, C, D, E, F2, G), m: (A::Model, B::Model, C::Model, D::Model, E::Model, F2::Model, G::Model)) -> bool {
        exists|fails: Seq<bool>|
            self.judged(x.shrink_models(), fails) && last_failure(x.shrink_models(), fails) == Some(m)
    }

    /// Whether a shrinking pass from `x` can find no failing candidate.
    pub open spec fn settled(&self, x: (A, B, C, D, E, F2, G)) -> bool {
        exists|fails: Seq<bool>|
            self.judged(x.shrink_models(), fails) && last_failure(x.shrink_models(), fails) is None
    }

    /// One shrinking pass: runs the property on each shrink candidate of `x`
    /// in order and returns the last one on which it fails, or `None` when
    /// it fails on none.
    pub fn shrink_pass(&self, x: &(A, B, C, D, E, F2, G)) -> (r: Option<(A, B, C, D, E, F2, G)>)
        requires
            self.runnable(),
            <(A, B, C, D, E, F2, G) as Arbitrary>::obeys_arbitrary(),
        ensures
            exists|fails: Seq<bool>|
                {
                    &&& #[trigger] self.judged(x.shrink_models(), fails)
                    &&& match r {
                        Some(y) => last_failure(x.shrink_models(), fails) == Some(y.model()),
                        None => last_failure(x.shrink_models(), fails) is None,
                    }
                },
    {
        let ghost cands = x.shrink_models();
        let candidates = x.shrink();
        let mut found: Option<(A, B, C, D, E, F2, G)> = None;
        let ghost mut fails: Seq<bool> = seq![];
        let mut k: usize = 0;
        while k < candidates.len()
            invariant
                self.runnable(),
                cands == x.shrink_models(),
                candidates@.len() == cands.len(),
                forall|i: int| 0 <= i < candidates@.len() ==> #[trigger] candidates@[i].model() == cands[i],
                k <= candidates@.len(),
                self.judged(cands.take(k as int), fails),
                match found {
                    Some(y) => last_failure(cands.take(k as int), fails) == Some(y.model()),
                    None => last_failure(cands.take(k as int), fails) is None,
                },
            decreases candidates@.len() - k,
        {
            let smaller = candidates[k].duplicate();
            let arg = smaller.duplicate();
            let ghost arg_seen = arg;
            assert(call_requires(self.property(), (arg_seen.0, arg_seen.1, arg_seen.2, arg_seen.3, arg_seen.4, arg_seen.5, arg_seen.6,)));
            let (p0, p1, p2, p3, p4, p5, p6) = arg;
            let v = (self.f)(p0, p1, p2, p3, p4, p5, p6);
            let ghost v_seen = v;
            let c: TestResult = v.into();
            let failed = c.is_failure();
            let ghost prev = fails;
            proof {
                fails = fails.push(failed);
                assert(call_ensures(self.property(), (arg_seen.0, arg_seen.1, arg_seen.2, arg_seen.3, arg_seen.4, arg_seen.5, arg_seen.6,), v_seen));
                assert(call_ensures(TestResult::from, (v_seen,), c));
                assert(self.verdict_on(cands[k as int], failed));
                let next = cands.take(k + 1);
                assert forall|i: int| 0 <= i < next.len() implies #[trigger] self.verdict_on(
                    next[i],
                    fails[i],
                ) by {
                    if i < k {
                        assert(next[i] == cands.take(k as int)[i]);
                        assert(fails[i] == prev[i]);
                    }
                }
                assert(next.drop_last() =~= cands.take(k as int));
                assert(fails.drop_last() =~= prev);
            }
            if failed {
                found = Some(smaller);
            }
            k = k + 1;
        }
        assert(cands.take(k as int) =~= cands);
        found
    }

    /// Whether shrinking from `x` can end at `m`: a chain of shrinking
    /// passes leads from a value of `x`'s model to `m`, and a pass from `m`
    /// finds no failing candidate (unless `u64::MAX` passes ran).
    pub open spec fn minimized(&self, x: (A, B, C, D, E, F2, G), m: (A, B, C, D, E, F2, G)) -> bool {
        exists|chain: Seq<(A, B, C, D, E, F2, G)>|
            #![trigger chain.last()]
            {
                &&& chain.len() >= 1
                &&& chain[0].model() == x.model()
                &&& chain.last() == m
                &&& forall|i: int|
                    0 <= i < chain.len() - 1 ==> #[trigger] self.shrinks_to(chain[i], chain[i + 1].model())
                &&& self.settled(m) || chain.len() > u64::MAX
            }
    }

    /// The failure reported for the failing input `x`: it is shrunk to a
    /// minimal value, whose `Debug` text is the message.
    fn report_failure(&self, x: (A, B, C, D, E, F2, G), Ghost(like): Ghost<(A, B, C, D, E, F2, G)>) -> (r: TestResult)
        requires
            self.runnable(),
            <(A, B, C, D, E, F2, G) as Arbitrary>::obeys_arbitrary(),
            x.model() == like.model(),
        ensures
            exists|m: (A, B, C, D, E, F2, G), s: String|
                #![trigger describes(&m, s)]
                self.minimized(like, m) && describes(&m, s) && r@ == Outcome::Fail(s@),
    {
        let ghost start = x;
        let minimal = self.minimize(x);
        let text = debug_text(&minimal);
        let ghost text_seen = text;
        proof {
            let chain = choose|chain: Seq<(A, B, C, D, E, F2, G)>|
                #[trigger] chain.last() == minimal && chain.len() >= 1 && chain[0].model()
                    == start.model() && (forall|i: int|
                    0 <= i < chain.len() - 1 ==> #[trigger] self.shrinks_to(
                        chain[i],
                        chain[i + 1].model(),
                    )) && (self.settled(minimal) || chain.len() > u64::MAX);
            assert(self.minimized(like, minimal));
            assert(describes(&minimal, text_seen));
        }
        TestResult::Fail(text)
    }

    /// Shrinks a failing input to a minimal one: shrinking passes are
    /// repeated from the value each finds, until a pass finds no failing
    /// candidate (or, at the very most, `u64::MAX` passes have run).
    pub fn minimize(&self, x: (A, B, C, D, E, F2, G)) -> (m: (A, B, C, D, E, F2, G))
        requires
            self.runnable(),
            <(A, B, C, D, E, F2, G) as Arbitrary>::obeys_arbitrary(),
        ensures
            self.minimized(x, m),
    {
        let ghost mut chain: Seq<(A, B, C, D, E, F2, G)> = seq![x];
        let mut current = x;
        let mut rounds: u64 = 0;
        loop
            invariant
                self.runnable(),
                chain.len() == rounds + 1,
                chain[0].model() == x.model(),
                chain.last() == current,
                forall|i: int|
                    0 <= i < chain.len() - 1 ==> #[trigger] self.shrinks_to(chain[i], chain[i + 1].model()),
            decreases u64::MAX - rounds,
        {
            if rounds == u64::MAX {
                return current;
            }
            let next = self.shrink_pass(&current);
            match next {
                None => {
                    return current;
                },
                Some(y) => {
                    proof {
                        let prev = chain;
                        chain = chain.push(y);
                        assert forall|i: int| 0 <= i < chain.len() - 1 implies #[trigger] self.shrinks_to(
                            chain[i],
                            chain[i + 1].model(),
                        ) by {
                            if i < prev.len() - 1 {
                                assert(chain[i] == prev[i] && chain[i + 1] == prev[i + 1]);
                            }
                        }
                    }
                    current = y;
                    rounds = rounds + 1;
                },
            }
        }
    }
}

/// Runs the property on generated inputs; a verdict that is not a failure is
/// the result. On a failure the tuple of the
/// inputs is shrunk to a minimal one (see `minimize`), and the message is its
/// `Debug` text.
impl<A, B, C, D, E, F2, G, R, F> Testable for TestableArgs7<A, B, C, D, E, F2, G, R, F> where
    A: Arbitrary,
    B: Arbitrary,
    C: Arbitrary,
    D: Arbitrary,
    E: Arbitrary,
    F2: Arbitrary,
    G: Arbitrary,
    R: 'static,
    TestResult: From<R>,
    F: Fn(A, B, C, D, E, F2, G) -> R + 'static,
 {
    open spec fn runnable(&self) -> bool {
        (forall|a: A, b: B, c: C, d: D, e: E, f2: F2, g2: G| call_requires(self.property(), (a, b, c, d, e, f2, g2,))) && A::obeys_arbitrary() && B::obeys_arbitrary() && C::obeys_arbitrary() && D::obeys_arbitrary() && E::obeys_arbitrary() && F2::obeys_arbitrary() && G::obeys_arbitrary()
    }

    /// The inputs are generated one after the other, within the generator's
    /// size, by the draws that lead from `before` to `after`; the property
    /// runs on values of their models, and its converted verdict is the
    /// outcome unless it is a failure, which gives a failure.
    open spec fn gives(&self, before: Gen, outcome: Outcome, after: Gen) -> bool {
        &&& after.spec_size() == before.spec_size()
        &&& extends(after.samples(), before.samples())
        &&& exists|s1: Seq<Sample>, s2: Seq<Sample>, s3: Seq<Sample>, s4: Seq<Sample>, s5: Seq<Sample>, s6: Seq<Sample>, a: A, b: B, c: C, d: D, e: E, f2: F2, g2: G, a_arg: A, b_arg: B, c_arg: C, d_arg: D, e_arg: E, f2_arg: F2, g2_arg: G, verdict: R, converted: TestResult|
            #![trigger A::generated(before.spec_size() as nat, before.samples(), a.model(), s1), B::generated(before.spec_size() as nat, s1, b.model(), s2), C::generated(before.spec_size() as nat, s2, c.model(), s3), D::generated(before.spec_size() as nat, s3, d.model(), s4), E::generated(before.spec_size() as nat, s4, e.model(), s5), F2::generated(before.spec_size() as nat, s5, f2.model(), s6), G::generated(before.spec_size() as nat, s6, g2.model(), after.samples()), call_ensures(self.property(), (a_arg, b_arg, c_arg, d_arg, e_arg, f2_arg, g2_arg,), verdict), call_ensures(TestResult::from, (verdict,), converted)]
            {
            &&& A::within_size(a.model(), before.spec_size() as nat)
            &&& A::generated(before.spec_size() as nat, before.samples(), a.model(), s1)
            &&& a_arg.model() == a.model()
            &&& B::within_size(b.model(), before.spec_size() as nat)
            &&& B::generated(before.spec_size() as nat, s1, b.model(), s2)
            &&& b_arg.model() == b.model()
            &&& C::within_size(c.model(), before.spec_size() as nat)
            &&& C::generated(before.spec_size() as nat, s2, c.model(), s3)
            &&& c_arg.model() == c.model()
            &&& D::within_size(d.model(), before.spec_size() as nat)
            &&& D::generated(before.spec_size() as nat, s3, d.model(), s4)
            &&& d_arg.model() == d.model()
            &&& E::within_size(e.model(), before.spec_size() as nat)
            &&& E::generated(before.spec_size() as nat, s4, e.model(), s5)
            &&& e_arg.model() == e.model()
            &&& F2::within_size(f2.model(), before.spec_size() as nat)
            &&& F2::generated(before.spec_size() as nat, s5, f2.model(), s6)
            &&& f2_arg.model() == f2.model()
            &&& G::within_size(g2.model(), before.spec_size() as nat)
            &&& G::generated(before.spec_size() as nat, s6, g2.model(), after.samples())
            &&& g2_arg.model() == g2.model()
            &&& call_ensures(self.property(), (a_arg, b_arg, c_arg, d_arg, e_arg, f2_arg, g2_arg,), verdict)
            &&& call_ensures(TestResult::from, (verdict,), converted)
            &&& if converted is Fail {
                exists|m: (A, B, C, D, E, F2, G), s: String|
                    #![trigger describes(&m, s)]
                    self.minimized((a, b, c, d, e, f2, g2), m) && describes(&m, s) && outcome == Outcome::Fail(s@)
            } else {
                outcome == converted@
            }
        }
    }

    #[verifier::spinoff_prover]
    #[verifier::rlimit(100)]
    fn result(&self, g: &mut Gen) -> (r: TestResult) {
        let a = A::arbitrary(g);
        let ghost s1 = g.samples();
        let b = B::arbitrary(g);
        let ghost s2 = g.samples();
        let c = C::arbitrary(g);
        let ghost s3 = g.samples();
        let d = D::arbitrary(g);
        let ghost s4 = g.samples();
        let e = E::arbitrary(g);
        let ghost s5 = g.samples();
        let f2 = F2::arbitrary(g);
        let ghost s6 = g.samples();
        let g2 = G::arbitrary(g);
        let a_arg = a.duplicate();
        let ghost a_seen = a_arg;
        let b_arg = b.duplicate();
        let ghost b_seen = b_arg;
        let c_arg = c.duplicate();
        let ghost c_seen = c_arg;
        let d_arg = d.duplicate();
        let ghost d_seen = d_arg;
        let e_arg = e.duplicate();
        let ghost e_seen = e_arg;
        let f2_arg = f2.duplicate();
        let ghost f2_seen = f2_arg;
        let g2_arg = g2.duplicate();
        let ghost g2_seen = g2_arg;
        assert(call_requires(self.property(), (a_seen, b_seen, c_seen, d_seen, e_seen, f2_seen, g2_seen,)));
        let verdict = (self.f)(a_arg, b_arg, c_arg, d_arg, e_arg, f2_arg, g2_arg);
        let ghost verdict_seen = verdict;
        let result: TestResult = verdict.into();
        assert({
            &&& A::within_size(a.model(), old(g).spec_size() as nat)
            &&& A::generated(old(g).spec_size() as nat, old(g).samples(), a.model(), s1)
            &&& a_seen.model() == a.model()
            &&& B::within_size(b.model(), old(g).spec_size() as nat)
            &&& B::generated(old(g).spec_size() as nat, s1, b.model(), s2)
            &&& b_seen.model() == b.model()
            &&& C::within_size(c.model(), old(g).spec_size() as nat)
            &&& C::generated(old(g).spec_size() as nat, s2, c.model(), s3)
            &&& c_seen.model() == c.model()
            &&& D::within_size(d.model(), old(g).spec_size() as nat)
            &&& D::generated(old(g).spec_size() as nat, s3, d.model(), s4)
            &&& d_seen.model() == d.model()
            &&& E::within_size(e.model(), old(g).spec_size() as nat)
            &&& E::generated(old(g).spec_size() as nat, s4, e.model(), s5)
            &&& e_seen.model() == e.model()
            &&& F2::within_size(f2.model(), old(g).spec_size() as nat)
            &&& F2::generated(old(g).spec_size() as nat, s5, f2.model(), s6)
            &&& f2_seen.model() == f2.model()
            &&& G::within_size(g2.model(), old(g).spec_size() as nat)
            &&& G::generated(old(g).spec_size() as nat, s6, g2.model(), g.samples())
            &&& g2_seen.model() == g2.model()
            &&& call_ensures(self.property(), (a_seen, b_seen, c_seen, d_seen, e_seen, f2_seen, g2_seen,), verdict_seen)
            &&& call_ensures(TestResult::from, (verdict_seen,), result)
        });
        if result.is_failure() {
            let r = self.report_failure((a.duplicate(), b.duplicate(), c.duplicate(), d.duplicate(), e.duplicate(), f2.duplicate(), g2.duplicate()), Ghost((a, b, c, d, e, f2, g2)));
            assert(result@ is Fail && r@ is Fail);
            assert(self.gives(*old(g), r@, *g));
            return r;
        }
        assert(self.gives(*old(g), result@, *g));
        result
    }
}

/// What `runnable` means for this wrapper, stated where the property's
/// type is generic, so that callers whose property has a concrete function
/// or closure type (whose `Fn` impl Verus does not resolve) can use it.
pub proof fn lemma_testable_args7_runnable<A, B, C, D, E, F2, G, R, F>(t: &TestableArgs7<A, B, C, D, E, F2, G, R, F>) where
    A: Arbitrary,
    B: Arbitrary,
    C: Arbitrary,
    D: Arbitrary,
    E: Arbitrary,
    F2: Arbitrary,
    G: Arbitrary,
    R: 'static,
    TestResult: From<R>,
    F: Fn(A, B, C, D, E, F2, G) -> R + 'static,

    ensures
        t.runnable() == ((forall|a: A, b: B, c: C, d: D, e: E, f2: F2, g2: G| call_requires(t.property(), (a, b, c, d, e, f2, g2,))) && A::obeys_arbitrary() && B::obeys_arbitrary() && C::obeys_arbitrary() && D::obeys_arbitrary() && E::obeys_arbitrary() && F2::obeys_arbitrary() && G::obeys_arbitrary()),
{
}

/// Create a testable from a 7-argument function.
pub fn testable_args7<A, B, C, D, E, F2, G, R, F>(f: F) -> (t: TestableArgs7<A, B, C, D, E, F2, G, R, F>) where
    A: Arbitrary,
    B: Arbitrary,
    C: Arbitrary,
    D: Arbitrary,
    E: Arbitrary,
    F2: Arbitrary,
    G: Arbitrary,
    R: 'static,
    TestResult: From<R>,
    F: Fn(A, B, C, D, E, F2, G) -> R + 'static,

    ensures
        t.property() == f,
{
    TestableArgs7 { f, _marker: std::marker::PhantomData }
}


/// Wrapper for 8-argument property functions.
#[verifier::reject_recursive_types(A)]
#[verifier::reject_recursive_types(B)]
#[verifier::reject_recursive_types(C)]
#[verifier::reject_recursive_types(D)]
#[verifier::reject_recursive_types(E)]
#[verifier::reject_recursive_types(F2)]
#[verifier::reject_recursive_types(G)]
#[verifier::reject_recursive_types(H)]
#[verifier::reject_recursive_types(R)]
pub struct TestableArgs8<A, B, C, D, E, F2, G, H, R, F: Fn(A, B, C, D, E, F2, G, H) -> R> {
    f: F,
    _marker: std::marker::PhantomData<(A, B, C, D, E, F2, G, H, R)>,
}

impl<A, B, C, D, E, F2, G, H, R, F: Fn(A, B, C, D, E, F2, G, H) -> R> TestableArgs8<A, B, C, D, E, F2, G, H, R, F> {
    /// The wrapped property function.
    pub closed spec fn property(&self) -> F {
        self.f
    }
}

impl<A, B, C, D, E, F2, G, H, R, F> TestableArgs8<A, B, C, D, E, F2, G, H, R, F> where
    A: Arbitrary,
    B: Arbitrary,
    C: Arbitrary,
    D: Arbitrary,
    E: Arbitrary,
    F2: Arbitrary,
    G: Arbitrary,
    H: Arbitrary,
    R: 'static,
    TestResult: From<R>,
    F: Fn(A, B, C, D, E, F2, G, H) -> R + 'static,
 {
    /// Whether a run of the property on a value of model `m` gave a verdict
    /// that converts to a failure exactly when `failed` holds.
    pub open spec fn verdict_on(&self, m: (A::Model, B::Model, C::Model, D::Model, E::Model, F2::Model, G::Model, H::Model), failed: bool) -> bool {
        exists|arg: (A, B, C, D, E, F2, G, H), v: R, c: TestResult|
            #![trigger call_ensures(self.property(), (arg.0, arg.1, arg.2, arg.3, arg.4, arg.5, arg.6, arg.7,), v), call_ensures(TestResult::from, (v,), c)]
            arg.model() == m && call_ensures(self.property(), (arg.0, arg.1, arg.2, arg.3, arg.4, arg.5, arg.6, arg.7,), v) && call_ensures(
                TestResult::from,
                (v,),
                c,
            ) && failed == (c is Fail)
    }

    /// Whether `fails` holds, in order, the verdicts of runs of the property
    /// on the `candidates`.
    pub open spec fn judged(&self, candidates: Seq<(A::Model, B::Model, C::Model, D::Model, E::Model, F2::Model, G::Model, H::Model)>, fails: Seq<bool>) -> bool {
        &&& fails.len() == candidates.len()
        &&& forall|i: int| 0 <= i < candidates.len() ==> #[trigger] self.verdict_on(candidates[i], fails[i])
    }

    /// Whether one shrinking pass from `x` can end at a value of model `m`:
    /// the last of `x`'s shrink candidates on which the property failed.
    pub open spec fn shrinks_to(&self, x: (A, B, C, D, E, F2, G, H), m: (A::Model, B::Model, C::Model, D::Model, E::Model, F2::Model, G::Model, H::Model)) -> bool {
        exists|fails: Seq<bool>|
            self.judged(x.shrink_models(), fails) && last_failure(x.shrink_models(), fails) == Some(m)
    }

    /// Whether a shrinking pass from `x` can find no failing candidate.
    pub open spec fn settled(&self, x: (A, B, C, D, E, F2, G, H)) -> bool {
        exists|fails: Seq<bool>|
            self.judged(x.shrink_models(), fails) && last_failure(x.shrink_models(), fails) is None
    }

    /// One shrinking pass: runs the property on each shrink candidate of `x`
    /// in order and returns the last one on which it fails, or `None` when
    /// it fails on none.
    pub fn shrink_pass(&self, x: &(A, B, C, D, E, F2, G, H)) -> (r: Option<(A, B, C, D, E, F2, G, H)>)
        requires
            self.runnable(),
            <(A, B, C, D, E, F2, G, H) as Arbitrary>::obeys_arbitrary(),
        ensures
            exists|fails: Seq<bool>|
                {
                    &&& #[trigger] self.judged(x.shrink_models(), fails)
                    &&& match r {
                        Some(y) => last_failure(x.shrink_models(), fails) == Some(y.model()),
                        None => last_failure(x.shrink_models(), fails) is None,
                    }
                },
    {
        let ghost cands = x.shrink_models();
        let candidates = x.shrink();
        let mut found: Option<(A, B, C, D, E, F2, G, H)> = None;
        let ghost mut fails: Seq<bool> = seq![];
        let mut k: usize = 0;
        while k < candidates.len()
            invariant
                self.runnable(),
                cands == x.shrink_models(),
                candidates@.len() == cands.len(),
                forall|i: int| 0 <= i < candidates@.len() ==> #[trigger] candidates@[i].model() == cands[i],
                k <= candidates@.len(),
                self.judged(cands.take(k as int), fails),
                match found {
                    Some(y) => last_failure(cands.take(k as int), fails) == Some(y.model()),
                    None => last_failure(cands.take(k as int), fails) is None,
                },
            decreases candidates@.len() - k,
        {
            let smaller = candidates[k].duplicate();
            let arg = smaller.duplicate();
            let ghost arg_seen = arg;
            assert(call_requires(self.property(), (arg_seen.0, arg_seen.1, arg_seen.2, arg_seen.3, arg_seen.4, arg_seen.5, arg_seen.6, arg_seen.7,)));
            let (p0, p1, p2, p3, p4, p5, p6, p7) = arg;
            let v = (self.f)(p0, p1, p2, p3, p4, p5, p6, p7);
            let ghost v_seen = v;
            let c: TestResult = v.into();
            let failed = c.is_failure();
            let ghost prev = fails;
            proof {
                fails = fails.push(failed);
                assert(call_ensures(self.property(), (arg_seen.0, arg_seen.1, arg_seen.2, arg_seen.3, arg_seen.4, arg_seen.5, arg_seen.6, arg_seen.7,), v_seen));
                assert(call_ensures(TestResult::from, (v_seen,), c));
                assert(self.verdict_on(cands[k as int], failed));
                let next = cands.take(k + 1);
                assert forall|i: int| 0 <= i < next.len() implies #[trigger] self.verdict_on(
                    next[i],
                    fails[i],
                ) by {
                    if i < k {
                        assert(next[i] == cands.take(k as int)[i]);
                        assert(fails[i] == prev[i]);
                    }
                }
                assert(next.drop_last() =~= cands.take(k as int));
                assert(fails.drop_last() =~= prev);
            }
            if failed {
                found = Some(smaller);
            }
            k = k + 1;
        }
        assert(cands.take(k as int) =~= cands);
        found
    }

    /// Whether shrinking from `x` can end at `m`: a chain of shrinking
    /// passes leads from a value of `x`'s model to `m`, and a pass from `m`
    /// finds no failing candidate (unless `u64::MAX` passes ran).
    pub open spec fn minimized(&self, x: (A, B, C, D, E, F2, G, H), m: (A, B, C, D, E, F2, G, H)) -> bool {
        exists|chain: Seq<(A, B, C, D, E, F2, G, H)>|
            #![trigger chain.last()]
            {
                &&& chain.len() >= 1
                &&& chain[0].model() == x.model()
                &&& chain.last() == m
                &&& forall|i: int|
                    0 <= i < chain.len() - 1 ==> #[trigger] self.shrinks_to(chain[i], chain[i + 1].model())
                &&& self.settled(m) || chain.len() > u64::MAX
            }
    }

    /// The failure reported for the failing input `x`: it is shrunk to a
    /// minimal value, whose `Debug` text is the message.
    fn report_failure(&self, x: (A, B, C, D, E, F2, G, H), Ghost(like): Ghost<(A, B, C, D, E, F2, G, H)>) -> (r: TestResult)
        requires
            self.runnable(),
            <(A, B, C, D, E, F2, G, H) as Arbitrary>::obeys_arbitrary(),
            x.model() == like.model(),
        ensures
            exists|m: (A, B, C, D, E, F2, G, H), s: String|
                #![trigger describes(&m, s)]
                self.minimized(like, m) && describes(&m, s) && r@ == Outcome::Fail(s@),
    {
        let ghost start = x;
        let minimal = self.minimize(x);
        let text = debug_text(&minimal);
        let ghost text_seen = text;
        proof {
            let chain = choose|chain: Seq<(A, B, C, D, E, F2, G, H)>|
                #[trigger] chain.last() == minimal && chain.len() >= 1 && chain[0].model()
                    == start.model() && (forall|i: int|
                    0 <= i < chain.len() - 1 ==> #[trigger] self.shrinks_to(
                        chain[i],
                        chain[i + 1].model(),
                    )) && (self.settled(minimal) || chain.len() > u64::MAX);
            assert(self.minimized(like, minimal));
            assert(describes(&minimal, text_seen));
        }
        TestResult::Fail(text)
    }

    /// Shrinks a failing input to a minimal one: shrinking passes are
    /// repeated from the value each finds, until a pass finds no failing
    /// candidate (or, at the very most, `u64::MAX` passes have run).
    pub fn minimize(&self, x: (A, B, C, D, E, F2, G, H)) -> (m: (A, B, C, D, E, F2, G, H))
        requires
            self.runnable(),
            <(A, B, C, D, E, F2, G, H) as Arbitrary>::obeys_arbitrary(),
        ensures
            self.minimized(x, m),
    {
        let ghost mut chain: Seq<(A, B, C, D, E, F2, G, H)> = seq![x];
        let mut current = x;
        let mut rounds: u64 = 0;
        loop
            invariant
                self.runnable(),
                chain.len() == rounds + 1,
                chain[0].model() == x.model(),
                chain.last() == current,
                forall|i: int|
                    0 <= i < chain.len() - 1 ==> #[trigger] self.shrinks_to(chain[i], chain[i + 1].model()),
            decreases u64::MAX - rounds,
        {
            if rounds == u64::MAX {
                return current;
            }
            let next = self.shrink_pass(&current);
            match next {
                None => {
                    return current;
                },
                Some(y) => {
                    proof {
                        let prev = chain;
                        chain = chain.push(y);
                        assert forall|i: int| 0 <= i < chain.len() - 1 implies #[trigger] self.shrinks_to(
                            chain[i],
                            chain[i + 1].model(),
                        ) by {
                            if i < prev.len() - 1 {
                                assert(chain[i] == prev[i] && chain[i + 1] == prev[i + 1]);
                            }
                        }
                    }
                    current = y;
                    rounds = rounds + 1;
                },
            }
        }
    }
}

/// Runs the property on generated inputs; a verdict that is not a failure is
/// the result. On a failure the tuple of the
/// inputs is shrunk to a minimal one (see `minimize`), and the message is its
/// `Debug` text.
impl<A, B, C, D, E, F2, G, H, R, F> Testable for TestableArgs8<A, B, C, D, E, F2, G, H, R, F> where
    A: Arbitrary,
    B: Arbitrary,
    C: Arbitrary,
    D: Arbitrary,
    E: Arbitrary,
    F2: Arbitrary,
    G: Arbitrary,
    H: Arbitrary,
    R: 'static,
    TestResult: From<R>,
    F: Fn(A, B, C, D, E, F2, G, H) -> R + 'static,
 {
    open spec fn runnable(&self) -> bool {
        (forall|a: A, b: B, c: C, d: D, e: E, f2: F2, g2: G, h: H| call_requires(self.property(), (a, b, c, d, e, f2, g2, h,))) && A::obeys_arbitrary() && B::obeys_arbitrary() && C::obeys_arbitrary() && D::obeys_arbitrary() && E::obeys_arbitrary() && F2::obeys_arbitrary() && G::obeys_arbitrary() && H::obeys_arbitrary()
    }

    /// The inputs are generated one after the other, within the generator's
    /// size, by the draws that lead from `before` to `after`; the property
    /// runs on values of their models, and its converted verdict is the
    /// outcome unless it is a failure, which gives a failure.
    open spec fn gives(&self, before: Gen, outcome: Outcome, after: Gen) -> bool {
        &&& after.spec_size() == before.spec_size()
        &&& extends(after.samples(), before.samples())
        &&& exists|s1: Seq<Sample>, s2: Seq<Sample>, s3: Seq<Sample>, s4: Seq<Sample>, s5: Seq<Sample>, s6: Seq<Sample>, s7: Seq<Sample>, a: A, b: B, c: C, d: D, e: E, f2: F2, g2: G, h: H, a_arg: A, b_arg: B, c_arg: C, d_arg: D, e_arg: E, f2_arg: F2, g2_arg: G, h_arg: H, verdict: R, converted: TestResult|
            #![trigger A::generated(before.spec_size() as nat, before.samples(), a.model(), s1), B::generated(before.spec_size() as nat, s1, b.model(), s2), C::generated(before.spec_size() as nat, s2, c.model(), s3), D::generated(before.spec_size() as nat, s3, d.model(), s4), E::generated(before.spec_size() as nat, s4, e.model(), s5), F2::generated(before.spec_size() as nat, s5, f2.model(), s6), G::generated(before.spec_size() as nat, s6, g2.model(), s7), H::generated(before.spec_size() as nat, s7, h.model(), after.samples()), call_ensures(self.property(), (a_arg, b_arg, c_arg, d_arg, e_arg, f2_arg, g2_arg, h_arg,), verdict), call_ensures(TestResult::from, (verdict,), converted)]
            {
            &&& A::within_size(a.model(), before.spec_size() as nat)
            &&& A::generated(before.spec_size() as nat, before.samples(), a.model(), s1)
            &&& a_arg.model() == a.model()
            &&& B::within_size(b.model(), before.spec_size() as nat)
            &&& B::generated(before.spec_size() as nat, s1, b.model(), s2)
            &&& b_arg.model() == b.model()
            &&& C::within_size(c.model(), before.spec_size() as nat)
            &&& C::generated(before.spec_size() as nat, s2, c.model(), s3)
            &&& c_arg.model() == c.model()
            &&& D::within_size(d.model(), before.spec_size() as nat)
            &&& D::generated(before.spec_size() as nat, s3, d.model(), s4)
            &&& d_arg.model() == d.model()
            &&& E::within_size(e.model(), before.spec_size() as nat)
            &&& E::generated(before.spec_size() as nat, s4, e.model(), s5)
            &&& e_arg.model() == e.model()
            &&& F2::within_size(f2.model(), before.spec_size() as nat)
            &&& F2::generated(before.spec_size() as nat, s5, f2.model(), s6)
            &&& f2_arg.model() == f2.model()
            &&& G::within_size(g2.model(), before.spec_size() as nat)
            &&& G::generated(before.spec_size() as nat, s6, g2.model(), s7)
            &&& g2_arg.model() == g2.model()
            &&& H::within_size(h.model(), before.spec_size() as nat)
            &&& H::generated(before.spec_size() as nat, s7, h.model(), after.samples())
            &&& h_arg.model() == h.model()
            &&& call_ensures(self.property(), (a_arg, b_arg, c_arg, d_arg, e_arg, f2_arg, g2_arg, h_arg,), verdict)
            &&& call_ensures(TestResult::from, (verdict,), converted)
            &&& if converted is Fail {
                exists|m: (A, B, C, D, E, F2, G, H), s: String|
                    #![trigger describes(&m, s)]
                    self.minimized((a, b, c, d, e, f2, g2, h), m) && describes(&m, s) && outcome == Outcome::Fail(s@)
            } else {
                outcome == converted@
            }
        }
    }

    #[verifier::spinoff_prover]
    #[verifier::rlimit(100)]
    fn result(&self, g: &mut Gen) -> (r: TestResult) {
        let a = A::arbitrary(g);
        let ghost s1 = g.samples();
        let b = B::arbitrary(g);
        let ghost s2 = g.samples();
        let c = C::arbitrary(g);
        let ghost s3 = g.samples();
        let d = D::arbitrary(g);
        let ghost s4 = g.samples();
        let e = E::arbitrary(g);
        let ghost s5 = g.samples();
        let f2 = F2::arbitrary(g);
        let ghost s6 = g.samples();
        let g2 = G::arbitrary(g);
        let ghost s7 = g.samples();
        let h = H::arbitrary(g);
        let a_arg = a.duplicate();
        let ghost a_seen = a_arg;
        let b_arg = b.duplicate();
        let ghost b_seen = b_arg;
        let c_arg = c.duplicate();
        let ghost c_seen = c_arg;
        let d_arg = d.duplicate();
        let ghost d_seen = d_arg;
        let e_arg = e.duplicate();
        let ghost e_seen = e_arg;
        let f2_arg = f2.duplicate();
        let ghost f2_seen = f2_arg;
        let g2_arg = g2.duplicate();
        let ghost g2_seen = g2_arg;
        let h_arg = h.duplicate();
        let ghost h_seen = h_arg;
        assert(call_requires(self.property(), (a_seen, b_seen, c_seen, d_seen, e_seen, f2_seen, g2_seen, h_seen,)));
        let verdict = (self.f)(a_arg, b_arg, c_arg, d_arg, e_arg, f2_arg, g2_arg, h_arg);
        let ghost verdict_seen = verdict;
        let result: TestResult = verdict.into();
        assert({
            &&& A::within_size(a.model(), old(g).spec_size() as nat)
            &&& A::generated(old(g).spec_size() as nat, old(g).samples(), a.model(), s1)
            &&& a_seen.model() == a.model()
            &&& B::within_size(b.model(), old(g).spec_size() as nat)
            &&& B::generated(old(g).spec_size() as nat, s1, b.model(), s2)
            &&& b_seen.model() == b.model()
            &&& C::within_size(c.model(), old(g).spec_size() as nat)
            &&& C::generated(old(g).spec_size() as nat, s2, c.model(), s3)
            &&& c_seen.model() == c.model()
            &&& D::within_size(d.model(), old(g).spec_size() as nat)
            &&& D::generated(old(g).spec_size() as nat, s3, d.model(), s4)
            &&& d_seen.model() == d.model()
            &&& E::within_size(e.model(), old(g).spec_size() as nat)
            &&& E::generated(old(g).spec_size() as nat, s4, e.model(), s5)
            &&& e_seen.model() == e.model()
            &&& F2::within_size(f2.model(), old(g).spec_size() as nat)
            &&& F2::generated(old(g).spec_size() as nat, s5, f2.model(), s6)
            &&& f2_seen.model() == f2.model()
            &&& G::within_size(g2.model(), old(g).spec_size() as nat)
            &&& G::generated(old(g).spec_size() as nat, s6, g2.model(), s7)
            &&& g2_seen.model() == g2.model()
            &&& H::within_size(h.model(), old(g).spec_size() as nat)
            &&& H::generated(old(g).spec_size() as nat, s7, h.model(), g.samples())
            &&& h_seen.model() == h.model()
            &&& call_ensures(self.property(), (a_seen, b_seen, c_seen, d_seen, e_seen, f2_seen, g2_seen, h_seen,), verdict_seen)
            &&& call_ensures(TestResult::from, (verdict_seen,), result)
        });
        if result.is_failure() {
            let r = self.report_failure((a.duplicate(), b.duplicate(), c.duplicate(), d.duplicate(), e.duplicate(), f2.duplicate(), g2.duplicate(), h.duplicate()), Ghost((a, b, c, d, e, f2, g2, h)));
            assert(result@ is Fail && r@ is Fail);
            assert(self.gives(*old(g), r@, *g));
            return r;
        }
        assert(self.gives(*old(g), result@, *g));
        result
    }
}

/// What `runnable` means for this wrapper, stated where the property's
/// type is generic, so that callers whose property has a concrete function
/// or closure type (whose `Fn` impl Verus does not resolve) can use it.
pub proof fn lemma_testable_args8_runnable<A, B, C, D, E, F2, G, H, R, F>(t: &TestableArgs8<A, B, C, D, E, F2, G, H, R, F>) where
    A: Arbitrary,
    B: Arbitrary,
    C: Arbitrary,
    D: Arbitrary,
    E: Arbitrary,
    F2: Arbitrary,
    G: Arbitrary,
    H: Arbitrary,
    R: 'static,
    TestResult: From<R>,
    F: Fn(A, B, C, D, E, F2, G, H) -> R + 'static,

    ensures
        t.runnable() == ((forall|a: A, b: B, c: C, d: D, e: E, f2: F2, g2: G, h: H| call_requires(t.property(), (a, b, c, d, e, f2, g2, h,))) && A::obeys_arbitrary() && B::obeys_arbitrary() && C::obeys_arbitrary() && D::obeys_arbitrary() && E::obeys_arbitrary() && F2::obeys_arbitrary() && G::obeys_arbitrary() && H::obeys_arbitrary()),
{
}

/// Create a testable from a 8-argument function.
pub fn testable_args8<A, B, C, D, E, F2, G, H, R, F>(f: F) -> (t: TestableArgs8<A, B, C, D, E, F2, G, H, R, F>) where
    A: Arbitrary,
    B: Arbitrary,
    C: Arbitrary,
    D: Arbitrary,
    E: Arbitrary,
    F2: Arbitrary,
    G: Arbitrary,
    H: Arbitrary,
    R: 'static,
    TestResult: From<R>,
    F: Fn(A, B, C, D, E, F2, G, H) -> R + 'static,

    ensures
        t.property() == f,
{
    TestableArgs8 { f, _marker: std::marker::PhantomData }
}

} // verus!
