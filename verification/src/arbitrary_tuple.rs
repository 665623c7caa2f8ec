use vstd::prelude::*;

use crate::arbitrary::Arbitrary;
use crate::gen::{Gen, Sample};

verus! {

/// When no element of either of two sequences is `x`, no element of their
/// concatenation is.
pub proof fn lemma_concat_differ<M>(s: Seq<M>, t: Seq<M>, x: M)
    requires
        forall|k: int| 0 <= k < s.len() ==> #[trigger] s[k] != x,
        forall|k: int| 0 <= k < t.len() ==> #[trigger] t[k] != x,
    ensures
        forall|k: int| 0 <= k < (s + t).len() ==> #[trigger] (s + t)[k] != x,
{
    assert forall|k: int| 0 <= k < (s + t).len() implies #[trigger] (s + t)[k] != x by {
        if k < s.len() {
            assert((s + t)[k] == s[k]);
        } else {
            assert((s + t)[k] == t[k - s.len()]);
        }
    }
}

/// One-element tuples are generated from their component and shrink
/// through it.
impl<A: Arbitrary> Arbitrary for (A,) {
    type Model = (A::Model,);

    open spec fn model(&self) -> (A::Model,) {
        (self.0.model(),)
    }

    open spec fn obeys_arbitrary() -> bool {
        A::obeys_arbitrary()
    }

    open spec fn shrinks_by_model() -> bool {
        A::shrinks_by_model()
    }

    open spec fn within_size(m: (A::Model,), size: nat) -> bool {
        A::within_size(m.0, size)
    }

    open spec fn generated(size: nat, before: Seq<Sample>, m: (A::Model,), after: Seq<Sample>) -> bool {
        A::generated(size, before, m.0, after)
    }

    open spec fn shrink_models(&self) -> Seq<(A::Model,)> {
        self.0.shrink_models().map_values(|m: A::Model| (m,))
    }

    proof fn lemma_shrinks_differ(&self) {
        if Self::shrinks_by_model() {
            self.0.lemma_shrinks_differ();
            let b0 = self.0.shrink_models().map_values(|m: A::Model| (m,));
            assert forall|k: int| 0 <= k < b0.len() implies #[trigger] b0[k] != self.model() by {
                assert(b0[k].0 == self.0.shrink_models()[k]);
            }
            assert(self.shrink_models() == b0);
        }
    }

    proof fn lemma_shrinks_follow_model(x: &(A,), y: &(A,)) {
        if Self::shrinks_by_model() {
            A::lemma_shrinks_follow_model(&x.0, &y.0);
            assert(x.0.shrink_models().map_values(|m: A::Model| (m,)) =~= y.0.shrink_models().map_values(|m: A::Model| (m,)));
        }
    }

    fn duplicate(&self) -> (r: (A,)) {
        (self.0.duplicate(),)
    }

    #[verifier::spinoff_prover]
    fn arbitrary(g: &mut Gen) -> (r: (A,)) {
        let e0 = A::arbitrary(g);
        (e0,)
    }

    fn shrink(&self) -> (r: Vec<(A,)>) {
        let mut candidates: Vec<(A,)> = Vec::new();
        let ghost done: Seq<(A::Model,)> = seq![];
        assert(candidates@.map_values(|c: (A,)| c.model()) =~= done);
        let smaller = self.0.shrink();
        let ghost options = self.0.shrink_models();
        let ghost block = self.0.shrink_models().map_values(|m: A::Model| (m,));
        let mut j: usize = 0;
        while j < smaller.len()
            invariant
                Self::obeys_arbitrary(),
                smaller@.len() == options.len(),
                options == self.0.shrink_models(),
                block == self.0.shrink_models().map_values(|m: A::Model| (m,)),
                forall|k: int| 0 <= k < smaller@.len() ==> #[trigger] smaller@[k].model() == options[k],
                j <= smaller@.len(),
                candidates@.map_values(|c: (A,)| c.model()) == done + block.take(j as int),
            decreases smaller@.len() - j,
        {
            let replacement = smaller[j].duplicate();
            let ghost prev = candidates@.map_values(|c: (A,)| c.model());
            candidates.push((replacement,));
            assert(candidates@.map_values(|c: (A,)| c.model()) =~= prev.push(block[j as int]));
            assert(block.take(j + 1) =~= block.take(j as int).push(block[j as int]));
            j = j + 1;
        }
        assert(block.take(j as int) =~= block);
        proof {
            done = done + block;
        }
        assert(done =~= self.shrink_models());
        candidates
    }
}

/// Tuples of 2 are generated component by component, in order, and
/// shrink component-wise: the candidates that shrink the first component
/// (the others kept), then those that shrink the second, and so on.
impl<A: Arbitrary, B: Arbitrary> Arbitrary for (A, B) {
    type Model = (A::Model, B::Model);

    open spec fn model(&self) -> (A::Model, B::Model) {
        (self.0.model(), self.1.model())
    }

    open spec fn obeys_arbitrary() -> bool {
        A::obeys_arbitrary() && B::obeys_arbitrary()
    }

    open spec fn shrinks_by_model() -> bool {
        A::shrinks_by_model() && B::shrinks_by_model()
    }

    open spec fn within_size(m: (A::Model, B::Model), size: nat) -> bool {
        A::within_size(m.0, size) && B::within_size(m.1, size)
    }

    /// The components are generated one after the other, in order.
    open spec fn generated(size: nat, before: Seq<Sample>, m: (A::Model, B::Model), after: Seq<Sample>) -> bool {
        exists|s1: Seq<Sample>|
            #![trigger B::generated(size, s1, m.1, after)]
            A::generated(size, before, m.0, s1) && B::generated(size, s1, m.1, after)
    }

    open spec fn shrink_models(&self) -> Seq<(A::Model, B::Model)> {
        self.0.shrink_models().map_values(|m: A::Model| (m, self.1.model())) + self.1.shrink_models().map_values(|m: B::Model| (self.0.model(), m))
    }

    proof fn lemma_shrinks_differ(&self) {
        if Self::shrinks_by_model() {
            self.0.lemma_shrinks_differ();
            let b0 = self.0.shrink_models().map_values(|m: A::Model| (m, self.1.model()));
            assert forall|k: int| 0 <= k < b0.len() implies #[trigger] b0[k] != self.model() by {
                assert(b0[k].0 == self.0.shrink_models()[k]);
            }
            self.1.lemma_shrinks_differ();
            let b1 = self.1.shrink_models().map_values(|m: B::Model| (self.0.model(), m));
            assert forall|k: int| 0 <= k < b1.len() implies #[trigger] b1[k] != self.model() by {
                assert(b1[k].1 == self.1.shrink_models()[k]);
            }
            lemma_concat_differ(b0, b1, self.model());
            assert(self.shrink_models() == b0 + b1);
        }
    }

    proof fn lemma_shrinks_follow_model(x: &(A, B), y: &(A, B)) {
        if Self::shrinks_by_model() {
            A::lemma_shrinks_follow_model(&x.0, &y.0);
            B::lemma_shrinks_follow_model(&x.1, &y.1);
            assert(x.0.shrink_models().map_values(|m: A::Model| (m, x.1.model())) =~= y.0.shrink_models().map_values(|m: A::Model| (m, y.1.model())));
            assert(x.1.shrink_models().map_values(|m: B::Model| (x.0.model(), m)) =~= y.1.shrink_models().map_values(|m: B::Model| (y.0.model(), m)));
        }
    }

    fn duplicate(&self) -> (r: (A, B)) {
        (self.0.duplicate(), self.1.duplicate())
    }

    #[verifier::spinoff_prover]
    fn arbitrary(g: &mut Gen) -> (r: (A, B)) {
        let e0 = A::arbitrary(g);
        let ghost s1 = g.samples();
        let e1 = B::arbitrary(g);
        assert(A::generated(old(g).spec_size() as nat, old(g).samples(), e0.model(), s1) && B::generated(old(g).spec_size() as nat, s1, e1.model(), g.samples()));
        proof {
            lemma_tuple2_generated::<A, B>(old(g).spec_size() as nat, old(g).samples(), s1, g.samples(), e0.model(), e1.model());
        }
        (e0, e1)
    }

    fn shrink(&self) -> (r: Vec<(A, B)>) {
        let mut candidates: Vec<(A, B)> = Vec::new();
        let ghost done: Seq<(A::Model, B::Model)> = seq![];
        assert(candidates@.map_values(|c: (A, B)| c.model()) =~= done);
        let smaller = self.0.shrink();
        let ghost options = self.0.shrink_models();
        let ghost block = self.0.shrink_models().map_values(|m: A::Model| (m, self.1.model()));
        let mut j: usize = 0;
        while j < smaller.len()
            invariant
                Self::obeys_arbitrary(),
                smaller@.len() == options.len(),
                options == self.0.shrink_models(),
                block == self.0.shrink_models().map_values(|m: A::Model| (m, self.1.model())),
                forall|k: int| 0 <= k < smaller@.len() ==> #[trigger] smaller@[k].model() == options[k],
                j <= smaller@.len(),
                candidates@.map_values(|c: (A, B)| c.model()) == done + block.take(j as int),
            decreases smaller@.len() - j,
        {
            let replacement = smaller[j].duplicate();
            let ghost prev = candidates@.map_values(|c: (A, B)| c.model());
            candidates.push((replacement, self.1.duplicate()));
            assert(candidates@.map_values(|c: (A, B)| c.model()) =~= prev.push(block[j as int]));
            assert(block.take(j + 1) =~= block.take(j as int).push(block[j as int]));
            j = j + 1;
        }
        assert(block.take(j as int) =~= block);
        proof {
            done = done + block;
        }
        let smaller = self.1.shrink();
        let ghost options = self.1.shrink_models();
        let ghost block = self.1.shrink_models().map_values(|m: B::Model| (self.0.model(), m));
        let mut j: usize = 0;
        while j < smaller.len()
            invariant
                Self::obeys_arbitrary(),
                smaller@.len() == options.len(),
                options == self.1.shrink_models(),
                block == self.1.shrink_models().map_values(|m: B::Model| (self.0.model(), m)),
                forall|k: int| 0 <= k < smaller@.len() ==> #[trigger] smaller@[k].model() == options[k],
                j <= smaller@.len(),
                candidates@.map_values(|c: (A, B)| c.model()) == done + block.take(j as int),
            decreases smaller@.len() - j,
        {
            let replacement = smaller[j].duplicate();
            let ghost prev = candidates@.map_values(|c: (A, B)| c.model());
            candidates.push((self.0.duplicate(), replacement));
            assert(candidates@.map_values(|c: (A, B)| c.model()) =~= prev.push(block[j as int]));
            assert(block.take(j + 1) =~= block.take(j as int).push(block[j as int]));
            j = j + 1;
        }
        assert(block.take(j as int) =~= block);
        proof {
            done = done + block;
        }
        assert(done =~= self.shrink_models());
        candidates
    }
}

/// Tuples of 3 are generated component by component, in order, and
/// shrink component-wise: the candidates that shrink the first component
/// (the others kept), then those that shrink the second, and so on.
impl<A: Arbitrary, B: Arbitrary, C: Arbitrary> Arbitrary for (A, B, C) {
    type Model = (A::Model, B::Model, C::Model);

    open spec fn model(&self) -> (A::Model, B::Model, C::Model) {
        (self.0.model(), self.1.model(), self.2.model())
    }

    open spec fn obeys_arbitrary() -> bool {
        A::obeys_arbitrary() && B::obeys_arbitrary() && C::obeys_arbitrary()
    }

    open spec fn shrinks_by_model() -> bool {
        A::shrinks_by_model() && B::shrinks_by_model() && C::shrinks_by_model()
    }

    open spec fn within_size(m: (A::Model, B::Model, C::Model), size: nat) -> bool {
        A::within_size(m.0, size) && B::within_size(m.1, size) && C::within_size(m.2, size)
    }

    /// The components are generated one after the other, in order.
    open spec fn generated(size: nat, before: Seq<Sample>, m: (A::Model, B::Model, C::Model), after: Seq<Sample>) -> bool {
        exists|s1: Seq<Sample>, s2: Seq<Sample>|
            #![trigger B::generated(size, s1, m.1, s2)]
            A::generated(size, before, m.0, s1) && B::generated(size, s1, m.1, s2) && C::generated(size, s2, m.2, after)
    }

    open spec fn shrink_models(&self) -> Seq<(A::Model, B::Model, C::Model)> {
        self.0.shrink_models().map_values(|m: A::Model| (m, self.1.model(), self.2.model())) + self.1.shrink_models().map_values(|m: B::Model| (self.0.model(), m, self.2.model())) + self.2.shrink_models().map_values(|m: C::Model| (self.0.model(), self.1.model(), m))
    }

    proof fn lemma_shrinks_differ(&self) {
        if Self::shrinks_by_model() {
            self.0.lemma_shrinks_differ();
            let b0 = self.0.shrink_models().map_values(|m: A::Model| (m, self.1.model(), self.2.model()));
            assert forall|k: int| 0 <= k < b0.len() implies #[trigger] b0[k] != self.model() by {
                assert(b0[k].0 == self.0.shrink_models()[k]);
            }
            self.1.lemma_shrinks_differ();
            let b1 = self.1.shrink_models().map_values(|m: B::Model| (self.0.model(), m, self.2.model()));
            assert forall|k: int| 0 <= k < b1.len() implies #[trigger] b1[k] != self.model() by {
                assert(b1[k].1 == self.1.shrink_models()[k]);
            }
            self.2.lemma_shrinks_differ();
            let b2 = self.2.shrink_models().map_values(|m: C::Model| (self.0.model(), self.1.model(), m));
            assert forall|k: int| 0 <= k < b2.len() implies #[trigger] b2[k] != self.model() by {
                assert(b2[k].2 == self.2.shrink_models()[k]);
            }
            lemma_concat_differ(b0, b1, self.model());
            lemma_concat_differ(b0 + b1, b2, self.model());
            assert(self.shrink_models() == b0 + b1 + b2);
        }
    }

    proof fn lemma_shrinks_follow_model(x: &(A, B, C), y: &(A, B, C)) {
        if Self::shrinks_by_model() {
            A::lemma_shrinks_follow_model(&x.0, &y.0);
            B::lemma_shrinks_follow_model(&x.1, &y.1);
            C::lemma_shrinks_follow_model(&x.2, &y.2);
            assert(x.0.shrink_models().map_values(|m: A::Model| (m, x.1.model(), x.2.model())) =~= y.0.shrink_models().map_values(|m: A::Model| (m, y.1.model(), y.2.model())));
            assert(x.1.shrink_models().map_values(|m: B::Model| (x.0.model(), m, x.2.model())) =~= y.1.shrink_models().map_values(|m: B::Model| (y.0.model(), m, y.2.model())));
            assert(x.2.shrink_models().map_values(|m: C::Model| (x.0.model(), x.1.model(), m)) =~= y.2.shrink_models().map_values(|m: C::Model| (y.0.model(), y.1.model(), m)));
        }
    }

    fn duplicate(&self) -> (r: (A, B, C)) {
        (self.0.duplicate(), self.1.duplicate(), self.2.duplicate())
    }

    #[verifier::spinoff_prover]
    fn arbitrary(g: &mut Gen) -> (r: (A, B, C)) {
        let e0 = A::arbitrary(g);
        let ghost s1 = g.samples();
        let e1 = B::arbitrary(g);
        let ghost s2 = g.samples();
        let e2 = C::arbitrary(g);
        assert(A::generated(old(g).spec_size() as nat, old(g).samples(), e0.model(), s1) && B::generated(old(g).spec_size() as nat, s1, e1.model(), s2) && C::generated(old(g).spec_size() as nat, s2, e2.model(), g.samples()));
        proof {
            lemma_tuple3_generated::<A, B, C>(old(g).spec_size() as nat, old(g).samples(), s1, s2, g.samples(), e0.model(), e1.model(), e2.model());
        }
        (e0, e1, e2)
    }

    fn shrink(&self) -> (r: Vec<(A, B, C)>) {
        let mut candidates: Vec<(A, B, C)> = Vec::new();
        let ghost done: Seq<(A::Model, B::Model, C::Model)> = seq![];
        assert(candidates@.map_values(|c: (A, B, C)| c.model()) =~= done);
        let smaller = self.0.shrink();
        let ghost options = self.0.shrink_models();
        let ghost block = self.0.shrink_models().map_values(|m: A::Model| (m, self.1.model(), self.2.model()));
        let mut j: usize = 0;
        while j < smaller.len()
            invariant
                Self::obeys_arbitrary(),
                smaller@.len() == options.len(),
                options == self.0.shrink_models(),
                block == self.0.shrink_models().map_values(|m: A::Model| (m, self.1.model(), self.2.model())),
                forall|k: int| 0 <= k < smaller@.len() ==> #[trigger] smaller@[k].model() == options[k],
                j <= smaller@.len(),
                candidates@.map_values(|c: (A, B, C)| c.model()) == done + block.take(j as int),
            decreases smaller@.len() - j,
        {
            let replacement = smaller[j].duplicate();
            let ghost prev = candidates@.map_values(|c: (A, B, C)| c.model());
            candidates.push((replacement, self.1.duplicate(), self.2.duplicate()));
            assert(candidates@.map_values(|c: (A, B, C)| c.model()) =~= prev.push(block[j as int]));
            assert(block.take(j + 1) =~= block.take(j as int).push(block[j as int]));
            j = j + 1;
        }
        assert(block.take(j as int) =~= block);
        proof {
            done = done + block;
        }
        let smaller = self.1.shrink();
        let ghost options = self.1.shrink_models();
        let ghost block = self.1.shrink_models().map_values(|m: B::Model| (self.0.model(), m, self.2.model()));
        let mut j: usize = 0;
        while j < smaller.len()
            invariant
                Self::obeys_arbitrary(),
                smaller@.len() == options.len(),
                options == self.1.shrink_models(),
                block == self.1.shrink_models().map_values(|m: B::Model| (self.0.model(), m, self.2.model())),
                forall|k: int| 0 <= k < smaller@.len() ==> #[trigger] smaller@[k].model() == options[k],
                j <= smaller@.len(),
                candidates@.map_values(|c: (A, B, C)| c.model()) == done + block.take(j as int),
            decreases smaller@.len() - j,
        {
            let replacement = smaller[j].duplicate();
            let ghost prev = candidates@.map_values(|c: (A, B, C)| c.model());
            candidates.push((self.0.duplicate(), replacement, self.2.duplicate()));
            assert(candidates@.map_values(|c: (A, B, C)| c.model()) =~= prev.push(block[j as int]));
            assert(block.take(j + 1) =~= block.take(j as int).push(block[j as int]));
            j = j + 1;
        }
        assert(block.take(j as int) =~= block);
        proof {
            done = done + block;
        }
        let smaller = self.2.shrink();
        let ghost options = self.2.shrink_models();
        let ghost block = self.2.shrink_models().map_values(|m: C::Model| (self.0.model(), self.1.model(), m));
        let mut j: usize = 0;
        while j < smaller.len()
            invariant
                Self::obeys_arbitrary(),
                smaller@.len() == options.len(),
                options == self.2.shrink_models(),
                block == self.2.shrink_models().map_values(|m: C::Model| (self.0.model(), self.1.model(), m)),
                forall|k: int| 0 <= k < smaller@.len() ==> #[trigger] smaller@[k].model() == options[k],
                j <= smaller@.len(),
                candidates@.map_values(|c: (A, B, C)| c.model()) == done + block.take(j as int),
            decreases smaller@.len() - j,
        {
            let replacement = smaller[j].duplicate();
            let ghost prev = candidates@.map_values(|c: (A, B, C)| c.model());
            candidates.push((self.0.duplicate(), self.1.duplicate(), replacement));
            assert(candidates@.map_values(|c: (A, B, C)| c.model()) =~= prev.push(block[j as int]));
            assert(block.take(j + 1) =~= block.take(j as int).push(block[j as int]));
            j = j + 1;
        }
        assert(block.take(j as int) =~= block);
        proof {
            done = done + block;
        }
        assert(done =~= self.shrink_models());
        candidates
    }
}

/// Tuples of 4 are generated component by component, in order, and
/// shrink component-wise: the candidates that shrink the first component
/// (the others kept), then those that shrink the second, and so on.
impl<A: Arbitrary, B: Arbitrary, C: Arbitrary, D: Arbitrary> Arbitrary for (A, B, C, D) {
    type Model = (A::Model, B::Model, C::Model, D::Model);

    open spec fn model(&self) -> (A::Model, B::Model, C::Model, D::Model) {
        (self.0.model(), self.1.model(), self.2.model(), self.3.model())
    }

    open spec fn obeys_arbitrary() -> bool {
        A::obeys_arbitrary() && B::obeys_arbitrary() && C::obeys_arbitrary() && D::obeys_arbitrary()
    }

    open spec fn shrinks_by_model() -> bool {
        A::shrinks_by_model() && B::shrinks_by_model() && C::shrinks_by_model() && D::shrinks_by_model()
    }

    open spec fn within_size(m: (A::Model, B::Model, C::Model, D::Model), size: nat) -> bool {
        A::within_size(m.0, size) && B::within_size(m.1, size) && C::within_size(m.2, size) && D::within_size(m.3, size)
    }

    /// The components are generated one after the other, in order.
    open spec fn generated(size: nat, before: Seq<Sample>, m: (A::Model, B::Model, C::Model, D::Model), after: Seq<Sample>) -> bool {
        exists|s1: Seq<Sample>, s2: Seq<Sample>, s3: Seq<Sample>|
            #![trigger B::generated(size, s1, m.1, s2), D::generated(size, s3, m.3, after)]
            A::generated(size, before, m.0, s1) && B::generated(size, s1, m.1, s2) && C::generated(size, s2, m.2, s3) && D::generated(size, s3, m.3, after)
    }

    open spec fn shrink_models(&self) -> Seq<(A::Model, B::Model, C::Model, D::Model)> {
        self.0.shrink_models().map_values(|m: A::Model| (m, self.1.model(), self.2.model(), self.3.model())) + self.1.shrink_models().map_values(|m: B::Model| (self.0.model(), m, self.2.model(), self.3.model())) + self.2.shrink_models().map_values(|m: C::Model| (self.0.model(), self.1.model(), m, self.3.model())) + self.3.shrink_models().map_values(|m: D::Model| (self.0.model(), self.1.model(), self.2.model(), m))
    }

    proof fn lemma_shrinks_differ(&self) {
        if Self::shrinks_by_model() {
            self.0.lemma_shrinks_differ();
            let b0 = self.0.shrink_models().map_values(|m: A::Model| (m, self.1.model(), self.2.model(), self.3.model()));
            assert forall|k: int| 0 <= k < b0.len() implies #[trigger] b0[k] != self.model() by {
                assert(b0[k].0 == self.0.shrink_models()[k]);
            }
            self.1.lemma_shrinks_differ();
            let b1 = self.1.shrink_models().map_values(|m: B::Model| (self.0.model(), m, self.2.model(), self.3.model()));
            assert forall|k: int| 0 <= k < b1.len() implies #[trigger] b1[k] != self.model() by {
                assert(b1[k].1 == self.1.shrink_models()[k]);
            }
            self.2.lemma_shrinks_differ();
            let b2 = self.2.shrink_models().map_values(|m: C::Model| (self.0.model(), self.1.model(), m, self.3.model()));
            assert forall|k: int| 0 <= k < b2.len() implies #[trigger] b2[k] != self.model() by {
                assert(b2[k].2 == self.2.shrink_models()[k]);
            }
            self.3.lemma_shrinks_differ();
            let b3 = self.3.shrink_models().map_values(|m: D::Model| (self.0.model(), self.1.model(), self.2.model(), m));
            assert forall|k: int| 0 <= k < b3.len() implies #[trigger] b3[k] != self.model() by {
                assert(b3[k].3 == self.3.shrink_models()[k]);
            }
            lemma_concat_differ(b0, b1, self.model());
            lemma_concat_differ(b0 + b1, b2, self.model());
            lemma_concat_differ(b0 + b1 + b2, b3, self.model());
            assert(self.shrink_models() == b0 + b1 + b2 + b3);
        }
    }

    proof fn lemma_shrinks_follow_model(x: &(A, B, C, D), y: &(A, B, C, D)) {
        if Self::shrinks_by_model() {
            A::lemma_shrinks_follow_model(&x.0, &y.0);
            B::lemma_shrinks_follow_model(&x.1, &y.1);
            C::lemma_shrinks_follow_model(&x.2, &y.2);
            D::lemma_shrinks_follow_model(&x.3, &y.3);
            assert(x.0.shrink_models().map_values(|m: A::Model| (m, x.1.model(), x.2.model(), x.3.model())) =~= y.0.shrink_models().map_values(|m: A::Model| (m, y.1.model(), y.2.model(), y.3.model())));
            assert(x.1.shrink_models().map_values(|m: B::Model| (x.0.model(), m, x.2.model(), x.3.model())) =~= y.1.shrink_models().map_values(|m: B::Model| (y.0.model(), m, y.2.model(), y.3.model())));
            assert(x.2.shrink_models().map_values(|m: C::Model| (x.0.model(), x.1.model(), m, x.3.model())) =~= y.2.shrink_models().map_values(|m: C::Model| (y.0.model(), y.1.model(), m, y.3.model())));
            assert(x.3.shrink_models().map_values(|m: D::Model| (x.0.model(), x.1.model(), x.2.model(), m)) =~= y.3.shrink_models().map_values(|m: D::Model| (y.0.model(), y.1.model(), y.2.model(), m)));
        }
    }

    fn duplicate(&self) -> (r: (A, B, C, D)) {
        (self.0.duplicate(), self.1.duplicate(), self.2.duplicate(), self.3.duplicate())
    }

    #[verifier::spinoff_prover]
    fn arbitrary(g: &mut Gen) -> (r: (A, B, C, D)) {
        let e0 = A::arbitrary(g);
        let ghost s1 = g.samples();
        let e1 = B::arbitrary(g);
        let ghost s2 = g.samples();
        let e2 = C::arbitrary(g);
        let ghost s3 = g.samples();
        let e3 = D::arbitrary(g);
        assert(A::generated(old(g).spec_size() as nat, old(g).samples(), e0.model(), s1) && B::generated(old(g).spec_size() as nat, s1, e1.model(), s2) && C::generated(old(g).spec_size() as nat, s2, e2.model(), s3) && D::generated(old(g).spec_size() as nat, s3, e3.model(), g.samples()));
        proof {
            lemma_tuple4_generated::<A, B, C, D>(old(g).spec_size() as nat, old(g).samples(), s1, s2, s3, g.samples(), e0.model(), e1.model(), e2.model(), e3.model());
        }
        (e0, e1, e2, e3)
    }

    fn shrink(&self) -> (r: Vec<(A, B, C, D)>) {
        let mut candidates: Vec<(A, B, C, D)> = Vec::new();
        let ghost done: Seq<(A::Model, B::Model, C::Model, D::Model)> = seq![];
        assert(candidates@.map_values(|c: (A, B, C, D)| c.model()) =~= done);
        let smaller = self.0.shrink();
        let ghost options = self.0.shrink_models();
        let ghost block = self.0.shrink_models().map_values(|m: A::Model| (m, self.1.model(), self.2.model(), self.3.model()));
        let mut j: usize = 0;
        while j < smaller.len()
            invariant
                Self::obeys_arbitrary(),
                smaller@.len() == options.len(),
                options == self.0.shrink_models(),
                block == self.0.shrink_models().map_values(|m: A::Model| (m, self.1.model(), self.2.model(), self.3.model())),
                forall|k: int| 0 <= k < smaller@.len() ==> #[trigger] smaller@[k].model() == options[k],
                j <= smaller@.len(),
                candidates@.map_values(|c: (A, B, C, D)| c.model()) == done + block.take(j as int),
            decreases smaller@.len() - j,
        {
            let replacement = smaller[j].duplicate();
            let ghost prev = candidates@.map_values(|c: (A, B, C, D)| c.model());
            candidates.push((replacement, self.1.duplicate(), self.2.duplicate(), self.3.duplicate()));
            assert(candidates@.map_values(|c: (A, B, C, D)| c.model()) =~= prev.push(block[j as int]));
            assert(block.take(j + 1) =~= block.take(j as int).push(block[j as int]));
            j = j + 1;
        }
        assert(block.take(j as int) =~= block);
        proof {
            done = done + block;
        }
        let smaller = self.1.shrink();
        let ghost options = self.1.shrink_models();
        let ghost block = self.1.shrink_models().map_values(|m: B::Model| (self.0.model(), m, self.2.model(), self.3.model()));
        let mut j: usize = 0;
        while j < smaller.len()
            invariant
                Self::obeys_arbitrary(),
                smaller@.len() == options.len(),
                options == self.1.shrink_models(),
                block == self.1.shrink_models().map_values(|m: B::Model| (self.0.model(), m, self.2.model(), self.3.model())),
                forall|k: int| 0 <= k < smaller@.len() ==> #[trigger] smaller@[k].model() == options[k],
                j <= smaller@.len(),
                candidates@.map_values(|c: (A, B, C, D)| c.model()) == done + block.take(j as int),
            decreases smaller@.len() - j,
        {
            let replacement = smaller[j].duplicate();
            let ghost prev = candidates@.map_values(|c: (A, B, C, D)| c.model());
            candidates.push((self.0.duplicate(), replacement, self.2.duplicate(), self.3.duplicate()));
            assert(candidates@.map_values(|c: (A, B, C, D)| c.model()) =~= prev.push(block[j as int]));
            assert(block.take(j + 1) =~= block.take(j as int).push(block[j as int]));
            j = j + 1;
        }
        assert(block.take(j as int) =~= block);
        proof {
            done = done + block;
        }
        let smaller = self.2.shrink();
        let ghost options = self.2.shrink_models();
        let ghost block = self.2.shrink_models().map_values(|m: C::Model| (self.0.model(), self.1.model(), m, self.3.model()));
        let mut j: usize = 0;
        while j < smaller.len()
            invariant
                Self::obeys_arbitrary(),
                smaller@.len() == options.len(),
                options == self.2.shrink_models(),
                block == self.2.shrink_models().map_values(|m: C::Model| (self.0.model(), self.1.model(), m, self.3.model())),
                forall|k: int| 0 <= k < smaller@.len() ==> #[trigger] smaller@[k].model() == options[k],
                j <= smaller@.len(),
                candidates@.map_values(|c: (A, B, C, D)| c.model()) == done + block.take(j as int),
            decreases smaller@.len() - j,
        {
            let replacement = smaller[j].duplicate();
            let ghost prev = candidates@.map_values(|c: (A, B, C, D)| c.model());
            candidates.push((self.0.duplicate(), self.1.duplicate(), replacement, self.3.duplicate()));
            assert(candidates@.map_values(|c: (A, B, C, D)| c.model()) =~= prev.push(block[j as int]));
            assert(block.take(j + 1) =~= block.take(j as int).push(block[j as int]));
            j = j + 1;
        }
        assert(block.take(j as int) =~= block);
        proof {
            done = done + block;
        }
        let smaller = self.3.shrink();
        let ghost options = self.3.shrink_models();
        let ghost block = self.3.shrink_models().map_values(|m: D::Model| (self.0.model(), self.1.model(), self.2.model(), m));
        let mut j: usize = 0;
        while j < smaller.len()
            invariant
                Self::obeys_arbitrary(),
                smaller@.len() == options.len(),
                options == self.3.shrink_models(),
                block == self.3.shrink_models().map_values(|m: D::Model| (self.0.model(), self.1.model(), self.2.model(), m)),
                forall|k: int| 0 <= k < smaller@.len() ==> #[trigger] smaller@[k].model() == options[k],
                j <= smaller@.len(),
                candidates@.map_values(|c: (A, B, C, D)| c.model()) == done + block.take(j as int),
            decreases smaller@.len() - j,
        {
            let replacement = smaller[j].duplicate();
            let ghost prev = candidates@.map_values(|c: (A, B, C, D)| c.model());
            candidates.push((self.0.duplicate(), self.1.duplicate(), self.2.duplicate(), replacement));
            assert(candidates@.map_values(|c: (A, B, C, D)| c.model()) =~= prev.push(block[j as int]));
            assert(block.take(j + 1) =~= block.take(j as int).push(block[j as int]));
            j = j + 1;
        }
        assert(block.take(j as int) =~= block);
        proof {
            done = done + block;
        }
        assert(done =~= self.shrink_models());
        candidates
    }
}

/// Tuples of 5 are generated component by component, in order, and
/// shrink component-wise: the candidates that shrink the first component
/// (the others kept), then those that shrink the second, and so on.
impl<A: Arbitrary, B: Arbitrary, C: Arbitrary, D: Arbitrary, E: Arbitrary> Arbitrary for (A, B, C, D, E) {
    type Model = (A::Model, B::Model, C::Model, D::Model, E::Model);

    open spec fn model(&self) -> (A::Model, B::Model, C::Model, D::Model, E::Model) {
        (self.0.model(), self.1.model(), self.2.model(), self.3.model(), self.4.model())
    }

    open spec fn obeys_arbitrary() -> bool {
        A::obeys_arbitrary() && B::obeys_arbitrary() && C::obeys_arbitrary() && D::obeys_arbitrary() && E::obeys_arbitrary()
    }

    open spec fn shrinks_by_model() -> bool {
        A::shrinks_by_model() && B::shrinks_by_model() && C::shrinks_by_model() && D::shrinks_by_model() && E::shrinks_by_model()
    }

    open spec fn within_size(m: (A::Model, B::Model, C::Model, D::Model, E::Model), size: nat) -> bool {
        A::within_size(m.0, size) && B::within_size(m.1, size) && C::within_size(m.2, size) && D::within_size(m.3, size) && E::within_size(m.4, size)
    }

    /// The components are generated one after the other, in order.
    open spec fn generated(size: nat, before: Seq<Sample>, m: (A::Model, B::Model, C::Model, D::Model, E::Model), after: Seq<Sample>) -> bool {
        exists|s1: Seq<Sample>, s2: Seq<Sample>, s3: Seq<Sample>, s4: Seq<Sample>|
            #![trigger B::generated(size, s1, m.1, s2), D::generated(size, s3, m.3, s4)]
            A::generated(size, before, m.0, s1) && B::generated(size, s1, m.1, s2) && C::generated(size, s2, m.2, s3) && D::generated(size, s3, m.3, s4) && E::generated(size, s4, m.4, after)
    }

    open spec fn shrink_models(&self) -> Seq<(A::Model, B::Model, C::Model, D::Model, E::Model)> {
        self.0.shrink_models().map_values(|m: A::Model| (m, self.1.model(), self.2.model(), self.3.model(), self.4.model())) + self.1.shrink_models().map_values(|m: B::Model| (self.0.model(), m, self.2.model(), self.3.model(), self.4.model())) + self.2.shrink_models().map_values(|m: C::Model| (self.0.model(), self.1.model(), m, self.3.model(), self.4.model())) + self.3.shrink_models().map_values(|m: D::Model| (self.0.model(), self.1.model(), self.2.model(), m, self.4.model())) + self.4.shrink_models().map_values(|m: E::Model| (self.0.model(), self.1.model(), self.2.model(), self.3.model(), m))
    }

    proof fn lemma_shrinks_differ(&self) {
        if Self::shrinks_by_model() {
            self.0.lemma_shrinks_differ();
            let b0 = self.0.shrink_models().map_values(|m: A::Model| (m, self.1.model(), self.2.model(), self.3.model(), self.4.model()));
            assert forall|k: int| 0 <= k < b0.len() implies #[trigger] b0[k] != self.model() by {
                assert(b0[k].0 == self.0.shrink_models()[k]);
            }
            self.1.lemma_shrinks_differ();
            let b1 = self.1.shrink_models().map_values(|m: B::Model| (self.0.model(), m, self.2.model(), self.3.model(), self.4.model()));
            assert forall|k: int| 0 <= k < b1.len() implies #[trigger] b1[k] != self.model() by {
                assert(b1[k].1 == self.1.shrink_models()[k]);
            }
            self.2.lemma_shrinks_differ();
            let b2 = self.2.shrink_models().map_values(|m: C::Model| (self.0.model(), self.1.model(), m, self.3.model(), self.4.model()));
            assert forall|k: int| 0 <= k < b2.len() implies #[trigger] b2[k] != self.model() by {
                assert(b2[k].2 == self.2.shrink_models()[k]);
            }
            self.3.lemma_shrinks_differ();
            let b3 = self.3.shrink_models().map_values(|m: D::Model| (self.0.model(), self.1.model(), self.2.model(), m, self.4.model()));
            assert forall|k: int| 0 <= k < b3.len() implies #[trigger] b3[k] != self.model() by {
                assert(b3[k].3 == self.3.shrink_models()[k]);
            }
            self.4.lemma_shrinks_differ();
            let b4 = self.4.shrink_models().map_values(|m: E::Model| (self.0.model(), self.1.model(), self.2.model(), self.3.model(), m));
            assert forall|k: int| 0 <= k < b4.len() implies #[trigger] b4[k] != self.model() by {
                assert(b4[k].4 == self.4.shrink_models()[k]);
            }
            lemma_concat_differ(b0, b1, self.model());
            lemma_concat_differ(b0 + b1, b2, self.model());
            lemma_concat_differ(b0 + b1 + b2, b3, self.model());
            lemma_concat_differ(b0 + b1 + b2 + b3, b4, self.model());
            assert(self.shrink_models() == b0 + b1 + b2 + b3 + b4);
        }
    }

    proof fn lemma_shrinks_follow_model(x: &(A, B, C, D, E), y: &(A, B, C, D, E)) {
        if Self::shrinks_by_model() {
            A::lemma_shrinks_follow_model(&x.0, &y.0);
            B::lemma_shrinks_follow_model(&x.1, &y.1);
            C::lemma_shrinks_follow_model(&x.2, &y.2);
            D::lemma_shrinks_follow_model(&x.3, &y.3);
            E::lemma_shrinks_follow_model(&x.4, &y.4);
            assert(x.0.shrink_models().map_values(|m: A::Model| (m, x.1.model(), x.2.model(), x.3.model(), x.4.model())) =~= y.0.shrink_models().map_values(|m: A::Model| (m, y.1.model(), y.2.model(), y.3.model(), y.4.model())));
            assert(x.1.shrink_models().map_values(|m: B::Model| (x.0.model(), m, x.2.model(), x.3.model(), x.4.model())) =~= y.1.shrink_models().map_values(|m: B::Model| (y.0.model(), m, y.2.model(), y.3.model(), y.4.model())));
            assert(x.2.shrink_models().map_values(|m: C::Model| (x.0.model(), x.1.model(), m, x.3.model(), x.4.model())) =~= y.2.shrink_models().map_values(|m: C::Model| (y.0.model(), y.1.model(), m, y.3.model(), y.4.model())));
            assert(x.3.shrink_models().map_values(|m: D::Model| (x.0.model(), x.1.model(), x.2.model(), m, x.4.model())) =~= y.3.shrink_models().map_values(|m: D::Model| (y.0.model(), y.1.model(), y.2.model(), m, y.4.model())));
            assert(x.4.shrink_models().map_values(|m: E::Model| (x.0.model(), x.1.model(), x.2.model(), x.3.model(), m)) =~= y.4.shrink_models().map_values(|m: E::Model| (y.0.model(), y.1.model(), y.2.model(), y.3.model(), m)));
        }
    }

    fn duplicate(&self) -> (r: (A, B, C, D, E)) {
        (self.0.duplicate(), self.1.duplicate(), self.2.duplicate(), self.3.duplicate(), self.4.duplicate())
    }

    #[verifier::spinoff_prover]
    fn arbitrary(g: &mut Gen) -> (r: (A, B, C, D, E)) {
        let e0 = A::arbitrary(g);
        let ghost s1 = g.samples();
        let e1 = B::arbitrary(g);
        let ghost s2 = g.samples();
        let e2 = C::arbitrary(g);
        let ghost s3 = g.samples();
        let e3 = D::arbitrary(g);
        let ghost s4 = g.samples();
        let e4 = E::arbitrary(g);
        assert(A::generated(old(g).spec_size() as nat, old(g).samples(), e0.model(), s1) && B::generated(old(g).spec_size() as nat, s1, e1.model(), s2) && C::generated(old(g).spec_size() as nat, s2, e2.model(), s3) && D::generated(old(g).spec_size() as nat, s3, e3.model(), s4) && E::generated(old(g).spec_size() as nat, s4, e4.model(), g.samples()));
        proof {
            lemma_tuple5_generated::<A, B, C, D, E>(old(g).spec_size() as nat, old(g).samples(), s1, s2, s3, s4, g.samples(), e0.model(), e1.model(), e2.model(), e3.model(), e4.model());
        }
        (e0, e1, e2, e3, e4)
    }

    fn shrink(&self) -> (r: Vec<(A, B, C, D, E)>) {
        let mut candidates: Vec<(A, B, C, D, E)> = Vec::new();
        let ghost done: Seq<(A::Model, B::Model, C::Model, D::Model, E::Model)> = seq![];
        assert(candidates@.map_values(|c: (A, B, C, D, E)| c.model()) =~= done);
        let smaller = self.0.shrink();
        let ghost options = self.0.shrink_models();
        let ghost block = self.0.shrink_models().map_values(|m: A::Model| (m, self.1.model(), self.2.model(), self.3.model(), self.4.model()));
        let mut j: usize = 0;
        while j < smaller.len()
            invariant
                Self::obeys_arbitrary(),
                smaller@.len() == options.len(),
                options == self.0.shrink_models(),
                block == self.0.shrink_models().map_values(|m: A::Model| (m, self.1.model(), self.2.model(), self.3.model(), self.4.model())),
                forall|k: int| 0 <= k < smaller@.len() ==> #[trigger] smaller@[k].model() == options[k],
                j <= smaller@.len(),
                candidates@.map_values(|c: (A, B, C, D, E)| c.model()) == done + block.take(j as int),
            decreases smaller@.len() - j,
        {
            let replacement = smaller[j].duplicate();
            let ghost prev = candidates@.map_values(|c: (A, B, C, D, E)| c.model());
            candidates.push((replacement, self.1.duplicate(), self.2.duplicate(), self.3.duplicate(), self.4.duplicate()));
            assert(candidates@.map_values(|c: (A, B, C, D, E)| c.model()) =~= prev.push(block[j as int]));
            assert(block.take(j + 1) =~= block.take(j as int).push(block[j as int]));
            j = j + 1;
        }
        assert(block.take(j as int) =~= block);
        proof {
            done = done + block;
        }
        let smaller = self.1.shrink();
        let ghost options = self.1.shrink_models();
        let ghost block = self.1.shrink_models().map_values(|m: B::Model| (self.0.model(), m, self.2.model(), self.3.model(), self.4.model()));
        let mut j: usize = 0;
        while j < smaller.len()
            invariant
                Self::obeys_arbitrary(),
                smaller@.len() == options.len(),
                options == self.1.shrink_models(),
                block == self.1.shrink_models().map_values(|m: B::Model| (self.0.model(), m, self.2.model(), self.3.model(), self.4.model())),
                forall|k: int| 0 <= k < smaller@.len() ==> #[trigger] smaller@[k].model() == options[k],
                j <= smaller@.len(),
                candidates@.map_values(|c: (A, B, C, D, E)| c.model()) == done + block.take(j as int),
            decreases smaller@.len() - j,
        {
            let replacement = smaller[j].duplicate();
            let ghost prev = candidates@.map_values(|c: (A, B, C, D, E)| c.model());
            candidates.push((self.0.duplicate(), replacement, self.2.duplicate(), self.3.duplicate(), self.4.duplicate()));
            assert(candidates@.map_values(|c: (A, B, C, D, E)| c.model()) =~= prev.push(block[j as int]));
            assert(block.take(j + 1) =~= block.take(j as int).push(block[j as int]));
            j = j + 1;
        }
        assert(block.take(j as int) =~= block);
        proof {
            done = done + block;
        }
        let smaller = self.2.shrink();
        let ghost options = self.2.shrink_models();
        let ghost block = self.2.shrink_models().map_values(|m: C::Model| (self.0.model(), self.1.model(), m, self.3.model(), self.4.model()));
        let mut j: usize = 0;
        while j < smaller.len()
            invariant
                Self::obeys_arbitrary(),
                smaller@.len() == options.len(),
                options == self.2.shrink_models(),
                block == self.2.shrink_models().map_values(|m: C::Model| (self.0.model(), self.1.model(), m, self.3.model(), self.4.model())),
                forall|k: int| 0 <= k < smaller@.len() ==> #[trigger] smaller@[k].model() == options[k],
                j <= smaller@.len(),
                candidates@.map_values(|c: (A, B, C, D, E)| c.model()) == done + block.take(j as int),
            decreases smaller@.len() - j,
        {
            let replacement = smaller[j].duplicate();
            let ghost prev = candidates@.map_values(|c: (A, B, C, D, E)| c.model());
            candidates.push((self.0.duplicate(), self.1.duplicate(), replacement, self.3.duplicate(), self.4.duplicate()));
            assert(candidates@.map_values(|c: (A, B, C, D, E)| c.model()) =~= prev.push(block[j as int]));
            assert(block.take(j + 1) =~= block.take(j as int).push(block[j as int]));
            j = j + 1;
        }
        assert(block.take(j as int) =~= block);
        proof {
            done = done + block;
        }
        let smaller = self.3.shrink();
        let ghost options = self.3.shrink_models();
        let ghost block = self.3.shrink_models().map_values(|m: D::Model| (self.0.model(), self.1.model(), self.2.model(), m, self.4.model()));
        let mut j: usize = 0;
        while j < smaller.len()
            invariant
                Self::obeys_arbitrary(),
                smaller@.len() == options.len(),
                options == self.3.shrink_models(),
                block == self.3.shrink_models().map_values(|m: D::Model| (self.0.model(), self.1.model(), self.2.model(), m, self.4.model())),
                forall|k: int| 0 <= k < smaller@.len() ==> #[trigger] smaller@[k].model() == options[k],
                j <= smaller@.len(),
                candidates@.map_values(|c: (A, B, C, D, E)| c.model()) == done + block.take(j as int),
            decreases smaller@.len() - j,
        {
            let replacement = smaller[j].duplicate();
            let ghost prev = candidates@.map_values(|c: (A, B, C, D, E)| c.model());
            candidates.push((self.0.duplicate(), self.1.duplicate(), self.2.duplicate(), replacement, self.4.duplicate()));
            assert(candidates@.map_values(|c: (A, B, C, D, E)| c.model()) =~= prev.push(block[j as int]));
            assert(block.take(j + 1) =~= block.take(j as int).push(block[j as int]));
            j = j + 1;
        }
        assert(block.take(j as int) =~= block);
        proof {
            done = done + block;
        }
        let smaller = self.4.shrink();
        let ghost options = self.4.shrink_models();
        let ghost block = self.4.shrink_models().map_values(|m: E::Model| (self.0.model(), self.1.model(), self.2.model(), self.3.model(), m));
        let mut j: usize = 0;
        while j < smaller.len()
            invariant
                Self::obeys_arbitrary(),
                smaller@.len() == options.len(),
                options == self.4.shrink_models(),
                block == self.4.shrink_models().map_values(|m: E::Model| (self.0.model(), self.1.model(), self.2.model(), self.3.model(), m)),
                forall|k: int| 0 <= k < smaller@.len() ==> #[trigger] smaller@[k].model() == options[k],
                j <= smaller@.len(),
                candidates@.map_values(|c: (A, B, C, D, E)| c.model()) == done + block.take(j as int),
            decreases smaller@.len() - j,
        {
            let replacement = smaller[j].duplicate();
            let ghost prev = candidates@.map_values(|c: (A, B, C, D, E)| c.model());
            candidates.push((self.0.duplicate(), self.1.duplicate(), self.2.duplicate(), self.3.duplicate(), replacement));
            assert(candidates@.map_values(|c: (A, B, C, D, E)| c.model()) =~= prev.push(block[j as int]));
            assert(block.take(j + 1) =~= block.take(j as int).push(block[j as int]));
            j = j + 1;
        }
        assert(block.take(j as int) =~= block);
        proof {
            done = done + block;
        }
        assert(done =~= self.shrink_models());
        candidates
    }
}

/// Tuples of 6 are generated component by component, in order, and
/// shrink component-wise: the candidates that shrink the first component
/// (the others kept), then those that shrink the second, and so on.
impl<A: Arbitrary, B: Arbitrary, C: Arbitrary, D: Arbitrary, E: Arbitrary, F: Arbitrary> Arbitrary for (A, B, C, D, E, F) {
    type Model = (A::Model, B::Model, C::Model, D::Model, E::Model, F::Model);

    open spec fn model(&self) -> (A::Model, B::Model, C::Model, D::Model, E::Model, F::Model) {
        (self.0.model(), self.1.model(), self.2.model(), self.3.model(), self.4.model(), self.5.model())
    }

    open spec fn obeys_arbitrary() -> bool {
        A::obeys_arbitrary() && B::obeys_arbitrary() && C::obeys_arbitrary() && D::obeys_arbitrary() && E::obeys_arbitrary() && F::obeys_arbitrary()
    }

    open spec fn shrinks_by_model() -> bool {
        A::shrinks_by_model() && B::shrinks_by_model() && C::shrinks_by_model() && D::shrinks_by_model() && E::shrinks_by_model() && F::shrinks_by_model()
    }

    open spec fn within_size(m: (A::Model, B::Model, C::Model, D::Model, E::Model, F::Model), size: nat) -> bool {
        A::within_size(m.0, size) && B::within_size(m.1, size) && C::within_size(m.2, size) && D::within_size(m.3, size) && E::within_size(m.4, size) && F::within_size(m.5, size)
    }

    /// The components are generated one after the other, in order.
    open spec fn generated(size: nat, before: Seq<Sample>, m: (A::Model, B::Model, C::Model, D::Model, E::Model, F::Model), after: Seq<Sample>) -> bool {
        exists|s1: Seq<Sample>, s2: Seq<Sample>, s3: Seq<Sample>, s4: Seq<Sample>, s5: Seq<Sample>|
            #![trigger B::generated(size, s1, m.1, s2), D::generated(size, s3, m.3, s4), F::generated(size, s5, m.5, after)]
            A::generated(size, before, m.0, s1) && B::generated(size, s1, m.1, s2) && C::generated(size, s2, m.2, s3) && D::generated(size, s3, m.3, s4) && E::generated(size, s4, m.4, s5) && F::generated(size, s5, m.5, after)
    }

    open spec fn shrink_models(&self) -> Seq<(A::Model, B::Model, C::Model, D::Model, E::Model, F::Model)> {
        self.0.shrink_models().map_values(|m: A::Model| (m, self.1.model(), self.2.model(), self.3.model(), self.4.model(), self.5.model())) + self.1.shrink_models().map_values(|m: B::Model| (self.0.model(), m, self.2.model(), self.3.model(), self.4.model(), self.5.model())) + self.2.shrink_models().map_values(|m: C::Model| (self.0.model(), self.1.model(), m, self.3.model(), self.4.model(), self.5.model())) + self.3.shrink_models().map_values(|m: D::Model| (self.0.model(), self.1.model(), self.2.model(), m, self.4.model(), self.5.model())) + self.4.shrink_models().map_values(|m: E::Model| (self.0.model(), self.1.model(), self.2.model(), self.3.model(), m, self.5.model())) + self.5.shrink_models().map_values(|m: F::Model| (self.0.model(), self.1.model(), self.2.model(), self.3.model(), self.4.model(), m))
    }

    proof fn lemma_shrinks_differ(&self) {
        if Self::shrinks_by_model() {
            self.0.lemma_shrinks_differ();
            let b0 = self.0.shrink_models().map_values(|m: A::Model| (m, self.1.model(), self.2.model(), self.3.model(), self.4.model(), self.5.model()));
            assert forall|k: int| 0 <= k < b0.len() implies #[trigger] b0[k] != self.model() by {
                assert(b0[k].0 == self.0.shrink_models()[k]);
            }
            self.1.lemma_shrinks_differ();
            let b1 = self.1.shrink_models().map_values(|m: B::Model| (self.0.model(), m, self.2.model(), self.3.model(), self.4.model(), self.5.model()));
            assert forall|k: int| 0 <= k < b1.len() implies #[trigger] b1[k] != self.model() by {
                assert(b1[k].1 == self.1.shrink_models()[k]);
            }
            self.2.lemma_shrinks_differ();
            let b2 = self.2.shrink_models().map_values(|m: C::Model| (self.0.model(), self.1.model(), m, self.3.model(), self.4.model(), self.5.model()));
            assert forall|k: int| 0 <= k < b2.len() implies #[trigger] b2[k] != self.model() by {
                assert(b2[k].2 == self.2.shrink_models()[k]);
            }
            self.3.lemma_shrinks_differ();
            let b3 = self.3.shrink_models().map_values(|m: D::Model| (self.0.model(), self.1.model(), self.2.model(), m, self.4.model(), self.5.model()));
            assert forall|k: int| 0 <= k < b3.len() implies #[trigger] b3[k] != self.model() by {
                assert(b3[k].3 == self.3.shrink_models()[k]);
            }
            self.4.lemma_shrinks_differ();
            let b4 = self.4.shrink_models().map_values(|m: E::Model| (self.0.model(), self.1.model(), self.2.model(), self.3.model(), m, self.5.model()));
            assert forall|k: int| 0 <= k < b4.len() implies #[trigger] b4[k] != self.model() by {
                assert(b4[k].4 == self.4.shrink_models()[k]);
            }
            self.5.lemma_shrinks_differ();
            let b5 = self.5.shrink_models().map_values(|m: F::Model| (self.0.model(), self.1.model(), self.2.model(), self.3.model(), self.4.model(), m));
            assert forall|k: int| 0 <= k < b5.len() implies #[trigger] b5[k] != self.model() by {
                assert(b5[k].5 == self.5.shrink_models()[k]);
            }
            lemma_concat_differ(b0, b1, self.model());
            lemma_concat_differ(b0 + b1, b2, self.model());
            lemma_concat_differ(b0 + b1 + b2, b3, self.model());
            lemma_concat_differ(b0 + b1 + b2 + b3, b4, self.model());
            lemma_concat_differ(b0 + b1 + b2 + b3 + b4, b5, self.model());
            assert(self.shrink_models() == b0 + b1 + b2 + b3 + b4 + b5);
        }
    }

    proof fn lemma_shrinks_follow_model(x: &(A, B, C, D, E, F), y: &(A, B, C, D, E, F)) {
        if Self::shrinks_by_model() {
            A::lemma_shrinks_follow_model(&x.0, &y.0);
            B::lemma_shrinks_follow_model(&x.1, &y.1);
            C::lemma_shrinks_follow_model(&x.2, &y.2);
            D::lemma_shrinks_follow_model(&x.3, &y.3);
            E::lemma_shrinks_follow_model(&x.4, &y.4);
            F::lemma_shrinks_follow_model(&x.5, &y.5);
            assert(x.0.shrink_models().map_values(|m: A::Model| (m, x.1.model(), x.2.model(), x.3.model(), x.4.model(), x.5.model())) =~= y.0.shrink_models().map_values(|m: A::Model| (m, y.1.model(), y.2.model(), y.3.model(), y.4.model(), y.5.model())));
            assert(x.1.shrink_models().map_values(|m: B::Model| (x.0.model(), m, x.2.model(), x.3.model(), x.4.model(), x.5.model())) =~= y.1.shrink_models().map_values(|m: B::Model| (y.0.model(), m, y.2.model(), y.3.model(), y.4.model(), y.5.model())));
            assert(x.2.shrink_models().map_values(|m: C::Model| (x.0.model(), x.1.model(), m, x.3.model(), x.4.model(), x.5.model())) =~= y.2.shrink_models().map_values(|m: C::Model| (y.0.model(), y.1.model(), m, y.3.model(), y.4.model(), y.5.model())));
            assert(x.3.shrink_models().map_values(|m: D::Model| (x.0.model(), x.1.model(), x.2.model(), m, x.4.model(), x.5.model())) =~= y.3.shrink_models().map_values(|m: D::Model| (y.0.model(), y.1.model(), y.2.model(), m, y.4.model(), y.5.model())));
            assert(x.4.shrink_models().map_values(|m: E::Model| (x.0.model(), x.1.model(), x.2.model(), x.3.model(), m, x.5.model())) =~= y.4.shrink_models().map_values(|m: E::Model| (y.0.model(), y.1.model(), y.2.model(), y.3.model(), m, y.5.model())));
            assert(x.5.shrink_models().map_values(|m: F::Model| (x.0.model(), x.1.model(), x.2.model(), x.3.model(), x.4.model(), m)) =~= y.5.shrink_models().map_values(|m: F::Model| (y.0.model(), y.1.model(), y.2.model(), y.3.model(), y.4.model(), m)));
        }
    }

    fn duplicate(&self) -> (r: (A, B, C, D, E, F)) {
        (self.0.duplicate(), self.1.duplicate(), self.2.duplicate(), self.3.duplicate(), self.4.duplicate(), self.5.duplicate())
    }

    #[verifier::spinoff_prover]
    fn arbitrary(g: &mut Gen) -> (r: (A, B, C, D, E, F)) {
        let e0 = A::arbitrary(g);
        let ghost s1 = g.samples();
        let e1 = B::arbitrary(g);
        let ghost s2 = g.samples();
        let e2 = C::arbitrary(g);
        let ghost s3 = g.samples();
        let e3 = D::arbitrary(g);
        let ghost s4 = g.samples();
        let e4 = E::arbitrary(g);
        let ghost s5 = g.samples();
        let e5 = F::arbitrary(g);
        assert(A::generated(old(g).spec_size() as nat, old(g).samples(), e0.model(), s1) && B::generated(old(g).spec_size() as nat, s1, e1.model(), s2) && C::generated(old(g).spec_size() as nat, s2, e2.model(), s3) && D::generated(old(g).spec_size() as nat, s3, e3.model(), s4) && E::generated(old(g).spec_size() as nat, s4, e4.model(), s5) && F::generated(old(g).spec_size() as nat, s5, e5.model(), g.samples()));
        proof {
            lemma_tuple6_generated::<A, B, C, D, E, F>(old(g).spec_size() as nat, old(g).samples(), s1, s2, s3, s4, s5, g.samples(), e0.model(), e1.model(), e2.model(), e3.model(), e4.model(), e5.model());
        }
        (e0, e1, e2, e3, e4, e5)
    }

    fn shrink(&self) -> (r: Vec<(A, B, C, D, E, F)>) {
        let mut candidates: Vec<(A, B, C, D, E, F)> = Vec::new();
        let ghost done: Seq<(A::Model, B::Model, C::Model, D::Model, E::Model, F::Model)> = seq![];
        assert(candidates@.map_values(|c: (A, B, C, D, E, F)| c.model()) =~= done);
        let smaller = self.0.shrink();
        let ghost options = self.0.shrink_models();
        let ghost block = self.0.shrink_models().map_values(|m: A::Model| (m, self.1.model(), self.2.model(), self.3.model(), self.4.model(), self.5.model()));
        let mut j: usize = 0;
        while j < smaller.len()
            invariant
                Self::obeys_arbitrary(),
                smaller@.len() == options.len(),
                options == self.0.shrink_models(),
                block == self.0.shrink_models().map_values(|m: A::Model| (m, self.1.model(), self.2.model(), self.3.model(), self.4.model(), self.5.model())),
                forall|k: int| 0 <= k < smaller@.len() ==> #[trigger] smaller@[k].model() == options[k],
                j <= smaller@.len(),
                candidates@.map_values(|c: (A, B, C, D, E, F)| c.model()) == done + block.take(j as int),
            decreases smaller@.len() - j,
        {
            let replacement = smaller[j].duplicate();
            let ghost prev = candidates@.map_values(|c: (A, B, C, D, E, F)| c.model());
            candidates.push((replacement, self.1.duplicate(), self.2.duplicate(), self.3.duplicate(), self.4.duplicate(), self.5.duplicate()));
            assert(candidates@.map_values(|c: (A, B, C, D, E, F)| c.model()) =~= prev.push(block[j as int]));
            assert(block.take(j + 1) =~= block.take(j as int).push(block[j as int]));
            j = j + 1;
        }
        assert(block.take(j as int) =~= block);
        proof {
            done = done + block;
        }
        let smaller = self.1.shrink();
        let ghost options = self.1.shrink_models();
        let ghost block = self.1.shrink_models().map_values(|m: B::Model| (self.0.model(), m, self.2.model(), self.3.model(), self.4.model(), self.5.model()));
        let mut j: usize = 0;
        while j < smaller.len()
            invariant
                Self::obeys_arbitrary(),
                smaller@.len() == options.len(),
                options == self.1.shrink_models(),
                block == self.1.shrink_models().map_values(|m: B::Model| (self.0.model(), m, self.2.model(), self.3.model(), self.4.model(), self.5.model())),
                forall|k: int| 0 <= k < smaller@.len() ==> #[trigger] smaller@[k].model() == options[k],
                j <= smaller@.len(),
                candidates@.map_values(|c: (A, B, C, D, E, F)| c.model()) == done + block.take(j as int),
            decreases smaller@.len() - j,
        {
            let replacement = smaller[j].duplicate();
            let ghost prev = candidates@.map_values(|c: (A, B, C, D, E, F)| c.model());
            candidates.push((self.0.duplicate(), replacement, self.2.duplicate(), self.3.duplicate(), self.4.duplicate(), self.5.duplicate()));
            assert(candidates@.map_values(|c: (A, B, C, D, E, F)| c.model()) =~= prev.push(block[j as int]));
            assert(block.take(j + 1) =~= block.take(j as int).push(block[j as int]));
            j = j + 1;
        }
        assert(block.take(j as int) =~= block);
        proof {
            done = done + block;
        }
        let smaller = self.2.shrink();
        let ghost options = self.2.shrink_models();
        let ghost block = self.2.shrink_models().map_values(|m: C::Model| (self.0.model(), self.1.model(), m, self.3.model(), self.4.model(), self.5.model()));
        let mut j: usize = 0;
        while j < smaller.len()
            invariant
                Self::obeys_arbitrary(),
                smaller@.len() == options.len(),
                options == self.2.shrink_models(),
                block == self.2.shrink_models().map_values(|m: C::Model| (self.0.model(), self.1.model(), m, self.3.model(), self.4.model(), self.5.model())),
                forall|k: int| 0 <= k < smaller@.len() ==> #[trigger] smaller@[k].model() == options[k],
                j <= smaller@.len(),
                candidates@.map_values(|c: (A, B, C, D, E, F)| c.model()) == done + block.take(j as int),
            decreases smaller@.len() - j,
        {
            let replacement = smaller[j].duplicate();
            let ghost prev = candidates@.map_values(|c: (A, B, C, D, E, F)| c.model());
            candidates.push((self.0.duplicate(), self.1.duplicate(), replacement, self.3.duplicate(), self.4.duplicate(), self.5.duplicate()));
            assert(candidates@.map_values(|c: (A, B, C, D, E, F)| c.model()) =~= prev.push(block[j as int]));
            assert(block.take(j + 1) =~= block.take(j as int).push(block[j as int]));
            j = j + 1;
        }
        assert(block.take(j as int) =~= block);
        proof {
            done = done + block;
        }
        let smaller = self.3.shrink();
        let ghost options = self.3.shrink_models();
        let ghost block = self.3.shrink_models().map_values(|m: D::Model| (self.0.model(), self.1.model(), self.2.model(), m, self.4.model(), self.5.model()));
        let mut j: usize = 0;
        while j < smaller.len()
            invariant
                Self::obeys_arbitrary(),
                smaller@.len() == options.len(),
                options == self.3.shrink_models(),
                block == self.3.shrink_models().map_values(|m: D::Model| (self.0.model(), self.1.model(), self.2.model(), m, self.4.model(), self.5.model())),
                forall|k: int| 0 <= k < smaller@.len() ==> #[trigger] smaller@[k].model() == options[k],
                j <= smaller@.len(),
                candidates@.map_values(|c: (A, B, C, D, E, F)| c.model()) == done + block.take(j as int),
            decreases smaller@.len() - j,
        {
            let replacement = smaller[j].duplicate();
            let ghost prev = candidates@.map_values(|c: (A, B, C, D, E, F)| c.model());
            candidates.push((self.0.duplicate(), self.1.duplicate(), self.2.duplicate(), replacement, self.4.duplicate(), self.5.duplicate()));
            assert(candidates@.map_values(|c: (A, B, C, D, E, F)| c.model()) =~= prev.push(block[j as int]));
            assert(block.take(j + 1) =~= block.take(j as int).push(block[j as int]));
            j = j + 1;
        }
        assert(block.take(j as int) =~= block);
        proof {
            done = done + block;
        }
        let smaller = self.4.shrink();
        let ghost options = self.4.shrink_models();
        let ghost block = self.4.shrink_models().map_values(|m: E::Model| (self.0.model(), self.1.model(), self.2.model(), self.3.model(), m, self.5.model()));
        let mut j: usize = 0;
        while j < smaller.len()
            invariant
                Self::obeys_arbitrary(),
                smaller@.len() == options.len(),
                options == self.4.shrink_models(),
                block == self.4.shrink_models().map_values(|m: E::Model| (self.0.model(), self.1.model(), self.2.model(), self.3.model(), m, self.5.model())),
                forall|k: int| 0 <= k < smaller@.len() ==> #[trigger] smaller@[k].model() == options[k],
                j <= smaller@.len(),
                candidates@.map_values(|c: (A, B, C, D, E, F)| c.model()) == done + block.take(j as int),
            decreases smaller@.len() - j,
        {
            let replacement = smaller[j].duplicate();
            let ghost prev = candidates@.map_values(|c: (A, B, C, D, E, F)| c.model());
            candidates.push((self.0.duplicate(), self.1.duplicate(), self.2.duplicate(), self.3.duplicate(), replacement, self.5.duplicate()));
            assert(candidates@.map_values(|c: (A, B, C, D, E, F)| c.model()) =~= prev.push(block[j as int]));
            assert(block.take(j + 1) =~= block.take(j as int).push(block[j as int]));
            j = j + 1;
        }
        assert(block.take(j as int) =~= block);
        proof {
            done = done + block;
        }
        let smaller = self.5.shrink();
        let ghost options = self.5.shrink_models();
        let ghost block = self.5.shrink_models().map_values(|m: F::Model| (self.0.model(), self.1.model(), self.2.model(), self.3.model(), self.4.model(), m));
        let mut j: usize = 0;
        while j < smaller.len()
            invariant
                Self::obeys_arbitrary(),
                smaller@.len() == options.len(),
                options == self.5.shrink_models(),
                block == self.5.shrink_models().map_values(|m: F::Model| (self.0.model(), self.1.model(), self.2.model(), self.3.model(), self.4.model(), m)),
                forall|k: int| 0 <= k < smaller@.len() ==> #[trigger] smaller@[k].model() == options[k],
                j <= smaller@.len(),
                candidates@.map_values(|c: (A, B, C, D, E, F)| c.model()) == done + block.take(j as int),
            decreases smaller@.len() - j,
        {
            let replacement = smaller[j].duplicate();
            let ghost prev = candidates@.map_values(|c: (A, B, C, D, E, F)| c.model());
            candidates.push((self.0.duplicate(), self.1.duplicate(), self.2.duplicate(), self.3.duplicate(), self.4.duplicate(), replacement));
            assert(candidates@.map_values(|c: (A, B, C, D, E, F)| c.model()) =~= prev.push(block[j as int]));
            assert(block.take(j + 1) =~= block.take(j as int).push(block[j as int]));
            j = j + 1;
        }
        assert(block.take(j as int) =~= block);
        proof {
            done = done + block;
        }
        assert(done =~= self.shrink_models());
        candidates
    }
}

/// Tuples of 7 are generated component by component, in order, and
/// shrink component-wise: the candidates that shrink the first component
/// (the others kept), then those that shrink the second, and so on.
impl<A: Arbitrary, B: Arbitrary, C: Arbitrary, D: Arbitrary, E: Arbitrary, F: Arbitrary, G: Arbitrary> Arbitrary for (A, B, C, D, E, F, G) {
    type Model = (A::Model, B::Model, C::Model, D::Model, E::Model, F::Model, G::Model);

    open spec fn model(&self) -> (A::Model, B::Model, C::Model, D::Model, E::Model, F::Model, G::Model) {
        (self.0.model(), self.1.model(), self.2.model(), self.3.model(), self.4.model(), self.5.model(), self.6.model())
    }

    open spec fn obeys_arbitrary() -> bool {
        A::obeys_arbitrary() && B::obeys_arbitrary() && C::obeys_arbitrary() && D::obeys_arbitrary() && E::obeys_arbitrary() && F::obeys_arbitrary() && G::obeys_arbitrary()
    }

    open spec fn shrinks_by_model() -> bool {
        A::shrinks_by_model() && B::shrinks_by_model() && C::shrinks_by_model() && D::shrinks_by_model() && E::shrinks_by_model() && F::shrinks_by_model() && G::shrinks_by_model()
    }

    open spec fn within_size(m: (A::Model, B::Model, C::Model, D::Model, E::Model, F::Model, G::Model), size: nat) -> bool {
        A::within_size(m.0, size) && B::within_size(m.1, size) && C::within_size(m.2, size) && D::within_size(m.3, size) && E::within_size(m.4, size) && F::within_size(m.5, size) && G::within_size(m.6, size)
    }

    /// The components are generated one after the other, in order.
    open spec fn generated(size: nat, before: Seq<Sample>, m: (A::Model, B::Model, C::Model, D::Model, E::Model, F::Model, G::Model), after: Seq<Sample>) -> bool {
        exists|s1: Seq<Sample>, s2: Seq<Sample>, s3: Seq<Sample>, s4: Seq<Sample>, s5: Seq<Sample>, s6: Seq<Sample>|
            #![trigger B::generated(size, s1, m.1, s2), D::generated(size, s3, m.3, s4), F::generated(size, s5, m.5, s6)]
            A::generated(size, before, m.0, s1) && B::generated(size, s1, m.1, s2) && C::generated(size, s2, m.2, s3) && D::generated(size, s3, m.3, s4) && E::generated(size, s4, m.4, s5) && F::generated(size, s5, m.5, s6) && G::generated(size, s6, m.6, after)
    }

    open spec fn shrink_models(&self) -> Seq<(A::Model, B::Model, C::Model, D::Model, E::Model, F::Model, G::Model)> {
        self.0.shrink_models().map_values(|m: A::Model| (m, self.1.model(), self.2.model(), self.3.model(), self.4.model(), self.5.model(), self.6.model())) + self.1.shrink_models().map_values(|m: B::Model| (self.0.model(), m, self.2.model(), self.3.model(), self.4.model(), self.5.model(), self.6.model())) + self.2.shrink_models().map_values(|m: C::Model| (self.0.model(), self.1.model(), m, self.3.model(), self.4.model(), self.5.model(), self.6.model())) + self.3.shrink_models().map_values(|m: D::Model| (self.0.model(), self.1.model(), self.2.model(), m, self.4.model(), self.5.model(), self.6.model())) + self.4.shrink_models().map_values(|m: E::Model| (self.0.model(), self.1.model(), self.2.model(), self.3.model(), m, self.5.model(), self.6.model())) + self.5.shrink_models().map_values(|m: F::Model| (self.0.model(), self.1.model(), self.2.model(), self.3.model(), self.4.model(), m, self.6.model())) + self.6.shrink_models().map_values(|m: G::Model| (self.0.model(), self.1.model(), self.2.model(), self.3.model(), self.4.model(), self.5.model(), m))
    }

    proof fn lemma_shrinks_differ(&self) {
        if Self::shrinks_by_model() {
            self.0.lemma_shrinks_differ();
            let b0 = self.0.shrink_models().map_values(|m: A::Model| (m, self.1.model(), self.2.model(), self.3.model(), self.4.model(), self.5.model(), self.6.model()));
            assert forall|k: int| 0 <= k < b0.len() implies #[trigger] b0[k] != self.model() by {
                assert(b0[k].0 == self.0.shrink_models()[k]);
            }
            self.1.lemma_shrinks_differ();
            let b1 = self.1.shrink_models().map_values(|m: B::Model| (self.0.model(), m, self.2.model(), self.3.model(), self.4.model(), self.5.model(), self.6.model()));
            assert forall|k: int| 0 <= k < b1.len() implies #[trigger] b1[k] != self.model() by {
                assert(b1[k].1 == self.1.shrink_models()[k]);
            }
            self.2.lemma_shrinks_differ();
            let b2 = self.2.shrink_models().map_values(|m: C::Model| (self.0.model(), self.1.model(), m, self.3.model(), self.4.model(), self.5.model(), self.6.model()));
            assert forall|k: int| 0 <= k < b2.len() implies #[trigger] b2[k] != self.model() by {
                assert(b2[k].2 == self.2.shrink_models()[k]);
            }
            self.3.lemma_shrinks_differ();
            let b3 = self.3.shrink_models().map_values(|m: D::Model| (self.0.model(), self.1.model(), self.2.model(), m, self.4.model(), self.5.model(), self.6.model()));
            assert forall|k: int| 0 <= k < b3.len() implies #[trigger] b3[k] != self.model() by {
                assert(b3[k].3 == self.3.shrink_models()[k]);
            }
            self.4.lemma_shrinks_differ();
            let b4 = self.4.shrink_models().map_values(|m: E::Model| (self.0.model(), self.1.model(), self.2.model(), self.3.model(), m, self.5.model(), self.6.model()));
            assert forall|k: int| 0 <= k < b4.len() implies #[trigger] b4[k] != self.model() by {
                assert(b4[k].4 == self.4.shrink_models()[k]);
            }
            self.5.lemma_shrinks_differ();
            let b5 = self.5.shrink_models().map_values(|m: F::Model| (self.0.model(), self.1.model(), self.2.model(), self.3.model(), self.4.model(), m, self.6.model()));
            assert forall|k: int| 0 <= k < b5.len() implies #[trigger] b5[k] != self.model() by {
                assert(b5[k].5 == self.5.shrink_models()[k]);
            }
            self.6.lemma_shrinks_differ();
            let b6 = self.6.shrink_models().map_values(|m: G::Model| (self.0.model(), self.1.model(), self.2.model(), self.3.model(), self.4.model(), self.5.model(), m));
            assert forall|k: int| 0 <= k < b6.len() implies #[trigger] b6[k] != self.model() by {
                assert(b6[k].6 == self.6.shrink_models()[k]);
            }
            lemma_concat_differ(b0, b1, self.model());
            lemma_concat_differ(b0 + b1, b2, self.model());
            lemma_concat_differ(b0 + b1 + b2, b3, self.model());
            lemma_concat_differ(b0 + b1 + b2 + b3, b4, self.model());
            lemma_concat_differ(b0 + b1 + b2 + b3 + b4, b5, self.model());
            lemma_concat_differ(b0 + b1 + b2 + b3 + b4 + b5, b6, self.model());
            assert(self.shrink_models() == b0 + b1 + b2 + b3 + b4 + b5 + b6);
        }
    }

    proof fn lemma_shrinks_follow_model(x: &(A, B, C, D, E, F, G), y: &(A, B, C, D, E, F, G)) {
        if Self::shrinks_by_model() {
            A::lemma_shrinks_follow_model(&x.0, &y.0);
            B::lemma_shrinks_follow_model(&x.1, &y.1);
            C::lemma_shrinks_follow_model(&x.2, &y.2);
            D::lemma_shrinks_follow_model(&x.3, &y.3);
            E::lemma_shrinks_follow_model(&x.4, &y.4);
            F::lemma_shrinks_follow_model(&x.5, &y.5);
            G::lemma_shrinks_follow_model(&x.6, &y.6);
            assert(x.0.shrink_models().map_values(|m: A::Model| (m, x.1.model(), x.2.model(), x.3.model(), x.4.model(), x.5.model(), x.6.model())) =~= y.0.shrink_models().map_values(|m: A::Model| (m, y.1.model(), y.2.model(), y.3.model(), y.4.model(), y.5.model(), y.6.model())));
            assert(x.1.shrink_models().map_values(|m: B::Model| (x.0.model(), m, x.2.model(), x.3.model(), x.4.model(), x.5.model(), x.6.model())) =~= y.1.shrink_models().map_values(|m: B::Model| (y.0.model(), m, y.2.model(), y.3.model(), y.4.model(), y.5.model(), y.6.model())));
            assert(x.2.shrink_models().map_values(|m: C::Model| (x.0.model(), x.1.model(), m, x.3.model(), x.4.model(), x.5.model(), x.6.model())) =~= y.2.shrink_models().map_values(|m: C::Model| (y.0.model(), y.1.model(), m, y.3.model(), y.4.model(), y.5.model(), y.6.model())));
            assert(x.3.shrink_models().map_values(|m: D::Model| (x.0.model(), x.1.model(), x.2.model(), m, x.4.model(), x.5.model(), x.6.model())) =~= y.3.shrink_models().map_values(|m: D::Model| (y.0.model(), y.1.model(), y.2.model(), m, y.4.model(), y.5.model(), y.6.model())));
            assert(x.4.shrink_models().map_values(|m: E::Model| (x.0.model(), x.1.model(), x.2.model(), x.3.model(), m, x.5.model(), x.6.model())) =~= y.4.shrink_models().map_values(|m: E::Model| (y.0.model(), y.1.model(), y.2.model(), y.3.model(), m, y.5.model(), y.6.model())));
            assert(x.5.shrink_models().map_values(|m: F::Model| (x.0.model(), x.1.model(), x.2.model(), x.3.model(), x.4.model(), m, x.6.model())) =~= y.5.shrink_models().map_values(|m: F::Model| (y.0.model(), y.1.model(), y.2.model(), y.3.model(), y.4.model(), m, y.6.model())));
            assert(x.6.shrink_models().map_values(|m: G::Model| (x.0.model(), x.1.model(), x.2.model(), x.3.model(), x.4.model(), x.5.model(), m)) =~= y.6.shrink_models().map_values(|m: G::Model| (y.0.model(), y.1.model(), y.2.model(), y.3.model(), y.4.model(), y.5.model(), m)));
        }
    }

    fn duplicate(&self) -> (r: (A, B, C, D, E, F, G)) {
        (self.0.duplicate(), self.1.duplicate(), self.2.duplicate(), self.3.duplicate(), self.4.duplicate(), self.5.duplicate(), self.6.duplicate())
    }

    #[verifier::spinoff_prover]
    fn arbitrary(g: &mut Gen) -> (r: (A, B, C, D, E, F, G)) {
        let e0 = A::arbitrary(g);
        let ghost s1 = g.samples();
        let e1 = B::arbitrary(g);
        let ghost s2 = g.samples();
        let e2 = C::arbitrary(g);
        let ghost s3 = g.samples();
        let e3 = D::arbitrary(g);
        let ghost s4 = g.samples();
        let e4 = E::arbitrary(g);
        let ghost s5 = g.samples();
        let e5 = F::arbitrary(g);
        let ghost s6 = g.samples();
        let e6 = G::arbitrary(g);
        assert(A::generated(old(g).spec_size() as nat, old(g).samples(), e0.model(), s1) && B::generated(old(g).spec_size() as nat, s1, e1.model(), s2) && C::generated(old(g).spec_size() as nat, s2, e2.model(), s3) && D::generated(old(g).spec_size() as nat, s3, e3.model(), s4) && E::generated(old(g).spec_size() as nat, s4, e4.model(), s5) && F::generated(old(g).spec_size() as nat, s5, e5.model(), s6) && G::generated(old(g).spec_size() as nat, s6, e6.model(), g.samples()));
        proof {
            lemma_tuple7_generated::<A, B, C, D, E, F, G>(old(g).spec_size() as nat, old(g).samples(), s1, s2, s3, s4, s5, s6, g.samples(), e0.model(), e1.model(), e2.model(), e3.model(), e4.model(), e5.model(), e6.model());
        }
        (e0, e1, e2, e3, e4, e5, e6)
    }

    fn shrink(&self) -> (r: Vec<(A, B, C, D, E, F, G)>) {
        let mut candidates: Vec<(A, B, C, D, E, F, G)> = Vec::new();
        let ghost done: Seq<(A::Model, B::Model, C::Model, D::Model, E::Model, F::Model, G::Model)> = seq![];
        assert(candidates@.map_values(|c: (A, B, C, D, E, F, G)| c.model()) =~= done);
        let smaller = self.0.shrink();
        let ghost options = self.0.shrink_models();
        let ghost block = self.0.shrink_models().map_values(|m: A::Model| (m, self.1.model(), self.2.model(), self.3.model(), self.4.model(), self.5.model(), self.6.model()));
        let mut j: usize = 0;
        while j < smaller.len()
            invariant
                Self::obeys_arbitrary(),
                smaller@.len() == options.len(),
                options == self.0.shrink_models(),
                block == self.0.shrink_models().map_values(|m: A::Model| (m, self.1.model(), self.2.model(), self.3.model(), self.4.model(), self.5.model(), self.6.model())),
                forall|k: int| 0 <= k < smaller@.len() ==> #[trigger] smaller@[k].model() == options[k],
                j <= smaller@.len(),
                candidates@.map_values(|c: (A, B, C, D, E, F, G)| c.model()) == done + block.take(j as int),
            decreases smaller@.len() - j,
        {
            let replacement = smaller[j].duplicate();
            let ghost prev = candidates@.map_values(|c: (A, B, C, D, E, F, G)| c.model());
            candidates.push((replacement, self.1.duplicate(), self.2.duplicate(), self.3.duplicate(), self.4.duplicate(), self.5.duplicate(), self.6.duplicate()));
            assert(candidates@.map_values(|c: (A, B, C, D, E, F, G)| c.model()) =~= prev.push(block[j as int]));
            assert(block.take(j + 1) =~= block.take(j as int).push(block[j as int]));
            j = j + 1;
        }
        assert(block.take(j as int) =~= block);
        proof {
            done = done + block;
        }
        let smaller = self.1.shrink();
        let ghost options = self.1.shrink_models();
        let ghost block = self.1.shrink_models().map_values(|m: B::Model| (self.0.model(), m, self.2.model(), self.3.model(), self.4.model(), self.5.model(), self.6.model()));
        let mut j: usize = 0;
        while j < smaller.len()
            invariant
                Self::obeys_arbitrary(),
                smaller@.len() == options.len(),
                options == self.1.shrink_models(),
                block == self.1.shrink_models().map_values(|m: B::Model| (self.0.model(), m, self.2.model(), self.3.model(), self.4.model(), self.5.model(), self.6.model())),
                forall|k: int| 0 <= k < smaller@.len() ==> #[trigger] smaller@[k].model() == options[k],
                j <= smaller@.len(),
                candidates@.map_values(|c: (A, B, C, D, E, F, G)| c.model()) == done + block.take(j as int),
            decreases smaller@.len() - j,
        {
            let replacement = smaller[j].duplicate();
            let ghost prev = candidates@.map_values(|c: (A, B, C, D, E, F, G)| c.model());
            candidates.push((self.0.duplicate(), replacement, self.2.duplicate(), self.3.duplicate(), self.4.duplicate(), self.5.duplicate(), self.6.duplicate()));
            assert(candidates@.map_values(|c: (A, B, C, D, E, F, G)| c.model()) =~= prev.push(block[j as int]));
            assert(block.take(j + 1) =~= block.take(j as int).push(block[j as int]));
            j = j + 1;
        }
        assert(block.take(j as int) =~= block);
        proof {
            done = done + block;
        }
        let smaller = self.2.shrink();
        let ghost options = self.2.shrink_models();
        let ghost block = self.2.shrink_models().map_values(|m: C::Model| (self.0.model(), self.1.model(), m, self.3.model(), self.4.model(), self.5.model(), self.6.model()));
        let mut j: usize = 0;
        while j < smaller.len()
            invariant
                Self::obeys_arbitrary(),
                smaller@.len() == options.len(),
                options == self.2.shrink_models(),
                block == self.2.shrink_models().map_values(|m: C::Model| (self.0.model(), self.1.model(), m, self.3.model(), self.4.model(), self.5.model(), self.6.model())),
                forall|k: int| 0 <= k < smaller@.len() ==> #[trigger] smaller@[k].model() == options[k],
                j <= smaller@.len(),
                candidates@.map_values(|c: (A, B, C, D, E, F, G)| c.model()) == done + block.take(j as int),
            decreases smaller@.len() - j,
        {
            let replacement = smaller[j].duplicate();
            let ghost prev = candidates@.map_values(|c: (A, B, C, D, E, F, G)| c.model());
            candidates.push((self.0.duplicate(), self.1.duplicate(), replacement, self.3.duplicate(), self.4.duplicate(), self.5.duplicate(), self.6.duplicate()));
            assert(candidates@.map_values(|c: (A, B, C, D, E, F, G)| c.model()) =~= prev.push(block[j as int]));
            assert(block.take(j + 1) =~= block.take(j as int).push(block[j as int]));
            j = j + 1;
        }
        assert(block.take(j as int) =~= block);
        proof {
            done = done + block;
        }
        let smaller = self.3.shrink();
        let ghost options = self.3.shrink_models();
        let ghost block = self.3.shrink_models().map_values(|m: D::Model| (self.0.model(), self.1.model(), self.2.model(), m, self.4.model(), self.5.model(), self.6.model()));
        let mut j: usize = 0;
        while j < smaller.len()
            invariant
                Self::obeys_arbitrary(),
                smaller@.len() == options.len(),
                options == self.3.shrink_models(),
                block == self.3.shrink_models().map_values(|m: D::Model| (self.0.model(), self.1.model(), self.2.model(), m, self.4.model(), self.5.model(), self.6.model())),
                forall|k: int| 0 <= k < smaller@.len() ==> #[trigger] smaller@[k].model() == options[k],
                j <= smaller@.len(),
                candidates@.map_values(|c: (A, B, C, D, E, F, G)| c.model()) == done + block.take(j as int),
            decreases smaller@.len() - j,
        {
            let replacement = smaller[j].duplicate();
            let ghost prev = candidates@.map_values(|c: (A, B, C, D, E, F, G)| c.model());
            candidates.push((self.0.duplicate(), self.1.duplicate(), self.2.duplicate(), replacement, self.4.duplicate(), self.5.duplicate(), self.6.duplicate()));
            assert(candidates@.map_values(|c: (A, B, C, D, E, F, G)| c.model()) =~= prev.push(block[j as int]));
            assert(block.take(j + 1) =~= block.take(j as int).push(block[j as int]));
            j = j + 1;
        }
        assert(block.take(j as int) =~= block);
        proof {
            done = done + block;
        }
        let smaller = self.4.shrink();
        let ghost options = self.4.shrink_models();
        let ghost block = self.4.shrink_models().map_values(|m: E::Model| (self.0.model(), self.1.model(), self.2.model(), self.3.model(), m, self.5.model(), self.6.model()));
        let mut j: usize = 0;
        while j < smaller.len()
            invariant
                Self::obeys_arbitrary(),
                smaller@.len() == options.len(),
                options == self.4.shrink_models(),
                block == self.4.shrink_models().map_values(|m: E::Model| (self.0.model(), self.1.model(), self.2.model(), self.3.model(), m, self.5.model(), self.6.model())),
                forall|k: int| 0 <= k < smaller@.len() ==> #[trigger] smaller@[k].model() == options[k],
                j <= smaller@.len(),
                candidates@.map_values(|c: (A, B, C, D, E, F, G)| c.model()) == done + block.take(j as int),
            decreases smaller@.len() - j,
        {
            let replacement = smaller[j].duplicate();
            let ghost prev = candidates@.map_values(|c: (A, B, C, D, E, F, G)| c.model());
            candidates.push((self.0.duplicate(), self.1.duplicate(), self.2.duplicate(), self.3.duplicate(), replacement, self.5.duplicate(), self.6.duplicate()));
            assert(candidates@.map_values(|c: (A, B, C, D, E, F, G)| c.model()) =~= prev.push(block[j as int]));
            assert(block.take(j + 1) =~= block.take(j as int).push(block[j as int]));
            j = j + 1;
        }
        assert(block.take(j as int) =~= block);
        proof {
            done = done + block;
        }
        let smaller = self.5.shrink();
        let ghost options = self.5.shrink_models();
        let ghost block = self.5.shrink_models().map_values(|m: F::Model| (self.0.model(), self.1.model(), self.2.model(), self.3.model(), self.4.model(), m, self.6.model()));
        let mut j: usize = 0;
        while j < smaller.len()
            invariant
                Self::obeys_arbitrary(),
                smaller@.len() == options.len(),
                options == self.5.shrink_models(),
                block == self.5.shrink_models().map_values(|m: F::Model| (self.0.model(), self.1.model(), self.2.model(), self.3.model(), self.4.model(), m, self.6.model())),
                forall|k: int| 0 <= k < smaller@.len() ==> #[trigger] smaller@[k].model() == options[k],
                j <= smaller@.len(),
                candidates@.map_values(|c: (A, B, C, D, E, F, G)| c.model()) == done + block.take(j as int),
            decreases smaller@.len() - j,
        {
            let replacement = smaller[j].duplicate();
            let ghost prev = candidates@.map_values(|c: (A, B, C, D, E, F, G)| c.model());
            candidates.push((self.0.duplicate(), self.1.duplicate(), self.2.duplicate(), self.3.duplicate(), self.4.duplicate(), replacement, self.6.duplicate()));
            assert(candidates@.map_values(|c: (A, B, C, D, E, F, G)| c.model()) =~= prev.push(block[j as int]));
            assert(block.take(j + 1) =~= block.take(j as int).push(block[j as int]));
            j = j + 1;
        }
        assert(block.take(j as int) =~= block);
        proof {
            done = done + block;
        }
        let smaller = self.6.shrink();
        let ghost options = self.6.shrink_models();
        let ghost block = self.6.shrink_models().map_values(|m: G::Model| (self.0.model(), self.1.model(), self.2.model(), self.3.model(), self.4.model(), self.5.model(), m));
        let mut j: usize = 0;
        while j < smaller.len()
            invariant
                Self::obeys_arbitrary(),
                smaller@.len() == options.len(),
                options == self.6.shrink_models(),
                block == self.6.shrink_models().map_values(|m: G::Model| (self.0.model(), self.1.model(), self.2.model(), self.3.model(), self.4.model(), self.5.model(), m)),
                forall|k: int| 0 <= k < smaller@.len() ==> #[trigger] smaller@[k].model() == options[k],
                j <= smaller@.len(),
                candidates@.map_values(|c: (A, B, C, D, E, F, G)| c.model()) == done + block.take(j as int),
            decreases smaller@.len() - j,
        {
            let replacement = smaller[j].duplicate();
            let ghost prev = candidates@.map_values(|c: (A, B, C, D, E, F, G)| c.model());
            candidates.push((self.0.duplicate(), self.1.duplicate(), self.2.duplicate(), self.3.duplicate(), self.4.duplicate(), self.5.duplicate(), replacement));
            assert(candidates@.map_values(|c: (A, B, C, D, E, F, G)| c.model()) =~= prev.push(block[j as int]));
            assert(block.take(j + 1) =~= block.take(j as int).push(block[j as int]));
            j = j + 1;
        }
        assert(block.take(j as int) =~= block);
        proof {
            done = done + block;
        }
        assert(done =~= self.shrink_models());
        candidates
    }
}

/// Tuples of 8 are generated component by component, in order, and
/// shrink component-wise: the candidates that shrink the first component
/// (the others kept), then those that shrink the second, and so on.
impl<A: Arbitrary, B: Arbitrary, C: Arbitrary, D: Arbitrary, E: Arbitrary, F: Arbitrary, G: Arbitrary, H: Arbitrary> Arbitrary for (A, B, C, D, E, F, G, H) {
    type Model = (A::Model, B::Model, C::Model, D::Model, E::Model, F::Model, G::Model, H::Model);

    open spec fn model(&self) -> (A::Model, B::Model, C::Model, D::Model, E::Model, F::Model, G::Model, H::Model) {
        (self.0.model(), self.1.model(), self.2.model(), self.3.model(), self.4.model(), self.5.model(), self.6.model(), self.7.model())
    }

    open spec fn obeys_arbitrary() -> bool {
        A::obeys_arbitrary() && B::obeys_arbitrary() && C::obeys_arbitrary() && D::obeys_arbitrary() && E::obeys_arbitrary() && F::obeys_arbitrary() && G::obeys_arbitrary() && H::obeys_arbitrary()
    }

    open spec fn shrinks_by_model() -> bool {
        A::shrinks_by_model() && B::shrinks_by_model() && C::shrinks_by_model() && D::shrinks_by_model() && E::shrinks_by_model() && F::shrinks_by_model() && G::shrinks_by_model() && H::shrinks_by_model()
    }

    open spec fn within_size(m: (A::Model, B::Model, C::Model, D::Model, E::Model, F::Model, G::Model, H::Model), size: nat) -> bool {
        A::within_size(m.0, size) && B::within_size(m.1, size) && C::within_size(m.2, size) && D::within_size(m.3, size) && E::within_size(m.4, size) && F::within_size(m.5, size) && G::within_size(m.6, size) && H::within_size(m.7, size)
    }

    /// The components are generated one after the other, in order.
    open spec fn generated(size: nat, before: Seq<Sample>, m: (A::Model, B::Model, C::Model, D::Model, E::Model, F::Model, G::Model, H::Model), after: Seq<Sample>) -> bool {
        exists|s1: Seq<Sample>, s2: Seq<Sample>, s3: Seq<Sample>, s4: Seq<Sample>, s5: Seq<Sample>, s6: Seq<Sample>, s7: Seq<Sample>|
            #![trigger B::generated(size, s1, m.1, s2), D::generated(size, s3, m.3, s4), F::generated(size, s5, m.5, s6), H::generated(size, s7, m.7, after)]
            A::generated(size, before, m.0, s1) && B::generated(size, s1, m.1, s2) && C::generated(size, s2, m.2, s3) && D::generated(size, s3, m.3, s4) && E::generated(size, s4, m.4, s5) && F::generated(size, s5, m.5, s6) && G::generated(size, s6, m.6, s7) && H::generated(size, s7, m.7, after)
    }

    open spec fn shrink_models(&self) -> Seq<(A::Model, B::Model, C::Model, D::Model, E::Model, F::Model, G::Model, H::Model)> {
        self.0.shrink_models().map_values(|m: A::Model| (m, self.1.model(), self.2.model(), self.3.model(), self.4.model(), self.5.model(), self.6.model(), self.7.model())) + self.1.shrink_models().map_values(|m: B::Model| (self.0.model(), m, self.2.model(), self.3.model(), self.4.model(), self.5.model(), self.6.model(), self.7.model())) + self.2.shrink_models().map_values(|m: C::Model| (self.0.model(), self.1.model(), m, self.3.model(), self.4.model(), self.5.model(), self.6.model(), self.7.model())) + self.3.shrink_models().map_values(|m: D::Model| (self.0.model(), self.1.model(), self.2.model(), m, self.4.model(), self.5.model(), self.6.model(), self.7.model())) + self.4.shrink_models().map_values(|m: E::Model| (self.0.model(), self.1.model(), self.2.model(), self.3.model(), m, self.5.model(), self.6.model(), self.7.model())) + self.5.shrink_models().map_values(|m: F::Model| (self.0.model(), self.1.model(), self.2.model(), self.3.model(), self.4.model(), m, self.6.model(), self.7.model())) + self.6.shrink_models().map_values(|m: G::Model| (self.0.model(), self.1.model(), self.2.model(), self.3.model(), self.4.model(), self.5.model(), m, self.7.model())) + self.7.shrink_models().map_values(|m: H::Model| (self.0.model(), self.1.model(), self.2.model(), self.3.model(), self.4.model(), self.5.model(), self.6.model(), m))
    }

    proof fn lemma_shrinks_differ(&self) {
        if Self::shrinks_by_model() {
            self.0.lemma_shrinks_differ();
            let b0 = self.0.shrink_models().map_values(|m: A::Model| (m, self.1.model(), self.2.model(), self.3.model(), self.4.model(), self.5.model(), self.6.model(), self.7.model()));
            assert forall|k: int| 0 <= k < b0.len() implies #[trigger] b0[k] != self.model() by {
                assert(b0[k].0 == self.0.shrink_models()[k]);
            }
            self.1.lemma_shrinks_differ();
            let b1 = self.1.shrink_models().map_values(|m: B::Model| (self.0.model(), m, self.2.model(), self.3.model(), self.4.model(), self.5.model(), self.6.model(), self.7.model()));
            assert forall|k: int| 0 <= k < b1.len() implies #[trigger] b1[k] != self.model() by {
                assert(b1[k].1 == self.1.shrink_models()[k]);
            }
            self.2.lemma_shrinks_differ();
            let b2 = self.2.shrink_models().map_values(|m: C::Model| (self.0.model(), self.1.model(), m, self.3.model(), self.4.model(), self.5.model(), self.6.model(), self.7.model()));
            assert forall|k: int| 0 <= k < b2.len() implies #[trigger] b2[k] != self.model() by {
                assert(b2[k].2 == self.2.shrink_models()[k]);
            }
            self.3.lemma_shrinks_differ();
            let b3 = self.3.shrink_models().map_values(|m: D::Model| (self.0.model(), self.1.model(), self.2.model(), m, self.4.model(), self.5.model(), self.6.model(), self.7.model()));
            assert forall|k: int| 0 <= k < b3.len() implies #[trigger] b3[k] != self.model() by {
                assert(b3[k].3 == self.3.shrink_models()[k]);
            }
            self.4.lemma_shrinks_differ();
            let b4 = self.4.shrink_models().map_values(|m: E::Model| (self.0.model(), self.1.model(), self.2.model(), self.3.model(), m, self.5.model(), self.6.model(), self.7.model()));
            assert forall|k: int| 0 <= k < b4.len() implies #[trigger] b4[k] != self.model() by {
                assert(b4[k].4 == self.4.shrink_models()[k]);
            }
            self.5.lemma_shrinks_differ();
            let b5 = self.5.shrink_models().map_values(|m: F::Model| (self.0.model(), self.1.model(), self.2.model(), self.3.model(), self.4.model(), m, self.6.model(), self.7.model()));
            assert forall|k: int| 0 <= k < b5.len() implies #[trigger] b5[k] != self.model() by {
                assert(b5[k].5 == self.5.shrink_models()[k]);
            }
            self.6.lemma_shrinks_differ();
            let b6 = self.6.shrink_models().map_values(|m: G::Model| (self.0.model(), self.1.model(), self.2.model(), self.3.model(), self.4.model(), self.5.model(), m, self.7.model()));
            assert forall|k: int| 0 <= k < b6.len() implies #[trigger] b6[k] != self.model() by {
                assert(b6[k].6 == self.6.shrink_models()[k]);
            }
            self.7.lemma_shrinks_differ();
            let b7 = self.7.shrink_models().map_values(|m: H::Model| (self.0.model(), self.1.model(), self.2.model(), self.3.model(), self.4.model(), self.5.model(), self.6.model(), m));
            assert forall|k: int| 0 <= k < b7.len() implies #[trigger] b7[k] != self.model() by {
                assert(b7[k].7 == self.7.shrink_models()[k]);
            }
            lemma_concat_differ(b0, b1, self.model());
            lemma_concat_differ(b0 + b1, b2, self.model());
            lemma_concat_differ(b0 + b1 + b2, b3, self.model());
            lemma_concat_differ(b0 + b1 + b2 + b3, b4, self.model());
            lemma_concat_differ(b0 + b1 + b2 + b3 + b4, b5, self.model());
            lemma_concat_differ(b0 + b1 + b2 + b3 + b4 + b5, b6, self.model());
            lemma_concat_differ(b0 + b1 + b2 + b3 + b4 + b5 + b6, b7, self.model());
            assert(self.shrink_models() == b0 + b1 + b2 + b3 + b4 + b5 + b6 + b7);
        }
    }

    proof fn lemma_shrinks_follow_model(x: &(A, B, C, D, E, F, G, H), y: &(A, B, C, D, E, F, G, H)) {
        if Self::shrinks_by_model() {
            A::lemma_shrinks_follow_model(&x.0, &y.0);
            B::lemma_shrinks_follow_model(&x.1, &y.1);
            C::lemma_shrinks_follow_model(&x.2, &y.2);
            D::lemma_shrinks_follow_model(&x.3, &y.3);
            E::lemma_shrinks_follow_model(&x.4, &y.4);
            F::lemma_shrinks_follow_model(&x.5, &y.5);
            G::lemma_shrinks_follow_model(&x.6, &y.6);
            H::lemma_shrinks_follow_model(&x.7, &y.7);
            assert(x.0.shrink_models().map_values(|m: A::Model| (m, x.1.model(), x.2.model(), x.3.model(), x.4.model(), x.5.model(), x.6.model(), x.7.model())) =~= y.0.shrink_models().map_values(|m: A::Model| (m, y.1.model(), y.2.model(), y.3.model(), y.4.model(), y.5.model(), y.6.model(), y.7.model())));
            assert(x.1.shrink_models().map_values(|m: B::Model| (x.0.model(), m, x.2.model(), x.3.model(), x.4.model(), x.5.model(), x.6.model(), x.7.model())) =~= y.1.shrink_models().map_values(|m: B::Model| (y.0.model(), m, y.2.model(), y.3.model(), y.4.model(), y.5.model(), y.6.model(), y.7.model())));
            assert(x.2.shrink_models().map_values(|m: C::Model| (x.0.model(), x.1.model(), m, x.3.model(), x.4.model(), x.5.model(), x.6.model(), x.7.model())) =~= y.2.shrink_models().map_values(|m: C::Model| (y.0.model(), y.1.model(), m, y.3.model(), y.4.model(), y.5.model(), y.6.model(), y.7.model())));
            assert(x.3.shrink_models().map_values(|m: D::Model| (x.0.model(), x.1.model(), x.2.model(), m, x.4.model(), x.5.model(), x.6.model(), x.7.model())) =~= y.3.shrink_models().map_values(|m: D::Model| (y.0.model(), y.1.model(), y.2.model(), m, y.4.model(), y.5.model(), y.6.model(), y.7.model())));
            assert(x.4.shrink_models().map_values(|m: E::Model| (x.0.model(), x.1.model(), x.2.model(), x.3.model(), m, x.5.model(), x.6.model(), x.7.model())) =~= y.4.shrink_models().map_values(|m: E::Model| (y.0.model(), y.1.model(), y.2.model(), y.3.model(), m, y.5.model(), y.6.model(), y.7.model())));
            assert(x.5.shrink_models().map_values(|m: F::Model| (x.0.model(), x.1.model(), x.2.model(), x.3.model(), x.4.model(), m, x.6.model(), x.7.model())) =~= y.5.shrink_models().map_values(|m: F::Model| (y.0.model(), y.1.model(), y.2.model(), y.3.model(), y.4.model(), m, y.6.model(), y.7.model())));
            assert(x.6.shrink_models().map_values(|m: G::Model| (x.0.model(), x.1.model(), x.2.model(), x.3.model(), x.4.model(), x.5.model(), m, x.7.model())) =~= y.6.shrink_models().map_values(|m: G::Model| (y.0.model(), y.1.model(), y.2.model(), y.3.model(), y.4.model(), y.5.model(), m, y.7.model())));
            assert(x.7.shrink_models().map_values(|m: H::Model| (x.0.model(), x.1.model(), x.2.model(), x.3.model(), x.4.model(), x.5.model(), x.6.model(), m)) =~= y.7.shrink_models().map_values(|m: H::Model| (y.0.model(), y.1.model(), y.2.model(), y.3.model(), y.4.model(), y.5.model(), y.6.model(), m)));
        }
    }

    fn duplicate(&self) -> (r: (A, B, C, D, E, F, G, H)) {
        (self.0.duplicate(), self.1.duplicate(), self.2.duplicate(), self.3.duplicate(), self.4.duplicate(), self.5.duplicate(), self.6.duplicate(), self.7.duplicate())
    }

    #[verifier::spinoff_prover]
    #[verifier::rlimit(40)]
    fn arbitrary(g: &mut Gen) -> (r: (A, B, C, D, E, F, G, H)) {
        let e0 = A::arbitrary(g);
        let ghost s1 = g.samples();
        let e1 = B::arbitrary(g);
        let ghost s2 = g.samples();
        let e2 = C::arbitrary(g);
        let ghost s3 = g.samples();
        let e3 = D::arbitrary(g);
        let ghost s4 = g.samples();
        let e4 = E::arbitrary(g);
        let ghost s5 = g.samples();
        let e5 = F::arbitrary(g);
        let ghost s6 = g.samples();
        let e6 = G::arbitrary(g);
        let ghost s7 = g.samples();
        let e7 = H::arbitrary(g);
        assert(A::generated(old(g).spec_size() as nat, old(g).samples(), e0.model(), s1) && B::generated(old(g).spec_size() as nat, s1, e1.model(), s2) && C::generated(old(g).spec_size() as nat, s2, e2.model(), s3) && D::generated(old(g).spec_size() as nat, s3, e3.model(), s4) && E::generated(old(g).spec_size() as nat, s4, e4.model(), s5) && F::generated(old(g).spec_size() as nat, s5, e5.model(), s6) && G::generated(old(g).spec_size() as nat, s6, e6.model(), s7) && H::generated(old(g).spec_size() as nat, s7, e7.model(), g.samples()));
        proof {
            lemma_tuple8_generated::<A, B, C, D, E, F, G, H>(old(g).spec_size() as nat, old(g).samples(), s1, s2, s3, s4, s5, s6, s7, g.samples(), e0.model(), e1.model(), e2.model(), e3.model(), e4.model(), e5.model(), e6.model(), e7.model());
        }
        (e0, e1, e2, e3, e4, e5, e6, e7)
    }

    fn shrink(&self) -> (r: Vec<(A, B, C, D, E, F, G, H)>) {
        let mut candidates: Vec<(A, B, C, D, E, F, G, H)> = Vec::new();
        let ghost done: Seq<(A::Model, B::Model, C::Model, D::Model, E::Model, F::Model, G::Model, H::Model)> = seq![];
        assert(candidates@.map_values(|c: (A, B, C, D, E, F, G, H)| c.model()) =~= done);
        let smaller = self.0.shrink();
        let ghost options = self.0.shrink_models();
        let ghost block = self.0.shrink_models().map_values(|m: A::Model| (m, self.1.model(), self.2.model(), self.3.model(), self.4.model(), self.5.model(), self.6.model(), self.7.model()));
        let mut j: usize = 0;
        while j < smaller.len()
            invariant
                Self::obeys_arbitrary(),
                smaller@.len() == options.len(),
                options == self.0.shrink_models(),
                block == self.0.shrink_models().map_values(|m: A::Model| (m, self.1.model(), self.2.model(), self.3.model(), self.4.model(), self.5.model(), self.6.model(), self.7.model())),
                forall|k: int| 0 <= k < smaller@.len() ==> #[trigger] smaller@[k].model() == options[k],
                j <= smaller@.len(),
                candidates@.map_values(|c: (A, B, C, D, E, F, G, H)| c.model()) == done + block.take(j as int),
            decreases smaller@.len() - j,
        {
            let replacement = smaller[j].duplicate();
            let ghost prev = candidates@.map_values(|c: (A, B, C, D, E, F, G, H)| c.model());
            candidates.push((replacement, self.1.duplicate(), self.2.duplicate(), self.3.duplicate(), self.4.duplicate(), self.5.duplicate(), self.6.duplicate(), self.7.duplicate()));
            assert(candidates@.map_values(|c: (A, B, C, D, E, F, G, H)| c.model()) =~= prev.push(block[j as int]));
            assert(block.take(j + 1) =~= block.take(j as int).push(block[j as int]));
            j = j + 1;
        }
        assert(block.take(j as int) =~= block);
        proof {
            done = done + block;
        }
        let smaller = self.1.shrink();
        let ghost options = self.1.shrink_models();
        let ghost block = self.1.shrink_models().map_values(|m: B::Model| (self.0.model(), m, self.2.model(), self.3.model(), self.4.model(), self.5.model(), self.6.model(), self.7.model()));
        let mut j: usize = 0;
        while j < smaller.len()
            invariant
                Self::obeys_arbitrary(),
                smaller@.len() == options.len(),
                options == self.1.shrink_models(),
                block == self.1.shrink_models().map_values(|m: B::Model| (self.0.model(), m, self.2.model(), self.3.model(), self.4.model(), self.5.model(), self.6.model(), self.7.model())),
                forall|k: int| 0 <= k < smaller@.len() ==> #[trigger] smaller@[k].model() == options[k],
                j <= smaller@.len(),
                candidates@.map_values(|c: (A, B, C, D, E, F, G, H)| c.model()) == done + block.take(j as int),
            decreases smaller@.len() - j,
        {
            let replacement = smaller[j].duplicate();
            let ghost prev = candidates@.map_values(|c: (A, B, C, D, E, F, G, H)| c.model());
            candidates.push((self.0.duplicate(), replacement, self.2.duplicate(), self.3.duplicate(), self.4.duplicate(), self.5.duplicate(), self.6.duplicate(), self.7.duplicate()));
            assert(candidates@.map_values(|c: (A, B, C, D, E, F, G, H)| c.model()) =~= prev.push(block[j as int]));
            assert(block.take(j + 1) =~= block.take(j as int).push(block[j as int]));
            j = j + 1;
        }
        assert(block.take(j as int) =~= block);
        proof {
            done = done + block;
        }
        let smaller = self.2.shrink();
        let ghost options = self.2.shrink_models();
        let ghost block = self.2.shrink_models().map_values(|m: C::Model| (self.0.model(), self.1.model(), m, self.3.model(), self.4.model(), self.5.model(), self.6.model(), self.7.model()));
        let mut j: usize = 0;
        while j < smaller.len()
            invariant
                Self::obeys_arbitrary(),
                smaller@.len() == options.len(),
                options == self.2.shrink_models(),
                block == self.2.shrink_models().map_values(|m: C::Model| (self.0.model(), self.1.model(), m, self.3.model(), self.4.model(), self.5.model(), self.6.model(), self.7.model())),
                forall|k: int| 0 <= k < smaller@.len() ==> #[trigger] smaller@[k].model() == options[k],
                j <= smaller@.len(),
                candidates@.map_values(|c: (A, B, C, D, E, F, G, H)| c.model()) == done + block.take(j as int),
            decreases smaller@.len() - j,
        {
            let replacement = smaller[j].duplicate();
            let ghost prev = candidates@.map_values(|c: (A, B, C, D, E, F, G, H)| c.model());
            candidates.push((self.0.duplicate(), self.1.duplicate(), replacement, self.3.duplicate(), self.4.duplicate(), self.5.duplicate(), self.6.duplicate(), self.7.duplicate()));
            assert(candidates@.map_values(|c: (A, B, C, D, E, F, G, H)| c.model()) =~= prev.push(block[j as int]));
            assert(block.take(j + 1) =~= block.take(j as int).push(block[j as int]));
            j = j + 1;
        }
        assert(block.take(j as int) =~= block);
        proof {
            done = done + block;
        }
        let smaller = self.3.shrink();
        let ghost options = self.3.shrink_models();
        let ghost block = self.3.shrink_models().map_values(|m: D::Model| (self.0.model(), self.1.model(), self.2.model(), m, self.4.model(), self.5.model(), self.6.model(), self.7.model()));
        let mut j: usize = 0;
        while j < smaller.len()
            invariant
                Self::obeys_arbitrary(),
                smaller@.len() == options.len(),
                options == self.3.shrink_models(),
                block == self.3.shrink_models().map_values(|m: D::Model| (self.0.model(), self.1.model(), self.2.model(), m, self.4.model(), self.5.model(), self.6.model(), self.7.model())),
                forall|k: int| 0 <= k < smaller@.len() ==> #[trigger] smaller@[k].model() == options[k],
                j <= smaller@.len(),
                candidates@.map_values(|c: (A, B, C, D, E, F, G, H)| c.model()) == done + block.take(j as int),
            decreases smaller@.len() - j,
        {
            let replacement = smaller[j].duplicate();
            let ghost prev = candidates@.map_values(|c: (A, B, C, D, E, F, G, H)| c.model());
            candidates.push((self.0.duplicate(), self.1.duplicate(), self.2.duplicate(), replacement, self.4.duplicate(), self.5.duplicate(), self.6.duplicate(), self.7.duplicate()));
            assert(candidates@.map_values(|c: (A, B, C, D, E, F, G, H)| c.model()) =~= prev.push(block[j as int]));
            assert(block.take(j + 1) =~= block.take(j as int).push(block[j as int]));
            j = j + 1;
        }
        assert(block.take(j as int) =~= block);
        proof {
            done = done + block;
        }
        let smaller = self.4.shrink();
        let ghost options = self.4.shrink_models();
        let ghost block = self.4.shrink_models().map_values(|m: E::Model| (self.0.model(), self.1.model(), self.2.model(), self.3.model(), m, self.5.model(), self.6.model(), self.7.model()));
        let mut j: usize = 0;
        while j < smaller.len()
            invariant
                Self::obeys_arbitrary(),
                smaller@.len() == options.len(),
                options == self.4.shrink_models(),
                block == self.4.shrink_models().map_values(|m: E::Model| (self.0.model(), self.1.model(), self.2.model(), self.3.model(), m, self.5.model(), self.6.model(), self.7.model())),
                forall|k: int| 0 <= k < smaller@.len() ==> #[trigger] smaller@[k].model() == options[k],
                j <= smaller@.len(),
                candidates@.map_values(|c: (A, B, C, D, E, F, G, H)| c.model()) == done + block.take(j as int),
            decreases smaller@.len() - j,
        {
            let replacement = smaller[j].duplicate();
            let ghost prev = candidates@.map_values(|c: (A, B, C, D, E, F, G, H)| c.model());
            candidates.push((self.0.duplicate(), self.1.duplicate(), self.2.duplicate(), self.3.duplicate(), replacement, self.5.duplicate(), self.6.duplicate(), self.7.duplicate()));
            assert(candidates@.map_values(|c: (A, B, C, D, E, F, G, H)| c.model()) =~= prev.push(block[j as int]));
            assert(block.take(j + 1) =~= block.take(j as int).push(block[j as int]));
            j = j + 1;
        }
        assert(block.take(j as int) =~= block);
        proof {
            done = done + block;
        }
        let smaller = self.5.shrink();
        let ghost options = self.5.shrink_models();
        let ghost block = self.5.shrink_models().map_values(|m: F::Model| (self.0.model(), self.1.model(), self.2.model(), self.3.model(), self.4.model(), m, self.6.model(), self.7.model()));
        let mut j: usize = 0;
        while j < smaller.len()
            invariant
                Self::obeys_arbitrary(),
                smaller@.len() == options.len(),
                options == self.5.shrink_models(),
                block == self.5.shrink_models().map_values(|m: F::Model| (self.0.model(), self.1.model(), self.2.model(), self.3.model(), self.4.model(), m, self.6.model(), self.7.model())),
                forall|k: int| 0 <= k < smaller@.len() ==> #[trigger] smaller@[k].model() == options[k],
                j <= smaller@.len(),
                candidates@.map_values(|c: (A, B, C, D, E, F, G, H)| c.model()) == done + block.take(j as int),
            decreases smaller@.len() - j,
        {
            let replacement = smaller[j].duplicate();
            let ghost prev = candidates@.map_values(|c: (A, B, C, D, E, F, G, H)| c.model());
            candidates.push((self.0.duplicate(), self.1.duplicate(), self.2.duplicate(), self.3.duplicate(), self.4.duplicate(), replacement, self.6.duplicate(), self.7.duplicate()));
            assert(candidates@.map_values(|c: (A, B, C, D, E, F, G, H)| c.model()) =~= prev.push(block[j as int]));
            assert(block.take(j + 1) =~= block.take(j as int).push(block[j as int]));
            j = j + 1;
        }
        assert(block.take(j as int) =~= block);
        proof {
            done = done + block;
        }
        let smaller = self.6.shrink();
        let ghost options = self.6.shrink_models();
        let ghost block = self.6.shrink_models().map_values(|m: G::Model| (self.0.model(), self.1.model(), self.2.model(), self.3.model(), self.4.model(), self.5.model(), m, self.7.model()));
        let mut j: usize = 0;
        while j < smaller.len()
            invariant
                Self::obeys_arbitrary(),
                smaller@.len() == options.len(),
                options == self.6.shrink_models(),
                block == self.6.shrink_models().map_values(|m: G::Model| (self.0.model(), self.1.model(), self.2.model(), self.3.model(), self.4.model(), self.5.model(), m, self.7.model())),
                forall|k: int| 0 <= k < smaller@.len() ==> #[trigger] smaller@[k].model() == options[k],
                j <= smaller@.len(),
                candidates@.map_values(|c: (A, B, C, D, E, F, G, H)| c.model()) == done + block.take(j as int),
            decreases smaller@.len() - j,
        {
            let replacement = smaller[j].duplicate();
            let ghost prev = candidates@.map_values(|c: (A, B, C, D, E, F, G, H)| c.model());
            candidates.push((self.0.duplicate(), self.1.duplicate(), self.2.duplicate(), self.3.duplicate(), self.4.duplicate(), self.5.duplicate(), replacement, self.7.duplicate()));
            assert(candidates@.map_values(|c: (A, B, C, D, E, F, G, H)| c.model()) =~= prev.push(block[j as int]));
            assert(block.take(j + 1) =~= block.take(j as int).push(block[j as int]));
            j = j + 1;
        }
        assert(block.take(j as int) =~= block);
        proof {
            done = done + block;
        }
        let smaller = self.7.shrink();
        let ghost options = self.7.shrink_models();
        let ghost block = self.7.shrink_models().map_values(|m: H::Model| (self.0.model(), self.1.model(), self.2.model(), self.3.model(), self.4.model(), self.5.model(), self.6.model(), m));
        let mut j: usize = 0;
        while j < smaller.len()
            invariant
                Self::obeys_arbitrary(),
                smaller@.len() == options.len(),
                options == self.7.shrink_models(),
                block == self.7.shrink_models().map_values(|m: H::Model| (self.0.model(), self.1.model(), self.2.model(), self.3.model(), self.4.model(), self.5.model(), self.6.model(), m)),
                forall|k: int| 0 <= k < smaller@.len() ==> #[trigger] smaller@[k].model() == options[k],
                j <= smaller@.len(),
                candidates@.map_values(|c: (A, B, C, D, E, F, G, H)| c.model()) == done + block.take(j as int),
            decreases smaller@.len() - j,
        {
            let replacement = smaller[j].duplicate();
            let ghost prev = candidates@.map_values(|c: (A, B, C, D, E, F, G, H)| c.model());
            candidates.push((self.0.duplicate(), self.1.duplicate(), self.2.duplicate(), self.3.duplicate(), self.4.duplicate(), self.5.duplicate(), self.6.duplicate(), replacement));
            assert(candidates@.map_values(|c: (A, B, C, D, E, F, G, H)| c.model()) =~= prev.push(block[j as int]));
            assert(block.take(j + 1) =~= block.take(j as int).push(block[j as int]));
            j = j + 1;
        }
        assert(block.take(j as int) =~= block);
        proof {
            done = done + block;
        }
        assert(done =~= self.shrink_models());
        candidates
    }
}

/// Tuples of 9 are generated component by component, in order, and
/// shrink component-wise: the candidates that shrink the first component
/// (the others kept), then those that shrink the second, and so on.
impl<A: Arbitrary, B: Arbitrary, C: Arbitrary, D: Arbitrary, E: Arbitrary, F: Arbitrary, G: Arbitrary, H: Arbitrary, I: Arbitrary> Arbitrary for (A, B, C, D, E, F, G, H, I) {
    type Model = (A::Model, B::Model, C::Model, D::Model, E::Model, F::Model, G::Model, H::Model, I::Model);

    open spec fn model(&self) -> (A::Model, B::Model, C::Model, D::Model, E::Model, F::Model, G::Model, H::Model, I::Model) {
        (self.0.model(), self.1.model(), self.2.model(), self.3.model(), self.4.model(), self.5.model(), self.6.model(), self.7.model(), self.8.model())
    }

    open spec fn obeys_arbitrary() -> bool {
        A::obeys_arbitrary() && B::obeys_arbitrary() && C::obeys_arbitrary() && D::obeys_arbitrary() && E::obeys_arbitrary() && F::obeys_arbitrary() && G::obeys_arbitrary() && H::obeys_arbitrary() && I::obeys_arbitrary()
    }

    open spec fn shrinks_by_model() -> bool {
        A::shrinks_by_model() && B::shrinks_by_model() && C::shrinks_by_model() && D::shrinks_by_model() && E::shrinks_by_model() && F::shrinks_by_model() && G::shrinks_by_model() && H::shrinks_by_model() && I::shrinks_by_model()
    }

    open spec fn within_size(m: (A::Model, B::Model, C::Model, D::Model, E::Model, F::Model, G::Model, H::Model, I::Model), size: nat) -> bool {
        A::within_size(m.0, size) && B::within_size(m.1, size) && C::within_size(m.2, size) && D::within_size(m.3, size) && E::within_size(m.4, size) && F::within_size(m.5, size) && G::within_size(m.6, size) && H::within_size(m.7, size) && I::within_size(m.8, size)
    }

    /// The components are generated one after the other, in order.
    open spec fn generated(size: nat, before: Seq<Sample>, m: (A::Model, B::Model, C::Model, D::Model, E::Model, F::Model, G::Model, H::Model, I::Model), after: Seq<Sample>) -> bool {
        exists|s1: Seq<Sample>, s2: Seq<Sample>, s3: Seq<Sample>, s4: Seq<Sample>, s5: Seq<Sample>, s6: Seq<Sample>, s7: Seq<Sample>, s8: Seq<Sample>|
            #![trigger B::generated(size, s1, m.1, s2), D::generated(size, s3, m.3, s4), F::generated(size, s5, m.5, s6), H::generated(size, s7, m.7, s8)]
            A::generated(size, before, m.0, s1) && B::generated(size, s1, m.1, s2) && C::generated(size, s2, m.2, s3) && D::generated(size, s3, m.3, s4) && E::generated(size, s4, m.4, s5) && F::generated(size, s5, m.5, s6) && G::generated(size, s6, m.6, s7) && H::generated(size, s7, m.7, s8) && I::generated(size, s8, m.8, after)
    }

    open spec fn shrink_models(&self) -> Seq<(A::Model, B::Model, C::Model, D::Model, E::Model, F::Model, G::Model, H::Model, I::Model)> {
        self.0.shrink_models().map_values(|m: A::Model| (m, self.1.model(), self.2.model(), self.3.model(), self.4.model(), self.5.model(), self.6.model(), self.7.model(), self.8.model())) + self.1.shrink_models().map_values(|m: B::Model| (self.0.model(), m, self.2.model(), self.3.model(), self.4.model(), self.5.model(), self.6.model(), self.7.model(), self.8.model())) + self.2.shrink_models().map_values(|m: C::Model| (self.0.model(), self.1.model(), m, self.3.model(), self.4.model(), self.5.model(), self.6.model(), self.7.model(), self.8.model())) + self.3.shrink_models().map_values(|m: D::Model| (self.0.model(), self.1.model(), self.2.model(), m, self.4.model(), self.5.model(), self.6.model(), self.7.model(), self.8.model())) + self.4.shrink_models().map_values(|m: E::Model| (self.0.model(), self.1.model(), self.2.model(), self.3.model(), m, self.5.model(), self.6.model(), self.7.model(), self.8.model())) + self.5.shrink_models().map_values(|m: F::Model| (self.0.model(), self.1.model(), self.2.model(), self.3.model(), self.4.model(), m, self.6.model(), self.7.model(), self.8.model())) + self.6.shrink_models().map_values(|m: G::Model| (self.0.model(), self.1.model(), self.2.model(), self.3.model(), self.4.model(), self.5.model(), m, self.7.model(), self.8.model())) + self.7.shrink_models().map_values(|m: H::Model| (self.0.model(), self.1.model(), self.2.model(), self.3.model(), self.4.model(), self.5.model(), self.6.model(), m, self.8.model())) + self.8.shrink_models().map_values(|m: I::Model| (self.0.model(), self.1.model(), self.2.model(), self.3.model(), self.4.model(), self.5.model(), self.6.model(), self.7.model(), m))
    }

    proof fn lemma_shrinks_differ(&self) {
        if Self::shrinks_by_model() {
            self.0.lemma_shrinks_differ();
            let b0 = self.0.shrink_models().map_values(|m: A::Model| (m, self.1.model(), self.2.model(), self.3.model(), self.4.model(), self.5.model(), self.6.model(), self.7.model(), self.8.model()));
            assert forall|k: int| 0 <= k < b0.len() implies #[trigger] b0[k] != self.model() by {
                assert(b0[k].0 == self.0.shrink_models()[k]);
            }
            self.1.lemma_shrinks_differ();
            let b1 = self.1.shrink_models().map_values(|m: B::Model| (self.0.model(), m, self.2.model(), self.3.model(), self.4.model(), self.5.model(), self.6.model(), self.7.model(), self.8.model()));
            assert forall|k: int| 0 <= k < b1.len() implies #[trigger] b1[k] != self.model() by {
                assert(b1[k].1 == self.1.shrink_models()[k]);
            }
            self.2.lemma_shrinks_differ();
            let b2 = self.2.shrink_models().map_values(|m: C::Model| (self.0.model(), self.1.model(), m, self.3.model(), self.4.model(), self.5.model(), self.6.model(), self.7.model(), self.8.model()));
            assert forall|k: int| 0 <= k < b2.len() implies #[trigger] b2[k] != self.model() by {
                assert(b2[k].2 == self.2.shrink_models()[k]);
            }
            self.3.lemma_shrinks_differ();
            let b3 = self.3.shrink_models().map_values(|m: D::Model| (self.0.model(), self.1.model(), self.2.model(), m, self.4.model(), self.5.model(), self.6.model(), self.7.model(), self.8.model()));
            assert forall|k: int| 0 <= k < b3.len() implies #[trigger] b3[k] != self.model() by {
                assert(b3[k].3 == self.3.shrink_models()[k]);
            }
            self.4.lemma_shrinks_differ();
            let b4 = self.4.shrink_models().map_values(|m: E::Model| (self.0.model(), self.1.model(), self.2.model(), self.3.model(), m, self.5.model(), self.6.model(), self.7.model(), self.8.model()));
            assert forall|k: int| 0 <= k < b4.len() implies #[trigger] b4[k] != self.model() by {
                assert(b4[k].4 == self.4.shrink_models()[k]);
            }
            self.5.lemma_shrinks_differ();
            let b5 = self.5.shrink_models().map_values(|m: F::Model| (self.0.model(), self.1.model(), self.2.model(), self.3.model(), self.4.model(), m, self.6.model(), self.7.model(), self.8.model()));
            assert forall|k: int| 0 <= k < b5.len() implies #[trigger] b5[k] != self.model() by {
                assert(b5[k].5 == self.5.shrink_models()[k]);
            }
            self.6.lemma_shrinks_differ();
            let b6 = self.6.shrink_models().map_values(|m: G::Model| (self.0.model(), self.1.model(), self.2.model(), self.3.model(), self.4.model(), self.5.model(), m, self.7.model(), self.8.model()));
            assert forall|k: int| 0 <= k < b6.len() implies #[trigger] b6[k] != self.model() by {
                assert(b6[k].6 == self.6.shrink_models()[k]);
            }
            self.7.lemma_shrinks_differ();
            let b7 = self.7.shrink_models().map_values(|m: H::Model| (self.0.model(), self.1.model(), self.2.model(), self.3.model(), self.4.model(), self.5.model(), self.6.model(), m, self.8.model()));
            assert forall|k: int| 0 <= k < b7.len() implies #[trigger] b7[k] != self.model() by {
                assert(b7[k].7 == self.7.shrink_models()[k]);
            }
            self.8.lemma_shrinks_differ();
            let b8 = self.8.shrink_models().map_values(|m: I::Model| (self.0.model(), self.1.model(), self.2.model(), self.3.model(), self.4.model(), self.5.model(), self.6.model(), self.7.model(), m));
            assert forall|k: int| 0 <= k < b8.len() implies #[trigger] b8[k] != self.model() by {
                assert(b8[k].8 == self.8.shrink_models()[k]);
            }
            lemma_concat_differ(b0, b1, self.model());
            lemma_concat_differ(b0 + b1, b2, self.model());
            lemma_concat_differ(b0 + b1 + b2, b3, self.model());
            lemma_concat_differ(b0 + b1 + b2 + b3, b4, self.model());
            lemma_concat_differ(b0 + b1 + b2 + b3 + b4, b5, self.model());
            lemma_concat_differ(b0 + b1 + b2 + b3 + b4 + b5, b6, self.model());
            lemma_concat_differ(b0 + b1 + b2 + b3 + b4 + b5 + b6, b7, self.model());
            lemma_concat_differ(b0 + b1 + b2 + b3 + b4 + b5 + b6 + b7, b8, self.model());
            assert(self.shrink_models() == b0 + b1 + b2 + b3 + b4 + b5 + b6 + b7 + b8);
        }
    }

    proof fn lemma_shrinks_follow_model(x: &(A, B, C, D, E, F, G, H, I), y: &(A, B, C, D, E, F, G, H, I)) {
        if Self::shrinks_by_model() {
            A::lemma_shrinks_follow_model(&x.0, &y.0);
            B::lemma_shrinks_follow_model(&x.1, &y.1);
            C::lemma_shrinks_follow_model(&x.2, &y.2);
            D::lemma_shrinks_follow_model(&x.3, &y.3);
            E::lemma_shrinks_follow_model(&x.4, &y.4);
            F::lemma_shrinks_follow_model(&x.5, &y.5);
            G::lemma_shrinks_follow_model(&x.6, &y.6);
            H::lemma_shrinks_follow_model(&x.7, &y.7);
            I::lemma_shrinks_follow_model(&x.8, &y.8);
            assert(x.0.shrink_models().map_values(|m: A::Model| (m, x.1.model(), x.2.model(), x.3.model(), x.4.model(), x.5.model(), x.6.model(), x.7.model(), x.8.model())) =~= y.0.shrink_models().map_values(|m: A::Model| (m, y.1.model(), y.2.model(), y.3.model(), y.4.model(), y.5.model(), y.6.model(), y.7.model(), y.8.model())));
            assert(x.1.shrink_models().map_values(|m: B::Model| (x.0.model(), m, x.2.model(), x.3.model(), x.4.model(), x.5.model(), x.6.model(), x.7.model(), x.8.model())) =~= y.1.shrink_models().map_values(|m: B::Model| (y.0.model(), m, y.2.model(), y.3.model(), y.4.model(), y.5.model(), y.6.model(), y.7.model(), y.8.model())));
            assert(x.2.shrink_models().map_values(|m: C::Model| (x.0.model(), x.1.model(), m, x.3.model(), x.4.model(), x.5.model(), x.6.model(), x.7.model(), x.8.model())) =~= y.2.shrink_models().map_values(|m: C::Model| (y.0.model(), y.1.model(), m, y.3.model(), y.4.model(), y.5.model(), y.6.model(), y.7.model(), y.8.model())));
            assert(x.3.shrink_models().map_values(|m: D::Model| (x.0.model(), x.1.model(), x.2.model(), m, x.4.model(), x.5.model(), x.6.model(), x.7.model(), x.8.model())) =~= y.3.shrink_models().map_values(|m: D::Model| (y.0.model(), y.1.model(), y.2.model(), m, y.4.model(), y.5.model(), y.6.model(), y.7.model(), y.8.model())));
            assert(x.4.shrink_models().map_values(|m: E::Model| (x.0.model(), x.1.model(), x.2.model(), x.3.model(), m, x.5.model(), x.6.model(), x.7.model(), x.8.model())) =~= y.4.shrink_models().map_values(|m: E::Model| (y.0.model(), y.1.model(), y.2.model(), y.3.model(), m, y.5.model(), y.6.model(), y.7.model(), y.8.model())));
            assert(x.5.shrink_models().map_values(|m: F::Model| (x.0.model(), x.1.model(), x.2.model(), x.3.model(), x.4.model(), m, x.6.model(), x.7.model(), x.8.model())) =~= y.5.shrink_models().map_values(|m: F::Model| (y.0.model(), y.1.model(), y.2.model(), y.3.model(), y.4.model(), m, y.6.model(), y.7.model(), y.8.model())));
            assert(x.6.shrink_models().map_values(|m: G::Model| (x.0.model(), x.1.model(), x.2.model(), x.3.model(), x.4.model(), x.5.model(), m, x.7.model(), x.8.model())) =~= y.6.shrink_models().map_values(|m: G::Model| (y.0.model(), y.1.model(), y.2.model(), y.3.model(), y.4.model(), y.5.model(), m, y.7.model(), y.8.model())));
            assert(x.7.shrink_models().map_values(|m: H::Model| (x.0.model(), x.1.model(), x.2.model(), x.3.model(), x.4.model(), x.5.model(), x.6.model(), m, x.8.model())) =~= y.7.shrink_models().map_values(|m: H::Model| (y.0.model(), y.1.model(), y.2.model(), y.3.model(), y.4.model(), y.5.model(), y.6.model(), m, y.8.model())));
            assert(x.8.shrink_models().map_values(|m: I::Model| (x.0.model(), x.1.model(), x.2.model(), x.3.model(), x.4.model(), x.5.model(), x.6.model(), x.7.model(), m)) =~= y.8.shrink_models().map_values(|m: I::Model| (y.0.model(), y.1.model(), y.2.model(), y.3.model(), y.4.model(), y.5.model(), y.6.model(), y.7.model(), m)));
        }
    }

    fn duplicate(&self) -> (r: (A, B, C, D, E, F, G, H, I)) {
        (self.0.duplicate(), self.1.duplicate(), self.2.duplicate(), self.3.duplicate(), self.4.duplicate(), self.5.duplicate(), self.6.duplicate(), self.7.duplicate(), self.8.duplicate())
    }

    #[verifier::spinoff_prover]
    #[verifier::rlimit(40)]
    fn arbitrary(g: &mut Gen) -> (r: (A, B, C, D, E, F, G, H, I)) {
        let e0 = A::arbitrary(g);
        let ghost s1 = g.samples();
        let e1 = B::arbitrary(g);
        let ghost s2 = g.samples();
        let e2 = C::arbitrary(g);
        let ghost s3 = g.samples();
        let e3 = D::arbitrary(g);
        let ghost s4 = g.samples();
        let e4 = E::arbitrary(g);
        let ghost s5 = g.samples();
        let e5 = F::arbitrary(g);
        let ghost s6 = g.samples();
        let e6 = G::arbitrary(g);
        let ghost s7 = g.samples();
        let e7 = H::arbitrary(g);
        let ghost s8 = g.samples();
        let e8 = I::arbitrary(g);
        assert(A::generated(old(g).spec_size() as nat, old(g).samples(), e0.model(), s1) && B::generated(old(g).spec_size() as nat, s1, e1.model(), s2) && C::generated(old(g).spec_size() as nat, s2, e2.model(), s3) && D::generated(old(g).spec_size() as nat, s3, e3.model(), s4) && E::generated(old(g).spec_size() as nat, s4, e4.model(), s5) && F::generated(old(g).spec_size() as nat, s5, e5.model(), s6) && G::generated(old(g).spec_size() as nat, s6, e6.model(), s7) && H::generated(old(g).spec_size() as nat, s7, e7.model(), s8) && I::generated(old(g).spec_size() as nat, s8, e8.model(), g.samples()));
        proof {
            lemma_tuple9_generated::<A, B, C, D, E, F, G, H, I>(old(g).spec_size() as nat, old(g).samples(), s1, s2, s3, s4, s5, s6, s7, s8, g.samples(), e0.model(), e1.model(), e2.model(), e3.model(), e4.model(), e5.model(), e6.model(), e7.model(), e8.model());
        }
        (e0, e1, e2, e3, e4, e5, e6, e7, e8)
    }

    fn shrink(&self) -> (r: Vec<(A, B, C, D, E, F, G, H, I)>) {
        let mut candidates: Vec<(A, B, C, D, E, F, G, H, I)> = Vec::new();
        let ghost done: Seq<(A::Model, B::Model, C::Model, D::Model, E::Model, F::Model, G::Model, H::Model, I::Model)> = seq![];
        assert(candidates@.map_values(|c: (A, B, C, D, E, F, G, H, I)| c.model()) =~= done);
        let smaller = self.0.shrink();
        let ghost options = self.0.shrink_models();
        let ghost block = self.0.shrink_models().map_values(|m: A::Model| (m, self.1.model(), self.2.model(), self.3.model(), self.4.model(), self.5.model(), self.6.model(), self.7.model(), self.8.model()));
        let mut j: usize = 0;
        while j < smaller.len()
            invariant
                Self::obeys_arbitrary(),
                smaller@.len() == options.len(),
                options == self.0.shrink_models(),
                block == self.0.shrink_models().map_values(|m: A::Model| (m, self.1.model(), self.2.model(), self.3.model(), self.4.model(), self.5.model(), self.6.model(), self.7.model(), self.8.model())),
                forall|k: int| 0 <= k < smaller@.len() ==> #[trigger] smaller@[k].model() == options[k],
                j <= smaller@.len(),
                candidates@.map_values(|c: (A, B, C, D, E, F, G, H, I)| c.model()) == done + block.take(j as int),
            decreases smaller@.len() - j,
        {
            let replacement = smaller[j].duplicate();
            let ghost prev = candidates@.map_values(|c: (A, B, C, D, E, F, G, H, I)| c.model());
            candidates.push((replacement, self.1.duplicate(), self.2.duplicate(), self.3.duplicate(), self.4.duplicate(), self.5.duplicate(), self.6.duplicate(), self.7.duplicate(), self.8.duplicate()));
            assert(candidates@.map_values(|c: (A, B, C, D, E, F, G, H, I)| c.model()) =~= prev.push(block[j as int]));
            assert(block.take(j + 1) =~= block.take(j as int).push(block[j as int]));
            j = j + 1;
        }
        assert(block.take(j as int) =~= block);
        proof {
            done = done + block;
        }
        let smaller = self.1.shrink();
        let ghost options = self.1.shrink_models();
        let ghost block = self.1.shrink_models().map_values(|m: B::Model| (self.0.model(), m, self.2.model(), self.3.model(), self.4.model(), self.5.model(), self.6.model(), self.7.model(), self.8.model()));
        let mut j: usize = 0;
        while j < smaller.len()
            invariant
                Self::obeys_arbitrary(),
                smaller@.len() == options.len(),
                options == self.1.shrink_models(),
                block == self.1.shrink_models().map_values(|m: B::Model| (self.0.model(), m, self.2.model(), self.3.model(), self.4.model(), self.5.model(), self.6.model(), self.7.model(), self.8.model())),
                forall|k: int| 0 <= k < smaller@.len() ==> #[trigger] smaller@[k].model() == options[k],
                j <= smaller@.len(),
                candidates@.map_values(|c: (A, B, C, D, E, F, G, H, I)| c.model()) == done + block.take(j as int),
            decreases smaller@.len() - j,
        {
            let replacement = smaller[j].duplicate();
            let ghost prev = candidates@.map_values(|c: (A, B, C, D, E, F, G, H, I)| c.model());
            candidates.push((self.0.duplicate(), replacement, self.2.duplicate(), self.3.duplicate(), self.4.duplicate(), self.5.duplicate(), self.6.duplicate(), self.7.duplicate(), self.8.duplicate()));
            assert(candidates@.map_values(|c: (A, B, C, D, E, F, G, H, I)| c.model()) =~= prev.push(block[j as int]));
            assert(block.take(j + 1) =~= block.take(j as int).push(block[j as int]));
            j = j + 1;
        }
        assert(block.take(j as int) =~= block);
        proof {
            done = done + block;
        }
        let smaller = self.2.shrink();
        let ghost options = self.2.shrink_models();
        let ghost block = self.2.shrink_models().map_values(|m: C::Model| (self.0.model(), self.1.model(), m, self.3.model(), self.4.model(), self.5.model(), self.6.model(), self.7.model(), self.8.model()));
        let mut j: usize = 0;
        while j < smaller.len()
            invariant
                Self::obeys_arbitrary(),
                smaller@.len() == options.len(),
                options == self.2.shrink_models(),
                block == self.2.shrink_models().map_values(|m: C::Model| (self.0.model(), self.1.model(), m, self.3.model(), self.4.model(), self.5.model(), self.6.model(), self.7.model(), self.8.model())),
                forall|k: int| 0 <= k < smaller@.len() ==> #[trigger] smaller@[k].model() == options[k],
                j <= smaller@.len(),
                candidates@.map_values(|c: (A, B, C, D, E, F, G, H, I)| c.model()) == done + block.take(j as int),
            decreases smaller@.len() - j,
        {
            let replacement = smaller[j].duplicate();
            let ghost prev = candidates@.map_values(|c: (A, B, C, D, E, F, G, H, I)| c.model());
            candidates.push((self.0.duplicate(), self.1.duplicate(), replacement, self.3.duplicate(), self.4.duplicate(), self.5.duplicate(), self.6.duplicate(), self.7.duplicate(), self.8.duplicate()));
            assert(candidates@.map_values(|c: (A, B, C, D, E, F, G, H, I)| c.model()) =~= prev.push(block[j as int]));
            assert(block.take(j + 1) =~= block.take(j as int).push(block[j as int]));
            j = j + 1;
        }
        assert(block.take(j as int) =~= block);
        proof {
            done = done + block;
        }
        let smaller = self.3.shrink();
        let ghost options = self.3.shrink_models();
        let ghost block = self.3.shrink_models().map_values(|m: D::Model| (self.0.model(), self.1.model(), self.2.model(), m, self.4.model(), self.5.model(), self.6.model(), self.7.model(), self.8.model()));
        let mut j: usize = 0;
        while j < smaller.len()
            invariant
                Self::obeys_arbitrary(),
                smaller@.len() == options.len(),
                options == self.3.shrink_models(),
                block == self.3.shrink_models().map_values(|m: D::Model| (self.0.model(), self.1.model(), self.2.model(), m, self.4.model(), self.5.model(), self.6.model(), self.7.model(), self.8.model())),
                forall|k: int| 0 <= k < smaller@.len() ==> #[trigger] smaller@[k].model() == options[k],
                j <= smaller@.len(),
                candidates@.map_values(|c: (A, B, C, D, E, F, G, H, I)| c.model()) == done + block.take(j as int),
            decreases smaller@.len() - j,
        {
            let replacement = smaller[j].duplicate();
            let ghost prev = candidates@.map_values(|c: (A, B, C, D, E, F, G, H, I)| c.model());
            candidates.push((self.0.duplicate(), self.1.duplicate(), self.2.duplicate(), replacement, self.4.duplicate(), self.5.duplicate(), self.6.duplicate(), self.7.duplicate(), self.8.duplicate()));
            assert(candidates@.map_values(|c: (A, B, C, D, E, F, G, H, I)| c.model()) =~= prev.push(block[j as int]));
            assert(block.take(j + 1) =~= block.take(j as int).push(block[j as int]));
            j = j + 1;
        }
        assert(block.take(j as int) =~= block);
        proof {
            done = done + block;
        }
        let smaller = self.4.shrink();
        let ghost options = self.4.shrink_models();
        let ghost block = self.4.shrink_models().map_values(|m: E::Model| (self.0.model(), self.1.model(), self.2.model(), self.3.model(), m, self.5.model(), self.6.model(), self.7.model(), self.8.model()));
        let mut j: usize = 0;
        while j < smaller.len()
            invariant
                Self::obeys_arbitrary(),
                smaller@.len() == options.len(),
                options == self.4.shrink_models(),
                block == self.4.shrink_models().map_values(|m: E::Model| (self.0.model(), self.1.model(), self.2.model(), self.3.model(), m, self.5.model(), self.6.model(), self.7.model(), self.8.model())),
                forall|k: int| 0 <= k < smaller@.len() ==> #[trigger] smaller@[k].model() == options[k],
                j <= smaller@.len(),
                candidates@.map_values(|c: (A, B, C, D, E, F, G, H, I)| c.model()) == done + block.take(j as int),
            decreases smaller@.len() - j,
        {
            let replacement = smaller[j].duplicate();
            let ghost prev = candidates@.map_values(|c: (A, B, C, D, E, F, G, H, I)| c.model());
            candidates.push((self.0.duplicate(), self.1.duplicate(), self.2.duplicate(), self.3.duplicate(), replacement, self.5.duplicate(), self.6.duplicate(), self.7.duplicate(), self.8.duplicate()));
            assert(candidates@.map_values(|c: (A, B, C, D, E, F, G, H, I)| c.model()) =~= prev.push(block[j as int]));
            assert(block.take(j + 1) =~= block.take(j as int).push(block[j as int]));
            j = j + 1;
        }
        assert(block.take(j as int) =~= block);
        proof {
            done = done + block;
        }
        let smaller = self.5.shrink();
        let ghost options = self.5.shrink_models();
        let ghost block = self.5.shrink_models().map_values(|m: F::Model| (self.0.model(), self.1.model(), self.2.model(), self.3.model(), self.4.model(), m, self.6.model(), self.7.model(), self.8.model()));
        let mut j: usize = 0;
        while j < smaller.len()
            invariant
                Self::obeys_arbitrary(),
                smaller@.len() == options.len(),
                options == self.5.shrink_models(),
                block == self.5.shrink_models().map_values(|m: F::Model| (self.0.model(), self.1.model(), self.2.model(), self.3.model(), self.4.model(), m, self.6.model(), self.7.model(), self.8.model())),
                forall|k: int| 0 <= k < smaller@.len() ==> #[trigger] smaller@[k].model() == options[k],
                j <= smaller@.len(),
                candidates@.map_values(|c: (A, B, C, D, E, F, G, H, I)| c.model()) == done + block.take(j as int),
            decreases smaller@.len() - j,
        {
            let replacement = smaller[j].duplicate();
            let ghost prev = candidates@.map_values(|c: (A, B, C, D, E, F, G, H, I)| c.model());
            candidates.push((self.0.duplicate(), self.1.duplicate(), self.2.duplicate(), self.3.duplicate(), self.4.duplicate(), replacement, self.6.duplicate(), self.7.duplicate(), self.8.duplicate()));
            assert(candidates@.map_values(|c: (A, B, C, D, E, F, G, H, I)| c.model()) =~= prev.push(block[j as int]));
            assert(block.take(j + 1) =~= block.take(j as int).push(block[j as int]));
            j = j + 1;
        }
        assert(block.take(j as int) =~= block);
        proof {
            done = done + block;
        }
        let smaller = self.6.shrink();
        let ghost options = self.6.shrink_models();
        let ghost block = self.6.shrink_models().map_values(|m: G::Model| (self.0.model(), self.1.model(), self.2.model(), self.3.model(), self.4.model(), self.5.model(), m, self.7.model(), self.8.model()));
        let mut j: usize = 0;
        while j < smaller.len()
            invariant
                Self::obeys_arbitrary(),
                smaller@.len() == options.len(),
                options == self.6.shrink_models(),
                block == self.6.shrink_models().map_values(|m: G::Model| (self.0.model(), self.1.model(), self.2.model(), self.3.model(), self.4.model(), self.5.model(), m, self.7.model(), self.8.model())),
                forall|k: int| 0 <= k < smaller@.len() ==> #[trigger] smaller@[k].model() == options[k],
                j <= smaller@.len(),
                candidates@.map_values(|c: (A, B, C, D, E, F, G, H, I)| c.model()) == done + block.take(j as int),
            decreases smaller@.len() - j,
        {
            let replacement = smaller[j].duplicate();
            let ghost prev = candidates@.map_values(|c: (A, B, C, D, E, F, G, H, I)| c.model());
            candidates.push((self.0.duplicate(), self.1.duplicate(), self.2.duplicate(), self.3.duplicate(), self.4.duplicate(), self.5.duplicate(), replacement, self.7.duplicate(), self.8.duplicate()));
            assert(candidates@.map_values(|c: (A, B, C, D, E, F, G, H, I)| c.model()) =~= prev.push(block[j as int]));
            assert(block.take(j + 1) =~= block.take(j as int).push(block[j as int]));
            j = j + 1;
        }
        assert(block.take(j as int) =~= block);
        proof {
            done = done + block;
        }
        let smaller = self.7.shrink();
        let ghost options = self.7.shrink_models();
        let ghost block = self.7.shrink_models().map_values(|m: H::Model| (self.0.model(), self.1.model(), self.2.model(), self.3.model(), self.4.model(), self.5.model(), self.6.model(), m, self.8.model()));
        let mut j: usize = 0;
        while j < smaller.len()
            invariant
                Self::obeys_arbitrary(),
                smaller@.len() == options.len(),
                options == self.7.shrink_models(),
                block == self.7.shrink_models().map_values(|m: H::Model| (self.0.model(), self.1.model(), self.2.model(), self.3.model(), self.4.model(), self.5.model(), self.6.model(), m, self.8.model())),
                forall|k: int| 0 <= k < smaller@.len() ==> #[trigger] smaller@[k].model() == options[k],
                j <= smaller@.len(),
                candidates@.map_values(|c: (A, B, C, D, E, F, G, H, I)| c.model()) == done + block.take(j as int),
            decreases smaller@.len() - j,
        {
            let replacement = smaller[j].duplicate();
            let ghost prev = candidates@.map_values(|c: (A, B, C, D, E, F, G, H, I)| c.model());
            candidates.push((self.0.duplicate(), self.1.duplicate(), self.2.duplicate(), self.3.duplicate(), self.4.duplicate(), self.5.duplicate(), self.6.duplicate(), replacement, self.8.duplicate()));
            assert(candidates@.map_values(|c: (A, B, C, D, E, F, G, H, I)| c.model()) =~= prev.push(block[j as int]));
            assert(block.take(j + 1) =~= block.take(j as int).push(block[j as int]));
            j = j + 1;
        }
        assert(block.take(j as int) =~= block);
        proof {
            done = done + block;
        }
        let smaller = self.8.shrink();
        let ghost options = self.8.shrink_models();
        let ghost block = self.8.shrink_models().map_values(|m: I::Model| (self.0.model(), self.1.model(), self.2.model(), self.3.model(), self.4.model(), self.5.model(), self.6.model(), self.7.model(), m));
        let mut j: usize = 0;
        while j < smaller.len()
            invariant
                Self::obeys_arbitrary(),
                smaller@.len() == options.len(),
                options == self.8.shrink_models(),
                block == self.8.shrink_models().map_values(|m: I::Model| (self.0.model(), self.1.model(), self.2.model(), self.3.model(), self.4.model(), self.5.model(), self.6.model(), self.7.model(), m)),
                forall|k: int| 0 <= k < smaller@.len() ==> #[trigger] smaller@[k].model() == options[k],
                j <= smaller@.len(),
                candidates@.map_values(|c: (A, B, C, D, E, F, G, H, I)| c.model()) == done + block.take(j as int),
            decreases smaller@.len() - j,
        {
            let replacement = smaller[j].duplicate();
            let ghost prev = candidates@.map_values(|c: (A, B, C, D, E, F, G, H, I)| c.model());
            candidates.push((self.0.duplicate(), self.1.duplicate(), self.2.duplicate(), self.3.duplicate(), self.4.duplicate(), self.5.duplicate(), self.6.duplicate(), self.7.duplicate(), replacement));
            assert(candidates@.map_values(|c: (A, B, C, D, E, F, G, H, I)| c.model()) =~= prev.push(block[j as int]));
            assert(block.take(j + 1) =~= block.take(j as int).push(block[j as int]));
            j = j + 1;
        }
        assert(block.take(j as int) =~= block);
        proof {
            done = done + block;
        }
        assert(done =~= self.shrink_models());
        candidates
    }
}

/// Tuples of 10 are generated component by component, in order, and
/// shrink component-wise: the candidates that shrink the first component
/// (the others kept), then those that shrink the second, and so on.
impl<A: Arbitrary, B: Arbitrary, C: Arbitrary, D: Arbitrary, E: Arbitrary, F: Arbitrary, G: Arbitrary, H: Arbitrary, I: Arbitrary, J: Arbitrary> Arbitrary for (A, B, C, D, E, F, G, H, I, J) {
    type Model = (A::Model, B::Model, C::Model, D::Model, E::Model, F::Model, G::Model, H::Model, I::Model, J::Model);

    open spec fn model(&self) -> (A::Model, B::Model, C::Model, D::Model, E::Model, F::Model, G::Model, H::Model, I::Model, J::Model) {
        (self.0.model(), self.1.model(), self.2.model(), self.3.model(), self.4.model(), self.5.model(), self.6.model(), self.7.model(), self.8.model(), self.9.model())
    }

    open spec fn obeys_arbitrary() -> bool {
        A::obeys_arbitrary() && B::obeys_arbitrary() && C::obeys_arbitrary() && D::obeys_arbitrary() && E::obeys_arbitrary() && F::obeys_arbitrary() && G::obeys_arbitrary() && H::obeys_arbitrary() && I::obeys_arbitrary() && J::obeys_arbitrary()
    }

    open spec fn shrinks_by_model() -> bool {
        A::shrinks_by_model() && B::shrinks_by_model() && C::shrinks_by_model() && D::shrinks_by_model() && E::shrinks_by_model() && F::shrinks_by_model() && G::shrinks_by_model() && H::shrinks_by_model() && I::shrinks_by_model() && J::shrinks_by_model()
    }

    open spec fn within_size(m: (A::Model, B::Model, C::Model, D::Model, E::Model, F::Model, G::Model, H::Model, I::Model, J::Model), size: nat) -> bool {
        A::within_size(m.0, size) && B::within_size(m.1, size) && C::within_size(m.2, size) && D::within_size(m.3, size) && E::within_size(m.4, size) && F::within_size(m.5, size) && G::within_size(m.6, size) && H::within_size(m.7, size) && I::within_size(m.8, size) && J::within_size(m.9, size)
    }

    /// The components are generated one after the other, in order.
    open spec fn generated(size: nat, before: Seq<Sample>, m: (A::Model, B::Model, C::Model, D::Model, E::Model, F::Model, G::Model, H::Model, I::Model, J::Model), after: Seq<Sample>) -> bool {
        exists|s1: Seq<Sample>, s2: Seq<Sample>, s3: Seq<Sample>, s4: Seq<Sample>, s5: Seq<Sample>, s6: Seq<Sample>, s7: Seq<Sample>, s8: Seq<Sample>, s9: Seq<Sample>|
            #![trigger B::generated(size, s1, m.1, s2), D::generated(size, s3, m.3, s4), F::generated(size, s5, m.5, s6), H::generated(size, s7, m.7, s8), J::generated(size, s9, m.9, after)]
            A::generated(size, before, m.0, s1) && B::generated(size, s1, m.1, s2) && C::generated(size, s2, m.2, s3) && D::generated(size, s3, m.3, s4) && E::generated(size, s4, m.4, s5) && F::generated(size, s5, m.5, s6) && G::generated(size, s6, m.6, s7) && H::generated(size, s7, m.7, s8) && I::generated(size, s8, m.8, s9) && J::generated(size, s9, m.9, after)
    }

    open spec fn shrink_models(&self) -> Seq<(A::Model, B::Model, C::Model, D::Model, E::Model, F::Model, G::Model, H::Model, I::Model, J::Model)> {
        self.0.shrink_models().map_values(|m: A::Model| (m, self.1.model(), self.2.model(), self.3.model(), self.4.model(), self.5.model(), self.6.model(), self.7.model(), self.8.model(), self.9.model())) + self.1.shrink_models().map_values(|m: B::Model| (self.0.model(), m, self.2.model(), self.3.model(), self.4.model(), self.5.model(), self.6.model(), self.7.model(), self.8.model(), self.9.model())) + self.2.shrink_models().map_values(|m: C::Model| (self.0.model(), self.1.model(), m, self.3.model(), self.4.model(), self.5.model(), self.6.model(), self.7.model(), self.8.model(), self.9.model())) + self.3.shrink_models().map_values(|m: D::Model| (self.0.model(), self.1.model(), self.2.model(), m, self.4.model(), self.5.model(), self.6.model(), self.7.model(), self.8.model(), self.9.model())) + self.4.shrink_models().map_values(|m: E::Model| (self.0.model(), self.1.model(), self.2.model(), self.3.model(), m, self.5.model(), self.6.model(), self.7.model(), self.8.model(), self.9.model())) + self.5.shrink_models().map_values(|m: F::Model| (self.0.model(), self.1.model(), self.2.model(), self.3.model(), self.4.model(), m, self.6.model(), self.7.model(), self.8.model(), self.9.model())) + self.6.shrink_models().map_values(|m: G::Model| (self.0.model(), self.1.model(), self.2.model(), self.3.model(), self.4.model(), self.5.model(), m, self.7.model(), self.8.model(), self.9.model())) + self.7.shrink_models().map_values(|m: H::Model| (self.0.model(), self.1.model(), self.2.model(), self.3.model(), self.4.model(), self.5.model(), self.6.model(), m, self.8.model(), self.9.model())) + self.8.shrink_models().map_values(|m: I::Model| (self.0.model(), self.1.model(), self.2.model(), self.3.model(), self.4.model(), self.5.model(), self.6.model(), self.7.model(), m, self.9.model())) + self.9.shrink_models().map_values(|m: J::Model| (self.0.model(), self.1.model(), self.2.model(), self.3.model(), self.4.model(), self.5.model(), self.6.model(), self.7.model(), self.8.model(), m))
    }

    proof fn lemma_shrinks_differ(&self) {
        if Self::shrinks_by_model() {
            self.0.lemma_shrinks_differ();
            let b0 = self.0.shrink_models().map_values(|m: A::Model| (m, self.1.model(), self.2.model(), self.3.model(), self.4.model(), self.5.model(), self.6.model(), self.7.model(), self.8.model(), self.9.model()));
            assert forall|k: int| 0 <= k < b0.len() implies #[trigger] b0[k] != self.model() by {
                assert(b0[k].0 == self.0.shrink_models()[k]);
            }
            self.1.lemma_shrinks_differ();
            let b1 = self.1.shrink_models().map_values(|m: B::Model| (self.0.model(), m, self.2.model(), self.3.model(), self.4.model(), self.5.model(), self.6.model(), self.7.model(), self.8.model(), self.9.model()));
            assert forall|k: int| 0 <= k < b1.len() implies #[trigger] b1[k] != self.model() by {
                assert(b1[k].1 == self.1.shrink_models()[k]);
            }
            self.2.lemma_shrinks_differ();
            let b2 = self.2.shrink_models().map_values(|m: C::Model| (self.0.model(), self.1.model(), m, self.3.model(), self.4.model(), self.5.model(), self.6.model(), self.7.model(), self.8.model(), self.9.model()));
            assert forall|k: int| 0 <= k < b2.len() implies #[trigger] b2[k] != self.model() by {
                assert(b2[k].2 == self.2.shrink_models()[k]);
            }
            self.3.lemma_shrinks_differ();
            let b3 = self.3.shrink_models().map_values(|m: D::Model| (self.0.model(), self.1.model(), self.2.model(), m, self.4.model(), self.5.model(), self.6.model(), self.7.model(), self.8.model(), self.9.model()));
            assert forall|k: int| 0 <= k < b3.len() implies #[trigger] b3[k] != self.model() by {
                assert(b3[k].3 == self.3.shrink_models()[k]);
            }
            self.4.lemma_shrinks_differ();
            let b4 = self.4.shrink_models().map_values(|m: E::Model| (self.0.model(), self.1.model(), self.2.model(), self.3.model(), m, self.5.model(), self.6.model(), self.7.model(), self.8.model(), self.9.model()));
            assert forall|k: int| 0 <= k < b4.len() implies #[trigger] b4[k] != self.model() by {
                assert(b4[k].4 == self.4.shrink_models()[k]);
            }
            self.5.lemma_shrinks_differ();
            let b5 = self.5.shrink_models().map_values(|m: F::Model| (self.0.model(), self.1.model(), self.2.model(), self.3.model(), self.4.model(), m, self.6.model(), self.7.model(), self.8.model(), self.9.model()));
            assert forall|k: int| 0 <= k < b5.len() implies #[trigger] b5[k] != self.model() by {
                assert(b5[k].5 == self.5.shrink_models()[k]);
            }
            self.6.lemma_shrinks_differ();
            let b6 = self.6.shrink_models().map_values(|m: G::Model| (self.0.model(), self.1.model(), self.2.model(), self.3.model(), self.4.model(), self.5.model(), m, self.7.model(), self.8.model(), self.9.model()));
            assert forall|k: int| 0 <= k < b6.len() implies #[trigger] b6[k] != self.model() by {
                assert(b6[k].6 == self.6.shrink_models()[k]);
            }
            self.7.lemma_shrinks_differ();
            let b7 = self.7.shrink_models().map_values(|m: H::Model| (self.0.model(), self.1.model(), self.2.model(), self.3.model(), self.4.model(), self.5.model(), self.6.model(), m, self.8.model(), self.9.model()));
            assert forall|k: int| 0 <= k < b7.len() implies #[trigger] b7[k] != self.model() by {
                assert(b7[k].7 == self.7.shrink_models()[k]);
            }
            self.8.lemma_shrinks_differ();
            let b8 = self.8.shrink_models().map_values(|m: I::Model| (self.0.model(), self.1.model(), self.2.model(), self.3.model(), self.4.model(), self.5.model(), self.6.model(), self.7.model(), m, self.9.model()));
            assert forall|k: int| 0 <= k < b8.len() implies #[trigger] b8[k] != self.model() by {
                assert(b8[k].8 == self.8.shrink_models()[k]);
            }
            self.9.lemma_shrinks_differ();
            let b9 = self.9.shrink_models().map_values(|m: J::Model| (self.0.model(), self.1.model(), self.2.model(), self.3.model(), self.4.model(), self.5.model(), self.6.model(), self.7.model(), self.8.model(), m));
            assert forall|k: int| 0 <= k < b9.len() implies #[trigger] b9[k] != self.model() by {
                assert(b9[k].9 == self.9.shrink_models()[k]);
            }
            lemma_concat_differ(b0, b1, self.model());
            lemma_concat_differ(b0 + b1, b2, self.model());
            lemma_concat_differ(b0 + b1 + b2, b3, self.model());
            lemma_concat_differ(b0 + b1 + b2 + b3, b4, self.model());
            lemma_concat_differ(b0 + b1 + b2 + b3 + b4, b5, self.model());
            lemma_concat_differ(b0 + b1 + b2 + b3 + b4 + b5, b6, self.model());
            lemma_concat_differ(b0 + b1 + b2 + b3 + b4 + b5 + b6, b7, self.model());
            lemma_concat_differ(b0 + b1 + b2 + b3 + b4 + b5 + b6 + b7, b8, self.model());
            lemma_concat_differ(b0 + b1 + b2 + b3 + b4 + b5 + b6 + b7 + b8, b9, self.model());
            assert(self.shrink_models() == b0 + b1 + b2 + b3 + b4 + b5 + b6 + b7 + b8 + b9);
        }
    }

    proof fn lemma_shrinks_follow_model(x: &(A, B, C, D, E, F, G, H, I, J), y: &(A, B, C, D, E, F, G, H, I, J)) {
        if Self::shrinks_by_model() {
            A::lemma_shrinks_follow_model(&x.0, &y.0);
            B::lemma_shrinks_follow_model(&x.1, &y.1);
            C::lemma_shrinks_follow_model(&x.2, &y.2);
            D::lemma_shrinks_follow_model(&x.3, &y.3);
            E::lemma_shrinks_follow_model(&x.4, &y.4);
            F::lemma_shrinks_follow_model(&x.5, &y.5);
            G::lemma_shrinks_follow_model(&x.6, &y.6);
            H::lemma_shrinks_follow_model(&x.7, &y.7);
            I::lemma_shrinks_follow_model(&x.8, &y.8);
            J::lemma_shrinks_follow_model(&x.9, &y.9);
            assert(x.0.shrink_models().map_values(|m: A::Model| (m, x.1.model(), x.2.model(), x.3.model(), x.4.model(), x.5.model(), x.6.model(), x.7.model(), x.8.model(), x.9.model())) =~= y.0.shrink_models().map_values(|m: A::Model| (m, y.1.model(), y.2.model(), y.3.model(), y.4.model(), y.5.model(), y.6.model(), y.7.model(), y.8.model(), y.9.model())));
            assert(x.1.shrink_models().map_values(|m: B::Model| (x.0.model(), m, x.2.model(), x.3.model(), x.4.model(), x.5.model(), x.6.model(), x.7.model(), x.8.model(), x.9.model())) =~= y.1.shrink_models().map_values(|m: B::Model| (y.0.model(), m, y.2.model(), y.3.model(), y.4.model(), y.5.model(), y.6.model(), y.7.model(), y.8.model(), y.9.model())));
            assert(x.2.shrink_models().map_values(|m: C::Model| (x.0.model(), x.1.model(), m, x.3.model(), x.4.model(), x.5.model(), x.6.model(), x.7.model(), x.8.model(), x.9.model())) =~= y.2.shrink_models().map_values(|m: C::Model| (y.0.model(), y.1.model(), m, y.3.model(), y.4.model(), y.5.model(), y.6.model(), y.7.model(), y.8.model(), y.9.model())));
            assert(x.3.shrink_models().map_values(|m: D::Model| (x.0.model(), x.1.model(), x.2.model(), m, x.4.model(), x.5.model(), x.6.model(), x.7.model(), x.8.model(), x.9.model())) =~= y.3.shrink_models().map_values(|m: D::Model| (y.0.model(), y.1.model(), y.2.model(), m, y.4.model(), y.5.model(), y.6.model(), y.7.model(), y.8.model(), y.9.model())));
            assert(x.4.shrink_models().map_values(|m: E::Model| (x.0.model(), x.1.model(), x.2.model(), x.3.model(), m, x.5.model(), x.6.model(), x.7.model(), x.8.model(), x.9.model())) =~= y.4.shrink_models().map_values(|m: E::Model| (y.0.model(), y.1.model(), y.2.model(), y.3.model(), m, y.5.model(), y.6.model(), y.7.model(), y.8.model(), y.9.model())));
            assert(x.5.shrink_models().map_values(|m: F::Model| (x.0.model(), x.1.model(), x.2.model(), x.3.model(), x.4.model(), m, x.6.model(), x.7.model(), x.8.model(), x.9.model())) =~= y.5.shrink_models().map_values(|m: F::Model| (y.0.model(), y.1.model(), y.2.model(), y.3.model(), y.4.model(), m, y.6.model(), y.7.model(), y.8.model(), y.9.model())));
            assert(x.6.shrink_models().map_values(|m: G::Model| (x.0.model(), x.1.model(), x.2.model(), x.3.model(), x.4.model(), x.5.model(), m, x.7.model(), x.8.model(), x.9.model())) =~= y.6.shrink_models().map_values(|m: G::Model| (y.0.model(), y.1.model(), y.2.model(), y.3.model(), y.4.model(), y.5.model(), m, y.7.model(), y.8.model(), y.9.model())));
            assert(x.7.shrink_models().map_values(|m: H::Model| (x.0.model(), x.1.model(), x.2.model(), x.3.model(), x.4.model(), x.5.model(), x.6.model(), m, x.8.model(), x.9.model())) =~= y.7.shrink_models().map_values(|m: H::Model| (y.0.model(), y.1.model(), y.2.model(), y.3.model(), y.4.model(), y.5.model(), y.6.model(), m, y.8.model(), y.9.model())));
            assert(x.8.shrink_models().map_values(|m: I::Model| (x.0.model(), x.1.model(), x.2.model(), x.3.model(), x.4.model(), x.5.model(), x.6.model(), x.7.model(), m, x.9.model())) =~= y.8.shrink_models().map_values(|m: I::Model| (y.0.model(), y.1.model(), y.2.model(), y.3.model(), y.4.model(), y.5.model(), y.6.model(), y.7.model(), m, y.9.model())));
            assert(x.9.shrink_models().map_values(|m: J::Model| (x.0.model(), x.1.model(), x.2.model(), x.3.model(), x.4.model(), x.5.model(), x.6.model(), x.7.model(), x.8.model(), m)) =~= y.9.shrink_models().map_values(|m: J::Model| (y.0.model(), y.1.model(), y.2.model(), y.3.model(), y.4.model(), y.5.model(), y.6.model(), y.7.model(), y.8.model(), m)));
        }
    }

    fn duplicate(&self) -> (r: (A, B, C, D, E, F, G, H, I, J)) {
        (self.0.duplicate(), self.1.duplicate(), self.2.duplicate(), self.3.duplicate(), self.4.duplicate(), self.5.duplicate(), self.6.duplicate(), self.7.duplicate(), self.8.duplicate(), self.9.duplicate())
    }

    #[verifier::spinoff_prover]
    #[verifier::rlimit(40)]
    fn arbitrary(g: &mut Gen) -> (r: (A, B, C, D, E, F, G, H, I, J)) {
        let e0 = A::arbitrary(g);
        let ghost s1 = g.samples();
        let e1 = B::arbitrary(g);
        let ghost s2 = g.samples();
        let e2 = C::arbitrary(g);
        let ghost s3 = g.samples();
        let e3 = D::arbitrary(g);
        let ghost s4 = g.samples();
        let e4 = E::arbitrary(g);
        let ghost s5 = g.samples();
        let e5 = F::arbitrary(g);
        let ghost s6 = g.samples();
        let e6 = G::arbitrary(g);
        let ghost s7 = g.samples();
        let e7 = H::arbitrary(g);
        let ghost s8 = g.samples();
        let e8 = I::arbitrary(g);
        let ghost s9 = g.samples();
        let e9 = J::arbitrary(g);
        assert(A::generated(old(g).spec_size() as nat, old(g).samples(), e0.model(), s1) && B::generated(old(g).spec_size() as nat, s1, e1.model(), s2) && C::generated(old(g).spec_size() as nat, s2, e2.model(), s3) && D::generated(old(g).spec_size() as nat, s3, e3.model(), s4) && E::generated(old(g).spec_size() as nat, s4, e4.model(), s5) && F::generated(old(g).spec_size() as nat, s5, e5.model(), s6) && G::generated(old(g).spec_size() as nat, s6, e6.model(), s7) && H::generated(old(g).spec_size() as nat, s7, e7.model(), s8) && I::generated(old(g).spec_size() as nat, s8, e8.model(), s9) && J::generated(old(g).spec_size() as nat, s9, e9.model(), g.samples()));
        proof {
            lemma_tuple10_generated::<A, B, C, D, E, F, G, H, I, J>(old(g).spec_size() as nat, old(g).samples(), s1, s2, s3, s4, s5, s6, s7, s8, s9, g.samples(), e0.model(), e1.model(), e2.model(), e3.model(), e4.model(), e5.model(), e6.model(), e7.model(), e8.model(), e9.model());
        }
        (e0, e1, e2, e3, e4, e5, e6, e7, e8, e9)
    }

    fn shrink(&self) -> (r: Vec<(A, B, C, D, E, F, G, H, I, J)>) {
        let mut candidates: Vec<(A, B, C, D, E, F, G, H, I, J)> = Vec::new();
        let ghost done: Seq<(A::Model, B::Model, C::Model, D::Model, E::Model, F::Model, G::Model, H::Model, I::Model, J::Model)> = seq![];
        assert(candidates@.map_values(|c: (A, B, C, D, E, F, G, H, I, J)| c.model()) =~= done);
        let smaller = self.0.shrink();
        let ghost options = self.0.shrink_models();
        let ghost block = self.0.shrink_models().map_values(|m: A::Model| (m, self.1.model(), self.2.model(), self.3.model(), self.4.model(), self.5.model(), self.6.model(), self.7.model(), self.8.model(), self.9.model()));
        let mut j: usize = 0;
        while j < smaller.len()
            invariant
                Self::obeys_arbitrary(),
                smaller@.len() == options.len(),
                options == self.0.shrink_models(),
                block == self.0.shrink_models().map_values(|m: A::Model| (m, self.1.model(), self.2.model(), self.3.model(), self.4.model(), self.5.model(), self.6.model(), self.7.model(), self.8.model(), self.9.model())),
                forall|k: int| 0 <= k < smaller@.len() ==> #[trigger] smaller@[k].model() == options[k],
                j <= smaller@.len(),
                candidates@.map_values(|c: (A, B, C, D, E, F, G, H, I, J)| c.model()) == done + block.take(j as int),
            decreases smaller@.len() - j,
        {
            let replacement = smaller[j].duplicate();
            let ghost prev = candidates@.map_values(|c: (A, B, C, D, E, F, G, H, I, J)| c.model());
            candidates.push((replacement, self.1.duplicate(), self.2.duplicate(), self.3.duplicate(), self.4.duplicate(), self.5.duplicate(), self.6.duplicate(), self.7.duplicate(), self.8.duplicate(), self.9.duplicate()));
            assert(candidates@.map_values(|c: (A, B, C, D, E, F, G, H, I, J)| c.model()) =~= prev.push(block[j as int]));
            assert(block.take(j + 1) =~= block.take(j as int).push(block[j as int]));
            j = j + 1;
        }
        assert(block.take(j as int) =~= block);
        proof {
            done = done + block;
        }
        let smaller = self.1.shrink();
        let ghost options = self.1.shrink_models();
        let ghost block = self.1.shrink_models().map_values(|m: B::Model| (self.0.model(), m, self.2.model(), self.3.model(), self.4.model(), self.5.model(), self.6.model(), self.7.model(), self.8.model(), self.9.model()));
        let mut j: usize = 0;
        while j < smaller.len()
            invariant
                Self::obeys_arbitrary(),
                smaller@.len() == options.len(),
                options == self.1.shrink_models(),
                block == self.1.shrink_models().map_values(|m: B::Model| (self.0.model(), m, self.2.model(), self.3.model(), self.4.model(), self.5.model(), self.6.model(), self.7.model(), self.8.model(), self.9.model())),
                forall|k: int| 0 <= k < smaller@.len() ==> #[trigger] smaller@[k].model() == options[k],
                j <= smaller@.len(),
                candidates@.map_values(|c: (A, B, C, D, E, F, G, H, I, J)| c.model()) == done + block.take(j as int),
            decreases smaller@.len() - j,
        {
            let replacement = smaller[j].duplicate();
            let ghost prev = candidates@.map_values(|c: (A, B, C, D, E, F, G, H, I, J)| c.model());
            candidates.push((self.0.duplicate(), replacement, self.2.duplicate(), self.3.duplicate(), self.4.duplicate(), self.5.duplicate(), self.6.duplicate(), self.7.duplicate(), self.8.duplicate(), self.9.duplicate()));
            assert(candidates@.map_values(|c: (A, B, C, D, E, F, G, H, I, J)| c.model()) =~= prev.push(block[j as int]));
            assert(block.take(j + 1) =~= block.take(j as int).push(block[j as int]));
            j = j + 1;
        }
        assert(block.take(j as int) =~= block);
        proof {
            done = done + block;
        }
        let smaller = self.2.shrink();
        let ghost options = self.2.shrink_models();
        let ghost block = self.2.shrink_models().map_values(|m: C::Model| (self.0.model(), self.1.model(), m, self.3.model(), self.4.model(), self.5.model(), self.6.model(), self.7.model(), self.8.model(), self.9.model()));
        let mut j: usize = 0;
        while j < smaller.len()
            invariant
                Self::obeys_arbitrary(),
                smaller@.len() == options.len(),
                options == self.2.shrink_models(),
                block == self.2.shrink_models().map_values(|m: C::Model| (self.0.model(), self.1.model(), m, self.3.model(), self.4.model(), self.5.model(), self.6.model(), self.7.model(), self.8.model(), self.9.model())),
                forall|k: int| 0 <= k < smaller@.len() ==> #[trigger] smaller@[k].model() == options[k],
                j <= smaller@.len(),
                candidates@.map_values(|c: (A, B, C, D, E, F, G, H, I, J)| c.model()) == done + block.take(j as int),
            decreases smaller@.len() - j,
        {
            let replacement = smaller[j].duplicate();
            let ghost prev = candidates@.map_values(|c: (A, B, C, D, E, F, G, H, I, J)| c.model());
            candidates.push((self.0.duplicate(), self.1.duplicate(), replacement, self.3.duplicate(), self.4.duplicate(), self.5.duplicate(), self.6.duplicate(), self.7.duplicate(), self.8.duplicate(), self.9.duplicate()));
            assert(candidates@.map_values(|c: (A, B, C, D, E, F, G, H, I, J)| c.model()) =~= prev.push(block[j as int]));
            assert(block.take(j + 1) =~= block.take(j as int).push(block[j as int]));
            j = j + 1;
        }
        assert(block.take(j as int) =~= block);
        proof {
            done = done + block;
        }
        let smaller = self.3.shrink();
        let ghost options = self.3.shrink_models();
        let ghost block = self.3.shrink_models().map_values(|m: D::Model| (self.0.model(), self.1.model(), self.2.model(), m, self.4.model(), self.5.model(), self.6.model(), self.7.model(), self.8.model(), self.9.model()));
        let mut j: usize = 0;
        while j < smaller.len()
            invariant
                Self::obeys_arbitrary(),
                smaller@.len() == options.len(),
                options == self.3.shrink_models(),
                block == self.3.shrink_models().map_values(|m: D::Model| (self.0.model(), self.1.model(), self.2.model(), m, self.4.model(), self.5.model(), self.6.model(), self.7.model(), self.8.model(), self.9.model())),
                forall|k: int| 0 <= k < smaller@.len() ==> #[trigger] smaller@[k].model() == options[k],
                j <= smaller@.len(),
                candidates@.map_values(|c: (A, B, C, D, E, F, G, H, I, J)| c.model()) == done + block.take(j as int),
            decreases smaller@.len() - j,
        {
            let replacement = smaller[j].duplicate();
            let ghost prev = candidates@.map_values(|c: (A, B, C, D, E, F, G, H, I, J)| c.model());
            candidates.push((self.0.duplicate(), self.1.duplicate(), self.2.duplicate(), replacement, self.4.duplicate(), self.5.duplicate(), self.6.duplicate(), self.7.duplicate(), self.8.duplicate(), self.9.duplicate()));
            assert(candidates@.map_values(|c: (A, B, C, D, E, F, G, H, I, J)| c.model()) =~= prev.push(block[j as int]));
            assert(block.take(j + 1) =~= block.take(j as int).push(block[j as int]));
            j = j + 1;
        }
        assert(block.take(j as int) =~= block);
        proof {
            done = done + block;
        }
        let smaller = self.4.shrink();
        let ghost options = self.4.shrink_models();
        let ghost block = self.4.shrink_models().map_values(|m: E::Model| (self.0.model(), self.1.model(), self.2.model(), self.3.model(), m, self.5.model(), self.6.model(), self.7.model(), self.8.model(), self.9.model()));
        let mut j: usize = 0;
        while j < smaller.len()
            invariant
                Self::obeys_arbitrary(),
                smaller@.len() == options.len(),
                options == self.4.shrink_models(),
                block == self.4.shrink_models().map_values(|m: E::Model| (self.0.model(), self.1.model(), self.2.model(), self.3.model(), m, self.5.model(), self.6.model(), self.7.model(), self.8.model(), self.9.model())),
                forall|k: int| 0 <= k < smaller@.len() ==> #[trigger] smaller@[k].model() == options[k],
                j <= smaller@.len(),
                candidates@.map_values(|c: (A, B, C, D, E, F, G, H, I, J)| c.model()) == done + block.take(j as int),
            decreases smaller@.len() - j,
        {
            let replacement = smaller[j].duplicate();
            let ghost prev = candidates@.map_values(|c: (A, B, C, D, E, F, G, H, I, J)| c.model());
            candidates.push((self.0.duplicate(), self.1.duplicate(), self.2.duplicate(), self.3.duplicate(), replacement, self.5.duplicate(), self.6.duplicate(), self.7.duplicate(), self.8.duplicate(), self.9.duplicate()));
            assert(candidates@.map_values(|c: (A, B, C, D, E, F, G, H, I, J)| c.model()) =~= prev.push(block[j as int]));
            assert(block.take(j + 1) =~= block.take(j as int).push(block[j as int]));
            j = j + 1;
        }
        assert(block.take(j as int) =~= block);
        proof {
            done = done + block;
        }
        let smaller = self.5.shrink();
        let ghost options = self.5.shrink_models();
        let ghost block = self.5.shrink_models().map_values(|m: F::Model| (self.0.model(), self.1.model(), self.2.model(), self.3.model(), self.4.model(), m, self.6.model(), self.7.model(), self.8.model(), self.9.model()));
        let mut j: usize = 0;
        while j < smaller.len()
            invariant
                Self::obeys_arbitrary(),
                smaller@.len() == options.len(),
                options == self.5.shrink_models(),
                block == self.5.shrink_models().map_values(|m: F::Model| (self.0.model(), self.1.model(), self.2.model(), self.3.model(), self.4.model(), m, self.6.model(), self.7.model(), self.8.model(), self.9.model())),
                forall|k: int| 0 <= k < smaller@.len() ==> #[trigger] smaller@[k].model() == options[k],
                j <= smaller@.len(),
                candidates@.map_values(|c: (A, B, C, D, E, F, G, H, I, J)| c.model()) == done + block.take(j as int),
            decreases smaller@.len() - j,
        {
            let replacement = smaller[j].duplicate();
            let ghost prev = candidates@.map_values(|c: (A, B, C, D, E, F, G, H, I, J)| c.model());
            candidates.push((self.0.duplicate(), self.1.duplicate(), self.2.duplicate(), self.3.duplicate(), self.4.duplicate(), replacement, self.6.duplicate(), self.7.duplicate(), self.8.duplicate(), self.9.duplicate()));
            assert(candidates@.map_values(|c: (A, B, C, D, E, F, G, H, I, J)| c.model()) =~= prev.push(block[j as int]));
            assert(block.take(j + 1) =~= block.take(j as int).push(block[j as int]));
            j = j + 1;
        }
        assert(block.take(j as int) =~= block);
        proof {
            done = done + block;
        }
        let smaller = self.6.shrink();
        let ghost options = self.6.shrink_models();
        let ghost block = self.6.shrink_models().map_values(|m: G::Model| (self.0.model(), self.1.model(), self.2.model(), self.3.model(), self.4.model(), self.5.model(), m, self.7.model(), self.8.model(), self.9.model()));
        let mut j: usize = 0;
        while j < smaller.len()
            invariant
                Self::obeys_arbitrary(),
                smaller@.len() == options.len(),
                options == self.6.shrink_models(),
                block == self.6.shrink_models().map_values(|m: G::Model| (self.0.model(), self.1.model(), self.2.model(), self.3.model(), self.4.model(), self.5.model(), m, self.7.model(), self.8.model(), self.9.model())),
                forall|k: int| 0 <= k < smaller@.len() ==> #[trigger] smaller@[k].model() == options[k],
                j <= smaller@.len(),
                candidates@.map_values(|c: (A, B, C, D, E, F, G, H, I, J)| c.model()) == done + block.take(j as int),
            decreases smaller@.len() - j,
        {
            let replacement = smaller[j].duplicate();
            let ghost prev = candidates@.map_values(|c: (A, B, C, D, E, F, G, H, I, J)| c.model());
            candidates.push((self.0.duplicate(), self.1.duplicate(), self.2.duplicate(), self.3.duplicate(), self.4.duplicate(), self.5.duplicate(), replacement, self.7.duplicate(), self.8.duplicate(), self.9.duplicate()));
            assert(candidates@.map_values(|c: (A, B, C, D, E, F, G, H, I, J)| c.model()) =~= prev.push(block[j as int]));
            assert(block.take(j + 1) =~= block.take(j as int).push(block[j as int]));
            j = j + 1;
        }
        assert(block.take(j as int) =~= block);
        proof {
            done = done + block;
        }
        let smaller = self.7.shrink();
        let ghost options = self.7.shrink_models();
        let ghost block = self.7.shrink_models().map_values(|m: H::Model| (self.0.model(), self.1.model(), self.2.model(), self.3.model(), self.4.model(), self.5.model(), self.6.model(), m, self.8.model(), self.9.model()));
        let mut j: usize = 0;
        while j < smaller.len()
            invariant
                Self::obeys_arbitrary(),
                smaller@.len() == options.len(),
                options == self.7.shrink_models(),
                block == self.7.shrink_models().map_values(|m: H::Model| (self.0.model(), self.1.model(), self.2.model(), self.3.model(), self.4.model(), self.5.model(), self.6.model(), m, self.8.model(), self.9.model())),
                forall|k: int| 0 <= k < smaller@.len() ==> #[trigger] smaller@[k].model() == options[k],
                j <= smaller@.len(),
                candidates@.map_values(|c: (A, B, C, D, E, F, G, H, I, J)| c.model()) == done + block.take(j as int),
            decreases smaller@.len() - j,
        {
            let replacement = smaller[j].duplicate();
            let ghost prev = candidates@.map_values(|c: (A, B, C, D, E, F, G, H, I, J)| c.model());
            candidates.push((self.0.duplicate(), self.1.duplicate(), self.2.duplicate(), self.3.duplicate(), self.4.duplicate(), self.5.duplicate(), self.6.duplicate(), replacement, self.8.duplicate(), self.9.duplicate()));
            assert(candidates@.map_values(|c: (A, B, C, D, E, F, G, H, I, J)| c.model()) =~= prev.push(block[j as int]));
            assert(block.take(j + 1) =~= block.take(j as int).push(block[j as int]));
            j = j + 1;
        }
        assert(block.take(j as int) =~= block);
        proof {
            done = done + block;
        }
        let smaller = self.8.shrink();
        let ghost options = self.8.shrink_models();
        let ghost block = self.8.shrink_models().map_values(|m: I::Model| (self.0.model(), self.1.model(), self.2.model(), self.3.model(), self.4.model(), self.5.model(), self.6.model(), self.7.model(), m, self.9.model()));
        let mut j: usize = 0;
        while j < smaller.len()
            invariant
                Self::obeys_arbitrary(),
                smaller@.len() == options.len(),
                options == self.8.shrink_models(),
                block == self.8.shrink_models().map_values(|m: I::Model| (self.0.model(), self.1.model(), self.2.model(), self.3.model(), self.4.model(), self.5.model(), self.6.model(), self.7.model(), m, self.9.model())),
                forall|k: int| 0 <= k < smaller@.len() ==> #[trigger] smaller@[k].model() == options[k],
                j <= smaller@.len(),
                candidates@.map_values(|c: (A, B, C, D, E, F, G, H, I, J)| c.model()) == done + block.take(j as int),
            decreases smaller@.len() - j,
        {
            let replacement = smaller[j].duplicate();
            let ghost prev = candidates@.map_values(|c: (A, B, C, D, E, F, G, H, I, J)| c.model());
            candidates.push((self.0.duplicate(), self.1.duplicate(), self.2.duplicate(), self.3.duplicate(), self.4.duplicate(), self.5.duplicate(), self.6.duplicate(), self.7.duplicate(), replacement, self.9.duplicate()));
            assert(candidates@.map_values(|c: (A, B, C, D, E, F, G, H, I, J)| c.model()) =~= prev.push(block[j as int]));
            assert(block.take(j + 1) =~= block.take(j as int).push(block[j as int]));
            j = j + 1;
        }
        assert(block.take(j as int) =~= block);
        proof {
            done = done + block;
        }
        let smaller = self.9.shrink();
        let ghost options = self.9.shrink_models();
        let ghost block = self.9.shrink_models().map_values(|m: J::Model| (self.0.model(), self.1.model(), self.2.model(), self.3.model(), self.4.model(), self.5.model(), self.6.model(), self.7.model(), self.8.model(), m));
        let mut j: usize = 0;
        while j < smaller.len()
            invariant
                Self::obeys_arbitrary(),
                smaller@.len() == options.len(),
                options == self.9.shrink_models(),
                block == self.9.shrink_models().map_values(|m: J::Model| (self.0.model(), self.1.model(), self.2.model(), self.3.model(), self.4.model(), self.5.model(), self.6.model(), self.7.model(), self.8.model(), m)),
                forall|k: int| 0 <= k < smaller@.len() ==> #[trigger] smaller@[k].model() == options[k],
                j <= smaller@.len(),
                candidates@.map_values(|c: (A, B, C, D, E, F, G, H, I, J)| c.model()) == done + block.take(j as int),
            decreases smaller@.len() - j,
        {
            let replacement = smaller[j].duplicate();
            let ghost prev = candidates@.map_values(|c: (A, B, C, D, E, F, G, H, I, J)| c.model());
            candidates.push((self.0.duplicate(), self.1.duplicate(), self.2.duplicate(), self.3.duplicate(), self.4.duplicate(), self.5.duplicate(), self.6.duplicate(), self.7.duplicate(), self.8.duplicate(), replacement));
            assert(candidates@.map_values(|c: (A, B, C, D, E, F, G, H, I, J)| c.model()) =~= prev.push(block[j as int]));
            assert(block.take(j + 1) =~= block.take(j as int).push(block[j as int]));
            j = j + 1;
        }
        assert(block.take(j as int) =~= block);
        proof {
            done = done + block;
        }
        assert(done =~= self.shrink_models());
        candidates
    }
}

/// Tuples of 11 are generated component by component, in order, and
/// shrink component-wise: the candidates that shrink the first component
/// (the others kept), then those that shrink the second, and so on.
impl<A: Arbitrary, B: Arbitrary, C: Arbitrary, D: Arbitrary, E: Arbitrary, F: Arbitrary, G: Arbitrary, H: Arbitrary, I: Arbitrary, J: Arbitrary, K: Arbitrary> Arbitrary for (A, B, C, D, E, F, G, H, I, J, K) {
    type Model = (A::Model, B::Model, C::Model, D::Model, E::Model, F::Model, G::Model, H::Model, I::Model, J::Model, K::Model);

    open spec fn model(&self) -> (A::Model, B::Model, C::Model, D::Model, E::Model, F::Model, G::Model, H::Model, I::Model, J::Model, K::Model) {
        (self.0.model(), self.1.model(), self.2.model(), self.3.model(), self.4.model(), self.5.model(), self.6.model(), self.7.model(), self.8.model(), self.9.model(), self.10.model())
    }

    open spec fn obeys_arbitrary() -> bool {
        A::obeys_arbitrary() && B::obeys_arbitrary() && C::obeys_arbitrary() && D::obeys_arbitrary() && E::obeys_arbitrary() && F::obeys_arbitrary() && G::obeys_arbitrary() && H::obeys_arbitrary() && I::obeys_arbitrary() && J::obeys_arbitrary() && K::obeys_arbitrary()
    }

    open spec fn shrinks_by_model() -> bool {
        A::shrinks_by_model() && B::shrinks_by_model() && C::shrinks_by_model() && D::shrinks_by_model() && E::shrinks_by_model() && F::shrinks_by_model() && G::shrinks_by_model() && H::shrinks_by_model() && I::shrinks_by_model() && J::shrinks_by_model() && K::shrinks_by_model()
    }

    open spec fn within_size(m: (A::Model, B::Model, C::Model, D::Model, E::Model, F::Model, G::Model, H::Model, I::Model, J::Model, K::Model), size: nat) -> bool {
        A::within_size(m.0, size) && B::within_size(m.1, size) && C::within_size(m.2, size) && D::within_size(m.3, size) && E::within_size(m.4, size) && F::within_size(m.5, size) && G::within_size(m.6, size) && H::within_size(m.7, size) && I::within_size(m.8, size) && J::within_size(m.9, size) && K::within_size(m.10, size)
    }

    /// The components are generated one after the other, in order.
    open spec fn generated(size: nat, before: Seq<Sample>, m: (A::Model, B::Model, C::Model, D::Model, E::Model, F::Model, G::Model, H::Model, I::Model, J::Model, K::Model), after: Seq<Sample>) -> bool {
        exists|s1: Seq<Sample>, s2: Seq<Sample>, s3: Seq<Sample>, s4: Seq<Sample>, s5: Seq<Sample>, s6: Seq<Sample>, s7: Seq<Sample>, s8: Seq<Sample>, s9: Seq<Sample>, s10: Seq<Sample>|
            #![trigger B::generated(size, s1, m.1, s2), D::generated(size, s3, m.3, s4), F::generated(size, s5, m.5, s6), H::generated(size, s7, m.7, s8), J::generated(size, s9, m.9, s10)]
            A::generated(size, before, m.0, s1) && B::generated(size, s1, m.1, s2) && C::generated(size, s2, m.2, s3) && D::generated(size, s3, m.3, s4) && E::generated(size, s4, m.4, s5) && F::generated(size, s5, m.5, s6) && G::generated(size, s6, m.6, s7) && H::generated(size, s7, m.7, s8) && I::generated(size, s8, m.8, s9) && J::generated(size, s9, m.9, s10) && K::generated(size, s10, m.10, after)
    }

    open spec fn shrink_models(&self) -> Seq<(A::Model, B::Model, C::Model, D::Model, E::Model, F::Model, G::Model, H::Model, I::Model, J::Model, K::Model)> {
        self.0.shrink_models().map_values(|m: A::Model| (m, self.1.model(), self.2.model(), self.3.model(), self.4.model(), self.5.model(), self.6.model(), self.7.model(), self.8.model(), self.9.model(), self.10.model())) + self.1.shrink_models().map_values(|m: B::Model| (self.0.model(), m, self.2.model(), self.3.model(), self.4.model(), self.5.model(), self.6.model(), self.7.model(), self.8.model(), self.9.model(), self.10.model())) + self.2.shrink_models().map_values(|m: C::Model| (self.0.model(), self.1.model(), m, self.3.model(), self.4.model(), self.5.model(), self.6.model(), self.7.model(), self.8.model(), self.9.model(), self.10.model())) + self.3.shrink_models().map_values(|m: D::Model| (self.0.model(), self.1.model(), self.2.model(), m, self.4.model(), self.5.model(), self.6.model(), self.7.model(), self.8.model(), self.9.model(), self.10.model())) + self.4.shrink_models().map_values(|m: E::Model| (self.0.model(), self.1.model(), self.2.model(), self.3.model(), m, self.5.model(), self.6.model(), self.7.model(), self.8.model(), self.9.model(), self.10.model())) + self.5.shrink_models().map_values(|m: F::Model| (self.0.model(), self.1.model(), self.2.model(), self.3.model(), self.4.model(), m, self.6.model(), self.7.model(), self.8.model(), self.9.model(), self.10.model())) + self.6.shrink_models().map_values(|m: G::Model| (self.0.model(), self.1.model(), self.2.model(), self.3.model(), self.4.model(), self.5.model(), m, self.7.model(), self.8.model(), self.9.model(), self.10.model())) + self.7.shrink_models().map_values(|m: H::Model| (self.0.model(), self.1.model(), self.2.model(), self.3.model(), self.4.model(), self.5.model(), self.6.model(), m, self.8.model(), self.9.model(), self.10.model())) + self.8.shrink_models().map_values(|m: I::Model| (self.0.model(), self.1.model(), self.2.model(), self.3.model(), self.4.model(), self.5.model(), self.6.model(), self.7.model(), m, self.9.model(), self.10.model())) + self.9.shrink_models().map_values(|m: J::Model| (self.0.model(), self.1.model(), self.2.model(), self.3.model(), self.4.model(), self.5.model(), self.6.model(), self.7.model(), self.8.model(), m, self.10.model())) + self.10.shrink_models().map_values(|m: K::Model| (self.0.model(), self.1.model(), self.2.model(), self.3.model(), self.4.model(), self.5.model(), self.6.model(), self.7.model(), self.8.model(), self.9.model(), m))
    }

    proof fn lemma_shrinks_differ(&self) {
        if Self::shrinks_by_model() {
            self.0.lemma_shrinks_differ();
            let b0 = self.0.shrink_models().map_values(|m: A::Model| (m, self.1.model(), self.2.model(), self.3.model(), self.4.model(), self.5.model(), self.6.model(), self.7.model(), self.8.model(), self.9.model(), self.10.model()));
            assert forall|k: int| 0 <= k < b0.len() implies #[trigger] b0[k] != self.model() by {
                assert(b0[k].0 == self.0.shrink_models()[k]);
            }
            self.1.lemma_shrinks_differ();
            let b1 = self.1.shrink_models().map_values(|m: B::Model| (self.0.model(), m, self.2.model(), self.3.model(), self.4.model(), self.5.model(), self.6.model(), self.7.model(), self.8.model(), self.9.model(), self.10.model()));
            assert forall|k: int| 0 <= k < b1.len() implies #[trigger] b1[k] != self.model() by {
                assert(b1[k].1 == self.1.shrink_models()[k]);
            }
            self.2.lemma_shrinks_differ();
            let b2 = self.2.shrink_models().map_values(|m: C::Model| (self.0.model(), self.1.model(), m, self.3.model(), self.4.model(), self.5.model(), self.6.model(), self.7.model(), self.8.model(), self.9.model(), self.10.model()));
            assert forall|k: int| 0 <= k < b2.len() implies #[trigger] b2[k] != self.model() by {
                assert(b2[k].2 == self.2.shrink_models()[k]);
            }
            self.3.lemma_shrinks_differ();
            let b3 = self.3.shrink_models().map_values(|m: D::Model| (self.0.model(), self.1.model(), self.2.model(), m, self.4.model(), self.5.model(), self.6.model(), self.7.model(), self.8.model(), self.9.model(), self.10.model()));
            assert forall|k: int| 0 <= k < b3.len() implies #[trigger] b3[k] != self.model() by {
                assert(b3[k].3 == self.3.shrink_models()[k]);
            }
            self.4.lemma_shrinks_differ();
            let b4 = self.4.shrink_models().map_values(|m: E::Model| (self.0.model(), self.1.model(), self.2.model(), self.3.model(), m, self.5.model(), self.6.model(), self.7.model(), self.8.model(), self.9.model(), self.10.model()));
            assert forall|k: int| 0 <= k < b4.len() implies #[trigger] b4[k] != self.model() by {
                assert(b4[k].4 == self.4.shrink_models()[k]);
            }
            self.5.lemma_shrinks_differ();
            let b5 = self.5.shrink_models().map_values(|m: F::Model| (self.0.model(), self.1.model(), self.2.model(), self.3.model(), self.4.model(), m, self.6.model(), self.7.model(), self.8.model(), self.9.model(), self.10.model()));
            assert forall|k: int| 0 <= k < b5.len() implies #[trigger] b5[k] != self.model() by {
                assert(b5[k].5 == self.5.shrink_models()[k]);
            }
            self.6.lemma_shrinks_differ();
            let b6 = self.6.shrink_models().map_values(|m: G::Model| (self.0.model(), self.1.model(), self.2.model(), self.3.model(), self.4.model(), self.5.model(), m, self.7.model(), self.8.model(), self.9.model(), self.10.model()));
            assert forall|k: int| 0 <= k < b6.len() implies #[trigger] b6[k] != self.model() by {
                assert(b6[k].6 == self.6.shrink_models()[k]);
            }
            self.7.lemma_shrinks_differ();
            let b7 = self.7.shrink_models().map_values(|m: H::Model| (self.0.model(), self.1.model(), self.2.model(), self.3.model(), self.4.model(), self.5.model(), self.6.model(), m, self.8.model(), self.9.model(), self.10.model()));
            assert forall|k: int| 0 <= k < b7.len() implies #[trigger] b7[k] != self.model() by {
                assert(b7[k].7 == self.7.shrink_models()[k]);
            }
            self.8.lemma_shrinks_differ();
            let b8 = self.8.shrink_models().map_values(|m: I::Model| (self.0.model(), self.1.model(), self.2.model(), self.3.model(), self.4.model(), self.5.model(), self.6.model(), self.7.model(), m, self.9.model(), self.10.model()));
            assert forall|k: int| 0 <= k < b8.len() implies #[trigger] b8[k] != self.model() by {
                assert(b8[k].8 == self.8.shrink_models()[k]);
            }
            self.9.lemma_shrinks_differ();
            let b9 = self.9.shrink_models().map_values(|m: J::Model| (self.0.model(), self.1.model(), self.2.model(), self.3.model(), self.4.model(), self.5.model(), self.6.model(), self.7.model(), self.8.model(), m, self.10.model()));
            assert forall|k: int| 0 <= k < b9.len() implies #[trigger] b9[k] != self.model() by {
                assert(b9[k].9 == self.9.shrink_models()[k]);
            }
            self.10.lemma_shrinks_differ();
            let b10 = self.10.shrink_models().map_values(|m: K::Model| (self.0.model(), self.1.model(), self.2.model(), self.3.model(), self.4.model(), self.5.model(), self.6.model(), self.7.model(), self.8.model(), self.9.model(), m));
            assert forall|k: int| 0 <= k < b10.len() implies #[trigger] b10[k] != self.model() by {
                assert(b10[k].10 == self.10.shrink_models()[k]);
            }
            lemma_concat_differ(b0, b1, self.model());
            lemma_concat_differ(b0 + b1, b2, self.model());
            lemma_concat_differ(b0 + b1 + b2, b3, self.model());
            lemma_concat_differ(b0 + b1 + b2 + b3, b4, self.model());
            lemma_concat_differ(b0 + b1 + b2 + b3 + b4, b5, self.model());
            lemma_concat_differ(b0 + b1 + b2 + b3 + b4 + b5, b6, self.model());
            lemma_concat_differ(b0 + b1 + b2 + b3 + b4 + b5 + b6, b7, self.model());
            lemma_concat_differ(b0 + b1 + b2 + b3 + b4 + b5 + b6 + b7, b8, self.model());
            lemma_concat_differ(b0 + b1 + b2 + b3 + b4 + b5 + b6 + b7 + b8, b9, self.model());
            lemma_concat_differ(b0 + b1 + b2 + b3 + b4 + b5 + b6 + b7 + b8 + b9, b10, self.model());
            assert(self.shrink_models() == b0 + b1 + b2 + b3 + b4 + b5 + b6 + b7 + b8 + b9 + b10);
        }
    }

    proof fn lemma_shrinks_follow_model(x: &(A, B, C, D, E, F, G, H, I, J, K), y: &(A, B, C, D, E, F, G, H, I, J, K)) {
        if Self::shrinks_by_model() {
            A::lemma_shrinks_follow_model(&x.0, &y.0);
            B::lemma_shrinks_follow_model(&x.1, &y.1);
            C::lemma_shrinks_follow_model(&x.2, &y.2);
            D::lemma_shrinks_follow_model(&x.3, &y.3);
            E::lemma_shrinks_follow_model(&x.4, &y.4);
            F::lemma_shrinks_follow_model(&x.5, &y.5);
            G::lemma_shrinks_follow_model(&x.6, &y.6);
            H::lemma_shrinks_follow_model(&x.7, &y.7);
            I::lemma_shrinks_follow_model(&x.8, &y.8);
            J::lemma_shrinks_follow_model(&x.9, &y.9);
            K::lemma_shrinks_follow_model(&x.10, &y.10);
            assert(x.0.shrink_models().map_values(|m: A::Model| (m, x.1.model(), x.2.model(), x.3.model(), x.4.model(), x.5.model(), x.6.model(), x.7.model(), x.8.model(), x.9.model(), x.10.model())) =~= y.0.shrink_models().map_values(|m: A::Model| (m, y.1.model(), y.2.model(), y.3.model(), y.4.model(), y.5.model(), y.6.model(), y.7.model(), y.8.model(), y.9.model(), y.10.model())));
            assert(x.1.shrink_models().map_values(|m: B::Model| (x.0.model(), m, x.2.model(), x.3.model(), x.4.model(), x.5.model(), x.6.model(), x.7.model(), x.8.model(), x.9.model(), x.10.model())) =~= y.1.shrink_models().map_values(|m: B::Model| (y.0.model(), m, y.2.model(), y.3.model(), y.4.model(), y.5.model(), y.6.model(), y.7.model(), y.8.model(), y.9.model(), y.10.model())));
            assert(x.2.shrink_models().map_values(|m: C::Model| (x.0.model(), x.1.model(), m, x.3.model(), x.4.model(), x.5.model(), x.6.model(), x.7.model(), x.8.model(), x.9.model(), x.10.model())) =~= y.2.shrink_models().map_values(|m: C::Model| (y.0.model(), y.1.model(), m, y.3.model(), y.4.model(), y.5.model(), y.6.model(), y.7.model(), y.8.model(), y.9.model(), y.10.model())));
            assert(x.3.shrink_models().map_values(|m: D::Model| (x.0.model(), x.1.model(), x.2.model(), m, x.4.model(), x.5.model(), x.6.model(), x.7.model(), x.8.model(), x.9.model(), x.10.model())) =~= y.3.shrink_models().map_values(|m: D::Model| (y.0.model(), y.1.model(), y.2.model(), m, y.4.model(), y.5.model(), y.6.model(), y.7.model(), y.8.model(), y.9.model(), y.10.model())));
            assert(x.4.shrink_models().map_values(|m: E::Model| (x.0.model(), x.1.model(), x.2.model(), x.3.model(), m, x.5.model(), x.6.model(), x.7.model(), x.8.model(), x.9.model(), x.10.model())) =~= y.4.shrink_models().map_values(|m: E::Model| (y.0.model(), y.1.model(), y.2.model(), y.3.model(), m, y.5.model(), y.6.model(), y.7.model(), y.8.model(), y.9.model(), y.10.model())));
            assert(x.5.shrink_models().map_values(|m: F::Model| (x.0.model(), x.1.model(), x.2.model(), x.3.model(), x.4.model(), m, x.6.model(), x.7.model(), x.8.model(), x.9.model(), x.10.model())) =~= y.5.shrink_models().map_values(|m: F::Model| (y.0.model(), y.1.model(), y.2.model(), y.3.model(), y.4.model(), m, y.6.model(), y.7.model(), y.8.model(), y.9.model(), y.10.model())));
            assert(x.6.shrink_models().map_values(|m: G::Model| (x.0.model(), x.1.model(), x.2.model(), x.3.model(), x.4.model(), x.5.model(), m, x.7.model(), x.8.model(), x.9.model(), x.10.model())) =~= y.6.shrink_models().map_values(|m: G::Model| (y.0.model(), y.1.model(), y.2.model(), y.3.model(), y.4.model(), y.5.model(), m, y.7.model(), y.8.model(), y.9.model(), y.10.model())));
            assert(x.7.shrink_models().map_values(|m: H::Model| (x.0.model(), x.1.model(), x.2.model(), x.3.model(), x.4.model(), x.5.model(), x.6.model(), m, x.8.model(), x.9.model(), x.10.model())) =~= y.7.shrink_models().map_values(|m: H::Model| (y.0.model(), y.1.model(), y.2.model(), y.3.model(), y.4.model(), y.5.model(), y.6.model(), m, y.8.model(), y.9.model(), y.10.model())));
            assert(x.8.shrink_models().map_values(|m: I::Model| (x.0.model(), x.1.model(), x.2.model(), x.3.model(), x.4.model(), x.5.model(), x.6.model(), x.7.model(), m, x.9.model(), x.10.model())) =~= y.8.shrink_models().map_values(|m: I::Model| (y.0.model(), y.1.model(), y.2.model(), y.3.model(), y.4.model(), y.5.model(), y.6.model(), y.7.model(), m, y.9.model(), y.10.model())));
            assert(x.9.shrink_models().map_values(|m: J::Model| (x.0.model(), x.1.model(), x.2.model(), x.3.model(), x.4.model(), x.5.model(), x.6.model(), x.7.model(), x.8.model(), m, x.10.model())) =~= y.9.shrink_models().map_values(|m: J::Model| (y.0.model(), y.1.model(), y.2.model(), y.3.model(), y.4.model(), y.5.model(), y.6.model(), y.7.model(), y.8.model(), m, y.10.model())));
            assert(x.10.shrink_models().map_values(|m: K::Model| (x.0.model(), x.1.model(), x.2.model(), x.3.model(), x.4.model(), x.5.model(), x.6.model(), x.7.model(), x.8.model(), x.9.model(), m)) =~= y.10.shrink_models().map_values(|m: K::Model| (y.0.model(), y.1.model(), y.2.model(), y.3.model(), y.4.model(), y.5.model(), y.6.model(), y.7.model(), y.8.model(), y.9.model(), m)));
        }
    }

    fn duplicate(&self) -> (r: (A, B, C, D, E, F, G, H, I, J, K)) {
        (self.0.duplicate(), self.1.duplicate(), self.2.duplicate(), self.3.duplicate(), self.4.duplicate(), self.5.duplicate(), self.6.duplicate(), self.7.duplicate(), self.8.duplicate(), self.9.duplicate(), self.10.duplicate())
    }

    #[verifier::spinoff_prover]
    #[verifier::rlimit(100)]
    fn arbitrary(g: &mut Gen) -> (r: (A, B, C, D, E, F, G, H, I, J, K)) {
        let e0 = A::arbitrary(g);
        let ghost s1 = g.samples();
        let e1 = B::arbitrary(g);
        let ghost s2 = g.samples();
        let e2 = C::arbitrary(g);
        let ghost s3 = g.samples();
        let e3 = D::arbitrary(g);
        let ghost s4 = g.samples();
        let e4 = E::arbitrary(g);
        let ghost s5 = g.samples();
        let e5 = F::arbitrary(g);
        let ghost s6 = g.samples();
        let e6 = G::arbitrary(g);
        let ghost s7 = g.samples();
        let e7 = H::arbitrary(g);
        let ghost s8 = g.samples();
        let e8 = I::arbitrary(g);
        let ghost s9 = g.samples();
        let e9 = J::arbitrary(g);
        let ghost s10 = g.samples();
        let e10 = K::arbitrary(g);
        assert(A::generated(old(g).spec_size() as nat, old(g).samples(), e0.model(), s1) && B::generated(old(g).spec_size() as nat, s1, e1.model(), s2) && C::generated(old(g).spec_size() as nat, s2, e2.model(), s3) && D::generated(old(g).spec_size() as nat, s3, e3.model(), s4) && E::generated(old(g).spec_size() as nat, s4, e4.model(), s5) && F::generated(old(g).spec_size() as nat, s5, e5.model(), s6) && G::generated(old(g).spec_size() as nat, s6, e6.model(), s7) && H::generated(old(g).spec_size() as nat, s7, e7.model(), s8) && I::generated(old(g).spec_size() as nat, s8, e8.model(), s9) && J::generated(old(g).spec_size() as nat, s9, e9.model(), s10) && K::generated(old(g).spec_size() as nat, s10, e10.model(), g.samples()));
        proof {
            lemma_tuple11_generated::<A, B, C, D, E, F, G, H, I, J, K>(old(g).spec_size() as nat, old(g).samples(), s1, s2, s3, s4, s5, s6, s7, s8, s9, s10, g.samples(), e0.model(), e1.model(), e2.model(), e3.model(), e4.model(), e5.model(), e6.model(), e7.model(), e8.model(), e9.model(), e10.model());
        }
        (e0, e1, e2, e3, e4, e5, e6, e7, e8, e9, e10)
    }

    fn shrink(&self) -> (r: Vec<(A, B, C, D, E, F, G, H, I, J, K)>) {
        let mut candidates: Vec<(A, B, C, D, E, F, G, H, I, J, K)> = Vec::new();
        let ghost done: Seq<(A::Model, B::Model, C::Model, D::Model, E::Model, F::Model, G::Model, H::Model, I::Model, J::Model, K::Model)> = seq![];
        assert(candidates@.map_values(|c: (A, B, C, D, E, F, G, H, I, J, K)| c.model()) =~= done);
        let smaller = self.0.shrink();
        let ghost options = self.0.shrink_models();
        let ghost block = self.0.shrink_models().map_values(|m: A::Model| (m, self.1.model(), self.2.model(), self.3.model(), self.4.model(), self.5.model(), self.6.model(), self.7.model(), self.8.model(), self.9.model(), self.10.model()));
        let mut j: usize = 0;
        while j < smaller.len()
            invariant
                Self::obeys_arbitrary(),
                smaller@.len() == options.len(),
                options == self.0.shrink_models(),
                block == self.0.shrink_models().map_values(|m: A::Model| (m, self.1.model(), self.2.model(), self.3.model(), self.4.model(), self.5.model(), self.6.model(), self.7.model(), self.8.model(), self.9.model(), self.10.model())),
                forall|k: int| 0 <= k < smaller@.len() ==> #[trigger] smaller@[k].model() == options[k],
                j <= smaller@.len(),
                candidates@.map_values(|c: (A, B, C, D, E, F, G, H, I, J, K)| c.model()) == done + block.take(j as int),
            decreases smaller@.len() - j,
        {
            let replacement = smaller[j].duplicate();
            let ghost prev = candidates@.map_values(|c: (A, B, C, D, E, F, G, H, I, J, K)| c.model());
            candidates.push((replacement, self.1.duplicate(), self.2.duplicate(), self.3.duplicate(), self.4.duplicate(), self.5.duplicate(), self.6.duplicate(), self.7.duplicate(), self.8.duplicate(), self.9.duplicate(), self.10.duplicate()));
            assert(candidates@.map_values(|c: (A, B, C, D, E, F, G, H, I, J, K)| c.model()) =~= prev.push(block[j as int]));
            assert(block.take(j + 1) =~= block.take(j as int).push(block[j as int]));
            j = j + 1;
        }
        assert(block.take(j as int) =~= block);
        proof {
            done = done + block;
        }
        let smaller = self.1.shrink();
        let ghost options = self.1.shrink_models();
        let ghost block = self.1.shrink_models().map_values(|m: B::Model| (self.0.model(), m, self.2.model(), self.3.model(), self.4.model(), self.5.model(), self.6.model(), self.7.model(), self.8.model(), self.9.model(), self.10.model()));
        let mut j: usize = 0;
        while j < smaller.len()
            invariant
                Self::obeys_arbitrary(),
                smaller@.len() == options.len(),
                options == self.1.shrink_models(),
                block == self.1.shrink_models().map_values(|m: B::Model| (self.0.model(), m, self.2.model(), self.3.model(), self.4.model(), self.5.model(), self.6.model(), self.7.model(), self.8.model(), self.9.model(), self.10.model())),
                forall|k: int| 0 <= k < smaller@.len() ==> #[trigger] smaller@[k].model() == options[k],
                j <= smaller@.len(),
                candidates@.map_values(|c: (A, B, C, D, E, F, G, H, I, J, K)| c.model()) == done + block.take(j as int),
            decreases smaller@.len() - j,
        {
            let replacement = smaller[j].duplicate();
            let ghost prev = candidates@.map_values(|c: (A, B, C, D, E, F, G, H, I, J, K)| c.model());
            candidates.push((self.0.duplicate(), replacement, self.2.duplicate(), self.3.duplicate(), self.4.duplicate(), self.5.duplicate(), self.6.duplicate(), self.7.duplicate(), self.8.duplicate(), self.9.duplicate(), self.10.duplicate()));
            assert(candidates@.map_values(|c: (A, B, C, D, E, F, G, H, I, J, K)| c.model()) =~= prev.push(block[j as int]));
            assert(block.take(j + 1) =~= block.take(j as int).push(block[j as int]));
            j = j + 1;
        }
        assert(block.take(j as int) =~= block);
        proof {
            done = done + block;
        }
        let smaller = self.2.shrink();
        let ghost options = self.2.shrink_models();
        let ghost block = self.2.shrink_models().map_values(|m: C::Model| (self.0.model(), self.1.model(), m, self.3.model(), self.4.model(), self.5.model(), self.6.model(), self.7.model(), self.8.model(), self.9.model(), self.10.model()));
        let mut j: usize = 0;
        while j < smaller.len()
            invariant
                Self::obeys_arbitrary(),
                smaller@.len() == options.len(),
                options == self.2.shrink_models(),
                block == self.2.shrink_models().map_values(|m: C::Model| (self.0.model(), self.1.model(), m, self.3.model(), self.4.model(), self.5.model(), self.6.model(), self.7.model(), self.8.model(), self.9.model(), self.10.model())),
                forall|k: int| 0 <= k < smaller@.len() ==> #[trigger] smaller@[k].model() == options[k],
                j <= smaller@.len(),
                candidates@.map_values(|c: (A, B, C, D, E, F, G, H, I, J, K)| c.model()) == done + block.take(j as int),
            decreases smaller@.len() - j,
        {
            let replacement = smaller[j].duplicate();
            let ghost prev = candidates@.map_values(|c: (A, B, C, D, E, F, G, H, I, J, K)| c.model());
            candidates.push((self.0.duplicate(), self.1.duplicate(), replacement, self.3.duplicate(), self.4.duplicate(), self.5.duplicate(), self.6.duplicate(), self.7.duplicate(), self.8.duplicate(), self.9.duplicate(), self.10.duplicate()));
            assert(candidates@.map_values(|c: (A, B, C, D, E, F, G, H, I, J, K)| c.model()) =~= prev.push(block[j as int]));
            assert(block.take(j + 1) =~= block.take(j as int).push(block[j as int]));
            j = j + 1;
        }
        assert(block.take(j as int) =~= block);
        proof {
            done = done + block;
        }
        let smaller = self.3.shrink();
        let ghost options = self.3.shrink_models();
        let ghost block = self.3.shrink_models().map_values(|m: D::Model| (self.0.model(), self.1.model(), self.2.model(), m, self.4.model(), self.5.model(), self.6.model(), self.7.model(), self.8.model(), self.9.model(), self.10.model()));
        let mut j: usize = 0;
        while j < smaller.len()
            invariant
                Self::obeys_arbitrary(),
                smaller@.len() == options.len(),
                options == self.3.shrink_models(),
                block == self.3.shrink_models().map_values(|m: D::Model| (self.0.model(), self.1.model(), self.2.model(), m, self.4.model(), self.5.model(), self.6.model(), self.7.model(), self.8.model(), self.9.model(), self.10.model())),
                forall|k: int| 0 <= k < smaller@.len() ==> #[trigger] smaller@[k].model() == options[k],
                j <= smaller@.len(),
                candidates@.map_values(|c: (A, B, C, D, E, F, G, H, I, J, K)| c.model()) == done + block.take(j as int),
            decreases smaller@.len() - j,
        {
            let replacement = smaller[j].duplicate();
            let ghost prev = candidates@.map_values(|c: (A, B, C, D, E, F, G, H, I, J, K)| c.model());
            candidates.push((self.0.duplicate(), self.1.duplicate(), self.2.duplicate(), replacement, self.4.duplicate(), self.5.duplicate(), self.6.duplicate(), self.7.duplicate(), self.8.duplicate(), self.9.duplicate(), self.10.duplicate()));
            assert(candidates@.map_values(|c: (A, B, C, D, E, F, G, H, I, J, K)| c.model()) =~= prev.push(block[j as int]));
            assert(block.take(j + 1) =~= block.take(j as int).push(block[j as int]));
            j = j + 1;
        }
        assert(block.take(j as int) =~= block);
        proof {
            done = done + block;
        }
        let smaller = self.4.shrink();
        let ghost options = self.4.shrink_models();
        let ghost block = self.4.shrink_models().map_values(|m: E::Model| (self.0.model(), self.1.model(), self.2.model(), self.3.model(), m, self.5.model(), self.6.model(), self.7.model(), self.8.model(), self.9.model(), self.10.model()));
        let mut j: usize = 0;
        while j < smaller.len()
            invariant
                Self::obeys_arbitrary(),
                smaller@.len() == options.len(),
                options == self.4.shrink_models(),
                block == self.4.shrink_models().map_values(|m: E::Model| (self.0.model(), self.1.model(), self.2.model(), self.3.model(), m, self.5.model(), self.6.model(), self.7.model(), self.8.model(), self.9.model(), self.10.model())),
                forall|k: int| 0 <= k < smaller@.len() ==> #[trigger] smaller@[k].model() == options[k],
                j <= smaller@.len(),
                candidates@.map_values(|c: (A, B, C, D, E, F, G, H, I, J, K)| c.model()) == done + block.take(j as int),
            decreases smaller@.len() - j,
        {
            let replacement = smaller[j].duplicate();
            let ghost prev = candidates@.map_values(|c: (A, B, C, D, E, F, G, H, I, J, K)| c.model());
            candidates.push((self.0.duplicate(), self.1.duplicate(), self.2.duplicate(), self.3.duplicate(), replacement, self.5.duplicate(), self.6.duplicate(), self.7.duplicate(), self.8.duplicate(), self.9.duplicate(), self.10.duplicate()));
            assert(candidates@.map_values(|c: (A, B, C, D, E, F, G, H, I, J, K)| c.model()) =~= prev.push(block[j as int]));
            assert(block.take(j + 1) =~= block.take(j as int).push(block[j as int]));
            j = j + 1;
        }
        assert(block.take(j as int) =~= block);
        proof {
            done = done + block;
        }
        let smaller = self.5.shrink();
        let ghost options = self.5.shrink_models();
        let ghost block = self.5.shrink_models().map_values(|m: F::Model| (self.0.model(), self.1.model(), self.2.model(), self.3.model(), self.4.model(), m, self.6.model(), self.7.model(), self.8.model(), self.9.model(), self.10.model()));
        let mut j: usize = 0;
        while j < smaller.len()
            invariant
                Self::obeys_arbitrary(),
                smaller@.len() == options.len(),
                options == self.5.shrink_models(),
                block == self.5.shrink_models().map_values(|m: F::Model| (self.0.model(), self.1.model(), self.2.model(), self.3.model(), self.4.model(), m, self.6.model(), self.7.model(), self.8.model(), self.9.model(), self.10.model())),
                forall|k: int| 0 <= k < smaller@.len() ==> #[trigger] smaller@[k].model() == options[k],
                j <= smaller@.len(),
                candidates@.map_values(|c: (A, B, C, D, E, F, G, H, I, J, K)| c.model()) == done + block.take(j as int),
            decreases smaller@.len() - j,
        {
            let replacement = smaller[j].duplicate();
            let ghost prev = candidates@.map_values(|c: (A, B, C, D, E, F, G, H, I, J, K)| c.model());
            candidates.push((self.0.duplicate(), self.1.duplicate(), self.2.duplicate(), self.3.duplicate(), self.4.duplicate(), replacement, self.6.duplicate(), self.7.duplicate(), self.8.duplicate(), self.9.duplicate(), self.10.duplicate()));
            assert(candidates@.map_values(|c: (A, B, C, D, E, F, G, H, I, J, K)| c.model()) =~= prev.push(block[j as int]));
            assert(block.take(j + 1) =~= block.take(j as int).push(block[j as int]));
            j = j + 1;
        }
        assert(block.take(j as int) =~= block);
        proof {
            done = done + block;
        }
        let smaller = self.6.shrink();
        let ghost options = self.6.shrink_models();
        let ghost block = self.6.shrink_models().map_values(|m: G::Model| (self.0.model(), self.1.model(), self.2.model(), self.3.model(), self.4.model(), self.5.model(), m, self.7.model(), self.8.model(), self.9.model(), self.10.model()));
        let mut j: usize = 0;
        while j < smaller.len()
            invariant
                Self::obeys_arbitrary(),
                smaller@.len() == options.len(),
                options == self.6.shrink_models(),
                block == self.6.shrink_models().map_values(|m: G::Model| (self.0.model(), self.1.model(), self.2.model(), self.3.model(), self.4.model(), self.5.model(), m, self.7.model(), self.8.model(), self.9.model(), self.10.model())),
                forall|k: int| 0 <= k < smaller@.len() ==> #[trigger] smaller@[k].model() == options[k],
                j <= smaller@.len(),
                candidates@.map_values(|c: (A, B, C, D, E, F, G, H, I, J, K)| c.model()) == done + block.take(j as int),
            decreases smaller@.len() - j,
        {
            let replacement = smaller[j].duplicate();
            let ghost prev = candidates@.map_values(|c: (A, B, C, D, E, F, G, H, I, J, K)| c.model());
            candidates.push((self.0.duplicate(), self.1.duplicate(), self.2.duplicate(), self.3.duplicate(), self.4.duplicate(), self.5.duplicate(), replacement, self.7.duplicate(), self.8.duplicate(), self.9.duplicate(), self.10.duplicate()));
            assert(candidates@.map_values(|c: (A, B, C, D, E, F, G, H, I, J, K)| c.model()) =~= prev.push(block[j as int]));
            assert(block.take(j + 1) =~= block.take(j as int).push(block[j as int]));
            j = j + 1;
        }
        assert(block.take(j as int) =~= block);
        proof {
            done = done + block;
        }
        let smaller = self.7.shrink();
        let ghost options = self.7.shrink_models();
        let ghost block = self.7.shrink_models().map_values(|m: H::Model| (self.0.model(), self.1.model(), self.2.model(), self.3.model(), self.4.model(), self.5.model(), self.6.model(), m, self.8.model(), self.9.model(), self.10.model()));
        let mut j: usize = 0;
        while j < smaller.len()
            invariant
                Self::obeys_arbitrary(),
                smaller@.len() == options.len(),
                options == self.7.shrink_models(),
                block == self.7.shrink_models().map_values(|m: H::Model| (self.0.model(), self.1.model(), self.2.model(), self.3.model(), self.4.model(), self.5.model(), self.6.model(), m, self.8.model(), self.9.model(), self.10.model())),
                forall|k: int| 0 <= k < smaller@.len() ==> #[trigger] smaller@[k].model() == options[k],
                j <= smaller@.len(),
                candidates@.map_values(|c: (A, B, C, D, E, F, G, H, I, J, K)| c.model()) == done + block.take(j as int),
            decreases smaller@.len() - j,
        {
            let replacement = smaller[j].duplicate();
            let ghost prev = candidates@.map_values(|c: (A, B, C, D, E, F, G, H, I, J, K)| c.model());
            candidates.push((self.0.duplicate(), self.1.duplicate(), self.2.duplicate(), self.3.duplicate(), self.4.duplicate(), self.5.duplicate(), self.6.duplicate(), replacement, self.8.duplicate(), self.9.duplicate(), self.10.duplicate()));
            assert(candidates@.map_values(|c: (A, B, C, D, E, F, G, H, I, J, K)| c.model()) =~= prev.push(block[j as int]));
            assert(block.take(j + 1) =~= block.take(j as int).push(block[j as int]));
            j = j + 1;
        }
        assert(block.take(j as int) =~= block);
        proof {
            done = done + block;
        }
        let smaller = self.8.shrink();
        let ghost options = self.8.shrink_models();
        let ghost block = self.8.shrink_models().map_values(|m: I::Model| (self.0.model(), self.1.model(), self.2.model(), self.3.model(), self.4.model(), self.5.model(), self.6.model(), self.7.model(), m, self.9.model(), self.10.model()));
        let mut j: usize = 0;
        while j < smaller.len()
            invariant
                Self::obeys_arbitrary(),
                smaller@.len() == options.len(),
                options == self.8.shrink_models(),
                block == self.8.shrink_models().map_values(|m: I::Model| (self.0.model(), self.1.model(), self.2.model(), self.3.model(), self.4.model(), self.5.model(), self.6.model(), self.7.model(), m, self.9.model(), self.10.model())),
                forall|k: int| 0 <= k < smaller@.len() ==> #[trigger] smaller@[k].model() == options[k],
                j <= smaller@.len(),
                candidates@.map_values(|c: (A, B, C, D, E, F, G, H, I, J, K)| c.model()) == done + block.take(j as int),
            decreases smaller@.len() - j,
        {
            let replacement = smaller[j].duplicate();
            let ghost prev = candidates@.map_values(|c: (A, B, C, D, E, F, G, H, I, J, K)| c.model());
            candidates.push((self.0.duplicate(), self.1.duplicate(), self.2.duplicate(), self.3.duplicate(), self.4.duplicate(), self.5.duplicate(), self.6.duplicate(), self.7.duplicate(), replacement, self.9.duplicate(), self.10.duplicate()));
            assert(candidates@.map_values(|c: (A, B, C, D, E, F, G, H, I, J, K)| c.model()) =~= prev.push(block[j as int]));
            assert(block.take(j + 1) =~= block.take(j as int).push(block[j as int]));
            j = j + 1;
        }
        assert(block.take(j as int) =~= block);
        proof {
            done = done + block;
        }
        let smaller = self.9.shrink();
        let ghost options = self.9.shrink_models();
        let ghost block = self.9.shrink_models().map_values(|m: J::Model| (self.0.model(), self.1.model(), self.2.model(), self.3.model(), self.4.model(), self.5.model(), self.6.model(), self.7.model(), self.8.model(), m, self.10.model()));
        let mut j: usize = 0;
        while j < smaller.len()
            invariant
                Self::obeys_arbitrary(),
                smaller@.len() == options.len(),
                options == self.9.shrink_models(),
                block == self.9.shrink_models().map_values(|m: J::Model| (self.0.model(), self.1.model(), self.2.model(), self.3.model(), self.4.model(), self.5.model(), self.6.model(), self.7.model(), self.8.model(), m, self.10.model())),
                forall|k: int| 0 <= k < smaller@.len() ==> #[trigger] smaller@[k].model() == options[k],
                j <= smaller@.len(),
                candidates@.map_values(|c: (A, B, C, D, E, F, G, H, I, J, K)| c.model()) == done + block.take(j as int),
            decreases smaller@.len() - j,
        {
            let replacement = smaller[j].duplicate();
            let ghost prev = candidates@.map_values(|c: (A, B, C, D, E, F, G, H, I, J, K)| c.model());
            candidates.push((self.0.duplicate(), self.1.duplicate(), self.2.duplicate(), self.3.duplicate(), self.4.duplicate(), self.5.duplicate(), self.6.duplicate(), self.7.duplicate(), self.8.duplicate(), replacement, self.10.duplicate()));
            assert(candidates@.map_values(|c: (A, B, C, D, E, F, G, H, I, J, K)| c.model()) =~= prev.push(block[j as int]));
            assert(block.take(j + 1) =~= block.take(j as int).push(block[j as int]));
            j = j + 1;
        }
        assert(block.take(j as int) =~= block);
        proof {
            done = done + block;
        }
        let smaller = self.10.shrink();
        let ghost options = self.10.shrink_models();
        let ghost block = self.10.shrink_models().map_values(|m: K::Model| (self.0.model(), self.1.model(), self.2.model(), self.3.model(), self.4.model(), self.5.model(), self.6.model(), self.7.model(), self.8.model(), self.9.model(), m));
        let mut j: usize = 0;
        while j < smaller.len()
            invariant
                Self::obeys_arbitrary(),
                smaller@.len() == options.len(),
                options == self.10.shrink_models(),
                block == self.10.shrink_models().map_values(|m: K::Model| (self.0.model(), self.1.model(), self.2.model(), self.3.model(), self.4.model(), self.5.model(), self.6.model(), self.7.model(), self.8.model(), self.9.model(), m)),
                forall|k: int| 0 <= k < smaller@.len() ==> #[trigger] smaller@[k].model() == options[k],
                j <= smaller@.len(),
                candidates@.map_values(|c: (A, B, C, D, E, F, G, H, I, J, K)| c.model()) == done + block.take(j as int),
            decreases smaller@.len() - j,
        {
            let replacement = smaller[j].duplicate();
            let ghost prev = candidates@.map_values(|c: (A, B, C, D, E, F, G, H, I, J, K)| c.model());
            candidates.push((self.0.duplicate(), self.1.duplicate(), self.2.duplicate(), self.3.duplicate(), self.4.duplicate(), self.5.duplicate(), self.6.duplicate(), self.7.duplicate(), self.8.duplicate(), self.9.duplicate(), replacement));
            assert(candidates@.map_values(|c: (A, B, C, D, E, F, G, H, I, J, K)| c.model()) =~= prev.push(block[j as int]));
            assert(block.take(j + 1) =~= block.take(j as int).push(block[j as int]));
            j = j + 1;
        }
        assert(block.take(j as int) =~= block);
        proof {
            done = done + block;
        }
        assert(done =~= self.shrink_models());
        candidates
    }
}

/// Tuples of 12 are generated component by component, in order, and
/// shrink component-wise: the candidates that shrink the first component
/// (the others kept), then those that shrink the second, and so on.
impl<A: Arbitrary, B: Arbitrary, C: Arbitrary, D: Arbitrary, E: Arbitrary, F: Arbitrary, G: Arbitrary, H: Arbitrary, I: Arbitrary, J: Arbitrary, K: Arbitrary, L: Arbitrary> Arbitrary for (A, B, C, D, E, F, G, H, I, J, K, L) {
    type Model = (A::Model, B::Model, C::Model, D::Model, E::Model, F::Model, G::Model, H::Model, I::Model, J::Model, K::Model, L::Model);

    open spec fn model(&self) -> (A::Model, B::Model, C::Model, D::Model, E::Model, F::Model, G::Model, H::Model, I::Model, J::Model, K::Model, L::Model) {
        (self.0.model(), self.1.model(), self.2.model(), self.3.model(), self.4.model(), self.5.model(), self.6.model(), self.7.model(), self.8.model(), self.9.model(), self.10.model(), self.11.model())
    }

    open spec fn obeys_arbitrary() -> bool {
        A::obeys_arbitrary() && B::obeys_arbitrary() && C::obeys_arbitrary() && D::obeys_arbitrary() && E::obeys_arbitrary() && F::obeys_arbitrary() && G::obeys_arbitrary() && H::obeys_arbitrary() && I::obeys_arbitrary() && J::obeys_arbitrary() && K::obeys_arbitrary() && L::obeys_arbitrary()
    }

    open spec fn shrinks_by_model() -> bool {
        A::shrinks_by_model() && B::shrinks_by_model() && C::shrinks_by_model() && D::shrinks_by_model() && E::shrinks_by_model() && F::shrinks_by_model() && G::shrinks_by_model() && H::shrinks_by_model() && I::shrinks_by_model() && J::shrinks_by_model() && K::shrinks_by_model() && L::shrinks_by_model()
    }

    open spec fn within_size(m: (A::Model, B::Model, C::Model, D::Model, E::Model, F::Model, G::Model, H::Model, I::Model, J::Model, K::Model, L::Model), size: nat) -> bool {
        A::within_size(m.0, size) && B::within_size(m.1, size) && C::within_size(m.2, size) && D::within_size(m.3, size) && E::within_size(m.4, size) && F::within_size(m.5, size) && G::within_size(m.6, size) && H::within_size(m.7, size) && I::within_size(m.8, size) && J::within_size(m.9, size) && K::within_size(m.10, size) && L::within_size(m.11, size)
    }

    /// The components are generated one after the other, in order.
    open spec fn generated(size: nat, before: Seq<Sample>, m: (A::Model, B::Model, C::Model, D::Model, E::Model, F::Model, G::Model, H::Model, I::Model, J::Model, K::Model, L::Model), after: Seq<Sample>) -> bool {
        exists|s1: Seq<Sample>, s2: Seq<Sample>, s3: Seq<Sample>, s4: Seq<Sample>, s5: Seq<Sample>, s6: Seq<Sample>|
            #![trigger B::generated(size, s1, m.1, s2), C::generated(size, s2, m.2, s3), D::generated(size, s3, m.3, s4), E::generated(size, s4, m.4, s5), F::generated(size, s5, m.5, s6)]
            A::generated(size, before, m.0, s1) && B::generated(size, s1, m.1, s2) && C::generated(size, s2, m.2, s3) && D::generated(size, s3, m.3, s4) && E::generated(size, s4, m.4, s5) && F::generated(size, s5, m.5, s6) && exists|s7: Seq<Sample>, s8: Seq<Sample>, s9: Seq<Sample>, s10: Seq<Sample>, s11: Seq<Sample>|
                #![trigger G::generated(size, s6, m.6, s7), H::generated(size, s7, m.7, s8), I::generated(size, s8, m.8, s9), J::generated(size, s9, m.9, s10), K::generated(size, s10, m.10, s11), L::generated(size, s11, m.11, after)]
                G::generated(size, s6, m.6, s7) && H::generated(size, s7, m.7, s8) && I::generated(size, s8, m.8, s9) && J::generated(size, s9, m.9, s10) && K::generated(size, s10, m.10, s11) && L::generated(size, s11, m.11, after)
    }

    open spec fn shrink_models(&self) -> Seq<(A::Model, B::Model, C::Model, D::Model, E::Model, F::Model, G::Model, H::Model, I::Model, J::Model, K::Model, L::Model)> {
        self.0.shrink_models().map_values(|m: A::Model| (m, self.1.model(), self.2.model(), self.3.model(), self.4.model(), self.5.model(), self.6.model(), self.7.model(), self.8.model(), self.9.model(), self.10.model(), self.11.model())) + self.1.shrink_models().map_values(|m: B::Model| (self.0.model(), m, self.2.model(), self.3.model(), self.4.model(), self.5.model(), self.6.model(), self.7.model(), self.8.model(), self.9.model(), self.10.model(), self.11.model())) + self.2.shrink_models().map_values(|m: C::Model| (self.0.model(), self.1.model(), m, self.3.model(), self.4.model(), self.5.model(), self.6.model(), self.7.model(), self.8.model(), self.9.model(), self.10.model(), self.11.model())) + self.3.shrink_models().map_values(|m: D::Model| (self.0.model(), self.1.model(), self.2.model(), m, self.4.model(), self.5.model(), self.6.model(), self.7.model(), self.8.model(), self.9.model(), self.10.model(), self.11.model())) + self.4.shrink_models().map_values(|m: E::Model| (self.0.model(), self.1.model(), self.2.model(), self.3.model(), m, self.5.model(), self.6.model(), self.7.model(), self.8.model(), self.9.model(), self.10.model(), self.11.model())) + self.5.shrink_models().map_values(|m: F::Model| (self.0.model(), self.1.model(), self.2.model(), self.3.model(), self.4.model(), m, self.6.model(), self.7.model(), self.8.model(), self.9.model(), self.10.model(), self.11.model())) + self.6.shrink_models().map_values(|m: G::Model| (self.0.model(), self.1.model(), self.2.model(), self.3.model(), self.4.model(), self.5.model(), m, self.7.model(), self.8.model(), self.9.model(), self.10.model(), self.11.model())) + self.7.shrink_models().map_values(|m: H::Model| (self.0.model(), self.1.model(), self.2.model(), self.3.model(), self.4.model(), self.5.model(), self.6.model(), m, self.8.model(), self.9.model(), self.10.model(), self.11.model())) + self.8.shrink_models().map_values(|m: I::Model| (self.0.model(), self.1.model(), self.2.model(), self.3.model(), self.4.model(), self.5.model(), self.6.model(), self.7.model(), m, self.9.model(), self.10.model(), self.11.model())) + self.9.shrink_models().map_values(|m: J::Model| (self.0.model(), self.1.model(), self.2.model(), self.3.model(), self.4.model(), self.5.model(), self.6.model(), self.7.model(), self.8.model(), m, self.10.model(), self.11.model())) + self.10.shrink_models().map_values(|m: K::Model| (self.0.model(), self.1.model(), self.2.model(), self.3.model(), self.4.model(), self.5.model(), self.6.model(), self.7.model(), self.8.model(), self.9.model(), m, self.11.model())) + self.11.shrink_models().map_values(|m: L::Model| (self.0.model(), self.1.model(), self.2.model(), self.3.model(), self.4.model(), self.5.model(), self.6.model(), self.7.model(), self.8.model(), self.9.model(), self.10.model(), m))
    }

    proof fn lemma_shrinks_differ(&self) {
        if Self::shrinks_by_model() {
            self.0.lemma_shrinks_differ();
            let b0 = self.0.shrink_models().map_values(|m: A::Model| (m, self.1.model(), self.2.model(), self.3.model(), self.4.model(), self.5.model(), self.6.model(), self.7.model(), self.8.model(), self.9.model(), self.10.model(), self.11.model()));
            assert forall|k: int| 0 <= k < b0.len() implies #[trigger] b0[k] != self.model() by {
                assert(b0[k].0 == self.0.shrink_models()[k]);
            }
            self.1.lemma_shrinks_differ();
            let b1 = self.1.shrink_models().map_values(|m: B::Model| (self.0.model(), m, self.2.model(), self.3.model(), self.4.model(), self.5.model(), self.6.model(), self.7.model(), self.8.model(), self.9.model(), self.10.model(), self.11.model()));
            assert forall|k: int| 0 <= k < b1.len() implies #[trigger] b1[k] != self.model() by {
                assert(b1[k].1 == self.1.shrink_models()[k]);
            }
            self.2.lemma_shrinks_differ();
            let b2 = self.2.shrink_models().map_values(|m: C::Model| (self.0.model(), self.1.model(), m, self.3.model(), self.4.model(), self.5.model(), self.6.model(), self.7.model(), self.8.model(), self.9.model(), self.10.model(), self.11.model()));
            assert forall|k: int| 0 <= k < b2.len() implies #[trigger] b2[k] != self.model() by {
                assert(b2[k].2 == self.2.shrink_models()[k]);
            }
            self.3.lemma_shrinks_differ();
            let b3 = self.3.shrink_models().map_values(|m: D::Model| (self.0.model(), self.1.model(), self.2.model(), m, self.4.model(), self.5.model(), self.6.model(), self.7.model(), self.8.model(), self.9.model(), self.10.model(), self.11.model()));
            assert forall|k: int| 0 <= k < b3.len() implies #[trigger] b3[k] != self.model() by {
                assert(b3[k].3 == self.3.shrink_models()[k]);
            }
            self.4.lemma_shrinks_differ();
            let b4 = self.4.shrink_models().map_values(|m: E::Model| (self.0.model(), self.1.model(), self.2.model(), self.3.model(), m, self.5.model(), self.6.model(), self.7.model(), self.8.model(), self.9.model(), self.10.model(), self.11.model()));
            assert forall|k: int| 0 <= k < b4.len() implies #[trigger] b4[k] != self.model() by {
                assert(b4[k].4 == self.4.shrink_models()[k]);
            }
            self.5.lemma_shrinks_differ();
            let b5 = self.5.shrink_models().map_values(|m: F::Model| (self.0.model(), self.1.model(), self.2.model(), self.3.model(), self.4.model(), m, self.6.model(), self.7.model(), self.8.model(), self.9.model(), self.10.model(), self.11.model()));
            assert forall|k: int| 0 <= k < b5.len() implies #[trigger] b5[k] != self.model() by {
                assert(b5[k].5 == self.5.shrink_models()[k]);
            }
            self.6.lemma_shrinks_differ();
            let b6 = self.6.shrink_models().map_values(|m: G::Model| (self.0.model(), self.1.model(), self.2.model(), self.3.model(), self.4.model(), self.5.model(), m, self.7.model(), self.8.model(), self.9.model(), self.10.model(), self.11.model()));
            assert forall|k: int| 0 <= k < b6.len() implies #[trigger] b6[k] != self.model() by {
                assert(b6[k].6 == self.6.shrink_models()[k]);
            }
            self.7.lemma_shrinks_differ();
            let b7 = self.7.shrink_models().map_values(|m: H::Model| (self.0.model(), self.1.model(), self.2.model(), self.3.model(), self.4.model(), self.5.model(), self.6.model(), m, self.8.model(), self.9.model(), self.10.model(), self.11.model()));
            assert forall|k: int| 0 <= k < b7.len() implies #[trigger] b7[k] != self.model() by {
                assert(b7[k].7 == self.7.shrink_models()[k]);
            }
            self.8.lemma_shrinks_differ();
            let b8 = self.8.shrink_models().map_values(|m: I::Model| (self.0.model(), self.1.model(), self.2.model(), self.3.model(), self.4.model(), self.5.model(), self.6.model(), self.7.model(), m, self.9.model(), self.10.model(), self.11.model()));
            assert forall|k: int| 0 <= k < b8.len() implies #[trigger] b8[k] != self.model() by {
                assert(b8[k].8 == self.8.shrink_models()[k]);
            }
            self.9.lemma_shrinks_differ();
            let b9 = self.9.shrink_models().map_values(|m: J::Model| (self.0.model(), self.1.model(), self.2.model(), self.3.model(), self.4.model(), self.5.model(), self.6.model(), self.7.model(), self.8.model(), m, self.10.model(), self.11.model()));
            assert forall|k: int| 0 <= k < b9.len() implies #[trigger] b9[k] != self.model() by {
                assert(b9[k].9 == self.9.shrink_models()[k]);
            }
            self.10.lemma_shrinks_differ();
            let b10 = self.10.shrink_models().map_values(|m: K::Model| (self.0.model(), self.1.model(), self.2.model(), self.3.model(), self.4.model(), self.5.model(), self.6.model(), self.7.model(), self.8.model(), self.9.model(), m, self.11.model()));
            assert forall|k: int| 0 <= k < b10.len() implies #[trigger] b10[k] != self.model() by {
                assert(b10[k].10 == self.10.shrink_models()[k]);
            }
            self.11.lemma_shrinks_differ();
            let b11 = self.11.shrink_models().map_values(|m: L::Model| (self.0.model(), self.1.model(), self.2.model(), self.3.model(), self.4.model(), self.5.model(), self.6.model(), self.7.model(), self.8.model(), self.9.model(), self.10.model(), m));
            assert forall|k: int| 0 <= k < b11.len() implies #[trigger] b11[k] != self.model() by {
                assert(b11[k].11 == self.11.shrink_models()[k]);
            }
            lemma_concat_differ(b0, b1, self.model());
            lemma_concat_differ(b0 + b1, b2, self.model());
            lemma_concat_differ(b0 + b1 + b2, b3, self.model());
            lemma_concat_differ(b0 + b1 + b2 + b3, b4, self.model());
            lemma_concat_differ(b0 + b1 + b2 + b3 + b4, b5, self.model());
            lemma_concat_differ(b0 + b1 + b2 + b3 + b4 + b5, b6, self.model());
            lemma_concat_differ(b0 + b1 + b2 + b3 + b4 + b5 + b6, b7, self.model());
            lemma_concat_differ(b0 + b1 + b2 + b3 + b4 + b5 + b6 + b7, b8, self.model());
            lemma_concat_differ(b0 + b1 + b2 + b3 + b4 + b5 + b6 + b7 + b8, b9, self.model());
            lemma_concat_differ(b0 + b1 + b2 + b3 + b4 + b5 + b6 + b7 + b8 + b9, b10, self.model());
            lemma_concat_differ(b0 + b1 + b2 + b3 + b4 + b5 + b6 + b7 + b8 + b9 + b10, b11, self.model());
            assert(self.shrink_models() == b0 + b1 + b2 + b3 + b4 + b5 + b6 + b7 + b8 + b9 + b10 + b11);
        }
    }

    proof fn lemma_shrinks_follow_model(x: &(A, B, C, D, E, F, G, H, I, J, K, L), y: &(A, B, C, D, E, F, G, H, I, J, K, L)) {
        if Self::shrinks_by_model() {
            A::lemma_shrinks_follow_model(&x.0, &y.0);
            B::lemma_shrinks_follow_model(&x.1, &y.1);
            C::lemma_shrinks_follow_model(&x.2, &y.2);
            D::lemma_shrinks_follow_model(&x.3, &y.3);
            E::lemma_shrinks_follow_model(&x.4, &y.4);
            F::lemma_shrinks_follow_model(&x.5, &y.5);
            G::lemma_shrinks_follow_model(&x.6, &y.6);
            H::lemma_shrinks_follow_model(&x.7, &y.7);
            I::lemma_shrinks_follow_model(&x.8, &y.8);
            J::lemma_shrinks_follow_model(&x.9, &y.9);
            K::lemma_shrinks_follow_model(&x.10, &y.10);
            L::lemma_shrinks_follow_model(&x.11, &y.11);
            assert(x.0.shrink_models().map_values(|m: A::Model| (m, x.1.model(), x.2.model(), x.3.model(), x.4.model(), x.5.model(), x.6.model(), x.7.model(), x.8.model(), x.9.model(), x.10.model(), x.11.model())) =~= y.0.shrink_models().map_values(|m: A::Model| (m, y.1.model(), y.2.model(), y.3.model(), y.4.model(), y.5.model(), y.6.model(), y.7.model(), y.8.model(), y.9.model(), y.10.model(), y.11.model())));
            assert(x.1.shrink_models().map_values(|m: B::Model| (x.0.model(), m, x.2.model(), x.3.model(), x.4.model(), x.5.model(), x.6.model(), x.7.model(), x.8.model(), x.9.model(), x.10.model(), x.11.model())) =~= y.1.shrink_models().map_values(|m: B::Model| (y.0.model(), m, y.2.model(), y.3.model(), y.4.model(), y.5.model(), y.6.model(), y.7.model(), y.8.model(), y.9.model(), y.10.model(), y.11.model())));
            assert(x.2.shrink_models().map_values(|m: C::Model| (x.0.model(), x.1.model(), m, x.3.model(), x.4.model(), x.5.model(), x.6.model(), x.7.model(), x.8.model(), x.9.model(), x.10.model(), x.11.model())) =~= y.2.shrink_models().map_values(|m: C::Model| (y.0.model(), y.1.model(), m, y.3.model(), y.4.model(), y.5.model(), y.6.model(), y.7.model(), y.8.model(), y.9.model(), y.10.model(), y.11.model())));
            assert(x.3.shrink_models().map_values(|m: D::Model| (x.0.model(), x.1.model(), x.2.model(), m, x.4.model(), x.5.model(), x.6.model(), x.7.model(), x.8.model(), x.9.model(), x.10.model(), x.11.model())) =~= y.3.shrink_models().map_values(|m: D::Model| (y.0.model(), y.1.model(), y.2.model(), m, y.4.model(), y.5.model(), y.6.model(), y.7.model(), y.8.model(), y.9.model(), y.10.model(), y.11.model())));
            assert(x.4.shrink_models().map_values(|m: E::Model| (x.0.model(), x.1.model(), x.2.model(), x.3.model(), m, x.5.model(), x.6.model(), x.7.model(), x.8.model(), x.9.model(), x.10.model(), x.11.model())) =~= y.4.shrink_models().map_values(|m: E::Model| (y.0.model(), y.1.model(), y.2.model(), y.3.model(), m, y.5.model(), y.6.model(), y.7.model(), y.8.model(), y.9.model(), y.10.model(), y.11.model())));
            assert(x.5.shrink_models().map_values(|m: F::Model| (x.0.model(), x.1.model(), x.2.model(), x.3.model(), x.4.model(), m, x.6.model(), x.7.model(), x.8.model(), x.9.model(), x.10.model(), x.11.model())) =~= y.5.shrink_models().map_values(|m: F::Model| (y.0.model(), y.1.model(), y.2.model(), y.3.model(), y.4.model(), m, y.6.model(), y.7.model(), y.8.model(), y.9.model(), y.10.model(), y.11.model())));
            assert(x.6.shrink_models().map_values(|m: G::Model| (x.0.model(), x.1.model(), x.2.model(), x.3.model(), x.4.model(), x.5.model(), m, x.7.model(), x.8.model(), x.9.model(), x.10.model(), x.11.model())) =~= y.6.shrink_models().map_values(|m: G::Model| (y.0.model(), y.1.model(), y.2.model(), y.3.model(), y.4.model(), y.5.model(), m, y.7.model(), y.8.model(), y.9.model(), y.10.model(), y.11.model())));
            assert(x.7.shrink_models().map_values(|m: H::Model| (x.0.model(), x.1.model(), x.2.model(), x.3.model(), x.4.model(), x.5.model(), x.6.model(), m, x.8.model(), x.9.model(), x.10.model(), x.11.model())) =~= y.7.shrink_models().map_values(|m: H::Model| (y.0.model(), y.1.model(), y.2.model(), y.3.model(), y.4.model(), y.5.model(), y.6.model(), m, y.8.model(), y.9.model(), y.10.model(), y.11.model())));
            assert(x.8.shrink_models().map_values(|m: I::Model| (x.0.model(), x.1.model(), x.2.model(), x.3.model(), x.4.model(), x.5.model(), x.6.model(), x.7.model(), m, x.9.model(), x.10.model(), x.11.model())) =~= y.8.shrink_models().map_values(|m: I::Model| (y.0.model(), y.1.model(), y.2.model(), y.3.model(), y.4.model(), y.5.model(), y.6.model(), y.7.model(), m, y.9.model(), y.10.model(), y.11.model())));
            assert(x.9.shrink_models().map_values(|m: J::Model| (x.0.model(), x.1.model(), x.2.model(), x.3.model(), x.4.model(), x.5.model(), x.6.model(), x.7.model(), x.8.model(), m, x.10.model(), x.11.model())) =~= y.9.shrink_models().map_values(|m: J::Model| (y.0.model(), y.1.model(), y.2.model(), y.3.model(), y.4.model(), y.5.model(), y.6.model(), y.7.model(), y.8.model(), m, y.10.model(), y.11.model())));
            assert(x.10.shrink_models().map_values(|m: K::Model| (x.0.model(), x.1.model(), x.2.model(), x.3.model(), x.4.model(), x.5.model(), x.6.model(), x.7.model(), x.8.model(), x.9.model(), m, x.11.model())) =~= y.10.shrink_models().map_values(|m: K::Model| (y.0.model(), y.1.model(), y.2.model(), y.3.model(), y.4.model(), y.5.model(), y.6.model(), y.7.model(), y.8.model(), y.9.model(), m, y.11.model())));
            assert(x.11.shrink_models().map_values(|m: L::Model| (x.0.model(), x.1.model(), x.2.model(), x.3.model(), x.4.model(), x.5.model(), x.6.model(), x.7.model(), x.8.model(), x.9.model(), x.10.model(), m)) =~= y.11.shrink_models().map_values(|m: L::Model| (y.0.model(), y.1.model(), y.2.model(), y.3.model(), y.4.model(), y.5.model(), y.6.model(), y.7.model(), y.8.model(), y.9.model(), y.10.model(), m)));
        }
    }

    fn duplicate(&self) -> (r: (A, B, C, D, E, F, G, H, I, J, K, L)) {
        (self.0.duplicate(), self.1.duplicate(), self.2.duplicate(), self.3.duplicate(), self.4.duplicate(), self.5.duplicate(), self.6.duplicate(), self.7.duplicate(), self.8.duplicate(), self.9.duplicate(), self.10.duplicate(), self.11.duplicate())
    }

    #[verifier::spinoff_prover]
    #[verifier::rlimit(100)]
    fn arbitrary(g: &mut Gen) -> (r: (A, B, C, D, E, F, G, H, I, J, K, L)) {
        let e0 = A::arbitrary(g);
        let ghost s1 = g.samples();
        let e1 = B::arbitrary(g);
        let ghost s2 = g.samples();
        let e2 = C::arbitrary(g);
        let ghost s3 = g.samples();
        let e3 = D::arbitrary(g);
        let ghost s4 = g.samples();
        let e4 = E::arbitrary(g);
        let ghost s5 = g.samples();
        let e5 = F::arbitrary(g);
        let ghost s6 = g.samples();
        let e6 = G::arbitrary(g);
        let ghost s7 = g.samples();
        let e7 = H::arbitrary(g);
        let ghost s8 = g.samples();
        let e8 = I::arbitrary(g);
        let ghost s9 = g.samples();
        let e9 = J::arbitrary(g);
        let ghost s10 = g.samples();
        let e10 = K::arbitrary(g);
        let ghost s11 = g.samples();
        let e11 = L::arbitrary(g);
        assert(A::generated(old(g).spec_size() as nat, old(g).samples(), e0.model(), s1) && B::generated(old(g).spec_size() as nat, s1, e1.model(), s2) && C::generated(old(g).spec_size() as nat, s2, e2.model(), s3) && D::generated(old(g).spec_size() as nat, s3, e3.model(), s4) && E::generated(old(g).spec_size() as nat, s4, e4.model(), s5) && F::generated(old(g).spec_size() as nat, s5, e5.model(), s6) && G::generated(old(g).spec_size() as nat, s6, e6.model(), s7) && H::generated(old(g).spec_size() as nat, s7, e7.model(), s8) && I::generated(old(g).spec_size() as nat, s8, e8.model(), s9) && J::generated(old(g).spec_size() as nat, s9, e9.model(), s10) && K::generated(old(g).spec_size() as nat, s10, e10.model(), s11) && L::generated(old(g).spec_size() as nat, s11, e11.model(), g.samples()));
        proof {
            lemma_tuple12_generated::<A, B, C, D, E, F, G, H, I, J, K, L>(old(g).spec_size() as nat, old(g).samples(), s1, s2, s3, s4, s5, s6, s7, s8, s9, s10, s11, g.samples(), e0.model(), e1.model(), e2.model(), e3.model(), e4.model(), e5.model(), e6.model(), e7.model(), e8.model(), e9.model(), e10.model(), e11.model());
        }
        (e0, e1, e2, e3, e4, e5, e6, e7, e8, e9, e10, e11)
    }

    fn shrink(&self) -> (r: Vec<(A, B, C, D, E, F, G, H, I, J, K, L)>) {
        let mut candidates: Vec<(A, B, C, D, E, F, G, H, I, J, K, L)> = Vec::new();
        let ghost done: Seq<(A::Model, B::Model, C::Model, D::Model, E::Model, F::Model, G::Model, H::Model, I::Model, J::Model, K::Model, L::Model)> = seq![];
        assert(candidates@.map_values(|c: (A, B, C, D, E, F, G, H, I, J, K, L)| c.model()) =~= done);
        let smaller = self.0.shrink();
        let ghost options = self.0.shrink_models();
        let ghost block = self.0.shrink_models().map_values(|m: A::Model| (m, self.1.model(), self.2.model(), self.3.model(), self.4.model(), self.5.model(), self.6.model(), self.7.model(), self.8.model(), self.9.model(), self.10.model(), self.11.model()));
        let mut j: usize = 0;
        while j < smaller.len()
            invariant
                Self::obeys_arbitrary(),
                smaller@.len() == options.len(),
                options == self.0.shrink_models(),
                block == self.0.shrink_models().map_values(|m: A::Model| (m, self.1.model(), self.2.model(), self.3.model(), self.4.model(), self.5.model(), self.6.model(), self.7.model(), self.8.model(), self.9.model(), self.10.model(), self.11.model())),
                forall|k: int| 0 <= k < smaller@.len() ==> #[trigger] smaller@[k].model() == options[k],
                j <= smaller@.len(),
                candidates@.map_values(|c: (A, B, C, D, E, F, G, H, I, J, K, L)| c.model()) == done + block.take(j as int),
            decreases smaller@.len() - j,
        {
            let replacement = smaller[j].duplicate();
            let ghost prev = candidates@.map_values(|c: (A, B, C, D, E, F, G, H, I, J, K, L)| c.model());
            candidates.push((replacement, self.1.duplicate(), self.2.duplicate(), self.3.duplicate(), self.4.duplicate(), self.5.duplicate(), self.6.duplicate(), self.7.duplicate(), self.8.duplicate(), self.9.duplicate(), self.10.duplicate(), self.11.duplicate()));
            assert(candidates@.map_values(|c: (A, B, C, D, E, F, G, H, I, J, K, L)| c.model()) =~= prev.push(block[j as int]));
            assert(block.take(j + 1) =~= block.take(j as int).push(block[j as int]));
            j = j + 1;
        }
        assert(block.take(j as int) =~= block);
        proof {
            done = done + block;
        }
        let smaller = self.1.shrink();
        let ghost options = self.1.shrink_models();
        let ghost block = self.1.shrink_models().map_values(|m: B::Model| (self.0.model(), m, self.2.model(), self.3.model(), self.4.model(), self.5.model(), self.6.model(), self.7.model(), self.8.model(), self.9.model(), self.10.model(), self.11.model()));
        let mut j: usize = 0;
        while j < smaller.len()
            invariant
                Self::obeys_arbitrary(),
                smaller@.len() == options.len(),
                options == self.1.shrink_models(),
                block == self.1.shrink_models().map_values(|m: B::Model| (self.0.model(), m, self.2.model(), self.3.model(), self.4.model(), self.5.model(), self.6.model(), self.7.model(), self.8.model(), self.9.model(), self.10.model(), self.11.model())),
                forall|k: int| 0 <= k < smaller@.len() ==> #[trigger] smaller@[k].model() == options[k],
                j <= smaller@.len(),
                candidates@.map_values(|c: (A, B, C, D, E, F, G, H, I, J, K, L)| c.model()) == done + block.take(j as int),
            decreases smaller@.len() - j,
        {
            let replacement = smaller[j].duplicate();
            let ghost prev = candidates@.map_values(|c: (A, B, C, D, E, F, G, H, I, J, K, L)| c.model());
            candidates.push((self.0.duplicate(), replacement, self.2.duplicate(), self.3.duplicate(), self.4.duplicate(), self.5.duplicate(), self.6.duplicate(), self.7.duplicate(), self.8.duplicate(), self.9.duplicate(), self.10.duplicate(), self.11.duplicate()));
            assert(candidates@.map_values(|c: (A, B, C, D, E, F, G, H, I, J, K, L)| c.model()) =~= prev.push(block[j as int]));
            assert(block.take(j + 1) =~= block.take(j as int).push(block[j as int]));
            j = j + 1;
        }
        assert(block.take(j as int) =~= block);
        proof {
            done = done + block;
        }
        let smaller = self.2.shrink();
        let ghost options = self.2.shrink_models();
        let ghost block = self.2.shrink_models().map_values(|m: C::Model| (self.0.model(), self.1.model(), m, self.3.model(), self.4.model(), self.5.model(), self.6.model(), self.7.model(), self.8.model(), self.9.model(), self.10.model(), self.11.model()));
        let mut j: usize = 0;
        while j < smaller.len()
            invariant
                Self::obeys_arbitrary(),
                smaller@.len() == options.len(),
                options == self.2.shrink_models(),
                block == self.2.shrink_models().map_values(|m: C::Model| (self.0.model(), self.1.model(), m, self.3.model(), self.4.model(), self.5.model(), self.6.model(), self.7.model(), self.8.model(), self.9.model(), self.10.model(), self.11.model())),
                forall|k: int| 0 <= k < smaller@.len() ==> #[trigger] smaller@[k].model() == options[k],
                j <= smaller@.len(),
                candidates@.map_values(|c: (A, B, C, D, E, F, G, H, I, J, K, L)| c.model()) == done + block.take(j as int),
            decreases smaller@.len() - j,
        {
            let replacement = smaller[j].duplicate();
            let ghost prev = candidates@.map_values(|c: (A, B, C, D, E, F, G, H, I, J, K, L)| c.model());
            candidates.push((self.0.duplicate(), self.1.duplicate(), replacement, self.3.duplicate(), self.4.duplicate(), self.5.duplicate(), self.6.duplicate(), self.7.duplicate(), self.8.duplicate(), self.9.duplicate(), self.10.duplicate(), self.11.duplicate()));
            assert(candidates@.map_values(|c: (A, B, C, D, E, F, G, H, I, J, K, L)| c.model()) =~= prev.push(block[j as int]));
            assert(block.take(j + 1) =~= block.take(j as int).push(block[j as int]));
            j = j + 1;
        }
        assert(block.take(j as int) =~= block);
        proof {
            done = done + block;
        }
        let smaller = self.3.shrink();
        let ghost options = self.3.shrink_models();
        let ghost block = self.3.shrink_models().map_values(|m: D::Model| (self.0.model(), self.1.model(), self.2.model(), m, self.4.model(), self.5.model(), self.6.model(), self.7.model(), self.8.model(), self.9.model(), self.10.model(), self.11.model()));
        let mut j: usize = 0;
        while j < smaller.len()
            invariant
                Self::obeys_arbitrary(),
                smaller@.len() == options.len(),
                options == self.3.shrink_models(),
                block == self.3.shrink_models().map_values(|m: D::Model| (self.0.model(), self.1.model(), self.2.model(), m, self.4.model(), self.5.model(), self.6.model(), self.7.model(), self.8.model(), self.9.model(), self.10.model(), self.11.model())),
                forall|k: int| 0 <= k < smaller@.len() ==> #[trigger] smaller@[k].model() == options[k],
                j <= smaller@.len(),
                candidates@.map_values(|c: (A, B, C, D, E, F, G, H, I, J, K, L)| c.model()) == done + block.take(j as int),
            decreases smaller@.len() - j,
        {
            let replacement = smaller[j].duplicate();
            let ghost prev = candidates@.map_values(|c: (A, B, C, D, E, F, G, H, I, J, K, L)| c.model());
            candidates.push((self.0.duplicate(), self.1.duplicate(), self.2.duplicate(), replacement, self.4.duplicate(), self.5.duplicate(), self.6.duplicate(), self.7.duplicate(), self.8.duplicate(), self.9.duplicate(), self.10.duplicate(), self.11.duplicate()));
            assert(candidates@.map_values(|c: (A, B, C, D, E, F, G, H, I, J, K, L)| c.model()) =~= prev.push(block[j as int]));
            assert(block.take(j + 1) =~= block.take(j as int).push(block[j as int]));
            j = j + 1;
        }
        assert(block.take(j as int) =~= block);
        proof {
            done = done + block;
        }
        let smaller = self.4.shrink();
        let ghost options = self.4.shrink_models();
        let ghost block = self.4.shrink_models().map_values(|m: E::Model| (self.0.model(), self.1.model(), self.2.model(), self.3.model(), m, self.5.model(), self.6.model(), self.7.model(), self.8.model(), self.9.model(), self.10.model(), self.11.model()));
        let mut j: usize = 0;
        while j < smaller.len()
            invariant
                Self::obeys_arbitrary(),
                smaller@.len() == options.len(),
                options == self.4.shrink_models(),
                block == self.4.shrink_models().map_values(|m: E::Model| (self.0.model(), self.1.model(), self.2.model(), self.3.model(), m, self.5.model(), self.6.model(), self.7.model(), self.8.model(), self.9.model(), self.10.model(), self.11.model())),
                forall|k: int| 0 <= k < smaller@.len() ==> #[trigger] smaller@[k].model() == options[k],
                j <= smaller@.len(),
                candidates@.map_values(|c: (A, B, C, D, E, F, G, H, I, J, K, L)| c.model()) == done + block.take(j as int),
            decreases smaller@.len() - j,
        {
            let replacement = smaller[j].duplicate();
            let ghost prev = candidates@.map_values(|c: (A, B, C, D, E, F, G, H, I, J, K, L)| c.model());
            candidates.push((self.0.duplicate(), self.1.duplicate(), self.2.duplicate(), self.3.duplicate(), replacement, self.5.duplicate(), self.6.duplicate(), self.7.duplicate(), self.8.duplicate(), self.9.duplicate(), self.10.duplicate(), self.11.duplicate()));
            assert(candidates@.map_values(|c: (A, B, C, D, E, F, G, H, I, J, K, L)| c.model()) =~= prev.push(block[j as int]));
            assert(block.take(j + 1) =~= block.take(j as int).push(block[j as int]));
            j = j + 1;
        }
        assert(block.take(j as int) =~= block);
        proof {
            done = done + block;
        }
        let smaller = self.5.shrink();
        let ghost options = self.5.shrink_models();
        let ghost block = self.5.shrink_models().map_values(|m: F::Model| (self.0.model(), self.1.model(), self.2.model(), self.3.model(), self.4.model(), m, self.6.model(), self.7.model(), self.8.model(), self.9.model(), self.10.model(), self.11.model()));
        let mut j: usize = 0;
        while j < smaller.len()
            invariant
                Self::obeys_arbitrary(),
                smaller@.len() == options.len(),
                options == self.5.shrink_models(),
                block == self.5.shrink_models().map_values(|m: F::Model| (self.0.model(), self.1.model(), self.2.model(), self.3.model(), self.4.model(), m, self.6.model(), self.7.model(), self.8.model(), self.9.model(), self.10.model(), self.11.model())),
                forall|k: int| 0 <= k < smaller@.len() ==> #[trigger] smaller@[k].model() == options[k],
                j <= smaller@.len(),
                candidates@.map_values(|c: (A, B, C, D, E, F, G, H, I, J, K, L)| c.model()) == done + block.take(j as int),
            decreases smaller@.len() - j,
        {
            let replacement = smaller[j].duplicate();
            let ghost prev = candidates@.map_values(|c: (A, B, C, D, E, F, G, H, I, J, K, L)| c.model());
            candidates.push((self.0.duplicate(), self.1.duplicate(), self.2.duplicate(), self.3.duplicate(), self.4.duplicate(), replacement, self.6.duplicate(), self.7.duplicate(), self.8.duplicate(), self.9.duplicate(), self.10.duplicate(), self.11.duplicate()));
            assert(candidates@.map_values(|c: (A, B, C, D, E, F, G, H, I, J, K, L)| c.model()) =~= prev.push(block[j as int]));
            assert(block.take(j + 1) =~= block.take(j as int).push(block[j as int]));
            j = j + 1;
        }
        assert(block.take(j as int) =~= block);
        proof {
            done = done + block;
        }
        let smaller = self.6.shrink();
        let ghost options = self.6.shrink_models();
        let ghost block = self.6.shrink_models().map_values(|m: G::Model| (self.0.model(), self.1.model(), self.2.model(), self.3.model(), self.4.model(), self.5.model(), m, self.7.model(), self.8.model(), self.9.model(), self.10.model(), self.11.model()));
        let mut j: usize = 0;
        while j < smaller.len()
            invariant
                Self::obeys_arbitrary(),
                smaller@.len() == options.len(),
                options == self.6.shrink_models(),
                block == self.6.shrink_models().map_values(|m: G::Model| (self.0.model(), self.1.model(), self.2.model(), self.3.model(), self.4.model(), self.5.model(), m, self.7.model(), self.8.model(), self.9.model(), self.10.model(), self.11.model())),
                forall|k: int| 0 <= k < smaller@.len() ==> #[trigger] smaller@[k].model() == options[k],
                j <= smaller@.len(),
                candidates@.map_values(|c: (A, B, C, D, E, F, G, H, I, J, K, L)| c.model()) == done + block.take(j as int),
            decreases smaller@.len() - j,
        {
            let replacement = smaller[j].duplicate();
            let ghost prev = candidates@.map_values(|c: (A, B, C, D, E, F, G, H, I, J, K, L)| c.model());
            candidates.push((self.0.duplicate(), self.1.duplicate(), self.2.duplicate(), self.3.duplicate(), self.4.duplicate(), self.5.duplicate(), replacement, self.7.duplicate(), self.8.duplicate(), self.9.duplicate(), self.10.duplicate(), self.11.duplicate()));
            assert(candidates@.map_values(|c: (A, B, C, D, E, F, G, H, I, J, K, L)| c.model()) =~= prev.push(block[j as int]));
            assert(block.take(j + 1) =~= block.take(j as int).push(block[j as int]));
            j = j + 1;
        }
        assert(block.take(j as int) =~= block);
        proof {
            done = done + block;
        }
        let smaller = self.7.shrink();
        let ghost options = self.7.shrink_models();
        let ghost block = self.7.shrink_models().map_values(|m: H::Model| (self.0.model(), self.1.model(), self.2.model(), self.3.model(), self.4.model(), self.5.model(), self.6.model(), m, self.8.model(), self.9.model(), self.10.model(), self.11.model()));
        let mut j: usize = 0;
        while j < smaller.len()
            invariant
                Self::obeys_arbitrary(),
                smaller@.len() == options.len(),
                options == self.7.shrink_models(),
                block == self.7.shrink_models().map_values(|m: H::Model| (self.0.model(), self.1.model(), self.2.model(), self.3.model(), self.4.model(), self.5.model(), self.6.model(), m, self.8.model(), self.9.model(), self.10.model(), self.11.model())),
                forall|k: int| 0 <= k < smaller@.len() ==> #[trigger] smaller@[k].model() == options[k],
                j <= smaller@.len(),
                candidates@.map_values(|c: (A, B, C, D, E, F, G, H, I, J, K, L)| c.model()) == done + block.take(j as int),
            decreases smaller@.len() - j,
        {
            let replacement = smaller[j].duplicate();
            let ghost prev = candidates@.map_values(|c: (A, B, C, D, E, F, G, H, I, J, K, L)| c.model());
            candidates.push((self.0.duplicate(), self.1.duplicate(), self.2.duplicate(), self.3.duplicate(), self.4.duplicate(), self.5.duplicate(), self.6.duplicate(), replacement, self.8.duplicate(), self.9.duplicate(), self.10.duplicate(), self.11.duplicate()));
            assert(candidates@.map_values(|c: (A, B, C, D, E, F, G, H, I, J, K, L)| c.model()) =~= prev.push(block[j as int]));
            assert(block.take(j + 1) =~= block.take(j as int).push(block[j as int]));
            j = j + 1;
        }
        assert(block.take(j as int) =~= block);
        proof {
            done = done + block;
        }
        let smaller = self.8.shrink();
        let ghost options = self.8.shrink_models();
        let ghost block = self.8.shrink_models().map_values(|m: I::Model| (self.0.model(), self.1.model(), self.2.model(), self.3.model(), self.4.model(), self.5.model(), self.6.model(), self.7.model(), m, self.9.model(), self.10.model(), self.11.model()));
        let mut j: usize = 0;
        while j < smaller.len()
            invariant
                Self::obeys_arbitrary(),
                smaller@.len() == options.len(),
                options == self.8.shrink_models(),
                block == self.8.shrink_models().map_values(|m: I::Model| (self.0.model(), self.1.model(), self.2.model(), self.3.model(), self.4.model(), self.5.model(), self.6.model(), self.7.model(), m, self.9.model(), self.10.model(), self.11.model())),
                forall|k: int| 0 <= k < smaller@.len() ==> #[trigger] smaller@[k].model() == options[k],
                j <= smaller@.len(),
                candidates@.map_values(|c: (A, B, C, D, E, F, G, H, I, J, K, L)| c.model()) == done + block.take(j as int),
            decreases smaller@.len() - j,
        {
            let replacement = smaller[j].duplicate();
            let ghost prev = candidates@.map_values(|c: (A, B, C, D, E, F, G, H, I, J, K, L)| c.model());
            candidates.push((self.0.duplicate(), self.1.duplicate(), self.2.duplicate(), self.3.duplicate(), self.4.duplicate(), self.5.duplicate(), self.6.duplicate(), self.7.duplicate(), replacement, self.9.duplicate(), self.10.duplicate(), self.11.duplicate()));
            assert(candidates@.map_values(|c: (A, B, C, D, E, F, G, H, I, J, K, L)| c.model()) =~= prev.push(block[j as int]));
            assert(block.take(j + 1) =~= block.take(j as int).push(block[j as int]));
            j = j + 1;
        }
        assert(block.take(j as int) =~= block);
        proof {
            done = done + block;
        }
        let smaller = self.9.shrink();
        let ghost options = self.9.shrink_models();
        let ghost block = self.9.shrink_models().map_values(|m: J::Model| (self.0.model(), self.1.model(), self.2.model(), self.3.model(), self.4.model(), self.5.model(), self.6.model(), self.7.model(), self.8.model(), m, self.10.model(), self.11.model()));
        let mut j: usize = 0;
        while j < smaller.len()
            invariant
                Self::obeys_arbitrary(),
                smaller@.len() == options.len(),
                options == self.9.shrink_models(),
                block == self.9.shrink_models().map_values(|m: J::Model| (self.0.model(), self.1.model(), self.2.model(), self.3.model(), self.4.model(), self.5.model(), self.6.model(), self.7.model(), self.8.model(), m, self.10.model(), self.11.model())),
                forall|k: int| 0 <= k < smaller@.len() ==> #[trigger] smaller@[k].model() == options[k],
                j <= smaller@.len(),
                candidates@.map_values(|c: (A, B, C, D, E, F, G, H, I, J, K, L)| c.model()) == done + block.take(j as int),
            decreases smaller@.len() - j,
        {
            let replacement = smaller[j].duplicate();
            let ghost prev = candidates@.map_values(|c: (A, B, C, D, E, F, G, H, I, J, K, L)| c.model());
            candidates.push((self.0.duplicate(), self.1.duplicate(), self.2.duplicate(), self.3.duplicate(), self.4.duplicate(), self.5.duplicate(), self.6.duplicate(), self.7.duplicate(), self.8.duplicate(), replacement, self.10.duplicate(), self.11.duplicate()));
            assert(candidates@.map_values(|c: (A, B, C, D, E, F, G, H, I, J, K, L)| c.model()) =~= prev.push(block[j as int]));
            assert(block.take(j + 1) =~= block.take(j as int).push(block[j as int]));
            j = j + 1;
        }
        assert(block.take(j as int) =~= block);
        proof {
            done = done + block;
        }
        let smaller = self.10.shrink();
        let ghost options = self.10.shrink_models();
        let ghost block = self.10.shrink_models().map_values(|m: K::Model| (self.0.model(), self.1.model(), self.2.model(), self.3.model(), self.4.model(), self.5.model(), self.6.model(), self.7.model(), self.8.model(), self.9.model(), m, self.11.model()));
        let mut j: usize = 0;
        while j < smaller.len()
            invariant
                Self::obeys_arbitrary(),
                smaller@.len() == options.len(),
                options == self.10.shrink_models(),
                block == self.10.shrink_models().map_values(|m: K::Model| (self.0.model(), self.1.model(), self.2.model(), self.3.model(), self.4.model(), self.5.model(), self.6.model(), self.7.model(), self.8.model(), self.9.model(), m, self.11.model())),
                forall|k: int| 0 <= k < smaller@.len() ==> #[trigger] smaller@[k].model() == options[k],
                j <= smaller@.len(),
                candidates@.map_values(|c: (A, B, C, D, E, F, G, H, I, J, K, L)| c.model()) == done + block.take(j as int),
            decreases smaller@.len() - j,
        {
            let replacement = smaller[j].duplicate();
            let ghost prev = candidates@.map_values(|c: (A, B, C, D, E, F, G, H, I, J, K, L)| c.model());
            candidates.push((self.0.duplicate(), self.1.duplicate(), self.2.duplicate(), self.3.duplicate(), self.4.duplicate(), self.5.duplicate(), self.6.duplicate(), self.7.duplicate(), self.8.duplicate(), self.9.duplicate(), replacement, self.11.duplicate()));
            assert(candidates@.map_values(|c: (A, B, C, D, E, F, G, H, I, J, K, L)| c.model()) =~= prev.push(block[j as int]));
            assert(block.take(j + 1) =~= block.take(j as int).push(block[j as int]));
            j = j + 1;
        }
        assert(block.take(j as int) =~= block);
        proof {
            done = done + block;
        }
        let smaller = self.11.shrink();
        let ghost options = self.11.shrink_models();
        let ghost block = self.11.shrink_models().map_values(|m: L::Model| (self.0.model(), self.1.model(), self.2.model(), self.3.model(), self.4.model(), self.5.model(), self.6.model(), self.7.model(), self.8.model(), self.9.model(), self.10.model(), m));
        let mut j: usize = 0;
        while j < smaller.len()
            invariant
                Self::obeys_arbitrary(),
                smaller@.len() == options.len(),
                options == self.11.shrink_models(),
                block == self.11.shrink_models().map_values(|m: L::Model| (self.0.model(), self.1.model(), self.2.model(), self.3.model(), self.4.model(), self.5.model(), self.6.model(), self.7.model(), self.8.model(), self.9.model(), self.10.model(), m)),
                forall|k: int| 0 <= k < smaller@.len() ==> #[trigger] smaller@[k].model() == options[k],
                j <= smaller@.len(),
                candidates@.map_values(|c: (A, B, C, D, E, F, G, H, I, J, K, L)| c.model()) == done + block.take(j as int),
            decreases smaller@.len() - j,
        {
            let replacement = smaller[j].duplicate();
            let ghost prev = candidates@.map_values(|c: (A, B, C, D, E, F, G, H, I, J, K, L)| c.model());
            candidates.push((self.0.duplicate(), self.1.duplicate(), self.2.duplicate(), self.3.duplicate(), self.4.duplicate(), self.5.duplicate(), self.6.duplicate(), self.7.duplicate(), self.8.duplicate(), self.9.duplicate(), self.10.duplicate(), replacement));
            assert(candidates@.map_values(|c: (A, B, C, D, E, F, G, H, I, J, K, L)| c.model()) =~= prev.push(block[j as int]));
            assert(block.take(j + 1) =~= block.take(j as int).push(block[j as int]));
            j = j + 1;
        }
        assert(block.take(j as int) =~= block);
        proof {
            done = done + block;
        }
        assert(done =~= self.shrink_models());
        candidates
    }
}


/// Values generated one after the other, through the given intermediate
/// histories, make a tuple of 2 generated from `before` to `after`.
proof fn lemma_tuple2_generated<A: Arbitrary, B: Arbitrary>(
    size: nat,
    before: Seq<Sample>,
    s1: Seq<Sample>,
    after: Seq<Sample>,
    m0: A::Model, m1: B::Model,
)
    requires
        A::generated(size, before, m0, s1) && B::generated(size, s1, m1, after),
    ensures
        <(A, B) as Arbitrary>::generated(size, before, (m0, m1), after),
{
    let mm = (m0, m1);
    assert(mm.0 == m0 && mm.1 == m1);
    assert(exists|s1: Seq<Sample>|
            #![trigger B::generated(size, s1, mm.1, after)]
            A::generated(size, before, mm.0, s1) && B::generated(size, s1, mm.1, after));
}


/// Values generated one after the other, through the given intermediate
/// histories, make a tuple of 3 generated from `before` to `after`.
proof fn lemma_tuple3_generated<A: Arbitrary, B: Arbitrary, C: Arbitrary>(
    size: nat,
    before: Seq<Sample>,
    s1: Seq<Sample>, s2: Seq<Sample>,
    after: Seq<Sample>,
    m0: A::Model, m1: B::Model, m2: C::Model,
)
    requires
        A::generated(size, before, m0, s1) && B::generated(size, s1, m1, s2) && C::generated(size, s2, m2, after),
    ensures
        <(A, B, C) as Arbitrary>::generated(size, before, (m0, m1, m2), after),
{
    let mm = (m0, m1, m2);
    assert(mm.0 == m0 && mm.1 == m1 && mm.2 == m2);
    assert(exists|s1: Seq<Sample>, s2: Seq<Sample>|
            #![trigger B::generated(size, s1, mm.1, s2)]
            A::generated(size, before, mm.0, s1) && B::generated(size, s1, mm.1, s2) && C::generated(size, s2, mm.2, after));
}


/// Values generated one after the other, through the given intermediate
/// histories, make a tuple of 4 generated from `before` to `after`.
proof fn lemma_tuple4_generated<A: Arbitrary, B: Arbitrary, C: Arbitrary, D: Arbitrary>(
    size: nat,
    before: Seq<Sample>,
    s1: Seq<Sample>, s2: Seq<Sample>, s3: Seq<Sample>,
    after: Seq<Sample>,
    m0: A::Model, m1: B::Model, m2: C::Model, m3: D::Model,
)
    requires
        A::generated(size, before, m0, s1) && B::generated(size, s1, m1, s2) && C::generated(size, s2, m2, s3) && D::generated(size, s3, m3, after),
    ensures
        <(A, B, C, D) as Arbitrary>::generated(size, before, (m0, m1, m2, m3), after),
{
    let mm = (m0, m1, m2, m3);
    assert(mm.0 == m0 && mm.1 == m1 && mm.2 == m2 && mm.3 == m3);
    assert(exists|s1: Seq<Sample>, s2: Seq<Sample>, s3: Seq<Sample>|
            #![trigger B::generated(size, s1, mm.1, s2), D::generated(size, s3, mm.3, after)]
            A::generated(size, before, mm.0, s1) && B::generated(size, s1, mm.1, s2) && C::generated(size, s2, mm.2, s3) && D::generated(size, s3, mm.3, after));
}


/// Values generated one after the other, through the given intermediate
/// histories, make a tuple of 5 generated from `before` to `after`.
proof fn lemma_tuple5_generated<A: Arbitrary, B: Arbitrary, C: Arbitrary, D: Arbitrary, E: Arbitrary>(
    size: nat,
    before: Seq<Sample>,
    s1: Seq<Sample>, s2: Seq<Sample>, s3: Seq<Sample>, s4: Seq<Sample>,
    after: Seq<Sample>,
    m0: A::Model, m1: B::Model, m2: C::Model, m3: D::Model, m4: E::Model,
)
    requires
        A::generated(size, before, m0, s1) && B::generated(size, s1, m1, s2) && C::generated(size, s2, m2, s3) && D::generated(size, s3, m3, s4) && E::generated(size, s4, m4, after),
    ensures
        <(A, B, C, D, E) as Arbitrary>::generated(size, before, (m0, m1, m2, m3, m4), after),
{
    let mm = (m0, m1, m2, m3, m4);
    assert(mm.0 == m0 && mm.1 == m1 && mm.2 == m2 && mm.3 == m3 && mm.4 == m4);
    assert(exists|s1: Seq<Sample>, s2: Seq<Sample>, s3: Seq<Sample>, s4: Seq<Sample>|
            #![trigger B::generated(size, s1, mm.1, s2), D::generated(size, s3, mm.3, s4)]
            A::generated(size, before, mm.0, s1) && B::generated(size, s1, mm.1, s2) && C::generated(size, s2, mm.2, s3) && D::generated(size, s3, mm.3, s4) && E::generated(size, s4, mm.4, after));
}


/// Values generated one after the other, through the given intermediate
/// histories, make a tuple of 6 generated from `before` to `after`.
proof fn lemma_tuple6_generated<A: Arbitrary, B: Arbitrary, C: Arbitrary, D: Arbitrary, E: Arbitrary, F: Arbitrary>(
    size: nat,
    before: Seq<Sample>,
    s1: Seq<Sample>, s2: Seq<Sample>, s3: Seq<Sample>, s4: Seq<Sample>, s5: Seq<Sample>,
    after: Seq<Sample>,
    m0: A::Model, m1: B::Model, m2: C::Model, m3: D::Model, m4: E::Model, m5: F::Model,
)
    requires
        A::generated(size, before, m0, s1) && B::generated(size, s1, m1, s2) && C::generated(size, s2, m2, s3) && D::generated(size, s3, m3, s4) && E::generated(size, s4, m4, s5) && F::generated(size, s5, m5, after),
    ensures
        <(A, B, C, D, E, F) as Arbitrary>::generated(size, before, (m0, m1, m2, m3, m4, m5), after),
{
    let mm = (m0, m1, m2, m3, m4, m5);
    assert(mm.0 == m0 && mm.1 == m1 && mm.2 == m2 && mm.3 == m3 && mm.4 == m4 && mm.5 == m5);
    assert(exists|s1: Seq<Sample>, s2: Seq<Sample>, s3: Seq<Sample>, s4: Seq<Sample>, s5: Seq<Sample>|
            #![trigger B::generated(size, s1, mm.1, s2), D::generated(size, s3, mm.3, s4), F::generated(size, s5, mm.5, after)]
            A::generated(size, before, mm.0, s1) && B::generated(size, s1, mm.1, s2) && C::generated(size, s2, mm.2, s3) && D::generated(size, s3, mm.3, s4) && E::generated(size, s4, mm.4, s5) && F::generated(size, s5, mm.5, after));
}


/// Values generated one after the other, through the given intermediate
/// histories, make a tuple of 7 generated from `before` to `after`.
proof fn lemma_tuple7_generated<A: Arbitrary, B: Arbitrary, C: Arbitrary, D: Arbitrary, E: Arbitrary, F: Arbitrary, G: Arbitrary>(
    size: nat,
    before: Seq<Sample>,
    s1: Seq<Sample>, s2: Seq<Sample>, s3: Seq<Sample>, s4: Seq<Sample>, s5: Seq<Sample>, s6: Seq<Sample>,
    after: Seq<Sample>,
    m0: A::Model, m1: B::Model, m2: C::Model, m3: D::Model, m4: E::Model, m5: F::Model, m6: G::Model,
)
    requires
        A::generated(size, before, m0, s1) && B::generated(size, s1, m1, s2) && C::generated(size, s2, m2, s3) && D::generated(size, s3, m3, s4) && E::generated(size, s4, m4, s5) && F::generated(size, s5, m5, s6) && G::generated(size, s6, m6, after),
    ensures
        <(A, B, C, D, E, F, G) as Arbitrary>::generated(size, before, (m0, m1, m2, m3, m4, m5, m6), after),
{
    let mm = (m0, m1, m2, m3, m4, m5, m6);
    assert(mm.0 == m0 && mm.1 == m1 && mm.2 == m2 && mm.3 == m3 && mm.4 == m4 && mm.5 == m5 && mm.6 == m6);
    assert(exists|s1: Seq<Sample>, s2: Seq<Sample>, s3: Seq<Sample>, s4: Seq<Sample>, s5: Seq<Sample>, s6: Seq<Sample>|
            #![trigger B::generated(size, s1, mm.1, s2), D::generated(size, s3, mm.3, s4), F::generated(size, s5, mm.5, s6)]
            A::generated(size, before, mm.0, s1) && B::generated(size, s1, mm.1, s2) && C::generated(size, s2, mm.2, s3) && D::generated(size, s3, mm.3, s4) && E::generated(size, s4, mm.4, s5) && F::generated(size, s5, mm.5, s6) && G::generated(size, s6, mm.6, after));
}


/// Values generated one after the other, through the given intermediate
/// histories, make a tuple of 8 generated from `before` to `after`.
proof fn lemma_tuple8_generated<A: Arbitrary, B: Arbitrary, C: Arbitrary, D: Arbitrary, E: Arbitrary, F: Arbitrary, G: Arbitrary, H: Arbitrary>(
    size: nat,
    before: Seq<Sample>,
    s1: Seq<Sample>, s2: Seq<Sample>, s3: Seq<Sample>, s4: Seq<Sample>, s5: Seq<Sample>, s6: Seq<Sample>, s7: Seq<Sample>,
    after: Seq<Sample>,
    m0: A::Model, m1: B::Model, m2: C::Model, m3: D::Model, m4: E::Model, m5: F::Model, m6: G::Model, m7: H::Model,
)
    requires
        A::generated(size, before, m0, s1) && B::generated(size, s1, m1, s2) && C::generated(size, s2, m2, s3) && D::generated(size, s3, m3, s4) && E::generated(size, s4, m4, s5) && F::generated(size, s5, m5, s6) && G::generated(size, s6, m6, s7) && H::generated(size, s7, m7, after),
    ensures
        <(A, B, C, D, E, F, G, H) as Arbitrary>::generated(size, before, (m0, m1, m2, m3, m4, m5, m6, m7), after),
{
    let mm = (m0, m1, m2, m3, m4, m5, m6, m7);
    assert(mm.0 == m0 && mm.1 == m1 && mm.2 == m2 && mm.3 == m3 && mm.4 == m4 && mm.5 == m5 && mm.6 == m6 && mm.7 == m7);
    assert(exists|s1: Seq<Sample>, s2: Seq<Sample>, s3: Seq<Sample>, s4: Seq<Sample>, s5: Seq<Sample>, s6: Seq<Sample>, s7: Seq<Sample>|
            #![trigger B::generated(size, s1, mm.1, s2), D::generated(size, s3, mm.3, s4), F::generated(size, s5, mm.5, s6), H::generated(size, s7, mm.7, after)]
            A::generated(size, before, mm.0, s1) && B::generated(size, s1, mm.1, s2) && C::generated(size, s2, mm.2, s3) && D::generated(size, s3, mm.3, s4) && E::generated(size, s4, mm.4, s5) && F::generated(size, s5, mm.5, s6) && G::generated(size, s6, mm.6, s7) && H::generated(size, s7, mm.7, after));
}


/// Values generated one after the other, through the given intermediate
/// histories, make a tuple of 9 generated from `before` to `after`.
proof fn lemma_tuple9_generated<A: Arbitrary, B: Arbitrary, C: Arbitrary, D: Arbitrary, E: Arbitrary, F: Arbitrary, G: Arbitrary, H: Arbitrary, I: Arbitrary>(
    size: nat,
    before: Seq<Sample>,
    s1: Seq<Sample>, s2: Seq<Sample>, s3: Seq<Sample>, s4: Seq<Sample>, s5: Seq<Sample>, s6: Seq<Sample>, s7: Seq<Sample>, s8: Seq<Sample>,
    after: Seq<Sample>,
    m0: A::Model, m1: B::Model, m2: C::Model, m3: D::Model, m4: E::Model, m5: F::Model, m6: G::Model, m7: H::Model, m8: I::Model,
)
    requires
        A::generated(size, before, m0, s1) && B::generated(size, s1, m1, s2) && C::generated(size, s2, m2, s3) && D::generated(size, s3, m3, s4) && E::generated(size, s4, m4, s5) && F::generated(size, s5, m5, s6) && G::generated(size, s6, m6, s7) && H::generated(size, s7, m7, s8) && I::generated(size, s8, m8, after),
    ensures
        <(A, B, C, D, E, F, G, H, I) as Arbitrary>::generated(size, before, (m0, m1, m2, m3, m4, m5, m6, m7, m8), after),
{
    let mm = (m0, m1, m2, m3, m4, m5, m6, m7, m8);
    assert(mm.0 == m0 && mm.1 == m1 && mm.2 == m2 && mm.3 == m3 && mm.4 == m4 && mm.5 == m5 && mm.6 == m6 && mm.7 == m7 && mm.8 == m8);
    assert(exists|s1: Seq<Sample>, s2: Seq<Sample>, s3: Seq<Sample>, s4: Seq<Sample>, s5: Seq<Sample>, s6: Seq<Sample>, s7: Seq<Sample>, s8: Seq<Sample>|
            #![trigger B::generated(size, s1, mm.1, s2), D::generated(size, s3, mm.3, s4), F::generated(size, s5, mm.5, s6), H::generated(size, s7, mm.7, s8)]
            A::generated(size, before, mm.0, s1) && B::generated(size, s1, mm.1, s2) && C::generated(size, s2, mm.2, s3) && D::generated(size, s3, mm.3, s4) && E::generated(size, s4, mm.4, s5) && F::generated(size, s5, mm.5, s6) && G::generated(size, s6, mm.6, s7) && H::generated(size, s7, mm.7, s8) && I::generated(size, s8, mm.8, after));
}


/// Values generated one after the other, through the given intermediate
/// histories, make a tuple of 10 generated from `before` to `after`.
proof fn lemma_tuple10_generated<A: Arbitrary, B: Arbitrary, C: Arbitrary, D: Arbitrary, E: Arbitrary, F: Arbitrary, G: Arbitrary, H: Arbitrary, I: Arbitrary, J: Arbitrary>(
    size: nat,
    before: Seq<Sample>,
    s1: Seq<Sample>, s2: Seq<Sample>, s3: Seq<Sample>, s4: Seq<Sample>, s5: Seq<Sample>, s6: Seq<Sample>, s7: Seq<Sample>, s8: Seq<Sample>, s9: Seq<Sample>,
    after: Seq<Sample>,
    m0: A::Model, m1: B::Model, m2: C::Model, m3: D::Model, m4: E::Model, m5: F::Model, m6: G::Model, m7: H::Model, m8: I::Model, m9: J::Model,
)
    requires
        A::generated(size, before, m0, s1) && B::generated(size, s1, m1, s2) && C::generated(size, s2, m2, s3) && D::generated(size, s3, m3, s4) && E::generated(size, s4, m4, s5) && F::generated(size, s5, m5, s6) && G::generated(size, s6, m6, s7) && H::generated(size, s7, m7, s8) && I::generated(size, s8, m8, s9) && J::generated(size, s9, m9, after),
    ensures
        <(A, B, C, D, E, F, G, H, I, J) as Arbitrary>::generated(size, before, (m0, m1, m2, m3, m4, m5, m6, m7, m8, m9), after),
{
    let mm = (m0, m1, m2, m3, m4, m5, m6, m7, m8, m9);
    assert(mm.0 == m0 && mm.1 == m1 && mm.2 == m2 && mm.3 == m3 && mm.4 == m4 && mm.5 == m5 && mm.6 == m6 && mm.7 == m7 && mm.8 == m8 && mm.9 == m9);
    assert(exists|s1: Seq<Sample>, s2: Seq<Sample>, s3: Seq<Sample>, s4: Seq<Sample>, s5: Seq<Sample>, s6: Seq<Sample>, s7: Seq<Sample>, s8: Seq<Sample>, s9: Seq<Sample>|
            #![trigger B::generated(size, s1, mm.1, s2), D::generated(size, s3, mm.3, s4), F::generated(size, s5, mm.5, s6), H::generated(size, s7, mm.7, s8), J::generated(size, s9, mm.9, after)]
            A::generated(size, before, mm.0, s1) && B::generated(size, s1, mm.1, s2) && C::generated(size, s2, mm.2, s3) && D::generated(size, s3, mm.3, s4) && E::generated(size, s4, mm.4, s5) && F::generated(size, s5, mm.5, s6) && G::generated(size, s6, mm.6, s7) && H::generated(size, s7, mm.7, s8) && I::generated(size, s8, mm.8, s9) && J::generated(size, s9, mm.9, after));
}


/// Values generated one after the other, through the given intermediate
/// histories, make a tuple of 11 generated from `before` to `after`.
proof fn lemma_tuple11_generated<A: Arbitrary, B: Arbitrary, C: Arbitrary, D: Arbitrary, E: Arbitrary, F: Arbitrary, G: Arbitrary, H: Arbitrary, I: Arbitrary, J: Arbitrary, K: Arbitrary>(
    size: nat,
    before: Seq<Sample>,
    s1: Seq<Sample>, s2: Seq<Sample>, s3: Seq<Sample>, s4: Seq<Sample>, s5: Seq<Sample>, s6: Seq<Sample>, s7: Seq<Sample>, s8: Seq<Sample>, s9: Seq<Sample>, s10: Seq<Sample>,
    after: Seq<Sample>,
    m0: A::Model, m1: B::Model, m2: C::Model, m3: D::Model, m4: E::Model, m5: F::Model, m6: G::Model, m7: H::Model, m8: I::Model, m9: J::Model, m10: K::Model,
)
    requires
        A::generated(size, before, m0, s1) && B::generated(size, s1, m1, s2) && C::generated(size, s2, m2, s3) && D::generated(size, s3, m3, s4) && E::generated(size, s4, m4, s5) && F::generated(size, s5, m5, s6) && G::generated(size, s6, m6, s7) && H::generated(size, s7, m7, s8) && I::generated(size, s8, m8, s9) && J::generated(size, s9, m9, s10) && K::generated(size, s10, m10, after),
    ensures
        <(A, B, C, D, E, F, G, H, I, J, K) as Arbitrary>::generated(size, before, (m0, m1, m2, m3, m4, m5, m6, m7, m8, m9, m10), after),
{
    let mm = (m0, m1, m2, m3, m4, m5, m6, m7, m8, m9, m10);
    assert(mm.0 == m0 && mm.1 == m1 && mm.2 == m2 && mm.3 == m3 && mm.4 == m4 && mm.5 == m5 && mm.6 == m6 && mm.7 == m7 && mm.8 == m8 && mm.9 == m9 && mm.10 == m10);
    assert(exists|s1: Seq<Sample>, s2: Seq<Sample>, s3: Seq<Sample>, s4: Seq<Sample>, s5: Seq<Sample>, s6: Seq<Sample>, s7: Seq<Sample>, s8: Seq<Sample>, s9: Seq<Sample>, s10: Seq<Sample>|
            #![trigger B::generated(size, s1, mm.1, s2), D::generated(size, s3, mm.3, s4), F::generated(size, s5, mm.5, s6), H::generated(size, s7, mm.7, s8), J::generated(size, s9, mm.9, s10)]
            A::generated(size, before, mm.0, s1) && B::generated(size, s1, mm.1, s2) && C::generated(size, s2, mm.2, s3) && D::generated(size, s3, mm.3, s4) && E::generated(size, s4, mm.4, s5) && F::generated(size, s5, mm.5, s6) && G::generated(size, s6, mm.6, s7) && H::generated(size, s7, mm.7, s8) && I::generated(size, s8, mm.8, s9) && J::generated(size, s9, mm.9, s10) && K::generated(size, s10, mm.10, after));
}


/// Values generated one after the other, through the given intermediate
/// histories, make a tuple of 12 generated from `before` to `after`.
proof fn lemma_tuple12_generated<A: Arbitrary, B: Arbitrary, C: Arbitrary, D: Arbitrary, E: Arbitrary, F: Arbitrary, G: Arbitrary, H: Arbitrary, I: Arbitrary, J: Arbitrary, K: Arbitrary, L: Arbitrary>(
    size: nat,
    before: Seq<Sample>,
    s1: Seq<Sample>, s2: Seq<Sample>, s3: Seq<Sample>, s4: Seq<Sample>, s5: Seq<Sample>, s6: Seq<Sample>, s7: Seq<Sample>, s8: Seq<Sample>, s9: Seq<Sample>, s10: Seq<Sample>, s11: Seq<Sample>,
    after: Seq<Sample>,
    m0: A::Model, m1: B::Model, m2: C::Model, m3: D::Model, m4: E::Model, m5: F::Model, m6: G::Model, m7: H::Model, m8: I::Model, m9: J::Model, m10: K::Model, m11: L::Model,
)
    requires
        A::generated(size, before, m0, s1) && B::generated(size, s1, m1, s2) && C::generated(size, s2, m2, s3) && D::generated(size, s3, m3, s4) && E::generated(size, s4, m4, s5) && F::generated(size, s5, m5, s6) && G::generated(size, s6, m6, s7) && H::generated(size, s7, m7, s8) && I::generated(size, s8, m8, s9) && J::generated(size, s9, m9, s10) && K::generated(size, s10, m10, s11) && L::generated(size, s11, m11, after),
    ensures
        <(A, B, C, D, E, F, G, H, I, J, K, L) as Arbitrary>::generated(size, before, (m0, m1, m2, m3, m4, m5, m6, m7, m8, m9, m10, m11), after),
{
    let mm = (m0, m1, m2, m3, m4, m5, m6, m7, m8, m9, m10, m11);
    assert(mm.0 == m0 && mm.1 == m1 && mm.2 == m2 && mm.3 == m3 && mm.4 == m4 && mm.5 == m5 && mm.6 == m6 && mm.7 == m7 && mm.8 == m8 && mm.9 == m9 && mm.10 == m10 && mm.11 == m11);
    assert(exists|s1: Seq<Sample>, s2: Seq<Sample>, s3: Seq<Sample>, s4: Seq<Sample>, s5: Seq<Sample>, s6: Seq<Sample>|
            #![trigger B::generated(size, s1, mm.1, s2), C::generated(size, s2, mm.2, s3), D::generated(size, s3, mm.3, s4), E::generated(size, s4, mm.4, s5), F::generated(size, s5, mm.5, s6)]
            A::generated(size, before, mm.0, s1) && B::generated(size, s1, mm.1, s2) && C::generated(size, s2, mm.2, s3) && D::generated(size, s3, mm.3, s4) && E::generated(size, s4, mm.4, s5) && F::generated(size, s5, mm.5, s6) && exists|s7: Seq<Sample>, s8: Seq<Sample>, s9: Seq<Sample>, s10: Seq<Sample>, s11: Seq<Sample>|
                #![trigger G::generated(size, s6, mm.6, s7), H::generated(size, s7, mm.7, s8), I::generated(size, s8, mm.8, s9), J::generated(size, s9, mm.9, s10), K::generated(size, s10, mm.10, s11), L::generated(size, s11, mm.11, after)]
                G::generated(size, s6, mm.6, s7) && H::generated(size, s7, mm.7, s8) && I::generated(size, s8, mm.8, s9) && J::generated(size, s9, mm.9, s10) && K::generated(size, s10, mm.10, s11) && L::generated(size, s11, mm.11, after));
}


/// Every element of `s` keeps its index in `s + t`, and every element of `t`
/// comes after all of `s`.
proof fn lemma_concat_positions<M>(s: Seq<M>, t: Seq<M>)
    ensures
        (s + t).len() == s.len() + t.len(),
        forall|k: int| 0 <= k < s.len() ==> #[trigger] (s + t)[k] == s[k],
        forall|k: int| 0 <= k < t.len() ==> (s + t)[s.len() + k] == #[trigger] t[k],
{
    assert forall|k: int| 0 <= k < t.len() implies (s + t)[s.len() + k] == #[trigger] t[k] by {
        assert((s + t)[s.len() + k] == t[k]);
    }
}


/// A tuple of 1 shrinks its component in turn, the others kept: its
/// candidates are, in order, each candidate of the first component with the
/// others kept, then each candidate of the second, and so on, and nothing
/// else.
pub proof fn lemma_tuple1_shrinks_componentwise<A: Arbitrary>(t: &(A,))
    ensures
        t.shrink_models().len() == t.0.shrink_models().len(),
        forall|j: int| 0 <= j < t.0.shrink_models().len() ==> t.shrink_models()[j] == (#[trigger] t.0.shrink_models()[j],),
{
    let b0 = t.0.shrink_models().map_values(|m: A::Model| (m,));
    let p1 = b0;
    assert(t.shrink_models() == p1);
    assert forall|j: int| 0 <= j < t.0.shrink_models().len() implies t.shrink_models()[j] == (#[trigger] t.0.shrink_models()[j],) by {
        assert(b0[j] == (t.0.shrink_models()[j],));
    }
}


/// A tuple of 2 shrinks each component in turn, the others kept: its
/// candidates are, in order, each candidate of the first component with the
/// others kept, then each candidate of the second, and so on, and nothing
/// else.
pub proof fn lemma_tuple2_shrinks_componentwise<A: Arbitrary, B: Arbitrary>(t: &(A, B))
    ensures
        t.shrink_models().len() == t.0.shrink_models().len() + t.1.shrink_models().len(),
        forall|j: int| 0 <= j < t.0.shrink_models().len() ==> t.shrink_models()[j] == (#[trigger] t.0.shrink_models()[j], t.1.model()),
        forall|j: int| 0 <= j < t.1.shrink_models().len() ==> t.shrink_models()[t.0.shrink_models().len() + j] == (t.0.model(), #[trigger] t.1.shrink_models()[j]),
{
    let b0 = t.0.shrink_models().map_values(|m: A::Model| (m, t.1.model()));
    let b1 = t.1.shrink_models().map_values(|m: B::Model| (t.0.model(), m));
    let p1 = b0;
    let p2 = p1 + b1;
    assert(t.shrink_models() == p2);
    lemma_concat_positions(p1, b1);
    assert forall|j: int| 0 <= j < t.0.shrink_models().len() implies t.shrink_models()[j] == (#[trigger] t.0.shrink_models()[j], t.1.model()) by {
        assert(b0[j] == (t.0.shrink_models()[j], t.1.model()));
        assert(p2[j] == p1[j]);
    }
    assert forall|j: int| 0 <= j < t.1.shrink_models().len() implies t.shrink_models()[p1.len() + j] == (t.0.model(), #[trigger] t.1.shrink_models()[j]) by {
        assert(b1[j] == (t.0.model(), t.1.shrink_models()[j]));
        assert(p2[p1.len() + j] == b1[j]);
    }
}


/// A tuple of 3 shrinks each component in turn, the others kept: its
/// candidates are, in order, each candidate of the first component with the
/// others kept, then each candidate of the second, and so on, and nothing
/// else.
pub proof fn lemma_tuple3_shrinks_componentwise<A: Arbitrary, B: Arbitrary, C: Arbitrary>(t: &(A, B, C))
    ensures
        t.shrink_models().len() == t.0.shrink_models().len() + t.1.shrink_models().len() + t.2.shrink_models().len(),
        forall|j: int| 0 <= j < t.0.shrink_models().len() ==> t.shrink_models()[j] == (#[trigger] t.0.shrink_models()[j], t.1.model(), t.2.model()),
        forall|j: int| 0 <= j < t.1.shrink_models().len() ==> t.shrink_models()[t.0.shrink_models().len() + j] == (t.0.model(), #[trigger] t.1.shrink_models()[j], t.2.model()),
        forall|j: int| 0 <= j < t.2.shrink_models().len() ==> t.shrink_models()[t.0.shrink_models().len() + t.1.shrink_models().len() + j] == (t.0.model(), t.1.model(), #[trigger] t.2.shrink_models()[j]),
{
    let b0 = t.0.shrink_models().map_values(|m: A::Model| (m, t.1.model(), t.2.model()));
    let b1 = t.1.shrink_models().map_values(|m: B::Model| (t.0.model(), m, t.2.model()));
    let b2 = t.2.shrink_models().map_values(|m: C::Model| (t.0.model(), t.1.model(), m));
    let p1 = b0;
    let p2 = p1 + b1;
    let p3 = p2 + b2;
    assert(t.shrink_models() == p3);
    lemma_concat_positions(p1, b1);
    lemma_concat_positions(p2, b2);
    assert forall|j: int| 0 <= j < t.0.shrink_models().len() implies t.shrink_models()[j] == (#[trigger] t.0.shrink_models()[j], t.1.model(), t.2.model()) by {
        assert(b0[j] == (t.0.shrink_models()[j], t.1.model(), t.2.model()));
        assert(p2[j] == p1[j]);
        assert(p3[j] == p2[j]);
    }
    assert forall|j: int| 0 <= j < t.1.shrink_models().len() implies t.shrink_models()[p1.len() + j] == (t.0.model(), #[trigger] t.1.shrink_models()[j], t.2.model()) by {
        assert(b1[j] == (t.0.model(), t.1.shrink_models()[j], t.2.model()));
        assert(p2[p1.len() + j] == b1[j]);
        assert(p3[p1.len() + j] == p2[p1.len() + j]);
    }
    assert forall|j: int| 0 <= j < t.2.shrink_models().len() implies t.shrink_models()[p2.len() + j] == (t.0.model(), t.1.model(), #[trigger] t.2.shrink_models()[j]) by {
        assert(b2[j] == (t.0.model(), t.1.model(), t.2.shrink_models()[j]));
        assert(p3[p2.len() + j] == b2[j]);
    }
}


/// A tuple of 4 shrinks each component in turn, the others kept: its
/// candidates are, in order, each candidate of the first component with the
/// others kept, then each candidate of the second, and so on, and nothing
/// else.
pub proof fn lemma_tuple4_shrinks_componentwise<A: Arbitrary, B: Arbitrary, C: Arbitrary, D: Arbitrary>(t: &(A, B, C, D))
    ensures
        t.shrink_models().len() == t.0.shrink_models().len() + t.1.shrink_models().len() + t.2.shrink_models().len() + t.3.shrink_models().len(),
        forall|j: int| 0 <= j < t.0.shrink_models().len() ==> t.shrink_models()[j] == (#[trigger] t.0.shrink_models()[j], t.1.model(), t.2.model(), t.3.model()),
        forall|j: int| 0 <= j < t.1.shrink_models().len() ==> t.shrink_models()[t.0.shrink_models().len() + j] == (t.0.model(), #[trigger] t.1.shrink_models()[j], t.2.model(), t.3.model()),
        forall|j: int| 0 <= j < t.2.shrink_models().len() ==> t.shrink_models()[t.0.shrink_models().len() + t.1.shrink_models().len() + j] == (t.0.model(), t.1.model(), #[trigger] t.2.shrink_models()[j], t.3.model()),
        forall|j: int| 0 <= j < t.3.shrink_models().len() ==> t.shrink_models()[t.0.shrink_models().len() + t.1.shrink_models().len() + t.2.shrink_models().len() + j] == (t.0.model(), t.1.model(), t.2.model(), #[trigger] t.3.shrink_models()[j]),
{
    let b0 = t.0.shrink_models().map_values(|m: A::Model| (m, t.1.model(), t.2.model(), t.3.model()));
    let b1 = t.1.shrink_models().map_values(|m: B::Model| (t.0.model(), m, t.2.model(), t.3.model()));
    let b2 = t.2.shrink_models().map_values(|m: C::Model| (t.0.model(), t.1.model(), m, t.3.model()));
    let b3 = t.3.shrink_models().map_values(|m: D::Model| (t.0.model(), t.1.model(), t.2.model(), m));
    let p1 = b0;
    let p2 = p1 + b1;
    let p3 = p2 + b2;
    let p4 = p3 + b3;
    assert(t.shrink_models() == p4);
    lemma_concat_positions(p1, b1);
    lemma_concat_positions(p2, b2);
    lemma_concat_positions(p3, b3);
    assert forall|j: int| 0 <= j < t.0.shrink_models().len() implies t.shrink_models()[j] == (#[trigger] t.0.shrink_models()[j], t.1.model(), t.2.model(), t.3.model()) by {
        assert(b0[j] == (t.0.shrink_models()[j], t.1.model(), t.2.model(), t.3.model()));
        assert(p2[j] == p1[j]);
        assert(p3[j] == p2[j]);
        assert(p4[j] == p3[j]);
    }
    assert forall|j: int| 0 <= j < t.1.shrink_models().len() implies t.shrink_models()[p1.len() + j] == (t.0.model(), #[trigger] t.1.shrink_models()[j], t.2.model(), t.3.model()) by {
        assert(b1[j] == (t.0.model(), t.1.shrink_models()[j], t.2.model(), t.3.model()));
        assert(p2[p1.len() + j] == b1[j]);
        assert(p3[p1.len() + j] == p2[p1.len() + j]);
        assert(p4[p1.len() + j] == p3[p1.len() + j]);
    }
    assert forall|j: int| 0 <= j < t.2.shrink_models().len() implies t.shrink_models()[p2.len() + j] == (t.0.model(), t.1.model(), #[trigger] t.2.shrink_models()[j], t.3.model()) by {
        assert(b2[j] == (t.0.model(), t.1.model(), t.2.shrink_models()[j], t.3.model()));
        assert(p3[p2.len() + j] == b2[j]);
        assert(p4[p2.len() + j] == p3[p2.len() + j]);
    }
    assert forall|j: int| 0 <= j < t.3.shrink_models().len() implies t.shrink_models()[p3.len() + j] == (t.0.model(), t.1.model(), t.2.model(), #[trigger] t.3.shrink_models()[j]) by {
        assert(b3[j] == (t.0.model(), t.1.model(), t.2.model(), t.3.shrink_models()[j]));
        assert(p4[p3.len() + j] == b3[j]);
    }
}


/// A tuple of 5 shrinks each component in turn, the others kept: its
/// candidates are, in order, each candidate of the first component with the
/// others kept, then each candidate of the second, and so on, and nothing
/// else.
pub proof fn lemma_tuple5_shrinks_componentwise<A: Arbitrary, B: Arbitrary, C: Arbitrary, D: Arbitrary, E: Arbitrary>(t: &(A, B, C, D, E))
    ensures
        t.shrink_models().len() == t.0.shrink_models().len() + t.1.shrink_models().len() + t.2.shrink_models().len() + t.3.shrink_models().len() + t.4.shrink_models().len(),
        forall|j: int| 0 <= j < t.0.shrink_models().len() ==> t.shrink_models()[j] == (#[trigger] t.0.shrink_models()[j], t.1.model(), t.2.model(), t.3.model(), t.4.model()),
        forall|j: int| 0 <= j < t.1.shrink_models().len() ==> t.shrink_models()[t.0.shrink_models().len() + j] == (t.0.model(), #[trigger] t.1.shrink_models()[j], t.2.model(), t.3.model(), t.4.model()),
        forall|j: int| 0 <= j < t.2.shrink_models().len() ==> t.shrink_models()[t.0.shrink_models().len() + t.1.shrink_models().len() + j] == (t.0.model(), t.1.model(), #[trigger] t.2.shrink_models()[j], t.3.model(), t.4.model()),
        forall|j: int| 0 <= j < t.3.shrink_models().len() ==> t.shrink_models()[t.0.shrink_models().len() + t.1.shrink_models().len() + t.2.shrink_models().len() + j] == (t.0.model(), t.1.model(), t.2.model(), #[trigger] t.3.shrink_models()[j], t.4.model()),
        forall|j: int| 0 <= j < t.4.shrink_models().len() ==> t.shrink_models()[t.0.shrink_models().len() + t.1.shrink_models().len() + t.2.shrink_models().len() + t.3.shrink_models().len() + j] == (t.0.model(), t.1.model(), t.2.model(), t.3.model(), #[trigger] t.4.shrink_models()[j]),
{
    let b0 = t.0.shrink_models().map_values(|m: A::Model| (m, t.1.model(), t.2.model(), t.3.model(), t.4.model()));
    let b1 = t.1.shrink_models().map_values(|m: B::Model| (t.0.model(), m, t.2.model(), t.3.model(), t.4.model()));
    let b2 = t.2.shrink_models().map_values(|m: C::Model| (t.0.model(), t.1.model(), m, t.3.model(), t.4.model()));
    let b3 = t.3.shrink_models().map_values(|m: D::Model| (t.0.model(), t.1.model(), t.2.model(), m, t.4.model()));
    let b4 = t.4.shrink_models().map_values(|m: E::Model| (t.0.model(), t.1.model(), t.2.model(), t.3.model(), m));
    let p1 = b0;
    let p2 = p1 + b1;
    let p3 = p2 + b2;
    let p4 = p3 + b3;
    let p5 = p4 + b4;
    assert(t.shrink_models() == p5);
    lemma_concat_positions(p1, b1);
    lemma_concat_positions(p2, b2);
    lemma_concat_positions(p3, b3);
    lemma_concat_positions(p4, b4);
    assert forall|j: int| 0 <= j < t.0.shrink_models().len() implies t.shrink_models()[j] == (#[trigger] t.0.shrink_models()[j], t.1.model(), t.2.model(), t.3.model(), t.4.model()) by {
        assert(b0[j] == (t.0.shrink_models()[j], t.1.model(), t.2.model(), t.3.model(), t.4.model()));
        assert(p2[j] == p1[j]);
        assert(p3[j] == p2[j]);
        assert(p4[j] == p3[j]);
        assert(p5[j] == p4[j]);
    }
    assert forall|j: int| 0 <= j < t.1.shrink_models().len() implies t.shrink_models()[p1.len() + j] == (t.0.model(), #[trigger] t.1.shrink_models()[j], t.2.model(), t.3.model(), t.4.model()) by {
        assert(b1[j] == (t.0.model(), t.1.shrink_models()[j], t.2.model(), t.3.model(), t.4.model()));
        assert(p2[p1.len() + j] == b1[j]);
        assert(p3[p1.len() + j] == p2[p1.len() + j]);
        assert(p4[p1.len() + j] == p3[p1.len() + j]);
        assert(p5[p1.len() + j] == p4[p1.len() + j]);
    }
    assert forall|j: int| 0 <= j < t.2.shrink_models().len() implies t.shrink_models()[p2.len() + j] == (t.0.model(), t.1.model(), #[trigger] t.2.shrink_models()[j], t.3.model(), t.4.model()) by {
        assert(b2[j] == (t.0.model(), t.1.model(), t.2.shrink_models()[j], t.3.model(), t.4.model()));
        assert(p3[p2.len() + j] == b2[j]);
        assert(p4[p2.len() + j] == p3[p2.len() + j]);
        assert(p5[p2.len() + j] == p4[p2.len() + j]);
    }
    assert forall|j: int| 0 <= j < t.3.shrink_models().len() implies t.shrink_models()[p3.len() + j] == (t.0.model(), t.1.model(), t.2.model(), #[trigger] t.3.shrink_models()[j], t.4.model()) by {
        assert(b3[j] == (t.0.model(), t.1.model(), t.2.model(), t.3.shrink_models()[j], t.4.model()));
        assert(p4[p3.len() + j] == b3[j]);
        assert(p5[p3.len() + j] == p4[p3.len() + j]);
    }
    assert forall|j: int| 0 <= j < t.4.shrink_models().len() implies t.shrink_models()[p4.len() + j] == (t.0.model(), t.1.model(), t.2.model(), t.3.model(), #[trigger] t.4.shrink_models()[j]) by {
        assert(b4[j] == (t.0.model(), t.1.model(), t.2.model(), t.3.model(), t.4.shrink_models()[j]));
        assert(p5[p4.len() + j] == b4[j]);
    }
}


/// A tuple of 6 shrinks each component in turn, the others kept: its
/// candidates are, in order, each candidate of the first component with the
/// others kept, then each candidate of the second, and so on, and nothing
/// else.
pub proof fn lemma_tuple6_shrinks_componentwise<A: Arbitrary, B: Arbitrary, C: Arbitrary, D: Arbitrary, E: Arbitrary, F: Arbitrary>(t: &(A, B, C, D, E, F))
    ensures
        t.shrink_models().len() == t.0.shrink_models().len() + t.1.shrink_models().len() + t.2.shrink_models().len() + t.3.shrink_models().len() + t.4.shrink_models().len() + t.5.shrink_models().len(),
        forall|j: int| 0 <= j < t.0.shrink_models().len() ==> t.shrink_models()[j] == (#[trigger] t.0.shrink_models()[j], t.1.model(), t.2.model(), t.3.model(), t.4.model(), t.5.model()),
        forall|j: int| 0 <= j < t.1.shrink_models().len() ==> t.shrink_models()[t.0.shrink_models().len() + j] == (t.0.model(), #[trigger] t.1.shrink_models()[j], t.2.model(), t.3.model(), t.4.model(), t.5.model()),
        forall|j: int| 0 <= j < t.2.shrink_models().len() ==> t.shrink_models()[t.0.shrink_models().len() + t.1.shrink_models().len() + j] == (t.0.model(), t.1.model(), #[trigger] t.2.shrink_models()[j], t.3.model(), t.4.model(), t.5.model()),
        forall|j: int| 0 <= j < t.3.shrink_models().len() ==> t.shrink_models()[t.0.shrink_models().len() + t.1.shrink_models().len() + t.2.shrink_models().len() + j] == (t.0.model(), t.1.model(), t.2.model(), #[trigger] t.3.shrink_models()[j], t.4.model(), t.5.model()),
        forall|j: int| 0 <= j < t.4.shrink_models().len() ==> t.shrink_models()[t.0.shrink_models().len() + t.1.shrink_models().len() + t.2.shrink_models().len() + t.3.shrink_models().len() + j] == (t.0.model(), t.1.model(), t.2.model(), t.3.model(), #[trigger] t.4.shrink_models()[j], t.5.model()),
        forall|j: int| 0 <= j < t.5.shrink_models().len() ==> t.shrink_models()[t.0.shrink_models().len() + t.1.shrink_models().len() + t.2.shrink_models().len() + t.3.shrink_models().len() + t.4.shrink_models().len() + j] == (t.0.model(), t.1.model(), t.2.model(), t.3.model(), t.4.model(), #[trigger] t.5.shrink_models()[j]),
{
    let b0 = t.0.shrink_models().map_values(|m: A::Model| (m, t.1.model(), t.2.model(), t.3.model(), t.4.model(), t.5.model()));
    let b1 = t.1.shrink_models().map_values(|m: B::Model| (t.0.model(), m, t.2.model(), t.3.model(), t.4.model(), t.5.model()));
    let b2 = t.2.shrink_models().map_values(|m: C::Model| (t.0.model(), t.1.model(), m, t.3.model(), t.4.model(), t.5.model()));
    let b3 = t.3.shrink_models().map_values(|m: D::Model| (t.0.model(), t.1.model(), t.2.model(), m, t.4.model(), t.5.model()));
    let b4 = t.4.shrink_models().map_values(|m: E::Model| (t.0.model(), t.1.model(), t.2.model(), t.3.model(), m, t.5.model()));
    let b5 = t.5.shrink_models().map_values(|m: F::Model| (t.0.model(), t.1.model(), t.2.model(), t.3.model(), t.4.model(), m));
    let p1 = b0;
    let p2 = p1 + b1;
    let p3 = p2 + b2;
    let p4 = p3 + b3;
    let p5 = p4 + b4;
    let p6 = p5 + b5;
    assert(t.shrink_models() == p6);
    lemma_concat_positions(p1, b1);
    lemma_concat_positions(p2, b2);
    lemma_concat_positions(p3, b3);
    lemma_concat_positions(p4, b4);
    lemma_concat_positions(p5, b5);
    assert forall|j: int| 0 <= j < t.0.shrink_models().len() implies t.shrink_models()[j] == (#[trigger] t.0.shrink_models()[j], t.1.model(), t.2.model(), t.3.model(), t.4.model(), t.5.model()) by {
        assert(b0[j] == (t.0.shrink_models()[j], t.1.model(), t.2.model(), t.3.model(), t.4.model(), t.5.model()));
        assert(p2[j] == p1[j]);
        assert(p3[j] == p2[j]);
        assert(p4[j] == p3[j]);
        assert(p5[j] == p4[j]);
        assert(p6[j] == p5[j]);
    }
    assert forall|j: int| 0 <= j < t.1.shrink_models().len() implies t.shrink_models()[p1.len() + j] == (t.0.model(), #[trigger] t.1.shrink_models()[j], t.2.model(), t.3.model(), t.4.model(), t.5.model()) by {
        assert(b1[j] == (t.0.model(), t.1.shrink_models()[j], t.2.model(), t.3.model(), t.4.model(), t.5.model()));
        assert(p2[p1.len() + j] == b1[j]);
        assert(p3[p1.len() + j] == p2[p1.len() + j]);
        assert(p4[p1.len() + j] == p3[p1.len() + j]);
        assert(p5[p1.len() + j] == p4[p1.len() + j]);
        assert(p6[p1.len() + j] == p5[p1.len() + j]);
    }
    assert forall|j: int| 0 <= j < t.2.shrink_models().len() implies t.shrink_models()[p2.len() + j] == (t.0.model(), t.1.model(), #[trigger] t.2.shrink_models()[j], t.3.model(), t.4.model(), t.5.model()) by {
        assert(b2[j] == (t.0.model(), t.1.model(), t.2.shrink_models()[j], t.3.model(), t.4.model(), t.5.model()));
        assert(p3[p2.len() + j] == b2[j]);
        assert(p4[p2.len() + j] == p3[p2.len() + j]);
        assert(p5[p2.len() + j] == p4[p2.len() + j]);
        assert(p6[p2.len() + j] == p5[p2.len() + j]);
    }
    assert forall|j: int| 0 <= j < t.3.shrink_models().len() implies t.shrink_models()[p3.len() + j] == (t.0.model(), t.1.model(), t.2.model(), #[trigger] t.3.shrink_models()[j], t.4.model(), t.5.model()) by {
        assert(b3[j] == (t.0.model(), t.1.model(), t.2.model(), t.3.shrink_models()[j], t.4.model(), t.5.model()));
        assert(p4[p3.len() + j] == b3[j]);
        assert(p5[p3.len() + j] == p4[p3.len() + j]);
        assert(p6[p3.len() + j] == p5[p3.len() + j]);
    }
    assert forall|j: int| 0 <= j < t.4.shrink_models().len() implies t.shrink_models()[p4.len() + j] == (t.0.model(), t.1.model(), t.2.model(), t.3.model(), #[trigger] t.4.shrink_models()[j], t.5.model()) by {
        assert(b4[j] == (t.0.model(), t.1.model(), t.2.model(), t.3.model(), t.4.shrink_models()[j], t.5.model()));
        assert(p5[p4.len() + j] == b4[j]);
        assert(p6[p4.len() + j] == p5[p4.len() + j]);
    }
    assert forall|j: int| 0 <= j < t.5.shrink_models().len() implies t.shrink_models()[p5.len() + j] == (t.0.model(), t.1.model(), t.2.model(), t.3.model(), t.4.model(), #[trigger] t.5.shrink_models()[j]) by {
        assert(b5[j] == (t.0.model(), t.1.model(), t.2.model(), t.3.model(), t.4.model(), t.5.shrink_models()[j]));
        assert(p6[p5.len() + j] == b5[j]);
    }
}


/// A tuple of 7 shrinks each component in turn, the others kept: its
/// candidates are, in order, each candidate of the first component with the
/// others kept, then each candidate of the second, and so on, and nothing
/// else.
pub proof fn lemma_tuple7_shrinks_componentwise<A: Arbitrary, B: Arbitrary, C: Arbitrary, D: Arbitrary, E: Arbitrary, F: Arbitrary, G: Arbitrary>(t: &(A, B, C, D, E, F, G))
    ensures
        t.shrink_models().len() == t.0.shrink_models().len() + t.1.shrink_models().len() + t.2.shrink_models().len() + t.3.shrink_models().len() + t.4.shrink_models().len() + t.5.shrink_models().len() + t.6.shrink_models().len(),
        forall|j: int| 0 <= j < t.0.shrink_models().len() ==> t.shrink_models()[j] == (#[trigger] t.0.shrink_models()[j], t.1.model(), t.2.model(), t.3.model(), t.4.model(), t.5.model(), t.6.model()),
        forall|j: int| 0 <= j < t.1.shrink_models().len() ==> t.shrink_models()[t.0.shrink_models().len() + j] == (t.0.model(), #[trigger] t.1.shrink_models()[j], t.2.model(), t.3.model(), t.4.model(), t.5.model(), t.6.model()),
        forall|j: int| 0 <= j < t.2.shrink_models().len() ==> t.shrink_models()[t.0.shrink_models().len() + t.1.shrink_models().len() + j] == (t.0.model(), t.1.model(), #[trigger] t.2.shrink_models()[j], t.3.model(), t.4.model(), t.5.model(), t.6.model()),
        forall|j: int| 0 <= j < t.3.shrink_models().len() ==> t.shrink_models()[t.0.shrink_models().len() + t.1.shrink_models().len() + t.2.shrink_models().len() + j] == (t.0.model(), t.1.model(), t.2.model(), #[trigger] t.3.shrink_models()[j], t.4.model(), t.5.model(), t.6.model()),
        forall|j: int| 0 <= j < t.4.shrink_models().len() ==> t.shrink_models()[t.0.shrink_models().len() + t.1.shrink_models().len() + t.2.shrink_models().len() + t.3.shrink_models().len() + j] == (t.0.model(), t.1.model(), t.2.model(), t.3.model(), #[trigger] t.4.shrink_models()[j], t.5.model(), t.6.model()),
        forall|j: int| 0 <= j < t.5.shrink_models().len() ==> t.shrink_models()[t.0.shrink_models().len() + t.1.shrink_models().len() + t.2.shrink_models().len() + t.3.shrink_models().len() + t.4.shrink_models().len() + j] == (t.0.model(), t.1.model(), t.2.model(), t.3.model(), t.4.model(), #[trigger] t.5.shrink_models()[j], t.6.model()),
        forall|j: int| 0 <= j < t.6.shrink_models().len() ==> t.shrink_models()[t.0.shrink_models().len() + t.1.shrink_models().len() + t.2.shrink_models().len() + t.3.shrink_models().len() + t.4.shrink_models().len() + t.5.shrink_models().len() + j] == (t.0.model(), t.1.model(), t.2.model(), t.3.model(), t.4.model(), t.5.model(), #[trigger] t.6.shrink_models()[j]),
{
    let b0 = t.0.shrink_models().map_values(|m: A::Model| (m, t.1.model(), t.2.model(), t.3.model(), t.4.model(), t.5.model(), t.6.model()));
    let b1 = t.1.shrink_models().map_values(|m: B::Model| (t.0.model(), m, t.2.model(), t.3.model(), t.4.model(), t.5.model(), t.6.model()));
    let b2 = t.2.shrink_models().map_values(|m: C::Model| (t.0.model(), t.1.model(), m, t.3.model(), t.4.model(), t.5.model(), t.6.model()));
    let b3 = t.3.shrink_models().map_values(|m: D::Model| (t.0.model(), t.1.model(), t.2.model(), m, t.4.model(), t.5.model(), t.6.model()));
    let b4 = t.4.shrink_models().map_values(|m: E::Model| (t.0.model(), t.1.model(), t.2.model(), t.3.model(), m, t.5.model(), t.6.model()));
    let b5 = t.5.shrink_models().map_values(|m: F::Model| (t.0.model(), t.1.model(), t.2.model(), t.3.model(), t.4.model(), m, t.6.model()));
    let b6 = t.6.shrink_models().map_values(|m: G::Model| (t.0.model(), t.1.model(), t.2.model(), t.3.model(), t.4.model(), t.5.model(), m));
    let p1 = b0;
    let p2 = p1 + b1;
    let p3 = p2 + b2;
    let p4 = p3 + b3;
    let p5 = p4 + b4;
    let p6 = p5 + b5;
    let p7 = p6 + b6;
    assert(t.shrink_models() == p7);
    lemma_concat_positions(p1, b1);
    lemma_concat_positions(p2, b2);
    lemma_concat_positions(p3, b3);
    lemma_concat_positions(p4, b4);
    lemma_concat_positions(p5, b5);
    lemma_concat_positions(p6, b6);
    assert forall|j: int| 0 <= j < t.0.shrink_models().len() implies t.shrink_models()[j] == (#[trigger] t.0.shrink_models()[j], t.1.model(), t.2.model(), t.3.model(), t.4.model(), t.5.model(), t.6.model()) by {
        assert(b0[j] == (t.0.shrink_models()[j], t.1.model(), t.2.model(), t.3.model(), t.4.model(), t.5.model(), t.6.model()));
        assert(p2[j] == p1[j]);
        assert(p3[j] == p2[j]);
        assert(p4[j] == p3[j]);
        assert(p5[j] == p4[j]);
        assert(p6[j] == p5[j]);
        assert(p7[j] == p6[j]);
    }
    assert forall|j: int| 0 <= j < t.1.shrink_models().len() implies t.shrink_models()[p1.len() + j] == (t.0.model(), #[trigger] t.1.shrink_models()[j], t.2.model(), t.3.model(), t.4.model(), t.5.model(), t.6.model()) by {
        assert(b1[j] == (t.0.model(), t.1.shrink_models()[j], t.2.model(), t.3.model(), t.4.model(), t.5.model(), t.6.model()));
        assert(p2[p1.len() + j] == b1[j]);
        assert(p3[p1.len() + j] == p2[p1.len() + j]);
        assert(p4[p1.len() + j] == p3[p1.len() + j]);
        assert(p5[p1.len() + j] == p4[p1.len() + j]);
        assert(p6[p1.len() + j] == p5[p1.len() + j]);
        assert(p7[p1.len() + j] == p6[p1.len() + j]);
    }
    assert forall|j: int| 0 <= j < t.2.shrink_models().len() implies t.shrink_models()[p2.len() + j] == (t.0.model(), t.1.model(), #[trigger] t.2.shrink_models()[j], t.3.model(), t.4.model(), t.5.model(), t.6.model()) by {
        assert(b2[j] == (t.0.model(), t.1.model(), t.2.shrink_models()[j], t.3.model(), t.4.model(), t.5.model(), t.6.model()));
        assert(p3[p2.len() + j] == b2[j]);
        assert(p4[p2.len() + j] == p3[p2.len() + j]);
        assert(p5[p2.len() + j] == p4[p2.len() + j]);
        assert(p6[p2.len() + j] == p5[p2.len() + j]);
        assert(p7[p2.len() + j] == p6[p2.len() + j]);
    }
    assert forall|j: int| 0 <= j < t.3.shrink_models().len() implies t.shrink_models()[p3.len() + j] == (t.0.model(), t.1.model(), t.2.model(), #[trigger] t.3.shrink_models()[j], t.4.model(), t.5.model(), t.6.model()) by {
        assert(b3[j] == (t.0.model(), t.1.model(), t.2.model(), t.3.shrink_models()[j], t.4.model(), t.5.model(), t.6.model()));
        assert(p4[p3.len() + j] == b3[j]);
        assert(p5[p3.len() + j] == p4[p3.len() + j]);
        assert(p6[p3.len() + j] == p5[p3.len() + j]);
        assert(p7[p3.len() + j] == p6[p3.len() + j]);
    }
    assert forall|j: int| 0 <= j < t.4.shrink_models().len() implies t.shrink_models()[p4.len() + j] == (t.0.model(), t.1.model(), t.2.model(), t.3.model(), #[trigger] t.4.shrink_models()[j], t.5.model(), t.6.model()) by {
        assert(b4[j] == (t.0.model(), t.1.model(), t.2.model(), t.3.model(), t.4.shrink_models()[j], t.5.model(), t.6.model()));
        assert(p5[p4.len() + j] == b4[j]);
        assert(p6[p4.len() + j] == p5[p4.len() + j]);
        assert(p7[p4.len() + j] == p6[p4.len() + j]);
    }
    assert forall|j: int| 0 <= j < t.5.shrink_models().len() implies t.shrink_models()[p5.len() + j] == (t.0.model(), t.1.model(), t.2.model(), t.3.model(), t.4.model(), #[trigger] t.5.shrink_models()[j], t.6.model()) by {
        assert(b5[j] == (t.0.model(), t.1.model(), t.2.model(), t.3.model(), t.4.model(), t.5.shrink_models()[j], t.6.model()));
        assert(p6[p5.len() + j] == b5[j]);
        assert(p7[p5.len() + j] == p6[p5.len() + j]);
    }
    assert forall|j: int| 0 <= j < t.6.shrink_models().len() implies t.shrink_models()[p6.len() + j] == (t.0.model(), t.1.model(), t.2.model(), t.3.model(), t.4.model(), t.5.model(), #[trigger] t.6.shrink_models()[j]) by {
        assert(b6[j] == (t.0.model(), t.1.model(), t.2.model(), t.3.model(), t.4.model(), t.5.model(), t.6.shrink_models()[j]));
        assert(p7[p6.len() + j] == b6[j]);
    }
}


/// A tuple of 8 shrinks each component in turn, the others kept: its
/// candidates are, in order, each candidate of the first component with the
/// others kept, then each candidate of the second, and so on, and nothing
/// else.
pub proof fn lemma_tuple8_shrinks_componentwise<A: Arbitrary, B: Arbitrary, C: Arbitrary, D: Arbitrary, E: Arbitrary, F: Arbitrary, G: Arbitrary, H: Arbitrary>(t: &(A, B, C, D, E, F, G, H))
    ensures
        t.shrink_models().len() == t.0.shrink_models().len() + t.1.shrink_models().len() + t.2.shrink_models().len() + t.3.shrink_models().len() + t.4.shrink_models().len() + t.5.shrink_models().len() + t.6.shrink_models().len() + t.7.shrink_models().len(),
        forall|j: int| 0 <= j < t.0.shrink_models().len() ==> t.shrink_models()[j] == (#[trigger] t.0.shrink_models()[j], t.1.model(), t.2.model(), t.3.model(), t.4.model(), t.5.model(), t.6.model(), t.7.model()),
        forall|j: int| 0 <= j < t.1.shrink_models().len() ==> t.shrink_models()[t.0.shrink_models().len() + j] == (t.0.model(), #[trigger] t.1.shrink_models()[j], t.2.model(), t.3.model(), t.4.model(), t.5.model(), t.6.model(), t.7.model()),
        forall|j: int| 0 <= j < t.2.shrink_models().len() ==> t.shrink_models()[t.0.shrink_models().len() + t.1.shrink_models().len() + j] == (t.0.model(), t.1.model(), #[trigger] t.2.shrink_models()[j], t.3.model(), t.4.model(), t.5.model(), t.6.model(), t.7.model()),
        forall|j: int| 0 <= j < t.3.shrink_models().len() ==> t.shrink_models()[t.0.shrink_models().len() + t.1.shrink_models().len() + t.2.shrink_models().len() + j] == (t.0.model(), t.1.model(), t.2.model(), #[trigger] t.3.shrink_models()[j], t.4.model(), t.5.model(), t.6.model(), t.7.model()),
        forall|j: int| 0 <= j < t.4.shrink_models().len() ==> t.shrink_models()[t.0.shrink_models().len() + t.1.shrink_models().len() + t.2.shrink_models().len() + t.3.shrink_models().len() + j] == (t.0.model(), t.1.model(), t.2.model(), t.3.model(), #[trigger] t.4.shrink_models()[j], t.5.model(), t.6.model(), t.7.model()),
        forall|j: int| 0 <= j < t.5.shrink_models().len() ==> t.shrink_models()[t.0.shrink_models().len() + t.1.shrink_models().len() + t.2.shrink_models().len() + t.3.shrink_models().len() + t.4.shrink_models().len() + j] == (t.0.model(), t.1.model(), t.2.model(), t.3.model(), t.4.model(), #[trigger] t.5.shrink_models()[j], t.6.model(), t.7.model()),
        forall|j: int| 0 <= j < t.6.shrink_models().len() ==> t.shrink_models()[t.0.shrink_models().len() + t.1.shrink_models().len() + t.2.shrink_models().len() + t.3.shrink_models().len() + t.4.shrink_models().len() + t.5.shrink_models().len() + j] == (t.0.model(), t.1.model(), t.2.model(), t.3.model(), t.4.model(), t.5.model(), #[trigger] t.6.shrink_models()[j], t.7.model()),
        forall|j: int| 0 <= j < t.7.shrink_models().len() ==> t.shrink_models()[t.0.shrink_models().len() + t.1.shrink_models().len() + t.2.shrink_models().len() + t.3.shrink_models().len() + t.4.shrink_models().len() + t.5.shrink_models().len() + t.6.shrink_models().len() + j] == (t.0.model(), t.1.model(), t.2.model(), t.3.model(), t.4.model(), t.5.model(), t.6.model(), #[trigger] t.7.shrink_models()[j]),
{
    let b0 = t.0.shrink_models().map_values(|m: A::Model| (m, t.1.model(), t.2.model(), t.3.model(), t.4.model(), t.5.model(), t.6.model(), t.7.model()));
    let b1 = t.1.shrink_models().map_values(|m: B::Model| (t.0.model(), m, t.2.model(), t.3.model(), t.4.model(), t.5.model(), t.6.model(), t.7.model()));
    let b2 = t.2.shrink_models().map_values(|m: C::Model| (t.0.model(), t.1.model(), m, t.3.model(), t.4.model(), t.5.model(), t.6.model(), t.7.model()));
    let b3 = t.3.shrink_models().map_values(|m: D::Model| (t.0.model(), t.1.model(), t.2.model(), m, t.4.model(), t.5.model(), t.6.model(), t.7.model()));
    let b4 = t.4.shrink_models().map_values(|m: E::Model| (t.0.model(), t.1.model(), t.2.model(), t.3.model(), m, t.5.model(), t.6.model(), t.7.model()));
    let b5 = t.5.shrink_models().map_values(|m: F::Model| (t.0.model(), t.1.model(), t.2.model(), t.3.model(), t.4.model(), m, t.6.model(), t.7.model()));
    let b6 = t.6.shrink_models().map_values(|m: G::Model| (t.0.model(), t.1.model(), t.2.model(), t.3.model(), t.4.model(), t.5.model(), m, t.7.model()));
    let b7 = t.7.shrink_models().map_values(|m: H::Model| (t.0.model(), t.1.model(), t.2.model(), t.3.model(), t.4.model(), t.5.model(), t.6.model(), m));
    let p1 = b0;
    let p2 = p1 + b1;
    let p3 = p2 + b2;
    let p4 = p3 + b3;
    let p5 = p4 + b4;
    let p6 = p5 + b5;
    let p7 = p6 + b6;
    let p8 = p7 + b7;
    assert(t.shrink_models() == p8);
    lemma_concat_positions(p1, b1);
    lemma_concat_positions(p2, b2);
    lemma_concat_positions(p3, b3);
    lemma_concat_positions(p4, b4);
    lemma_concat_positions(p5, b5);
    lemma_concat_positions(p6, b6);
    lemma_concat_positions(p7, b7);
    assert forall|j: int| 0 <= j < t.0.shrink_models().len() implies t.shrink_models()[j] == (#[trigger] t.0.shrink_models()[j], t.1.model(), t.2.model(), t.3.model(), t.4.model(), t.5.model(), t.6.model(), t.7.model()) by {
        assert(b0[j] == (t.0.shrink_models()[j], t.1.model(), t.2.model(), t.3.model(), t.4.model(), t.5.model(), t.6.model(), t.7.model()));
        assert(p2[j] == p1[j]);
        assert(p3[j] == p2[j]);
        assert(p4[j] == p3[j]);
        assert(p5[j] == p4[j]);
        assert(p6[j] == p5[j]);
        assert(p7[j] == p6[j]);
        assert(p8[j] == p7[j]);
    }
    assert forall|j: int| 0 <= j < t.1.shrink_models().len() implies t.shrink_models()[p1.len() + j] == (t.0.model(), #[trigger] t.1.shrink_models()[j], t.2.model(), t.3.model(), t.4.model(), t.5.model(), t.6.model(), t.7.model()) by {
        assert(b1[j] == (t.0.model(), t.1.shrink_models()[j], t.2.model(), t.3.model(), t.4.model(), t.5.model(), t.6.model(), t.7.model()));
        assert(p2[p1.len() + j] == b1[j]);
        assert(p3[p1.len() + j] == p2[p1.len() + j]);
        assert(p4[p1.len() + j] == p3[p1.len() + j]);
        assert(p5[p1.len() + j] == p4[p1.len() + j]);
        assert(p6[p1.len() + j] == p5[p1.len() + j]);
        assert(p7[p1.len() + j] == p6[p1.len() + j]);
        assert(p8[p1.len() + j] == p7[p1.len() + j]);
    }
    assert forall|j: int| 0 <= j < t.2.shrink_models().len() implies t.shrink_models()[p2.len() + j] == (t.0.model(), t.1.model(), #[trigger] t.2.shrink_models()[j], t.3.model(), t.4.model(), t.5.model(), t.6.model(), t.7.model()) by {
        assert(b2[j] == (t.0.model(), t.1.model(), t.2.shrink_models()[j], t.3.model(), t.4.model(), t.5.model(), t.6.model(), t.7.model()));
        assert(p3[p2.len() + j] == b2[j]);
        assert(p4[p2.len() + j] == p3[p2.len() + j]);
        assert(p5[p2.len() + j] == p4[p2.len() + j]);
        assert(p6[p2.len() + j] == p5[p2.len() + j]);
        assert(p7[p2.len() + j] == p6[p2.len() + j]);
        assert(p8[p2.len() + j] == p7[p2.len() + j]);
    }
    assert forall|j: int| 0 <= j < t.3.shrink_models().len() implies t.shrink_models()[p3.len() + j] == (t.0.model(), t.1.model(), t.2.model(), #[trigger] t.3.shrink_models()[j], t.4.model(), t.5.model(), t.6.model(), t.7.model()) by {
        assert(b3[j] == (t.0.model(), t.1.model(), t.2.model(), t.3.shrink_models()[j], t.4.model(), t.5.model(), t.6.model(), t.7.model()));
        assert(p4[p3.len() + j] == b3[j]);
        assert(p5[p3.len() + j] == p4[p3.len() + j]);
        assert(p6[p3.len() + j] == p5[p3.len() + j]);
        assert(p7[p3.len() + j] == p6[p3.len() + j]);
        assert(p8[p3.len() + j] == p7[p3.len() + j]);
    }
    assert forall|j: int| 0 <= j < t.4.shrink_models().len() implies t.shrink_models()[p4.len() + j] == (t.0.model(), t.1.model(), t.2.model(), t.3.model(), #[trigger] t.4.shrink_models()[j], t.5.model(), t.6.model(), t.7.model()) by {
        assert(b4[j] == (t.0.model(), t.1.model(), t.2.model(), t.3.model(), t.4.shrink_models()[j], t.5.model(), t.6.model(), t.7.model()));
        assert(p5[p4.len() + j] == b4[j]);
        assert(p6[p4.len() + j] == p5[p4.len() + j]);
        assert(p7[p4.len() + j] == p6[p4.len() + j]);
        assert(p8[p4.len() + j] == p7[p4.len() + j]);
    }
    assert forall|j: int| 0 <= j < t.5.shrink_models().len() implies t.shrink_models()[p5.len() + j] == (t.0.model(), t.1.model(), t.2.model(), t.3.model(), t.4.model(), #[trigger] t.5.shrink_models()[j], t.6.model(), t.7.model()) by {
        assert(b5[j] == (t.0.model(), t.1.model(), t.2.model(), t.3.model(), t.4.model(), t.5.shrink_models()[j], t.6.model(), t.7.model()));
        assert(p6[p5.len() + j] == b5[j]);
        assert(p7[p5.len() + j] == p6[p5.len() + j]);
        assert(p8[p5.len() + j] == p7[p5.len() + j]);
    }
    assert forall|j: int| 0 <= j < t.6.shrink_models().len() implies t.shrink_models()[p6.len() + j] == (t.0.model(), t.1.model(), t.2.model(), t.3.model(), t.4.model(), t.5.model(), #[trigger] t.6.shrink_models()[j], t.7.model()) by {
        assert(b6[j] == (t.0.model(), t.1.model(), t.2.model(), t.3.model(), t.4.model(), t.5.model(), t.6.shrink_models()[j], t.7.model()));
        assert(p7[p6.len() + j] == b6[j]);
        assert(p8[p6.len() + j] == p7[p6.len() + j]);
    }
    assert forall|j: int| 0 <= j < t.7.shrink_models().len() implies t.shrink_models()[p7.len() + j] == (t.0.model(), t.1.model(), t.2.model(), t.3.model(), t.4.model(), t.5.model(), t.6.model(), #[trigger] t.7.shrink_models()[j]) by {
        assert(b7[j] == (t.0.model(), t.1.model(), t.2.model(), t.3.model(), t.4.model(), t.5.model(), t.6.model(), t.7.shrink_models()[j]));
        assert(p8[p7.len() + j] == b7[j]);
    }
}


/// A tuple of 9 shrinks each component in turn, the others kept: its
/// candidates are, in order, each candidate of the first component with the
/// others kept, then each candidate of the second, and so on, and nothing
/// else.
#[verifier::rlimit(60)]
pub proof fn lemma_tuple9_shrinks_componentwise<A: Arbitrary, B: Arbitrary, C: Arbitrary, D: Arbitrary, E: Arbitrary, F: Arbitrary, G: Arbitrary, H: Arbitrary, I: Arbitrary>(t: &(A, B, C, D, E, F, G, H, I))
    ensures
        t.shrink_models().len() == t.0.shrink_models().len() + t.1.shrink_models().len() + t.2.shrink_models().len() + t.3.shrink_models().len() + t.4.shrink_models().len() + t.5.shrink_models().len() + t.6.shrink_models().len() + t.7.shrink_models().len() + t.8.shrink_models().len(),
        forall|j: int| 0 <= j < t.0.shrink_models().len() ==> t.shrink_models()[j] == (#[trigger] t.0.shrink_models()[j], t.1.model(), t.2.model(), t.3.model(), t.4.model(), t.5.model(), t.6.model(), t.7.model(), t.8.model()),
        forall|j: int| 0 <= j < t.1.shrink_models().len() ==> t.shrink_models()[t.0.shrink_models().len() + j] == (t.0.model(), #[trigger] t.1.shrink_models()[j], t.2.model(), t.3.model(), t.4.model(), t.5.model(), t.6.model(), t.7.model(), t.8.model()),
        forall|j: int| 0 <= j < t.2.shrink_models().len() ==> t.shrink_models()[t.0.shrink_models().len() + t.1.shrink_models().len() + j] == (t.0.model(), t.1.model(), #[trigger] t.2.shrink_models()[j], t.3.model(), t.4.model(), t.5.model(), t.6.model(), t.7.model(), t.8.model()),
        forall|j: int| 0 <= j < t.3.shrink_models().len() ==> t.shrink_models()[t.0.shrink_models().len() + t.1.shrink_models().len() + t.2.shrink_models().len() + j] == (t.0.model(), t.1.model(), t.2.model(), #[trigger] t.3.shrink_models()[j], t.4.model(), t.5.model(), t.6.model(), t.7.model(), t.8.model()),
        forall|j: int| 0 <= j < t.4.shrink_models().len() ==> t.shrink_models()[t.0.shrink_models().len() + t.1.shrink_models().len() + t.2.shrink_models().len() + t.3.shrink_models().len() + j] == (t.0.model(), t.1.model(), t.2.model(), t.3.model(), #[trigger] t.4.shrink_models()[j], t.5.model(), t.6.model(), t.7.model(), t.8.model()),
        forall|j: int| 0 <= j < t.5.shrink_models().len() ==> t.shrink_models()[t.0.shrink_models().len() + t.1.shrink_models().len() + t.2.shrink_models().len() + t.3.shrink_models().len() + t.4.shrink_models().len() + j] == (t.0.model(), t.1.model(), t.2.model(), t.3.model(), t.4.model(), #[trigger] t.5.shrink_models()[j], t.6.model(), t.7.model(), t.8.model()),
        forall|j: int| 0 <= j < t.6.shrink_models().len() ==> t.shrink_models()[t.0.shrink_models().len() + t.1.shrink_models().len() + t.2.shrink_models().len() + t.3.shrink_models().len() + t.4.shrink_models().len() + t.5.shrink_models().len() + j] == (t.0.model(), t.1.model(), t.2.model(), t.3.model(), t.4.model(), t.5.model(), #[trigger] t.6.shrink_models()[j], t.7.model(), t.8.model()),
        forall|j: int| 0 <= j < t.7.shrink_models().len() ==> t.shrink_models()[t.0.shrink_models().len() + t.1.shrink_models().len() + t.2.shrink_models().len() + t.3.shrink_models().len() + t.4.shrink_models().len() + t.5.shrink_models().len() + t.6.shrink_models().len() + j] == (t.0.model(), t.1.model(), t.2.model(), t.3.model(), t.4.model(), t.5.model(), t.6.model(), #[trigger] t.7.shrink_models()[j], t.8.model()),
        forall|j: int| 0 <= j < t.8.shrink_models().len() ==> t.shrink_models()[t.0.shrink_models().len() + t.1.shrink_models().len() + t.2.shrink_models().len() + t.3.shrink_models().len() + t.4.shrink_models().len() + t.5.shrink_models().len() + t.6.shrink_models().len() + t.7.shrink_models().len() + j] == (t.0.model(), t.1.model(), t.2.model(), t.3.model(), t.4.model(), t.5.model(), t.6.model(), t.7.model(), #[trigger] t.8.shrink_models()[j]),
{
    let b0 = t.0.shrink_models().map_values(|m: A::Model| (m, t.1.model(), t.2.model(), t.3.model(), t.4.model(), t.5.model(), t.6.model(), t.7.model(), t.8.model()));
    let b1 = t.1.shrink_models().map_values(|m: B::Model| (t.0.model(), m, t.2.model(), t.3.model(), t.4.model(), t.5.model(), t.6.model(), t.7.model(), t.8.model()));
    let b2 = t.2.shrink_models().map_values(|m: C::Model| (t.0.model(), t.1.model(), m, t.3.model(), t.4.model(), t.5.model(), t.6.model(), t.7.model(), t.8.model()));
    let b3 = t.3.shrink_models().map_values(|m: D::Model| (t.0.model(), t.1.model(), t.2.model(), m, t.4.model(), t.5.model(), t.6.model(), t.7.model(), t.8.model()));
    let b4 = t.4.shrink_models().map_values(|m: E::Model| (t.0.model(), t.1.model(), t.2.model(), t.3.model(), m, t.5.model(), t.6.model(), t.7.model(), t.8.model()));
    let b5 = t.5.shrink_models().map_values(|m: F::Model| (t.0.model(), t.1.model(), t.2.model(), t.3.model(), t.4.model(), m, t.6.model(), t.7.model(), t.8.model()));
    let b6 = t.6.shrink_models().map_values(|m: G::Model| (t.0.model(), t.1.model(), t.2.model(), t.3.model(), t.4.model(), t.5.model(), m, t.7.model(), t.8.model()));
    let b7 = t.7.shrink_models().map_values(|m: H::Model| (t.0.model(), t.1.model(), t.2.model(), t.3.model(), t.4.model(), t.5.model(), t.6.model(), m, t.8.model()));
    let b8 = t.8.shrink_models().map_values(|m: I::Model| (t.0.model(), t.1.model(), t.2.model(), t.3.model(), t.4.model(), t.5.model(), t.6.model(), t.7.model(), m));
    let p1 = b0;
    let p2 = p1 + b1;
    let p3 = p2 + b2;
    let p4 = p3 + b3;
    let p5 = p4 + b4;
    let p6 = p5 + b5;
    let p7 = p6 + b6;
    let p8 = p7 + b7;
    let p9 = p8 + b8;
    assert(t.shrink_models() == p9);
    lemma_concat_positions(p1, b1);
    lemma_concat_positions(p2, b2);
    lemma_concat_positions(p3, b3);
    lemma_concat_positions(p4, b4);
    lemma_concat_positions(p5, b5);
    lemma_concat_positions(p6, b6);
    lemma_concat_positions(p7, b7);
    lemma_concat_positions(p8, b8);
    assert forall|j: int| 0 <= j < t.0.shrink_models().len() implies t.shrink_models()[j] == (#[trigger] t.0.shrink_models()[j], t.1.model(), t.2.model(), t.3.model(), t.4.model(), t.5.model(), t.6.model(), t.7.model(), t.8.model()) by {
        assert(b0[j] == (t.0.shrink_models()[j], t.1.model(), t.2.model(), t.3.model(), t.4.model(), t.5.model(), t.6.model(), t.7.model(), t.8.model()));
        assert(p2[j] == p1[j]);
        assert(p3[j] == p2[j]);
        assert(p4[j] == p3[j]);
        assert(p5[j] == p4[j]);
        assert(p6[j] == p5[j]);
        assert(p7[j] == p6[j]);
        assert(p8[j] == p7[j]);
        assert(p9[j] == p8[j]);
    }
    assert forall|j: int| 0 <= j < t.1.shrink_models().len() implies t.shrink_models()[p1.len() + j] == (t.0.model(), #[trigger] t.1.shrink_models()[j], t.2.model(), t.3.model(), t.4.model(), t.5.model(), t.6.model(), t.7.model(), t.8.model()) by {
        assert(b1[j] == (t.0.model(), t.1.shrink_models()[j], t.2.model(), t.3.model(), t.4.model(), t.5.model(), t.6.model(), t.7.model(), t.8.model()));
        assert(p2[p1.len() + j] == b1[j]);
        assert(p3[p1.len() + j] == p2[p1.len() + j]);
        assert(p4[p1.len() + j] == p3[p1.len() + j]);
        assert(p5[p1.len() + j] == p4[p1.len() + j]);
        assert(p6[p1.len() + j] == p5[p1.len() + j]);
        assert(p7[p1.len() + j] == p6[p1.len() + j]);
        assert(p8[p1.len() + j] == p7[p1.len() + j]);
        assert(p9[p1.len() + j] == p8[p1.len() + j]);
    }
    assert forall|j: int| 0 <= j < t.2.shrink_models().len() implies t.shrink_models()[p2.len() + j] == (t.0.model(), t.1.model(), #[trigger] t.2.shrink_models()[j], t.3.model(), t.4.model(), t.5.model(), t.6.model(), t.7.model(), t.8.model()) by {
        assert(b2[j] == (t.0.model(), t.1.model(), t.2.shrink_models()[j], t.3.model(), t.4.model(), t.5.model(), t.6.model(), t.7.model(), t.8.model()));
        assert(p3[p2.len() + j] == b2[j]);
        assert(p4[p2.len() + j] == p3[p2.len() + j]);
        assert(p5[p2.len() + j] == p4[p2.len() + j]);
        assert(p6[p2.len() + j] == p5[p2.len() + j]);
        assert(p7[p2.len() + j] == p6[p2.len() + j]);
        assert(p8[p2.len() + j] == p7[p2.len() + j]);
        assert(p9[p2.len() + j] == p8[p2.len() + j]);
    }
    assert forall|j: int| 0 <= j < t.3.shrink_models().len() implies t.shrink_models()[p3.len() + j] == (t.0.model(), t.1.model(), t.2.model(), #[trigger] t.3.shrink_models()[j], t.4.model(), t.5.model(), t.6.model(), t.7.model(), t.8.model()) by {
        assert(b3[j] == (t.0.model(), t.1.model(), t.2.model(), t.3.shrink_models()[j], t.4.model(), t.5.model(), t.6.model(), t.7.model(), t.8.model()));
        assert(p4[p3.len() + j] == b3[j]);
        assert(p5[p3.len() + j] == p4[p3.len() + j]);
        assert(p6[p3.len() + j] == p5[p3.len() + j]);
        assert(p7[p3.len() + j] == p6[p3.len() + j]);
        assert(p8[p3.len() + j] == p7[p3.len() + j]);
        assert(p9[p3.len() + j] == p8[p3.len() + j]);
    }
    assert forall|j: int| 0 <= j < t.4.shrink_models().len() implies t.shrink_models()[p4.len() + j] == (t.0.model(), t.1.model(), t.2.model(), t.3.model(), #[trigger] t.4.shrink_models()[j], t.5.model(), t.6.model(), t.7.model(), t.8.model()) by {
        assert(b4[j] == (t.0.model(), t.1.model(), t.2.model(), t.3.model(), t.4.shrink_models()[j], t.5.model(), t.6.model(), t.7.model(), t.8.model()));
        assert(p5[p4.len() + j] == b4[j]);
        assert(p6[p4.len() + j] == p5[p4.len() + j]);
        assert(p7[p4.len() + j] == p6[p4.len() + j]);
        assert(p8[p4.len() + j] == p7[p4.len() + j]);
        assert(p9[p4.len() + j] == p8[p4.len() + j]);
    }
    assert forall|j: int| 0 <= j < t.5.shrink_models().len() implies t.shrink_models()[p5.len() + j] == (t.0.model(), t.1.model(), t.2.model(), t.3.model(), t.4.model(), #[trigger] t.5.shrink_models()[j], t.6.model(), t.7.model(), t.8.model()) by {
        assert(b5[j] == (t.0.model(), t.1.model(), t.2.model(), t.3.model(), t.4.model(), t.5.shrink_models()[j], t.6.model(), t.7.model(), t.8.model()));
        assert(p6[p5.len() + j] == b5[j]);
        assert(p7[p5.len() + j] == p6[p5.len() + j]);
        assert(p8[p5.len() + j] == p7[p5.len() + j]);
        assert(p9[p5.len() + j] == p8[p5.len() + j]);
    }
    assert forall|j: int| 0 <= j < t.6.shrink_models().len() implies t.shrink_models()[p6.len() + j] == (t.0.model(), t.1.model(), t.2.model(), t.3.model(), t.4.model(), t.5.model(), #[trigger] t.6.shrink_models()[j], t.7.model(), t.8.model()) by {
        assert(b6[j] == (t.0.model(), t.1.model(), t.2.model(), t.3.model(), t.4.model(), t.5.model(), t.6.shrink_models()[j], t.7.model(), t.8.model()));
        assert(p7[p6.len() + j] == b6[j]);
        assert(p8[p6.len() + j] == p7[p6.len() + j]);
        assert(p9[p6.len() + j] == p8[p6.len() + j]);
    }
    assert forall|j: int| 0 <= j < t.7.shrink_models().len() implies t.shrink_models()[p7.len() + j] == (t.0.model(), t.1.model(), t.2.model(), t.3.model(), t.4.model(), t.5.model(), t.6.model(), #[trigger] t.7.shrink_models()[j], t.8.model()) by {
        assert(b7[j] == (t.0.model(), t.1.model(), t.2.model(), t.3.model(), t.4.model(), t.5.model(), t.6.model(), t.7.shrink_models()[j], t.8.model()));
        assert(p8[p7.len() + j] == b7[j]);
        assert(p9[p7.len() + j] == p8[p7.len() + j]);
    }
    assert forall|j: int| 0 <= j < t.8.shrink_models().len() implies t.shrink_models()[p8.len() + j] == (t.0.model(), t.1.model(), t.2.model(), t.3.model(), t.4.model(), t.5.model(), t.6.model(), t.7.model(), #[trigger] t.8.shrink_models()[j]) by {
        assert(b8[j] == (t.0.model(), t.1.model(), t.2.model(), t.3.model(), t.4.model(), t.5.model(), t.6.model(), t.7.model(), t.8.shrink_models()[j]));
        assert(p9[p8.len() + j] == b8[j]);
    }
}


/// A tuple of 10 shrinks each component in turn, the others kept: its
/// candidates are, in order, each candidate of the first component with the
/// others kept, then each candidate of the second, and so on, and nothing
/// else.
#[verifier::rlimit(60)]
pub proof fn lemma_tuple10_shrinks_componentwise<A: Arbitrary, B: Arbitrary, C: Arbitrary, D: Arbitrary, E: Arbitrary, F: Arbitrary, G: Arbitrary, H: Arbitrary, I: Arbitrary, J: Arbitrary>(t: &(A, B, C, D, E, F, G, H, I, J))
    ensures
        t.shrink_models().len() == t.0.shrink_models().len() + t.1.shrink_models().len() + t.2.shrink_models().len() + t.3.shrink_models().len() + t.4.shrink_models().len() + t.5.shrink_models().len() + t.6.shrink_models().len() + t.7.shrink_models().len() + t.8.shrink_models().len() + t.9.shrink_models().len(),
        forall|j: int| 0 <= j < t.0.shrink_models().len() ==> t.shrink_models()[j] == (#[trigger] t.0.shrink_models()[j], t.1.model(), t.2.model(), t.3.model(), t.4.model(), t.5.model(), t.6.model(), t.7.model(), t.8.model(), t.9.model()),
        forall|j: int| 0 <= j < t.1.shrink_models().len() ==> t.shrink_models()[t.0.shrink_models().len() + j] == (t.0.model(), #[trigger] t.1.shrink_models()[j], t.2.model(), t.3.model(), t.4.model(), t.5.model(), t.6.model(), t.7.model(), t.8.model(), t.9.model()),
        forall|j: int| 0 <= j < t.2.shrink_models().len() ==> t.shrink_models()[t.0.shrink_models().len() + t.1.shrink_models().len() + j] == (t.0.model(), t.1.model(), #[trigger] t.2.shrink_models()[j], t.3.model(), t.4.model(), t.5.model(), t.6.model(), t.7.model(), t.8.model(), t.9.model()),
        forall|j: int| 0 <= j < t.3.shrink_models().len() ==> t.shrink_models()[t.0.shrink_models().len() + t.1.shrink_models().len() + t.2.shrink_models().len() + j] == (t.0.model(), t.1.model(), t.2.model(), #[trigger] t.3.shrink_models()[j], t.4.model(), t.5.model(), t.6.model(), t.7.model(), t.8.model(), t.9.model()),
        forall|j: int| 0 <= j < t.4.shrink_models().len() ==> t.shrink_models()[t.0.shrink_models().len() + t.1.shrink_models().len() + t.2.shrink_models().len() + t.3.shrink_models().len() + j] == (t.0.model(), t.1.model(), t.2.model(), t.3.model(), #[trigger] t.4.shrink_models()[j], t.5.model(), t.6.model(), t.7.model(), t.8.model(), t.9.model()),
        forall|j: int| 0 <= j < t.5.shrink_models().len() ==> t.shrink_models()[t.0.shrink_models().len() + t.1.shrink_models().len() + t.2.shrink_models().len() + t.3.shrink_models().len() + t.4.shrink_models().len() + j] == (t.0.model(), t.1.model(), t.2.model(), t.3.model(), t.4.model(), #[trigger] t.5.shrink_models()[j], t.6.model(), t.7.model(), t.8.model(), t.9.model()),
        forall|j: int| 0 <= j < t.6.shrink_models().len() ==> t.shrink_models()[t.0.shrink_models().len() + t.1.shrink_models().len() + t.2.shrink_models().len() + t.3.shrink_models().len() + t.4.shrink_models().len() + t.5.shrink_models().len() + j] == (t.0.model(), t.1.model(), t.2.model(), t.3.model(), t.4.model(), t.5.model(), #[trigger] t.6.shrink_models()[j], t.7.model(), t.8.model(), t.9.model()),
        forall|j: int| 0 <= j < t.7.shrink_models().len() ==> t.shrink_models()[t.0.shrink_models().len() + t.1.shrink_models().len() + t.2.shrink_models().len() + t.3.shrink_models().len() + t.4.shrink_models().len() + t.5.shrink_models().len() + t.6.shrink_models().len() + j] == (t.0.model(), t.1.model(), t.2.model(), t.3.model(), t.4.model(), t.5.model(), t.6.model(), #[trigger] t.7.shrink_models()[j], t.8.model(), t.9.model()),
        forall|j: int| 0 <= j < t.8.shrink_models().len() ==> t.shrink_models()[t.0.shrink_models().len() + t.1.shrink_models().len() + t.2.shrink_models().len() + t.3.shrink_models().len() + t.4.shrink_models().len() + t.5.shrink_models().len() + t.6.shrink_models().len() + t.7.shrink_models().len() + j] == (t.0.model(), t.1.model(), t.2.model(), t.3.model(), t.4.model(), t.5.model(), t.6.model(), t.7.model(), #[trigger] t.8.shrink_models()[j], t.9.model()),
        forall|j: int| 0 <= j < t.9.shrink_models().len() ==> t.shrink_models()[t.0.shrink_models().len() + t.1.shrink_models().len() + t.2.shrink_models().len() + t.3.shrink_models().len() + t.4.shrink_models().len() + t.5.shrink_models().len() + t.6.shrink_models().len() + t.7.shrink_models().len() + t.8.shrink_models().len() + j] == (t.0.model(), t.1.model(), t.2.model(), t.3.model(), t.4.model(), t.5.model(), t.6.model(), t.7.model(), t.8.model(), #[trigger] t.9.shrink_models()[j]),
{
    let b0 = t.0.shrink_models().map_values(|m: A::Model| (m, t.1.model(), t.2.model(), t.3.model(), t.4.model(), t.5.model(), t.6.model(), t.7.model(), t.8.model(), t.9.model()));
    let b1 = t.1.shrink_models().map_values(|m: B::Model| (t.0.model(), m, t.2.model(), t.3.model(), t.4.model(), t.5.model(), t.6.model(), t.7.model(), t.8.model(), t.9.model()));
    let b2 = t.2.shrink_models().map_values(|m: C::Model| (t.0.model(), t.1.model(), m, t.3.model(), t.4.model(), t.5.model(), t.6.model(), t.7.model(), t.8.model(), t.9.model()));
    let b3 = t.3.shrink_models().map_values(|m: D::Model| (t.0.model(), t.1.model(), t.2.model(), m, t.4.model(), t.5.model(), t.6.model(), t.7.model(), t.8.model(), t.9.model()));
    let b4 = t.4.shrink_models().map_values(|m: E::Model| (t.0.model(), t.1.model(), t.2.model(), t.3.model(), m, t.5.model(), t.6.model(), t.7.model(), t.8.model(), t.9.model()));
    let b5 = t.5.shrink_models().map_values(|m: F::Model| (t.0.model(), t.1.model(), t.2.model(), t.3.model(), t.4.model(), m, t.6.model(), t.7.model(), t.8.model(), t.9.model()));
    let b6 = t.6.shrink_models().map_values(|m: G::Model| (t.0.model(), t.1.model(), t.2.model(), t.3.model(), t.4.model(), t.5.model(), m, t.7.model(), t.8.model(), t.9.model()));
    let b7 = t.7.shrink_models().map_values(|m: H::Model| (t.0.model(), t.1.model(), t.2.model(), t.3.model(), t.4.model(), t.5.model(), t.6.model(), m, t.8.model(), t.9.model()));
    let b8 = t.8.shrink_models().map_values(|m: I::Model| (t.0.model(), t.1.model(), t.2.model(), t.3.model(), t.4.model(), t.5.model(), t.6.model(), t.7.model(), m, t.9.model()));
    let b9 = t.9.shrink_models().map_values(|m: J::Model| (t.0.model(), t.1.model(), t.2.model(), t.3.model(), t.4.model(), t.5.model(), t.6.model(), t.7.model(), t.8.model(), m));
    let p1 = b0;
    let p2 = p1 + b1;
    let p3 = p2 + b2;
    let p4 = p3 + b3;
    let p5 = p4 + b4;
    let p6 = p5 + b5;
    let p7 = p6 + b6;
    let p8 = p7 + b7;
    let p9 = p8 + b8;
    let p10 = p9 + b9;
    assert(t.shrink_models() == p10);
    lemma_concat_positions(p1, b1);
    lemma_concat_positions(p2, b2);
    lemma_concat_positions(p3, b3);
    lemma_concat_positions(p4, b4);
    lemma_concat_positions(p5, b5);
    lemma_concat_positions(p6, b6);
    lemma_concat_positions(p7, b7);
    lemma_concat_positions(p8, b8);
    lemma_concat_positions(p9, b9);
    assert forall|j: int| 0 <= j < t.0.shrink_models().len() implies t.shrink_models()[j] == (#[trigger] t.0.shrink_models()[j], t.1.model(), t.2.model(), t.3.model(), t.4.model(), t.5.model(), t.6.model(), t.7.model(), t.8.model(), t.9.model()) by {
        assert(b0[j] == (t.0.shrink_models()[j], t.1.model(), t.2.model(), t.3.model(), t.4.model(), t.5.model(), t.6.model(), t.7.model(), t.8.model(), t.9.model()));
        assert(p2[j] == p1[j]);
        assert(p3[j] == p2[j]);
        assert(p4[j] == p3[j]);
        assert(p5[j] == p4[j]);
        assert(p6[j] == p5[j]);
        assert(p7[j] == p6[j]);
        assert(p8[j] == p7[j]);
        assert(p9[j] == p8[j]);
        assert(p10[j] == p9[j]);
    }
    assert forall|j: int| 0 <= j < t.1.shrink_models().len() implies t.shrink_models()[p1.len() + j] == (t.0.model(), #[trigger] t.1.shrink_models()[j], t.2.model(), t.3.model(), t.4.model(), t.5.model(), t.6.model(), t.7.model(), t.8.model(), t.9.model()) by {
        assert(b1[j] == (t.0.model(), t.1.shrink_models()[j], t.2.model(), t.3.model(), t.4.model(), t.5.model(), t.6.model(), t.7.model(), t.8.model(), t.9.model()));
        assert(p2[p1.len() + j] == b1[j]);
        assert(p3[p1.len() + j] == p2[p1.len() + j]);
        assert(p4[p1.len() + j] == p3[p1.len() + j]);
        assert(p5[p1.len() + j] == p4[p1.len() + j]);
        assert(p6[p1.len() + j] == p5[p1.len() + j]);
        assert(p7[p1.len() + j] == p6[p1.len() + j]);
        assert(p8[p1.len() + j] == p7[p1.len() + j]);
        assert(p9[p1.len() + j] == p8[p1.len() + j]);
        assert(p10[p1.len() + j] == p9[p1.len() + j]);
    }
    assert forall|j: int| 0 <= j < t.2.shrink_models().len() implies t.shrink_models()[p2.len() + j] == (t.0.model(), t.1.model(), #[trigger] t.2.shrink_models()[j], t.3.model(), t.4.model(), t.5.model(), t.6.model(), t.7.model(), t.8.model(), t.9.model()) by {
        assert(b2[j] == (t.0.model(), t.1.model(), t.2.shrink_models()[j], t.3.model(), t.4.model(), t.5.model(), t.6.model(), t.7.model(), t.8.model(), t.9.model()));
        assert(p3[p2.len() + j] == b2[j]);
        assert(p4[p2.len() + j] == p3[p2.len() + j]);
        assert(p5[p2.len() + j] == p4[p2.len() + j]);
        assert(p6[p2.len() + j] == p5[p2.len() + j]);
        assert(p7[p2.len() + j] == p6[p2.len() + j]);
        assert(p8[p2.len() + j] == p7[p2.len() + j]);
        assert(p9[p2.len() + j] == p8[p2.len() + j]);
        assert(p10[p2.len() + j] == p9[p2.len() + j]);
    }
    assert forall|j: int| 0 <= j < t.3.shrink_models().len() implies t.shrink_models()[p3.len() + j] == (t.0.model(), t.1.model(), t.2.model(), #[trigger] t.3.shrink_models()[j], t.4.model(), t.5.model(), t.6.model(), t.7.model(), t.8.model(), t.9.model()) by {
        assert(b3[j] == (t.0.model(), t.1.model(), t.2.model(), t.3.shrink_models()[j], t.4.model(), t.5.model(), t.6.model(), t.7.model(), t.8.model(), t.9.model()));
        assert(p4[p3.len() + j] == b3[j]);
        assert(p5[p3.len() + j] == p4[p3.len() + j]);
        assert(p6[p3.len() + j] == p5[p3.len() + j]);
        assert(p7[p3.len() + j] == p6[p3.len() + j]);
        assert(p8[p3.len() + j] == p7[p3.len() + j]);
        assert(p9[p3.len() + j] == p8[p3.len() + j]);
        assert(p10[p3.len() + j] == p9[p3.len() + j]);
    }
    assert forall|j: int| 0 <= j < t.4.shrink_models().len() implies t.shrink_models()[p4.len() + j] == (t.0.model(), t.1.model(), t.2.model(), t.3.model(), #[trigger] t.4.shrink_models()[j], t.5.model(), t.6.model(), t.7.model(), t.8.model(), t.9.model()) by {
        assert(b4[j] == (t.0.model(), t.1.model(), t.2.model(), t.3.model(), t.4.shrink_models()[j], t.5.model(), t.6.model(), t.7.model(), t.8.model(), t.9.model()));
        assert(p5[p4.len() + j] == b4[j]);
        assert(p6[p4.len() + j] == p5[p4.len() + j]);
        assert(p7[p4.len() + j] == p6[p4.len() + j]);
        assert(p8[p4.len() + j] == p7[p4.len() + j]);
        assert(p9[p4.len() + j] == p8[p4.len() + j]);
        assert(p10[p4.len() + j] == p9[p4.len() + j]);
    }
    assert forall|j: int| 0 <= j < t.5.shrink_models().len() implies t.shrink_models()[p5.len() + j] == (t.0.model(), t.1.model(), t.2.model(), t.3.model(), t.4.model(), #[trigger] t.5.shrink_models()[j], t.6.model(), t.7.model(), t.8.model(), t.9.model()) by {
        assert(b5[j] == (t.0.model(), t.1.model(), t.2.model(), t.3.model(), t.4.model(), t.5.shrink_models()[j], t.6.model(), t.7.model(), t.8.model(), t.9.model()));
        assert(p6[p5.len() + j] == b5[j]);
        assert(p7[p5.len() + j] == p6[p5.len() + j]);
        assert(p8[p5.len() + j] == p7[p5.len() + j]);
        assert(p9[p5.len() + j] == p8[p5.len() + j]);
        assert(p10[p5.len() + j] == p9[p5.len() + j]);
    }
    assert forall|j: int| 0 <= j < t.6.shrink_models().len() implies t.shrink_models()[p6.len() + j] == (t.0.model(), t.1.model(), t.2.model(), t.3.model(), t.4.model(), t.5.model(), #[trigger] t.6.shrink_models()[j], t.7.model(), t.8.model(), t.9.model()) by {
        assert(b6[j] == (t.0.model(), t.1.model(), t.2.model(), t.3.model(), t.4.model(), t.5.model(), t.6.shrink_models()[j], t.7.model(), t.8.model(), t.9.model()));
        assert(p7[p6.len() + j] == b6[j]);
        assert(p8[p6.len() + j] == p7[p6.len() + j]);
        assert(p9[p6.len() + j] == p8[p6.len() + j]);
        assert(p10[p6.len() + j] == p9[p6.len() + j]);
    }
    assert forall|j: int| 0 <= j < t.7.shrink_models().len() implies t.shrink_models()[p7.len() + j] == (t.0.model(), t.1.model(), t.2.model(), t.3.model(), t.4.model(), t.5.model(), t.6.model(), #[trigger] t.7.shrink_models()[j], t.8.model(), t.9.model()) by {
        assert(b7[j] == (t.0.model(), t.1.model(), t.2.model(), t.3.model(), t.4.model(), t.5.model(), t.6.model(), t.7.shrink_models()[j], t.8.model(), t.9.model()));
        assert(p8[p7.len() + j] == b7[j]);
        assert(p9[p7.len() + j] == p8[p7.len() + j]);
        assert(p10[p7.len() + j] == p9[p7.len() + j]);
    }
    assert forall|j: int| 0 <= j < t.8.shrink_models().len() implies t.shrink_models()[p8.len() + j] == (t.0.model(), t.1.model(), t.2.model(), t.3.model(), t.4.model(), t.5.model(), t.6.model(), t.7.model(), #[trigger] t.8.shrink_models()[j], t.9.model()) by {
        assert(b8[j] == (t.0.model(), t.1.model(), t.2.model(), t.3.model(), t.4.model(), t.5.model(), t.6.model(), t.7.model(), t.8.shrink_models()[j], t.9.model()));
        assert(p9[p8.len() + j] == b8[j]);
        assert(p10[p8.len() + j] == p9[p8.len() + j]);
    }
    assert forall|j: int| 0 <= j < t.9.shrink_models().len() implies t.shrink_models()[p9.len() + j] == (t.0.model(), t.1.model(), t.2.model(), t.3.model(), t.4.model(), t.5.model(), t.6.model(), t.7.model(), t.8.model(), #[trigger] t.9.shrink_models()[j]) by {
        assert(b9[j] == (t.0.model(), t.1.model(), t.2.model(), t.3.model(), t.4.model(), t.5.model(), t.6.model(), t.7.model(), t.8.model(), t.9.shrink_models()[j]));
        assert(p10[p9.len() + j] == b9[j]);
    }
}


/// A tuple of 11 shrinks each component in turn, the others kept: its
/// candidates are, in order, each candidate of the first component with the
/// others kept, then each candidate of the second, and so on, and nothing
/// else.
#[verifier::rlimit(60)]
pub proof fn lemma_tuple11_shrinks_componentwise<A: Arbitrary, B: Arbitrary, C: Arbitrary, D: Arbitrary, E: Arbitrary, F: Arbitrary, G: Arbitrary, H: Arbitrary, I: Arbitrary, J: Arbitrary, K: Arbitrary>(t: &(A, B, C, D, E, F, G, H, I, J, K))
    ensures
        t.shrink_models().len() == t.0.shrink_models().len() + t.1.shrink_models().len() + t.2.shrink_models().len() + t.3.shrink_models().len() + t.4.shrink_models().len() + t.5.shrink_models().len() + t.6.shrink_models().len() + t.7.shrink_models().len() + t.8.shrink_models().len() + t.9.shrink_models().len() + t.10.shrink_models().len(),
        forall|j: int| 0 <= j < t.0.shrink_models().len() ==> t.shrink_models()[j] == (#[trigger] t.0.shrink_models()[j], t.1.model(), t.2.model(), t.3.model(), t.4.model(), t.5.model(), t.6.model(), t.7.model(), t.8.model(), t.9.model(), t.10.model()),
        forall|j: int| 0 <= j < t.1.shrink_models().len() ==> t.shrink_models()[t.0.shrink_models().len() + j] == (t.0.model(), #[trigger] t.1.shrink_models()[j], t.2.model(), t.3.model(), t.4.model(), t.5.model(), t.6.model(), t.7.model(), t.8.model(), t.9.model(), t.10.model()),
        forall|j: int| 0 <= j < t.2.shrink_models().len() ==> t.shrink_models()[t.0.shrink_models().len() + t.1.shrink_models().len() + j] == (t.0.model(), t.1.model(), #[trigger] t.2.shrink_models()[j], t.3.model(), t.4.model(), t.5.model(), t.6.model(), t.7.model(), t.8.model(), t.9.model(), t.10.model()),
        forall|j: int| 0 <= j < t.3.shrink_models().len() ==> t.shrink_models()[t.0.shrink_models().len() + t.1.shrink_models().len() + t.2.shrink_models().len() + j] == (t.0.model(), t.1.model(), t.2.model(), #[trigger] t.3.shrink_models()[j], t.4.model(), t.5.model(), t.6.model(), t.7.model(), t.8.model(), t.9.model(), t.10.model()),
        forall|j: int| 0 <= j < t.4.shrink_models().len() ==> t.shrink_models()[t.0.shrink_models().len() + t.1.shrink_models().len() + t.2.shrink_models().len() + t.3.shrink_models().len() + j] == (t.0.model(), t.1.model(), t.2.model(), t.3.model(), #[trigger] t.4.shrink_models()[j], t.5.model(), t.6.model(), t.7.model(), t.8.model(), t.9.model(), t.10.model()),
        forall|j: int| 0 <= j < t.5.shrink_models().len() ==> t.shrink_models()[t.0.shrink_models().len() + t.1.shrink_models().len() + t.2.shrink_models().len() + t.3.shrink_models().len() + t.4.shrink_models().len() + j] == (t.0.model(), t.1.model(), t.2.model(), t.3.model(), t.4.model(), #[trigger] t.5.shrink_models()[j], t.6.model(), t.7.model(), t.8.model(), t.9.model(), t.10.model()),
        forall|j: int| 0 <= j < t.6.shrink_models().len() ==> t.shrink_models()[t.0.shrink_models().len() + t.1.shrink_models().len() + t.2.shrink_models().len() + t.3.shrink_models().len() + t.4.shrink_models().len() + t.5.shrink_models().len() + j] == (t.0.model(), t.1.model(), t.2.model(), t.3.model(), t.4.model(), t.5.model(), #[trigger] t.6.shrink_models()[j], t.7.model(), t.8.model(), t.9.model(), t.10.model()),
        forall|j: int| 0 <= j < t.7.shrink_models().len() ==> t.shrink_models()[t.0.shrink_models().len() + t.1.shrink_models().len() + t.2.shrink_models().len() + t.3.shrink_models().len() + t.4.shrink_models().len() + t.5.shrink_models().len() + t.6.shrink_models().len() + j] == (t.0.model(), t.1.model(), t.2.model(), t.3.model(), t.4.model(), t.5.model(), t.6.model(), #[trigger] t.7.shrink_models()[j], t.8.model(), t.9.model(), t.10.model()),
        forall|j: int| 0 <= j < t.8.shrink_models().len() ==> t.shrink_models()[t.0.shrink_models().len() + t.1.shrink_models().len() + t.2.shrink_models().len() + t.3.shrink_models().len() + t.4.shrink_models().len() + t.5.shrink_models().len() + t.6.shrink_models().len() + t.7.shrink_models().len() + j] == (t.0.model(), t.1.model(), t.2.model(), t.3.model(), t.4.model(), t.5.model(), t.6.model(), t.7.model(), #[trigger] t.8.shrink_models()[j], t.9.model(), t.10.model()),
        forall|j: int| 0 <= j < t.9.shrink_models().len() ==> t.shrink_models()[t.0.shrink_models().len() + t.1.shrink_models().len() + t.2.shrink_models().len() + t.3.shrink_models().len() + t.4.shrink_models().len() + t.5.shrink_models().len() + t.6.shrink_models().len() + t.7.shrink_models().len() + t.8.shrink_models().len() + j] == (t.0.model(), t.1.model(), t.2.model(), t.3.model(), t.4.model(), t.5.model(), t.6.model(), t.7.model(), t.8.model(), #[trigger] t.9.shrink_models()[j], t.10.model()),
        forall|j: int| 0 <= j < t.10.shrink_models().len() ==> t.shrink_models()[t.0.shrink_models().len() + t.1.shrink_models().len() + t.2.shrink_models().len() + t.3.shrink_models().len() + t.4.shrink_models().len() + t.5.shrink_models().len() + t.6.shrink_models().len() + t.7.shrink_models().len() + t.8.shrink_models().len() + t.9.shrink_models().len() + j] == (t.0.model(), t.1.model(), t.2.model(), t.3.model(), t.4.model(), t.5.model(), t.6.model(), t.7.model(), t.8.model(), t.9.model(), #[trigger] t.10.shrink_models()[j]),
{
    let b0 = t.0.shrink_models().map_values(|m: A::Model| (m, t.1.model(), t.2.model(), t.3.model(), t.4.model(), t.5.model(), t.6.model(), t.7.model(), t.8.model(), t.9.model(), t.10.model()));
    let b1 = t.1.shrink_models().map_values(|m: B::Model| (t.0.model(), m, t.2.model(), t.3.model(), t.4.model(), t.5.model(), t.6.model(), t.7.model(), t.8.model(), t.9.model(), t.10.model()));
    let b2 = t.2.shrink_models().map_values(|m: C::Model| (t.0.model(), t.1.model(), m, t.3.model(), t.4.model(), t.5.model(), t.6.model(), t.7.model(), t.8.model(), t.9.model(), t.10.model()));
    let b3 = t.3.shrink_models().map_values(|m: D::Model| (t.0.model(), t.1.model(), t.2.model(), m, t.4.model(), t.5.model(), t.6.model(), t.7.model(), t.8.model(), t.9.model(), t.10.model()));
    let b4 = t.4.shrink_models().map_values(|m: E::Model| (t.0.model(), t.1.model(), t.2.model(), t.3.model(), m, t.5.model(), t.6.model(), t.7.model(), t.8.model(), t.9.model(), t.10.model()));
    let b5 = t.5.shrink_models().map_values(|m: F::Model| (t.0.model(), t.1.model(), t.2.model(), t.3.model(), t.4.model(), m, t.6.model(), t.7.model(), t.8.model(), t.9.model(), t.10.model()));
    let b6 = t.6.shrink_models().map_values(|m: G::Model| (t.0.model(), t.1.model(), t.2.model(), t.3.model(), t.4.model(), t.5.model(), m, t.7.model(), t.8.model(), t.9.model(), t.10.model()));
    let b7 = t.7.shrink_models().map_values(|m: H::Model| (t.0.model(), t.1.model(), t.2.model(), t.3.model(), t.4.model(), t.5.model(), t.6.model(), m, t.8.model(), t.9.model(), t.10.model()));
    let b8 = t.8.shrink_models().map_values(|m: I::Model| (t.0.model(), t.1.model(), t.2.model(), t.3.model(), t.4.model(), t.5.model(), t.6.model(), t.7.model(), m, t.9.model(), t.10.model()));
    let b9 = t.9.shrink_models().map_values(|m: J::Model| (t.0.model(), t.1.model(), t.2.model(), t.3.model(), t.4.model(), t.5.model(), t.6.model(), t.7.model(), t.8.model(), m, t.10.model()));
    let b10 = t.10.shrink_models().map_values(|m: K::Model| (t.0.model(), t.1.model(), t.2.model(), t.3.model(), t.4.model(), t.5.model(), t.6.model(), t.7.model(), t.8.model(), t.9.model(), m));
    let p1 = b0;
    let p2 = p1 + b1;
    let p3 = p2 + b2;
    let p4 = p3 + b3;
    let p5 = p4 + b4;
    let p6 = p5 + b5;
    let p7 = p6 + b6;
    let p8 = p7 + b7;
    let p9 = p8 + b8;
    let p10 = p9 + b9;
    let p11 = p10 + b10;
    assert(t.shrink_models() == p11);
    lemma_concat_positions(p1, b1);
    lemma_concat_positions(p2, b2);
    lemma_concat_positions(p3, b3);
    lemma_concat_positions(p4, b4);
    lemma_concat_positions(p5, b5);
    lemma_concat_positions(p6, b6);
    lemma_concat_positions(p7, b7);
    lemma_concat_positions(p8, b8);
    lemma_concat_positions(p9, b9);
    lemma_concat_positions(p10, b10);
    assert forall|j: int| 0 <= j < t.0.shrink_models().len() implies t.shrink_models()[j] == (#[trigger] t.0.shrink_models()[j], t.1.model(), t.2.model(), t.3.model(), t.4.model(), t.5.model(), t.6.model(), t.7.model(), t.8.model(), t.9.model(), t.10.model()) by {
        assert(b0[j] == (t.0.shrink_models()[j], t.1.model(), t.2.model(), t.3.model(), t.4.model(), t.5.model(), t.6.model(), t.7.model(), t.8.model(), t.9.model(), t.10.model()));
        assert(p2[j] == p1[j]);
        assert(p3[j] == p2[j]);
        assert(p4[j] == p3[j]);
        assert(p5[j] == p4[j]);
        assert(p6[j] == p5[j]);
        assert(p7[j] == p6[j]);
        assert(p8[j] == p7[j]);
        assert(p9[j] == p8[j]);
        assert(p10[j] == p9[j]);
        assert(p11[j] == p10[j]);
    }
    assert forall|j: int| 0 <= j < t.1.shrink_models().len() implies t.shrink_models()[p1.len() + j] == (t.0.model(), #[trigger] t.1.shrink_models()[j], t.2.model(), t.3.model(), t.4.model(), t.5.model(), t.6.model(), t.7.model(), t.8.model(), t.9.model(), t.10.model()) by {
        assert(b1[j] == (t.0.model(), t.1.shrink_models()[j], t.2.model(), t.3.model(), t.4.model(), t.5.model(), t.6.model(), t.7.model(), t.8.model(), t.9.model(), t.10.model()));
        assert(p2[p1.len() + j] == b1[j]);
        assert(p3[p1.len() + j] == p2[p1.len() + j]);
        assert(p4[p1.len() + j] == p3[p1.len() + j]);
        assert(p5[p1.len() + j] == p4[p1.len() + j]);
        assert(p6[p1.len() + j] == p5[p1.len() + j]);
        assert(p7[p1.len() + j] == p6[p1.len() + j]);
        assert(p8[p1.len() + j] == p7[p1.len() + j]);
        assert(p9[p1.len() + j] == p8[p1.len() + j]);
        assert(p10[p1.len() + j] == p9[p1.len() + j]);
        assert(p11[p1.len() + j] == p10[p1.len() + j]);
    }
    assert forall|j: int| 0 <= j < t.2.shrink_models().len() implies t.shrink_models()[p2.len() + j] == (t.0.model(), t.1.model(), #[trigger] t.2.shrink_models()[j], t.3.model(), t.4.model(), t.5.model(), t.6.model(), t.7.model(), t.8.model(), t.9.model(), t.10.model()) by {
        assert(b2[j] == (t.0.model(), t.1.model(), t.2.shrink_models()[j], t.3.model(), t.4.model(), t.5.model(), t.6.model(), t.7.model(), t.8.model(), t.9.model(), t.10.model()));
        assert(p3[p2.len() + j] == b2[j]);
        assert(p4[p2.len() + j] == p3[p2.len() + j]);
        assert(p5[p2.len() + j] == p4[p2.len() + j]);
        assert(p6[p2.len() + j] == p5[p2.len() + j]);
        assert(p7[p2.len() + j] == p6[p2.len() + j]);
        assert(p8[p2.len() + j] == p7[p2.len() + j]);
        assert(p9[p2.len() + j] == p8[p2.len() + j]);
        assert(p10[p2.len() + j] == p9[p2.len() + j]);
        assert(p11[p2.len() + j] == p10[p2.len() + j]);
    }
    assert forall|j: int| 0 <= j < t.3.shrink_models().len() implies t.shrink_models()[p3.len() + j] == (t.0.model(), t.1.model(), t.2.model(), #[trigger] t.3.shrink_models()[j], t.4.model(), t.5.model(), t.6.model(), t.7.model(), t.8.model(), t.9.model(), t.10.model()) by {
        assert(b3[j] == (t.0.model(), t.1.model(), t.2.model(), t.3.shrink_models()[j], t.4.model(), t.5.model(), t.6.model(), t.7.model(), t.8.model(), t.9.model(), t.10.model()));
        assert(p4[p3.len() + j] == b3[j]);
        assert(p5[p3.len() + j] == p4[p3.len() + j]);
        assert(p6[p3.len() + j] == p5[p3.len() + j]);
        assert(p7[p3.len() + j] == p6[p3.len() + j]);
        assert(p8[p3.len() + j] == p7[p3.len() + j]);
        assert(p9[p3.len() + j] == p8[p3.len() + j]);
        assert(p10[p3.len() + j] == p9[p3.len() + j]);
        assert(p11[p3.len() + j] == p10[p3.len() + j]);
    }
    assert forall|j: int| 0 <= j < t.4.shrink_models().len() implies t.shrink_models()[p4.len() + j] == (t.0.model(), t.1.model(), t.2.model(), t.3.model(), #[trigger] t.4.shrink_models()[j], t.5.model(), t.6.model(), t.7.model(), t.8.model(), t.9.model(), t.10.model()) by {
        assert(b4[j] == (t.0.model(), t.1.model(), t.2.model(), t.3.model(), t.4.shrink_models()[j], t.5.model(), t.6.model(), t.7.model(), t.8.model(), t.9.model(), t.10.model()));
        assert(p5[p4.len() + j] == b4[j]);
        assert(p6[p4.len() + j] == p5[p4.len() + j]);
        assert(p7[p4.len() + j] == p6[p4.len() + j]);
        assert(p8[p4.len() + j] == p7[p4.len() + j]);
        assert(p9[p4.len() + j] == p8[p4.len() + j]);
        assert(p10[p4.len() + j] == p9[p4.len() + j]);
        assert(p11[p4.len() + j] == p10[p4.len() + j]);
    }
    assert forall|j: int| 0 <= j < t.5.shrink_models().len() implies t.shrink_models()[p5.len() + j] == (t.0.model(), t.1.model(), t.2.model(), t.3.model(), t.4.model(), #[trigger] t.5.shrink_models()[j], t.6.model(), t.7.model(), t.8.model(), t.9.model(), t.10.model()) by {
        assert(b5[j] == (t.0.model(), t.1.model(), t.2.model(), t.3.model(), t.4.model(), t.5.shrink_models()[j], t.6.model(), t.7.model(), t.8.model(), t.9.model(), t.10.model()));
        assert(p6[p5.len() + j] == b5[j]);
        assert(p7[p5.len() + j] == p6[p5.len() + j]);
        assert(p8[p5.len() + j] == p7[p5.len() + j]);
        assert(p9[p5.len() + j] == p8[p5.len() + j]);
        assert(p10[p5.len() + j] == p9[p5.len() + j]);
        assert(p11[p5.len() + j] == p10[p5.len() + j]);
    }
    assert forall|j: int| 0 <= j < t.6.shrink_models().len() implies t.shrink_models()[p6.len() + j] == (t.0.model(), t.1.model(), t.2.model(), t.3.model(), t.4.model(), t.5.model(), #[trigger] t.6.shrink_models()[j], t.7.model(), t.8.model(), t.9.model(), t.10.model()) by {
        assert(b6[j] == (t.0.model(), t.1.model(), t.2.model(), t.3.model(), t.4.model(), t.5.model(), t.6.shrink_models()[j], t.7.model(), t.8.model(), t.9.model(), t.10.model()));
        assert(p7[p6.len() + j] == b6[j]);
        assert(p8[p6.len() + j] == p7[p6.len() + j]);
        assert(p9[p6.len() + j] == p8[p6.len() + j]);
        assert(p10[p6.len() + j] == p9[p6.len() + j]);
        assert(p11[p6.len() + j] == p10[p6.len() + j]);
    }
    assert forall|j: int| 0 <= j < t.7.shrink_models().len() implies t.shrink_models()[p7.len() + j] == (t.0.model(), t.1.model(), t.2.model(), t.3.model(), t.4.model(), t.5.model(), t.6.model(), #[trigger] t.7.shrink_models()[j], t.8.model(), t.9.model(), t.10.model()) by {
        assert(b7[j] == (t.0.model(), t.1.model(), t.2.model(), t.3.model(), t.4.model(), t.5.model(), t.6.model(), t.7.shrink_models()[j], t.8.model(), t.9.model(), t.10.model()));
        assert(p8[p7.len() + j] == b7[j]);
        assert(p9[p7.len() + j] == p8[p7.len() + j]);
        assert(p10[p7.len() + j] == p9[p7.len() + j]);
        assert(p11[p7.len() + j] == p10[p7.len() + j]);
    }
    assert forall|j: int| 0 <= j < t.8.shrink_models().len() implies t.shrink_models()[p8.len() + j] == (t.0.model(), t.1.model(), t.2.model(), t.3.model(), t.4.model(), t.5.model(), t.6.model(), t.7.model(), #[trigger] t.8.shrink_models()[j], t.9.model(), t.10.model()) by {
        assert(b8[j] == (t.0.model(), t.1.model(), t.2.model(), t.3.model(), t.4.model(), t.5.model(), t.6.model(), t.7.model(), t.8.shrink_models()[j], t.9.model(), t.10.model()));
        assert(p9[p8.len() + j] == b8[j]);
        assert(p10[p8.len() + j] == p9[p8.len() + j]);
        assert(p11[p8.len() + j] == p10[p8.len() + j]);
    }
    assert forall|j: int| 0 <= j < t.9.shrink_models().len() implies t.shrink_models()[p9.len() + j] == (t.0.model(), t.1.model(), t.2.model(), t.3.model(), t.4.model(), t.5.model(), t.6.model(), t.7.model(), t.8.model(), #[trigger] t.9.shrink_models()[j], t.10.model()) by {
        assert(b9[j] == (t.0.model(), t.1.model(), t.2.model(), t.3.model(), t.4.model(), t.5.model(), t.6.model(), t.7.model(), t.8.model(), t.9.shrink_models()[j], t.10.model()));
        assert(p10[p9.len() + j] == b9[j]);
        assert(p11[p9.len() + j] == p10[p9.len() + j]);
    }
    assert forall|j: int| 0 <= j < t.10.shrink_models().len() implies t.shrink_models()[p10.len() + j] == (t.0.model(), t.1.model(), t.2.model(), t.3.model(), t.4.model(), t.5.model(), t.6.model(), t.7.model(), t.8.model(), t.9.model(), #[trigger] t.10.shrink_models()[j]) by {
        assert(b10[j] == (t.0.model(), t.1.model(), t.2.model(), t.3.model(), t.4.model(), t.5.model(), t.6.model(), t.7.model(), t.8.model(), t.9.model(), t.10.shrink_models()[j]));
        assert(p11[p10.len() + j] == b10[j]);
    }
}


/// A tuple of 12 shrinks each component in turn, the others kept: its
/// candidates are, in order, each candidate of the first component with the
/// others kept, then each candidate of the second, and so on, and nothing
/// else.
#[verifier::rlimit(60)]
pub proof fn lemma_tuple12_shrinks_componentwise<A: Arbitrary, B: Arbitrary, C: Arbitrary, D: Arbitrary, E: Arbitrary, F: Arbitrary, G: Arbitrary, H: Arbitrary, I: Arbitrary, J: Arbitrary, K: Arbitrary, L: Arbitrary>(t: &(A, B, C, D, E, F, G, H, I, J, K, L))
    ensures
        t.shrink_models().len() == t.0.shrink_models().len() + t.1.shrink_models().len() + t.2.shrink_models().len() + t.3.shrink_models().len() + t.4.shrink_models().len() + t.5.shrink_models().len() + t.6.shrink_models().len() + t.7.shrink_models().len() + t.8.shrink_models().len() + t.9.shrink_models().len() + t.10.shrink_models().len() + t.11.shrink_models().len(),
        forall|j: int| 0 <= j < t.0.shrink_models().len() ==> t.shrink_models()[j] == (#[trigger] t.0.shrink_models()[j], t.1.model(), t.2.model(), t.3.model(), t.4.model(), t.5.model(), t.6.model(), t.7.model(), t.8.model(), t.9.model(), t.10.model(), t.11.model()),
        forall|j: int| 0 <= j < t.1.shrink_models().len() ==> t.shrink_models()[t.0.shrink_models().len() + j] == (t.0.model(), #[trigger] t.1.shrink_models()[j], t.2.model(), t.3.model(), t.4.model(), t.5.model(), t.6.model(), t.7.model(), t.8.model(), t.9.model(), t.10.model(), t.11.model()),
        forall|j: int| 0 <= j < t.2.shrink_models().len() ==> t.shrink_models()[t.0.shrink_models().len() + t.1.shrink_models().len() + j] == (t.0.model(), t.1.model(), #[trigger] t.2.shrink_models()[j], t.3.model(), t.4.model(), t.5.model(), t.6.model(), t.7.model(), t.8.model(), t.9.model(), t.10.model(), t.11.model()),
        forall|j: int| 0 <= j < t.3.shrink_models().len() ==> t.shrink_models()[t.0.shrink_models().len() + t.1.shrink_models().len() + t.2.shrink_models().len() + j] == (t.0.model(), t.1.model(), t.2.model(), #[trigger] t.3.shrink_models()[j], t.4.model(), t.5.model(), t.6.model(), t.7.model(), t.8.model(), t.9.model(), t.10.model(), t.11.model()),
        forall|j: int| 0 <= j < t.4.shrink_models().len() ==> t.shrink_models()[t.0.shrink_models().len() + t.1.shrink_models().len() + t.2.shrink_models().len() + t.3.shrink_models().len() + j] == (t.0.model(), t.1.model(), t.2.model(), t.3.model(), #[trigger] t.4.shrink_models()[j], t.5.model(), t.6.model(), t.7.model(), t.8.model(), t.9.model(), t.10.model(), t.11.model()),
        forall|j: int| 0 <= j < t.5.shrink_models().len() ==> t.shrink_models()[t.0.shrink_models().len() + t.1.shrink_models().len() + t.2.shrink_models().len() + t.3.shrink_models().len() + t.4.shrink_models().len() + j] == (t.0.model(), t.1.model(), t.2.model(), t.3.model(), t.4.model(), #[trigger] t.5.shrink_models()[j], t.6.model(), t.7.model(), t.8.model(), t.9.model(), t.10.model(), t.11.model()),
        forall|j: int| 0 <= j < t.6.shrink_models().len() ==> t.shrink_models()[t.0.shrink_models().len() + t.1.shrink_models().len() + t.2.shrink_models().len() + t.3.shrink_models().len() + t.4.shrink_models().len() + t.5.shrink_models().len() + j] == (t.0.model(), t.1.model(), t.2.model(), t.3.model(), t.4.model(), t.5.model(), #[trigger] t.6.shrink_models()[j], t.7.model(), t.8.model(), t.9.model(), t.10.model(), t.11.model()),
        forall|j: int| 0 <= j < t.7.shrink_models().len() ==> t.shrink_models()[t.0.shrink_models().len() + t.1.shrink_models().len() + t.2.shrink_models().len() + t.3.shrink_models().len() + t.4.shrink_models().len() + t.5.shrink_models().len() + t.6.shrink_models().len() + j] == (t.0.model(), t.1.model(), t.2.model(), t.3.model(), t.4.model(), t.5.model(), t.6.model(), #[trigger] t.7.shrink_models()[j], t.8.model(), t.9.model(), t.10.model(), t.11.model()),
        forall|j: int| 0 <= j < t.8.shrink_models().len() ==> t.shrink_models()[t.0.shrink_models().len() + t.1.shrink_models().len() + t.2.shrink_models().len() + t.3.shrink_models().len() + t.4.shrink_models().len() + t.5.shrink_models().len() + t.6.shrink_models().len() + t.7.shrink_models().len() + j] == (t.0.model(), t.1.model(), t.2.model(), t.3.model(), t.4.model(), t.5.model(), t.6.model(), t.7.model(), #[trigger] t.8.shrink_models()[j], t.9.model(), t.10.model(), t.11.model()),
        forall|j: int| 0 <= j < t.9.shrink_models().len() ==> t.shrink_models()[t.0.shrink_models().len() + t.1.shrink_models().len() + t.2.shrink_models().len() + t.3.shrink_models().len() + t.4.shrink_models().len() + t.5.shrink_models().len() + t.6.shrink_models().len() + t.7.shrink_models().len() + t.8.shrink_models().len() + j] == (t.0.model(), t.1.model(), t.2.model(), t.3.model(), t.4.model(), t.5.model(), t.6.model(), t.7.model(), t.8.model(), #[trigger] t.9.shrink_models()[j], t.10.model(), t.11.model()),
        forall|j: int| 0 <= j < t.10.shrink_models().len() ==> t.shrink_models()[t.0.shrink_models().len() + t.1.shrink_models().len() + t.2.shrink_models().len() + t.3.shrink_models().len() + t.4.shrink_models().len() + t.5.shrink_models().len() + t.6.shrink_models().len() + t.7.shrink_models().len() + t.8.shrink_models().len() + t.9.shrink_models().len() + j] == (t.0.model(), t.1.model(), t.2.model(), t.3.model(), t.4.model(), t.5.model(), t.6.model(), t.7.model(), t.8.model(), t.9.model(), #[trigger] t.10.shrink_models()[j], t.11.model()),
        forall|j: int| 0 <= j < t.11.shrink_models().len() ==> t.shrink_models()[t.0.shrink_models().len() + t.1.shrink_models().len() + t.2.shrink_models().len() + t.3.shrink_models().len() + t.4.shrink_models().len() + t.5.shrink_models().len() + t.6.shrink_models().len() + t.7.shrink_models().len() + t.8.shrink_models().len() + t.9.shrink_models().len() + t.10.shrink_models().len() + j] == (t.0.model(), t.1.model(), t.2.model(), t.3.model(), t.4.model(), t.5.model(), t.6.model(), t.7.model(), t.8.model(), t.9.model(), t.10.model(), #[trigger] t.11.shrink_models()[j]),
{
    let b0 = t.0.shrink_models().map_values(|m: A::Model| (m, t.1.model(), t.2.model(), t.3.model(), t.4.model(), t.5.model(), t.6.model(), t.7.model(), t.8.model(), t.9.model(), t.10.model(), t.11.model()));
    let b1 = t.1.shrink_models().map_values(|m: B::Model| (t.0.model(), m, t.2.model(), t.3.model(), t.4.model(), t.5.model(), t.6.model(), t.7.model(), t.8.model(), t.9.model(), t.10.model(), t.11.model()));
    let b2 = t.2.shrink_models().map_values(|m: C::Model| (t.0.model(), t.1.model(), m, t.3.model(), t.4.model(), t.5.model(), t.6.model(), t.7.model(), t.8.model(), t.9.model(), t.10.model(), t.11.model()));
    let b3 = t.3.shrink_models().map_values(|m: D::Model| (t.0.model(), t.1.model(), t.2.model(), m, t.4.model(), t.5.model(), t.6.model(), t.7.model(), t.8.model(), t.9.model(), t.10.model(), t.11.model()));
    let b4 = t.4.shrink_models().map_values(|m: E::Model| (t.0.model(), t.1.model(), t.2.model(), t.3.model(), m, t.5.model(), t.6.model(), t.7.model(), t.8.model(), t.9.model(), t.10.model(), t.11.model()));
    let b5 = t.5.shrink_models().map_values(|m: F::Model| (t.0.model(), t.1.model(), t.2.model(), t.3.model(), t.4.model(), m, t.6.model(), t.7.model(), t.8.model(), t.9.model(), t.10.model(), t.11.model()));
    let b6 = t.6.shrink_models().map_values(|m: G::Model| (t.0.model(), t.1.model(), t.2.model(), t.3.model(), t.4.model(), t.5.model(), m, t.7.model(), t.8.model(), t.9.model(), t.10.model(), t.11.model()));
    let b7 = t.7.shrink_models().map_values(|m: H::Model| (t.0.model(), t.1.model(), t.2.model(), t.3.model(), t.4.model(), t.5.model(), t.6.model(), m, t.8.model(), t.9.model(), t.10.model(), t.11.model()));
    let b8 = t.8.shrink_models().map_values(|m: I::Model| (t.0.model(), t.1.model(), t.2.model(), t.3.model(), t.4.model(), t.5.model(), t.6.model(), t.7.model(), m, t.9.model(), t.10.model(), t.11.model()));
    let b9 = t.9.shrink_models().map_values(|m: J::Model| (t.0.model(), t.1.model(), t.2.model(), t.3.model(), t.4.model(), t.5.model(), t.6.model(), t.7.model(), t.8.model(), m, t.10.model(), t.11.model()));
    let b10 = t.10.shrink_models().map_values(|m: K::Model| (t.0.model(), t.1.model(), t.2.model(), t.3.model(), t.4.model(), t.5.model(), t.6.model(), t.7.model(), t.8.model(), t.9.model(), m, t.11.model()));
    let b11 = t.11.shrink_models().map_values(|m: L::Model| (t.0.model(), t.1.model(), t.2.model(), t.3.model(), t.4.model(), t.5.model(), t.6.model(), t.7.model(), t.8.model(), t.9.model(), t.10.model(), m));
    let p1 = b0;
    let p2 = p1 + b1;
    let p3 = p2 + b2;
    let p4 = p3 + b3;
    let p5 = p4 + b4;
    let p6 = p5 + b5;
    let p7 = p6 + b6;
    let p8 = p7 + b7;
    let p9 = p8 + b8;
    let p10 = p9 + b9;
    let p11 = p10 + b10;
    let p12 = p11 + b11;
    assert(t.shrink_models() == p12);
    lemma_concat_positions(p1, b1);
    lemma_concat_positions(p2, b2);
    lemma_concat_positions(p3, b3);
    lemma_concat_positions(p4, b4);
    lemma_concat_positions(p5, b5);
    lemma_concat_positions(p6, b6);
    lemma_concat_positions(p7, b7);
    lemma_concat_positions(p8, b8);
    lemma_concat_positions(p9, b9);
    lemma_concat_positions(p10, b10);
    lemma_concat_positions(p11, b11);
    assert forall|j: int| 0 <= j < t.0.shrink_models().len() implies t.shrink_models()[j] == (#[trigger] t.0.shrink_models()[j], t.1.model(), t.2.model(), t.3.model(), t.4.model(), t.5.model(), t.6.model(), t.7.model(), t.8.model(), t.9.model(), t.10.model(), t.11.model()) by {
        assert(b0[j] == (t.0.shrink_models()[j], t.1.model(), t.2.model(), t.3.model(), t.4.model(), t.5.model(), t.6.model(), t.7.model(), t.8.model(), t.9.model(), t.10.model(), t.11.model()));
        assert(p2[j] == p1[j]);
        assert(p3[j] == p2[j]);
        assert(p4[j] == p3[j]);
        assert(p5[j] == p4[j]);
        assert(p6[j] == p5[j]);
        assert(p7[j] == p6[j]);
        assert(p8[j] == p7[j]);
        assert(p9[j] == p8[j]);
        assert(p10[j] == p9[j]);
        assert(p11[j] == p10[j]);
        assert(p12[j] == p11[j]);
    }
    assert forall|j: int| 0 <= j < t.1.shrink_models().len() implies t.shrink_models()[p1.len() + j] == (t.0.model(), #[trigger] t.1.shrink_models()[j], t.2.model(), t.3.model(), t.4.model(), t.5.model(), t.6.model(), t.7.model(), t.8.model(), t.9.model(), t.10.model(), t.11.model()) by {
        assert(b1[j] == (t.0.model(), t.1.shrink_models()[j], t.2.model(), t.3.model(), t.4.model(), t.5.model(), t.6.model(), t.7.model(), t.8.model(), t.9.model(), t.10.model(), t.11.model()));
        assert(p2[p1.len() + j] == b1[j]);
        assert(p3[p1.len() + j] == p2[p1.len() + j]);
        assert(p4[p1.len() + j] == p3[p1.len() + j]);
        assert(p5[p1.len() + j] == p4[p1.len() + j]);
        assert(p6[p1.len() + j] == p5[p1.len() + j]);
        assert(p7[p1.len() + j] == p6[p1.len() + j]);
        assert(p8[p1.len() + j] == p7[p1.len() + j]);
        assert(p9[p1.len() + j] == p8[p1.len() + j]);
        assert(p10[p1.len() + j] == p9[p1.len() + j]);
        assert(p11[p1.len() + j] == p10[p1.len() + j]);
        assert(p12[p1.len() + j] == p11[p1.len() + j]);
    }
    assert forall|j: int| 0 <= j < t.2.shrink_models().len() implies t.shrink_models()[p2.len() + j] == (t.0.model(), t.1.model(), #[trigger] t.2.shrink_models()[j], t.3.model(), t.4.model(), t.5.model(), t.6.model(), t.7.model(), t.8.model(), t.9.model(), t.10.model(), t.11.model()) by {
        assert(b2[j] == (t.0.model(), t.1.model(), t.2.shrink_models()[j], t.3.model(), t.4.model(), t.5.model(), t.6.model(), t.7.model(), t.8.model(), t.9.model(), t.10.model(), t.11.model()));
        assert(p3[p2.len() + j] == b2[j]);
        assert(p4[p2.len() + j] == p3[p2.len() + j]);
        assert(p5[p2.len() + j] == p4[p2.len() + j]);
        assert(p6[p2.len() + j] == p5[p2.len() + j]);
        assert(p7[p2.len() + j] == p6[p2.len() + j]);
        assert(p8[p2.len() + j] == p7[p2.len() + j]);
        assert(p9[p2.len() + j] == p8[p2.len() + j]);
        assert(p10[p2.len() + j] == p9[p2.len() + j]);
        assert(p11[p2.len() + j] == p10[p2.len() + j]);
        assert(p12[p2.len() + j] == p11[p2.len() + j]);
    }
    assert forall|j: int| 0 <= j < t.3.shrink_models().len() implies t.shrink_models()[p3.len() + j] == (t.0.model(), t.1.model(), t.2.model(), #[trigger] t.3.shrink_models()[j], t.4.model(), t.5.model(), t.6.model(), t.7.model(), t.8.model(), t.9.model(), t.10.model(), t.11.model()) by {
        assert(b3[j] == (t.0.model(), t.1.model(), t.2.model(), t.3.shrink_models()[j], t.4.model(), t.5.model(), t.6.model(), t.7.model(), t.8.model(), t.9.model(), t.10.model(), t.11.model()));
        assert(p4[p3.len() + j] == b3[j]);
        assert(p5[p3.len() + j] == p4[p3.len() + j]);
        assert(p6[p3.len() + j] == p5[p3.len() + j]);
        assert(p7[p3.len() + j] == p6[p3.len() + j]);
        assert(p8[p3.len() + j] == p7[p3.len() + j]);
        assert(p9[p3.len() + j] == p8[p3.len() + j]);
        assert(p10[p3.len() + j] == p9[p3.len() + j]);
        assert(p11[p3.len() + j] == p10[p3.len() + j]);
        assert(p12[p3.len() + j] == p11[p3.len() + j]);
    }
    assert forall|j: int| 0 <= j < t.4.shrink_models().len() implies t.shrink_models()[p4.len() + j] == (t.0.model(), t.1.model(), t.2.model(), t.3.model(), #[trigger] t.4.shrink_models()[j], t.5.model(), t.6.model(), t.7.model(), t.8.model(), t.9.model(), t.10.model(), t.11.model()) by {
        assert(b4[j] == (t.0.model(), t.1.model(), t.2.model(), t.3.model(), t.4.shrink_models()[j], t.5.model(), t.6.model(), t.7.model(), t.8.model(), t.9.model(), t.10.model(), t.11.model()));
        assert(p5[p4.len() + j] == b4[j]);
        assert(p6[p4.len() + j] == p5[p4.len() + j]);
        assert(p7[p4.len() + j] == p6[p4.len() + j]);
        assert(p8[p4.len() + j] == p7[p4.len() + j]);
        assert(p9[p4.len() + j] == p8[p4.len() + j]);
        assert(p10[p4.len() + j] == p9[p4.len() + j]);
        assert(p11[p4.len() + j] == p10[p4.len() + j]);
        assert(p12[p4.len() + j] == p11[p4.len() + j]);
    }
    assert forall|j: int| 0 <= j < t.5.shrink_models().len() implies t.shrink_models()[p5.len() + j] == (t.0.model(), t.1.model(), t.2.model(), t.3.model(), t.4.model(), #[trigger] t.5.shrink_models()[j], t.6.model(), t.7.model(), t.8.model(), t.9.model(), t.10.model(), t.11.model()) by {
        assert(b5[j] == (t.0.model(), t.1.model(), t.2.model(), t.3.model(), t.4.model(), t.5.shrink_models()[j], t.6.model(), t.7.model(), t.8.model(), t.9.model(), t.10.model(), t.11.model()));
        assert(p6[p5.len() + j] == b5[j]);
        assert(p7[p5.len() + j] == p6[p5.len() + j]);
        assert(p8[p5.len() + j] == p7[p5.len() + j]);
        assert(p9[p5.len() + j] == p8[p5.len() + j]);
        assert(p10[p5.len() + j] == p9[p5.len() + j]);
        assert(p11[p5.len() + j] == p10[p5.len() + j]);
        assert(p12[p5.len() + j] == p11[p5.len() + j]);
    }
    assert forall|j: int| 0 <= j < t.6.shrink_models().len() implies t.shrink_models()[p6.len() + j] == (t.0.model(), t.1.model(), t.2.model(), t.3.model(), t.4.model(), t.5.model(), #[trigger] t.6.shrink_models()[j], t.7.model(), t.8.model(), t.9.model(), t.10.model(), t.11.model()) by {
        assert(b6[j] == (t.0.model(), t.1.model(), t.2.model(), t.3.model(), t.4.model(), t.5.model(), t.6.shrink_models()[j], t.7.model(), t.8.model(), t.9.model(), t.10.model(), t.11.model()));
        assert(p7[p6.len() + j] == b6[j]);
        assert(p8[p6.len() + j] == p7[p6.len() + j]);
        assert(p9[p6.len() + j] == p8[p6.len() + j]);
        assert(p10[p6.len() + j] == p9[p6.len() + j]);
        assert(p11[p6.len() + j] == p10[p6.len() + j]);
        assert(p12[p6.len() + j] == p11[p6.len() + j]);
    }
    assert forall|j: int| 0 <= j < t.7.shrink_models().len() implies t.shrink_models()[p7.len() + j] == (t.0.model(), t.1.model(), t.2.model(), t.3.model(), t.4.model(), t.5.model(), t.6.model(), #[trigger] t.7.shrink_models()[j], t.8.model(), t.9.model(), t.10.model(), t.11.model()) by {
        assert(b7[j] == (t.0.model(), t.1.model(), t.2.model(), t.3.model(), t.4.model(), t.5.model(), t.6.model(), t.7.shrink_models()[j], t.8.model(), t.9.model(), t.10.model(), t.11.model()));
        assert(p8[p7.len() + j] == b7[j]);
        assert(p9[p7.len() + j] == p8[p7.len() + j]);
        assert(p10[p7.len() + j] == p9[p7.len() + j]);
        assert(p11[p7.len() + j] == p10[p7.len() + j]);
        assert(p12[p7.len() + j] == p11[p7.len() + j]);
    }
    assert forall|j: int| 0 <= j < t.8.shrink_models().len() implies t.shrink_models()[p8.len() + j] == (t.0.model(), t.1.model(), t.2.model(), t.3.model(), t.4.model(), t.5.model(), t.6.model(), t.7.model(), #[trigger] t.8.shrink_models()[j], t.9.model(), t.10.model(), t.11.model()) by {
        assert(b8[j] == (t.0.model(), t.1.model(), t.2.model(), t.3.model(), t.4.model(), t.5.model(), t.6.model(), t.7.model(), t.8.shrink_models()[j], t.9.model(), t.10.model(), t.11.model()));
        assert(p9[p8.len() + j] == b8[j]);
        assert(p10[p8.len() + j] == p9[p8.len() + j]);
        assert(p11[p8.len() + j] == p10[p8.len() + j]);
        assert(p12[p8.len() + j] == p11[p8.len() + j]);
    }
    assert forall|j: int| 0 <= j < t.9.shrink_models().len() implies t.shrink_models()[p9.len() + j] == (t.0.model(), t.1.model(), t.2.model(), t.3.model(), t.4.model(), t.5.model(), t.6.model(), t.7.model(), t.8.model(), #[trigger] t.9.shrink_models()[j], t.10.model(), t.11.model()) by {
        assert(b9[j] == (t.0.model(), t.1.model(), t.2.model(), t.3.model(), t.4.model(), t.5.model(), t.6.model(), t.7.model(), t.8.model(), t.9.shrink_models()[j], t.10.model(), t.11.model()));
        assert(p10[p9.len() + j] == b9[j]);
        assert(p11[p9.len() + j] == p10[p9.len() + j]);
        assert(p12[p9.len() + j] == p11[p9.len() + j]);
    }
    assert forall|j: int| 0 <= j < t.10.shrink_models().len() implies t.shrink_models()[p10.len() + j] == (t.0.model(), t.1.model(), t.2.model(), t.3.model(), t.4.model(), t.5.model(), t.6.model(), t.7.model(), t.8.model(), t.9.model(), #[trigger] t.10.shrink_models()[j], t.11.model()) by {
        assert(b10[j] == (t.0.model(), t.1.model(), t.2.model(), t.3.model(), t.4.model(), t.5.model(), t.6.model(), t.7.model(), t.8.model(), t.9.model(), t.10.shrink_models()[j], t.11.model()));
        assert(p11[p10.len() + j] == b10[j]);
        assert(p12[p10.len() + j] == p11[p10.len() + j]);
    }
    assert forall|j: int| 0 <= j < t.11.shrink_models().len() implies t.shrink_models()[p11.len() + j] == (t.0.model(), t.1.model(), t.2.model(), t.3.model(), t.4.model(), t.5.model(), t.6.model(), t.7.model(), t.8.model(), t.9.model(), t.10.model(), #[trigger] t.11.shrink_models()[j]) by {
        assert(b11[j] == (t.0.model(), t.1.model(), t.2.model(), t.3.model(), t.4.model(), t.5.model(), t.6.model(), t.7.model(), t.8.model(), t.9.model(), t.10.model(), t.11.shrink_models()[j]));
        assert(p12[p11.len() + j] == b11[j]);
    }
}

} // verus!
