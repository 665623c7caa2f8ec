use vstd::prelude::*;

use crate::arbitrary::Arbitrary;
use crate::arbitrary_std::{
    generated_all, lemma_generated_all_push, lemma_replacements_differ, lemma_replacements_follow_models, models, replacements,
};
use crate::gen::{extends, Gen, Sample};
use crate::std_ext::array_from_vec;

verus! {

/// The array of the elements of `v`, whose length is `N`.
fn to_array<T, const N: usize>(v: Vec<T>) -> (r: [T; N])
    requires
        v@.len() == N,
    ensures
        r@ == v@,
{
    match array_from_vec(v) {
        Ok(a) => a,
        Err(_) => vstd::pervasive::unreached(),
    }
}

/// Arrays of any length are generated element by element and shrink by
/// shrinking one element at a time.
impl<T: Arbitrary, const N: usize> Arbitrary for [T; N] {
    type Model = Seq<T::Model>;

    open spec fn model(&self) -> Seq<T::Model> {
        models(self@)
    }

    open spec fn obeys_arbitrary() -> bool {
        T::obeys_arbitrary()
    }

    open spec fn shrinks_by_model() -> bool {
        T::shrinks_by_model()
    }

    open spec fn within_size(m: Seq<T::Model>, size: nat) -> bool {
        forall|i: int| 0 <= i < m.len() ==> T::within_size(#[trigger] m[i], size)
    }

    open spec fn generated(size: nat, before: Seq<Sample>, m: Seq<T::Model>, after: Seq<Sample>) -> bool {
        generated_all::<T>(size, before, m, after)
    }

    open spec fn shrink_models(&self) -> Seq<Seq<T::Model>> {
        replacements(self@, N as nat)
    }

    proof fn lemma_shrinks_differ(&self) {
        if Self::shrinks_by_model() {
            lemma_replacements_differ(self@, N as nat);
        }
    }

    proof fn lemma_shrinks_follow_model(a: &[T; N], b: &[T; N]) {
        if Self::shrinks_by_model() {
            lemma_replacements_follow_models(a@, b@, N as nat);
        }
    }

    fn duplicate(&self) -> (r: [T; N]) {
        let mut copies: Vec<T> = Vec::new();
        let mut k: usize = 0;
        while k < N
            invariant
                Self::obeys_arbitrary(),
                k <= N,
                self@.len() == N,
                copies@.len() == k,
                forall|i: int| 0 <= i < k ==> #[trigger] copies@[i].model() == self@[i].model(),
            decreases N - k,
        {
            copies.push(self[k].duplicate());
            k = k + 1;
        }
        let r: [T; N] = to_array(copies);
        assert(models(r@) =~= models(self@));
        r
    }

    fn arbitrary(g: &mut Gen) -> (r: [T; N]) {
        let size = g.size();
        let ghost start = g.samples();
        let mut elems: Vec<T> = Vec::new();
        let mut k: usize = 0;
        while k < N
            invariant
                Self::obeys_arbitrary(),
                k <= N,
                g.spec_size() == size,
                extends(g.samples(), start),
                T::obeys_arbitrary(),
                elems@.len() == k,
                forall|i: int| 0 <= i < k ==> T::within_size(#[trigger] elems@[i].model(), size as nat),
                generated_all::<T>(size as nat, start, models(elems@), g.samples()),
            decreases N - k,
        {
            let ghost cur = g.samples();
            let e = T::arbitrary(g);
            let ghost prev = elems@;
            elems.push(e);
            proof {
                lemma_generated_all_push::<T>(size as nat, start, models(prev), cur, e.model(), g.samples());
                assert(models(elems@) =~= models(prev).push(e.model()));
            }
            k = k + 1;
        }
        to_array(elems)
    }

    fn shrink(&self) -> (r: Vec<[T; N]>) {
        let ghost m = models(self@);
        let mut candidates: Vec<[T; N]> = Vec::new();
        assert(candidates@.map_values(|c: [T; N]| c.model()) =~= replacements(self@, 0));
        let mut i: usize = 0;
        while i < N
            invariant
                Self::obeys_arbitrary(),
                self@.len() == N,
                m == models(self@),
                i <= N,
                T::obeys_arbitrary(),
                candidates@.map_values(|c: [T; N]| c.model()) == replacements(self@, i as nat),
            decreases N - i,
        {
            let smaller = self[i].shrink();
            let ghost before = candidates@.map_values(|c: [T; N]| c.model());
            let ghost options = self@[i as int].shrink_models();
            let mut j: usize = 0;
            while j < smaller.len()
                invariant
                    Self::obeys_arbitrary(),
                    self@.len() == N,
                    m == models(self@),
                    i < N,
                    smaller@.len() == options.len(),
                    forall|k: int| 0 <= k < smaller@.len() ==> #[trigger] smaller@[k].model() == options[k],
                    j <= smaller@.len(),
                    candidates@.map_values(|c: [T; N]| c.model()) == before + options.take(j as int).map_values(
                        |s: T::Model| m.update(i as int, s),
                    ),
                decreases smaller@.len() - j,
            {
                let mut shrunk = self.duplicate();
                let replacement = smaller[j].duplicate();
                shrunk.set(i, replacement);
                assert(shrunk.model() =~= m.update(i as int, options[j as int]));
                let ghost prev = candidates@.map_values(|c: [T; N]| c.model());
                candidates.push(shrunk);
                assert(candidates@.map_values(|c: [T; N]| c.model()) =~= prev.push(m.update(i as int, options[j as int])));
                assert(options.take(j + 1).map_values(|s: T::Model| m.update(i as int, s)) =~= options.take(
                    j as int,
                ).map_values(|s: T::Model| m.update(i as int, s)).push(m.update(i as int, options[j as int])));
                j = j + 1;
            }
            assert(options.take(j as int) =~= options);
            assert(replacements(self@, (i + 1) as nat) == replacements(self@, i as nat) + options.map_values(
                |s: T::Model| m.update(i as int, s),
            ));
            i = i + 1;
        }
        candidates
    }
}

} // verus!
