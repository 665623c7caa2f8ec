use vstd::prelude::*;

use crate::gen::{extends, Gen, Sample};

verus! {

/// Trait for generating arbitrary values and shrinking them.
///
/// Each implementing type has a mathematical model (`model`) by which its
/// contracts speak of values: integers by their value, vectors by the
/// sequence of the models of their elements, and so on.
pub trait Arbitrary: std::fmt::Debug + Sized + 'static {
    /// The mathematical model of a value.
    type Model;

    /// The model of this value.
    spec fn model(&self) -> Self::Model;

    /// Whether the contracts of `duplicate`, `arbitrary` and `shrink` apply
    /// to this type. They do for every type but maps and sets, whose
    /// contracts in vstd hold only for keys that obey its key model (or its
    /// model of `Ord`) and, where they are cloned, clone exactly.
    spec fn obeys_arbitrary() -> bool;

    /// Whether the two laws of shrinking below are claimed for this type.
    /// They are for every type but the maps and sets, whose candidates follow
    /// the order in which they are walked: vstd names that order only as the
    /// walk's own, not as a matter of the contents.
    spec fn shrinks_by_model() -> bool;

    /// Whether a value of this model respects a generator size: generated
    /// values always do.
    spec fn within_size(m: Self::Model, size: nat) -> bool;

    /// Whether generating a value of model `m` at generator size `size` can
    /// make the draws that take the generator's history of samples from
    /// `before` to `after`.
    spec fn generated(size: nat, before: Seq<Sample>, m: Self::Model, after: Seq<Sample>) -> bool;

    /// The models of the shrink candidates of this value, in the order in
    /// which `shrink` returns them.
    spec fn shrink_models(&self) -> Seq<Self::Model>;

    /// Shrinking makes progress: no shrink candidate has the model of the
    /// value it comes from.
    proof fn lemma_shrinks_differ(&self)
        ensures
            Self::shrinks_by_model() ==> forall|i: int|
                0 <= i < self.shrink_models().len() ==> #[trigger] self.shrink_models()[i]
                    != self.model(),
    ;

    /// Shrinking depends only on the model: values with one model have the
    /// same shrink candidates.
    proof fn lemma_shrinks_follow_model(a: &Self, b: &Self)
        requires
            a.model() == b.model(),
        ensures
            Self::shrinks_by_model() ==> a.shrink_models() == b.shrink_models(),
    ;

    /// A copy of this value with the same model, from which shrink
    /// candidates are built (a `clone` serves for most types).
    fn duplicate(&self) -> (r: Self)
        requires
            Self::obeys_arbitrary(),
        ensures
            r.model() == self.model(),
    ;

    /// Generate an arbitrary value using the given generator. The draws it
    /// makes are added after those made before.
    fn arbitrary(g: &mut Gen) -> (r: Self)
        requires
            Self::obeys_arbitrary(),
        ensures
            Self::within_size(r.model(), old(g).spec_size() as nat),
            final(g).spec_size() == old(g).spec_size(),
            extends(final(g).samples(), old(g).samples()),
            Self::generated(old(g).spec_size() as nat, old(g).samples(), r.model(), final(g).samples()),
    ;

    /// Return values that are "smaller" than `self`, used to find minimal
    /// counterexamples when a property fails.
    fn shrink(&self) -> (r: Vec<Self>)
        requires
            Self::obeys_arbitrary(),
        ensures
            r@.len() == self.shrink_models().len(),
            forall|i: int| 0 <= i < r@.len() ==> #[trigger] r@[i].model() == self.shrink_models()[i],
    ;
}

} // verus!
