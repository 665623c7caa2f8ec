use vstd::prelude::*;

verus! {

/// `String::push` appends one character, as std documents.
pub assume_specification[ String::push ](s: &mut String, ch: char)
    ensures
        final(s)@ == old(s)@.push(ch),
;

/// `String::push_str` appends a string slice, as std documents.
pub assume_specification[ String::push_str ](s: &mut String, string: &str)
    ensures
        final(s)@ == old(s)@ + string@,
;

/// The conversion of a value into its own type, through std's blanket
/// `impl<T> From<T> for T`, gives the value back, as std documents.
pub assume_specification<X>[ <X as std::convert::From<X>>::from ](x: X) -> (r: X)
    ensures
        r == x,
;

/// `char::from_u32` gives the character of a Unicode scalar value (any value
/// up to `0x10FFFF` outside the surrogates `0xD800..=0xDFFF`), and `None`
/// for every other value, as std documents.
pub assume_specification[ char::from_u32 ](i: u32) -> (r: Option<char>)
    ensures
        r is Some <==> (i < 0xD800 || 0xE000 <= i <= 0x10FFFF),
        r matches Some(c) ==> c as u32 == i,
;

/// Calls `<[T; N]>::try_from` on a vector, which std documents to give the
/// vector's contents as an array exactly when its length is `N`, and to hand
/// the vector back otherwise.
#[verifier::external_body]
pub(crate) fn array_from_vec<T, const N: usize>(v: Vec<T>) -> (r: Result<[T; N], Vec<T>>)
    ensures
        v@.len() == N <==> r is Ok,
        r matches Ok(a) ==> a@ == v@,
{
    <[T; N]>::try_from(v)
}

/// The wrapper of std whose arithmetic wraps around; its one field is public.
#[verifier::external_type_specification]
#[verifier::reject_recursive_types(T)]
pub struct ExWrapping<T>(std::num::Wrapping<T>);

/// The wrapper of std whose arithmetic saturates; its one field is public.
#[verifier::external_type_specification]
#[verifier::reject_recursive_types(T)]
pub struct ExSaturating<T>(std::num::Saturating<T>);

/// `RangeInclusive::start` returns the lower bound, as std documents.
pub assume_specification<Idx>[ std::ops::RangeInclusive::<Idx>::start ](r: &std::ops::RangeInclusive<Idx>) -> (res: &Idx)
    ensures
        *res == r@.start,
;

/// `RangeInclusive::end` returns the upper bound, as std documents.
pub assume_specification<Idx>[ std::ops::RangeInclusive::<Idx>::end ](r: &std::ops::RangeInclusive<Idx>) -> (res: &Idx)
    ensures
        *res == r@.end,
;

/// Whether cloning a `T` always gives back an equal value (`cloned` also
/// counts a value as a clone of itself).
pub open spec fn clones_exactly<T: Clone>() -> bool {
    forall|a: T, b: T| #[trigger] cloned::<T>(a, b) ==> a == b
}

/// Calls `HashSet::clone`, which clones each element into a new set. The
/// claim: when every clone of an element gives back an equal value, the
/// copy holds the same elements. Nothing is claimed otherwise.
#[verifier::external_body]
pub(crate) fn copy_hash_set<T: Clone + Eq + std::hash::Hash>(s: &std::collections::HashSet<T>) -> (r:
    std::collections::HashSet<T>)
    ensures
        clones_exactly::<T>() ==> r@ == s@,
{
    s.clone()
}

/// Calls `BTreeMap::clone`, which clones each key and value into a new map.
/// The claim: when every clone of a key and of a value gives back an equal
/// value, the copy holds the same entries. Nothing is claimed otherwise.
#[verifier::external_body]
pub(crate) fn copy_btree_map<K: Clone + Ord, V: Clone>(m: &std::collections::BTreeMap<K, V>) -> (r:
    std::collections::BTreeMap<K, V>)
    ensures
        clones_exactly::<K>() && clones_exactly::<V>() ==> r@ == m@,
{
    m.clone()
}

} // verus!
