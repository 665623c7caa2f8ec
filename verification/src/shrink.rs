use vstd::prelude::*;

verus! {

/// Returns no values: the shrink candidates of a value that does not shrink.
pub fn empty_shrinker<T>() -> (r: Vec<T>)
    ensures
        r@ == Seq::<T>::empty(),
{
    Vec::new()
}

/// Chain two lists of shrink candidates: those of `a`, then those of `b`.
pub fn chain<T>(a: Vec<T>, b: Vec<T>) -> (r: Vec<T>)
    ensures
        r@ == a@ + b@,
{
    let mut out = a;
    let mut rest = b;
    out.append(&mut rest);
    out
}

/// The absolute value of an integer.
pub open spec fn abs(x: int) -> nat {
    if x < 0 { (-x) as nat } else { x as nat }
}

/// The candidates that move `x` toward zero by the differences `d`, `d / 2`,
/// `d / 4`, ... (down to, and without, a difference of zero).
pub open spec fn toward_zero_steps(x: int, d: nat) -> Seq<int>
    decreases d,
{
    if d == 0 {
        seq![]
    } else {
        seq![if x < 0 { x + d } else { x - d }] + toward_zero_steps(x, d / 2)
    }
}

/// The shrink candidates of the integer `x` of a type whose least value is
/// `min`: zero first, then `-x` for a negative `x` whose negation fits in the
/// type, then `x` moved toward zero by half its magnitude, a quarter, and so on.
pub open spec fn int_shrinks(x: int, min: int) -> Seq<int> {
    if x == 0 {
        seq![]
    } else {
        seq![0int] + (if x < 0 && min < x { seq![-x] } else { seq![] }) + toward_zero_steps(
            x,
            abs(x) / 2,
        )
    }
}

/// Every step lies between `x` and zero, and differs from `x`.
proof fn lemma_steps_between(x: int, d: nat)
    requires
        d <= abs(x) / 2,
    ensures
        forall|i: int|
            0 <= i < toward_zero_steps(x, d).len() ==> {
                let c = #[trigger] toward_zero_steps(x, d)[i];
                &&& c != x
                &&& (x >= 0 ==> 0 <= c <= x)
                &&& (x < 0 ==> x <= c <= 0)
            },
    decreases d,
{
    if d > 0 {
        lemma_steps_between(x, d / 2);
        let rest = toward_zero_steps(x, d / 2);
        let first = if x < 0 { x + d } else { x - d };
        assert(toward_zero_steps(x, d) == seq![first] + rest);
        assert forall|i: int| 0 < i < toward_zero_steps(x, d).len() implies toward_zero_steps(
            x,
            d,
        )[i] == rest[i - 1] by {}
    }
}

/// Shrinking an integer moves it toward zero: every candidate is no farther
/// from zero than `x` and differs from it, zero comes first, and
/// zero itself has no candidates.
pub proof fn lemma_int_shrinks_toward_zero(x: int, min: int)
    requires
        min <= x,
    ensures
        x == 0 ==> int_shrinks(x, min).len() == 0,
        x != 0 ==> int_shrinks(x, min).len() > 0 && int_shrinks(x, min)[0] == 0,
        forall|i: int|
            0 <= i < int_shrinks(x, min).len() ==> {
                let c = #[trigger] int_shrinks(x, min)[i];
                &&& c != x
                &&& abs(c) <= abs(x)
                &&& (x >= 0 ==> 0 <= c <= x)
                &&& (x < 0 ==> x <= c <= -x)
                &&& (c == -x && x < 0 ==> min < x)
            },
{
    if x != 0 {
        lemma_steps_between(x, abs(x) / 2);
        let neg: Seq<int> = if x < 0 && min < x { seq![-x] } else { seq![] };
        let steps = toward_zero_steps(x, abs(x) / 2);
        let s = int_shrinks(x, min);
        assert(s == seq![0int] + neg + steps);
        assert forall|i: int| 0 <= i < s.len() implies {
            let c = #[trigger] s[i];
            &&& c != x
            &&& abs(c) <= abs(x)
            &&& (x >= 0 ==> 0 <= c <= x)
            &&& (x < 0 ==> x <= c <= -x)
            &&& (c == -x && x < 0 ==> min < x)
        } by {
            if i >= 1 + neg.len() {
                assert(s[i] == steps[i - 1 - neg.len()]);
            } else if i >= 1 {
                assert(s[i] == neg[i - 1]);
            }
        }
    }
}

/// The shrink candidates of an unsigned integer, computed over `u128`.
pub fn shrink_unsigned(x: u128) -> (r: Vec<u128>)
    ensures
        r@.map_values(|c: u128| c as int) == int_shrinks(x as int, 0),
{
    let mut out: Vec<u128> = Vec::new();
    if x == 0 {
        assert(out@.map_values(|c: u128| c as int) =~= int_shrinks(x as int, 0));
        return out;
    }
    out.push(0);
    let mut d: u128 = x / 2;
    assert(out@.map_values(|c: u128| c as int) + toward_zero_steps(x as int, d as nat)
        =~= int_shrinks(x as int, 0));
    while d > 0
        invariant
            d <= x / 2,
            out@.map_values(|c: u128| c as int) + toward_zero_steps(x as int, d as nat)
                == int_shrinks(x as int, 0),
        decreases d,
    {
        let ghost before = out@.map_values(|c: u128| c as int);
        out.push(x - d);
        assert(toward_zero_steps(x as int, d as nat) == seq![x - d] + toward_zero_steps(
            x as int,
            (d / 2) as nat,
        ));
        assert(out@.map_values(|c: u128| c as int) =~= before.push(x - d));
        assert(before.push(x - d) + toward_zero_steps(x as int, (d / 2) as nat) =~= before + (
        seq![x - d] + toward_zero_steps(x as int, (d / 2) as nat)));
        d = d / 2;
    }
    out
}

/// The shrink candidates of a signed integer of a type whose least value is
/// `min`, computed over `i128`.
pub fn shrink_signed(x: i128, min: i128) -> (r: Vec<i128>)
    requires
        min <= x,
        min <= 0,
    ensures
        r@.map_values(|c: i128| c as int) == int_shrinks(x as int, min as int),
{
    let mut out: Vec<i128> = Vec::new();
    if x == 0 {
        assert(out@.map_values(|c: i128| c as int) =~= int_shrinks(x as int, min as int));
        return out;
    }
    out.push(0);
    if x < 0 && min < x {
        out.push(-x);
    }
    let m: u128 = if x < 0 { (-(x + 1)) as u128 + 1 } else { x as u128 };
    assert(m == abs(x as int));
    let mut d: u128 = m / 2;
    assert(out@.map_values(|c: i128| c as int) + toward_zero_steps(x as int, d as nat)
        =~= int_shrinks(x as int, min as int));
    while d > 0
        invariant
            m == abs(x as int),
            x != 0,
            d <= m / 2,
            out@.map_values(|c: i128| c as int) + toward_zero_steps(x as int, d as nat)
                == int_shrinks(x as int, min as int),
        decreases d,
    {
        let ghost before = out@.map_values(|c: i128| c as int);
        let step: i128 = d as i128;
        let c: i128 = if x < 0 { x + step } else { x - step };
        out.push(c);
        assert(toward_zero_steps(x as int, d as nat) == seq![c as int] + toward_zero_steps(
            x as int,
            (d / 2) as nat,
        ));
        assert(out@.map_values(|c: i128| c as int) =~= before.push(c as int));
        assert(before.push(c as int) + toward_zero_steps(x as int, (d / 2) as nat) =~= before + (
        seq![c as int] + toward_zero_steps(x as int, (d / 2) as nat)));
        d = d / 2;
    }
    out
}

} // verus!
