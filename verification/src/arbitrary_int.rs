use vstd::prelude::*;

use crate::arbitrary::Arbitrary;
use crate::gen::{range_draw, Gen, Sample};
use crate::shrink::{int_shrinks, lemma_int_shrinks_toward_zero, shrink_signed, shrink_unsigned};

verus! {

/// The largest value drawn for an integer type whose maximum is `max`, at
/// generator size `size`: the size, capped at the maximum.
pub open spec fn int_draw_high(size: int, max: int) -> int {
    if size >= max {
        max
    } else {
        size
    }
}

/// The smallest value drawn for a signed integer type whose maximum is `max`,
/// at generator size `size`: minus the size, or the type's minimum once the
/// size reaches the maximum.
pub open spec fn int_draw_low(size: int, max: int) -> int {
    if size >= max {
        -max - 1
    } else {
        -size
    }
}

/// Unsigned integers are generated between zero and the generator size
/// (capped at the type's maximum) and shrink toward zero.
impl Arbitrary for u8 {
    type Model = int;

    open spec fn model(&self) -> int {
        *self as int
    }

    open spec fn obeys_arbitrary() -> bool {
        true
    }

    open spec fn shrinks_by_model() -> bool {
        true
    }

    open spec fn within_size(m: int, size: nat) -> bool {
        m <= size
    }

    open spec fn generated(size: nat, before: Seq<Sample>, m: int, after: Seq<Sample>) -> bool {
        after == before.push(range_draw(0, int_draw_high(size as int, u8::MAX as int), m))
    }

    open spec fn shrink_models(&self) -> Seq<int> {
        int_shrinks(*self as int, 0)
    }

    proof fn lemma_shrinks_differ(&self) {
        if Self::shrinks_by_model() {
            lemma_int_shrinks_toward_zero(*self as int, 0);
        }
    }

    proof fn lemma_shrinks_follow_model(a: &u8, b: &u8) {
    }

    fn duplicate(&self) -> (r: u8) {
        *self
    }

    fn arbitrary(g: &mut Gen) -> (r: u8)
        ensures
            final(g).samples() == old(g).samples().push(
                range_draw(0, int_draw_high(old(g).spec_size() as int, u8::MAX as int), r as int),
            ),
    {
        let s = g.size();
        let upper: u8 = if s >= u8::MAX as usize { u8::MAX } else { s as u8 };
        g.gen_range(0, upper as i128) as u8
    }

    fn shrink(&self) -> (r: Vec<u8>) {
        let x = *self;
        let wide = shrink_unsigned(x as u128);
        proof {
            lemma_int_shrinks_toward_zero(x as int, 0);
        }
        let ghost target = int_shrinks(x as int, 0);
        let mut out: Vec<u8> = Vec::new();
        let mut k: usize = 0;
        while k < wide.len()
            invariant
                k <= wide@.len(),
                wide@.len() == target.len(),
                forall|i: int| 0 <= i < wide@.len() ==> #[trigger] wide@[i] as int == target[i],
                forall|i: int| 0 <= i < target.len() ==> 0 <= #[trigger] target[i] <= x,
                out@.len() == k,
                forall|i: int| 0 <= i < k ==> #[trigger] out@[i] as int == target[i],
            decreases wide@.len() - k,
        {
            assert(0 <= target[k as int] <= x);
            out.push(wide[k] as u8);
            k = k + 1;
        }
        out
    }
}

/// Unsigned integers are generated between zero and the generator size
/// (capped at the type's maximum) and shrink toward zero.
impl Arbitrary for u16 {
    type Model = int;

    open spec fn model(&self) -> int {
        *self as int
    }

    open spec fn obeys_arbitrary() -> bool {
        true
    }

    open spec fn shrinks_by_model() -> bool {
        true
    }

    open spec fn within_size(m: int, size: nat) -> bool {
        m <= size
    }

    open spec fn generated(size: nat, before: Seq<Sample>, m: int, after: Seq<Sample>) -> bool {
        after == before.push(range_draw(0, int_draw_high(size as int, u16::MAX as int), m))
    }

    open spec fn shrink_models(&self) -> Seq<int> {
        int_shrinks(*self as int, 0)
    }

    proof fn lemma_shrinks_differ(&self) {
        if Self::shrinks_by_model() {
            lemma_int_shrinks_toward_zero(*self as int, 0);
        }
    }

    proof fn lemma_shrinks_follow_model(a: &u16, b: &u16) {
    }

    fn duplicate(&self) -> (r: u16) {
        *self
    }

    fn arbitrary(g: &mut Gen) -> (r: u16)
        ensures
            final(g).samples() == old(g).samples().push(
                range_draw(0, int_draw_high(old(g).spec_size() as int, u16::MAX as int), r as int),
            ),
    {
        let s = g.size();
        let upper: u16 = if s >= u16::MAX as usize { u16::MAX } else { s as u16 };
        g.gen_range(0, upper as i128) as u16
    }

    fn shrink(&self) -> (r: Vec<u16>) {
        let x = *self;
        let wide = shrink_unsigned(x as u128);
        proof {
            lemma_int_shrinks_toward_zero(x as int, 0);
        }
        let ghost target = int_shrinks(x as int, 0);
        let mut out: Vec<u16> = Vec::new();
        let mut k: usize = 0;
        while k < wide.len()
            invariant
                k <= wide@.len(),
                wide@.len() == target.len(),
                forall|i: int| 0 <= i < wide@.len() ==> #[trigger] wide@[i] as int == target[i],
                forall|i: int| 0 <= i < target.len() ==> 0 <= #[trigger] target[i] <= x,
                out@.len() == k,
                forall|i: int| 0 <= i < k ==> #[trigger] out@[i] as int == target[i],
            decreases wide@.len() - k,
        {
            assert(0 <= target[k as int] <= x);
            out.push(wide[k] as u16);
            k = k + 1;
        }
        out
    }
}

/// Unsigned integers are generated between zero and the generator size
/// (capped at the type's maximum) and shrink toward zero.
impl Arbitrary for u32 {
    type Model = int;

    open spec fn model(&self) -> int {
        *self as int
    }

    open spec fn obeys_arbitrary() -> bool {
        true
    }

    open spec fn shrinks_by_model() -> bool {
        true
    }

    open spec fn within_size(m: int, size: nat) -> bool {
        m <= size
    }

    open spec fn generated(size: nat, before: Seq<Sample>, m: int, after: Seq<Sample>) -> bool {
        after == before.push(range_draw(0, int_draw_high(size as int, u32::MAX as int), m))
    }

    open spec fn shrink_models(&self) -> Seq<int> {
        int_shrinks(*self as int, 0)
    }

    proof fn lemma_shrinks_differ(&self) {
        if Self::shrinks_by_model() {
            lemma_int_shrinks_toward_zero(*self as int, 0);
        }
    }

    proof fn lemma_shrinks_follow_model(a: &u32, b: &u32) {
    }

    fn duplicate(&self) -> (r: u32) {
        *self
    }

    fn arbitrary(g: &mut Gen) -> (r: u32)
        ensures
            final(g).samples() == old(g).samples().push(
                range_draw(0, int_draw_high(old(g).spec_size() as int, u32::MAX as int), r as int),
            ),
    {
        let s = g.size();
        let upper: u32 = if s >= u32::MAX as usize { u32::MAX } else { s as u32 };
        g.gen_range(0, upper as i128) as u32
    }

    fn shrink(&self) -> (r: Vec<u32>) {
        let x = *self;
        let wide = shrink_unsigned(x as u128);
        proof {
            lemma_int_shrinks_toward_zero(x as int, 0);
        }
        let ghost target = int_shrinks(x as int, 0);
        let mut out: Vec<u32> = Vec::new();
        let mut k: usize = 0;
        while k < wide.len()
            invariant
                k <= wide@.len(),
                wide@.len() == target.len(),
                forall|i: int| 0 <= i < wide@.len() ==> #[trigger] wide@[i] as int == target[i],
                forall|i: int| 0 <= i < target.len() ==> 0 <= #[trigger] target[i] <= x,
                out@.len() == k,
                forall|i: int| 0 <= i < k ==> #[trigger] out@[i] as int == target[i],
            decreases wide@.len() - k,
        {
            assert(0 <= target[k as int] <= x);
            out.push(wide[k] as u32);
            k = k + 1;
        }
        out
    }
}

/// Unsigned integers are generated between zero and the generator size
/// (capped at the type's maximum) and shrink toward zero.
impl Arbitrary for u64 {
    type Model = int;

    open spec fn model(&self) -> int {
        *self as int
    }

    open spec fn obeys_arbitrary() -> bool {
        true
    }

    open spec fn shrinks_by_model() -> bool {
        true
    }

    open spec fn within_size(m: int, size: nat) -> bool {
        m <= size
    }

    open spec fn generated(size: nat, before: Seq<Sample>, m: int, after: Seq<Sample>) -> bool {
        after == before.push(range_draw(0, int_draw_high(size as int, u64::MAX as int), m))
    }

    open spec fn shrink_models(&self) -> Seq<int> {
        int_shrinks(*self as int, 0)
    }

    proof fn lemma_shrinks_differ(&self) {
        if Self::shrinks_by_model() {
            lemma_int_shrinks_toward_zero(*self as int, 0);
        }
    }

    proof fn lemma_shrinks_follow_model(a: &u64, b: &u64) {
    }

    fn duplicate(&self) -> (r: u64) {
        *self
    }

    fn arbitrary(g: &mut Gen) -> (r: u64)
        ensures
            final(g).samples() == old(g).samples().push(
                range_draw(0, int_draw_high(old(g).spec_size() as int, u64::MAX as int), r as int),
            ),
    {
        let s = g.size();
        let upper: u64 = s as u64;
        g.gen_range(0, upper as i128) as u64
    }

    fn shrink(&self) -> (r: Vec<u64>) {
        let x = *self;
        let wide = shrink_unsigned(x as u128);
        proof {
            lemma_int_shrinks_toward_zero(x as int, 0);
        }
        let ghost target = int_shrinks(x as int, 0);
        let mut out: Vec<u64> = Vec::new();
        let mut k: usize = 0;
        while k < wide.len()
            invariant
                k <= wide@.len(),
                wide@.len() == target.len(),
                forall|i: int| 0 <= i < wide@.len() ==> #[trigger] wide@[i] as int == target[i],
                forall|i: int| 0 <= i < target.len() ==> 0 <= #[trigger] target[i] <= x,
                out@.len() == k,
                forall|i: int| 0 <= i < k ==> #[trigger] out@[i] as int == target[i],
            decreases wide@.len() - k,
        {
            assert(0 <= target[k as int] <= x);
            out.push(wide[k] as u64);
            k = k + 1;
        }
        out
    }
}

/// Unsigned integers are generated between zero and the generator size
/// (capped at the type's maximum) and shrink toward zero.
impl Arbitrary for u128 {
    type Model = int;

    open spec fn model(&self) -> int {
        *self as int
    }

    open spec fn obeys_arbitrary() -> bool {
        true
    }

    open spec fn shrinks_by_model() -> bool {
        true
    }

    open spec fn within_size(m: int, size: nat) -> bool {
        m <= size
    }

    open spec fn generated(size: nat, before: Seq<Sample>, m: int, after: Seq<Sample>) -> bool {
        after == before.push(range_draw(0, int_draw_high(size as int, u128::MAX as int), m))
    }

    open spec fn shrink_models(&self) -> Seq<int> {
        int_shrinks(*self as int, 0)
    }

    proof fn lemma_shrinks_differ(&self) {
        if Self::shrinks_by_model() {
            lemma_int_shrinks_toward_zero(*self as int, 0);
        }
    }

    proof fn lemma_shrinks_follow_model(a: &u128, b: &u128) {
    }

    fn duplicate(&self) -> (r: u128) {
        *self
    }

    fn arbitrary(g: &mut Gen) -> (r: u128)
        ensures
            final(g).samples() == old(g).samples().push(
                range_draw(0, int_draw_high(old(g).spec_size() as int, u128::MAX as int), r as int),
            ),
    {
        let s = g.size();
        let upper: u128 = s as u128;
        g.gen_range(0, upper as i128) as u128
    }

    fn shrink(&self) -> (r: Vec<u128>) {
        let x = *self;
        let wide = shrink_unsigned(x as u128);
        proof {
            lemma_int_shrinks_toward_zero(x as int, 0);
        }
        let ghost target = int_shrinks(x as int, 0);
        let mut out: Vec<u128> = Vec::new();
        let mut k: usize = 0;
        while k < wide.len()
            invariant
                k <= wide@.len(),
                wide@.len() == target.len(),
                forall|i: int| 0 <= i < wide@.len() ==> #[trigger] wide@[i] as int == target[i],
                forall|i: int| 0 <= i < target.len() ==> 0 <= #[trigger] target[i] <= x,
                out@.len() == k,
                forall|i: int| 0 <= i < k ==> #[trigger] out@[i] as int == target[i],
            decreases wide@.len() - k,
        {
            assert(0 <= target[k as int] <= x);
            out.push(wide[k] as u128);
            k = k + 1;
        }
        out
    }
}

/// Unsigned integers are generated between zero and the generator size
/// (capped at the type's maximum) and shrink toward zero.
impl Arbitrary for usize {
    type Model = int;

    open spec fn model(&self) -> int {
        *self as int
    }

    open spec fn obeys_arbitrary() -> bool {
        true
    }

    open spec fn shrinks_by_model() -> bool {
        true
    }

    open spec fn within_size(m: int, size: nat) -> bool {
        m <= size
    }

    open spec fn generated(size: nat, before: Seq<Sample>, m: int, after: Seq<Sample>) -> bool {
        after == before.push(range_draw(0, int_draw_high(size as int, usize::MAX as int), m))
    }

    open spec fn shrink_models(&self) -> Seq<int> {
        int_shrinks(*self as int, 0)
    }

    proof fn lemma_shrinks_differ(&self) {
        if Self::shrinks_by_model() {
            lemma_int_shrinks_toward_zero(*self as int, 0);
        }
    }

    proof fn lemma_shrinks_follow_model(a: &usize, b: &usize) {
    }

    fn duplicate(&self) -> (r: usize) {
        *self
    }

    fn arbitrary(g: &mut Gen) -> (r: usize)
        ensures
            final(g).samples() == old(g).samples().push(
                range_draw(0, int_draw_high(old(g).spec_size() as int, usize::MAX as int), r as int),
            ),
    {
        let s = g.size();
        let upper: usize = s;
        g.gen_range(0, upper as i128) as usize
    }

    fn shrink(&self) -> (r: Vec<usize>) {
        let x = *self;
        let wide = shrink_unsigned(x as u128);
        proof {
            lemma_int_shrinks_toward_zero(x as int, 0);
        }
        let ghost target = int_shrinks(x as int, 0);
        let mut out: Vec<usize> = Vec::new();
        let mut k: usize = 0;
        while k < wide.len()
            invariant
                k <= wide@.len(),
                wide@.len() == target.len(),
                forall|i: int| 0 <= i < wide@.len() ==> #[trigger] wide@[i] as int == target[i],
                forall|i: int| 0 <= i < target.len() ==> 0 <= #[trigger] target[i] <= x,
                out@.len() == k,
                forall|i: int| 0 <= i < k ==> #[trigger] out@[i] as int == target[i],
            decreases wide@.len() - k,
        {
            assert(0 <= target[k as int] <= x);
            out.push(wide[k] as usize);
            k = k + 1;
        }
        out
    }
}

/// Signed integers are generated between minus and plus the generator size
/// (the whole type once the size reaches its maximum) and shrink toward
/// zero.
impl Arbitrary for i8 {
    type Model = int;

    open spec fn model(&self) -> int {
        *self as int
    }

    open spec fn obeys_arbitrary() -> bool {
        true
    }

    open spec fn shrinks_by_model() -> bool {
        true
    }

    open spec fn within_size(m: int, size: nat) -> bool {
        size >= i8::MAX || -size <= m <= size
    }

    open spec fn generated(size: nat, before: Seq<Sample>, m: int, after: Seq<Sample>) -> bool {
        after == before.push(
            range_draw(int_draw_low(size as int, i8::MAX as int), int_draw_high(size as int, i8::MAX as int), m),
        )
    }

    open spec fn shrink_models(&self) -> Seq<int> {
        int_shrinks(*self as int, i8::MIN as int)
    }

    proof fn lemma_shrinks_differ(&self) {
        if Self::shrinks_by_model() {
            lemma_int_shrinks_toward_zero(*self as int, i8::MIN as int);
        }
    }

    proof fn lemma_shrinks_follow_model(a: &i8, b: &i8) {
    }

    fn duplicate(&self) -> (r: i8) {
        *self
    }

    fn arbitrary(g: &mut Gen) -> (r: i8)
        ensures
            final(g).samples() == old(g).samples().push(
                range_draw(
                    int_draw_low(old(g).spec_size() as int, i8::MAX as int),
                    int_draw_high(old(g).spec_size() as int, i8::MAX as int),
                    r as int,
                ),
            ),
    {
        let s = g.size();
        let upper: i8 = if s as u128 >= i8::MAX as u128 { i8::MAX } else { s as i8 };
        let lower: i8 = if upper == i8::MAX { i8::MIN } else { -upper };
        g.gen_range(lower as i128, upper as i128) as i8
    }

    fn shrink(&self) -> (r: Vec<i8>) {
        let x = *self;
        let wide = shrink_signed(x as i128, i8::MIN as i128);
        proof {
            lemma_int_shrinks_toward_zero(x as int, i8::MIN as int);
        }
        let ghost target = int_shrinks(x as int, i8::MIN as int);
        let mut out: Vec<i8> = Vec::new();
        let mut k: usize = 0;
        while k < wide.len()
            invariant
                k <= wide@.len(),
                wide@.len() == target.len(),
                forall|i: int| 0 <= i < wide@.len() ==> #[trigger] wide@[i] as int == target[i],
                forall|i: int|
                    0 <= i < target.len() ==> i8::MIN <= #[trigger] target[i] <= i8::MAX,
                out@.len() == k,
                forall|i: int| 0 <= i < k ==> #[trigger] out@[i] as int == target[i],
            decreases wide@.len() - k,
        {
            assert(i8::MIN <= target[k as int] <= i8::MAX);
            out.push(wide[k] as i8);
            k = k + 1;
        }
        out
    }
}

/// Signed integers are generated between minus and plus the generator size
/// (the whole type once the size reaches its maximum) and shrink toward
/// zero.
impl Arbitrary for i16 {
    type Model = int;

    open spec fn model(&self) -> int {
        *self as int
    }

    open spec fn obeys_arbitrary() -> bool {
        true
    }

    open spec fn shrinks_by_model() -> bool {
        true
    }

    open spec fn within_size(m: int, size: nat) -> bool {
        size >= i16::MAX || -size <= m <= size
    }

    open spec fn generated(size: nat, before: Seq<Sample>, m: int, after: Seq<Sample>) -> bool {
        after == before.push(
            range_draw(int_draw_low(size as int, i16::MAX as int), int_draw_high(size as int, i16::MAX as int), m),
        )
    }

    open spec fn shrink_models(&self) -> Seq<int> {
        int_shrinks(*self as int, i16::MIN as int)
    }

    proof fn lemma_shrinks_differ(&self) {
        if Self::shrinks_by_model() {
            lemma_int_shrinks_toward_zero(*self as int, i16::MIN as int);
        }
    }

    proof fn lemma_shrinks_follow_model(a: &i16, b: &i16) {
    }

    fn duplicate(&self) -> (r: i16) {
        *self
    }

    fn arbitrary(g: &mut Gen) -> (r: i16)
        ensures
            final(g).samples() == old(g).samples().push(
                range_draw(
                    int_draw_low(old(g).spec_size() as int, i16::MAX as int),
                    int_draw_high(old(g).spec_size() as int, i16::MAX as int),
                    r as int,
                ),
            ),
    {
        let s = g.size();
        let upper: i16 = if s as u128 >= i16::MAX as u128 { i16::MAX } else { s as i16 };
        let lower: i16 = if upper == i16::MAX { i16::MIN } else { -upper };
        g.gen_range(lower as i128, upper as i128) as i16
    }

    fn shrink(&self) -> (r: Vec<i16>) {
        let x = *self;
        let wide = shrink_signed(x as i128, i16::MIN as i128);
        proof {
            lemma_int_shrinks_toward_zero(x as int, i16::MIN as int);
        }
        let ghost target = int_shrinks(x as int, i16::MIN as int);
        let mut out: Vec<i16> = Vec::new();
        let mut k: usize = 0;
        while k < wide.len()
            invariant
                k <= wide@.len(),
                wide@.len() == target.len(),
                forall|i: int| 0 <= i < wide@.len() ==> #[trigger] wide@[i] as int == target[i],
                forall|i: int|
                    0 <= i < target.len() ==> i16::MIN <= #[trigger] target[i] <= i16::MAX,
                out@.len() == k,
                forall|i: int| 0 <= i < k ==> #[trigger] out@[i] as int == target[i],
            decreases wide@.len() - k,
        {
            assert(i16::MIN <= target[k as int] <= i16::MAX);
            out.push(wide[k] as i16);
            k = k + 1;
        }
        out
    }
}

/// Signed integers are generated between minus and plus the generator size
/// (the whole type once the size reaches its maximum) and shrink toward
/// zero.
impl Arbitrary for i32 {
    type Model = int;

    open spec fn model(&self) -> int {
        *self as int
    }

    open spec fn obeys_arbitrary() -> bool {
        true
    }

    open spec fn shrinks_by_model() -> bool {
        true
    }

    open spec fn within_size(m: int, size: nat) -> bool {
        size >= i32::MAX || -size <= m <= size
    }

    open spec fn generated(size: nat, before: Seq<Sample>, m: int, after: Seq<Sample>) -> bool {
        after == before.push(
            range_draw(int_draw_low(size as int, i32::MAX as int), int_draw_high(size as int, i32::MAX as int), m),
        )
    }

    open spec fn shrink_models(&self) -> Seq<int> {
        int_shrinks(*self as int, i32::MIN as int)
    }

    proof fn lemma_shrinks_differ(&self) {
        if Self::shrinks_by_model() {
            lemma_int_shrinks_toward_zero(*self as int, i32::MIN as int);
        }
    }

    proof fn lemma_shrinks_follow_model(a: &i32, b: &i32) {
    }

    fn duplicate(&self) -> (r: i32) {
        *self
    }

    fn arbitrary(g: &mut Gen) -> (r: i32)
        ensures
            final(g).samples() == old(g).samples().push(
                range_draw(
                    int_draw_low(old(g).spec_size() as int, i32::MAX as int),
                    int_draw_high(old(g).spec_size() as int, i32::MAX as int),
                    r as int,
                ),
            ),
    {
        let s = g.size();
        let upper: i32 = if s as u128 >= i32::MAX as u128 { i32::MAX } else { s as i32 };
        let lower: i32 = if upper == i32::MAX { i32::MIN } else { -upper };
        g.gen_range(lower as i128, upper as i128) as i32
    }

    fn shrink(&self) -> (r: Vec<i32>) {
        let x = *self;
        let wide = shrink_signed(x as i128, i32::MIN as i128);
        proof {
            lemma_int_shrinks_toward_zero(x as int, i32::MIN as int);
        }
        let ghost target = int_shrinks(x as int, i32::MIN as int);
        let mut out: Vec<i32> = Vec::new();
        let mut k: usize = 0;
        while k < wide.len()
            invariant
                k <= wide@.len(),
                wide@.len() == target.len(),
                forall|i: int| 0 <= i < wide@.len() ==> #[trigger] wide@[i] as int == target[i],
                forall|i: int|
                    0 <= i < target.len() ==> i32::MIN <= #[trigger] target[i] <= i32::MAX,
                out@.len() == k,
                forall|i: int| 0 <= i < k ==> #[trigger] out@[i] as int == target[i],
            decreases wide@.len() - k,
        {
            assert(i32::MIN <= target[k as int] <= i32::MAX);
            out.push(wide[k] as i32);
            k = k + 1;
        }
        out
    }
}

/// Signed integers are generated between minus and plus the generator size
/// (the whole type once the size reaches its maximum) and shrink toward
/// zero.
impl Arbitrary for i64 {
    type Model = int;

    open spec fn model(&self) -> int {
        *self as int
    }

    open spec fn obeys_arbitrary() -> bool {
        true
    }

    open spec fn shrinks_by_model() -> bool {
        true
    }

    open spec fn within_size(m: int, size: nat) -> bool {
        size >= i64::MAX || -size <= m <= size
    }

    open spec fn generated(size: nat, before: Seq<Sample>, m: int, after: Seq<Sample>) -> bool {
        after == before.push(
            range_draw(int_draw_low(size as int, i64::MAX as int), int_draw_high(size as int, i64::MAX as int), m),
        )
    }

    open spec fn shrink_models(&self) -> Seq<int> {
        int_shrinks(*self as int, i64::MIN as int)
    }

    proof fn lemma_shrinks_differ(&self) {
        if Self::shrinks_by_model() {
            lemma_int_shrinks_toward_zero(*self as int, i64::MIN as int);
        }
    }

    proof fn lemma_shrinks_follow_model(a: &i64, b: &i64) {
    }

    fn duplicate(&self) -> (r: i64) {
        *self
    }

    fn arbitrary(g: &mut Gen) -> (r: i64)
        ensures
            final(g).samples() == old(g).samples().push(
                range_draw(
                    int_draw_low(old(g).spec_size() as int, i64::MAX as int),
                    int_draw_high(old(g).spec_size() as int, i64::MAX as int),
                    r as int,
                ),
            ),
    {
        let s = g.size();
        let upper: i64 = if s as u128 >= i64::MAX as u128 { i64::MAX } else { s as i64 };
        let lower: i64 = if upper == i64::MAX { i64::MIN } else { -upper };
        g.gen_range(lower as i128, upper as i128) as i64
    }

    fn shrink(&self) -> (r: Vec<i64>) {
        let x = *self;
        let wide = shrink_signed(x as i128, i64::MIN as i128);
        proof {
            lemma_int_shrinks_toward_zero(x as int, i64::MIN as int);
        }
        let ghost target = int_shrinks(x as int, i64::MIN as int);
        let mut out: Vec<i64> = Vec::new();
        let mut k: usize = 0;
        while k < wide.len()
            invariant
                k <= wide@.len(),
                wide@.len() == target.len(),
                forall|i: int| 0 <= i < wide@.len() ==> #[trigger] wide@[i] as int == target[i],
                forall|i: int|
                    0 <= i < target.len() ==> i64::MIN <= #[trigger] target[i] <= i64::MAX,
                out@.len() == k,
                forall|i: int| 0 <= i < k ==> #[trigger] out@[i] as int == target[i],
            decreases wide@.len() - k,
        {
            assert(i64::MIN <= target[k as int] <= i64::MAX);
            out.push(wide[k] as i64);
            k = k + 1;
        }
        out
    }
}

/// Signed integers are generated between minus and plus the generator size
/// (the whole type once the size reaches its maximum) and shrink toward
/// zero.
impl Arbitrary for i128 {
    type Model = int;

    open spec fn model(&self) -> int {
        *self as int
    }

    open spec fn obeys_arbitrary() -> bool {
        true
    }

    open spec fn shrinks_by_model() -> bool {
        true
    }

    open spec fn within_size(m: int, size: nat) -> bool {
        size >= i128::MAX || -size <= m <= size
    }

    open spec fn generated(size: nat, before: Seq<Sample>, m: int, after: Seq<Sample>) -> bool {
        after == before.push(
            range_draw(int_draw_low(size as int, i128::MAX as int), int_draw_high(size as int, i128::MAX as int), m),
        )
    }

    open spec fn shrink_models(&self) -> Seq<int> {
        int_shrinks(*self as int, i128::MIN as int)
    }

    proof fn lemma_shrinks_differ(&self) {
        if Self::shrinks_by_model() {
            lemma_int_shrinks_toward_zero(*self as int, i128::MIN as int);
        }
    }

    proof fn lemma_shrinks_follow_model(a: &i128, b: &i128) {
    }

    fn duplicate(&self) -> (r: i128) {
        *self
    }

    fn arbitrary(g: &mut Gen) -> (r: i128)
        ensures
            final(g).samples() == old(g).samples().push(
                range_draw(
                    int_draw_low(old(g).spec_size() as int, i128::MAX as int),
                    int_draw_high(old(g).spec_size() as int, i128::MAX as int),
                    r as int,
                ),
            ),
    {
        let s = g.size();
        let upper: i128 = s as i128;
        let lower: i128 = -upper;
        g.gen_range(lower as i128, upper as i128) as i128
    }

    fn shrink(&self) -> (r: Vec<i128>) {
        let x = *self;
        let wide = shrink_signed(x as i128, i128::MIN as i128);
        proof {
            lemma_int_shrinks_toward_zero(x as int, i128::MIN as int);
        }
        let ghost target = int_shrinks(x as int, i128::MIN as int);
        let mut out: Vec<i128> = Vec::new();
        let mut k: usize = 0;
        while k < wide.len()
            invariant
                k <= wide@.len(),
                wide@.len() == target.len(),
                forall|i: int| 0 <= i < wide@.len() ==> #[trigger] wide@[i] as int == target[i],
                forall|i: int|
                    0 <= i < target.len() ==> i128::MIN <= #[trigger] target[i] <= i128::MAX,
                out@.len() == k,
                forall|i: int| 0 <= i < k ==> #[trigger] out@[i] as int == target[i],
            decreases wide@.len() - k,
        {
            assert(i128::MIN <= target[k as int] <= i128::MAX);
            out.push(wide[k] as i128);
            k = k + 1;
        }
        out
    }
}

/// Signed integers are generated between minus and plus the generator size
/// (the whole type once the size reaches its maximum) and shrink toward
/// zero.
impl Arbitrary for isize {
    type Model = int;

    open spec fn model(&self) -> int {
        *self as int
    }

    open spec fn obeys_arbitrary() -> bool {
        true
    }

    open spec fn shrinks_by_model() -> bool {
        true
    }

    open spec fn within_size(m: int, size: nat) -> bool {
        size >= isize::MAX || -size <= m <= size
    }

    open spec fn generated(size: nat, before: Seq<Sample>, m: int, after: Seq<Sample>) -> bool {
        after == before.push(
            range_draw(int_draw_low(size as int, isize::MAX as int), int_draw_high(size as int, isize::MAX as int), m),
        )
    }

    open spec fn shrink_models(&self) -> Seq<int> {
        int_shrinks(*self as int, isize::MIN as int)
    }

    proof fn lemma_shrinks_differ(&self) {
        if Self::shrinks_by_model() {
            lemma_int_shrinks_toward_zero(*self as int, isize::MIN as int);
        }
    }

    proof fn lemma_shrinks_follow_model(a: &isize, b: &isize) {
    }

    fn duplicate(&self) -> (r: isize) {
        *self
    }

    fn arbitrary(g: &mut Gen) -> (r: isize)
        ensures
            final(g).samples() == old(g).samples().push(
                range_draw(
                    int_draw_low(old(g).spec_size() as int, isize::MAX as int),
                    int_draw_high(old(g).spec_size() as int, isize::MAX as int),
                    r as int,
                ),
            ),
    {
        let s = g.size();
        let upper: isize = if s as u128 >= isize::MAX as u128 { isize::MAX } else { s as isize };
        let lower: isize = if upper == isize::MAX { isize::MIN } else { -upper };
        g.gen_range(lower as i128, upper as i128) as isize
    }

    fn shrink(&self) -> (r: Vec<isize>) {
        let x = *self;
        let wide = shrink_signed(x as i128, isize::MIN as i128);
        proof {
            lemma_int_shrinks_toward_zero(x as int, isize::MIN as int);
        }
        let ghost target = int_shrinks(x as int, isize::MIN as int);
        let mut out: Vec<isize> = Vec::new();
        let mut k: usize = 0;
        while k < wide.len()
            invariant
                k <= wide@.len(),
                wide@.len() == target.len(),
                forall|i: int| 0 <= i < wide@.len() ==> #[trigger] wide@[i] as int == target[i],
                forall|i: int|
                    0 <= i < target.len() ==> isize::MIN <= #[trigger] target[i] <= isize::MAX,
                out@.len() == k,
                forall|i: int| 0 <= i < k ==> #[trigger] out@[i] as int == target[i],
            decreases wide@.len() - k,
        {
            assert(isize::MIN <= target[k as int] <= isize::MAX);
            out.push(wide[k] as isize);
            k = k + 1;
        }
        out
    }
}

} // verus!
