use vstd::prelude::*;

use crate::arbitrary::Arbitrary;
use std::collections::VecDeque;
use vstd::std_specs::cmp::PartialOrdSpec;

use crate::gen::{extends, range_draw, ratio_draw, Gen, Sample};

verus! {

/// The models of the elements of a sequence.
pub open spec fn models<T: Arbitrary>(s: Seq<T>) -> Seq<T::Model> {
    s.map_values(|x: T| x.model())
}

/// Whether generating values of the models `ms`, one after the other, at
/// generator size `size` can make the draws that take the history from
/// `before` to `after`.
pub open spec fn generated_all<T: Arbitrary>(
    size: nat,
    before: Seq<Sample>,
    ms: Seq<T::Model>,
    after: Seq<Sample>,
) -> bool
    decreases ms.len(),
{
    if ms.len() == 0 {
        after == before
    } else {
        exists|mid: Seq<Sample>|
            generated_all::<T>(size, before, ms.drop_last(), mid) && #[trigger] T::generated(
                size,
                mid,
                ms.last(),
                after,
            )
    }
}

/// Generating one more value after values of the models `ms` makes the
/// draws of both, one after the other.
pub proof fn lemma_generated_all_push<T: Arbitrary>(
    size: nat,
    before: Seq<Sample>,
    ms: Seq<T::Model>,
    mid: Seq<Sample>,
    m: T::Model,
    after: Seq<Sample>,
)
    requires
        generated_all::<T>(size, before, ms, mid),
        T::generated(size, mid, m, after),
    ensures
        generated_all::<T>(size, before, ms.push(m), after),
{
    let longer = ms.push(m);
    assert(longer.drop_last() =~= ms);
    assert(generated_all::<T>(size, before, longer.drop_last(), mid));
    assert(T::generated(size, mid, longer.last(), after));
    assert(longer.len() > 0);
}

/// A copy of a vector made of copies of its elements, with the same models.
pub fn duplicate_all<T: Arbitrary>(v: &Vec<T>) -> (r: Vec<T>)
    requires
        T::obeys_arbitrary(),
    ensures
        r@.len() == v@.len(),
        models(r@) == models(v@),
{
    let mut out: Vec<T> = Vec::new();
    let mut k: usize = 0;
    while k < v.len()
        invariant
            T::obeys_arbitrary(),
            k <= v@.len(),
            out@.len() == k,
            forall|i: int| 0 <= i < k ==> #[trigger] out@[i].model() == v@[i].model(),
        decreases v@.len() - k,
    {
        out.push(v[k].duplicate());
        k = k + 1;
    }
    assert(models(out@) =~= models(v@));
    out
}

/// The candidates that drop one element: without the first, without the
/// second, and so on.
pub open spec fn removals<M>(m: Seq<M>) -> Seq<Seq<M>> {
    Seq::new(m.len(), |i: int| m.remove(i))
}

/// The candidates that replace one element by one of its own shrink
/// candidates: those of the first element in order, then those of the
/// second, and so on, for the first `k` elements.
pub open spec fn replacements<T: Arbitrary>(v: Seq<T>, k: nat) -> Seq<Seq<T::Model>>
    decreases k,
{
    if k == 0 {
        seq![]
    } else {
        let i = k - 1;
        replacements(v, i as nat) + v[i].shrink_models().map_values(
            |s: T::Model| models(v).update(i, s),
        )
    }
}

/// No one-element replacement by a shrink candidate of that element gives
/// back the models of the elements it starts from.
pub proof fn lemma_replacements_differ<T: Arbitrary>(v: Seq<T>, k: nat)
    requires
        k <= v.len(),
        T::shrinks_by_model(),
    ensures
        forall|j: int|
            0 <= j < replacements(v, k).len() ==> #[trigger] replacements(v, k)[j] != models(v),
    decreases k,
{
    if k > 0 {
        let i = (k - 1) as int;
        lemma_replacements_differ(v, (k - 1) as nat);
        v[i].lemma_shrinks_differ();
        let left = replacements(v, (k - 1) as nat);
        let options = v[i].shrink_models();
        let right = options.map_values(|s: T::Model| models(v).update(i, s));
        assert(replacements(v, k) == left + right);
        assert forall|j: int| 0 <= j < replacements(v, k).len() implies #[trigger] replacements(
            v,
            k,
        )[j] != models(v) by {
            if j >= left.len() {
                let s = options[j - left.len()];
                assert(right[j - left.len()] == models(v).update(i, s));
                assert(models(v).update(i, s)[i] == s);
                assert(models(v)[i] == v[i].model());
            } else {
                assert(replacements(v, k)[j] == left[j]);
            }
        }
    }
}

/// Sequences whose elements have the same models have the same one-element
/// replacements.
pub proof fn lemma_replacements_follow_models<T: Arbitrary>(a: Seq<T>, b: Seq<T>, k: nat)
    requires
        models(a) == models(b),
        T::shrinks_by_model(),
        k <= a.len(),
    ensures
        replacements(a, k) == replacements(b, k),
    decreases k,
{
    assert(a.len() == models(a).len() && b.len() == models(b).len());
    if k > 0 {
        let i = (k - 1) as int;
        lemma_replacements_follow_models(a, b, (k - 1) as nat);
        assert(models(a)[i] == models(b)[i]);
        assert(models(a)[i] == a[i].model());
        assert(models(b)[i] == b[i].model());
        T::lemma_shrinks_follow_model(&a[i], &b[i]);
    }
}

/// The shrink candidates of a vector: none for the empty vector; otherwise
/// the empty vector, then each one-element removal, then each one-element
/// replacement by a shrink candidate of that element.
pub open spec fn vec_shrinks<T: Arbitrary>(v: Seq<T>) -> Seq<Seq<T::Model>> {
    if v.len() == 0 {
        seq![]
    } else {
        seq![Seq::<T::Model>::empty()] + removals(models(v)) + replacements(v, v.len())
    }
}

/// No shrink candidate of a sequence of elements has its models.
pub proof fn lemma_vec_shrinks_differ<T: Arbitrary>(v: Seq<T>)
    requires
        T::shrinks_by_model(),
    ensures
        forall|j: int|
            0 <= j < vec_shrinks(v).len() ==> #[trigger] vec_shrinks(v)[j] != models(v),
{
    let m = models(v);
    if v.len() > 0 {
        lemma_replacements_differ(v, v.len());
        let first: Seq<Seq<T::Model>> = seq![Seq::<T::Model>::empty()];
        let rem = removals(m);
        let rep = replacements(v, v.len());
        assert(vec_shrinks(v) == first + rem + rep);
        assert forall|j: int| 0 <= j < vec_shrinks(v).len() implies #[trigger] vec_shrinks(v)[j]
            != m by {
            if j == 0 {
                assert(vec_shrinks(v)[j].len() == 0);
            } else if j < 1 + rem.len() {
                assert(vec_shrinks(v)[j] == m.remove(j - 1));
                assert(m.remove(j - 1).len() != m.len());
            } else {
                assert(vec_shrinks(v)[j] == rep[j - 1 - rem.len()]);
            }
        }
    }
}

/// Sequences whose elements have the same models have the same shrink
/// candidates.
pub proof fn lemma_vec_shrinks_follow_models<T: Arbitrary>(a: Seq<T>, b: Seq<T>)
    requires
        models(a) == models(b),
        T::shrinks_by_model(),
    ensures
        vec_shrinks(a) == vec_shrinks(b),
{
    assert(models(a).len() == a.len() && models(b).len() == b.len());
    lemma_replacements_follow_models(a, b, a.len());
}

/// Vectors are generated with at most as many elements as the generator
/// size, and shrink by emptying, dropping one element, or shrinking one
/// element.
impl<T: Arbitrary> Arbitrary for Vec<T> {
    type Model = Seq<T::Model>;

    open spec fn model(&self) -> Seq<T::Model> {
        models(self@)
    }

    open spec fn obeys_arbitrary() -> bool {
        T::obeys_arbitrary()
    }

    open spec fn shrinks_by_model() -> bool {
        T::shrinks_by_model()
    }

    open spec fn within_size(m: Seq<T::Model>, size: nat) -> bool {
        &&& m.len() <= size
        &&& forall|i: int| 0 <= i < m.len() ==> T::within_size(#[trigger] m[i], size)
    }

    open spec fn generated(size: nat, before: Seq<Sample>, m: Seq<T::Model>, after: Seq<Sample>) -> bool {
        generated_all::<T>(size, before.push(range_draw(0, size as int, m.len() as int)), m, after)
    }

    open spec fn shrink_models(&self) -> Seq<Seq<T::Model>> {
        vec_shrinks(self@)
    }

    proof fn lemma_shrinks_differ(&self) {
        if Self::shrinks_by_model() {
            lemma_vec_shrinks_differ(self@);
        }
    }

    proof fn lemma_shrinks_follow_model(a: &Vec<T>, b: &Vec<T>) {
        if Self::shrinks_by_model() {
            lemma_vec_shrinks_follow_models(a@, b@);
        }
    }

    fn duplicate(&self) -> (r: Vec<T>) {
        duplicate_all(self)
    }

    fn arbitrary(g: &mut Gen) -> (r: Vec<T>)
        ensures
            extends(
                final(g).samples(),
                old(g).samples().push(range_draw(0, old(g).spec_size() as int, r@.len() as int)),
            ),
            r@.len() == 0 ==> final(g).samples() == old(g).samples().push(
                range_draw(0, old(g).spec_size() as int, 0),
            ),
    {
        let size = g.size();
        let len = g.gen_range(0, size as i128) as usize;
        let ghost drawn = g.samples();
        let mut out: Vec<T> = Vec::new();
        let mut k: usize = 0;
        while k < len
            invariant
                Self::obeys_arbitrary(),
                k <= len <= size,
                g.spec_size() == size,
                extends(g.samples(), drawn),
                k == 0 ==> g.samples() == drawn,
                T::obeys_arbitrary(),
                out@.len() == k,
                forall|i: int| 0 <= i < k ==> T::within_size(#[trigger] out@[i].model(), size as nat),
                generated_all::<T>(size as nat, drawn, models(out@), g.samples()),
            decreases len - k,
        {
            let ghost cur = g.samples();
            let e = T::arbitrary(g);
            let ghost prev = out@;
            out.push(e);
            proof {
                lemma_generated_all_push::<T>(size as nat, drawn, models(prev), cur, e.model(), g.samples());
                assert(models(out@) =~= models(prev).push(e.model()));
            }
            k = k + 1;
        }
        out
    }

    fn shrink(&self) -> (r: Vec<Vec<T>>) {
        let n = self.len();
        let mut candidates: Vec<Vec<T>> = Vec::new();
        if n == 0 {
            return candidates;
        }
        let ghost m = models(self@);
        let ghost target = vec_shrinks(self@);
        candidates.push(Vec::new());
        assert(candidates@[0].model() =~= Seq::<T::Model>::empty());
        let mut i: usize = 0;
        while i < n
            invariant
                Self::obeys_arbitrary(),
                n == self@.len(),
                m == models(self@),
                i <= n,
                candidates@.len() == 1 + i,
                candidates@[0].model() == Seq::<T::Model>::empty(),
                forall|j: int| 1 <= j < 1 + i ==> #[trigger] candidates@[j].model() == m.remove(j - 1),
            decreases n - i,
        {
            let mut shorter = duplicate_all(self);
            shorter.remove(i);
            assert(shorter.model() =~= m.remove(i as int));
            candidates.push(shorter);
            i = i + 1;
        }
        assert(candidates@.map_values(|c: Vec<T>| c.model()) =~= seq![Seq::<T::Model>::empty()]
            + removals(m) + replacements(self@, 0));
        let mut i: usize = 0;
        while i < n
            invariant
                Self::obeys_arbitrary(),
                n == self@.len(),
                m == models(self@),
                i <= n,
                T::obeys_arbitrary(),
                candidates@.map_values(|c: Vec<T>| c.model()) == seq![Seq::<T::Model>::empty()]
                    + removals(m) + replacements(self@, i as nat),
            decreases n - i,
        {
            let smaller = self[i].shrink();
            let ghost before = candidates@.map_values(|c: Vec<T>| c.model());
            let ghost options = self@[i as int].shrink_models();
            let mut j: usize = 0;
            while j < smaller.len()
                invariant
                    Self::obeys_arbitrary(),
                    n == self@.len(),
                    m == models(self@),
                    i < n,
                    smaller@.len() == options.len(),
                    forall|k: int| 0 <= k < smaller@.len() ==> #[trigger] smaller@[k].model() == options[k],
                    j <= smaller@.len(),
                    candidates@.map_values(|c: Vec<T>| c.model()) == before + options.take(j as int).map_values(
                        |s: T::Model| m.update(i as int, s),
                    ),
                decreases smaller@.len() - j,
            {
                let mut shrunk = duplicate_all(self);
                let replacement = smaller[j].duplicate();
                shrunk.set(i, replacement);
                assert(shrunk.model() =~= m.update(i as int, options[j as int]));
                let ghost prev = candidates@.map_values(|c: Vec<T>| c.model());
                candidates.push(shrunk);
                assert(candidates@.map_values(|c: Vec<T>| c.model()) =~= prev.push(m.update(i as int, options[j as int])));
                assert(options.take(j + 1).map_values(|s: T::Model| m.update(i as int, s)) =~= options.take(
                    j as int,
                ).map_values(|s: T::Model| m.update(i as int, s)).push(m.update(i as int, options[j as int])));
                j = j + 1;
            }
            assert(options.take(j as int) =~= options);
            assert(replacements(self@, (i + 1) as nat) == replacements(self@, i as nat) + options.map_values(
                |s: T::Model| m.update(i as int, s),
            ));
            i = i + 1;
        }
        candidates
    }
}

/// Booleans are generated with even odds; `true` shrinks to `false`.
impl Arbitrary for bool {
    type Model = bool;

    open spec fn model(&self) -> bool {
        *self
    }

    open spec fn obeys_arbitrary() -> bool {
        true
    }

    open spec fn shrinks_by_model() -> bool {
        true
    }

    open spec fn within_size(m: bool, size: nat) -> bool {
        true
    }

    open spec fn generated(size: nat, before: Seq<Sample>, m: bool, after: Seq<Sample>) -> bool {
        after == before.push(ratio_draw(1, 2, m))
    }

    open spec fn shrink_models(&self) -> Seq<bool> {
        if *self {
            seq![false]
        } else {
            seq![]
        }
    }

    proof fn lemma_shrinks_differ(&self) {
    }

    proof fn lemma_shrinks_follow_model(a: &bool, b: &bool) {
    }

    fn duplicate(&self) -> (r: bool) {
        *self
    }

    fn arbitrary(g: &mut Gen) -> (r: bool)
        ensures
            final(g).samples() == old(g).samples().push(ratio_draw(1, 2, r)),
    {
        g.gen_ratio(1, 2)
    }

    fn shrink(&self) -> (r: Vec<bool>) {
        let mut out: Vec<bool> = Vec::new();
        if *self {
            out.push(false);
        }
        out
    }
}

/// The unit value is its only value and does not shrink.
impl Arbitrary for () {
    type Model = ();

    open spec fn model(&self) -> () {
        ()
    }

    open spec fn obeys_arbitrary() -> bool {
        true
    }

    open spec fn shrinks_by_model() -> bool {
        true
    }

    open spec fn within_size(m: (), size: nat) -> bool {
        true
    }

    open spec fn generated(size: nat, before: Seq<Sample>, m: (), after: Seq<Sample>) -> bool {
        after == before
    }

    open spec fn shrink_models(&self) -> Seq<()> {
        seq![]
    }

    proof fn lemma_shrinks_differ(&self) {
    }

    proof fn lemma_shrinks_follow_model(a: &(), b: &()) {
    }

    fn duplicate(&self) -> (r: ()) {
        ()
    }

    fn arbitrary(g: &mut Gen) -> (r: ())
        ensures
            *final(g) == *old(g),
    {
        ()
    }

    fn shrink(&self) -> (r: Vec<()>) {
        Vec::new()
    }
}

/// The position of a character among all Unicode scalar values, counted
/// without the surrogates `0xD800..=0xDFFF`.
pub open spec fn char_index(c: char) -> int {
    if (c as u32) < 0xD800 {
        c as u32 as int
    } else {
        c as u32 - 0x800
    }
}

/// The record of the draw that gives the character `c`: its position among
/// the `0x110000 - 0x800` Unicode scalar values.
pub open spec fn char_draw(c: char) -> Sample {
    range_draw(0, 0x110000 - 0x800 - 1, char_index(c))
}

/// Characters are drawn evenly from all Unicode scalar values and do not
/// shrink.
impl Arbitrary for char {
    type Model = char;

    open spec fn model(&self) -> char {
        *self
    }

    open spec fn obeys_arbitrary() -> bool {
        true
    }

    open spec fn shrinks_by_model() -> bool {
        true
    }

    open spec fn within_size(m: char, size: nat) -> bool {
        true
    }

    open spec fn generated(size: nat, before: Seq<Sample>, m: char, after: Seq<Sample>) -> bool {
        after == before.push(char_draw(m))
    }

    open spec fn shrink_models(&self) -> Seq<char> {
        seq![]
    }

    proof fn lemma_shrinks_differ(&self) {
    }

    proof fn lemma_shrinks_follow_model(a: &char, b: &char) {
    }

    fn duplicate(&self) -> (r: char) {
        *self
    }

    fn arbitrary(g: &mut Gen) -> (r: char)
        ensures
            final(g).samples() == old(g).samples().push(char_draw(r)),
    {
        let drawn = g.gen_range(0, 0x110000 - 0x800 - 1);
        let v = drawn as u32;
        let code: u32 = if v < 0xD800 { v } else { v + 0x800 };
        match char::from_u32(code) {
            Some(c) => {
                assert(char_index(c) == drawn as int);
                c
            },
            None => vstd::pervasive::unreached(),
        }
    }

    fn shrink(&self) -> (r: Vec<char>) {
        Vec::new()
    }
}

/// The characters of a string, in order.
fn chars_of(s: &String) -> (r: Vec<char>)
    ensures
        r@ == s@,
{
    broadcast use vstd::string::axiom_spec_iter;

    let mut out: Vec<char> = Vec::new();
    for c in it: s.as_str().chars()
        invariant
            out@ == it.seq().take(it.index()),
    {
        out.push(c);
    }
    out
}

/// The string of the characters of `chars`, in order.
fn string_of(chars: &Vec<char>) -> (r: String)
    ensures
        r@ == chars@,
{
    let mut out = String::new();
    let mut k: usize = 0;
    while k < chars.len()
        invariant
            k <= chars@.len(),
            out@ == chars@.take(k as int),
        decreases chars@.len() - k,
    {
        out.push(chars[k]);
        assert(chars@.take(k + 1) =~= chars@.take(k as int).push(chars@[k as int]));
        k = k + 1;
    }
    assert(chars@.take(k as int) =~= chars@);
    out
}

/// The shrink candidates of a string: none for the empty string; otherwise
/// the empty string, then the string without its first character, without
/// its second, and so on.
pub open spec fn string_shrinks(s: Seq<char>) -> Seq<Seq<char>> {
    if s.len() == 0 {
        seq![]
    } else {
        seq![Seq::<char>::empty()] + removals(s)
    }
}

/// Strings are generated with at most as many characters as the generator
/// size, and shrink by emptying or by dropping one character.
impl Arbitrary for String {
    type Model = Seq<char>;

    open spec fn model(&self) -> Seq<char> {
        self@
    }

    open spec fn obeys_arbitrary() -> bool {
        true
    }

    open spec fn shrinks_by_model() -> bool {
        true
    }

    open spec fn within_size(m: Seq<char>, size: nat) -> bool {
        m.len() <= size
    }

    open spec fn generated(size: nat, before: Seq<Sample>, m: Seq<char>, after: Seq<Sample>) -> bool {
        after == before.push(range_draw(0, size as int, m.len() as int)) + m.map_values(
            |c: char| char_draw(c),
        )
    }

    open spec fn shrink_models(&self) -> Seq<Seq<char>> {
        string_shrinks(self@)
    }

    proof fn lemma_shrinks_differ(&self) {
        if Self::shrinks_by_model() {
            if self@.len() > 0 {
                let rem = removals(self@);
                assert forall|j: int| 0 <= j < self.shrink_models().len() implies #[trigger] self.shrink_models()[j]
                    != self.model() by {
                    if j > 0 {
                        assert(self.shrink_models()[j] == self@.remove(j - 1));
                        assert(self@.remove(j - 1).len() != self@.len());
                    } else {
                        assert(self.shrink_models()[j].len() == 0);
                    }
                }
            }
        }
    }

    proof fn lemma_shrinks_follow_model(a: &String, b: &String) {
    }

    fn duplicate(&self) -> (r: String) {
        self.clone()
    }

    fn arbitrary(g: &mut Gen) -> (r: String)
        ensures
            final(g).samples() == old(g).samples().push(
                range_draw(0, old(g).spec_size() as int, r@.len() as int),
            ) + r@.map_values(|c: char| char_draw(c)),
    {
        let size = g.size();
        let len = g.gen_range(0, size as i128) as usize;
        let ghost drawn = g.samples();
        let mut out = String::new();
        let mut k: usize = 0;
        while k < len
            invariant
                Self::obeys_arbitrary(),
                k <= len <= size,
                g.spec_size() == size,
                out@.len() == k,
                g.samples() == drawn + out@.map_values(|c: char| char_draw(c)),
            decreases len - k,
        {
            let c = char::arbitrary(g);
            let ghost before = out@;
            out.push(c);
            assert(out@.map_values(|c: char| char_draw(c)) =~= before.map_values(
                |c: char| char_draw(c),
            ).push(char_draw(c)));
            k = k + 1;
        }
        out
    }

    fn shrink(&self) -> (r: Vec<String>) {
        let chars = chars_of(self);
        let n = chars.len();
        let mut candidates: Vec<String> = Vec::new();
        if n == 0 {
            return candidates;
        }
        candidates.push(String::new());
        let mut i: usize = 0;
        while i < n
            invariant
                Self::obeys_arbitrary(),
                n == chars@.len(),
                chars@ == self@,
                i <= n,
                candidates@.len() == 1 + i,
                candidates@[0]@ == Seq::<char>::empty(),
                forall|j: int| 1 <= j < 1 + i ==> #[trigger] candidates@[j]@ == chars@.remove(j - 1),
            decreases n - i,
        {
            let mut shorter = chars.clone();
            assert(shorter@ =~= chars@);
            shorter.remove(i);
            candidates.push(string_of(&shorter));
            i = i + 1;
        }
        candidates
    }
}

/// Options are `None` one time in four and otherwise hold a generated value;
/// `Some` shrinks to `None`, then to `Some` of each shrink candidate.
impl<T: Arbitrary> Arbitrary for Option<T> {
    type Model = Option<T::Model>;

    open spec fn model(&self) -> Option<T::Model> {
        match self {
            Some(v) => Some(v.model()),
            None => None,
        }
    }

    open spec fn obeys_arbitrary() -> bool {
        T::obeys_arbitrary()
    }

    open spec fn shrinks_by_model() -> bool {
        T::shrinks_by_model()
    }

    open spec fn within_size(m: Option<T::Model>, size: nat) -> bool {
        match m {
            Some(v) => T::within_size(v, size),
            None => true,
        }
    }

    open spec fn generated(size: nat, before: Seq<Sample>, m: Option<T::Model>, after: Seq<Sample>) -> bool {
        match m {
            None => after == before.push(ratio_draw(1, 4, true)),
            Some(x) => T::generated(size, before.push(ratio_draw(1, 4, false)), x, after),
        }
    }

    open spec fn shrink_models(&self) -> Seq<Option<T::Model>> {
        match self {
            Some(v) => seq![None] + v.shrink_models().map_values(|m: T::Model| Some(m)),
            None => seq![],
        }
    }

    proof fn lemma_shrinks_differ(&self) {
        if Self::shrinks_by_model() {
            if let Some(v) = self {
                v.lemma_shrinks_differ();
                assert forall|j: int| 0 <= j < self.shrink_models().len() implies #[trigger] self.shrink_models()[j]
                    != self.model() by {
                    if j > 0 {
                        assert(self.shrink_models()[j] == Some(v.shrink_models()[j - 1]));
                    }
                }
            }
        }
    }

    proof fn lemma_shrinks_follow_model(a: &Option<T>, b: &Option<T>) {
        if Self::shrinks_by_model() {
            if let Some(x) = a {
                T::lemma_shrinks_follow_model(x, &b->Some_0);
            }
        }
    }

    fn duplicate(&self) -> (r: Option<T>) {
        match self {
            Some(v) => Some(v.duplicate()),
            None => None,
        }
    }

    fn arbitrary(g: &mut Gen) -> (r: Option<T>)
        ensures
            extends(final(g).samples(), old(g).samples().push(ratio_draw(1, 4, r is None))),
            r is None ==> final(g).samples() == old(g).samples().push(ratio_draw(1, 4, true)),
    {
        if g.gen_ratio(1, 4) {
            None
        } else {
            Some(T::arbitrary(g))
        }
    }

    fn shrink(&self) -> (r: Vec<Option<T>>) {
        let mut candidates: Vec<Option<T>> = Vec::new();
        match self {
            None => candidates,
            Some(v) => {
                candidates.push(None);
                let smaller = v.shrink();
                let ghost options = v.shrink_models();
                let mut j: usize = 0;
                while j < smaller.len()
                    invariant
                        Self::obeys_arbitrary(),
                        smaller@.len() == options.len(),
                        forall|k: int| 0 <= k < smaller@.len() ==> #[trigger] smaller@[k].model() == options[k],
                        j <= smaller@.len(),
                        candidates@.len() == 1 + j,
                        candidates@[0] is None,
                        forall|k: int| 1 <= k < 1 + j ==> #[trigger] candidates@[k].model() == Some(options[k - 1]),
                    decreases smaller@.len() - j,
                {
                    let s = smaller[j].duplicate();
                    candidates.push(Some(s));
                    j = j + 1;
                }
                candidates
            },
        }
    }
}

/// Results are `Err` one time in four and otherwise `Ok`; each shrinks
/// within its own variant.
impl<T: Arbitrary, E: Arbitrary> Arbitrary for Result<T, E> {
    type Model = Result<T::Model, E::Model>;

    open spec fn model(&self) -> Result<T::Model, E::Model> {
        match self {
            Ok(v) => Ok(v.model()),
            Err(e) => Err(e.model()),
        }
    }

    open spec fn obeys_arbitrary() -> bool {
        T::obeys_arbitrary() && E::obeys_arbitrary()
    }

    open spec fn shrinks_by_model() -> bool {
        T::shrinks_by_model() && E::shrinks_by_model()
    }

    open spec fn within_size(m: Result<T::Model, E::Model>, size: nat) -> bool {
        match m {
            Ok(v) => T::within_size(v, size),
            Err(e) => E::within_size(e, size),
        }
    }

    open spec fn generated(
        size: nat,
        before: Seq<Sample>,
        m: Result<T::Model, E::Model>,
        after: Seq<Sample>,
    ) -> bool {
        match m {
            Err(e) => E::generated(size, before.push(ratio_draw(1, 4, true)), e, after),
            Ok(x) => T::generated(size, before.push(ratio_draw(1, 4, false)), x, after),
        }
    }

    open spec fn shrink_models(&self) -> Seq<Result<T::Model, E::Model>> {
        match self {
            Ok(v) => v.shrink_models().map_values(|m: T::Model| Ok(m)),
            Err(e) => e.shrink_models().map_values(|m: E::Model| Err(m)),
        }
    }

    proof fn lemma_shrinks_differ(&self) {
        if Self::shrinks_by_model() {
            match self {
                Ok(v) => {
                    v.lemma_shrinks_differ();
                    assert forall|j: int| 0 <= j < self.shrink_models().len() implies #[trigger] self.shrink_models()[j]
                        != self.model() by {
                        assert(self.shrink_models()[j] == Ok::<T::Model, E::Model>(v.shrink_models()[j]));
                    }
                },
                Err(e) => {
                    e.lemma_shrinks_differ();
                    assert forall|j: int| 0 <= j < self.shrink_models().len() implies #[trigger] self.shrink_models()[j]
                        != self.model() by {
                        assert(self.shrink_models()[j] == Err::<T::Model, E::Model>(e.shrink_models()[j]));
                    }
                },
            }
        }
    }

    proof fn lemma_shrinks_follow_model(a: &Result<T, E>, b: &Result<T, E>) {
        if Self::shrinks_by_model() {
            match (a, b) {
                (Ok(x), Ok(y)) => {
                    T::lemma_shrinks_follow_model(x, y);
                },
                (Err(x), Err(y)) => {
                    E::lemma_shrinks_follow_model(x, y);
                },
                _ => {},
            }
        }
    }

    fn duplicate(&self) -> (r: Result<T, E>) {
        match self {
            Ok(v) => Ok(v.duplicate()),
            Err(e) => Err(e.duplicate()),
        }
    }

    fn arbitrary(g: &mut Gen) -> (r: Result<T, E>)
        ensures
            extends(final(g).samples(), old(g).samples().push(ratio_draw(1, 4, r is Err))),
    {
        if g.gen_ratio(1, 4) {
            Err(E::arbitrary(g))
        } else {
            Ok(T::arbitrary(g))
        }
    }

    fn shrink(&self) -> (r: Vec<Result<T, E>>) {
        let mut candidates: Vec<Result<T, E>> = Vec::new();
        match self {
            Ok(v) => {
                let smaller = v.shrink();
                let ghost options = v.shrink_models();
                let mut j: usize = 0;
                while j < smaller.len()
                    invariant
                        Self::obeys_arbitrary(),
                        smaller@.len() == options.len(),
                        forall|k: int| 0 <= k < smaller@.len() ==> #[trigger] smaller@[k].model() == options[k],
                        j <= smaller@.len(),
                        candidates@.len() == j,
                        forall|k: int| 0 <= k < j ==> #[trigger] candidates@[k].model() == Ok::<T::Model, E::Model>(options[k]),
                    decreases smaller@.len() - j,
                {
                    let s = smaller[j].duplicate();
                    candidates.push(Ok(s));
                    j = j + 1;
                }
            },
            Err(e) => {
                let smaller = e.shrink();
                let ghost options = e.shrink_models();
                let mut j: usize = 0;
                while j < smaller.len()
                    invariant
                        Self::obeys_arbitrary(),
                        smaller@.len() == options.len(),
                        forall|k: int| 0 <= k < smaller@.len() ==> #[trigger] smaller@[k].model() == options[k],
                        j <= smaller@.len(),
                        candidates@.len() == j,
                        forall|k: int| 0 <= k < j ==> #[trigger] candidates@[k].model() == Err::<T::Model, E::Model>(options[k]),
                    decreases smaller@.len() - j,
                {
                    let s = smaller[j].duplicate();
                    candidates.push(Err(s));
                    j = j + 1;
                }
            },
        }
        candidates
    }
}

/// A box is generated and shrunk through the value it holds.
impl<T: Arbitrary> Arbitrary for Box<T> {
    type Model = T::Model;

    open spec fn model(&self) -> T::Model {
        (**self).model()
    }

    open spec fn obeys_arbitrary() -> bool {
        T::obeys_arbitrary()
    }

    open spec fn shrinks_by_model() -> bool {
        T::shrinks_by_model()
    }

    open spec fn within_size(m: T::Model, size: nat) -> bool {
        T::within_size(m, size)
    }

    open spec fn generated(size: nat, before: Seq<Sample>, m: T::Model, after: Seq<Sample>) -> bool {
        T::generated(size, before, m, after)
    }

    open spec fn shrink_models(&self) -> Seq<T::Model> {
        (**self).shrink_models()
    }

    proof fn lemma_shrinks_differ(&self) {
        if Self::shrinks_by_model() {
            (**self).lemma_shrinks_differ();
        }
    }

    proof fn lemma_shrinks_follow_model(a: &Box<T>, b: &Box<T>) {
        if Self::shrinks_by_model() {
            T::lemma_shrinks_follow_model(&**a, &**b);
        }
    }

    fn duplicate(&self) -> (r: Box<T>) {
        Box::new((**self).duplicate())
    }

    fn arbitrary(g: &mut Gen) -> (r: Box<T>) {
        Box::new(T::arbitrary(g))
    }

    fn shrink(&self) -> (r: Vec<Box<T>>) {
        let smaller = (**self).shrink();
        let ghost options = (**self).shrink_models();
        let mut candidates: Vec<Box<T>> = Vec::new();
        let mut j: usize = 0;
        while j < smaller.len()
            invariant
                Self::obeys_arbitrary(),
                smaller@.len() == options.len(),
                forall|k: int| 0 <= k < smaller@.len() ==> #[trigger] smaller@[k].model() == options[k],
                j <= smaller@.len(),
                candidates@.len() == j,
                forall|k: int| 0 <= k < j ==> #[trigger] candidates@[k].model() == options[k],
            decreases smaller@.len() - j,
        {
            let s = smaller[j].duplicate();
            candidates.push(Box::new(s));
            j = j + 1;
        }
        candidates
    }
}

/// A reference-counted pointer is generated and shrunk through the value it
/// holds; each candidate is a fresh pointer.
impl<T: Arbitrary> Arbitrary for std::rc::Rc<T> {
    type Model = T::Model;

    open spec fn model(&self) -> T::Model {
        (**self).model()
    }

    open spec fn obeys_arbitrary() -> bool {
        T::obeys_arbitrary()
    }

    open spec fn shrinks_by_model() -> bool {
        T::shrinks_by_model()
    }

    open spec fn within_size(m: T::Model, size: nat) -> bool {
        T::within_size(m, size)
    }

    open spec fn generated(size: nat, before: Seq<Sample>, m: T::Model, after: Seq<Sample>) -> bool {
        T::generated(size, before, m, after)
    }

    open spec fn shrink_models(&self) -> Seq<T::Model> {
        (**self).shrink_models()
    }

    proof fn lemma_shrinks_differ(&self) {
        if Self::shrinks_by_model() {
            (**self).lemma_shrinks_differ();
        }
    }

    proof fn lemma_shrinks_follow_model(a: &std::rc::Rc<T>, b: &std::rc::Rc<T>) {
        if Self::shrinks_by_model() {
            T::lemma_shrinks_follow_model(&**a, &**b);
        }
    }

    fn duplicate(&self) -> (r: std::rc::Rc<T>) {
        std::rc::Rc::new((**self).duplicate())
    }

    fn arbitrary(g: &mut Gen) -> (r: std::rc::Rc<T>) {
        std::rc::Rc::new(T::arbitrary(g))
    }

    fn shrink(&self) -> (r: Vec<std::rc::Rc<T>>) {
        let smaller = (**self).shrink();
        let ghost options = (**self).shrink_models();
        let mut candidates: Vec<std::rc::Rc<T>> = Vec::new();
        let mut j: usize = 0;
        while j < smaller.len()
            invariant
                Self::obeys_arbitrary(),
                smaller@.len() == options.len(),
                forall|k: int| 0 <= k < smaller@.len() ==> #[trigger] smaller@[k].model() == options[k],
                j <= smaller@.len(),
                candidates@.len() == j,
                forall|k: int| 0 <= k < j ==> #[trigger] candidates@[k].model() == options[k],
            decreases smaller@.len() - j,
        {
            candidates.push(std::rc::Rc::new(smaller[j].duplicate()));
            j = j + 1;
        }
        candidates
    }
}

/// An atomically reference-counted pointer is generated and shrunk through the value it
/// holds; each candidate is a fresh pointer.
impl<T: Arbitrary> Arbitrary for std::sync::Arc<T> {
    type Model = T::Model;

    open spec fn model(&self) -> T::Model {
        (**self).model()
    }

    open spec fn obeys_arbitrary() -> bool {
        T::obeys_arbitrary()
    }

    open spec fn shrinks_by_model() -> bool {
        T::shrinks_by_model()
    }

    open spec fn within_size(m: T::Model, size: nat) -> bool {
        T::within_size(m, size)
    }

    open spec fn generated(size: nat, before: Seq<Sample>, m: T::Model, after: Seq<Sample>) -> bool {
        T::generated(size, before, m, after)
    }

    open spec fn shrink_models(&self) -> Seq<T::Model> {
        (**self).shrink_models()
    }

    proof fn lemma_shrinks_differ(&self) {
        if Self::shrinks_by_model() {
            (**self).lemma_shrinks_differ();
        }
    }

    proof fn lemma_shrinks_follow_model(a: &std::sync::Arc<T>, b: &std::sync::Arc<T>) {
        if Self::shrinks_by_model() {
            T::lemma_shrinks_follow_model(&**a, &**b);
        }
    }

    fn duplicate(&self) -> (r: std::sync::Arc<T>) {
        std::sync::Arc::new((**self).duplicate())
    }

    fn arbitrary(g: &mut Gen) -> (r: std::sync::Arc<T>) {
        std::sync::Arc::new(T::arbitrary(g))
    }

    fn shrink(&self) -> (r: Vec<std::sync::Arc<T>>) {
        let smaller = (**self).shrink();
        let ghost options = (**self).shrink_models();
        let mut candidates: Vec<std::sync::Arc<T>> = Vec::new();
        let mut j: usize = 0;
        while j < smaller.len()
            invariant
                Self::obeys_arbitrary(),
                smaller@.len() == options.len(),
                forall|k: int| 0 <= k < smaller@.len() ==> #[trigger] smaller@[k].model() == options[k],
                j <= smaller@.len(),
                candidates@.len() == j,
                forall|k: int| 0 <= k < j ==> #[trigger] candidates@[k].model() == options[k],
            decreases smaller@.len() - j,
        {
            candidates.push(std::sync::Arc::new(smaller[j].duplicate()));
            j = j + 1;
        }
        candidates
    }
}

/// A wrapping integer is generated and shrunk through the value it holds.
impl<T: Arbitrary> Arbitrary for std::num::Wrapping<T> {
    type Model = T::Model;

    open spec fn model(&self) -> T::Model {
        self.0.model()
    }

    open spec fn obeys_arbitrary() -> bool {
        T::obeys_arbitrary()
    }

    open spec fn shrinks_by_model() -> bool {
        T::shrinks_by_model()
    }

    open spec fn within_size(m: T::Model, size: nat) -> bool {
        T::within_size(m, size)
    }

    open spec fn generated(size: nat, before: Seq<Sample>, m: T::Model, after: Seq<Sample>) -> bool {
        T::generated(size, before, m, after)
    }

    open spec fn shrink_models(&self) -> Seq<T::Model> {
        self.0.shrink_models()
    }

    proof fn lemma_shrinks_differ(&self) {
        if Self::shrinks_by_model() {
            self.0.lemma_shrinks_differ();
        }
    }

    proof fn lemma_shrinks_follow_model(a: &std::num::Wrapping<T>, b: &std::num::Wrapping<T>) {
        if Self::shrinks_by_model() {
            T::lemma_shrinks_follow_model(&a.0, &b.0);
        }
    }

    fn duplicate(&self) -> (r: std::num::Wrapping<T>) {
        std::num::Wrapping(self.0.duplicate())
    }

    fn arbitrary(g: &mut Gen) -> (r: std::num::Wrapping<T>) {
        std::num::Wrapping(T::arbitrary(g))
    }

    fn shrink(&self) -> (r: Vec<std::num::Wrapping<T>>) {
        let smaller = self.0.shrink();
        let ghost options = self.0.shrink_models();
        let mut candidates: Vec<std::num::Wrapping<T>> = Vec::new();
        let mut j: usize = 0;
        while j < smaller.len()
            invariant
                Self::obeys_arbitrary(),
                smaller@.len() == options.len(),
                forall|k: int| 0 <= k < smaller@.len() ==> #[trigger] smaller@[k].model() == options[k],
                j <= smaller@.len(),
                candidates@.len() == j,
                forall|k: int| 0 <= k < j ==> #[trigger] candidates@[k].model() == options[k],
            decreases smaller@.len() - j,
        {
            candidates.push(std::num::Wrapping(smaller[j].duplicate()));
            j = j + 1;
        }
        candidates
    }
}

/// A saturating integer is generated and shrunk through the value it holds.
impl<T: Arbitrary> Arbitrary for std::num::Saturating<T> {
    type Model = T::Model;

    open spec fn model(&self) -> T::Model {
        self.0.model()
    }

    open spec fn obeys_arbitrary() -> bool {
        T::obeys_arbitrary()
    }

    open spec fn shrinks_by_model() -> bool {
        T::shrinks_by_model()
    }

    open spec fn within_size(m: T::Model, size: nat) -> bool {
        T::within_size(m, size)
    }

    open spec fn generated(size: nat, before: Seq<Sample>, m: T::Model, after: Seq<Sample>) -> bool {
        T::generated(size, before, m, after)
    }

    open spec fn shrink_models(&self) -> Seq<T::Model> {
        self.0.shrink_models()
    }

    proof fn lemma_shrinks_differ(&self) {
        if Self::shrinks_by_model() {
            self.0.lemma_shrinks_differ();
        }
    }

    proof fn lemma_shrinks_follow_model(a: &std::num::Saturating<T>, b: &std::num::Saturating<T>) {
        if Self::shrinks_by_model() {
            T::lemma_shrinks_follow_model(&a.0, &b.0);
        }
    }

    fn duplicate(&self) -> (r: std::num::Saturating<T>) {
        std::num::Saturating(self.0.duplicate())
    }

    fn arbitrary(g: &mut Gen) -> (r: std::num::Saturating<T>) {
        std::num::Saturating(T::arbitrary(g))
    }

    fn shrink(&self) -> (r: Vec<std::num::Saturating<T>>) {
        let smaller = self.0.shrink();
        let ghost options = self.0.shrink_models();
        let mut candidates: Vec<std::num::Saturating<T>> = Vec::new();
        let mut j: usize = 0;
        while j < smaller.len()
            invariant
                Self::obeys_arbitrary(),
                smaller@.len() == options.len(),
                forall|k: int| 0 <= k < smaller@.len() ==> #[trigger] smaller@[k].model() == options[k],
                j <= smaller@.len(),
                candidates@.len() == j,
                forall|k: int| 0 <= k < j ==> #[trigger] candidates@[k].model() == options[k],
            decreases smaller@.len() - j,
        {
            candidates.push(std::num::Saturating(smaller[j].duplicate()));
            j = j + 1;
        }
        candidates
    }
}

/// Whether `T`'s `partial_cmp` follows its specification and that
/// specification orders sanely: `Less` one way is `Greater` the other way,
/// both are transitive, and `Equal` agrees with `==`.
pub open spec fn orders_sanely<T: PartialOrd>() -> bool {
    T::obeys_partial_cmp_spec() && vstd::laws_cmp::obeys_partial_cmp_spec_properties::<T>()
}

/// Whether `end` is not below `start`: comparing `end` with `start` does not
/// give `Less`.
pub open spec fn not_below<T: PartialOrd>(start: T, end: T) -> bool {
    end.partial_cmp_spec(&start) != Some(core::cmp::Ordering::Less)
}

/// Putting the smaller of two values first, as `<` decides, never leaves the
/// second below the first, where the order is sane: when `a < b` the pair
/// `(a, b)` is in order, and otherwise the pair `(b, a)` is.
pub proof fn lemma_smaller_first_not_reversed<T: PartialOrd>(a: T, b: T)
    requires
        orders_sanely::<T>(),
    ensures
        a.partial_cmp_spec(&b) == Some(core::cmp::Ordering::Less) ==> not_below(a, b),
        a.partial_cmp_spec(&b) != Some(core::cmp::Ordering::Less) ==> not_below(b, a),
{
    reveal(vstd::laws_cmp::obeys_partial_cmp_spec_properties);
    if a.partial_cmp_spec(&b) == Some(core::cmp::Ordering::Less) {
        assert(b.partial_cmp_spec(&a) == Some(core::cmp::Ordering::Greater));
    }
}

/// A range is generated from two values, the smaller (by `<`) as its start,
/// and does not shrink.
impl<T: Arbitrary + PartialOrd> Arbitrary for std::ops::Range<T> {
    type Model = (T::Model, T::Model);

    open spec fn model(&self) -> (T::Model, T::Model) {
        (self.start.model(), self.end.model())
    }

    open spec fn obeys_arbitrary() -> bool {
        T::obeys_arbitrary()
    }

    open spec fn shrinks_by_model() -> bool {
        T::shrinks_by_model()
    }

    open spec fn within_size(m: (T::Model, T::Model), size: nat) -> bool {
        T::within_size(m.0, size) && T::within_size(m.1, size)
    }

    /// Two values are drawn, one after the other; the range goes from the
    /// smaller to the larger, as `<` of the element type decides.
    open spec fn generated(
        size: nat,
        before: Seq<Sample>,
        m: (T::Model, T::Model),
        after: Seq<Sample>,
    ) -> bool {
        exists|mid: Seq<Sample>, x: T::Model, y: T::Model|
            #![trigger T::generated(size, before, x, mid), T::generated(size, mid, y, after)]
            T::generated(size, before, x, mid) && T::generated(size, mid, y, after) && (m == (x, y)
                || m == (y, x))
    }

    open spec fn shrink_models(&self) -> Seq<(T::Model, T::Model)> {
        seq![]
    }

    proof fn lemma_shrinks_differ(&self) {
    }

    proof fn lemma_shrinks_follow_model(a: &std::ops::Range<T>, b: &std::ops::Range<T>) {
    }

    fn duplicate(&self) -> (r: std::ops::Range<T>) {
        self.start.duplicate()..self.end.duplicate()
    }

    /// Where `T` orders sanely, the end of the range is never below its
    /// start.
    fn arbitrary(g: &mut Gen) -> (r: std::ops::Range<T>)
        ensures
            orders_sanely::<T>() ==> not_below(r.start, r.end),
    {
        let a = T::arbitrary(g);
        let b = T::arbitrary(g);
        proof {
            if orders_sanely::<T>() {
                lemma_smaller_first_not_reversed(a, b);
            }
        }
        if a < b {
            a..b
        } else {
            b..a
        }
    }

    fn shrink(&self) -> (r: Vec<std::ops::Range<T>>) {
        Vec::new()
    }
}

/// An inclusive range is generated from two values, the smaller (by `<`) as
/// its start, and does not shrink.
impl<T: Arbitrary + PartialOrd> Arbitrary for std::ops::RangeInclusive<T> {
    type Model = (T::Model, T::Model);

    open spec fn model(&self) -> (T::Model, T::Model) {
        (self@.start.model(), self@.end.model())
    }

    open spec fn obeys_arbitrary() -> bool {
        T::obeys_arbitrary()
    }

    open spec fn shrinks_by_model() -> bool {
        T::shrinks_by_model()
    }

    open spec fn within_size(m: (T::Model, T::Model), size: nat) -> bool {
        T::within_size(m.0, size) && T::within_size(m.1, size)
    }

    /// Two values are drawn, one after the other; the range goes from the
    /// smaller to the larger, as `<` of the element type decides.
    open spec fn generated(
        size: nat,
        before: Seq<Sample>,
        m: (T::Model, T::Model),
        after: Seq<Sample>,
    ) -> bool {
        exists|mid: Seq<Sample>, x: T::Model, y: T::Model|
            #![trigger T::generated(size, before, x, mid), T::generated(size, mid, y, after)]
            T::generated(size, before, x, mid) && T::generated(size, mid, y, after) && (m == (x, y)
                || m == (y, x))
    }

    open spec fn shrink_models(&self) -> Seq<(T::Model, T::Model)> {
        seq![]
    }

    proof fn lemma_shrinks_differ(&self) {
    }

    proof fn lemma_shrinks_follow_model(a: &std::ops::RangeInclusive<T>, b: &std::ops::RangeInclusive<T>) {
    }

    fn duplicate(&self) -> (r: std::ops::RangeInclusive<T>) {
        std::ops::RangeInclusive::new(self.start().duplicate(), self.end().duplicate())
    }

    /// Where `T` orders sanely, the end of the range is never below its
    /// start.
    fn arbitrary(g: &mut Gen) -> (r: std::ops::RangeInclusive<T>)
        ensures
            orders_sanely::<T>() ==> not_below(r@.start, r@.end),
    {
        let a = T::arbitrary(g);
        let b = T::arbitrary(g);
        proof {
            if orders_sanely::<T>() {
                lemma_smaller_first_not_reversed(a, b);
            }
        }
        if a < b {
            std::ops::RangeInclusive::new(a, b)
        } else {
            std::ops::RangeInclusive::new(b, a)
        }
    }

    fn shrink(&self) -> (r: Vec<std::ops::RangeInclusive<T>>) {
        Vec::new()
    }
}

/// The double-ended queue of copies of the elements of `v`, in order.
fn deque_of<T: Arbitrary>(v: &Vec<T>) -> (r: VecDeque<T>)
    requires
        T::obeys_arbitrary(),
    ensures
        models(r@) == models(v@),
{
    let mut out: VecDeque<T> = VecDeque::new();
    let mut k: usize = 0;
    while k < v.len()
        invariant
            T::obeys_arbitrary(),
            k <= v@.len(),
            out@.len() == k,
            forall|i: int| 0 <= i < k ==> #[trigger] out@[i].model() == v@[i].model(),
        decreases v@.len() - k,
    {
        out.push_back(v[k].duplicate());
        k = k + 1;
    }
    assert(models(out@) =~= models(v@));
    out
}

/// The vector of copies of the elements of `d`, in order.
fn vec_of<T: Arbitrary>(d: &VecDeque<T>) -> (r: Vec<T>)
    requires
        T::obeys_arbitrary(),
    ensures
        models(r@) == models(d@),
{
    let mut out: Vec<T> = Vec::new();
    let mut k: usize = 0;
    while k < d.len()
        invariant
            T::obeys_arbitrary(),
            k <= d@.len(),
            out@.len() == k,
            forall|i: int| 0 <= i < k ==> #[trigger] out@[i].model() == d@[i].model(),
        decreases d@.len() - k,
    {
        out.push(d[k].duplicate());
        k = k + 1;
    }
    assert(models(out@) =~= models(d@));
    out
}

/// Double-ended queues are generated and shrunk as vectors are.
impl<T: Arbitrary> Arbitrary for VecDeque<T> {
    type Model = Seq<T::Model>;

    open spec fn model(&self) -> Seq<T::Model> {
        models(self@)
    }

    open spec fn obeys_arbitrary() -> bool {
        T::obeys_arbitrary() && T::shrinks_by_model()
    }

    open spec fn shrinks_by_model() -> bool {
        T::shrinks_by_model()
    }

    open spec fn within_size(m: Seq<T::Model>, size: nat) -> bool {
        &&& m.len() <= size
        &&& forall|i: int| 0 <= i < m.len() ==> T::within_size(#[trigger] m[i], size)
    }

    open spec fn generated(size: nat, before: Seq<Sample>, m: Seq<T::Model>, after: Seq<Sample>) -> bool {
        generated_all::<T>(size, before.push(range_draw(0, size as int, m.len() as int)), m, after)
    }

    open spec fn shrink_models(&self) -> Seq<Seq<T::Model>> {
        vec_shrinks(self@)
    }

    proof fn lemma_shrinks_differ(&self) {
        if Self::shrinks_by_model() {
            lemma_vec_shrinks_differ(self@);
        }
    }

    proof fn lemma_shrinks_follow_model(a: &VecDeque<T>, b: &VecDeque<T>) {
        if Self::shrinks_by_model() {
            lemma_vec_shrinks_follow_models(a@, b@);
        }
    }

    fn duplicate(&self) -> (r: VecDeque<T>) {
        let v = vec_of(self);
        deque_of(&v)
    }

    fn arbitrary(g: &mut Gen) -> (r: VecDeque<T>) {
        let v = Vec::<T>::arbitrary(g);
        deque_of(&v)
    }

    fn shrink(&self) -> (r: Vec<VecDeque<T>>) {
        let v = vec_of(self);
        proof {
            lemma_vec_shrinks_follow_models(v@, self@);
        }
        let smaller = v.shrink();
        let mut candidates: Vec<VecDeque<T>> = Vec::new();
        let mut j: usize = 0;
        while j < smaller.len()
            invariant
                Self::obeys_arbitrary(),
                smaller@.len() == vec_shrinks(self@).len(),
                forall|k: int| 0 <= k < smaller@.len() ==> #[trigger] smaller@[k].model() == vec_shrinks(self@)[k],
                j <= smaller@.len(),
                candidates@.len() == j,
                forall|k: int| 0 <= k < j ==> #[trigger] candidates@[k].model() == vec_shrinks(self@)[k],
            decreases smaller@.len() - j,
        {
            let d = deque_of(&smaller[j]);
            assert(d.model() == smaller@[j as int].model());
            candidates.push(d);
            j = j + 1;
        }
        candidates
    }
}

} // verus!
