//! Weighted sums over sequences, and how they move when a sequence is
//! split, concatenated or updated in one place.

use vstd::prelude::*;

verus! {

/// Sum of `w` over the elements of `s`, in order.
pub open spec fn seq_sum<T>(s: Seq<T>, w: spec_fn(T) -> int) -> int
    decreases s.len(),
{
    if s.len() == 0 {
        0
    } else {
        seq_sum(s.drop_last(), w) + w(s.last())
    }
}

pub proof fn lemma_sum_concat<T>(a: Seq<T>, b: Seq<T>, w: spec_fn(T) -> int)
    ensures
        seq_sum(a + b, w) == seq_sum(a, w) + seq_sum(b, w),
    decreases b.len(),
{
    if b.len() == 0 {
        assert(a + b =~= a);
    } else {
        lemma_sum_concat(a, b.drop_last(), w);
        assert((a + b).drop_last() =~= a + b.drop_last());
        assert((a + b).last() == b.last());
    }
}

pub proof fn lemma_sum_single<T>(x: T, w: spec_fn(T) -> int)
    ensures
        seq_sum(seq![x], w) == w(x),
{
    let s = seq![x];
    assert(s.drop_last() =~= Seq::<T>::empty());
    assert(s.last() == x);
    assert(seq_sum(s.drop_last(), w) == 0);
}

/// Splitting a sequence around one element.
pub proof fn lemma_sum_split<T>(s: Seq<T>, i: int, w: spec_fn(T) -> int)
    requires
        0 <= i < s.len(),
    ensures
        seq_sum(s, w) == seq_sum(s.take(i), w) + w(s[i]) + seq_sum(s.skip(i + 1), w),
{
    assert(s =~= s.take(i) + seq![s[i]] + s.skip(i + 1));
    lemma_sum_concat(s.take(i) + seq![s[i]], s.skip(i + 1), w);
    lemma_sum_concat(s.take(i), seq![s[i]], w);
    lemma_sum_single(s[i], w);
}

/// Replacing one element changes the sum by the difference of weights.
pub proof fn lemma_sum_update<T>(s: Seq<T>, i: int, x: T, w: spec_fn(T) -> int)
    requires
        0 <= i < s.len(),
    ensures
        seq_sum(s.update(i, x), w) == seq_sum(s, w) - w(s[i]) + w(x),
{
    let t = s.update(i, x);
    lemma_sum_split(s, i, w);
    lemma_sum_split(t, i, w);
    assert(t.take(i) =~= s.take(i));
    assert(t.skip(i + 1) =~= s.skip(i + 1));
}

/// With nonnegative weights, an element weighs at most the whole sum.
pub proof fn lemma_sum_element_bound<T>(s: Seq<T>, i: int, w: spec_fn(T) -> int)
    requires
        0 <= i < s.len(),
        forall|x: T| #[trigger] w(x) >= 0,
    ensures
        w(s[i]) <= seq_sum(s, w),
{
    lemma_sum_split(s, i, w);
    lemma_sum_nonneg(s.take(i), w);
    lemma_sum_nonneg(s.skip(i + 1), w);
}

pub proof fn lemma_sum_nonneg<T>(s: Seq<T>, w: spec_fn(T) -> int)
    requires
        forall|x: T| #[trigger] w(x) >= 0,
    ensures
        seq_sum(s, w) >= 0,
    decreases s.len(),
{
    if s.len() > 0 {
        lemma_sum_nonneg(s.drop_last(), w);
    }
}

/// With nonnegative weights, a prefix weighs at most the whole sum.
pub proof fn lemma_sum_prefix_bound<T>(s: Seq<T>, i: int, w: spec_fn(T) -> int)
    requires
        0 <= i <= s.len(),
        forall|x: T| #[trigger] w(x) >= 0,
    ensures
        seq_sum(s.take(i), w) <= seq_sum(s, w),
{
    assert(s =~= s.take(i) + s.skip(i));
    lemma_sum_concat(s.take(i), s.skip(i), w);
    lemma_sum_nonneg(s.skip(i), w);
}

/// The sum of a prefix one element longer.
pub proof fn lemma_sum_take_step<T>(s: Seq<T>, i: int, w: spec_fn(T) -> int)
    requires
        0 <= i < s.len(),
    ensures
        seq_sum(s.take(i + 1), w) == seq_sum(s.take(i), w) + w(s[i]),
{
    assert(s.take(i + 1).drop_last() =~= s.take(i));
}

/// Two distinct elements together weigh at most the whole sum.
pub proof fn lemma_sum_two_elements<T>(s: Seq<T>, i: int, j: int, w: spec_fn(T) -> int)
    requires
        0 <= i < s.len(),
        0 <= j < s.len(),
        i != j,
        forall|x: T| #[trigger] w(x) >= 0,
    ensures
        w(s[i]) + w(s[j]) <= seq_sum(s, w),
{
    let (a, b) = if i < j {
        (i, j)
    } else {
        (j, i)
    };
    lemma_sum_split(s, a, w);
    let rest = s.skip(a + 1);
    assert(rest[b - a - 1] == s[b]);
    lemma_sum_element_bound(rest, b - a - 1, w);
    lemma_sum_nonneg(s.take(a), w);
}

/// When one weight is pointwise the sum of three others, so is its total.
pub proof fn lemma_sum_split_weights<T>(
    s: Seq<T>,
    w: spec_fn(T) -> int,
    a: spec_fn(T) -> int,
    b: spec_fn(T) -> int,
    c: spec_fn(T) -> int,
)
    requires
        forall|x: T| #[trigger] w(x) == a(x) + b(x) + c(x),
    ensures
        seq_sum(s, w) == seq_sum(s, a) + seq_sum(s, b) + seq_sum(s, c),
    decreases s.len(),
{
    if s.len() > 0 {
        lemma_sum_split_weights(s.drop_last(), w, a, b, c);
        assert(w(s.last()) == a(s.last()) + b(s.last()) + c(s.last()));
    }
}

/// Summing a mapped sequence is summing the unmapped sequence under the composed
/// weight.
pub proof fn lemma_sum_map<A, B>(s: Seq<A>, f: spec_fn(A) -> B, wb: spec_fn(B) -> int, wa: spec_fn(A) -> int)
    requires
        forall|x: A| #[trigger] wa(x) == wb(f(x)),
    ensures
        seq_sum(s.map_values(f), wb) == seq_sum(s, wa),
    decreases s.len(),
{
    if s.len() > 0 {
        lemma_sum_map(s.drop_last(), f, wb, wa);
        assert(s.map_values(f).drop_last() =~= s.drop_last().map_values(f));
        assert(wa(s.last()) == wb(f(s.last())));
    }
}

} // verus!
