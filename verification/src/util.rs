//! Searching and order checks over indices and slices.

use vstd::prelude::*;

use vstd::std_specs::cmp::{PartialOrdIs, PartialOrdSpec};

use crate::math;

verus! {

/// `i` starts the interval that holds the boundary of `pred` over the
/// indices `0..sz`: it is a valid interval start (at most `sz - 2`), `pred`
/// has answered `true` at `i` unless `i` is the first interval, and `false`
/// at `i + 1` unless `i` is the last interval.
pub open spec fn is_interval_start<F: Fn(usize) -> bool>(pred: F, sz: usize, i: usize) -> bool {
    &&& i + 2 <= sz
    &&& (i >= 1 ==> call_ensures(pred, (i,), true))
    &&& (i + 2 < sz ==> call_ensures(pred, ((i + 1) as usize,), false))
}

/// Binary search for the last index `i` in `0..sz - 1` at which `pred`
/// holds, assuming `pred` is `true` on a prefix of the indices and `false`
/// after it; the result is clamped to `0..=sz - 2`, so that `i` and `i + 1`
/// are both valid indices. `pred` is only asked about indices in
/// `1..sz - 1`. With fewer than two indices there is no interval and the
/// result is `sz - 2` taken as an unsigned number.
pub fn find_interval<F>(sz: usize, pred: F) -> (r: usize)
    where
        F: Fn(usize) -> bool,
    requires
        sz <= isize::MAX,
        forall|i: usize| 1 <= i && i + 1 < sz ==> call_requires(pred, (i,)),
    ensures
        sz >= 2 ==> is_interval_start(pred, sz, r),
        sz < 2 ==> r == usize::MAX - 1 + sz,
{
    let mut size: isize = sz as isize - 2;
    let mut first: isize = 1;

    while size > 0
        invariant
            sz <= isize::MAX,
            forall|i: usize| 1 <= i && i + 1 < sz ==> call_requires(pred, (i,)),
            sz >= 2 ==> size >= 0,
            sz < 2 ==> size == sz - 2 && first == 1,
            1 <= first,
            first + size <= sz - 1,
            first > 1 ==> call_ensures(pred, ((first - 1) as usize,), true),
            first + size < sz - 1 ==> call_ensures(pred, ((first + size) as usize,), false),
        decreases size,
    {
        // Evaluate predicate at midpoint and update `first` and `size`
        let half = size as usize >> 1;
        assert(half == (size as usize) / 2) by (bit_vector)
            requires
                half == (size as usize) >> 1,
        ;
        let middle = first + half as isize;
        let pred_result = pred(middle as usize);
        first = if pred_result { middle + 1 } else { first };
        size = if pred_result {
            size - (half as isize + 1)
        } else {
            half as isize
        };
    }

    if sz < 2 {
        // The upper bound `sz - 2` of the clamp is negative and wraps
        // around when taken as an unsigned number.
        return usize::MAX - 1 + sz;
    }
    math::clamp(first - 1, 0, sz as isize - 2) as usize
}

/// `pred` answers as the spec predicate `p` does on the indices it is
/// asked about, and `p` holds on a prefix of `1..sz - 1` and on none of the
/// indices after it.
pub open spec fn answers_by_prefix<F: Fn(usize) -> bool>(
    pred: F,
    p: spec_fn(usize) -> bool,
    sz: usize,
) -> bool {
    &&& forall|i: usize, b: bool|
        1 <= i && i + 1 < sz && #[trigger] call_ensures(pred, (i,), b) ==> b == p(i)
    &&& forall|i: usize, j: usize| 1 <= i <= j && j + 1 < sz && #[trigger] p(j) ==> #[trigger] p(i)
}

/// For a predicate that is true on a prefix of the indices and false after
/// it, the interval that `find_interval` returns starts at the last index
/// where the predicate holds (or at 0 when it holds nowhere): the predicate
/// holds on `1..=r` and on no index of `r + 1..sz - 1`. So there is only one
/// such interval, whatever order the search asked in.
pub proof fn lemma_interval_start_is_last_true<F: Fn(usize) -> bool>(
    pred: F,
    p: spec_fn(usize) -> bool,
    sz: usize,
    r: usize,
)
    requires
        answers_by_prefix(pred, p, sz),
        is_interval_start(pred, sz, r),
    ensures
        forall|i: usize| 1 <= i <= r ==> #[trigger] p(i),
        forall|i: usize| r < i && i + 1 < sz ==> !#[trigger] p(i),
{
    if r >= 1 {
        assert(p(r));
    }
    if r + 2 < sz {
        assert(!p((r + 1) as usize));
    }
}

/// Two interval starts of the same prefix predicate are the same index.
pub proof fn lemma_interval_start_unique<F: Fn(usize) -> bool>(
    pred: F,
    p: spec_fn(usize) -> bool,
    sz: usize,
    r1: usize,
    r2: usize,
)
    requires
        answers_by_prefix(pred, p, sz),
        is_interval_start(pred, sz, r1),
        is_interval_start(pred, sz, r2),
    ensures
        r1 == r2,
{
    lemma_interval_start_is_last_true(pred, p, sz, r1);
    lemma_interval_start_is_last_true(pred, p, sz, r2);
    if r1 < r2 {
        assert(p(r2));
    } else if r2 < r1 {
        assert(p(r1));
    }
}

/// `compare` has answered `true` for each of the first `n` pairs of
/// neighbours of `s`.
pub open spec fn neighbours_pass<T, F: Fn(&T, &T) -> bool>(compare: F, s: Seq<T>, n: int) -> bool {
    forall|i: int| 0 <= i < n ==> #[trigger] call_ensures(compare, (&s[i], &s[i + 1]), true)
}

/// Whether `compare` holds for every pair of neighbours in `slice`. Stops at
/// the first pair for which it does not.
pub fn is_sorted_by<T: PartialOrd, F>(slice: &[T], compare: F) -> (r: bool)
    where
        F: Fn(&T, &T) -> bool,
    requires
        forall|i: int| 0 <= i < slice@.len() - 1 ==> #[trigger] call_requires(compare, (&slice@[i], &slice@[i + 1])),
    ensures
        r ==> neighbours_pass(compare, slice@, slice@.len() - 1),
        !r ==> exists|i: int|
            0 <= i < slice@.len() - 1 && neighbours_pass(compare, slice@, i)
                && #[trigger] call_ensures(compare, (&slice@[i], &slice@[i + 1]), false),
{
    let n = slice.len();
    if n < 2 {
        return true;
    }
    let mut i: usize = 0;
    while i + 1 < n
        invariant
            n == slice@.len(),
            n >= 2,
            i + 1 <= n,
            forall|k: int| 0 <= k < slice@.len() - 1 ==> #[trigger] call_requires(compare, (&slice@[k], &slice@[k + 1])),
            neighbours_pass(compare, slice@, i as int),
        decreases n - i,
    {
        if !compare(&slice[i], &slice[i + 1]) {
            return false;
        }
        i += 1;
    }
    true
}

/// Neighbour `i` of `s` is smaller than neighbour `i + 1`, by the order that
/// `T` declares.
pub open spec fn neighbours_increase<T: PartialOrd>(s: Seq<T>, i: int) -> bool {
    s[i].is_lt(&s[i + 1])
}

/// Whether the elements of `slice` strictly increase.
pub fn is_sorted<T: PartialOrd>(slice: &[T]) -> (r: bool)
    ensures
        T::obeys_partial_cmp_spec() ==> (r <==> forall|i: int|
            0 <= i < slice@.len() - 1 ==> #[trigger] neighbours_increase(slice@, i)),
{
    let less = |a: &T, b: &T| -> (c: bool)
        ensures
            T::obeys_partial_cmp_spec() ==> (c == a.is_lt(b)),
        { a < b };
    let r = is_sorted_by(slice, less);
    proof {
        if T::obeys_partial_cmp_spec() {
            if r {
                assert forall|i: int| 0 <= i < slice@.len() - 1 implies #[trigger] neighbours_increase(slice@, i) by {
                    assert(call_ensures(less, (&slice@[i], &slice@[i + 1]), true));
                }
            } else {
                let i = choose|i: int|
                    0 <= i < slice@.len() - 1 && neighbours_pass(less, slice@, i)
                        && #[trigger] call_ensures(less, (&slice@[i], &slice@[i + 1]), false);
                assert(!neighbours_increase(slice@, i));
            }
        }
    }
    r
}

} // verus!
