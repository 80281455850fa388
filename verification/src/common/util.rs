//! Interval search over sorted slices, order checks and named calls.

pub use crate::util::{is_sorted, is_sorted_by};

use vstd::prelude::*;
use vstd::laws_cmp::obeys_partial_cmp_spec_properties;
use vstd::std_specs::cmp::{PartialOrdIs, PartialOrdSpec};

use crate::util::neighbours_increase;

verus! {

/// The comparisons of `T` follow the order that its specification gives.
pub open spec fn ordered<T: PartialOrd>() -> bool {
    T::obeys_partial_cmp_spec()
}

/// Element `i` of `s` is smaller than `item`.
pub open spec fn less_at<T: PartialOrd>(s: Seq<T>, i: int, item: T) -> bool {
    s[i].is_lt(&item)
}

/// Element `i` of `s` and `item` are comparable (neither is NaN).
pub open spec fn comparable_at<T: PartialOrd>(s: Seq<T>, i: int, item: T) -> bool {
    s[i].is_le(&item) || s[i].is_ge(&item)
}

/// `k` is a place where `item` can be inserted into `s`: the element before
/// it is smaller than `item` and the element at it is not.
pub open spec fn is_insertion_point<T: PartialOrd>(s: Seq<T>, item: T, k: int) -> bool {
    &&& 0 <= k <= s.len()
    &&& (k > 0 ==> less_at(s, k - 1, item))
    &&& (k < s.len() ==> !less_at(s, k, item))
}

/// Binary search of the sorted `slice` for the place where `item` belongs:
/// the insertion point of `item` (the number of elements smaller than it),
/// clamped to `slice.len() - 2` so that `r + 1` is still an index of `slice`.
pub fn find_interval<T: PartialOrd>(slice: &[T], item: T) -> (r: usize)
    requires
        slice@.len() >= 2,
        ordered::<T>() ==> forall|i: int|
            0 <= i < slice@.len() ==> #[trigger] comparable_at(slice@, i, item),
    ensures
        r + 2 <= slice@.len(),
        ordered::<T>() ==> exists|k: int|
            #[trigger] is_insertion_point(slice@, item, k) && r == (if k < slice@.len() - 2 {
                k
            } else {
                slice@.len() - 2
            }),
{
    let n = slice.len();
    let mut lo: usize = 0;
    let mut hi: usize = n;
    while lo < hi
        invariant
            n == slice@.len(),
            lo <= hi <= n,
            ordered::<T>() ==> (lo > 0 ==> less_at(slice@, lo - 1, item)),
            ordered::<T>() ==> (hi < n ==> !less_at(slice@, hi as int, item)),
        decreases hi - lo,
    {
        let mid = lo + (hi - lo) / 2;
        if slice[mid] < item {
            lo = mid + 1;
        } else {
            hi = mid;
        }
    }
    proof {
        if ordered::<T>() {
            assert(is_insertion_point(slice@, item, lo as int));
        }
    }
    if lo < n - 2 {
        lo
    } else {
        n - 2
    }
}

/// Runs `f` and hands back what it returned. `name` labels the call for
/// whoever times it; it is not read here.
pub fn measure<T>(name: &str, f: impl FnOnce() -> T) -> (r: T)
    requires
        call_requires(f, ()),
    ensures
        call_ensures(f, (), r),
{
    f()
}

/// Runs the fallible `f` and hands back its value, or the error it failed
/// with. `name` labels the call for whoever times it; it is not read here.
pub fn try_measure<T, E>(name: &str, f: impl FnOnce() -> Result<T, E>) -> (r: Result<T, E>)
    requires
        call_requires(f, ()),
    ensures
        call_ensures(f, (), r),
{
    match f() {
        Ok(value) => Ok(value),
        Err(e) => Err(e),
    }
}

/// In a strictly increasing sequence, element `i` is smaller than every
/// element after it.
pub proof fn lemma_increasing_pairwise<T: PartialOrd>(s: Seq<T>, i: int, j: int)
    requires
        obeys_partial_cmp_spec_properties::<T>(),
        forall|k: int| 0 <= k < s.len() - 1 ==> #[trigger] neighbours_increase(s, k),
        0 <= i < j < s.len(),
    ensures
        s[i].is_lt(&s[j]),
    decreases j - i,
{
    reveal(obeys_partial_cmp_spec_properties);
    if j > i + 1 {
        lemma_increasing_pairwise(s, i, j - 1);
        assert(neighbours_increase(s, j - 1));
    } else {
        assert(neighbours_increase(s, i));
    }
}

/// In a strictly increasing slice the place where an item belongs is
/// unique: every element before it is smaller than the item and no element
/// from it on is. So `find_interval` on a sorted slice returns the number of
/// elements smaller than the item, clamped to `len - 2`.
pub proof fn lemma_sorted_insertion_point<T: PartialOrd>(s: Seq<T>, item: T, k: int)
    requires
        obeys_partial_cmp_spec_properties::<T>(),
        forall|i: int| 0 <= i < s.len() - 1 ==> #[trigger] neighbours_increase(s, i),
        is_insertion_point(s, item, k),
    ensures
        forall|j: int| 0 <= j < k ==> #[trigger] less_at(s, j, item),
        forall|j: int| k <= j < s.len() ==> !#[trigger] less_at(s, j, item),
{
    reveal(obeys_partial_cmp_spec_properties);
    assert forall|j: int| 0 <= j < k implies #[trigger] less_at(s, j, item) by {
        if j < k - 1 {
            lemma_increasing_pairwise(s, j, k - 1);
        }
    }
    assert forall|j: int| k <= j < s.len() implies !#[trigger] less_at(s, j, item) by {
        if j > k {
            lemma_increasing_pairwise(s, k, j);
        }
    }
}

} // verus!
