//! The element-level model of the arithmetic operator family: pairwise
//! sequences of sums, differences, products and quotients over `i64`,
//! and the side conditions under which each pair is representable.

use vstd::arithmetic::div_mod::{
    lemma_div_is_ordered_by_denominator, lemma_div_nonincreasing, lemma_div_pos_is_pos,
};
use vstd::prelude::*;

verus! {

/// Every pairwise sum stays within `i64`.
pub open spec fn add_in_range(a: Seq<i64>, b: Seq<i64>) -> bool {
    forall|i: int| 0 <= i < a.len() ==> i64::MIN <= #[trigger] (a[i] + b[i]) <= i64::MAX
}

/// The sequence of pairwise sums.
pub open spec fn seq_add(a: Seq<i64>, b: Seq<i64>) -> Seq<i64> {
    Seq::new(a.len(), |i: int| (a[i] + b[i]) as i64)
}

/// Every pairwise difference stays within `i64`.
pub open spec fn sub_in_range(a: Seq<i64>, b: Seq<i64>) -> bool {
    forall|i: int| 0 <= i < a.len() ==> i64::MIN <= #[trigger] (a[i] - b[i]) <= i64::MAX
}

/// The sequence of pairwise differences.
pub open spec fn seq_sub(a: Seq<i64>, b: Seq<i64>) -> Seq<i64> {
    Seq::new(a.len(), |i: int| (a[i] - b[i]) as i64)
}

/// Every pairwise product stays within `i64`.
pub open spec fn mul_in_range(a: Seq<i64>, b: Seq<i64>) -> bool {
    forall|i: int| 0 <= i < a.len() ==> i64::MIN <= #[trigger] (a[i] * b[i]) <= i64::MAX
}

/// The sequence of pairwise products.
pub open spec fn seq_mul(a: Seq<i64>, b: Seq<i64>) -> Seq<i64> {
    Seq::new(a.len(), |i: int| (a[i] * b[i]) as i64)
}

/// Every pairwise quotient is defined and representable: no divisor is
/// zero, and no pair divides `i64::MIN` by `-1`.
pub open spec fn div_in_range(a: Seq<i64>, b: Seq<i64>) -> bool {
    forall|i: int| 0 <= i < a.len() ==> #[trigger] b[i] != 0 && !(a[i] == i64::MIN && b[i] == -1)
}

/// One truncating signed quotient, as Rust's `/` computes it.
pub open spec fn div_i64(a: i64, b: i64) -> i64 {
    a.checked_div(b).unwrap()
}

/// The sequence of pairwise quotients, with truncating signed division.
pub open spec fn seq_div(a: Seq<i64>, b: Seq<i64>) -> Seq<i64> {
    Seq::new(a.len(), |i: int| div_i64(a[i], b[i]))
}

/// A nonzero divisor that is not `-1` against `i64::MIN` always yields
/// a representable quotient.
proof fn lemma_div_defined(a: i64, b: i64)
    requires
        b != 0,
        !(a == i64::MIN && b == -1),
    ensures
        a.checked_div(b) is Some,
{
    let x = a as int;
    let d = b as int;
    if x == 0 {
    } else if x > 0 && d > 0 {
        lemma_div_pos_is_pos(x, d);
        lemma_div_nonincreasing(x, d);
    } else if x < 0 && d < 0 {
        lemma_div_pos_is_pos(-x, -d);
        lemma_div_nonincreasing(-x, -d);
        if a == i64::MIN {
            // The divisor is at most -2, so the quotient of the
            // magnitudes is at most half of 2^63, which fits.
            lemma_div_is_ordered_by_denominator(-x, 2, -d);
            assert((-x) / 2 <= i64::MAX as int);
        }
    } else if x < 0 {
        lemma_div_pos_is_pos(-x, d);
        lemma_div_nonincreasing(-x, d);
    } else {
        lemma_div_pos_is_pos(x, -d);
        lemma_div_nonincreasing(x, -d);
    }
}

/// Truncating signed division as an executable step, total on the
/// inputs `div_in_range` admits pairwise.
pub(crate) fn div_i64_exec(a: i64, b: i64) -> (r: i64)
    requires
        b != 0,
        !(a == i64::MIN && b == -1),
    ensures
        r == div_i64(a, b),
{
    proof {
        lemma_div_defined(a, b);
    }
    a.checked_div(b).unwrap()
}

/// Whether two shape vectors are identical, axis by axis.
pub(crate) fn dims_equal(a: &Vec<usize>, b: &Vec<usize>) -> (r: bool)
    ensures
        r <==> a@ == b@,
{
    if a.len() != b.len() {
        return false;
    }
    let mut i: usize = 0;
    while i < a.len()
        invariant
            i <= a@.len(),
            a@.len() == b@.len(),
            forall|j: int| 0 <= j < i ==> a@[j] == b@[j],
        decreases a@.len() - i,
    {
        if a[i] != b[i] {
            return false;
        }
        i = i + 1;
    }
    proof {
        assert(a@ =~= b@);
    }
    true
}

} // verus!
