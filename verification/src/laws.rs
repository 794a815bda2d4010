//! General laws of the container, each stated once over the same models
//! that the operation contracts use, and proved for every input the law
//! admits.

use crate::arith::{seq_add, seq_mul};
use crate::array::Array;
use crate::shape::{
    flat_len, flat_offset, lemma_offset_in_bounds, lemma_offset_injective, valid_index,
};
use vstd::prelude::*;

verus! {

/// Size invariant: every well-formed array stores exactly the product
/// of its dimensions, the quantity its constructors establish and its
/// operations preserve.
pub proof fn lemma_size_invariant<T>(a: Array<T>)
    requires
        a.wf(),
    ensures
        a.elems().len() == flat_len(a.dims()),
        a.dims().len() >= 1,
{
}

/// Fill correctness: an array whose elements all equal one value reads
/// that value back at every valid multi-index.
pub proof fn lemma_fill_reads_constant<T>(a: Array<T>, v: T, idx: Seq<usize>)
    requires
        a.wf(),
        forall|i: int| 0 <= i < a.elems().len() ==> a.elems()[i] == v,
        valid_index(a.dims(), idx),
    ensures
        a.element_at(idx) == v,
{
    lemma_offset_in_bounds(a.dims(), idx);
}

/// Index round-trip: the column-major striding formula sends every
/// valid multi-index to an in-range flat position, and no two distinct
/// valid multi-indices share one, so a lookup addresses exactly the
/// element authored at that logical position in the flat buffer.
pub proof fn lemma_index_round_trip<T>(a: Array<T>, idx: Seq<usize>)
    requires
        a.wf(),
        valid_index(a.dims(), idx),
    ensures
        flat_offset(a.dims(), idx) < a.elems().len(),
        a.element_at(idx) == a.elems()[flat_offset(a.dims(), idx) as int],
        forall|other: Seq<usize>|
            valid_index(a.dims(), other) && flat_offset(a.dims(), other) == flat_offset(
                a.dims(),
                idx,
            ) ==> other == idx,
{
    lemma_offset_in_bounds(a.dims(), idx);
    assert forall|other: Seq<usize>|
        valid_index(a.dims(), other) && flat_offset(a.dims(), other) == flat_offset(
            a.dims(),
            idx,
        ) implies other == idx by {
        lemma_offset_injective(a.dims(), other, idx);
    }
}

/// Element-wise addition is commutative: swapping equally-long operand
/// sequences leaves every pairwise sum unchanged.
pub proof fn lemma_add_commutes(a: Seq<i64>, b: Seq<i64>)
    requires
        a.len() == b.len(),
    ensures
        seq_add(a, b) == seq_add(b, a),
{
    assert(seq_add(a, b) =~= seq_add(b, a));
}

/// Element-wise multiplication is commutative: swapping equally-long
/// operand sequences leaves every pairwise product unchanged.
pub proof fn lemma_mul_commutes(a: Seq<i64>, b: Seq<i64>)
    requires
        a.len() == b.len(),
    ensures
        seq_mul(a, b) == seq_mul(b, a),
{
    assert forall|i: int| 0 <= i < a.len() implies seq_mul(a, b)[i] == seq_mul(b, a)[i] by {
        assert(a[i] * b[i] == b[i] * a[i]) by (nonlinear_arith);
    }
    assert(seq_mul(a, b) =~= seq_mul(b, a));
}

/// Value/in-place equivalence: the value-returning form and the
/// in-place form of one operator family both promise the operands'
/// shape and the same element-wise result sequence, so the fresh array
/// and the mutated receiver are observably the same array.
pub proof fn lemma_value_inplace_agree(
    dims: Seq<usize>,
    elems: Seq<i64>,
    value_result: Array<i64>,
    receiver_after: Array<i64>,
)
    requires
        value_result.dims() == dims,
        value_result.elems() == elems,
        receiver_after.dims() == dims,
        receiver_after.elems() == elems,
    ensures
        value_result.dims() == receiver_after.dims(),
        value_result.elems() == receiver_after.elems(),
{
}

} // verus!
