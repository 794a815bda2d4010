//! The mathematical model of array shapes: the flat storage size of a
//! dimension sequence, and the column-major flat offset of a multi-index.

use vstd::arithmetic::div_mod::lemma_fundamental_div_mod_converse;
use vstd::prelude::*;

verus! {

/// Product of all entries of a dimension sequence, with the empty
/// product equal to 1.
pub open spec fn seq_prod(dims: Seq<usize>) -> nat
    decreases dims.len(),
{
    if dims.len() == 0 {
        1
    } else {
        (dims[0] as nat) * seq_prod(dims.skip(1))
    }
}

/// Number of elements a dense array of the given shape stores: the
/// product of the dimensions, except that a rank-0 shape stores nothing.
pub open spec fn flat_len(dims: Seq<usize>) -> nat {
    if dims.len() == 0 {
        0
    } else {
        seq_prod(dims)
    }
}

/// A multi-index is valid for a shape when it names one index per axis
/// and each index is strictly below that axis's size.
pub open spec fn valid_index(dims: Seq<usize>, idx: Seq<usize>) -> bool {
    &&& idx.len() >= 1
    &&& idx.len() == dims.len()
    &&& forall|i: int| 0 <= i < idx.len() ==> idx[i] < dims[i]
}

/// Column-major (first-axis-fastest) flat offset of a multi-index:
/// axis 0 has stride 1, and each later axis's stride is the product of
/// all earlier axes' sizes.
pub open spec fn flat_offset(dims: Seq<usize>, idx: Seq<usize>) -> nat
    decreases idx.len(),
{
    if idx.len() == 0 {
        0
    } else {
        (idx[0] as nat) + (dims[0] as nat) * flat_offset(dims.skip(1), idx.skip(1))
    }
}

/// Appending one more axis multiplies the product by its size.
pub proof fn lemma_prod_push(dims: Seq<usize>, d: usize)
    ensures
        seq_prod(dims.push(d)) == seq_prod(dims) * d,
    decreases dims.len(),
{
    let p = dims.push(d);
    assert(p.len() == dims.len() + 1);
    if dims.len() == 0 {
        assert(dims =~= Seq::<usize>::empty());
        assert(p.skip(1) =~= Seq::<usize>::empty());
        assert(seq_prod(Seq::<usize>::empty()) == 1);
        assert(seq_prod(p) == (d as nat) * 1);
    } else {
        assert(p.skip(1) =~= dims.skip(1).push(d));
        lemma_prod_push(dims.skip(1), d);
        assert(p[0] == dims[0]);
        assert(seq_prod(p) == (dims[0] as nat) * (seq_prod(dims.skip(1)) * d));
        assert((dims[0] as nat) * (seq_prod(dims.skip(1)) * d)
            == ((dims[0] as nat) * seq_prod(dims.skip(1))) * d) by (nonlinear_arith);
    }
}

/// The product of a shape splits at any point into the product of the
/// prefix times the product of the suffix.
pub proof fn lemma_prod_split(dims: Seq<usize>, i: int)
    requires
        0 <= i <= dims.len(),
    ensures
        seq_prod(dims) == seq_prod(dims.take(i)) * seq_prod(dims.skip(i)),
    decreases i,
{
    if i == 0 {
        assert(dims.take(0) =~= Seq::<usize>::empty());
        assert(seq_prod(Seq::<usize>::empty()) == 1);
        assert(dims.skip(0) =~= dims);
        assert(seq_prod(dims.take(0)) * seq_prod(dims.skip(0)) == seq_prod(dims));
    } else {
        lemma_prod_split(dims, i - 1);
        let d = dims[i - 1] as nat;
        assert(dims.take(i) =~= dims.take(i - 1).push(dims[i - 1]));
        lemma_prod_push(dims.take(i - 1), dims[i - 1]);
        let s = dims.skip(i - 1);
        assert(s.len() == dims.len() - (i - 1) >= 1);
        assert(s[0] == dims[i - 1]);
        assert(s.skip(1) =~= dims.skip(i));
        assert(seq_prod(s) == d * seq_prod(dims.skip(i)));
        let a = seq_prod(dims.take(i - 1));
        let c = seq_prod(dims.skip(i));
        assert(a * (d * c) == (a * d) * c) by (nonlinear_arith);
        assert(seq_prod(dims) == a * seq_prod(s));
        assert(seq_prod(dims.take(i)) == a * d);
    }
}

/// A shape with a zero-sized axis stores nothing: its product is zero.
pub proof fn lemma_prod_zero(dims: Seq<usize>, k: int)
    requires
        0 <= k < dims.len(),
        dims[k] == 0,
    ensures
        seq_prod(dims) == 0,
    decreases dims.len(),
{
    if k == 0 {
        assert(seq_prod(dims) == 0 * seq_prod(dims.skip(1)));
    } else {
        assert(dims.skip(1)[k - 1] == dims[k]);
        lemma_prod_zero(dims.skip(1), k - 1);
    }
}

/// A product of axis sizes that are all at least 1 is itself at least 1.
pub proof fn lemma_prod_positive(dims: Seq<usize>)
    requires
        forall|i: int| 0 <= i < dims.len() ==> dims[i] >= 1,
    ensures
        seq_prod(dims) >= 1,
    decreases dims.len(),
{
    if dims.len() == 0 {
        assert(seq_prod(dims) == 1);
    } else {
        assert(forall|i: int|
            0 <= i < dims.skip(1).len() ==> dims.skip(1)[i] >= 1);
        lemma_prod_positive(dims.skip(1));
        assert((dims[0] as nat) * seq_prod(dims.skip(1)) >= 1) by (nonlinear_arith)
            requires
                dims[0] as nat >= 1,
                seq_prod(dims.skip(1)) >= 1,
        ;
    }
}

/// The flat offset of a valid multi-index lies strictly inside the flat
/// storage of the shape.
pub proof fn lemma_offset_in_bounds(dims: Seq<usize>, idx: Seq<usize>)
    requires
        valid_index(dims, idx),
    ensures
        flat_offset(dims, idx) < flat_len(dims),
    decreases idx.len(),
{
    let d0 = dims[0] as nat;
    let i0 = idx[0] as nat;
    if idx.len() == 1 {
        assert(idx.skip(1).len() == 0);
        assert(flat_offset(dims.skip(1), idx.skip(1)) == 0);
        assert(dims.skip(1) =~= Seq::<usize>::empty());
        assert(seq_prod(dims.skip(1)) == 1);
        assert(flat_offset(dims, idx) == i0);
        assert(seq_prod(dims) == d0 * 1);
        assert(i0 < d0);
    } else {
        assert(valid_index(dims.skip(1), idx.skip(1)));
        lemma_offset_in_bounds(dims.skip(1), idx.skip(1));
        let p = seq_prod(dims.skip(1));
        let f = flat_offset(dims.skip(1), idx.skip(1));
        assert(flat_len(dims.skip(1)) == p);
        assert(i0 + d0 * f < d0 * p) by (nonlinear_arith)
            requires
                i0 < d0,
                f < p,
        ;
        assert(flat_offset(dims, idx) == i0 + d0 * f);
        assert(flat_len(dims) == d0 * p);
    }
}

/// Two valid multi-indices with the same flat offset are the same
/// index: the column-major offset map is injective.
pub proof fn lemma_offset_injective(dims: Seq<usize>, a: Seq<usize>, b: Seq<usize>)
    requires
        valid_index(dims, a),
        valid_index(dims, b),
        flat_offset(dims, a) == flat_offset(dims, b),
    ensures
        a =~= b,
    decreases a.len(),
{
    let d0 = dims[0] as int;
    let fa = flat_offset(dims.skip(1), a.skip(1)) as int;
    let fb = flat_offset(dims.skip(1), b.skip(1)) as int;
    let off = flat_offset(dims, a) as int;
    assert(off == fa * d0 + (a[0] as int)) by (nonlinear_arith)
        requires
            off == (a[0] as int) + d0 * fa,
    ;
    assert(off == fb * d0 + (b[0] as int)) by (nonlinear_arith)
        requires
            off == (b[0] as int) + d0 * fb,
    ;
    assert(a[0] < dims[0] && b[0] < dims[0]);
    lemma_fundamental_div_mod_converse(off, d0, fa, a[0] as int);
    lemma_fundamental_div_mod_converse(off, d0, fb, b[0] as int);
    assert(a[0] == b[0]);
    assert(fa == fb);
    if a.len() == 1 {
        assert(b.len() == 1);
        assert(a =~= b);
    } else {
        assert(valid_index(dims.skip(1), a.skip(1)));
        assert(valid_index(dims.skip(1), b.skip(1)));
        lemma_offset_injective(dims.skip(1), a.skip(1), b.skip(1));
        assert(forall|i: int| 1 <= i < a.len() ==> a[i] == a.skip(1)[i - 1]);
        assert(forall|i: int| 1 <= i < b.len() ==> b[i] == b.skip(1)[i - 1]);
        assert(a =~= b);
    }
}

} // verus!
