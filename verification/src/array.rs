//! The dense multi-dimensional array container: a flat element buffer
//! paired with an ordered sequence of axis sizes, with column-major
//! multi-index lookup.

use crate::arith::{
    add_in_range, dims_equal, div_i64_exec, div_in_range, mul_in_range, seq_add, seq_div,
    seq_mul, seq_sub, sub_in_range,
};
use crate::shape::{
    flat_len, flat_offset, lemma_offset_in_bounds, lemma_prod_positive, lemma_prod_push,
    lemma_prod_split, lemma_prod_zero, seq_prod, valid_index,
};
use vstd::prelude::*;

verus! {

/// The failure kinds the container signals. Every one of them marks a
/// precondition violation that is reported before any partial work is
/// done.
#[derive(Clone, Copy, Debug, PartialEq, Eq, Structural)]
pub enum ArrayError {
    /// Construction was given flat data whose length is not the product
    /// of the declared dimensions.
    ShapeSizeMismatch,
    /// Lookup was given an empty multi-index.
    EmptyIndex,
    /// Lookup was given a multi-index whose length differs from the
    /// array's rank.
    RankMismatch { expected: usize, actual: usize },
    /// Lookup was given a per-axis index that is not strictly below that
    /// axis's size; `axis` is the first offending axis.
    IndexOutOfBounds { axis: usize, index: usize, bound: usize },
    /// A binary element-wise operation was given operands whose
    /// dimension sequences are not identical.
    ShapeMismatch,
}

/// A fixed-shape, dense, homogeneous multi-dimensional container. The
/// element buffer is flat; axis 0 varies fastest in it (stride 1), and
/// each later axis's stride is the product of all earlier axes' sizes.
#[derive(Clone)]
pub struct Array<T> {
    dimensions: Vec<usize>,
    data: Vec<T>,
}

impl<T> Array<T> {
    /// The shape: the ordered sequence of per-axis sizes.
    pub closed spec fn dims(&self) -> Seq<usize> {
        self.dimensions@
    }

    /// The flat element buffer, in column-major order.
    pub closed spec fn elems(&self) -> Seq<T> {
        self.data@
    }

    /// Well-formedness: at least one axis is always present, and the
    /// buffer holds exactly the product of the axis sizes.
    pub open spec fn wf(&self) -> bool {
        &&& self.dims().len() >= 1
        &&& self.elems().len() == flat_len(self.dims())
    }

    /// The element addressed by a valid multi-index.
    pub open spec fn element_at(&self, idx: Seq<usize>) -> T {
        self.elems()[flat_offset(self.dims(), idx) as int]
    }

    /// The canonical empty array: one axis of size zero and no elements.
    pub fn new() -> (r: Array<T>)
        ensures
            r.wf(),
            r.dims().len() == 1,
            r.dims()[0] == 0,
            r.elems().len() == 0,
    {
        let dimensions: Vec<usize> = vec![0];
        let data: Vec<T> = Vec::new();
        proof {
            assert(dimensions@.skip(1) =~= Seq::<usize>::empty());
            assert(seq_prod(dimensions@) == 0);
        }
        Array { dimensions, data }
    }

    /// The number of elements a dense array of the given shape stores,
    /// when that number is representable: the product of the dimensions,
    /// with an empty dimension sequence giving zero.
    fn checked_data_len(dimensions: &Vec<usize>) -> (r: Option<usize>)
        ensures
            match r {
                Some(n) => n == flat_len(dimensions@),
                None => flat_len(dimensions@) > usize::MAX,
            },
    {
        if dimensions.len() == 0 {
            return Some(0);
        }
        let ghost dims = dimensions@;
        let mut i: usize = 0;
        while i < dimensions.len()
            invariant
                dims == dimensions@,
                i <= dims.len(),
                forall|j: int| 0 <= j < i ==> dims[j] >= 1,
            decreases dims.len() - i,
        {
            if dimensions[i] == 0 {
                proof {
                    lemma_prod_zero(dims, i as int);
                }
                return Some(0);
            }
            i = i + 1;
        }
        // Every axis size is at least 1, so each running product divides
        // the full one; an overflowing step shows the full product is
        // not representable either.
        let mut data_len: usize = 1;
        let mut k: usize = 0;
        proof {
            assert(dims.take(0) =~= Seq::<usize>::empty());
        }
        while k < dimensions.len()
            invariant
                dims == dimensions@,
                k <= dims.len(),
                dims.len() >= 1,
                forall|j: int| 0 <= j < dims.len() ==> dims[j] >= 1,
                data_len == seq_prod(dims.take(k as int)),
            decreases dims.len() - k,
        {
            proof {
                assert(dims.take(k + 1) =~= dims.take(k as int).push(dims[k as int]));
                lemma_prod_push(dims.take(k as int), dims[k as int]);
            }
            data_len = match data_len.checked_mul(dimensions[k]) {
                Some(v) => v,
                None => {
                    proof {
                        lemma_prod_split(dims, k + 1);
                        assert(forall|j: int|
                            0 <= j < dims.skip(k + 1).len() ==> #[trigger] dims.skip(
                                k + 1,
                            )[j] >= 1);
                        lemma_prod_positive(dims.skip(k + 1));
                        let p1 = seq_prod(dims.take(k + 1));
                        let p2 = seq_prod(dims.skip(k + 1));
                        assert(p1 * p2 >= p1 * 1) by (nonlinear_arith)
                            requires
                                p2 >= 1,
                                p1 >= 0,
                        ;
                    }
                    return None;
                },
            };
            k = k + 1;
        }
        proof {
            assert(dims.take(dims.len() as int) =~= dims);
        }
        Some(data_len)
    }

    /// The number of elements a dense array of the given shape stores:
    /// the product of the dimensions, with an empty dimension sequence
    /// giving zero. The product must be representable.
    pub fn get_data_len(dimensions: &Vec<usize>) -> (r: usize)
        requires
            flat_len(dimensions@) <= usize::MAX,
        ensures
            r == flat_len(dimensions@),
    {
        match Self::checked_data_len(dimensions) {
            Some(n) => n,
            None => {
                proof {
                    assert(false);
                }
                0
            },
        }
    }

    /// Constructs an array with the given shape and flat contents, or
    /// reports `ShapeSizeMismatch` when the data length is not the
    /// product of the dimensions; nothing is truncated or padded.
    pub fn of(dimensions: Vec<usize>, data: Vec<T>) -> (r: Result<Array<T>, ArrayError>)
        requires
            dimensions@.len() >= 1,
        ensures
            match r {
                Ok(a) => {
                    &&& data@.len() == flat_len(dimensions@)
                    &&& a.wf()
                    &&& a.dims() == dimensions@
                    &&& a.elems() == data@
                },
                Err(e) => {
                    &&& data@.len() != flat_len(dimensions@)
                    &&& e == ArrayError::ShapeSizeMismatch
                },
            },
    {
        let matches_product = match Self::checked_data_len(&dimensions) {
            Some(n) => data.len() == n,
            None => false,
        };
        if !matches_product {
            proof {
                assert(data.len() <= usize::MAX);
            }
            return Err(ArrayError::ShapeSizeMismatch);
        }
        Ok(Array { dimensions, data })
    }

    /// The shape, readable from outside.
    pub fn dimensions(&self) -> (r: &Vec<usize>)
        ensures
            r@ == self.dims(),
    {
        &self.dimensions
    }

    /// The flat element buffer, readable from outside.
    pub fn data(&self) -> (r: &Vec<T>)
        ensures
            r@ == self.elems(),
    {
        &self.data
    }

    /// Looks up one element by multi-index. The multi-index must be
    /// non-empty, match the rank, and stay below each axis's size;
    /// otherwise the matching failure kind is reported, naming for an
    /// out-of-bounds axis the first axis violated, the supplied index
    /// and the axis's size.
    pub fn index(&self, array_index: Vec<usize>) -> (r: Result<&T, ArrayError>)
        requires
            self.wf(),
        ensures
            match r {
                Ok(v) => {
                    &&& valid_index(self.dims(), array_index@)
                    &&& *v == self.element_at(array_index@)
                },
                Err(ArrayError::EmptyIndex) => array_index@.len() == 0,
                Err(ArrayError::RankMismatch { expected, actual }) => {
                    &&& array_index@.len() != 0
                    &&& array_index@.len() != self.dims().len()
                    &&& expected == self.dims().len()
                    &&& actual == array_index@.len()
                },
                Err(ArrayError::IndexOutOfBounds { axis, index, bound }) => {
                    &&& array_index@.len() == self.dims().len()
                    &&& array_index@.len() >= 1
                    &&& axis < self.dims().len()
                    &&& forall|j: int| 0 <= j < axis ==> array_index@[j] < self.dims()[j]
                    &&& index == array_index@[axis as int]
                    &&& bound == self.dims()[axis as int]
                    &&& index >= bound
                },
                Err(_) => false,
            },
    {
        if array_index.len() == 0 {
            return Err(ArrayError::EmptyIndex);
        }
        if array_index.len() != self.dimensions.len() {
            return Err(ArrayError::RankMismatch {
                expected: self.dimensions.len(),
                actual: array_index.len(),
            });
        }
        let ghost dims = self.dimensions@;
        let ghost idx = array_index@;
        let rank = self.dimensions.len();
        let mut axis: usize = 0;
        while axis < rank
            invariant
                self.wf(),
                dims == self.dimensions@,
                idx == array_index@,
                rank == dims.len(),
                idx.len() == rank,
                rank >= 1,
                axis <= rank,
                forall|j: int| 0 <= j < axis ==> idx[j] < dims[j],
            decreases rank - axis,
        {
            if array_index[axis] >= self.dimensions[axis] {
                return Err(ArrayError::IndexOutOfBounds {
                    axis,
                    index: array_index[axis],
                    bound: self.dimensions[axis],
                });
            }
            axis = axis + 1;
        }
        assert(valid_index(dims, idx));
        proof {
            lemma_offset_in_bounds(dims, idx);
            assert(self.data.len() <= usize::MAX);
            assert(flat_len(dims) <= usize::MAX);
            assert(idx.skip(0) =~= idx);
            assert(dims.skip(0) =~= dims);
            assert(dims.take(0) =~= Seq::<usize>::empty());
        }
        let mut position: usize = 0;
        let mut offset: usize = 1;
        let mut i: usize = 0;
        while i < rank
            invariant
                self.wf(),
                dims == self.dimensions@,
                idx == array_index@,
                rank == dims.len(),
                valid_index(dims, idx),
                flat_offset(dims, idx) < flat_len(dims),
                flat_len(dims) <= usize::MAX,
                i <= rank,
                offset == seq_prod(dims.take(i as int)),
                position + offset * flat_offset(dims.skip(i as int), idx.skip(i as int))
                    == flat_offset(dims, idx),
            decreases rank - i,
        {
            proof {
                let dsuf = dims.skip(i as int);
                let isuf = idx.skip(i as int);
                assert(dsuf[0] == dims[i as int]);
                assert(isuf[0] == idx[i as int]);
                assert(dsuf.skip(1) =~= dims.skip(i + 1));
                assert(isuf.skip(1) =~= idx.skip(i + 1));
                let fnext = flat_offset(dims.skip(i + 1), idx.skip(i + 1));
                assert(flat_offset(dsuf, isuf)
                    == (idx[i as int] as nat) + (dims[i as int] as nat) * fnext);
                assert(offset * ((idx[i as int] as nat) + (dims[i as int] as nat) * fnext)
                    == offset * (idx[i as int] as nat)
                        + (offset * (dims[i as int] as nat)) * fnext) by (nonlinear_arith);
                assert(position + offset * (idx[i as int] as nat)
                    + (offset * (dims[i as int] as nat)) * fnext == flat_offset(dims, idx));
                assert(position + offset * (idx[i as int] as nat) <= flat_offset(dims, idx));
                assert((idx[i as int] as nat) * offset <= flat_offset(dims, idx))
                    by (nonlinear_arith)
                    requires
                        position + offset * (idx[i as int] as nat) <= flat_offset(dims, idx),
                ;
                // The next running product is still bounded by the full
                // product, because every remaining axis size is at least 1.
                assert(dims.take(i + 1) =~= dims.take(i as int).push(dims[i as int]));
                lemma_prod_push(dims.take(i as int), dims[i as int]);
                lemma_prod_split(dims, i + 1);
                assert(forall|k: int|
                    0 <= k < dims.skip(i + 1).len() ==> #[trigger] dims.skip(i + 1)[k] >= 1);
                lemma_prod_positive(dims.skip(i + 1));
                let ptake = seq_prod(dims.take(i + 1));
                let pskip = seq_prod(dims.skip(i + 1));
                assert(ptake * pskip >= ptake * 1) by (nonlinear_arith)
                    requires
                        pskip >= 1,
                        ptake >= 0,
                ;
                assert(ptake <= seq_prod(dims));
            }
            position = position + array_index[i] * offset;
            offset = offset * self.dimensions[i];
            i = i + 1;
        }
        proof {
            assert(i == rank);
            assert(idx.skip(i as int).len() == 0);
            assert(flat_offset(dims.skip(i as int), idx.skip(i as int)) == 0);
            assert(offset * flat_offset(dims.skip(i as int), idx.skip(i as int)) == 0)
                by (nonlinear_arith)
                requires
                    flat_offset(dims.skip(i as int), idx.skip(i as int)) == 0,
            ;
            assert(position == flat_offset(dims, idx));
        }
        Ok(&self.data[position])
    }
}

impl Array<i64> {
    /// Element-wise addition in place: every element of the receiver
    /// gains the corresponding element of the addend. Operands whose
    /// shapes differ are rejected with `ShapeMismatch` before any
    /// element is touched, and the receiver is left unchanged.
    pub fn add_assign(&mut self, addend: Array<i64>) -> (r: Result<(), ArrayError>)
        requires
            old(self).wf(),
            addend.wf(),
            old(self).dims() == addend.dims() ==> add_in_range(
                old(self).elems(),
                addend.elems(),
            ),
        ensures
            match r {
                Ok(()) => {
                    &&& old(self).dims() == addend.dims()
                    &&& final(self).wf()
                    &&& final(self).dims() == old(self).dims()
                    &&& final(self).elems() == seq_add(old(self).elems(), addend.elems())
                },
                Err(e) => {
                    &&& old(self).dims() != addend.dims()
                    &&& e == ArrayError::ShapeMismatch
                    &&& *final(self) == *old(self)
                },
            },
    {
        if !dims_equal(&self.dimensions, &addend.dimensions) {
            return Err(ArrayError::ShapeMismatch);
        }
        let ghost a0 = self.data@;
        let ghost b0 = addend.data@;
        let n = self.data.len();
        let mut i: usize = 0;
        while i < n
            invariant
                self.dimensions@ == old(self).dims(),
                addend.data@ == b0,
                n == a0.len(),
                self.data@.len() == n,
                b0.len() == n,
                add_in_range(a0, b0),
                i <= n,
                forall|j: int| 0 <= j < i ==> self.data@[j] == seq_add(a0, b0)[j],
                forall|j: int| i <= j < n ==> self.data@[j] == a0[j],
            decreases n - i,
        {
            proof {
                assert(i64::MIN <= a0[i as int] + b0[i as int] <= i64::MAX);
            }
            let s = self.data[i] + addend.data[i];
            self.data.set(i, s);
            i = i + 1;
        }
        proof {
            assert(self.data@ =~= seq_add(a0, b0));
        }
        Ok(())
    }

    /// Element-wise addition, producing a new array of the same shape
    /// whose every element is the sum of the operands' corresponding
    /// elements; operands with differing shapes are rejected with
    /// `ShapeMismatch`.
    pub fn add(self, addend: Array<i64>) -> (r: Result<Array<i64>, ArrayError>)
        requires
            self.wf(),
            addend.wf(),
            self.dims() == addend.dims() ==> add_in_range(self.elems(), addend.elems()),
        ensures
            match r {
                Ok(sum) => {
                    &&& self.dims() == addend.dims()
                    &&& sum.wf()
                    &&& sum.dims() == self.dims()
                    &&& sum.elems() == seq_add(self.elems(), addend.elems())
                },
                Err(e) => {
                    &&& self.dims() != addend.dims()
                    &&& e == ArrayError::ShapeMismatch
                },
            },
    {
        let mut result = self;
        match result.add_assign(addend) {
            Ok(()) => Ok(result),
            Err(e) => Err(e),
        }
    }

    /// Element-wise subtraction in place: every element of the receiver
    /// loses the corresponding element of the subtrahend. Operands
    /// whose shapes differ are rejected with `ShapeMismatch` before any
    /// element is touched, and the receiver is left unchanged.
    pub fn sub_assign(&mut self, subtrahend: Array<i64>) -> (r: Result<(), ArrayError>)
        requires
            old(self).wf(),
            subtrahend.wf(),
            old(self).dims() == subtrahend.dims() ==> sub_in_range(
                old(self).elems(),
                subtrahend.elems(),
            ),
        ensures
            match r {
                Ok(()) => {
                    &&& old(self).dims() == subtrahend.dims()
                    &&& final(self).wf()
                    &&& final(self).dims() == old(self).dims()
                    &&& final(self).elems() == seq_sub(old(self).elems(), subtrahend.elems())
                },
                Err(e) => {
                    &&& old(self).dims() != subtrahend.dims()
                    &&& e == ArrayError::ShapeMismatch
                    &&& *final(self) == *old(self)
                },
            },
    {
        if !dims_equal(&self.dimensions, &subtrahend.dimensions) {
            return Err(ArrayError::ShapeMismatch);
        }
        let ghost a0 = self.data@;
        let ghost b0 = subtrahend.data@;
        let n = self.data.len();
        let mut i: usize = 0;
        while i < n
            invariant
                self.dimensions@ == old(self).dims(),
                subtrahend.data@ == b0,
                n == a0.len(),
                self.data@.len() == n,
                b0.len() == n,
                sub_in_range(a0, b0),
                i <= n,
                forall|j: int| 0 <= j < i ==> self.data@[j] == seq_sub(a0, b0)[j],
                forall|j: int| i <= j < n ==> self.data@[j] == a0[j],
            decreases n - i,
        {
            proof {
                assert(i64::MIN <= a0[i as int] - b0[i as int] <= i64::MAX);
            }
            let s = self.data[i] - subtrahend.data[i];
            self.data.set(i, s);
            i = i + 1;
        }
        proof {
            assert(self.data@ =~= seq_sub(a0, b0));
        }
        Ok(())
    }

    /// Element-wise subtraction, producing a new array of the same
    /// shape whose every element is the difference of the operands'
    /// corresponding elements; operands with differing shapes are
    /// rejected with `ShapeMismatch`.
    pub fn sub(self, subtrahend: Array<i64>) -> (r: Result<Array<i64>, ArrayError>)
        requires
            self.wf(),
            subtrahend.wf(),
            self.dims() == subtrahend.dims() ==> sub_in_range(self.elems(), subtrahend.elems()),
        ensures
            match r {
                Ok(diff) => {
                    &&& self.dims() == subtrahend.dims()
                    &&& diff.wf()
                    &&& diff.dims() == self.dims()
                    &&& diff.elems() == seq_sub(self.elems(), subtrahend.elems())
                },
                Err(e) => {
                    &&& self.dims() != subtrahend.dims()
                    &&& e == ArrayError::ShapeMismatch
                },
            },
    {
        let mut result = self;
        match result.sub_assign(subtrahend) {
            Ok(()) => Ok(result),
            Err(e) => Err(e),
        }
    }

    /// Element-wise (Hadamard) multiplication in place: every element
    /// of the receiver is multiplied by the corresponding element of
    /// the multiplicand. Operands whose shapes differ are rejected with
    /// `ShapeMismatch` before any element is touched, and the receiver
    /// is left unchanged. This is not a matrix product.
    pub fn mul_assign(&mut self, multiplicand: Array<i64>) -> (r: Result<(), ArrayError>)
        requires
            old(self).wf(),
            multiplicand.wf(),
            old(self).dims() == multiplicand.dims() ==> mul_in_range(
                old(self).elems(),
                multiplicand.elems(),
            ),
        ensures
            match r {
                Ok(()) => {
                    &&& old(self).dims() == multiplicand.dims()
                    &&& final(self).wf()
                    &&& final(self).dims() == old(self).dims()
                    &&& final(self).elems() == seq_mul(old(self).elems(), multiplicand.elems())
                },
                Err(e) => {
                    &&& old(self).dims() != multiplicand.dims()
                    &&& e == ArrayError::ShapeMismatch
                    &&& *final(self) == *old(self)
                },
            },
    {
        if !dims_equal(&self.dimensions, &multiplicand.dimensions) {
            return Err(ArrayError::ShapeMismatch);
        }
        let ghost a0 = self.data@;
        let ghost b0 = multiplicand.data@;
        let n = self.data.len();
        let mut i: usize = 0;
        while i < n
            invariant
                self.dimensions@ == old(self).dims(),
                multiplicand.data@ == b0,
                n == a0.len(),
                self.data@.len() == n,
                b0.len() == n,
                mul_in_range(a0, b0),
                i <= n,
                forall|j: int| 0 <= j < i ==> self.data@[j] == seq_mul(a0, b0)[j],
                forall|j: int| i <= j < n ==> self.data@[j] == a0[j],
            decreases n - i,
        {
            proof {
                assert(i64::MIN <= a0[i as int] * b0[i as int] <= i64::MAX);
            }
            let s = self.data[i] * multiplicand.data[i];
            self.data.set(i, s);
            i = i + 1;
        }
        proof {
            assert(self.data@ =~= seq_mul(a0, b0));
        }
        Ok(())
    }

    /// Element-wise (Hadamard) multiplication, producing a new array of
    /// the same shape whose every element is the product of the
    /// operands' corresponding elements; operands with differing shapes
    /// are rejected with `ShapeMismatch`. This is not a matrix product.
    pub fn mul(self, multiplicand: Array<i64>) -> (r: Result<Array<i64>, ArrayError>)
        requires
            self.wf(),
            multiplicand.wf(),
            self.dims() == multiplicand.dims() ==> mul_in_range(
                self.elems(),
                multiplicand.elems(),
            ),
        ensures
            match r {
                Ok(prod) => {
                    &&& self.dims() == multiplicand.dims()
                    &&& prod.wf()
                    &&& prod.dims() == self.dims()
                    &&& prod.elems() == seq_mul(self.elems(), multiplicand.elems())
                },
                Err(e) => {
                    &&& self.dims() != multiplicand.dims()
                    &&& e == ArrayError::ShapeMismatch
                },
            },
    {
        let mut result = self;
        match result.mul_assign(multiplicand) {
            Ok(()) => Ok(result),
            Err(e) => Err(e),
        }
    }

    /// Element-wise division in place, with the scalar type's own
    /// truncating division: every element of the receiver is divided by
    /// the corresponding element of the divisor. Operands whose shapes
    /// differ are rejected with `ShapeMismatch` before any element is
    /// touched, and the receiver is left unchanged.
    pub fn div_assign(&mut self, divisor: Array<i64>) -> (r: Result<(), ArrayError>)
        requires
            old(self).wf(),
            divisor.wf(),
            old(self).dims() == divisor.dims() ==> div_in_range(
                old(self).elems(),
                divisor.elems(),
            ),
        ensures
            match r {
                Ok(()) => {
                    &&& old(self).dims() == divisor.dims()
                    &&& final(self).wf()
                    &&& final(self).dims() == old(self).dims()
                    &&& final(self).elems() == seq_div(old(self).elems(), divisor.elems())
                },
                Err(e) => {
                    &&& old(self).dims() != divisor.dims()
                    &&& e == ArrayError::ShapeMismatch
                    &&& *final(self) == *old(self)
                },
            },
    {
        if !dims_equal(&self.dimensions, &divisor.dimensions) {
            return Err(ArrayError::ShapeMismatch);
        }
        let ghost a0 = self.data@;
        let ghost b0 = divisor.data@;
        let n = self.data.len();
        let mut i: usize = 0;
        while i < n
            invariant
                self.dimensions@ == old(self).dims(),
                divisor.data@ == b0,
                n == a0.len(),
                self.data@.len() == n,
                b0.len() == n,
                div_in_range(a0, b0),
                i <= n,
                forall|j: int| 0 <= j < i ==> self.data@[j] == seq_div(a0, b0)[j],
                forall|j: int| i <= j < n ==> self.data@[j] == a0[j],
            decreases n - i,
        {
            proof {
                assert(b0[i as int] != 0 && !(a0[i as int] == i64::MIN && b0[i as int] == -1));
            }
            let s = div_i64_exec(self.data[i], divisor.data[i]);
            self.data.set(i, s);
            i = i + 1;
        }
        proof {
            assert(self.data@ =~= seq_div(a0, b0));
        }
        Ok(())
    }

    /// Element-wise division, producing a new array of the same shape
    /// whose every element is the truncating quotient of the operands'
    /// corresponding elements; operands with differing shapes are
    /// rejected with `ShapeMismatch`.
    pub fn div(self, divisor: Array<i64>) -> (r: Result<Array<i64>, ArrayError>)
        requires
            self.wf(),
            divisor.wf(),
            self.dims() == divisor.dims() ==> div_in_range(self.elems(), divisor.elems()),
        ensures
            match r {
                Ok(quot) => {
                    &&& self.dims() == divisor.dims()
                    &&& quot.wf()
                    &&& quot.dims() == self.dims()
                    &&& quot.elems() == seq_div(self.elems(), divisor.elems())
                },
                Err(e) => {
                    &&& self.dims() != divisor.dims()
                    &&& e == ArrayError::ShapeMismatch
                },
            },
    {
        let mut result = self;
        match result.div_assign(divisor) {
            Ok(()) => Ok(result),
            Err(e) => Err(e),
        }
    }
}

impl<T: Copy> Array<T> {
    /// Constructs an array of the given shape where every element is an
    /// independent copy of `value`; a shape with a zero-sized axis gives
    /// an empty buffer.
    pub fn fill(dimensions: Vec<usize>, value: T) -> (r: Array<T>)
        requires
            dimensions@.len() >= 1,
            flat_len(dimensions@) <= usize::MAX,
        ensures
            r.wf(),
            r.dims() == dimensions@,
            r.elems().len() == flat_len(dimensions@),
            forall|i: int| 0 <= i < r.elems().len() ==> r.elems()[i] == value,
    {
        let n = Self::get_data_len(&dimensions);
        let mut data: Vec<T> = Vec::new();
        while data.len() < n
            invariant
                data@.len() <= n,
                forall|i: int| 0 <= i < data@.len() ==> data@[i] == value,
            decreases n - data@.len(),
        {
            data.push(value);
        }
        Array { dimensions, data }
    }
}

} // verus!
