//! A two-dimensional row-of-rows container, kept rectangular by its
//! well-formedness condition. Its element-wise arithmetic was never
//! finished and is deliberately not offered; the `Array` type is the
//! arithmetic container.

use vstd::prelude::*;

verus! {

/// A rectangular two-dimensional container stored as rows.
#[derive(Clone)]
pub struct Matrix<T> {
    data: Vec<Vec<T>>,
}

impl<T> Matrix<T> {
    /// The rows, each as the sequence of its elements.
    pub closed spec fn rows(&self) -> Seq<Seq<T>> {
        Seq::new(self.data@.len(), |i: int| self.data@[i]@)
    }

    /// Well-formedness: at least one row is present and every row has
    /// the same length as the first.
    pub open spec fn wf(&self) -> bool {
        &&& self.rows().len() >= 1
        &&& forall|i: int|
            0 <= i < self.rows().len() ==> #[trigger] self.rows()[i].len()
                == self.rows()[0].len()
    }

    /// The canonical empty matrix: one row with no elements.
    pub fn new() -> (r: Matrix<T>)
        ensures
            r.wf(),
            r.rows().len() == 1,
            r.rows()[0].len() == 0,
    {
        let row: Vec<T> = Vec::new();
        let data: Vec<Vec<T>> = vec![row];
        Matrix { data }
    }

    /// Whether every row of the given data has the same length as the
    /// first row; the data must hold at least one row to compare with.
    pub fn integrity_check(data: &Vec<Vec<T>>) -> (r: bool)
        requires
            data@.len() >= 1,
        ensures
            r <==> forall|i: int|
                0 <= i < data@.len() ==> #[trigger] data@[i]@.len() == data@[0]@.len(),
    {
        let valid_vector_size = data[0].len();
        let mut i: usize = 0;
        while i < data.len()
            invariant
                data@.len() >= 1,
                i <= data@.len(),
                valid_vector_size == data@[0]@.len(),
                forall|j: int| 0 <= j < i ==> #[trigger] data@[j]@.len() == data@[0]@.len(),
            decreases data@.len() - i,
        {
            if data[i].len() != valid_vector_size {
                return false;
            }
            i = i + 1;
        }
        true
    }

    /// Constructs a matrix from rectangular row data: at least one row,
    /// all rows of one length, as `integrity_check` tests.
    pub fn of(data: Vec<Vec<T>>) -> (r: Matrix<T>)
        requires
            data@.len() >= 1,
            forall|i: int| 0 <= i < data@.len() ==> #[trigger] data@[i]@.len() == data@[0]@.len(),
        ensures
            r.wf(),
            r.rows().len() == data@.len(),
            forall|i: int| 0 <= i < data@.len() ==> #[trigger] r.rows()[i] == data@[i]@,
    {
        Matrix { data }
    }

    /// Reads the element in row `x`, column `y`.
    pub fn get_element(&self, x: usize, y: usize) -> (r: &T)
        requires
            self.wf(),
            x < self.rows().len(),
            y < self.rows()[x as int].len(),
        ensures
            *r == self.rows()[x as int][y as int],
    {
        &self.data[x][y]
    }

    /// The extent of the matrix: row count, then column count.
    pub fn size(&self) -> (r: [usize; 2])
        requires
            self.wf(),
        ensures
            r@.len() == 2,
            r@[0] == self.rows().len(),
            r@[1] == self.rows()[0].len(),
    {
        let data = &self.data;
        [data.len(), data[0].len()]
    }
}

} // verus!
