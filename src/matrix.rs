//! Rectangular matrices of station indices and of distances, held in
//! `ndarray` arrays. Each matrix is seen through the sequence of its rows.
use ndarray::Array2;
use vstd::prelude::*;

verus! {

/// Every row of `rows` has length `cols`.
pub open spec fn rows_have_len<T>(rows: Seq<Seq<T>>, cols: nat) -> bool {
    forall|i: int| 0 <= i < rows.len() ==> (#[trigger] rows[i]).len() == cols
}

/// `rows` is an `n` by `n` matrix.
pub open spec fn is_square<T>(rows: Seq<Seq<T>>, n: nat) -> bool {
    rows.len() == n && rows_have_len(rows, n)
}

/// The rows of a vector of vectors, as sequences.
pub open spec fn vec_rows<T>(rows: Seq<Vec<T>>) -> Seq<Seq<T>> {
    rows.map_values(|r: Vec<T>| r@)
}

/// `rows` with the cell at `(i, j)` replaced by `v`.
pub open spec fn update_cell<T>(rows: Seq<Seq<T>>, i: int, j: int, v: T) -> Seq<Seq<T>> {
    rows.update(i, rows[i].update(j, v))
}

/// A matrix of station indices (successor, direction and interchange
/// tables).
#[verifier::external_body]
pub struct IndexMatrix {
    cells: Array2<usize>,
}

/// The rows of an index matrix.
pub uninterp spec fn index_rows(m: IndexMatrix) -> Seq<Seq<usize>>;

impl View for IndexMatrix {
    type V = Seq<Seq<usize>>;

    open spec fn view(&self) -> Seq<Seq<usize>> {
        index_rows(*self)
    }
}

impl IndexMatrix {
    /// Relies on ndarray's `Array2::from_elem`: an `n` by `n` array whose
    /// cells all hold `v`.
    #[verifier::external_body]
    pub fn filled(n: usize, v: usize) -> (r: IndexMatrix)
        requires
            n * n <= isize::MAX,
        ensures
            is_square(index_rows(r), n as nat),
            forall|i: int, j: int| 0 <= i < n && 0 <= j < n ==> #[trigger] index_rows(r)[i][j] == v,
    {
        IndexMatrix { cells: Array2::from_elem((n, n), v) }
    }

    /// Relies on ndarray's `Array2::from_shape_fn`: the array whose cell
    /// `(i, j)` is `rows[i][j]`.
    #[verifier::external_body]
    pub fn from_rows(rows: &Vec<Vec<usize>>) -> (r: IndexMatrix)
        requires
            rows.len() > 0,
            rows_have_len(vec_rows(rows@), rows[0]@.len()),
            rows.len() * rows[0]@.len() <= isize::MAX,
        ensures
            index_rows(r) == vec_rows(rows@),
    {
        let shape = (rows.len(), rows[0].len());
        IndexMatrix { cells: Array2::from_shape_fn(shape, |(i, j)| rows[i][j]) }
    }

    /// Relies on ndarray's `nrows`: the number of rows.
    #[verifier::external_body]
    pub fn nrows(&self) -> (r: usize)
        ensures
            r == index_rows(*self).len(),
    {
        self.cells.nrows()
    }

    /// Relies on ndarray's `ncols`: the length of every row.
    #[verifier::external_body]
    pub fn ncols(&self) -> (r: usize)
        ensures
            rows_have_len(index_rows(*self), r as nat),
    {
        self.cells.ncols()
    }

    /// Relies on ndarray's indexing by `(row, column)`.
    #[verifier::external_body]
    pub fn get(&self, i: usize, j: usize) -> (r: usize)
        requires
            i < index_rows(*self).len(),
            j < index_rows(*self)[i as int].len(),
        ensures
            r == index_rows(*self)[i as int][j as int],
    {
        self.cells[(i, j)]
    }

    /// Relies on ndarray's mutable indexing by `(row, column)`.
    #[verifier::external_body]
    pub fn set(&mut self, i: usize, j: usize, v: usize)
        requires
            i < index_rows(*old(self)).len(),
            j < index_rows(*old(self))[i as int].len(),
        ensures
            index_rows(*final(self)) == update_cell(index_rows(*old(self)), i as int, j as int, v),
    {
        self.cells[(i, j)] = v;
    }

    /// The rows of the matrix as vectors.
    pub fn to_rows(&self) -> (r: Vec<Vec<usize>>)
        ensures
            vec_rows(r@) == self@,
    {
        let n = self.nrows();
        let m = self.ncols();
        let mut out: Vec<Vec<usize>> = Vec::new();
        let mut i: usize = 0;
        while i < n
            invariant
                n == self@.len(),
                rows_have_len(self@, m as nat),
                i <= n,
                out@.len() == i,
                forall|k: int| 0 <= k < i ==> (#[trigger] out@[k])@ == self@[k],
            decreases n - i,
        {
            let mut row: Vec<usize> = Vec::new();
            let mut j: usize = 0;
            while j < m
                invariant
                    n == self@.len(),
                    rows_have_len(self@, m as nat),
                    i < n,
                    j <= m,
                    row@ == self@[i as int].subrange(0, j as int),
                decreases m - j,
            {
                row.push(self.get(i, j));
                j = j + 1;
                proof {
                    assert(row@ =~= self@[i as int].subrange(0, j as int));
                }
            }
            assert(row@ =~= self@[i as int]);
            out.push(row);
            i = i + 1;
        }
        assert(vec_rows(out@) =~= self@);
        out
    }
}

/// A matrix of arc weights or path lengths.
#[verifier::external_body]
pub struct WeightMatrix {
    cells: Array2<i64>,
}

/// The rows of a weight matrix.
pub uninterp spec fn weight_rows(m: WeightMatrix) -> Seq<Seq<i64>>;

impl View for WeightMatrix {
    type V = Seq<Seq<i64>>;

    open spec fn view(&self) -> Seq<Seq<i64>> {
        weight_rows(*self)
    }
}

impl WeightMatrix {
    /// Relies on ndarray's `Array2::from_shape_fn`: the array whose cell
    /// `(i, j)` is `rows[i][j]`.
    #[verifier::external_body]
    pub fn from_rows(rows: &Vec<Vec<i64>>) -> (r: WeightMatrix)
        requires
            rows.len() > 0,
            rows_have_len(vec_rows(rows@), rows[0]@.len()),
            rows.len() * rows[0]@.len() <= isize::MAX,
        ensures
            weight_rows(r) == vec_rows(rows@),
    {
        let shape = (rows.len(), rows[0].len());
        WeightMatrix { cells: Array2::from_shape_fn(shape, |(i, j)| rows[i][j]) }
    }

    /// Relies on ndarray's `nrows`: the number of rows.
    #[verifier::external_body]
    pub fn nrows(&self) -> (r: usize)
        ensures
            r == weight_rows(*self).len(),
    {
        self.cells.nrows()
    }

    /// Relies on ndarray's `ncols`: the length of every row.
    #[verifier::external_body]
    pub fn ncols(&self) -> (r: usize)
        ensures
            rows_have_len(weight_rows(*self), r as nat),
    {
        self.cells.ncols()
    }

    /// Relies on ndarray's indexing by `(row, column)`.
    #[verifier::external_body]
    pub fn get(&self, i: usize, j: usize) -> (r: i64)
        requires
            i < weight_rows(*self).len(),
            j < weight_rows(*self)[i as int].len(),
        ensures
            r == weight_rows(*self)[i as int][j as int],
    {
        self.cells[(i, j)]
    }

    /// Relies on ndarray's mutable indexing by `(row, column)`.
    #[verifier::external_body]
    pub fn set(&mut self, i: usize, j: usize, v: i64)
        requires
            i < weight_rows(*old(self)).len(),
            j < weight_rows(*old(self))[i as int].len(),
        ensures
            weight_rows(*final(self)) == update_cell(weight_rows(*old(self)), i as int, j as int, v),
    {
        self.cells[(i, j)] = v;
    }

    /// The rows of the matrix as vectors.
    pub fn to_rows(&self) -> (r: Vec<Vec<i64>>)
        ensures
            vec_rows(r@) == self@,
    {
        let n = self.nrows();
        let m = self.ncols();
        let mut out: Vec<Vec<i64>> = Vec::new();
        let mut i: usize = 0;
        while i < n
            invariant
                n == self@.len(),
                rows_have_len(self@, m as nat),
                i <= n,
                out@.len() == i,
                forall|k: int| 0 <= k < i ==> (#[trigger] out@[k])@ == self@[k],
            decreases n - i,
        {
            let mut row: Vec<i64> = Vec::new();
            let mut j: usize = 0;
            while j < m
                invariant
                    n == self@.len(),
                    rows_have_len(self@, m as nat),
                    i < n,
                    j <= m,
                    row@ == self@[i as int].subrange(0, j as int),
                decreases m - j,
            {
                row.push(self.get(i, j));
                j = j + 1;
                proof {
                    assert(row@ =~= self@[i as int].subrange(0, j as int));
                }
            }
            assert(row@ =~= self@[i as int]);
            out.push(row);
            i = i + 1;
        }
        assert(vec_rows(out@) =~= self@);
        out
    }
}

} // verus!
