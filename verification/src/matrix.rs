use vstd::prelude::*;

use crate::arith::default_value;

verus! {

/// A dense matrix, stored row by row.
///
/// The shape is kept as `(columns, rows)`, the order in which
/// `dimensions` reports it.
#[derive(Clone, Debug)]
pub struct FennMatrix<T> {
    data: Vec<T>,
    ncols: usize,
    nrows: usize,
}

/// `r * cols + c` addresses an element of a `rows` by `cols` matrix.
pub(crate) proof fn lemma_cell_in_bounds(r: int, c: int, rows: int, cols: int)
    requires
        0 <= r < rows,
        0 <= c < cols,
    ensures
        0 <= r * cols + c < rows * cols,
        r * cols + c + 1 <= (r + 1) * cols,
        (r + 1) * cols <= rows * cols,
{
    assert(0 <= r * cols) by (nonlinear_arith)
        requires
            0 <= r,
            0 <= cols,
    ;
    assert((r + 1) * cols <= rows * cols) by (nonlinear_arith)
        requires
            r + 1 <= rows,
            0 <= cols,
    ;
    assert((r + 1) * cols == r * cols + cols) by (nonlinear_arith);
}

/// Row `r` of a `rows` by `cols` matrix lies inside its `rows * cols` elements.
pub(crate) proof fn lemma_row_in_bounds(r: int, rows: int, cols: int)
    requires
        0 <= r < rows,
        0 <= cols,
    ensures
        0 <= r * cols,
        r * cols + cols <= rows * cols,
{
    assert(0 <= r * cols) by (nonlinear_arith)
        requires
            0 <= r,
            0 <= cols,
    ;
    assert((r + 1) * cols <= rows * cols) by (nonlinear_arith)
        requires
            r + 1 <= rows,
            0 <= cols,
    ;
    assert((r + 1) * cols == r * cols + cols) by (nonlinear_arith);
}

/// An element-for-element copy of `v`.
fn copy_elems<T: Copy>(v: &Vec<T>) -> (out: Vec<T>)
    ensures
        out@ == v@,
{
    let mut out: Vec<T> = Vec::with_capacity(v.len());
    for i in 0..v.len()
        invariant
            out@ == v@.take(i as int),
    {
        out.push(v[i]);
        assert(out@ =~= v@.take(i + 1));
    }
    assert(out@ =~= v@);
    out
}

impl<T> FennMatrix<T> {
    /// Number of columns.
    pub closed spec fn cols(&self) -> nat {
        self.ncols as nat
    }

    /// Number of rows.
    pub closed spec fn rows(&self) -> nat {
        self.nrows as nat
    }

    /// The elements, row after row.
    pub closed spec fn elems(&self) -> Seq<T> {
        self.data@
    }

    /// The matrix holds exactly `rows * cols` elements.
    pub open spec fn wf(&self) -> bool {
        self.elems().len() == self.rows() * self.cols()
    }

    /// The element in row `r` and column `c`.
    pub open spec fn at(&self, r: int, c: int) -> T {
        self.elems()[r * self.cols() + c]
    }

    /// `self` is the transpose of `m`: row `c` of `self` is column `c` of `m`.
    pub open spec fn transposes(&self, m: FennMatrix<T>) -> bool {
        &&& self.rows() == m.cols()
        &&& self.cols() == m.rows()
        &&& forall|r: int, c: int|
            0 <= r < m.rows() && 0 <= c < m.cols() ==> #[trigger] self.at(c, r) == m.at(r, c)
    }
}

impl<T> View for FennMatrix<T> {
    type V = Seq<Seq<T>>;

    /// The matrix as its sequence of rows.
    open spec fn view(&self) -> Seq<Seq<T>> {
        Seq::new(self.rows(), |r: int| Seq::new(self.cols(), |c: int| self.at(r, c)))
    }
}

impl<T> FennMatrix<T> {
    /// The shape as `(columns, rows)`.
    pub fn dimensions(&self) -> (d: (usize, usize))
        ensures
            d.0 == self.cols(),
            d.1 == self.rows(),
    {
        (self.ncols, self.nrows)
    }

    /// The elements, row after row.
    pub fn as_slice(&self) -> (s: &[T])
        ensures
            s@ == self.elems(),
    {
        self.data.as_slice()
    }

    /// The elements, row after row, as a slice that can be written; the
    /// shape stays as it is.
    pub fn as_mut_slice(&mut self) -> (s: &mut [T])
        ensures
            s@ == old(self).elems(),
            final(s)@ == final(self).elems(),
            final(self).rows() == old(self).rows(),
            final(self).cols() == old(self).cols(),
    {
        self.data.as_mut_slice()
    }

    /// Writes `value` at position `index` of the row-major elements.
    pub(crate) fn set_elem(&mut self, index: usize, value: T)
        requires
            index < old(self).elems().len(),
        ensures
            final(self).elems() == old(self).elems().update(index as int, value),
            final(self).rows() == old(self).rows(),
            final(self).cols() == old(self).cols(),
    {
        self.data.set(index, value);
    }
}

impl<T: Copy + Default> FennMatrix<T> {
    /// A matrix of `dims.0` rows and `dims.1` columns filled with the
    /// default value of `T` (zero for the number types).
    pub fn new(dims: (usize, usize)) -> (m: Self)
        requires
            dims.0 * dims.1 <= usize::MAX,
        ensures
            m.wf(),
            m.rows() == dims.0,
            m.cols() == dims.1,
            exists|zero: T|
                #![trigger default_value(zero)]
                default_value(zero) && forall|i: int| 0 <= i < m.elems().len() ==> m.elems()[i] == zero,
    {
        let zero = T::default();
        let m = Self::filled(dims, zero);
        assert(default_value(zero));
        m
    }
}

impl<T: Copy> FennMatrix<T> {
    /// Builds a matrix of `dims.0` rows and `dims.1` columns from its
    /// elements given row after row.
    pub fn from_vec(data: Vec<T>, dims: (usize, usize)) -> (m: Self)
        requires
            data.len() == dims.0 * dims.1,
        ensures
            m.wf(),
            m.rows() == dims.0,
            m.cols() == dims.1,
            m.elems() == data@,
    {
        FennMatrix { data, ncols: dims.1, nrows: dims.0 }
    }

    /// A matrix of `dims.0` rows and `dims.1` columns whose every element is
    /// `value`.
    pub fn filled(dims: (usize, usize), value: T) -> (m: Self)
        requires
            dims.0 * dims.1 <= usize::MAX,
        ensures
            m.wf(),
            m.rows() == dims.0,
            m.cols() == dims.1,
            forall|i: int| 0 <= i < m.elems().len() ==> m.elems()[i] == value,
    {
        let n = dims.0 * dims.1;
        let mut data: Vec<T> = Vec::with_capacity(n);
        for i in 0..n
            invariant
                data.len() == i,
                forall|j: int| 0 <= j < i ==> data@[j] == value,
        {
            data.push(value);
        }
        FennMatrix { data, ncols: dims.1, nrows: dims.0 }
    }

    /// Builds a matrix from an array of rows: `ROWS` rows of `COLS` columns.
    pub fn from_slice<const COLS: usize, const ROWS: usize>(data: &[[T; COLS]; ROWS]) -> (m: Self)
        requires
            ROWS * COLS <= usize::MAX,
        ensures
            m.wf(),
            m.rows() == ROWS,
            m.cols() == COLS,
            forall|r: int, c: int| 0 <= r < ROWS && 0 <= c < COLS ==> m.at(r, c) == data[r][c],
    {
        let mut flat: Vec<T> = Vec::with_capacity(ROWS * COLS);
        assert(0 * COLS == 0);
        for r in 0..ROWS
            invariant
                flat.len() == r * COLS,
                r <= ROWS,
                ROWS * COLS <= usize::MAX,
                forall|r2: int, c2: int|
                    0 <= r2 < r && 0 <= c2 < COLS ==> flat@[r2 * COLS + c2] == data[r2][c2],
        {
            let row: &[T; COLS] = &data[r];
            for c in 0..COLS
                invariant
                    flat.len() == r * COLS + c,
                    r < ROWS,
                    ROWS * COLS <= usize::MAX,
                    row == data[r as int],
                    forall|r2: int, c2: int|
                        0 <= r2 < r && 0 <= c2 < COLS ==> flat@[r2 * COLS + c2] == data[r2][c2],
                    forall|c2: int| 0 <= c2 < c ==> flat@[r * COLS + c2] == data[r as int][c2],
            {
                proof {
                    lemma_cell_in_bounds(r as int, c as int, ROWS as int, COLS as int);
                }
                let ghost before = flat@;
                flat.push(row[c]);
                assert forall|r2: int, c2: int| 0 <= r2 < r && 0 <= c2 < COLS implies flat@[r2
                    * COLS + c2] == data[r2][c2] by {
                    lemma_cell_in_bounds(r2, c2, r as int, COLS as int);
                    assert(flat@[r2 * COLS + c2] == before[r2 * COLS + c2]);
                }
            }
            proof {
                lemma_row_in_bounds(r as int, ROWS as int, COLS as int);
                assert((r + 1) * COLS == r * COLS + COLS) by (nonlinear_arith);
                assert forall|r2: int, c2: int| 0 <= r2 < r + 1 && 0 <= c2 < COLS implies flat@[r2
                    * COLS + c2] == data[r2][c2] by {
                    if r2 < r {
                    } else {
                        assert(r2 == r);
                    }
                }
            }
        }
        proof {
            assert(ROWS * COLS == COLS * ROWS) by (nonlinear_arith);
        }
        FennMatrix { data: flat, ncols: COLS, nrows: ROWS }
    }

    /// References to the elements of column `col_index`, top to bottom.
    pub fn col(&self, col_index: usize) -> (v: Vec<&T>)
        requires
            self.wf(),
            col_index < self.cols(),
        ensures
            v.len() == self.rows(),
            forall|r: int| 0 <= r < self.rows() ==> *v@[r] == self.at(r, col_index as int),
    {
        let col_size = self.nrows;
        let mut v: Vec<&T> = Vec::with_capacity(col_size);
        for r in 0..col_size
            invariant
                self.wf(),
                col_size == self.rows(),
                col_index < self.cols(),
                self.data.len() == self.rows() * self.cols(),
                v.len() == r,
                forall|r2: int| 0 <= r2 < r ==> *v@[r2] == self.at(r2, col_index as int),
        {
            proof {
                lemma_cell_in_bounds(r as int, col_index as int, self.rows() as int, self.cols() as int);
            }
            v.push(&self.data[r * self.ncols + col_index]);
        }
        v
    }

    /// A new matrix of the same shape holding `f` applied to each element.
    pub fn map<F: Fn(&T) -> T>(&self, f: F) -> (m: FennMatrix<T>)
        requires
            self.wf(),
            forall|i: int| 0 <= i < self.elems().len() ==> f.requires((&self.elems()[i],)),
        ensures
            m.wf(),
            m.rows() == self.rows(),
            m.cols() == self.cols(),
            forall|i: int| 0 <= i < self.elems().len() ==> f.ensures((&self.elems()[i],), m.elems()[i]),
    {
        let n = self.data.len();
        let mut out: Vec<T> = Vec::with_capacity(n);
        for i in 0..n
            invariant
                n == self.elems().len(),
                out.len() == i,
                forall|j: int| 0 <= j < n ==> f.requires((&self.elems()[j],)),
                forall|j: int| 0 <= j < i ==> f.ensures((&self.elems()[j],), out@[j]),
        {
            out.push(f(&self.data[i]));
        }
        FennMatrix { data: out, ncols: self.ncols, nrows: self.nrows }
    }

    #[allow(unused_variables)]
    /// Leaves the matrix as it is: the mapping over the elements is built
    /// lazily and dropped unconsumed, so `f` is never called.
    pub fn mut_map<F: Fn(&mut T) -> T>(&mut self, f: F)
        ensures
            *final(self) == *old(self),
    {
    }

    /// The elements of the transpose, column after column of `self`.
    fn transposed_data(&self) -> (out: Vec<T>)
        requires
            self.wf(),
        ensures
            out.len() == self.rows() * self.cols(),
            forall|r: int, c: int|
                0 <= r < self.rows() && 0 <= c < self.cols() ==> out@[c * self.rows() + r]
                    == self.at(r, c),
    {
        let cols = self.ncols;
        let rows = self.nrows;
        let n = self.data.len();
        let mut out: Vec<T> = Vec::with_capacity(n);
        assert(0 * rows == 0);
        for c in 0..cols
            invariant
                self.wf(),
                cols == self.cols(),
                rows == self.rows(),
                n == rows * cols,
                out.len() == c * rows,
                forall|r2: int, c2: int|
                    0 <= r2 < rows && 0 <= c2 < c ==> out@[c2 * rows + r2] == self.at(r2, c2),
        {
            for r in 0..rows
                invariant
                    self.wf(),
                    cols == self.cols(),
                    rows == self.rows(),
                    n == rows * cols,
                    c < cols,
                    out.len() == c * rows + r,
                    forall|r2: int, c2: int|
                        0 <= r2 < rows && 0 <= c2 < c ==> out@[c2 * rows + r2] == self.at(
                            r2,
                            c2,
                        ),
                    forall|r2: int| 0 <= r2 < r ==> out@[c * rows + r2] == self.at(r2, c as int),
            {
                proof {
                    lemma_cell_in_bounds(r as int, c as int, rows as int, cols as int);
                    lemma_cell_in_bounds(c as int, r as int, cols as int, rows as int);
                    assert(cols * rows == rows * cols) by (nonlinear_arith);
                }
                let ghost before = out@;
                out.push(self.data[r * cols + c]);
                assert forall|r2: int, c2: int| 0 <= r2 < rows && 0 <= c2 < c implies out@[c2
                    * rows + r2] == self.at(r2, c2) by {
                    lemma_cell_in_bounds(c2, r2, c as int, rows as int);
                    assert(out@[c2 * rows + r2] == before[c2 * rows + r2]);
                }
            }
            proof {
                assert((c + 1) * rows == c * rows + rows) by (nonlinear_arith);
                assert forall|r2: int, c2: int| 0 <= r2 < rows && 0 <= c2 < c + 1 implies out@[c2
                    * rows + r2] == self.at(r2, c2) by {
                    if c2 < c {
                    } else {
                        assert(c2 == c);
                    }
                }
            }
        }
        proof {
            assert(cols * rows == rows * cols) by (nonlinear_arith);
        }
        out
    }

    /// Swaps rows and columns in place: afterwards row `c` holds what
    /// column `c` held.
    pub fn transpose_mut(&mut self)
        requires
            old(self).wf(),
        ensures
            final(self).wf(),
            final(self).transposes(*old(self)),
    {
        let transposed = self.transposed_data();
        proof {
            assert(self.rows() * self.cols() == self.cols() * self.rows()) by (nonlinear_arith);
        }
        let cols = self.ncols;
        self.data = transposed;
        self.ncols = self.nrows;
        self.nrows = cols;
    }

    /// The transpose: a new matrix whose row `c` is column `c` of `self`.
    pub fn transpose(&self) -> (t: FennMatrix<T>)
        requires
            self.wf(),
        ensures
            t.wf(),
            t.transposes(*self),
    {
        let transposed = self.transposed_data();
        proof {
            assert(self.rows() * self.cols() == self.cols() * self.rows()) by (nonlinear_arith);
        }
        FennMatrix { data: transposed, ncols: self.nrows, nrows: self.ncols }
    }

    /// A copy of this matrix, element for element.
    pub(crate) fn copy(&self) -> (m: Self)
        requires
            self.wf(),
        ensures
            m.wf(),
            m.rows() == self.rows(),
            m.cols() == self.cols(),
            m.elems() == self.elems(),
    {
        FennMatrix { data: copy_elems(&self.data), ncols: self.ncols, nrows: self.nrows }
    }
}

} // verus!

verus! {

impl<T> vstd::std_specs::core::IndexSpecImpl<usize> for FennMatrix<T> {
    open spec fn index_req(&self, index: &usize) -> bool {
        self.wf() && *index < self.rows()
    }
}

impl<T> core::ops::Index<usize> for FennMatrix<T> {
    type Output = [T];

    /// Row `row_index`, as a slice of its elements.
    fn index(&self, row_index: usize) -> (row: &[T])
        ensures
            row@ == self@[row_index as int],
    {
        let len = self.data.len();
        proof {
            lemma_row_in_bounds(row_index as int, self.rows() as int, self.cols() as int);
        }
        assert(row_index * self.ncols + self.ncols <= len);
        let start = row_index * self.ncols;
        let row = self.data.as_slice().index(start..start + self.ncols);
        assert(row@ =~= self@[row_index as int]);
        row
    }
}

impl<T> core::ops::IndexMut<usize> for FennMatrix<T> {
    /// Row `row_index`, as a slice that can be written: what is written there
    /// lands in that row. A row past the last one is an empty slice.
    fn index_mut(&mut self, row_index: usize) -> (row: &mut [T])
        ensures
            final(self).rows() == old(self).rows(),
            final(self).cols() == old(self).cols(),
            old(self).wf() && row_index < old(self).rows() ==> row@ == old(self)@[row_index as int],
            row_index >= old(self).rows() ==> row@.len() == 0,
            old(self).wf() && row_index < old(self).rows() ==> final(self).elems() == old(
                self,
            ).elems().subrange(0, row_index * old(self).cols()) + final(row)@ + old(
                self,
            ).elems().subrange(
                (row_index + 1) * old(self).cols(),
                old(self).elems().len() as int,
            ),
    {
        let len = self.data.len();
        if row_index < self.nrows {
            if let Some(start) = row_index.checked_mul(self.ncols) {
                if start <= len && self.ncols <= len - start {
                    proof {
                        if old(self).wf() {
                            lemma_row_in_bounds(row_index as int, self.rows() as int, self.cols() as int);
                        }
                    }
                    let (head, rest) = self.data.as_mut_slice().split_at_mut(start);
                    let (row, tail) = rest.split_at_mut(self.ncols);
                    assert(has_resolved(head));
                    assert(has_resolved(tail));
                    assert(final(head)@ == head@);
                    assert(final(tail)@ == tail@);
                    assert((row_index + 1) * self.ncols == start + self.ncols) by (nonlinear_arith)
                        requires
                            start == row_index * self.ncols,
                    ;
                    assert(head@ == old(self).elems().subrange(0, start as int));
                    assert(tail@ =~= old(self).elems().subrange(start + self.ncols, len as int));
                    assert(old(self).wf() ==> row@ =~= old(self)@[row_index as int]);
                    return row;
                }
            }
        }
        proof {
            if old(self).wf() && row_index < old(self).rows() {
                lemma_row_in_bounds(row_index as int, self.rows() as int, self.cols() as int);
                assert(row_index * self.ncols + self.ncols <= len);
            }
        }
        let (row, _) = self.data.as_mut_slice().split_at_mut(0);
        row
    }
}

} // verus!
