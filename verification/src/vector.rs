use vstd::prelude::*;

use vstd::std_specs::convert::{FromSpec, TryFromSpec};

use crate::arith::default_value;
use crate::errors::Errors;
use crate::matrix::FennMatrix;

verus! {

/// A column vector: a matrix of one column.
#[derive(Clone, Debug)]
pub struct FennVector<T> {
    matrix: FennMatrix<T>,
}

impl<T> FennVector<T> {
    /// The matrix that holds the vector.
    pub closed spec fn as_matrix(&self) -> FennMatrix<T> {
        self.matrix
    }

    /// A well-formed matrix of exactly one column.
    pub open spec fn wf(&self) -> bool {
        self.as_matrix().wf() && self.as_matrix().cols() == 1
    }
}

impl<T> View for FennVector<T> {
    type V = Seq<T>;

    /// The entries, top to bottom.
    open spec fn view(&self) -> Seq<T> {
        self.as_matrix().elems()
    }
}

impl<T: Copy + Default> FennVector<T> {
    /// A vector of `dim` entries, each the default value of `T` (zero for
    /// the number types).
    pub fn new(dim: usize) -> (v: Self)
        ensures
            v.wf(),
            v@.len() == dim,
            exists|zero: T|
                #![trigger default_value(zero)]
                default_value(zero) && forall|i: int| 0 <= i < dim ==> v@[i] == zero,
    {
        FennVector { matrix: FennMatrix::new((dim, 1)) }
    }
}

impl<T: Copy> FennVector<T> {
    /// Number of entries.
    pub fn len(&self) -> (n: usize)
        requires
            self.wf(),
        ensures
            n == self@.len(),
    {
        self.matrix.dimensions().1
    }

    /// A vector holding the entries of `data`, in order.
    pub fn from_vec(data: Vec<T>) -> (v: Self)
        ensures
            v.wf(),
            v@ == data@,
    {
        let len = data.len();
        FennVector { matrix: FennMatrix::from_vec(data, (len, 1)) }
    }

    /// A vector holding the entries of the array `data`, in order.
    pub fn from_slice<const SIZE: usize>(data: &[T; SIZE]) -> (v: Self)
        ensures
            v.wf(),
            v@ == data@,
    {
        let mut entries: Vec<T> = Vec::with_capacity(SIZE);
        for i in 0..SIZE
            invariant
                entries@ == data@.take(i as int),
        {
            entries.push(data[i]);
            assert(entries@ =~= data@.take(i + 1));
        }
        assert(entries@ =~= data@);
        Self::from_vec(entries)
    }

    /// The matrix of one column that holds the vector.
    pub fn move_to_matrix(self) -> (m: FennMatrix<T>)
        ensures
            m == self.as_matrix(),
    {
        self.matrix
    }

    /// A copy of the vector as a matrix of one column.
    pub fn to_matrix(&self) -> (m: FennMatrix<T>)
        requires
            self.wf(),
        ensures
            m.wf(),
            m.rows() == self@.len(),
            m.cols() == 1,
            m.elems() == self@,
    {
        self.matrix.copy()
    }

    /// The matrix of one column that holds the vector.
    pub fn to_matrix_ref(&self) -> (m: &FennMatrix<T>)
        ensures
            *m == self.as_matrix(),
    {
        &self.matrix
    }

    /// The shape as `(columns, rows)`: `(1, len)`.
    pub fn dimensions(&self) -> (d: (usize, usize))
        requires
            self.wf(),
        ensures
            d == (1usize, self@.len() as usize),
    {
        self.matrix.dimensions()
    }

    /// The entries, top to bottom.
    pub fn as_slice(&self) -> (s: &[T])
        ensures
            s@ == self@,
    {
        self.matrix.as_slice()
    }
}

impl<T> vstd::std_specs::core::IndexSpecImpl<usize> for FennVector<T> {
    open spec fn index_req(&self, index: &usize) -> bool {
        self.wf() && *index < self@.len()
    }
}

impl<T> core::ops::Index<usize> for FennVector<T> {
    type Output = T;

    /// Entry `row_index`.
    fn index(&self, row_index: usize) -> (e: &T)
        ensures
            *e == self@[row_index as int],
    {
        &self.matrix.as_slice()[row_index]
    }
}

impl<T> FennVector<T> {
    /// Writes `value` at entry `index`.
    pub(crate) fn set_entry(&mut self, index: usize, value: T)
        requires
            old(self).wf(),
            index < old(self)@.len(),
        ensures
            final(self).wf(),
            final(self)@ == old(self)@.update(index as int, value),
    {
        self.matrix.set_elem(index, value);
    }

    /// The entries, top to bottom, as a slice that can be written; the
    /// length stays as it is.
    pub fn as_mut_slice(&mut self) -> (s: &mut [T])
        ensures
            s@ == old(self)@,
            final(s)@ == final(self)@,
            final(self).as_matrix().rows() == old(self).as_matrix().rows(),
            final(self).as_matrix().cols() == old(self).as_matrix().cols(),
    {
        self.matrix.as_mut_slice()
    }
}

impl<T: Copy> FennMatrix<T> {
    /// The matrix read as a column vector; refused with `MatToVecError`
    /// unless it has exactly one column.
    pub fn to_vec(&self) -> (r: Result<FennVector<T>, Errors>)
        requires
            self.wf(),
        ensures
            r is Ok <==> self.cols() == 1,
            r matches Ok(v) ==> v.wf() && v@ == self.elems(),
            r matches Err(e) ==> e == Errors::MatToVecError,
    {
        if self.dimensions().0 == 1 {
            Ok(FennVector { matrix: self.copy() })
        } else {
            Err(Errors::MatToVecError)
        }
    }

    /// The matrix, which must have exactly one column, as a column vector.
    pub fn move_to_vec(self) -> (v: FennVector<T>)
        requires
            self.wf(),
            self.cols() == 1,
        ensures
            v.wf(),
            v@ == self.elems(),
    {
        FennVector { matrix: self }
    }
}

impl<T> vstd::std_specs::convert::FromSpecImpl<FennVector<T>> for FennMatrix<T> {
    open spec fn obeys_from_spec() -> bool {
        true
    }

    open spec fn from_spec(v: FennVector<T>) -> FennMatrix<T> {
        v.as_matrix()
    }
}

impl<T> From<FennVector<T>> for FennMatrix<T> {
    /// The matrix of one column that holds the vector.
    fn from(value: FennVector<T>) -> (m: FennMatrix<T>) {
        value.matrix
    }
}

impl<T: Copy> vstd::std_specs::convert::TryFromSpecImpl<FennMatrix<T>> for FennVector<T> {
    open spec fn obeys_try_from_spec() -> bool {
        true
    }

    closed spec fn try_from_spec(v: FennMatrix<T>) -> Result<FennVector<T>, Errors> {
        if v.cols() == 1 {
            Ok(FennVector { matrix: v })
        } else {
            Err(Errors::MatToVecError)
        }
    }
}

impl<T: Copy> TryFrom<FennMatrix<T>> for FennVector<T> {
    type Error = Errors;

    /// The matrix read as a column vector; refused with `MatToVecError`
    /// unless it has exactly one column.
    fn try_from(value: FennMatrix<T>) -> (r: Result<FennVector<T>, Errors>)
        ensures
            value.wf() ==> (r is Ok <==> value.cols() == 1),
            value.wf() ==> (r matches Ok(v) ==> v.wf() && v@ == value.elems()),
            r matches Err(e) ==> e == Errors::MatToVecError,
    {
        if value.dimensions().0 == 1 {
            Ok(FennVector { matrix: value })
        } else {
            Err(Errors::MatToVecError)
        }
    }
}

/// A vector turned into a matrix (`From`) and read back as a vector
/// (`TryFrom`) is the same vector.
pub proof fn lemma_vector_matrix_round_trip<T: Copy>(v: FennVector<T>)
    requires
        v.wf(),
    ensures
        <FennVector<T> as TryFromSpec<FennMatrix<T>>>::try_from_spec(
            <FennMatrix<T> as FromSpec<FennVector<T>>>::from_spec(v),
        ) == Ok::<FennVector<T>, Errors>(v),
{
}

} // verus!
