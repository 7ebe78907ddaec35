use vstd::prelude::*;

use core::ops::{Add, Mul, Sub};

use crate::arith::{
    add_total, difference_of, mul_total, pairwise_differences, pairwise_products, pairwise_sums,
    product_of, sub_total, sum_of,
};
use crate::matrix::FennMatrix;
use crate::vector::FennVector;

verus! {

// Each operator below comes with the vstd specification trait of its std
// trait. `obeys_*_spec` is `false` there: the result is not one closed-form
// value of `T`'s operations but what the operator's own `ensures` describes.

/// The length of the shorter of `a` and `b`.
fn shorter<T>(a: &[T], b: &[T]) -> (n: usize)
    ensures
        n == if a@.len() <= b@.len() {
            a@.len()
        } else {
            b@.len()
        },
{
    if a.len() <= b.len() {
        a.len()
    } else {
        b.len()
    }
}

/// `a[i] + b[i]` for each position that both slices have.
fn add_slices<T: Copy + Add<Output = T>>(a: &[T], b: &[T]) -> (out: Vec<T>)
    requires
        add_total::<T>(),
    ensures
        pairwise_sums(a@, b@, out@),
{
    let n = shorter(a, b);
    let mut out: Vec<T> = Vec::with_capacity(n);
    for i in 0..n
        invariant
            add_total::<T>(),
            n <= a@.len(),
            n <= b@.len(),
            n == a@.len() || n == b@.len(),
            out.len() == i,
            forall|j: int| 0 <= j < i ==> sum_of(a@[j], b@[j], #[trigger] out@[j]),
    {
        out.push(a[i] + b[i]);
    }
    out
}

/// `a[i] - b[i]` for each position that both slices have.
fn sub_slices<T: Copy + Sub<Output = T>>(a: &[T], b: &[T]) -> (out: Vec<T>)
    requires
        sub_total::<T>(),
    ensures
        pairwise_differences(a@, b@, out@),
{
    let n = shorter(a, b);
    let mut out: Vec<T> = Vec::with_capacity(n);
    for i in 0..n
        invariant
            sub_total::<T>(),
            n <= a@.len(),
            n <= b@.len(),
            n == a@.len() || n == b@.len(),
            out.len() == i,
            forall|j: int| 0 <= j < i ==> difference_of(a@[j], b@[j], #[trigger] out@[j]),
    {
        out.push(a[i] - b[i]);
    }
    out
}

/// `a[i] * b[i]` for each position that both slices have.
fn mul_slices<T: Copy + Mul<Output = T>>(a: &[T], b: &[T]) -> (out: Vec<T>)
    requires
        mul_total::<T>(),
    ensures
        pairwise_products(a@, b@, out@),
{
    let n = shorter(a, b);
    let mut out: Vec<T> = Vec::with_capacity(n);
    for i in 0..n
        invariant
            mul_total::<T>(),
            n <= a@.len(),
            n <= b@.len(),
            n == a@.len() || n == b@.len(),
            out.len() == i,
            forall|j: int| 0 <= j < i ==> product_of(a@[j], b@[j], #[trigger] out@[j]),
    {
        out.push(a[i] * b[i]);
    }
    out
}

/// `s[i] * factor` for each entry of `s`.
fn scale_slice<T: Copy + Mul<Output = T>>(s: &[T], factor: T) -> (out: Vec<T>)
    requires
        mul_total::<T>(),
    ensures
        out@.len() == s@.len(),
        forall|i: int| 0 <= i < s@.len() ==> product_of(s@[i], factor, #[trigger] out@[i]),
{
    let mut out: Vec<T> = Vec::with_capacity(s.len());
    for i in 0..s.len()
        invariant
            mul_total::<T>(),
            out.len() == i,
            forall|j: int| 0 <= j < i ==> product_of(s@[j], factor, #[trigger] out@[j]),
    {
        out.push(s[i] * factor);
    }
    out
}

impl<T: Copy + Mul<Output = T>> FennVector<T> {
    /// The entry-by-entry product of two vectors of one length.
    pub fn element_wise_mult(&self, other: &FennVector<T>) -> (out: FennVector<T>)
        requires
            self.wf(),
            other.wf(),
            self@.len() == other@.len(),
            mul_total::<T>(),
        ensures
            out.wf(),
            out@.len() == self@.len(),
            pairwise_products(self@, other@, out@),
    {
        FennVector::from_vec(mul_slices(self.as_slice(), other.as_slice()))
    }

    /// Every entry multiplied by `factor`, as `entry * factor`.
    pub fn mul_scalar(&self, factor: T) -> (out: FennVector<T>)
        requires
            self.wf(),
            mul_total::<T>(),
        ensures
            out.wf(),
            out@.len() == self@.len(),
            forall|i: int| 0 <= i < self@.len() ==> product_of(self@[i], factor, #[trigger] out@[i]),
    {
        FennVector::from_vec(scale_slice(self.as_slice(), factor))
    }
}

impl<T: Copy + Mul<Output = T>> FennMatrix<T> {
    /// Every element multiplied by `factor`, as `element * factor`.
    pub fn mul_scalar(&self, factor: T) -> (out: FennMatrix<T>)
        requires
            self.wf(),
            mul_total::<T>(),
        ensures
            out.wf(),
            out.rows() == self.rows(),
            out.cols() == self.cols(),
            forall|i: int|
                0 <= i < self.elems().len() ==> product_of(self.elems()[i], factor, #[trigger] out.elems()[i]),
    {
        let (cols, rows) = self.dimensions();
        FennMatrix::from_vec(scale_slice(self.as_slice(), factor), (rows, cols))
    }
}

impl<'a, 'b, T: Copy + Add<Output = T>> vstd::std_specs::ops::AddSpecImpl<&'b FennVector<T>> for &'a FennVector<T> {
    open spec fn obeys_add_spec() -> bool {
        false
    }

    open spec fn add_req(self, rhs: &'b FennVector<T>) -> bool {
        &&& self.wf()
        &&& rhs.wf()
        &&& add_total::<T>()
    }

    open spec fn add_spec(self, rhs: &'b FennVector<T>) -> FennVector<T> {
        choose|r: FennVector<T>| pairwise_sums(self@, rhs@, r@)
    }
}

impl<'a, 'b, T: Copy + Add<Output = T>> Add<&'b FennVector<T>> for &'a FennVector<T> {
    type Output = FennVector<T>;

    /// The entry-by-entry sum of two vectors, as far as the shorter one goes.
    fn add(self, rhs: &'b FennVector<T>) -> (r: FennVector<T>)
        ensures
            r.wf(),
            pairwise_sums(self@, rhs@, r@),
    {
        FennVector::from_vec(add_slices(self.as_slice(), rhs.as_slice()))
    }
}

impl<T: Copy + Add<Output = T>> vstd::std_specs::ops::AddSpecImpl<FennVector<T>> for FennVector<T> {
    open spec fn obeys_add_spec() -> bool {
        false
    }

    open spec fn add_req(self, rhs: FennVector<T>) -> bool {
        &&& self.wf()
        &&& rhs.wf()
        &&& add_total::<T>()
    }

    open spec fn add_spec(self, rhs: FennVector<T>) -> FennVector<T> {
        choose|r: FennVector<T>| pairwise_sums(self@, rhs@, r@)
    }
}

impl<T: Copy + Add<Output = T>> Add<FennVector<T>> for FennVector<T> {
    type Output = FennVector<T>;

    /// The entry-by-entry sum of two vectors, as far as the shorter one goes.
    fn add(self, rhs: FennVector<T>) -> (r: FennVector<T>)
        ensures
            r.wf(),
            pairwise_sums(self@, rhs@, r@),
    {
        FennVector::from_vec(add_slices(self.as_slice(), rhs.as_slice()))
    }
}

impl<'a, T: Copy + Add<Output = T>> vstd::std_specs::ops::AddSpecImpl<FennVector<T>> for &'a FennVector<T> {
    open spec fn obeys_add_spec() -> bool {
        false
    }

    open spec fn add_req(self, rhs: FennVector<T>) -> bool {
        &&& self.wf()
        &&& rhs.wf()
        &&& add_total::<T>()
    }

    open spec fn add_spec(self, rhs: FennVector<T>) -> FennVector<T> {
        choose|r: FennVector<T>| pairwise_sums(self@, rhs@, r@)
    }
}

impl<'a, T: Copy + Add<Output = T>> Add<FennVector<T>> for &'a FennVector<T> {
    type Output = FennVector<T>;

    /// The entry-by-entry sum of two vectors, as far as the shorter one goes.
    fn add(self, rhs: FennVector<T>) -> (r: FennVector<T>)
        ensures
            r.wf(),
            pairwise_sums(self@, rhs@, r@),
    {
        FennVector::from_vec(add_slices(self.as_slice(), rhs.as_slice()))
    }
}

impl<'a, 'b, T: Copy + Add<Output = T>> vstd::std_specs::ops::AddSpecImpl<&'b FennVector<T>> for &'a FennMatrix<T> {
    open spec fn obeys_add_spec() -> bool {
        false
    }

    open spec fn add_req(self, rhs: &'b FennVector<T>) -> bool {
        &&& self.wf()
        &&& rhs.wf()
        &&& self.cols() == 1
        &&& self.rows() == rhs@.len()
        &&& add_total::<T>()
    }

    open spec fn add_spec(self, rhs: &'b FennVector<T>) -> FennVector<T> {
        choose|r: FennVector<T>| pairwise_sums(self.elems(), rhs@, r@)
    }
}

impl<'a, 'b, T: Copy + Add<Output = T>> Add<&'b FennVector<T>> for &'a FennMatrix<T> {
    type Output = FennVector<T>;

    /// The entry-by-entry sum of a one-column matrix and a vector of its height.
    fn add(self, rhs: &'b FennVector<T>) -> (r: FennVector<T>)
        ensures
            r.wf(),
            pairwise_sums(self.elems(), rhs@, r@),
    {
        FennVector::from_vec(add_slices(self.as_slice(), rhs.as_slice()))
    }
}

impl<T: Copy + Add<Output = T>> vstd::std_specs::ops::AddSpecImpl<FennVector<T>> for FennMatrix<T> {
    open spec fn obeys_add_spec() -> bool {
        false
    }

    open spec fn add_req(self, rhs: FennVector<T>) -> bool {
        &&& self.wf()
        &&& rhs.wf()
        &&& self.cols() == 1
        &&& self.rows() == rhs@.len()
        &&& add_total::<T>()
    }

    open spec fn add_spec(self, rhs: FennVector<T>) -> FennVector<T> {
        choose|r: FennVector<T>| pairwise_sums(self.elems(), rhs@, r@)
    }
}

impl<T: Copy + Add<Output = T>> Add<FennVector<T>> for FennMatrix<T> {
    type Output = FennVector<T>;

    /// The entry-by-entry sum of a one-column matrix and a vector of its height.
    fn add(self, rhs: FennVector<T>) -> (r: FennVector<T>)
        ensures
            r.wf(),
            pairwise_sums(self.elems(), rhs@, r@),
    {
        FennVector::from_vec(add_slices(self.as_slice(), rhs.as_slice()))
    }
}

impl<'b, T: Copy + Add<Output = T>> vstd::std_specs::ops::AddSpecImpl<&'b FennVector<T>> for FennMatrix<T> {
    open spec fn obeys_add_spec() -> bool {
        false
    }

    open spec fn add_req(self, rhs: &'b FennVector<T>) -> bool {
        &&& self.wf()
        &&& rhs.wf()
        &&& self.cols() == 1
        &&& self.rows() == rhs@.len()
        &&& add_total::<T>()
    }

    open spec fn add_spec(self, rhs: &'b FennVector<T>) -> FennVector<T> {
        choose|r: FennVector<T>| pairwise_sums(self.elems(), rhs@, r@)
    }
}

impl<'b, T: Copy + Add<Output = T>> Add<&'b FennVector<T>> for FennMatrix<T> {
    type Output = FennVector<T>;

    /// The entry-by-entry sum of a one-column matrix and a vector of its height.
    fn add(self, rhs: &'b FennVector<T>) -> (r: FennVector<T>)
        ensures
            r.wf(),
            pairwise_sums(self.elems(), rhs@, r@),
    {
        FennVector::from_vec(add_slices(self.as_slice(), rhs.as_slice()))
    }
}

impl<'a, T: Copy + Add<Output = T>> vstd::std_specs::ops::AddSpecImpl<FennVector<T>> for &'a FennMatrix<T> {
    open spec fn obeys_add_spec() -> bool {
        false
    }

    open spec fn add_req(self, rhs: FennVector<T>) -> bool {
        &&& self.wf()
        &&& rhs.wf()
        &&& self.cols() == 1
        &&& self.rows() == rhs@.len()
        &&& add_total::<T>()
    }

    open spec fn add_spec(self, rhs: FennVector<T>) -> FennVector<T> {
        choose|r: FennVector<T>| pairwise_sums(self.elems(), rhs@, r@)
    }
}

impl<'a, T: Copy + Add<Output = T>> Add<FennVector<T>> for &'a FennMatrix<T> {
    type Output = FennVector<T>;

    /// The entry-by-entry sum of a one-column matrix and a vector of its height.
    fn add(self, rhs: FennVector<T>) -> (r: FennVector<T>)
        ensures
            r.wf(),
            pairwise_sums(self.elems(), rhs@, r@),
    {
        FennVector::from_vec(add_slices(self.as_slice(), rhs.as_slice()))
    }
}

impl<'a, 'b, T: Copy + Sub<Output = T>> vstd::std_specs::ops::SubSpecImpl<&'b FennVector<T>> for &'a FennVector<T> {
    open spec fn obeys_sub_spec() -> bool {
        false
    }

    open spec fn sub_req(self, rhs: &'b FennVector<T>) -> bool {
        &&& self.wf()
        &&& rhs.wf()
        &&& sub_total::<T>()
    }

    open spec fn sub_spec(self, rhs: &'b FennVector<T>) -> FennVector<T> {
        choose|r: FennVector<T>| pairwise_differences(self@, rhs@, r@)
    }
}

impl<'a, 'b, T: Copy + Sub<Output = T>> Sub<&'b FennVector<T>> for &'a FennVector<T> {
    type Output = FennVector<T>;

    /// The entry-by-entry difference of two vectors, as far as the shorter one goes.
    fn sub(self, rhs: &'b FennVector<T>) -> (r: FennVector<T>)
        ensures
            r.wf(),
            pairwise_differences(self@, rhs@, r@),
    {
        FennVector::from_vec(sub_slices(self.as_slice(), rhs.as_slice()))
    }
}

impl<T: Copy + Sub<Output = T>> vstd::std_specs::ops::SubSpecImpl<FennVector<T>> for FennVector<T> {
    open spec fn obeys_sub_spec() -> bool {
        false
    }

    open spec fn sub_req(self, rhs: FennVector<T>) -> bool {
        &&& self.wf()
        &&& rhs.wf()
        &&& sub_total::<T>()
    }

    open spec fn sub_spec(self, rhs: FennVector<T>) -> FennVector<T> {
        choose|r: FennVector<T>| pairwise_differences(self@, rhs@, r@)
    }
}

impl<T: Copy + Sub<Output = T>> Sub<FennVector<T>> for FennVector<T> {
    type Output = FennVector<T>;

    /// The entry-by-entry difference of two vectors, as far as the shorter one goes.
    fn sub(self, rhs: FennVector<T>) -> (r: FennVector<T>)
        ensures
            r.wf(),
            pairwise_differences(self@, rhs@, r@),
    {
        FennVector::from_vec(sub_slices(self.as_slice(), rhs.as_slice()))
    }
}

impl<'a, T: Copy + Sub<Output = T>> vstd::std_specs::ops::SubSpecImpl<FennVector<T>> for &'a FennVector<T> {
    open spec fn obeys_sub_spec() -> bool {
        false
    }

    open spec fn sub_req(self, rhs: FennVector<T>) -> bool {
        &&& self.wf()
        &&& rhs.wf()
        &&& sub_total::<T>()
    }

    open spec fn sub_spec(self, rhs: FennVector<T>) -> FennVector<T> {
        choose|r: FennVector<T>| pairwise_differences(self@, rhs@, r@)
    }
}

impl<'a, T: Copy + Sub<Output = T>> Sub<FennVector<T>> for &'a FennVector<T> {
    type Output = FennVector<T>;

    /// The entry-by-entry difference of two vectors, as far as the shorter one goes.
    fn sub(self, rhs: FennVector<T>) -> (r: FennVector<T>)
        ensures
            r.wf(),
            pairwise_differences(self@, rhs@, r@),
    {
        FennVector::from_vec(sub_slices(self.as_slice(), rhs.as_slice()))
    }
}

impl<'b, T: Copy + Sub<Output = T>> vstd::std_specs::ops::SubSpecImpl<&'b FennVector<T>> for FennVector<T> {
    open spec fn obeys_sub_spec() -> bool {
        false
    }

    open spec fn sub_req(self, rhs: &'b FennVector<T>) -> bool {
        &&& self.wf()
        &&& rhs.wf()
        &&& sub_total::<T>()
    }

    open spec fn sub_spec(self, rhs: &'b FennVector<T>) -> FennVector<T> {
        choose|r: FennVector<T>| pairwise_differences(self@, rhs@, r@)
    }
}

impl<'b, T: Copy + Sub<Output = T>> Sub<&'b FennVector<T>> for FennVector<T> {
    type Output = FennVector<T>;

    /// The entry-by-entry difference of two vectors, as far as the shorter one goes.
    fn sub(self, rhs: &'b FennVector<T>) -> (r: FennVector<T>)
        ensures
            r.wf(),
            pairwise_differences(self@, rhs@, r@),
    {
        FennVector::from_vec(sub_slices(self.as_slice(), rhs.as_slice()))
    }
}

impl<'a, 'b, T: Copy + Sub<Output = T>> vstd::std_specs::ops::SubSpecImpl<&'b FennMatrix<T>> for &'a FennMatrix<T> {
    open spec fn obeys_sub_spec() -> bool {
        false
    }

    open spec fn sub_req(self, rhs: &'b FennMatrix<T>) -> bool {
        &&& self.wf()
        &&& rhs.wf()
        &&& self.elems().len() <= rhs.elems().len()
        &&& sub_total::<T>()
    }

    open spec fn sub_spec(self, rhs: &'b FennMatrix<T>) -> FennMatrix<T> {
        choose|r: FennMatrix<T>| r.rows() == self.rows() && r.cols() == self.cols() && pairwise_differences(self.elems(), rhs.elems(), r.elems())
    }
}

impl<'a, 'b, T: Copy + Sub<Output = T>> Sub<&'b FennMatrix<T>> for &'a FennMatrix<T> {
    type Output = FennMatrix<T>;

    /// The element-by-element difference, in the shape of `self`; `rhs` holds at least as many elements.
    fn sub(self, rhs: &'b FennMatrix<T>) -> (r: FennMatrix<T>)
        ensures
            r.wf(),
            r.rows() == self.rows(),
            r.cols() == self.cols(),
            pairwise_differences(self.elems(), rhs.elems(), r.elems()),
    {
        let (cols, rows) = self.dimensions();
        FennMatrix::from_vec(sub_slices(self.as_slice(), rhs.as_slice()), (rows, cols))
    }
}

impl<T: Copy + Sub<Output = T>> vstd::std_specs::ops::SubSpecImpl<FennMatrix<T>> for FennMatrix<T> {
    open spec fn obeys_sub_spec() -> bool {
        false
    }

    open spec fn sub_req(self, rhs: FennMatrix<T>) -> bool {
        &&& self.wf()
        &&& rhs.wf()
        &&& self.elems().len() <= rhs.elems().len()
        &&& sub_total::<T>()
    }

    open spec fn sub_spec(self, rhs: FennMatrix<T>) -> FennMatrix<T> {
        choose|r: FennMatrix<T>| r.rows() == self.rows() && r.cols() == self.cols() && pairwise_differences(self.elems(), rhs.elems(), r.elems())
    }
}

impl<T: Copy + Sub<Output = T>> Sub<FennMatrix<T>> for FennMatrix<T> {
    type Output = FennMatrix<T>;

    /// The element-by-element difference, in the shape of `self`; `rhs` holds at least as many elements.
    fn sub(self, rhs: FennMatrix<T>) -> (r: FennMatrix<T>)
        ensures
            r.wf(),
            r.rows() == self.rows(),
            r.cols() == self.cols(),
            pairwise_differences(self.elems(), rhs.elems(), r.elems()),
    {
        let (cols, rows) = self.dimensions();
        FennMatrix::from_vec(sub_slices(self.as_slice(), rhs.as_slice()), (rows, cols))
    }
}

impl<'a, T: Copy + Sub<Output = T>> vstd::std_specs::ops::SubSpecImpl<FennMatrix<T>> for &'a FennMatrix<T> {
    open spec fn obeys_sub_spec() -> bool {
        false
    }

    open spec fn sub_req(self, rhs: FennMatrix<T>) -> bool {
        &&& self.wf()
        &&& rhs.wf()
        &&& self.elems().len() <= rhs.elems().len()
        &&& sub_total::<T>()
    }

    open spec fn sub_spec(self, rhs: FennMatrix<T>) -> FennMatrix<T> {
        choose|r: FennMatrix<T>| r.rows() == self.rows() && r.cols() == self.cols() && pairwise_differences(self.elems(), rhs.elems(), r.elems())
    }
}

impl<'a, T: Copy + Sub<Output = T>> Sub<FennMatrix<T>> for &'a FennMatrix<T> {
    type Output = FennMatrix<T>;

    /// The element-by-element difference, in the shape of `self`; `rhs` holds at least as many elements.
    fn sub(self, rhs: FennMatrix<T>) -> (r: FennMatrix<T>)
        ensures
            r.wf(),
            r.rows() == self.rows(),
            r.cols() == self.cols(),
            pairwise_differences(self.elems(), rhs.elems(), r.elems()),
    {
        let (cols, rows) = self.dimensions();
        FennMatrix::from_vec(sub_slices(self.as_slice(), rhs.as_slice()), (rows, cols))
    }
}

impl<'b, T: Copy + Sub<Output = T>> vstd::std_specs::ops::SubSpecImpl<&'b FennMatrix<T>> for FennMatrix<T> {
    open spec fn obeys_sub_spec() -> bool {
        false
    }

    open spec fn sub_req(self, rhs: &'b FennMatrix<T>) -> bool {
        &&& self.wf()
        &&& rhs.wf()
        &&& self.elems().len() <= rhs.elems().len()
        &&& sub_total::<T>()
    }

    open spec fn sub_spec(self, rhs: &'b FennMatrix<T>) -> FennMatrix<T> {
        choose|r: FennMatrix<T>| r.rows() == self.rows() && r.cols() == self.cols() && pairwise_differences(self.elems(), rhs.elems(), r.elems())
    }
}

impl<'b, T: Copy + Sub<Output = T>> Sub<&'b FennMatrix<T>> for FennMatrix<T> {
    type Output = FennMatrix<T>;

    /// The element-by-element difference, in the shape of `self`; `rhs` holds at least as many elements.
    fn sub(self, rhs: &'b FennMatrix<T>) -> (r: FennMatrix<T>)
        ensures
            r.wf(),
            r.rows() == self.rows(),
            r.cols() == self.cols(),
            pairwise_differences(self.elems(), rhs.elems(), r.elems()),
    {
        let (cols, rows) = self.dimensions();
        FennMatrix::from_vec(sub_slices(self.as_slice(), rhs.as_slice()), (rows, cols))
    }
}

} // verus!
