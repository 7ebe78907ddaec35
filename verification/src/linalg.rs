use vstd::prelude::*;

use core::ops::{Add, Mul, Sub};

use crate::arith::{
    add_total, default_value, difference_of, dot_result, lemma_dot_result_step, mul_total, product_of,
    scaled_sub_product_of, sub_product_of, sub_total,
};
use crate::matrix::{lemma_cell_in_bounds, lemma_row_in_bounds, FennMatrix};
use crate::vector::FennVector;

verus! {

/// The element in row `i` and column `j` of a sequence that holds a matrix
/// of `cols` columns row after row.
pub open spec fn grid<T>(s: Seq<T>, cols: int, i: int, j: int) -> T {
    s[i * cols + j]
}

/// Column `j` of `m`, top to bottom.
pub open spec fn column<T>(m: FennMatrix<T>, j: int) -> Seq<T> {
    Seq::new(m.rows(), |k: int| m.at(k, j))
}

/// A vector of `n` copies of `value`.
fn repeat<T: Copy>(value: T, n: usize) -> (v: Vec<T>)
    ensures
        v.len() == n,
        forall|i: int| 0 <= i < n ==> v@[i] == value,
{
    let mut v: Vec<T> = Vec::with_capacity(n);
    for i in 0..n
        invariant
            v.len() == i,
            forall|j: int| 0 <= j < i ==> v@[j] == value,
    {
        v.push(value);
    }
    v
}

impl<T: Copy + Default + Add<Output = T> + Mul<Output = T>> FennMatrix<T> {
    /// The matrix product `self * other`: entry `(i, j)` is row `i` of
    /// `self` times column `j` of `other`, summed from zero.
    pub fn product(&self, other: &FennMatrix<T>) -> (p: FennMatrix<T>)
        requires
            self.wf(),
            other.wf(),
            self.cols() == other.rows(),
            self.rows() * other.cols() <= usize::MAX,
            add_total::<T>(),
            mul_total::<T>(),
        ensures
            p.wf(),
            p.rows() == self.rows(),
            p.cols() == other.cols(),
            exists|zero: T|
                #![trigger default_value(zero)]
                {
                    &&& default_value(zero)
                    &&& forall|i: int, j: int|
                        0 <= i < p.rows() && 0 <= j < p.cols() ==> dot_result(
                            zero,
                            self@[i],
                            column(*other, j),
                            self.cols(),
                            #[trigger] p.at(i, j),
                        )
                },
    {
        let (n_inner, n_rows) = self.dimensions();
        let (n_cols, _) = other.dimensions();
        let a = self.as_slice();
        let b = other.as_slice();
        let a_len = a.len();
        let b_len = b.len();
        let zero = T::default();
        let mut data = repeat(zero, n_rows * n_cols);
        assert forall|i2: int, j2: int|
            #![trigger grid(data@, n_cols as int, i2, j2)]
            0 <= i2 < n_rows && 0 <= j2 < n_cols implies grid(data@, n_cols as int, i2, j2)
            == zero by {
            lemma_cell_in_bounds(i2, j2, n_rows as int, n_cols as int);
        }
        for i in 0..n_rows
            invariant
                self.wf(),
                other.wf(),
                n_inner == self.cols(),
                n_inner == other.rows(),
                n_rows == self.rows(),
                n_cols == other.cols(),
                n_rows * n_cols <= usize::MAX,
                a@ == self.elems(),
                b@ == other.elems(),
                a_len == a@.len(),
                b_len == b@.len(),
                add_total::<T>(),
                mul_total::<T>(),
                data.len() == n_rows * n_cols,
                forall|i2: int, j2: int|
                    #![trigger grid(data@, n_cols as int, i2, j2)]
                    0 <= i2 < i && 0 <= j2 < n_cols ==> dot_result(
                        zero,
                        self@[i2],
                        column(*other, j2),
                        n_inner as nat,
                        grid(data@, n_cols as int, i2, j2),
                    ),
                forall|i2: int, j2: int|
                    #![trigger grid(data@, n_cols as int, i2, j2)]
                    i <= i2 < n_rows && 0 <= j2 < n_cols ==> grid(data@, n_cols as int, i2, j2)
                        == zero,
        {
            for k in 0..n_inner
                invariant
                    self.wf(),
                    other.wf(),
                    n_inner == self.cols(),
                    n_inner == other.rows(),
                    n_rows == self.rows(),
                    n_cols == other.cols(),
                    n_rows * n_cols <= usize::MAX,
                    a@ == self.elems(),
                    b@ == other.elems(),
                    a_len == a@.len(),
                    b_len == b@.len(),
                    add_total::<T>(),
                    mul_total::<T>(),
                    i < n_rows,
                    data.len() == n_rows * n_cols,
                    forall|i2: int, j2: int|
                        #![trigger grid(data@, n_cols as int, i2, j2)]
                        0 <= i2 < i && 0 <= j2 < n_cols ==> dot_result(
                            zero,
                            self@[i2],
                            column(*other, j2),
                            n_inner as nat,
                            grid(data@, n_cols as int, i2, j2),
                        ),
                    forall|i2: int, j2: int|
                        #![trigger grid(data@, n_cols as int, i2, j2)]
                        i < i2 < n_rows && 0 <= j2 < n_cols ==> grid(data@, n_cols as int, i2, j2)
                            == zero,
                    forall|j2: int|
                        #![trigger grid(data@, n_cols as int, i as int, j2)]
                        0 <= j2 < n_cols ==> dot_result(
                            zero,
                            self@[i as int],
                            column(*other, j2),
                            k as nat,
                            grid(data@, n_cols as int, i as int, j2),
                        ),
            {
                proof {
                    lemma_cell_in_bounds(i as int, k as int, n_rows as int, n_inner as int);
                }
                let a_ik = a[i * n_inner + k];
                for j in 0..n_cols
                    invariant
                        self.wf(),
                        other.wf(),
                        n_inner == self.cols(),
                        n_inner == other.rows(),
                        n_rows == self.rows(),
                        n_cols == other.cols(),
                        n_rows * n_cols <= usize::MAX,
                        a@ == self.elems(),
                        b@ == other.elems(),
                        a_len == a@.len(),
                        b_len == b@.len(),
                        add_total::<T>(),
                        mul_total::<T>(),
                        i < n_rows,
                        k < n_inner,
                        a_ik == self.at(i as int, k as int),
                        data.len() == n_rows * n_cols,
                        forall|i2: int, j2: int|
                            #![trigger grid(data@, n_cols as int, i2, j2)]
                            0 <= i2 < i && 0 <= j2 < n_cols ==> dot_result(
                                zero,
                                self@[i2],
                                column(*other, j2),
                                n_inner as nat,
                                grid(data@, n_cols as int, i2, j2),
                            ),
                        forall|i2: int, j2: int|
                            #![trigger grid(data@, n_cols as int, i2, j2)]
                            i < i2 < n_rows && 0 <= j2 < n_cols ==> grid(
                                data@,
                                n_cols as int,
                                i2,
                                j2,
                            ) == zero,
                        forall|j2: int|
                            #![trigger grid(data@, n_cols as int, i as int, j2)]
                            0 <= j2 < j ==> dot_result(
                                zero,
                                self@[i as int],
                                column(*other, j2),
                                (k + 1) as nat,
                                grid(data@, n_cols as int, i as int, j2),
                            ),
                        forall|j2: int|
                            #![trigger grid(data@, n_cols as int, i as int, j2)]
                            j <= j2 < n_cols ==> dot_result(
                                zero,
                                self@[i as int],
                                column(*other, j2),
                                k as nat,
                                grid(data@, n_cols as int, i as int, j2),
                            ),
                {
                    proof {
                        lemma_cell_in_bounds(i as int, j as int, n_rows as int, n_cols as int);
                        lemma_cell_in_bounds(k as int, j as int, n_inner as int, n_cols as int);
                    }
                    let idx = i * n_cols + j;
                    let ghost before = data@;
                    let prod = a_ik * b[k * n_cols + j];
                    let sum = data[idx] + prod;
                    data.set(idx, sum);
                    proof {
                        assert forall|i2: int, j2: int|
                            #![trigger grid(data@, n_cols as int, i2, j2)]
                            0 <= i2 < n_rows && 0 <= j2 < n_cols && (i2 != i || j2 != j) implies grid(
                                data@,
                                n_cols as int,
                                i2,
                                j2,
                            ) == grid(before, n_cols as int, i2, j2) by {
                            lemma_cell_in_bounds(i2, j2, n_rows as int, n_cols as int);
                            if i2 < i {
                                lemma_cell_in_bounds(i2, j2, i as int, n_cols as int);
                                lemma_row_in_bounds(i as int, n_rows as int, n_cols as int);
                            } else if i2 > i {
                                lemma_row_in_bounds(i as int, i2, n_cols as int);
                            }
                        }
                        assert(self@[i as int][k as int] == a_ik);
                        assert(column(*other, j as int)[k as int] == b@[k * n_cols + j]);
                        lemma_dot_result_step(
                            zero,
                            self@[i as int],
                            column(*other, j as int),
                            k as nat,
                            grid(before, n_cols as int, i as int, j as int),
                            prod,
                            sum,
                        );
                        assert(grid(data@, n_cols as int, i as int, j as int) == sum);
                    }
                }
            }
        }
        proof {
            assert(n_rows * n_cols == self.rows() * other.cols());
        }
        let p = FennMatrix::from_vec(data, (n_rows, n_cols));
        assert forall|i: int, j: int| 0 <= i < p.rows() && 0 <= j < p.cols() implies dot_result(
            zero,
            self@[i],
            column(*other, j),
            self.cols(),
            #[trigger] p.at(i, j),
        ) by {
            assert(p.at(i, j) == grid(data@, n_cols as int, i, j));
        }
        assert(default_value(zero));
        p
    }
}

} // verus!

verus! {

// `obeys_mul_spec` is `false`: the product is described by the `ensures` of
// `mul` below, not by one closed-form value of `T`'s operations.

impl<'a, T: Copy + Default + Add<Output = T> + Mul<Output = T>> vstd::std_specs::ops::MulSpecImpl for &'a FennMatrix<T> {
    open spec fn obeys_mul_spec() -> bool {
        false
    }

    open spec fn mul_req(self, rhs: &'a FennMatrix<T>) -> bool {
        &&& self.wf()
        &&& rhs.wf()
        &&& self.cols() == rhs.rows()
        &&& self.rows() * rhs.cols() <= usize::MAX
        &&& add_total::<T>()
        &&& mul_total::<T>()
    }

    open spec fn mul_spec(self, rhs: &'a FennMatrix<T>) -> FennMatrix<T> {
        choose|p: FennMatrix<T>| p.wf() && p.rows() == self.rows() && p.cols() == rhs.cols()
    }
}

impl<'a, T: Copy + Default + Add<Output = T> + Mul<Output = T>> Mul for &'a FennMatrix<T> {
    type Output = FennMatrix<T>;

    /// The matrix product; see `FennMatrix::product`.
    fn mul(self, other: &'a FennMatrix<T>) -> (p: FennMatrix<T>)
        ensures
            p.wf(),
            p.rows() == self.rows(),
            p.cols() == other.cols(),
            exists|zero: T|
                #![trigger default_value(zero)]
                {
                    &&& default_value(zero)
                    &&& forall|i: int, j: int|
                        0 <= i < p.rows() && 0 <= j < p.cols() ==> dot_result(
                            zero,
                            self@[i],
                            column(*other, j),
                            self.cols(),
                            #[trigger] p.at(i, j),
                        )
                },
    {
        self.product(other)
    }
}

impl<T: Copy + Default + Add<Output = T> + Mul<Output = T>> vstd::std_specs::ops::MulSpecImpl for FennMatrix<T> {
    open spec fn obeys_mul_spec() -> bool {
        false
    }

    open spec fn mul_req(self, rhs: FennMatrix<T>) -> bool {
        &&& self.wf()
        &&& rhs.wf()
        &&& self.cols() == rhs.rows()
        &&& self.rows() * rhs.cols() <= usize::MAX
        &&& add_total::<T>()
        &&& mul_total::<T>()
    }

    open spec fn mul_spec(self, rhs: FennMatrix<T>) -> FennMatrix<T> {
        choose|p: FennMatrix<T>| p.wf() && p.rows() == self.rows() && p.cols() == rhs.cols()
    }
}

impl<T: Copy + Default + Add<Output = T> + Mul<Output = T>> Mul for FennMatrix<T> {
    type Output = FennMatrix<T>;

    /// The matrix product; see `FennMatrix::product`.
    fn mul(self, other: FennMatrix<T>) -> (p: FennMatrix<T>)
        ensures
            p.wf(),
            p.rows() == self.rows(),
            p.cols() == other.cols(),
            exists|zero: T|
                #![trigger default_value(zero)]
                {
                    &&& default_value(zero)
                    &&& forall|i: int, j: int|
                        0 <= i < p.rows() && 0 <= j < p.cols() ==> dot_result(
                            zero,
                            self@[i],
                            column(other, j),
                            self.cols(),
                            #[trigger] p.at(i, j),
                        )
                },
    {
        self.product(&other)
    }
}

} // verus!

verus! {

impl<T: Copy + Default + Add<Output = T> + Mul<Output = T>> FennMatrix<T> {
    /// The first `cols` rows of the matrix times `input`: entry `i` is row
    /// `i` dotted with `input`, each product taken as `input[j] * row[j]`
    /// and summed from zero.
    pub fn vec_mult(&self, input: &FennVector<T>) -> (out: FennVector<T>)
        requires
            self.wf(),
            input.wf(),
            input@.len() == self.cols(),
            self.cols() <= self.rows(),
            add_total::<T>(),
            mul_total::<T>(),
        ensures
            out.wf(),
            out@.len() == self.cols(),
            exists|zero: T|
                #![trigger default_value(zero)]
                {
                    &&& default_value(zero)
                    &&& forall|i: int|
                        0 <= i < self.cols() ==> dot_result(
                            zero,
                            input@,
                            self@[i],
                            self.cols(),
                            #[trigger] out@[i],
                        )
                },
    {
        let (n, _) = self.dimensions();
        let a = self.as_slice();
        let a_len = a.len();
        let x = input.as_slice();
        let zero = T::default();
        let mut out = repeat(zero, n);
        for i in 0..n
            invariant
                self.wf(),
                n == self.cols(),
                n <= self.rows(),
                a@ == self.elems(),
                a_len == a@.len(),
                x@ == input@,
                x@.len() == n,
                add_total::<T>(),
                mul_total::<T>(),
                out.len() == n,
                forall|i2: int|
                    0 <= i2 < i ==> dot_result(zero, input@, self@[i2], n as nat, #[trigger] out@[i2]),
                forall|i2: int| i <= i2 < n ==> #[trigger] out@[i2] == zero,
        {
            for j in 0..n
                invariant
                    self.wf(),
                    n == self.cols(),
                    n <= self.rows(),
                    i < n,
                    a@ == self.elems(),
                    a_len == a@.len(),
                    x@ == input@,
                    x@.len() == n,
                    add_total::<T>(),
                    mul_total::<T>(),
                    out.len() == n,
                    forall|i2: int|
                        0 <= i2 < i ==> dot_result(zero, input@, self@[i2], n as nat, #[trigger] out@[i2]),
                    forall|i2: int| i < i2 < n ==> #[trigger] out@[i2] == zero,
                    dot_result(zero, input@, self@[i as int], j as nat, out@[i as int]),
            {
                proof {
                    lemma_cell_in_bounds(i as int, j as int, self.rows() as int, n as int);
                }
                let prod = x[j] * a[i * n + j];
                let prev = out[i];
                let sum = prev + prod;
                out.set(i, sum);
                proof {
                    assert(self@[i as int][j as int] == a@[i * n + j]);
                    lemma_dot_result_step(zero, input@, self@[i as int], j as nat, prev, prod, sum);
                }
            }
        }
        assert(default_value(zero));
        FennVector::from_vec(out)
    }

    /// The transpose of the matrix times `v`, without building the
    /// transpose: entry `i` is column `i` dotted with `v`, each product
    /// taken as `column[k] * v[k]` and summed from zero.
    pub fn mul_transposed_lhs_vec(&self, v: &FennVector<T>) -> (out: FennVector<T>)
        requires
            self.wf(),
            v.wf(),
            v@.len() == self.rows(),
            add_total::<T>(),
            mul_total::<T>(),
        ensures
            out.wf(),
            out@.len() == self.cols(),
            exists|zero: T|
                #![trigger default_value(zero)]
                {
                    &&& default_value(zero)
                    &&& forall|i: int|
                        0 <= i < self.cols() ==> dot_result(
                            zero,
                            column(*self, i),
                            v@,
                            self.rows(),
                            #[trigger] out@[i],
                        )
                },
    {
        let (n_cols, n_rows) = self.dimensions();
        let a = self.as_slice();
        let a_len = a.len();
        let vd = v.as_slice();
        let zero = T::default();
        let mut out = repeat(zero, n_cols);
        for k in 0..n_rows
            invariant
                self.wf(),
                n_cols == self.cols(),
                n_rows == self.rows(),
                a@ == self.elems(),
                a_len == a@.len(),
                vd@ == v@,
                vd@.len() == n_rows,
                add_total::<T>(),
                mul_total::<T>(),
                out.len() == n_cols,
                forall|i2: int|
                    0 <= i2 < n_cols ==> dot_result(
                        zero,
                        column(*self, i2),
                        v@,
                        k as nat,
                        #[trigger] out@[i2],
                    ),
        {
            let vk = vd[k];
            for i in 0..n_cols
                invariant
                    self.wf(),
                    n_cols == self.cols(),
                    n_rows == self.rows(),
                    k < n_rows,
                    a@ == self.elems(),
                    a_len == a@.len(),
                    vd@ == v@,
                    vd@.len() == n_rows,
                    vk == v@[k as int],
                    add_total::<T>(),
                    mul_total::<T>(),
                    out.len() == n_cols,
                    forall|i2: int|
                        0 <= i2 < i ==> dot_result(
                            zero,
                            column(*self, i2),
                            v@,
                            (k + 1) as nat,
                            #[trigger] out@[i2],
                        ),
                    forall|i2: int|
                        i <= i2 < n_cols ==> dot_result(
                            zero,
                            column(*self, i2),
                            v@,
                            k as nat,
                            #[trigger] out@[i2],
                        ),
            {
                proof {
                    lemma_cell_in_bounds(k as int, i as int, n_rows as int, n_cols as int);
                }
                let prod = a[k * n_cols + i] * vk;
                let prev = out[i];
                let sum = prev + prod;
                out.set(i, sum);
                proof {
                    assert(column(*self, i as int)[k as int] == a@[k * n_cols + i]);
                    lemma_dot_result_step(zero, column(*self, i as int), v@, k as nat, prev, prod, sum);
                }
            }
        }
        assert(default_value(zero));
        FennVector::from_vec(out)
    }
}

} // verus!

verus! {

impl<T: Copy + Sub<Output = T> + Mul<Output = T>> FennMatrix<T> {
    /// In place, `self -= scale * (u v^T)`: the element in row `r` and
    /// column `c` becomes `x - (scale * u[r]) * v[c]`.
    pub fn sub_outer_product_scaled(&mut self, scale: T, u: &FennVector<T>, v: &FennVector<T>)
        requires
            old(self).wf(),
            u.wf(),
            v.wf(),
            u@.len() == old(self).rows(),
            v@.len() == old(self).cols(),
            sub_total::<T>(),
            mul_total::<T>(),
        ensures
            final(self).wf(),
            final(self).rows() == old(self).rows(),
            final(self).cols() == old(self).cols(),
            forall|r: int, c: int|
                0 <= r < old(self).rows() && 0 <= c < old(self).cols() ==> scaled_sub_product_of(
                    old(self).at(r, c),
                    scale,
                    u@[r],
                    v@[c],
                    #[trigger] final(self).at(r, c),
                ),
    {
        let (n_cols, n_rows) = self.dimensions();
        let ud = u.as_slice();
        let vd = v.as_slice();
        let total = self.as_slice().len();
        for r in 0..n_rows
            invariant
                self.wf(),
                total == self.elems().len(),
                n_cols == self.cols(),
                n_rows == self.rows(),
                n_cols == old(self).cols(),
                n_rows == old(self).rows(),
                ud@ == u@,
                vd@ == v@,
                ud@.len() == n_rows,
                vd@.len() == n_cols,
                sub_total::<T>(),
                mul_total::<T>(),
                forall|r2: int, c2: int|
                    0 <= r2 < r && 0 <= c2 < n_cols ==> scaled_sub_product_of(
                        old(self).at(r2, c2),
                        scale,
                        u@[r2],
                        v@[c2],
                        #[trigger] self.at(r2, c2),
                    ),
                forall|r2: int, c2: int|
                    r <= r2 < n_rows && 0 <= c2 < n_cols ==> #[trigger] self.at(r2, c2) == old(
                        self,
                    ).at(r2, c2),
        {
            let scaled_u = scale * ud[r];
            for c in 0..n_cols
                invariant
                    self.wf(),
                    total == self.elems().len(),
                    n_cols == self.cols(),
                    n_rows == self.rows(),
                    n_cols == old(self).cols(),
                    n_rows == old(self).rows(),
                    r < n_rows,
                    ud@ == u@,
                    vd@ == v@,
                    ud@.len() == n_rows,
                    vd@.len() == n_cols,
                    sub_total::<T>(),
                    mul_total::<T>(),
                    product_of(scale, u@[r as int], scaled_u),
                    forall|r2: int, c2: int|
                        0 <= r2 < r && 0 <= c2 < n_cols ==> scaled_sub_product_of(
                            old(self).at(r2, c2),
                            scale,
                            u@[r2],
                            v@[c2],
                            #[trigger] self.at(r2, c2),
                        ),
                    forall|c2: int|
                        0 <= c2 < c ==> scaled_sub_product_of(
                            old(self).at(r as int, c2),
                            scale,
                            u@[r as int],
                            v@[c2],
                            #[trigger] self.at(r as int, c2),
                        ),
                    forall|c2: int|
                        c <= c2 < n_cols ==> #[trigger] self.at(r as int, c2) == old(self).at(
                            r as int,
                            c2,
                        ),
                    forall|r2: int, c2: int|
                        r < r2 < n_rows && 0 <= c2 < n_cols ==> #[trigger] self.at(r2, c2) == old(
                            self,
                        ).at(r2, c2),
            {
                proof {
                    lemma_cell_in_bounds(r as int, c as int, n_rows as int, n_cols as int);
                }
                let idx = r * n_cols + c;
                let cur = self.as_slice()[idx];
                let prod = scaled_u * vd[c];
                let updated = cur - prod;
                let ghost before = *self;
                self.set_elem(idx, updated);
                proof {
                    assert forall|r2: int, c2: int|
                        0 <= r2 < n_rows && 0 <= c2 < n_cols && (r2 != r || c2 != c) implies #[trigger] self.at(r2, c2)
                        == before.at(r2, c2) by {
                        lemma_cell_in_bounds(r2, c2, n_rows as int, n_cols as int);
                        if r2 < r {
                            lemma_cell_in_bounds(r2, c2, r as int, n_cols as int);
                        } else if r2 > r {
                            lemma_row_in_bounds(r as int, r2, n_cols as int);
                        }
                    }
                    assert(cur == before.at(r as int, c as int));
                    assert(self.at(r as int, c as int) == updated);
                    assert(product_of(scaled_u, v@[c as int], prod));
                    assert(difference_of(cur, prod, updated));
                    assert(sub_product_of(cur, scaled_u, v@[c as int], updated));
                    assert(scaled_sub_product_of(
                        old(self).at(r as int, c as int),
                        scale,
                        u@[r as int],
                        v@[c as int],
                        updated,
                    ));
                }
            }
        }
    }
}

} // verus!
