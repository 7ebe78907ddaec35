use vstd::prelude::*;

use vstd::std_specs::ops::AddSpec;

use core::ops::{Add, Mul};

use crate::arith::{
    dot_acc, dot_result, lemma_dot_result_step, pairwise_products, product_of, ring_ops,
    sum_acc, sum_of, sum_result,
};
use crate::linalg::column;
use crate::matrix::FennMatrix;
use crate::order::{greater_is_weak_order, ranks_above};
use crate::vector_ops::argmax_prefix;

verus! {

/// Transposing twice gives back the matrix: the same shape and the same
/// elements in the same places.
pub proof fn lemma_transpose_twice<T>(m: FennMatrix<T>, t: FennMatrix<T>, tt: FennMatrix<T>)
    requires
        m.wf(),
        tt.wf(),
        t.transposes(m),
        tt.transposes(t),
    ensures
        tt.rows() == m.rows(),
        tt.cols() == m.cols(),
        tt@ == m@,
        tt.elems() == m.elems(),
{
    assert forall|r: int| 0 <= r < m.rows() implies tt@[r] =~= m@[r] by {
        assert forall|c: int| 0 <= c < m.cols() implies tt@[r][c] == m@[r][c] by {
            assert(tt.at(r, c) == t.at(c, r));
        }
    }
    assert(tt@ =~= m@);
    assert forall|k: int| 0 <= k < m.elems().len() implies tt.elems()[k] == m.elems()[k] by {
        let cols = m.cols() as int;
        let r = k / cols;
        let c = k % cols;
        assert(cols > 0) by (nonlinear_arith)
            requires
                0 <= k < m.rows() * cols,
                cols >= 0,
        ;
        vstd::arithmetic::div_mod::lemma_fundamental_div_mod(k, cols);
        assert(0 <= c < cols);
        assert(0 <= r) by (nonlinear_arith)
            requires
                k >= 0,
                cols > 0,
                r == k / cols,
        ;
        assert(r < m.rows()) by (nonlinear_arith)
            requires
                k == cols * r + c,
                0 <= c < cols,
                k < m.rows() * cols,
        ;
        assert(k == r * cols + c) by (nonlinear_arith)
            requires
                k == cols * r + c,
        ;
        assert(tt.at(r, c) == t.at(c, r));
    }
    assert(tt.elems() =~= m.elems());
}

/// The transpose is unique: `transpose` and `transpose_mut`, which both
/// produce a matrix that `transposes` `m`, produce the same matrix.
pub proof fn lemma_transpose_unique<T>(m: FennMatrix<T>, t1: FennMatrix<T>, t2: FennMatrix<T>)
    requires
        t1.transposes(m),
        t2.transposes(m),
    ensures
        t1.rows() == t2.rows(),
        t1.cols() == t2.cols(),
        t1@ == t2@,
{
    assert forall|c: int| 0 <= c < m.cols() implies t1@[c] =~= t2@[c] by {
        assert forall|r: int| 0 <= r < m.rows() implies t1@[c][r] == t2@[c][r] by {
            assert(t1.at(c, r) == m.at(r, c));
            assert(t2.at(c, r) == m.at(r, c));
        }
    }
    assert(t1@ =~= t2@);
}

/// Two running sums of products agree when their factors agree position
/// by position.
pub proof fn lemma_dot_result_congruent<T: Add<Output = T> + Mul<Output = T>>(
    acc: T,
    xs: Seq<T>,
    ys: Seq<T>,
    xs2: Seq<T>,
    ys2: Seq<T>,
    n: nat,
    r: T,
)
    requires
        forall|k: int| 0 <= k < n ==> xs[k] == xs2[k] && ys[k] == ys2[k],
        dot_result(acc, xs, ys, n, r),
    ensures
        dot_result(acc, xs2, ys2, n, r),
    decreases n,
{
    if n > 0 {
        let (prev, p) = choose|prev: T, p: T|
            #![trigger sum_of(prev, p, r)]
            dot_result(acc, xs, ys, (n - 1) as nat, prev) && product_of(xs[n - 1], ys[n - 1], p)
                && sum_of(prev, p, r);
        lemma_dot_result_congruent(acc, xs, ys, xs2, ys2, (n - 1) as nat, prev);
        lemma_dot_result_step(acc, xs2, ys2, (n - 1) as nat, prev, p, r);
    }
}

/// Multiplying the transpose of `m` by a column holding `v` gives, in row
/// `i`, what `mul_transposed_lhs_vec` gives without building the transpose:
/// column `i` of `m` times `v`, with the same products added in the same
/// order.
pub proof fn lemma_transposed_product<T: Add<Output = T> + Mul<Output = T>>(
    m: FennMatrix<T>,
    t: FennMatrix<T>,
    vm: FennMatrix<T>,
    zero: T,
    i: int,
    r: T,
)
    requires
        m.wf(),
        t.transposes(m),
        vm.wf(),
        vm.cols() == 1,
        vm.rows() == m.rows(),
        0 <= i < m.cols(),
    ensures
        dot_result(zero, t@[i], column(vm, 0), t.cols(), r) <==> dot_result(
            zero,
            column(m, i),
            vm.elems(),
            m.rows(),
            r,
        ),
{
    assert forall|k: int| 0 <= k < m.rows() implies t@[i][k] == column(m, i)[k] && column(
        vm,
        0,
    )[k] == vm.elems()[k] by {
        assert(t.at(i, k) == m.at(k, i));
        assert(vm.at(k, 0) == vm.elems()[k * 1 + 0]);
        assert(k * 1 + 0 == k);
    }
    if dot_result(zero, t@[i], column(vm, 0), t.cols(), r) {
        lemma_dot_result_congruent(zero, t@[i], column(vm, 0), column(m, i), vm.elems(), m.rows(), r);
    }
    if dot_result(zero, column(m, i), vm.elems(), m.rows(), r) {
        lemma_dot_result_congruent(zero, column(m, i), vm.elems(), t@[i], column(vm, 0), m.rows(), r);
    }
}

/// The dot product of two vectors is the sum of their entry-by-entry
/// product: summing the products one at a time onto `zero` is the same
/// computation as the running sum of products.
pub proof fn lemma_dot_is_sum_of_products<T: Add<Output = T> + Mul<Output = T>>(
    zero: T,
    xs: Seq<T>,
    ys: Seq<T>,
    prods: Seq<T>,
    n: nat,
    r: T,
)
    requires
        pairwise_products(xs, ys, prods),
        n <= prods.len(),
        sum_result(zero, prods, n, r),
    ensures
        dot_result(zero, xs, ys, n, r),
    decreases n,
{
    if n > 0 {
        let prev = choose|prev: T|
            #![trigger sum_of(prev, prods[n - 1], r)]
            sum_result(zero, prods, (n - 1) as nat, prev) && sum_of(prev, prods[n - 1], r);
        lemma_dot_is_sum_of_products(zero, xs, ys, prods, (n - 1) as nat, prev);
        lemma_dot_result_step(zero, xs, ys, (n - 1) as nat, prev, prods[n - 1], r);
    }
}

/// Where `T`'s `+` and `*` compute what their specifications say, a
/// running sum of products has exactly one value, `dot_acc`.
pub proof fn lemma_dot_result_exact<T: Add<Output = T> + Mul<Output = T>>(
    acc: T,
    xs: Seq<T>,
    ys: Seq<T>,
    n: nat,
    r: T,
)
    requires
        ring_ops::<T>(),
        dot_result(acc, xs, ys, n, r),
    ensures
        r == dot_acc(acc, xs, ys, n),
    decreases n,
{
    if n > 0 {
        let (prev, p) = choose|prev: T, p: T|
            #![trigger sum_of(prev, p, r)]
            dot_result(acc, xs, ys, (n - 1) as nat, prev) && product_of(xs[n - 1], ys[n - 1], p)
                && sum_of(prev, p, r);
        lemma_dot_result_exact(acc, xs, ys, (n - 1) as nat, prev);
    }
}

/// Where `T`'s `+` computes what its specification says, a running sum has
/// exactly one value, `sum_acc`.
pub proof fn lemma_sum_result_exact<T: Add<Output = T>>(acc: T, xs: Seq<T>, n: nat, r: T)
    requires
        T::obeys_add_spec(),
        sum_result(acc, xs, n, r),
    ensures
        r == sum_acc(acc, xs, n),
    decreases n,
{
    if n > 0 {
        let prev = choose|prev: T|
            #![trigger sum_of(prev, xs[n - 1], r)]
            sum_result(acc, xs, (n - 1) as nat, prev) && sum_of(prev, xs[n - 1], r);
        lemma_sum_result_exact(acc, xs, (n - 1) as nat, prev);
    }
}

/// Of a non-empty run of entries ordered by a strict weak order, `argmax`
/// picks the last of the greatest: no entry compares above the one picked,
/// and every entry after it compares below it.
pub proof fn lemma_argmax_is_last_greatest<T: PartialOrd>(xs: Seq<T>, n: nat)
    requires
        greater_is_weak_order::<T>(),
        0 < n <= xs.len(),
    ensures
        argmax_prefix(xs, n) < n,
        forall|j: int| 0 <= j < n ==> !ranks_above(#[trigger] xs[j], xs[argmax_prefix(xs, n) as int]),
        forall|j: int|
            argmax_prefix(xs, n) < j < n ==> ranks_above(xs[argmax_prefix(xs, n) as int], #[trigger] xs[j]),
    decreases n,
{
    if n == 1 {
        assert(!ranks_above(xs[0], xs[0]));
    } else {
        lemma_argmax_is_last_greatest(xs, (n - 1) as nat);
        let best = argmax_prefix(xs, (n - 1) as nat) as int;
        let last = xs[n - 1];
        if ranks_above(xs[best], last) {
            assert(!ranks_above(last, xs[best]));
        } else {
            assert forall|j: int| 0 <= j < n implies !ranks_above(#[trigger] xs[j], last) by {
                if j < n - 1 {
                    assert(!ranks_above(xs[j], xs[best]));
                } else {
                    assert(!ranks_above(last, last));
                }
            }
        }
    }
}

} // verus!
