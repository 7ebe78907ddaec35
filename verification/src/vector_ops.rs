use vstd::prelude::*;

use core::ops::{Add, Mul, Sub};

use crate::arith::{
    add_total, default_value, difference_of, dot_result, lemma_dot_result_step,
    lemma_sum_result_step, mul_total, product_of, sub_product_of, sub_total, sum_result,
};
use crate::matrix::FennMatrix;
use crate::order::{
    compared_greater, comparison_obeyed, compares_greater, greater_is_weak_order, ranks_above,
};
use crate::vector::FennVector;

verus! {

/// `accs` holds the running values of folding `f` over `xs` from `init`:
/// `accs[0]` is `init` and each `accs[k + 1]` is what `f(accs[k], &xs[k])`
/// may return.
pub open spec fn fold_chain<T, F: Fn(T, &T) -> T>(f: F, init: T, xs: Seq<T>, accs: Seq<T>) -> bool {
    &&& accs.len() == xs.len() + 1
    &&& accs[0] == init
    &&& forall|k: int| 0 <= k < xs.len() ==> f.ensures((accs[k], &xs[k]), #[trigger] accs[k + 1])
}

/// The position of the greatest of the first `n` entries of `xs`, reading
/// from the front: a later entry takes the place of the best so far unless
/// the best compares strictly greater; `0` when `n` is `0`.
pub open spec fn argmax_prefix<T: PartialOrd>(xs: Seq<T>, n: nat) -> nat
    decreases n,
{
    if n <= 1 {
        0
    } else {
        let best = argmax_prefix(xs, (n - 1) as nat);
        if ranks_above(xs[best as int], xs[n - 1]) {
            best
        } else {
            (n - 1) as nat
        }
    }
}

/// `idx` is where reading the first `n` entries of `xs` from the front
/// leaves the best position: position `0` first, then each later entry
/// takes the place of the best so far unless `partial_cmp` reports the
/// best greater.
pub open spec fn argmax_trace<T: PartialOrd>(xs: Seq<T>, n: int, idx: int) -> bool
    decreases n,
{
    if n <= 1 {
        idx == 0
    } else {
        exists|prev: int, g: bool|
            #![trigger compared_greater(xs[prev], xs[n - 1], g)]
            argmax_trace(xs, n - 1, prev) && 0 <= prev < n - 1 && compared_greater(
                xs[prev],
                xs[n - 1],
                g,
            ) && idx == if g {
                prev
            } else {
                n - 1
            }
    }
}

impl<T: Copy> FennVector<T> {
    /// `f` applied to each pair of entries at one position of two vectors
    /// of one shape.
    pub fn zip<F: Fn((&T, &T)) -> T>(&self, other: &FennVector<T>, f: F) -> (out: FennVector<T>)
        requires
            self.wf(),
            other.wf(),
            self@.len() == other@.len(),
            forall|i: int| 0 <= i < self@.len() ==> f.requires(((&self@[i], &other@[i]),)),
        ensures
            out.wf(),
            out@.len() == self@.len(),
            forall|i: int|
                0 <= i < self@.len() ==> f.ensures(((&self@[i], &other@[i]),), #[trigger] out@[i]),
    {
        let a = self.as_slice();
        let b = other.as_slice();
        let mut out: Vec<T> = Vec::with_capacity(a.len());
        for i in 0..a.len()
            invariant
                a@ == self@,
                b@ == other@,
                a@.len() == b@.len(),
                out.len() == i,
                forall|j: int| 0 <= j < a@.len() ==> f.requires(((&a@[j], &b@[j]),)),
                forall|j: int| 0 <= j < i ==> f.ensures(((&a@[j], &b@[j]),), #[trigger] out@[j]),
        {
            out.push(f((&a[i], &b[i])));
        }
        FennVector::from_vec(out)
    }

    /// Folds `f` over the entries from the top, starting from `init`.
    pub fn fold<F: Fn(T, &T) -> T>(&self, init: T, f: F) -> (r: T)
        requires
            self.wf(),
            forall|acc: T, i: int| 0 <= i < self@.len() ==> f.requires((acc, &self@[i])),
        ensures
            exists|accs: Seq<T>| fold_chain(f, init, self@, accs) && r == accs.last(),
    {
        let s = self.as_slice();
        let mut acc = init;
        let ghost mut accs: Seq<T> = seq![init];
        for i in 0..s.len()
            invariant
                s@ == self@,
                forall|a: T, j: int| 0 <= j < self@.len() ==> f.requires((a, &self@[j])),
                accs.len() == i + 1,
                accs[0] == init,
                acc == accs.last(),
                forall|k: int| 0 <= k < i ==> f.ensures((accs[k], &self@[k]), #[trigger] accs[k + 1]),
        {
            acc = f(acc, &s[i]);
            proof {
                accs = accs.push(acc);
            }
        }
        assert(fold_chain(f, init, self@, accs));
        acc
    }

    /// The vector of `f` applied to each entry.
    pub fn map<F: Fn(&T) -> T>(&self, f: F) -> (out: FennVector<T>)
        requires
            self.wf(),
            forall|i: int| 0 <= i < self@.len() ==> f.requires((&self@[i],)),
        ensures
            out.wf(),
            out@.len() == self@.len(),
            forall|i: int| 0 <= i < self@.len() ==> f.ensures((&self@[i],), #[trigger] out@[i]),
    {
        let m = self.to_matrix_ref();
        assert(m.elems() == self@);
        m.map(f).move_to_vec()
    }
}

impl<T: Copy + Default> FennVector<T> {
    /// A square matrix of zeros (default values) with as many rows and
    /// columns as `v` has entries; the entries themselves are not read.
    pub fn cross(&self, v: &FennVector<T>) -> (m: FennMatrix<T>)
        requires
            v.wf(),
            v@.len() * v@.len() <= usize::MAX,
        ensures
            m.wf(),
            m.rows() == v@.len(),
            m.cols() == v@.len(),
            exists|zero: T|
                #![trigger default_value(zero)]
                default_value(zero) && forall|i: int| 0 <= i < m.elems().len() ==> m.elems()[i] == zero,
    {
        let n = v.len();
        FennMatrix::new((n, n))
    }
}

impl<T: Copy + Default + Add<Output = T>> FennVector<T> {
    /// The sum of the entries, added from the top starting at zero.
    pub fn sum(&self) -> (r: T)
        requires
            self.wf(),
            add_total::<T>(),
        ensures
            exists|zero: T|
                #![trigger default_value(zero)]
                default_value(zero) && sum_result(zero, self@, self@.len(), r),
    {
        let s = self.as_slice();
        let zero = T::default();
        let mut acc = zero;
        for i in 0..s.len()
            invariant
                s@ == self@,
                add_total::<T>(),
                sum_result(zero, self@, i as nat, acc),
        {
            let prev = acc;
            acc = prev + s[i];
            proof {
                lemma_sum_result_step(zero, self@, i as nat, prev, acc);
            }
        }
        assert(default_value(zero));
        acc
    }
}

impl<T: Copy + Default + Add<Output = T> + Mul<Output = T>> FennVector<T> {
    /// The dot product with a vector of the same length, each product taken
    /// as `self[i] * v[i]` and summed from zero.
    pub fn dot(&self, v: &FennVector<T>) -> (r: T)
        requires
            self.wf(),
            v.wf(),
            self@.len() == v@.len(),
            add_total::<T>(),
            mul_total::<T>(),
        ensures
            exists|zero: T|
                #![trigger default_value(zero)]
                default_value(zero) && dot_result(zero, self@, v@, self@.len(), r),
    {
        let a = self.as_slice();
        let b = v.as_slice();
        let zero = T::default();
        let mut acc = zero;
        for i in 0..a.len()
            invariant
                a@ == self@,
                b@ == v@,
                a@.len() == b@.len(),
                add_total::<T>(),
                mul_total::<T>(),
                dot_result(zero, self@, v@, i as nat, acc),
        {
            let prod = a[i] * b[i];
            let prev = acc;
            acc = prev + prod;
            proof {
                lemma_dot_result_step(zero, self@, v@, i as nat, prev, prod, acc);
            }
        }
        assert(default_value(zero));
        acc
    }
}

impl<T: Copy + Sub<Output = T> + Mul<Output = T>> FennVector<T> {
    /// In place, `self -= scale * other`: entry `i` becomes
    /// `x - scale * other[i]`.
    pub fn sub_scaled(&mut self, scale: T, other: &FennVector<T>)
        requires
            old(self).wf(),
            other.wf(),
            other@.len() == old(self)@.len(),
            sub_total::<T>(),
            mul_total::<T>(),
        ensures
            final(self).wf(),
            final(self)@.len() == old(self)@.len(),
            forall|i: int|
                0 <= i < old(self)@.len() ==> sub_product_of(
                    old(self)@[i],
                    scale,
                    other@[i],
                    #[trigger] final(self)@[i],
                ),
    {
        let n = self.len();
        let b = other.as_slice();
        for i in 0..n
            invariant
                self.wf(),
                self@.len() == n,
                n == old(self)@.len(),
                b@ == other@,
                b@.len() == n,
                sub_total::<T>(),
                mul_total::<T>(),
                forall|j: int|
                    0 <= j < i ==> sub_product_of(old(self)@[j], scale, other@[j], #[trigger] self@[j]),
                forall|j: int| i <= j < n ==> #[trigger] self@[j] == old(self)@[j],
        {
            let cur = self.as_slice()[i];
            let prod = scale * b[i];
            let updated = cur - prod;
            self.set_entry(i, updated);
            assert(product_of(scale, other@[i as int], prod));
            assert(difference_of(cur, prod, updated));
            assert(sub_product_of(old(self)@[i as int], scale, other@[i as int], updated));
        }
    }
}

impl<T: Copy + PartialOrd> FennVector<T> {
    /// The position of the greatest entry: reading from the top, a later
    /// entry takes the place of the best so far unless the best compares
    /// strictly greater, so of equal or incomparable entries the last one
    /// wins; `0` for an empty vector.
    pub fn argmax(&self) -> (idx: usize)
        requires
            self.wf(),
        ensures
            self@.len() == 0 ==> idx == 0,
            self@.len() > 0 ==> idx < self@.len(),
            self@.len() > 0 ==> argmax_trace(self@, self@.len() as int, idx as int),
            comparison_obeyed::<T>() ==> idx == argmax_prefix(self@, self@.len()),
            greater_is_weak_order::<T>() && self@.len() > 0 ==> {
                &&& forall|j: int| 0 <= j < self@.len() ==> !ranks_above(#[trigger] self@[j], self@[idx as int])
                &&& forall|j: int| idx < j < self@.len() ==> ranks_above(self@[idx as int], #[trigger] self@[j])
            },
    {
        let s = self.as_slice();
        if s.len() == 0 {
            return 0;
        }
        let mut best: usize = 0;
        for i in 1..s.len()
            invariant
                s@ == self@,
                1 <= i <= s@.len(),
                best < i,
                argmax_trace(self@, i as int, best as int),
                comparison_obeyed::<T>() ==> best == argmax_prefix(self@, i as nat),
                greater_is_weak_order::<T>() ==> forall|j: int|
                    0 <= j < i ==> !ranks_above(#[trigger] self@[j], self@[best as int]),
                greater_is_weak_order::<T>() ==> forall|j: int|
                    best < j < i ==> ranks_above(self@[best as int], #[trigger] self@[j]),
        {
            let g = compares_greater(&s[best], &s[i]);
            let ghost prev = best;
            if !g {
                best = i;
            }
            assert(argmax_trace(self@, (i + 1) - 1, prev as int));
            assert(compared_greater(self@[prev as int], self@[(i + 1) - 1], g));
        }
        best
    }
}

impl<T: Copy + PartialOrd + Default + From<u8>> FennVector<T> {
    /// A vector of the same length holding one (`T::from(1)`) at the
    /// position of `argmax` and zero (the default value) elsewhere; the
    /// vector must not be empty.
    pub fn one_hot(&self) -> (out: FennVector<T>)
        requires
            self.wf(),
            self@.len() > 0,
        ensures
            out.wf(),
            out@.len() == self@.len(),
            exists|zero: T, one: T, idx: int|
                #![trigger default_value(zero), call_ensures(T::from, (1u8,), one), out@[idx]]
                {
                    &&& default_value(zero)
                    &&& call_ensures(T::from, (1u8,), one)
                    &&& 0 <= idx < self@.len()
                    &&& argmax_trace(self@, self@.len() as int, idx)
                    &&& comparison_obeyed::<T>() ==> idx == argmax_prefix(self@, self@.len())
                    &&& greater_is_weak_order::<T>() ==> forall|j: int|
                        0 <= j < self@.len() ==> !ranks_above(#[trigger] self@[j], self@[idx])
                    &&& greater_is_weak_order::<T>() ==> forall|j: int|
                        idx < j < self@.len() ==> ranks_above(self@[idx], #[trigger] self@[j])
                    &&& forall|i: int|
                        0 <= i < self@.len() ==> #[trigger] out@[i] == if i == idx {
                            one
                        } else {
                            zero
                        }
                },
    {
        let n = self.len();
        let idx = self.argmax();
        let zero = T::default();
        let one = T::from(1u8);
        let mut data: Vec<T> = Vec::with_capacity(n);
        for i in 0..n
            invariant
                data.len() == i,
                forall|j: int| 0 <= j < i ==> data@[j] == zero,
        {
            data.push(zero);
        }
        data.set(idx, one);
        let out = FennVector::from_vec(data);
        assert forall|i: int| 0 <= i < self@.len() implies #[trigger] out@[i] == if i == idx {
            one
        } else {
            zero
        } by {}
        assert(default_value(zero));
        assert(call_ensures(T::from, (1u8,), one));
        assert(out@[idx as int] == one);
        out
    }
}

} // verus!
