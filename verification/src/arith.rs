use vstd::prelude::*;
use vstd::std_specs::ops::{AddSpec, MulSpec, SubSpec};

use core::ops::{Add, Mul, Sub};

verus! {

/// Any two values of `T` may be added (as with floating-point numbers).
pub open spec fn add_total<T: Add<Output = T>>() -> bool {
    forall|a: T, b: T| #[trigger] a.add_req(b)
}

/// Any two values of `T` may be multiplied (as with floating-point numbers).
pub open spec fn mul_total<T: Mul<Output = T>>() -> bool {
    forall|a: T, b: T| #[trigger] a.mul_req(b)
}

/// Any value of `T` may be subtracted from any other (as with floating-point
/// numbers).
pub open spec fn sub_total<T: Sub<Output = T>>() -> bool {
    forall|a: T, b: T| #[trigger] a.sub_req(b)
}

/// `T`'s `+` and `*` compute what their specifications in vstd say (true
/// of the integer types, not claimed for the floating-point ones).
pub open spec fn ring_ops<T: Add<Output = T> + Mul<Output = T>>() -> bool {
    T::obeys_add_spec() && T::obeys_mul_spec()
}

/// `r` is a value that `T`'s `+` returns for `a + b`.
pub open spec fn sum_of<T: Add<Output = T>>(a: T, b: T, r: T) -> bool {
    call_ensures(T::add, (a, b), r)
}

/// `r` is a value that `T`'s `*` returns for `a * b`.
pub open spec fn product_of<T: Mul<Output = T>>(a: T, b: T, r: T) -> bool {
    call_ensures(T::mul, (a, b), r)
}

/// `r` is a value that `T`'s `-` returns for `a - b`.
pub open spec fn difference_of<T: Sub<Output = T>>(a: T, b: T, r: T) -> bool {
    call_ensures(T::sub, (a, b), r)
}

/// `z` is a value that `T::default()` returns (zero for the number types).
pub open spec fn default_value<T: Default>(z: T) -> bool {
    call_ensures(T::default, (), z)
}

/// `r` is `x - a * b` computed with `T`'s own `*` and `-`.
pub open spec fn sub_product_of<T: Sub<Output = T> + Mul<Output = T>>(x: T, a: T, b: T, r: T) -> bool {
    exists|p: T| #![trigger difference_of(x, p, r)] product_of(a, b, p) && difference_of(x, p, r)
}

/// `r` is `x - (scale * a) * b` computed with `T`'s own `*` and `-`.
pub open spec fn scaled_sub_product_of<T: Sub<Output = T> + Mul<Output = T>>(
    x: T,
    scale: T,
    a: T,
    b: T,
    r: T,
) -> bool {
    exists|s: T| #![trigger product_of(scale, a, s)] product_of(scale, a, s) && sub_product_of(x, s, b, r)
}

/// `r` is what adding the products `xs[k] * ys[k]`, for `k` from `0` up to
/// `n - 1`, one at a time onto `acc` with `T`'s own `*` and `+` gives.
pub open spec fn dot_result<T: Add<Output = T> + Mul<Output = T>>(
    acc: T,
    xs: Seq<T>,
    ys: Seq<T>,
    n: nat,
    r: T,
) -> bool
    decreases n,
{
    if n == 0 {
        r == acc
    } else {
        exists|prev: T, p: T|
            #![trigger sum_of(prev, p, r)]
            dot_result(acc, xs, ys, (n - 1) as nat, prev) && product_of(xs[n - 1], ys[n - 1], p)
                && sum_of(prev, p, r)
    }
}

/// `r` is what adding `xs[0]`, ..., `xs[n - 1]` one at a time onto `acc`
/// with `T`'s own `+` gives.
pub open spec fn sum_result<T: Add<Output = T>>(acc: T, xs: Seq<T>, n: nat, r: T) -> bool
    decreases n,
{
    if n == 0 {
        r == acc
    } else {
        exists|prev: T|
            #![trigger sum_of(prev, xs[n - 1], r)]
            sum_result(acc, xs, (n - 1) as nat, prev) && sum_of(prev, xs[n - 1], r)
    }
}

/// `out` holds `a[i] + b[i]` for each position that both `a` and `b` have.
pub open spec fn pairwise_sums<T: Add<Output = T>>(a: Seq<T>, b: Seq<T>, out: Seq<T>) -> bool {
    &&& out.len() == if a.len() <= b.len() {
        a.len()
    } else {
        b.len()
    }
    &&& forall|i: int| 0 <= i < out.len() ==> sum_of(a[i], b[i], #[trigger] out[i])
}

/// `out` holds `a[i] - b[i]` for each position that both `a` and `b` have.
pub open spec fn pairwise_differences<T: Sub<Output = T>>(a: Seq<T>, b: Seq<T>, out: Seq<T>) -> bool {
    &&& out.len() == if a.len() <= b.len() {
        a.len()
    } else {
        b.len()
    }
    &&& forall|i: int| 0 <= i < out.len() ==> difference_of(a[i], b[i], #[trigger] out[i])
}

/// `out` holds `a[i] * b[i]` for each position that both `a` and `b` have.
pub open spec fn pairwise_products<T: Mul<Output = T>>(a: Seq<T>, b: Seq<T>, out: Seq<T>) -> bool {
    &&& out.len() == if a.len() <= b.len() {
        a.len()
    } else {
        b.len()
    }
    &&& forall|i: int| 0 <= i < out.len() ==> product_of(a[i], b[i], #[trigger] out[i])
}

/// `acc + xs[0] * ys[0] + ... + xs[n - 1] * ys[n - 1]` by the specifications
/// of `T`'s operations, added from the left.
pub open spec fn dot_acc<T: Add<Output = T> + Mul<Output = T>>(
    acc: T,
    xs: Seq<T>,
    ys: Seq<T>,
    n: nat,
) -> T
    decreases n,
{
    if n == 0 {
        acc
    } else {
        dot_acc(acc, xs, ys, (n - 1) as nat).add_spec(xs[n - 1].mul_spec(ys[n - 1]))
    }
}

/// `acc + xs[0] + ... + xs[n - 1]` by the specification of `T`'s `+`,
/// added from the left.
pub open spec fn sum_acc<T: Add<Output = T>>(acc: T, xs: Seq<T>, n: nat) -> T
    decreases n,
{
    if n == 0 {
        acc
    } else {
        sum_acc(acc, xs, (n - 1) as nat).add_spec(xs[n - 1])
    }
}

/// One more product added onto a running sum extends its `dot_result`.
pub proof fn lemma_dot_result_step<T: Add<Output = T> + Mul<Output = T>>(
    acc: T,
    xs: Seq<T>,
    ys: Seq<T>,
    n: nat,
    prev: T,
    p: T,
    r: T,
)
    requires
        dot_result(acc, xs, ys, n, prev),
        product_of(xs[n as int], ys[n as int], p),
        sum_of(prev, p, r),
    ensures
        dot_result(acc, xs, ys, n + 1, r),
{
    assert(dot_result(acc, xs, ys, ((n + 1) - 1) as nat, prev));
}

/// One more term added onto a running sum extends its `sum_result`.
pub proof fn lemma_sum_result_step<T: Add<Output = T>>(acc: T, xs: Seq<T>, n: nat, prev: T, r: T)
    requires
        sum_result(acc, xs, n, prev),
        sum_of(prev, xs[n as int], r),
    ensures
        sum_result(acc, xs, n + 1, r),
{
    assert(sum_result(acc, xs, ((n + 1) - 1) as nat, prev));
}

} // verus!
