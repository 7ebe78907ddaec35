use vstd::prelude::*;

use core::cmp::Ordering;
use vstd::std_specs::cmp::PartialOrdSpec;

verus! {

/// `T`'s `partial_cmp` computes what its specification says.
pub open spec fn comparison_obeyed<T: PartialOrd>() -> bool {
    T::obeys_partial_cmp_spec()
}

/// `a` compares strictly greater than `b`.
pub open spec fn ranks_above<T: PartialOrd>(a: T, b: T) -> bool {
    a.partial_cmp_spec(&b) == Some(Ordering::Greater)
}

/// `partial_cmp` follows its specification, and "compares strictly
/// greater" is a strict weak order on `T`: never both ways, and two values
/// neither above the other are interchangeable (as with the integers).
pub open spec fn greater_is_weak_order<T: PartialOrd>() -> bool {
    &&& comparison_obeyed::<T>()
    &&& forall|a: T, b: T| #[trigger] ranks_above(a, b) ==> !ranks_above(b, a)
    &&& forall|a: T, b: T, c: T|
        #![trigger ranks_above(a, b), ranks_above(b, c)]
        !ranks_above(a, b) && !ranks_above(b, c) ==> !ranks_above(a, c)
}

/// On `i64`, comparing strictly greater is `>`, and it is a strict weak
/// order.
pub proof fn lemma_i64_greater_is_weak_order()
    ensures
        greater_is_weak_order::<i64>(),
        forall|a: i64, b: i64| #[trigger] ranks_above(a, b) <==> a > b,
{
}

/// `g` is what `a.partial_cmp(b)` says of `a` being greater: `true`
/// exactly when it returns `Some(Greater)`.
pub open spec fn compared_greater<T: PartialOrd>(a: T, b: T, g: bool) -> bool {
    exists|o: Option<Ordering>|
        #![trigger call_ensures(T::partial_cmp, (&a, &b), o)]
        call_ensures(T::partial_cmp, (&a, &b), o) && (g <==> o == Some(Ordering::Greater))
}

/// Whether `a.partial_cmp(b)` reports `Greater`; incomparable values are
/// not greater.
pub fn compares_greater<T: PartialOrd>(a: &T, b: &T) -> (r: bool)
    ensures
        compared_greater(*a, *b, r),
        comparison_obeyed::<T>() ==> (r <==> ranks_above(*a, *b)),
{
    let o = a.partial_cmp(b);
    let r = match o {
        Some(Ordering::Greater) => true,
        _ => false,
    };
    assert(call_ensures(T::partial_cmp, (a, b), o));
    r
}

} // verus!
