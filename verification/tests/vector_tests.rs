use fenn::{FennMatrix, FennVector};

#[test]
fn vector_sum_and_difference() {
    let a = FennVector::from_vec(vec![1i64, 2, 3]);
    let b = FennVector::from_vec(vec![10i64, 20, 30]);
    let s = &a + &b;
    assert_eq!(s.as_slice(), &[11i64, 22, 33][..]);
    let d = b.clone() - a.clone();
    assert_eq!(d.as_slice(), &[9i64, 18, 27][..]);
    let owned = a.clone() + b.clone();
    assert_eq!(owned.as_slice(), s.as_slice());
    let mixed = &a - b.clone();
    assert_eq!(mixed.as_slice(), &[-9i64, -18, -27][..]);
    let other = a - &b;
    assert_eq!(other.as_slice(), mixed.as_slice());
    let c = &b + FennVector::from_vec(vec![1i64, 1, 1]);
    assert_eq!(c.as_slice(), &[11i64, 21, 31][..]);
}

#[test]
fn vector_sum_stops_at_shorter() {
    let a = FennVector::from_vec(vec![1i64, 2, 3]);
    let b = FennVector::from_vec(vec![10i64]);
    assert_eq!((&a + &b).as_slice(), &[11i64][..]);
}

#[test]
fn matrix_plus_column_vector() {
    let m = FennMatrix::from_slice(&[[1i64], [2]]);
    let v = FennVector::from_vec(vec![5i64, 6]);
    let r = &m + &v;
    assert_eq!(r.as_slice(), &[6i64, 8][..]);
    let r2 = m.clone() + v.clone();
    assert_eq!(r2.as_slice(), r.as_slice());
    let r3 = m.clone() + &v;
    assert_eq!(r3.as_slice(), r.as_slice());
    let r4 = &m + v;
    assert_eq!(r4.as_slice(), r.as_slice());
}

#[test]
fn matrix_difference() {
    let a = FennMatrix::from_slice(&[[5i64, 6], [7, 8]]);
    let b = FennMatrix::from_slice(&[[1i64, 2], [3, 4]]);
    let d = &a - &b;
    assert_eq!(d.dimensions(), (2, 2));
    assert_eq!(d.as_slice(), &[4i64, 4, 4, 4][..]);
    assert_eq!((a.clone() - b.clone()).as_slice(), d.as_slice());
    assert_eq!((&a - b.clone()).as_slice(), d.as_slice());
    assert_eq!((a - &b).as_slice(), d.as_slice());
}

#[test]
fn dot_and_sum() {
    let a = FennVector::from_vec(vec![1i64, 2, 3]);
    let b = FennVector::from_vec(vec![4i64, 5, 6]);
    assert_eq!(a.dot(&b), 32);
    assert_eq!(a.element_wise_mult(&b).sum(), 32);
    assert_eq!(a.sum(), 6);
    let e: FennVector<i64> = FennVector::from_vec(vec![]);
    assert_eq!(e.sum(), 0);
}

#[test]
fn dot_of_floats() {
    let a = FennVector::from_slice(&[0.5f64, 2.0]);
    let b = FennVector::from_slice(&[4.0f64, 0.25]);
    assert_eq!(a.dot(&b), 2.5);
}

#[test]
fn zip_and_fold() {
    let a = FennVector::from_vec(vec![1i64, 2, 3]);
    let b = FennVector::from_vec(vec![3i64, 2, 1]);
    let z = a.zip(&b, |(x, y)| x - y);
    assert_eq!(z.as_slice(), &[-2i64, 0, 2][..]);
    let folded = a.fold(100, |acc, x| acc - x);
    assert_eq!(folded, 94);
}

#[test]
fn sub_scaled_in_place() {
    let mut a = FennVector::from_vec(vec![10i64, 20]);
    let b = FennVector::from_vec(vec![1i64, 2]);
    a.sub_scaled(3, &b);
    assert_eq!(a.as_slice(), &[7i64, 14][..]);
}

#[test]
fn argmax_prefers_last_of_equals() {
    let v = FennVector::from_vec(vec![1i64, 5, 3, 5, 2]);
    assert_eq!(v.argmax(), 3);
    let w = FennVector::from_vec(vec![9i64, 1]);
    assert_eq!(w.argmax(), 0);
    let e: FennVector<i64> = FennVector::from_vec(vec![]);
    assert_eq!(e.argmax(), 0);
}

#[test]
fn argmax_with_nan_takes_the_later_entry() {
    let v = FennVector::from_slice(&[3.0f64, f64::NAN, 1.0]);
    assert_eq!(v.argmax(), 2);
}

#[test]
fn one_hot_marks_the_greatest() {
    let v = FennVector::from_slice(&[0.1f64, 0.7, 0.2]);
    let h = v.one_hot();
    assert_eq!(h.as_slice(), &[0.0f64, 1.0, 0.0][..]);
    let w = FennVector::from_vec(vec![4i32, 4]);
    assert_eq!(w.one_hot().as_slice(), &[0i32, 1][..]);
}

#[test]
fn cross_is_square_zero_matrix() {
    let a = FennVector::from_vec(vec![1i64]);
    let b = FennVector::from_vec(vec![1i64, 2, 3]);
    let m = a.cross(&b);
    assert_eq!(m.dimensions(), (3, 3));
    assert_eq!(m.as_slice(), &[0i64; 9][..]);
}

#[test]
fn new_vector_is_zero() {
    let v: FennVector<f64> = FennVector::new(3);
    assert_eq!(v.as_slice(), &[0.0f64, 0.0, 0.0][..]);
    assert_eq!(v.len(), 3);
}

#[test]
fn element_wise_product() {
    let a = FennVector::from_vec(vec![2i64, 3]);
    let b = FennVector::from_vec(vec![5i64, 7]);
    assert_eq!(a.element_wise_mult(&b).as_slice(), &[10i64, 21][..]);
}
