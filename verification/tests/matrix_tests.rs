use fenn::{Errors, FennMatrix, FennVector};

#[test]
fn create_zero_matrix3x3() {
    let m: FennMatrix<f64> = FennMatrix::new((2, 3));
    assert_eq!(m[0][0], 0f64);
    assert_eq!(m[0][1], 0f64);
    assert_eq!(m[0][2], 0f64);
    assert_eq!(m[1][0], 0f64);
    assert_eq!(m[1][1], 0f64);
    assert_eq!(m[1][2], 0f64);
}

#[test]
fn create_ones_matrix3x3() {
    let m = FennMatrix::from_slice(&[[1., 2., 3.], [4., 5., 6.]]);
    assert_eq!(m[0][0], 1f64);
    assert_eq!(m[0][1], 2f64);
    assert_eq!(m[0][2], 3f64);
    assert_eq!(m[1][0], 4f64);
    assert_eq!(m[1][1], 5f64);
    assert_eq!(m[1][2], 6f64);
}

#[test]
fn multiply_1x3_3x1_1x1() {
    let m2 = FennMatrix::from_slice(&[[1., 2., 3.]]);
    let m = FennMatrix::from_slice(&[[1.], [2.], [3.]]);
    let m3 = m2 * m;
    assert_eq!(m3.dimensions(), (1, 1));
    assert_eq!(m3[0][0], 14.0);
}

#[test]
fn multiply_3x3_3x3_3x3() {
    let m2 = FennMatrix::from_slice(&[[1., 2., 3.], [1., 2., 3.], [1., 2., 3.]]);
    let m = FennMatrix::from_slice(&[[1., 2., 3.], [1., 2., 3.], [1., 2., 3.]]);
    let m3 = m2 * m;
    assert_eq!(m3.dimensions(), (3, 3));
    assert_eq!(m3[0][0], 6f64);
    assert_eq!(m3[0][1], 12f64);
    assert_eq!(m3[0][2], 18f64);
    assert_eq!(m3[1][0], 6f64);
    assert_eq!(m3[1][1], 12f64);
    assert_eq!(m3[1][2], 18f64);
    assert_eq!(m3[2][0], 6f64);
    assert_eq!(m3[2][1], 12f64);
    assert_eq!(m3[2][2], 18f64);
}

#[test]
fn mutate_matrix3x3() {
    let mut m = FennMatrix::from_slice(&[[1., 2., 3.], [4., 5., 6.]]);
    m[0][0] = 64f64;
    m[1][1] = 3434f64;
    m[1][2] = 0.9999f64;

    assert_eq!(m[0][0], 64f64);
    assert_eq!(m[0][1], 2f64);
    assert_eq!(m[0][2], 3f64);
    assert_eq!(m[1][0], 4f64);
    assert_eq!(m[1][1], 3434f64);
    assert_eq!(m[1][2], 0.9999f64);
}

#[test]
fn create_ones_vec3x1() {
    let v = FennVector::from_slice(&[1., 2., 3.]);
    assert_eq!(v[0], 1f64);
    assert_eq!(v[1], 2f64);
    assert_eq!(v[2], 3f64);
}

#[test]
fn mutate_vec3x1() {
    let mut v = FennVector::from_slice(&[1., 2., 3.]);
    v.as_mut_slice()[0] = 64f64;
    v.as_mut_slice()[1] = 3434f64;
    v.as_mut_slice()[2] = 0.9999f64;

    assert_eq!(v[0], 64f64);
    assert_eq!(v[1], 3434f64);
    assert_eq!(v[2], 0.9999f64);
}

#[test]
fn dimensions_are_columns_then_rows() {
    let m = FennMatrix::from_vec(vec![1i64, 2, 3, 4, 5, 6], (2, 3));
    assert_eq!(m.dimensions(), (3, 2));
    assert_eq!(&m[1], &[4i64, 5, 6][..]);
    let v = FennVector::from_vec(vec![7i64, 8]);
    assert_eq!(v.dimensions(), (1, 2));
    assert_eq!(v.len(), 2);
}

#[test]
fn filled_matrix_holds_the_value() {
    let m = FennMatrix::filled((2, 2), 9i64);
    assert_eq!(m.as_slice(), &[9i64, 9, 9, 9][..]);
}

#[test]
fn integer_product_values() {
    let a = FennMatrix::from_slice(&[[1i64, 2], [3, 4], [5, 6]]);
    let b = FennMatrix::from_slice(&[[7i64, 8, 9], [10, 11, 12]]);
    let p = &a * &b;
    assert_eq!(p.dimensions(), (3, 3));
    assert_eq!(p.as_slice(), &[27i64, 30, 33, 61, 68, 75, 95, 106, 117][..]);
    let q = a.product(&b);
    assert_eq!(q.as_slice(), p.as_slice());
}

#[test]
fn transpose_swaps_rows_and_columns() {
    let m = FennMatrix::from_slice(&[[1i64, 2, 3], [4, 5, 6]]);
    let t = m.transpose();
    assert_eq!(t.dimensions(), (2, 3));
    assert_eq!(t.as_slice(), &[1i64, 4, 2, 5, 3, 6][..]);
    let mut u = m.clone();
    u.transpose_mut();
    assert_eq!(u.as_slice(), t.as_slice());
    assert_eq!(u.dimensions(), t.dimensions());
}

#[test]
fn transpose_twice_is_identity() {
    let m = FennMatrix::from_slice(&[[1i64, 2], [3, 4], [5, 6]]);
    let tt = m.transpose().transpose();
    assert_eq!(tt.dimensions(), m.dimensions());
    assert_eq!(tt.as_slice(), m.as_slice());
}

#[test]
fn column_references() {
    let m = FennMatrix::from_slice(&[[1i64, 2, 3], [4, 5, 6]]);
    let c = m.col(1);
    assert_eq!(c.len(), 2);
    assert_eq!(*c[0], 2);
    assert_eq!(*c[1], 5);
}

#[test]
fn matrix_to_vector_conversions() {
    let col = FennMatrix::from_slice(&[[1i64], [2], [3]]);
    let v = col.to_vec().unwrap();
    assert_eq!(v.as_slice(), &[1i64, 2, 3][..]);
    let wide = FennMatrix::from_slice(&[[1i64, 2]]);
    assert!(matches!(wide.to_vec(), Err(Errors::MatToVecError)));
    let moved = col.move_to_vec();
    assert_eq!(moved.len(), 3);
}

#[test]
fn try_from_and_from_round_trip() {
    let v = FennVector::from_vec(vec![4i64, 5, 6]);
    let m: FennMatrix<i64> = FennMatrix::from(v);
    assert_eq!(m.dimensions(), (1, 3));
    let back = FennVector::try_from(m).unwrap();
    assert_eq!(back.as_slice(), &[4i64, 5, 6][..]);
    let sq = FennMatrix::from_slice(&[[1i64, 2], [3, 4]]);
    assert!(matches!(FennVector::try_from(sq), Err(Errors::MatToVecError)));
}

#[test]
fn vector_to_matrix_copies() {
    let v = FennVector::from_vec(vec![1i64, 2]);
    let m = v.to_matrix();
    assert_eq!(m.dimensions(), (1, 2));
    assert_eq!(m.as_slice(), &[1i64, 2][..]);
    assert_eq!(v.to_matrix_ref().as_slice(), &[1i64, 2][..]);
    let owned = v.move_to_matrix();
    assert_eq!(owned.as_slice(), &[1i64, 2][..]);
}

#[test]
fn vec_mult_takes_input_times_row() {
    let m = FennMatrix::from_slice(&[[1i64, 2], [3, 4], [5, 6]]);
    let x = FennVector::from_vec(vec![10i64, 100]);
    let y = m.vec_mult(&x);
    assert_eq!(y.as_slice(), &[210i64, 430][..]);
}

#[test]
fn transposed_product_without_transpose() {
    let m = FennMatrix::from_slice(&[[1i64, 2], [3, 4], [5, 6]]);
    let v = FennVector::from_vec(vec![1i64, 10, 100]);
    let direct = m.mul_transposed_lhs_vec(&v);
    assert_eq!(direct.as_slice(), &[531i64, 642][..]);
    let via_transpose = &m.transpose() * &v.to_matrix();
    assert_eq!(via_transpose.as_slice(), direct.as_slice());
}

#[test]
fn outer_product_update() {
    let mut m = FennMatrix::from_slice(&[[100i64, 100], [100, 100]]);
    let u = FennVector::from_vec(vec![1i64, 2]);
    let v = FennVector::from_vec(vec![3i64, 4]);
    m.sub_outer_product_scaled(2, &u, &v);
    assert_eq!(m.as_slice(), &[94i64, 92, 88, 84][..]);
}

#[test]
fn map_applies_to_each_element() {
    let m = FennMatrix::from_slice(&[[1i64, 2], [3, 4]]);
    let doubled = m.map(|x| x * 2);
    assert_eq!(doubled.as_slice(), &[2i64, 4, 6, 8][..]);
    let v = FennVector::from_vec(vec![1i64, -2]);
    assert_eq!(v.map(|x| x + 1).as_slice(), &[2i64, -1][..]);
}

#[test]
fn mut_map_leaves_matrix_unchanged() {
    let mut m = FennMatrix::from_slice(&[[1i64, 2], [3, 4]]);
    m.mut_map(|x| {
        *x += 1;
        *x
    });
    assert_eq!(m.as_slice(), &[1i64, 2, 3, 4][..]);
}

#[test]
fn scalar_multiples() {
    let m = FennMatrix::from_slice(&[[1i64, 2], [3, 4]]);
    assert_eq!(m.mul_scalar(3).as_slice(), &[3i64, 6, 9, 12][..]);
    let v = FennVector::from_vec(vec![1.5f64, -2.0]);
    assert_eq!(v.mul_scalar(2.0).as_slice(), &[3.0f64, -4.0][..]);
}

#[test]
fn index_past_last_row_is_empty() {
    let mut m = FennMatrix::from_slice(&[[1i64, 2]]);
    let past: &mut [i64] = &mut m[5];
    assert_eq!(past.len(), 0);
    let first: &mut [i64] = &mut m[0];
    assert_eq!(first.len(), 2);
}
