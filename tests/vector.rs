use concurrency::{dot_product, MatrixError, Vector};

#[test]
fn dot_product_of_equal_lengths() {
    let a = Vector::new(vec![1, 2, 3]);
    let b = Vector::new(vec![4, 5, 6]);
    assert_eq!(dot_product(a, b), Ok(32));
}

#[test]
fn dot_product_of_unequal_lengths_fails() {
    let a = Vector::new(vec![1, 2, 3]);
    let b = Vector::new(vec![4, 5]);
    assert_eq!(
        dot_product(a, b),
        Err(MatrixError::DimensionMismatch { left: 3, right: 2 })
    );
}

#[test]
fn dot_product_of_empty_vectors_is_zero() {
    let a: Vector<u64> = Vector::new(vec![]);
    let b: Vector<u64> = Vector::new(vec![]);
    assert_eq!(dot_product(a, b), Ok(0));
}

#[test]
fn dot_product_matches_direct_sum() {
    let xs = vec![-3i64, 7, 11, 0, 2];
    let ys = vec![5i64, -1, 4, 9, -8];
    let expected: i64 = xs.iter().zip(ys.iter()).map(|(x, y)| x * y).sum();
    let a = Vector::new(xs);
    let b = Vector::new(ys);
    assert_eq!(a.len(), 5);
    assert_eq!(a.as_vec()[1], 7);
    assert_eq!(dot_product(a, b), Ok(expected));
}
