use linalg::error::ShapeError;
use linalg::matrix::Matrix;

fn m(rows: Vec<Vec<i64>>) -> Matrix {
    Matrix::from(rows).unwrap()
}

#[test]
fn mult_two_by_two() {
    let a = m(vec![vec![1, 2], vec![3, 4]]);
    let b = m(vec![vec![5, 6], vec![7, 8]]);
    let c = Matrix::mult(&a, &b).unwrap();
    assert_eq!(c.to_rows(), vec![vec![19, 22], vec![43, 50]]);
}

#[test]
fn mult_row_by_column() {
    let a = m(vec![vec![1, 2, 3]]);
    let b = m(vec![vec![4], vec![5], vec![6]]);
    let c = Matrix::mult(&a, &b).unwrap();
    assert_eq!(c.to_rows(), vec![vec![32]]);
    assert_eq!(c.dim(), (1, 1));
}

#[test]
fn mult_inner_dimension_mismatch() {
    let a = Matrix::new_with(2, 3, 1).unwrap();
    let b = Matrix::new_with(4, 2, 1).unwrap();
    let err = Matrix::mult(&a, &b).unwrap_err();
    assert_eq!(
        err,
        ShapeError::ShapeMismatch { left_rows: 2, left_cols: 3, right_rows: 4, right_cols: 2 }
    );
}

#[test]
fn add_two_by_two() {
    let a = m(vec![vec![1, 2], vec![3, 4]]);
    let b = m(vec![vec![10, 20], vec![30, 40]]);
    assert_eq!(Matrix::add(&a, &b).unwrap().to_rows(), vec![vec![11, 22], vec![33, 44]]);
}

#[test]
fn sub_two_by_two() {
    let a = m(vec![vec![10, 20], vec![30, 40]]);
    let b = m(vec![vec![1, 2], vec![3, 4]]);
    assert_eq!(Matrix::sub(&a, &b).unwrap().to_rows(), vec![vec![9, 18], vec![27, 36]]);
}

#[test]
fn prod_and_dot_of_a_row() {
    let a = m(vec![vec![2, 3]]);
    let b = m(vec![vec![4, 5]]);
    assert_eq!(Matrix::prod(&a, &b).unwrap().to_rows(), vec![vec![8, 15]]);
    assert_eq!(Matrix::dot(&a, &b).unwrap(), 23);
}

#[test]
fn dot_is_row_major_sum() {
    let a = m(vec![vec![1, 2], vec![3, 4]]);
    let b = m(vec![vec![5, 6], vec![7, 8]]);
    assert_eq!(Matrix::dot(&a, &b).unwrap(), 5 + 12 + 21 + 32);
}

#[test]
fn entrywise_ops_reject_different_shapes() {
    let a = Matrix::new_with(2, 2, 1).unwrap();
    let b = Matrix::new_with(2, 3, 1).unwrap();
    let want =
        ShapeError::ShapeMismatch { left_rows: 2, left_cols: 2, right_rows: 2, right_cols: 3 };
    assert_eq!(Matrix::add(&a, &b).unwrap_err(), want);
    assert_eq!(Matrix::sub(&a, &b).unwrap_err(), want);
    assert_eq!(Matrix::prod(&a, &b).unwrap_err(), want);
    assert_eq!(Matrix::dot(&a, &b).unwrap_err(), want);
}

#[test]
fn zero_dimension_is_rejected() {
    assert_eq!(
        Matrix::new_empty(0, 3).unwrap_err(),
        ShapeError::ZeroDimension { rows: 0, cols: 3 }
    );
    assert_eq!(
        Matrix::new_empty(2, 0).unwrap_err(),
        ShapeError::ZeroDimension { rows: 2, cols: 0 }
    );
    assert_eq!(
        Matrix::new_with(0, 0, 7).unwrap_err(),
        ShapeError::ZeroDimension { rows: 0, cols: 0 }
    );
    assert_eq!(
        Matrix::from(vec![]).unwrap_err(),
        ShapeError::ZeroDimension { rows: 0, cols: 0 }
    );
    assert_eq!(
        Matrix::from(vec![vec![], vec![]]).unwrap_err(),
        ShapeError::ZeroDimension { rows: 2, cols: 0 }
    );
}

#[test]
fn ragged_rows_are_rejected() {
    let err = Matrix::from(vec![vec![1, 2], vec![3, 4], vec![5]]).unwrap_err();
    assert_eq!(
        err,
        ShapeError::ShapeMismatch { left_rows: 1, left_cols: 2, right_rows: 1, right_cols: 1 }
    );
}

#[test]
fn new_empty_is_zero_filled() {
    let z = Matrix::new_empty(2, 3).unwrap();
    assert_eq!(z.dim(), (2, 3));
    assert_eq!(z.to_rows(), vec![vec![0, 0, 0], vec![0, 0, 0]]);
}

#[test]
fn new_with_fills_every_cell() {
    let f = Matrix::new_with(3, 2, -4).unwrap();
    assert_eq!(f.to_rows(), vec![vec![-4, -4], vec![-4, -4], vec![-4, -4]]);
}

#[test]
fn get_set_and_row() {
    let mut a = m(vec![vec![1, 2, 3], vec![4, 5, 6]]);
    assert_eq!(a.get(1, 2), 6);
    a.set(1, 2, 60);
    assert_eq!(a.get(1, 2), 60);
    assert_eq!(a.row(1), &vec![4, 5, 60]);
    assert_eq!(a.row(0), &vec![1, 2, 3]);
}

#[test]
fn add_zero_and_sub_self() {
    let a = m(vec![vec![1, -2, 3], vec![4, 5, -6]]);
    let z = Matrix::new_empty(2, 3).unwrap();
    assert_eq!(Matrix::add(&a, &z).unwrap().to_rows(), a.to_rows());
    assert_eq!(Matrix::sub(&a, &a).unwrap().to_rows(), z.to_rows());
}

#[test]
fn mult_is_associative() {
    let a = m(vec![vec![1, 2, 0], vec![-1, 3, 2]]);
    let b = m(vec![vec![2, 1], vec![0, -1], vec![4, 3]]);
    let c = m(vec![vec![1, 5, 2], vec![-2, 0, 1]]);
    let left = Matrix::mult(&Matrix::mult(&a, &b).unwrap(), &c).unwrap();
    let right = Matrix::mult(&a, &Matrix::mult(&b, &c).unwrap()).unwrap();
    assert_eq!(left.to_rows(), right.to_rows());
}

#[test]
fn prod_and_dot_commute() {
    let a = m(vec![vec![1, 2], vec![3, 4]]);
    let b = m(vec![vec![-5, 6], vec![7, 0]]);
    assert_eq!(
        Matrix::prod(&a, &b).unwrap().to_rows(),
        Matrix::prod(&b, &a).unwrap().to_rows()
    );
    assert_eq!(Matrix::dot(&a, &b).unwrap(), Matrix::dot(&b, &a).unwrap());
}

#[test]
fn mult_by_identity() {
    let a = m(vec![vec![1, 2, 3], vec![4, 5, 6]]);
    let i2 = m(vec![vec![1, 0], vec![0, 1]]);
    let i3 = m(vec![vec![1, 0, 0], vec![0, 1, 0], vec![0, 0, 1]]);
    assert_eq!(Matrix::mult(&a, &i3).unwrap().to_rows(), a.to_rows());
    assert_eq!(Matrix::mult(&i2, &a).unwrap().to_rows(), a.to_rows());
}

#[test]
fn mult_result_shape() {
    let a = Matrix::new_with(2, 3, 1).unwrap();
    let b = Matrix::new_with(3, 4, 1).unwrap();
    let c = Matrix::mult(&a, &b).unwrap();
    assert_eq!(c.dim(), (2, 4));
    assert_eq!(c.get(1, 3), 3);
}
