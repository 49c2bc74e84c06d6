use array_matrix::ArrayMatrix;
use array_matrix::Matrix;
use array_matrix::MatrixError;
use array_matrix::VecMatrix;

#[test]
fn test_trait() {
    let mut m = VecMatrix::from_vec(vec![3; 9], 3);
    m.set(2, 1, 8);
    assert_eq!(m.row(), 3);
    assert_eq!(m.column(), 3);
}

#[test]
fn multiply() {
    let m_a = VecMatrix::from_vec(vec![1, 2, 3, 4, 5, 6, 7, 8, 9], 3);
    let m_b = VecMatrix::from_vec(vec![1, 2, 3, 4, 5, 6, 7, 8, 9], 3);
    let m_c = m_a.mul(m_b);

    assert_eq!(
        m_c,
        VecMatrix::from_vec(vec![30, 36, 42, 66, 81, 96, 102, 126, 150], 3)
    );
}

#[test]
fn array_matrix_transpose_mut() {
    let mut m = VecMatrix::from_vec(vec![1, 2, 3, 4, 5, 6, 7, 8, 9], 3);
    m.transpose_mut();

    assert_eq!(m, VecMatrix::from_vec(vec![1, 4, 7, 2, 5, 8, 3, 6, 9], 3));
}

#[test]
fn ident() {
    let m = VecMatrix::identity(2);

    assert_eq!(m, VecMatrix::from_vec(vec![1, 0, 0, 1], 2));
}

#[test]
fn row_col() {
    let m = VecMatrix::from_vec(vec![1, 2, 3, 4, 5, 6, 7, 8, 9], 3);

    assert_eq!(m.row(), 3);
    assert_eq!(m.column(), 3);
}

#[test]
fn transpose() {
    let m = VecMatrix::from_vec(vec![1, 2, 3, 4], 2);
    let trans = m.transpose();

    assert_eq!(trans, VecMatrix::from_vec(vec![1, 3, 2, 4], 2));
}

#[test]
fn macros_transpose_mut() {
    let mut m = VecMatrix::from_vec(vec![1, 2, 3, 4], 2);
    m.transpose_mut();

    assert_eq!(m, VecMatrix::from_vec(vec![1, 3, 2, 4], 2));
}

#[test]
fn transpose_large() {
    let m = VecMatrix::from_vec(
        vec![
            0, 1, 2, 3, 4, 5, 6, 7, 8, 9, 10, 11, 12, 13, 14, 15, 16, 17, 18, 19, 20, 21, 22, 23,
            24, 25, 26, 27, 28, 29, 30, 31, 32, 33, 34, 35,
        ],
        6,
    );
    let trans = m.transpose();

    assert_eq!(
        trans,
        VecMatrix::from_vec(
            vec![
                0, 6, 12, 18, 24, 30, 1, 7, 13, 19, 25, 31, 2, 8, 14, 20, 26, 32, 3, 9, 15, 21,
                27, 33, 4, 10, 16, 22, 28, 34, 5, 11, 17, 23, 29, 35
            ],
            6,
        )
    );
}

#[test]
fn index() {
    let m = VecMatrix::from_vec(vec![1, 2, 3, 4, 5, 6, 7, 8, 9], 3);
    assert_eq!(m.get(1, 2), 6);
}

#[test]
fn index_mut() {
    let mut m = VecMatrix::from_vec(vec![1, 2, 3, 4, 5, 6, 7, 8, 9], 3);
    assert_eq!(m.get(1, 2), 6);
    m.set(1, 2, 30);
    assert_eq!(m.get(1, 2), 30);
}

#[test]
fn eq() {
    let m_a = VecMatrix::from_vec(vec![1, 2, 3, 4, 5, 6, 7, 8, 9], 3);
    let m_b = VecMatrix::from_vec(vec![1, 2, 3, 4, 5, 6, 7, 8, 9], 3);

    assert_eq!(m_a, m_b);
}

#[test]
fn add() {
    let m_a = VecMatrix::from_vec(vec![1, 2, 3, 4], 2);
    let m_b = VecMatrix::from_vec(vec![1, 2, 3, 4], 2);
    let m_c = m_a.add(m_b);

    assert_eq!(m_c, VecMatrix::from_vec(vec![2, 4, 6, 8], 2));
}

#[test]
fn add_assign() {
    let mut m_a = VecMatrix::from_vec(vec![1, 2, 3, 4], 2);
    let m_b = VecMatrix::from_vec(vec![1, 2, 3, 4], 2);
    m_a.add_assign(m_b);

    assert_eq!(m_a, VecMatrix::from_vec(vec![2, 4, 6, 8], 2));
}

#[test]
fn add_scalar() {
    let m_a = VecMatrix::from_vec(vec![1, 2, 3, 4], 2);
    let m_b = m_a.add_scalar(1);

    assert_eq!(m_b, VecMatrix::from_vec(vec![2, 3, 4, 5], 2));
}

#[test]
fn add_scalar_assign() {
    let mut m_a = VecMatrix::from_vec(vec![1, 2, 3, 4], 2);
    m_a.add_scalar_assign(1);

    assert_eq!(m_a, VecMatrix::from_vec(vec![2, 3, 4, 5], 2));
}

#[test]
fn subtract() {
    let m_a = VecMatrix::from_vec(vec![1, 2, 3, 4], 2);
    let m_b = VecMatrix::from_vec(vec![1, 2, 3, 4], 2);
    let m_c = m_a.sub(m_b);

    assert_eq!(m_c, VecMatrix::from_vec(vec![0, 0, 0, 0], 2));
}

#[test]
fn subtract_assign() {
    let mut m_a = VecMatrix::from_vec(vec![1, 2, 3, 4], 2);
    let m_b = VecMatrix::from_vec(vec![1, 2, 3, 4], 2);
    m_a.sub_assign(m_b);

    assert_eq!(m_a, VecMatrix::from_vec(vec![0, 0, 0, 0], 2));
}

#[test]
fn subtract_scalar() {
    let m_a = VecMatrix::from_vec(vec![1, 2, 3, 4], 2);
    let m_b = m_a.sub_scalar(1);

    assert_eq!(m_b, VecMatrix::from_vec(vec![0, 1, 2, 3], 2));
}

#[test]
fn subtract_scalar_assign() {
    let mut m_a = VecMatrix::from_vec(vec![1, 2, 3, 4], 2);
    m_a.sub_scalar_assign(1);

    assert_eq!(m_a, VecMatrix::from_vec(vec![0, 1, 2, 3], 2));
}

#[test]
fn multiply_scalar() {
    let m_a = VecMatrix::from_vec(vec![1, 2, 3, 4], 2);
    let m_b = m_a.mul_scalar(3);

    assert_eq!(m_b, VecMatrix::from_vec(vec![3, 6, 9, 12], 2));
}

#[test]
fn multiply_scalar_assign() {
    let mut m_a = VecMatrix::from_vec(vec![1, 2, 3, 4], 2);
    m_a.mul_scalar_assign(3);

    assert_eq!(m_a, VecMatrix::from_vec(vec![3, 6, 9, 12], 2));
}

#[test]
fn divide_scalar() {
    let m_a = VecMatrix::from_vec(vec![9, 12, 21, 36], 2);
    let m_b = m_a.div_scalar(3);

    assert_eq!(m_b, VecMatrix::from_vec(vec![3, 4, 7, 12], 2));
}

#[test]
fn divide_scalar_assign() {
    let mut m_a = VecMatrix::from_vec(vec![9, 12, 21, 36], 2);
    m_a.div_scalar_assign(3);

    assert_eq!(m_a, VecMatrix::from_vec(vec![3, 4, 7, 12], 2));
}

#[test]
fn impl_two_matrix() {
    let m_a = VecMatrix::from_vec(vec![1, 2, 3, 4], 2);
    let m_b: Vec<f32> = vec![1., 2., 3., 4.];

    assert_eq!(m_a.get(0, 0) as f32, m_b[0]);
}

#[test]
fn large_matrix() {
    let m_a = VecMatrix::from_vec(vec![1; 36], 6);
    let m_b = VecMatrix::from_vec(vec![1; 36], 6);

    assert_eq!(m_a, m_b);
}

#[test]
fn add_matrix_test() {
    let m1 = VecMatrix::from_vec(vec![1, 0, 0, 1], 2);
    let m2 = VecMatrix::from_vec(vec![0, 1, 1, 0], 2);
    assert_eq!(
        m1.add(m2),
        VecMatrix::from_vec(vec![1, 1, 1, 1], 2)
    );
}

#[test]
fn multiply_two_by_two() {
    let m_a = VecMatrix::from_vec(vec![1, 2, 3, 4], 2);
    let m_b = VecMatrix::from_vec(vec![1, 2, 3, 4], 2);
    let m_c = m_a.mul(m_b);

    assert_eq!(m_c, VecMatrix::from_vec(vec![7, 10, 15, 22], 2));
}

#[test]
fn transpose_twice_restores_rectangular() {
    let m = VecMatrix::from_vec(vec![1, 2, 3, 4, 5, 6], 2);
    let back = m.transpose().transpose();

    assert_eq!(back, VecMatrix::from_vec(vec![1, 2, 3, 4, 5, 6], 2));
}

#[test]
fn transpose_mut_twice_restores() {
    let mut m = VecMatrix::from_vec(vec![1, 2, 3, 4, 5, 6, 7, 8, 9], 3);
    m.transpose_mut();
    m.transpose_mut();

    assert_eq!(m, VecMatrix::from_vec(vec![1, 2, 3, 4, 5, 6, 7, 8, 9], 3));
}

#[test]
fn transpose_shape_and_entries() {
    let m = VecMatrix::from_vec(vec![1, 2, 3, 4, 5, 6], 2);
    let t = m.transpose();

    assert_eq!(t.size(), (3, 2));
    for i in 0..2 {
        for j in 0..3 {
            assert_eq!(t.get(j, i), m.get(i, j));
        }
    }
}

#[test]
fn identity_laws() {
    let m = VecMatrix::from_vec(vec![1, 2, 3, 4, 5, 6, 7, 8, 9], 3);
    let right = VecMatrix::from_vec(vec![1, 2, 3, 4, 5, 6, 7, 8, 9], 3).mul(VecMatrix::identity(3));
    let left = VecMatrix::identity(3).mul(VecMatrix::from_vec(vec![1, 2, 3, 4, 5, 6, 7, 8, 9], 3));

    assert_eq!(right, m);
    assert_eq!(left, m);
}

#[test]
fn add_sub_inverse() {
    let m_a = VecMatrix::from_vec(vec![5, -3, 0, 12], 2);
    let m_b = VecMatrix::from_vec(vec![2, 7, -1, -4], 2);
    let back = m_a.add(m_b).sub(VecMatrix::from_vec(vec![2, 7, -1, -4], 2));

    assert_eq!(back, VecMatrix::from_vec(vec![5, -3, 0, 12], 2));
}

#[test]
fn scalar_round_trips() {
    let back = VecMatrix::from_vec(vec![5, -3, 0, 12], 2)
        .add_scalar(9)
        .sub_scalar(9);
    assert_eq!(back, VecMatrix::from_vec(vec![5, -3, 0, 12], 2));

    let back = VecMatrix::from_vec(vec![5, -3, 0, 12], 2)
        .mul_scalar(7)
        .div_scalar(7);
    assert_eq!(back, VecMatrix::from_vec(vec![5, -3, 0, 12], 2));
}

#[test]
fn divide_scalar_truncates_toward_zero() {
    let m = VecMatrix::from_vec(vec![-7, 7, -9, 9], 2);
    let q = m.div_scalar(2);

    assert_eq!(q, VecMatrix::from_vec(vec![-3, 3, -4, 4], 2));
}

#[test]
fn out_of_range_index_is_reported() {
    let m = VecMatrix::from_vec(vec![1, 2, 3, 4, 5, 6, 7, 8, 9], 3);
    assert_eq!(m.try_get(5, 5), Err(MatrixError::IndexOutOfRange));
    assert_eq!(m.try_get(1, 2), Ok(6));
}

#[test]
fn out_of_range_set_changes_nothing() {
    let mut m = VecMatrix::from_vec(vec![1, 2, 3, 4, 5, 6, 7, 8, 9], 3);
    assert_eq!(m.try_set(5, 5, 100), Err(MatrixError::IndexOutOfRange));
    assert_eq!(m, VecMatrix::from_vec(vec![1, 2, 3, 4, 5, 6, 7, 8, 9], 3));
    assert_eq!(m.try_set(1, 2, 100), Ok(()));
    assert_eq!(m.get(1, 2), 100);
}

#[test]
fn mismatched_shapes_are_reported() {
    let m_a = VecMatrix::from_vec(vec![1, 2, 3, 4], 2);
    let m_b = VecMatrix::from_vec(vec![1, 2, 3, 4, 5, 6], 2);
    assert_eq!(m_a.try_add(m_b), Err(MatrixError::ShapeMismatch));

    let m_c = VecMatrix::from_vec(vec![1, 2, 3, 4], 2);
    let m_d = VecMatrix::from_vec(vec![10, 20, 30, 40], 2);
    assert_eq!(
        m_c.try_add(m_d),
        Ok(VecMatrix::from_vec(vec![11, 22, 33, 44], 2))
    );
}

#[test]
fn swap_exchanges_two_entries() {
    let mut m = VecMatrix::from_vec(vec![1, 2, 3, 4, 5, 6], 2);
    m.swap((0, 1), (1, 2));

    assert_eq!(m, VecMatrix::from_vec(vec![1, 6, 3, 4, 5, 2], 2));
}

#[test]
fn shape_queries_are_consistent() {
    let m = VecMatrix::from_vec(vec![1, 2, 3, 4, 5, 6], 2);
    assert_eq!(m.row_len(), 2);
    assert_eq!(m.column_len(), 3);
    assert_eq!(m.size(), (2, 3));
    assert_eq!(m.elements(), &vec![1, 2, 3, 4, 5, 6]);
}

#[test]
fn one_by_one_matrix() {
    let mut m = VecMatrix::from_vec(vec![42], 1);
    assert_eq!(m.size(), (1, 1));
    m.transpose_mut();
    assert_eq!(m.get(0, 0), 42);
    let t = m.transpose();
    assert_eq!(t.get(0, 0), 42);
}
