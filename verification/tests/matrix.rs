use linalg::matrix::Matrix;
use linalg::matrix::MatrixError;

#[test]
fn create_valid_matrix() {
    let m = Matrix::new(
        2,
        2,
        vec![
            1, 2, // row
            3, 4,
        ],
    );

    assert!(m.is_ok());
}

#[test]
fn identity() {
    let m = Matrix::identity(3);

    assert_eq!(m.get(0, 0).unwrap(), 1);
    assert_eq!(m.get(1, 1).unwrap(), 1);
    assert_eq!(m.get(2, 2).unwrap(), 1);

    assert_eq!(m.get(0, 1).unwrap(), 0);
    assert_eq!(m.get(1, 2).unwrap(), 0);
    assert_eq!(m.get(2, 0).unwrap(), 0);
}

#[test]
fn get_and_set_matrix_elements() {
    let mut m = Matrix::new(
        3,
        3,
        vec![
            40, 80, 30, //
            21, 56, 98, //
            39, 93, 54,
        ],
    )
    .unwrap();

    let at12 = m.get(1, 2).expect("Index should be valid");
    let at20 = m.get(2, 0).expect("Index should be valid");
    m.set(1, 2, 478).expect("Set should work");
    let at12_after = m.get(1, 2).unwrap();

    assert_eq!(at12, 98);
    assert_eq!(at20, 39);
    assert_eq!(at12_after, 478);
}

#[test]
fn get_set_out_of_bounds() {
    let mut m = Matrix::zeros(2, 2);

    m.get(3, 0).unwrap_err();
    m.set(2, 5, 7).unwrap_err();
}

#[test]
fn create_invalid_matrix() {
    let data = vec![1, 2, 3];
    let m = Matrix::new(2, 2, data);

    assert!(m.is_err());
}

#[test]
fn check_addition() {
    let m1 = Matrix::new(
        2,
        2,
        vec![
            1, 2, //
            3, 4,
        ],
    )
    .unwrap();
    let m2 = Matrix::new(
        2,
        2,
        vec![
            5, 6, //
            7, 8,
        ],
    )
    .unwrap();

    let result = m1.sum(&m2).expect("Addition should succeed");

    assert_eq!(result.get(0, 0).expect("r00"), 6);
    assert_eq!(result.get(0, 1).expect("r00"), 8);
    assert_eq!(result.get(1, 0).expect("r00"), 10);
    assert_eq!(result.get(1, 1).expect("r00"), 12);
}

#[test]
fn check_multiplication() {
    let m1 = Matrix::new(
        2,
        3,
        vec![
            1, 2, 3, //
            4, 5, 6,
        ],
    )
    .unwrap();
    let m2 = Matrix::new(
        3,
        2,
        vec![
            7, 8, //
            9, 10, //
            11, 12,
        ],
    )
    .unwrap();

    let result = m1.multiply(&m2).expect("Multiply should work");

    assert_eq!(result.get(0, 0).expect("r00"), 58);
    assert_eq!(result.get(0, 1).expect("r00"), 64);
    assert_eq!(result.get(1, 0).expect("r00"), 139);
    assert_eq!(result.get(1, 1).expect("r00"), 154);
}

#[test]
fn multiplication_error() {
    let m1 = Matrix::zeros(3, 2);
    let m2 = Matrix::zeros(3, 2);

    m1.multiply(&m2).expect_err("Should be incompatible");
}

#[test]
fn determinant() {
    struct Case {
        matrix: Matrix,
        expected: i64,
    }
    let cases = vec![
        Case {
            matrix: Matrix::new(
                2,
                2,
                vec![
                    1, 2, //
                    3, 4,
                ],
            )
            .unwrap(),
            expected: -2,
        },
        Case { matrix: Matrix::identity(2), expected: 1 },
        Case { matrix: Matrix::identity(3), expected: 1 },
        Case {
            matrix: Matrix::new(
                3,
                3,
                vec![
                    1, 2, 3, //
                    4, 5, 6, //
                    7, 8, 9,
                ],
            )
            .unwrap(),
            expected: 0,
        },
        Case {
            matrix: Matrix::new(
                3,
                3,
                vec![
                    -3, 2, -5, //
                    -1, 0, -2, //
                    3, -4, 1,
                ],
            )
            .unwrap(),
            expected: -6,
        },
        Case {
            matrix: Matrix::new(
                3,
                3,
                vec![
                    6, 1, 1, //
                    4, -2, 5, //
                    2, 8, 7,
                ],
            )
            .unwrap(),
            expected: -306,
        },
        Case {
            matrix: Matrix::new(
                4,
                4,
                vec![
                    1, 2, 3, 4, //
                    5, 6, 7, 8, //
                    9, 10, 11, 12, //
                    2, 6, 4, 8,
                ],
            )
            .unwrap(),
            expected: 0,
        },
        Case {
            matrix: Matrix::new(
                4,
                4,
                vec![
                    3, 2, 0, 1, //
                    4, 0, 1, 2, //
                    3, 0, 2, 1, //
                    9, 2, 3, 1,
                ],
            )
            .unwrap(),
            expected: 24,
        },
    ];

    for (i, case) in cases.iter().enumerate() {
        let result = case.matrix.determinant().expect("should calc");

        assert_eq!(result, case.expected, "case {} failed", i);
    }
}

#[test]
fn determinant_error() {
    let m1 = Matrix::zeros(2, 3);

    let result = m1.determinant().expect_err("Only works for square");

    assert_eq!(result, MatrixError::SquareMatrixRequired);
}

#[test]
fn determinant_below_base_case() {
    let empty = Matrix::new(0, 0, vec![]).unwrap();
    assert_eq!(empty.determinant().unwrap(), 0);

    let single = Matrix::new(1, 1, vec![9]).unwrap();
    assert_eq!(single.determinant().unwrap(), 0);
}

#[test]
fn identity_determinant_larger() {
    assert_eq!(Matrix::identity(4).determinant().unwrap(), 1);
    assert_eq!(Matrix::identity(5).determinant().unwrap(), 1);
}

#[test]
fn zeros_determinant() {
    assert_eq!(Matrix::square_zeros(3).determinant().unwrap(), 0);
    assert_eq!(Matrix::zeros(4, 4).determinant().unwrap(), 0);
}

#[test]
fn sum_is_commutative() {
    let a = Matrix::new(2, 3, vec![1, -2, 3, 40, 5, -6]).unwrap();
    let b = Matrix::new(2, 3, vec![7, 8, -9, 10, -11, 12]).unwrap();

    let ab = a.sum(&b).unwrap();
    let ba = b.sum(&a).unwrap();

    for row in 0..2 {
        for column in 0..3 {
            assert_eq!(ab.get(row, column).unwrap(), ba.get(row, column).unwrap());
        }
    }
}

#[test]
fn sum_shape_error() {
    let a = Matrix::zeros(2, 3);
    let b = Matrix::zeros(3, 2);

    assert_eq!(a.sum(&b).unwrap_err(), MatrixError::IncompatibleDimensions);
}

#[test]
fn incorrect_data_size_error() {
    let m = Matrix::new(3, 3, vec![1, 2, 3, 4]);

    assert_eq!(m.unwrap_err(), MatrixError::IncorrectDataSize);
}

#[test]
fn invalid_index_carries_coordinates() {
    let mut m = Matrix::zeros(2, 2);

    assert_eq!(m.get(7, 1).unwrap_err(), MatrixError::InvalidIndex(7, 1));
    assert_eq!(m.set(0, 9, 3).unwrap_err(), MatrixError::InvalidIndex(0, 9));
    // the failed set left the matrix unchanged
    for row in 0..2 {
        for column in 0..2 {
            assert_eq!(m.get(row, column).unwrap(), 0);
        }
    }
}

#[test]
fn new_keeps_row_major_order() {
    let m = Matrix::new(2, 3, vec![10, 11, 12, 13, 14, 15]).unwrap();

    for row in 0..2 {
        for column in 0..3 {
            let expected = 10 + (column + row * 3) as i64;
            assert_eq!(m.get(row, column).unwrap(), expected);
        }
    }
}
