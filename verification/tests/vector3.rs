use linalg::approx_eq::ApproxEq;
use linalg::vector3::Vector3;

struct VectorResultCase {
    a: Vector3,
    b: Vector3,
    expected: Vector3,
}

struct ScalarResultCase {
    a: Vector3,
    b: Vector3,
    expected: i64,
}

#[test]
fn vector3_addition() {
    let cases: Vec<VectorResultCase> = vec![
        VectorResultCase {
            a: Vector3::new(3, 4, 3),
            b: Vector3::new(7, 2, 9),
            expected: Vector3::new(10, 6, 12),
        },
        VectorResultCase {
            a: Vector3::new(-2, 15, -2),
            b: Vector3::new(9, 2, 4),
            expected: Vector3::new(7, 17, 2),
        },
    ];

    for case in cases {
        let result = case.a.add(&case.b);

        assert!(result.approx_eq_default(&case.expected));
    }
}

#[test]
fn vector3_subtraction() {
    let cases: Vec<VectorResultCase> = vec![
        VectorResultCase {
            a: Vector3::new(3, 4, 3),
            b: Vector3::new(7, 2, 1),
            expected: Vector3::new(-4, 2, 2),
        },
        VectorResultCase {
            a: Vector3::new(-2, 15, -7),
            b: Vector3::new(9, 2, -4),
            expected: Vector3::new(-11, 13, -3),
        },
    ];

    for case in cases {
        let result = case.a.subtract(&case.b);

        assert!(result.approx_eq_default(&case.expected));
    }
}

#[test]
fn vector3_multiply() {
    struct MultCase {
        input: Vector3,
        multiplier: i64,
        expected: Vector3,
    }

    let cases: Vec<MultCase> = vec![MultCase {
        input: Vector3::new(54, 32, -41),
        multiplier: 4,
        expected: Vector3::new(216, 128, -164),
    }];

    for case in cases {
        let result = case.input.multiply(case.multiplier);

        assert!(result.approx_eq_default(&case.expected));
    }
}

#[test]
fn vector3_dot_product() {
    let cases: Vec<ScalarResultCase> = vec![
        ScalarResultCase {
            a: Vector3::new(1, 0, 0),
            b: Vector3::new(0, 5, 0),
            expected: 0,
        },
        ScalarResultCase {
            a: Vector3::new(1, -2, 3),
            b: Vector3::new(4, 1, -1),
            expected: -1,
        },
    ];

    for case in cases {
        let result = case.a.dot_product(&case.b);

        assert!(result.approx_eq_default(&case.expected));
    }
}

#[test]
fn cross_product() {
    let cases: Vec<VectorResultCase> = vec![
        VectorResultCase {
            a: Vector3::new(1, 0, 0),
            b: Vector3::new(0, 1, 0),
            expected: Vector3::new(0, 0, 1),
        },
        VectorResultCase {
            a: Vector3::new(2, -1, 3),
            b: Vector3::new(0, 4, -2),
            expected: Vector3::new(-10, 4, 8),
        },
    ];

    for case in cases {
        let result = case.a.cross_product(&case.b);

        assert!(result.approx_eq_default(&case.expected));
    }
}

#[test]
fn cross_product_is_orthogonal_to_operands() {
    let a = Vector3::new(2, -1, 3);
    let b = Vector3::new(0, 4, -2);

    let c = a.cross_product(&b);

    assert_eq!(c.dot_product(&a), 0);
    assert_eq!(c.dot_product(&b), 0);
}

#[test]
fn vector3_dot_product_is_symmetric() {
    let a = Vector3::new(2, 2, -1);
    let b = Vector3::new(5, -3, 2);

    assert_eq!(a.dot_product(&b), b.dot_product(&a));
}
