use linalg::approx_eq::ApproxEq;
use linalg::vector2::Vector2;

struct VectorResultCase {
    a: Vector2,
    b: Vector2,
    expected: Vector2,
}

struct ScalarResultCase {
    a: Vector2,
    b: Vector2,
    expected: i64,
}

#[test]
fn vector2_addition() {
    let cases: Vec<VectorResultCase> = vec![
        VectorResultCase {
            a: Vector2::new(3, 4),
            b: Vector2::new(7, 2),
            expected: Vector2::new(10, 6),
        },
        VectorResultCase {
            a: Vector2::new(-2, 15),
            b: Vector2::new(9, 2),
            expected: Vector2::new(7, 17),
        },
    ];

    for case in cases {
        let result = case.a.add(&case.b);

        assert!(result.approx_eq_default(&case.expected));
    }
}

#[test]
fn vector2_subtraction() {
    let cases: Vec<VectorResultCase> = vec![
        VectorResultCase {
            a: Vector2::new(3, 4),
            b: Vector2::new(7, 2),
            expected: Vector2::new(-4, 2),
        },
        VectorResultCase {
            a: Vector2::new(-2, 15),
            b: Vector2::new(9, 2),
            expected: Vector2::new(-11, 13),
        },
    ];

    for case in cases {
        let result = case.a.subtract(&case.b);

        assert!(result.approx_eq_default(&case.expected));
    }
}

#[test]
fn vector2_multiply() {
    struct MultCase {
        input: Vector2,
        multiplier: i64,
        expected: Vector2,
    }

    let cases: Vec<MultCase> = vec![MultCase {
        input: Vector2::new(54, 32),
        multiplier: 4,
        expected: Vector2::new(216, 128),
    }];

    for case in cases {
        let result = case.input.multiply(case.multiplier);

        assert!(result.approx_eq_default(&case.expected));
    }
}

#[test]
fn vector2_dot_product() {
    let cases: Vec<ScalarResultCase> = vec![
        ScalarResultCase {
            a: Vector2::new(2, 7),
            b: Vector2::new(8, 3),
            expected: 37,
        },
        ScalarResultCase {
            a: Vector2::new(2, 4),
            b: Vector2::new(1, -3),
            expected: -10,
        },
    ];

    for case in cases {
        let result = case.a.dot_product(&case.b);

        assert!(result.approx_eq_default(&case.expected));
    }
}

#[test]
fn vector2_dot_product_is_symmetric() {
    let a = Vector2::new(-12, 31);
    let b = Vector2::new(45, 8);

    assert_eq!(a.dot_product(&b), b.dot_product(&a));
}
