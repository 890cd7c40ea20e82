use linalg::approx_eq::ApproxEq;
use linalg::vector2::Vector2;
use linalg::vector3::Vector3;

#[test]
fn scalar_within_tolerance() {
    let a: i64 = 5;

    assert!(a.approx_eq(&7, 2));
    assert!(a.approx_eq(&3, 2));
    assert!(!a.approx_eq(&8, 2));
    assert!(!a.approx_eq(&1, 2));
}

#[test]
fn scalar_default_tolerance_is_exact() {
    let a: i64 = -40;

    assert!(a.approx_eq_default(&-40));
    assert!(!a.approx_eq_default(&-41));
}

#[test]
fn vector_comparison_is_componentwise() {
    let a = Vector2::new(10, 20);

    assert!(a.approx_eq(&Vector2::new(11, 19), 1));
    assert!(!a.approx_eq(&Vector2::new(12, 20), 1));

    let v = Vector3::new(1, 2, 3);

    assert!(v.approx_eq(&Vector3::new(2, 1, 4), 1));
    assert!(!v.approx_eq(&Vector3::new(1, 2, 5), 1));
    assert!(v.approx_eq_default(&Vector3::new(1, 2, 3)));
}
