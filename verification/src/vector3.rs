//! A 3-D vector with 64-bit signed integer coordinates: componentwise
//! arithmetic, scalar multiplication, the dot product, and the cross
//! product. The cross product is computed through the matrix kernel's
//! 2 by 2 determinants rather than by a hand-rolled formula, keeping the
//! two components consistent. The Euclidean magnitude, the angle between
//! vectors and normalization are irrational-valued, so an unverified
//! application layer computes them from the integer coordinates.

use crate::approx_eq::ApproxEq;
use crate::matrix::Matrix;
use crate::matrix::in_i64;
use vstd::prelude::*;

verus! {

/// An immutable 3-D vector: every operation returns a new value.
#[derive(PartialEq, Debug)]
pub struct Vector3 {
    pub x: i64,
    pub y: i64,
    pub z: i64,
}

/// The dot product of the coordinate triples `(ax, ay, az)` and
/// `(bx, by, bz)`.
pub open spec fn dot3(ax: int, ay: int, az: int, bx: int, by: int, bz: int) -> int {
    ax * bx + ay * by + az * bz
}

/// The first cross-product coordinate, the determinant of rows
/// `(ay, az)` and `(by, bz)`.
pub open spec fn cross_x(ay: int, az: int, by: int, bz: int) -> int {
    ay * bz - az * by
}

/// The second cross-product coordinate, the negated determinant of rows
/// `(ax, az)` and `(bx, bz)`.
pub open spec fn cross_y(ax: int, az: int, bx: int, bz: int) -> int {
    az * bx - ax * bz
}

/// The third cross-product coordinate, the determinant of rows
/// `(ax, ay)` and `(bx, by)`.
pub open spec fn cross_z(ax: int, ay: int, bx: int, by: int) -> int {
    ax * by - ay * bx
}

impl ApproxEq for Vector3 {
    open spec fn approx_spec(&self, other: &Vector3, eps: int) -> bool {
        self.x.approx_spec(&other.x, eps) && self.y.approx_spec(&other.y, eps)
            && self.z.approx_spec(&other.z, eps)
    }

    fn approx_eq(&self, other: &Vector3, eps: i64) -> (r: bool) {
        self.x.approx_eq(&other.x, eps) && self.y.approx_eq(&other.y, eps) && self.z.approx_eq(
            &other.z,
            eps,
        )
    }

    fn approx_eq_default(&self, other: &Vector3) -> (r: bool) {
        self.approx_eq(other, 0)
    }
}

impl Vector3 {
    /// A vector from its three coordinates.
    pub fn new(x: i64, y: i64, z: i64) -> (v: Vector3)
        ensures
            v.x == x,
            v.y == y,
            v.z == z,
    {
        Vector3 { x, y, z }
    }

    /// The componentwise sum.
    pub fn add(&self, other: &Vector3) -> (v: Vector3)
        requires
            in_i64(self.x + other.x),
            in_i64(self.y + other.y),
            in_i64(self.z + other.z),
        ensures
            v.x == self.x + other.x,
            v.y == self.y + other.y,
            v.z == self.z + other.z,
    {
        Vector3 { x: self.x + other.x, y: self.y + other.y, z: self.z + other.z }
    }

    /// The componentwise difference.
    pub fn subtract(&self, other: &Vector3) -> (v: Vector3)
        requires
            in_i64(self.x - other.x),
            in_i64(self.y - other.y),
            in_i64(self.z - other.z),
        ensures
            v.x == self.x - other.x,
            v.y == self.y - other.y,
            v.z == self.z - other.z,
    {
        Vector3 { x: self.x - other.x, y: self.y - other.y, z: self.z - other.z }
    }

    /// The componentwise scaling by `multiplier`.
    pub fn multiply(&self, multiplier: i64) -> (v: Vector3)
        requires
            in_i64(self.x * multiplier),
            in_i64(self.y * multiplier),
            in_i64(self.z * multiplier),
        ensures
            v.x == self.x * multiplier,
            v.y == self.y * multiplier,
            v.z == self.z * multiplier,
    {
        Vector3 {
            x: self.x * multiplier,
            y: self.y * multiplier,
            z: self.z * multiplier,
        }
    }

    /// The dot product, the sum of the componentwise products.
    pub fn dot_product(&self, other: &Vector3) -> (r: i64)
        requires
            in_i64(self.x * other.x),
            in_i64(self.y * other.y),
            in_i64(self.z * other.z),
            in_i64(self.x * other.x + self.y * other.y),
            in_i64(
                dot3(
                    self.x as int,
                    self.y as int,
                    self.z as int,
                    other.x as int,
                    other.y as int,
                    other.z as int,
                ),
            ),
        ensures
            r == dot3(
                self.x as int,
                self.y as int,
                self.z as int,
                other.x as int,
                other.y as int,
                other.z as int,
            ),
    {
        self.x * other.x + self.y * other.y + self.z * other.z
    }

    /// The cross product, assembled from three 2 by 2 determinants of the
    /// matrix kernel: `x` from rows `(ay, az), (by, bz)`, `y` as the
    /// negated determinant of rows `(ax, az), (bx, bz)`, and `z` from
    /// rows `(ax, ay), (bx, by)`.
    pub fn cross_product(&self, other: &Vector3) -> (v: Vector3)
        requires
            in_i64(self.y * other.z),
            in_i64(self.z * other.y),
            in_i64(cross_x(self.y as int, self.z as int, other.y as int, other.z as int)),
            in_i64(self.x * other.z),
            in_i64(self.z * other.x),
            in_i64(self.x * other.z - self.z * other.x),
            in_i64(cross_y(self.x as int, self.z as int, other.x as int, other.z as int)),
            in_i64(self.x * other.y),
            in_i64(self.y * other.x),
            in_i64(cross_z(self.x as int, self.y as int, other.x as int, other.y as int)),
        ensures
            v.x == cross_x(self.y as int, self.z as int, other.y as int, other.z as int),
            v.y == cross_y(self.x as int, self.z as int, other.x as int, other.z as int),
            v.z == cross_z(self.x as int, self.y as int, other.x as int, other.y as int),
    {
        let x = Matrix::new(2, 2, vec![self.y, self.z, other.y, other.z])
            .unwrap()
            .determinant()
            .unwrap();
        let y_det = Matrix::new(2, 2, vec![self.x, self.z, other.x, other.z])
            .unwrap()
            .determinant()
            .unwrap();
        let y = -y_det;
        let z = Matrix::new(2, 2, vec![self.x, self.y, other.x, other.y])
            .unwrap()
            .determinant()
            .unwrap();
        Vector3 { x, y, z }
    }
}

/// Law (the exact half of angle symmetry): the dot product is symmetric
/// in its operands, `a.dot_product(b) == b.dot_product(a)`.
pub proof fn lemma_dot3_symmetric(ax: int, ay: int, az: int, bx: int, by: int, bz: int)
    ensures
        dot3(ax, ay, az, bx, by, bz) == dot3(bx, by, bz, ax, ay, az),
{
    assert(ax * bx == bx * ax) by (nonlinear_arith);
    assert(ay * by == by * ay) by (nonlinear_arith);
    assert(az * bz == bz * az) by (nonlinear_arith);
}

/// Law: the cross product is orthogonal to both operands; its dot
/// product with either operand is exactly 0.
pub proof fn lemma_cross_orthogonal(ax: int, ay: int, az: int, bx: int, by: int, bz: int)
    ensures
        dot3(
            cross_x(ay, az, by, bz),
            cross_y(ax, az, bx, bz),
            cross_z(ax, ay, bx, by),
            ax,
            ay,
            az,
        ) == 0,
        dot3(
            cross_x(ay, az, by, bz),
            cross_y(ax, az, bx, bz),
            cross_z(ax, ay, bx, by),
            bx,
            by,
            bz,
        ) == 0,
{
    assert((ay * bz - az * by) * ax + (az * bx - ax * bz) * ay + (ax * by - ay * bx) * az == 0)
        by (nonlinear_arith);
    assert((ay * bz - az * by) * bx + (az * bx - ax * bz) * by + (ax * by - ay * bx) * bz == 0)
        by (nonlinear_arith);
}

} // verus!
