//! A 2-D vector with 64-bit signed integer coordinates: componentwise
//! arithmetic, scalar multiplication and the dot product. The Euclidean
//! magnitude and the angle between vectors are irrational-valued, so an
//! unverified application layer computes them from the integer
//! coordinates.

use crate::approx_eq::ApproxEq;
use crate::matrix::in_i64;
use vstd::prelude::*;

verus! {

/// An immutable 2-D vector: every operation returns a new value.
#[derive(PartialEq, Debug)]
pub struct Vector2 {
    pub x: i64,
    pub y: i64,
}

/// The dot product of the coordinate pairs `(ax, ay)` and `(bx, by)`.
pub open spec fn dot2(ax: int, ay: int, bx: int, by: int) -> int {
    ax * bx + ay * by
}

impl ApproxEq for Vector2 {
    open spec fn approx_spec(&self, other: &Vector2, eps: int) -> bool {
        self.x.approx_spec(&other.x, eps) && self.y.approx_spec(&other.y, eps)
    }

    fn approx_eq(&self, other: &Vector2, eps: i64) -> (r: bool) {
        self.x.approx_eq(&other.x, eps) && self.y.approx_eq(&other.y, eps)
    }

    fn approx_eq_default(&self, other: &Vector2) -> (r: bool) {
        self.approx_eq(other, 0)
    }
}

impl Vector2 {
    /// A vector from its two coordinates.
    pub fn new(x: i64, y: i64) -> (v: Vector2)
        ensures
            v.x == x,
            v.y == y,
    {
        Vector2 { x, y }
    }

    /// The componentwise sum.
    pub fn add(&self, other: &Vector2) -> (v: Vector2)
        requires
            in_i64(self.x + other.x),
            in_i64(self.y + other.y),
        ensures
            v.x == self.x + other.x,
            v.y == self.y + other.y,
    {
        Vector2 { x: self.x + other.x, y: self.y + other.y }
    }

    /// The componentwise difference.
    pub fn subtract(&self, other: &Vector2) -> (v: Vector2)
        requires
            in_i64(self.x - other.x),
            in_i64(self.y - other.y),
        ensures
            v.x == self.x - other.x,
            v.y == self.y - other.y,
    {
        Vector2 { x: self.x - other.x, y: self.y - other.y }
    }

    /// The componentwise scaling by `multiplier`.
    pub fn multiply(&self, multiplier: i64) -> (v: Vector2)
        requires
            in_i64(self.x * multiplier),
            in_i64(self.y * multiplier),
        ensures
            v.x == self.x * multiplier,
            v.y == self.y * multiplier,
    {
        Vector2 { x: self.x * multiplier, y: self.y * multiplier }
    }

    /// The dot product, the sum of the componentwise products.
    pub fn dot_product(&self, other: &Vector2) -> (r: i64)
        requires
            in_i64(self.x * other.x),
            in_i64(self.y * other.y),
            in_i64(dot2(self.x as int, self.y as int, other.x as int, other.y as int)),
        ensures
            r == dot2(self.x as int, self.y as int, other.x as int, other.y as int),
    {
        self.x * other.x + self.y * other.y
    }
}

/// Law (the exact half of angle symmetry): the dot product is symmetric
/// in its operands, `a.dot_product(b) == b.dot_product(a)`.
pub proof fn lemma_dot2_symmetric(ax: int, ay: int, bx: int, by: int)
    ensures
        dot2(ax, ay, bx, by) == dot2(bx, by, ax, ay),
{
    assert(ax * bx == bx * ax) by (nonlinear_arith);
    assert(ay * by == by * ay) by (nonlinear_arith);
}

} // verus!
