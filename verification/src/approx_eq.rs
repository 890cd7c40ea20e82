//! Comparison within a tolerance, for scalars and for the vector types
//! built from them: two values compare approximately equal when every
//! pairwise scalar difference is at most the tolerance in absolute value.

use vstd::prelude::*;

verus! {

/// Comparison within an explicit tolerance, plus a default-tolerance
/// variant. Integer arithmetic carries no rounding error, so the default
/// tolerance is zero and the default comparison is exact equality.
pub trait ApproxEq {
    /// What the comparison means for this type.
    spec fn approx_spec(&self, other: &Self, eps: int) -> bool;

    /// Whether `self` and `other` differ by at most `eps`, pairwise over
    /// their scalars.
    fn approx_eq(&self, other: &Self, eps: i64) -> (r: bool)
        ensures
            r == self.approx_spec(other, eps as int),
    ;

    /// The comparison at the default tolerance of zero.
    fn approx_eq_default(&self, other: &Self) -> (r: bool)
        ensures
            r == self.approx_spec(other, 0),
    ;
}

impl ApproxEq for i64 {
    open spec fn approx_spec(&self, other: &i64, eps: int) -> bool {
        vstd::math::abs(*self - *other) <= eps
    }

    fn approx_eq(&self, other: &i64, eps: i64) -> (r: bool) {
        let d: i128 = (*self as i128) - (*other as i128);
        let magnitude: i128 = if d < 0 {
            -d
        } else {
            d
        };
        magnitude <= (eps as i128)
    }

    fn approx_eq_default(&self, other: &i64) -> (r: bool) {
        self.approx_eq(other, 0)
    }
}

} // verus!
