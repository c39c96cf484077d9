//! Slope limits. A limit is kept as the cosine of the steepest angle that a
//! surface normal may make with the vertical, so that a normal is classified
//! with integer arithmetic alone.

use vstd::prelude::*;
use crate::scalar::{Scalar, ONE};
use crate::vector::Normal;

verus! {

/// The steepest slope that a character can stand on and climb, as the cosine
/// of the angle between the surface normal and the vertical. A value outside
/// the range from `-ONE` to `ONE` is read as the nearer end of that range.
#[derive(Clone, Copy, PartialEq, Eq, Debug, Structural)]
pub struct MaxSlopeAngle(pub Scalar);

/// Whether the angle between `n` and the vertical has a cosine of at least
/// `c` millionths, for `c` between `-ONE` and `ONE`. With `l` the length of
/// `n`, this is `n.y * ONE >= c * l`; both sides are compared by their squares
/// and signs. A normal of length zero has no angle, and the answer is `false`.
pub open spec fn cosine_to_up_at_least(n: Normal, c: int) -> bool {
    let lifted = (n.y * n.y) * (ONE * ONE);
    let bound = (c * c) * n.length_squared();
    &&& n.length_squared() > 0
    &&& if c >= 0 {
        n.y >= 0 && lifted >= bound
    } else {
        n.y >= 0 || lifted <= bound
    }
}

impl MaxSlopeAngle {
    /// The cosine that the limit stands for, between `-ONE` and `ONE`.
    pub open spec fn cosine(self) -> int {
        if self.0 > ONE {
            ONE as int
        } else if self.0 < -ONE {
            -ONE as int
        } else {
            self.0 as int
        }
    }

    /// Whether a surface with normal `n` is no steeper than the limit.
    pub open spec fn admits_spec(self, n: Normal) -> bool {
        cosine_to_up_at_least(n, self.cosine())
    }

    /// The limit whose angle has the cosine `cosine`.
    pub fn from_cosine(cosine: Scalar) -> (r: MaxSlopeAngle)
        ensures
            r == MaxSlopeAngle(cosine),
    {
        MaxSlopeAngle(cosine)
    }

    /// Whether a surface with normal `n` is no steeper than the limit.
    pub fn admits(&self, n: Normal) -> (r: bool)
        ensures
            r == self.admits_spec(n),
    {
        let c: i128 = if self.0 > ONE {
            ONE as i128
        } else if self.0 < -ONE {
            -(ONE as i128)
        } else {
            self.0 as i128
        };
        let x: i128 = n.x as i128;
        let y: i128 = n.y as i128;
        let z: i128 = n.z as i128;
        proof {
            lemma_square_bounded(x as int, 0x8000_0000);
            lemma_square_bounded(y as int, 0x8000_0000);
            lemma_square_bounded(z as int, 0x8000_0000);
            lemma_square_bounded(c as int, 1_000_000);
        }
        let length_squared: i128 = x * x + y * y + z * z;
        if length_squared == 0 {
            return false;
        }
        let unit_squared: i128 = 1_000_000_000_000;
        let cosine_squared: i128 = c * c;
        assert(0 <= (y * y) * unit_squared <= 0x4000_0000_0000_0000 * 1_000_000_000_000)
            by (nonlinear_arith)
            requires
                0 <= y * y <= 0x4000_0000_0000_0000,
                unit_squared == 1_000_000_000_000,
        ;
        assert(0 <= cosine_squared * length_squared <= 1_000_000_000_000 * (3
            * 0x4000_0000_0000_0000)) by (nonlinear_arith)
            requires
                0 <= cosine_squared <= 1_000_000_000_000,
                0 <= length_squared <= 3 * 0x4000_0000_0000_0000,
        ;
        let lifted: i128 = (y * y) * unit_squared;
        let bound: i128 = cosine_squared * length_squared;
        if c >= 0 {
            n.y >= 0 && lifted >= bound
        } else {
            n.y >= 0 || lifted <= bound
        }
    }
}

/// Whether a surface with normal `n` counts as ground under `limit`. Without
/// a limit every surface does.
pub open spec fn walkable(limit: Option<MaxSlopeAngle>, n: Normal) -> bool {
    match limit {
        Some(angle) => angle.admits_spec(n),
        None => true,
    }
}

/// Whether a surface with normal `n` counts as ground under `limit`.
pub fn is_walkable(limit: &Option<MaxSlopeAngle>, n: Normal) -> (r: bool)
    ensures
        r == walkable(*limit, n),
{
    match limit {
        Some(angle) => angle.admits(n),
        None => true,
    }
}

/// Comparing squares and signs is comparing the cosine: where the length `l`
/// of a normal is a whole number, the normal is admitted exactly when its
/// vertical component is at least `c` millionths of `l`.
pub proof fn lemma_slope_by_length(n: Normal, c: int, l: int)
    requires
        l > 0,
        l * l == n.length_squared(),
    ensures
        cosine_to_up_at_least(n, c) == (n.y * ONE >= c * l),
{
    let left = n.y * ONE;
    let right = c * l;
    assert(l * l > 0) by (nonlinear_arith)
        requires
            l > 0,
    ;
    assert(left * left == (n.y * n.y) * (ONE * ONE)) by (nonlinear_arith)
        requires
            left == n.y * ONE,
    ;
    assert(right * right == (c * c) * n.length_squared()) by (nonlinear_arith)
        requires
            right == c * l,
            l * l == n.length_squared(),
    ;
    assert((c >= 0 ==> right >= 0) && (c < 0 ==> right < 0)) by (nonlinear_arith)
        requires
            right == c * l,
            l > 0,
    ;
    assert((n.y >= 0 ==> left >= 0) && (n.y < 0 ==> left < 0)) by (nonlinear_arith)
        requires
            left == n.y * ONE,
            ONE == 1_000_000,
    ;
    lemma_squares_compare(left, right);
}

/// A limit with a smaller cosine, that is with a wider angle, admits every
/// normal that a limit with a larger cosine admits.
pub proof fn lemma_wider_limit_admits_more(n: Normal, narrow: MaxSlopeAngle, wide: MaxSlopeAngle)
    requires
        wide.cosine() <= narrow.cosine(),
        narrow.admits_spec(n),
    ensures
        wide.admits_spec(n),
{
    let c = narrow.cosine();
    let d = wide.cosine();
    let lifted = (n.y * n.y) * (ONE * ONE);
    let length = n.length_squared();
    assert(lifted >= 0) by (nonlinear_arith)
        requires
            lifted == (n.y * n.y) * (ONE * ONE),
    ;
    if d >= 0 {
        assert((d * d) * length <= (c * c) * length) by (nonlinear_arith)
            requires
                0 <= d <= c,
                length > 0,
        ;
    } else if c < 0 {
        assert((c * c) * length <= (d * d) * length) by (nonlinear_arith)
            requires
                d <= c < 0,
                length > 0,
        ;
    }
}

/// A normal that points straight up is admitted by every limit.
pub proof fn lemma_level_ground_is_walkable(n: Normal, limit: MaxSlopeAngle)
    requires
        n.x == 0,
        n.z == 0,
        n.y > 0,
    ensures
        limit.admits_spec(n),
{
    let c = limit.cosine();
    assert(n.length_squared() == n.y * n.y);
    assert(n.y * n.y > 0) by (nonlinear_arith)
        requires
            n.y > 0,
    ;
    assert((c * c) * (n.y * n.y) <= (n.y * n.y) * (ONE * ONE)) by (nonlinear_arith)
        requires
            -ONE <= c <= ONE,
            n.y * n.y > 0,
    ;
}

/// Two numbers compare as their squares do, once their signs are known.
proof fn lemma_squares_compare(a: int, b: int)
    ensures
        a >= 0 && b >= 0 ==> (a >= b <==> a * a >= b * b),
        a < 0 && b < 0 ==> (a >= b <==> a * a <= b * b),
{
    if a >= 0 && b >= 0 {
        assert(a >= b ==> a * a >= b * b) by (nonlinear_arith)
            requires
                a >= 0,
                b >= 0,
        ;
        assert(a < b ==> a * a < b * b) by (nonlinear_arith)
            requires
                a >= 0,
                b >= 0,
        ;
    }
    if a < 0 && b < 0 {
        assert(a >= b ==> a * a <= b * b) by (nonlinear_arith)
            requires
                a < 0,
                b < 0,
        ;
        assert(a < b ==> a * a > b * b) by (nonlinear_arith)
            requires
                a < 0,
                b < 0,
        ;
    }
}

proof fn lemma_square_bounded(v: int, m: int)
    requires
        -m <= v <= m,
    ensures
        0 <= v * v <= m * m,
{
    assert(0 <= v * v <= m * m) by (nonlinear_arith)
        requires
            -m <= v <= m,
    ;
}

} // verus!
