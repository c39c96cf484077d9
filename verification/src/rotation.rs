//! Rotations about the vertical axis, which are all that a character makes.

use vstd::prelude::*;
use crate::root::{
    floor_sqrt, integer_sqrt, is_floor_sqrt, lemma_floor_sqrt_exists, lemma_floor_sqrt_is_unique,
};
use crate::scalar::{divide_towards_zero, magnitude, quotient_towards_zero, Scalar, ONE};
use crate::vector::{narrow, narrowed, Normal, Vector2};

verus! {

/// A facing whose two components are both below this in magnitude is read
/// enlarged by this factor, so that rounding its length down matters little.
pub const YAW_SCALE: i64 = 0x8000_0000;

/// A rotation about the vertical axis, kept as the direction on the input
/// plane that the body faces: `x` to the side, `y` forward. Only the
/// direction counts, not the length. A body that faces forward is not
/// turned; one that faces along `x` has made a quarter turn that takes its
/// forward axis, the negative `z` axis, to the positive `x` axis. A facing of
/// length zero turns nothing.
#[derive(Clone, Copy, PartialEq, Eq, Debug, Structural)]
pub struct Yaw {
    pub x: Scalar,
    pub y: Scalar,
}

impl Yaw {
    /// The factor by which the facing is enlarged before its length is taken.
    pub open spec fn scale(self) -> int {
        if -YAW_SCALE < self.x < YAW_SCALE && -YAW_SCALE < self.y < YAW_SCALE {
            YAW_SCALE as int
        } else {
            1
        }
    }

    /// The length of the enlarged facing, rounded down.
    pub open spec fn length(self) -> int {
        let x = self.x * self.scale();
        let y = self.y * self.scale();
        floor_sqrt(x * x + y * y)
    }

    /// `normal` turned from the body's frame into the world's. With `c` and
    /// `s` the cosine and sine of the facing, that is `y` and `x` over the
    /// length, the horizontal components become `n.x * c - n.z * s` and
    /// `n.x * s + n.z * c`, each rounded towards zero; the vertical component
    /// stays.
    pub open spec fn rotated_spec(self, normal: Normal) -> Normal {
        let x = self.x * self.scale();
        let y = self.y * self.scale();
        let length = self.length();
        if length == 0 {
            normal
        } else {
            Normal {
                x: narrowed(quotient_towards_zero(normal.x * y - normal.z * x, length)),
                y: normal.y,
                z: narrowed(quotient_towards_zero(normal.x * x + normal.z * y, length)),
            }
        }
    }

    /// Turns `normal` from the body's frame into the world's.
    pub fn rotated(self, normal: Normal) -> (r: Normal)
        ensures
            r == self.rotated_spec(normal),
    {
        let small = -YAW_SCALE < self.x && self.x < YAW_SCALE && -YAW_SCALE < self.y && self.y
            < YAW_SCALE;
        let scale: i128 = if small {
            YAW_SCALE as i128
        } else {
            1
        };
        assert(-0x8000_0000_0000_0000 <= self.x * scale <= 0x8000_0000_0000_0000
            && -0x8000_0000_0000_0000 <= self.y * scale <= 0x8000_0000_0000_0000)
            by (nonlinear_arith)
            requires
                scale == 1 || (scale == 0x8000_0000 && -0x8000_0000 < self.x < 0x8000_0000
                    && -0x8000_0000 < self.y < 0x8000_0000),
                -0x8000_0000_0000_0000 <= self.x <= 0x8000_0000_0000_0000,
                -0x8000_0000_0000_0000 <= self.y <= 0x8000_0000_0000_0000,
        ;
        let x: i128 = self.x as i128 * scale;
        let y: i128 = self.y as i128 * scale;
        proof {
            lemma_product_bounded(x as int, x as int, 0x8000_0000_0000_0000, 0x8000_0000_0000_0000);
            lemma_product_bounded(y as int, y as int, 0x8000_0000_0000_0000, 0x8000_0000_0000_0000);
            lemma_product_bounded(normal.x as int, x as int, 0x8000_0000, 0x8000_0000_0000_0000);
            lemma_product_bounded(normal.x as int, y as int, 0x8000_0000, 0x8000_0000_0000_0000);
            lemma_product_bounded(normal.z as int, x as int, 0x8000_0000, 0x8000_0000_0000_0000);
            lemma_product_bounded(normal.z as int, y as int, 0x8000_0000, 0x8000_0000_0000_0000);
            assert(0x8000_0000_0000_0000int * 0x8000_0000_0000_0000int
                == 0x4000_0000_0000_0000_0000_0000_0000_0000int) by (nonlinear_arith);
            assert(0x8000_0000int * 0x8000_0000_0000_0000int
                == 0x4000_0000_0000_0000_0000_0000int) by (nonlinear_arith);
            assert(x * x >= 0 && y * y >= 0) by (nonlinear_arith);
        }
        let square: u128 = (x * x) as u128 + (y * y) as u128;
        let length = integer_sqrt(square);
        if length == 0 {
            return normal;
        }
        let wide_x: i128 = normal.x as i128;
        let wide_z: i128 = normal.z as i128;
        let across: i128 = wide_x * y - wide_z * x;
        let along: i128 = wide_x * x + wide_z * y;
        Normal {
            x: narrow(divide_towards_zero(across, length as i128)),
            y: normal.y,
            z: narrow(divide_towards_zero(along, length as i128)),
        }
    }

    /// The facing of a body that was never turned: straight ahead.
    pub open spec fn identity_spec() -> Yaw {
        Yaw { x: 0, y: ONE }
    }

    /// The facing along `direction`.
    pub open spec fn facing_spec(direction: Vector2) -> Yaw {
        Yaw { x: direction.x, y: direction.y }
    }

    pub fn identity() -> (r: Yaw)
        ensures
            r == Yaw::identity_spec(),
    {
        Yaw { x: 0, y: ONE }
    }

    pub fn facing(direction: Vector2) -> (r: Yaw)
        ensures
            r == Yaw::facing_spec(direction),
    {
        Yaw { x: direction.x, y: direction.y }
    }
}

proof fn lemma_product_bounded(a: int, b: int, m: int, n: int)
    requires
        -m <= a <= m,
        -n <= b <= n,
    ensures
        -(m * n) <= a * b <= m * n,
{
    assert(-(m * n) <= a * b <= m * n) by (nonlinear_arith)
        requires
            -m <= a <= m,
            -n <= b <= n,
    ;
}

/// A body that faces forward is not turned: its frame is the world's.
pub proof fn lemma_identity_yaw_turns_nothing(normal: Normal)
    ensures
        Yaw::identity_spec().rotated_spec(normal) == normal,
{
    let yaw = Yaw::identity_spec();
    let unit: int = 1_000_000int * 0x8000_0000int;
    assert(yaw.scale() == 0x8000_0000);
    assert(yaw.x * yaw.scale() == 0);
    assert(yaw.y * yaw.scale() == unit);
    assert(0int * 0int + unit * unit == unit * unit);
    assert(unit * unit < (unit + 1) * (unit + 1)) by (nonlinear_arith)
        requires
            unit > 0,
    ;
    lemma_floor_sqrt_is_unique(unit * unit, unit);
    assert(yaw.length() == unit);
    lemma_quotient_of_multiple(normal.x as int, unit);
    lemma_quotient_of_multiple(normal.z as int, unit);
    assert(normal.x * unit - normal.z * 0 == normal.x * unit);
    assert(normal.x * 0 + normal.z * unit == normal.z * unit);
}

/// Turning about the vertical keeps the vertical component of a normal.
pub proof fn lemma_yaw_keeps_the_vertical(yaw: Yaw, normal: Normal)
    ensures
        yaw.rotated_spec(normal).y == normal.y,
{
}

/// The length of a facing is the square root, rounded down, of the sum of
/// the squares of its enlarged components; it is never negative.
pub proof fn lemma_facing_has_a_length(yaw: Yaw)
    ensures
        ({
            let x = yaw.x * yaw.scale();
            let y = yaw.y * yaw.scale();
            is_floor_sqrt(x * x + y * y, yaw.length())
        }),
        yaw.length() >= 0,
{
    let x = yaw.x * yaw.scale();
    let y = yaw.y * yaw.scale();
    assert(x * x + y * y >= 0) by (nonlinear_arith);
    lemma_floor_sqrt_exists(x * x + y * y);
}

/// The square of the length of the horizontal part of a normal.
pub open spec fn horizontal_square(normal: Normal) -> int {
    normal.x * normal.x + normal.z * normal.z
}

/// Turning keeps the length of a normal, up to rounding. With `l` the
/// rounded length of the enlarged facing, the turned normal's horizontal part
/// is at most `(l + 1) / l` times as long as it was; and unless a component
/// left the range of a normal, each component came out less than one
/// millionth short. A facing of length zero turns nothing, and both hold of
/// the normal itself.
pub proof fn lemma_turning_keeps_the_length(yaw: Yaw, normal: Normal)
    ensures
        ({
            let turned = yaw.rotated_spec(normal);
            let l = yaw.length();
            let x = yaw.x * yaw.scale();
            let y = yaw.y * yaw.scale();
            let across = quotient_towards_zero(normal.x * y - normal.z * x, l);
            let along = quotient_towards_zero(normal.x * x + normal.z * y, l);
            let before = horizontal_square(normal);
            let after = horizontal_square(turned);
            let mx = magnitude(turned.x as int);
            let mz = magnitude(turned.z as int);
            &&& after * (l * l) <= before * ((l + 1) * (l + 1))
            &&& turned.x == across && turned.z == along ==> before < (mx + 1) * (mx + 1) + (mz
                + 1) * (mz + 1)
        }),
{
    let turned = yaw.rotated_spec(normal);
    let l = yaw.length();
    let x = yaw.x * yaw.scale();
    let y = yaw.y * yaw.scale();
    let square = x * x + y * y;
    assert(square >= 0) by (nonlinear_arith)
        requires
            square == x * x + y * y,
    ;
    lemma_floor_sqrt_exists(square);
    assert(is_floor_sqrt(square, l));
    let a = normal.x * y - normal.z * x;
    let b = normal.x * x + normal.z * y;
    let across = quotient_towards_zero(a, l);
    let along = quotient_towards_zero(b, l);
    let h = horizontal_square(normal);
    lemma_sum_of_two_squares(normal.x as int, normal.z as int, x, y);
    assert(h >= 0) by (nonlinear_arith)
        requires
            h == normal.x * normal.x + normal.z * normal.z,
    ;
    if l == 0 {
        assert(turned == normal);
        assert(horizontal_square(turned) * (l * l) == 0) by (nonlinear_arith)
            requires
                l == 0,
        ;
        assert(h * ((l + 1) * (l + 1)) == h) by (nonlinear_arith)
            requires
                l == 0,
        ;
        lemma_square_below_the_next(magnitude(normal.x as int), normal.x as int);
        lemma_square_below_the_next(magnitude(normal.z as int), normal.z as int);
    } else {
        lemma_quotient_squared(a, l);
        lemma_quotient_squared(b, l);
        lemma_narrowed_is_no_larger(across);
        lemma_narrowed_is_no_larger(along);
        let tx = turned.x as int;
        let tz = turned.z as int;
        assert(tx * tx * (l * l) <= across * across * (l * l)) by (nonlinear_arith)
            requires
                tx * tx <= across * across,
                l > 0,
        ;
        assert(tz * tz * (l * l) <= along * along * (l * l)) by (nonlinear_arith)
            requires
                tz * tz <= along * along,
                l > 0,
        ;
        assert((tx * tx + tz * tz) * (l * l) == tx * tx * (l * l) + tz * tz * (l * l))
            by (nonlinear_arith);
        assert(h * square <= h * ((l + 1) * (l + 1))) by (nonlinear_arith)
            requires
                h >= 0,
                square < (l + 1) * (l + 1),
        ;
        if turned.x == across && turned.z == along {
            let mx = magnitude(tx);
            let mz = magnitude(tz);
            assert(h * (l * l) <= h * square) by (nonlinear_arith)
                requires
                    h >= 0,
                    l * l <= square,
            ;
            assert(((mx + 1) * (mx + 1)) * (l * l) + ((mz + 1) * (mz + 1)) * (l * l) == ((mx + 1) * (mx
                + 1) + (mz + 1) * (mz + 1)) * (l * l)) by (nonlinear_arith);
            assert(h < (mx + 1) * (mx + 1) + (mz + 1) * (mz + 1)) by (nonlinear_arith)
                requires
                    h * (l * l) < ((mx + 1) * (mx + 1) + (mz + 1) * (mz + 1)) * (l * l),
                    l > 0,
            ;
        }
    }
}

/// The squares of `p * y - r * x` and `p * x + r * y` add up to the product
/// of the sums of squares.
proof fn lemma_sum_of_two_squares(p: int, r: int, x: int, y: int)
    ensures
        (p * y - r * x) * (p * y - r * x) + (p * x + r * y) * (p * x + r * y) == (p * p + r * r)
            * (x * x + y * y),
{
    let py = p * y;
    let rx = r * x;
    let px = p * x;
    let ry = r * y;
    assert((py - rx) * (py - rx) == py * py - 2 * (py * rx) + rx * rx) by (nonlinear_arith);
    assert((px + ry) * (px + ry) == px * px + 2 * (px * ry) + ry * ry) by (nonlinear_arith);
    assert(py * rx == px * ry) by (nonlinear_arith)
        requires
            py == p * y,
            rx == r * x,
            px == p * x,
            ry == r * y,
    ;
    assert(py * py == (p * p) * (y * y)) by (nonlinear_arith)
        requires
            py == p * y,
    ;
    assert(rx * rx == (r * r) * (x * x)) by (nonlinear_arith)
        requires
            rx == r * x,
    ;
    assert(px * px == (p * p) * (x * x)) by (nonlinear_arith)
        requires
            px == p * x,
    ;
    assert(ry * ry == (r * r) * (y * y)) by (nonlinear_arith)
        requires
            ry == r * y,
    ;
    let pp = p * p;
    let rr = r * r;
    let xx = x * x;
    let yy = y * y;
    assert((pp + rr) * (xx + yy) == pp * yy + rr * xx + pp * xx + rr * yy) by (nonlinear_arith);
}

/// A quotient rounded towards zero, squared and multiplied by the square of
/// the divisor, lies at most at the square of the dividend, and the next
/// larger magnitude lies beyond it.
proof fn lemma_quotient_squared(n: int, d: int)
    requires
        d > 0,
    ensures
        ({
            let q = quotient_towards_zero(n, d);
            &&& q * q * (d * d) <= n * n
            &&& n * n < ((magnitude(q) + 1) * (magnitude(q) + 1)) * (d * d)
        }),
{
    let q = quotient_towards_zero(n, d);
    let m = magnitude(n);
    let t = m / d;
    assert(t * d <= m < (t + 1) * d && 0 <= t) by (nonlinear_arith)
        requires
            t == m / d,
            m >= 0,
            d > 0,
    ;
    assert(magnitude(q) == t);
    assert(q * q == t * t) by (nonlinear_arith)
        requires
            q == t || q == -t,
    ;
    assert(n * n == m * m) by (nonlinear_arith)
        requires
            m == n || m == -n,
    ;
    assert((t * d) * (t * d) <= m * m) by (nonlinear_arith)
        requires
            0 <= t * d <= m,
    ;
    assert((t * d) * (t * d) == t * t * (d * d)) by (nonlinear_arith);
    assert(m * m < ((t + 1) * d) * ((t + 1) * d)) by (nonlinear_arith)
        requires
            0 <= m < (t + 1) * d,
    ;
    assert(((t + 1) * d) * ((t + 1) * d) == ((t + 1) * (t + 1)) * (d * d)) by (nonlinear_arith);
}

proof fn lemma_square_below_the_next(m: int, v: int)
    requires
        m == v || m == -v,
        m >= 0,
    ensures
        v * v < (m + 1) * (m + 1),
{
    assert(v * v < (m + 1) * (m + 1)) by (nonlinear_arith)
        requires
            m == v || m == -v,
            m >= 0,
    ;
}

proof fn lemma_narrowed_is_no_larger(v: int)
    ensures
        narrowed(v) * narrowed(v) <= v * v,
{
    let w = narrowed(v) as int;
    assert(w * w <= v * v) by (nonlinear_arith)
        requires
            (0 <= w <= v) || (v <= w <= 0),
    ;
}

proof fn lemma_quotient_of_multiple(a: int, d: int)
    requires
        d > 0,
    ensures
        quotient_towards_zero(a * d, d) == a,
{
    if a >= 0 {
        assert(a * d >= 0 && (a * d) / d == a) by (nonlinear_arith)
            requires
                a >= 0,
                d > 0,
        ;
    } else {
        assert(a * d < 0 && -(a * d) == (-a) * d && ((-a) * d) / d == -a) by (nonlinear_arith)
            requires
                a < 0,
                d > 0,
        ;
    }
}

} // verus!
