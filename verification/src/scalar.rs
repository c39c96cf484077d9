//! Fixed-point scalars. A `Scalar` counts millionths: the number 1 is stored
//! as `ONE`. Sums, differences and products saturate at the ends of the
//! range of `i64`, and a product is rounded towards zero.

use vstd::prelude::*;

verus! {

/// A fixed-point number in millionths.
pub type Scalar = i64;

/// The number 1.
pub const ONE: Scalar = 1_000_000;

/// The number one half.
pub const HALF: Scalar = 500_000;

/// Whether `x` is a scalar: whether it lies in the range of `i64`.
pub open spec fn in_range(x: int) -> bool {
    i64::MIN <= x <= i64::MAX
}

/// `x`, or the nearest end of the range where `x` lies outside it.
pub open spec fn saturate(x: int) -> Scalar {
    if x > i64::MAX {
        i64::MAX
    } else if x < i64::MIN {
        i64::MIN
    } else {
        x as Scalar
    }
}

/// The magnitude of a number.
pub open spec fn magnitude(v: int) -> int {
    if v >= 0 {
        v
    } else {
        -v
    }
}

/// `n / d` rounded towards zero, for a positive `d`.
pub open spec fn quotient_towards_zero(n: int, d: int) -> int {
    if n >= 0 {
        n / d
    } else {
        -((-n) / d)
    }
}

/// The saturated sum.
pub open spec fn sum_spec(a: Scalar, b: Scalar) -> Scalar {
    saturate(a + b)
}

/// The saturated difference.
pub open spec fn difference_spec(a: Scalar, b: Scalar) -> Scalar {
    saturate(a - b)
}

/// The product of two fixed-point numbers: the integer product divided by
/// `ONE`, rounded towards zero, then saturated.
pub open spec fn product_spec(a: Scalar, b: Scalar) -> Scalar {
    saturate(quotient_towards_zero(a * b, ONE as int))
}

/// A product is the exact product rounded towards zero: it differs from the
/// exact product by less than one millionth, and never lies farther from
/// zero. Where the rounded product is in range, nothing saturates.
pub proof fn lemma_product_rounds_towards_zero(a: Scalar, b: Scalar)
    ensures
        ({
            let exact = a * b;
            let rounded = quotient_towards_zero(exact, ONE as int);
            &&& exact >= 0 ==> rounded * ONE <= exact < (rounded + 1) * ONE
            &&& exact <= 0 ==> (rounded - 1) * ONE < exact <= rounded * ONE
            &&& in_range(rounded) ==> product_spec(a, b) == rounded
        }),
{
    let exact = a * b;
    let one = ONE as int;
    if exact >= 0 {
        assert((exact / one) * one <= exact < (exact / one + 1) * one) by (nonlinear_arith)
            requires
                one == 1_000_000,
                exact >= 0,
        ;
    } else {
        let mirrored = -exact;
        assert((mirrored / one) * one <= mirrored < (mirrored / one + 1) * one)
            by (nonlinear_arith)
            requires
                one == 1_000_000,
                mirrored >= 0,
        ;
        assert((-(mirrored / one) - 1) * one == -((mirrored / one + 1) * one))
            by (nonlinear_arith);
        assert((-(mirrored / one)) * one == -((mirrored / one) * one)) by (nonlinear_arith);
    }
}

/// Divides by a positive number, rounding towards zero.
pub(crate) fn divide_towards_zero(n: i128, d: i128) -> (q: i128)
    requires
        d > 0,
        n > i128::MIN,
    ensures
        q == quotient_towards_zero(n as int, d as int),
{
    if n >= 0 {
        n / d
    } else {
        let mirrored: i128 = -n;
        assert(0 <= mirrored / d <= mirrored) by (nonlinear_arith)
            requires
                mirrored >= 0,
                d > 0,
        ;
        -(mirrored / d)
    }
}

fn saturate_wide(x: i128) -> (r: Scalar)
    ensures
        r == saturate(x as int),
{
    if x > i64::MAX as i128 {
        i64::MAX
    } else if x < i64::MIN as i128 {
        i64::MIN
    } else {
        x as i64
    }
}

/// Adds two scalars, saturating.
pub fn scalar_add(a: Scalar, b: Scalar) -> (r: Scalar)
    ensures
        r == sum_spec(a, b),
{
    saturate_wide(a as i128 + b as i128)
}

/// Subtracts `b` from `a`, saturating.
pub fn scalar_sub(a: Scalar, b: Scalar) -> (r: Scalar)
    ensures
        r == difference_spec(a, b),
{
    saturate_wide(a as i128 - b as i128)
}

/// Multiplies two fixed-point numbers, rounding towards zero and saturating.
pub fn scalar_mul(a: Scalar, b: Scalar) -> (r: Scalar)
    ensures
        r == product_spec(a, b),
{
    let wide_a: i128 = a as i128;
    let wide_b: i128 = b as i128;
    assert(-0x4000_0000_0000_0000_0000_0000_0000_0000 <= wide_a * wide_b
        <= 0x4000_0000_0000_0000_0000_0000_0000_0000) by (nonlinear_arith)
        requires
            -0x8000_0000_0000_0000 <= wide_a <= 0x8000_0000_0000_0000,
            -0x8000_0000_0000_0000 <= wide_b <= 0x8000_0000_0000_0000,
    ;
    saturate_wide(divide_towards_zero(wide_a * wide_b, ONE as i128))
}

} // verus!
