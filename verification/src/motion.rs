//! What many ticks do: a free fall gains the same velocity every tick, and
//! damping decays the horizontal velocity geometrically.

use vstd::prelude::*;
use vstd::arithmetic::power::{lemma_pow_positive, pow};
use crate::character::{CharacterController, PlayerInput};
use crate::ground::ShapeCastHit;
use crate::scalar::{in_range, magnitude, product_spec, Scalar, ONE};

verus! {

/// The controller after gravity has acted for `ticks` ticks of
/// `delta_seconds` each, with nothing else acting on it.
pub open spec fn after_free_fall(
    body: CharacterController,
    delta_seconds: Scalar,
    ticks: nat,
) -> CharacterController
    decreases ticks,
{
    if ticks == 0 {
        body
    } else {
        after_free_fall(body, delta_seconds, (ticks - 1) as nat).after_gravity(delta_seconds)
    }
}

/// The controller after `ticks` ticks of `delta_seconds` each, where the
/// ground probe finds `hits(k)` and the player asks for `inputs(k)` in tick
/// `k`.
pub open spec fn after_ticks(
    body: CharacterController,
    hits: spec_fn(nat) -> Seq<ShapeCastHit>,
    inputs: spec_fn(nat) -> PlayerInput,
    delta_seconds: Scalar,
    ticks: nat,
) -> CharacterController
    decreases ticks,
{
    if ticks == 0 {
        body
    } else {
        let last = (ticks - 1) as nat;
        after_ticks(body, hits, inputs, delta_seconds, last).after_tick(
            hits(last),
            inputs(last),
            delta_seconds,
        )
    }
}

/// The controller after its horizontal velocity was damped `ticks` times.
pub open spec fn after_dampings(body: CharacterController, ticks: nat) -> CharacterController
    decreases ticks,
{
    if ticks == 0 {
        body
    } else {
        after_dampings(body, (ticks - 1) as nat).after_damping()
    }
}

/// `velocity` multiplied `ticks` times by `factor`, rounded each time.
pub open spec fn damped(velocity: Scalar, factor: Scalar, ticks: nat) -> Scalar
    decreases ticks,
{
    if ticks == 0 {
        velocity
    } else {
        product_spec(damped(velocity, factor, (ticks - 1) as nat), factor)
    }
}

/// In a free fall every tick adds the same amount to the vertical velocity:
/// after `ticks` ticks it has grown by `ticks` times the product of gravity
/// and the tick's length, as long as that sum is in range.
pub proof fn lemma_free_fall_is_linear(body: CharacterController, delta_seconds: Scalar, ticks: nat)
    requires
        in_range(body.linear_velocity.y + ticks * product_spec(body.gravity.0.y, delta_seconds)),
    ensures
        after_free_fall(body, delta_seconds, ticks).linear_velocity.y == body.linear_velocity.y
            + ticks * product_spec(body.gravity.0.y, delta_seconds),
        after_free_fall(body, delta_seconds, ticks).gravity == body.gravity,
    decreases ticks,
{
    let step = product_spec(body.gravity.0.y, delta_seconds) as int;
    let start = body.linear_velocity.y as int;
    reveal_with_fuel(after_free_fall, 2);
    if ticks == 0 {
        assert(ticks * step == 0) by (nonlinear_arith)
            requires
                ticks == 0,
        ;
    } else {
        let earlier = (ticks - 1) as nat;
        assert(ticks * step == earlier * step + step) by (nonlinear_arith)
            requires
                earlier == ticks - 1,
        ;
        if earlier == 0 {
            assert(earlier * step == 0) by (nonlinear_arith)
                requires
                    earlier == 0,
            ;
        } else {
            assert(in_range(start + earlier * step)) by {
                assert(step >= 0 ==> step <= earlier * step <= ticks * step) by (nonlinear_arith)
                    requires
                        1 <= earlier <= ticks,
                ;
                assert(step <= 0 ==> ticks * step <= earlier * step <= step) by (nonlinear_arith)
                    requires
                        1 <= earlier <= ticks,
                ;
            }
            lemma_free_fall_is_linear(body, delta_seconds, earlier);
        }
    }
}

/// As long as the player does not jump, the vertical velocity of a body gains
/// the same amount every tick, whatever the ground probe finds and wherever
/// the player steers: after `ticks` ticks it has grown by `ticks` times the
/// product of gravity and the tick's length, as long as that sum is in range.
pub proof fn lemma_fall_without_jump_is_linear(
    body: CharacterController,
    hits: spec_fn(nat) -> Seq<ShapeCastHit>,
    inputs: spec_fn(nat) -> PlayerInput,
    delta_seconds: Scalar,
    ticks: nat,
)
    requires
        forall|k: nat| k < ticks ==> !(#[trigger] inputs(k)).jump_just_pressed,
        in_range(body.linear_velocity.y + ticks * product_spec(body.gravity.0.y, delta_seconds)),
    ensures
        after_ticks(body, hits, inputs, delta_seconds, ticks).linear_velocity.y
            == body.linear_velocity.y + ticks * product_spec(body.gravity.0.y, delta_seconds),
        after_ticks(body, hits, inputs, delta_seconds, ticks).gravity == body.gravity,
    decreases ticks,
{
    let step = product_spec(body.gravity.0.y, delta_seconds) as int;
    let start = body.linear_velocity.y as int;
    reveal_with_fuel(after_ticks, 2);
    if ticks == 0 {
        assert(ticks * step == 0) by (nonlinear_arith)
            requires
                ticks == 0,
        ;
    } else {
        let earlier = (ticks - 1) as nat;
        assert(!inputs(earlier).jump_just_pressed);
        assert(ticks * step == earlier * step + step) by (nonlinear_arith)
            requires
                earlier == ticks - 1,
        ;
        if earlier == 0 {
            assert(earlier * step == 0) by (nonlinear_arith)
                requires
                    earlier == 0,
            ;
        } else {
            assert(in_range(start + earlier * step)) by {
                assert(step >= 0 ==> step <= earlier * step <= ticks * step) by (nonlinear_arith)
                    requires
                        1 <= earlier <= ticks,
                ;
                assert(step <= 0 ==> ticks * step <= earlier * step <= step) by (nonlinear_arith)
                    requires
                        1 <= earlier <= ticks,
                ;
            }
            lemma_fall_without_jump_is_linear(body, hits, inputs, delta_seconds, earlier);
        }
    }
}

/// As long as the player does not run and gravity is vertical, the horizontal
/// velocity of a body is damped once every tick and nothing else happens to
/// it.
pub proof fn lemma_coasting_is_damping(
    body: CharacterController,
    hits: spec_fn(nat) -> Seq<ShapeCastHit>,
    inputs: spec_fn(nat) -> PlayerInput,
    delta_seconds: Scalar,
    ticks: nat,
)
    requires
        forall|k: nat| k < ticks ==> !(#[trigger] inputs(k)).run_pressed,
        body.gravity.0.x == 0,
        body.gravity.0.z == 0,
    ensures
        after_ticks(body, hits, inputs, delta_seconds, ticks).linear_velocity.x == damped(
            body.linear_velocity.x,
            body.damping.0,
            ticks,
        ),
        after_ticks(body, hits, inputs, delta_seconds, ticks).linear_velocity.z == damped(
            body.linear_velocity.z,
            body.damping.0,
            ticks,
        ),
        after_ticks(body, hits, inputs, delta_seconds, ticks).gravity == body.gravity,
        after_ticks(body, hits, inputs, delta_seconds, ticks).damping == body.damping,
    decreases ticks,
{
    if ticks > 0 {
        let earlier = (ticks - 1) as nat;
        assert(!inputs(earlier).run_pressed);
        lemma_coasting_is_damping(body, hits, inputs, delta_seconds, earlier);
        assert(0int * (delta_seconds as int) == 0);
    }
}

/// Damping a controller `ticks` times damps the two horizontal components of
/// its velocity `ticks` times each and leaves the vertical component alone.
pub proof fn lemma_dampings_act_on_horizontal_velocity(body: CharacterController, ticks: nat)
    ensures
        after_dampings(body, ticks).linear_velocity.x == damped(
            body.linear_velocity.x,
            body.damping.0,
            ticks,
        ),
        after_dampings(body, ticks).linear_velocity.z == damped(
            body.linear_velocity.z,
            body.damping.0,
            ticks,
        ),
        after_dampings(body, ticks).linear_velocity.y == body.linear_velocity.y,
        after_dampings(body, ticks).damping == body.damping,
    decreases ticks,
{
    if ticks > 0 {
        lemma_dampings_act_on_horizontal_velocity(body, (ticks - 1) as nat);
    }
}

/// One multiplication by a factor between zero and one keeps the sign of a
/// scalar or makes it zero, and rounds the exact product down in magnitude
/// by less than one millionth.
proof fn lemma_product_with_fraction(v: Scalar, factor: Scalar)
    requires
        0 <= factor <= ONE,
    ensures
        v >= 0 ==> product_spec(v, factor) >= 0,
        v <= 0 ==> product_spec(v, factor) <= 0,
        magnitude(product_spec(v, factor) as int) <= magnitude(v as int),
        magnitude(product_spec(v, factor) as int) * ONE <= magnitude(v as int) * factor,
        magnitude(v as int) * factor <= (magnitude(product_spec(v, factor) as int) + 1) * ONE,
{
    let m = magnitude(v as int);
    let exact = m * factor;
    let t = exact / (ONE as int);
    assert(0 <= exact <= m * ONE) by (nonlinear_arith)
        requires
            exact == m * factor,
            0 <= m,
            0 <= factor <= ONE,
    ;
    assert(t * ONE <= exact < (t + 1) * ONE && 0 <= t <= m) by (nonlinear_arith)
        requires
            t == exact / (ONE as int),
            0 <= exact <= m * ONE,
            ONE == 1_000_000,
    ;
    if v >= 0 {
        assert(v * factor == exact);
    } else {
        assert(v * factor == -exact) by (nonlinear_arith)
            requires
                exact == m * factor,
                m == -v,
        ;
        assert(-(v * factor) == exact);
    }
}

/// Damping never turns a velocity around and never makes it larger: with a
/// factor between zero and one, every further tick leaves the velocity on
/// its side of zero and no farther from it.
pub proof fn lemma_damping_decays(velocity: Scalar, factor: Scalar, ticks: nat)
    requires
        0 <= factor <= ONE,
    ensures
        velocity >= 0 ==> damped(velocity, factor, ticks) >= 0,
        velocity <= 0 ==> damped(velocity, factor, ticks) <= 0,
        magnitude(damped(velocity, factor, ticks) as int) <= magnitude(velocity as int),
        magnitude(damped(velocity, factor, ticks + 1) as int) <= magnitude(
            damped(velocity, factor, ticks) as int,
        ),
    decreases ticks,
{
    if ticks > 0 {
        lemma_damping_decays(velocity, factor, (ticks - 1) as nat);
        lemma_product_with_fraction(damped(velocity, factor, (ticks - 1) as nat), factor);
    }
    lemma_product_with_fraction(damped(velocity, factor, ticks), factor);
}

/// Damping never speeds a body up: with a factor between zero and one the
/// square of the horizontal speed after any number of ticks is at most the
/// square of the horizontal speed at the start.
pub proof fn lemma_damping_never_speeds_up(body: CharacterController, ticks: nat)
    requires
        0 <= body.damping.0 <= ONE,
    ensures
        ({
            let before = body.linear_velocity;
            let after = after_dampings(body, ticks).linear_velocity;
            after.x * after.x + after.z * after.z <= before.x * before.x + before.z * before.z
        }),
{
    let before = body.linear_velocity;
    let after = after_dampings(body, ticks).linear_velocity;
    lemma_dampings_act_on_horizontal_velocity(body, ticks);
    lemma_damping_decays(before.x, body.damping.0, ticks);
    lemma_damping_decays(before.z, body.damping.0, ticks);
    lemma_square_of_smaller_magnitude(after.x, before.x);
    lemma_square_of_smaller_magnitude(after.z, before.z);
}

proof fn lemma_square_of_smaller_magnitude(a: Scalar, b: Scalar)
    requires
        magnitude(a as int) <= magnitude(b as int),
    ensures
        a * a <= b * b,
{
    let m = magnitude(a as int);
    let n = magnitude(b as int);
    assert(a * a == m * m) by (nonlinear_arith)
        requires
            m == a || m == -a,
    ;
    assert(b * b == n * n) by (nonlinear_arith)
        requires
            n == b || n == -b,
    ;
    assert(m * m <= n * n) by (nonlinear_arith)
        requires
            0 <= m <= n,
    ;
}

proof fn lemma_pow_step(b: int, e: nat)
    ensures
        pow(b, e + 1) == b * pow(b, e),
{
    reveal(pow);
}

proof fn lemma_pow_of_fraction(b: int, e: nat)
    requires
        0 <= b,
    ensures
        0 <= pow(b, e),
    decreases e,
{
    reveal(pow);
    if e > 0 {
        lemma_pow_of_fraction(b, (e - 1) as nat);
        assert(0 <= b * pow(b, (e - 1) as nat)) by (nonlinear_arith)
            requires
                0 <= b,
                0 <= pow(b, (e - 1) as nat),
        ;
    }
}

/// Damping is a geometric decay. After `ticks` ticks with a factor of
/// `factor` millionths, the magnitude of the velocity is the magnitude at
/// the start times the `ticks`-th power of the factor, less what rounding
/// towards zero has taken, which is at most one millionth for each tick.
/// Both sides are multiplied by the `ticks`-th power of `ONE`, so that the
/// statement is one about integers.
pub proof fn lemma_damping_is_geometric(velocity: Scalar, factor: Scalar, ticks: nat)
    requires
        0 <= factor <= ONE,
    ensures
        magnitude(damped(velocity, factor, ticks) as int) * pow(ONE as int, ticks) <= magnitude(velocity as int)
            * pow(factor as int, ticks),
        magnitude(velocity as int) * pow(factor as int, ticks) <= (magnitude(
            damped(velocity, factor, ticks) as int,
        ) + ticks) * pow(ONE as int, ticks),
    decreases ticks,
{
    reveal(pow);
    let m = magnitude(velocity as int);
    if ticks == 0 {
        assert(pow(ONE as int, 0) == 1);
        assert(pow(factor as int, 0) == 1);
    } else {
        let earlier = (ticks - 1) as nat;
        lemma_damping_is_geometric(velocity, factor, earlier);
        let before = magnitude(damped(velocity, factor, earlier) as int);
        let after = magnitude(damped(velocity, factor, ticks) as int);
        lemma_product_with_fraction(damped(velocity, factor, earlier), factor);
        let unit = pow(ONE as int, earlier);
        let part = pow(factor as int, earlier);
        lemma_pow_step(ONE as int, earlier);
        lemma_pow_step(factor as int, earlier);
        lemma_pow_positive(ONE as int, earlier);
        lemma_pow_of_fraction(factor as int, earlier);
        let one = ONE as int;
        let f = factor as int;
        assert(pow(one, ticks) == one * unit);
        assert(pow(f, ticks) == f * part);
        // after * one <= before * f, and before * unit <= m * part
        assert(after * (one * unit) <= m * (f * part)) by (nonlinear_arith)
            requires
                after * one <= before * f,
                before * unit <= m * part,
                0 <= f,
                0 < unit,
                0 <= after,
                0 <= before,
        ;
        // m * part <= (before + earlier) * unit, and before * f <= (after + 1) * one
        assert(m * (f * part) <= (after + ticks) * (one * unit)) by (nonlinear_arith)
            requires
                m * part <= (before + earlier) * unit,
                before * f <= (after + 1) * one,
                0 <= f <= one,
                0 < unit,
                0 <= earlier,
                ticks == earlier + 1,
                0 <= after,
                0 <= before,
        ;
    }
}

} // verus!
