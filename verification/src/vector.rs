//! Vectors of fixed-point scalars, and the narrow vectors that stand for
//! directions.

use vstd::prelude::*;
use crate::scalar::{product_spec, scalar_add, scalar_mul, sum_spec, Scalar};

verus! {

/// A vector in space. `y` is the vertical axis, and up is positive.
#[derive(Clone, Copy, PartialEq, Eq, Debug, Structural)]
pub struct Vector {
    pub x: Scalar,
    pub y: Scalar,
    pub z: Scalar,
}

impl Vector {
    /// The componentwise saturated sum.
    pub open spec fn plus_spec(self, other: Vector) -> Vector {
        Vector {
            x: sum_spec(self.x, other.x),
            y: sum_spec(self.y, other.y),
            z: sum_spec(self.z, other.z),
        }
    }

    /// Each component multiplied by the fixed-point number `k`.
    pub open spec fn scaled_spec(self, k: Scalar) -> Vector {
        Vector {
            x: product_spec(self.x, k),
            y: product_spec(self.y, k),
            z: product_spec(self.z, k),
        }
    }

    pub fn new(x: Scalar, y: Scalar, z: Scalar) -> (r: Vector)
        ensures
            r == (Vector { x, y, z }),
    {
        Vector { x, y, z }
    }

    /// The zero vector.
    pub fn zero() -> (r: Vector)
        ensures
            r == (Vector { x: 0, y: 0, z: 0 }),
    {
        Vector { x: 0, y: 0, z: 0 }
    }

    /// Adds two vectors component by component, saturating.
    pub fn plus(self, other: Vector) -> (r: Vector)
        ensures
            r == self.plus_spec(other),
    {
        Vector {
            x: scalar_add(self.x, other.x),
            y: scalar_add(self.y, other.y),
            z: scalar_add(self.z, other.z),
        }
    }

    /// Multiplies each component by the fixed-point number `k`.
    pub fn scaled(self, k: Scalar) -> (r: Vector)
        ensures
            r == self.scaled_spec(k),
    {
        Vector {
            x: scalar_mul(self.x, k),
            y: scalar_mul(self.y, k),
            z: scalar_mul(self.z, k),
        }
    }
}

/// A vector on the input plane: `x` is the strafe axis and `y` the forward
/// axis.
#[derive(Clone, Copy, PartialEq, Eq, Debug, Structural)]
pub struct Vector2 {
    pub x: Scalar,
    pub y: Scalar,
}

impl Vector2 {
    pub open spec fn is_zero_spec(self) -> bool {
        self.x == 0 && self.y == 0
    }

    pub fn new(x: Scalar, y: Scalar) -> (r: Vector2)
        ensures
            r == (Vector2 { x, y }),
    {
        Vector2 { x, y }
    }

    /// Whether the vector has length zero.
    pub fn is_zero(self) -> (r: bool)
        ensures
            r == self.is_zero_spec(),
    {
        self.x == 0 && self.y == 0
    }
}

/// A direction in space, in millionths like a `Vector`. Its components are
/// narrow, so that the squares that compare two slopes are computed exactly.
/// Its length is free: only the direction counts where a slope is classified,
/// and a contact is pushed by the normal as it is given.
#[derive(Clone, Copy, PartialEq, Eq, Debug, Structural)]
pub struct Normal {
    pub x: i32,
    pub y: i32,
    pub z: i32,
}

/// `-c`, or `i32::MAX` where `-c` does not fit.
pub open spec fn reversed_component(c: i32) -> i32 {
    if c == i32::MIN {
        i32::MAX
    } else {
        (-c) as i32
    }
}

/// `v` as a component of a normal, or the nearest end of the range of `i32`
/// where `v` lies outside it.
pub open spec fn narrowed(v: int) -> i32 {
    if v > i32::MAX as int {
        i32::MAX
    } else if v < i32::MIN as int {
        i32::MIN
    } else {
        v as i32
    }
}

pub(crate) fn narrow(v: i128) -> (r: i32)
    ensures
        r == narrowed(v as int),
{
    if v > i32::MAX as i128 {
        i32::MAX
    } else if v < i32::MIN as i128 {
        i32::MIN
    } else {
        v as i32
    }
}

fn reverse_component(c: i32) -> (r: i32)
    ensures
        r == reversed_component(c),
{
    if c == i32::MIN {
        i32::MAX
    } else {
        -c
    }
}

impl Normal {
    /// The opposite direction.
    pub open spec fn reversed_spec(self) -> Normal {
        Normal {
            x: reversed_component(self.x),
            y: reversed_component(self.y),
            z: reversed_component(self.z),
        }
    }

    /// The same components as a `Vector`.
    pub open spec fn to_vector_spec(self) -> Vector {
        Vector { x: self.x as Scalar, y: self.y as Scalar, z: self.z as Scalar }
    }

    /// The square of the length, in millionths of a millionth.
    pub open spec fn length_squared(self) -> int {
        self.x * self.x + self.y * self.y + self.z * self.z
    }

    pub fn new(x: i32, y: i32, z: i32) -> (r: Normal)
        ensures
            r == (Normal { x, y, z }),
    {
        Normal { x, y, z }
    }

    /// The unit vector that points up.
    pub fn up() -> (r: Normal)
        ensures
            r == (Normal { x: 0, y: 1_000_000, z: 0 }),
    {
        Normal { x: 0, y: 1_000_000, z: 0 }
    }

    /// The unit vector that points down.
    pub fn down() -> (r: Normal)
        ensures
            r == (Normal { x: 0, y: (-1_000_000i32), z: 0 }),
    {
        Normal { x: 0, y: -1_000_000, z: 0 }
    }

    /// The opposite direction. A component of `i32::MIN` becomes `i32::MAX`.
    pub fn reversed(self) -> (r: Normal)
        ensures
            r == self.reversed_spec(),
    {
        Normal {
            x: reverse_component(self.x),
            y: reverse_component(self.y),
            z: reverse_component(self.z),
        }
    }

    /// The same components as a `Vector`.
    pub fn to_vector(self) -> (r: Vector)
        ensures
            r == self.to_vector_spec(),
    {
        Vector { x: self.x as i64, y: self.y as i64, z: self.z as i64 }
    }
}

} // verus!
