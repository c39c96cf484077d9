//! What a character controller is made of: the kind of its rigid body, its
//! collider, the probe that looks for ground below it, and the parameters of
//! its movement.

use vstd::prelude::*;
use crate::rotation::Yaw;
use crate::scalar::{product_spec, scalar_mul, Scalar};
use crate::slope::MaxSlopeAngle;
use crate::vector::{Normal, Vector};

verus! {

/// The factor by which the ground probe's shape is smaller than the collider.
pub const CASTER_SCALE: Scalar = 990_000;

/// How far down the ground probe reaches, as a time of impact.
pub const CASTER_MAX_TIME_OF_IMPACT: Scalar = 200_000;

/// How a rigid body is moved.
#[derive(Clone, Copy, PartialEq, Eq, Debug, Structural)]
pub enum RigidBody {
    /// Moved by forces and contacts.
    Dynamic,
    /// Never moved.
    Static,
    /// Moved by the velocity and position that its owner sets; contacts do
    /// not push it.
    Kinematic,
}

impl RigidBody {
    pub fn is_kinematic(&self) -> (r: bool)
        ensures
            r == (*self is Kinematic),
    {
        match self {
            RigidBody::Kinematic => true,
            _ => false,
        }
    }
}

/// A capsule that stands upright.
#[derive(Clone, Copy, PartialEq, Eq, Debug, Structural)]
pub struct Collider {
    pub height: Scalar,
    pub radius: Scalar,
}

impl Collider {
    /// The capsule with both measures multiplied by `factor`.
    pub open spec fn scaled_spec(self, factor: Scalar) -> Collider {
        Collider {
            height: product_spec(self.height, factor),
            radius: product_spec(self.radius, factor),
        }
    }

    pub fn capsule(height: Scalar, radius: Scalar) -> (r: Collider)
        ensures
            r == (Collider { height, radius }),
    {
        Collider { height, radius }
    }

    /// The capsule with both measures multiplied by `factor`.
    pub fn scaled(self, factor: Scalar) -> (r: Collider)
        ensures
            r == self.scaled_spec(factor),
    {
        Collider {
            height: scalar_mul(self.height, factor),
            radius: scalar_mul(self.radius, factor),
        }
    }
}

/// A shape that is swept from a body along a direction, up to a time of
/// impact, and reports the surfaces it meets.
#[derive(Clone, Copy, PartialEq, Eq, Debug, Structural)]
pub struct ShapeCaster {
    pub shape: Collider,
    pub origin: Vector,
    pub rotation: Yaw,
    pub direction: Normal,
    pub max_time_of_impact: Scalar,
}

/// The acceleration used for character movement.
#[derive(Clone, Copy, PartialEq, Eq, Debug, Structural)]
pub struct MovementAcceleration(pub Scalar);

/// The factor that the horizontal velocity is multiplied by each tick.
#[derive(Clone, Copy, PartialEq, Eq, Debug, Structural)]
pub struct MovementDampingFactor(pub Scalar);

/// The vertical velocity that a jump sets.
#[derive(Clone, Copy, PartialEq, Eq, Debug, Structural)]
pub struct JumpImpulse(pub Scalar);

/// The gravitational acceleration of one character controller.
#[derive(Clone, Copy, PartialEq, Eq, Debug, Structural)]
pub struct ControllerGravity(pub Vector);

/// The parameters of a character's movement.
#[derive(Clone, Copy, PartialEq, Eq, Debug, Structural)]
pub struct MovementBundle {
    pub acceleration: MovementAcceleration,
    pub damping: MovementDampingFactor,
    pub jump_impulse: JumpImpulse,
    pub max_slope_angle: MaxSlopeAngle,
}

impl MovementBundle {
    pub open spec fn new_spec(
        acceleration: Scalar,
        damping: Scalar,
        jump_impulse: Scalar,
        max_slope_cosine: Scalar,
    ) -> MovementBundle {
        MovementBundle {
            acceleration: MovementAcceleration(acceleration),
            damping: MovementDampingFactor(damping),
            jump_impulse: JumpImpulse(jump_impulse),
            max_slope_angle: MaxSlopeAngle(max_slope_cosine),
        }
    }

    /// The parameters of a character that accelerates by 30, keeps nine
    /// tenths of its horizontal velocity each tick, jumps with 7, and walks
    /// on slopes of up to 81 degrees.
    pub open spec fn default_spec() -> MovementBundle {
        MovementBundle::new_spec(30_000_000, 900_000, 7_000_000, 156_434)
    }

    /// The slope limit is given by the cosine of its angle.
    pub fn new(
        acceleration: Scalar,
        damping: Scalar,
        jump_impulse: Scalar,
        max_slope_cosine: Scalar,
    ) -> (r: MovementBundle)
        ensures
            r == MovementBundle::new_spec(acceleration, damping, jump_impulse, max_slope_cosine),
    {
        MovementBundle {
            acceleration: MovementAcceleration(acceleration),
            damping: MovementDampingFactor(damping),
            jump_impulse: JumpImpulse(jump_impulse),
            max_slope_angle: MaxSlopeAngle(max_slope_cosine),
        }
    }
}

impl Default for MovementBundle {
    fn default() -> (r: MovementBundle)
        ensures
            r == MovementBundle::default_spec(),
    {
        MovementBundle::new(30_000_000, 900_000, 7_000_000, 156_434)
    }
}

/// The parts of a basic kinematic character controller.
#[derive(Clone, Copy, PartialEq, Eq, Debug, Structural)]
pub struct CharacterControllerBundle {
    pub rigid_body: RigidBody,
    pub collider: Collider,
    pub ground_caster: ShapeCaster,
    pub gravity: ControllerGravity,
    pub movement: MovementBundle,
}

impl CharacterControllerBundle {
    /// The probe that looks for ground under `collider`: the same shape,
    /// slightly smaller, cast straight down over a short distance.
    pub open spec fn ground_caster_spec(collider: Collider) -> ShapeCaster {
        ShapeCaster {
            shape: collider.scaled_spec(CASTER_SCALE),
            origin: Vector { x: 0, y: 0, z: 0 },
            rotation: Yaw::identity_spec(),
            direction: Normal { x: 0, y: (-1_000_000i32), z: 0 },
            max_time_of_impact: CASTER_MAX_TIME_OF_IMPACT,
        }
    }

    pub open spec fn new_spec(collider: Collider, gravity: Vector) -> CharacterControllerBundle {
        CharacterControllerBundle {
            rigid_body: RigidBody::Kinematic,
            collider,
            ground_caster: CharacterControllerBundle::ground_caster_spec(collider),
            gravity: ControllerGravity(gravity),
            movement: MovementBundle::default_spec(),
        }
    }

    /// The same bundle with other movement parameters.
    pub open spec fn with_movement_spec(
        self,
        acceleration: Scalar,
        damping: Scalar,
        jump_impulse: Scalar,
        max_slope_cosine: Scalar,
    ) -> CharacterControllerBundle {
        CharacterControllerBundle {
            movement: MovementBundle::new_spec(
                acceleration,
                damping,
                jump_impulse,
                max_slope_cosine,
            ),
            ..self
        }
    }

    /// A kinematic controller with the given collider and gravity, a ground
    /// probe made from the collider, and the default movement.
    pub fn new(collider: Collider, gravity: Vector) -> (r: CharacterControllerBundle)
        ensures
            r == CharacterControllerBundle::new_spec(collider, gravity),
    {
        let caster_shape = collider.scaled(CASTER_SCALE);
        CharacterControllerBundle {
            rigid_body: RigidBody::Kinematic,
            collider,
            ground_caster: ShapeCaster {
                shape: caster_shape,
                origin: Vector::zero(),
                rotation: Yaw::identity(),
                direction: Normal::down(),
                max_time_of_impact: CASTER_MAX_TIME_OF_IMPACT,
            },
            gravity: ControllerGravity(gravity),
            movement: MovementBundle::default(),
        }
    }

    /// The same bundle with other movement parameters.
    pub fn with_movement(
        self,
        acceleration: Scalar,
        damping: Scalar,
        jump_impulse: Scalar,
        max_slope_cosine: Scalar,
    ) -> (r: CharacterControllerBundle)
        ensures
            r == self.with_movement_spec(acceleration, damping, jump_impulse, max_slope_cosine),
    {
        let mut bundle = self;
        bundle.movement = MovementBundle::new(acceleration, damping, jump_impulse, max_slope_cosine);
        bundle
    }
}

} // verus!
