//! The character controller and what one tick does to it: the ground under
//! it is classified, gravity is added, the player's input is applied, and
//! the horizontal velocity is damped, in that order.

use vstd::prelude::*;
use crate::components::{
    CharacterControllerBundle, Collider, ControllerGravity, JumpImpulse, MovementAcceleration,
    MovementDampingFactor, RigidBody, ShapeCaster,
};
use crate::ground::{grounded_by, is_grounded, ShapeCastHit};
use crate::rotation::Yaw;
use crate::scalar::{
    difference_spec, product_spec, scalar_add, scalar_mul, scalar_sub, sum_spec, Scalar, HALF,
};
use crate::slope::MaxSlopeAngle;
use crate::vector::{Vector, Vector2};

verus! {

/// What the player asks for during one tick.
#[derive(Clone, Copy, PartialEq, Eq, Debug, Structural)]
pub struct PlayerInput {
    /// Whether the run action is held.
    pub run_pressed: bool,
    /// Where the player steers: `x` to the side, `y` forward.
    pub direction: Vector2,
    /// Whether the jump action was pressed during this tick.
    pub jump_just_pressed: bool,
}

/// A kinematic body with the parameters of its movement and the result of
/// the last ground classification.
#[derive(Clone, Copy, PartialEq, Eq, Debug)]
pub struct CharacterController {
    pub rigid_body: RigidBody,
    pub position: Vector,
    pub rotation: Yaw,
    pub linear_velocity: Vector,
    pub collider: Collider,
    pub ground_caster: ShapeCaster,
    pub gravity: ControllerGravity,
    pub acceleration: MovementAcceleration,
    pub damping: MovementDampingFactor,
    pub jump_impulse: JumpImpulse,
    /// Without a limit every surface that the probe hits is ground, and no
    /// contact stops a fall.
    pub max_slope_angle: Option<MaxSlopeAngle>,
    /// Whether the last classification found ground.
    pub grounded: bool,
}

impl CharacterController {
    /// A body at rest at `translation`, facing ahead, airborne until it is
    /// classified.
    pub open spec fn new_spec(
        bundle: CharacterControllerBundle,
        translation: Vector,
    ) -> CharacterController {
        CharacterController {
            rigid_body: bundle.rigid_body,
            position: translation,
            rotation: Yaw::identity_spec(),
            linear_velocity: Vector { x: 0, y: 0, z: 0 },
            collider: bundle.collider,
            ground_caster: bundle.ground_caster,
            gravity: bundle.gravity,
            acceleration: bundle.movement.acceleration,
            damping: bundle.movement.damping,
            jump_impulse: bundle.movement.jump_impulse,
            max_slope_angle: Some(bundle.movement.max_slope_angle),
            grounded: false,
        }
    }

    /// The controller after the ground under it was classified.
    pub open spec fn after_update_grounded(self, hits: Seq<ShapeCastHit>) -> CharacterController {
        CharacterController {
            grounded: grounded_by(hits, self.rotation, self.max_slope_angle),
            ..self
        }
    }

    /// The controller after gravity has acted for `delta_seconds`.
    pub open spec fn after_gravity(self, delta_seconds: Scalar) -> CharacterController {
        CharacterController {
            linear_velocity: self.linear_velocity.plus_spec(
                self.gravity.0.scaled_spec(delta_seconds),
            ),
            ..self
        }
    }

    /// The acceleration that steering has: all of it on the ground, half of
    /// it in the air.
    pub open spec fn steering_acceleration(self) -> Scalar {
        if self.grounded {
            self.acceleration.0
        } else {
            product_spec(self.acceleration.0, HALF)
        }
    }

    /// The controller after it was steered along `direction` for
    /// `delta_seconds`. Forward is the negative `z` axis.
    pub open spec fn after_run(self, direction: Vector2, delta_seconds: Scalar) -> CharacterController {
        let acceleration = self.steering_acceleration();
        CharacterController {
            rotation: if direction.is_zero_spec() {
                self.rotation
            } else {
                Yaw::facing_spec(direction)
            },
            linear_velocity: Vector {
                x: sum_spec(
                    self.linear_velocity.x,
                    product_spec(product_spec(direction.x, acceleration), delta_seconds),
                ),
                y: self.linear_velocity.y,
                z: difference_spec(
                    self.linear_velocity.z,
                    product_spec(product_spec(direction.y, acceleration), delta_seconds),
                ),
            },
            ..self
        }
    }

    /// The controller after a jump was asked for: on the ground the vertical
    /// velocity becomes the jump impulse, in the air nothing changes.
    pub open spec fn after_jump(self) -> CharacterController {
        if self.grounded {
            CharacterController {
                linear_velocity: Vector { y: self.jump_impulse.0, ..self.linear_velocity },
                ..self
            }
        } else {
            self
        }
    }

    /// The controller after the player's input was applied.
    pub open spec fn after_actions(self, input: PlayerInput, delta_seconds: Scalar) -> CharacterController {
        let moved = if input.run_pressed {
            self.after_run(input.direction, delta_seconds)
        } else {
            self
        };
        if input.jump_just_pressed {
            moved.after_jump()
        } else {
            moved
        }
    }

    /// The controller after its horizontal velocity was damped once.
    pub open spec fn after_damping(self) -> CharacterController {
        CharacterController {
            linear_velocity: Vector {
                x: product_spec(self.linear_velocity.x, self.damping.0),
                y: self.linear_velocity.y,
                z: product_spec(self.linear_velocity.z, self.damping.0),
            },
            ..self
        }
    }

    /// The controller after one tick: classification, gravity, input and
    /// damping, in that order.
    pub open spec fn after_tick(
        self,
        hits: Seq<ShapeCastHit>,
        input: PlayerInput,
        delta_seconds: Scalar,
    ) -> CharacterController {
        self.after_update_grounded(hits).after_gravity(delta_seconds).after_actions(
            input,
            delta_seconds,
        ).after_damping()
    }

    /// A body at rest at `translation`, facing ahead, airborne until it is
    /// classified.
    pub fn new(bundle: CharacterControllerBundle, translation: Vector) -> (r: CharacterController)
        ensures
            r == CharacterController::new_spec(bundle, translation),
    {
        CharacterController {
            rigid_body: bundle.rigid_body,
            position: translation,
            rotation: Yaw::identity(),
            linear_velocity: Vector::zero(),
            collider: bundle.collider,
            ground_caster: bundle.ground_caster,
            gravity: bundle.gravity,
            acceleration: bundle.movement.acceleration,
            damping: bundle.movement.damping,
            jump_impulse: bundle.movement.jump_impulse,
            max_slope_angle: Some(bundle.movement.max_slope_angle),
            grounded: false,
        }
    }

    /// Classifies the ground from what the ground probe hit. Each hit's
    /// normal is turned into the world's frame by the body's rotation; the
    /// body is grounded exactly when one of them is walkable.
    pub fn update_grounded(&mut self, hits: &Vec<ShapeCastHit>)
        ensures
            *final(self) == old(self).after_update_grounded(hits@),
            final(self).grounded == grounded_by(
                hits@,
                old(self).rotation,
                old(self).max_slope_angle,
            ),
            hits@.len() == 0 ==> !final(self).grounded,
    {
        self.grounded = is_grounded(hits, self.rotation, &self.max_slope_angle);
    }

    /// Adds the gravity of `delta_seconds` to the velocity, grounded or not.
    pub fn apply_gravity(&mut self, delta_seconds: Scalar)
        ensures
            *final(self) == old(self).after_gravity(delta_seconds),
            final(self).linear_velocity.y == sum_spec(
                old(self).linear_velocity.y,
                product_spec(old(self).gravity.0.y, delta_seconds),
            ),
    {
        self.linear_velocity = self.linear_velocity.plus(self.gravity.0.scaled(delta_seconds));
    }

    /// Applies the player's input. While run is held, the body turns to face
    /// a direction that is not zero and its horizontal velocity grows by
    /// direction times acceleration times `delta_seconds`, with half the
    /// acceleration in the air. A jump sets the vertical velocity to the jump
    /// impulse on the ground and does nothing in the air.
    pub fn player_actions(&mut self, input: &PlayerInput, delta_seconds: Scalar)
        ensures
            *final(self) == old(self).after_actions(*input, delta_seconds),
            input.jump_just_pressed && old(self).grounded ==> final(self).linear_velocity.y == old(
                self,
            ).jump_impulse.0,
            !(input.jump_just_pressed && old(self).grounded) ==> final(self).linear_velocity.y
                == old(self).linear_velocity.y,
            !input.run_pressed || input.direction.is_zero_spec() ==> final(self).rotation == old(
                self,
            ).rotation,
    {
        if input.run_pressed {
            let direction = input.direction;
            if !direction.is_zero() {
                self.rotation = Yaw::facing(direction);
            }
            let acceleration = if self.grounded {
                self.acceleration.0
            } else {
                scalar_mul(self.acceleration.0, HALF)
            };
            self.linear_velocity.x = scalar_add(
                self.linear_velocity.x,
                scalar_mul(scalar_mul(direction.x, acceleration), delta_seconds),
            );
            self.linear_velocity.z = scalar_sub(
                self.linear_velocity.z,
                scalar_mul(scalar_mul(direction.y, acceleration), delta_seconds),
            );
        }
        if input.jump_just_pressed {
            if self.grounded {
                self.linear_velocity.y = self.jump_impulse.0;
            }
        }
    }

    /// Multiplies the two horizontal components of the velocity by the
    /// damping factor. The vertical component stays.
    pub fn apply_movement_damping(&mut self)
        ensures
            *final(self) == old(self).after_damping(),
    {
        self.linear_velocity.x = scalar_mul(self.linear_velocity.x, self.damping.0);
        self.linear_velocity.z = scalar_mul(self.linear_velocity.z, self.damping.0);
    }

    /// Runs one tick: classification, gravity, input and damping, in that
    /// order. So a jump counts when the probe of this same tick finds ground,
    /// and it replaces what gravity has just added. Moving the body by its
    /// velocity is left to the caller.
    pub fn tick(&mut self, hits: &Vec<ShapeCastHit>, input: &PlayerInput, delta_seconds: Scalar)
        ensures
            *final(self) == old(self).after_tick(hits@, *input, delta_seconds),
            final(self).grounded == grounded_by(
                hits@,
                old(self).rotation,
                old(self).max_slope_angle,
            ),
            final(self).linear_velocity.y == if input.jump_just_pressed && final(self).grounded {
                old(self).jump_impulse.0
            } else {
                sum_spec(
                    old(self).linear_velocity.y,
                    product_spec(old(self).gravity.0.y, delta_seconds),
                )
            },
            final(self).position == old(self).position,
    {
        self.update_grounded(hits);
        self.apply_gravity(delta_seconds);
        self.player_actions(input, delta_seconds);
        self.apply_movement_damping();
    }
}

/// Where the player's character starts: ten above the origin.
pub open spec fn starting_translation() -> Vector {
    Vector { x: 0, y: 10_000_000, z: 0 }
}

/// The player's character as it is spawned: a capsule of height 1.25 and
/// radius 0.2 under twice the gravity of the earth, which accelerates by 30,
/// keeps 0.92 of its horizontal velocity each tick, jumps with 7, and walks
/// on slopes of up to 30 degrees.
pub open spec fn spawned_character() -> CharacterController {
    CharacterController::new_spec(
        CharacterControllerBundle::new_spec(
            Collider { height: 1_250_000, radius: 200_000 },
            Vector { x: 0, y: (-19_620_000i64), z: 0 },
        ).with_movement_spec(30_000_000, 920_000, 7_000_000, 866_025),
        starting_translation(),
    )
}

/// Makes the player's character.
pub fn spawn_character() -> (r: CharacterController)
    ensures
        r == spawned_character(),
{
    let bundle = CharacterControllerBundle::new(
        Collider::capsule(1_250_000, 200_000),
        Vector::new(0, -19_620_000, 0),
    ).with_movement(30_000_000, 920_000, 7_000_000, 866_025);
    CharacterController::new(bundle, Vector::new(0, 10_000_000, 0))
}

} // verus!
