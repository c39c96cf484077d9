//! The collision resolver. Contacts do not push a kinematic body, so once per
//! physics substep each controller is moved out of the contacts that
//! penetrate it, and a fall onto a walkable surface is stopped.

use vstd::prelude::*;
use crate::character::CharacterController;
use crate::rotation::lemma_facing_has_a_length;
use crate::scalar::{in_range, quotient_towards_zero, Scalar, ONE};
use crate::slope::MaxSlopeAngle;
use crate::vector::{Normal, Vector};

verus! {

/// One point of a contact.
#[derive(Clone, Copy, PartialEq, Eq, Debug, Structural)]
pub struct ContactPoint {
    /// How deep the two shapes overlap at this point. Only a depth above
    /// zero is resolved.
    pub penetration: Scalar,
}

/// One of the two bodies of a contact, as far as the resolver cares.
#[derive(Clone, Copy, PartialEq, Eq, Debug, Structural)]
pub enum Participant {
    /// The collider or its body is gone.
    Missing,
    /// A body that is no character controller.
    Other,
    /// The character controller at this index.
    Controller(usize),
}

/// Which of the two bodies of a contact is the controller.
#[derive(Clone, Copy, PartialEq, Eq, Debug, Structural)]
pub enum Side {
    First,
    Second,
}

/// The contact points between two bodies that share one normal.
#[derive(PartialEq, Eq, Debug)]
pub struct ContactManifold {
    pub first: Participant,
    pub second: Participant,
    /// Whether the contact was found during the substep that is resolved.
    pub during_current_substep: bool,
    /// The direction along which the first body is pushed out of the second,
    /// in the frame of the controller that the contact is resolved for.
    pub normal: Normal,
    pub contacts: Vec<ContactPoint>,
}

impl Clone for ContactManifold {
    fn clone(&self) -> (r: ContactManifold)
        ensures
            r.first == self.first,
            r.second == self.second,
            r.during_current_substep == self.during_current_substep,
            r.normal == self.normal,
            r.contacts@ == self.contacts@,
    {
        let mut contacts: Vec<ContactPoint> = Vec::new();
        let mut i: usize = 0;
        while i < self.contacts.len()
            invariant
                i <= self.contacts@.len(),
                contacts@ == self.contacts@.subrange(0, i as int),
            decreases self.contacts.len() - i,
        {
            contacts.push(self.contacts[i]);
            i += 1;
        }
        ContactManifold {
            first: self.first,
            second: self.second,
            during_current_substep: self.during_current_substep,
            normal: self.normal,
            contacts,
        }
    }
}

/// The direction in which the controller on `side` is pushed: the manifold's
/// normal for the first body, its opposite for the second.
pub open spec fn oriented_normal(normal: Normal, side: Side) -> Normal {
    match side {
        Side::First => normal,
        Side::Second => normal.reversed_spec(),
    }
}

/// The direction in the world's frame in which the controller on `side` is
/// pushed: the oriented normal, turned by the body's rotation.
pub open spec fn world_normal(
    body: CharacterController,
    manifold: ContactManifold,
    side: Side,
) -> Normal {
    body.rotation.rotated_spec(oriented_normal(manifold.normal, side))
}

/// `position` after each contact with a depth above zero has pushed it along
/// `normal` by that depth, one contact after the other.
pub open spec fn pushed_out(position: Vector, normal: Vector, contacts: Seq<ContactPoint>) -> Vector
    decreases contacts.len(),
{
    if contacts.len() == 0 {
        position
    } else {
        let before = pushed_out(position, normal, contacts.drop_last());
        if contacts.last().penetration > 0 {
            before.plus_spec(normal.scaled_spec(contacts.last().penetration))
        } else {
            before
        }
    }
}

/// Whether a contact with this normal stops a fall: a slope limit is set,
/// the surface is walkable under it, and the body moves down.
pub open spec fn stops_fall(limit: Option<MaxSlopeAngle>, normal: Normal, velocity: Vector) -> bool {
    &&& limit matches Some(angle)
    &&& angle.admits_spec(normal)
    &&& velocity.y < 0
}

/// `velocity` after a contact with this normal: without its vertical part
/// where the contact stops a fall, unchanged otherwise.
pub open spec fn velocity_after_contact(
    limit: Option<MaxSlopeAngle>,
    normal: Normal,
    velocity: Vector,
) -> Vector {
    if stops_fall(limit, normal, velocity) {
        Vector { y: 0, ..velocity }
    } else {
        velocity
    }
}

/// The controller on `side` of `manifold` after the manifold was resolved.
pub open spec fn resolved_body(
    body: CharacterController,
    manifold: ContactManifold,
    side: Side,
) -> CharacterController {
    let normal = world_normal(body, manifold, side);
    CharacterController {
        position: pushed_out(body.position, normal.to_vector_spec(), manifold.contacts@),
        linear_velocity: velocity_after_contact(body.max_slope_angle, normal, body.linear_velocity),
        ..body
    }
}

/// Whether `participant` is a body that still exists.
pub open spec fn is_present(controllers: Seq<CharacterController>, participant: Participant) -> bool {
    match participant {
        Participant::Missing => false,
        Participant::Other => true,
        Participant::Controller(index) => index < controllers.len(),
    }
}

/// Whether `participant` is a character controller of kinematic kind.
pub open spec fn is_kinematic_controller(
    controllers: Seq<CharacterController>,
    participant: Participant,
) -> bool {
    &&& participant matches Participant::Controller(index)
    &&& index < controllers.len()
    &&& controllers[index as int].rigid_body is Kinematic
}

/// The controller that `manifold` is resolved for, and its side. There is one
/// when the contact belongs to the current substep, both bodies exist, and
/// exactly one of them is a kinematic character controller.
pub open spec fn acting(
    controllers: Seq<CharacterController>,
    manifold: ContactManifold,
) -> Option<(usize, Side)> {
    let first = is_kinematic_controller(controllers, manifold.first);
    let second = is_kinematic_controller(controllers, manifold.second);
    if !manifold.during_current_substep || !is_present(controllers, manifold.first) || !is_present(
        controllers,
        manifold.second,
    ) {
        None
    } else if first && !second {
        Some((manifold.first->Controller_0, Side::First))
    } else if second && !first {
        Some((manifold.second->Controller_0, Side::Second))
    } else {
        None
    }
}

/// The controllers after one manifold was resolved.
pub open spec fn after_manifold(
    controllers: Seq<CharacterController>,
    manifold: ContactManifold,
) -> Seq<CharacterController> {
    match acting(controllers, manifold) {
        Some((index, side)) => controllers.update(
            index as int,
            resolved_body(controllers[index as int], manifold, side),
        ),
        None => controllers,
    }
}

/// The controllers after all manifolds were resolved, in their order.
pub open spec fn after_collisions(
    controllers: Seq<CharacterController>,
    manifolds: Seq<ContactManifold>,
) -> Seq<CharacterController>
    decreases manifolds.len(),
{
    if manifolds.len() == 0 {
        controllers
    } else {
        after_manifold(after_collisions(controllers, manifolds.drop_last()), manifolds.last())
    }
}

fn is_present_in(controllers: &Vec<CharacterController>, participant: Participant) -> (r: bool)
    ensures
        r == is_present(controllers@, participant),
{
    match participant {
        Participant::Missing => false,
        Participant::Other => true,
        Participant::Controller(index) => index < controllers.len(),
    }
}

fn is_kinematic_controller_in(
    controllers: &Vec<CharacterController>,
    participant: Participant,
) -> (r: bool)
    ensures
        r == is_kinematic_controller(controllers@, participant),
{
    match participant {
        Participant::Controller(index) => index < controllers.len()
            && controllers[index].rigid_body.is_kinematic(),
        _ => false,
    }
}

/// Finds the controller that `manifold` is resolved for, and its side.
pub fn acting_side(controllers: &Vec<CharacterController>, manifold: &ContactManifold) -> (r:
    Option<(usize, Side)>)
    ensures
        r == acting(controllers@, *manifold),
        r matches Some((index, _)) ==> index < controllers@.len(),
{
    if !manifold.during_current_substep || !is_present_in(controllers, manifold.first)
        || !is_present_in(controllers, manifold.second) {
        return None;
    }
    let first = is_kinematic_controller_in(controllers, manifold.first);
    let second = is_kinematic_controller_in(controllers, manifold.second);
    if first && !second {
        match manifold.first {
            Participant::Controller(index) => Some((index, Side::First)),
            _ => None,
        }
    } else if second && !first {
        match manifold.second {
            Participant::Controller(index) => Some((index, Side::Second)),
            _ => None,
        }
    } else {
        None
    }
}

/// Resolves one manifold for the controller on `side` of it. The normal is
/// oriented for that side and turned into the world's frame by the body's
/// rotation. Every contact with a depth above zero pushes the body along it
/// by that depth. Then, where a slope limit is set, the surface is walkable and the
/// body falls, the vertical velocity becomes zero.
pub fn resolve_manifold(body: &mut CharacterController, manifold: &ContactManifold, side: Side)
    ensures
        *final(body) == resolved_body(*old(body), *manifold, side),
{
    let oriented = match side {
        Side::First => manifold.normal,
        Side::Second => manifold.normal.reversed(),
    };
    let normal = body.rotation.rotated(oriented);
    let direction = normal.to_vector();
    let ghost start = body.position;
    let mut i: usize = 0;
    while i < manifold.contacts.len()
        invariant
            i <= manifold.contacts@.len(),
            body.position == pushed_out(start, direction, manifold.contacts@.subrange(0, i as int)),
            *body == (CharacterController { position: body.position, ..*old(body) }),
        decreases manifold.contacts.len() - i,
    {
        let contact = manifold.contacts[i];
        proof {
            assert(manifold.contacts@.subrange(0, i + 1).drop_last() == manifold.contacts@.subrange(
                0,
                i as int,
            ));
        }
        if contact.penetration > 0 {
            body.position = body.position.plus(direction.scaled(contact.penetration));
        }
        i += 1;
    }
    proof {
        assert(manifold.contacts@.subrange(0, i as int) == manifold.contacts@);
    }
    let stops = match body.max_slope_angle {
        Some(angle) => angle.admits(normal) && body.linear_velocity.y < 0,
        None => false,
    };
    if stops {
        body.linear_velocity.y = 0;
    }
}

/// Resolves the contacts of one substep. A manifold is resolved when it
/// belongs to the current substep, both of its bodies exist, and exactly one
/// of them is a kinematic character controller; that controller is pushed out
/// and, on a walkable surface, stopped from falling. Every other manifold is
/// passed over.
pub fn kinematic_controller_collisions(
    controllers: &mut Vec<CharacterController>,
    manifolds: &Vec<ContactManifold>,
)
    ensures
        final(controllers)@ == after_collisions(old(controllers)@, manifolds@),
        final(controllers)@.len() == old(controllers)@.len(),
{
    let ghost initial = controllers@;
    let mut k: usize = 0;
    while k < manifolds.len()
        invariant
            k <= manifolds@.len(),
            controllers@ == after_collisions(initial, manifolds@.subrange(0, k as int)),
            controllers@.len() == initial.len(),
        decreases manifolds.len() - k,
    {
        let manifold = &manifolds[k];
        proof {
            assert(manifolds@.subrange(0, k + 1).drop_last() == manifolds@.subrange(0, k as int));
        }
        match acting_side(controllers, manifold) {
            Some((index, side)) => {
                let mut body = controllers[index];
                resolve_manifold(&mut body, manifold, side);
                controllers.set(index, body);
            },
            None => {},
        }
        k += 1;
    }
    proof {
        assert(manifolds@.subrange(0, k as int) == manifolds@);
    }
}

/// Resolving one manifold alone is resolving it for the controller that it
/// acts on.
pub proof fn lemma_one_manifold_alone(
    controllers: Seq<CharacterController>,
    manifold: ContactManifold,
)
    ensures
        after_collisions(controllers, seq![manifold]) == after_manifold(controllers, manifold),
{
    reveal_with_fuel(after_collisions, 2);
    assert(seq![manifold].drop_last().len() == 0);
    assert(seq![manifold].last() == manifold);
}

/// Resolution is exact. One contact of a depth above zero moves the body
/// along the normal, as it points in the world's frame, by that depth: each
/// coordinate grows by the product of the normal's component and the depth,
/// as long as neither the product nor the new coordinate leaves the range.
pub proof fn lemma_single_contact_is_exact(
    body: CharacterController,
    manifold: ContactManifold,
    side: Side,
)
    requires
        manifold.contacts@.len() == 1,
        manifold.contacts@[0].penetration > 0,
        ({
            let normal = world_normal(body, manifold, side);
            let depth = manifold.contacts@[0].penetration;
            &&& in_range(quotient_towards_zero(normal.x * depth, ONE as int))
            &&& in_range(quotient_towards_zero(normal.y * depth, ONE as int))
            &&& in_range(quotient_towards_zero(normal.z * depth, ONE as int))
            &&& in_range(body.position.x + quotient_towards_zero(normal.x * depth, ONE as int))
            &&& in_range(body.position.y + quotient_towards_zero(normal.y * depth, ONE as int))
            &&& in_range(body.position.z + quotient_towards_zero(normal.z * depth, ONE as int))
        }),
    ensures
        ({
            let normal = world_normal(body, manifold, side);
            let depth = manifold.contacts@[0].penetration;
            let after = resolved_body(body, manifold, side).position;
            &&& after.x == body.position.x + quotient_towards_zero(normal.x * depth, ONE as int)
            &&& after.y == body.position.y + quotient_towards_zero(normal.y * depth, ONE as int)
            &&& after.z == body.position.z + quotient_towards_zero(normal.z * depth, ONE as int)
        }),
{
    reveal_with_fuel(pushed_out, 2);
    assert(manifold.contacts@.drop_last().len() == 0);
    assert(manifold.contacts@.last() == manifold.contacts@[0]);
}

/// What the contacts with a depth above zero push along one axis, added up:
/// for each the product of the normal's component and the depth.
pub open spec fn total_push(normal_component: int, contacts: Seq<ContactPoint>) -> int
    decreases contacts.len(),
{
    if contacts.len() == 0 {
        0
    } else {
        let depth = contacts.last().penetration;
        total_push(normal_component, contacts.drop_last()) + if depth > 0 {
            quotient_towards_zero(normal_component * depth, ONE as int)
        } else {
            0
        }
    }
}

/// Whether no push along one axis leaves the range: neither the product of
/// a penetrating contact nor the coordinate that it leads to.
pub open spec fn pushes_fit(start: int, normal_component: int, contacts: Seq<ContactPoint>) -> bool
    decreases contacts.len(),
{
    if contacts.len() == 0 {
        true
    } else {
        let depth = contacts.last().penetration;
        &&& pushes_fit(start, normal_component, contacts.drop_last())
        &&& depth > 0 ==> in_range(quotient_towards_zero(normal_component * depth, ONE as int))
        &&& depth > 0 ==> in_range(start + total_push(normal_component, contacts))
    }
}

/// Every penetrating contact contributes its full correction: the body ends
/// where it was plus the sum of all pushes, as long as no push leaves the
/// range.
pub proof fn lemma_every_penetrating_contact_pushes(
    position: Vector,
    normal: Vector,
    contacts: Seq<ContactPoint>,
)
    requires
        pushes_fit(position.x as int, normal.x as int, contacts),
        pushes_fit(position.y as int, normal.y as int, contacts),
        pushes_fit(position.z as int, normal.z as int, contacts),
    ensures
        pushed_out(position, normal, contacts).x == position.x + total_push(
            normal.x as int,
            contacts,
        ),
        pushed_out(position, normal, contacts).y == position.y + total_push(
            normal.y as int,
            contacts,
        ),
        pushed_out(position, normal, contacts).z == position.z + total_push(
            normal.z as int,
            contacts,
        ),
    decreases contacts.len(),
{
    if contacts.len() > 0 {
        lemma_every_penetrating_contact_pushes(position, normal, contacts.drop_last());
    }
}

/// Contacts that do not penetrate leave the body where it is.
pub proof fn lemma_shallow_contacts_do_not_push(
    position: Vector,
    normal: Vector,
    contacts: Seq<ContactPoint>,
)
    requires
        forall|i: int| 0 <= i < contacts.len() ==> (#[trigger] contacts[i]).penetration <= 0,
    ensures
        pushed_out(position, normal, contacts) == position,
    decreases contacts.len(),
{
    if contacts.len() > 0 {
        lemma_shallow_contacts_do_not_push(position, normal, contacts.drop_last());
    }
}

/// A push along no direction leaves the body where it is.
pub proof fn lemma_push_without_direction(position: Vector, contacts: Seq<ContactPoint>)
    ensures
        pushed_out(position, Vector { x: 0, y: 0, z: 0 }, contacts) == position,
    decreases contacts.len(),
{
    if contacts.len() > 0 {
        lemma_push_without_direction(position, contacts.drop_last());
    }
}

/// A manifold whose normal has the length zero changes nothing: it has no
/// direction to push along and no slope to stop a fall.
pub proof fn lemma_manifold_without_direction_changes_nothing(
    body: CharacterController,
    manifold: ContactManifold,
    side: Side,
)
    requires
        manifold.normal == (Normal { x: 0, y: 0, z: 0 }),
    ensures
        resolved_body(body, manifold, side) == body,
{
    let length = body.rotation.length();
    if length != 0 {
        lemma_facing_has_a_length(body.rotation);
        assert(0int / length == 0) by (nonlinear_arith)
            requires
                length > 0,
        ;
    }
    assert(world_normal(body, manifold, side) == (Normal { x: 0, y: 0, z: 0 }));
    lemma_push_without_direction(body.position, manifold.contacts@);
}

/// A contact with a walkable surface stops a fall: the vertical velocity
/// becomes zero and the horizontal velocity stays.
pub proof fn lemma_walkable_contact_stops_fall(
    body: CharacterController,
    manifold: ContactManifold,
    side: Side,
)
    requires
        body.max_slope_angle matches Some(angle) && angle.admits_spec(
            world_normal(body, manifold, side),
        ),
        body.linear_velocity.y < 0,
    ensures
        resolved_body(body, manifold, side).linear_velocity == (Vector {
            y: 0,
            ..body.linear_velocity
        }),
{
}

/// A contact leaves the velocity as it is where the surface is too steep,
/// where no slope limit is set, and where the body does not fall.
pub proof fn lemma_other_contacts_keep_velocity(
    body: CharacterController,
    manifold: ContactManifold,
    side: Side,
)
    requires
        match body.max_slope_angle {
            Some(angle) => !angle.admits_spec(world_normal(body, manifold, side))
                || body.linear_velocity.y >= 0,
            None => true,
        },
    ensures
        resolved_body(body, manifold, side).linear_velocity == body.linear_velocity,
{
}

/// The resolver passes over a manifold that does not belong to the current
/// substep, one with a body that is gone, and one where neither body or both
/// bodies are kinematic character controllers.
pub proof fn lemma_unresolved_manifolds_change_nothing(
    controllers: Seq<CharacterController>,
    manifold: ContactManifold,
)
    requires
        !manifold.during_current_substep || !is_present(controllers, manifold.first)
            || !is_present(controllers, manifold.second) || is_kinematic_controller(
            controllers,
            manifold.first,
        ) == is_kinematic_controller(controllers, manifold.second),
    ensures
        after_manifold(controllers, manifold) == controllers,
{
}

/// A manifold changes at most the one controller that it is resolved for,
/// and of that controller only the position and the velocity.
pub proof fn lemma_manifold_changes_one_controller(
    controllers: Seq<CharacterController>,
    manifold: ContactManifold,
    j: int,
)
    requires
        0 <= j < controllers.len(),
    ensures
        after_manifold(controllers, manifold).len() == controllers.len(),
        !(acting(controllers, manifold) matches Some((index, _)) && index == j) ==> after_manifold(
            controllers,
            manifold,
        )[j] == controllers[j],
        after_manifold(controllers, manifold)[j] == (CharacterController {
            position: after_manifold(controllers, manifold)[j].position,
            linear_velocity: after_manifold(controllers, manifold)[j].linear_velocity,
            ..controllers[j]
        }),
{
}

} // verus!
