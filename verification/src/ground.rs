//! The ground classifier: whether what the ground probe hit can carry the
//! body.

use vstd::prelude::*;
use crate::rotation::Yaw;
use crate::scalar::Scalar;
use crate::slope::{is_walkable, walkable, MaxSlopeAngle};
use crate::vector::Normal;

verus! {

/// One surface that the ground probe met.
#[derive(Clone, Copy, PartialEq, Eq, Debug, Structural)]
pub struct ShapeCastHit {
    /// The surface normal in the frame of the body that cast the probe.
    pub normal: Normal,
    /// How far along the cast the surface was met.
    pub time_of_impact: Scalar,
}

/// A body with the facing `rotation` is grounded when at least one hit has a
/// normal that, turned into the world's frame, is walkable under the limit.
pub open spec fn grounded_by(
    hits: Seq<ShapeCastHit>,
    rotation: Yaw,
    limit: Option<MaxSlopeAngle>,
) -> bool {
    exists|i: int|
        0 <= i < hits.len() && walkable(limit, rotation.rotated_spec((#[trigger] hits[i]).normal))
}

/// Whether the hits of a ground probe carry the body.
pub fn is_grounded(hits: &Vec<ShapeCastHit>, rotation: Yaw, limit: &Option<MaxSlopeAngle>) -> (r:
    bool)
    ensures
        r == grounded_by(hits@, rotation, *limit),
{
    let mut i: usize = 0;
    while i < hits.len()
        invariant
            i <= hits.len(),
            forall|j: int|
                0 <= j < i ==> !walkable(*limit, rotation.rotated_spec((#[trigger] hits@[j]).normal)),
        decreases hits.len() - i,
    {
        if is_walkable(limit, rotation.rotated(hits[i].normal)) {
            return true;
        }
        i += 1;
    }
    false
}

/// A probe that hit nothing leaves the body airborne.
pub proof fn lemma_no_hit_is_airborne(
    hits: Seq<ShapeCastHit>,
    rotation: Yaw,
    limit: Option<MaxSlopeAngle>,
)
    requires
        hits.len() == 0,
    ensures
        !grounded_by(hits, rotation, limit),
{
}

/// One hit with a walkable normal grounds the body, whatever the hit's
/// distance and whatever the other hits are.
pub proof fn lemma_walkable_hit_grounds(
    hits: Seq<ShapeCastHit>,
    i: int,
    rotation: Yaw,
    limit: Option<MaxSlopeAngle>,
)
    requires
        0 <= i < hits.len(),
        walkable(limit, rotation.rotated_spec(hits[i].normal)),
    ensures
        grounded_by(hits, rotation, limit),
{
}

/// Hits whose normals are all too steep leave the body airborne.
pub proof fn lemma_steep_hits_are_airborne(
    hits: Seq<ShapeCastHit>,
    rotation: Yaw,
    limit: Option<MaxSlopeAngle>,
)
    requires
        forall|i: int|
            0 <= i < hits.len() ==> !walkable(
                limit,
                rotation.rotated_spec((#[trigger] hits[i]).normal),
            ),
    ensures
        !grounded_by(hits, rotation, limit),
{
}

} // verus!
