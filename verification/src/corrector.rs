//! Ground contact correction: a shift of the position that keeps a
//! grounded character at the wanted distance from the ground.

use vstd::prelude::*;
use crate::components::{AirSpeed, PlatformingCharacterPhysics, PlatformingCharacterValues};
use crate::fixed::{in_limit, lemma_mul_units, magnitude, mul_fixed, mul_units, UNIT};
use crate::vector::{vec3, Vec3};

verus! {

/// The distance from the wanted one that is left alone.
pub const CONTACT_EPSILON: i64 = 1;

/// How far along the surface normal a character has to move: the measured
/// distance less the wanted one, where the character is grounded, the probe
/// hit and the two differ by more than `CONTACT_EPSILON`; else nothing.
/// A positive offset pulls the character to the surface, a negative one
/// pushes it out.
pub open spec fn ground_offset(
    physics: PlatformingCharacterPhysics,
    values: PlatformingCharacterValues,
    ground_distance: Option<i64>,
) -> int {
    match (physics.air_speed, ground_distance) {
        (AirSpeed::Grounded { .. }, Some(distance)) => {
            let apart = distance - values.desired_distance_from_ground();
            if apart > CONTACT_EPSILON || apart < -CONTACT_EPSILON {
                apart
            } else {
                0
            }
        },
        _ => 0,
    }
}

/// The shift of the position: the offset along the surface normal.
pub open spec fn ground_correction(
    physics: PlatformingCharacterPhysics,
    values: PlatformingCharacterValues,
    ground_distance: Option<i64>,
    normal: Vec3,
) -> Vec3 {
    let offset = ground_offset(physics, values, ground_distance);
    vec3(
        mul_units(offset, normal.x as int),
        mul_units(offset, normal.y as int),
        mul_units(offset, normal.z as int),
    )
}

/// How far along the surface normal a character has to move to rest at the
/// wanted distance from the ground.
pub fn ground_cast_offset(
    physics: &PlatformingCharacterPhysics,
    values: &PlatformingCharacterValues,
    ground_distance: Option<i64>,
) -> (offset: i64)
    requires
        values.wf(),
        match ground_distance {
            Some(d) => in_limit(d as int),
            None => true,
        },
    ensures
        offset == ground_offset(*physics, *values, ground_distance),
        -3 * crate::fixed::LIMIT <= offset <= 3 * crate::fixed::LIMIT,
{
    match (&physics.air_speed, ground_distance) {
        (AirSpeed::Grounded { .. }, Some(distance)) => {
            let apart: i64 = distance - values.desired_distance();
            if apart > CONTACT_EPSILON || apart < -CONTACT_EPSILON {
                apart
            } else {
                0
            }
        },
        _ => 0,
    }
}

/// The shift that brings a grounded character back to the wanted distance
/// from the ground that the probe hit at `ground_distance`, along the unit
/// `normal` of the surface. A character in the air, a probe that hit
/// nothing and a distance within `CONTACT_EPSILON` of the wanted one give
/// no shift.
pub fn push_out_of_ground(
    physics: &PlatformingCharacterPhysics,
    values: &PlatformingCharacterValues,
    ground_distance: Option<i64>,
    normal: &Vec3,
) -> (shift: Vec3)
    requires
        values.wf(),
        normal.within(UNIT as int),
        match ground_distance {
            Some(d) => in_limit(d as int),
            None => true,
        },
    ensures
        shift == ground_correction(*physics, *values, ground_distance, *normal),
        shift.within(magnitude(ground_offset(*physics, *values, ground_distance))),
{
    let offset = ground_cast_offset(physics, values, ground_distance);
    Vec3 {
        x: mul_fixed(offset, normal.x),
        y: mul_fixed(offset, normal.y),
        z: mul_fixed(offset, normal.z),
    }
}

/// One correction is enough: a character that has moved by the offset is
/// within `CONTACT_EPSILON` of the wanted distance, no farther from it than
/// before, and is not moved again.
pub proof fn lemma_correction_settles(
    physics: PlatformingCharacterPhysics,
    values: PlatformingCharacterValues,
    distance: i64,
)
    requires
        physics.air_speed.is_grounded(),
        in_limit(distance as int),
        values.wf(),
    ensures
        ({
            let offset = ground_offset(physics, values, Some(distance));
            let wanted = values.desired_distance_from_ground();
            &&& magnitude(distance - offset - wanted) <= CONTACT_EPSILON
            &&& magnitude(distance - offset - wanted) <= magnitude(distance - wanted)
            &&& ground_offset(physics, values, Some((distance - offset) as i64)) == 0
        }),
{
}

/// A character that rests exactly at the wanted distance is not moved,
/// whatever the normal.
pub proof fn lemma_rest_needs_no_correction(
    physics: PlatformingCharacterPhysics,
    values: PlatformingCharacterValues,
    normal: Vec3,
)
    requires
        values.wf(),
    ensures
        ground_correction(
            physics,
            values,
            Some(values.desired_distance_from_ground() as i64),
            normal,
        ) == (Vec3 { x: 0, y: 0, z: 0 }),
{
    lemma_mul_units(0, normal.x as int);
    lemma_mul_units(0, normal.y as int);
    lemma_mul_units(0, normal.z as int);
}

} // verus!
