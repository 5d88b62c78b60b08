//! Terrain following: from ground speed and air speed to a velocity in
//! space that keeps to slopes and walls, and the passage between standing
//! and flying that the terrain decides.
//!
//! The host looks at the world between the steps: each step takes what a
//! ray or a swept sphere found as a plain value. The whole pass in one call
//! is `update_platforming_kinematic_from_physics`.

use vstd::prelude::*;
use crate::components::{AirSpeed, PlatformingCharacterPhysics, PlatformingCharacterValues};
use crate::fixed::{
    fits_limit, in_limit, lemma_scale_toward_zero, magnitude, LIMIT, REACH, UNIT,
};
use crate::vector::{
    lemma_dot_within_lengths, lemma_stored_length, lemma_unit_scale, vec2, Quat, Vec2, Vec3,
};

verus! {

/// How far beyond the wanted distance the ground probe reaches.
pub const GROUND_CAST_OVERSHOOT: i64 = 100;

/// The share of the speed into a wall that the wall takes: one part in
/// this many.
pub const WALL_ABSORPTION_DIVISOR: u64 = 5;

/// What the two slope rays found, where both hit: the distances, and the
/// angle and the rotation from the level movement direction to the slope
/// between the two contacts.
#[derive(Clone, Copy, Debug, PartialEq, Eq, Structural)]
pub struct SlopeReading {
    pub front_distance: i64,
    pub back_distance: i64,
    pub angle: i64,
    pub rotation: Quat,
}

/// What the host's spatial queries found in one terrain pass.
#[derive(Clone, Copy, Debug, PartialEq, Eq, Structural)]
pub struct TerrainReadings {
    /// Normal of the surface that a ray along the velocity hit.
    pub wall_ahead: Option<Vec3>,
    /// The stored wall collision normal, turned into the ground plane;
    /// zero where that cannot be done.
    pub wall_normal_2d: Vec2,
    /// The slope under the character, where both slope rays hit.
    pub slope: Option<SlopeReading>,
    /// How far the ground probe travelled before it hit, if it did.
    pub ground_distance: Option<i64>,
    /// The movement direction in space, at most one unit long.
    pub direction: Vec3,
    /// The velocity that the character had before this pass.
    pub outgoing_velocity: Vec3,
}

impl SlopeReading {
    /// The stored numbers can be computed with.
    pub open spec fn wf(self) -> bool {
        &&& in_limit(self.front_distance as int)
        &&& in_limit(self.back_distance as int)
        &&& in_limit(self.angle as int)
    }

    /// Whether the stored numbers can be computed with.
    pub fn is_valid(&self) -> (r: bool)
        ensures
            r == self.wf(),
    {
        fits_limit(self.front_distance) && fits_limit(self.back_distance) && fits_limit(
            self.angle,
        )
    }
}

impl TerrainReadings {
    /// The stored numbers can be computed with, and the direction is at
    /// most one unit along each axis.
    pub open spec fn wf(self) -> bool {
        &&& match self.wall_ahead {
            Some(n) => n.wf(),
            None => true,
        }
        &&& self.wall_normal_2d.wf()
        &&& match self.slope {
            Some(s) => s.wf(),
            None => true,
        }
        &&& self.direction.within(UNIT as int)
        &&& self.outgoing_velocity.wf()
    }

    /// Whether the stored numbers can be computed with and the direction
    /// is at most one unit along each axis.
    pub fn is_valid(&self) -> (r: bool)
        ensures
            r == self.wf(),
    {
        let wall = match self.wall_ahead {
            Some(n) => n.fits(LIMIT),
            None => true,
        };
        let slope = match self.slope {
            Some(s) => s.is_valid(),
            None => true,
        };
        wall && self.wall_normal_2d.fits(LIMIT) && slope && self.direction.fits(UNIT)
            && self.outgoing_velocity.fits(LIMIT)
    }
}

/// The state with the ground direction turned along a ground speed of more
/// than one unit; a slower speed leaves the direction as it was.
pub open spec fn faced(physics: PlatformingCharacterPhysics) -> PlatformingCharacterPhysics {
    if physics.ground_speed.norm_sq() > UNIT * UNIT {
        PlatformingCharacterPhysics {
            ground_direction: physics.ground_speed.normalized(),
            ..physics
        }
    } else {
        physics
    }
}

/// The state after a look along the velocity from a steep surface.
///
/// Only a character standing on a steep surface with something ahead is
/// changed. One that runs on a wall leaves it for the ceiling or the
/// floor, whichever the surface ahead faces. One that does not takes the
/// level direction into the surface as its ground and runs on the wall, or
/// falls back to the ground below where the surface has no level
/// direction.
pub open spec fn turned_toward_wall(
    physics: PlatformingCharacterPhysics,
    wall_ahead: Option<Vec3>,
) -> PlatformingCharacterPhysics {
    match wall_ahead {
        Some(normal) => if !physics.air_speed.is_steep() {
            physics
        } else if physics.wall_running {
            PlatformingCharacterPhysics {
                ground_cast_direction: Vec3 {
                    x: 0,
                    y: if normal.y < 0 { UNIT } else { (-UNIT) as i64 },
                    z: 0,
                },
                wall_running: false,
                ..physics
            }
        } else if normal.x == 0 && normal.z == 0 {
            PlatformingCharacterPhysics {
                ground_cast_direction: Vec3::down(),
                wall_running: false,
                ..physics
            }
        } else {
            let level = vec2(-normal.x, -normal.z).normalized();
            PlatformingCharacterPhysics {
                ground_cast_direction: Vec3 { x: level.x, y: 0, z: level.y },
                wall_running: true,
                ..physics
            }
        },
        None => physics,
    }
}

/// A ground speed after a wall has taken its share: the speed loses one
/// fifth of the part of it that runs along `normal`, and keeps its
/// direction. A zero normal or a zero speed changes nothing.
pub open spec fn absorbed_speed(speed: Vec2, normal: Vec2) -> Vec2 {
    if normal == Vec2::zero() || speed == Vec2::zero() {
        speed
    } else {
        let whole = WALL_ABSORPTION_DIVISOR * normal.length_up() * speed.length_up();
        speed.scaled(whole - magnitude(speed.dot(normal)), whole)
    }
}

/// The state after the stored wall collision has been used: the speed is
/// damped where a collision was stored, and nothing is stored any more.
pub open spec fn absorbed(
    physics: PlatformingCharacterPhysics,
    wall_normal_2d: Vec2,
) -> PlatformingCharacterPhysics {
    PlatformingCharacterPhysics {
        ground_speed: match physics.wall_collision_normal {
            Some(_) => absorbed_speed(physics.ground_speed, wall_normal_2d),
            None => physics.ground_speed,
        },
        wall_collision_normal: None,
        ..physics
    }
}

/// The state with the measured slope written into a grounded character.
pub open spec fn sloped(
    physics: PlatformingCharacterPhysics,
    slope: Option<SlopeReading>,
) -> PlatformingCharacterPhysics {
    match (slope, physics.air_speed) {
        (Some(reading), AirSpeed::Grounded { .. }) => PlatformingCharacterPhysics {
            air_speed: AirSpeed::Grounded { angle: reading.angle, slope_quat: reading.rotation },
            ..physics
        },
        _ => physics,
    }
}

/// How far the obstacle probe is swept.
pub open spec fn obstacle_reach(values: PlatformingCharacterValues) -> int {
    values.cushion_radius - values.obstacle_detection_radius
}

/// How far before and behind the character the slope rays start: close in
/// near an obstacle, so that the wall counts for more than the slope, and
/// at the cushion radius otherwise.
pub open spec fn slope_spacing(values: PlatformingCharacterValues, near_obstacle: bool) -> int {
    if near_obstacle {
        values.obstacle_detection_radius as int
    } else {
        values.cushion_radius as int
    }
}

/// How far the ground probe is swept: to the farther of the two slope
/// contacts, or to the wanted distance where no slope was measured, and
/// the overshoot beyond.
pub open spec fn ground_probe_reach(
    values: PlatformingCharacterValues,
    slope: Option<SlopeReading>,
) -> int {
    GROUND_CAST_OVERSHOOT + match slope {
        Some(reading) => if reading.front_distance >= reading.back_distance {
            reading.front_distance as int
        } else {
            reading.back_distance as int
        },
        None => values.desired_distance_from_ground(),
    }
}

/// A character in the air lands on ground that the probe found: it must
/// not be rising, and the ground must be no farther than wanted.
pub open spec fn lands(
    physics: PlatformingCharacterPhysics,
    values: PlatformingCharacterValues,
    ground_distance: Option<i64>,
) -> bool {
    match (physics.air_speed, ground_distance) {
        (AirSpeed::InAir(air_speed), Some(distance)) => air_speed <= 0 && distance
            <= values.desired_distance_from_ground(),
        _ => false,
    }
}

/// The state after the ground probe.
///
/// A character that lands stands on level ground. A grounded character
/// under which the probe found nothing is in the air: it keeps the
/// velocity it had, the vertical part as air speed and the level part as
/// ground speed, runs on no wall and has the ground below it. Every other
/// state stays.
pub open spec fn settled(
    physics: PlatformingCharacterPhysics,
    values: PlatformingCharacterValues,
    ground_distance: Option<i64>,
    outgoing_velocity: Vec3,
) -> PlatformingCharacterPhysics {
    if lands(physics, values, ground_distance) {
        PlatformingCharacterPhysics { air_speed: AirSpeed::landed(), ..physics }
    } else if ground_distance is None && physics.air_speed.is_grounded() {
        PlatformingCharacterPhysics {
            air_speed: AirSpeed::InAir(outgoing_velocity.y),
            ground_speed: Vec2 { x: outgoing_velocity.x, y: outgoing_velocity.z },
            wall_running: false,
            ground_cast_direction: Vec3::down(),
            ..physics
        }
    } else {
        physics
    }
}

/// The state with the ground below a character that is in the air.
pub open spec fn released(physics: PlatformingCharacterPhysics) -> PlatformingCharacterPhysics {
    if physics.air_speed.is_grounded() {
        physics
    } else {
        PlatformingCharacterPhysics { ground_cast_direction: Vec3::down(), ..physics }
    }
}

/// The velocity in space: `speed` along `direction`, and in the air the
/// air speed in place of the vertical part.
pub open spec fn velocity_of(direction: Vec3, speed: int, air_speed: AirSpeed) -> Vec3 {
    let along = direction.scaled(speed, UNIT as int);
    match air_speed {
        AirSpeed::Grounded { .. } => along,
        AirSpeed::InAir(vertical) => Vec3 { x: along.x, y: vertical, z: along.z },
    }
}

/// The state before the ground probe of a whole terrain pass.
pub open spec fn approached(
    physics: PlatformingCharacterPhysics,
    readings: TerrainReadings,
) -> PlatformingCharacterPhysics {
    sloped(
        absorbed(turned_toward_wall(faced(physics), readings.wall_ahead), readings.wall_normal_2d),
        readings.slope,
    )
}

/// The state after a whole terrain pass.
pub open spec fn followed(
    physics: PlatformingCharacterPhysics,
    values: PlatformingCharacterValues,
    readings: TerrainReadings,
) -> PlatformingCharacterPhysics {
    released(
        settled(
            approached(physics, readings),
            values,
            readings.ground_distance,
            readings.outgoing_velocity,
        ),
    )
}

/// The velocity that a whole terrain pass hands to the host: the ground
/// speed as it was before the ground probe, along the direction, with the
/// air speed as it is after.
pub open spec fn followed_velocity(
    physics: PlatformingCharacterPhysics,
    values: PlatformingCharacterValues,
    readings: TerrainReadings,
) -> Vec3 {
    velocity_of(
        readings.direction,
        approached(physics, readings).ground_speed.length(),
        followed(physics, values, readings).air_speed,
    )
}

/// A wall lengthens no component of the ground speed and turns none
/// round.
pub proof fn lemma_absorbed_speed(speed: Vec2, normal: Vec2)
    requires
        speed.wf(),
        normal.wf(),
    ensures
        absorbed_speed(speed, normal).shrinks(speed),
        absorbed_speed(speed, normal).wf(),
        0 <= magnitude(speed.dot(normal)) <= normal.length_up() * speed.length_up(),
        0 <= WALL_ABSORPTION_DIVISOR * normal.length_up() * speed.length_up()
            <= WALL_ABSORPTION_DIVISOR * REACH * REACH,
        normal != Vec2::zero() && speed != Vec2::zero() ==> 0 < normal.length_up()
            * speed.length_up(),
{
    lemma_stored_length(speed);
    lemma_stored_length(normal);
    lemma_dot_within_lengths(speed, normal);
    let p = normal.length_up();
    let q = speed.length_up();
    assert(p * q == q * p) by (nonlinear_arith);
    assert(0 <= p * q <= REACH * REACH) by (nonlinear_arith)
        requires
            0 <= p <= REACH,
            0 <= q <= REACH,
    ;
    assert(WALL_ABSORPTION_DIVISOR * p * q == 5 * (p * q)) by (nonlinear_arith);
    assert(WALL_ABSORPTION_DIVISOR * REACH * REACH == 5 * (REACH * REACH)) by (nonlinear_arith);
    if normal != Vec2::zero() && speed != Vec2::zero() {
        crate::vector::lemma_norm_sq_zero(speed.x as int, speed.y as int);
        crate::vector::lemma_norm_sq_zero(normal.x as int, normal.y as int);
        crate::fixed::lemma_ceil_sqrt_bounds(speed.norm_sq() as nat);
        crate::fixed::lemma_ceil_sqrt_bounds(normal.norm_sq() as nat);
        assert(0 < p * q) by (nonlinear_arith)
            requires
                0 < p,
                0 < q,
        ;
        let whole = 5 * (p * q);
        let kept = whole - magnitude(speed.dot(normal));
        lemma_scale_toward_zero(speed.x as int, kept, whole);
        lemma_scale_toward_zero(speed.y as int, kept, whole);
    }
}

/// Turns the ground direction along a ground speed of more than one unit.
pub fn face_ground_speed(physics: &mut PlatformingCharacterPhysics)
    requires
        old(physics).wf(),
    ensures
        *final(physics) == faced(*old(physics)),
        final(physics).wf(),
{
    let n = physics.ground_speed.squared_length();
    if n > (UNIT * UNIT) as u64 {
        physics.ground_direction = physics.ground_speed.normalize_or_zero();
    }
}

/// Takes the surface that a ray along the velocity hit as the new ground,
/// where the character stands on a steep surface.
pub fn turn_toward_wall(physics: &mut PlatformingCharacterPhysics, wall_ahead: Option<Vec3>)
    requires
        old(physics).wf(),
        match wall_ahead {
            Some(n) => n.wf(),
            None => true,
        },
    ensures
        *final(physics) == turned_toward_wall(*old(physics), wall_ahead),
        final(physics).wf(),
{
    if !physics.air_speed.steep() {
        return ;
    }
    if let Some(normal) = wall_ahead {
        if physics.wall_running {
            physics.ground_cast_direction =
            if normal.y < 0 {
                Vec3::new_up()
            } else {
                Vec3::new_down()
            };
            physics.wall_running = false;
        } else if normal.x == 0 && normal.z == 0 {
            physics.ground_cast_direction = Vec3::new_down();
            physics.wall_running = false;
        } else {
            let level = Vec2 { x: -normal.x, y: -normal.z }.normalize_or_zero();
            proof {
                crate::vector::lemma_norm_sq_zero(-normal.x as int, -normal.z as int);
            }
            physics.ground_cast_direction = Vec3::new_level(&level);
            physics.wall_running = true;
        }
    }
}

/// Damps the ground speed by the stored wall collision, if there is one,
/// and empties the store. `wall_normal_2d` is the stored normal turned
/// into the ground plane.
pub fn absorb_wall_collision(physics: &mut PlatformingCharacterPhysics, wall_normal_2d: &Vec2)
    requires
        old(physics).wf(),
        wall_normal_2d.wf(),
    ensures
        *final(physics) == absorbed(*old(physics), *wall_normal_2d),
        final(physics).wf(),
        final(physics).wall_collision_normal is None,
        final(physics).ground_speed.shrinks(old(physics).ground_speed),
{
    proof {
        lemma_absorbed_speed(physics.ground_speed, *wall_normal_2d);
        lemma_stored_length(physics.ground_speed);
        lemma_stored_length(*wall_normal_2d);
    }
    if physics.wall_collision_normal.is_some() {
        if !wall_normal_2d.is_zero() && !physics.ground_speed.is_zero() {
            let p: u64 = wall_normal_2d.ceil_length();
            let q: u64 = physics.ground_speed.ceil_length();
            let d: i64 = physics.ground_speed.inner(wall_normal_2d);
            let into_wall: u64 = if d >= 0 { d as u64 } else { (-d) as u64 };
            assert(p * q <= REACH * REACH) by (nonlinear_arith)
                requires
                    0 <= p <= REACH,
                    0 <= q <= REACH,
            ;
            assert(WALL_ABSORPTION_DIVISOR * p * q == 5 * (p * q)) by (nonlinear_arith);
            let whole: u64 = WALL_ABSORPTION_DIVISOR * (p * q);
            physics.ground_speed = physics.ground_speed.scale(whole - into_wall, whole);
        }
        physics.wall_collision_normal = None;
    }
}

/// How far the obstacle probe is swept.
pub fn obstacle_cast_distance(values: &PlatformingCharacterValues) -> (r: i64)
    requires
        values.wf(),
    ensures
        r == obstacle_reach(*values),
{
    values.cushion_radius - values.obstacle_detection_radius
}

/// How far before and behind the character the slope rays start.
pub fn slope_cast_spacing(values: &PlatformingCharacterValues, near_obstacle: bool) -> (r: i64)
    ensures
        r == slope_spacing(*values, near_obstacle),
{
    if near_obstacle {
        values.obstacle_detection_radius
    } else {
        values.cushion_radius
    }
}

/// How far the ground probe is swept.
pub fn ground_cast_length(values: &PlatformingCharacterValues, slope: &Option<SlopeReading>) -> (r:
    i64)
    requires
        values.wf(),
        match *slope {
            Some(s) => s.wf(),
            None => true,
        },
    ensures
        r == ground_probe_reach(*values, *slope),
{
    let base: i64 = match slope {
        Some(reading) => if reading.front_distance >= reading.back_distance {
            reading.front_distance
        } else {
            reading.back_distance
        },
        None => values.desired_distance(),
    };
    base + GROUND_CAST_OVERSHOOT
}

/// Writes the measured slope into a grounded character.
pub fn follow_slope(physics: &mut PlatformingCharacterPhysics, slope: &Option<SlopeReading>)
    requires
        old(physics).wf(),
        match *slope {
            Some(s) => s.wf(),
            None => true,
        },
    ensures
        *final(physics) == sloped(*old(physics), *slope),
        final(physics).wf(),
{
    if let Some(reading) = slope {
        if physics.air_speed.grounded() {
            physics.air_speed =
            AirSpeed::Grounded { angle: reading.angle, slope_quat: reading.rotation };
        }
    }
}

/// Lands a character or lets it fall, as the ground probe found.
///
/// A character in the air becomes grounded only if it is not rising and
/// the probe found ground no farther than wanted. A grounded character
/// leaves the ground only if the probe found nothing.
pub fn settle_on_ground(
    physics: &mut PlatformingCharacterPhysics,
    values: &PlatformingCharacterValues,
    ground_distance: Option<i64>,
    outgoing_velocity: &Vec3,
)
    requires
        old(physics).wf(),
        values.wf(),
        outgoing_velocity.wf(),
    ensures
        *final(physics) == settled(*old(physics), *values, ground_distance, *outgoing_velocity),
        final(physics).wf(),
        final(physics).air_speed.is_grounded() && !old(physics).air_speed.is_grounded() ==> lands(
            *old(physics),
            *values,
            ground_distance,
        ),
{
    match ground_distance {
        Some(distance) => {
            if let AirSpeed::InAir(air_speed) = physics.air_speed {
                if air_speed <= 0 && distance <= values.desired_distance() {
                    physics.air_speed =
                    AirSpeed::Grounded { angle: 0, slope_quat: Quat::new_identity() };
                }
            }
        },
        None => {
            if physics.air_speed.grounded() {
                physics.air_speed = AirSpeed::InAir(outgoing_velocity.y);
                physics.ground_speed = Vec2 { x: outgoing_velocity.x, y: outgoing_velocity.z };
                physics.wall_running = false;
                physics.ground_cast_direction = Vec3::new_down();
            }
        },
    }
}

/// The velocity in space of a ground speed of length `speed` along
/// `direction`, with the air speed in place of the vertical part where the
/// character is in the air; the ground of such a character is set below
/// it.
pub fn final_velocity(
    physics: &mut PlatformingCharacterPhysics,
    direction: &Vec3,
    speed: u64,
) -> (velocity: Vec3)
    requires
        old(physics).wf(),
        direction.within(UNIT as int),
        speed <= REACH,
    ensures
        *final(physics) == released(*old(physics)),
        final(physics).wf(),
        velocity == velocity_of(*direction, speed as int, old(physics).air_speed),
        velocity.within(REACH as int),
{
    proof {
        lemma_unit_scale(direction.x as int, speed as int);
        lemma_unit_scale(direction.y as int, speed as int);
        lemma_unit_scale(direction.z as int, speed as int);
    }
    let along = direction.scale(speed, UNIT as u64);
    match physics.air_speed {
        AirSpeed::Grounded { .. } => along,
        AirSpeed::InAir(vertical) => {
            physics.ground_cast_direction = Vec3::new_down();
            Vec3 { x: along.x, y: vertical, z: along.z }
        },
    }
}

/// One whole terrain pass over what the host's queries found.
///
/// The ground direction follows the ground speed, a steep surface ahead
/// becomes the ground, a stored wall collision damps the speed and is
/// used up, the measured slope is written down, and the ground probe
/// lands the character or lets it fall. The result is the velocity for
/// the host to move the character by.
pub fn update_platforming_kinematic_from_physics(
    physics: &mut PlatformingCharacterPhysics,
    values: &PlatformingCharacterValues,
    readings: &TerrainReadings,
) -> (velocity: Vec3)
    requires
        old(physics).wf(),
        values.wf(),
        readings.wf(),
    ensures
        *final(physics) == followed(*old(physics), *values, *readings),
        velocity == followed_velocity(*old(physics), *values, *readings),
        final(physics).wf(),
        velocity.within(REACH as int),
        final(physics).wall_collision_normal is None,
        final(physics).air_speed.is_grounded() && !old(physics).air_speed.is_grounded() ==> lands(
            *old(physics),
            *values,
            readings.ground_distance,
        ),
        !final(physics).air_speed.is_grounded() ==> final(physics).ground_cast_direction
            == Vec3::down(),
{
    face_ground_speed(physics);
    turn_toward_wall(physics, readings.wall_ahead);
    absorb_wall_collision(physics, &readings.wall_normal_2d);
    follow_slope(physics, &readings.slope);
    proof {
        lemma_stored_length(physics.ground_speed);
    }
    let speed = physics.ground_speed.floor_length();
    settle_on_ground(physics, values, readings.ground_distance, &readings.outgoing_velocity);
    final_velocity(physics, &readings.direction, speed)
}

/// A character on a steep surface that runs into a wall with a level
/// direction runs on that wall: its ground is then a level direction.
/// Where the ray along the velocity finds nothing, nothing changes.
pub proof fn lemma_wall_run_starts(physics: PlatformingCharacterPhysics, normal: Vec3)
    requires
        physics.air_speed.is_steep(),
        !physics.wall_running,
        normal.wf(),
        normal.x != 0 || normal.z != 0,
    ensures
        turned_toward_wall(physics, Some(normal)).wall_running,
        turned_toward_wall(physics, Some(normal)).ground_cast_direction.y == 0,
        turned_toward_wall(physics, Some(normal)).ground_cast_direction.is_direction(),
        turned_toward_wall(physics, None) == physics,
{
    let level = vec2(-normal.x, -normal.z);
    crate::vector::lemma_norm_sq_zero(level.x as int, level.y as int);
    crate::vector::lemma_normalized(level);
    let unit = level.normalized();
    let ground = turned_toward_wall(physics, Some(normal)).ground_cast_direction;
    assert(ground.norm_sq() == unit.norm_sq()) by (nonlinear_arith)
        requires
            ground.x == unit.x,
            ground.y == 0,
            ground.z == unit.y,
            ground.norm_sq() == ground.x * ground.x + ground.y * ground.y + ground.z * ground.z,
            unit.norm_sq() == unit.x * unit.x + unit.y * unit.y,
    ;
}

/// A character in the air is grounded after a terrain pass exactly if it
/// was not rising and the ground probe found ground no farther than
/// wanted: it never lands while it still rises.
pub proof fn lemma_lands_only_when_not_rising(
    physics: PlatformingCharacterPhysics,
    values: PlatformingCharacterValues,
    readings: TerrainReadings,
)
    requires
        !physics.air_speed.is_grounded(),
    ensures
        followed(physics, values, readings).air_speed.is_grounded() <==> lands(
            physics,
            values,
            readings.ground_distance,
        ),
        lands(physics, values, readings.ground_distance) ==> followed(
            physics,
            values,
            readings,
        ).air_speed == AirSpeed::landed(),
        physics.air_speed matches AirSpeed::InAir(air_speed) && air_speed > 0 ==> followed(
            physics,
            values,
            readings,
        ).air_speed == physics.air_speed,
{
}

/// A grounded character leaves the ground in a terrain pass exactly if
/// the ground probe found nothing, and then runs on no wall and has the
/// ground below it.
pub proof fn lemma_falls_only_without_ground(
    physics: PlatformingCharacterPhysics,
    values: PlatformingCharacterValues,
    readings: TerrainReadings,
)
    requires
        physics.air_speed.is_grounded(),
    ensures
        !followed(physics, values, readings).air_speed.is_grounded()
            <==> readings.ground_distance is None,
        readings.ground_distance is None ==> {
            &&& !followed(physics, values, readings).wall_running
            &&& followed(physics, values, readings).ground_cast_direction == Vec3::down()
            &&& followed(physics, values, readings).air_speed == AirSpeed::InAir(
                readings.outgoing_velocity.y,
            )
        },
{
}

} // verus!
