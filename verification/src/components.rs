//! The data that the movement rules read and write.

use vstd::prelude::*;
use crate::fixed::{fits_limit, in_limit, LIMIT, UNIT};
use crate::vector::{Quat, Vec2, Vec3};

verus! {

/// Largest magnitude of a planned ground acceleration component.
pub const ACCEL_LIMIT: i64 = 1_000_000_000;

/// Slope angle, in thousandths of a radian, beyond which a surface counts
/// as a wall: an eighth of a turn.
pub const STEEP_ANGLE: i64 = 785;

/// What the player asks of the character this tick.
#[derive(Clone, Copy, Debug, PartialEq, Eq, Structural)]
pub struct PlatformingCharacterControl {
    /// Wanted movement in the ground plane, at most one unit long; it is
    /// used up by the tick that reads it.
    pub move_input: Vec2,
    /// The last movement that was not zero.
    pub facing_2d: Vec2,
    pub jump_pressed: bool,
}

/// The tuning of one character, fixed when it is made.
#[derive(Clone, Copy, Debug, PartialEq, Eq, Structural)]
pub struct PlatformingCharacterValues {
    pub acceleration_speed: i64,
    pub air_acceleration_speed: i64,
    pub deceleration_speed: i64,
    pub top_speed: i64,
    pub friction_speed: i64,
    pub gravity: i64,
    pub jump_speed: i64,
    /// Radius for slope detection, and the distance kept from the ground:
    /// a cushion around the collider.
    pub cushion_radius: i64,
    /// Size of the footprint.
    pub ground_detection_radius: i64,
    /// Radius within which obstacles are felt.
    pub obstacle_detection_radius: i64,
    /// How far to look for the ground when measuring a slope.
    pub slope_cast_distance: i64,
}

/// Vertical movement: standing on a surface, or moving through the air at
/// a signed speed.
#[derive(Clone, Copy, Debug, PartialEq, Eq, Structural)]
pub enum AirSpeed {
    Grounded { angle: i64, slope_quat: Quat },
    InAir(i64),
}

/// The movement state of one character.
#[derive(Clone, Copy, Debug, PartialEq, Eq, Structural)]
pub struct PlatformingCharacterPhysics {
    pub ground_speed: Vec2,
    /// Facing of the current or last ground movement.
    pub ground_direction: Vec2,
    /// Direction in which the ground lies.
    pub ground_cast_direction: Vec3,
    pub air_speed: AirSpeed,
    pub wall_running: bool,
    /// Normal of a wall that was hit, kept for the next terrain pass to
    /// damp the ground speed with.
    pub wall_collision_normal: Option<Vec3>,
    pub overall_rotation: Quat,
    pub show_gizmos: bool,
    /// While running on a ceiling, the rotation from ground to ceiling
    /// through the wall that was climbed.
    pub ceiling_run_quat: Option<Quat>,
}

/// The accelerations planned for one tick.
#[derive(Clone, Copy, Debug, PartialEq, Eq, Structural)]
pub struct PlatformingCharacterPhysicsAccel {
    pub ground_acceleration: Vec2,
    pub ground_friction: i64,
    pub air_acceleration: i64,
}

/// What the animation is told beyond the movement state.
#[derive(Clone, Copy, Debug, PartialEq, Eq, Structural)]
pub struct PlatformingCharacterAnimationFlags {
    pub skidding: bool,
}

/// Velocity and orientation as the host's rigid body takes them.
#[derive(Clone, Copy, Debug, PartialEq, Eq, Structural)]
pub struct KinematicCharacterPhysics {
    pub velocity: Vec3,
    pub orientation: Quat,
}

impl AirSpeed {
    /// Standing on a surface.
    pub open spec fn is_grounded(self) -> bool {
        self is Grounded
    }

    /// The stored numbers can be computed with.
    pub open spec fn wf(self) -> bool {
        match self {
            AirSpeed::Grounded { angle, .. } => in_limit(angle as int),
            AirSpeed::InAir(speed) => in_limit(speed as int),
        }
    }

    /// Standing on a surface steeper than an eighth of a turn.
    pub open spec fn is_steep(self) -> bool {
        match self {
            AirSpeed::Grounded { angle, .. } => angle > STEEP_ANGLE || angle < -STEEP_ANGLE,
            AirSpeed::InAir(_) => false,
        }
    }

    /// Standing on level ground, as a character that has just landed.
    pub open spec fn landed() -> AirSpeed {
        AirSpeed::Grounded { angle: 0, slope_quat: Quat::identity() }
    }

    /// Whether the stored numbers can be computed with.
    pub fn is_valid(&self) -> (r: bool)
        ensures
            r == self.wf(),
    {
        match self {
            AirSpeed::Grounded { angle, .. } => fits_limit(*angle),
            AirSpeed::InAir(speed) => fits_limit(*speed),
        }
    }

    /// Whether the character stands on a surface.
    pub fn grounded(&self) -> (r: bool)
        ensures
            r == self.is_grounded(),
    {
        match self {
            AirSpeed::Grounded { .. } => true,
            AirSpeed::InAir(_) => false,
        }
    }

    /// Whether the character stands on a surface steeper than an eighth of
    /// a turn.
    pub fn steep(&self) -> (r: bool)
        ensures
            r == self.is_steep(),
    {
        match self {
            AirSpeed::Grounded { angle, .. } => *angle > STEEP_ANGLE || *angle < -STEEP_ANGLE,
            AirSpeed::InAir(_) => false,
        }
    }
}

impl PlatformingCharacterControl {
    /// The input is at most one unit along each axis.
    pub open spec fn wf(self) -> bool {
        self.move_input.within(UNIT as int) && self.facing_2d.within(UNIT as int)
    }

    /// Whether the input is at most one unit along each axis.
    pub fn is_valid(&self) -> (r: bool)
        ensures
            r == self.wf(),
    {
        self.move_input.fits(UNIT) && self.facing_2d.fits(UNIT)
    }
}

impl PlatformingCharacterValues {
    /// Every value can be stored, and the top speed, the friction and the
    /// radii and distances are not negative.
    pub open spec fn wf(self) -> bool {
        &&& in_limit(self.acceleration_speed as int)
        &&& in_limit(self.air_acceleration_speed as int)
        &&& in_limit(self.deceleration_speed as int)
        &&& 0 <= self.top_speed <= LIMIT
        &&& 0 <= self.friction_speed <= LIMIT
        &&& in_limit(self.gravity as int)
        &&& in_limit(self.jump_speed as int)
        &&& 0 <= self.cushion_radius <= LIMIT
        &&& 0 <= self.ground_detection_radius <= LIMIT
        &&& 0 <= self.obstacle_detection_radius <= LIMIT
        &&& 0 <= self.slope_cast_distance <= LIMIT
    }

    /// Whether every value can be stored and the top speed, the friction
    /// and the radii and distances are not negative.
    pub fn is_valid(&self) -> (r: bool)
        ensures
            r == self.wf(),
    {
        fits_limit(self.acceleration_speed) && fits_limit(self.air_acceleration_speed)
            && fits_limit(self.deceleration_speed) && 0 <= self.top_speed && self.top_speed
            <= LIMIT && 0 <= self.friction_speed && self.friction_speed <= LIMIT && fits_limit(
            self.gravity,
        ) && fits_limit(self.jump_speed) && 0 <= self.cushion_radius && self.cushion_radius
            <= LIMIT && 0 <= self.ground_detection_radius && self.ground_detection_radius
            <= LIMIT && 0 <= self.obstacle_detection_radius && self.obstacle_detection_radius
            <= LIMIT && 0 <= self.slope_cast_distance && self.slope_cast_distance <= LIMIT
    }

    /// The distance that the ground probe should measure when the
    /// character rests on its cushion.
    pub open spec fn desired_distance_from_ground(self) -> int {
        self.cushion_radius - self.ground_detection_radius
    }

    /// The distance that the ground probe should measure when the
    /// character rests on its cushion.
    pub fn desired_distance(&self) -> (r: i64)
        requires
            self.wf(),
        ensures
            r == self.desired_distance_from_ground(),
            in_limit(r as int),
    {
        self.cushion_radius - self.ground_detection_radius
    }
}

impl PlatformingCharacterPhysicsAccel {
    /// The stored numbers can be computed with, and the friction is not
    /// negative.
    pub open spec fn wf(self) -> bool {
        &&& self.ground_acceleration.within(ACCEL_LIMIT as int)
        &&& 0 <= self.ground_friction <= LIMIT
        &&& in_limit(self.air_acceleration as int)
    }

    /// Whether the stored numbers can be computed with and the friction is
    /// not negative.
    pub fn is_valid(&self) -> (r: bool)
        ensures
            r == self.wf(),
    {
        self.ground_acceleration.fits(ACCEL_LIMIT) && 0 <= self.ground_friction
            && self.ground_friction <= LIMIT && fits_limit(self.air_acceleration)
    }
}

impl PlatformingCharacterPhysics {
    /// The stored numbers can be computed with, and the two directions are
    /// directions: not zero, and no longer than one unit.
    pub open spec fn wf(self) -> bool {
        &&& self.ground_speed.wf()
        &&& self.ground_direction.is_direction()
        &&& self.ground_cast_direction.is_direction()
        &&& self.air_speed.wf()
        &&& match self.wall_collision_normal {
            Some(n) => n.wf(),
            None => true,
        }
    }

    /// Whether the stored numbers can be computed with and the two
    /// directions are directions.
    pub fn is_valid(&self) -> (r: bool)
        ensures
            r == self.wf(),
    {
        self.ground_speed.fits(LIMIT) && self.ground_direction.points()
            && self.ground_cast_direction.points() && self.air_speed.is_valid()
            && match self.wall_collision_normal {
            Some(n) => n.fits(LIMIT),
            None => true,
        }
    }

    /// The state of a character that has just been put into the world:
    /// at rest, facing along x, falling.
    pub open spec fn at_spawn() -> PlatformingCharacterPhysics {
        PlatformingCharacterPhysics {
            ground_speed: Vec2::zero(),
            ground_direction: Vec2 { x: UNIT, y: 0 },
            ground_cast_direction: Vec3::down(),
            air_speed: AirSpeed::InAir(0),
            wall_running: false,
            wall_collision_normal: None,
            overall_rotation: Quat::identity(),
            show_gizmos: false,
            ceiling_run_quat: None,
        }
    }

    /// The state of a character that has just been put into the world.
    pub fn spawn() -> (r: PlatformingCharacterPhysics)
        ensures
            r == PlatformingCharacterPhysics::at_spawn(),
            r.wf(),
    {
        let facing = Vec2 { x: UNIT, y: 0 };
        assert(facing.norm_sq() == UNIT * UNIT) by (nonlinear_arith)
            requires
                facing.x == UNIT,
                facing.y == 0,
                facing.norm_sq() == facing.x * facing.x + facing.y * facing.y,
        ;
        PlatformingCharacterPhysics {
            ground_speed: Vec2::new_zero(),
            ground_direction: facing,
            ground_cast_direction: Vec3::new_down(),
            air_speed: AirSpeed::InAir(0),
            wall_running: false,
            wall_collision_normal: None,
            overall_rotation: Quat::new_identity(),
            show_gizmos: false,
            ceiling_run_quat: None,
        }
    }
}

} // verus!
