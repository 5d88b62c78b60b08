//! The stages of one tick in their order, and what holds of a character
//! at rest.

use vstd::prelude::*;
use crate::components::{
    PlatformingCharacterControl, PlatformingCharacterPhysics, PlatformingCharacterPhysicsAccel,
    PlatformingCharacterValues,
};
use crate::corrector::ground_offset;
use crate::follower::{followed, sloped, TerrainReadings};
use crate::integrator::{
    coasted, integrated, lemma_coasting_never_gains, lemma_coasting_stops, lemma_speed_within_top,
    length_after_friction,
};
use crate::planner::{consumed_control, planned_accel};
use crate::vector::Vec2;

verus! {

/// The movement state, the accelerations and the control after one tick:
/// planning, integration and the terrain pass, in that order.
pub open spec fn pipeline_tick(
    physics: PlatformingCharacterPhysics,
    accel: PlatformingCharacterPhysicsAccel,
    control: PlatformingCharacterControl,
    values: PlatformingCharacterValues,
    readings: TerrainReadings,
) -> (PlatformingCharacterPhysics, PlatformingCharacterPhysicsAccel, PlatformingCharacterControl) {
    let planned = planned_accel(accel, physics, control, values);
    (
        followed(integrated(physics, planned, values), values, readings),
        planned,
        consumed_control(control),
    )
}

/// The same after `ticks` ticks in which the host's queries find the same
/// every time.
pub open spec fn pipeline_ticks(
    physics: PlatformingCharacterPhysics,
    accel: PlatformingCharacterPhysicsAccel,
    control: PlatformingCharacterControl,
    values: PlatformingCharacterValues,
    readings: TerrainReadings,
    ticks: nat,
) -> (PlatformingCharacterPhysics, PlatformingCharacterPhysicsAccel, PlatformingCharacterControl)
    decreases ticks,
{
    if ticks == 0 {
        (physics, accel, control)
    } else {
        let before = pipeline_ticks(physics, accel, control, values, readings, (ticks - 1) as nat);
        pipeline_tick(before.0, before.1, before.2, values, readings)
    }
}

/// A character at rest: it stands still on ground that is not steep, at
/// exactly the wanted distance, with the slope under it as it is stored;
/// nothing is asked of it, no jump is under way and no wall collision is
/// stored.
pub open spec fn at_rest(
    physics: PlatformingCharacterPhysics,
    accel: PlatformingCharacterPhysicsAccel,
    control: PlatformingCharacterControl,
    values: PlatformingCharacterValues,
    readings: TerrainReadings,
) -> bool {
    &&& physics.air_speed.is_grounded()
    &&& !physics.air_speed.is_steep()
    &&& physics.ground_speed == Vec2::zero()
    &&& physics.wall_collision_normal is None
    &&& control.move_input == Vec2::zero()
    &&& !control.jump_pressed
    &&& accel.air_acceleration <= 0
    &&& sloped(physics, readings.slope) == physics
    &&& readings.ground_distance == Some(values.desired_distance_from_ground() as i64)
}

/// One tick leaves a character at rest as it is: the movement state and
/// the control are unchanged, the accelerations are those planned, the
/// character is at rest again, and its position needs no correction.
pub proof fn lemma_rest_is_kept(
    physics: PlatformingCharacterPhysics,
    accel: PlatformingCharacterPhysicsAccel,
    control: PlatformingCharacterControl,
    values: PlatformingCharacterValues,
    readings: TerrainReadings,
)
    requires
        values.wf(),
        at_rest(physics, accel, control, values, readings),
    ensures
        pipeline_tick(physics, accel, control, values, readings).0 == physics,
        pipeline_tick(physics, accel, control, values, readings).2 == control,
        pipeline_tick(physics, accel, control, values, readings).1 == planned_accel(
            accel,
            physics,
            control,
            values,
        ),
        planned_accel(planned_accel(accel, physics, control, values), physics, control, values)
            == planned_accel(accel, physics, control, values),
        at_rest(physics, planned_accel(accel, physics, control, values), control, values, readings),
        ground_offset(physics, values, readings.ground_distance) == 0,
{
    let planned = planned_accel(accel, physics, control, values);
    assert(planned.ground_acceleration == Vec2::zero());
    let zero = Vec2::zero();
    assert(zero.norm_sq() == 0) by (nonlinear_arith)
        requires
            zero.x == 0,
            zero.y == 0,
            zero.norm_sq() == zero.x * zero.x + zero.y * zero.y,
    ;
    assert(values.top_speed * values.top_speed >= 0) by (nonlinear_arith);
    assert(planned.ground_friction * planned.ground_friction >= 0) by (nonlinear_arith);
    let moved = integrated(physics, planned, values);
    assert(moved.ground_speed == zero);
    assert(moved == physics);
}

/// Any number of ticks leaves the movement state and the control of a
/// character at rest unchanged.
pub proof fn lemma_rest_is_kept_for_ever(
    physics: PlatformingCharacterPhysics,
    accel: PlatformingCharacterPhysicsAccel,
    control: PlatformingCharacterControl,
    values: PlatformingCharacterValues,
    readings: TerrainReadings,
    ticks: nat,
)
    requires
        values.wf(),
        at_rest(physics, accel, control, values, readings),
    ensures
        pipeline_ticks(physics, accel, control, values, readings, ticks).0 == physics,
        pipeline_ticks(physics, accel, control, values, readings, ticks).2 == control,
        at_rest(
            physics,
            pipeline_ticks(physics, accel, control, values, readings, ticks).1,
            control,
            values,
            readings,
        ),
    decreases ticks,
{
    if ticks > 0 {
        lemma_rest_is_kept_for_ever(physics, accel, control, values, readings, (ticks - 1) as nat);
        let before = pipeline_ticks(physics, accel, control, values, readings, (ticks - 1) as nat);
        lemma_rest_is_kept(physics, before.1, control, values, readings);
    }
}

/// The movement state and the accelerations after `ticks` ticks of
/// planning and integration under the same control.
pub open spec fn idle_ticks(
    physics: PlatformingCharacterPhysics,
    accel: PlatformingCharacterPhysicsAccel,
    control: PlatformingCharacterControl,
    values: PlatformingCharacterValues,
    ticks: nat,
) -> (PlatformingCharacterPhysics, PlatformingCharacterPhysicsAccel)
    decreases ticks,
{
    if ticks == 0 {
        (physics, accel)
    } else {
        let before = idle_ticks(physics, accel, control, values, (ticks - 1) as nat);
        let planned = planned_accel(before.1, before.0, control, values);
        (integrated(before.0, planned, values), planned)
    }
}

/// While the player asks for no movement, no tick lengthens a component
/// of the ground speed or turns one round, on the ground or in the air.
pub proof fn lemma_idle_never_gains(
    physics: PlatformingCharacterPhysics,
    accel: PlatformingCharacterPhysicsAccel,
    control: PlatformingCharacterControl,
    values: PlatformingCharacterValues,
    ticks: nat,
)
    requires
        physics.wf(),
        accel.wf(),
        values.wf(),
        control.move_input == Vec2::zero(),
    ensures
        idle_ticks(physics, accel, control, values, ticks).0.wf(),
        idle_ticks(physics, accel, control, values, ticks).1.wf(),
        idle_ticks(physics, accel, control, values, ticks).0.ground_speed.shrinks(
            physics.ground_speed,
        ),
        ticks > 0 ==> idle_ticks(physics, accel, control, values, ticks).0.ground_speed.shrinks(
            idle_ticks(physics, accel, control, values, (ticks - 1) as nat).0.ground_speed,
        ),
    decreases ticks,
{
    if ticks > 0 {
        lemma_idle_never_gains(physics, accel, control, values, (ticks - 1) as nat);
        let before = idle_ticks(physics, accel, control, values, (ticks - 1) as nat);
        let planned = planned_accel(before.1, before.0, control, values);
        lemma_speed_within_top(before.0, planned, values);
        lemma_coasting_never_gains(before.0, planned, values);
    }
}

/// A grounded character of which no movement and no jump is asked comes to
/// rest: each tick takes at least the friction off the length of its
/// ground speed, and the speed is exactly zero as soon as the ticks times
/// the friction reach the length it started with.
pub proof fn lemma_idle_character_stops(
    physics: PlatformingCharacterPhysics,
    accel: PlatformingCharacterPhysicsAccel,
    control: PlatformingCharacterControl,
    values: PlatformingCharacterValues,
    ticks: nat,
)
    requires
        physics.wf(),
        accel.wf(),
        values.wf(),
        physics.air_speed.is_grounded(),
        control.move_input == Vec2::zero(),
        !control.jump_pressed,
        accel.air_acceleration <= 0,
        values.friction_speed > 0,
    ensures
        idle_ticks(physics, accel, control, values, ticks).0.air_speed == physics.air_speed,
        idle_ticks(physics, accel, control, values, ticks).0.ground_speed.length()
            <= length_after_friction(
            physics.ground_speed.length(),
            ticks * values.friction_speed,
        ),
        ticks * values.friction_speed >= physics.ground_speed.length() ==> idle_ticks(
            physics,
            accel,
            control,
            values,
            ticks,
        ).0.ground_speed == Vec2::zero(),
{
    let planned = planned_accel(accel, physics, control, values);
    lemma_idle_is_coasting(physics, accel, control, values, ticks);
    lemma_coasting_stops(physics, planned, values, ticks);
}

/// For a grounded character of which nothing is asked, every tick plans
/// the same accelerations, so that the ticks are those of coasting under
/// them.
proof fn lemma_idle_is_coasting(
    physics: PlatformingCharacterPhysics,
    accel: PlatformingCharacterPhysicsAccel,
    control: PlatformingCharacterControl,
    values: PlatformingCharacterValues,
    ticks: nat,
)
    requires
        physics.wf(),
        accel.wf(),
        values.wf(),
        physics.air_speed.is_grounded(),
        control.move_input == Vec2::zero(),
        !control.jump_pressed,
        accel.air_acceleration <= 0,
        values.friction_speed > 0,
    ensures
        idle_ticks(physics, accel, control, values, ticks).0 == coasted(
            physics,
            planned_accel(accel, physics, control, values),
            values,
            ticks,
        ),
        idle_ticks(physics, accel, control, values, ticks).1.air_acceleration
            == accel.air_acceleration,
    decreases ticks,
{
    if ticks > 0 {
        let planned = planned_accel(accel, physics, control, values);
        lemma_idle_is_coasting(physics, accel, control, values, (ticks - 1) as nat);
        lemma_coasting_stops(physics, planned, values, (ticks - 1) as nat);
    }
}

} // verus!
