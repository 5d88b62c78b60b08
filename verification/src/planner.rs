//! Acceleration planning: from what the player asks and how the character
//! moves to the accelerations of one tick.

use vstd::prelude::*;
use crate::components::{
    AirSpeed, PlatformingCharacterAnimationFlags, PlatformingCharacterControl,
    PlatformingCharacterPhysics, PlatformingCharacterPhysicsAccel, PlatformingCharacterValues,
};
use crate::fixed::{lemma_mul_units, mul_fixed, mul_units};
use crate::vector::{vec2, Vec2};

verus! {

/// The player asks for movement.
pub open spec fn wants_to_move(control: PlatformingCharacterControl) -> bool {
    control.move_input != Vec2::zero()
}

/// The player asks for movement against the way the character moves: the
/// ground speed is not zero and lies more than a quarter turn from the
/// input.
pub open spec fn moves_against_speed(
    physics: PlatformingCharacterPhysics,
    control: PlatformingCharacterControl,
) -> bool {
    physics.ground_speed != Vec2::zero() && physics.ground_speed.dot(control.move_input) < 0
}

/// How strongly the input accelerates: by the ground or the air value, and
/// by the deceleration on top where the input opposes the movement.
pub open spec fn accel_amount(
    physics: PlatformingCharacterPhysics,
    control: PlatformingCharacterControl,
    values: PlatformingCharacterValues,
) -> int {
    let base = if physics.air_speed.is_grounded() {
        values.acceleration_speed
    } else {
        values.air_acceleration_speed
    };
    if moves_against_speed(physics, control) {
        base + values.deceleration_speed
    } else {
        base as int
    }
}

/// The accelerations of the tick.
pub open spec fn planned_accel(
    accel: PlatformingCharacterPhysicsAccel,
    physics: PlatformingCharacterPhysics,
    control: PlatformingCharacterControl,
    values: PlatformingCharacterValues,
) -> PlatformingCharacterPhysicsAccel {
    let amount = accel_amount(physics, control, values);
    PlatformingCharacterPhysicsAccel {
        ground_acceleration: if wants_to_move(control) {
            vec2(
                mul_units(amount, control.move_input.x as int),
                mul_units(amount, control.move_input.y as int),
            )
        } else {
            Vec2::zero()
        },
        ground_friction: if wants_to_move(control) { 0 } else { values.friction_speed },
        air_acceleration: if physics.air_speed.is_grounded() && control.jump_pressed {
            values.jump_speed
        } else if !physics.air_speed.is_grounded() && !control.jump_pressed {
            0
        } else {
            accel.air_acceleration
        },
    }
}

/// The control after the tick has read it: an input that was given is
/// remembered as the facing and used up.
pub open spec fn consumed_control(
    control: PlatformingCharacterControl,
) -> PlatformingCharacterControl {
    if wants_to_move(control) {
        PlatformingCharacterControl {
            move_input: Vec2::zero(),
            facing_2d: control.move_input,
            jump_pressed: control.jump_pressed,
        }
    } else {
        control
    }
}

/// Whether the character skids after the tick: it does where the input
/// opposes a ground speed, it does not where it goes along with one, and
/// the flag stays as it was where there is no input or no ground speed.
pub open spec fn planned_skidding(
    flags: PlatformingCharacterAnimationFlags,
    physics: PlatformingCharacterPhysics,
    control: PlatformingCharacterControl,
) -> bool {
    if wants_to_move(control) && physics.ground_speed != Vec2::zero() {
        moves_against_speed(physics, control)
    } else {
        flags.skidding
    }
}

/// Without input the plan is to coast: no ground acceleration, the
/// friction of the tuning, and the control left as it is.
pub proof fn lemma_no_input_plans_friction(
    accel: PlatformingCharacterPhysicsAccel,
    physics: PlatformingCharacterPhysics,
    control: PlatformingCharacterControl,
    values: PlatformingCharacterValues,
)
    requires
        control.move_input == Vec2::zero(),
    ensures
        planned_accel(accel, physics, control, values).ground_acceleration == Vec2::zero(),
        planned_accel(accel, physics, control, values).ground_friction == values.friction_speed,
        consumed_control(control) == control,
        !control.jump_pressed ==> planned_accel(accel, physics, control, values).air_acceleration
            == (if physics.air_speed.is_grounded() {
            accel.air_acceleration
        } else {
            0
        }),
{
}

/// Plans the accelerations of one tick and uses up the movement input.
pub fn update_platforming_accel_from_controls(
    accel: &mut PlatformingCharacterPhysicsAccel,
    physics: &PlatformingCharacterPhysics,
    control: &mut PlatformingCharacterControl,
    values: &PlatformingCharacterValues,
    animation_flags: &mut PlatformingCharacterAnimationFlags,
)
    requires
        old(accel).wf(),
        physics.wf(),
        old(control).wf(),
        values.wf(),
    ensures
        *final(accel) == planned_accel(*old(accel), *physics, *old(control), *values),
        *final(control) == consumed_control(*old(control)),
        final(animation_flags).skidding == planned_skidding(
            *old(animation_flags),
            *physics,
            *old(control),
        ),
        final(accel).wf(),
        final(control).wf(),
{
    if !control.move_input.is_zero() {
        control.facing_2d = control.move_input;
        let mut accel_amount: i64 = match physics.air_speed {
            AirSpeed::Grounded { .. } => values.acceleration_speed,
            AirSpeed::InAir(_) => values.air_acceleration_speed,
        };
        if !physics.ground_speed.is_zero() {
            if physics.ground_speed.inner(&control.move_input) < 0 {
                accel_amount = accel_amount + values.deceleration_speed;
                animation_flags.skidding = true;
            } else {
                animation_flags.skidding = false;
            }
        }
        proof {
            lemma_mul_units(accel_amount as int, control.move_input.x as int);
            lemma_mul_units(accel_amount as int, control.move_input.y as int);
        }
        accel.ground_acceleration = Vec2 {
            x: mul_fixed(accel_amount, control.move_input.x),
            y: mul_fixed(accel_amount, control.move_input.y),
        };
        accel.ground_friction = 0;
        control.move_input = Vec2 { x: 0, y: 0 };
    } else {
        accel.ground_acceleration = Vec2 { x: 0, y: 0 };
        accel.ground_friction = values.friction_speed;
    }
    match (&physics.air_speed, control.jump_pressed) {
        (AirSpeed::Grounded { .. }, true) => {
            accel.air_acceleration = values.jump_speed;
        },
        (AirSpeed::InAir(_), false) => {
            accel.air_acceleration = 0;
        },
        _ => {},
    }
}

} // verus!
