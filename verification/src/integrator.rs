//! Velocity integration: one tick of ground speed and air speed, and the
//! launch from the ground into a jump.

use vstd::prelude::*;
use crate::components::{
    AirSpeed, PlatformingCharacterControl, PlatformingCharacterPhysics,
    PlatformingCharacterPhysicsAccel, PlatformingCharacterValues,
};
use crate::fixed::{
    clamp, clamped, floor_sqrt, lemma_floor_sqrt_bounds, lemma_scale_toward_zero,
    lemma_square_monotone, magnitude, scale_toward_zero, LIMIT, REACH,
};
use crate::planner::planned_accel;
use crate::vector::{
    lemma_norm_bounds_components, lemma_norm_of_magnitudes, lemma_ratio_squares,
    lemma_shrinks_norm, vec2, Vec2,
};

verus! {

/// The vertical state once a wanted jump has left the ground: a grounded
/// character with a positive air acceleration is in the air at that speed.
pub open spec fn launched(
    physics: PlatformingCharacterPhysics,
    accel: PlatformingCharacterPhysicsAccel,
) -> AirSpeed {
    if accel.air_acceleration > 0 && physics.air_speed.is_grounded() {
        AirSpeed::InAir(accel.air_acceleration)
    } else {
        physics.air_speed
    }
}

/// The ground speed after acceleration: the whole ground acceleration is
/// added on the ground and half of it in the air, and the sum is held to
/// the top speed.
pub open spec fn accelerated(
    physics: PlatformingCharacterPhysics,
    accel: PlatformingCharacterPhysicsAccel,
    values: PlatformingCharacterValues,
) -> Vec2 {
    let push = if launched(physics, accel).is_grounded() {
        accel.ground_acceleration
    } else {
        accel.ground_acceleration.scaled(1, 2)
    };
    vec2(physics.ground_speed.x + push.x, physics.ground_speed.y + push.y).clamped_length(
        values.top_speed as int,
    )
}

/// A ground speed after friction: shorter by `friction` along its own
/// direction, and zero where the friction would turn it round.
pub open spec fn slowed(speed: Vec2, friction: int) -> Vec2 {
    if friction <= 0 {
        speed
    } else if friction * friction >= speed.norm_sq() {
        Vec2::zero()
    } else {
        speed.scaled(speed.length() - friction, speed.length())
    }
}

/// The movement state after one tick of integration.
///
/// A character that leaves the ground in this tick is in the air at the
/// air acceleration and keeps the accelerated ground speed. One that stays
/// on the ground is slowed by the friction. Only one that was in the air
/// before the tick has the air acceleration and the gravity added to its
/// air speed, held between the top speed and its negative.
pub open spec fn integrated(
    physics: PlatformingCharacterPhysics,
    accel: PlatformingCharacterPhysicsAccel,
    values: PlatformingCharacterValues,
) -> PlatformingCharacterPhysics {
    let pushed = accelerated(physics, accel, values);
    match physics.air_speed {
        AirSpeed::Grounded { .. } => if accel.air_acceleration > 0 {
            PlatformingCharacterPhysics {
                ground_speed: pushed,
                air_speed: AirSpeed::InAir(accel.air_acceleration),
                ..physics
            }
        } else {
            PlatformingCharacterPhysics {
                ground_speed: slowed(pushed, accel.ground_friction as int),
                ..physics
            }
        },
        AirSpeed::InAir(air_speed) => PlatformingCharacterPhysics {
            ground_speed: pushed,
            air_speed: AirSpeed::InAir(
                clamped(
                    air_speed + accel.air_acceleration + values.gravity,
                    -values.top_speed,
                    values.top_speed as int,
                ) as i64,
            ),
            ..physics
        },
    }
}

/// The movement state after `ticks` ticks of integration under the same
/// accelerations.
pub open spec fn coasted(
    physics: PlatformingCharacterPhysics,
    accel: PlatformingCharacterPhysicsAccel,
    values: PlatformingCharacterValues,
    ticks: nat,
) -> PlatformingCharacterPhysics
    decreases ticks,
{
    if ticks == 0 {
        physics
    } else {
        integrated(coasted(physics, accel, values, (ticks - 1) as nat), accel, values)
    }
}

/// The length that friction leaves of a length.
pub open spec fn length_after_friction(length: int, friction: int) -> int {
    if length > friction { length - friction } else { 0 }
}

/// Friction lengthens no component, turns none round, and takes at least
/// its own amount off the length.
pub proof fn lemma_slowed(speed: Vec2, friction: int)
    requires
        speed.within(REACH as int),
    ensures
        slowed(speed, friction).shrinks(speed),
        friction > 0 ==> slowed(speed, friction).length() <= length_after_friction(
            speed.length(),
            friction,
        ),
        friction > 0 && speed != Vec2::zero() ==> slowed(speed, friction).norm_sq()
            < speed.norm_sq(),
{
    let n = speed.norm_sq();
    let len = speed.length();
    lemma_norm_of_magnitudes(speed);
    lemma_floor_sqrt_bounds(n as nat);
    assert(floor_sqrt(0) == 0);
    if friction > 0 && friction * friction < n {
        if friction > len {
            lemma_square_monotone(len + 1, friction);
        }
        assert(0 < len);
        let num = len - friction;
        let after = slowed(speed, friction);
        lemma_scale_toward_zero(speed.x as int, num, len);
        lemma_scale_toward_zero(speed.y as int, num, len);
        assert(after.x == scale_toward_zero(speed.x as int, num, len));
        assert(after.y == scale_toward_zero(speed.y as int, num, len));
        let a = magnitude(after.x as int);
        let b = magnitude(after.y as int);
        let x = magnitude(speed.x as int);
        let y = magnitude(speed.y as int);
        lemma_norm_of_magnitudes(after);
        lemma_ratio_squares(a, b, x, y, num, len);
        let s = after.norm_sq();
        let m = after.length();
        lemma_floor_sqrt_bounds(s as nat);
        if m > num {
            lemma_square_monotone(num + 1, m);
            lemma_root_cannot_exceed(s, n, num, len);
        }
        assert(s < n) by {
            assert(x * x + y * y > 0);
            if x > 0 {
                assert(a * a < x * x) by (nonlinear_arith)
                    requires
                        0 <= a < x,
                ;
                lemma_square_monotone(b, y);
            } else {
                assert(a * a <= x * x) by (nonlinear_arith)
                    requires
                        0 <= a <= x,
                ;
                assert(y > 0) by (nonlinear_arith)
                    requires
                        x * x + y * y > 0,
                        x == 0,
                        0 <= y,
                ;
                assert(b * b < y * y) by (nonlinear_arith)
                    requires
                        0 <= b < y,
                ;
            }
        }
    } else if friction > 0 {
        if speed != Vec2::zero() {
            crate::vector::lemma_norm_sq_zero(speed.x as int, speed.y as int);
        }
        if len > friction {
            lemma_square_monotone(friction + 1, len);
            assert((friction + 1) * (friction + 1) > friction * friction) by (nonlinear_arith)
                requires
                    friction > 0,
            ;
        }
    }
}

/// A squared length `s` that is to `n` at most as `num` squared is to `len`
/// squared, with `n` below the square of `len + 1`, is below the square of
/// `num + 1`.
proof fn lemma_root_cannot_exceed(s: int, n: int, num: int, len: int)
    requires
        0 <= num < len,
        0 <= n < (len + 1) * (len + 1),
        s * (len * len) <= n * (num * num),
    ensures
        s < (num + 1) * (num + 1),
{
    if (num + 1) * (num + 1) <= s {
        lemma_root_would_exceed(s, n, num, len);
    }
}

/// The two sides of the contradiction behind `lemma_root_cannot_exceed`.
proof fn lemma_root_would_exceed(s: int, n: int, num: int, len: int)
    requires
        0 <= num < len,
        0 <= n < (len + 1) * (len + 1),
        s * (len * len) <= n * (num * num),
        (num + 1) * (num + 1) <= s,
    ensures
        ((num + 1) * len) * ((num + 1) * len) <= ((len + 1) * num) * ((len + 1) * num),
        ((num + 1) * len) * ((num + 1) * len) > ((len + 1) * num) * ((len + 1) * num),
{
    let p = (num + 1) * len;
    let q = (len + 1) * num;
    let ll = len * len;
    let nn = num * num;
    assert(0 < ll) by (nonlinear_arith)
        requires
            0 < len,
            ll == len * len,
    ;
    assert(0 <= nn) by (nonlinear_arith)
        requires
            nn == num * num,
    ;
    assert(((num + 1) * (num + 1)) * ll <= s * ll) by (nonlinear_arith)
        requires
            (num + 1) * (num + 1) <= s,
            0 < ll,
    ;
    assert(n * nn <= ((len + 1) * (len + 1)) * nn) by (nonlinear_arith)
        requires
            n < (len + 1) * (len + 1),
            0 <= nn,
    ;
    assert(p * p == ((num + 1) * (num + 1)) * ll) by (nonlinear_arith)
        requires
            p == (num + 1) * len,
            ll == len * len,
    ;
    assert(q * q == ((len + 1) * (len + 1)) * nn) by (nonlinear_arith)
        requires
            q == (len + 1) * num,
            nn == num * num,
    ;
    assert(p * p <= q * q);
    assert(p > q) by (nonlinear_arith)
        requires
            p == (num + 1) * len,
            q == (len + 1) * num,
            0 <= num < len,
    ;
    assert(0 <= q) by (nonlinear_arith)
        requires
            q == (len + 1) * num,
            0 <= num < len,
    ;
    assert(p * p > q * q) by (nonlinear_arith)
        requires
            0 <= q < p,
    ;
}

/// A ground speed after friction.
pub fn slow(speed: &Vec2, friction: i64) -> (r: Vec2)
    requires
        speed.wf(),
        0 <= friction <= LIMIT,
    ensures
        r == slowed(*speed, friction as int),
        r.shrinks(*speed),
{
    proof {
        lemma_slowed(*speed, friction as int);
    }
    if friction <= 0 {
        return *speed;
    }
    let n = speed.squared_length();
    assert(friction * friction <= LIMIT * LIMIT) by (nonlinear_arith)
        requires
            0 <= friction <= LIMIT,
    ;
    let ff: u64 = (friction * friction) as u64;
    if ff >= n {
        Vec2 { x: 0, y: 0 }
    } else {
        let len = speed.floor_length();
        proof {
            lemma_floor_sqrt_bounds(n as nat);
            if friction > len {
                lemma_square_monotone(len + 1, friction as int);
            }
        }
        speed.scale(len - (friction as u64), len)
    }
}

/// Advances ground speed and air speed by one tick.
///
/// The ground speed takes the ground acceleration, half of it where the
/// character is in the air or leaves the ground in this tick, and is held
/// to the top speed. A grounded character whose air acceleration is
/// positive leaves the ground: it is in the air at exactly that speed. One
/// that stays on the ground is slowed by the friction. One that was in the
/// air already has the air acceleration and the gravity added to its air
/// speed, held between the top speed and its negative. Afterwards the
/// ground speed is never longer than the top speed.
pub fn update_platforming_physics(
    physics: &mut PlatformingCharacterPhysics,
    accel: &PlatformingCharacterPhysicsAccel,
    values: &PlatformingCharacterValues,
)
    requires
        old(physics).wf(),
        accel.wf(),
        values.wf(),
    ensures
        *final(physics) == integrated(*old(physics), *accel, *values),
        final(physics).wf(),
        final(physics).ground_speed.norm_sq() <= values.top_speed * values.top_speed,
        final(physics).air_speed == (match old(physics).air_speed {
            AirSpeed::Grounded { .. } => launched(*old(physics), *accel),
            AirSpeed::InAir(air_speed) => AirSpeed::InAir(
                clamped(
                    air_speed + accel.air_acceleration + values.gravity,
                    -values.top_speed,
                    values.top_speed as int,
                ) as i64,
            ),
        }),
{
    let leaves_ground = physics.air_speed.grounded() && accel.air_acceleration > 0;
    let push = if physics.air_speed.grounded() && !leaves_ground {
        accel.ground_acceleration
    } else {
        accel.ground_acceleration.scale(1, 2)
    };
    let pushed = Vec2 { x: physics.ground_speed.x + push.x, y: physics.ground_speed.y + push.y };
    physics.ground_speed = pushed.clamp_length(values.top_speed);
    match physics.air_speed {
        AirSpeed::Grounded { .. } => {
            if leaves_ground {
                physics.air_speed = AirSpeed::InAir(accel.air_acceleration);
            } else if accel.ground_friction > 0 {
                let before = physics.ground_speed;
                physics.ground_speed = slow(&before, accel.ground_friction);
                proof {
                    lemma_shrinks_norm(physics.ground_speed, before);
                }
            }
        },
        AirSpeed::InAir(air_speed) => {
            let sum: i64 = air_speed + accel.air_acceleration + values.gravity;
            physics.air_speed = AirSpeed::InAir(clamp(sum, -values.top_speed, values.top_speed));
        },
    }
}

/// The ground speed is never longer than the top speed after a tick of
/// integration, whatever the tuning and the accelerations.
pub proof fn lemma_speed_within_top(
    physics: PlatformingCharacterPhysics,
    accel: PlatformingCharacterPhysicsAccel,
    values: PlatformingCharacterValues,
)
    requires
        physics.wf(),
        accel.wf(),
        values.wf(),
    ensures
        integrated(physics, accel, values).ground_speed.norm_sq() <= values.top_speed
            * values.top_speed,
        integrated(physics, accel, values).wf(),
{
    lemma_accelerated(physics, accel, values);
    let pushed = accelerated(physics, accel, values);
    lemma_slowed(pushed, accel.ground_friction as int);
    lemma_shrinks_norm(slowed(pushed, accel.ground_friction as int), pushed);
}

/// The accelerated ground speed is no longer than the top speed; where the
/// ground acceleration is zero it lengthens no component of the speed
/// before and turns none round.
pub proof fn lemma_accelerated(
    physics: PlatformingCharacterPhysics,
    accel: PlatformingCharacterPhysicsAccel,
    values: PlatformingCharacterValues,
)
    requires
        physics.wf(),
        accel.wf(),
        values.wf(),
    ensures
        accelerated(physics, accel, values).norm_sq() <= values.top_speed * values.top_speed,
        accelerated(physics, accel, values).within(values.top_speed as int),
        accel.ground_acceleration == Vec2::zero() ==> accelerated(physics, accel, values).shrinks(
            physics.ground_speed,
        ),
{
    let ga = accel.ground_acceleration;
    lemma_scale_toward_zero(ga.x as int, 1, 2);
    lemma_scale_toward_zero(ga.y as int, 1, 2);
    let push = if launched(physics, accel).is_grounded() { ga } else { ga.scaled(1, 2) };
    let sum = vec2(physics.ground_speed.x + push.x, physics.ground_speed.y + push.y);
    assert(sum.within(REACH as int));
    lemma_clamped_length(sum, values.top_speed as int);
    if ga == Vec2::zero() {
        assert(push == Vec2::zero());
        assert(sum == physics.ground_speed);
    }
}

/// A vector held to a length is no longer than it, lengthens no component
/// and turns none round.
pub proof fn lemma_clamped_length(v: Vec2, max: int)
    requires
        v.within(REACH as int),
        0 <= max <= LIMIT,
    ensures
        v.clamped_length(max).norm_sq() <= max * max,
        v.clamped_length(max).shrinks(v),
        v.clamped_length(max).within(max),
{
    let n = v.norm_sq();
    lemma_norm_of_magnitudes(v);
    if n > max * max {
        let len = v.length_up();
        crate::fixed::lemma_ceil_sqrt_bounds(n as nat);
        if len < max {
            lemma_square_monotone(len, max);
        }
        crate::vector::lemma_scaled_norm(v, max, len);
        lemma_scale_toward_zero(v.x as int, max, len);
        lemma_scale_toward_zero(v.y as int, max, len);
        let r = v.clamped_length(max);
        assert(r.x == scale_toward_zero(v.x as int, max, len));
        assert(r.y == scale_toward_zero(v.y as int, max, len));
        lemma_norm_bounds_components(r.x as int, r.y as int, max);
    } else {
        lemma_norm_bounds_components(v.x as int, v.y as int, max);
    }
}

/// While nothing accelerates along the ground, a tick lengthens no
/// component of the ground speed and turns none round: the speed never
/// swings through zero.
pub proof fn lemma_coasting_never_gains(
    physics: PlatformingCharacterPhysics,
    accel: PlatformingCharacterPhysicsAccel,
    values: PlatformingCharacterValues,
)
    requires
        physics.wf(),
        accel.wf(),
        values.wf(),
        accel.ground_acceleration == Vec2::zero(),
    ensures
        integrated(physics, accel, values).ground_speed.shrinks(physics.ground_speed),
        integrated(physics, accel, values).ground_speed.norm_sq() <= physics.ground_speed.norm_sq(),
        integrated(physics, accel, values).ground_speed.length() <= physics.ground_speed.length(),
{
    lemma_accelerated(physics, accel, values);
    let pushed = accelerated(physics, accel, values);
    lemma_slowed(pushed, accel.ground_friction as int);
    lemma_shrinks_norm(integrated(physics, accel, values).ground_speed, physics.ground_speed);
}

/// On the ground, with no ground acceleration and no jump, a tick of
/// friction takes at least the friction off the length of the ground
/// speed, and the character stays on the ground.
pub proof fn lemma_friction_takes_its_due(
    physics: PlatformingCharacterPhysics,
    accel: PlatformingCharacterPhysicsAccel,
    values: PlatformingCharacterValues,
)
    requires
        physics.wf(),
        accel.wf(),
        values.wf(),
        physics.air_speed.is_grounded(),
        accel.ground_acceleration == Vec2::zero(),
        accel.air_acceleration <= 0,
        accel.ground_friction > 0,
    ensures
        integrated(physics, accel, values).air_speed == physics.air_speed,
        integrated(physics, accel, values).wf(),
        integrated(physics, accel, values).ground_speed.length() <= length_after_friction(
            physics.ground_speed.length(),
            accel.ground_friction as int,
        ),
{
    lemma_accelerated(physics, accel, values);
    lemma_speed_within_top(physics, accel, values);
    let pushed = accelerated(physics, accel, values);
    lemma_shrinks_norm(pushed, physics.ground_speed);
    lemma_slowed(pushed, accel.ground_friction as int);
}

/// On the ground, with no input and no jump, the ground speed is exactly
/// zero as soon as the ticks times the friction reach its length.
pub proof fn lemma_coasting_stops(
    physics: PlatformingCharacterPhysics,
    accel: PlatformingCharacterPhysicsAccel,
    values: PlatformingCharacterValues,
    ticks: nat,
)
    requires
        physics.wf(),
        accel.wf(),
        values.wf(),
        physics.air_speed.is_grounded(),
        accel.ground_acceleration == Vec2::zero(),
        accel.air_acceleration <= 0,
        accel.ground_friction > 0,
    ensures
        coasted(physics, accel, values, ticks).wf(),
        coasted(physics, accel, values, ticks).air_speed == physics.air_speed,
        coasted(physics, accel, values, ticks).ground_speed.shrinks(physics.ground_speed),
        coasted(physics, accel, values, ticks).ground_speed.length() <= length_after_friction(
            physics.ground_speed.length(),
            ticks * accel.ground_friction,
        ),
        ticks * accel.ground_friction >= physics.ground_speed.length() ==> coasted(
            physics,
            accel,
            values,
            ticks,
        ).ground_speed == Vec2::zero(),
    decreases ticks,
{
    let f = accel.ground_friction as int;
    if ticks == 0 {
        assert(ticks * f == 0) by (nonlinear_arith)
            requires
                ticks == 0,
        ;
    } else {
        let before = coasted(physics, accel, values, (ticks - 1) as nat);
        lemma_coasting_stops(physics, accel, values, (ticks - 1) as nat);
        lemma_friction_takes_its_due(before, accel, values);
        lemma_coasting_never_gains(before, accel, values);
        assert(ticks * f == (ticks - 1) * f + f) by (nonlinear_arith);
    }
    let after = coasted(physics, accel, values, ticks).ground_speed;
    lemma_norm_of_magnitudes(physics.ground_speed);
    lemma_floor_sqrt_bounds(physics.ground_speed.norm_sq() as nat);
    if ticks * f >= physics.ground_speed.length() {
        assert(after.length() == 0);
        lemma_norm_of_magnitudes(after);
        lemma_floor_sqrt_bounds(after.norm_sq() as nat);
        let root = after.length();
        assert((root + 1) * (root + 1) == 1) by (nonlinear_arith)
            requires
                root == 0,
        ;
        assert(after.norm_sq() == 0);
        crate::vector::lemma_norm_sq_zero(after.x as int, after.y as int);
        assert(after.x == 0 && after.y == 0);
    }
}

/// Integration never puts a character on the ground: one that is in the
/// air before a tick is in the air after it.
pub proof fn lemma_integration_never_lands(
    physics: PlatformingCharacterPhysics,
    accel: PlatformingCharacterPhysicsAccel,
    values: PlatformingCharacterValues,
)
    requires
        !physics.air_speed.is_grounded(),
    ensures
        !integrated(physics, accel, values).air_speed.is_grounded(),
{
}

/// A grounded character with the jump pressed and a positive jump speed is
/// in the air at exactly the jump speed after planning and integrating one
/// tick, whatever the gravity and the top speed.
pub proof fn lemma_jump_launches(
    physics: PlatformingCharacterPhysics,
    accel: PlatformingCharacterPhysicsAccel,
    control: PlatformingCharacterControl,
    values: PlatformingCharacterValues,
)
    requires
        physics.air_speed.is_grounded(),
        control.jump_pressed,
        values.jump_speed > 0,
    ensures
        planned_accel(accel, physics, control, values).air_acceleration == values.jump_speed,
        launched(physics, planned_accel(accel, physics, control, values)) == AirSpeed::InAir(
            values.jump_speed,
        ),
        integrated(physics, planned_accel(accel, physics, control, values), values).air_speed
            == AirSpeed::InAir(values.jump_speed),
{
}

/// Whatever the accelerations, a grounded character with a positive air
/// acceleration is in the air at exactly that speed after a tick, and one
/// without stays as it stands.
pub proof fn lemma_launch_is_exact(
    physics: PlatformingCharacterPhysics,
    accel: PlatformingCharacterPhysicsAccel,
    values: PlatformingCharacterValues,
)
    requires
        physics.air_speed.is_grounded(),
    ensures
        integrated(physics, accel, values).air_speed == launched(physics, accel),
        accel.air_acceleration > 0 ==> integrated(physics, accel, values).air_speed
            == AirSpeed::InAir(accel.air_acceleration),
        accel.air_acceleration <= 0 ==> integrated(physics, accel, values).air_speed
            == physics.air_speed,
{
}

} // verus!
