use platforming_character::components::{
    AirSpeed, PlatformingCharacterAnimationFlags, PlatformingCharacterControl,
    PlatformingCharacterPhysics, PlatformingCharacterPhysicsAccel, PlatformingCharacterValues,
};
use platforming_character::fixed::{
    clamp, isqrt, isqrt_ceil, isqrt_wide, isqrt_wide_ceil, mul_fixed, scale,
};
use platforming_character::integrator::{slow, update_platforming_physics};
use platforming_character::planner::update_platforming_accel_from_controls;
use platforming_character::vector::{Quat, Vec2, Vec3};

fn values() -> PlatformingCharacterValues {
    PlatformingCharacterValues {
        acceleration_speed: 500,
        air_acceleration_speed: 250,
        deceleration_speed: 700,
        top_speed: 15000,
        friction_speed: 300,
        gravity: -200,
        jump_speed: 2000,
        cushion_radius: 500,
        ground_detection_radius: 200,
        obstacle_detection_radius: 350,
        slope_cast_distance: 2000,
    }
}

fn level() -> AirSpeed {
    AirSpeed::Grounded { angle: 0, slope_quat: Quat { x: 0, y: 0, z: 0, w: 1000 } }
}

fn standing() -> PlatformingCharacterPhysics {
    let mut physics = PlatformingCharacterPhysics::spawn();
    physics.air_speed = level();
    physics
}

fn no_accel() -> PlatformingCharacterPhysicsAccel {
    PlatformingCharacterPhysicsAccel {
        ground_acceleration: Vec2 { x: 0, y: 0 },
        ground_friction: 0,
        air_acceleration: 0,
    }
}

fn control(x: i64, y: i64, jump: bool) -> PlatformingCharacterControl {
    PlatformingCharacterControl {
        move_input: Vec2 { x, y },
        facing_2d: Vec2 { x: 1000, y: 0 },
        jump_pressed: jump,
    }
}

#[test]
fn isqrt_rounds_down() {
    assert_eq!(isqrt(0), 0);
    assert_eq!(isqrt(1), 1);
    assert_eq!(isqrt(3), 1);
    assert_eq!(isqrt(4), 2);
    assert_eq!(isqrt(24), 4);
    assert_eq!(isqrt(25), 5);
    assert_eq!(isqrt(25_000_000), 5000);
    assert_eq!(isqrt(u64::MAX), 4_294_967_295);
}

#[test]
fn isqrt_ceil_rounds_up() {
    assert_eq!(isqrt_ceil(0), 0);
    assert_eq!(isqrt_ceil(1), 1);
    assert_eq!(isqrt_ceil(2), 2);
    assert_eq!(isqrt_ceil(49), 7);
    assert_eq!(isqrt_ceil(50), 8);
    assert_eq!(isqrt_ceil(u64::MAX), 4_294_967_296);
}

#[test]
fn scale_rounds_toward_zero() {
    assert_eq!(scale(7, 1, 2), 3);
    assert_eq!(scale(-7, 1, 2), -3);
    assert_eq!(scale(5000, 4700, 5000), 4700);
    assert_eq!(scale(0, 3, 4), 0);
    assert_eq!(scale(3000, 1000, 5000), 600);
}

#[test]
fn mul_fixed_is_a_product_of_thousandths() {
    assert_eq!(mul_fixed(500, 1000), 500);
    assert_eq!(mul_fixed(1200, -500), -600);
    assert_eq!(mul_fixed(-1200, -500), 600);
    assert_eq!(mul_fixed(-1, 999), 0);
    assert_eq!(mul_fixed(50, 0), 0);
}

#[test]
fn clamp_holds_to_range() {
    assert_eq!(clamp(5, -3, 3), 3);
    assert_eq!(clamp(-5, -3, 3), -3);
    assert_eq!(clamp(2, -3, 3), 2);
}

#[test]
fn vector_lengths() {
    let v = Vec2 { x: 3000, y: -4000 };
    assert_eq!(v.squared_length(), 25_000_000);
    assert_eq!(v.floor_length(), 5000);
    assert_eq!(v.ceil_length(), 5000);
    let w = Vec2 { x: 5, y: 5 };
    assert_eq!(w.floor_length(), 7);
    assert_eq!(w.ceil_length(), 8);
    assert!(Vec2 { x: 0, y: 0 }.is_zero());
    assert!(!w.is_zero());
    assert_eq!(v.inner(&w), -5000);
}

#[test]
fn normalize_gives_a_unit_vector_or_zero() {
    assert_eq!(Vec2 { x: 3000, y: -4000 }.normalize_or_zero(), Vec2 { x: 600, y: -800 });
    assert_eq!(Vec2 { x: 0, y: 7 }.normalize_or_zero(), Vec2 { x: 0, y: 1000 });
    assert_eq!(Vec2 { x: 0, y: 0 }.normalize_or_zero(), Vec2 { x: 0, y: 0 });
    // short vectors are normalized as finely as long ones
    assert_eq!(Vec2 { x: 1, y: 1 }.normalize_or_zero(), Vec2 { x: 706, y: 706 });
    assert_eq!(Vec2 { x: -1, y: 0 }.normalize_or_zero(), Vec2 { x: -1000, y: 0 });
    let long = Vec2 { x: 1_500_000_000, y: -1_500_000_000 }.normalize_or_zero();
    assert_eq!(long, Vec2 { x: 707, y: -707 });
}

#[test]
fn directions_are_not_zero_and_at_most_a_unit_long() {
    assert!(Vec2 { x: 600, y: -800 }.points());
    assert!(Vec2 { x: 1, y: 0 }.points());
    assert!(!Vec2 { x: 0, y: 0 }.points());
    assert!(!Vec2 { x: 800, y: 800 }.points());
    assert!(!Vec2 { x: 1001, y: 0 }.points());
    assert!(Vec3::new_down().points());
    assert!(Vec3::new_up().points());
    assert_eq!(Vec3::new_up(), Vec3 { x: 0, y: 1000, z: 0 });
    assert!(Vec3::new_level(&Vec2 { x: 600, y: -800 }).points());
    assert_eq!(Vec3::new_level(&Vec2 { x: 600, y: -800 }), Vec3 { x: 600, y: 0, z: -800 });
    assert!(!Vec3 { x: 600, y: 600, z: 600 }.points());
    assert!(!Vec3 { x: 0, y: 0, z: 0 }.points());
}

#[test]
fn wide_roots() {
    assert_eq!(isqrt_wide(0), 0);
    assert_eq!(isqrt_wide(2_000_000), 1414);
    assert_eq!(isqrt_wide_ceil(2_000_000), 1415);
    assert_eq!(isqrt_wide(25_000_000_000_000), 5_000_000);
    assert_eq!(isqrt_wide_ceil(25_000_000_000_000), 5_000_000);
    assert_eq!(isqrt_wide((1u128 << 96) - 1), (1u128 << 48) - 1);
    assert_eq!(isqrt_wide_ceil((1u128 << 96) - 1), 1u128 << 48);
}

#[test]
fn validity_is_told() {
    let mut p = PlatformingCharacterPhysics::spawn();
    assert!(p.is_valid());
    p.ground_cast_direction = Vec3 { x: 0, y: 0, z: 0 };
    assert!(!p.is_valid());
    p.ground_cast_direction = Vec3 { x: 0, y: -1000, z: 0 };
    p.ground_speed = Vec2 { x: 500_000_001, y: 0 };
    assert!(!p.is_valid());
    p.ground_speed = Vec2 { x: 500_000_000, y: -500_000_000 };
    assert!(p.is_valid());
    p.air_speed = AirSpeed::InAir(-500_000_001);
    assert!(!p.is_valid());
    let mut v = values();
    assert!(v.is_valid());
    v.top_speed = -1;
    assert!(!v.is_valid());
    let mut v = values();
    v.cushion_radius = -1;
    assert!(!v.is_valid());
    let mut a = no_accel();
    assert!(a.is_valid());
    a.ground_friction = -1;
    assert!(!a.is_valid());
    a.ground_friction = 0;
    a.ground_acceleration = Vec2 { x: 1_000_000_001, y: 0 };
    assert!(!a.is_valid());
    assert!(control(1000, -1000, true).is_valid());
    assert!(!control(1001, 0, false).is_valid());
}

#[test]
fn clamp_length_shortens_only_what_is_longer() {
    assert_eq!(Vec2 { x: 3000, y: 4000 }.clamp_length(2500), Vec2 { x: 1500, y: 2000 });
    assert_eq!(Vec2 { x: 3000, y: 4000 }.clamp_length(5000), Vec2 { x: 3000, y: 4000 });
    assert_eq!(Vec2 { x: 5, y: 5 }.clamp_length(7), Vec2 { x: 4, y: 4 });
    assert_eq!(Vec2 { x: -9, y: 0 }.clamp_length(0), Vec2 { x: 0, y: 0 });
}

#[test]
fn vec3_scale_scales_each_component() {
    let d = Vec3 { x: 600, y: 0, z: -800 };
    assert_eq!(d.scale(5000, 1000), Vec3 { x: 3000, y: 0, z: -4000 });
    assert_eq!(d.scale(1, 2), Vec3 { x: 300, y: 0, z: -400 });
}

#[test]
fn spawned_character_falls_at_rest() {
    let p = PlatformingCharacterPhysics::spawn();
    assert_eq!(p.ground_speed, Vec2 { x: 0, y: 0 });
    assert_eq!(p.ground_direction, Vec2 { x: 1000, y: 0 });
    assert_eq!(p.ground_cast_direction, Vec3 { x: 0, y: -1000, z: 0 });
    assert_eq!(p.air_speed, AirSpeed::InAir(0));
    assert!(!p.wall_running);
    assert_eq!(p.wall_collision_normal, None);
    assert_eq!(p.overall_rotation, Quat::new_identity());
    assert_eq!(p.ceiling_run_quat, None);
    assert!(!p.air_speed.grounded());
    assert!(level().grounded());
}

#[test]
fn steep_is_beyond_an_eighth_of_a_turn() {
    let q = Quat::new_identity();
    assert!(!AirSpeed::Grounded { angle: 785, slope_quat: q }.steep());
    assert!(AirSpeed::Grounded { angle: 786, slope_quat: q }.steep());
    assert!(AirSpeed::Grounded { angle: -786, slope_quat: q }.steep());
    assert!(!AirSpeed::Grounded { angle: -785, slope_quat: q }.steep());
    assert!(!AirSpeed::InAir(5000).steep());
}

#[test]
fn desired_distance_is_cushion_less_footprint() {
    assert_eq!(values().desired_distance(), 300);
}

#[test]
fn planner_accelerates_along_input_on_the_ground() {
    let physics = standing();
    let mut accel = no_accel();
    accel.ground_friction = 300;
    let mut c = control(600, -800, false);
    let mut flags = PlatformingCharacterAnimationFlags { skidding: true };
    update_platforming_accel_from_controls(&mut accel, &physics, &mut c, &values(), &mut flags);
    assert_eq!(accel.ground_acceleration, Vec2 { x: 300, y: -400 });
    assert_eq!(accel.ground_friction, 0);
    assert_eq!(accel.air_acceleration, 0);
    assert_eq!(c.move_input, Vec2 { x: 0, y: 0 });
    assert_eq!(c.facing_2d, Vec2 { x: 600, y: -800 });
    // no ground speed: the flag is left as it was
    assert!(flags.skidding);
}

#[test]
fn planner_uses_air_acceleration_in_the_air() {
    let physics = PlatformingCharacterPhysics::spawn();
    let mut accel = no_accel();
    accel.air_acceleration = 2000;
    let mut c = control(1000, 0, false);
    let mut flags = PlatformingCharacterAnimationFlags { skidding: false };
    update_platforming_accel_from_controls(&mut accel, &physics, &mut c, &values(), &mut flags);
    assert_eq!(accel.ground_acceleration, Vec2 { x: 250, y: 0 });
    // in the air without the jump pressed the air acceleration is dropped
    assert_eq!(accel.air_acceleration, 0);
}

#[test]
fn planner_keeps_air_acceleration_while_jump_is_held_in_the_air() {
    let physics = PlatformingCharacterPhysics::spawn();
    let mut accel = no_accel();
    accel.air_acceleration = 2000;
    let mut c = control(0, 0, true);
    let mut flags = PlatformingCharacterAnimationFlags { skidding: false };
    update_platforming_accel_from_controls(&mut accel, &physics, &mut c, &values(), &mut flags);
    assert_eq!(accel.air_acceleration, 2000);
}

#[test]
fn planner_adds_deceleration_and_skids_against_the_speed() {
    let mut physics = standing();
    physics.ground_speed = Vec2 { x: 5000, y: 0 };
    let mut accel = no_accel();
    let mut c = control(-1000, 0, false);
    let mut flags = PlatformingCharacterAnimationFlags { skidding: false };
    update_platforming_accel_from_controls(&mut accel, &physics, &mut c, &values(), &mut flags);
    assert_eq!(accel.ground_acceleration, Vec2 { x: -1200, y: 0 });
    assert!(flags.skidding);
}

#[test]
fn planner_does_not_skid_at_a_quarter_turn_or_less() {
    let mut physics = standing();
    physics.ground_speed = Vec2 { x: 5000, y: 0 };
    let mut accel = no_accel();
    let mut c = control(0, 1000, false);
    let mut flags = PlatformingCharacterAnimationFlags { skidding: true };
    update_platforming_accel_from_controls(&mut accel, &physics, &mut c, &values(), &mut flags);
    assert_eq!(accel.ground_acceleration, Vec2 { x: 0, y: 500 });
    assert!(!flags.skidding);
}

#[test]
fn planner_without_input_plans_friction() {
    let mut physics = standing();
    physics.ground_speed = Vec2 { x: 5000, y: 0 };
    let mut accel = no_accel();
    accel.ground_acceleration = Vec2 { x: 9, y: 9 };
    let mut c = control(0, 0, false);
    let before = c;
    let mut flags = PlatformingCharacterAnimationFlags { skidding: true };
    update_platforming_accel_from_controls(&mut accel, &physics, &mut c, &values(), &mut flags);
    assert_eq!(accel.ground_acceleration, Vec2 { x: 0, y: 0 });
    assert_eq!(accel.ground_friction, 300);
    assert_eq!(c, before);
    assert!(flags.skidding);
}

#[test]
fn planner_asks_for_a_jump_from_the_ground() {
    let physics = standing();
    let mut accel = no_accel();
    let mut c = control(0, 0, true);
    let mut flags = PlatformingCharacterAnimationFlags { skidding: false };
    update_platforming_accel_from_controls(&mut accel, &physics, &mut c, &values(), &mut flags);
    assert_eq!(accel.air_acceleration, 2000);
}

#[test]
fn friction_takes_its_amount_off_the_speed() {
    // ground speed (5, 0), friction 0.3, no input, level ground, one tick
    let mut physics = standing();
    physics.ground_speed = Vec2 { x: 5000, y: 0 };
    let mut accel = no_accel();
    let mut c = control(0, 0, false);
    let mut flags = PlatformingCharacterAnimationFlags { skidding: false };
    update_platforming_accel_from_controls(&mut accel, &physics, &mut c, &values(), &mut flags);
    update_platforming_physics(&mut physics, &accel, &values());
    assert_eq!(physics.ground_speed, Vec2 { x: 4700, y: 0 });
    assert_eq!(physics.air_speed, level());
}

#[test]
fn slow_snaps_to_zero_where_friction_would_overshoot() {
    assert_eq!(slow(&Vec2 { x: 200, y: 0 }, 300), Vec2 { x: 0, y: 0 });
    assert_eq!(slow(&Vec2 { x: 300, y: 0 }, 300), Vec2 { x: 0, y: 0 });
    assert_eq!(slow(&Vec2 { x: 0, y: -301 }, 300), Vec2 { x: 0, y: -1 });
    assert_eq!(slow(&Vec2 { x: 3000, y: 4000 }, 300), Vec2 { x: 2820, y: 3760 });
    assert_eq!(slow(&Vec2 { x: 3000, y: 4000 }, 0), Vec2 { x: 3000, y: 4000 });
}

#[test]
fn coasting_never_gains_and_stops_in_time() {
    let v = values();
    let mut physics = standing();
    physics.ground_speed = Vec2 { x: 3000, y: -4000 };
    let mut accel = no_accel();
    let mut c = control(0, 0, false);
    let mut flags = PlatformingCharacterAnimationFlags { skidding: false };
    // length 5000, friction 300: zero after at most 17 ticks
    let mut ticks = 0;
    while physics.ground_speed != (Vec2 { x: 0, y: 0 }) {
        let before = physics.ground_speed;
        update_platforming_accel_from_controls(&mut accel, &physics, &mut c, &v, &mut flags);
        update_platforming_physics(&mut physics, &accel, &v);
        let after = physics.ground_speed;
        assert!(after.x >= 0 && after.x <= before.x);
        assert!(after.y <= 0 && after.y >= before.y);
        assert!(after.floor_length() + 300 <= before.floor_length() || after.is_zero());
        ticks += 1;
        assert!(ticks <= 17);
    }
    assert_eq!(ticks, 17);
    update_platforming_physics(&mut physics, &accel, &v);
    assert_eq!(physics.ground_speed, Vec2 { x: 0, y: 0 });
}

#[test]
fn ground_speed_is_held_to_top_speed() {
    let mut v = values();
    v.top_speed = 5000;
    let mut physics = standing();
    physics.ground_speed = Vec2 { x: 2000, y: 3000 };
    let mut accel = no_accel();
    accel.ground_acceleration = Vec2 { x: 4000, y: 5000 };
    update_platforming_physics(&mut physics, &accel, &v);
    // (6000, 8000) has length 10000 and is halved
    assert_eq!(physics.ground_speed, Vec2 { x: 3000, y: 4000 });
    let mut wild = values();
    wild.top_speed = 7;
    physics.ground_speed = Vec2 { x: 5, y: 5 };
    accel.ground_acceleration = Vec2 { x: 1_000_000_000, y: -1_000_000_000 };
    update_platforming_physics(&mut physics, &accel, &wild);
    assert!(physics.ground_speed.squared_length() <= 49);
}

#[test]
fn air_control_is_halved() {
    let mut physics = PlatformingCharacterPhysics::spawn();
    physics.ground_speed = Vec2 { x: 1000, y: 0 };
    let mut accel = no_accel();
    accel.ground_acceleration = Vec2 { x: 250, y: -501 };
    accel.ground_friction = 300;
    update_platforming_physics(&mut physics, &accel, &values());
    // no friction in the air
    assert_eq!(physics.ground_speed, Vec2 { x: 1125, y: -250 });
    assert_eq!(physics.air_speed, AirSpeed::InAir(-200));
}

#[test]
fn air_speed_is_held_between_the_top_speeds() {
    let v = values();
    let mut physics = PlatformingCharacterPhysics::spawn();
    physics.air_speed = AirSpeed::InAir(-14900);
    update_platforming_physics(&mut physics, &no_accel(), &v);
    assert_eq!(physics.air_speed, AirSpeed::InAir(-15000));
    physics.air_speed = AirSpeed::InAir(14000);
    let mut accel = no_accel();
    accel.air_acceleration = 2000;
    update_platforming_physics(&mut physics, &accel, &v);
    assert_eq!(physics.air_speed, AirSpeed::InAir(15000));
}

#[test]
fn jump_leaves_the_ground() {
    let v = values();
    let mut physics = standing();
    let mut accel = no_accel();
    let mut c = control(0, 0, true);
    let mut flags = PlatformingCharacterAnimationFlags { skidding: false };
    update_platforming_accel_from_controls(&mut accel, &physics, &mut c, &v, &mut flags);
    update_platforming_physics(&mut physics, &accel, &v);
    // in the air at exactly the jump speed
    assert_eq!(physics.air_speed, AirSpeed::InAir(2000));
    assert_eq!(physics.ground_speed, Vec2 { x: 0, y: 0 });
    // the next tick adds the air acceleration and the gravity
    update_platforming_physics(&mut physics, &accel, &v);
    assert_eq!(physics.air_speed, AirSpeed::InAir(3800));
}

#[test]
fn launch_is_not_held_to_top_speed_nor_slowed() {
    let mut v = values();
    v.top_speed = 1500;
    let mut physics = standing();
    physics.ground_speed = Vec2 { x: 1000, y: 0 };
    let accel = PlatformingCharacterPhysicsAccel {
        ground_acceleration: Vec2 { x: 200, y: 0 },
        ground_friction: 300,
        air_acceleration: 2000,
    };
    update_platforming_physics(&mut physics, &accel, &v);
    assert_eq!(physics.air_speed, AirSpeed::InAir(2000));
    // half the ground acceleration, and no friction, in the tick of the launch
    assert_eq!(physics.ground_speed, Vec2 { x: 1100, y: 0 });
    // once in the air the air speed is held to the top speed
    update_platforming_physics(&mut physics, &accel, &v);
    assert_eq!(physics.air_speed, AirSpeed::InAir(1500));
}

#[test]
fn no_jump_without_positive_air_acceleration() {
    let mut physics = standing();
    let mut accel = no_accel();
    accel.air_acceleration = 0;
    update_platforming_physics(&mut physics, &accel, &values());
    assert_eq!(physics.air_speed, level());
    accel.air_acceleration = -5;
    update_platforming_physics(&mut physics, &accel, &values());
    assert_eq!(physics.air_speed, level());
}
