use platforming_character::animation::character_animation;
use platforming_character::collisions::{
    contact_counts, handle_collisions, store_wall_collision, Contact, ContactResponse,
};
use platforming_character::components::{
    AirSpeed, PlatformingCharacterAnimationFlags, PlatformingCharacterControl,
    PlatformingCharacterPhysics, PlatformingCharacterPhysicsAccel, PlatformingCharacterValues,
};
use platforming_character::corrector::{ground_cast_offset, push_out_of_ground};
use platforming_character::follower::{
    absorb_wall_collision, face_ground_speed, final_velocity, follow_slope, ground_cast_length,
    obstacle_cast_distance, settle_on_ground, slope_cast_spacing, turn_toward_wall,
    update_platforming_kinematic_from_physics, SlopeReading, TerrainReadings,
};
use platforming_character::integrator::update_platforming_physics;
use platforming_character::planner::update_platforming_accel_from_controls;
use platforming_character::sensors::CharacterSensor;
use platforming_character::vector::{Quat, Vec2, Vec3};

fn tuning() -> PlatformingCharacterValues {
    PlatformingCharacterValues {
        acceleration_speed: 500,
        air_acceleration_speed: 250,
        deceleration_speed: 700,
        top_speed: 15000,
        friction_speed: 300,
        gravity: -200,
        jump_speed: 2000,
        cushion_radius: 500,
        ground_detection_radius: 200,
        obstacle_detection_radius: 350,
        slope_cast_distance: 2000,
    }
}

fn identity() -> Quat {
    Quat { x: 0, y: 0, z: 0, w: 1000 }
}

fn grounded_at(angle: i64) -> PlatformingCharacterPhysics {
    let mut physics = PlatformingCharacterPhysics::spawn();
    physics.air_speed = AirSpeed::Grounded { angle, slope_quat: identity() };
    physics
}

fn flat_readings() -> TerrainReadings {
    TerrainReadings {
        wall_ahead: None,
        wall_normal_2d: Vec2 { x: 0, y: 0 },
        slope: Some(SlopeReading {
            front_distance: 500,
            back_distance: 500,
            angle: 0,
            rotation: identity(),
        }),
        ground_distance: Some(300),
        direction: Vec3 { x: 1000, y: 0, z: 0 },
        outgoing_velocity: Vec3 { x: 0, y: 0, z: 0 },
    }
}

const DOWN: Vec3 = Vec3 { x: 0, y: -1000, z: 0 };

#[test]
fn ground_direction_follows_only_a_speed_above_one_unit() {
    let mut physics = grounded_at(0);
    physics.ground_speed = Vec2 { x: 0, y: 1000 };
    face_ground_speed(&mut physics);
    assert_eq!(physics.ground_direction, Vec2 { x: 1000, y: 0 });
    physics.ground_speed = Vec2 { x: 0, y: -1001 };
    face_ground_speed(&mut physics);
    assert_eq!(physics.ground_direction, Vec2 { x: 0, y: -1000 });
    physics.ground_speed = Vec2 { x: 3000, y: 4000 };
    face_ground_speed(&mut physics);
    assert_eq!(physics.ground_direction, Vec2 { x: 600, y: 800 });
}

#[test]
fn steep_run_into_a_wall_starts_wall_running() {
    // grounded at 50 degrees, moving into a wall that faces -x
    let mut physics = grounded_at(873);
    let wall = Vec3 { x: -1000, y: 0, z: 0 };
    turn_toward_wall(&mut physics, Some(wall));
    assert!(physics.wall_running);
    assert_eq!(physics.ground_cast_direction, Vec3 { x: 1000, y: 0, z: 0 });
    // moving away: the ray finds nothing and nothing changes
    turn_toward_wall(&mut physics, None);
    assert!(physics.wall_running);
    assert_eq!(physics.ground_cast_direction, Vec3 { x: 1000, y: 0, z: 0 });
    // the ground probe finds nothing: into the air, off the wall
    let lv = Vec3 { x: 100, y: 2500, z: -300 };
    settle_on_ground(&mut physics, &tuning(), None, &lv);
    assert!(!physics.wall_running);
    assert_eq!(physics.air_speed, AirSpeed::InAir(2500));
    assert_eq!(physics.ground_speed, Vec2 { x: 100, y: -300 });
    assert_eq!(physics.ground_cast_direction, DOWN);
}

#[test]
fn wall_direction_is_level_and_of_unit_length() {
    let mut physics = grounded_at(-900);
    turn_toward_wall(&mut physics, Some(Vec3 { x: -300, y: 900, z: 400 }));
    assert!(physics.wall_running);
    assert_eq!(physics.ground_cast_direction, Vec3 { x: 600, y: 0, z: -800 });
}

#[test]
fn wall_without_level_direction_falls_back_to_the_ground_below() {
    let mut physics = grounded_at(900);
    physics.ground_cast_direction = Vec3 { x: 1000, y: 0, z: 0 };
    turn_toward_wall(&mut physics, Some(Vec3 { x: 0, y: 1000, z: 0 }));
    assert!(!physics.wall_running);
    assert_eq!(physics.ground_cast_direction, DOWN);
}

#[test]
fn leaving_a_wall_goes_to_ceiling_or_floor() {
    let mut physics = grounded_at(900);
    physics.wall_running = true;
    turn_toward_wall(&mut physics, Some(Vec3 { x: 300, y: -1000, z: 0 }));
    assert!(!physics.wall_running);
    assert_eq!(physics.ground_cast_direction, Vec3 { x: 0, y: 1000, z: 0 });
    physics.wall_running = true;
    turn_toward_wall(&mut physics, Some(Vec3 { x: 300, y: 1000, z: 0 }));
    assert_eq!(physics.ground_cast_direction, DOWN);
    physics.wall_running = true;
    turn_toward_wall(&mut physics, Some(Vec3 { x: 1000, y: 0, z: 0 }));
    assert!(!physics.wall_running);
    assert_eq!(physics.ground_cast_direction, DOWN);
}

#[test]
fn gentle_slope_or_air_ignores_the_wall_ahead() {
    let mut physics = grounded_at(785);
    let before = physics;
    turn_toward_wall(&mut physics, Some(Vec3 { x: -1000, y: 0, z: 0 }));
    assert_eq!(physics, before);
    let mut flying = PlatformingCharacterPhysics::spawn();
    let before = flying;
    turn_toward_wall(&mut flying, Some(Vec3 { x: -1000, y: 0, z: 0 }));
    assert_eq!(flying, before);
}

#[test]
fn wall_takes_a_fifth_of_the_speed_into_it() {
    let mut physics = grounded_at(0);
    physics.ground_speed = Vec2 { x: 3000, y: 0 };
    store_wall_collision(&mut physics, &Vec3 { x: 1000, y: 0, z: 0 });
    assert_eq!(physics.wall_collision_normal, Some(Vec3 { x: 1000, y: 0, z: 0 }));
    absorb_wall_collision(&mut physics, &Vec2 { x: 1000, y: 0 });
    assert_eq!(physics.ground_speed, Vec2 { x: 2400, y: 0 });
    assert_eq!(physics.wall_collision_normal, None);
    // used once: a second pass changes nothing
    absorb_wall_collision(&mut physics, &Vec2 { x: 1000, y: 0 });
    assert_eq!(physics.ground_speed, Vec2 { x: 2400, y: 0 });
}

#[test]
fn wall_along_the_speed_takes_nothing() {
    let mut physics = grounded_at(0);
    physics.ground_speed = Vec2 { x: 3000, y: 0 };
    store_wall_collision(&mut physics, &Vec3 { x: 0, y: 0, z: 1000 });
    absorb_wall_collision(&mut physics, &Vec2 { x: 0, y: 1000 });
    assert_eq!(physics.ground_speed, Vec2 { x: 3000, y: 0 });
    assert_eq!(physics.wall_collision_normal, None);
}

#[test]
fn wall_at_an_angle_keeps_the_direction() {
    let mut physics = grounded_at(0);
    physics.ground_speed = Vec2 { x: 3000, y: 4000 };
    store_wall_collision(&mut physics, &Vec3 { x: 1000, y: 0, z: 0 });
    // into the wall: 3000 of 5000, a fifth of that is 12 parts in 100
    absorb_wall_collision(&mut physics, &Vec2 { x: 1000, y: 0 });
    assert_eq!(physics.ground_speed, Vec2 { x: 2640, y: 3520 });
}

#[test]
fn zero_normal_or_zero_speed_only_empties_the_store() {
    let mut physics = grounded_at(0);
    physics.ground_speed = Vec2 { x: 3000, y: 0 };
    store_wall_collision(&mut physics, &Vec3 { x: 0, y: 1000, z: 0 });
    absorb_wall_collision(&mut physics, &Vec2 { x: 0, y: 0 });
    assert_eq!(physics.ground_speed, Vec2 { x: 3000, y: 0 });
    assert_eq!(physics.wall_collision_normal, None);
    physics.ground_speed = Vec2 { x: 0, y: 0 };
    store_wall_collision(&mut physics, &Vec3 { x: 1000, y: 0, z: 0 });
    absorb_wall_collision(&mut physics, &Vec2 { x: 1000, y: 0 });
    assert_eq!(physics.ground_speed, Vec2 { x: 0, y: 0 });
    assert_eq!(physics.wall_collision_normal, None);
}

#[test]
fn readings_and_contacts_tell_their_validity() {
    let mut readings = flat_readings();
    assert!(readings.is_valid());
    readings.direction = Vec3 { x: 1001, y: 0, z: 0 };
    assert!(!readings.is_valid());
    let mut readings = flat_readings();
    readings.ground_distance = Some(i64::MAX);
    assert!(readings.is_valid());
    readings.outgoing_velocity = Vec3 { x: 0, y: 500_000_001, z: 0 };
    assert!(!readings.is_valid());
    assert!(contact(50).is_valid());
    assert!(!contact(500_000_001).is_valid());
    let mut c = contact(50);
    c.global_normal1 = Vec3 { x: 0, y: 1001, z: 0 };
    assert!(!c.is_valid());
}

#[test]
fn probe_distances() {
    let v = tuning();
    assert_eq!(obstacle_cast_distance(&v), 150);
    assert_eq!(slope_cast_spacing(&v, true), 350);
    assert_eq!(slope_cast_spacing(&v, false), 500);
    assert_eq!(ground_cast_length(&v, &None), 400);
    let slope = SlopeReading {
        front_distance: 620,
        back_distance: 480,
        angle: 140,
        rotation: identity(),
    };
    assert_eq!(ground_cast_length(&v, &Some(slope)), 720);
    let other = SlopeReading { front_distance: 100, back_distance: 480, ..slope };
    assert_eq!(ground_cast_length(&v, &Some(other)), 580);
}

#[test]
fn slope_is_written_only_into_a_grounded_character() {
    let turn = Quat { x: 0, y: 0, z: 70, w: 997 };
    let slope = SlopeReading { front_distance: 620, back_distance: 480, angle: 140, rotation: turn };
    let mut physics = grounded_at(0);
    follow_slope(&mut physics, &Some(slope));
    assert_eq!(physics.air_speed, AirSpeed::Grounded { angle: 140, slope_quat: turn });
    follow_slope(&mut physics, &None);
    assert_eq!(physics.air_speed, AirSpeed::Grounded { angle: 140, slope_quat: turn });
    let mut flying = PlatformingCharacterPhysics::spawn();
    follow_slope(&mut flying, &Some(slope));
    assert_eq!(flying.air_speed, AirSpeed::InAir(0));
}

#[test]
fn landing_needs_near_ground_and_no_rise() {
    let v = tuning();
    let lv = Vec3 { x: 0, y: 0, z: 0 };
    let level = AirSpeed::Grounded { angle: 0, slope_quat: identity() };
    let mut physics = PlatformingCharacterPhysics::spawn();
    physics.air_speed = AirSpeed::InAir(1);
    settle_on_ground(&mut physics, &v, Some(100), &lv);
    assert_eq!(physics.air_speed, AirSpeed::InAir(1));
    physics.air_speed = AirSpeed::InAir(-500);
    settle_on_ground(&mut physics, &v, Some(301), &lv);
    assert_eq!(physics.air_speed, AirSpeed::InAir(-500));
    settle_on_ground(&mut physics, &v, None, &lv);
    assert_eq!(physics.air_speed, AirSpeed::InAir(-500));
    settle_on_ground(&mut physics, &v, Some(300), &lv);
    assert_eq!(physics.air_speed, level);
    physics.air_speed = AirSpeed::InAir(0);
    settle_on_ground(&mut physics, &v, Some(0), &lv);
    assert_eq!(physics.air_speed, level);
}

#[test]
fn grounded_character_stays_on_ground_that_the_probe_found() {
    let mut physics = grounded_at(300);
    let before = physics;
    settle_on_ground(&mut physics, &tuning(), Some(399), &Vec3 { x: 9, y: 9, z: 9 });
    assert_eq!(physics, before);
}

#[test]
fn velocity_runs_along_the_direction() {
    let mut physics = grounded_at(0);
    let v = final_velocity(&mut physics, &Vec3 { x: 600, y: 800, z: 0 }, 5000);
    assert_eq!(v, Vec3 { x: 3000, y: 4000, z: 0 });
    let mut flying = PlatformingCharacterPhysics::spawn();
    flying.air_speed = AirSpeed::InAir(-700);
    flying.ground_cast_direction = Vec3 { x: 1000, y: 0, z: 0 };
    let v = final_velocity(&mut flying, &Vec3 { x: 600, y: 800, z: 0 }, 5000);
    assert_eq!(v, Vec3 { x: 3000, y: -700, z: 0 });
    assert_eq!(flying.ground_cast_direction, DOWN);
}

#[test]
fn whole_pass_on_level_ground() {
    let mut physics = grounded_at(0);
    physics.ground_speed = Vec2 { x: 0, y: 2000 };
    let mut readings = flat_readings();
    readings.direction = Vec3 { x: 0, y: 0, z: 1000 };
    let v = update_platforming_kinematic_from_physics(&mut physics, &tuning(), &readings);
    assert_eq!(v, Vec3 { x: 0, y: 0, z: 2000 });
    assert_eq!(physics.ground_direction, Vec2 { x: 0, y: 1000 });
    assert_eq!(physics.air_speed, AirSpeed::Grounded { angle: 0, slope_quat: identity() });
    assert_eq!(physics.ground_cast_direction, DOWN);
}

#[test]
fn whole_pass_off_a_ledge_keeps_the_momentum() {
    let mut physics = grounded_at(0);
    physics.ground_speed = Vec2 { x: 3000, y: 4000 };
    store_wall_collision(&mut physics, &Vec3 { x: 1000, y: 0, z: 0 });
    let readings = TerrainReadings {
        wall_ahead: None,
        wall_normal_2d: Vec2 { x: 1000, y: 0 },
        slope: None,
        ground_distance: None,
        direction: Vec3 { x: 600, y: 0, z: 800 },
        outgoing_velocity: Vec3 { x: 2900, y: -50, z: 3900 },
    };
    let v = update_platforming_kinematic_from_physics(&mut physics, &tuning(), &readings);
    // the damped speed (2640, 3520) has length 4400
    assert_eq!(v, Vec3 { x: 2640, y: -50, z: 3520 });
    assert_eq!(physics.air_speed, AirSpeed::InAir(-50));
    assert_eq!(physics.ground_speed, Vec2 { x: 2900, y: 3900 });
    assert_eq!(physics.wall_collision_normal, None);
    assert!(!physics.wall_running);
    assert_eq!(physics.ground_cast_direction, DOWN);
}

#[test]
fn whole_pass_never_lands_a_rising_character() {
    let mut physics = PlatformingCharacterPhysics::spawn();
    physics.air_speed = AirSpeed::InAir(3800);
    let v = update_platforming_kinematic_from_physics(&mut physics, &tuning(), &flat_readings());
    assert_eq!(physics.air_speed, AirSpeed::InAir(3800));
    assert_eq!(v, Vec3 { x: 0, y: 3800, z: 0 });
    physics.air_speed = AirSpeed::InAir(-3800);
    let v = update_platforming_kinematic_from_physics(&mut physics, &tuning(), &flat_readings());
    assert_eq!(physics.air_speed, AirSpeed::Grounded { angle: 0, slope_quat: identity() });
    assert_eq!(v, Vec3 { x: 0, y: 0, z: 0 });
}

#[test]
fn character_above_the_cushion_is_pulled_to_the_surface() {
    // resting 0.05 above the wanted distance
    let physics = grounded_at(0);
    let v = tuning();
    let normal = Vec3 { x: 0, y: -1000, z: 0 };
    assert_eq!(ground_cast_offset(&physics, &v, Some(350)), 50);
    let shift = push_out_of_ground(&physics, &v, Some(350), &normal);
    assert_eq!(shift, Vec3 { x: 0, y: -50, z: 0 });
    // moved by that, the character rests at the wanted distance and stays
    let shift = push_out_of_ground(&physics, &v, Some(350 - 50), &normal);
    assert_eq!(shift, Vec3 { x: 0, y: 0, z: 0 });
}

#[test]
fn character_inside_the_ground_is_pushed_out() {
    let physics = grounded_at(0);
    let normal = Vec3 { x: 0, y: -1000, z: 0 };
    let shift = push_out_of_ground(&physics, &tuning(), Some(120), &normal);
    assert_eq!(shift, Vec3 { x: 0, y: 180, z: 0 });
    let tilted = Vec3 { x: 600, y: -800, z: 0 };
    let shift = push_out_of_ground(&physics, &tuning(), Some(200), &tilted);
    assert_eq!(shift, Vec3 { x: -60, y: 80, z: 0 });
}

#[test]
fn no_correction_within_epsilon_in_the_air_or_without_ground() {
    let physics = grounded_at(0);
    let v = tuning();
    let normal = Vec3 { x: 0, y: -1000, z: 0 };
    let zero = Vec3 { x: 0, y: 0, z: 0 };
    assert_eq!(push_out_of_ground(&physics, &v, Some(301), &normal), zero);
    assert_eq!(push_out_of_ground(&physics, &v, Some(299), &normal), zero);
    assert_eq!(ground_cast_offset(&physics, &v, Some(302)), 2);
    assert_eq!(ground_cast_offset(&physics, &v, Some(298)), -2);
    assert_eq!(push_out_of_ground(&physics, &v, None, &normal), zero);
    let flying = PlatformingCharacterPhysics::spawn();
    assert_eq!(push_out_of_ground(&flying, &v, Some(450), &normal), zero);
}

fn contact(penetration: i64) -> Contact {
    Contact {
        penetration,
        normal1: Vec3 { x: 1000, y: 0, z: 0 },
        normal2: Vec3 { x: -1000, y: 0, z: 0 },
        global_normal1: Vec3 { x: 0, y: 600, z: -800 },
    }
}

#[test]
fn kinematic_first_body_moves_against_the_normal() {
    let r = handle_collisions(Some(true), Some(false), &contact(50));
    assert_eq!(
        r,
        ContactResponse::FirstMoved {
            shift: Vec3 { x: 0, y: -30, z: 40 },
            wall_normal: Vec3 { x: 1000, y: 0, z: 0 },
        }
    );
}

#[test]
fn kinematic_second_body_moves_along_the_normal() {
    let r = handle_collisions(Some(false), Some(true), &contact(50));
    assert_eq!(
        r,
        ContactResponse::SecondMoved {
            shift: Vec3 { x: 0, y: 30, z: -40 },
            wall_normal: Vec3 { x: -1000, y: 0, z: 0 },
        }
    );
}

#[test]
fn other_contacts_are_ignored() {
    assert_eq!(handle_collisions(Some(true), Some(false), &contact(0)), ContactResponse::Ignored);
    assert_eq!(handle_collisions(Some(true), Some(false), &contact(-5)), ContactResponse::Ignored);
    assert_eq!(handle_collisions(Some(true), Some(true), &contact(50)), ContactResponse::Ignored);
    assert_eq!(handle_collisions(Some(false), Some(false), &contact(50)), ContactResponse::Ignored);
    assert_eq!(handle_collisions(None, Some(true), &contact(50)), ContactResponse::Ignored);
    assert_eq!(handle_collisions(Some(true), None, &contact(50)), ContactResponse::Ignored);
    assert_eq!(handle_collisions(None, None, &contact(50)), ContactResponse::Ignored);
}

#[test]
fn contact_outside_the_substep_changes_nothing() {
    assert_eq!(
        contact_counts(false, Some(true), Some(false), &contact(50)),
        ContactResponse::Ignored
    );
    assert_eq!(
        contact_counts(false, Some(false), Some(true), &contact(50)),
        ContactResponse::Ignored
    );
    assert_eq!(
        contact_counts(true, Some(true), Some(false), &contact(50)),
        handle_collisions(Some(true), Some(false), &contact(50))
    );
    assert_eq!(
        contact_counts(true, Some(false), Some(true), &contact(50)),
        ContactResponse::SecondMoved {
            shift: Vec3 { x: 0, y: 30, z: -40 },
            wall_normal: Vec3 { x: -1000, y: 0, z: 0 },
        }
    );
    assert_eq!(contact_counts(true, Some(true), Some(true), &contact(50)), ContactResponse::Ignored);
}

#[test]
fn stored_wall_collision_lasts_one_terrain_pass() {
    let mut physics = grounded_at(0);
    store_wall_collision(&mut physics, &Vec3 { x: 1000, y: 0, z: 0 });
    update_platforming_kinematic_from_physics(&mut physics, &tuning(), &flat_readings());
    assert_eq!(physics.wall_collision_normal, None);
}

#[test]
fn rest_is_kept_over_many_ticks() {
    let v = tuning();
    let mut physics = grounded_at(0);
    let mut accel = PlatformingCharacterPhysicsAccel {
        ground_acceleration: Vec2 { x: 0, y: 0 },
        ground_friction: 0,
        air_acceleration: 0,
    };
    let mut control = PlatformingCharacterControl {
        move_input: Vec2 { x: 0, y: 0 },
        facing_2d: Vec2 { x: 1000, y: 0 },
        jump_pressed: false,
    };
    let mut flags = PlatformingCharacterAnimationFlags { skidding: false };
    let readings = flat_readings();
    let start = physics;
    let start_control = control;
    for _ in 0..50 {
        update_platforming_accel_from_controls(&mut accel, &physics, &mut control, &v, &mut flags);
        update_platforming_physics(&mut physics, &accel, &v);
        let velocity = update_platforming_kinematic_from_physics(&mut physics, &v, &readings);
        assert_eq!(velocity, Vec3 { x: 0, y: 0, z: 0 });
        let shift = push_out_of_ground(&physics, &v, readings.ground_distance, &DOWN);
        assert_eq!(shift, Vec3 { x: 0, y: 0, z: 0 });
        assert_eq!(physics, start);
        assert_eq!(control, start_control);
    }
}

#[test]
fn animation_shows_the_movement() {
    let mut physics = grounded_at(0);
    assert_eq!(character_animation(&physics), 0);
    physics.ground_speed = Vec2 { x: 1000, y: 0 };
    assert_eq!(character_animation(&physics), 0);
    physics.ground_speed = Vec2 { x: 1000, y: 1 };
    assert_eq!(character_animation(&physics), 1);
    physics.air_speed = AirSpeed::InAir(1);
    assert_eq!(character_animation(&physics), 2);
    physics.air_speed = AirSpeed::InAir(0);
    assert_eq!(character_animation(&physics), 3);
    physics.air_speed = AirSpeed::InAir(-1);
    assert_eq!(character_animation(&physics), 3);
}

#[test]
fn sensors_have_their_places() {
    assert_eq!(CharacterSensor::COUNT, 2);
    assert_eq!(CharacterSensor::FloorFront.index(), 0);
    assert_eq!(CharacterSensor::FloorBack.index(), 1);
    assert_eq!(CharacterSensor::from_repr(0), Some(CharacterSensor::FloorFront));
    assert_eq!(CharacterSensor::from_repr(1), Some(CharacterSensor::FloorBack));
    assert_eq!(CharacterSensor::from_repr(2), None);
}
