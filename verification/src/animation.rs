//! What the animation shows of the movement state.

use vstd::prelude::*;
use crate::components::{AirSpeed, PlatformingCharacterPhysics};
use crate::fixed::UNIT;

verus! {

/// The clip for a character that stands.
pub const CLIP_IDLE: usize = 0;

/// The clip for a character that runs.
pub const CLIP_RUN: usize = 1;

/// The clip for a character that rises.
pub const CLIP_RISE: usize = 2;

/// The clip for a character that falls.
pub const CLIP_FALL: usize = 3;

/// The clip that fits the movement state: on the ground, running above a
/// ground speed of one unit and standing below; in the air, rising with a
/// positive air speed and falling without.
pub open spec fn clip_of(physics: PlatformingCharacterPhysics) -> usize {
    match physics.air_speed {
        AirSpeed::Grounded { .. } => if physics.ground_speed.norm_sq() > UNIT * UNIT {
            CLIP_RUN
        } else {
            CLIP_IDLE
        },
        AirSpeed::InAir(air_speed) => if air_speed > 0 {
            CLIP_RISE
        } else {
            CLIP_FALL
        },
    }
}

/// The clip that fits the movement state.
pub fn character_animation(physics: &PlatformingCharacterPhysics) -> (clip: usize)
    requires
        physics.wf(),
    ensures
        clip == clip_of(*physics),
{
    match physics.air_speed {
        AirSpeed::Grounded { .. } => {
            if physics.ground_speed.squared_length() > (UNIT * UNIT) as u64 {
                CLIP_RUN
            } else {
                CLIP_IDLE
            }
        },
        AirSpeed::InAir(air_speed) => {
            if air_speed > 0 {
                CLIP_RISE
            } else {
                CLIP_FALL
            }
        },
    }
}

} // verus!
