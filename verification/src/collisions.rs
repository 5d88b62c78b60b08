//! Collision recording: what a contact between two bodies does to the
//! position of a kinematic character, and the wall normal that it leaves
//! for the next terrain pass.

use vstd::prelude::*;
use crate::components::PlatformingCharacterPhysics;
use crate::fixed::{fits_limit, in_limit, mul_fixed, mul_units, LIMIT, UNIT};
use crate::vector::{vec3, Vec3};

verus! {

/// One contact point between two bodies, as the host's collision
/// detection reports it.
#[derive(Clone, Copy, Debug, PartialEq, Eq, Structural)]
pub struct Contact {
    /// How deep the bodies overlap.
    pub penetration: i64,
    /// The contact normal on the first body, in its own frame.
    pub normal1: Vec3,
    /// The contact normal on the second body, in its own frame.
    pub normal2: Vec3,
    /// The contact normal on the first body, in the frame of the world.
    pub global_normal1: Vec3,
}

/// What a contact asks of the host.
#[derive(Clone, Copy, Debug, PartialEq, Eq, Structural)]
pub enum ContactResponse {
    /// Nothing moves.
    Ignored,
    /// The first body moves by `shift` and remembers `wall_normal`.
    FirstMoved { shift: Vec3, wall_normal: Vec3 },
    /// The second body moves by `shift` and remembers `wall_normal`.
    SecondMoved { shift: Vec3, wall_normal: Vec3 },
}

impl Contact {
    /// The stored numbers can be computed with, and the normal in the
    /// world frame is at most one unit along each axis.
    pub open spec fn wf(self) -> bool {
        &&& in_limit(self.penetration as int)
        &&& self.normal1.wf()
        &&& self.normal2.wf()
        &&& self.global_normal1.within(UNIT as int)
    }

    /// Whether the stored numbers can be computed with and the normal in
    /// the world frame is at most one unit along each axis.
    pub fn is_valid(&self) -> (r: bool)
        ensures
            r == self.wf(),
    {
        fits_limit(self.penetration) && self.normal1.fits(LIMIT) && self.normal2.fits(LIMIT)
            && self.global_normal1.fits(UNIT)
    }

    /// The world normal times the penetration.
    pub open spec fn overlap(self) -> Vec3 {
        vec3(
            mul_units(self.penetration as int, self.global_normal1.x as int),
            mul_units(self.penetration as int, self.global_normal1.y as int),
            mul_units(self.penetration as int, self.global_normal1.z as int),
        )
    }
}

/// What a contact asks of the host.
///
/// A contact counts only where the bodies overlap, both are rigid bodies
/// and exactly one of them is kinematic. The kinematic body moves out of
/// the other by the penetration along the world normal, the first body
/// against the normal and the second along it, and remembers the contact
/// normal on its own side.
pub open spec fn contact_response(
    first_kinematic: Option<bool>,
    second_kinematic: Option<bool>,
    contact: Contact,
) -> ContactResponse {
    let overlap = contact.overlap();
    if contact.penetration <= 0 {
        ContactResponse::Ignored
    } else if first_kinematic == Some(true) && second_kinematic == Some(false) {
        ContactResponse::FirstMoved {
            shift: vec3(-overlap.x, -overlap.y, -overlap.z),
            wall_normal: contact.normal1,
        }
    } else if first_kinematic == Some(false) && second_kinematic == Some(true) {
        ContactResponse::SecondMoved { shift: overlap, wall_normal: contact.normal2 }
    } else {
        ContactResponse::Ignored
    }
}

/// Decides what one contact between two bodies does. `first_kinematic`
/// and `second_kinematic` say of each body whether it is a rigid body at
/// all, and if so whether it is kinematic.
pub fn handle_collisions(
    first_kinematic: Option<bool>,
    second_kinematic: Option<bool>,
    contact: &Contact,
) -> (response: ContactResponse)
    requires
        contact.wf(),
    ensures
        response == contact_response(first_kinematic, second_kinematic, *contact),
        match response {
            ContactResponse::Ignored => true,
            ContactResponse::FirstMoved { shift, wall_normal } => shift.within(
                contact.penetration as int,
            ) && wall_normal.wf(),
            ContactResponse::SecondMoved { shift, wall_normal } => shift.within(
                contact.penetration as int,
            ) && wall_normal.wf(),
        },
{
    if contact.penetration <= 0 {
        return ContactResponse::Ignored;
    }
    let overlap = Vec3 {
        x: mul_fixed(contact.penetration, contact.global_normal1.x),
        y: mul_fixed(contact.penetration, contact.global_normal1.y),
        z: mul_fixed(contact.penetration, contact.global_normal1.z),
    };
    match (first_kinematic, second_kinematic) {
        (Some(true), Some(false)) => ContactResponse::FirstMoved {
            shift: Vec3 { x: -overlap.x, y: -overlap.y, z: -overlap.z },
            wall_normal: contact.normal1,
        },
        (Some(false), Some(true)) => ContactResponse::SecondMoved {
            shift: overlap,
            wall_normal: contact.normal2,
        },
        _ => ContactResponse::Ignored,
    }
}

/// Decides what one contact of a pair of bodies does, where the host says
/// whether the pair touched in the substep that is being solved: a pair
/// that did not changes nothing, and a pair that did is answered as
/// `handle_collisions` answers it.
pub fn contact_counts(
    during_current_substep: bool,
    first_kinematic: Option<bool>,
    second_kinematic: Option<bool>,
    contact: &Contact,
) -> (response: ContactResponse)
    requires
        contact.wf(),
    ensures
        response == (if during_current_substep {
            contact_response(first_kinematic, second_kinematic, *contact)
        } else {
            ContactResponse::Ignored
        }),
        match response {
            ContactResponse::Ignored => true,
            ContactResponse::FirstMoved { shift, wall_normal } => shift.within(
                contact.penetration as int,
            ) && wall_normal.wf(),
            ContactResponse::SecondMoved { shift, wall_normal } => shift.within(
                contact.penetration as int,
            ) && wall_normal.wf(),
        },
{
    if during_current_substep {
        handle_collisions(first_kinematic, second_kinematic, contact)
    } else {
        ContactResponse::Ignored
    }
}

/// Leaves the normal of a wall that was hit for the next terrain pass.
pub fn store_wall_collision(physics: &mut PlatformingCharacterPhysics, wall_normal: &Vec3)
    requires
        old(physics).wf(),
        wall_normal.wf(),
    ensures
        *final(physics) == (PlatformingCharacterPhysics {
            wall_collision_normal: Some(*wall_normal),
            ..*old(physics)
        }),
        final(physics).wf(),
{
    physics.wall_collision_normal = Some(*wall_normal);
}

/// Bodies that do not overlap, two kinematic bodies, two that are not,
/// and a body that is no rigid body leave everything where it is.
pub proof fn lemma_contact_needs_one_kinematic(
    first_kinematic: Option<bool>,
    second_kinematic: Option<bool>,
    contact: Contact,
)
    ensures
        (contact_response(first_kinematic, second_kinematic, contact) is Ignored) <==> ({
            ||| contact.penetration <= 0
            ||| first_kinematic is None
            ||| second_kinematic is None
            ||| first_kinematic == second_kinematic
        }),
{
    match (first_kinematic, second_kinematic) {
        (Some(a), Some(b)) => {
            assert(first_kinematic == second_kinematic <==> a == b);
        },
        _ => {},
    }
}

} // verus!
