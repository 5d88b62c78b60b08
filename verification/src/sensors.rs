//! The kinds of sensor that a character carries.

use vstd::prelude::*;

verus! {

/// Different kinds of sensor a character has.
#[derive(Clone, Copy, Debug, PartialEq, Eq, Structural)]
pub enum CharacterSensor {
    FloorFront,
    FloorBack,
}

impl CharacterSensor {
    /// How many kinds there are.
    pub const COUNT: usize = 2;

    /// The place of this kind among the sensors of a character.
    pub open spec fn position(self) -> usize {
        match self {
            CharacterSensor::FloorFront => 0,
            CharacterSensor::FloorBack => 1,
        }
    }

    /// The place of this kind among the sensors of a character.
    pub fn index(&self) -> (i: usize)
        ensures
            i == self.position(),
            i < CharacterSensor::COUNT,
    {
        match self {
            CharacterSensor::FloorFront => 0,
            CharacterSensor::FloorBack => 1,
        }
    }

    /// The kind at a place, if there is one.
    pub fn from_repr(discriminant: usize) -> (kind: Option<CharacterSensor>)
        ensures
            match kind {
                Some(k) => k.position() == discriminant,
                None => discriminant >= CharacterSensor::COUNT,
            },
    {
        if discriminant == 0 {
            Some(CharacterSensor::FloorFront)
        } else if discriminant == 1 {
            Some(CharacterSensor::FloorBack)
        } else {
            None
        }
    }
}

} // verus!
