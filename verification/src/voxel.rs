//! Voxel values: the closed set of per-position payloads, with the
//! collidability predicate as a plain match over the variants.

use vstd::prelude::*;

verus! {

/// A voxel value: either empty space or solid matter.
#[derive(Copy, Clone, Eq, PartialEq, Structural, Debug, Hash)]
pub enum Voxel {
    Vaccum,
    Solid,
}

impl Voxel {
    /// Whether this voxel occupies space for collision purposes.
    pub fn is_collidable(self) -> (r: bool)
        ensures
            r == self.spec_is_collidable(),
    {
        match self {
            Voxel::Vaccum => false,
            Voxel::Solid => true,
        }
    }

    /// The collidability of a voxel value, as a predicate.
    pub open spec fn spec_is_collidable(self) -> bool {
        self is Solid
    }

    /// The mass of one unit voxel of this value, in exact mass units.
    pub fn mass(self) -> (r: i64)
        ensures
            r == self.spec_mass(),
    {
        match self {
            Voxel::Vaccum => 0,
            Voxel::Solid => 1,
        }
    }

    /// The mass contributed by a voxel value.
    pub open spec fn spec_mass(self) -> i64 {
        if self is Solid {
            1i64
        } else {
            0i64
        }
    }
}

} // verus!
