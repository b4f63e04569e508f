//! Geometric foundation: integer lattice vectors and matrices, and the
//! fixed-point scalar, vector, matrix and rotor types used for world-space
//! arithmetic.

use vstd::prelude::*;

pub mod fx;
pub mod fxmat;
pub mod fxvec;
pub mod lmat;
pub mod lvec;
pub mod rotor;
pub mod ulmat;
pub mod ulvec;

pub use fx::Fx;
pub use fxmat::FxMat;
pub use fxvec::FxVec;
pub use lmat::LMat;
pub use lvec::LVec;
pub use rotor::Rot;
pub use ulmat::ULMat;
pub use ulvec::ULVec;

verus! {

/// A position on the integer voxel lattice: the storage key of one unit
/// voxel, and the unit of mass placement in physics.
#[derive(Copy, Clone, Eq, PartialEq, Structural, Debug, Hash)]
pub struct IVec {
    pub x: i32,
    pub y: i32,
    pub z: i32,
}

impl IVec {
    /// Builds the lattice position `(x, y, z)`.
    pub fn new(x: i32, y: i32, z: i32) -> (r: IVec)
        ensures
            r == (IVec { x, y, z }),
    {
        IVec { x, y, z }
    }

    /// The origin of the lattice.
    pub fn zero() -> (r: IVec)
        ensures
            r == (IVec { x: 0i32, y: 0i32, z: 0i32 }),
    {
        IVec { x: 0, y: 0, z: 0 }
    }
}

} // verus!
